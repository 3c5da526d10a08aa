//! The in-memory filesystem index: a snapshot of the filenames known on each
//! volume, each name with the list of paths where it occurs.
//!
//! An external indexer owns writes to this state; the search evaluator only
//! reads it.  Within one filename's path list, and across the filenames of a
//! volume, enumeration order is the order of insertion; ranking ties are
//! broken by that order, so it is part of the model.

use vstd::prelude::*;

verus! {

/// Whether a cached path names a file or a directory.
#[derive(Clone, Copy, PartialEq, Eq, Structural, Debug)]
pub enum EntryKind {
    File,
    Directory,
}

/// One occurrence of a filename in the index: where it lives and what kind
/// of entry it is.
pub struct CachedPath {
    pub file_path: String,
    pub entry_kind: EntryKind,
}

/// Mathematical model of a `CachedPath`.
pub ghost struct PathModel {
    pub file_path: Seq<char>,
    pub entry_kind: EntryKind,
}

impl View for CachedPath {
    type V = PathModel;

    open spec fn view(&self) -> PathModel {
        PathModel { file_path: self.file_path@, entry_kind: self.entry_kind }
    }
}

/// One filename of a volume together with every indexed path that carries it.
/// Duplicate paths are tolerated and simply produce duplicate results.
pub struct IndexedName {
    pub name: String,
    pub paths: Vec<CachedPath>,
}

/// Mathematical model of an `IndexedName`.
pub ghost struct IndexedNameModel {
    pub name: Seq<char>,
    pub paths: Seq<PathModel>,
}

impl View for IndexedName {
    type V = IndexedNameModel;

    open spec fn view(&self) -> IndexedNameModel {
        IndexedNameModel {
            name: self.name@,
            paths: self.paths@.map_values(|p: CachedPath| p@),
        }
    }
}

/// The per-volume index: every filename known on one volume, in stable
/// enumeration order.
pub struct VolumeCache {
    pub names: Vec<IndexedName>,
}

impl View for VolumeCache {
    type V = Seq<IndexedNameModel>;

    open spec fn view(&self) -> Seq<IndexedNameModel> {
        self.names@.map_values(|n: IndexedName| n@)
    }
}

impl VolumeCache {
    /// An empty per-volume index.
    pub fn new() -> (r: VolumeCache)
        ensures
            r@ =~= Seq::<IndexedNameModel>::empty(),
    {
        VolumeCache { names: Vec::new() }
    }

    /// Appends one filename with its path list.
    pub fn add(&mut self, name: String, paths: Vec<CachedPath>)
        ensures
            final(self)@ =~= old(self)@.push(
                IndexedNameModel {
                    name: name@,
                    paths: paths@.map_values(|p: CachedPath| p@),
                },
            ),
    {
        self.names.push(IndexedName { name, paths });
    }
}

/// One volume of the whole index.
pub struct Volume {
    pub volume_id: String,
    pub cache: VolumeCache,
}

/// Mathematical model of a `Volume`.
pub ghost struct VolumeModel {
    pub volume_id: Seq<char>,
    pub cache: Seq<IndexedNameModel>,
}

impl View for Volume {
    type V = VolumeModel;

    open spec fn view(&self) -> VolumeModel {
        VolumeModel { volume_id: self.volume_id@, cache: self.cache@ }
    }
}

/// The process-wide index: one per-volume cache for each known volume.
pub struct AppState {
    pub system_cache: Vec<Volume>,
}

impl View for AppState {
    type V = Seq<VolumeModel>;

    open spec fn view(&self) -> Seq<VolumeModel> {
        self.system_cache@.map_values(|v: Volume| v@)
    }
}

/// The cache of the first volume of `s` whose identifier is `id`, if any
/// volume carries it.
pub open spec fn lookup_spec(s: Seq<VolumeModel>, id: Seq<char>) -> Option<
    Seq<IndexedNameModel>,
>
    decreases s.len(),
{
    if s.len() == 0 {
        None
    } else if s[0].volume_id == id {
        Some(s[0].cache)
    } else {
        lookup_spec(s.drop_first(), id)
    }
}

impl AppState {
    /// An index that knows no volume.
    pub fn new() -> (r: AppState)
        ensures
            r@ =~= Seq::<VolumeModel>::empty(),
    {
        AppState { system_cache: Vec::new() }
    }

    /// Appends one volume with its cache.
    pub fn add_volume(&mut self, volume_id: String, cache: VolumeCache)
        ensures
            final(self)@ =~= old(self)@.push(
                VolumeModel { volume_id: volume_id@, cache: cache@ },
            ),
    {
        self.system_cache.push(Volume { volume_id, cache });
    }

    /// The per-volume cache stored under `volume_id`.  An unknown identifier
    /// yields `None`, which a caller must treat as an empty index, not as a
    /// fault.
    pub fn lookup_volume(&self, volume_id: &str) -> (r: Option<&VolumeCache>)
        ensures
            match r {
                Some(cache) => lookup_spec(self@, volume_id@) == Some(cache@),
                None => lookup_spec(self@, volume_id@) is None,
            },
    {
        let n = self.system_cache.len();
        let mut i: usize = 0;
        proof {
            assert(self@.skip(0) =~= self@);
        }
        while i < n
            invariant
                n == self.system_cache.len(),
                0 <= i <= n,
                lookup_spec(self@, volume_id@) == lookup_spec(
                    self@.skip(i as int),
                    volume_id@,
                ),
            decreases n - i,
        {
            proof {
                assert(self@.skip(i as int).drop_first() =~= self@.skip(i + 1));
                assert(self@.skip(i as int)[0] == self@[i as int]);
            }
            if crate::text::str_eq(self.system_cache[i].volume_id.as_str(), volume_id) {
                return Some(&self.system_cache[i].cache);
            }
            i += 1;
        }
        proof {
            assert(self@.skip(n as int) =~= Seq::<VolumeModel>::empty());
        }
        None
    }

    /// The per-volume cache whose identifier is the one-character string
    /// made of `letter`.
    pub fn lookup_volume_by_letter(&self, letter: char) -> (r: Option<&VolumeCache>)
        ensures
            match r {
                Some(cache) => lookup_spec(self@, seq![letter]) == Some(cache@),
                None => lookup_spec(self@, seq![letter]) is None,
            },
    {
        let n = self.system_cache.len();
        let mut i: usize = 0;
        proof {
            assert(self@.skip(0) =~= self@);
        }
        while i < n
            invariant
                n == self.system_cache.len(),
                0 <= i <= n,
                lookup_spec(self@, seq![letter]) == lookup_spec(
                    self@.skip(i as int),
                    seq![letter],
                ),
            decreases n - i,
        {
            proof {
                assert(self@.skip(i as int).drop_first() =~= self@.skip(i + 1));
                assert(self@.skip(i as int)[0] == self@[i as int]);
            }
            let id: &str = self.system_cache[i].volume_id.as_str();
            if id.unicode_len() == 1 && id.get_char(0) == letter {
                proof {
                    assert(id@ =~= seq![letter]);
                }
                return Some(&self.system_cache[i].cache);
            }
            proof {
                if id@ == seq![letter] {
                    assert(id@.len() == 1 && id@[0] == letter);
                }
            }
            i += 1;
        }
        proof {
            assert(self@.skip(n as int) =~= Seq::<VolumeModel>::empty());
        }
        None
    }
}

impl Default for AppState {
    /// An index that knows no volume.
    fn default() -> (r: AppState)
        ensures
            r@ =~= Seq::<VolumeModel>::empty(),
    {
        AppState { system_cache: Vec::new() }
    }
}

} // verus!
