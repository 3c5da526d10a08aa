//! The fuzzy-search evaluator: scans one volume of the index, scores each
//! candidate name against the query, drops candidates that a filter or the
//! score threshold rejects, and returns the survivors ordered best match
//! first, ties broken by scan order.

use vstd::prelude::*;
use crate::index::{AppState, EntryKind, IndexedNameModel, PathModel, VolumeModel, lookup_spec};
use crate::score::{MINIMUM_SCORE, score_filename, score_of};
use crate::text::{file_stem, lower_of, stem_of, str_ends_with, suffix_matches, to_lowercase};

verus! {

/// One ranked match handed back to the caller.  Ranking is conveyed purely
/// through result order; no score is exposed.
pub enum SearchResult {
    File { name: String, path: String },
    Directory { name: String, path: String },
}

/// Mathematical model of a `SearchResult`.
pub ghost enum ResultModel {
    File { name: Seq<char>, path: Seq<char> },
    Directory { name: Seq<char>, path: Seq<char> },
}

impl View for SearchResult {
    type V = ResultModel;

    open spec fn view(&self) -> ResultModel {
        match self {
            SearchResult::File { name, path } => ResultModel::File {
                name: name@,
                path: path@,
            },
            SearchResult::Directory { name, path } => ResultModel::Directory {
                name: name@,
                path: path@,
            },
        }
    }
}

/// One surviving candidate of the scan, with the score that ranks it.
pub ghost struct Candidate {
    pub name: Seq<char>,
    pub path: Seq<char>,
    pub kind: EntryKind,
    pub score: int,
}

/// The text a candidate is scored by: a file's name without its trailing
/// extension-like suffix, a directory's name unmodified.
pub open spec fn candidate_text(name: Seq<char>, kind: EntryKind) -> Seq<char> {
    match kind {
        EntryKind::File => stem_of(name),
        EntryKind::Directory => name,
    }
}

/// The candidate built from one indexed occurrence of `name`.
pub open spec fn candidate_of(name: Seq<char>, p: PathModel, query: Seq<char>) -> Candidate {
    Candidate {
        name,
        path: p.file_path,
        kind: p.entry_kind,
        score: score_of(candidate_text(name, p.entry_kind), query),
    }
}

/// An empty filter lets every name through; a non-empty one only names that
/// end with it, taken as a literal suffix.
pub open spec fn extension_passes(name: Seq<char>, extension: Seq<char>) -> bool {
    extension.len() == 0 || suffix_matches(name, extension)
}

/// Whether one indexed occurrence of `name` survives the type filter, the
/// extension filter and the score threshold.  The extension filter never
/// touches a directory.
pub open spec fn candidate_accepted(
    name: Seq<char>,
    p: PathModel,
    query: Seq<char>,
    extension: Seq<char>,
    accept_files: bool,
    accept_directories: bool,
) -> bool {
    &&& score_of(candidate_text(name, p.entry_kind), query) >= MINIMUM_SCORE as int
    &&& match p.entry_kind {
        EntryKind::File => accept_files && extension_passes(name, extension),
        EntryKind::Directory => accept_directories,
    }
}

/// The surviving candidates of one filename's path list, in scan order.
pub open spec fn candidates_of_paths(
    name: Seq<char>,
    paths: Seq<PathModel>,
    query: Seq<char>,
    extension: Seq<char>,
    accept_files: bool,
    accept_directories: bool,
) -> Seq<Candidate>
    decreases paths.len(),
{
    if paths.len() == 0 {
        Seq::empty()
    } else {
        let rest = candidates_of_paths(
            name,
            paths.drop_last(),
            query,
            extension,
            accept_files,
            accept_directories,
        );
        if candidate_accepted(
            name,
            paths.last(),
            query,
            extension,
            accept_files,
            accept_directories,
        ) {
            rest.push(candidate_of(name, paths.last(), query))
        } else {
            rest
        }
    }
}

/// The surviving candidates of a whole volume, in scan order.
pub open spec fn candidates_of_volume(
    vol: Seq<IndexedNameModel>,
    query: Seq<char>,
    extension: Seq<char>,
    accept_files: bool,
    accept_directories: bool,
) -> Seq<Candidate>
    decreases vol.len(),
{
    if vol.len() == 0 {
        Seq::empty()
    } else {
        candidates_of_volume(
            vol.drop_last(),
            query,
            extension,
            accept_files,
            accept_directories,
        ) + candidates_of_paths(
            vol.last().name,
            vol.last().paths,
            query,
            extension,
            accept_files,
            accept_directories,
        )
    }
}

/// Where `c` lands among already ranked candidates: after every candidate
/// scoring at least as much, before the first scoring less.  Equal scores
/// keep their scan order.
pub open spec fn insert_ranked_spec(s: Seq<Candidate>, c: Candidate) -> Seq<Candidate>
    decreases s.len(),
{
    if s.len() == 0 {
        seq![c]
    } else if s[0].score >= c.score {
        seq![s[0]] + insert_ranked_spec(s.drop_first(), c)
    } else {
        seq![c] + s
    }
}

/// The candidates ordered by descending score, stably: candidates with equal
/// scores keep the relative order they had in the scan.
pub open spec fn rank_spec(s: Seq<Candidate>) -> Seq<Candidate>
    decreases s.len(),
{
    if s.len() == 0 {
        Seq::empty()
    } else {
        insert_ranked_spec(rank_spec(s.drop_last()), s.last())
    }
}

/// The result a candidate turns into.
pub open spec fn result_of(c: Candidate) -> ResultModel {
    match c.kind {
        EntryKind::File => ResultModel::File { name: c.name, path: c.path },
        EntryKind::Directory => ResultModel::Directory { name: c.name, path: c.path },
    }
}

/// The results of a ranked candidate sequence, in order.
pub open spec fn results_of(s: Seq<Candidate>) -> Seq<ResultModel> {
    s.map_values(|c: Candidate| result_of(c))
}

/// The whole ranking of one volume: its surviving candidates sorted by
/// descending score, stably.
pub open spec fn ranked_candidates(
    vol: Seq<IndexedNameModel>,
    query: Seq<char>,
    extension: Seq<char>,
    accept_files: bool,
    accept_directories: bool,
) -> Seq<Candidate> {
    rank_spec(candidates_of_volume(vol, query, extension, accept_files, accept_directories))
}

/// What a search returns: the ranked results of the volume named by the
/// first character of `search_directory`, scored against the lowercased
/// query; an unknown volume yields no results rather than an error.
pub open spec fn search_spec(
    state: Seq<VolumeModel>,
    search_directory: Seq<char>,
    query: Seq<char>,
    extension: Seq<char>,
    accept_files: bool,
    accept_directories: bool,
) -> Seq<ResultModel>
    recommends
        search_directory.len() > 0,
{
    match lookup_spec(state, seq![search_directory[0]]) {
        None => Seq::empty(),
        Some(vol) => results_of(
            ranked_candidates(vol, lower_of(query), extension, accept_files, accept_directories),
        ),
    }
}

/// The two vectors carry, in lockstep, the results and the scores of
/// exactly the candidates of `cs`, in the same order.
pub open spec fn models_ranked(
    rs: Seq<SearchResult>,
    scores: Seq<i64>,
    cs: Seq<Candidate>,
) -> bool {
    &&& rs.len() == cs.len()
    &&& scores.len() == cs.len()
    &&& forall|i: int| 0 <= i < cs.len() ==> (#[trigger] rs[i])@ == result_of(cs[i])
    &&& forall|i: int| 0 <= i < cs.len() ==> (#[trigger] scores[i]) == cs[i].score
}

/// Inserting at the first position whose score is lower is what
/// `insert_ranked_spec` does.
proof fn lemma_insert_ranked_at(s: Seq<Candidate>, c: Candidate, k: int)
    requires
        0 <= k <= s.len(),
        forall|i: int| 0 <= i < k ==> (#[trigger] s[i]).score >= c.score,
        k < s.len() ==> s[k].score < c.score,
    ensures
        insert_ranked_spec(s, c) == s.insert(k, c),
    decreases s.len(),
{
    if s.len() == 0 {
        assert(insert_ranked_spec(s, c) =~= s.insert(0, c));
    } else if s[0].score >= c.score {
        assert(k >= 1);
        assert(forall|i: int|
            0 <= i < k - 1 ==> (#[trigger] s.drop_first()[i]).score == s[i + 1].score);
        lemma_insert_ranked_at(s.drop_first(), c, k - 1);
        assert(insert_ranked_spec(s, c) =~= s.insert(k, c));
    } else {
        assert(k == 0);
        assert(insert_ranked_spec(s, c) =~= s.insert(0, c));
    }
}

/// Places one surviving candidate's result among the already ranked ones:
/// after every result scoring at least as much, before the first scoring
/// less, so that equal scores keep their scan order.
fn insert_ranked(
    results: &mut Vec<SearchResult>,
    scores: &mut Vec<i64>,
    found: SearchResult,
    found_score: i64,
    cs: Ghost<Seq<Candidate>>,
    c: Ghost<Candidate>,
)
    requires
        models_ranked(old(results)@, old(scores)@, cs@),
        found@ == result_of(c@),
        found_score == c@.score,
    ensures
        models_ranked(final(results)@, final(scores)@, insert_ranked_spec(cs@, c@)),
{
    let n = scores.len();
    let mut k: usize = 0;
    while k < n && scores[k] >= found_score
        invariant
            n == scores.len(),
            0 <= k <= n,
            forall|i: int| 0 <= i < k ==> (#[trigger] scores@[i]) >= found_score,
        decreases n - k,
    {
        k += 1;
    }
    proof {
        assert forall|i: int| 0 <= i < k implies (#[trigger] cs@[i]).score >= c@.score by {
            assert(scores@[i] >= found_score);
        }
        lemma_insert_ranked_at(cs@, c@, k as int);
        cs@.insert_ensures(k as int, c@);
    }
    results.insert(k, found);
    scores.insert(k, found_score);
    proof {
        old(results)@.insert_ensures(k as int, found);
        old(scores)@.insert_ensures(k as int, found_score);
    }
}

/// Checks if the filename passes the extension filter: an empty filter lets
/// every name through, a non-empty one only names ending with it.
pub fn passed_extension(filename: &str, extension: &str) -> (r: bool)
    ensures
        r == extension_passes(filename@, extension@),
{
    if extension.is_empty() {
        true
    } else {
        str_ends_with(filename, extension)
    }
}

/// Handles one indexed occurrence of a filename that names a file: applies
/// the type and extension filters, scores the name's stem against the
/// query, and ranks the candidate unless the threshold discards it.
pub fn check_file(
    accept_files: bool,
    filename: &String,
    file_path: &String,
    extension: &String,
    query: &String,
    results: &mut Vec<SearchResult>,
    scores: &mut Vec<i64>,
    cs: Ghost<Seq<Candidate>>,
) -> (updated: Ghost<Seq<Candidate>>)
    requires
        models_ranked(old(results)@, old(scores)@, cs@),
    ensures
        ({
            let p = PathModel { file_path: file_path@, entry_kind: EntryKind::File };
            let next = if candidate_accepted(filename@, p, query@, extension@, accept_files, true) {
                insert_ranked_spec(cs@, candidate_of(filename@, p, query@))
            } else {
                cs@
            };
            updated@ == next && models_ranked(final(results)@, final(scores)@, next)
        }),
{
    let ghost p = PathModel { file_path: file_path@, entry_kind: EntryKind::File };
    if !accept_files {
        return cs;
    }
    if !passed_extension(filename.as_str(), extension.as_str()) {
        return cs;
    }
    let cleaned_filename = file_stem(filename.as_str());
    let file_score = score_filename(cleaned_filename, query.as_str());
    if file_score < MINIMUM_SCORE {
        return cs;
    }
    let ghost c = candidate_of(filename@, p, query@);
    let found = SearchResult::File { name: filename.clone(), path: file_path.clone() };
    insert_ranked(results, scores, found, file_score, cs, Ghost(c));
    Ghost(insert_ranked_spec(cs@, c))
}

/// Extending the scan of one filename's path list by one occurrence extends
/// its surviving candidates by at most that occurrence's candidate.
proof fn lemma_candidates_of_paths_step(
    name: Seq<char>,
    paths: Seq<PathModel>,
    query: Seq<char>,
    extension: Seq<char>,
    accept_files: bool,
    accept_directories: bool,
    pi: int,
)
    requires
        0 <= pi < paths.len(),
    ensures
        candidates_of_paths(
            name,
            paths.take(pi + 1),
            query,
            extension,
            accept_files,
            accept_directories,
        ) == if candidate_accepted(name, paths[pi], query, extension, accept_files,
            accept_directories,
        ) {
            candidates_of_paths(
                name,
                paths.take(pi),
                query,
                extension,
                accept_files,
                accept_directories,
            ).push(candidate_of(name, paths[pi], query))
        } else {
            candidates_of_paths(
                name,
                paths.take(pi),
                query,
                extension,
                accept_files,
                accept_directories,
            )
        },
{
    assert(paths.take(pi + 1).drop_last() =~= paths.take(pi));
    assert(paths.take(pi + 1).last() == paths[pi]);
}

/// Extending the scan of a volume by one filename extends its surviving
/// candidates by that filename's candidates.
proof fn lemma_candidates_of_volume_step(
    vol: Seq<IndexedNameModel>,
    query: Seq<char>,
    extension: Seq<char>,
    accept_files: bool,
    accept_directories: bool,
    ni: int,
)
    requires
        0 <= ni < vol.len(),
    ensures
        candidates_of_volume(
            vol.take(ni + 1),
            query,
            extension,
            accept_files,
            accept_directories,
        ) == candidates_of_volume(vol.take(ni), query, extension, accept_files,
            accept_directories,
        ) + candidates_of_paths(
            vol[ni].name,
            vol[ni].paths,
            query,
            extension,
            accept_files,
            accept_directories,
        ),
{
    assert(vol.take(ni + 1).drop_last() =~= vol.take(ni));
    assert(vol.take(ni + 1).last() == vol[ni]);
}

/// Ranking one more candidate is inserting it among the ranked ones.
proof fn lemma_rank_spec_push(cs: Seq<Candidate>, c: Candidate)
    ensures
        rank_spec(cs.push(c)) == insert_ranked_spec(rank_spec(cs), c),
{
    assert(cs.push(c).drop_last() =~= cs);
    assert(cs.push(c).last() == c);
}

/// Reads the cache and does a fuzzy search for a directory: every filename
/// of the volume named by the first character of `search_path` is
/// scored against the lowercased query, filtered, and the survivors are
/// returned ordered by descending score, ties keeping scan order.  A volume
/// the index does not know yields an empty list.
pub fn search_directory(
    state: &AppState,
    query: String,
    search_path: String,
    extension: String,
    accept_files: bool,
    accept_directories: bool,
) -> (r: Vec<SearchResult>)
    requires
        search_path@.len() > 0,
    ensures
        r@.map_values(|x: SearchResult| x@) == search_spec(
            state@,
            search_path@,
            query@,
            extension@,
            accept_files,
            accept_directories,
        ),
{
    let query = to_lowercase(query.as_str());
    let letter: char = search_path.as_str().get_char(0);
    let mut results: Vec<SearchResult> = Vec::new();
    let mut scores: Vec<i64> = Vec::new();
    match state.lookup_volume_by_letter(letter) {
        None => {
            proof {
                assert(results@.map_values(|x: SearchResult| x@) =~= Seq::<
                    ResultModel,
                >::empty());
            }
            results
        },
        Some(vol) => {
            let ghost volm = vol@;
            let mut cs: Ghost<Seq<Candidate>> = Ghost(Seq::empty());
            let names_len = vol.names.len();
            let mut ni: usize = 0;
            proof {
                assert(volm.take(0) =~= Seq::<IndexedNameModel>::empty());
            }
            while ni < names_len
                invariant
                    names_len == vol.names.len(),
                    0 <= ni <= names_len,
                    volm == vol@,
                    models_ranked(results@, scores@, cs@),
                    cs@ == rank_spec(
                        candidates_of_volume(
                            volm.take(ni as int),
                            query@,
                            extension@,
                            accept_files,
                            accept_directories,
                        ),
                    ),
                decreases names_len - ni,
            {
                let ghost prefix = candidates_of_volume(
                    volm.take(ni as int),
                    query@,
                    extension@,
                    accept_files,
                    accept_directories,
                );
                let paths_len = vol.names[ni].paths.len();
                let mut pi: usize = 0;
                proof {
                    assert(volm[ni as int].paths.take(0) =~= Seq::<PathModel>::empty());
                    assert(prefix + candidates_of_paths(
                        volm[ni as int].name,
                        volm[ni as int].paths.take(0),
                        query@,
                        extension@,
                        accept_files,
                        accept_directories,
                    ) =~= prefix);
                }
                while pi < paths_len
                    invariant
                        names_len == vol.names.len(),
                        0 <= ni < names_len,
                        paths_len == vol.names[ni as int].paths.len(),
                        0 <= pi <= paths_len,
                        volm == vol@,
                        prefix == candidates_of_volume(
                            volm.take(ni as int),
                            query@,
                            extension@,
                            accept_files,
                            accept_directories,
                        ),
                        models_ranked(results@, scores@, cs@),
                        cs@ == rank_spec(
                            prefix + candidates_of_paths(
                                volm[ni as int].name,
                                volm[ni as int].paths.take(pi as int),
                                query@,
                                extension@,
                                accept_files,
                                accept_directories,
                            ),
                        ),
                    decreases paths_len - pi,
                {
                    let ghost scanned = prefix + candidates_of_paths(
                        volm[ni as int].name,
                        volm[ni as int].paths.take(pi as int),
                        query@,
                        extension@,
                        accept_files,
                        accept_directories,
                    );
                    let ghost pm = volm[ni as int].paths[pi as int];
                    proof {
                        lemma_candidates_of_paths_step(
                            volm[ni as int].name,
                            volm[ni as int].paths,
                            query@,
                            extension@,
                            accept_files,
                            accept_directories,
                            pi as int,
                        );
                    }
                    let filename = &vol.names[ni].name;
                    let entry = &vol.names[ni].paths[pi];
                    match entry.entry_kind {
                        EntryKind::File => {
                            cs = check_file(
                                accept_files,
                                filename,
                                &entry.file_path,
                                &extension,
                                &query,
                                &mut results,
                                &mut scores,
                                cs,
                            );
                            proof {
                                if candidate_accepted(
                                    filename@,
                                    pm,
                                    query@,
                                    extension@,
                                    accept_files,
                                    accept_directories,
                                ) {
                                    lemma_rank_spec_push(
                                        scanned,
                                        candidate_of(filename@, pm, query@),
                                    );
                                    assert(scanned.push(candidate_of(filename@, pm, query@))
                                        =~= prefix + candidates_of_paths(
                                        volm[ni as int].name,
                                        volm[ni as int].paths.take(pi + 1),
                                        query@,
                                        extension@,
                                        accept_files,
                                        accept_directories,
                                    ));
                                }
                            }
                        },
                        EntryKind::Directory => {
                            if accept_directories {
                                let dir_score = score_filename(
                                    filename.as_str(),
                                    query.as_str(),
                                );
                                if dir_score >= MINIMUM_SCORE {
                                    let ghost c = candidate_of(filename@, pm, query@);
                                    let found = SearchResult::Directory {
                                        name: filename.clone(),
                                        path: entry.file_path.clone(),
                                    };
                                    insert_ranked(
                                        &mut results,
                                        &mut scores,
                                        found,
                                        dir_score,
                                        cs,
                                        Ghost(c),
                                    );
                                    proof {
                                        lemma_rank_spec_push(scanned, c);
                                        assert(scanned.push(c) =~= prefix
                                            + candidates_of_paths(
                                            volm[ni as int].name,
                                            volm[ni as int].paths.take(pi + 1),
                                            query@,
                                            extension@,
                                            accept_files,
                                            accept_directories,
                                        ));
                                    }
                                    cs = Ghost(insert_ranked_spec(cs@, c));
                                }
                            }
                        },
                    }
                    pi += 1;
                }
                proof {
                    assert(volm[ni as int].paths.take(paths_len as int) =~= volm[
                        ni as int
                    ].paths);
                    lemma_candidates_of_volume_step(
                        volm,
                        query@,
                        extension@,
                        accept_files,
                        accept_directories,
                        ni as int,
                    );
                }
                ni += 1;
            }
            proof {
                assert(volm.take(names_len as int) =~= volm);
                assert(results@.map_values(|x: SearchResult| x@) =~= results_of(cs@));
            }
            results
        },
    }
}

} // verus!
