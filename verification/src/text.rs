//! Character-level string helpers: equality, suffix tests, the stem of a
//! filename, and lowercasing.

use vstd::prelude::*;

verus! {

/// Compares two string slices character by character.
pub fn str_eq(a: &str, b: &str) -> (r: bool)
    ensures
        r == (a@ == b@),
{
    let an = a.unicode_len();
    let bn = b.unicode_len();
    if an != bn {
        return false;
    }
    let mut i: usize = 0;
    while i < an
        invariant
            an == a@.len(),
            bn == b@.len(),
            an == bn,
            0 <= i <= an,
            forall|k: int| 0 <= k < i ==> a@[k] == b@[k],
        decreases an - i,
    {
        if a.get_char(i) != b.get_char(i) {
            return false;
        }
        i += 1;
    }
    proof {
        assert(a@ =~= b@);
    }
    true
}

/// `suffix` stands at the end of `s`.
pub open spec fn suffix_matches(s: Seq<char>, suffix: Seq<char>) -> bool {
    suffix.len() <= s.len() && s.subrange(s.len() - suffix.len(), s.len() as int) == suffix
}

/// Compares the tail of `s` against `suffix`, character by character.
pub fn str_ends_with(s: &str, suffix: &str) -> (r: bool)
    ensures
        r == suffix_matches(s@, suffix@),
{
    let sn = s.unicode_len();
    let xn = suffix.unicode_len();
    if xn > sn {
        return false;
    }
    let off = sn - xn;
    let mut i: usize = 0;
    while i < xn
        invariant
            sn == s@.len(),
            xn == suffix@.len(),
            xn <= sn,
            off == sn - xn,
            0 <= i <= xn,
            forall|k: int| 0 <= k < i ==> s@[off + k] == suffix@[k],
        decreases xn - i,
    {
        if s.get_char(off + i) != suffix.get_char(i) {
            proof {
                assert(s@.subrange(off as int, sn as int)[i as int] == s@[off + i]);
            }
            return false;
        }
        i += 1;
    }
    proof {
        assert(s@.subrange(off as int, sn as int) =~= suffix@);
    }
    true
}

/// The stem of `s` ends just before the last `'.'` that stands after the
/// first character, looking only at positions below `i`; with no such dot the
/// stem is the whole string.  A leading dot alone, as in a hidden file's
/// name, starts no extension.
pub open spec fn stem_end_upto(s: Seq<char>, i: int) -> int
    decreases i,
{
    if i <= 1 {
        s.len() as int
    } else if s[i - 1] == '.' {
        i - 1
    } else {
        stem_end_upto(s, i - 1)
    }
}

/// Where the stem of `s` ends.
pub open spec fn stem_len_of(s: Seq<char>) -> int {
    stem_end_upto(s, s.len() as int)
}

/// `s` with its trailing extension-like suffix removed.
pub open spec fn stem_of(s: Seq<char>) -> Seq<char> {
    s.subrange(0, stem_len_of(s))
}

proof fn lemma_stem_end_upto_bounds(s: Seq<char>, i: int)
    requires
        i <= s.len(),
    ensures
        0 <= stem_end_upto(s, i) <= s.len(),
    decreases i,
{
    if i <= 1 {
    } else if s[i - 1] == '.' {
    } else {
        lemma_stem_end_upto_bounds(s, i - 1);
    }
}

/// The stem ends somewhere within the string.
pub proof fn lemma_stem_bounds(s: Seq<char>)
    ensures
        0 <= stem_len_of(s) <= s.len(),
{
    lemma_stem_end_upto_bounds(s, s.len() as int);
}

/// The part of a filename before its trailing extension-like suffix.
pub fn file_stem(s: &str) -> (r: &str)
    ensures
        r@ == stem_of(s@),
{
    let n = s.unicode_len();
    proof {
        lemma_stem_bounds(s@);
    }
    let mut i: usize = n;
    while i > 1
        invariant
            0 <= i <= n,
            n == s@.len(),
            stem_len_of(s@) == stem_end_upto(s@, i as int),
        decreases i,
    {
        if s.get_char(i - 1) == '.' {
            return s.substring_char(0, i - 1);
        }
        i -= 1;
    }
    proof {
        assert(s@.subrange(0, n as int) =~= s@);
    }
    s.substring_char(0, n)
}

/// What `str::to_lowercase` returns for a given sequence of characters.
pub uninterp spec fn lower_of(s: Seq<char>) -> Seq<char>;

/// Relies on `str::to_lowercase` of std: the result depends on the
/// characters of `s` alone.
#[verifier::external_body]
pub fn to_lowercase(s: &str) -> (r: String)
    ensures
        r@ == lower_of(s@),
{
    s.to_lowercase()
}

} // verus!
