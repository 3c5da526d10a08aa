//! Laws of the search evaluator, proved against the ranking model: what the
//! threshold, the filters, exact matches and the stable ordering guarantee.

use vstd::prelude::*;
use vstd::seq_lib::group_seq_properties;
use crate::index::{IndexedNameModel, PathModel, VolumeModel, lookup_spec};
use crate::score::{EXACT_MATCH_SCORE, MINIMUM_SCORE, fuzzy_score_of, score_of};
use crate::search::{
    Candidate, ResultModel, candidate_accepted, candidate_of, candidate_text,
    candidates_of_paths, candidates_of_volume, extension_passes, insert_ranked_spec,
    rank_spec, ranked_candidates, results_of, search_spec,
};
use crate::text::suffix_matches;

verus! {

/// The candidates holding one given score.
pub open spec fn has_score(v: int) -> spec_fn(Candidate) -> bool {
    |c: Candidate| c.score == v
}

/// Scores never increase along a ranked sequence.
pub open spec fn sorted_descending(s: Seq<Candidate>) -> bool {
    forall|i: int, j: int| 0 <= i <= j < s.len() ==> s[i].score >= s[j].score
}

/// What every candidate that survives a scan satisfies: its score is the
/// score of its own candidate text, at least the threshold, and its kind
/// passed the type filter, a file also the extension filter.
pub open spec fn surviving_candidate(
    c: Candidate,
    query: Seq<char>,
    extension: Seq<char>,
    accept_files: bool,
    accept_directories: bool,
) -> bool {
    &&& c.score == score_of(candidate_text(c.name, c.kind), query)
    &&& c.score >= MINIMUM_SCORE as int
    &&& (c.kind is File ==> accept_files && extension_passes(c.name, extension))
    &&& (c.kind is Directory ==> accept_directories)
}

proof fn lemma_insert_ranked_all(s: Seq<Candidate>, c: Candidate, p: spec_fn(Candidate) -> bool)
    requires
        forall|i: int| 0 <= i < s.len() ==> p(#[trigger] s[i]),
        p(c),
    ensures
        insert_ranked_spec(s, c).len() == s.len() + 1,
        forall|i: int| 0 <= i < s.len() + 1 ==> p(#[trigger] insert_ranked_spec(s, c)[i]),
    decreases s.len(),
{
    if s.len() == 0 {
    } else if s[0].score >= c.score {
        assert(forall|i: int| 0 <= i < s.drop_first().len() ==> p(
            #[trigger] s.drop_first()[i],
        ));
        lemma_insert_ranked_all(s.drop_first(), c, p);
        assert(forall|i: int|
            1 <= i < s.len() + 1 ==> insert_ranked_spec(s, c)[i] == insert_ranked_spec(
                s.drop_first(),
                c,
            )[i - 1]);
    } else {
    }
}

proof fn lemma_rank_all(s: Seq<Candidate>, p: spec_fn(Candidate) -> bool)
    requires
        forall|i: int| 0 <= i < s.len() ==> p(#[trigger] s[i]),
    ensures
        rank_spec(s).len() == s.len(),
        forall|i: int| 0 <= i < s.len() ==> p(#[trigger] rank_spec(s)[i]),
    decreases s.len(),
{
    if s.len() == 0 {
    } else {
        assert(forall|i: int| 0 <= i < s.drop_last().len() ==> p(
            #[trigger] s.drop_last()[i],
        ));
        lemma_rank_all(s.drop_last(), p);
        lemma_insert_ranked_all(rank_spec(s.drop_last()), s.last(), p);
    }
}

proof fn lemma_insert_ranked_sorted(s: Seq<Candidate>, c: Candidate)
    requires
        sorted_descending(s),
    ensures
        sorted_descending(insert_ranked_spec(s, c)),
    decreases s.len(),
{
    if s.len() == 0 {
    } else if s[0].score >= c.score {
        let d = s.drop_first();
        assert forall|i: int, j: int| 0 <= i <= j < d.len() implies (#[trigger] d[i]).score
            >= (#[trigger] d[j]).score by {
            assert(d[i] == s[i + 1]);
            assert(d[j] == s[j + 1]);
        }
        assert(sorted_descending(d));
        lemma_insert_ranked_sorted(d, c);
        let p = |x: Candidate| s[0].score >= x.score;
        assert(forall|i: int| 0 <= i < d.len() ==> p(#[trigger] d[i]));
        lemma_insert_ranked_all(d, c, p);
        let out = insert_ranked_spec(s, c);
        assert forall|i: int, j: int| 0 <= i <= j < out.len() implies out[i].score
            >= out[j].score by {
            if i == 0 {
                if j > 0 {
                    assert(out[j] == insert_ranked_spec(d, c)[j - 1]);
                    assert(p(insert_ranked_spec(d, c)[j - 1]));
                }
            } else {
                assert(out[i] == insert_ranked_spec(d, c)[i - 1]);
                assert(out[j] == insert_ranked_spec(d, c)[j - 1]);
            }
        }
    } else {
    }
}

proof fn lemma_rank_sorted(s: Seq<Candidate>)
    ensures
        sorted_descending(rank_spec(s)),
    decreases s.len(),
{
    if s.len() == 0 {
    } else {
        lemma_rank_sorted(s.drop_last());
        lemma_insert_ranked_sorted(rank_spec(s.drop_last()), s.last());
    }
}

proof fn lemma_filter_push(s: Seq<Candidate>, x: Candidate, p: spec_fn(Candidate) -> bool)
    ensures
        s.push(x).filter(p) == if p(x) {
            s.filter(p).push(x)
        } else {
            s.filter(p)
        },
{
    reveal(Seq::filter);
    assert(s.push(x).drop_last() =~= s);
    assert(s.push(x).last() == x);
}

proof fn lemma_filter_none(s: Seq<Candidate>, p: spec_fn(Candidate) -> bool)
    requires
        forall|i: int| 0 <= i < s.len() ==> !p(#[trigger] s[i]),
    ensures
        s.filter(p) == Seq::<Candidate>::empty(),
    decreases s.len(),
{
    reveal(Seq::filter);
    if s.len() == 0 {
        assert(s.filter(p) =~= Seq::<Candidate>::empty());
    } else {
        assert(forall|i: int| 0 <= i < s.drop_last().len() ==> !p(
            #[trigger] s.drop_last()[i],
        ));
        lemma_filter_none(s.drop_last(), p);
        assert(!p(s.last()));
        assert(s.drop_last().push(s.last()) =~= s);
        lemma_filter_push(s.drop_last(), s.last(), p);
    }
}

proof fn lemma_insert_ranked_filter(s: Seq<Candidate>, c: Candidate, v: int)
    requires
        sorted_descending(s),
    ensures
        insert_ranked_spec(s, c).filter(has_score(v)) == if c.score == v {
            s.filter(has_score(v)).push(c)
        } else {
            s.filter(has_score(v))
        },
    decreases s.len(),
{
    broadcast use group_seq_properties;

    reveal(Seq::filter);
    let p = has_score(v);
    if s.len() == 0 {
        assert(Seq::<Candidate>::empty().push(c) =~= seq![c]);
        lemma_filter_push(Seq::<Candidate>::empty(), c, p);
        assert(Seq::<Candidate>::empty().filter(p) =~= Seq::<Candidate>::empty());
    } else if s[0].score >= c.score {
        let d = s.drop_first();
        assert forall|i: int, j: int| 0 <= i <= j < d.len() implies (#[trigger] d[i]).score
            >= (#[trigger] d[j]).score by {
            assert(d[i] == s[i + 1]);
            assert(d[j] == s[j + 1]);
        }
        assert(sorted_descending(d));
        lemma_insert_ranked_filter(d, c, v);
        Seq::filter_distributes_over_add(seq![s[0]], insert_ranked_spec(d, c), p);
        Seq::filter_distributes_over_add(seq![s[0]], d, p);
        assert(seq![s[0]] + d =~= s);
        assert(seq![s[0]] =~= Seq::<Candidate>::empty().push(s[0]));
        lemma_filter_push(Seq::<Candidate>::empty(), s[0], p);
        assert(Seq::<Candidate>::empty().filter(p) =~= Seq::<Candidate>::empty());
        if c.score == v {
            assert(seq![s[0]].filter(p) + d.filter(p).push(c) =~= (seq![s[0]].filter(p)
                + d.filter(p)).push(c));
        }
    } else {
        Seq::filter_distributes_over_add(seq![c], s, p);
        assert(seq![c] =~= Seq::<Candidate>::empty().push(c));
        lemma_filter_push(Seq::<Candidate>::empty(), c, p);
        assert(Seq::<Candidate>::empty().filter(p) =~= Seq::<Candidate>::empty());
        if c.score == v {
            assert(forall|i: int| 0 <= i < s.len() ==> !p(#[trigger] s[i])) by {
                assert(forall|i: int|
                    0 <= i < s.len() ==> s[0].score >= (#[trigger] s[i]).score);
            }
            lemma_filter_none(s, p);
            assert(seq![c].filter(p) + Seq::<Candidate>::empty() =~= Seq::<
                Candidate,
            >::empty().push(c));
            assert(s.filter(p).push(c) =~= Seq::<Candidate>::empty().push(c));
        } else {
            assert(seq![c].filter(p) + s.filter(p) =~= s.filter(p));
        }
    }
}

proof fn lemma_rank_filter(s: Seq<Candidate>, v: int)
    ensures
        rank_spec(s).filter(has_score(v)) == s.filter(has_score(v)),
    decreases s.len(),
{
    let p = has_score(v);
    if s.len() == 0 {
    } else {
        lemma_rank_filter(s.drop_last(), v);
        lemma_rank_sorted(s.drop_last());
        lemma_insert_ranked_filter(rank_spec(s.drop_last()), s.last(), v);
        assert(s.drop_last().push(s.last()) =~= s);
        lemma_filter_push(s.drop_last(), s.last(), p);
    }
}

proof fn lemma_candidates_paths_surviving(
    name: Seq<char>,
    paths: Seq<PathModel>,
    query: Seq<char>,
    extension: Seq<char>,
    accept_files: bool,
    accept_directories: bool,
)
    ensures
        forall|k: int|
            0 <= k < candidates_of_paths(
                name,
                paths,
                query,
                extension,
                accept_files,
                accept_directories,
            ).len() ==> surviving_candidate(
                #[trigger] candidates_of_paths(
                    name,
                    paths,
                    query,
                    extension,
                    accept_files,
                    accept_directories,
                )[k],
                query,
                extension,
                accept_files,
                accept_directories,
            ),
    decreases paths.len(),
{
    if paths.len() == 0 {
    } else {
        lemma_candidates_paths_surviving(
            name,
            paths.drop_last(),
            query,
            extension,
            accept_files,
            accept_directories,
        );
        let out = candidates_of_paths(
            name,
            paths,
            query,
            extension,
            accept_files,
            accept_directories,
        );
        let rest = candidates_of_paths(
            name,
            paths.drop_last(),
            query,
            extension,
            accept_files,
            accept_directories,
        );
        assert forall|k: int| 0 <= k < out.len() implies surviving_candidate(
            #[trigger] out[k],
            query,
            extension,
            accept_files,
            accept_directories,
        ) by {
            if k < rest.len() {
                assert(out[k] == rest[k]);
            } else {
                assert(out[k] == candidate_of(name, paths.last(), query));
            }
        }
    }
}

proof fn lemma_candidates_volume_surviving(
    vol: Seq<IndexedNameModel>,
    query: Seq<char>,
    extension: Seq<char>,
    accept_files: bool,
    accept_directories: bool,
)
    ensures
        forall|k: int|
            0 <= k < candidates_of_volume(
                vol,
                query,
                extension,
                accept_files,
                accept_directories,
            ).len() ==> surviving_candidate(
                #[trigger] candidates_of_volume(
                    vol,
                    query,
                    extension,
                    accept_files,
                    accept_directories,
                )[k],
                query,
                extension,
                accept_files,
                accept_directories,
            ),
    decreases vol.len(),
{
    if vol.len() == 0 {
    } else {
        lemma_candidates_volume_surviving(
            vol.drop_last(),
            query,
            extension,
            accept_files,
            accept_directories,
        );
        lemma_candidates_paths_surviving(
            vol.last().name,
            vol.last().paths,
            query,
            extension,
            accept_files,
            accept_directories,
        );
        let out = candidates_of_volume(vol, query, extension, accept_files,
            accept_directories,
        );
        let head = candidates_of_volume(
            vol.drop_last(),
            query,
            extension,
            accept_files,
            accept_directories,
        );
        let tail = candidates_of_paths(
            vol.last().name,
            vol.last().paths,
            query,
            extension,
            accept_files,
            accept_directories,
        );
        assert forall|k: int| 0 <= k < out.len() implies surviving_candidate(
            #[trigger] out[k],
            query,
            extension,
            accept_files,
            accept_directories,
        ) by {
            if k < head.len() {
                assert(out[k] == head[k]);
            } else {
                assert(out[k] == tail[k - head.len()]);
            }
        }
    }
}

/// Every ranked candidate survived the scan: its score is that of its own
/// text and at least the threshold, and it passed the type and extension
/// filters.
pub proof fn lemma_ranked_surviving(
    vol: Seq<IndexedNameModel>,
    query: Seq<char>,
    extension: Seq<char>,
    accept_files: bool,
    accept_directories: bool,
)
    ensures
        ranked_candidates(vol, query, extension, accept_files, accept_directories).len()
            == candidates_of_volume(vol, query, extension, accept_files,
            accept_directories,
        ).len(),
        forall|k: int|
            0 <= k < ranked_candidates(
                vol,
                query,
                extension,
                accept_files,
                accept_directories,
            ).len() ==> surviving_candidate(
                #[trigger] ranked_candidates(
                    vol,
                    query,
                    extension,
                    accept_files,
                    accept_directories,
                )[k],
                query,
                extension,
                accept_files,
                accept_directories,
            ),
{
    let cands = candidates_of_volume(vol, query, extension, accept_files, accept_directories);
    let p = |c: Candidate|
        surviving_candidate(c, query, extension, accept_files, accept_directories);
    lemma_candidates_volume_surviving(vol, query, extension, accept_files, accept_directories);
    assert(forall|i: int| 0 <= i < cands.len() ==> p(#[trigger] cands[i]));
    lemma_rank_all(cands, p);
    assert(forall|k: int|
        0 <= k < rank_spec(cands).len() ==> p(#[trigger] rank_spec(cands)[k]));
}

/// Threshold exclusion: a candidate whose score falls below the minimum
/// never appears among the ranked candidates, whatever the query and
/// filters.
pub proof fn lemma_threshold_exclusion(
    vol: Seq<IndexedNameModel>,
    query: Seq<char>,
    extension: Seq<char>,
    accept_files: bool,
    accept_directories: bool,
)
    ensures
        forall|k: int|
            0 <= k < ranked_candidates(
                vol,
                query,
                extension,
                accept_files,
                accept_directories,
            ).len() ==> (#[trigger] ranked_candidates(
                vol,
                query,
                extension,
                accept_files,
                accept_directories,
            )[k]).score >= MINIMUM_SCORE as int,
{
    lemma_ranked_surviving(vol, query, extension, accept_files, accept_directories);
}

/// Type filtering: with files not accepted no file result ever appears, and
/// the same for directories.
pub proof fn lemma_type_filtering(
    vol: Seq<IndexedNameModel>,
    query: Seq<char>,
    extension: Seq<char>,
    accept_files: bool,
    accept_directories: bool,
)
    ensures
        forall|k: int|
            0 <= k < results_of(
                ranked_candidates(vol, query, extension, accept_files, accept_directories),
            ).len() ==> {
                let out = #[trigger] results_of(
                    ranked_candidates(
                        vol,
                        query,
                        extension,
                        accept_files,
                        accept_directories,
                    ),
                )[k];
                &&& (out is File ==> accept_files)
                &&& (out is Directory ==> accept_directories)
            },
{
    lemma_ranked_surviving(vol, query, extension, accept_files, accept_directories);
}

/// Extension filtering: with a non-empty filter every returned file's name
/// ends with it; directory results are untouched by the filter.
pub proof fn lemma_extension_filtering(
    vol: Seq<IndexedNameModel>,
    query: Seq<char>,
    extension: Seq<char>,
    accept_files: bool,
    accept_directories: bool,
)
    requires
        extension.len() > 0,
    ensures
        forall|k: int|
            0 <= k < results_of(
                ranked_candidates(vol, query, extension, accept_files, accept_directories),
            ).len() ==> ((#[trigger] results_of(
                ranked_candidates(vol, query, extension, accept_files, accept_directories),
            )[k]) matches ResultModel::File { name, .. } ==> suffix_matches(
                name,
                extension,
            )),
{
    lemma_ranked_surviving(vol, query, extension, accept_files, accept_directories);
}

/// Ranking order: scores never increase along the ranked candidates.
pub proof fn lemma_ranking_sorted(
    vol: Seq<IndexedNameModel>,
    query: Seq<char>,
    extension: Seq<char>,
    accept_files: bool,
    accept_directories: bool,
)
    ensures
        sorted_descending(
            ranked_candidates(vol, query, extension, accept_files, accept_directories),
        ),
{
    lemma_rank_sorted(
        candidates_of_volume(vol, query, extension, accept_files, accept_directories),
    );
}

/// Ranking stability: among the ranked candidates, those of any one score
/// stand exactly in the order the scan found them.
pub proof fn lemma_ranking_stable(
    vol: Seq<IndexedNameModel>,
    query: Seq<char>,
    extension: Seq<char>,
    accept_files: bool,
    accept_directories: bool,
    v: int,
)
    ensures
        ranked_candidates(vol, query, extension, accept_files, accept_directories).filter(
            has_score(v),
        ) == candidates_of_volume(
            vol,
            query,
            extension,
            accept_files,
            accept_directories,
        ).filter(has_score(v)),
{
    lemma_rank_filter(
        candidates_of_volume(vol, query, extension, accept_files, accept_directories),
        v,
    );
}

proof fn lemma_insert_ranked_contains(s: Seq<Candidate>, c: Candidate, x: Candidate)
    requires
        x == c || s.contains(x),
    ensures
        insert_ranked_spec(s, c).contains(x),
    decreases s.len(),
{
    let out = insert_ranked_spec(s, c);
    if s.len() == 0 {
        assert(out[0] == c);
    } else if s[0].score >= c.score {
        if x == s[0] {
            assert(out[0] == x);
        } else {
            if x != c {
                let j = choose|j: int| 0 <= j < s.len() && s[j] == x;
                assert(s.drop_first()[j - 1] == x);
                assert(s.drop_first().contains(x));
            }
            lemma_insert_ranked_contains(s.drop_first(), c, x);
            let j = choose|j: int|
                0 <= j < insert_ranked_spec(s.drop_first(), c).len()
                    && insert_ranked_spec(s.drop_first(), c)[j] == x;
            assert(out[j + 1] == x);
        }
    } else {
        if x == c {
            assert(out[0] == x);
        } else {
            let j = choose|j: int| 0 <= j < s.len() && s[j] == x;
            assert(out[j + 1] == x);
        }
    }
}

proof fn lemma_rank_contains(s: Seq<Candidate>, x: Candidate)
    requires
        s.contains(x),
    ensures
        rank_spec(s).contains(x),
    decreases s.len(),
{
    let j = choose|j: int| 0 <= j < s.len() && s[j] == x;
    if j == s.len() - 1 {
        lemma_insert_ranked_contains(rank_spec(s.drop_last()), s.last(), x);
    } else {
        assert(s.drop_last()[j] == x);
        assert(s.drop_last().contains(x));
        lemma_rank_contains(s.drop_last(), x);
        lemma_insert_ranked_contains(rank_spec(s.drop_last()), s.last(), x);
    }
}

proof fn lemma_candidates_paths_present(
    name: Seq<char>,
    paths: Seq<PathModel>,
    query: Seq<char>,
    extension: Seq<char>,
    accept_files: bool,
    accept_directories: bool,
    pi: int,
)
    requires
        0 <= pi < paths.len(),
        candidate_accepted(
            name,
            paths[pi],
            query,
            extension,
            accept_files,
            accept_directories,
        ),
    ensures
        candidates_of_paths(
            name,
            paths,
            query,
            extension,
            accept_files,
            accept_directories,
        ).contains(candidate_of(name, paths[pi], query)),
    decreases paths.len(),
{
    let out = candidates_of_paths(name, paths, query, extension, accept_files,
        accept_directories,
    );
    if pi == paths.len() - 1 {
        assert(out.last() == candidate_of(name, paths[pi], query));
    } else {
        assert(paths.drop_last()[pi] == paths[pi]);
        lemma_candidates_paths_present(
            name,
            paths.drop_last(),
            query,
            extension,
            accept_files,
            accept_directories,
            pi,
        );
        let rest = candidates_of_paths(
            name,
            paths.drop_last(),
            query,
            extension,
            accept_files,
            accept_directories,
        );
        let j = choose|j: int|
            0 <= j < rest.len() && rest[j] == candidate_of(name, paths[pi], query);
        assert(out[j] == candidate_of(name, paths[pi], query));
    }
}

proof fn lemma_candidates_volume_present(
    vol: Seq<IndexedNameModel>,
    query: Seq<char>,
    extension: Seq<char>,
    accept_files: bool,
    accept_directories: bool,
    ni: int,
    pi: int,
)
    requires
        0 <= ni < vol.len(),
        0 <= pi < vol[ni].paths.len(),
        candidate_accepted(
            vol[ni].name,
            vol[ni].paths[pi],
            query,
            extension,
            accept_files,
            accept_directories,
        ),
    ensures
        candidates_of_volume(vol, query, extension, accept_files, accept_directories).contains(
            candidate_of(vol[ni].name, vol[ni].paths[pi], query),
        ),
    decreases vol.len(),
{
    let c = candidate_of(vol[ni].name, vol[ni].paths[pi], query);
    let out = candidates_of_volume(vol, query, extension, accept_files, accept_directories);
    let head = candidates_of_volume(
        vol.drop_last(),
        query,
        extension,
        accept_files,
        accept_directories,
    );
    if ni == vol.len() - 1 {
        lemma_candidates_paths_present(
            vol[ni].name,
            vol[ni].paths,
            query,
            extension,
            accept_files,
            accept_directories,
            pi,
        );
        let tail = candidates_of_paths(
            vol[ni].name,
            vol[ni].paths,
            query,
            extension,
            accept_files,
            accept_directories,
        );
        let j = choose|j: int| 0 <= j < tail.len() && tail[j] == c;
        assert(out[head.len() + j] == c);
    } else {
        assert(vol.drop_last()[ni] == vol[ni]);
        lemma_candidates_volume_present(
            vol.drop_last(),
            query,
            extension,
            accept_files,
            accept_directories,
            ni,
            pi,
        );
        let j = choose|j: int| 0 <= j < head.len() && head[j] == c;
        assert(out[j] == c);
    }
}

/// A candidate that may stand at the very top of a ranking: its text is the
/// query itself, or the fuzzy matcher gave it at least the fixed top score.
pub open spec fn top_ranked(c: Candidate, query: Seq<char>) -> bool {
    candidate_text(c.name, c.kind) == query || (fuzzy_score_of(
        candidate_text(c.name, c.kind),
        query,
    ) matches Some(s) && s >= EXACT_MATCH_SCORE)
}

/// Exact-match priority: an indexed occurrence whose candidate text equals
/// the query, and which the filters accept, is ranked with the fixed top
/// score, and whatever stands before it scores at least as much: another
/// occurrence of the query's own text, or a candidate the fuzzy matcher
/// rated at the fixed top score or above.
pub proof fn lemma_exact_match_priority(
    vol: Seq<IndexedNameModel>,
    query: Seq<char>,
    extension: Seq<char>,
    accept_files: bool,
    accept_directories: bool,
    ni: int,
    pi: int,
)
    requires
        0 <= ni < vol.len(),
        0 <= pi < vol[ni].paths.len(),
        candidate_text(vol[ni].name, vol[ni].paths[pi].entry_kind) == query,
        vol[ni].paths[pi].entry_kind is File ==> accept_files && extension_passes(
            vol[ni].name,
            extension,
        ),
        vol[ni].paths[pi].entry_kind is Directory ==> accept_directories,
    ensures
        ({
            let c = candidate_of(vol[ni].name, vol[ni].paths[pi], query);
            let ranked = ranked_candidates(
                vol,
                query,
                extension,
                accept_files,
                accept_directories,
            );
            c.score == EXACT_MATCH_SCORE as int && exists|i: int|
                0 <= i < ranked.len() && ranked[i] == c && (forall|j: int|
                    0 <= j < i ==> (#[trigger] ranked[j]).score >= EXACT_MATCH_SCORE as int
                        && top_ranked(ranked[j], query))
        }),
{
    let c = candidate_of(vol[ni].name, vol[ni].paths[pi], query);
    let cands = candidates_of_volume(vol, query, extension, accept_files, accept_directories);
    let ranked = ranked_candidates(vol, query, extension, accept_files, accept_directories);
    assert(c.score == EXACT_MATCH_SCORE as int);
    assert(candidate_accepted(
        vol[ni].name,
        vol[ni].paths[pi],
        query,
        extension,
        accept_files,
        accept_directories,
    ));
    lemma_candidates_volume_present(
        vol,
        query,
        extension,
        accept_files,
        accept_directories,
        ni,
        pi,
    );
    lemma_rank_contains(cands, c);
    lemma_rank_sorted(cands);
    lemma_ranked_surviving(vol, query, extension, accept_files, accept_directories);
    let i = choose|i: int| 0 <= i < ranked.len() && ranked[i] == c;
    assert forall|j: int| 0 <= j < i implies (#[trigger] ranked[j]).score
        >= EXACT_MATCH_SCORE as int && top_ranked(ranked[j], query) by {
        assert(ranked[j].score >= ranked[i].score);
        assert(surviving_candidate(ranked[j], query, extension, accept_files,
            accept_directories,
        ));
        assert(ranked[j].score == score_of(
            candidate_text(ranked[j].name, ranked[j].kind),
            query,
        ));
    }
    assert(0 <= i < ranked.len() && ranked[i] == c && (forall|j: int|
        0 <= j < i ==> (#[trigger] ranked[j]).score >= EXACT_MATCH_SCORE as int
            && top_ranked(ranked[j], query)));
}

/// Unknown volume: a search over a volume identifier the index does not
/// hold returns an empty list, not an error.
pub proof fn lemma_unknown_volume(
    state: Seq<VolumeModel>,
    search_path: Seq<char>,
    query: Seq<char>,
    extension: Seq<char>,
    accept_files: bool,
    accept_directories: bool,
)
    requires
        search_path.len() > 0,
        lookup_spec(state, seq![search_path[0]]) is None,
    ensures
        search_spec(state, search_path, query, extension, accept_files, accept_directories)
            == Seq::<ResultModel>::empty(),
{
}

/// Determinism of ranking: the search outcome is a function of the index
/// snapshot and the inputs alone, so two equal snapshots rank identically.
pub proof fn lemma_search_deterministic(
    state1: Seq<VolumeModel>,
    state2: Seq<VolumeModel>,
    search_path: Seq<char>,
    query: Seq<char>,
    extension: Seq<char>,
    accept_files: bool,
    accept_directories: bool,
)
    requires
        state1 == state2,
    ensures
        search_spec(state1, search_path, query, extension, accept_files, accept_directories)
            == search_spec(
            state2,
            search_path,
            query,
            extension,
            accept_files,
            accept_directories,
        ),
{
}

} // verus!
