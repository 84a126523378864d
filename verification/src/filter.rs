//! The filter/sort engine: fuzzy-match every entry name against the live
//! query, keep the matches with their scores, and rank them best-first.
//!
//! The fuzzy scorer itself is an external capability; the engine is
//! specified and verified for every scorer outcome.

use vstd::prelude::*;

use crate::entries::Entry;
use crate::entries::EntryModel;
use crate::entries::models_of;

verus! {

/// Score that the fuzzy matcher assigns to `name` for the query `query`,
/// or `None` when `name` does not match. The scorer's exact formula is
/// not part of this library's contract; only that it is a function of the
/// two strings alone.
pub uninterp spec fn fuzzy_score(name: Seq<char>, query: Seq<char>) -> Option<i64>;

/// Relies on `fuzzy_matcher`'s `SkimMatcherV2` with its default settings:
/// `fuzzy_match` returns a score that depends only on the candidate string
/// and the pattern (the matcher's caches are scratch space).
#[verifier::external_body]
fn fuzzy_match_score(name: &str, query: &str) -> (r: Option<i64>)
    ensures
        r == fuzzy_score(name@, query@),
{
    fuzzy_matcher::FuzzyMatcher::fuzzy_match(
        &fuzzy_matcher::skim::SkimMatcherV2::default(),
        name,
        query,
    )
}

/// The model of `e` with its score replaced by the fuzzy score for `q`.
pub open spec fn rescored(e: EntryModel, q: Seq<char>) -> EntryModel {
    EntryModel { name: e.name, modified: e.modified, score: fuzzy_score(e.name, q)->0 }
}

/// The entries of `s` that match `q`, in input order, each carrying its score.
pub open spec fn matches_of(s: Seq<EntryModel>, q: Seq<char>) -> Seq<EntryModel>
    decreases s.len(),
{
    if s.len() == 0 {
        Seq::empty()
    } else {
        let rest = matches_of(s.drop_first(), q);
        if fuzzy_score(s[0].name, q) is Some {
            seq![rescored(s[0], q)] + rest
        } else {
            rest
        }
    }
}

/// Insert `e` into `s` (assumed sorted by score, descending) before the
/// first element with a strictly smaller score, so that equal scores keep
/// their input order.
pub open spec fn insert_by_score(e: EntryModel, s: Seq<EntryModel>) -> Seq<EntryModel>
    decreases s.len(),
{
    if s.len() == 0 {
        seq![e]
    } else if e.score > s[0].score {
        seq![e] + s
    } else {
        seq![s[0]] + insert_by_score(e, s.drop_first())
    }
}

/// Stable insertion sort by score, best match first.
pub open spec fn sort_by_score(s: Seq<EntryModel>) -> Seq<EntryModel>
    decreases s.len(),
{
    if s.len() == 0 {
        s
    } else {
        insert_by_score(s.last(), sort_by_score(s.drop_last()))
    }
}

/// What one filter pass produces from the full entry list `s` and the
/// query `q`: everything, untouched, for the empty query; otherwise the
/// matching entries, rescored and ranked best-first.
pub open spec fn filter_model(s: Seq<EntryModel>, q: Seq<char>) -> Seq<EntryModel> {
    if q.len() == 0 {
        s
    } else {
        sort_by_score(matches_of(s, q))
    }
}

proof fn lemma_matches_of_push(s: Seq<EntryModel>, q: Seq<char>, x: EntryModel)
    ensures
        matches_of(s.push(x), q) == if fuzzy_score(x.name, q) is Some {
            matches_of(s, q).push(rescored(x, q))
        } else {
            matches_of(s, q)
        },
    decreases s.len(),
{
    let sp = s.push(x);
    if s.len() == 0 {
        assert(sp[0] == x);
        assert(sp.drop_first() =~= Seq::<EntryModel>::empty());
        assert(matches_of(Seq::<EntryModel>::empty(), q) =~= Seq::<EntryModel>::empty());
        if fuzzy_score(x.name, q) is Some {
            assert(matches_of(sp, q) =~= matches_of(s, q).push(rescored(x, q)));
        } else {
            assert(matches_of(sp, q) =~= matches_of(s, q));
        }
    } else {
        assert(sp[0] == s[0]);
        assert(sp.drop_first() =~= s.drop_first().push(x));
        lemma_matches_of_push(s.drop_first(), q, x);
        if fuzzy_score(x.name, q) is Some {
            assert(matches_of(sp, q) =~= matches_of(s, q).push(rescored(x, q)));
        } else {
            assert(matches_of(sp, q) =~= matches_of(s, q));
        }
    }
}

proof fn lemma_insert_by_score_at(e: EntryModel, s: Seq<EntryModel>, j: int)
    requires
        0 <= j <= s.len(),
        forall|k: int| 0 <= k < j ==> !(e.score > s[k].score),
        j < s.len() ==> e.score > s[j].score,
    ensures
        insert_by_score(e, s) == s.subrange(0, j) + seq![e] + s.subrange(j, s.len() as int),
    decreases s.len(),
{
    if s.len() == 0 {
        assert(insert_by_score(e, s) =~= s.subrange(0, j) + seq![e] + s.subrange(
            j,
            s.len() as int,
        ));
    } else if j == 0 {
        assert(insert_by_score(e, s) =~= s.subrange(0, 0) + seq![e] + s.subrange(
            0,
            s.len() as int,
        ));
    } else {
        lemma_insert_by_score_at(e, s.drop_first(), j - 1);
        assert(s.drop_first().subrange(0, j - 1) =~= s.subrange(1, j));
        assert(s.drop_first().subrange(j - 1, s.drop_first().len() as int) =~= s.subrange(
            j,
            s.len() as int,
        ));
        assert(insert_by_score(e, s) =~= s.subrange(0, j) + seq![e] + s.subrange(
            j,
            s.len() as int,
        ));
    }
}

/// Every filtered entry carries exactly the score the scorer assigns to
/// its name for `q`, and that score exists.
pub open spec fn well_scored(s: Seq<EntryModel>, q: Seq<char>) -> bool {
    forall|i: int|
        0 <= i < s.len() ==> (#[trigger] fuzzy_score(s[i].name, q)) is Some && s[i].score
            == fuzzy_score(s[i].name, q)->0
}

/// Ranked best-first: scores never increase along the sequence.
pub open spec fn sorted_by_score_desc(s: Seq<EntryModel>) -> bool {
    forall|i: int, j: int| 0 <= i <= j < s.len() ==> s[i].score >= s[j].score
}

proof fn lemma_matches_of_well_scored(s: Seq<EntryModel>, q: Seq<char>)
    ensures
        well_scored(matches_of(s, q), q),
    decreases s.len(),
{
    if s.len() > 0 {
        lemma_matches_of_well_scored(s.drop_first(), q);
        let rest = matches_of(s.drop_first(), q);
        let r = matches_of(s, q);
        if fuzzy_score(s[0].name, q) is Some {
            assert forall|i: int|
                0 <= i < r.len() implies (#[trigger] fuzzy_score(r[i].name, q)) is Some
                && r[i].score == fuzzy_score(r[i].name, q)->0 by {
                if i == 0 {
                    assert(r[0] == rescored(s[0], q));
                } else {
                    assert(r[i] == rest[i - 1]);
                }
            }
        }
    }
}

proof fn lemma_insert_by_score_elements(e: EntryModel, s: Seq<EntryModel>)
    ensures
        insert_by_score(e, s).len() == s.len() + 1,
        forall|i: int|
            0 <= i < insert_by_score(e, s).len() ==> (#[trigger] insert_by_score(e, s)[i] == e
                || s.contains(insert_by_score(e, s)[i])),
    decreases s.len(),
{
    let r = insert_by_score(e, s);
    if s.len() == 0 {
    } else if e.score > s[0].score {
        assert forall|i: int| 0 <= i < r.len() implies r[i] == e || s.contains(r[i]) by {
            if i > 0 {
                assert(r[i] == s[i - 1]);
            }
        }
    } else {
        lemma_insert_by_score_elements(e, s.drop_first());
        assert forall|i: int| 0 <= i < r.len() implies r[i] == e || s.contains(r[i]) by {
            if i == 0 {
                assert(r[0] == s[0]);
            } else {
                let rr = insert_by_score(e, s.drop_first());
                assert(r[i] == rr[i - 1]);
                if rr[i - 1] != e {
                    let k = choose|k: int|
                        0 <= k < s.drop_first().len() && s.drop_first()[k] == rr[i - 1];
                    assert(s[k + 1] == rr[i - 1]);
                }
            }
        }
    }
}

proof fn lemma_sort_by_score_elements(s: Seq<EntryModel>)
    ensures
        sort_by_score(s).len() == s.len(),
        forall|i: int|
            0 <= i < sort_by_score(s).len() ==> s.contains(#[trigger] sort_by_score(s)[i]),
    decreases s.len(),
{
    if s.len() > 0 {
        let rest = sort_by_score(s.drop_last());
        lemma_sort_by_score_elements(s.drop_last());
        lemma_insert_by_score_elements(s.last(), rest);
        let r = sort_by_score(s);
        assert forall|i: int| 0 <= i < r.len() implies s.contains(r[i]) by {
            if r[i] == s.last() {
                assert(s[s.len() - 1] == r[i]);
            } else {
                assert(rest.contains(r[i]));
                let k = choose|k: int| 0 <= k < rest.len() && rest[k] == r[i];
                let m = choose|m: int|
                    0 <= m < s.drop_last().len() && s.drop_last()[m] == rest[k];
                assert(s[m] == r[i]);
            }
        }
    }
}

proof fn lemma_insert_by_score_sorted(e: EntryModel, s: Seq<EntryModel>)
    requires
        sorted_by_score_desc(s),
    ensures
        sorted_by_score_desc(insert_by_score(e, s)),
    decreases s.len(),
{
    let r = insert_by_score(e, s);
    if s.len() == 0 {
    } else if e.score > s[0].score {
    } else {
        assert(sorted_by_score_desc(s.drop_first()));
        lemma_insert_by_score_sorted(e, s.drop_first());
        lemma_insert_by_score_elements(e, s.drop_first());
        let rr = insert_by_score(e, s.drop_first());
        assert forall|i: int, j: int| 0 <= i <= j < r.len() implies r[i].score >= r[j].score by {
            if i == 0 && j > 0 {
                assert(r[j] == rr[j - 1]);
                if rr[j - 1] == e {
                    assert(s[0].score >= e.score);
                } else {
                    let k = choose|k: int|
                        0 <= k < s.drop_first().len() && s.drop_first()[k] == rr[j - 1];
                    assert(s[k + 1] == rr[j - 1]);
                }
            } else if i > 0 {
                assert(r[i] == rr[i - 1] && r[j] == rr[j - 1]);
            }
        }
    }
}

proof fn lemma_sort_by_score_sorted(s: Seq<EntryModel>)
    ensures
        sorted_by_score_desc(sort_by_score(s)),
    decreases s.len(),
{
    if s.len() > 0 {
        lemma_sort_by_score_sorted(s.drop_last());
        lemma_insert_by_score_sorted(s.last(), sort_by_score(s.drop_last()));
    }
}

proof fn lemma_insert_by_score_at_end(e: EntryModel, s: Seq<EntryModel>)
    requires
        forall|k: int| 0 <= k < s.len() ==> !(e.score > s[k].score),
    ensures
        insert_by_score(e, s) == s.push(e),
{
    lemma_insert_by_score_at(e, s, s.len() as int);
    assert(s.subrange(0, s.len() as int) + seq![e] + s.subrange(s.len() as int, s.len() as int)
        =~= s.push(e));
}

proof fn lemma_sort_of_sorted_identity(s: Seq<EntryModel>)
    requires
        sorted_by_score_desc(s),
    ensures
        sort_by_score(s) == s,
    decreases s.len(),
{
    if s.len() > 0 {
        assert(sorted_by_score_desc(s.drop_last()));
        lemma_sort_of_sorted_identity(s.drop_last());
        lemma_insert_by_score_at_end(s.last(), s.drop_last());
        assert(s.drop_last().push(s.last()) =~= s);
    }
}

proof fn lemma_matches_of_well_scored_identity(s: Seq<EntryModel>, q: Seq<char>)
    requires
        well_scored(s, q),
    ensures
        matches_of(s, q) == s,
    decreases s.len(),
{
    if s.len() > 0 {
        let d = s.drop_first();
        assert forall|i: int|
            0 <= i < d.len() implies (#[trigger] fuzzy_score(d[i].name, q)) is Some && d[i].score
            == fuzzy_score(d[i].name, q)->0 by {
            assert(d[i] == s[i + 1]);
        }
        lemma_matches_of_well_scored_identity(s.drop_first(), q);
        assert(rescored(s[0], q) == s[0]);
        assert(seq![s[0]] + s.drop_first() =~= s);
    }
}

/// Filtering with the empty query is the identity: the full entry list
/// comes back untouched, in its original order.
pub proof fn lemma_filter_empty_query_identity(s: Seq<EntryModel>, q: Seq<char>)
    requires
        q.len() == 0,
    ensures
        filter_model(s, q) == s,
{
}

/// A name that does not fuzzy-match the (non-empty) query is absent from
/// the filtered entries.
pub proof fn lemma_filter_excludes_nonmatches(s: Seq<EntryModel>, q: Seq<char>, name: Seq<char>)
    requires
        q.len() > 0,
        fuzzy_score(name, q) is None,
    ensures
        forall|j: int| 0 <= j < filter_model(s, q).len() ==> filter_model(s, q)[j].name != name,
{
    let m = matches_of(s, q);
    let f = filter_model(s, q);
    lemma_matches_of_well_scored(s, q);
    lemma_sort_by_score_elements(m);
    assert forall|j: int| 0 <= j < f.len() implies f[j].name != name by {
        assert(m.contains(f[j]));
        let k = choose|k: int| 0 <= k < m.len() && m[k] == f[j];
        assert(fuzzy_score(m[k].name, q) is Some);
    }
}

proof fn lemma_matches_of_keeps(s: Seq<EntryModel>, q: Seq<char>, i: int)
    requires
        0 <= i < s.len(),
        fuzzy_score(s[i].name, q) is Some,
    ensures
        matches_of(s, q).contains(rescored(s[i], q)),
    decreases s.len(),
{
    let m = matches_of(s, q);
    if i == 0 {
        assert(m[0] == rescored(s[0], q));
    } else {
        lemma_matches_of_keeps(s.drop_first(), q, i - 1);
        let rest = matches_of(s.drop_first(), q);
        let j = choose|j: int| 0 <= j < rest.len() && rest[j] == rescored(s.drop_first()[i - 1], q);
        assert(s.drop_first()[i - 1] == s[i]);
        if fuzzy_score(s[0].name, q) is Some {
            assert(m[j + 1] == rescored(s[i], q));
        } else {
            assert(m[j] == rescored(s[i], q));
        }
    }
}

proof fn lemma_insert_by_score_keeps(e: EntryModel, s: Seq<EntryModel>)
    ensures
        insert_by_score(e, s).contains(e),
        forall|x: EntryModel| #[trigger] s.contains(x) ==> insert_by_score(e, s).contains(x),
    decreases s.len(),
{
    let r = insert_by_score(e, s);
    if s.len() == 0 {
        assert(r[0] == e);
    } else if e.score > s[0].score {
        assert(r[0] == e);
        assert forall|x: EntryModel| s.contains(x) implies r.contains(x) by {
            let k = choose|k: int| 0 <= k < s.len() && s[k] == x;
            assert(r[k + 1] == x);
        }
    } else {
        lemma_insert_by_score_keeps(e, s.drop_first());
        let rr = insert_by_score(e, s.drop_first());
        let je = choose|j: int| 0 <= j < rr.len() && rr[j] == e;
        assert(r[je + 1] == e);
        assert forall|x: EntryModel| s.contains(x) implies r.contains(x) by {
            let k = choose|k: int| 0 <= k < s.len() && s[k] == x;
            if k == 0 {
                assert(r[0] == x);
            } else {
                assert(s.drop_first()[k - 1] == x);
                assert(s.drop_first().contains(x));
                let j = choose|j: int| 0 <= j < rr.len() && rr[j] == x;
                assert(r[j + 1] == x);
            }
        }
    }
}

proof fn lemma_sort_by_score_keeps(s: Seq<EntryModel>)
    ensures
        forall|x: EntryModel| #[trigger] s.contains(x) ==> sort_by_score(s).contains(x),
    decreases s.len(),
{
    if s.len() > 0 {
        lemma_sort_by_score_keeps(s.drop_last());
        lemma_insert_by_score_keeps(s.last(), sort_by_score(s.drop_last()));
        let r = sort_by_score(s);
        assert forall|x: EntryModel| s.contains(x) implies r.contains(x) by {
            let k = choose|k: int| 0 <= k < s.len() && s[k] == x;
            if k == s.len() - 1 {
                assert(r.contains(s.last()));
            } else {
                assert(s.drop_last()[k] == x);
                assert(s.drop_last().contains(x));
            }
        }
    }
}

/// Every entry whose name fuzzy-matches the (non-empty) query is kept:
/// the filtered entries hold it, rescored with its match score.
pub proof fn lemma_filter_keeps_matches(s: Seq<EntryModel>, q: Seq<char>, i: int)
    requires
        q.len() > 0,
        0 <= i < s.len(),
        fuzzy_score(s[i].name, q) is Some,
    ensures
        filter_model(s, q).contains(rescored(s[i], q)),
{
    lemma_matches_of_keeps(s, q, i);
    lemma_sort_by_score_keeps(matches_of(s, q));
}

/// For a non-empty query the filtered entries are ranked best-first.
pub proof fn lemma_filter_ranked(s: Seq<EntryModel>, q: Seq<char>)
    requires
        q.len() > 0,
    ensures
        sorted_by_score_desc(filter_model(s, q)),
{
    lemma_sort_by_score_sorted(matches_of(s, q));
}

/// Filtering is idempotent: filtering the filtered entries with the same
/// query yields them again, identically.
pub proof fn lemma_filter_idempotent(s: Seq<EntryModel>, q: Seq<char>)
    ensures
        filter_model(filter_model(s, q), q) == filter_model(s, q),
{
    if q.len() > 0 {
        let m = matches_of(s, q);
        let f = sort_by_score(m);
        lemma_matches_of_well_scored(s, q);
        lemma_sort_by_score_elements(m);
        assert(well_scored(f, q)) by {
            assert forall|i: int|
                0 <= i < f.len() implies (#[trigger] fuzzy_score(f[i].name, q)) is Some
                && f[i].score == fuzzy_score(f[i].name, q)->0 by {
                assert(m.contains(f[i]));
                let k = choose|k: int| 0 <= k < m.len() && m[k] == f[i];
                assert(fuzzy_score(m[k].name, q) is Some);
            }
        }
        lemma_matches_of_well_scored_identity(f, q);
        lemma_sort_by_score_sorted(m);
        lemma_sort_of_sorted_identity(f);
    }
}

/// Insert `e` into the vector `v`, already ranked best-first, keeping it
/// ranked and placing `e` after any entry with the same score.
fn insert_ranked(v: &mut Vec<Entry>, e: Entry)
    ensures
        models_of(final(v)@) == insert_by_score(e@, models_of(old(v)@)),
{
    let ghost s = models_of(old(v)@);
    let mut j: usize = 0;
    while j < v.len() && !(e.score > v[j].score)
        invariant
            v@ == old(v)@,
            s == models_of(v@),
            j <= v@.len(),
            forall|k: int| 0 <= k < j ==> !(e@.score > s[k].score),
        decreases v@.len() - j,
    {
        assert(s[j as int] == v@[j as int]@);
        j += 1;
    }
    proof {
        if j < v@.len() {
            assert(s[j as int] == v@[j as int]@);
        }
        lemma_insert_by_score_at(e@, s, j as int);
    }
    v.insert(j, e);
    proof {
        assert(models_of(v@) =~= s.subrange(0, j as int) + seq![e@] + s.subrange(
            j as int,
            s.len() as int,
        ));
    }
}

/// One filter pass: keep the entries whose name fuzzy-matches `query`,
/// rescored, ranked best-first; with an empty query, return the full list
/// unchanged.
pub fn filter_entries(all: &Vec<Entry>, query: &str) -> (res: Vec<Entry>)
    ensures
        models_of(res@) == filter_model(models_of(all@), query@),
{
    let ghost s = models_of(all@);
    if query.is_empty() {
        let res = all.clone();
        proof {
            assert(models_of(res@) =~= s);
        }
        res
    } else {
        let mut matched: Vec<Entry> = Vec::new();
        let mut i: usize = 0;
        while i < all.len()
            invariant
                s == models_of(all@),
                i <= all@.len(),
                models_of(matched@) == matches_of(s.subrange(0, i as int), query@),
            decreases all@.len() - i,
        {
            let ghost pre = matched@;
            let entry = &all[i];
            assert(entry@ == s[i as int]);
            match fuzzy_match_score(entry.name.as_str(), query) {
                Some(sc) => {
                    let kept = Entry { name: entry.name.clone(), modified: entry.modified, score: sc };
                    assert(kept@ == rescored(s[i as int], query@));
                    matched.push(kept);
                    proof {
                        assert(models_of(matched@) =~= models_of(pre).push(
                            rescored(s[i as int], query@),
                        ));
                    }
                },
                None => {},
            }
            proof {
                assert(s.subrange(0, i + 1) =~= s.subrange(0, i as int).push(s[i as int]));
                lemma_matches_of_push(s.subrange(0, i as int), query@, s[i as int]);
            }
            i += 1;
        }
        proof {
            assert(s.subrange(0, s.len() as int) =~= s);
        }
        let ghost m = models_of(matched@);
        let mut res: Vec<Entry> = Vec::new();
        let mut i: usize = 0;
        while i < matched.len()
            invariant
                m == models_of(matched@),
                i <= matched@.len(),
                models_of(res@) == sort_by_score(m.subrange(0, i as int)),
            decreases matched@.len() - i,
        {
            let e = matched[i].clone();
            assert(e@ == m[i as int]);
            insert_ranked(&mut res, e);
            proof {
                assert(m.subrange(0, i + 1).drop_last() =~= m.subrange(0, i as int));
                assert(m.subrange(0, i + 1).last() == m[i as int]);
            }
            i += 1;
        }
        proof {
            assert(m.subrange(0, m.len() as int) =~= m);
        }
        res
    }
}

} // verus!
