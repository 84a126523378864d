//! The entry model: one candidate folder with its name, modification time
//! and transient fuzzy-match score.

use vstd::prelude::*;

verus! {

/// One candidate folder of the base directory.
pub struct Entry {
    pub name: String,
    pub modified: u64,
    pub score: i64,
}

/// Mathematical model of an [`Entry`].
pub struct EntryModel {
    pub name: Seq<char>,
    pub modified: u64,
    pub score: i64,
}

impl View for Entry {
    type V = EntryModel;

    open spec fn view(&self) -> EntryModel {
        EntryModel { name: self.name@, modified: self.modified, score: self.score }
    }
}

impl Clone for Entry {
    fn clone(&self) -> (r: Self)
        ensures
            r@ == self@,
    {
        Entry { name: self.name.clone(), modified: self.modified, score: self.score }
    }
}

impl Entry {
    /// A fresh entry as produced by the loader, before any filter pass.
    pub fn new(name: String, modified: u64) -> (r: Entry)
        ensures
            r@ == (EntryModel { name: name@, modified, score: 0i64 }),
    {
        Entry { name, modified, score: 0 }
    }
}

/// The models of a sequence of entries.
pub open spec fn models_of(s: Seq<Entry>) -> Seq<EntryModel> {
    s.map_values(|e: Entry| e@)
}

/// Sorted by modification time, most recent first.
pub open spec fn sorted_by_modified_desc(s: Seq<EntryModel>) -> bool {
    forall|i: int, j: int| 0 <= i <= j < s.len() ==> s[i].modified >= s[j].modified
}

/// Insert `e` into `s` (assumed sorted by modification time, descending)
/// after every element with at least as recent a modification time.
pub open spec fn insert_by_modified(e: EntryModel, s: Seq<EntryModel>) -> Seq<EntryModel>
    decreases s.len(),
{
    if s.len() == 0 {
        seq![e]
    } else if e.modified > s[0].modified {
        seq![e] + s
    } else {
        seq![s[0]] + insert_by_modified(e, s.drop_first())
    }
}

/// Stable insertion sort by modification time, most recent first.
pub open spec fn sort_by_modified(s: Seq<EntryModel>) -> Seq<EntryModel>
    decreases s.len(),
{
    if s.len() == 0 {
        s
    } else {
        insert_by_modified(s.last(), sort_by_modified(s.drop_last()))
    }
}

proof fn lemma_insert_by_modified_at(e: EntryModel, s: Seq<EntryModel>, j: int)
    requires
        0 <= j <= s.len(),
        forall|k: int| 0 <= k < j ==> !(e.modified > s[k].modified),
        j < s.len() ==> e.modified > s[j].modified,
    ensures
        insert_by_modified(e, s) == s.subrange(0, j) + seq![e] + s.subrange(j, s.len() as int),
    decreases s.len(),
{
    if s.len() == 0 {
        assert(insert_by_modified(e, s) =~= s.subrange(0, j) + seq![e] + s.subrange(
            j,
            s.len() as int,
        ));
    } else if j == 0 {
        assert(insert_by_modified(e, s) =~= s.subrange(0, 0) + seq![e] + s.subrange(
            0,
            s.len() as int,
        ));
    } else {
        lemma_insert_by_modified_at(e, s.drop_first(), j - 1);
        assert(s.drop_first().subrange(0, j - 1) =~= s.subrange(1, j));
        assert(s.drop_first().subrange(j - 1, s.drop_first().len() as int) =~= s.subrange(
            j,
            s.len() as int,
        ));
        assert(insert_by_modified(e, s) =~= s.subrange(0, j) + seq![e] + s.subrange(
            j,
            s.len() as int,
        ));
    }
}

proof fn lemma_insert_by_modified_sorted(e: EntryModel, s: Seq<EntryModel>)
    requires
        sorted_by_modified_desc(s),
    ensures
        sorted_by_modified_desc(insert_by_modified(e, s)),
    decreases s.len(),
{
    let r = insert_by_modified(e, s);
    if s.len() == 0 {
    } else if e.modified > s[0].modified {
    } else {
        assert(sorted_by_modified_desc(s.drop_first()));
        lemma_insert_by_modified_sorted(e, s.drop_first());
        let rr = insert_by_modified(e, s.drop_first());
        lemma_insert_by_modified_elements(e, s.drop_first());
        assert forall|i: int, j: int|
            0 <= i <= j < r.len() implies r[i].modified >= r[j].modified by {
            if i == 0 && j > 0 {
                assert(r[j] == rr[j - 1]);
                if rr[j - 1] != e {
                    let k = choose|k: int|
                        0 <= k < s.drop_first().len() && s.drop_first()[k] == rr[j - 1];
                    assert(s[k + 1] == rr[j - 1]);
                }
            } else if i > 0 {
                assert(r[i] == rr[i - 1] && r[j] == rr[j - 1]);
            }
        }
    }
}

proof fn lemma_insert_by_modified_elements(e: EntryModel, s: Seq<EntryModel>)
    ensures
        insert_by_modified(e, s).len() == s.len() + 1,
        forall|i: int|
            0 <= i < insert_by_modified(e, s).len() ==> (#[trigger] insert_by_modified(e, s)[i]
                == e || s.contains(insert_by_modified(e, s)[i])),
    decreases s.len(),
{
    let r = insert_by_modified(e, s);
    if s.len() == 0 {
    } else if e.modified > s[0].modified {
        assert forall|i: int| 0 <= i < r.len() implies r[i] == e || s.contains(r[i]) by {
            if i > 0 {
                assert(r[i] == s[i - 1]);
            }
        }
    } else {
        lemma_insert_by_modified_elements(e, s.drop_first());
        assert forall|i: int| 0 <= i < r.len() implies r[i] == e || s.contains(r[i]) by {
            if i == 0 {
                assert(r[0] == s[0]);
            } else {
                let rr = insert_by_modified(e, s.drop_first());
                assert(r[i] == rr[i - 1]);
                if rr[i - 1] != e {
                    let k = choose|k: int|
                        0 <= k < s.drop_first().len() && s.drop_first()[k] == rr[i - 1];
                    assert(s[k + 1] == rr[i - 1]);
                }
            }
        }
    }
}

/// The loader's ordering is really most-recent-first.
pub proof fn lemma_sort_by_modified_sorted(s: Seq<EntryModel>)
    ensures
        sorted_by_modified_desc(sort_by_modified(s)),
    decreases s.len(),
{
    if s.len() > 0 {
        lemma_sort_by_modified_sorted(s.drop_last());
        lemma_insert_by_modified_sorted(s.last(), sort_by_modified(s.drop_last()));
    }
}

fn insert_recent_first(v: &mut Vec<Entry>, e: Entry)
    ensures
        models_of(final(v)@) == insert_by_modified(e@, models_of(old(v)@)),
{
    let ghost s = models_of(old(v)@);
    let mut j: usize = 0;
    while j < v.len() && !(e.modified > v[j].modified)
        invariant
            v@ == old(v)@,
            s == models_of(v@),
            j <= v@.len(),
            forall|k: int| 0 <= k < j ==> !(e@.modified > s[k].modified),
        decreases v@.len() - j,
    {
        assert(s[j as int] == v@[j as int]@);
        j += 1;
    }
    proof {
        if j < v@.len() {
            assert(s[j as int] == v@[j as int]@);
        }
        lemma_insert_by_modified_at(e@, s, j as int);
    }
    v.insert(j, e);
    proof {
        assert(models_of(v@) =~= s.subrange(0, j as int) + seq![e@] + s.subrange(
            j as int,
            s.len() as int,
        ));
    }
}

/// Order a freshly loaded entry list by modification time, most recent
/// first (ties keep their input order).
pub fn sort_entries_by_modified(entries: Vec<Entry>) -> (res: Vec<Entry>)
    ensures
        models_of(res@) == sort_by_modified(models_of(entries@)),
{
    let ghost s = models_of(entries@);
    let mut res: Vec<Entry> = Vec::new();
    let mut i: usize = 0;
    while i < entries.len()
        invariant
            s == models_of(entries@),
            i <= entries@.len(),
            models_of(res@) == sort_by_modified(s.subrange(0, i as int)),
        decreases entries@.len() - i,
    {
        let e = entries[i].clone();
        assert(e@ == s[i as int]);
        insert_recent_first(&mut res, e);
        proof {
            assert(s.subrange(0, i + 1).drop_last() =~= s.subrange(0, i as int));
            assert(s.subrange(0, i + 1).last() == s[i as int]);
        }
        i += 1;
    }
    proof {
        assert(s.subrange(0, s.len() as int) =~= s);
    }
    res
}

} // verus!
