//! The name resolver: turn the session's chosen name into an existing
//! folder (exact or date-prefixed) or the name of a new folder to create,
//! optionally prefixed with today's date.
//!
//! The resolver itself performs no filesystem work: it is given the
//! folder names of the base directory and today's date as plain values;
//! the caller lists the directory and creates the chosen folder.

use vstd::prelude::*;

use crate::dates::Date;
use crate::dates::date_prefix_chars;
use crate::dates::extract_prefix_date;
use crate::dates::format_date_prefix;
use crate::dates::split_prefix;
use crate::text::push_char;
use crate::text::seq_starts_with;
use crate::text::str_eq;
use crate::text::str_starts_with;

verus! {

/// Terminal decision of a selection session.
pub enum SelectionResult {
    /// An explicit folder that is guaranteed to exist already.
    Folder(String),
    /// No existing match, a new folder should be created.
    New(String),
    /// Nothing was selected in the UI, quit.
    Aborted,
}

/// The views of a sequence of folder-name strings.
pub open spec fn str_views(s: Seq<String>) -> Seq<Seq<char>> {
    s.map_values(|x: String| x@)
}

/// `folder` answers for `name`: it is `name` itself, or decomposes as
/// `<date> <name>`.
pub open spec fn folder_matches(folder: Seq<char>, name: Seq<char>) -> bool {
    folder == name || dated_match(folder, name)
}

/// `folder` decomposes as `<date> <name>`.
pub open spec fn dated_match(folder: Seq<char>, name: Seq<char>) -> bool {
    split_prefix(folder) is Some && (split_prefix(folder)->0).1 == name
}

/// The folders among `folders` that answer for `name`, in input order.
pub open spec fn matching_model(name: Seq<char>, folders: Seq<Seq<char>>) -> Seq<Seq<char>>
    decreases folders.len(),
{
    if folders.len() == 0 {
        Seq::empty()
    } else {
        let rest = matching_model(name, folders.drop_first());
        if folder_matches(folders[0], name) {
            seq![folders[0]] + rest
        } else {
            rest
        }
    }
}

/// Some folder in `folders` is literally `name`.
pub open spec fn contains_name(folders: Seq<Seq<char>>, name: Seq<char>) -> bool {
    exists|i: int| 0 <= i < folders.len() && folders[i] == name
}

/// The first folder in `folders` that decomposes as `<date> <name>`.
pub open spec fn first_dated_match(name: Seq<char>, folders: Seq<Seq<char>>) -> Option<Seq<char>>
    decreases folders.len(),
{
    if folders.len() == 0 {
        None
    } else if dated_match(folders[0], name) {
        Some(folders[0])
    } else {
        first_dated_match(name, folders.drop_first())
    }
}

proof fn lemma_matching_model_push(name: Seq<char>, folders: Seq<Seq<char>>, x: Seq<char>)
    ensures
        matching_model(name, folders.push(x)) == if folder_matches(x, name) {
            matching_model(name, folders).push(x)
        } else {
            matching_model(name, folders)
        },
    decreases folders.len(),
{
    let fp = folders.push(x);
    if folders.len() == 0 {
        assert(fp[0] == x);
        assert(fp.drop_first() =~= Seq::<Seq<char>>::empty());
        assert(matching_model(name, Seq::<Seq<char>>::empty()) =~= Seq::<Seq<char>>::empty());
        if folder_matches(x, name) {
            assert(matching_model(name, fp) =~= matching_model(name, folders).push(x));
        } else {
            assert(matching_model(name, fp) =~= matching_model(name, folders));
        }
    } else {
        assert(fp[0] == folders[0]);
        assert(fp.drop_first() =~= folders.drop_first().push(x));
        lemma_matching_model_push(name, folders.drop_first(), x);
        if folder_matches(x, name) {
            assert(matching_model(name, fp) =~= matching_model(name, folders).push(x));
        } else {
            assert(matching_model(name, fp) =~= matching_model(name, folders));
        }
    }
}

/// The folder names under the base directory that answer for `name`:
/// the literal `name` itself, and every `<date> <name>` variant.
pub fn matching_folders(name: &str, folders: &Vec<String>) -> (r: Vec<String>)
    ensures
        str_views(r@) == matching_model(name@, str_views(folders@)),
{
    let ghost fs = str_views(folders@);
    let mut r: Vec<String> = Vec::new();
    let mut i: usize = 0;
    while i < folders.len()
        invariant
            fs == str_views(folders@),
            i <= folders@.len(),
            str_views(r@) == matching_model(name@, fs.subrange(0, i as int)),
        decreases folders@.len() - i,
    {
        let ghost pre = r@;
        let folder = &folders[i];
        assert(folder@ == fs[i as int]);
        let is_exact = str_eq(folder.as_str(), name);
        let mut is_dated = false;
        if !is_exact {
            match extract_prefix_date(folder.as_str()) {
                Some((_, rest)) => {
                    is_dated = str_eq(rest.as_str(), name);
                },
                None => {},
            }
        }
        assert(is_exact || is_dated <==> folder_matches(fs[i as int], name@));
        if is_exact || is_dated {
            r.push(folder.clone());
            proof {
                assert(str_views(r@) =~= str_views(pre).push(fs[i as int]));
            }
        }
        proof {
            assert(fs.subrange(0, i + 1) =~= fs.subrange(0, i as int).push(fs[i as int]));
            lemma_matching_model_push(name@, fs.subrange(0, i as int), fs[i as int]);
        }
        i += 1;
    }
    proof {
        assert(fs.subrange(0, fs.len() as int) =~= fs);
    }
    r
}

proof fn lemma_first_dated_match_found(name: Seq<char>, folders: Seq<Seq<char>>, i: int)
    requires
        0 <= i < folders.len(),
        dated_match(folders[i], name),
        forall|k: int| 0 <= k < i ==> !dated_match(#[trigger] folders[k], name),
    ensures
        first_dated_match(name, folders) == Some(folders[i]),
    decreases folders.len(),
{
    if i > 0 {
        lemma_first_dated_match_found(name, folders.drop_first(), i - 1);
    }
}

proof fn lemma_first_dated_match_absent(name: Seq<char>, folders: Seq<Seq<char>>)
    requires
        forall|k: int| 0 <= k < folders.len() ==> !dated_match(#[trigger] folders[k], name),
    ensures
        first_dated_match(name, folders) is None,
    decreases folders.len(),
{
    if folders.len() > 0 {
        lemma_first_dated_match_absent(name, folders.drop_first());
    }
}

/// The name a new folder gets: `candidate` itself, unless the caller asks
/// for a date prefix and `candidate` does not already start with today's
/// date string.
pub open spec fn new_folder_name(
    candidate: Seq<char>,
    apply_date_prefix: bool,
    today: Date,
) -> Seq<char> {
    if apply_date_prefix && !seq_starts_with(candidate, date_prefix_chars(today)) {
        date_prefix_chars(today) + seq![' '] + candidate
    } else {
        candidate
    }
}

/// Decide what the chosen name maps to, against the given folder names:
/// an existing folder (the literal name first, else the first
/// `<date> <name>` variant), or the name of the folder to create.
pub fn resolve(
    folders: &Vec<String>,
    candidate: &String,
    apply_date_prefix: bool,
    today: &Date,
) -> (r: SelectionResult)
    requires
        today.wf(),
        0 <= today.year <= 9999,
    ensures
        ({
            let fs = str_views(folders@);
            let c = candidate@;
            &&& (contains_name(fs, c) ==> r is Folder && r->Folder_0@ == c)
            &&& (!contains_name(fs, c) && first_dated_match(c, fs) is Some ==> r is Folder
                && r->Folder_0@ == first_dated_match(c, fs)->0)
            &&& (!contains_name(fs, c) && first_dated_match(c, fs) is None ==> r is New
                && r->New_0@ == new_folder_name(c, apply_date_prefix, *today))
        }),
{
    let ghost fs = str_views(folders@);
    let mut i: usize = 0;
    while i < folders.len()
        invariant
            fs == str_views(folders@),
            i <= folders@.len(),
            forall|k: int| 0 <= k < i ==> fs[k] != candidate@,
        decreases folders@.len() - i,
    {
        assert(folders@[i as int]@ == fs[i as int]);
        if str_eq(folders[i].as_str(), candidate.as_str()) {
            return SelectionResult::Folder(candidate.clone());
        }
        i += 1;
    }
    assert(!contains_name(fs, candidate@));
    let mut i: usize = 0;
    while i < folders.len()
        invariant
            fs == str_views(folders@),
            i <= folders@.len(),
            !contains_name(fs, candidate@),
            forall|k: int| 0 <= k < i ==> !dated_match(#[trigger] fs[k], candidate@),
        decreases folders@.len() - i,
    {
        assert(folders@[i as int]@ == fs[i as int]);
        let folder = &folders[i];
        let mut hit = false;
        match extract_prefix_date(folder.as_str()) {
            Some((_, rest)) => {
                hit = str_eq(rest.as_str(), candidate.as_str());
            },
            None => {},
        }
        assert(hit == dated_match(fs[i as int], candidate@));
        if hit {
            proof {
                lemma_first_dated_match_found(candidate@, fs, i as int);
            }
            return SelectionResult::Folder(folder.clone());
        }
        i += 1;
    }
    proof {
        lemma_first_dated_match_absent(candidate@, fs);
    }
    if apply_date_prefix {
        let prefix = format_date_prefix(today);
        if !str_starts_with(candidate.as_str(), prefix.as_str()) {
            let mut name = prefix;
            push_char(&mut name, ' ');
            name.append(candidate.as_str());
            proof {
                assert(name@ =~= new_folder_name(candidate@, apply_date_prefix, *today));
            }
            return SelectionResult::New(name);
        }
    }
    SelectionResult::New(candidate.clone())
}

/// Decide the whole session outcome: an abandoned session maps to
/// `Aborted` (and nothing is created); a chosen name is resolved against
/// the folder list.
pub fn resolve_selection(
    folders: &Vec<String>,
    selection: &Option<String>,
    apply_date_prefix: bool,
    today: &Date,
) -> (r: SelectionResult)
    requires
        today.wf(),
        0 <= today.year <= 9999,
    ensures
        selection is None ==> r is Aborted,
        selection is Some ==> ({
            let fs = str_views(folders@);
            let c = selection->0@;
            &&& (contains_name(fs, c) ==> r is Folder && r->Folder_0@ == c)
            &&& (!contains_name(fs, c) && first_dated_match(c, fs) is Some ==> r is Folder
                && r->Folder_0@ == first_dated_match(c, fs)->0)
            &&& (!contains_name(fs, c) && first_dated_match(c, fs) is None ==> r is New
                && r->New_0@ == new_folder_name(c, apply_date_prefix, *today))
        }),
{
    match selection {
        Some(candidate) => resolve(folders, candidate, apply_date_prefix, today),
        None => SelectionResult::Aborted,
    }
}

} // verus!
