//! Recognising git URLs and deriving a repository name from one.

use vstd::prelude::*;

use crate::text::seq_ends_with;
use crate::text::seq_starts_with;
use crate::text::str_ends_with;
use crate::text::str_starts_with;

verus! {

pub open spec fn git_suffix() -> Seq<char> {
    seq!['.', 'g', 'i', 't']
}

/// A string is taken for a git URL when it uses a known scheme or ends
/// in `.git`.
pub open spec fn is_git_url_model(s: Seq<char>) -> bool {
    ||| seq_starts_with(s, seq!['h', 't', 't', 'p', ':', '/', '/'])
    ||| seq_starts_with(s, seq!['h', 't', 't', 'p', 's', ':', '/', '/'])
    ||| seq_starts_with(s, seq!['g', 'i', 't', '@'])
    ||| seq_starts_with(s, seq!['s', 's', 'h', ':', '/', '/'])
    ||| seq_ends_with(s, git_suffix())
}

/// Whether `s` looks like a git URL rather than a plain project name.
pub fn is_git_url(s: &str) -> (r: bool)
    ensures
        r == is_git_url_model(s@),
{
    proof {
        reveal_strlit("http://");
        reveal_strlit("https://");
        reveal_strlit("git@");
        reveal_strlit("ssh://");
        reveal_strlit(".git");
        assert("http://"@ =~= seq!['h', 't', 't', 'p', ':', '/', '/']);
        assert("https://"@ =~= seq!['h', 't', 't', 'p', 's', ':', '/', '/']);
        assert("git@"@ =~= seq!['g', 'i', 't', '@']);
        assert("ssh://"@ =~= seq!['s', 's', 'h', ':', '/', '/']);
        assert(".git"@ =~= git_suffix());
    }
    str_starts_with(s, "http://") || str_starts_with(s, "https://") || str_starts_with(s, "git@")
        || str_starts_with(s, "ssh://") || str_ends_with(s, ".git")
}

/// `s` without any trailing `/` characters.
pub open spec fn strip_trailing_slashes(s: Seq<char>) -> Seq<char>
    decreases s.len(),
{
    if s.len() > 0 && s.last() == '/' {
        strip_trailing_slashes(s.drop_last())
    } else {
        s
    }
}

/// `s` without any repetitions of the trailing suffix `.git`.
pub open spec fn strip_git_suffixes(s: Seq<char>) -> Seq<char>
    decreases s.len(),
{
    if seq_ends_with(s, git_suffix()) {
        strip_git_suffixes(s.subrange(0, s.len() - 4))
    } else {
        s
    }
}

/// Index of the last `/` or `:` in `s`, or -1 if neither occurs.
pub open spec fn last_sep_index(s: Seq<char>) -> int
    decreases s.len(),
{
    if s.len() == 0 {
        -1
    } else if s.last() == '/' || s.last() == ':' {
        s.len() - 1
    } else {
        last_sep_index(s.drop_last())
    }
}

pub open spec fn fallback_repo_name() -> Seq<char> {
    seq!['c', 'l', 'o', 'n', 'e', 'd', '-', 'r', 'e', 'p', 'o']
}

/// The repository name of a git URL: strip trailing slashes, then any
/// `.git` suffixes, take what follows the last `/` or `:`, and fall back
/// to a fixed name when nothing is left.
pub open spec fn repo_name_of(url: Seq<char>) -> Seq<char> {
    let clean = strip_git_suffixes(strip_trailing_slashes(url));
    let last = clean.subrange(last_sep_index(clean) + 1, clean.len() as int);
    if last.len() > 0 {
        last
    } else {
        fallback_repo_name()
    }
}

proof fn lemma_last_sep_found(s: Seq<char>, i: int)
    requires
        0 <= i < s.len(),
        s[i] == '/' || s[i] == ':',
        forall|k: int| i < k < s.len() ==> s[k] != '/' && s[k] != ':',
    ensures
        last_sep_index(s) == i,
    decreases s.len(),
{
    if i < s.len() - 1 {
        lemma_last_sep_found(s.drop_last(), i);
    }
}

proof fn lemma_last_sep_absent(s: Seq<char>)
    requires
        forall|k: int| 0 <= k < s.len() ==> s[k] != '/' && s[k] != ':',
    ensures
        last_sep_index(s) == -1,
    decreases s.len(),
{
    if s.len() > 0 {
        lemma_last_sep_absent(s.drop_last());
    }
}

fn last_sep_in_prefix(url: &str, end: usize) -> (r: Option<usize>)
    requires
        end <= url@.len(),
    ensures
        match r {
            Some(i) => i < end && (url@[i as int] == '/' || url@[i as int] == ':') && forall|
                k: int,
            | i < k < end ==> url@[k] != '/' && url@[k] != ':',
            None => forall|k: int| 0 <= k < end ==> url@[k] != '/' && url@[k] != ':',
        },
{
    let mut j = end;
    while j > 0
        invariant
            j <= end <= url@.len(),
            forall|k: int| j <= k < end ==> url@[k] != '/' && url@[k] != ':',
        decreases j,
    {
        let c = url.get_char(j - 1);
        if c == '/' || c == ':' {
            return Some(j - 1);
        }
        j -= 1;
    }
    None
}

/// Derive the repository name from a git URL, as [`repo_name_of`]
/// describes.
pub fn extract_repo_name(url: &str) -> (r: String)
    ensures
        r@ == repo_name_of(url@),
{
    let n0 = url.unicode_len();
    let mut end = n0;
    proof {
        assert(url@.subrange(0, n0 as int) =~= url@);
    }
    while end > 0 && url.get_char(end - 1) == '/'
        invariant
            url@.len() == n0,
            end <= n0,
            strip_trailing_slashes(url@) == strip_trailing_slashes(url@.subrange(0, end as int)),
        decreases end,
    {
        proof {
            let cur = url@.subrange(0, end as int);
            assert(cur.last() == url@[end - 1]);
            assert(cur.drop_last() =~= url@.subrange(0, end - 1));
        }
        end -= 1;
    }
    proof {
        assert(url@.subrange(0, n0 as int) =~= url@);
        if end > 0 {
            assert(url@.subrange(0, end as int).last() == url@[end - 1]);
        } else {
            assert(url@.subrange(0, 0).len() == 0);
        }
        assert(strip_trailing_slashes(url@) == url@.subrange(0, end as int));
    }
    let ghost clean1 = url@.subrange(0, end as int);
    while end >= 4 && url.get_char(end - 4) == '.' && url.get_char(end - 3) == 'g' && url.get_char(
        end - 2,
    ) == 'i' && url.get_char(end - 1) == 't'
        invariant
            url@.len() == n0,
            end <= n0,
            strip_git_suffixes(clean1) == strip_git_suffixes(url@.subrange(0, end as int)),
        decreases end,
    {
        proof {
            let cur = url@.subrange(0, end as int);
            assert(cur.subrange(cur.len() - 4, cur.len() as int) =~= git_suffix());
            assert(seq_ends_with(cur, git_suffix()));
            assert(cur.subrange(0, cur.len() - 4) =~= url@.subrange(0, end - 4));
        }
        end -= 4;
    }
    proof {
        let cur = url@.subrange(0, end as int);
        if seq_ends_with(cur, git_suffix()) {
            assert(cur.subrange(cur.len() - 4, cur.len() as int) =~= git_suffix());
            assert(cur[cur.len() - 4] == url@[end - 4] && cur[cur.len() - 3] == url@[end - 3]
                && cur[cur.len() - 2] == url@[end - 2] && cur[cur.len() - 1] == url@[end - 1]);
            assert(false);
        }
        assert(strip_git_suffixes(clean1) == cur);
    }
    let ghost clean = url@.subrange(0, end as int);
    match last_sep_in_prefix(url, end) {
        Some(i) => {
            proof {
                assert(clean[i as int] == url@[i as int]);
                assert forall|k: int| i < k < clean.len() implies clean[k] != '/' && clean[k]
                    != ':' by {
                    assert(clean[k] == url@[k]);
                }
                lemma_last_sep_found(clean, i as int);
            }
            if i + 1 < end {
                let r = String::from_str(url.substring_char(i + 1, end));
                proof {
                    assert(url@.subrange(i + 1, end as int) =~= clean.subrange(
                        i + 1,
                        clean.len() as int,
                    ));
                }
                r
            } else {
                proof {
                    reveal_strlit("cloned-repo");
                    assert(clean.subrange(i + 1, clean.len() as int).len() == 0);
                    assert("cloned-repo"@ =~= fallback_repo_name());
                }
                String::from_str("cloned-repo")
            }
        },
        None => {
            proof {
                assert forall|k: int| 0 <= k < clean.len() implies clean[k] != '/' && clean[k]
                    != ':' by {
                    assert(clean[k] == url@[k]);
                }
                lemma_last_sep_absent(clean);
            }
            if end > 0 {
                let r = String::from_str(url.substring_char(0, end));
                proof {
                    assert(url@.subrange(0, end as int) =~= clean.subrange(0, clean.len() as int));
                }
                r
            } else {
                proof {
                    reveal_strlit("cloned-repo");
                    assert(clean.subrange(0, 0).len() == 0);
                    assert("cloned-repo"@ =~= fallback_repo_name());
                }
                String::from_str("cloned-repo")
            }
        },
    }
}

} // verus!
