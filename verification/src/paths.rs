//! Paths as plain strings: joining, `~` expansion, and trusted probes of
//! what the disk currently holds.

use vstd::prelude::*;

use crate::text::push_char;
use crate::text::seq_starts_with;
use crate::text::str_starts_with;

verus! {

/// The view of an optional string.
pub open spec fn opt_str_view(o: Option<String>) -> Option<Seq<char>> {
    match o {
        Some(s) => Some(s@),
        None => None,
    }
}

/// `base`, a separator, and `child`.
pub open spec fn joined(base: Seq<char>, child: Seq<char>) -> Seq<char> {
    base + seq!['/'] + child
}

/// Append one path segment to `base`.
pub fn join_path(base: &str, child: &str) -> (r: String)
    ensures
        r@ == joined(base@, child@),
{
    let mut r = String::from_str(base);
    push_char(&mut r, '/');
    r.append(child);
    proof {
        assert(r@ =~= joined(base@, child@));
    }
    r
}

/// What a path beginning with `~/` expands to when a home directory is
/// known; any other path is kept as it is.
pub open spec fn expanded_path(path: Seq<char>, home: Option<Seq<char>>) -> Seq<char> {
    if seq_starts_with(path, seq!['~', '/']) && home is Some {
        joined(home->0, path.subrange(2, path.len() as int))
    } else {
        path
    }
}

/// Expand a leading `~/` to the given home directory.
pub fn expand_path(path_str: &str, home: &Option<String>) -> (r: String)
    ensures
        r@ == expanded_path(path_str@, opt_str_view(*home)),
{
    proof {
        reveal_strlit("~/");
        assert("~/"@ =~= seq!['~', '/']);
    }
    if str_starts_with(path_str, "~/") {
        match home {
            Some(h) => {
                let rest = path_str.substring_char(2, path_str.unicode_len());
                return join_path(h.as_str(), rest);
            },
            None => {},
        }
    }
    String::from_str(path_str)
}

/// Relies on `std::path::Path::exists`: whether the path points at an
/// existing filesystem entity right now. The answer depends on the disk,
/// so nothing more is promised of it.
#[verifier::external_body]
pub(crate) fn path_exists(path: &str) -> bool {
    std::path::Path::new(path).exists()
}

/// Relies on `std::path::Path::is_file`: whether the path points at a
/// regular file right now. The answer depends on the disk, so nothing
/// more is promised of it.
#[verifier::external_body]
pub(crate) fn path_is_file(path: &str) -> bool {
    std::path::Path::new(path).is_file()
}

} // verus!
