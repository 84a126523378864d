//! Reading the `.git` file of a git worktree.
//!
//! A worktree's `.git` is a regular file of the shape
//! `gitdir: <path-to-parent>`; the part after the first space, up to the
//! end of the first line, is the parent path.

use vstd::prelude::*;

use crate::paths::join_path;
use crate::paths::path_is_file;

verus! {

/// Index of the first occurrence of the byte `b` in `s`, or -1.
pub open spec fn first_byte_index(s: Seq<u8>, b: u8) -> int
    decreases s.len(),
{
    if s.len() == 0 {
        -1
    } else if s[0] == b {
        0
    } else {
        let r = first_byte_index(s.drop_first(), b);
        if r == -1 {
            -1
        } else {
            r + 1
        }
    }
}

proof fn lemma_first_byte_index_found(s: Seq<u8>, b: u8, i: int)
    requires
        0 <= i < s.len(),
        s[i] == b,
        forall|k: int| 0 <= k < i ==> s[k] != b,
    ensures
        first_byte_index(s, b) == i,
    decreases s.len(),
{
    if i > 0 {
        lemma_first_byte_index_found(s.drop_first(), b, i - 1);
    }
}

proof fn lemma_first_byte_index_absent(s: Seq<u8>, b: u8)
    requires
        forall|k: int| 0 <= k < s.len() ==> s[k] != b,
    ensures
        first_byte_index(s, b) == -1,
    decreases s.len(),
{
    if s.len() > 0 {
        lemma_first_byte_index_absent(s.drop_first(), b);
    }
}

/// What follows the first space, up to (not including) the next newline:
/// the worktree's parent path in a `gitdir: <path>` line. Without a
/// space, nothing is left.
pub open spec fn first_line_model(bytes: Seq<u8>) -> Seq<u8> {
    let i = first_byte_index(bytes, 32);
    if i == -1 {
        Seq::empty()
    } else {
        let rest = bytes.subrange(i + 1, bytes.len() as int);
        let j = first_byte_index(rest, 10);
        if j == -1 {
            rest
        } else {
            rest.subrange(0, j)
        }
    }
}

/// The bytes after the first space of `bytes`, up to the end of the
/// first line.
pub fn first_line(bytes: &[u8]) -> (r: Vec<u8>)
    ensures
        r@ == first_line_model(bytes@),
{
    let n = bytes.len();
    let mut i: usize = 0;
    while i < n
        invariant
            bytes@.len() == n,
            i <= n,
            forall|k: int| 0 <= k < i ==> bytes@[k] != 32u8,
        decreases n - i,
    {
        if bytes[i] == 32 {
            proof {
                lemma_first_byte_index_found(bytes@, 32, i as int);
            }
            let ghost rest = bytes@.subrange(i + 1, n as int);
            let mut r: Vec<u8> = Vec::new();
            let mut j: usize = i + 1;
            while j < n && bytes[j] != 10
                invariant
                    bytes@.len() == n,
                    i < n,
                    i + 1 <= j <= n,
                    rest == bytes@.subrange(i + 1, n as int),
                    forall|k: int| i < k < j ==> bytes@[k] != 10u8,
                    r@ == rest.subrange(0, j - i - 1),
                decreases n - j,
            {
                let ghost pre = r@;
                r.push(bytes[j]);
                proof {
                    assert(r@ =~= rest.subrange(0, j - i));
                }
                j += 1;
            }
            proof {
                assert forall|k: int| 0 <= k < j - i - 1 implies rest[k] != 10u8 by {
                    assert(rest[k] == bytes@[i + 1 + k]);
                }
                if j < n {
                    assert(rest[j - i - 1] == bytes@[j as int]);
                    lemma_first_byte_index_found(rest, 10, j - i - 1);
                    assert(r@ =~= rest.subrange(0, first_byte_index(rest, 10)));
                } else {
                    lemma_first_byte_index_absent(rest, 10);
                    assert(r@ =~= rest);
                }
            }
            return r;
        }
        i += 1;
    }
    proof {
        lemma_first_byte_index_absent(bytes@, 32);
    }
    Vec::new()
}

/// Whether `path` is a git worktree (not a main working tree): a
/// worktree has `.git` as a regular file pointing at the main repository.
/// The answer depends on the disk.
pub fn is_git_worktree(path: &str) -> bool {
    let dot_git = join_path(path, ".git");
    path_is_file(dot_git.as_str())
}

} // verus!
