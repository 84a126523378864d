//! Verified helpers over strings viewed as sequences of characters.

use vstd::prelude::*;

verus! {

/// `p` is a prefix of `s`.
pub open spec fn seq_starts_with(s: Seq<char>, p: Seq<char>) -> bool {
    p.len() <= s.len() && s.subrange(0, p.len() as int) == p
}

/// `p` is a suffix of `s`.
pub open spec fn seq_ends_with(s: Seq<char>, p: Seq<char>) -> bool {
    p.len() <= s.len() && s.subrange(s.len() - p.len(), s.len() as int) == p
}

/// Index of the first occurrence of `c` in `s`, or -1 if `c` does not occur.
pub open spec fn first_index_of(s: Seq<char>, c: char) -> int
    decreases s.len(),
{
    if s.len() == 0 {
        -1
    } else if s[0] == c {
        0
    } else {
        let r = first_index_of(s.drop_first(), c);
        if r == -1 {
            -1
        } else {
            r + 1
        }
    }
}

pub proof fn lemma_first_index_of_found(s: Seq<char>, c: char, i: int)
    requires
        0 <= i < s.len(),
        s[i] == c,
        forall|k: int| 0 <= k < i ==> s[k] != c,
    ensures
        first_index_of(s, c) == i,
    decreases s.len(),
{
    if i > 0 {
        lemma_first_index_of_found(s.drop_first(), c, i - 1);
    }
}

pub proof fn lemma_first_index_of_absent(s: Seq<char>, c: char)
    requires
        forall|k: int| 0 <= k < s.len() ==> s[k] != c,
    ensures
        first_index_of(s, c) == -1,
    decreases s.len(),
{
    if s.len() > 0 {
        lemma_first_index_of_absent(s.drop_first(), c);
    }
}

/// Character equality of two string slices.
pub fn str_eq(a: &str, b: &str) -> (r: bool)
    ensures
        r == (a@ == b@),
{
    let alen = a.unicode_len();
    let blen = b.unicode_len();
    if alen != blen {
        return false;
    }
    let mut i: usize = 0;
    while i < alen
        invariant
            a@.len() == alen,
            b@.len() == alen,
            i <= alen,
            forall|k: int| 0 <= k < i ==> a@[k] == b@[k],
        decreases alen - i,
    {
        if a.get_char(i) != b.get_char(i) {
            return false;
        }
        i += 1;
    }
    proof {
        assert(a@ =~= b@);
    }
    true
}

/// Whether `s` starts with the prefix `p`, character for character.
pub fn str_starts_with(s: &str, p: &str) -> (r: bool)
    ensures
        r == seq_starts_with(s@, p@),
{
    let slen = s.unicode_len();
    let plen = p.unicode_len();
    if plen > slen {
        return false;
    }
    let mut i: usize = 0;
    while i < plen
        invariant
            s@.len() == slen,
            p@.len() == plen,
            plen <= slen,
            i <= plen,
            forall|k: int| 0 <= k < i ==> s@[k] == p@[k],
        decreases plen - i,
    {
        if s.get_char(i) != p.get_char(i) {
            proof {
                assert(s@.subrange(0, plen as int)[i as int] != p@[i as int]);
            }
            return false;
        }
        i += 1;
    }
    proof {
        assert(s@.subrange(0, plen as int) =~= p@);
    }
    true
}

/// Whether `s` ends with the suffix `p`, character for character.
pub fn str_ends_with(s: &str, p: &str) -> (r: bool)
    ensures
        r == seq_ends_with(s@, p@),
{
    let slen = s.unicode_len();
    let plen = p.unicode_len();
    if plen > slen {
        return false;
    }
    let off: usize = slen - plen;
    let mut i: usize = 0;
    while i < plen
        invariant
            s@.len() == slen,
            p@.len() == plen,
            plen <= slen,
            off == slen - plen,
            i <= plen,
            forall|k: int| 0 <= k < i ==> s@[off + k] == p@[k],
        decreases plen - i,
    {
        if s.get_char(off + i) != p.get_char(i) {
            proof {
                assert(s@.subrange(off as int, slen as int)[i as int] != p@[i as int]);
            }
            return false;
        }
        i += 1;
    }
    proof {
        assert(s@.subrange(off as int, slen as int) =~= p@);
    }
    true
}

/// Relies on `String::push`, which appends the given character to the string.
#[verifier::external_body]
pub(crate) fn push_char(s: &mut String, c: char)
    ensures
        final(s)@ == old(s)@.push(c),
{
    s.push(c)
}

} // verus!
