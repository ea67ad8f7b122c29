//! Small verified helpers on strings and characters.

use vstd::prelude::*;

verus! {

/// Compare two string slices character by character.
pub fn str_eq(a: &str, b: &str) -> (r: bool)
    ensures
        r == (a@ == b@),
{
    let alen = a.unicode_len();
    let blen = b.unicode_len();
    if alen != blen {
        assert(a@ != b@) by {
            assert(a@.len() != b@.len());
        }
        return false;
    }
    let mut i: usize = 0;
    while i < alen
        invariant
            alen == a@.len(),
            alen == b@.len(),
            i <= alen,
            forall|j: int| 0 <= j < i ==> a@[j] == b@[j],
        decreases alen - i,
    {
        if a.get_char(i) != b.get_char(i) {
            return false;
        }
        i += 1;
    }
    assert(a@ =~= b@);
    true
}

/// Append the character at index `i` of `src` to `dst`.
pub fn push_char_from(dst: &mut String, src: &str, i: usize)
    requires
        i < src@.len(),
        src@.len() <= usize::MAX,
    ensures
        final(dst)@ == old(dst)@.push(src@[i as int]),
{
    let piece = src.substring_char(i, i + 1);
    dst.append(piece);
    assert(dst@ =~= old(dst)@.push(src@[i as int]));
}

} // verus!
