//! Small string operations: comparing texts and their ends, and appending a character.
use vstd::prelude::*;

verus! {

/// Whether the first `len` characters of `a` equal `b[start..start + len]`.
fn chars_agree(a: &str, b: &str, start: usize, len: usize) -> (r: bool)
    requires
        len <= a@.len(),
        start + len <= b@.len(),
        start + len <= usize::MAX,
    ensures
        r == (a@.subrange(0, len as int) =~= b@.subrange(start as int, start + len)),
{
    let mut i: usize = 0;
    while i < len
        invariant
            i <= len,
            len <= a@.len(),
            start + len <= b@.len(),
            start + len <= usize::MAX,
            forall|k: int| 0 <= k < i ==> a@[k] == b@[start + k],
        decreases len - i,
    {
        if a.get_char(i) != b.get_char(start + i) {
            assert(a@.subrange(0, len as int)[i as int] != b@.subrange(start as int, start + len)[i as int]);
            return false;
        }
        i += 1;
    }
    true
}

/// Whether two strings hold the same characters.
pub fn str_eq(a: &str, b: &str) -> (r: bool)
    ensures
        r == (a@ == b@),
{
    let n = a.unicode_len();
    if n != b.unicode_len() {
        return false;
    }
    let r = chars_agree(a, b, 0, n);
    assert(a@.subrange(0, n as int) =~= a@);
    assert(b@.subrange(0, n as int) =~= b@);
    r
}

/// Whether `prefix` is a prefix of `s`.
pub fn str_starts_with(s: &str, prefix: &str) -> (r: bool)
    ensures
        r == prefix@.is_prefix_of(s@),
{
    let n = prefix.unicode_len();
    if n > s.unicode_len() {
        return false;
    }
    assert(prefix@.subrange(0, n as int) =~= prefix@);
    chars_agree(prefix, s, 0, n)
}

/// Whether `suffix` is a suffix of `s`.
pub fn str_ends_with(s: &str, suffix: &str) -> (r: bool)
    ensures
        r == suffix@.is_suffix_of(s@),
{
    let n = suffix.unicode_len();
    let m = s.unicode_len();
    if n > m {
        return false;
    }
    assert(suffix@.subrange(0, n as int) =~= suffix@);
    chars_agree(suffix, s, m - n, n)
}

/// `String::push`: appends one character.
#[verifier::external_body]
pub fn string_push(s: &mut String, c: char)
    ensures
        final(s)@ == old(s)@.push(c),
{
    s.push(c)
}

} // verus!
