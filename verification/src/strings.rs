//! Small verified helpers over `String` and `&str`.

use vstd::prelude::*;

verus! {

/// Relies on `String::push`: appends one character to the string.
#[verifier::external_body]
pub fn push_char(s: &mut String, c: char)
    ensures
        final(s)@ == old(s)@.push(c),
{
    s.push(c)
}

/// Relies on `char::from_u32`: converts exactly the valid scalar values
/// (at most 0x10FFFF and not a surrogate), the same mapping as the spec
/// cast to `char`.
#[verifier::external_body]
pub fn char_from_code(v: u32) -> (c: char)
    requires
        v <= 0x10FFFF,
        !(0xD800 <= v && v <= 0xDFFF),
    ensures
        c == (v as char),
{
    char::from_u32(v).unwrap()
}

/// Character-sequence equality of two string slices, decided character by
/// character.
pub fn str_eq(a: &str, b: &str) -> (r: bool)
    ensures
        r == (a@ == b@),
{
    let an = a.unicode_len();
    let bn = b.unicode_len();
    if an != bn {
        assert(a@ != b@);
        return false;
    }
    let mut i: usize = 0;
    while i < an
        invariant
            i <= an,
            an == a@.len(),
            an == b@.len(),
            forall|j: int| 0 <= j < i ==> a@[j] == b@[j],
        decreases an - i,
    {
        if a.get_char(i) != b.get_char(i) {
            return false;
        }
        i += 1;
    }
    proof {
        assert(a@ =~= b@);
    }
    true
}

/// `suffix` is a suffix of `s`.
pub open spec fn spec_ends_with(s: Seq<char>, suffix: Seq<char>) -> bool {
    s.len() >= suffix.len() && s.subrange(s.len() - suffix.len(), s.len() as int) == suffix
}

/// Whether `a` ends with `b`, decided character by character.
pub fn str_ends_with(a: &str, b: &str) -> (r: bool)
    ensures
        r == spec_ends_with(a@, b@),
{
    let an = a.unicode_len();
    let bn = b.unicode_len();
    if an < bn {
        return false;
    }
    let off = an - bn;
    let mut i: usize = 0;
    while i < bn
        invariant
            i <= bn,
            an == a@.len(),
            bn == b@.len(),
            off == an - bn,
            forall|j: int| 0 <= j < i ==> a@[off + j] == b@[j],
        decreases bn - i,
    {
        if a.get_char(off + i) != b.get_char(i) {
            assert(a@.subrange(off as int, an as int)[i as int] != b@[i as int]);
            return false;
        }
        i += 1;
    }
    proof {
        assert(a@.subrange(off as int, an as int) =~= b@);
    }
    true
}

/// The characters of `s`, as a vector.
pub fn to_chars(s: &str) -> (v: Vec<char>)
    ensures
        v@ == s@,
{
    let n = s.unicode_len();
    let mut v: Vec<char> = Vec::new();
    let mut i: usize = 0;
    while i < n
        invariant
            i <= n,
            n == s@.len(),
            v@ == s@.subrange(0, i as int),
        decreases n - i,
    {
        v.push(s.get_char(i));
        proof {
            assert(v@ =~= s@.subrange(0, i + 1 as int));
        }
        i += 1;
    }
    proof {
        assert(v@ =~= s@);
    }
    v
}

} // verus!
