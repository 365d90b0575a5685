//! Text operations on record fields, with the meaning the standard library
//! documents for them.

use vstd::prelude::*;
use vstd::string::StrSliceExecFns;

verus! {

/// Whether `c` has the Unicode property `White_Space`, which
/// `char::is_whitespace` and `str::trim` go by: the tab, the line and page
/// breaks, the space, the next-line and no-break characters and the
/// spaces and separators of the general punctuation block.
pub open spec fn is_whitespace(c: char) -> bool {
    let u = c as u32;
    ||| 0x09 <= u <= 0x0D
    ||| u == 0x20
    ||| u == 0x85
    ||| u == 0xA0
    ||| u == 0x1680
    ||| 0x2000 <= u <= 0x200A
    ||| u == 0x2028
    ||| u == 0x2029
    ||| u == 0x202F
    ||| u == 0x205F
    ||| u == 0x3000
}

/// The Unicode lower-case form of `s`, as `str::to_lowercase` computes it.
pub uninterp spec fn lowercased(s: Seq<char>) -> Seq<char>;

/// `s` without its leading and trailing whitespace.
pub open spec fn trimmed(s: Seq<char>) -> Seq<char>
    decreases s.len(),
{
    if s.len() == 0 {
        s
    } else if is_whitespace(s.first()) {
        trimmed(s.drop_first())
    } else if is_whitespace(s.last()) {
        trimmed(s.drop_last())
    } else {
        s
    }
}

/// `s` without any of its leading occurrences of `c`.
pub open spec fn without_leading(s: Seq<char>, c: char) -> Seq<char>
    decreases s.len(),
{
    if s.len() > 0 && s.first() == c {
        without_leading(s.drop_first(), c)
    } else {
        s
    }
}

/// `s` without any of its leading dots.
pub open spec fn without_leading_dots(s: Seq<char>) -> Seq<char> {
    without_leading(s, '.')
}

/// `c` with the ASCII capitals mapped to their small letters.
pub open spec fn ascii_lower(c: char) -> char {
    if 'A' <= c && c <= 'Z' {
        ((c as u32) + 32) as char
    } else {
        c
    }
}

/// `s` with every ASCII capital mapped to its small letter.
pub open spec fn ascii_folded(s: Seq<char>) -> Seq<char> {
    Seq::new(s.len(), |i: int| ascii_lower(s[i]))
}

/// Whether `a` and `b` are equal up to the case of their ASCII letters.
pub open spec fn same_ignoring_ascii_case(a: Seq<char>, b: Seq<char>) -> bool {
    ascii_folded(a) == ascii_folded(b)
}

/// Calls `str::trim`. The result is the argument without the whitespace at
/// its two ends, where whitespace is what `is_whitespace` lists.
#[verifier::external_body]
pub(crate) fn trim(s: &str) -> (r: &str)
    ensures
        r@ == trimmed(s@),
{
    s.trim()
}

/// Calls `str::to_lowercase`. The result is named, not spelled out: Unicode
/// lower-casing is a table of its own.
#[verifier::external_body]
pub(crate) fn to_lowercase(s: &str) -> (r: String)
    ensures
        r@ == lowercased(s@),
{
    s.to_lowercase()
}

/// Removes every leading occurrence of `c` from `s`.
pub fn strip_leading(s: &str, c: char) -> (r: &str)
    ensures
        r@ == without_leading(s@, c),
{
    let len = s.unicode_len();
    let mut i: usize = 0;
    assert(s@.subrange(0, len as int) =~= s@);
    while i < len && s.get_char(i) == c
        invariant
            0 <= i <= len,
            len == s@.len(),
            without_leading(s@, c) == without_leading(s@.subrange(i as int, len as int), c),
        decreases len - i,
    {
        assert(s@.subrange(i as int, len as int).drop_first() =~= s@.subrange(
            i + 1,
            len as int,
        ));
        i += 1;
    }
    s.substring_char(i, len)
}

/// Removes every leading dot from `s`.
pub fn strip_leading_dots(s: &str) -> (r: &str)
    ensures
        r@ == without_leading_dots(s@),
{
    strip_leading(s, '.')
}

/// Whether two characters are equal up to the case of an ASCII letter.
pub fn same_letter(x: char, y: char) -> (r: bool)
    ensures
        r == (ascii_lower(x) == ascii_lower(y)),
{
    let a: u32 = x as u32;
    let b: u32 = y as u32;
    let low_a: u32 = if 65 <= a && a <= 90 {
        a + 32
    } else {
        a
    };
    let low_b: u32 = if 65 <= b && b <= 90 {
        b + 32
    } else {
        b
    };
    assert(ascii_lower(x) as u32 == low_a);
    assert(ascii_lower(y) as u32 == low_b);
    low_a == low_b
}

/// Whether `a` and `b` are equal up to the case of their ASCII letters.
pub fn eq_ignore_ascii_case(a: &str, b: &str) -> (r: bool)
    ensures
        r == same_ignoring_ascii_case(a@, b@),
{
    let len = a.unicode_len();
    if b.unicode_len() != len {
        assert(ascii_folded(a@).len() != ascii_folded(b@).len());
        return false;
    }
    let mut i: usize = 0;
    while i < len
        invariant
            0 <= i <= len,
            len == a@.len(),
            len == b@.len(),
            forall|j: int| 0 <= j < i ==> ascii_lower(a@[j]) == ascii_lower(b@[j]),
        decreases len - i,
    {
        if !same_letter(a.get_char(i), b.get_char(i)) {
            assert(ascii_folded(a@)[i as int] != ascii_folded(b@)[i as int]);
            return false;
        }
        i += 1;
    }
    assert(ascii_folded(a@) =~= ascii_folded(b@));
    true
}

} // verus!
