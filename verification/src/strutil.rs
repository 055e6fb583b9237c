//! Small trusted shims over `std` string operations that vstd gives no
//! specification to, together with verified helpers built on them.

use vstd::prelude::*;

verus! {

/// Relies on `str`'s `PartialEq`: slices are equal exactly when their
/// characters are.
#[verifier::external_body]
pub fn str_eq(a: &str, b: &str) -> (r: bool)
    ensures
        r == (a@ == b@),
{
    a == b
}

/// Relies on `String::push`: appends one character.
#[verifier::external_body]
pub fn push_char(s: &mut String, c: char)
    ensures
        final(s)@ == old(s)@.push(c),
{
    s.push(c);
}

/// Whether `b` is a valid UTF-8 encoding; what it decodes to.
pub uninterp spec fn utf8_ok(b: Seq<u8>) -> bool;

/// The characters that the UTF-8 bytes `b` decode to, a function of the
/// bytes alone; meaningful only where `utf8_ok(b)`.
pub uninterp spec fn utf8_of(b: Seq<u8>) -> Seq<char>;

/// Relies on `std::str::from_utf8`: succeeds exactly on valid UTF-8 and
/// decodes it; the error is rendered as text.
#[verifier::external_body]
pub fn utf8_to_string(b: &[u8]) -> (r: Result<String, String>)
    ensures
        r is Ok <==> utf8_ok(b@),
        r matches Ok(s) ==> s@ == utf8_of(b@),
{
    match std::str::from_utf8(b) {
        Ok(s) => Ok(s.to_string()),
        Err(e) => Err(e.to_string()),
    }
}

/// ASCII lowercasing of one character: `A`–`Z` map to `a`–`z`, all other
/// characters stay as they are.
pub open spec fn spec_lower_char(c: char) -> char {
    if 65 <= c as u32 <= 90 {
        (((c as u32) + 32) as u8) as char
    } else {
        c
    }
}

/// ASCII lowercasing, character by character.
pub open spec fn spec_lower_seq(s: Seq<char>) -> Seq<char> {
    Seq::new(s.len(), |i: int| spec_lower_char(s[i]))
}

/// Lowercase the ASCII letters of a string, leaving other characters.
pub fn ascii_lower(s: &str) -> (r: String)
    ensures
        r@ == spec_lower_seq(s@),
{
    let n = s.unicode_len();
    let mut r = String::new();
    let mut i: usize = 0;
    while i < n
        invariant
            0 <= i <= n,
            n == s@.len(),
            r@ =~= spec_lower_seq(s@.take(i as int)),
        decreases n - i,
    {
        let c = s.get_char(i);
        let cu = c as u32;
        let lc: char = if 65 <= cu && cu <= 90 {
            ((cu + 32) as u8) as char
        } else {
            c
        };
        push_char(&mut r, lc);
        proof {
            assert(r@ =~= spec_lower_seq(s@.take(i + 1)));
        }
        i += 1;
    }
    proof {
        assert(s@.take(n as int) =~= s@);
    }
    r
}

/// The character for one decimal digit.
pub open spec fn spec_digit(d: nat) -> char {
    (((48 + d) as u8) as char)
}

/// The decimal digits of `n`, most significant first.
pub open spec fn spec_dec(n: nat) -> Seq<char>
    decreases n,
{
    if n < 10 {
        seq![spec_digit(n)]
    } else {
        spec_dec(n / 10).push(spec_digit(n % 10))
    }
}

/// Relies on `usize`'s `Display` through `ToString`: the decimal digits,
/// most significant first, no sign and no padding.
#[verifier::external_body]
pub fn usize_to_string(n: usize) -> (r: String)
    ensures
        r@ == spec_dec(n as nat),
{
    n.to_string()
}

/// The length of one character's UTF-8 encoding.
pub open spec fn spec_utf8_len_char(c: char) -> nat {
    if (c as u32) < 0x80 {
        1
    } else if (c as u32) < 0x800 {
        2
    } else if (c as u32) < 0x10000 {
        3
    } else {
        4
    }
}

/// The byte length of the UTF-8 encoding of text.
pub open spec fn spec_utf8_len(s: Seq<char>) -> nat
    decreases s.len(),
{
    if s.len() == 0 {
        0
    } else {
        spec_utf8_len(s.drop_last()) + spec_utf8_len_char(s.last())
    }
}

/// Relies on `str::len`: the byte length of the string, which is stored
/// in UTF-8.
#[verifier::external_body]
pub fn str_byte_len(s: &str) -> (r: usize)
    ensures
        r == spec_utf8_len(s@),
{
    s.len()
}

} // verus!
