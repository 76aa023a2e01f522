use vstd::prelude::*;
use vstd::string::*;

verus! {

/// True on the characters of a decimal digit.
pub open spec fn is_dec_digit(c: char) -> bool {
    '0' <= c && c <= '9'
}

/// True on the characters of a lower-case hexadecimal digit.
pub open spec fn is_hex_digit(c: char) -> bool {
    is_dec_digit(c) || ('a' <= c && c <= 'f')
}

/// Numeric value of a decimal or lower-case hexadecimal digit.
pub open spec fn digit_val(c: char) -> int {
    if is_dec_digit(c) {
        c as int - '0' as int
    } else {
        c as int - 'a' as int + 10
    }
}

/// Relies on `String::from_utf8_lossy` from std: a buffer of ASCII bytes
/// decodes to the string whose characters are exactly those bytes.
#[verifier::external_body]
pub fn ascii_string(bytes: &Vec<u8>) -> (r: String)
    requires
        forall|i: int| 0 <= i < bytes@.len() ==> bytes@[i] < 128,
    ensures
        r@ == bytes@.map_values(|b: u8| b as char),
{
    String::from_utf8_lossy(bytes).into_owned()
}

/// Character-wise string equality.
pub fn str_eq(a: &str, b: &str) -> (r: bool)
    ensures
        r == (a@ == b@),
{
    let ra: String = a.to_owned();
    let rb: String = b.to_owned();
    ra == rb
}

/// Whether `p` is a prefix of `s`.
pub open spec fn starts_with_spec(s: Seq<char>, p: Seq<char>) -> bool {
    p.len() <= s.len() && s.subrange(0, p.len() as int) == p
}

pub fn str_starts_with(s: &str, p: &str) -> (r: bool)
    ensures
        r == starts_with_spec(s@, p@),
{
    let sl: usize = s.unicode_len();
    let pl: usize = p.unicode_len();
    if pl > sl {
        false
    } else {
        str_eq(s.substring_char(0, pl), p)
    }
}

} // verus!
