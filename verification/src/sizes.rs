//! Human-readable byte sizes, rendered and parsed by the `bytesize` crate.

use vstd::prelude::*;

verus! {

/// The decimal digit for `d < 10`.
pub open spec fn digit_char(d: nat) -> char {
    (('0' as u32) + d) as char
}

/// Decimal rendering of `n`, without sign or leading zeros.
pub open spec fn decimal(n: nat) -> Seq<char>
    decreases n,
{
    if n < 10 {
        seq![digit_char(n)]
    } else {
        decimal(n / 10).push(digit_char(n % 10))
    }
}

/// Whether `s` is a non-empty run of ASCII digits.
pub open spec fn all_digits(s: Seq<char>) -> bool {
    s.len() > 0 && forall|i: int| 0 <= i < s.len() ==> '0' <= #[trigger] s[i] <= '9'
}

/// The number that a run of ASCII digits denotes.
pub open spec fn digits_value(s: Seq<char>) -> nat
    decreases s.len(),
{
    if s.len() == 0 {
        0
    } else {
        digits_value(s.drop_last()) * 10 + ((s.last() as u32) - ('0' as u32)) as nat
    }
}

/// The text that `bytesize` renders for a number of bytes (IEC units, one decimal).
pub uninterp spec fn byte_size_text(bytes: u64) -> Seq<char>;

/// What `bytesize` parses a size text into, in bytes (`None` when it is refused).
pub uninterp spec fn parsed_byte_size(text: Seq<char>) -> Option<u64>;

/// Renders a number of bytes with `bytesize::ByteSize::b(bytes).to_string()`.
/// The text is a function of `bytes` alone; below 1024 it is the decimal
/// number followed by " B".  The unit and one-decimal rendering of larger
/// sizes is not spelled out here.
#[verifier::external_body]
pub(crate) fn byte_size_string(bytes: u64) -> (s: String)
    ensures
        s@ == byte_size_text(bytes),
        bytes < 1024 ==> s@ == decimal(bytes as nat) + " B"@,
{
    bytesize::ByteSize::b(bytes).to_string()
}

/// Parses a size text with `<bytesize::ByteSize as FromStr>::from_str` and
/// keeps the byte count.  The result is a function of the text alone; a plain
/// run of digits whose value fits in `u64` parses to that value.  Which texts
/// with units are accepted, and their values, is not spelled out here.
#[verifier::external_body]
pub(crate) fn parse_byte_size(text: &str) -> (r: Option<u64>)
    ensures
        r == parsed_byte_size(text@),
        all_digits(text@) && digits_value(text@) <= u64::MAX ==> r == Some(
            digits_value(text@) as u64,
        ),
{
    match text.parse::<bytesize::ByteSize>() {
        Ok(b) => Some(b.0),
        Err(_) => None,
    }
}

} // verus!
