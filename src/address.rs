use vstd::prelude::*;

verus! {

pub open spec fn is_hex_digit(c: char) -> bool {
    ('0' <= c && c <= '9') || ('a' <= c && c <= 'f') || ('A' <= c && c <= 'F')
}

/// Characters that the address reader skips between hex digits.
pub open spec fn is_hex_space(c: char) -> bool {
    c == ' ' || c == '\r' || c == '\n' || c == '\t'
}

pub open spec fn hex_value(c: char) -> int {
    if '0' <= c && c <= '9' {
        c as int - '0' as int
    } else if 'a' <= c && c <= 'f' {
        c as int - 'a' as int + 10
    } else {
        c as int - 'A' as int + 10
    }
}

/// The text with one leading lowercase `0x` removed, if it has one.
pub open spec fn without_0x(s: Seq<char>) -> Seq<char> {
    if s.len() >= 2 && s[0] == '0' && s[1] == 'x' {
        s.skip(2)
    } else {
        s
    }
}

/// The hex digits of `t`, in order.
pub open spec fn hex_digits(t: Seq<char>) -> Seq<char> {
    t.filter(|c: char| is_hex_digit(c))
}

/// Whether `s` reads as a 20-byte address: after an optional `0x`, only hex
/// digits and blanks, and exactly 40 hex digits.
pub open spec fn is_address_text(s: Seq<char>) -> bool {
    let t = without_0x(s);
    &&& forall|i: int| 0 <= i < t.len() ==> is_hex_digit(t[i]) || is_hex_space(t[i])
    &&& hex_digits(t).len() == 40
}

/// The 20 bytes that an address text denotes, big-endian, two digits a byte.
pub open spec fn address_bytes(s: Seq<char>) -> Seq<u8> {
    let d = hex_digits(without_0x(s));
    Seq::new(20, |i: int| (16 * hex_value(d[2 * i]) + hex_value(d[2 * i + 1])) as u8)
}

/// Relies on `FromStr` for `ethers::types::Address` (`fixed_hash::H160`,
/// reading through `rustc_hex::FromHexIter`): one leading `0x` is stripped,
/// spaces, tabs and line breaks are skipped, and exactly 40 hex digits of
/// either case must remain, read big-endian into 20 bytes; any other
/// character, or another number of digits, is an error.
#[verifier::external_body]
pub(crate) fn parse_address(s: &str) -> (r: Option<[u8; 20]>)
    ensures
        r is Some <==> is_address_text(s@),
        r matches Some(a) ==> a@ == address_bytes(s@),
{
    s.parse::<ethers::types::Address>().ok().map(|a| a.0)
}

} // verus!
