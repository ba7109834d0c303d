//! Identifiers. Rows are identified by UUIDs, held as their 128-bit value
//! (big-endian, as `uuid::Uuid::as_u128` reads it).
use vstd::prelude::*;

verus! {

/// The 128-bit value of the UUID `s` spells, in any of the textual forms
/// `uuid::Uuid::parse_str` accepts, or `None`.
pub uninterp spec fn uuid_parse(s: Seq<char>) -> Option<u128>;

/// `uuid::Uuid::parse_str(s)`, as the UUID's 128-bit value: a function of
/// the text alone.
#[verifier::external_body]
pub(crate) fn parse_uuid(s: &str) -> (r: Option<u128>)
    ensures
        r == uuid_parse(s@),
{
    match uuid::Uuid::parse_str(s) {
        Ok(u) => Some(u.as_u128()),
        Err(_) => None,
    }
}

/// A lower-case hexadecimal digit.
pub open spec fn hex_digit_lower(d: nat) -> char {
    if d < 10 {
        ((d + 48) as u8) as char
    } else {
        ((d + 87) as u8) as char
    }
}

/// The last `n` hexadecimal digits of `v`, zero-padded, most significant
/// first.
pub open spec fn hex_digits(v: nat, n: nat) -> Seq<char>
    decreases n,
{
    if n == 0 {
        Seq::empty()
    } else {
        hex_digits(v / 16, (n - 1) as nat).push(hex_digit_lower(v % 16))
    }
}

/// The hyphenated form of a UUID: its 32 lower-case hexadecimal digits,
/// grouped 8-4-4-4-12.
pub open spec fn hyphenated(v: u128) -> Seq<char> {
    let h = hex_digits(v as nat, 32);
    h.subrange(0, 8) + seq!['-'] + h.subrange(8, 12) + seq!['-'] + h.subrange(12, 16) + seq!['-']
        + h.subrange(16, 20) + seq!['-'] + h.subrange(20, 32)
}

/// `uuid::Uuid::from_u128(v).to_string()`: the `Display` form of a UUID,
/// which is the hyphenated lower-case form.
#[verifier::external_body]
pub(crate) fn uuid_string(v: u128) -> (s: String)
    ensures
        s@ == hyphenated(v),
{
    uuid::Uuid::from_u128(v).to_string()
}

/// `"{kind} {id} not found"`: the same answer whether the row does not
/// exist or belongs to another learner.
pub fn not_found_message(kind: &str, id: u128) -> (m: String)
    ensures
        m@ == kind@ + " "@ + hyphenated(id) + " not found"@,
{
    let mut m = String::new();
    m.push_str(kind);
    m.push_str(" ");
    let t = uuid_string(id);
    m.push_str(t.as_str());
    m.push_str(" not found");
    proof {
        assert(m@ =~= kind@ + " "@ + hyphenated(id) + " not found"@);
    }
    m
}

} // verus!
