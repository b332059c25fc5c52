use vstd::prelude::*;

verus! {

/// The lower-case hexadecimal digit of value `d`.
pub open spec fn hex_digit(d: u128) -> char {
    seq!['0', '1', '2', '3', '4', '5', '6', '7', '8', '9', 'a', 'b', 'c', 'd', 'e', 'f'][d as int]
}

/// The `k`-th of the 32 hex digits of `t`, most significant first.
pub open spec fn nibble(t: u128, k: int) -> u128 {
    (t >> ((124 - 4 * k) as u128)) & 15
}

/// The hyphenated form of an identity token: its 32 lower-case hex digits,
/// most significant first, in groups of 8, 4, 4, 4 and 12 joined by `-`.
pub open spec fn uuid_text(t: u128) -> Seq<char> {
    Seq::new(
        36,
        |i: int|
            if i == 8 || i == 13 || i == 18 || i == 23 {
                '-'
            } else {
                let k = if i < 8 {
                    i
                } else if i < 13 {
                    i - 1
                } else if i < 18 {
                    i - 2
                } else if i < 23 {
                    i - 3
                } else {
                    i - 4
                };
                hex_digit(nibble(t, k))
            },
    )
}

/// A string in upper case, as std writes it.
pub uninterp spec fn upper_of(s: Seq<char>) -> Seq<char>;

/// Relies on uuid::Uuid::new_v4: a fresh random version-4 identity, taken
/// as its 128-bit value. Nothing is promised of the value.
#[verifier::external_body]
pub(crate) fn fresh_token() -> (r: u128) {
    uuid::Uuid::new_v4().as_u128()
}

/// Relies on uuid::Uuid::from_u128 (the value's bytes, big-endian) and on
/// Uuid's Display impl, which writes the hyphenated lower-case form.
#[verifier::external_body]
pub(crate) fn token_text(t: u128) -> (r: String)
    ensures
        r@ == uuid_text(t),
{
    uuid::Uuid::from_u128(t).to_string()
}

/// Relies on str::to_uppercase: the result depends on the characters alone,
/// and the empty string stays empty.
#[verifier::external_body]
pub(crate) fn uppercase(s: &str) -> (r: String)
    ensures
        r@ == upper_of(s@),
        s@.len() == 0 ==> r@.len() == 0,
{
    s.to_uppercase()
}

} // verus!
