//! The mathematical model of the parser: what a token of ASCII digit bytes
//! denotes, and when parsing succeeds.

use vstd::prelude::*;

verus! {

/// True when `b` is the ASCII encoding of a decimal digit (`'0'..='9'`).
pub open spec fn is_ascii_digit(b: u8) -> bool {
    0x30 <= b && b <= 0x39
}

/// The numeric value of an ASCII digit byte (meaningful when `is_ascii_digit(b)`).
pub open spec fn digit_val(b: u8) -> int {
    b - 0x30
}

/// True when every byte of `s` is an ASCII decimal digit.
pub open spec fn all_digits(s: Seq<u8>) -> bool {
    forall|i: int| 0 <= i < s.len() ==> is_ascii_digit(s[i])
}

/// The value denoted by a sequence of ASCII digit bytes, most significant
/// digit first.
pub open spec fn token_value(s: Seq<u8>) -> int
    decreases s.len(),
{
    if s.len() == 0 {
        0
    } else {
        10 * token_value(s.drop_last()) + digit_val(s.last())
    }
}

/// What parsing a byte token yields: the denoted value, exactly when the
/// token is 1 to 3 ASCII digit bytes denoting a value at most 255.
pub open spec fn parse_spec(s: Seq<u8>) -> Option<u8> {
    if 1 <= s.len() && s.len() <= 3 && all_digits(s) && token_value(s) <= 255 {
        Some(token_value(s) as u8)
    } else {
        None
    }
}

/// The canonical decimal digit string of `v`, as ASCII bytes, most
/// significant digit first and without leading zeros.
pub open spec fn dec_bytes(v: nat) -> Seq<u8>
    decreases v,
{
    if v < 10 {
        seq![(0x30 + v) as u8]
    } else {
        dec_bytes(v / 10).push((0x30 + v % 10) as u8)
    }
}

/// Unfolds `token_value` for the token lengths the parser accepts.
pub proof fn lemma_token_value_upto3(s: Seq<u8>)
    requires
        1 <= s.len() && s.len() <= 3,
    ensures
        s.len() == 1 ==> token_value(s) == digit_val(s[0]),
        s.len() == 2 ==> token_value(s) == 10 * digit_val(s[0]) + digit_val(s[1]),
        s.len() == 3 ==> token_value(s) == 100 * digit_val(s[0]) + 10 * digit_val(s[1])
            + digit_val(s[2]),
{
    if s.len() == 1 {
        let s0 = s.drop_last();
        assert(token_value(s0) == 0);
        assert(token_value(s) == 10 * token_value(s0) + digit_val(s[0]));
    } else if s.len() == 2 {
        let s1 = s.drop_last();
        let s0 = s1.drop_last();
        assert(token_value(s0) == 0);
        assert(token_value(s1) == 10 * token_value(s0) + digit_val(s[0]));
        assert(token_value(s) == 10 * token_value(s1) + digit_val(s[1]));
    } else {
        let s2 = s.drop_last();
        let s1 = s2.drop_last();
        let s0 = s1.drop_last();
        assert(token_value(s0) == 0);
        assert(token_value(s1) == 10 * token_value(s0) + digit_val(s[0]));
        assert(token_value(s2) == 10 * token_value(s1) + digit_val(s[1]));
        assert(token_value(s) == 10 * token_value(s2) + digit_val(s[2]));
    }
}

/// The canonical digit string of `v` consists of digits, denotes `v`, and has
/// as many digits as `v` has in decimal.
pub proof fn lemma_dec_bytes(v: nat)
    ensures
        all_digits(dec_bytes(v)),
        token_value(dec_bytes(v)) == v,
        v < 10 ==> dec_bytes(v).len() == 1,
        10 <= v < 100 ==> dec_bytes(v).len() == 2,
        100 <= v < 1000 ==> dec_bytes(v).len() == 3,
    decreases v,
{
    if v < 10 {
        let s = dec_bytes(v);
        let s0 = s.drop_last();
        assert(token_value(s0) == 0);
        assert(token_value(s) == 10 * token_value(s0) + digit_val(s[0]));
        assert(is_ascii_digit(s[0]));
    } else {
        lemma_dec_bytes(v / 10);
        let p = dec_bytes(v / 10);
        let b = (0x30 + v % 10) as u8;
        let s = p.push(b);
        assert(s.drop_last() =~= p);
        assert(s.last() == b);
        assert(v % 10 < 10);
        assert(is_ascii_digit(b));
        assert(all_digits(s)) by {
            assert(forall|i: int| 0 <= i < p.len() ==> s[i] == p[i]);
        }
        assert(token_value(s) == 10 * (v / 10) + (v % 10));
        assert(10 * (v / 10) + (v % 10) == v);
    }
}

/// Round trip: the canonical digit string of any 8-bit value parses back to
/// that value.
pub proof fn lemma_round_trip(v: u8)
    ensures
        parse_spec(dec_bytes(v as nat)) == Some(v),
{
    lemma_dec_bytes(v as nat);
}

/// Overflow boundary: the canonical digit string of any value in [256, 999]
/// is rejected.
pub proof fn lemma_overflow_boundary(v: nat)
    requires
        256 <= v <= 999,
    ensures
        parse_spec(dec_bytes(v)) == None::<u8>,
{
    lemma_dec_bytes(v);
}

/// Length gate: the empty token and any token of more than 3 bytes are
/// rejected, whatever their bytes.
pub proof fn lemma_length_gate(s: Seq<u8>)
    requires
        s.len() == 0 || s.len() > 3,
    ensures
        parse_spec(s) == None::<u8>,
{
}

/// Non-digit rejection: a token with a byte outside `'0'..='9'` at any
/// position is rejected, whatever the other bytes hold.
pub proof fn lemma_non_digit_rejected(s: Seq<u8>, i: int)
    requires
        0 <= i < s.len(),
        !is_ascii_digit(s[i]),
    ensures
        parse_spec(s) == None::<u8>,
{
    assert(!all_digits(s));
}

} // verus!
