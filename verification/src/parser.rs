//! The executable parser: a branch-free SWAR pipeline over a packed 32-bit
//! word, proved equal to the model in [`crate::model`].
//!
//! The token's bytes are packed into byte lanes of one `u32`, every lane is
//! XORed with the ASCII digit base 0x30, and the word is shifted so that the
//! last character sits in the most significant lane ("units") with unused low
//! lanes zero. One wrapping addition flags lanes outside 0..=9, one wrapping
//! multiplication by a weight word sums hundreds, tens and units into the top
//! lane, and one byte-reversed lane comparison against the lanes of 255
//! catches three-digit tokens above 255, which the truncating multiplication
//! alone would wrap silently.

use vstd::prelude::*;

use crate::model::{
    all_digits, digit_val, is_ascii_digit, lemma_token_value_upto3, parse_spec, token_value,
};

verus! {

/// The lane-validity check: with the token's lanes aligned to the high end of
/// `w` and the low lanes zero, the combined pre- and post-addition top-nibble
/// test clears exactly when every token byte is an ASCII digit.
proof fn lemma_lane_check(b0: u8, b1: u8, b2: u8, len: u32, shift: u32, w: u32, pc: u32)
    by (bit_vector)
    requires
        1 <= len && len <= 3,
        len < 2 ==> b1 == 0,
        len < 3 ==> b2 == 0,
        shift == (4 - len) * 8,
        w == (((b0 as u32) | ((b1 as u32) << 8u32) | ((b2 as u32) << 16u32)) ^ 0x3030_3030u32)
            << shift,
        pc == ((w + 0x0606_0606int) % 0x1_0000_0000int) as u32,
    ensures
        ((w | pc) & 0xF0F0_F0F0u32 == 0u32) <==> (is_ascii_digit(b0) && (len >= 2
            ==> is_ascii_digit(b1)) && (len >= 3 ==> is_ascii_digit(b2))),
{
}

/// The weighted accumulation: multiplying the aligned digit lanes by the
/// weight word 0x00640a01 sums `hundreds * 100 + tens * 10 + units` into the
/// top lane of the truncated product; the sum is exact whenever it fits in
/// one byte.
proof fn lemma_weighted_sum(b0: u8, b1: u8, b2: u8, len: u32, shift: u32, w: u32, m: u32)
    by (bit_vector)
    requires
        1 <= len && len <= 3,
        len < 2 ==> b1 == 0,
        len < 3 ==> b2 == 0,
        shift == (4 - len) * 8,
        w == (((b0 as u32) | ((b1 as u32) << 8u32) | ((b2 as u32) << 16u32)) ^ 0x3030_3030u32)
            << shift,
        m == ((0x0064_0a01int * (w as int)) % 0x1_0000_0000int) as u32,
        is_ascii_digit(b0),
        len >= 2 ==> is_ascii_digit(b1),
        len >= 3 ==> is_ascii_digit(b2),
    ensures
        len == 1 ==> (m >> 24u32) as int == digit_val(b0),
        len == 2 ==> (m >> 24u32) as int == 10 * digit_val(b0) + digit_val(b1),
        len == 3 && 100 * digit_val(b0) + 10 * digit_val(b1) + digit_val(b2) <= 255 ==> (m
            >> 24u32) as int == 100 * digit_val(b0) + 10 * digit_val(b1) + digit_val(b2),
{
}

/// The range check: reversing the byte lanes orders the digits most
/// significant first, and comparing against the lanes of "255" (0x00020505)
/// decides exactly whether a three-digit token denotes more than 255. Shorter
/// tokens never exceed the bound.
proof fn lemma_range_check(b0: u8, b1: u8, b2: u8, len: u32, shift: u32, w: u32, sw: u32)
    by (bit_vector)
    requires
        1 <= len && len <= 3,
        len < 2 ==> b1 == 0,
        len < 3 ==> b2 == 0,
        shift == (4 - len) * 8,
        w == (((b0 as u32) | ((b1 as u32) << 8u32) | ((b2 as u32) << 16u32)) ^ 0x3030_3030u32)
            << shift,
        sw == (w >> 24u32) | ((w >> 8u32) & 0xFF00u32) | ((w << 8u32) & 0x00FF_0000u32) | ((w
            & 0xFFu32) << 24u32),
        is_ascii_digit(b0),
        len >= 2 ==> is_ascii_digit(b1),
        len >= 3 ==> is_ascii_digit(b2),
    ensures
        len <= 2 ==> sw <= 0x0002_0505u32,
        len == 3 ==> (sw > 0x0002_0505u32 <==> 100 * digit_val(b0) + 10 * digit_val(b1)
            + digit_val(b2) > 255),
{
}

/// Parses `s` as an unsigned decimal token: returns the denoted value exactly
/// when `s` is 1 to 3 ASCII digit bytes denoting a value at most 255, and
/// `None` for every other byte sequence.
///
/// The body never branches per character: after the length gate, the bytes
/// are validated, weighted and range-checked lane-parallel in one `u32`.
pub fn make_u8(s: &[u8]) -> (r: Option<u8>)
    ensures
        r == parse_spec(s@),
{
    let n: usize = s.len();
    if n == 0 || n > 3 {
        return None;
    }
    let b0: u8 = s[0];
    let b1: u8 = if n >= 2 { s[1] } else { 0 };
    let b2: u8 = if n >= 3 { s[2] } else { 0 };

    let packed: u32 = (b0 as u32) | ((b1 as u32) << 8u32) | ((b2 as u32) << 16u32);
    let normalized: u32 = packed ^ 0x3030_3030;
    let shift: u32 = ((4 - n) as u32) * 8;
    let working: u32 = normalized << shift;

    let mult: u32 = 0x0064_0a01u32.wrapping_mul(working);
    proof {
        assert(mult >> 24u32 < 256) by (bit_vector);
    }
    let num: u8 = (mult >> 24u32) as u8;

    let partial_check: u32 = working.wrapping_add(0x0606_0606);
    let digits_ok: bool = (working | partial_check) & 0xF0F0_F0F0 == 0;
    let swapped: u32 = (working >> 24u32) | ((working >> 8u32) & 0xFF00) | ((working << 8u32)
        & 0x00FF_0000) | ((working & 0xFF) << 24u32);

    let ghost len: u32 = n as u32;
    proof {
        assert(partial_check == ((working + 0x0606_0606int) % 0x1_0000_0000int) as u32);
        assert(mult == ((0x0064_0a01int * (working as int)) % 0x1_0000_0000int) as u32);
        lemma_lane_check(b0, b1, b2, len, shift, working, partial_check);
    }

    if !digits_ok || swapped > 0x0002_0505 {
        proof {
            if digits_ok {
                lemma_range_check(b0, b1, b2, len, shift, working, swapped);
                lemma_token_value_upto3(s@);
                assert(all_digits(s@)) by {
                    assert(forall|i: int| 0 <= i < s@.len() ==> is_ascii_digit(s@[i])) by {
                        assert(s@[0] == b0);
                        if n >= 2 {
                            assert(s@[1] == b1);
                        }
                        if n >= 3 {
                            assert(s@[2] == b2);
                        }
                    }
                }
                assert(token_value(s@) > 255);
            } else {
                if !is_ascii_digit(b0) {
                    assert(s@[0] == b0);
                    assert(!all_digits(s@));
                } else if n >= 2 && !is_ascii_digit(b1) {
                    assert(s@[1] == b1);
                    assert(!all_digits(s@));
                } else {
                    assert(n >= 3 && !is_ascii_digit(b2));
                    assert(s@[2] == b2);
                    assert(!all_digits(s@));
                }
            }
        }
        return None;
    }

    proof {
        lemma_range_check(b0, b1, b2, len, shift, working, swapped);
        lemma_token_value_upto3(s@);
        assert(s@[0] == b0);
        if n >= 2 {
            assert(s@[1] == b1);
        }
        if n >= 3 {
            assert(s@[2] == b2);
        }
        assert(all_digits(s@)) by {
            assert(forall|i: int| 0 <= i < s@.len() ==> is_ascii_digit(s@[i]));
        }
        assert(0 <= token_value(s@) <= 255);
        lemma_weighted_sum(b0, b1, b2, len, shift, working, mult);
        assert(num == token_value(s@));
    }
    Some(num)
}

} // verus!
