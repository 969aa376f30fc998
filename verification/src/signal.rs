//! How good the reception of a message was.

use vstd::prelude::*;
#[allow(unused_imports)]
use vstd::arithmetic::power2::{lemma2_to64, lemma_pow2_adds, lemma_pow2_pos, lemma_pow2_unfold, pow2};
use crate::models::Real32;

verus! {

/// The bits of the single precision infinity. Below them, read as a number, lie the finite numbers
/// from zero up.
pub const INFINITY: u32 = 0x7f80_0000;

/// The sign bit.
pub const SIGN: u32 = 0x8000_0000;

/// The finite number from zero up with the given bits, counted in units of 2^-149.
pub open spec fn scaled(bits: int) -> nat {
    let exponent = bits / 0x80_0000;
    let fraction = bits % 0x80_0000;
    if exponent == 0 {
        fraction as nat
    } else {
        ((0x80_0000 + fraction) * pow2((exponent - 1) as nat)) as nat
    }
}

/// Whether a single precision number is one (not a NaN) and is at least the whole number `limit`.
pub open spec fn at_least(number: Real32, limit: nat) -> bool {
    if number.bits >= SIGN {
        number.bits == SIGN && limit == 0
    } else if number.bits >= INFINITY {
        number.bits == INFINITY
    } else {
        scaled(number.bits as int) >= limit * pow2(149)
    }
}

/// The next bits make the next number.
proof fn lemma_step(bits: int)
    requires
        0 <= bits < INFINITY - 1,
    ensures
        scaled(bits) < scaled(bits + 1),
{
    let e = bits / 0x80_0000;
    let f = bits % 0x80_0000;
    if f + 1 < 0x80_0000 {
        assert((bits + 1) / 0x80_0000 == e);
        assert((bits + 1) % 0x80_0000 == f + 1);
        if e > 0 {
            let p = pow2((e - 1) as nat) as int;
            lemma_pow2_pos((e - 1) as nat);
            assert((0x80_0000 + f) * p >= 0 && (0x80_0000 + f + 1) * p > (0x80_0000 + f) * p)
                by (nonlinear_arith)
                requires
                    p > 0,
                    f >= 0,
            ;
        }
    } else {
        assert((bits + 1) / 0x80_0000 == e + 1);
        assert((bits + 1) % 0x80_0000 == 0);
        if e > 0 {
            let p = pow2((e - 1) as nat) as int;
            lemma_pow2_pos((e - 1) as nat);
            lemma_pow2_unfold(e as nat);
            assert((0x80_0000 + f) * p >= 0 && 0x80_0000 * (2 * p) > (0x80_0000 + f) * p)
                by (nonlinear_arith)
                requires
                    p > 0,
                    0 <= f < 0x80_0000,
            ;
        } else {
            lemma2_to64();
        }
    }
}

/// Larger bits make a larger number.
proof fn lemma_order(low: int, high: int)
    requires
        0 <= low < high < INFINITY,
    ensures
        scaled(low) < scaled(high),
    decreases high - low,
{
    lemma_step(high - 1);
    if low < high - 1 {
        lemma_order(low, high - 1);
    }
}

/// The bits of zero, five and ten.
proof fn lemma_limits()
    ensures
        scaled(0) == 0,
        scaled(0x40a0_0000) == 5 * pow2(149),
        scaled(0x4120_0000) == 10 * pow2(149),
{
    lemma_pow2_adds(21, 128);
    lemma_pow2_adds(20, 129);
    lemma2_to64();
    assert(0x40a0_0000int / 0x80_0000 == 129 && 0x40a0_0000int % 0x80_0000 == 0x20_0000);
    assert(0x4120_0000int / 0x80_0000 == 130 && 0x4120_0000int % 0x80_0000 == 0x20_0000);
    assert(pow2(149) == 0x20_0000 * pow2(128));
    assert(pow2(149) == 0x10_0000 * pow2(129));
}

/// Whether `number` is at least the number from zero up with the bits `limit`.
fn reaches(number: Real32, limit: u32) -> (r: bool)
    requires
        limit < INFINITY,
    ensures
        r == (if number.bits >= SIGN {
            number.bits == SIGN && scaled(limit as int) == 0
        } else if number.bits >= INFINITY {
            number.bits == INFINITY
        } else {
            scaled(number.bits as int) >= scaled(limit as int)
        }),
{
    proof {
        if number.bits < limit {
            lemma_order(number.bits as int, limit as int);
        }
        if limit < number.bits && number.bits < INFINITY {
            lemma_order(limit as int, number.bits as int);
        }
        if limit > 0 {
            lemma_order(0, limit as int);
        }
        lemma_limits();
    }
    if number.bits >= SIGN {
        number.bits == SIGN && limit == 0
    } else {
        limit <= number.bits && number.bits <= INFINITY
    }
}

/// The grade of a reception by its signal strength and its signal to noise ratio.
pub open spec fn grade(rssi: Option<i32>, snr: Option<Real32>) -> Seq<char> {
    match (rssi, snr) {
        (Some(strength), Some(ratio)) => if strength >= -50 && at_least(ratio, 10) {
            "Excellent"@
        } else if strength >= -70 && at_least(ratio, 5) {
            "Good"@
        } else if strength >= -85 && at_least(ratio, 0) {
            "Fair"@
        } else {
            "Poor"@
        },
        _ => "Unknown"@,
    }
}

/// The grade of a reception by its signal strength and its signal to noise ratio.
pub fn signal_quality(rssi: Option<i32>, snr: Option<Real32>) -> (r: &'static str)
    ensures
        r@ == grade(rssi, snr),
{
    proof {
        lemma_limits();
        lemma_pow2_pos(149);
    }
    match (rssi, snr) {
        (Some(strength), Some(ratio)) => {
            if strength >= -50 && reaches(ratio, 0x4120_0000) {
                "Excellent"
            } else if strength >= -70 && reaches(ratio, 0x40a0_0000) {
                "Good"
            } else if strength >= -85 && reaches(ratio, 0) {
                "Fair"
            } else {
                "Poor"
            }
        },
        _ => "Unknown",
    }
}

/// At one signal to noise ratio a stronger signal is never graded worse than a weaker one.
pub proof fn law_stronger_is_no_worse(weak: i32, strong: i32, snr: Real32)
    requires
        weak <= strong,
    ensures
        grade(Some(weak), Some(snr)) == "Excellent"@ ==> grade(Some(strong), Some(snr))
            == "Excellent"@,
        grade(Some(weak), Some(snr)) == "Good"@ ==> grade(Some(strong), Some(snr)) == "Good"@
            || grade(Some(strong), Some(snr)) == "Excellent"@,
        grade(Some(strong), Some(snr)) == "Poor"@ ==> grade(Some(weak), Some(snr)) == "Poor"@,
{
    reveal_strlit("Excellent");
    reveal_strlit("Good");
    reveal_strlit("Fair");
    reveal_strlit("Poor");
    assert("Poor"@[0] == 'P' && "Excellent"@[0] == 'E' && "Good"@[0] == 'G' && "Fair"@[0] == 'F');
}

/// Which bits are those of a number that is at least zero, five or ten: those from its own up to those
/// of infinity, and the negative zero for zero. A NaN is none of them.
pub proof fn law_numbers_by_bits(number: Real32)
    ensures
        at_least(number, 10) <==> 0x4120_0000 <= number.bits <= 0x7f80_0000,
        at_least(number, 5) <==> 0x40a0_0000 <= number.bits <= 0x7f80_0000,
        at_least(number, 0) <==> number.bits <= 0x7f80_0000 || number.bits == 0x8000_0000,
{
    lemma_limits();
    lemma_pow2_pos(149);
    let bits = number.bits as int;
    if bits < INFINITY {
        if bits < 0x40a0_0000 {
            lemma_order(bits, 0x40a0_0000);
        }
        if bits > 0x40a0_0000 {
            lemma_order(0x40a0_0000, bits);
        }
        if bits < 0x4120_0000 {
            lemma_order(bits, 0x4120_0000);
        }
        if bits > 0x4120_0000 {
            lemma_order(0x4120_0000, bits);
        }
    }
}

/// What each grade takes: excellent both -50 dBm and 10 dB, good -70 dBm and 5 dB, fair -85 dBm and
/// 0 dB; less in either is poor, and nothing is known where either is missing.
pub proof fn law_what_grades_take(strength: i32, ratio: Real32)
    ensures
        grade(Some(strength), Some(ratio)) == "Excellent"@ <==> strength >= -50 && 0x4120_0000
            <= ratio.bits <= 0x7f80_0000,
        grade(Some(strength), Some(ratio)) == "Excellent"@ || grade(Some(strength), Some(ratio))
            == "Good"@ <==> strength >= -70 && 0x40a0_0000 <= ratio.bits <= 0x7f80_0000,
        grade(Some(strength), Some(ratio)) != "Poor"@ <==> strength >= -85 && (ratio.bits
            <= 0x7f80_0000 || ratio.bits == 0x8000_0000),
        grade(Some(strength), Some(ratio)) != "Unknown"@,
        grade(None, Some(ratio)) == "Unknown"@,
        grade(Some(strength), None) == "Unknown"@,
        grade(None, None) == "Unknown"@,
{
    law_numbers_by_bits(ratio);
    reveal_strlit("Excellent");
    reveal_strlit("Good");
    reveal_strlit("Fair");
    reveal_strlit("Poor");
    reveal_strlit("Unknown");
    assert("Poor"@[0] == 'P' && "Excellent"@[0] == 'E' && "Good"@[0] == 'G' && "Fair"@[0] == 'F'
        && "Unknown"@[0] == 'U');
}

} // verus!
