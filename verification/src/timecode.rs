//! Time codes of the data server: hours since the first hour of 1900, UTC.

use vstd::arithmetic::power2::{
    lemma2_to64, lemma2_to64_rest, lemma_pow2_pos, lemma_pow2_strictly_increases, pow2,
};
use vstd::bits::{lemma_u64_shl_is_mul, lemma_u64_shr_is_div};
use vstd::prelude::*;
use crate::grid::axis_values;
use crate::json::{Json, Number};

verus! {

/// The time code that stands in for a document without usable times.
pub open spec fn default_time_code() -> Number {
    Number::PosInt(700464)
}

/// The first time code of a metadata document: the first sample of its
/// coordinate axis `time`, or the default where the axis is missing, empty or
/// begins with something that is no number.
pub open spec fn first_time_of(metadata: Json) -> Number {
    match axis_values(metadata, "time"@) {
        Some(values) => if values.len() > 0 {
            match values[0].as_number_spec() {
                Some(n) => n,
                None => default_time_code(),
            }
        } else {
            default_time_code()
        },
        None => default_time_code(),
    }
}

/// The first time code of a metadata document.
pub fn first_time(metadata: &Json) -> (time: Number)
    ensures
        time == first_time_of(*metadata),
{
    let values = match metadata.get("coordinates") {
        Some(coordinates) => match coordinates.get("time") {
            Some(axis) => axis.as_array(),
            None => None,
        },
        None => None,
    };
    match values {
        Some(items) => if items.len() > 0 {
            match items[0].as_number() {
                Some(n) => n,
                None => Number::PosInt(700464),
            }
        } else {
            Number::PosInt(700464)
        },
        None => Number::PosInt(700464),
    }
}

/// The epoch of the time codes: the first hour of 1900, UTC.
pub open spec fn epoch_text() -> Seq<char> {
    "1900-01-01T00:00:00Z"@
}

/// The hour counts whose instant, counted from the epoch, the calendar of
/// `chrono` holds: from the first hour of the year -262143, which is
/// 96 439 725 days before the epoch, to the last hour of the year 262142,
/// whose last day is 95 051 803 days after it.
pub open spec fn time_code_supported(hours: i64) -> bool {
    -2_314_553_400 <= hours <= 2_281_243_295
}

/// An hour count held to the calendar: the nearest count whose instant the
/// calendar holds.
pub open spec fn held_hours(hours: i64) -> i64 {
    if hours < -2_314_553_400 {
        -2_314_553_400i64
    } else if hours > 2_281_243_295 {
        2_281_243_295i64
    } else {
        hours
    }
}

/// The RFC 3339 text of the instant `hours` hours after the instant that
/// `epoch` names, with the offset written as `epoch` gives it.
pub uninterp spec fn rfc3339_shifted(epoch: Seq<char>, hours: i64) -> Seq<char>;

/// The calls of `chrono` that shift an instant:
/// `DateTime::parse_from_rfc3339`, `TimeDelta::try_hours`,
/// `DateTime::checked_add_signed` and `DateTime::to_rfc3339`. There is no
/// result where `epoch` names no instant or the sum leaves the calendar.
/// Counted from the first hour of 1900 the sum exists exactly when its day
/// lies from `NaiveDate::MIN` to `NaiveDate::MAX`, the first day of the year
/// -262143 and the last day of the year 262142. The text of the sum is named
/// by the contract, which states nothing else of it.
#[verifier::external_body]
fn shifted_by_hours(epoch: &str, hours: i64) -> (stamp: Option<String>)
    ensures
        epoch@ == epoch_text() ==> (stamp is Some <==> time_code_supported(hours)),
        stamp matches Some(text) ==> text@ == rfc3339_shifted(epoch@, hours),
{
    let start = chrono::DateTime::parse_from_rfc3339(epoch).ok()?;
    let span = chrono::TimeDelta::try_hours(hours)?;
    start.checked_add_signed(span).map(|instant| instant.to_rfc3339())
}

/// The timestamp of a time code in whole hours: the instant that many hours
/// after the first hour of 1900, as RFC 3339 text. There is no failure: an
/// hour count beyond the calendar gives the first or the last hour that the
/// calendar holds.
pub fn rossby_time_to_iso(hours: i64) -> (stamp: String)
    ensures
        stamp@ == rfc3339_shifted(epoch_text(), held_hours(hours)),
{
    let held: i64 = if hours < -2_314_553_400 {
        -2_314_553_400
    } else if hours > 2_281_243_295 {
        2_281_243_295
    } else {
        hours
    };
    shifted_by_hours("1900-01-01T00:00:00Z", held).unwrap()
}

/// The exponent field of a binary64 bit pattern: the eleven bits below the
/// sign.
pub open spec fn exponent_of(bits: u64) -> int {
    (bits as int / 0x10_0000_0000_0000) % 2048
}

/// The fraction field of a binary64 bit pattern: its lowest 52 bits.
pub open spec fn fraction_of(bits: u64) -> int {
    bits as int % 0x10_0000_0000_0000
}

/// The sign of a binary64 bit pattern is its highest bit.
pub open spec fn is_negative(bits: u64) -> bool {
    bits >= 0x8000_0000_0000_0000
}

/// A bit pattern that stands for no number: the highest exponent with a
/// fraction that is not zero.
pub open spec fn is_not_a_number(bits: u64) -> bool {
    exponent_of(bits) == 2047 && fraction_of(bits) != 0
}

/// The whole part of the magnitude of a binary64 value. With the exponent
/// field `e` and the fraction field `f`, a value with `e > 0` has the
/// magnitude `(2^52 + f) * 2^(e - 1075)`; one with `e = 0` is below one. The
/// infinities count as a magnitude beyond every integer of 64 bits.
pub open spec fn whole_magnitude(bits: u64) -> int {
    let e = exponent_of(bits);
    let significand = 0x10_0000_0000_0000 + fraction_of(bits);
    if e == 0 {
        0
    } else if e >= 1075 {
        significand * pow2((e - 1075) as nat)
    } else {
        significand / (pow2((1075 - e) as nat) as int)
    }
}

/// A time code without its fraction: the number truncated toward zero. What
/// is no number counts as zero.
pub open spec fn truncated(time: Number) -> int {
    match time {
        Number::PosInt(n) => n as int,
        Number::NegInt(n) => n as int,
        Number::Real(bits) => if is_not_a_number(bits) {
            0
        } else if is_negative(bits) {
            -whole_magnitude(bits)
        } else {
            whole_magnitude(bits)
        },
    }
}

/// The whole hours of a time code: the number truncated toward zero, and
/// held to the integers of 64 bits.
pub open spec fn whole_hours_of(time: Number) -> i64 {
    let hours = truncated(time);
    if hours > i64::MAX {
        i64::MAX
    } else if hours < i64::MIN {
        i64::MIN
    } else {
        hours as i64
    }
}

fn whole_hours_of_bits(bits: u64) -> (hours: i64)
    ensures
        hours == whole_hours_of(Number::Real(bits)),
{
    let negative = bits >= 0x8000_0000_0000_0000;
    let e: u64 = (bits >> 52) & 0x7ff;
    let f: u64 = bits & 0xf_ffff_ffff_ffff;
    assert(e == (bits / 0x10_0000_0000_0000) % 2048 && f == bits % 0x10_0000_0000_0000 && e < 2048
        && f < 0x10_0000_0000_0000) by (bit_vector)
        requires
            e == (bits >> 52) & 0x7ff,
            f == bits & 0xf_ffff_ffff_ffff,
    ;
    assert(e == exponent_of(bits) && f == fraction_of(bits));
    if e == 2047 && f != 0 {
        return 0;
    }
    let significand: u64 = f + 0x10_0000_0000_0000;
    proof {
        lemma2_to64();
        lemma2_to64_rest();
    }
    if e < 1023 {
        proof {
            if e > 0 {
                let shift = (1075 - e) as nat;
                if shift > 53 {
                    lemma_pow2_strictly_increases(53, shift);
                }
                assert(pow2(shift) >= 0x20_0000_0000_0000);
                assert(significand as int / (pow2(shift) as int) == 0) by (nonlinear_arith)
                    requires
                        0 <= significand < 0x20_0000_0000_0000,
                        pow2(shift) >= 0x20_0000_0000_0000,
                ;
            }
        }
        return 0;
    }
    if e >= 1086 {
        proof {
            let shift = (e - 1075) as nat;
            if shift > 11 {
                lemma_pow2_strictly_increases(11, shift);
            }
            assert(pow2(shift) >= 2048);
            assert(significand * pow2(shift) >= 0x8000_0000_0000_0000) by (nonlinear_arith)
                requires
                    significand >= 0x10_0000_0000_0000,
                    pow2(shift) >= 2048,
            ;
        }
        return if negative {
            i64::MIN
        } else {
            i64::MAX
        };
    }
    let magnitude: u64 = if e >= 1075 {
        let shift: u64 = e - 1075;
        proof {
            if shift < 10 {
                lemma_pow2_strictly_increases(shift as nat, 10);
            }
            assert(pow2(shift as nat) <= 1024);
            lemma_pow2_pos(shift as nat);
            assert(significand * pow2(shift as nat) < 0x8000_0000_0000_0000) by (nonlinear_arith)
                requires
                    significand < 0x20_0000_0000_0000,
                    0 < pow2(shift as nat) <= 1024,
            ;
            lemma_u64_shl_is_mul(significand, shift);
        }
        significand << shift
    } else {
        let shift: u64 = 1075 - e;
        proof {
            lemma_u64_shr_is_div(significand, shift);
        }
        significand >> shift
    };
    assert(magnitude == whole_magnitude(bits));
    assert(magnitude < 0x8000_0000_0000_0000) by {
        if e < 1075 {
            let shift: u64 = (1075 - e) as u64;
            assert(significand >> shift <= significand) by (bit_vector);
        }
    }
    if negative {
        -(magnitude as i64)
    } else {
        magnitude as i64
    }
}

/// The whole hours of a time code: the number without its fraction, no
/// further from zero than the integers of 64 bits reach. A time code that is
/// no number has zero hours.
pub fn whole_hours(time: Number) -> (hours: i64)
    ensures
        hours == whole_hours_of(time),
{
    match time {
        Number::PosInt(n) => if n > 0x7fff_ffff_ffff_ffff {
            i64::MAX
        } else {
            n as i64
        },
        Number::NegInt(n) => n,
        Number::Real(bits) => whole_hours_of_bits(bits),
    }
}

/// The timestamp of a time code, given as the data server gives it: the
/// instant that many whole hours after the first hour of 1900. There is no
/// failure: what is no number counts as zero hours, and a time code beyond
/// the calendar gives the first or the last hour that the calendar holds.
pub fn time_code_to_iso(time: Number) -> (stamp: String)
    ensures
        stamp@ == rfc3339_shifted(epoch_text(), held_hours(whole_hours_of(time))),
{
    rossby_time_to_iso(whole_hours(time))
}

} // verus!
