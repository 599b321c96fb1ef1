//! Degrees, minutes and seconds of arc, with the conversions from NMEA
//! position fields and to and from decimal degrees.

use vstd::prelude::*;
use vstd::string::*;
use crate::nmea_types::NMEAError;
use crate::num::FixedPoint;
use crate::num::dec_digits_value;
use crate::num::dec_field_negative;
use crate::num::dec_field_ok;
use crate::num::dec_field_value;
use crate::num::dot_position;
use crate::num::find_dot;
use crate::num::lemma_dot_position;
use crate::num::lemma_pow10_mono;
use crate::num::parse_decimal;
use crate::num::parse_uint;
use crate::num::pow10;
use crate::num::pow10_u64;
use crate::num::uint_digits;
use crate::num::uint_in_range;

verus! {

/// A positional magnitude in whole degrees, minutes and seconds of arc.
/// It carries no hemisphere and no sign: where latitude or longitude
/// appear, a separate `N`/`S` or `E`/`W` character stands beside it.
#[derive(Clone, Debug, Default, Copy, PartialEq, Eq, Structural)]
pub struct GPSDMS {
    pub degrees: u16,
    pub minutes: u8,
    pub seconds: u8,
}

/// The part of an NMEA position field before its first dot.
pub open spec fn dms_values0(s: Seq<u8>) -> Seq<u8> {
    s.take(dot_position(s))
}

/// The part of an NMEA position field between its first dot and its second,
/// if any: the first fraction piece.
pub open spec fn dms_values1(s: Seq<u8>) -> Seq<u8> {
    let rest = s.skip(dot_position(s) + 1);
    rest.take(dot_position(rest))
}

/// Is a position field in the seconds-first shape `hhmmss.ss`: at most two
/// digits after the dot? The fraction scales down to seconds; minutes are
/// the last two digits before the dot; degrees are the digits before them.
pub open spec fn dms_seconds_first_ok(s: Seq<u8>) -> bool {
    let v0 = dms_values0(s);
    let v1 = dms_values1(s);
    &&& uint_in_range(v1, 99)
    &&& v0.len() >= 2
    &&& uint_in_range(v0.skip(v0.len() - 2), 255)
    &&& uint_in_range(v0.take(v0.len() - 2), 65535)
}

/// The value read from a seconds-first field: seconds are the fraction
/// scaled by sixty over one hundred, rounded half up.
pub open spec fn dms_seconds_first_value(s: Seq<u8>) -> GPSDMS {
    let v0 = dms_values0(s);
    let v1 = dms_values1(s);
    GPSDMS {
        degrees: dec_digits_value(uint_digits(v0.take(v0.len() - 2))) as u16,
        minutes: dec_digits_value(uint_digits(v0.skip(v0.len() - 2))) as u8,
        seconds: ((6 * dec_digits_value(uint_digits(v1)) + 5) / 10) as u8,
    }
}

/// Is a position field in the minutes-fraction shape `ddmm.mmmm`: more than
/// two digits after the dot? The first two characters are degrees; the rest
/// is a decimal number of minutes.
pub open spec fn dms_minutes_ok(s: Seq<u8>) -> bool {
    &&& uint_in_range(s.take(2), 99)
    &&& dec_field_ok(s.skip(2))
    &&& !dec_field_negative(s.skip(2))
}

/// The value read from a minutes-fraction field: whole minutes capped at
/// 255, and the fractional minutes scaled to seconds, truncated.
pub open spec fn dms_minutes_value(s: Seq<u8>) -> GPSDMS {
    let d = dec_field_value(s.skip(2));
    let sp = pow10(d.scale as nat);
    let ip = d.mantissa as int / sp as int;
    let fr = d.mantissa as int % sp as int;
    GPSDMS {
        degrees: dec_digits_value(uint_digits(s.take(2))) as u16,
        minutes: (if ip > 255 {
            255int
        } else {
            ip
        }) as u8,
        seconds: ((fr * 60) / sp as int) as u8,
    }
}

/// Does an NMEA position field read as a degrees/minutes/seconds value? It
/// must be at least seven characters and contain a dot; the count of digits
/// after the dot picks the shape.
pub open spec fn dms_field_ok(s: Seq<u8>) -> bool {
    &&& s.len() >= 7
    &&& dot_position(s) < s.len()
    &&& if dms_values1(s).len() <= 2 {
        dms_seconds_first_ok(s)
    } else {
        dms_minutes_ok(s)
    }
}

/// The value read from an accepted NMEA position field.
pub open spec fn dms_field_value(s: Seq<u8>) -> GPSDMS {
    if dms_values1(s).len() <= 2 {
        dms_seconds_first_value(s)
    } else {
        dms_minutes_value(s)
    }
}

/// The whole seconds of arc that a value stands for.
pub open spec fn dms_total_seconds(dms: GPSDMS) -> int {
    dms.degrees * 3600 + dms.minutes * 60 + dms.seconds
}

/// Decimal degrees of a value at precision `p`: the exact ratio of total
/// seconds to one hour of arc, rounded half up at `p` decimal places.
pub open spec fn dms_decimal_at(dms: GPSDMS, p: nat) -> FixedPoint {
    FixedPoint {
        negative: false,
        mantissa: ((dms_total_seconds(dms) * pow10(p) + 1800) / 3600) as u64,
        scale: p as u8,
    }
}

/// The value that `from_decimal` reads from non-negative decimal degrees:
/// whole degrees first; the remainder scaled to minutes at six decimal
/// places, rounded half up after a half-up nudge of five millionths; the
/// remainder of that scaled to seconds, truncated.
pub open spec fn dms_of_decimal(d: FixedPoint) -> GPSDMS {
    let sp = pow10(d.scale as nat) as int;
    let degrees = d.mantissa as int / sp;
    let fr = d.mantissa as int % sp;
    if fr == 0 {
        GPSDMS { degrees: degrees as u16, minutes: 0, seconds: 0 }
    } else {
        let m6 = (fr * 60000000 + 5 * sp + sp / 2) / sp;
        GPSDMS {
            degrees: degrees as u16,
            minutes: (m6 / 1000000) as u8,
            seconds: ((m6 % 1000000) * 60 / 1000000) as u8,
        }
    }
}

impl GPSDMS {
    pub fn new(degrees: u16, minutes: u8, seconds: u8) -> (r: Self)
        ensures
            r == (GPSDMS { degrees, minutes, seconds }),
    {
        Self { degrees, minutes, seconds }
    }

    /// Reads a [GPSDMS] from an NMEA position field. Sentences carry two
    /// shapes: `ddmm.mmmm` for latitude and longitude, and `hhmmss.ss`
    /// with the seconds first; the count of fraction digits tells them
    /// apart.
    pub fn from_nmea_str(value: &str) -> (r: Result<Self, NMEAError>)
        ensures
            match r {
                Ok(dms) => dms_field_ok(value.spec_bytes()) && dms == dms_field_value(
                    value.spec_bytes(),
                ),
                Err(e) => !dms_field_ok(value.spec_bytes()) && (e matches NMEAError::InvalidData(
                    raw,
                ) && raw@ == value.spec_bytes()),
            },
    {
        let s = value.as_bytes();
        Self::from_field(s)
    }

    /// Reads a [GPSDMS] from an NMEA position field given as raw bytes.
    pub fn from_field(s: &[u8]) -> (r: Result<Self, NMEAError>)
        ensures
            match r {
                Ok(dms) => dms_field_ok(s@) && dms == dms_field_value(s@),
                Err(e) => !dms_field_ok(s@) && (e matches NMEAError::InvalidData(raw) && raw@
                    == s@),
            },
    {
        let n = s.len();
        if n < 7 {
            return Err(NMEAError::InvalidData(vstd::slice::slice_to_vec(s)));
        }
        let dot = find_dot(s);
        proof {
            lemma_dot_position(s@);
        }
        if dot == n {
            return Err(NMEAError::InvalidData(vstd::slice::slice_to_vec(s)));
        }
        let rest = &s[dot + 1..n];
        proof {
            assert(rest@ =~= s@.skip(dot + 1));
        }
        let dot2 = find_dot(rest);
        proof {
            lemma_dot_position(rest@);
        }
        let v1 = &rest[0..dot2];
        proof {
            assert(v1@ =~= dms_values1(s@));
        }
        if dot2 <= 2 {
            // hhmmss.ss: seconds spelled first, as a fraction.
            let frac = match parse_uint(v1, 99) {
                Some(v) => v,
                None => {
                    return Err(NMEAError::InvalidData(vstd::slice::slice_to_vec(s)));
                },
            };
            let v0 = &s[0..dot];
            proof {
                assert(v0@ =~= dms_values0(s@));
            }
            if v0.len() < 2 {
                return Err(NMEAError::InvalidData(vstd::slice::slice_to_vec(s)));
            }
            let m_part = &v0[v0.len() - 2..v0.len()];
            proof {
                assert(m_part@ =~= dms_values0(s@).skip(dms_values0(s@).len() - 2));
            }
            let minutes = match parse_uint(m_part, 255) {
                Some(v) => v as u8,
                None => {
                    return Err(NMEAError::InvalidData(vstd::slice::slice_to_vec(s)));
                },
            };
            let d_part = &v0[0..v0.len() - 2];
            proof {
                assert(d_part@ =~= dms_values0(s@).take(dms_values0(s@).len() - 2));
            }
            let degrees = match parse_uint(d_part, 65535) {
                Some(v) => v as u16,
                None => {
                    return Err(NMEAError::InvalidData(vstd::slice::slice_to_vec(s)));
                },
            };
            let seconds = ((6 * frac + 5) / 10) as u8;
            Ok(GPSDMS { degrees, minutes, seconds })
        } else {
            // ddmm.mmmm: two degree digits, then decimal minutes.
            let d_part = &s[0..2];
            proof {
                assert(d_part@ =~= s@.take(2));
            }
            let degrees = match parse_uint(d_part, 99) {
                Some(v) => v as u16,
                None => {
                    return Err(NMEAError::InvalidData(vstd::slice::slice_to_vec(s)));
                },
            };
            let m_part = &s[2..n];
            proof {
                assert(m_part@ =~= s@.skip(2));
            }
            let d = match parse_decimal(m_part) {
                Some(v) => v,
                None => {
                    return Err(NMEAError::InvalidData(vstd::slice::slice_to_vec(s)));
                },
            };
            if d.negative {
                return Err(NMEAError::InvalidData(vstd::slice::slice_to_vec(s)));
            }
            let sp = pow10_u64(d.scale);
            proof {
                lemma_pow10_mono(0, d.scale as nat);
                lemma_pow10_mono(d.scale as nat, 9);
                assert(pow10(9) == 1000000000) by {
                    reveal_with_fuel(pow10, 11);
                }
            }
            let ip = d.mantissa / sp;
            let minutes: u8 = if ip > 255 {
                255
            } else {
                ip as u8
            };
            let fr = d.mantissa % sp;
            proof {
                assert((fr as int) * 60 < (sp as int) * 60) by (nonlinear_arith)
                    requires
                        fr < sp,
                ;
                assert(((fr as int) * 60) / (sp as int) < 60) by (nonlinear_arith)
                    requires
                        (fr as int) * 60 < (sp as int) * 60,
                        sp >= 1,
                ;
            }
            let seconds = ((fr * 60) / sp) as u8;
            Ok(GPSDMS { degrees, minutes, seconds })
        }
    }

    /// Reads a [GPSDMS] from non-negative decimal degrees.
    pub fn from_decimal(d: &FixedPoint) -> (r: Self)
        requires
            d.wf(),
            !d.negative,
            d.mantissa as int / pow10(d.scale as nat) as int <= u16::MAX,
        ensures
            r == dms_of_decimal(*d),
    {
        let sp = pow10_u64(d.scale);
        proof {
            lemma_pow10_mono(0, d.scale as nat);
            lemma_pow10_mono(d.scale as nat, 9);
            assert(pow10(9) == 1000000000) by {
                reveal_with_fuel(pow10, 11);
            }
        }
        let degrees = (d.mantissa / sp) as u16;
        let fr = d.mantissa % sp;
        if fr == 0 {
            return GPSDMS { degrees, minutes: 0, seconds: 0 };
        }
        proof {
            assert(((fr as int) * 60000000 + 5 * (sp as int) + (sp as int) / 2) / (sp as int)
                < 60000006) by (nonlinear_arith)
                requires
                    1 <= fr < sp,
                    sp <= 1000000000,
            ;
            assert(((fr as int) * 60000000 + 5 * (sp as int) + (sp as int) / 2) >= 0)
                by (nonlinear_arith)
                requires
                    1 <= fr < sp,
            ;
        }
        let m6: u64 = ((fr as u128 * 60000000 + 5 * sp as u128 + sp as u128 / 2) / sp as u128)
            as u64;
        let minutes = (m6 / 1000000) as u8;
        let seconds = ((m6 % 1000000) * 60 / 1000000) as u8;
        GPSDMS { degrees, minutes, seconds }
    }

    /// Decimal degrees of this value, rounded half up at `p` decimal
    /// places; `p` may be at most nine.
    pub fn to_decimal(&self, p: u8) -> (r: FixedPoint)
        requires
            p <= 9,
        ensures
            r == dms_decimal_at(*self, p as nat),
            r.wf(),
    {
        let sp = pow10_u64(p);
        proof {
            lemma_pow10_mono(p as nat, 9);
            assert(pow10(9) == 1000000000) by {
                reveal_with_fuel(pow10, 11);
            }
        }
        let ts: u64 = self.degrees as u64 * 3600 + self.minutes as u64 * 60 + self.seconds as u64;
        proof {
            assert(ts * sp <= 235941615 * 1000000000) by (nonlinear_arith)
                requires
                    ts <= 235941615,
                    sp <= 1000000000,
            ;
        }
        let mantissa = (ts * sp + 1800) / 3600;
        FixedPoint { negative: false, mantissa, scale: p }
    }
}

} // verus!
