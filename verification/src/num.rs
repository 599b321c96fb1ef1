//! Fixed-point decimal numbers and verified parsers for the ASCII integer and
//! decimal fields that NMEA sentences carry.

use vstd::prelude::*;

verus! {

/// Is `b` an ASCII decimal digit?
pub open spec fn is_dec_digit(b: u8) -> bool {
    48 <= b <= 57
}

/// Are all bytes of `s` ASCII decimal digits?
pub open spec fn all_dec_digits(s: Seq<u8>) -> bool {
    forall|i: int| 0 <= i < s.len() ==> is_dec_digit(#[trigger] s[i])
}

/// Numeric value of a sequence of ASCII decimal digits, most significant
/// digit first.
pub open spec fn dec_digits_value(s: Seq<u8>) -> nat
    decreases s.len(),
{
    if s.len() == 0 {
        0
    } else {
        dec_digits_value(s.drop_last()) * 10 + (if s.last() >= 48 {
            (s.last() - 48) as nat
        } else {
            0
        })
    }
}

/// Ten to the power `e`.
pub open spec fn pow10(e: nat) -> nat
    decreases e,
{
    if e == 0 {
        1
    } else {
        10 * pow10((e - 1) as nat)
    }
}

/// A digit string's value never shrinks when more digits are appended:
/// the value of a prefix bounds the value of the whole from below.
pub proof fn lemma_dec_digits_value_prefix(s: Seq<u8>, i: int)
    requires
        0 <= i <= s.len(),
    ensures
        dec_digits_value(s.take(i)) <= dec_digits_value(s),
    decreases s.len(),
{
    if i < s.len() {
        assert(s.drop_last().take(i) =~= s.take(i));
        lemma_dec_digits_value_prefix(s.drop_last(), i);
    } else {
        assert(s.take(i) =~= s);
    }
}

/// Unfolding step used by parsing loops: appending one digit multiplies the
/// value by ten and adds the digit.
pub proof fn lemma_dec_digits_value_step(s: Seq<u8>, i: int)
    requires
        0 <= i < s.len(),
        s[i] >= 48,
    ensures
        dec_digits_value(s.take(i + 1)) == dec_digits_value(s.take(i)) * 10 + (s[i] - 48),
{
    assert(s.take(i + 1).drop_last() =~= s.take(i));
    assert(s.take(i + 1).last() == s[i]);
}

/// The digit part of an unsigned-integer field: a single leading `+` is
/// allowed and ignored, as `str::parse` does for unsigned integers.
pub open spec fn uint_digits(s: Seq<u8>) -> Seq<u8> {
    if s.len() > 0 && s[0] == 43 {
        s.drop_first()
    } else {
        s
    }
}

/// Does `s` spell an unsigned integer no greater than `max`?
pub open spec fn uint_in_range(s: Seq<u8>, max: nat) -> bool {
    let d = uint_digits(s);
    d.len() > 0 && all_dec_digits(d) && dec_digits_value(d) <= max
}

/// Parses an unsigned decimal integer of at most `max`, mirroring
/// `str::parse` for unsigned types: an optional `+`, then one or more
/// digits; anything else, or a value above `max`, is rejected.
#[verifier::loop_isolation(false)]
pub fn parse_uint(s: &[u8], max: u64) -> (r: Option<u64>)
    ensures
        match r {
            Some(v) => uint_in_range(s@, max as nat) && v == dec_digits_value(uint_digits(s@)),
            None => !uint_in_range(s@, max as nat),
        },
{
    let ghost whole = s@;
    let start: usize = if s.len() > 0 && s[0] == 43 {
        1
    } else {
        0
    };
    let ghost d = uint_digits(s@);
    proof {
        assert(d =~= whole.skip(start as int));
    }
    if s.len() == start {
        return None;
    }
    let mut acc: u128 = 0;
    let mut i: usize = start;
    while i < s.len()
        invariant
            start <= i <= s.len(),
            d =~= whole.skip(start as int),
            s@ == whole,
            acc == dec_digits_value(d.take(i - start)),
            acc <= max,
            all_dec_digits(d.take(i - start)),
        decreases s.len() - i,
    {
        let b = s[i];
        proof {
            assert(d[i - start] == s@[i as int]);
        }
        if b < 48 || b > 57 {
            proof {
                assert(!is_dec_digit(d[i - start]));
            }
            return None;
        }
        let next: u128 = acc * 10 + ((b - 48) as u128);
        proof {
            lemma_dec_digits_value_step(d, i - start);
        }
        if next > max as u128 {
            proof {
                lemma_dec_digits_value_prefix(d, i - start + 1);
                assert(dec_digits_value(d) > max as nat);
            }
            return None;
        }
        acc = next;
        i = i + 1;
    }
    proof {
        assert(d.take(i - start) =~= d);
    }
    Some(acc as u64)
}

/// Parses a `u8` field as `str::parse::<u8>` would.
pub fn parse_u8(s: &[u8]) -> (r: Option<u8>)
    ensures
        match r {
            Some(v) => uint_in_range(s@, u8::MAX as nat) && v == dec_digits_value(
                uint_digits(s@),
            ),
            None => !uint_in_range(s@, u8::MAX as nat),
        },
{
    match parse_uint(s, 255) {
        Some(v) => Some(v as u8),
        None => None,
    }
}

/// Parses a `u16` field as `str::parse::<u16>` would.
pub fn parse_u16(s: &[u8]) -> (r: Option<u16>)
    ensures
        match r {
            Some(v) => uint_in_range(s@, u16::MAX as nat) && v == dec_digits_value(
                uint_digits(s@),
            ),
            None => !uint_in_range(s@, u16::MAX as nat),
        },
{
    match parse_uint(s, 65535) {
        Some(v) => Some(v as u16),
        None => None,
    }
}

/// Parses a `u32` field as `str::parse::<u32>` would.
pub fn parse_u32(s: &[u8]) -> (r: Option<u32>)
    ensures
        match r {
            Some(v) => uint_in_range(s@, u32::MAX as nat) && v == dec_digits_value(
                uint_digits(s@),
            ),
            None => !uint_in_range(s@, u32::MAX as nat),
        },
{
    match parse_uint(s, 4294967295) {
        Some(v) => Some(v as u32),
        None => None,
    }
}

/// Parses a `u64` field.
pub fn parse_u64(s: &[u8]) -> (r: Option<u64>)
    ensures
        match r {
            Some(v) => uint_in_range(s@, u64::MAX as nat) && v == dec_digits_value(
                uint_digits(s@),
            ),
            None => !uint_in_range(s@, u64::MAX as nat),
        },
{
    parse_uint(s, u64::MAX)
}

/// The sign and digit part of a signed-integer field: a single leading `+`
/// or `-` is allowed; the flag says whether the value is negated.
pub open spec fn int_sign_negative(s: Seq<u8>) -> bool {
    s.len() > 0 && s[0] == 45
}

/// Digits of a signed-integer field, after any sign.
pub open spec fn int_digits(s: Seq<u8>) -> Seq<u8> {
    if s.len() > 0 && (s[0] == 43 || s[0] == 45) {
        s.drop_first()
    } else {
        s
    }
}

/// Does `s` spell a signed integer within `i16`'s range?
pub open spec fn i16_in_range(s: Seq<u8>) -> bool {
    let d = int_digits(s);
    d.len() > 0 && all_dec_digits(d) && (if int_sign_negative(s) {
        dec_digits_value(d) <= 32768
    } else {
        dec_digits_value(d) <= 32767
    })
}

/// Value spelled by an in-range signed-integer field.
pub open spec fn i16_value(s: Seq<u8>) -> int {
    if int_sign_negative(s) {
        -(dec_digits_value(int_digits(s)) as int)
    } else {
        dec_digits_value(int_digits(s)) as int
    }
}

/// Parses an `i16` field as `str::parse::<i16>` would: an optional sign,
/// then one or more digits, within the type's range.
pub fn parse_i16(s: &[u8]) -> (r: Option<i16>)
    ensures
        match r {
            Some(v) => i16_in_range(s@) && v as int == i16_value(s@),
            None => !i16_in_range(s@),
        },
{
    if s.len() > 0 && s[0] == 45 {
        let rest = &s[1..s.len()];
        proof {
            assert(rest@ =~= int_digits(s@));
        }
        if rest.len() > 0 && rest[0] == 43 {
            // A sign may not follow another sign.
            return None;
        }
        match parse_uint(rest, 32768) {
            Some(v) => Some((0 - (v as i32)) as i16),
            None => None,
        }
    } else {
        match parse_uint(s, 32767) {
            Some(v) => Some(v as i16),
            None => None,
        }
    }
}

/// A fixed-point decimal number: the value `mantissa / 10^scale`, negated
/// when `negative` is set. The numeric fields of the wire formats are
/// decimal text, so this type carries them exactly.
#[derive(Clone, Copy, Debug, PartialEq, Eq, Structural)]
pub struct FixedPoint {
    pub negative: bool,
    pub mantissa: u64,
    pub scale: u8,
}

impl FixedPoint {
    /// Well-formed fixed-point numbers keep the scale small enough for
    /// exact integer arithmetic on the mantissa.
    pub open spec fn wf(&self) -> bool {
        self.scale <= 9
    }

    /// The value scaled to a whole number of `10^-scale` units.
    pub open spec fn signed_mantissa(&self) -> int {
        if self.negative {
            -(self.mantissa as int)
        } else {
            self.mantissa as int
        }
    }

    pub fn new(negative: bool, mantissa: u64, scale: u8) -> (r: Self)
        requires
            scale <= 9,
        ensures
            r == (FixedPoint { negative, mantissa, scale }),
    {
        FixedPoint { negative, mantissa, scale }
    }
}

/// Where the first `.` of a field stands, or the field's length if none.
pub open spec fn dot_position(s: Seq<u8>) -> int
    decreases s.len(),
{
    if s.len() == 0 {
        0
    } else if s[0] == 46 {
        0
    } else {
        1 + dot_position(s.drop_first())
    }
}

pub proof fn lemma_dot_position(s: Seq<u8>)
    ensures
        0 <= dot_position(s) <= s.len(),
        forall|j: int| 0 <= j < dot_position(s) ==> s[j] != 46,
        dot_position(s) < s.len() ==> s[dot_position(s)] == 46,
    decreases s.len(),
{
    if s.len() > 0 && s[0] != 46 {
        lemma_dot_position(s.drop_first());
        assert forall|j: int| 0 <= j < dot_position(s) implies s[j] != 46 by {
            if j > 0 {
                assert(s[j] == s.drop_first()[j - 1]);
            }
        }
    }
}

/// Sign of a decimal field: a single leading `-` negates it.
pub open spec fn dec_field_negative(s: Seq<u8>) -> bool {
    s.len() > 0 && s[0] == 45
}

/// The field after any single leading sign.
pub open spec fn dec_field_body(s: Seq<u8>) -> Seq<u8> {
    if s.len() > 0 && (s[0] == 43 || s[0] == 45) {
        s.drop_first()
    } else {
        s
    }
}

/// Integer digits of a decimal field body: what stands before the first dot.
pub open spec fn dec_field_int(b: Seq<u8>) -> Seq<u8> {
    b.take(dot_position(b))
}

/// Fraction digits of a decimal field body: what stands after the first dot.
pub open spec fn dec_field_frac(b: Seq<u8>) -> Seq<u8> {
    if dot_position(b) < b.len() {
        b.skip(dot_position(b) + 1)
    } else {
        Seq::empty()
    }
}

/// Fraction digits that the parser keeps: at most nine, as finer precision
/// than a nanounit is never carried by these sentences.
pub open spec fn dec_field_kept_frac(b: Seq<u8>) -> Seq<u8> {
    let f = dec_field_frac(b);
    if f.len() <= 9 {
        f
    } else {
        f.take(9)
    }
}

/// Does `s` spell a plain decimal number whose mantissa fits a `u64`?
/// The shape is that of `str::parse` for floats, without the exponent,
/// infinity and not-a-number forms: an optional sign, then digits with at
/// most one dot among them, and at least one digit.
pub open spec fn dec_field_ok(s: Seq<u8>) -> bool {
    let b = dec_field_body(s);
    let ip = dec_field_int(b);
    let fp = dec_field_frac(b);
    let kept = dec_field_kept_frac(b);
    &&& ip.len() + fp.len() > 0
    &&& all_dec_digits(ip)
    &&& all_dec_digits(fp)
    &&& dec_digits_value(ip) * pow10(kept.len() as nat) + dec_digits_value(kept)
        <= u64::MAX as nat
}

/// The fixed-point number spelled by an accepted decimal field.
pub open spec fn dec_field_value(s: Seq<u8>) -> FixedPoint {
    let b = dec_field_body(s);
    let ip = dec_field_int(b);
    let kept = dec_field_kept_frac(b);
    FixedPoint {
        negative: dec_field_negative(s),
        mantissa: (dec_digits_value(ip) * pow10(kept.len() as nat) + dec_digits_value(kept)) as u64,
        scale: kept.len() as u8,
    }
}

/// Ten to the power `e`, as a `u64`.
#[verifier::loop_isolation(false)]
pub fn pow10_u64(e: u8) -> (r: u64)
    requires
        e <= 19,
    ensures
        r == pow10(e as nat),
{
    let mut r: u64 = 1;
    let mut i: u8 = 0;
    while i < e
        invariant
            i <= e <= 19,
            r == pow10(i as nat),
        decreases e - i,
    {
        proof {
            lemma_pow10_bound(e as nat);
            lemma_pow10_mono(i as nat + 1, e as nat);
        }
        r = r * 10;
        i = i + 1;
    }
    r
}

/// `pow10` grows with its exponent.
pub proof fn lemma_pow10_mono(a: nat, b: nat)
    requires
        a <= b,
    ensures
        pow10(a) <= pow10(b),
    decreases b,
{
    if a < b {
        lemma_pow10_mono(a, (b - 1) as nat);
        assert(pow10(b) == 10 * pow10((b - 1) as nat));
    }
}

/// `pow10` of at most nineteen fits a `u64`.
pub proof fn lemma_pow10_bound(e: nat)
    requires
        e <= 19,
    ensures
        pow10(e) <= 10000000000000000000,
{
    lemma_pow10_mono(e, 19);
    assert(pow10(19) == 10000000000000000000) by {
        reveal_with_fuel(pow10, 21);
    }
}

/// Parses a decimal field into a fixed-point number, or `None` where the
/// field is not a plain decimal of at most nineteen significant digits.
#[verifier::rlimit(60)]
#[verifier::loop_isolation(false)]
pub fn parse_decimal(s: &[u8]) -> (r: Option<FixedPoint>)
    ensures
        match r {
            Some(v) => dec_field_ok(s@) && v == dec_field_value(s@) && v.wf(),
            None => !dec_field_ok(s@),
        },
{
    let start: usize = if s.len() > 0 && (s[0] == 43 || s[0] == 45) {
        1
    } else {
        0
    };
    let negative = s.len() > 0 && s[0] == 45;
    let ghost b = dec_field_body(s@);
    proof {
        assert(b =~= s@.skip(start as int));
        lemma_dot_position(b);
    }
    // Find the first dot of the body.
    let mut dot: usize = s.len();
    let mut j: usize = start;
    while j < s.len()
        invariant
            start <= j <= s.len(),
            b =~= s@.skip(start as int),
            dot == s@.len() || (start <= dot < j && s@[dot as int] == 46),
            forall|k: int| start <= k < j && k < dot ==> s@[k] != 46,
        decreases s.len() - j,
    {
        if s[j] == 46 && dot == s.len() {
            dot = j;
        }
        j = j + 1;
    }
    proof {
        assert(dot - start == dot_position(b)) by {
            if dot < s@.len() {
                assert(b[dot - start] == 46);
            }
            if dot_position(b) < dot - start {
                assert(s@[dot_position(b) + start] == 46);
            } else if dot_position(b) > dot - start && dot < s@.len() {
                assert(b[dot - start] != 46);
            }
        }
    }
    let ip: &[u8] = &s[start..dot];
    proof {
        assert(ip@ =~= dec_field_int(b));
    }
    let int_part = match parse_digits_value(ip) {
        Some(v) => v,
        None => {
            proof {
                if all_dec_digits(ip@) {
                    let kept = dec_field_kept_frac(b);
                    lemma_pow10_mono(0, kept.len() as nat);
                    assert(dec_digits_value(ip@) * pow10(kept.len() as nat) >= dec_digits_value(
                        ip@,
                    )) by (nonlinear_arith)
                        requires
                            pow10(kept.len() as nat) >= 1,
                    ;
                }
            }
            return None;
        },
    };
    let fp: &[u8] = if dot < s.len() {
        &s[dot + 1..s.len()]
    } else {
        &s[s.len()..s.len()]
    };
    proof {
        assert(fp@ =~= dec_field_frac(b));
    }
    if ip.len() == 0 && fp.len() == 0 {
        return None;
    }
    let kept_len: usize = if fp.len() <= 9 {
        fp.len()
    } else {
        9
    };
    let kept: &[u8] = &fp[0..kept_len];
    proof {
        assert(kept@ =~= dec_field_kept_frac(b));
    }
    let frac_part = match parse_digits_value(kept) {
        Some(v) => v,
        None => {
            proof {
                if all_dec_digits(fp@) {
                    assert(forall|k: int|
                        0 <= k < kept@.len() ==> kept@[k] == #[trigger] fp@[k]);
                    assert(all_dec_digits(kept@));
                    lemma_digits_value_bound(kept@);
                    lemma_pow10_bound(kept@.len() as nat);
                }
            }
            return None;
        },
    };
    // The whole fraction must be digits, not only the kept part.
    let mut j2: usize = kept_len;
    while j2 < fp.len()
        invariant
            kept_len <= j2 <= fp@.len(),
            forall|k: int| kept_len <= k < j2 ==> is_dec_digit(#[trigger] fp@[k]),
        decreases fp@.len() - j2,
    {
        let c = fp[j2];
        if c < 48 || c > 57 {
            assert(!all_dec_digits(fp@)) by {
                assert(fp@[j2 as int] == c);
            }
            return None;
        }
        j2 = j2 + 1;
    }
    proof {
        assert(all_dec_digits(fp@)) by {
            assert(forall|k: int| 0 <= k < kept@.len() ==> #[trigger] fp@[k] == kept@[k]);
        }
        lemma_digits_value_bound(kept@);
        lemma_pow10_bound(kept@.len() as nat);
    }
    let scale_pow: u64 = pow10_u64(kept_len as u8);
    proof {
        lemma_pow10_mono(kept@.len() as nat, 9);
        assert(pow10(9) == 1000000000) by {
            reveal_with_fuel(pow10, 11);
        }
        assert((int_part as int) * (scale_pow as int) <= 0xFFFFFFFFFFFFFFFF * 1000000000int)
            by (nonlinear_arith)
            requires
                int_part <= 0xFFFFFFFFFFFFFFFFu64,
                scale_pow <= 1000000000u64,
        ;
    }
    let mantissa128: u128 = (int_part as u128) * (scale_pow as u128) + (frac_part as u128);
    if mantissa128 > u64::MAX as u128 {
        return None;
    }
    Some(FixedPoint { negative, mantissa: mantissa128 as u64, scale: kept_len as u8 })
}

/// The value of `n` digits stays under ten to the `n`.
pub proof fn lemma_digits_value_bound(s: Seq<u8>)
    requires
        all_dec_digits(s),
    ensures
        dec_digits_value(s) < pow10(s.len() as nat),
    decreases s.len(),
{
    if s.len() > 0 {
        lemma_digits_value_bound(s.drop_last());
    }
}

/// Reads a run of digits as a value, or `None` on a non-digit or a value
/// above `u64::MAX`. The empty run reads as zero.
#[verifier::loop_isolation(false)]
fn parse_digits_value(s: &[u8]) -> (r: Option<u64>)
    ensures
        match r {
            Some(v) => all_dec_digits(s@) && v == dec_digits_value(s@),
            None => !(all_dec_digits(s@) && dec_digits_value(s@) <= u64::MAX as nat),
        },
{
    let mut acc: u128 = 0;
    let mut i: usize = 0;
    while i < s.len()
        invariant
            0 <= i <= s.len(),
            acc == dec_digits_value(s@.take(i as int)),
            acc <= u64::MAX,
            all_dec_digits(s@.take(i as int)),
        decreases s.len() - i,
    {
        let c = s[i];
        if c < 48 || c > 57 {
            assert(!all_dec_digits(s@)) by {
                assert(s@[i as int] == c);
            }
            return None;
        }
        let next: u128 = acc * 10 + ((c - 48) as u128);
        proof {
            lemma_dec_digits_value_step(s@, i as int);
            assert(forall|k: int| 0 <= k < i + 1 ==> is_dec_digit(#[trigger] s@.take(i + 1)[k]));
        }
        if next > u64::MAX as u128 {
            proof {
                lemma_dec_digits_value_prefix(s@, i + 1);
            }
            return None;
        }
        acc = next;
        i = i + 1;
    }
    proof {
        assert(s@.take(i as int) =~= s@);
    }
    Some(acc as u64)
}


/// Finds the first dot of a field: its index, or the length if none.
#[verifier::loop_isolation(false)]
pub fn find_dot(s: &[u8]) -> (r: usize)
    ensures
        r as int == dot_position(s@),
{
    proof {
        lemma_dot_position(s@);
    }
    let mut j: usize = 0;
    while j < s.len()
        invariant
            0 <= j <= s@.len(),
            forall|k: int| 0 <= k < j ==> s@[k] != 46,
        decreases s@.len() - j,
    {
        if s[j] == 46 {
            return j;
        }
        j = j + 1;
    }
    j
}

} // verus!
