//! Exact fixed-point coordinates.
//!
//! The export side of the library does its coordinate arithmetic in Q47.16
//! fixed point: a value is an `i64` count of 1/65536 units, clamped to
//! [-2^47, 2^47]. Floating-point payloads read from a file are interpreted
//! exactly: the IEEE 754 bit pattern is decomposed into sign, exponent and
//! mantissa with integer arithmetic, scaled, truncated toward zero and
//! clamped. Every function here is specified by an exact integer formula.

use vstd::prelude::*;

use vstd::arithmetic::power2::{
    pow2, lemma_pow2_adds, lemma_pow2_pos, lemma_pow2_strictly_increases, lemma_pow2_unfold,
    lemma2_to64,
};
use vstd::arithmetic::mul::lemma_mul_inequality;
use vstd::arithmetic::div_mod::{lemma_div_is_ordered, lemma_div_is_ordered_by_denominator};

verus! {

/// Number of fractional units in one: 2^16.
pub const FX_ONE: i64 = 65536;

/// The clamp bound of the coordinate range: 2^47 units.
pub const FX_MAX: i64 = 140737488355328;

/// A coordinate triple, in Q47.16 units.
#[derive(Debug, Clone, Copy, PartialEq, Eq, Structural)]
pub struct V3 {
    pub x: i64,
    pub y: i64,
    pub z: i64,
}

/// A texture-coordinate pair, in Q47.16 units.
#[derive(Debug, Clone, Copy, PartialEq, Eq, Structural)]
pub struct V2 {
    pub u: i64,
    pub v: i64,
}

/// A coordinate is in range.
pub open spec fn fx_wf(v: int) -> bool {
    -(FX_MAX as int) <= v <= FX_MAX as int
}

/// Every component of a triple is in range.
pub open spec fn v3_wf(v: V3) -> bool {
    fx_wf(v.x as int) && fx_wf(v.y as int) && fx_wf(v.z as int)
}

/// Clamping into the coordinate range.
pub open spec fn fx_clamp(v: int) -> int {
    if v > FX_MAX as int {
        FX_MAX as int
    } else if v < -(FX_MAX as int) {
        -(FX_MAX as int)
    } else {
        v
    }
}

/// `m * 2^sh`, truncated toward zero for negative shifts (`m` is never
/// negative here).
pub open spec fn scaled_mag(m: nat, sh: int) -> int {
    if sh >= 0 {
        (m * pow2(sh as nat)) as int
    } else {
        m as int / pow2((-sh) as nat) as int
    }
}

/// The exact Q47.16 reading of an IEEE 754 single-precision bit pattern:
/// truncated toward zero and clamped; infinities clamp, NaN reads as zero.
pub open spec fn f32_fx(bits: u32) -> int {
    let neg = bits / 0x8000_0000 == 1;
    let e = (bits / 0x0080_0000) % 0x100;
    let m = (bits % 0x0080_0000) as nat;
    if e == 0xff {
        if m == 0 {
            if neg {
                -(FX_MAX as int)
            } else {
                FX_MAX as int
            }
        } else {
            0
        }
    } else {
        let mag = if e == 0 {
            scaled_mag(m, -133)
        } else {
            scaled_mag(m + 0x0080_0000, e as int - 134)
        };
        let c = fx_clamp(mag);
        if neg {
            -c
        } else {
            c
        }
    }
}

/// The exact Q47.16 reading of an IEEE 754 double-precision bit pattern:
/// truncated toward zero and clamped; infinities clamp, NaN reads as zero.
pub open spec fn f64_fx(bits: u64) -> int {
    let neg = bits / 0x8000_0000_0000_0000 == 1;
    let e = (bits / 0x0010_0000_0000_0000) % 0x800;
    let m = (bits % 0x0010_0000_0000_0000) as nat;
    if e == 0x7ff {
        if m == 0 {
            if neg {
                -(FX_MAX as int)
            } else {
                FX_MAX as int
            }
        } else {
            0
        }
    } else {
        let mag = if e == 0 {
            scaled_mag(m, -1058)
        } else {
            scaled_mag(m + 0x0010_0000_0000_0000, e as int - 1059)
        };
        let c = fx_clamp(mag);
        if neg {
            -c
        } else {
            c
        }
    }
}

/// The exact Q47.16 reading of an integer scalar.
pub open spec fn i64_fx(v: i64) -> int {
    fx_clamp(v * FX_ONE as int)
}

/// Single-precision readings land in the coordinate range.
pub proof fn lemma_f32_fx_wf(bits: u32)
    ensures
        fx_wf(f32_fx(bits)),
{
}

/// Double-precision readings land in the coordinate range.
pub proof fn lemma_f64_fx_wf(bits: u64)
    ensures
        fx_wf(f64_fx(bits)),
{
}

/// 2^e as a machine word.
fn pow2_u64(e: u64) -> (r: u64)
    requires
        e < 64,
    ensures
        r == pow2(e as nat),
{
    let mut r: u64 = 1;
    let mut i: u64 = 0;
    proof {
        vstd::arithmetic::power2::lemma_pow2(0);
        vstd::arithmetic::power::lemma_pow0(2);
    }
    while i < e
        invariant
            i <= e,
            e < 64,
            r == pow2(i as nat),
        decreases e - i,
    {
        proof {
            crate::fixed::lemma_pow2_fits_u64((i + 1) as nat);
            lemma_pow2_unfold((i + 1) as nat);
        }
        r = r * 2;
        i = i + 1;
    }
    r
}

/// 2^n fits in a 64-bit word for n < 64.
pub proof fn lemma_pow2_fits_u64(n: nat)
    requires
        n < 64,
    ensures
        0 < pow2(n) < 0x1_0000_0000_0000_0000,
{
    lemma_pow2_pos(n);
    if n < 63 {
        lemma_pow2_strictly_increases(n, 63);
    }
    lemma2_to64();
    vstd::arithmetic::power2::lemma2_to64_rest();
}

/// pow2 is monotone (not strictly).
proof fn lemma_pow2_le(a: nat, b: nat)
    requires
        a <= b,
    ensures
        pow2(a) <= pow2(b),
{
    if a < b {
        lemma_pow2_strictly_increases(a, b);
    }
}

/// Decodes a single-precision bit pattern into Q47.16.
pub fn fx_from_f32_bits(bits: u32) -> (r: i64)
    ensures
        r == f32_fx(bits),
        fx_wf(r as int),
{
    let neg: bool = bits / 0x8000_0000 == 1;
    let e: u32 = (bits / 0x0080_0000) % 0x100;
    let m: u32 = bits % 0x0080_0000;
    if e == 0xff {
        return if m == 0 {
            if neg {
                -FX_MAX
            } else {
                FX_MAX
            }
        } else {
            0
        };
    }
    let mag: u64 = if e == 0 {
        // Subnormal: the scale factor 2^-133 pushes every mantissa below one
        // fractional unit.
        proof {
            lemma2_to64();
            lemma_pow2_le(23, 133);
            vstd::arithmetic::div_mod::lemma_basic_div(m as int, pow2(133) as int);
        }
        0
    } else {
        let mm: u64 = m as u64 + 0x0080_0000;
        if e >= 158 {
            // Shift of 24 or more: at least 2^23 * 2^24 = 2^47 units, so the
            // clamp takes over.
            proof {
                let sh = (e - 134) as nat;
                lemma_pow2_le(24, sh);
                lemma2_to64();
                assert(mm as int * pow2(sh) >= 0x8000_0000_0000) by (nonlinear_arith)
                    requires
                        mm >= 0x0080_0000,
                        pow2(sh) >= 0x0100_0000,
                ;
            }
            return if neg {
                -FX_MAX
            } else {
                FX_MAX
            };
        } else if e >= 134 {
            let sh: u64 = (e - 134) as u64;
            let p: u64 = pow2_u64(sh);
            proof {
                lemma_pow2_le(sh as nat, 23);
                lemma2_to64();
                assert(mm as int * p as int <= 0x8000_0000_0000) by (nonlinear_arith)
                    requires
                        0 < mm <= 0x0100_0000,
                        0 < p <= 0x0080_0000,
                ;
            }
            mm * p
        } else {
            let d: u64 = (134 - e) as u64;
            if d >= 24 {
                proof {
                    lemma2_to64();
                    lemma_pow2_le(24, d as nat);
                    lemma_pow2_pos(d as nat);
                    vstd::arithmetic::div_mod::lemma_basic_div(mm as int, pow2(d as nat) as int);
                }
                0
            } else {
                let p: u64 = pow2_u64(d);
                proof {
                    lemma_pow2_pos(d as nat);
                }
                mm / p
            }
        }
    };
    proof {
        assert(mag <= 0x8000_0000_0000) by {
            if e != 0 {
                let mm = m as int + 0x0080_0000;
                if e >= 134 && e < 158 {
                    let sh = (e - 134) as nat;
                    lemma_pow2_le(sh, 23);
                    lemma2_to64();
                    assert(mm * pow2(sh) <= 0x8000_0000_0000) by (nonlinear_arith)
                        requires
                            0 < mm <= 0x0100_0000,
                            0 < pow2(sh) <= 0x0080_0000,
                    ;
                } else if e < 134 {
                    let d = (134 - e) as nat;
                    if d < 24 {
                        lemma_pow2_pos(d);
                        lemma_div_is_ordered_by_denominator(mm, 1, pow2(d) as int);
                    }
                }
            }
        };
    }
    let res: i64 = if neg {
        -(mag as i64)
    } else {
        mag as i64
    };
    res
}

/// Decodes a double-precision bit pattern into Q47.16.
pub fn fx_from_f64_bits(bits: u64) -> (r: i64)
    ensures
        r == f64_fx(bits),
        fx_wf(r as int),
{
    let neg: bool = bits / 0x8000_0000_0000_0000 == 1;
    let e: u64 = (bits / 0x0010_0000_0000_0000) % 0x800;
    let m: u64 = bits % 0x0010_0000_0000_0000;
    if e == 0x7ff {
        return if m == 0 {
            if neg {
                -FX_MAX
            } else {
                FX_MAX
            }
        } else {
            0
        };
    }
    let mag: u64 = if e == 0 {
        // Subnormal: the scale factor 2^-1058 pushes every mantissa far below
        // one fractional unit.
        proof {
            lemma2_to64();
            vstd::arithmetic::power2::lemma2_to64_rest();
            lemma_pow2_le(52, 1058);
            vstd::arithmetic::div_mod::lemma_basic_div(m as int, pow2(1058) as int);
        }
        0
    } else {
        let mm: u64 = m + 0x0010_0000_0000_0000;
        if e >= 1054 {
            // Shift of -5 or more: at least 2^52 / 2^5 = 2^47 units, so the
            // clamp takes over.
            proof {
                let sh = e as int - 1059;
                lemma2_to64();
                if sh >= 0 {
                    lemma_pow2_pos(sh as nat);
                    assert(mm as int * pow2(sh as nat) >= 0x8000_0000_0000) by (nonlinear_arith)
                        requires
                            mm >= 0x0010_0000_0000_0000,
                            pow2(sh as nat) >= 1,
                    ;
                } else {
                    let d = (-sh) as nat;
                    lemma_pow2_le(d, 5);
                    lemma_pow2_pos(d);
                    lemma_div_is_ordered_by_denominator(mm as int, pow2(d) as int, pow2(5) as int);
                    lemma_div_is_ordered(0x0010_0000_0000_0000, mm as int, 32);
                }
            }
            return if neg {
                -FX_MAX
            } else {
                FX_MAX
            };
        } else {
            let d: u64 = (1059 - e) as u64;
            if d >= 53 {
                proof {
                    lemma2_to64();
                    vstd::arithmetic::power2::lemma2_to64_rest();
                    lemma_pow2_le(53, d as nat);
                    lemma_pow2_pos(d as nat);
                    vstd::arithmetic::div_mod::lemma_basic_div(mm as int, pow2(d as nat) as int);
                }
                0
            } else {
                let p: u64 = pow2_u64(d);
                proof {
                    lemma_pow2_pos(d as nat);
                }
                mm / p
            }
        }
    };
    proof {
        assert(mag <= 0x8000_0000_0000) by {
            if e != 0 && e < 1054 {
                let mm = m as int + 0x0010_0000_0000_0000;
                let d = (1059 - e) as nat;
                if d < 53 {
                    lemma_pow2_le(6, d);
                    lemma_pow2_pos(d);
                    lemma2_to64();
                    lemma_div_is_ordered_by_denominator(mm, pow2(6) as int, pow2(d) as int);
                    lemma_div_is_ordered(mm, 0x0020_0000_0000_0000 - 1, 64);
                }
            }
        };
    }
    let res: i64 = if neg {
        -(mag as i64)
    } else {
        mag as i64
    };
    res
}

/// Decodes an integer scalar into Q47.16.
pub fn fx_from_i64(v: i64) -> (r: i64)
    ensures
        r == i64_fx(v),
        fx_wf(r as int),
{
    if v >= 2147483648 {
        FX_MAX
    } else if v <= -2147483648 {
        -FX_MAX
    } else {
        v * FX_ONE
    }
}

/// Clamped addition: the exact sum, pulled back into the coordinate range.
pub fn fx_add(a: i64, b: i64) -> (r: i64)
    requires
        fx_wf(a as int),
        fx_wf(b as int),
    ensures
        r == fx_clamp(a + b),
        fx_wf(r as int),
{
    let s: i64 = a + b;
    if s > FX_MAX {
        FX_MAX
    } else if s < -FX_MAX {
        -FX_MAX
    } else {
        s
    }
}

/// Exact negation.
pub fn fx_neg(a: i64) -> (r: i64)
    requires
        fx_wf(a as int),
    ensures
        r == -a,
        fx_wf(r as int),
{
    -a
}

/// The decimal digit character for one digit value.
pub open spec fn spec_digit_char(d: int) -> char {
    if d == 0 {
        '0'
    } else if d == 1 {
        '1'
    } else if d == 2 {
        '2'
    } else if d == 3 {
        '3'
    } else if d == 4 {
        '4'
    } else if d == 5 {
        '5'
    } else if d == 6 {
        '6'
    } else if d == 7 {
        '7'
    } else if d == 8 {
        '8'
    } else {
        '9'
    }
}

/// The decimal digit string of a natural number, most significant first.
pub open spec fn spec_digits(n: nat) -> Seq<char>
    decreases n,
{
    if n < 10 {
        seq![spec_digit_char(n as int)]
    } else {
        spec_digits(n / 10).push(spec_digit_char((n % 10) as int))
    }
}

/// Powers of ten.
pub open spec fn pow10(k: nat) -> nat
    decreases k,
{
    if k == 0 {
        1
    } else {
        10 * pow10((k - 1) as nat)
    }
}

/// How many trailing decimal zeros a number carries.
pub open spec fn spec_tz(n: nat) -> nat
    decreases n,
{
    if n > 0 && n % 10 == 0 {
        1 + spec_tz(n / 10)
    } else {
        0
    }
}

/// The fractional digit string of `f`/65536 for 0 < `f` < 65536: the exact
/// 16-digit decimal expansion with its trailing zeros removed.
pub open spec fn spec_frac_text(f: nat) -> Seq<char> {
    let d16 = f * 152587890625;
    Seq::new((16 - spec_digits(d16).len()) as nat, |i: int| '0') + spec_digits(
        d16 / pow10(spec_tz(d16)),
    )
}

/// The decimal text of a Q47.16 value: integer part, and an exact
/// fractional part only where one is present.
pub open spec fn spec_fx_text(raw: i64) -> Seq<char> {
    let mag = if raw < 0 {
        (-raw) as nat
    } else {
        raw as nat
    };
    let sign: Seq<char> = if raw < 0 {
        seq!['-']
    } else {
        Seq::empty()
    };
    let q = mag / 65536;
    let f = mag % 65536;
    if f == 0 {
        sign + spec_digits(q)
    } else {
        sign + spec_digits(q) + seq!['.'] + spec_frac_text(f)
    }
}

/// The decimal text of a signed machine integer.
pub open spec fn spec_int_text(v: int) -> Seq<char> {
    if v < 0 {
        seq!['-'] + spec_digits((-v) as nat)
    } else {
        spec_digits(v as nat)
    }
}

/// One digit as a string slice.
fn digit_str(d: u64) -> (r: &'static str)
    requires
        d < 10,
    ensures
        r@ == seq![spec_digit_char(d as int)],
{
    if d == 0 {
        proof {
            reveal_strlit("0");
        }
        "0"
    } else if d == 1 {
        proof {
            reveal_strlit("1");
        }
        "1"
    } else if d == 2 {
        proof {
            reveal_strlit("2");
        }
        "2"
    } else if d == 3 {
        proof {
            reveal_strlit("3");
        }
        "3"
    } else if d == 4 {
        proof {
            reveal_strlit("4");
        }
        "4"
    } else if d == 5 {
        proof {
            reveal_strlit("5");
        }
        "5"
    } else if d == 6 {
        proof {
            reveal_strlit("6");
        }
        "6"
    } else if d == 7 {
        proof {
            reveal_strlit("7");
        }
        "7"
    } else if d == 8 {
        proof {
            reveal_strlit("8");
        }
        "8"
    } else {
        proof {
            reveal_strlit("9");
        }
        "9"
    }
}

/// The decimal digit string of a machine word.
pub fn fmt_u64(n: u64) -> (r: String)
    ensures
        r@ == spec_digits(n as nat),
    decreases n,
{
    if n < 10 {
        String::from_str(digit_str(n))
    } else {
        let mut s = fmt_u64(n / 10);
        s.append(digit_str(n % 10));
        s
    }
}

/// The decimal digit string of a signed machine integer.
pub fn fmt_i64(v: i64) -> (r: String)
    requires
        v > i64::MIN,
    ensures
        r@ == spec_int_text(v as int),
{
    if v < 0 {
        proof {
            reveal_strlit("-");
        }
        let mut s = String::from_str("-");
        let m = fmt_u64((-v) as u64);
        s.append(m.as_str());
        proof {
            assert(s@ =~= seq!['-'] + spec_digits((-v) as nat));
        }
        s
    } else {
        fmt_u64(v as u64)
    }
}

/// The decimal text of a Q47.16 value.
pub fn fmt_fx(raw: i64) -> (r: String)
    requires
        fx_wf(raw as int),
    ensures
        r@ == spec_fx_text(raw),
{
    let neg = raw < 0;
    let mag: u64 = if neg {
        (-raw) as u64
    } else {
        raw as u64
    };
    let q: u64 = mag / 65536;
    let f: u64 = mag % 65536;
    let mut s = String::new();
    if neg {
        proof {
            reveal_strlit("-");
        }
        s.append("-");
    }
    let qs = fmt_u64(q);
    s.append(qs.as_str());
    if f == 0 {
        proof {
            assert(s@ =~= spec_fx_text(raw));
        }
        return s;
    }
    proof {
        reveal_strlit(".");
    }
    s.append(".");
    let d16: u64 = f * 152587890625;
    proof {
        assert(d16 > 0);
        assert(d16 < 10000000000000000) by (nonlinear_arith)
            requires
                0 < f < 65536,
                d16 == f * 152587890625,
        ;
    }
    let nd = count_digits(d16);
    proof {
        assert(pow10(16) == 10000000000000000) by {
            reveal_with_fuel(pow10, 17);
        }
        lemma_digits_len_le(d16 as nat, 16);
    }
    let mut z: usize = 0;
    while z < 16 - nd
        invariant
            nd == spec_digits(d16 as nat).len(),
            1 <= nd <= 16,
            z <= 16 - nd,
            s@ == spec_fx_text_prefix(raw) + Seq::new(z as nat, |i: int| '0'),
        decreases 16 - nd - z,
    {
        proof {
            reveal_strlit("0");
        }
        s.append("0");
        z = z + 1;
        proof {
            assert(spec_fx_text_prefix(raw) + Seq::new(z as nat, |i: int| '0') =~= s@);
        }
    }
    let stripped = strip_tens(d16);
    let ds = fmt_u64(stripped);
    s.append(ds.as_str());
    proof {
        assert(s@ =~= spec_fx_text(raw));
    }
    s
}

/// The sign, integer digits and decimal point that open the text of a value
/// with a fractional part.
pub open spec fn spec_fx_text_prefix(raw: i64) -> Seq<char> {
    let mag = if raw < 0 {
        (-raw) as nat
    } else {
        raw as nat
    };
    let sign: Seq<char> = if raw < 0 {
        seq!['-']
    } else {
        Seq::empty()
    };
    sign + spec_digits(mag / 65536) + seq!['.']
}

/// How many digits a machine word prints with.
fn count_digits(n: u64) -> (r: usize)
    ensures
        r == spec_digits(n as nat).len(),
        r >= 1,
{
    proof {
        assert(pow10(20) == 100000000000000000000) by {
            reveal_with_fuel(pow10, 21);
        }
        lemma_digits_len_le(n as nat, 20);
    }
    let mut c: usize = 1;
    let mut t: u64 = n;
    while t >= 10
        invariant
            1 <= c <= 20,
            spec_digits(n as nat).len() <= 20,
            spec_digits(n as nat).len() == c - 1 + spec_digits(t as nat).len(),
        decreases t,
    {
        proof {
            assert(spec_digits(t as nat).len() >= 1);
            assert(spec_digits((t / 10) as nat).len() >= 1);
        }
        t = t / 10;
        c = c + 1;
    }
    c
}

/// A number below 10^k prints with at most k digits.
proof fn lemma_digits_len_le(n: nat, k: nat)
    requires
        k >= 1,
        n < pow10(k),
    ensures
        spec_digits(n).len() <= k,
    decreases k,
{
    if n >= 10 {
        if k == 1 {
            assert(pow10(1) == 10) by {
                reveal_with_fuel(pow10, 2);
            }
        } else {
            assert(pow10(k) == 10 * pow10((k - 1) as nat));
            lemma_digits_len_le(n / 10, (k - 1) as nat);
        }
    }
}

/// Divides away the trailing decimal zeros.
fn strip_tens(n: u64) -> (r: u64)
    requires
        n > 0,
    ensures
        r == n as nat / pow10(spec_tz(n as nat)),
{
    let mut v: u64 = n;
    let ghost mut z: nat = 0;
    proof {
        assert(pow10(0) == 1);
        assert(v as nat * pow10(0) == n as nat);
    }
    while v % 10 == 0
        invariant
            v > 0,
            v as nat * pow10(z) == n as nat,
            spec_tz(n as nat) == z + spec_tz(v as nat),
        decreases v,
    {
        proof {
            assert(spec_tz(v as nat) == 1 + spec_tz((v / 10) as nat));
            assert((v / 10) as nat * pow10(z + 1) == n as nat) by (nonlinear_arith)
                requires
                    v as nat * pow10(z) == n as nat,
                    v % 10 == 0,
                    pow10(z + 1) == 10 * pow10(z),
                    v / 10 == v as nat / 10,
            ;
        }
        v = v / 10;
        proof {
            z = z + 1;
        }
    }
    proof {
        assert(spec_tz(v as nat) == 0);
        assert(spec_tz(n as nat) == z);
        lemma_pow10_pos(z);
        vstd::arithmetic::div_mod::lemma_div_multiples_vanish(v as int, pow10(z) as int);
        assert(pow10(z) as int * v as int == v as nat * pow10(z)) by (nonlinear_arith);
        assert((v as nat * pow10(z)) as int / pow10(z) as int == v as int);
    }
    v
}

/// Powers of ten are positive.
proof fn lemma_pow10_pos(k: nat)
    ensures
        pow10(k) >= 1,
    decreases k,
{
    if k > 0 {
        lemma_pow10_pos((k - 1) as nat);
    }
}

} // verus!
