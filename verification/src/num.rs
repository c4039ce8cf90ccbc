//! The runtime number type.
//!
//! Numbers are decimal fixed-point values: a sign and a magnitude counted
//! in millionths (so the least representable step is 1e-6, which is also
//! the tolerance of the language's equality policy). Division by zero and
//! overflow saturate into the special values `PosInf`, `NegInf` and `NaN`,
//! which follow the usual floating-point conventions: `NaN` propagates
//! through arithmetic and compares false with everything (itself included),
//! and the infinities absorb finite operands.

use vstd::prelude::*;
use crate::text::{
    spec_dec, spec_dec_padded, spec_digits_val, spec_is_digit, spec_pow10, spec_run_end,
    digit_pred, dec_u64, dec_padded_u64, is_digit_char, lemma_run_end_props,
};

verus! {

/// Integer parts with at least this many millionths are certainly beyond
/// `u64::MAX` millionths once scaled; the digit accumulator stops there.
const HUGE_STOP: u128 = 100000000000000000000000000000;

/// Magnitudes are counted in units of one millionth.
pub const SCALE: u64 = 1000000;

#[derive(Clone, Copy, Debug, PartialEq, Eq, Structural)]
pub enum Num {
    /// A finite value; `units` counts millionths of the magnitude.
    Finite { neg: bool, units: u64 },
    PosInf,
    NegInf,
    NaN,
}

/// The signed count of millionths of a finite number.
pub open spec fn spec_signed(n: Num) -> int
    recommends n is Finite,
{
    match n {
        Num::Finite { neg, units } => if neg { -(units as int) } else { units as int },
        _ => 0,
    }
}

/// The finite number closest to `v` millionths; magnitudes beyond what a
/// `u64` can count saturate to the matching infinity, and zero is stored
/// with a positive sign.
pub open spec fn spec_from_int(v: int) -> Num {
    if v > u64::MAX as int {
        Num::PosInf
    } else if v < -(u64::MAX as int) {
        Num::NegInf
    } else if v >= 0 {
        Num::Finite { neg: false, units: v as u64 }
    } else {
        Num::Finite { neg: true, units: (-v) as u64 }
    }
}

pub open spec fn spec_add(a: Num, b: Num) -> Num {
    match (a, b) {
        (Num::NaN, _) => Num::NaN,
        (_, Num::NaN) => Num::NaN,
        (Num::PosInf, Num::NegInf) => Num::NaN,
        (Num::NegInf, Num::PosInf) => Num::NaN,
        (Num::PosInf, _) => Num::PosInf,
        (_, Num::PosInf) => Num::PosInf,
        (Num::NegInf, _) => Num::NegInf,
        (_, Num::NegInf) => Num::NegInf,
        _ => spec_from_int(spec_signed(a) + spec_signed(b)),
    }
}

pub open spec fn spec_neg(a: Num) -> Num {
    match a {
        Num::NaN => Num::NaN,
        Num::PosInf => Num::NegInf,
        Num::NegInf => Num::PosInf,
        _ => spec_from_int(-spec_signed(a)),
    }
}

/// Subtraction is addition of the negated right operand.
pub open spec fn spec_sub(a: Num, b: Num) -> Num {
    spec_add(a, spec_neg(b))
}

/// The magnitude of a finite number, in millionths.
pub open spec fn spec_mag(n: Num) -> nat
    recommends n is Finite,
{
    match n {
        Num::Finite { neg, units } => units as nat,
        _ => 0,
    }
}

pub open spec fn spec_mul(a: Num, b: Num) -> Num {
    match (a, b) {
        (Num::NaN, _) => Num::NaN,
        (_, Num::NaN) => Num::NaN,
        (Num::PosInf, Num::PosInf) => Num::PosInf,
        (Num::PosInf, Num::NegInf) => Num::NegInf,
        (Num::NegInf, Num::PosInf) => Num::NegInf,
        (Num::NegInf, Num::NegInf) => Num::PosInf,
        (Num::PosInf, Num::Finite { neg, units }) =>
            if units == 0 { Num::NaN } else if neg { Num::NegInf } else { Num::PosInf },
        (Num::NegInf, Num::Finite { neg, units }) =>
            if units == 0 { Num::NaN } else if neg { Num::PosInf } else { Num::NegInf },
        (Num::Finite { neg, units }, Num::PosInf) =>
            if units == 0 { Num::NaN } else if neg { Num::NegInf } else { Num::PosInf },
        (Num::Finite { neg, units }, Num::NegInf) =>
            if units == 0 { Num::NaN } else if neg { Num::PosInf } else { Num::NegInf },
        (Num::Finite { neg: n1, units: u1 }, Num::Finite { neg: n2, units: u2 }) => {
            let m = (u1 * u2) / (SCALE as int);
            if n1 != n2 { spec_from_int(-m) } else { spec_from_int(m) }
        },
    }
}

pub open spec fn spec_div(a: Num, b: Num) -> Num {
    match (a, b) {
        (Num::NaN, _) => Num::NaN,
        (_, Num::NaN) => Num::NaN,
        (Num::PosInf, Num::PosInf) => Num::NaN,
        (Num::PosInf, Num::NegInf) => Num::NaN,
        (Num::NegInf, Num::PosInf) => Num::NaN,
        (Num::NegInf, Num::NegInf) => Num::NaN,
        (Num::PosInf, Num::Finite { neg, units }) => if neg { Num::NegInf } else { Num::PosInf },
        (Num::NegInf, Num::Finite { neg, units }) => if neg { Num::PosInf } else { Num::NegInf },
        (Num::Finite { neg, units }, Num::PosInf) => Num::Finite { neg: false, units: 0 },
        (Num::Finite { neg, units }, Num::NegInf) => Num::Finite { neg: false, units: 0 },
        (Num::Finite { neg: n1, units: u1 }, Num::Finite { neg: n2, units: u2 }) => {
            if u2 == 0 {
                if u1 == 0 {
                    Num::NaN
                } else if n1 != n2 {
                    Num::NegInf
                } else {
                    Num::PosInf
                }
            } else {
                let q = (u1 * SCALE) / (u2 as int);
                if n1 != n2 { spec_from_int(-q) } else { spec_from_int(q) }
            }
        },
    }
}

/// Strict order; false whenever an operand is `NaN`.
pub open spec fn spec_lt(a: Num, b: Num) -> bool {
    match (a, b) {
        (Num::NaN, _) => false,
        (_, Num::NaN) => false,
        (Num::NegInf, Num::NegInf) => false,
        (Num::NegInf, _) => true,
        (_, Num::NegInf) => false,
        (Num::PosInf, _) => false,
        (_, Num::PosInf) => true,
        _ => spec_signed(a) < spec_signed(b),
    }
}

/// Non-strict order; false whenever an operand is `NaN`.
pub open spec fn spec_le(a: Num, b: Num) -> bool {
    match (a, b) {
        (Num::NaN, _) => false,
        (_, Num::NaN) => false,
        (Num::NegInf, _) => true,
        (_, Num::NegInf) => false,
        (_, Num::PosInf) => true,
        (Num::PosInf, _) => false,
        _ => spec_signed(a) <= spec_signed(b),
    }
}

/// The language's equality policy for numbers: two finite values are equal
/// when they differ by at most one millionth; a `NaN` or infinite operand
/// is equal to nothing, itself included.
pub open spec fn spec_approx_eq(a: Num, b: Num) -> bool {
    match (a, b) {
        (Num::Finite { neg: n1, units: u1 }, Num::Finite { neg: n2, units: u2 }) =>
            -1 <= spec_signed(a) - spec_signed(b) <= 1,
        _ => false,
    }
}

/// Drops trailing zero digits from a `width`-digit fraction, keeping at
/// least one digit; returns the remaining value and width.
pub open spec fn spec_strip(f: nat, width: nat) -> (nat, nat)
    decreases width,
{
    if width > 1 && f % 10 == 0 {
        spec_strip(f / 10, (width - 1) as nat)
    } else {
        (f, width)
    }
}

/// The display form: `NaN`, `inf` and `-inf` for the special values; for a
/// finite value the sign, the integer part in decimal, and — only when the
/// fractional part is not zero — a point and the fractional digits with
/// trailing zeros removed.
pub open spec fn spec_display(n: Num) -> Seq<char> {
    match n {
        Num::NaN => seq!['N', 'a', 'N'],
        Num::PosInf => seq!['i', 'n', 'f'],
        Num::NegInf => seq!['-', 'i', 'n', 'f'],
        Num::Finite { neg, units } => {
            let sign: Seq<char> = if neg && units > 0 { seq!['-'] } else { Seq::<char>::empty() };
            let ip = units / SCALE;
            let f = units % SCALE;
            let frac: Seq<char> = if f == 0 {
                Seq::<char>::empty()
            } else {
                let sw = spec_strip(f as nat, 6);
                seq!['.'] + spec_dec_padded(sw.0, sw.1)
            };
            sign + spec_dec(ip as nat) + frac
        },
    }
}

/// The end of the leading digit run of a number lexeme.
pub open spec fn spec_int_end(s: Seq<char>) -> int {
    spec_run_end(s, 0, digit_pred())
}

/// The shape the scanner gives a number lexeme: a nonempty digit run,
/// optionally followed by a point and a second nonempty digit run.
pub open spec fn spec_number_lexeme_wf(s: Seq<char>) -> bool {
    let k = spec_int_end(s);
    &&& 1 <= k <= s.len()
    &&& (k < s.len() ==> s[k] == '.' && k + 1 < s.len() && spec_run_end(s, k + 1, digit_pred())
        == s.len())
}

/// The number a lexeme denotes: the digits read in decimal, keeping the
/// first six fractional digits (the millionths the representation can
/// hold); a magnitude beyond what a `u64` can count saturates to `PosInf`.
pub open spec fn spec_number_value(s: Seq<char>) -> Num {
    let k = spec_int_end(s);
    let ip = spec_digits_val(s.subrange(0, k));
    let fd: Seq<char> = if k < s.len() {
        s.subrange(k + 1, s.len() as int)
    } else {
        Seq::<char>::empty()
    };
    let t: int = if fd.len() < 6 {
        fd.len() as int
    } else {
        6
    };
    let fv = spec_digits_val(fd.subrange(0, t)) * spec_pow10((6 - t) as nat);
    let u = ip * (SCALE as int) + fv;
    if u > u64::MAX as int {
        Num::PosInf
    } else {
        Num::Finite { neg: false, units: u as u64 }
    }
}

proof fn lemma_pow10_mono(a: nat, b: nat)
    requires
        a <= b,
    ensures
        spec_pow10(a) <= spec_pow10(b),
    decreases b,
{
    if a < b {
        lemma_pow10_mono(a, (b - 1) as nat);
    }
}

proof fn lemma_pow10_add(a: nat, b: nat)
    ensures
        spec_pow10(a + b) == spec_pow10(a) * spec_pow10(b),
    decreases a,
{
    if a == 0 {
    } else {
        lemma_pow10_add((a - 1) as nat, b);
        assert((a + b - 1) as nat == (a - 1) as nat + b);
        assert(spec_pow10(a + b) == 10 * (spec_pow10((a - 1) as nat) * spec_pow10(b)));
        vstd::arithmetic::mul::lemma_mul_is_associative(
            10,
            spec_pow10((a - 1) as nat) as int,
            spec_pow10(b) as int,
        );
        assert(10 * (spec_pow10((a - 1) as nat) * spec_pow10(b)) == (10 * spec_pow10(
            (a - 1) as nat,
        )) * spec_pow10(b));
        assert((10 * spec_pow10((a - 1) as nat)) * spec_pow10(b) == spec_pow10(a) * spec_pow10(b));
    }
}

fn pow10_small(e: u64) -> (r: u64)
    requires
        e <= 6,
    ensures
        r as int == spec_pow10(e as nat),
{
    proof {
        reveal_with_fuel(spec_pow10, 8);
    }
    if e == 0 {
        1
    } else if e == 1 {
        10
    } else if e == 2 {
        100
    } else if e == 3 {
        1000
    } else if e == 4 {
        10000
    } else if e == 5 {
        100000
    } else {
        1000000
    }
}

/// Reads a scanned number lexeme into a `Num`.
pub fn parse_number_lexeme(s: &str) -> (r: Num)
    requires
        spec_number_lexeme_wf(s@),
    ensures
        r == spec_number_value(s@),
{
    let len = s.unicode_len();
    let ghost k = spec_int_end(s@);
    proof {
        lemma_run_end_props(s@, 0, digit_pred());
        if k < s@.len() {
            lemma_run_end_props(s@, k + 1, digit_pred());
        }
    }
    // The integer part ends at the first point, if any.
    let mut kk: usize = 0;
    while kk < len
        invariant
            0 <= kk <= len,
            len == s@.len(),
            forall|x: int| 0 <= x < kk ==> s@[x] != '.',
        ensures
            0 <= kk <= len,
            forall|x: int| 0 <= x < kk ==> s@[x] != '.',
            kk == len || s@[kk as int] == '.',
        decreases len - kk,
    {
        let c = s.get_char(kk);
        if c == '.' {
            break ;
        }
        kk += 1;
    }
    proof {
        // Digits are not points, so the first point is exactly `k`.
        assert(kk as int == k);
    }
    // Accumulate the integer part; past `HUGE_STOP` the exact value no
    // longer matters, the result saturates either way.
    let mut i: usize = 0;
    let mut acc: u128 = 0;
    let mut big = false;
    while i < kk
        invariant
            0 <= i <= kk <= len,
            len == s@.len(),
            kk as int == k,
            k == spec_int_end(s@),
            spec_number_lexeme_wf(s@),
            forall|x: int| 0 <= x < k ==> spec_is_digit(s@[x]),
            !big ==> acc as int == spec_digits_val(s@.subrange(0, i as int)) && acc < 10
                * HUGE_STOP,
            big ==> spec_digits_val(s@.subrange(0, i as int)) >= 10 * (HUGE_STOP as int),
        decreases kk - i,
    {
        let c = s.get_char(i);
        let d = (c as u32 - 48) as u64;
        proof {
            assert(s@.subrange(0, i + 1).drop_last() =~= s@.subrange(0, i as int));
            assert(s@.subrange(0, i + 1).last() == s@[i as int]);
        }
        if big {
        } else if acc >= HUGE_STOP {
            big = true;
        } else {
            acc = acc * 10 + d as u128;
        }
        i += 1;
    }
    let ghost ip = spec_digits_val(s@.subrange(0, k));
    // The fractional part: at most the first six digits count.
    let mut fv: u64 = 0;
    let mut cnt: u64 = 0;
    let ghost fd: Seq<char> = if k < s@.len() {
        s@.subrange(k + 1, s@.len() as int)
    } else {
        Seq::<char>::empty()
    };
    if kk < len {
        let mut j2: usize = kk + 1;
        while j2 < len && cnt < 6
            invariant
                kk < len,
                kk + 1 <= j2 <= len,
                len == s@.len(),
                kk as int == k,
                k == spec_int_end(s@),
                spec_number_lexeme_wf(s@),
                fd == s@.subrange(k + 1, s@.len() as int),
                forall|x: int| k < x < s@.len() ==> spec_is_digit(s@[x]),
                cnt as int == j2 - (kk + 1),
                cnt <= 6,
                fv as int == spec_digits_val(fd.subrange(0, cnt as int)),
                fv < spec_pow10(cnt as nat),
            decreases len - j2,
        {
            let c = s.get_char(j2);
            let d = (c as u32 - 48) as u64;
            proof {
                assert(fd.subrange(0, cnt + 1).drop_last() =~= fd.subrange(0, cnt as int));
                assert(fd.subrange(0, cnt + 1).last() == s@[j2 as int]);
                assert(spec_pow10((cnt + 1) as nat) == 10 * spec_pow10(cnt as nat));
                lemma_pow10_mono(cnt as nat, 5);
                assert(spec_pow10(5) == 100000) by {
                    reveal_with_fuel(spec_pow10, 8);
                }
            }
            fv = fv * 10 + d;
            cnt += 1;
            j2 += 1;
        }
    }
    let ghost t: int = if fd.len() < 6 { fd.len() as int } else { 6 };
    proof {
        assert(cnt as int == t);
        assert(fd.subrange(0, t) =~= fd.subrange(0, cnt as int));
    }
    // Pad the fraction out to six digits.
    let p = pow10_small(6 - cnt);
    proof {
        lemma_pow10_add(cnt as nat, (6 - cnt) as nat);
        assert(spec_pow10(6) == 1000000) by {
            reveal_with_fuel(spec_pow10, 8);
        }
        vstd::arithmetic::mul::lemma_mul_inequality(
            fv as int,
            spec_pow10(cnt as nat) as int - 1,
            p as int,
        );
        vstd::arithmetic::mul::lemma_mul_is_distributive_sub_other_way(
            p as int,
            spec_pow10(cnt as nat) as int,
            1,
        );
        assert(fv * p <= 1000000 - p);
    }
    let frac = fv * p;
    if big {
        proof {
            vstd::arithmetic::mul::lemma_mul_inequality(
                10 * (HUGE_STOP as int),
                ip,
                SCALE as int,
            );
        }
        Num::PosInf
    } else {
        proof {
            vstd::arithmetic::mul::lemma_mul_inequality(
                acc as int,
                10 * (HUGE_STOP as int) - 1,
                SCALE as int,
            );
        }
        let total = acc * (SCALE as u128) + frac as u128;
        if total > u64::MAX as u128 {
            Num::PosInf
        } else {
            Num::Finite { neg: false, units: total as u64 }
        }
    }
}

impl Num {
    pub fn neg(self) -> (r: Num)
        ensures
            r == spec_neg(self),
    {
        match self {
            Num::NaN => Num::NaN,
            Num::PosInf => Num::NegInf,
            Num::NegInf => Num::PosInf,
            Num::Finite { neg, units } => Num::Finite { neg: !neg && units > 0, units },
        }
    }

    pub fn add(self, other: Num) -> (r: Num)
        ensures
            r == spec_add(self, other),
    {
        match (self, other) {
            (Num::NaN, _) => Num::NaN,
            (_, Num::NaN) => Num::NaN,
            (Num::PosInf, Num::NegInf) => Num::NaN,
            (Num::NegInf, Num::PosInf) => Num::NaN,
            (Num::PosInf, _) => Num::PosInf,
            (_, Num::PosInf) => Num::PosInf,
            (Num::NegInf, _) => Num::NegInf,
            (_, Num::NegInf) => Num::NegInf,
            (Num::Finite { neg: n1, units: u1 }, Num::Finite { neg: n2, units: u2 }) => {
                if n1 == n2 {
                    let s = u1 as u128 + u2 as u128;
                    if s > u64::MAX as u128 {
                        if n1 { Num::NegInf } else { Num::PosInf }
                    } else {
                        Num::Finite { neg: n1 && s > 0, units: s as u64 }
                    }
                } else {
                    if u1 >= u2 {
                        let d = u1 - u2;
                        Num::Finite { neg: n1 && d > 0, units: d }
                    } else {
                        let d = u2 - u1;
                        Num::Finite { neg: n2 && d > 0, units: d }
                    }
                }
            },
        }
    }

    pub fn sub(self, other: Num) -> (r: Num)
        ensures
            r == spec_sub(self, other),
    {
        self.add(other.neg())
    }

    pub fn mul(self, other: Num) -> (r: Num)
        ensures
            r == spec_mul(self, other),
    {
        match (self, other) {
            (Num::NaN, _) => Num::NaN,
            (_, Num::NaN) => Num::NaN,
            (Num::PosInf, Num::PosInf) => Num::PosInf,
            (Num::PosInf, Num::NegInf) => Num::NegInf,
            (Num::NegInf, Num::PosInf) => Num::NegInf,
            (Num::NegInf, Num::NegInf) => Num::PosInf,
            (Num::PosInf, Num::Finite { neg, units }) => {
                if units == 0 { Num::NaN } else if neg { Num::NegInf } else { Num::PosInf }
            },
            (Num::NegInf, Num::Finite { neg, units }) => {
                if units == 0 { Num::NaN } else if neg { Num::PosInf } else { Num::NegInf }
            },
            (Num::Finite { neg, units }, Num::PosInf) => {
                if units == 0 { Num::NaN } else if neg { Num::NegInf } else { Num::PosInf }
            },
            (Num::Finite { neg, units }, Num::NegInf) => {
                if units == 0 { Num::NaN } else if neg { Num::PosInf } else { Num::NegInf }
            },
            (Num::Finite { neg: n1, units: u1 }, Num::Finite { neg: n2, units: u2 }) => {
                proof {
                    vstd::arithmetic::mul::lemma_mul_upper_bound(
                        u1 as int, u64::MAX as int, u2 as int, u64::MAX as int);
                }
                let p = u1 as u128 * u2 as u128;
                let m = p / (SCALE as u128);
                if m > u64::MAX as u128 {
                    if n1 != n2 { Num::NegInf } else { Num::PosInf }
                } else {
                    Num::Finite { neg: (n1 != n2) && m > 0, units: m as u64 }
                }
            },
        }
    }

    pub fn div(self, other: Num) -> (r: Num)
        ensures
            r == spec_div(self, other),
    {
        match (self, other) {
            (Num::NaN, _) => Num::NaN,
            (_, Num::NaN) => Num::NaN,
            (Num::PosInf, Num::PosInf) => Num::NaN,
            (Num::PosInf, Num::NegInf) => Num::NaN,
            (Num::NegInf, Num::PosInf) => Num::NaN,
            (Num::NegInf, Num::NegInf) => Num::NaN,
            (Num::PosInf, Num::Finite { neg, units }) => {
                if neg { Num::NegInf } else { Num::PosInf }
            },
            (Num::NegInf, Num::Finite { neg, units }) => {
                if neg { Num::PosInf } else { Num::NegInf }
            },
            (Num::Finite { neg, units }, Num::PosInf) => Num::Finite { neg: false, units: 0 },
            (Num::Finite { neg, units }, Num::NegInf) => Num::Finite { neg: false, units: 0 },
            (Num::Finite { neg: n1, units: u1 }, Num::Finite { neg: n2, units: u2 }) => {
                if u2 == 0 {
                    if u1 == 0 {
                        Num::NaN
                    } else if n1 != n2 {
                        Num::NegInf
                    } else {
                        Num::PosInf
                    }
                } else {
                    proof {
                        vstd::arithmetic::mul::lemma_mul_upper_bound(
                            u1 as int, u64::MAX as int, SCALE as int, SCALE as int);
                    }
                    let n = u1 as u128 * SCALE as u128;
                    let q = n / (u2 as u128);
                    if q > u64::MAX as u128 {
                        if n1 != n2 { Num::NegInf } else { Num::PosInf }
                    } else {
                        Num::Finite { neg: (n1 != n2) && q > 0, units: q as u64 }
                    }
                }
            },
        }
    }

    pub fn lt(self, other: Num) -> (r: bool)
        ensures
            r == spec_lt(self, other),
    {
        match (self, other) {
            (Num::NaN, _) => false,
            (_, Num::NaN) => false,
            (Num::NegInf, Num::NegInf) => false,
            (Num::NegInf, _) => true,
            (_, Num::NegInf) => false,
            (Num::PosInf, _) => false,
            (_, Num::PosInf) => true,
            (Num::Finite { neg: n1, units: u1 }, Num::Finite { neg: n2, units: u2 }) => {
                if n1 && !n2 {
                    u1 > 0 || u2 > 0
                } else if !n1 && n2 {
                    false
                } else if n1 {
                    u1 > u2
                } else {
                    u1 < u2
                }
            },
        }
    }

    pub fn le(self, other: Num) -> (r: bool)
        ensures
            r == spec_le(self, other),
    {
        match (self, other) {
            (Num::NaN, _) => false,
            (_, Num::NaN) => false,
            (Num::NegInf, _) => true,
            (_, Num::NegInf) => false,
            (_, Num::PosInf) => true,
            (Num::PosInf, _) => false,
            (Num::Finite { neg: n1, units: u1 }, Num::Finite { neg: n2, units: u2 }) => {
                if n1 && !n2 {
                    true
                } else if !n1 && n2 {
                    u1 == 0 && u2 == 0
                } else if n1 {
                    u1 >= u2
                } else {
                    u1 <= u2
                }
            },
        }
    }

    pub fn gt(self, other: Num) -> (r: bool)
        ensures
            r == spec_lt(other, self),
    {
        other.lt(self)
    }

    pub fn ge(self, other: Num) -> (r: bool)
        ensures
            r == spec_le(other, self),
    {
        other.le(self)
    }

    /// Renders the number the way `print` shows it: the integer part in
    /// decimal, then the fractional digits with trailing zeros dropped;
    /// a whole number shows no decimal point at all.
    pub fn to_display_string(self) -> (r: String)
        ensures
            r@ == spec_display(self),
    {
        proof {
            reveal_strlit("NaN");
            reveal_strlit("inf");
            reveal_strlit("-inf");
            reveal_strlit("-");
            reveal_strlit(".");
        }
        match self {
            Num::NaN => String::from_str("NaN"),
            Num::PosInf => String::from_str("inf"),
            Num::NegInf => String::from_str("-inf"),
            Num::Finite { neg, units } => {
                let ip = units / SCALE;
                let f = units % SCALE;
                let mut s = String::new();
                if neg && units > 0 {
                    s.append("-");
                }
                let ip_str = dec_u64(ip);
                s.append(ip_str.as_str());
                if f > 0 {
                    s.append(".");
                    let mut m = f;
                    let mut w: u64 = 6;
                    while (m % 10 == 0 && w > 1)
                        invariant
                            1 <= w <= 6,
                            1 <= m,
                            spec_strip(f as nat, 6) == spec_strip(m as nat, w as nat),
                        decreases w,
                    {
                        m = m / 10;
                        w = w - 1;
                    }
                    let frac_str = dec_padded_u64(m, w);
                    s.append(frac_str.as_str());
                }
                proof {
                    assert(s@ =~= spec_display(self));
                }
                s
            },
        }
    }

    /// The language's equality policy: finite values within one millionth
    /// of each other are equal.
    pub fn approx_eq(self, other: Num) -> (r: bool)
        ensures
            r == spec_approx_eq(self, other),
    {
        match (self, other) {
            (Num::Finite { neg: n1, units: u1 }, Num::Finite { neg: n2, units: u2 }) => {
                if n1 == n2 {
                    if u1 >= u2 { u1 - u2 <= 1 } else { u2 - u1 <= 1 }
                } else {
                    u1 as u128 + u2 as u128 <= 1
                }
            },
            _ => false,
        }
    }
}

} // verus!
