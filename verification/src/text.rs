//! Decimal rendering of unsigned integers, shared by the number display
//! logic and by diagnostic formatting.

use vstd::prelude::*;

verus! {

/// The decimal digit character for a value in 0..=9.
pub open spec fn spec_digit_char(d: int) -> char {
    if d == 0 {
        '0'
    } else if d == 1 {
        '1'
    } else if d == 2 {
        '2'
    } else if d == 3 {
        '3'
    } else if d == 4 {
        '4'
    } else if d == 5 {
        '5'
    } else if d == 6 {
        '6'
    } else if d == 7 {
        '7'
    } else if d == 8 {
        '8'
    } else {
        '9'
    }
}

/// The usual decimal rendering of a natural number, most significant
/// digit first, with no leading zeros (except for zero itself).
pub open spec fn spec_dec(n: nat) -> Seq<char>
    decreases n,
{
    if n < 10 {
        seq![spec_digit_char(n as int)]
    } else {
        spec_dec(n / 10) + seq![spec_digit_char((n % 10) as int)]
    }
}

/// Decimal rendering of `n` padded with leading zeros to exactly
/// `width` digits; only the last `width` digits of `n` appear.
pub open spec fn spec_dec_padded(n: nat, width: nat) -> Seq<char>
    decreases width,
{
    if width == 0 {
        Seq::<char>::empty()
    } else {
        spec_dec_padded(n / 10, (width - 1) as nat) + seq![spec_digit_char((n % 10) as int)]
    }
}

/// Decimal digit characters.
pub open spec fn spec_is_digit(c: char) -> bool {
    48 <= c as u32 <= 57
}

/// The numeric value of a decimal digit character.
pub open spec fn spec_digit_val(c: char) -> int
    recommends spec_is_digit(c),
{
    c as u32 - 48
}

/// Letters and underscore: the characters that may open an identifier.
pub open spec fn spec_is_alpha(c: char) -> bool {
    (97 <= c as u32 <= 122) || (65 <= c as u32 <= 90) || c as u32 == 95
}

pub open spec fn spec_is_alpha_numeric(c: char) -> bool {
    spec_is_alpha(c) || spec_is_digit(c)
}

/// The numeric value of a string of decimal digits, most significant first.
pub open spec fn spec_digits_val(s: Seq<char>) -> int
    decreases s.len(),
{
    if s.len() == 0 {
        0
    } else {
        spec_digits_val(s.drop_last()) * 10 + spec_digit_val(s.last())
    }
}

pub open spec fn spec_pow10(k: nat) -> nat
    decreases k,
{
    if k == 0 {
        1
    } else {
        10 * spec_pow10((k - 1) as nat)
    }
}

/// The digit character class, as a value usable with `spec_run_end`.
pub open spec fn digit_pred() -> spec_fn(char) -> bool {
    |c: char| spec_is_digit(c)
}

/// The identifier-continuation character class.
pub open spec fn alnum_pred() -> spec_fn(char) -> bool {
    |c: char| spec_is_alpha_numeric(c)
}

/// The first position at or after `i` whose character fails `p`, or the
/// end of the string: the end of the maximal run of `p`-characters.
pub open spec fn spec_run_end(s: Seq<char>, i: int, p: spec_fn(char) -> bool) -> int
    decreases s.len() - i,
{
    if i < 0 || i >= s.len() {
        s.len() as int
    } else if p(s[i]) {
        spec_run_end(s, i + 1, p)
    } else {
        i
    }
}

/// What `spec_run_end` returns: a position within bounds, with `p` holding
/// on the whole run and failing just after it (unless the run reaches the
/// end of the string).
pub proof fn lemma_run_end_props(s: Seq<char>, i: int, p: spec_fn(char) -> bool)
    requires
        0 <= i <= s.len(),
    ensures
        i <= spec_run_end(s, i, p) <= s.len(),
        forall|j: int| i <= j < spec_run_end(s, i, p) ==> p(s[j]),
        spec_run_end(s, i, p) == s.len() || !p(s[spec_run_end(s, i, p)]),
    decreases s.len() - i,
{
    if i < s.len() && p(s[i]) {
        lemma_run_end_props(s, i + 1, p);
    }
}

/// The converse: those three facts pin the run end down.
pub proof fn lemma_run_end_is(s: Seq<char>, i: int, b: int, p: spec_fn(char) -> bool)
    requires
        0 <= i <= b <= s.len(),
        forall|j: int| i <= j < b ==> p(s[j]),
        b == s.len() || !p(s[b]),
    ensures
        spec_run_end(s, i, p) == b,
    decreases b - i,
{
    if i < b {
        lemma_run_end_is(s, i + 1, b, p);
    }
}

pub fn is_digit_char(c: char) -> (r: bool)
    ensures
        r == spec_is_digit(c),
{
    let u = c as u32;
    48 <= u && u <= 57
}

pub fn is_alpha_char(c: char) -> (r: bool)
    ensures
        r == spec_is_alpha(c),
{
    let u = c as u32;
    (97 <= u && u <= 122) || (65 <= u && u <= 90) || u == 95
}

pub fn is_alpha_numeric_char(c: char) -> (r: bool)
    ensures
        r == spec_is_alpha_numeric(c),
{
    is_alpha_char(c) || is_digit_char(c)
}

fn digit_str(d: u64) -> (r: &'static str)
    requires
        d <= 9,
    ensures
        r@ == seq![spec_digit_char(d as int)],
{
    proof {
        reveal_strlit("0");
        reveal_strlit("1");
        reveal_strlit("2");
        reveal_strlit("3");
        reveal_strlit("4");
        reveal_strlit("5");
        reveal_strlit("6");
        reveal_strlit("7");
        reveal_strlit("8");
        reveal_strlit("9");
    }
    let r = if d == 0 {
        "0"
    } else if d == 1 {
        "1"
    } else if d == 2 {
        "2"
    } else if d == 3 {
        "3"
    } else if d == 4 {
        "4"
    } else if d == 5 {
        "5"
    } else if d == 6 {
        "6"
    } else if d == 7 {
        "7"
    } else if d == 8 {
        "8"
    } else {
        "9"
    };
    proof {
        assert(r@ =~= seq![spec_digit_char(d as int)]);
    }
    r
}

/// Renders `n` in decimal, without leading zeros.
pub fn dec_u64(n: u64) -> (r: String)
    ensures
        r@ == spec_dec(n as nat),
    decreases n,
{
    if n < 10 {
        String::from_str(digit_str(n))
    } else {
        let high = dec_u64(n / 10);
        let r = high.concat(digit_str(n % 10));
        proof {
            assert(r@ =~= spec_dec(n as nat));
        }
        r
    }
}

/// Renders the last `width` decimal digits of `n`, zero-padded.
pub fn dec_padded_u64(n: u64, width: u64) -> (r: String)
    ensures
        r@ == spec_dec_padded(n as nat, width as nat),
    decreases width,
{
    if width == 0 {
        let r = String::new();
        proof {
            assert(r@ =~= spec_dec_padded(n as nat, 0));
        }
        r
    } else {
        let high = dec_padded_u64(n / 10, width - 1);
        let r = high.concat(digit_str(n % 10));
        proof {
            assert(r@ =~= spec_dec_padded(n as nat, width as nat));
        }
        r
    }
}

} // verus!
