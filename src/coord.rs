use vstd::prelude::*;
use vstd::arithmetic::mul::lemma_mul_strict_inequality;

verus! {

/// Decimal places a coordinate keeps after the point.
pub const FRAC_DIGITS: usize = 18;

/// Units in one whole: ten to the power `FRAC_DIGITS`.
pub const ONE: i128 = 1000000000000000000;

/// Bound on the magnitude of a parsed coordinate, in units (ten to the 36).
pub const UNIT_LIMIT: i128 = 1000000000000000000000000000000000000;

/// Largest value a pixel count can take.
pub const PIXEL_MAX: u32 = 4294967295;

pub open spec fn pow10(n: nat) -> int
    decreases n,
{
    if n == 0 {
        1
    } else {
        10 * pow10((n - 1) as nat)
    }
}

pub open spec fn is_digit(c: char) -> bool {
    '0' <= c && c <= '9'
}

pub open spec fn digit_value(c: char) -> int {
    c as int - '0' as int
}

/// The characters of `t` in order, every '.' left out.
pub open spec fn without_dots(t: Seq<char>) -> Seq<char>
    decreases t.len(),
{
    if t.len() == 0 {
        t
    } else if t.last() == '.' {
        without_dots(t.drop_last())
    } else {
        without_dots(t.drop_last()).push(t.last())
    }
}

/// How many times '.' occurs in `t`.
pub open spec fn dots_in(t: Seq<char>) -> nat
    decreases t.len(),
{
    if t.len() == 0 {
        0
    } else if t.last() == '.' {
        dots_in(t.drop_last()) + 1
    } else {
        dots_in(t.drop_last())
    }
}

/// How many characters follow the last '.' of `t` (zero when there is none).
pub open spec fn frac_len(t: Seq<char>) -> nat
    decreases t.len(),
{
    if t.len() == 0 || t.last() == '.' {
        0
    } else if dots_in(t.drop_last()) > 0 {
        frac_len(t.drop_last()) + 1
    } else {
        0
    }
}

/// The number that the decimal digits `t` spell.
pub open spec fn digits_value(t: Seq<char>) -> int
    decreases t.len(),
{
    if t.len() == 0 {
        0
    } else {
        digits_value(t.drop_last()) * 10 + digit_value(t.last())
    }
}

/// Length of the sign in front of a number: one for '+' or '-', else zero.
pub open spec fn sign_len(s: Seq<char>) -> int {
    if s.len() > 0 && (s[0] == '-' || s[0] == '+') {
        1
    } else {
        0
    }
}

/// What follows the sign.
pub open spec fn unsigned_part(s: Seq<char>) -> Seq<char> {
    s.skip(sign_len(s))
}

/// `s` is a decimal number: an optional sign, then digits with at most one
/// '.' among them, at least one digit, and at most `FRAC_DIGITS` digits on
/// each side of the point.
pub open spec fn is_decimal_text(s: Seq<char>) -> bool {
    let b = unsigned_part(s);
    &&& forall|i: int| 0 <= i < b.len() ==> is_digit(#[trigger] b[i]) || b[i] == '.'
    &&& dots_in(b) <= 1
    &&& without_dots(b).len() >= 1
    &&& without_dots(b).len() - frac_len(b) <= FRAC_DIGITS
    &&& frac_len(b) <= FRAC_DIGITS
}

/// The value of the decimal number `s`, in units of ten to the minus `FRAC_DIGITS`.
pub open spec fn decimal_units(s: Seq<char>) -> int {
    let b = unsigned_part(s);
    let m = digits_value(without_dots(b)) * pow10((FRAC_DIGITS - frac_len(b)) as nat);
    if s.len() > 0 && s[0] == '-' {
        -m
    } else {
        m
    }
}

/// A coordinate or an extent: a decimal number with `FRAC_DIGITS` places,
/// held as a whole number of units (`units / ONE`).
#[derive(Clone, Copy, Debug, PartialEq, Eq, Structural)]
pub struct Coord {
    pub units: i128,
}

impl Coord {
    /// The coordinate lies in the range that a parsed number can reach.
    pub open spec fn wf(self) -> bool {
        -UNIT_LIMIT < self.units < UNIT_LIMIT
    }

    /// The difference `self - start`.
    pub open spec fn minus_spec(self, start: Coord) -> Coord {
        Coord { units: (self.units - start.units) as i128 }
    }

    /// The difference `self - start`.
    pub fn minus(self, start: Coord) -> (r: Coord)
        requires
            self.wf(),
            start.wf(),
        ensures
            r == self.minus_spec(start),
            r.units == self.units - start.units,
    {
        Coord { units: self.units - start.units }
    }
}

pub proof fn lemma_pow10_constants()
    ensures
        pow10(FRAC_DIGITS as nat) == ONE,
        pow10(2 * FRAC_DIGITS as nat) == UNIT_LIMIT,
{
    reveal_with_fuel(pow10, 37);
}

pub proof fn lemma_pow10_add(a: nat, b: nat)
    ensures
        pow10(a) * pow10(b) == pow10(a + b),
    decreases a,
{
    if a > 0 {
        lemma_pow10_add((a - 1) as nat, b);
        assert(pow10(a) * pow10(b) == 10 * (pow10((a - 1) as nat) * pow10(b))) by (nonlinear_arith)
            requires
                pow10(a) == 10 * pow10((a - 1) as nat),
        ;
    }
}

pub proof fn lemma_pow10_mono(a: nat, b: nat)
    requires
        a <= b,
    ensures
        0 < pow10(a) <= pow10(b),
    decreases b,
{
    if b > a {
        lemma_pow10_mono(a, (b - 1) as nat);
    } else if a > 0 {
        lemma_pow10_mono((a - 1) as nat, (a - 1) as nat);
    }
}

/// Ten to the power `n`.
fn exp10(n: usize) -> (r: i128)
    requires
        n <= FRAC_DIGITS,
    ensures
        r == pow10(n as nat),
{
    let mut r: i128 = 1;
    let mut k: usize = 0;
    while k < n
        invariant
            k <= n <= FRAC_DIGITS,
            r == pow10(k as nat),
        decreases n - k,
    {
        proof {
            lemma_pow10_mono((k + 1) as nat, FRAC_DIGITS as nat);
            lemma_pow10_constants();
        }
        r = r * 10;
        k = k + 1;
    }
    r
}

/// Reads a decimal number such as `-12`, `0.25` or `.5`.
pub fn parse_coord(s: &str) -> (r: Option<Coord>)
    ensures
        r.is_some() == is_decimal_text(s@),
        r matches Some(c) ==> c.units == decimal_units(s@) && c.wf(),
{
    let n = s.unicode_len();
    let mut start: usize = 0;
    let mut negative = false;
    if n > 0 {
        let c = s.get_char(0);
        if c == '-' {
            negative = true;
            start = 1;
        } else if c == '+' {
            start = 1;
        }
    }
    let ghost b = unsigned_part(s@);
    assert(b.len() == n - start);
    let mut i: usize = start;
    let mut chars_ok = true;
    let mut dots: usize = 0;
    let mut digits: usize = 0;
    let mut frac: usize = 0;
    let mut acc: i128 = 0;
    while i < n
        invariant
            start <= i <= n,
            n == s@.len(),
            b == s@.skip(start as int),
            start == sign_len(s@),
            negative == (s@.len() > 0 && s@[0] == '-'),
            chars_ok == forall|j: int| 0 <= j < i - start ==> is_digit(#[trigger] b[j]) || b[j] == '.',
            dots == if dots_in(b.take(i - start)) < 2 { dots_in(b.take(i - start)) } else { 2 },
            digits == without_dots(b.take(i - start)).len(),
            frac == frac_len(b.take(i - start)),
            digits <= i - start,
            frac <= digits,
            chars_ok && digits <= 2 * FRAC_DIGITS ==> acc == digits_value(
                without_dots(b.take(i - start)),
            ) && 0 <= acc < pow10(digits as nat),
        decreases n - i,
    {
        let c = s.get_char(i);
        let ghost t = b.take(i - start);
        let ghost t1 = b.take(i + 1 - start);
        assert(t1.drop_last() =~= t);
        assert(t1.last() == c);
        if c == '.' {
            if dots < 2 {
                dots = dots + 1;
            }
            frac = 0;
        } else {
            if !is_digit_char(c) {
                chars_ok = false;
            } else if chars_ok && digits < 2 * FRAC_DIGITS {
                proof {
                    lemma_pow10_mono(digits as nat, 2 * FRAC_DIGITS as nat);
                    lemma_pow10_constants();
                }
                let ghost old_acc = acc;
                acc = acc * 10 + (c as u32 - '0' as u32) as i128;
                assert(without_dots(t1) == without_dots(t).push(c));
                assert(without_dots(t).push(c).drop_last() =~= without_dots(t));
                assert(digits_value(without_dots(t1)) == old_acc * 10 + digit_value(c));
                assert(pow10((digits + 1) as nat) == 10 * pow10(digits as nat));
            }
            if dots > 0 {
                frac = frac + 1;
            }
            digits = digits + 1;
        }
        i = i + 1;
        assert(chars_ok == forall|j: int| 0 <= j < i - start ==> is_digit(#[trigger] b[j]) || b[j] == '.');
    }
    assert(b.take(n - start) =~= b);
    if !chars_ok || dots > 1 || digits == 0 || digits - frac > FRAC_DIGITS || frac > FRAC_DIGITS {
        return None;
    }
    let p = exp10(FRAC_DIGITS - frac);
    proof {
        let k = (digits - frac) as nat;
        let e = (FRAC_DIGITS - frac) as nat;
        lemma_pow10_add(k + frac as nat, e);
        lemma_pow10_mono(k + FRAC_DIGITS as nat, 2 * FRAC_DIGITS as nat);
        lemma_pow10_mono(0, e);
        lemma_mul_strict_inequality(acc as int, pow10(digits as nat), p as int);
        lemma_pow10_constants();
        assert(0 <= acc * p) by (nonlinear_arith)
            requires
                0 <= acc,
                0 < p,
        ;
    }
    let m = acc * p;
    if negative {
        Some(Coord { units: -m })
    } else {
        Some(Coord { units: m })
    }
}

fn is_digit_char(c: char) -> (r: bool)
    ensures
        r == is_digit(c),
{
    '0' <= c && c <= '9'
}

} // verus!
