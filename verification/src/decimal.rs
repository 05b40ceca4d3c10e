use vstd::prelude::*;
use vstd::string::StrSliceExecFns;
use crate::errors::InvalidNumberError;
use crate::math::{lemma_append_digit_div, lemma_pow10_pos, lemma_trunc9_bounds, pow10, trunc9};

verus! {

/// Bound on the power-of-ten exponent a quantity may carry: far above what
/// any parsable token can produce, far below what i128 sums can overflow.
pub const EXP_LIMIT: i128 = 1_000_000_000_000_000_000_000_000;

/// An exact decimal value, sign × mantissa × 10^exp10, the mantissa kept
/// below 10⁹ (at most nine significant digits).
#[derive(Clone, Copy, PartialEq, Eq, Structural, Debug)]
pub struct Decimal {
    pub negative: bool,
    pub mantissa: u64,
    pub exp10: i128,
}

impl Decimal {
    pub open spec fn wf(&self) -> bool {
        self.mantissa < 1_000_000_000 && -EXP_LIMIT <= self.exp10 <= EXP_LIMIT
    }

    /// The signed integer mantissa; the value it stands for is
    /// `mant_val() × 10^exp10`.
    pub open spec fn mant_val(&self) -> int {
        if self.negative {
            -(self.mantissa as int)
        } else {
            self.mantissa as int
        }
    }
}

pub open spec fn is_digit(c: char) -> bool {
    48 <= c as u32 && c as u32 <= 57
}

pub open spec fn digit_val(c: char) -> nat {
    if is_digit(c) {
        (c as u32 - 48) as nat
    } else {
        0
    }
}

/// The integer spelled by the digits of `s`, read left to right, ignoring
/// any characters that are not digits.
pub open spec fn num_of(s: Seq<char>) -> nat
    decreases s.len(),
{
    if s.len() == 0 {
        0
    } else {
        let r = num_of(s.drop_last());
        if is_digit(s.last()) {
            r * 10 + digit_val(s.last())
        } else {
            r
        }
    }
}

/// Number of `.` characters in `s`.
pub open spec fn num_dots(s: Seq<char>) -> nat
    decreases s.len(),
{
    if s.len() == 0 {
        0
    } else {
        num_dots(s.drop_last()) + if s.last() == '.' {
            1nat
        } else {
            0nat
        }
    }
}

/// Number of digit characters in `s`.
pub open spec fn num_digits(s: Seq<char>) -> nat
    decreases s.len(),
{
    if s.len() == 0 {
        0
    } else {
        num_digits(s.drop_last()) + if is_digit(s.last()) {
            1nat
        } else {
            0nat
        }
    }
}

/// Number of digits standing after the dot of `s` (zero when `s` has no dot).
pub open spec fn frac_of(s: Seq<char>) -> nat
    decreases s.len(),
{
    if s.len() == 0 {
        0
    } else if s.last() == '.' {
        0
    } else if num_dots(s) == 0 {
        0
    } else {
        1 + frac_of(s.drop_last())
    }
}

/// `s` without its optional leading sign.
pub open spec fn body_of(s: Seq<char>) -> Seq<char> {
    if s.len() > 0 && (s[0] == '+' || s[0] == '-') {
        s.drop_first()
    } else {
        s
    }
}

/// A signed decimal number: an optional sign, then digits with at most one
/// dot among them and at least one digit.
pub open spec fn is_valid_decimal(s: Seq<char>) -> bool {
    let b = body_of(s);
    &&& b.len() > 0
    &&& num_dots(b) <= 1
    &&& (forall|i: int| 0 <= i < b.len() ==> is_digit(b[i]) || b[i] == '.')
    &&& num_digits(b) > 0
}

pub open spec fn dec_negative(s: Seq<char>) -> bool {
    s.len() > 0 && s[0] == '-'
}

/// The decimal value a valid token stands for, truncated to nine significant
/// digits: with digits worth `n × 10^(-f)`, the result is
/// `trunc9(n).0 × 10^(trunc9(n).1 - f)`.
pub open spec fn magnitude_of(s: Seq<char>) -> Decimal {
    let b = body_of(s);
    let p = trunc9(num_of(b));
    Decimal {
        negative: dec_negative(s),
        mantissa: p.0 as u64,
        exp10: (p.1 - frac_of(b)) as i128,
    }
}

pub proof fn lemma_num_dots_concat(a: Seq<char>, b: Seq<char>)
    ensures
        num_dots(a + b) == num_dots(a) + num_dots(b),
    decreases b.len(),
{
    if b.len() == 0 {
        assert(a + b =~= a);
    } else {
        lemma_num_dots_concat(a, b.drop_last());
        assert((a + b).drop_last() =~= a + b.drop_last());
        assert((a + b).last() == b.last());
    }
}

pub fn is_digit_char(c: char) -> (r: bool)
    ensures
        r == is_digit(c),
{
    let v = c as u32;
    48 <= v && v <= 57
}

fn digit_of(c: char) -> (r: u64)
    requires
        is_digit(c),
    ensures
        r == digit_val(c),
{
    (c as u32 - 48) as u64
}

/// Parse a magnitude token as a signed decimal number: an optional sign,
/// digits, and at most one dot. Anything else — including an exponent —
/// is rejected with the raw token.
pub fn parse_magnitude(token: &str) -> (r: Result<Decimal, InvalidNumberError>)
    ensures
        match r {
            Ok(d) => is_valid_decimal(token@) && d == magnitude_of(token@) && d.wf(),
            Err(e) => !is_valid_decimal(token@) && e.token@ == token@,
        },
{
    let n = token.unicode_len();
    let mut i: usize = 0;
    let mut negative = false;
    if n > 0 {
        let c0 = token.get_char(0);
        if c0 == '-' {
            negative = true;
            i = 1;
        } else if c0 == '+' {
            i = 1;
        }
    }
    let ghost start = i as int;
    proof {
        if start == 1 {
            assert(body_of(token@) =~= token@.subrange(1, n as int));
        } else {
            assert(body_of(token@) =~= token@.subrange(0, n as int));
        }
    }
    if i == n {
        return Err(InvalidNumberError { token: token.to_owned() });
    }
    let mut m: u64 = 0;
    let mut cut: usize = 0;
    let mut frac: usize = 0;
    let mut seen_dot = false;
    let mut seen_digit = false;
    while i < n
        invariant
            0 <= start <= i as int <= n as int,
            n == token@.len(),
            start < n as int,
            body_of(token@) == token@.subrange(start, n as int),
            cut <= i,
            frac <= i,
            m < 1_000_000_000,
            cut > 0 ==> m >= 100_000_000,
            forall|j: int| start <= j < i as int ==> is_digit(token@[j]) || token@[j] == '.',
            num_dots(token@.subrange(start, i as int)) == if seen_dot {
                1nat
            } else {
                0nat
            },
            seen_digit == (num_digits(token@.subrange(start, i as int)) > 0),
            frac == frac_of(token@.subrange(start, i as int)),
            m == trunc9(num_of(token@.subrange(start, i as int))).0,
            cut == trunc9(num_of(token@.subrange(start, i as int))).1,
        decreases n - i,
    {
        let ghost b = token@.subrange(start, i as int);
        let ghost bx = token@.subrange(start, i as int + 1);
        proof {
            assert(bx.drop_last() =~= b);
            assert(bx.last() == token@[i as int]);
        }
        let c = token.get_char(i);
        if is_digit_char(c) {
            let ghost num = num_of(b);
            let ghost numx = num_of(bx);
            proof {
                assert(numx == num * 10 + digit_val(c));
                lemma_trunc9_bounds(num);
                let p = trunc9(num);
                if m < 100_000_000 {
                    // the whole value so far is m itself, and one more digit
                    // still fits in nine digits
                    if num >= 1_000_000_000 {
                        assert(p.0 >= 100_000_000);
                    }
                    assert(num == m);
                    assert(numx < 1_000_000_000);
                } else {
                    // the mantissa is full: the new digit is cut off
                    lemma_pow10_pos(p.1);
                    assert(p.0 * 1 <= p.0 * pow10(p.1)) by (nonlinear_arith)
                        requires
                            p.0 >= 0,
                            pow10(p.1) >= 1,
                    ;
                    assert(num >= m);
                    assert(numx >= 10 * num) by (nonlinear_arith)
                        requires
                            numx == num * 10 + digit_val(c),
                            num >= 0,
                    ;
                    assert(numx >= 1_000_000_000);
                    lemma_append_digit_div(num as int, digit_val(c) as int);
                    assert(numx / 10 == num);
                    assert(trunc9(numx) == (p.0, p.1 + 1));
                }
                if seen_dot {
                    assert(num_dots(bx) == 1);
                    assert(frac_of(bx) == 1 + frac_of(b));
                } else {
                    assert(frac_of(bx) == 0);
                }
            }
            seen_digit = true;
            if m < 100_000_000 {
                m = m * 10 + digit_of(c);
            } else {
                cut += 1;
            }
            if seen_dot {
                frac += 1;
            }
        } else if c == '.' {
            if seen_dot {
                proof {
                    assert(num_dots(bx) == 2);
                    assert(body_of(token@) =~= bx + token@.subrange(i as int + 1, n as int));
                    lemma_num_dots_concat(bx, token@.subrange(i as int + 1, n as int));
                    assert(num_dots(body_of(token@)) >= 2);
                }
                return Err(InvalidNumberError { token: token.to_owned() });
            }
            proof {
                assert(frac_of(bx) == 0);
                assert(frac == 0);
            }
            seen_dot = true;
        } else {
            proof {
                assert(body_of(token@)[i as int - start] == token@[i as int]);
            }
            return Err(InvalidNumberError { token: token.to_owned() });
        }
        i += 1;
    }
    if !seen_digit {
        return Err(InvalidNumberError { token: token.to_owned() });
    }
    proof {
        assert(token@.subrange(start, n as int) == body_of(token@));
        lemma_trunc9_bounds(num_of(body_of(token@)));
        assert(is_valid_decimal(token@));
        assert(dec_negative(token@) == negative);
    }
    Ok(Decimal { negative, mantissa: m, exp10: cut as i128 - frac as i128 })
}

} // verus!
