use vstd::prelude::*;
use vstd::string::{StrSliceExecFns, StringExecFns};
use crate::energy::EnergyQuantity;
use crate::math::{
    lemma_div_ge_iff, lemma_div_positive_decreases, lemma_pow10_mono, lemma_pow10_pos,
    lemma_pow10_values, pow10, scaled_floor,
};
use crate::units::{
    energy_abbrev, energy_abbrev_x, energy_scale, energy_scale_exp, energy_scale_mant, EnergyUnit,
};

verus! {

/// The digit character for `d` in [0, 10).
pub open spec fn digit_char(d: nat) -> char {
    if d == 0 {
        '0'
    } else if d == 1 {
        '1'
    } else if d == 2 {
        '2'
    } else if d == 3 {
        '3'
    } else if d == 4 {
        '4'
    } else if d == 5 {
        '5'
    } else if d == 6 {
        '6'
    } else if d == 7 {
        '7'
    } else if d == 8 {
        '8'
    } else {
        '9'
    }
}

fn digit_str(d: u64) -> (r: &'static str)
    requires
        d < 10,
    ensures
        r@ == seq![digit_char(d as nat)],
{
    proof {
        reveal_strlit("0");
        reveal_strlit("1");
        reveal_strlit("2");
        reveal_strlit("3");
        reveal_strlit("4");
        reveal_strlit("5");
        reveal_strlit("6");
        reveal_strlit("7");
        reveal_strlit("8");
        reveal_strlit("9");
    }
    let r = match d {
        0 => "0",
        1 => "1",
        2 => "2",
        3 => "3",
        4 => "4",
        5 => "5",
        6 => "6",
        7 => "7",
        8 => "8",
        _ => "9",
    };
    proof {
        assert(r@ =~= seq![digit_char(d as nat)]);
    }
    r
}

/// The decimal digits of `n`, most significant first.
pub open spec fn dec_chars(n: nat) -> Seq<char>
    decreases n,
{
    if n < 10 {
        seq![digit_char(n)]
    } else {
        dec_chars(n / 10).push(digit_char(n % 10))
    }
}

/// Append the decimal digits of `n`.
fn append_u128(out: &mut String, n: u128)
    ensures
        final(out)@ == old(out)@ + dec_chars(n as nat),
    decreases n,
{
    if n < 10 {
        out.append(digit_str(n as u64));
        proof {
            assert(out@ =~= old(out)@ + dec_chars(n as nat));
        }
    } else {
        proof {
            lemma_div_positive_decreases(n as int, 10);
        }
        append_u128(out, n / 10);
        out.append(digit_str((n % 10) as u64));
        proof {
            assert(out@ =~= old(out)@ + dec_chars(n as nat));
        }
    }
}

/// The digits of the (possibly negative) integer `e`.
pub open spec fn int_chars(e: int) -> Seq<char> {
    if e < 0 {
        "-"@ + dec_chars((-e) as nat)
    } else {
        dec_chars(e as nat)
    }
}

/// Append the digits of `e`, with a leading minus sign when it is negative.
fn append_int(out: &mut String, e: i128)
    requires
        -100_000_000_000_000_000_000_000_000 <= e <= 100_000_000_000_000_000_000_000_000,
    ensures
        final(out)@ == old(out)@ + int_chars(e as int),
{
    if e < 0 {
        out.append("-");
        append_u128(out, (-e) as u128);
        proof {
            assert(out@ =~= old(out)@ + int_chars(e as int));
        }
    } else {
        append_u128(out, e as u128);
    }
}

/// The digits of `n` padded with zeros at the front to exactly `w` digits.
pub open spec fn padded_chars(n: nat, w: nat) -> Seq<char>
    decreases w,
{
    if w == 0 {
        Seq::empty()
    } else {
        padded_chars(n / 10, (w - 1) as nat).push(digit_char(n % 10))
    }
}

pub proof fn lemma_padded_len(n: nat, w: nat)
    ensures
        padded_chars(n, w).len() == w,
    decreases w,
{
    if w > 0 {
        lemma_padded_len(n / 10, (w - 1) as nat);
    }
}

/// `s` with its trailing `'0'` characters removed.
pub open spec fn trim_zeros(s: Seq<char>) -> Seq<char>
    decreases s.len(),
{
    if s.len() > 0 && s.last() == '0' {
        trim_zeros(s.drop_last())
    } else {
        s
    }
}

/// Append the digits of `n` padded with zeros at the front to `w` digits.
fn append_padded(out: &mut String, n: u64, w: u64)
    ensures
        final(out)@ == old(out)@ + padded_chars(n as nat, w as nat),
    decreases w,
{
    if w == 0 {
        proof {
            assert(out@ =~= old(out)@ + padded_chars(n as nat, 0));
        }
    } else {
        append_padded(out, n / 10, w - 1);
        out.append(digit_str(n % 10));
        proof {
            assert(out@ =~= old(out)@ + padded_chars(n as nat, w as nat));
        }
    }
}

/// The fraction digits printed for a nine-digit mantissa: its lower eight
/// digits, trailing zeros dropped.
pub open spec fn frac_chars(m: nat) -> Seq<char> {
    trim_zeros(padded_chars(m % 100_000_000, 8))
}

/// The mantissa as printed: the leading digit, then a dot and the fraction
/// digits unless they are all zero.
pub open spec fn mant_chars(m: nat) -> Seq<char> {
    if frac_chars(m).len() == 0 {
        seq![digit_char(m / 100_000_000)]
    } else {
        seq![digit_char(m / 100_000_000)] + "."@ + frac_chars(m)
    }
}

proof fn lemma_trim_zeros_step(n: nat, w: nat)
    requires
        w > 0,
    ensures
        n % 10 == 0 ==> trim_zeros(padded_chars(n, w)) == trim_zeros(
            padded_chars(n / 10, (w - 1) as nat),
        ),
        n % 10 != 0 ==> trim_zeros(padded_chars(n, w)) == padded_chars(n, w),
{
    let p = padded_chars(n / 10, (w - 1) as nat);
    assert(padded_chars(n, w) == p.push(digit_char(n % 10)));
    assert(p.push(digit_char(n % 10)).last() == digit_char(n % 10));
    assert(p.push(digit_char(n % 10)).drop_last() =~= p);
}

/// Append the printed mantissa of the nine-digit value `m`.
fn append_mantissa(out: &mut String, m: u64)
    requires
        100_000_000 <= m < 1_000_000_000,
    ensures
        final(out)@ == old(out)@ + mant_chars(m as nat),
{
    out.append(digit_str(m / 100_000_000));
    let t = m % 100_000_000;
    let mut v = t;
    let mut w: u64 = 8;
    while v % 10 == 0 && w > 0
        invariant
            w <= 8,
            trim_zeros(padded_chars(t as nat, 8)) == trim_zeros(padded_chars(v as nat, w as nat)),
        decreases w,
    {
        proof {
            lemma_trim_zeros_step(v as nat, w as nat);
        }
        v = v / 10;
        w = w - 1;
    }
    proof {
        if w == 0 {
            assert(trim_zeros(padded_chars(v as nat, 0)) =~= Seq::<char>::empty());
            assert(frac_chars(m as nat).len() == 0);
        } else {
            lemma_trim_zeros_step(v as nat, w as nat);
            assert(frac_chars(m as nat) == padded_chars(v as nat, w as nat));
            lemma_padded_len(v as nat, w as nat);
        }
    }
    if w > 0 {
        out.append(".");
        append_padded(out, v, w);
        proof {
            reveal_strlit(".");
            assert("."@ =~= seq!['.']);
            assert(out@ =~= old(out)@ + mant_chars(m as nat));
        }
    } else {
        proof {
            assert(out@ =~= old(out)@ + mant_chars(m as nat));
        }
    }
}

/// Reduce `num/den` to its first nine significant decimal digits: the result
/// `(m, j)` satisfies `m == scaled_floor(num, den, j)` with `m` a nine-digit
/// integer, so `m × 10^(-j)` is `num/den` truncated toward zero.
fn leading_digits(num: u128, den: u128) -> (r: (u64, i128))
    requires
        1 <= num <= 1_000_000_000_000_000_000_000_000,
        1 <= den <= 10_000_000_000_000_000_000_000_000_000,
    ensures
        100_000_000 <= r.0 < 1_000_000_000,
        r.0 as int == scaled_floor(num as int, den as int, r.1 as int),
        -24 <= r.1 <= 40,
{
    proof {
        lemma_pow10_values();
    }
    let mut d: u128 = den;
    let mut c1: u64 = 0;
    while num / d >= 1_000_000_000
        invariant
            1 <= num <= 1_000_000_000_000_000_000_000_000,
            1 <= den,
            c1 <= 16,
            d == den * pow10(c1 as nat),
            d >= 1,
            c1 > 0 ==> num >= 100_000_000 * d,
        decreases 16 - c1,
    {
        proof {
            lemma_pow10_values();
            lemma_div_ge_iff(num as int, d as int, 1_000_000_000);
            assert(num >= 1_000_000_000 * d);
            assert(d <= 1_000_000_000_000_000);
            lemma_pow10_pos(c1 as nat);
            assert(den * pow10(c1 as nat) >= pow10(c1 as nat)) by (nonlinear_arith)
                requires
                    den >= 1,
                    pow10(c1 as nat) >= 1,
            ;
            if c1 >= 16 {
                lemma_pow10_mono(16, c1 as nat);
                assert(false);
            }
            assert(den * pow10(c1 as nat + 1) == (den * pow10(c1 as nat)) * 10)
                by (nonlinear_arith)
                requires
                    pow10(c1 as nat + 1) == 10 * pow10(c1 as nat),
            ;
        }
        d = d * 10;
        c1 = c1 + 1;
    }
    let mut nn: u128 = num;
    let mut c2: u64 = 0;
    while nn / d < 100_000_000
        invariant
            1 <= num,
            1 <= den,
            c1 <= 16,
            c2 <= 36,
            d == den * pow10(c1 as nat),
            den <= 10_000_000_000_000_000_000_000_000_000,
            d <= 10_000_000_000_000_000_000_000_000_000,
            1 <= d,
            nn == num * pow10(c2 as nat),
            1 <= nn,
            c1 > 0 ==> num >= 100_000_000 * d,
            c2 > 0 ==> c1 == 0,
            num / d < 1_000_000_000,
            nn / d < 1_000_000_000,
        decreases 36 - c2,
    {
        proof {
            lemma_pow10_values();
            lemma_div_ge_iff(nn as int, d as int, 100_000_000);
            assert(nn < 100_000_000 * d);
            if c1 > 0 {
                assert(c2 == 0);
                assert(pow10(0) == 1);
                assert(num * 1 == num) by (nonlinear_arith);
                assert(nn == num);
                assert(false);
            }
            lemma_pow10_pos(c2 as nat);
            assert(num * pow10(c2 as nat) >= pow10(c2 as nat)) by (nonlinear_arith)
                requires
                    num >= 1,
                    pow10(c2 as nat) >= 1,
            ;
            if c2 >= 36 {
                lemma_pow10_mono(36, c2 as nat);
                assert(pow10(c2 as nat) >= pow10(36));
                assert(nn >= pow10(36));
                assert(nn < 100_000_000 * d);
                assert(100_000_000 * (d as int) <= 100_000_000 * 10_000_000_000_000_000_000_000_000_000)
                    by (nonlinear_arith)
                    requires
                        d <= 10_000_000_000_000_000_000_000_000_000,
                ;
                assert(false);
            }
            assert(num * pow10(c2 as nat + 1) == (num * pow10(c2 as nat)) * 10)
                by (nonlinear_arith)
                requires
                    pow10(c2 as nat + 1) == 10 * pow10(c2 as nat),
            ;
            // the next value still divides to under 10⁹
            lemma_div_ge_iff(10 * nn as int, d as int, 1_000_000_000);
            assert(10 * (nn as int) < 1_000_000_000 * d) by (nonlinear_arith)
                requires
                    nn < 100_000_000 * d,
            ;
        }
        nn = nn * 10;
        c2 = c2 + 1;
    }
    let m: u64 = (nn / d) as u64;
    let j: i128 = c2 as i128 - c1 as i128;
    proof {
        if c2 > 0 {
            assert(c1 == 0);
            assert(pow10(0) == 1);
            assert(den * 1 == den) by (nonlinear_arith);
            assert(d == den);
            assert(j >= 0);
            assert(m as int == scaled_floor(num as int, den as int, j as int));
        } else {
            assert(pow10(0) == 1);
            assert(num * 1 == num) by (nonlinear_arith);
            assert(nn == num);
            if c1 > 0 {
                assert(j < 0);
                assert((-(j as int)) as nat == c1 as nat);
                assert(m as int == scaled_floor(num as int, den as int, j as int));
            } else {
                assert(den * 1 == den) by (nonlinear_arith);
                assert(d == den);
                assert(m as int == scaled_floor(num as int, den as int, j as int));
            }
        }
    }
    (m, j)
}

/// What the formatter prints for energy `e` in unit `u`: for some shift `j`,
/// the nine leading digits `m` of the converted value, in scientific
/// notation, between the fixed prefix and the unit's abbreviation.
pub open spec fn rendered_energy(e: EnergyQuantity, u: EnergyUnit, s: Seq<char>) -> bool {
    exists|j: int|
        {
            let m = #[trigger] scaled_floor(
                e.num as int,
                e.den as int * energy_scale_mant(u),
                j,
            );
            &&& 100_000_000 <= m < 1_000_000_000
            &&& s == "Energy = "@ + mant_chars(m as nat) + "e"@ + int_chars(
                e.exp10 - energy_scale_exp(u) - j + 8,
            ) + " "@ + energy_abbrev(u)
        }
}

/// Render an energy in the requested unit as `Energy = <value> <abbrev>`:
/// the canonical joule value is divided by the unit's exact scale, truncated
/// to nine significant digits, and printed in scientific notation.
pub fn format_energy(energy: &EnergyQuantity, unit: EnergyUnit) -> (r: String)
    requires
        energy.wf(),
    ensures
        rendered_energy(*energy, unit, r@),
{
    let (sm, se) = energy_scale(unit);
    proof {
        assert(energy.den as int * (sm as int) <= 2_000_000_000_000_000_000 * 1_602_176_634)
            by (nonlinear_arith)
            requires
                2 <= energy.den <= 2_000_000_000_000_000_000,
                1 <= sm <= 1_602_176_634,
        ;
        assert(energy.den as int * (sm as int) >= 2 * 1) by (nonlinear_arith)
            requires
                2 <= energy.den,
                1 <= sm,
        ;
    }
    let den2: u128 = energy.den * (sm as u128);
    let (m, j) = leading_digits(energy.num, den2);
    let ex: i128 = energy.exp10 - se - j + 8;
    let mut out = String::from_str("Energy = ");
    append_mantissa(&mut out, m);
    out.append("e");
    append_int(&mut out, ex);
    out.append(" ");
    out.append(energy_abbrev_x(unit));
    proof {
        assert(out@ =~= "Energy = "@ + mant_chars(m as nat) + "e"@ + int_chars(ex as int) + " "@
            + energy_abbrev(unit));
        assert(scaled_floor(energy.num as int, energy.den as int * energy_scale_mant(unit), j as int)
            == m as int);
    }
    out
}

} // verus!
