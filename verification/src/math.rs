use vstd::prelude::*;
use vstd::arithmetic::div_mod::{lemma_div_decreases, lemma_fundamental_div_mod_converse};

verus! {

/// Ten to the power `n`.
pub open spec fn pow10(n: nat) -> int
    decreases n,
{
    if n == 0 {
        1
    } else {
        10 * pow10((n - 1) as nat)
    }
}

pub proof fn lemma_pow10_pos(n: nat)
    ensures
        pow10(n) >= 1,
    decreases n,
{
    if n > 0 {
        lemma_pow10_pos((n - 1) as nat);
    }
}

pub proof fn lemma_pow10_mono(a: nat, b: nat)
    requires
        a <= b,
    ensures
        pow10(a) <= pow10(b),
    decreases b,
{
    if a < b {
        lemma_pow10_mono(a, (b - 1) as nat);
        lemma_pow10_pos((b - 1) as nat);
    }
}

/// Concrete values of the powers of ten that the bounds in this crate rest on.
pub proof fn lemma_pow10_values()
    ensures
        pow10(8) == 100_000_000,
        pow10(9) == 1_000_000_000,
        pow10(16) == 10_000_000_000_000_000,
        pow10(18) == 1_000_000_000_000_000_000,
        pow10(24) == 1_000_000_000_000_000_000_000_000,
        pow10(27) == 1_000_000_000_000_000_000_000_000_000,
        pow10(36) == 1_000_000_000_000_000_000_000_000_000_000_000_000,
{
    assert(pow10(0) == 1);
    assert(pow10(1) == 10);
    assert(pow10(2) == 100);
    assert(pow10(3) == 1000);
    assert(pow10(4) == 10000);
    assert(pow10(5) == 100000);
    assert(pow10(6) == 1000000);
    assert(pow10(7) == 10000000);
    assert(pow10(8) == 100000000);
    assert(pow10(9) == 1000000000);
    assert(pow10(10) == 10000000000);
    assert(pow10(11) == 100000000000);
    assert(pow10(12) == 1000000000000);
    assert(pow10(13) == 10000000000000);
    assert(pow10(14) == 100000000000000);
    assert(pow10(15) == 1000000000000000);
    assert(pow10(16) == 10000000000000000);
    assert(pow10(17) == 100000000000000000);
    assert(pow10(18) == 1000000000000000000);
    assert(pow10(19) == 10000000000000000000);
    assert(pow10(20) == 100000000000000000000);
    assert(pow10(21) == 1000000000000000000000);
    assert(pow10(22) == 10000000000000000000000);
    assert(pow10(23) == 100000000000000000000000);
    assert(pow10(24) == 1000000000000000000000000);
    assert(pow10(25) == 10000000000000000000000000);
    assert(pow10(26) == 100000000000000000000000000);
    assert(pow10(27) == 1000000000000000000000000000);
    assert(pow10(28) == 10000000000000000000000000000);
    assert(pow10(29) == 100000000000000000000000000000);
    assert(pow10(30) == 1000000000000000000000000000000);
    assert(pow10(31) == 10000000000000000000000000000000);
    assert(pow10(32) == 100000000000000000000000000000000);
    assert(pow10(33) == 1000000000000000000000000000000000);
    assert(pow10(34) == 10000000000000000000000000000000000);
    assert(pow10(35) == 100000000000000000000000000000000000);
    assert(pow10(36) == 1000000000000000000000000000000000000);
}

/// The first nine significant decimal digits of `n`: the value truncated by
/// whole digits until it fits below 10⁹, together with how many digits were
/// cut off.
pub open spec fn trunc9(n: nat) -> (nat, nat)
    decreases n,
{
    if n < 1_000_000_000 {
        (n, 0)
    } else {
        let p = trunc9(n / 10);
        (p.0, p.1 + 1)
    }
}

pub proof fn lemma_trunc9_bounds(n: nat)
    ensures
        trunc9(n).0 < 1_000_000_000,
        trunc9(n).0 * pow10(trunc9(n).1) <= n < (trunc9(n).0 + 1) * pow10(trunc9(n).1),
        n >= 1_000_000_000 ==> trunc9(n).0 >= 100_000_000,
    decreases n,
{
    if n < 1_000_000_000 {
    } else {
        lemma_trunc9_bounds(n / 10);
        let (m, k) = trunc9(n / 10);
        lemma_pow10_pos(k);
        assert(n == 10 * (n as int / 10) + n as int % 10);
        assert(m * pow10(k + 1) == 10 * (m * pow10(k))) by (nonlinear_arith)
            requires pow10(k + 1) == 10 * pow10(k);
        assert((m + 1) * pow10(k + 1) == 10 * ((m + 1) * pow10(k))) by (nonlinear_arith)
            requires pow10(k + 1) == 10 * pow10(k);
        assert(n / 10 >= 100_000_000);
        if n / 10 < 1_000_000_000 {
            assert(m == n / 10);
        }
    }
}

/// Floor of num/den scaled by 10^j (j may be negative).
pub open spec fn scaled_floor(num: int, den: int, j: int) -> int {
    if j >= 0 {
        (num * pow10(j as nat)) / den
    } else {
        num / (den * pow10((-j) as nat))
    }
}

/// For d in [0, 10): (10*n + d) / 10 == n.
pub proof fn lemma_append_digit_div(n: int, d: int)
    requires
        n >= 0,
        0 <= d < 10,
    ensures
        (10 * n + d) / 10 == n,
{
    lemma_fundamental_div_mod_converse(10 * n + d, 10, n, d);
}

/// x / d >= c  <==>  x >= c * d, for positive d.
pub proof fn lemma_div_ge_iff(x: int, d: int, c: int)
    requires
        x >= 0,
        d >= 1,
        c >= 0,
    ensures
        x / d >= c <==> x >= c * d,
{
    vstd::arithmetic::div_mod::lemma_fundamental_div_mod(x, d);
    vstd::arithmetic::div_mod::lemma_mod_bound(x, d);
    let q = x / d;
    let r = x % d;
    assert(q >= c <==> d * q + r >= c * d) by (nonlinear_arith)
        requires
            0 <= r < d,
            d >= 1,
            c >= 0,
            q >= 0,
    ;
}

pub proof fn lemma_div_positive_decreases(x: int, d: int)
    requires
        x >= 1,
        d >= 2,
    ensures
        x / d < x,
        x / d >= 0,
{
    lemma_div_decreases(x, d);
    vstd::arithmetic::div_mod::lemma_div_pos_is_pos(x, d);
}

/// Multiplying two values bounded by 10⁹ keeps the product under 10¹⁸.
pub proof fn lemma_mul_bound9(a: int, b: int)
    requires
        0 <= a < 1_000_000_000,
        0 <= b < 1_000_000_000,
    ensures
        a * b < 1_000_000_000_000_000_000,
        a * b >= 0,
        (a >= 1 && b >= 1) ==> a * b >= 1,
{
    assert(a * b < 1_000_000_000_000_000_000 && a * b >= 0 && ((a >= 1 && b >= 1) ==> a * b >= 1))
        by (nonlinear_arith)
        requires 0 <= a < 1_000_000_000, 0 <= b < 1_000_000_000;
}

} // verus!
