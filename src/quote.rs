use vstd::prelude::*;
use vstd::arithmetic::div_mod::{lemma_div_is_ordered, lemma_div_multiples_vanish, lemma_div_denominator, lemma_fundamental_div_mod};
use vstd::arithmetic::mul::{lemma_mul_inequality, lemma_mul_is_commutative};
use cosmwasm_std::{Decimal256, Uint128, Uint256};

verus! {

/// The unsigned number that a big-endian byte string spells.
pub open spec fn be_value(b: Seq<u8>) -> nat
    decreases b.len(),
{
    if b.len() == 0 {
        0
    } else {
        (be_value(b.drop_last()) * 256 + b.last()) as nat
    }
}

/// Atomics per unit of the fixed-point decimal: eighteen fractional digits.
pub open spec fn unit() -> nat {
    1_000_000_000_000_000_000
}

/// One more than the largest value of 256 bits.
pub open spec fn wide_limit() -> nat {
    (u128::MAX as nat + 1) * (u128::MAX as nat + 1)
}

/// A non-negative fixed-point decimal of 256 bits, held as the big-endian bytes
/// of its atomics (the value times 10^18).
#[derive(Clone, Copy)]
pub struct WideDecimal {
    pub atomics: [u8; 32],
}

impl WideDecimal {
    pub open spec fn value(&self) -> nat {
        be_value(self.atomics@)
    }
}

/// Relies on Decimal256::from_ratio: numerator * 10^18 / denominator in atomics,
/// rounded down; it panics only on a zero denominator here.
#[verifier::external_body]
fn dec_from_ratio(numerator: u128, denominator: u128) -> (r: WideDecimal)
    requires
        denominator > 0,
    ensures
        r.value() == (numerator as nat) * unit() / (denominator as nat),
{
    WideDecimal { atomics: Decimal256::from_ratio(numerator, denominator).atomics().to_be_bytes() }
}

/// Relies on Decimal256's `+`: the sum of the atomics, panicking past 256 bits.
#[verifier::external_body]
fn dec_add(a: WideDecimal, b: WideDecimal) -> (r: WideDecimal)
    requires
        a.value() + b.value() < wide_limit(),
    ensures
        r.value() == a.value() + b.value(),
{
    let x = Decimal256::new(Uint256::from_be_bytes(a.atomics));
    let y = Decimal256::new(Uint256::from_be_bytes(b.atomics));
    WideDecimal { atomics: (x + y).atomics().to_be_bytes() }
}

/// Relies on Decimal256's `-`: the difference of the atomics, panicking below zero.
#[verifier::external_body]
fn dec_sub(a: WideDecimal, b: WideDecimal) -> (r: WideDecimal)
    requires
        a.value() >= b.value(),
    ensures
        r.value() == a.value() - b.value(),
{
    let x = Decimal256::new(Uint256::from_be_bytes(a.atomics));
    let y = Decimal256::new(Uint256::from_be_bytes(b.atomics));
    WideDecimal { atomics: (x - y).atomics().to_be_bytes() }
}

/// Relies on Decimal256's `*`: a * b / 10^18 in atomics, rounded down, computed
/// in 512 bits and panicking where the result passes 256 bits.
#[verifier::external_body]
fn dec_mul(a: WideDecimal, b: WideDecimal) -> (r: WideDecimal)
    requires
        a.value() * b.value() / unit() < wide_limit(),
    ensures
        r.value() == a.value() * b.value() / unit(),
{
    let x = Decimal256::new(Uint256::from_be_bytes(a.atomics));
    let y = Decimal256::new(Uint256::from_be_bytes(b.atomics));
    WideDecimal { atomics: (x * y).atomics().to_be_bytes() }
}

/// Relies on Decimal256's `/`: a * 10^18 / b in atomics, rounded down, panicking
/// on a zero divisor or a result past 256 bits.
#[verifier::external_body]
fn dec_div(a: WideDecimal, b: WideDecimal) -> (r: WideDecimal)
    requires
        b.value() > 0,
        a.value() * unit() / b.value() < wide_limit(),
    ensures
        r.value() == a.value() * unit() / b.value(),
{
    let x = Decimal256::new(Uint256::from_be_bytes(a.atomics));
    let y = Decimal256::new(Uint256::from_be_bytes(b.atomics));
    WideDecimal { atomics: (x / y).atomics().to_be_bytes() }
}

/// Relies on Decimal256::sqrt: where atomics * 10^18 fits in 256 bits it takes
/// the full precision, the integer square root of atomics * 10^18.
#[verifier::external_body]
fn dec_sqrt(a: WideDecimal) -> (r: WideDecimal)
    requires
        a.value() * unit() < wide_limit(),
    ensures
        r.value() * r.value() <= a.value() * unit(),
        a.value() * unit() < (r.value() + 1) * (r.value() + 1),
{
    WideDecimal {
        atomics: Decimal256::new(Uint256::from_be_bytes(a.atomics)).sqrt().atomics().to_be_bytes(),
    }
}

/// Relies on Decimal256::to_uint_floor and Uint128's TryFrom<Uint256>: the
/// whole part, where it fits in 128 bits.
#[verifier::external_body]
fn dec_floor(a: WideDecimal) -> (r: Option<u128>)
    ensures
        a.value() / unit() <= u128::MAX ==> r == Some((a.value() / unit()) as u128),
        a.value() / unit() > u128::MAX ==> r.is_none(),
{
    let whole = Decimal256::new(Uint256::from_be_bytes(a.atomics)).to_uint_floor();
    Uint128::try_from(whole).ok().map(|v| v.u128())
}

/// The integer square root: the largest r with r * r <= n.
pub open spec fn floor_sqrt(n: nat) -> nat
    decreases n,
{
    if n == 0 {
        0
    } else {
        let r = floor_sqrt((n - 1) as nat);
        if (r + 1) * (r + 1) <= n {
            r + 1
        } else {
            r
        }
    }
}

pub proof fn lemma_floor_sqrt_bounds(n: nat)
    ensures
        floor_sqrt(n) * floor_sqrt(n) <= n,
        n < (floor_sqrt(n) + 1) * (floor_sqrt(n) + 1),
    decreases n,
{
    if n == 0 {
        let f = floor_sqrt(n);
        assert(f == 0);
        assert(n < (f + 1) * (f + 1)) by (nonlinear_arith)
            requires
                f == 0,
                n == 0,
        ;
    } else {
        lemma_floor_sqrt_bounds((n - 1) as nat);
        let r = floor_sqrt((n - 1) as nat);
        if (r + 1) * (r + 1) <= n {
            assert(floor_sqrt(n) == r + 1);
            assert(n < (r + 2) * (r + 2)) by (nonlinear_arith)
                requires
                    (n - 1) < (r + 1) * (r + 1),
                    (r + 1) * (r + 1) <= n,
            ;
            let f = floor_sqrt(n);
            assert(n < (f + 1) * (f + 1)) by (nonlinear_arith)
                requires
                    f == r + 1,
                    n < (r + 2) * (r + 2),
            ;
        } else {
            assert(floor_sqrt(n) == r);
            assert(r * r <= n);
            assert(n < (floor_sqrt(n) + 1) * (floor_sqrt(n) + 1));
        }
    }
}

pub proof fn lemma_floor_sqrt_unique(n: nat, r: nat)
    requires
        r * r <= n,
        n < (r + 1) * (r + 1),
    ensures
        floor_sqrt(n) == r,
{
    lemma_floor_sqrt_bounds(n);
    let s = floor_sqrt(n);
    if s < r {
        assert((s + 1) * (s + 1) <= r * r) by (nonlinear_arith)
            requires
                s + 1 <= r,
        ;
    } else if r < s {
        assert((r + 1) * (r + 1) <= s * s) by (nonlinear_arith)
            requires
                r + 1 <= s,
        ;
    }
}

pub proof fn lemma_floor_sqrt_monotone(a: nat, b: nat)
    requires
        a <= b,
    ensures
        floor_sqrt(a) <= floor_sqrt(b),
{
    lemma_floor_sqrt_bounds(a);
    lemma_floor_sqrt_bounds(b);
    let x = floor_sqrt(a);
    let y = floor_sqrt(b);
    if y < x {
        assert((y + 1) * (y + 1) <= x * x) by (nonlinear_arith)
            requires
                y + 1 <= x,
        ;
    }
}

/// The receive rate (10000 - fee) / 10000 in atomics.
pub open spec fn receive_rate(fee_bps: nat) -> nat {
    ((10000 - fee_bps) * unit() / 10000) as nat
}

/// The radicand of the quadratic solution, in atomics:
/// (1 + r)^2 + 4 r * input / reserve.
pub open spec fn radicand(input: nat, reserve: nat, fee_bps: nat) -> nat {
    let r = receive_rate(fee_bps);
    let c = unit() + r;
    c * c / unit() + (4 * unit()) * r / unit() * (input * unit() / reserve) / unit()
}

/// The part of `input` to swap before a balanced two-asset deposit into a
/// constant-product pool with `reserve` of the input asset and a fee of
/// `fee_bps`: reserve * (sqrt((1 + r)^2 + 4 r * input / reserve) - 1 - r) / 2 with
/// r = (10000 - fee_bps) / 10000, each step in 18-digit fixed point rounded down,
/// and the result rounded down to a whole unit. An empty reserve gives zero.
pub open spec fn optimal_swap_amount(input: nat, reserve: nat, fee_bps: nat) -> nat {
    if reserve == 0 {
        0
    } else {
        let r = receive_rate(fee_bps);
        let q = floor_sqrt(radicand(input, reserve, fee_bps) * unit());
        let y = (q - unit() - r) as nat;
        let half = y * unit() / (2 * unit());
        half * (reserve * unit()) / unit() / unit()
    }
}

proof fn lemma_rate_facts(fee_bps: nat)
    requires
        fee_bps <= 10000,
    ensures
        receive_rate(fee_bps) == (10000 - fee_bps) * 100_000_000_000_000,
        receive_rate(fee_bps) <= unit(),
        (unit() + receive_rate(fee_bps)) * (unit() + receive_rate(fee_bps)) / unit() * unit() == (
        unit() + receive_rate(fee_bps)) * (unit() + receive_rate(fee_bps)),
        (4 * unit()) * receive_rate(fee_bps) / unit() == 4 * receive_rate(fee_bps),
{
    let k: nat = (10000 - fee_bps) as nat;
    assert(k * unit() == (k * 100_000_000_000_000) * 10000) by (nonlinear_arith);
    lemma_div_multiples_vanish((k * 100_000_000_000_000) as int, 10000);
    lemma_mul_is_commutative((k * 100_000_000_000_000) as int, 10000);
    let r = receive_rate(fee_bps);
    let j: nat = 10000 + k;
    let c = unit() + r;
    assert(c == j * 100_000_000_000_000);
    assert(c * c == (j * j * 10_000_000_000) * unit()) by (nonlinear_arith)
        requires
            c == j * 100_000_000_000_000,
    ;
    lemma_div_multiples_vanish((j * j * 10_000_000_000) as int, unit() as int);
    lemma_mul_is_commutative((j * j * 10_000_000_000) as int, unit() as int);
    assert((4 * unit()) * r == (4 * r) * unit()) by (nonlinear_arith);
    lemma_div_multiples_vanish((4 * r) as int, unit() as int);
    lemma_mul_is_commutative((4 * r) as int, unit() as int);
}

/// The swap amount never exceeds the input, and the radicand stays within 256
/// bits after scaling by 10^18.
proof fn lemma_swap_bounds(input: nat, reserve: nat, fee_bps: nat)
    requires
        fee_bps <= 10000,
        input <= u128::MAX,
        0 < reserve <= u128::MAX,
    ensures
        radicand(input, reserve, fee_bps) * unit() < wide_limit(),
        floor_sqrt(radicand(input, reserve, fee_bps) * unit()) >= unit() + receive_rate(fee_bps),
        floor_sqrt(radicand(input, reserve, fee_bps) * unit()) <= u128::MAX,
        optimal_swap_amount(input, reserve, fee_bps) <= input,
{
    lemma_rate_facts(fee_bps);
    let e = unit();
    let r = receive_rate(fee_bps);
    let c = e + r;
    let sq = c * c / e;
    let ratio = input * e / reserve;
    let fr = 4 * r;
    let t = fr * ratio / e;
    let x = radicand(input, reserve, fee_bps);
    assert(x == sq + t);
    // ratio <= input * e
    lemma_div_is_ordered((input * e) as int, (input * e) as int, 1);
    assert(ratio <= input * e) by {
        lemma_div_is_ordered_by_denominator_local(input * e, reserve);
    }
    assert(fr * ratio <= (4 * e) * (input * e)) by (nonlinear_arith)
        requires
            fr <= 4 * e,
            ratio <= input * e,
    ;
    lemma_div_is_ordered((fr * ratio) as int, ((4 * e) * (input * e)) as int, e as int);
    assert((4 * e) * (input * e) == (4 * e * input) * e) by (nonlinear_arith);
    lemma_div_multiples_vanish((4 * e * input) as int, e as int);
    lemma_mul_is_commutative((4 * e * input) as int, e as int);
    assert(t <= 4 * e * input);
    assert(sq <= 4 * e) by {
        assert(c * c <= (2 * e) * (2 * e)) by (nonlinear_arith)
            requires
                c <= 2 * e,
        ;
        lemma_div_is_ordered((c * c) as int, ((2 * e) * (2 * e)) as int, e as int);
        assert((2 * e) * (2 * e) == (4 * e) * e) by (nonlinear_arith);
        lemma_div_multiples_vanish((4 * e) as int, e as int);
        lemma_mul_is_commutative((4 * e) as int, e as int);
    }
    assert(x * e < wide_limit()) by (nonlinear_arith)
        requires
            x <= 4 * e + 4 * e * input,
            input <= u128::MAX,
            e == 1_000_000_000_000_000_000nat,
    ;
    let n = x * e;
    lemma_floor_sqrt_bounds(n);
    let q = floor_sqrt(n);
    assert(sq * e == c * c);
    assert(n == c * c + t * e) by (nonlinear_arith)
        requires
            n == x * e,
            x == sq + t,
            sq * e == c * c,
    ;
    // q >= c
    if q < c {
        assert((q + 1) * (q + 1) <= c * c) by (nonlinear_arith)
            requires
                q + 1 <= c,
        ;
    }
    // q <= u128::MAX
    if q > u128::MAX {
        assert(q * q >= (u128::MAX as nat + 1) * (u128::MAX as nat + 1)) by (nonlinear_arith)
            requires
                q >= u128::MAX as nat + 1,
        ;
    }
    // swap amount <= input
    let y = (q - e - r) as nat;
    assert(y == q - c);
    assert(y * (2 * e) <= t * e) by (nonlinear_arith)
        requires
            q * q <= c * c + t * e,
            y == q - c,
            q >= c,
            c >= e,
    ;
    assert(y * e == (2 * y) * e / 2) by (nonlinear_arith);
    let half = y * e / (2 * e);
    lemma_div_denominator((y * e) as int, e as int, 2);
    lemma_mul_is_commutative(e as int, 2);
    lemma_div_multiples_vanish(y as int, e as int);
    lemma_mul_is_commutative(y as int, e as int);
    assert(half == y / 2);
    assert(2 * y <= t) by (nonlinear_arith)
        requires
            y * (2 * e) <= t * e,
            e > 0,
    ;
    assert(t <= 4 * ratio) by {
        assert(fr * ratio <= (4 * ratio) * e) by (nonlinear_arith)
            requires
                fr == 4 * r,
                r <= e,
        ;
        lemma_div_is_ordered((fr * ratio) as int, ((4 * ratio) * e) as int, e as int);
        lemma_div_multiples_vanish((4 * ratio) as int, e as int);
        lemma_mul_is_commutative((4 * ratio) as int, e as int);
    }
    lemma_fundamental_div_mod(y as int, 2);
    assert(half <= ratio);
    let m = half * (reserve * e) / e;
    assert(half * (reserve * e) == (half * reserve) * e) by (nonlinear_arith);
    lemma_div_multiples_vanish((half * reserve) as int, e as int);
    lemma_mul_is_commutative((half * reserve) as int, e as int);
    assert(m == half * reserve);
    lemma_fundamental_div_mod((input * e) as int, reserve as int);
    assert(ratio * reserve <= input * e);
    assert(m <= input * e) by (nonlinear_arith)
        requires
            m == half * reserve,
            half <= ratio,
            ratio * reserve <= input * e,
    ;
    lemma_div_is_ordered(m as int, (input * e) as int, e as int);
    lemma_div_multiples_vanish(input as int, e as int);
    lemma_mul_is_commutative(input as int, e as int);
}

proof fn lemma_div_is_ordered_by_denominator_local(x: nat, d: nat)
    requires
        d >= 1,
    ensures
        x / d <= x,
{
    lemma_fundamental_div_mod(x as int, d as int);
    assert(x / d <= x) by (nonlinear_arith)
        requires
            x == d * (x / d) + x % d,
            x % d >= 0,
            d >= 1,
            x / d >= 0,
    ;
}

/// The amount to swap before a single-asset deposit: see `optimal_swap_amount`.
pub fn calculate_swap_amount(input_amount: u128, reserve_in: u128, fee_bps: u16) -> (r: u128)
    requires
        fee_bps <= 10000,
    ensures
        r == optimal_swap_amount(input_amount as nat, reserve_in as nat, fee_bps as nat),
        r <= input_amount,
{
    if reserve_in == 0 {
        return 0;
    }
    proof {
        lemma_rate_facts(fee_bps as nat);
        lemma_swap_bounds(input_amount as nat, reserve_in as nat, fee_bps as nat);
    }
    let ghost e = unit();
    assert(e == 1_000_000_000_000_000_000nat);
    assert(((4 * e) * e) * 1000 < wide_limit()) by (nonlinear_arith)
        requires
            e == 1_000_000_000_000_000_000nat,
    ;
    let receive = dec_from_ratio((10000 - fee_bps) as u128, 10000);
    assert(receive.value() == receive_rate(fee_bps as nat));
    assert(receive.value() <= e);
    let one = dec_from_ratio(1, 1);
    assert(one.value() == e);
    let one_plus = dec_add(one, receive);
    assert(one_plus.value() * one_plus.value() <= (2 * e) * (2 * e)) by (nonlinear_arith)
        requires
            one_plus.value() <= 2 * e,
    ;
    assert(one_plus.value() * one_plus.value() / e < wide_limit()) by {
        lemma_div_is_ordered_by_denominator_local(one_plus.value() * one_plus.value(), e);
    }
    let squared = dec_mul(one_plus, one_plus);
    let four = dec_from_ratio(4, 1);
    assert(four.value() == 4 * e);
    assert(four.value() * receive.value() / e < wide_limit()) by {
        lemma_div_is_ordered_by_denominator_local(four.value() * receive.value(), e);
        assert(four.value() * receive.value() <= (4 * e) * e) by (nonlinear_arith)
            requires
                four.value() == 4 * e,
                receive.value() <= e,
        ;
    }
    let four_r = dec_mul(four, receive);
    let ratio = dec_from_ratio(input_amount, reserve_in);
    let ghost x = radicand(input_amount as nat, reserve_in as nat, fee_bps as nat);
    assert(four_r.value() * ratio.value() / e <= x);
    let spread = dec_mul(four_r, ratio);
    let radicand_value = dec_add(squared, spread);
    assert(radicand_value.value() == x);
    let root = dec_sqrt(radicand_value);
    proof {
        lemma_floor_sqrt_unique(x * e, root.value());
    }
    let less_one = dec_sub(root, one);
    let y = dec_sub(less_one, receive);
    let two = dec_from_ratio(2, 1);
    assert(y.value() * e / two.value() <= y.value()) by {
        lemma_div_is_ordered_by_denominator_local(y.value() * e, 2 * e);
        lemma_div_denominator((y.value() * e) as int, e as int, 2);
        lemma_mul_is_commutative(e as int, 2);
        lemma_div_multiples_vanish(y.value() as int, e as int);
        lemma_mul_is_commutative(y.value() as int, e as int);
        lemma_div_is_ordered_by_denominator_local(y.value(), 2);
    }
    let half = dec_div(y, two);
    let reserve = dec_from_ratio(reserve_in, 1);
    assert(half.value() * reserve.value() / e < wide_limit()) by {
        assert(half.value() * reserve.value() == (half.value() * reserve_in) * e) by (nonlinear_arith)
            requires
                reserve.value() == reserve_in * e,
        ;
        lemma_div_multiples_vanish((half.value() * reserve_in) as int, e as int);
        lemma_mul_is_commutative((half.value() * reserve_in) as int, e as int);
        assert(half.value() * reserve_in < wide_limit()) by (nonlinear_arith)
            requires
                half.value() <= u128::MAX,
                reserve_in <= u128::MAX,
        ;
    }
    let scaled = dec_mul(half, reserve);
    let whole = dec_floor(scaled);
    whole.unwrap()
}

/// The swap amount is zero for a zero input and never decreases as the input
/// grows, whatever the reserve and the fee.
pub proof fn lemma_swap_amount_monotone(a: nat, b: nat, reserve: nat, fee_bps: nat)
    requires
        a <= b,
        fee_bps <= 10000,
    ensures
        optimal_swap_amount(0, reserve, fee_bps) == 0,
        optimal_swap_amount(a, reserve, fee_bps) <= optimal_swap_amount(b, reserve, fee_bps),
{
    if reserve > 0 {
        lemma_rate_facts(fee_bps);
        let e = unit();
        let r = receive_rate(fee_bps);
        let c = e + r;
        // zero input: the radicand is exactly (1 + r)^2
        assert(0 * e / reserve == 0);
        assert((4 * e) * r / e * 0 == 0);
        assert(radicand(0, reserve, fee_bps) == c * c / e);
        assert(radicand(0, reserve, fee_bps) * e == c * c);
        assert(c * c < (c + 1) * (c + 1)) by (nonlinear_arith);
        lemma_floor_sqrt_unique(c * c, c);
        assert(floor_sqrt(radicand(0, reserve, fee_bps) * e) == c);
        assert(0 * e / (2 * e) == 0);
        assert(0 * (reserve * e) / e / e == 0);
        assert(optimal_swap_amount(0, reserve, fee_bps) == 0);
        // monotone in the input
        let fr = 4 * r;
        lemma_div_is_ordered((a * e) as int, (b * e) as int, reserve as int);
        let ra = a * e / reserve;
        let rb = b * e / reserve;
        lemma_mul_inequality(ra as int, rb as int, fr as int);
        lemma_mul_is_commutative(ra as int, fr as int);
        lemma_mul_is_commutative(rb as int, fr as int);
        lemma_div_is_ordered((fr * ra) as int, (fr * rb) as int, e as int);
        let xa = radicand(a, reserve, fee_bps);
        let xb = radicand(b, reserve, fee_bps);
        assert(xa <= xb);
        lemma_mul_inequality(xa as int, xb as int, e as int);
        lemma_floor_sqrt_monotone(xa * e, xb * e);
        let qa = floor_sqrt(xa * e);
        let qb = floor_sqrt(xb * e);
        // each radicand is at least (1 + r)^2, so each root at least 1 + r
        lemma_floor_sqrt_monotone(c * c, xa * e);
        let ya = (qa - e - r) as nat;
        let yb = (qb - e - r) as nat;
        assert(ya <= yb);
        lemma_mul_inequality(ya as int, yb as int, e as int);
        lemma_div_is_ordered((ya * e) as int, (yb * e) as int, (2 * e) as int);
        let ha = ya * e / (2 * e);
        let hb = yb * e / (2 * e);
        lemma_mul_inequality(ha as int, hb as int, (reserve * e) as int);
        lemma_div_is_ordered((ha * (reserve * e)) as int, (hb * (reserve * e)) as int, e as int);
        lemma_div_is_ordered(
            (ha * (reserve * e) / e) as int,
            (hb * (reserve * e) / e) as int,
            e as int,
        );
    }
}

} // verus!
