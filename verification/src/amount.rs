//! Amounts. Every price, quantity and balance is a `rust_decimal::Decimal`,
//! held here as its mantissa and scale (the value is `m / 10^s`). Text is
//! read and written by `rust_decimal`, values are compared by it, and sums,
//! differences and products are its `checked_add`, `checked_sub` and
//! `checked_mul`: exactly the sum, difference or product where the result
//! keeps its scale, the rounded result `rust_decimal` gives otherwise.
use vstd::prelude::*;

verus! {

/// A decimal number: mantissa `m` and scale `s`, the value `m / 10^s`.
#[derive(Debug, Clone, Copy, PartialEq, Eq, Structural)]
pub struct Dec {
    pub m: i128,
    pub s: u32,
}

/// The largest mantissa magnitude a `Decimal` holds: 2^96 - 1.
pub const DEC_MAX: i128 = 79228162514264337593543950335i128;

/// The largest scale a `Decimal` holds.
pub const MAX_SCALE: u32 = 28u32;

/// `v` is a mantissa that a `Decimal` can hold.
pub open spec fn dec_ok(v: int) -> bool {
    -(DEC_MAX as int) <= v <= DEC_MAX as int
}

/// `d` is a `Decimal`.
pub open spec fn valid(d: Dec) -> bool {
    dec_ok(d.m as int) && d.s <= MAX_SCALE
}

/// Ten to the power `e`.
pub open spec fn pow10(e: nat) -> int
    decreases e,
{
    if e == 0 {
        1
    } else {
        10 * pow10((e - 1) as nat)
    }
}

/// The value of `d` in units of 10^-28, the finest a `Decimal` resolves.
#[verifier::opaque]
pub open spec fn val(d: Dec) -> int {
    d.m * pow10((MAX_SCALE - d.s) as nat)
}

/// Zero, as `Decimal::from(0)` makes it.
pub open spec fn zero() -> Dec {
    Dec { m: 0, s: 0 }
}

/// The whole number `v`, as `Decimal::from(v)` makes it.
pub open spec fn whole(v: int) -> Dec {
    Dec { m: v as i128, s: 0 }
}

/// The larger of two scales: the scale of a sum or a difference.
pub open spec fn smax(a: u32, b: u32) -> u32 {
    if a >= b {
        a
    } else {
        b
    }
}

/// The mantissa of `d` brought to the larger scale `s`.
pub open spec fn up(d: Dec, s: u32) -> int {
    d.m * pow10((s - d.s) as nat)
}

/// The mantissa of the exact sum at the larger scale.
pub open spec fn sum_m(a: Dec, b: Dec) -> int {
    up(a, smax(a.s, b.s)) + up(b, smax(a.s, b.s))
}

/// The mantissa of the exact difference at the larger scale.
pub open spec fn diff_m(a: Dec, b: Dec) -> int {
    up(a, smax(a.s, b.s)) - up(b, smax(a.s, b.s))
}

/// `a + b` as `Decimal` computes it: a zero operand gives the other one
/// back; otherwise the exact sum at the larger scale.
pub open spec fn dadd(a: Dec, b: Dec) -> Dec {
    if a.m == 0 {
        b
    } else if b.m == 0 {
        a
    } else {
        Dec { m: sum_m(a, b) as i128, s: smax(a.s, b.s) }
    }
}

/// `Decimal` computes `a + b` at the larger scale (where the sum's mantissa
/// leaves 96 bits it lowers the scale, rounding).
pub open spec fn dadd_ok(a: Dec, b: Dec) -> bool {
    a.m == 0 || b.m == 0 || dec_ok(sum_m(a, b))
}

/// `a - b` as `Decimal` computes it: from zero, `b` negated; less zero,
/// `a`; otherwise the exact difference at the larger scale.
pub open spec fn dsub(a: Dec, b: Dec) -> Dec {
    if a.m == 0 {
        Dec { m: (-b.m) as i128, s: b.s }
    } else if b.m == 0 {
        a
    } else {
        Dec { m: diff_m(a, b) as i128, s: smax(a.s, b.s) }
    }
}

/// `Decimal` computes `a - b` exactly.
pub open spec fn dsub_ok(a: Dec, b: Dec) -> bool {
    a.m == 0 || b.m == 0 || dec_ok(diff_m(a, b))
}

/// `a * b` as `Decimal` computes it: zero (of scale 0) where an operand is
/// zero; otherwise the product of the mantissas at the sum of the scales.
pub open spec fn dmul(a: Dec, b: Dec) -> Dec {
    if a.m == 0 || b.m == 0 {
        zero()
    } else {
        Dec { m: (a.m * b.m) as i128, s: (a.s + b.s) as u32 }
    }
}

/// `Decimal` computes `a * b` exactly (it rounds where the scale passes 28
/// or the mantissa leaves 96 bits).
pub open spec fn dmul_ok(a: Dec, b: Dec) -> bool {
    a.m == 0 || b.m == 0 || (a.s + b.s <= MAX_SCALE && dec_ok(a.m * b.m))
}

/// Ten to a sum is the product of the powers.
pub proof fn lemma_pow10_add(a: nat, b: nat)
    ensures
        pow10(a + b) == pow10(a) * pow10(b),
    decreases b,
{
    if b > 0 {
        lemma_pow10_add(a, (b - 1) as nat);
        assert(pow10(a + b) == 10 * pow10((a + b - 1) as nat));
        assert(pow10((a + b - 1) as nat) == pow10(a) * pow10((b - 1) as nat));
        assert(10 * (pow10(a) * pow10((b - 1) as nat)) == pow10(a) * (10 * pow10((b - 1) as nat)))
            by (nonlinear_arith);
    }
}

/// Powers of ten grow with the exponent.
pub proof fn lemma_pow10_mono(i: nat, j: nat)
    requires
        i <= j,
    ensures
        1 <= pow10(i) <= pow10(j),
    decreases j,
{
    if j > i {
        lemma_pow10_mono(i, (j - 1) as nat);
    } else if i > 0 {
        lemma_pow10_mono((i - 1) as nat, (i - 1) as nat);
    }
}

/// The powers of ten up to the largest scale.
pub proof fn lemma_pow10_bounds(e: nat)
    requires
        e <= 28,
    ensures
        1 <= pow10(e) <= 10000000000000000000000000000,
{
    lemma_pow10_mono(e, 28);
    reveal_with_fuel(pow10, 29);
}

/// The value of a decimal is its mantissa brought to any larger scale, in
/// units of that scale.
proof fn lemma_val_up(d: Dec, s: u32)
    requires
        d.s <= s <= MAX_SCALE,
    ensures
        val(d) == up(d, s) * pow10((MAX_SCALE - s) as nat),
{
    reveal(val);
    lemma_pow10_add((s - d.s) as nat, (MAX_SCALE - s) as nat);
    assert((s - d.s) as nat + (MAX_SCALE - s) as nat == (MAX_SCALE - d.s) as nat);
    assert(d.m * (pow10((s - d.s) as nat) * pow10((MAX_SCALE - s) as nat)) == (d.m * pow10((s - d.s) as nat))
        * pow10((MAX_SCALE - s) as nat)) by (nonlinear_arith);
}

/// The sign of a value is the sign of its mantissa.
pub broadcast proof fn lemma_val_sign(d: Dec)
    requires
        d.s <= MAX_SCALE,
    ensures
        (#[trigger] val(d) == 0) <==> d.m == 0,
        val(d) > 0 <==> d.m > 0,
        val(d) < 0 <==> d.m < 0,
{
    reveal(val);
    lemma_pow10_bounds((MAX_SCALE - d.s) as nat);
    let p = pow10((MAX_SCALE - d.s) as nat);
    assert(val(d) == d.m * p);
    assert(d.m == 0 ==> d.m * p == 0) by (nonlinear_arith);
    assert(d.m > 0 ==> d.m * p > 0) by (nonlinear_arith)
        requires p >= 1;
    assert(d.m < 0 ==> d.m * p < 0) by (nonlinear_arith)
        requires p >= 1;
}

/// A sum that `Decimal` computes exactly is a `Decimal` whose value is the
/// sum of the values.
pub broadcast proof fn lemma_dadd(a: Dec, b: Dec)
    requires
        valid(a),
        valid(b),
        dadd_ok(a, b),
    ensures
        valid(#[trigger] dadd(a, b)),
        val(dadd(a, b)) == val(a) + val(b),
{
    reveal(val);
    lemma_val_sign(a);
    lemma_val_sign(b);
    if a.m != 0 && b.m != 0 {
        let s = smax(a.s, b.s);
        lemma_val_up(a, s);
        lemma_val_up(b, s);
        let p = pow10((MAX_SCALE - s) as nat);
        assert(up(a, s) * p + up(b, s) * p == (up(a, s) + up(b, s)) * p) by (nonlinear_arith);
    }
}

/// A difference that `Decimal` computes exactly is a `Decimal` whose value
/// is the difference of the values.
pub broadcast proof fn lemma_dsub(a: Dec, b: Dec)
    requires
        valid(a),
        valid(b),
        dsub_ok(a, b),
    ensures
        valid(#[trigger] dsub(a, b)),
        val(dsub(a, b)) == val(a) - val(b),
{
    reveal(val);
    lemma_val_sign(a);
    lemma_val_sign(b);
    if a.m == 0 {
        let p = pow10((MAX_SCALE - b.s) as nat);
        assert((-b.m) * p == -(b.m * p)) by (nonlinear_arith);
    } else if b.m != 0 {
        let s = smax(a.s, b.s);
        lemma_val_up(a, s);
        lemma_val_up(b, s);
        let p = pow10((MAX_SCALE - s) as nat);
        assert(up(a, s) * p - up(b, s) * p == (up(a, s) - up(b, s)) * p) by (nonlinear_arith);
    }
}

/// A product that `Decimal` computes exactly is a `Decimal` whose value,
/// in units of 10^-56, is the product of the values.
pub broadcast proof fn lemma_dmul(a: Dec, b: Dec)
    requires
        valid(a),
        valid(b),
        dmul_ok(a, b),
    ensures
        valid(#[trigger] dmul(a, b)),
        val(dmul(a, b)) * pow10(MAX_SCALE as nat) == val(a) * val(b),
{
    reveal(val);
    lemma_val_sign(a);
    lemma_val_sign(b);
    if a.m != 0 && b.m != 0 {
        let ea = (MAX_SCALE - a.s) as nat;
        let eb = (MAX_SCALE - b.s) as nat;
        let e = (MAX_SCALE - (a.s + b.s)) as nat;
        let d = dmul(a, b);
        assert(d.m as int == a.m * b.m);
        assert(d.s as int == a.s + b.s);
        assert(val(d) == (a.m * b.m) * pow10(e));
        lemma_pow10_add(e, MAX_SCALE as nat);
        lemma_pow10_add(ea, eb);
        assert(e + MAX_SCALE as nat == ea + eb);
        assert(pow10(e) * pow10(MAX_SCALE as nat) == pow10(ea) * pow10(eb));
        assert((a.m * b.m) * pow10(e) * pow10(MAX_SCALE as nat) == (a.m * b.m) * (pow10(e) * pow10(
            MAX_SCALE as nat,
        ))) by (nonlinear_arith);
        assert((a.m * pow10(ea)) * (b.m * pow10(eb)) == (a.m * b.m) * (pow10(ea) * pow10(eb)))
            by (nonlinear_arith);
    } else {
        let p = pow10(MAX_SCALE as nat);
        assert(0 * p == 0) by (nonlinear_arith);
        assert(val(zero()) == 0);
        assert(val(a) * val(b) == 0) by (nonlinear_arith)
            requires val(a) == 0 || val(b) == 0;
    }
}

/// A mantissa brought to its own scale is itself.
pub proof fn lemma_up_same(d: Dec)
    ensures
        up(d, d.s) == d.m,
{
    assert(pow10(0) == 1);
    assert(d.m * 1 == d.m);
}

/// A positive mantissa stays positive at a larger scale.
proof fn lemma_up_pos(d: Dec, s: u32)
    requires
        d.m > 0,
        d.s <= s,
    ensures
        up(d, s) >= d.m > 0,
{
    lemma_pow10_mono(0, (s - d.s) as nat);
    let p = pow10((s - d.s) as nat);
    assert(d.m * p >= d.m) by (nonlinear_arith)
        requires d.m > 0, p >= 1;
}

/// Adding a positive amount and taking it off again gives back the value
/// (and the amount itself where the added one's scale is no larger).
pub proof fn lemma_add_sub_back(a: Dec, b: Dec)
    requires
        valid(a),
        valid(b),
        a.m > 0,
        b.m > 0,
        dadd_ok(a, b),
    ensures
        dsub_ok(dadd(a, b), b),
        val(dsub(dadd(a, b), b)) == val(a),
        dsub(dadd(a, b), b).m > 0,
        b.s <= a.s ==> dsub(dadd(a, b), b) == a,
{
    let s = smax(a.s, b.s);
    lemma_up_pos(a, s);
    lemma_up_pos(b, s);
    let x = dadd(a, b);
    assert(x.m as int == sum_m(a, b));
    assert(x.s == s);
    lemma_up_same(x);
    assert(smax(x.s, b.s) == s);
    assert(diff_m(x, b) == up(a, s));
    lemma_dadd(a, b);
    lemma_dsub(x, b);
    if b.s <= a.s {
        lemma_up_same(a);
    }
}

/// An amount less itself is zero, at its scale, with no rounding.
pub proof fn lemma_esub_self(q: Dec)
    ensures
        dsub_ok(q, q),
        esub(q, q) == dsub(q, q),
        esub(q, q).m == 0,
{
    reveal(val);
    assert(dsub(q, q).m == 0);
    assert(val(dsub(q, q)) == 0);
    assert(val(q) - val(q) == 0);
}

/// Ten to `e`, for a scale.
fn pow10_exec(e: u32) -> (r: i128)
    requires
        e <= MAX_SCALE,
    ensures
        r as int == pow10(e as nat),
        1 <= r <= 10000000000000000000000000000,
{
    let mut r: i128 = 1;
    let mut i: u32 = 0;
    proof {
        lemma_pow10_bounds(e as nat);
    }
    while i < e
        invariant
            i <= e <= MAX_SCALE,
            r as int == pow10(i as nat),
        decreases e - i,
    {
        proof {
            lemma_pow10_bounds((i + 1) as nat);
        }
        r = r * 10;
        i = i + 1;
    }
    proof {
        lemma_pow10_bounds(e as nat);
    }
    r
}

/// Whether `v` is a `Decimal` mantissa.
pub fn dec_check(v: i128) -> (b: bool)
    ensures
        b == dec_ok(v as int),
{
    -DEC_MAX <= v && v <= DEC_MAX
}

/// The value `v` (in units of 10^-28) is a `Decimal`'s: some mantissa of at
/// most 96 bits at some scale up to 28 has it.
pub open spec fn representable(v: int) -> bool {
    exists|d: Dec| valid(d) && val(d) == v
}

/// The value of `d` split at the units: `val(d) == h * 10^28 + l`, both
/// parts of the sign of `d`.
fn split_value(d: Dec) -> (r: (i128, i128))
    requires
        valid(d),
    ensures
        val(d) == r.0 * pow10(MAX_SCALE as nat) + r.1,
        -(DEC_MAX as int) <= r.0 <= DEC_MAX as int,
        -10000000000000000000000000000 < r.1 < 10000000000000000000000000000,
{
    let p = pow10_exec(d.s);
    let q = pow10_exec(MAX_SCALE - d.s);
    let mag: u128 = if d.m < 0 {
        (-d.m) as u128
    } else {
        d.m as u128
    };
    let pu = p as u128;
    let qu = q as u128;
    let h: u128 = mag / pu;
    let rem: u128 = mag % pu;
    proof {
        lemma_pow10_add(d.s as nat, (MAX_SCALE - d.s) as nat);
        assert(d.s as nat + (MAX_SCALE - d.s) as nat == MAX_SCALE as nat);
        lemma_pow10_bounds(MAX_SCALE as nat);
        reveal_with_fuel(pow10, 29);
        assert(pow10(MAX_SCALE as nat) == 10000000000000000000000000000);
        assert(pu * qu == 10000000000000000000000000000);
        assert(mag == h * pu + rem && rem < pu) by (nonlinear_arith)
            requires
                pu > 0,
                h == mag / pu,
                rem == mag % pu,
        ;
        assert(rem * qu < 10000000000000000000000000000) by (nonlinear_arith)
            requires
                rem < pu,
                qu > 0,
                pu * qu == 10000000000000000000000000000,
        ;
        assert(h <= mag) by (nonlinear_arith)
            requires
                pu >= 1,
                h == mag / pu,
        ;
        assert(mag * qu == h * 10000000000000000000000000000 + rem * qu) by (nonlinear_arith)
            requires
                mag == h * pu + rem,
                pu * qu == 10000000000000000000000000000,
        ;
        reveal(val);
        if d.m < 0 {
            assert(d.m * qu == -(mag * qu)) by (nonlinear_arith)
                requires
                    mag == -d.m,
            ;
        }
    }
    let l: u128 = rem * qu;
    if d.m < 0 {
        (-(h as i128), -(l as i128))
    } else {
        (h as i128, l as i128)
    }
}

/// Whether `val(p) + val(q) == val(t)`.
fn values_add_up(p: Dec, q: Dec, t: Dec) -> (r: bool)
    requires
        valid(p),
        valid(q),
        valid(t),
    ensures
        r == (val(p) + val(q) == val(t)),
{
    let (hp, lp) = split_value(p);
    let (hq, lq) = split_value(q);
    let (ht, lt) = split_value(t);
    let h = hp + hq - ht;
    let l = lp + lq - lt;
    let ghost big = pow10(MAX_SCALE as nat);
    proof {
        lemma_pow10_bounds(MAX_SCALE as nat);
        reveal_with_fuel(pow10, 29);
        assert(big == 10000000000000000000000000000);
        assert(val(p) + val(q) - val(t) == h * big + l) by (nonlinear_arith)
            requires
                val(p) == hp * big + lp,
                val(q) == hq * big + lq,
                val(t) == ht * big + lt,
                h == hp + hq - ht,
                l == lp + lq - lt,
        ;
    }
    if h == 0 {
        l == 0
    } else if h > 3 || h < -3 {
        proof {
            assert(h * big + l != 0) by (nonlinear_arith)
                requires
                    h > 3 || h < -3,
                    big == 10000000000000000000000000000,
                    -30000000000000000000000000000 < l < 30000000000000000000000000000,
            ;
        }
        false
    } else {
        h * 10000000000000000000000000000i128 + l == 0
    }
}

/// The sum that `rust_decimal` computes, where some `Decimal` has the exact
/// sum's value (and then `rust_decimal`'s has it); `None` where none does.
pub fn add_exactly(a: Dec, b: Dec) -> (r: Option<Dec>)
    requires
        valid(a),
        valid(b),
    ensures
        r is Some <==> representable(val(a) + val(b)),
        r matches Some(x) ==> x == eadd(a, b) && add_exact(a, b) && valid(x),
{
    proof {
        lemma_rounded_valid(a, b);
    }
    match dec_add(a, b) {
        Some(x) => if values_add_up(a, b, x) {
            Some(x)
        } else {
            None
        },
        None => None,
    }
}

/// The difference that `rust_decimal` computes, where some `Decimal` has
/// the exact difference's value (and then `rust_decimal`'s has it); `None`
/// where none does.
pub fn sub_exactly(a: Dec, b: Dec) -> (r: Option<Dec>)
    requires
        valid(a),
        valid(b),
    ensures
        r is Some <==> representable(val(a) - val(b)),
        r matches Some(x) ==> x == esub(a, b) && sub_exact(a, b) && valid(x),
{
    proof {
        lemma_rounded_valid(a, b);
    }
    match dec_sub(a, b) {
        Some(x) => if values_add_up(x, b, a) {
            Some(x)
        } else {
            None
        },
        None => None,
    }
}

/// The mantissa and scale of `rust_decimal`'s `checked_add` of the
/// `Decimal`s with mantissas and scales `a` and `b` (`None` on overflow).
pub uninterp spec fn decimal_add(a: (i128, u32), b: (i128, u32)) -> Option<(i128, u32)>;

/// The mantissa and scale of `rust_decimal`'s `checked_sub`.
pub uninterp spec fn decimal_sub(a: (i128, u32), b: (i128, u32)) -> Option<(i128, u32)>;

/// The mantissa and scale of `rust_decimal`'s `checked_mul`.
pub uninterp spec fn decimal_mul(a: (i128, u32), b: (i128, u32)) -> Option<(i128, u32)>;

/// A mantissa and scale that `rust_decimal` hands back, as an amount.
pub open spec fn as_dec(r: Option<(i128, u32)>) -> Option<Dec> {
    match r {
        Some((m, s)) => if valid(Dec { m, s }) {
            Some(Dec { m, s })
        } else {
            None
        },
        None => None,
    }
}

/// `a + b` as `rust_decimal` computes it: `dadd` where that keeps the larger
/// scale; otherwise the rounded (or overflowed) result it gives.
pub open spec fn radd(a: Dec, b: Dec) -> Option<Dec> {
    if dadd_ok(a, b) {
        Some(dadd(a, b))
    } else {
        as_dec(decimal_add((a.m, a.s), (b.m, b.s)))
    }
}

/// `a - b` as `rust_decimal` computes it (see `radd`).
pub open spec fn rsub(a: Dec, b: Dec) -> Option<Dec> {
    if dsub_ok(a, b) {
        Some(dsub(a, b))
    } else {
        as_dec(decimal_sub((a.m, a.s), (b.m, b.s)))
    }
}

/// `a * b` as `rust_decimal` computes it: `dmul` where the product keeps the
/// sum of the scales; otherwise the rounded (or overflowed) result it gives.
pub open spec fn rmul(a: Dec, b: Dec) -> Option<Dec> {
    if dmul_ok(a, b) {
        Some(dmul(a, b))
    } else {
        as_dec(decimal_mul((a.m, a.s), (b.m, b.s)))
    }
}

/// What `rust_decimal` hands back for a sum, a difference or a product of
/// two `Decimal`s is a `Decimal`.
pub proof fn lemma_rounded_valid(a: Dec, b: Dec)
    requires
        valid(a),
        valid(b),
    ensures
        radd(a, b) matches Some(x) ==> valid(x),
        rsub(a, b) matches Some(x) ==> valid(x),
        rmul(a, b) matches Some(x) ==> valid(x),
{
    if dadd_ok(a, b) {
        lemma_dadd(a, b);
    }
    if dsub_ok(a, b) {
        lemma_dsub(a, b);
    }
    if dmul_ok(a, b) {
        lemma_dmul(a, b);
    }
}

/// `rust_decimal`'s sum of `a` and `b` has the exact value of the sum.
pub open spec fn add_exact(a: Dec, b: Dec) -> bool {
    radd(a, b) matches Some(x) && val(x) == val(a) + val(b)
}

/// `rust_decimal`'s difference of `a` and `b` has the exact value.
pub open spec fn sub_exact(a: Dec, b: Dec) -> bool {
    rsub(a, b) matches Some(x) && val(x) == val(a) - val(b)
}

/// `a + b` where its exact value is a `Decimal`: what `rust_decimal`
/// computes (which then has that value), or, where its result does not have
/// it, some `Decimal` that does.
pub open spec fn eadd(a: Dec, b: Dec) -> Dec {
    if add_exact(a, b) {
        radd(a, b).unwrap()
    } else {
        choose|d: Dec| valid(d) && val(d) == val(a) + val(b)
    }
}

/// `a - b` where its exact value is a `Decimal` (see `eadd`).
pub open spec fn esub(a: Dec, b: Dec) -> Dec {
    if sub_exact(a, b) {
        rsub(a, b).unwrap()
    } else {
        choose|d: Dec| valid(d) && val(d) == val(a) - val(b)
    }
}

/// A sum whose value is a `Decimal`'s is a `Decimal` of that value.
pub proof fn lemma_eadd(a: Dec, b: Dec)
    requires
        valid(a),
        valid(b),
        representable(val(a) + val(b)),
    ensures
        valid(eadd(a, b)),
        val(eadd(a, b)) == val(a) + val(b),
{
    lemma_rounded_valid(a, b);
}

/// A difference whose value is a `Decimal`'s is a `Decimal` of that value.
pub proof fn lemma_esub(a: Dec, b: Dec)
    requires
        valid(a),
        valid(b),
        representable(val(a) - val(b)),
    ensures
        valid(esub(a, b)),
        val(esub(a, b)) == val(a) - val(b),
{
    lemma_rounded_valid(a, b);
}

/// A `Decimal`'s own value is a `Decimal`'s.
pub proof fn lemma_representable(d: Dec)
    requires
        valid(d),
    ensures
        representable(val(d)),
{
}

/// Where the sum or difference keeps the larger scale, `rust_decimal`
/// computes it exactly there.
pub proof fn lemma_exact_at_scale(a: Dec, b: Dec)
    requires
        valid(a),
        valid(b),
    ensures
        dadd_ok(a, b) ==> add_exact(a, b) && representable(val(a) + val(b)) && eadd(a, b) == dadd(a, b),
        dsub_ok(a, b) ==> sub_exact(a, b) && representable(val(a) - val(b)) && esub(a, b) == dsub(a, b),
{
    if dadd_ok(a, b) {
        lemma_dadd(a, b);
    }
    if dsub_ok(a, b) {
        lemma_dsub(a, b);
    }
}

/// Calls `rust_decimal::Decimal::checked_add` on the two `Decimal`s and
/// hands back the result's mantissa and scale. Claimed: the result is a
/// function of the two operands, always a `Decimal`; where the exact sum's
/// mantissa at the larger scale fits in 96 bits it is that sum at that scale
/// (a zero operand gives the other back); where a larger mantissa is needed
/// but some `Decimal` has the exact sum's value, the result has that value
/// (it drops only as many trailing digits as it must, and those are zeros).
#[verifier::external_body]
pub(crate) fn dec_add(a: Dec, b: Dec) -> (r: Option<Dec>)
    requires
        valid(a),
        valid(b),
    ensures
        r == as_dec(decimal_add((a.m, a.s), (b.m, b.s))),
        dadd_ok(a, b) ==> r == Some(dadd(a, b)),
        representable(val(a) + val(b)) ==> r is Some && val(r.unwrap()) == val(a) + val(b),
{
    let x = rust_decimal::Decimal::from_i128_with_scale(a.m, a.s);
    let y = rust_decimal::Decimal::from_i128_with_scale(b.m, b.s);
    x.checked_add(y).map(|d| Dec { m: d.mantissa(), s: d.scale() })
}

/// Calls `rust_decimal::Decimal::checked_sub`, as `dec_add` does
/// `checked_add`. Claimed likewise; from zero it gives the other operand
/// negated.
#[verifier::external_body]
pub(crate) fn dec_sub(a: Dec, b: Dec) -> (r: Option<Dec>)
    requires
        valid(a),
        valid(b),
    ensures
        r == as_dec(decimal_sub((a.m, a.s), (b.m, b.s))),
        dsub_ok(a, b) ==> r == Some(dsub(a, b)),
        representable(val(a) - val(b)) ==> r is Some && val(r.unwrap()) == val(a) - val(b),
{
    let x = rust_decimal::Decimal::from_i128_with_scale(a.m, a.s);
    let y = rust_decimal::Decimal::from_i128_with_scale(b.m, b.s);
    x.checked_sub(y).map(|d| Dec { m: d.mantissa(), s: d.scale() })
}

/// Calls `rust_decimal::Decimal::checked_mul` on the two `Decimal`s and
/// hands back the result's mantissa and scale. Claimed: the result is a
/// function of the two operands, always a `Decimal`; zero (of scale 0) where
/// an operand is zero; where the product of the mantissas fits in 96 bits
/// and the sum of the scales is at most 28, exactly that.
#[verifier::external_body]
pub(crate) fn dec_mul(a: Dec, b: Dec) -> (r: Option<Dec>)
    requires
        valid(a),
        valid(b),
    ensures
        r == as_dec(decimal_mul((a.m, a.s), (b.m, b.s))),
        dmul_ok(a, b) ==> r == Some(dmul(a, b)),
{
    let x = rust_decimal::Decimal::from_i128_with_scale(a.m, a.s);
    let y = rust_decimal::Decimal::from_i128_with_scale(b.m, b.s);
    x.checked_mul(y).map(|d| Dec { m: d.mantissa(), s: d.scale() })
}

/// Whether `a` is less than `b` in value. Calls `rust_decimal`'s `<` on the
/// two `Decimal`s; claimed: it compares their values. (`from_i128_with_scale`
/// panics outside the `Decimal` range, which `requires` leaves out.)
#[verifier::external_body]
pub(crate) fn dec_lt(a: Dec, b: Dec) -> (r: bool)
    requires
        valid(a),
        valid(b),
    ensures
        r == (val(a) < val(b)),
{
    rust_decimal::Decimal::from_i128_with_scale(a.m, a.s) < rust_decimal::Decimal::from_i128_with_scale(b.m, b.s)
}

/// What `rust_decimal` reads from the text `s`: the mantissa and the scale of
/// the `Decimal`.
pub uninterp spec fn decimal_parse(s: Seq<char>) -> Option<(i128, u32)>;

/// The decimal digit `d` (0 to 9) as a character.
pub open spec fn digit_char(d: int) -> char {
    (48 + d) as char
}

/// The decimal digits of `n`, most significant first; none for zero.
pub open spec fn digits(n: nat) -> Seq<char>
    decreases n,
{
    if n == 0 {
        Seq::empty()
    } else {
        digits(n / 10).push(digit_char((n % 10) as int))
    }
}

/// The digits of `n` with zeros in front up to at least `s` of them.
pub open spec fn padded_digits(n: nat, s: nat) -> Seq<char> {
    let d = digits(n);
    if d.len() < s {
        Seq::new((s - d.len()) as nat, |i: int| '0') + d
    } else {
        d
    }
}

/// How `rust_decimal` writes the `Decimal` with mantissa `m` and scale `s`:
/// a minus sign for a negative one, then the digits of the magnitude
/// (padded with zeros to at least `s` of them) with a point before the last
/// `s`, and a zero before the point where no digit is left of it; `0` for
/// zero at scale 0.
pub open spec fn decimal_text(m: int, s: nat) -> Seq<char> {
    let p = padded_digits((if m < 0 { -m } else { m }) as nat, s);
    let w = p.len() - s;
    let body = if s == 0 {
        if p.len() == 0 {
            seq!['0']
        } else {
            p
        }
    } else {
        (if w == 0 {
            seq!['0']
        } else {
            p.subrange(0, w)
        }) + seq!['.'] + p.subrange(w, p.len() as int)
    };
    if m < 0 {
        seq!['-'] + body
    } else {
        body
    }
}

/// The amount that the text `s` denotes, where `rust_decimal` reads it.
pub open spec fn spec_amount(s: Seq<char>) -> Option<Dec> {
    match decimal_parse(s) {
        Some((m, e)) => Some(Dec { m, s: e }),
        None => None,
    }
}

/// The text of an amount.
pub open spec fn display(d: Dec) -> Seq<char> {
    decimal_text(d.m as int, d.s as nat)
}

/// Calls `<rust_decimal::Decimal as FromStr>::from_str` and hands back the
/// mantissa and scale of the result. Claimed: the result is a function of the
/// text alone; a `Decimal`'s scale is at most 28 and its mantissa is a 96-bit
/// magnitude with a sign.
#[verifier::external_body]
fn parse_decimal_parts(s: &str) -> (r: Option<(i128, u32)>)
    ensures
        r == decimal_parse(s@),
        r matches Some((m, e)) ==> e <= 28 && dec_ok(m as int),
{
    match s.parse::<rust_decimal::Decimal>() {
        Ok(d) => Some((d.mantissa(), d.scale())),
        Err(_) => None,
    }
}

/// Calls `rust_decimal::Decimal::from_i128_with_scale` and its `to_string`.
/// Claimed: the text is what its `Display` writes with no precision given,
/// `decimal_text` of the mantissa and the scale. The call panics outside the
/// `Decimal` range, which `requires` leaves out.
#[verifier::external_body]
pub(crate) fn decimal_to_string(d: Dec) -> (t: String)
    requires
        valid(d),
    ensures
        t@ == decimal_text(d.m as int, d.s as nat),
{
    rust_decimal::Decimal::from_i128_with_scale(d.m, d.s).to_string()
}

/// Reads an amount: `Some` exactly when `rust_decimal` reads the text.
pub fn convert_to_decimal(data: &str) -> (r: Option<Dec>)
    ensures
        r == spec_amount(data@),
        r matches Some(d) ==> valid(d),
{
    match parse_decimal_parts(data) {
        Some((m, e)) => Some(Dec { m, s: e }),
        None => None,
    }
}

/// Whether `d` is a `Decimal`.
pub fn dec_valid(d: Dec) -> (b: bool)
    ensures
        b == valid(d),
{
    dec_check(d.m) && d.s <= MAX_SCALE
}

} // verus!
