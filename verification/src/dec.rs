use vstd::arithmetic::mul::{
    lemma_mul_equality_converse, lemma_mul_is_associative, lemma_mul_is_commutative,
    lemma_mul_strict_inequality, lemma_mul_strict_inequality_converse,
};
use vstd::arithmetic::power::{lemma_pow0, lemma_pow1, lemma_pow_adds, lemma_pow_positive, pow};
use vstd::prelude::*;

use core::cmp::Ordering;

verus! {

/// Largest mantissa magnitude an exact decimal quantity can carry:
/// 96 bits, the domain of the decimal interchange representation.
pub const MAX_DEC_MANTISSA: i128 = 79228162514264337593543950335;

/// Largest number of fractional digits a decimal quantity can carry.
pub const MAX_DEC_SCALE: u32 = 28;

/// An exact base-10 quantity: the value `mantissa / 10^scale`. Quantities
/// are never represented in binary floating point, so values carry no
/// rounding drift. Two quantities are equal when their mathematical values
/// are equal, so `1.50` equals `1.5`.
#[derive(Debug, Clone, Copy)]
pub struct Dec {
    mantissa: i128,
    scale: u32,
}

/// Mathematical model of a quantity: an integer numerator over `10^scale`.
#[verifier::ext_equal]
pub struct DecModel {
    pub mantissa: int,
    pub scale: nat,
}

impl View for Dec {
    type V = DecModel;

    closed spec fn view(&self) -> DecModel {
        DecModel { mantissa: self.mantissa as int, scale: self.scale as nat }
    }
}

pub open spec fn dec_model_wf(d: DecModel) -> bool {
    &&& -(MAX_DEC_MANTISSA as int) <= d.mantissa <= MAX_DEC_MANTISSA as int
    &&& d.scale <= MAX_DEC_SCALE as nat
}

/// `a` is strictly below `b` as a mathematical value:
/// `a.mantissa / 10^a.scale < b.mantissa / 10^b.scale`, stated by
/// cross-multiplication, which is exact over the integers.
pub open spec fn dec_model_lt(a: DecModel, b: DecModel) -> bool {
    a.mantissa * pow(10, b.scale) < b.mantissa * pow(10, a.scale)
}

/// `a` and `b` are the same mathematical value.
pub open spec fn dec_model_eq(a: DecModel, b: DecModel) -> bool {
    a.mantissa * pow(10, b.scale) == b.mantissa * pow(10, a.scale)
}

/// Three-way comparison of two quantities by mathematical value.
pub open spec fn dec_cmp_spec(a: DecModel, b: DecModel) -> Ordering {
    if dec_model_lt(a, b) {
        Ordering::Less
    } else if dec_model_eq(a, b) {
        Ordering::Equal
    } else {
        Ordering::Greater
    }
}

impl Dec {
    #[verifier::type_invariant]
    pub open spec fn wf(self) -> bool {
        dec_model_wf(self@)
    }

    /// Builds the quantity `mantissa / 10^scale`; `None` when either part
    /// is outside the representable domain.
    pub fn new(mantissa: i128, scale: u32) -> (r: Option<Dec>)
        ensures
            r is Some <==> (-MAX_DEC_MANTISSA <= mantissa <= MAX_DEC_MANTISSA
                && scale <= MAX_DEC_SCALE),
            r matches Some(d) ==> d@ == (DecModel { mantissa: mantissa as int, scale: scale as nat }),
    {
        if -MAX_DEC_MANTISSA <= mantissa && mantissa <= MAX_DEC_MANTISSA && scale <= MAX_DEC_SCALE {
            Some(Dec { mantissa, scale })
        } else {
            None
        }
    }

    pub fn mantissa(&self) -> (r: i128)
        ensures
            r as int == self@.mantissa,
            -MAX_DEC_MANTISSA <= r <= MAX_DEC_MANTISSA,
    {
        proof {
            use_type_invariant(self);
        }
        self.mantissa
    }

    pub fn scale(&self) -> (r: u32)
        ensures
            r as nat == self@.scale,
            r <= MAX_DEC_SCALE,
    {
        proof {
            use_type_invariant(self);
        }
        self.scale
    }

}

proof fn lemma_pow10_step(e: nat)
    ensures
        pow(10, e + 1) == pow(10, e) * 10,
{
    lemma_pow_adds(10, e, 1);
    lemma_pow1(10);
}

/// Multiplying both sides of a comparison by `10^e` preserves and reflects
/// the ordering.
proof fn lemma_scale_cmp(x: int, y: int, e: nat)
    ensures
        (x < y) <==> (x * pow(10, e) < y * pow(10, e)),
        (x == y) <==> (x * pow(10, e) == y * pow(10, e)),
{
    lemma_pow_positive(10, e);
    let p = pow(10, e);
    if x < y {
        lemma_mul_strict_inequality(x, y, p);
        lemma_mul_is_commutative(x, p);
        lemma_mul_is_commutative(y, p);
    }
    if y < x {
        lemma_mul_strict_inequality(y, x, p);
        lemma_mul_is_commutative(x, p);
        lemma_mul_is_commutative(y, p);
    }
}

/// Three-way comparison with the arguments oriented so the first has the
/// smaller or equal scale.
fn dec_cmp_aligned(xm: i128, xs: u32, ym: i128, ys: u32) -> (r: Ordering)
    requires
        xs <= ys,
        -MAX_DEC_MANTISSA <= xm <= MAX_DEC_MANTISSA,
        -MAX_DEC_MANTISSA <= ym <= MAX_DEC_MANTISSA,
    ensures
        r == dec_cmp_spec(
            DecModel { mantissa: xm as int, scale: xs as nat },
            DecModel { mantissa: ym as int, scale: ys as nat },
        ),
{
    let ghost x = DecModel { mantissa: xm as int, scale: xs as nat };
    let ghost y = DecModel { mantissa: ym as int, scale: ys as nat };
    let mut acc: i128 = xm;
    let mut k: u32 = xs;
    proof {
        lemma_pow0(10);
        assert(acc as int == xm * pow(10, (k - xs) as nat));
    }
    while k < ys
        invariant
            xs <= k <= ys,
            -MAX_DEC_MANTISSA <= xm <= MAX_DEC_MANTISSA,
            -MAX_DEC_MANTISSA <= ym <= MAX_DEC_MANTISSA,
            -MAX_DEC_MANTISSA <= acc <= MAX_DEC_MANTISSA,
            acc as int == xm * pow(10, (k - xs) as nat),
            x == (DecModel { mantissa: xm as int, scale: xs as nat }),
            y == (DecModel { mantissa: ym as int, scale: ys as nat }),
        decreases ys - k,
    {
        let next: i128 = acc * 10;
        proof {
            lemma_pow10_step((k - xs) as nat);
            lemma_mul_is_associative(xm as int, pow(10, (k - xs) as nat), 10);
            assert(next as int == xm * pow(10, (k + 1 - xs) as nat));
        }
        if next > MAX_DEC_MANTISSA || next < -MAX_DEC_MANTISSA {
            // The fully scaled mantissa of x is already past every
            // representable mantissa, so the sign alone decides.
            proof {
                let d = (ys - k - 1) as nat;
                let full = xm * pow(10, (ys - xs) as nat);
                lemma_pow_positive(10, d);
                lemma_pow_adds(10, (k + 1 - xs) as nat, d);
                lemma_mul_is_associative(xm as int, pow(10, (k + 1 - xs) as nat), pow(10, d));
                assert(full == (next as int) * pow(10, d));
                if next > MAX_DEC_MANTISSA {
                    assert(full >= next as int) by (nonlinear_arith)
                        requires
                            full == (next as int) * pow(10, d),
                            pow(10, d) >= 1,
                            next > 0,
                    ;
                    assert(full > ym as int);
                    lemma_scale_cmp(ym as int, full, xs as nat);
                    lemma_pow_adds(10, (ys - xs) as nat, xs as nat);
                    lemma_mul_is_associative(xm as int, pow(10, (ys - xs) as nat), pow(10, xs as nat));
                    assert(ym * pow(10, xs as nat) < xm * pow(10, ys as nat));
                } else {
                    assert(full <= next as int) by (nonlinear_arith)
                        requires
                            full == (next as int) * pow(10, d),
                            pow(10, d) >= 1,
                            next < 0,
                    ;
                    assert(full < ym as int);
                    lemma_scale_cmp(full, ym as int, xs as nat);
                    lemma_pow_adds(10, (ys - xs) as nat, xs as nat);
                    lemma_mul_is_associative(xm as int, pow(10, (ys - xs) as nat), pow(10, xs as nat));
                    assert(xm * pow(10, ys as nat) < ym * pow(10, xs as nat));
                }
            }
            return if next > MAX_DEC_MANTISSA {
                Ordering::Greater
            } else {
                Ordering::Less
            };
        }
        acc = next;
        k = k + 1;
    }
    proof {
        let full = xm * pow(10, (ys - xs) as nat);
        assert(acc as int == full);
        lemma_scale_cmp(acc as int, ym as int, xs as nat);
        lemma_scale_cmp(ym as int, acc as int, xs as nat);
        lemma_pow_adds(10, (ys - xs) as nat, xs as nat);
        lemma_mul_is_associative(xm as int, pow(10, (ys - xs) as nat), pow(10, xs as nat));
    }
    if acc < ym {
        Ordering::Less
    } else if acc == ym {
        Ordering::Equal
    } else {
        Ordering::Greater
    }
}

/// Reverses an ordering, as swapping the two compared values does.
pub open spec fn ord_reverse(o: Ordering) -> Ordering {
    match o {
        Ordering::Less => Ordering::Greater,
        Ordering::Equal => Ordering::Equal,
        Ordering::Greater => Ordering::Less,
    }
}

/// Three-way comparison of two quantities by mathematical value.
pub fn dec_cmp(a: &Dec, b: &Dec) -> (r: Ordering)
    ensures
        r == dec_cmp_spec(a@, b@),
{
    proof {
        use_type_invariant(a);
        use_type_invariant(b);
    }
    if a.scale <= b.scale {
        dec_cmp_aligned(a.mantissa, a.scale, b.mantissa, b.scale)
    } else {
        let raw = dec_cmp_aligned(b.mantissa, b.scale, a.mantissa, a.scale);
        match raw {
            Ordering::Less => Ordering::Greater,
            Ordering::Equal => Ordering::Equal,
            Ordering::Greater => Ordering::Less,
        }
    }
}

/// Value equality of two quantities.
pub fn dec_eq(a: &Dec, b: &Dec) -> (r: bool)
    ensures
        r == dec_model_eq(a@, b@),
{
    match dec_cmp(a, b) {
        Ordering::Equal => true,
        _ => false,
    }
}

impl PartialEq for Dec {
    fn eq(&self, other: &Dec) -> (r: bool) {
        dec_eq(self, other)
    }
}

impl Eq for Dec {}

impl vstd::std_specs::cmp::PartialEqSpecImpl for Dec {
    open spec fn obeys_eq_spec() -> bool {
        true
    }

    open spec fn eq_spec(&self, other: &Dec) -> bool {
        dec_model_eq(self@, other@)
    }
}

/// Value equality is transitive.
pub proof fn lemma_dec_eq_transitive(a: DecModel, b: DecModel, c: DecModel)
    requires
        dec_model_eq(a, b),
        dec_model_eq(b, c),
    ensures
        dec_model_eq(a, c),
{
    let pa = pow(10, a.scale);
    let pb = pow(10, b.scale);
    let pc = pow(10, c.scale);
    lemma_pow_positive(10, a.scale);
    lemma_pow_positive(10, b.scale);
    lemma_pow_positive(10, c.scale);
    assert(pb * (a.mantissa * pc) == pb * (c.mantissa * pa)) by (nonlinear_arith)
        requires
            a.mantissa * pb == b.mantissa * pa,
            b.mantissa * pc == c.mantissa * pb,
    ;
    lemma_mul_equality_converse(pb, a.mantissa * pc, c.mantissa * pa);
}

/// Strict comparison composes transitively with itself and with value
/// equality: chaining two non-greater comparisons never climbs, and stays
/// equal only when both links are equal.
pub proof fn lemma_dec_cmp_transitive(a: DecModel, b: DecModel, c: DecModel)
    requires
        dec_cmp_spec(a, b) != Ordering::Greater,
        dec_cmp_spec(b, c) != Ordering::Greater,
    ensures
        dec_cmp_spec(a, c) == (if dec_cmp_spec(a, b) == Ordering::Equal && dec_cmp_spec(b, c)
            == Ordering::Equal {
            Ordering::Equal
        } else {
            Ordering::Less
        }),
{
    let pa = pow(10, a.scale);
    let pb = pow(10, b.scale);
    let pc = pow(10, c.scale);
    lemma_pow_positive(10, a.scale);
    lemma_pow_positive(10, b.scale);
    lemma_pow_positive(10, c.scale);
    if dec_cmp_spec(a, b) == Ordering::Equal && dec_cmp_spec(b, c) == Ordering::Equal {
        lemma_dec_eq_transitive(a, b, c);
    } else {
        assert(pb * (a.mantissa * pc) < pb * (c.mantissa * pa)) by (nonlinear_arith)
            requires
                a.mantissa * pb <= b.mantissa * pa,
                b.mantissa * pc <= c.mantissa * pb,
                (a.mantissa * pb < b.mantissa * pa) || (b.mantissa * pc < c.mantissa * pb),
                pa > 0,
                pb > 0,
                pc > 0,
        ;
        lemma_mul_strict_inequality_converse(a.mantissa * pc, c.mantissa * pa, pb);
        assert(dec_model_lt(a, c));
    }
}

} // verus!
