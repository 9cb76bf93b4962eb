use vstd::prelude::*;

use crate::interpreter::spec_eval;
use crate::rational::{Rational, spec_rat_div, spec_rat_mul};
use crate::types::{
    AstNodeView, BinaryOperation, DimensionedValue, EvalError, EvalErrorView, Quantity, Unit,
    UnitIdentity, Value, spec_conversion_factor, spec_dv_combine, spec_get_base_unit,
    spec_q_combine, value_rat,
};

verus! {

/// Law: evaluating a literal alone yields a value whose magnitude and unit
/// are the literal's own, unchanged — normalization to base units happens
/// only at the moment two values combine, never at literal evaluation.
pub proof fn law_literal_round_trip(
    env: Map<Seq<char>, DimensionedValue>,
    value: Value,
    unit: Unit,
)
    ensures
        spec_eval(env, AstNodeView::Double { value, unit }) == Ok::<
            DimensionedValue,
            EvalErrorView,
        >(DimensionedValue { value, unit }),
{
}

/// Law: a name that no assignment has bound evaluates to an
/// undefined-variable failure carrying that name, and to nothing else.
pub proof fn law_undefined_variable(env: Map<Seq<char>, DimensionedValue>, name: Seq<char>)
    requires
        !env.contains_key(name),
    ensures
        spec_eval(env, AstNodeView::Name(name)) == Err::<DimensionedValue, EvalErrorView>(
            EvalErrorView::UndefinedVariable(name),
        ),
{
}

/// Law: addition of dimensioned values is commutative — the two orders
/// succeed on exactly the same operands, and when they succeed they yield
/// the identical value and unit.
pub proof fn law_add_commutative(l: DimensionedValue, r: DimensionedValue)
    ensures
        spec_dv_combine(BinaryOperation::Add, l, r) is Ok <==> spec_dv_combine(
            BinaryOperation::Add,
            r,
            l,
        ) is Ok,
        spec_dv_combine(BinaryOperation::Add, l, r) is Ok ==> spec_dv_combine(
            BinaryOperation::Add,
            l,
            r,
        ) == spec_dv_combine(BinaryOperation::Add, r, l),
{
    let lb0 = spec_rat_mul(value_rat(l.value), spec_conversion_factor(l.unit.unit));
    let rb0 = spec_rat_mul(value_rat(r.value), spec_conversion_factor(r.unit.unit));
    if lb0 is Ok && rb0 is Ok {
        let lb = lb0->Ok_0;
        let rb = rb0->Ok_0;
        assert((lb.den as int) * (rb.den as int) == (rb.den as int) * (lb.den as int))
            by (nonlinear_arith);
    }
}

/// Law: evaluating `a + b` and `b + a` over two literals succeeds on
/// exactly the same values, with the identical result.
pub proof fn law_eval_add_commutative(
    env: Map<Seq<char>, DimensionedValue>,
    a: DimensionedValue,
    b: DimensionedValue,
)
    ensures
        ({
            let ab = spec_eval(
                env,
                AstNodeView::Expression {
                    operation: BinaryOperation::Add,
                    lhs: Box::new(AstNodeView::Double { value: a.value, unit: a.unit }),
                    rhs: Box::new(AstNodeView::Double { value: b.value, unit: b.unit }),
                },
            );
            let ba = spec_eval(
                env,
                AstNodeView::Expression {
                    operation: BinaryOperation::Add,
                    lhs: Box::new(AstNodeView::Double { value: b.value, unit: b.unit }),
                    rhs: Box::new(AstNodeView::Double { value: a.value, unit: a.unit }),
                },
            );
            (ab is Ok <==> ba is Ok) && (ab is Ok ==> ab == ba)
        }),
{
    law_literal_round_trip(env, a.value, a.unit);
    law_literal_round_trip(env, b.value, b.unit);
    law_add_commutative(
        DimensionedValue { value: a.value, unit: a.unit },
        DimensionedValue { value: b.value, unit: b.unit },
    );
}

/// Whether a quantity is a simple kind, one that carries a power.
pub open spec fn simple_kind(q: Quantity) -> bool {
    !(q matches Quantity::CompoundQuantity { .. })
}

/// The power a simple kind carries.
pub open spec fn kind_power(q: Quantity) -> int {
    match q {
        Quantity::Dimensionless(p) => p as int,
        Quantity::Length(p) => p as int,
        Quantity::Time(p) => p as int,
        Quantity::Currency(p) => p as int,
        _ => 0,
    }
}

/// Law: dividing two values of the identical simple kind and power cancels
/// the dimension entirely.  It can never fail for dimensional reasons —
/// only a zero divisor or an overflow stops it — and on success the result
/// carries the power-zero dimensionless unit, its magnitude the exact
/// ratio of the operands' base-unit magnitudes.
pub proof fn law_div_same_kind_dimensionless(l: DimensionedValue, r: DimensionedValue)
    requires
        l.unit.quantity == r.unit.quantity,
        simple_kind(l.unit.quantity),
    ensures
        match spec_dv_combine(BinaryOperation::Divide, l, r) {
            Ok(v) => {
                &&& v.unit == (Unit {
                    unit: UnitIdentity::Dimensionless,
                    quantity: Quantity::Dimensionless(0),
                })
                &&& spec_rat_mul(value_rat(l.value), spec_conversion_factor(l.unit.unit))
                    matches Ok(lb)
                &&& spec_rat_mul(value_rat(r.value), spec_conversion_factor(r.unit.unit))
                    matches Ok(rb)
                &&& spec_rat_div(lb, rb) == Ok::<Rational, crate::rational::ArithError>(
                    value_rat(v.value),
                )
            },
            Err(e) => e == EvalError::Overflow || e == EvalError::DivisionByZero,
        },
{
}

/// Law: multiplying two values of the identical simple kind accumulates
/// the powers: the result's kind is the shared kind at the sum of the two
/// powers, collapsing to the dimensionless kind at zero.  The only other
/// outcomes are an overflow of the magnitude or a power with no unit in
/// the catalog.
pub proof fn law_mul_same_kind_powers(l: DimensionedValue, r: DimensionedValue)
    requires
        simple_kind(l.unit.quantity),
        simple_kind(r.unit.quantity),
    ensures
        match spec_dv_combine(BinaryOperation::Multiply, l, r) {
            Ok(v) => sum_kind_ok(l.unit.quantity, r.unit.quantity, v.unit.quantity),
            Err(e) => e == EvalError::Overflow || e matches
                EvalError::UnsupportedDimension { .. } || e matches
                EvalError::IncompatibleUnits { .. },
        },
{
    match spec_q_combine(BinaryOperation::Multiply, l.unit.quantity, r.unit.quantity) {
        Ok(q) => lemma_get_base_unit_err(q),
        _ => {},
    }
}

/// The base-unit catalog fails only for want of a unit at the asked
/// power, never for any other reason.
proof fn lemma_get_base_unit_err(q: Quantity)
    ensures
        spec_get_base_unit(q) matches Err(e) ==> e matches EvalError::UnsupportedDimension { .. },
    decreases q,
{
    match q {
        Quantity::CompoundQuantity { operation, lhs, rhs } => {
            lemma_get_base_unit_err(*lhs);
            lemma_get_base_unit_err(*rhs);
        },
        _ => {},
    }
}

/// The quantity a product of two simple kinds must carry: for a shared
/// kind, that kind at the sum of the powers (dimensionless at zero); for
/// differing kinds, the compound of the two.
pub open spec fn sum_kind_ok(a: Quantity, b: Quantity, out: Quantity) -> bool {
    if same_simple_kind(a, b) {
        if kind_power(a) + kind_power(b) == 0 {
            out == Quantity::Dimensionless(0)
        } else {
            simple_kind(out) && same_simple_kind(a, out) && kind_power(out) == kind_power(a)
                + kind_power(b)
        }
    } else {
        out == (Quantity::CompoundQuantity {
            operation: BinaryOperation::Multiply,
            lhs: Box::new(a),
            rhs: Box::new(b),
        })
    }
}

/// Whether two simple kinds are the same kind, whatever their powers.
pub open spec fn same_simple_kind(a: Quantity, b: Quantity) -> bool {
    match (a, b) {
        (Quantity::Dimensionless(_), Quantity::Dimensionless(_)) => true,
        (Quantity::Length(_), Quantity::Length(_)) => true,
        (Quantity::Time(_), Quantity::Time(_)) => true,
        (Quantity::Currency(_), Quantity::Currency(_)) => true,
        _ => false,
    }
}

} // verus!
