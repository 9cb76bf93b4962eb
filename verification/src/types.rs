use vstd::prelude::*;

use crate::rational::{
    ArithError, Rational, i64_fits, rat_wf, spec_rat_add, spec_rat_div, spec_rat_mul,
    spec_rat_sub,
};

verus! {

/// The four arithmetic operators of the language.
#[derive(Clone, Copy, Debug, PartialEq, Eq, Structural)]
pub enum BinaryOperation {
    Add,
    Subtract,
    Multiply,
    Divide,
}

/// The identity of a concrete unit of measure, or a compound unit formed
/// when two values of differing kinds are multiplied or divided.
///
/// Every simple identity has a fixed conversion factor to the canonical
/// base unit of its kind (`Unit::get_conversion_factor`); a compound unit
/// is always made of base units, so its factor is one.
#[derive(Debug)]
pub enum UnitIdentity {
    CompoundUnit { operation: BinaryOperation, lhs: Box<UnitIdentity>, rhs: Box<UnitIdentity> },
    Dimensionless,
    Second,
    Minute,
    Hour,
    Day,
    Meter,
    Kilometer,
    SquareMeter,
    SquareKilometer,
    CubicMeter,
    CubicKilometer,
    USD,
    GBP,
}

/// A quantity kind carrying its integer power (`Length(2)` is an area), or
/// a compound kind built from two differing kinds by multiplication or
/// division.  A power of zero is always represented as `Dimensionless(0)`.
#[derive(Debug)]
pub enum Quantity {
    Dimensionless(i64),
    Length(i64),
    Time(i64),
    Currency(i64),
    CompoundQuantity { operation: BinaryOperation, lhs: Box<Quantity>, rhs: Box<Quantity> },
}

/// A dimension: the unit a value was written in, together with the
/// quantity kind and power that unit measures.
#[derive(Debug)]
pub struct Unit {
    pub unit: UnitIdentity,
    pub quantity: Quantity,
}

/// The numeric payload of a dimensioned value: an exact scalar.
#[derive(Clone, Copy, Debug, PartialEq, Eq, Structural)]
pub enum Value {
    Scalar(Rational),
}

/// The runtime value of the language: a magnitude and its dimension.
#[derive(Debug)]
pub struct DimensionedValue {
    pub value: Value,
    pub unit: Unit,
}

/// An evaluation failure.  Every error is a value; evaluation never
/// panics.
#[derive(Debug, PartialEq)]
pub enum EvalError {
    /// A name was referenced before any assignment bound it.
    UndefinedVariable(String),
    /// Addition or subtraction was attempted on two values whose kinds or
    /// powers differ.
    IncompatibleUnits { operation: BinaryOperation, lhs: Quantity, rhs: Quantity },
    /// A derived quantity has no unit in the catalog (for example a length
    /// to the fourth power, or a negative power).
    UnsupportedDimension { power: i128 },
    /// An exact magnitude left the 64-bit rational range.
    Overflow,
    /// Division by a value of magnitude zero.
    DivisionByZero,
}

/// The mathematical shape of an evaluation failure: identical to
/// `EvalError`, with the variable name abstracted to its characters.
pub enum EvalErrorView {
    UndefinedVariable(Seq<char>),
    IncompatibleUnits { operation: BinaryOperation, lhs: Quantity, rhs: Quantity },
    UnsupportedDimension { power: int },
    Overflow,
    DivisionByZero,
}

impl View for EvalError {
    type V = EvalErrorView;

    open spec fn view(&self) -> EvalErrorView {
        match *self {
            EvalError::UndefinedVariable(s) => EvalErrorView::UndefinedVariable(s@),
            EvalError::IncompatibleUnits { operation, lhs, rhs } => {
                EvalErrorView::IncompatibleUnits { operation, lhs, rhs }
            },
            EvalError::UnsupportedDimension { power } => EvalErrorView::UnsupportedDimension {
                power: power as int,
            },
            EvalError::Overflow => EvalErrorView::Overflow,
            EvalError::DivisionByZero => EvalErrorView::DivisionByZero,
        }
    }
}

/// The view of an evaluation outcome.
pub open spec fn res_eval_view(r: Result<DimensionedValue, EvalError>) -> Result<
    DimensionedValue,
    EvalErrorView,
> {
    match r {
        Ok(v) => Ok(v),
        Err(e) => Err(e@),
    }
}

/// The height of a quantity tree; compound kinds sit above their parts.
pub open spec fn q_height(q: Quantity) -> nat
    decreases q,
{
    match q {
        Quantity::CompoundQuantity { operation, lhs, rhs } => 1 + q_height(*lhs) + q_height(
            *rhs,
        ),
        _ => 0,
    }
}

/// Lifts an arithmetic failure into an evaluation error.
pub open spec fn spec_arith_err(e: ArithError) -> EvalError {
    match e {
        ArithError::Overflow => EvalError::Overflow,
        ArithError::DivisionByZero => EvalError::DivisionByZero,
    }
}

/// The combination of two already-derived quantities.  Addition and
/// subtraction demand the identical kind at the identical power and keep
/// it; multiplication and division on a shared kind sum or subtract the
/// powers, a power of zero collapsing to the dimensionless kind; two
/// differing kinds form a compound kind, never simplified further.
pub open spec fn spec_q_combine_derived(op: BinaryOperation, a: Quantity, b: Quantity) -> Result<
    Quantity,
    EvalError,
> {
    match op {
        BinaryOperation::Add | BinaryOperation::Subtract => {
            if a == b {
                Ok(a)
            } else {
                Err(EvalError::IncompatibleUnits { operation: op, lhs: a, rhs: b })
            }
        },
        BinaryOperation::Multiply | BinaryOperation::Divide => {
            let powers: Option<(int, int)> = match (a, b) {
                (Quantity::Dimensionless(p), Quantity::Dimensionless(q)) => Some(
                    (p as int, q as int),
                ),
                (Quantity::Length(p), Quantity::Length(q)) => Some((p as int, q as int)),
                (Quantity::Time(p), Quantity::Time(q)) => Some((p as int, q as int)),
                (Quantity::Currency(p), Quantity::Currency(q)) => Some((p as int, q as int)),
                _ => None,
            };
            match powers {
                Some((p, q)) => {
                    let r = if op is Multiply {
                        p + q
                    } else {
                        p - q
                    };
                    if r == 0 {
                        Ok(Quantity::Dimensionless(0))
                    } else if i64_fits(r) {
                        Ok(spec_q_with_power(a, r as i64))
                    } else {
                        Err(EvalError::UnsupportedDimension { power: r as i128 })
                    }
                },
                _ => Ok(
                    Quantity::CompoundQuantity {
                        operation: op,
                        lhs: Box::new(a),
                        rhs: Box::new(b),
                    },
                ),
            }
        },
    }
}

/// The same kind as `a`, at power `r`.
pub open spec fn spec_q_with_power(a: Quantity, r: i64) -> Quantity {
    match a {
        Quantity::Dimensionless(_) => Quantity::Dimensionless(r),
        Quantity::Length(_) => Quantity::Length(r),
        Quantity::Time(_) => Quantity::Time(r),
        Quantity::Currency(_) => Quantity::Currency(r),
        _ => a,
    }
}

/// Flattens a compound kind one level by re-combining its parts; a simple
/// kind is already derived.
pub open spec fn spec_q_derive(q: Quantity) -> Result<Quantity, EvalError>
    decreases q_height(q), 1int,
{
    match q {
        Quantity::CompoundQuantity { operation, lhs, rhs } => spec_q_combine(
            operation,
            *lhs,
            *rhs,
        ),
        _ => Ok(q),
    }
}

/// The quantity algebra of one binary operator: both sides are derived
/// first, then combined as `spec_q_combine_derived` says.
pub open spec fn spec_q_combine(op: BinaryOperation, a: Quantity, b: Quantity) -> Result<
    Quantity,
    EvalError,
>
    decreases q_height(a) + q_height(b) + 1, 0int,
{
    match spec_q_derive(a) {
        Ok(da) => match spec_q_derive(b) {
            Ok(db) => spec_q_combine_derived(op, da, db),
            Err(e) => Err(e),
        },
        Err(e) => Err(e),
    }
}

/// The canonical base unit of a quantity: meter for lengths (square and
/// cubic meter at powers two and three), second for times, USD for
/// currencies, the dimensionless unit at power zero, and a compound of
/// base units for a compound kind.  A power outside the catalog has no
/// base unit.
pub open spec fn spec_get_base_unit(q: Quantity) -> Result<UnitIdentity, EvalError>
    decreases q,
{
    match q {
        Quantity::Dimensionless(p) => if p == 0 {
            Ok(UnitIdentity::Dimensionless)
        } else {
            Err(EvalError::UnsupportedDimension { power: p as i128 })
        },
        Quantity::Length(p) => if p == 1 {
            Ok(UnitIdentity::Meter)
        } else if p == 2 {
            Ok(UnitIdentity::SquareMeter)
        } else if p == 3 {
            Ok(UnitIdentity::CubicMeter)
        } else {
            Err(EvalError::UnsupportedDimension { power: p as i128 })
        },
        Quantity::Time(p) => if p == 1 {
            Ok(UnitIdentity::Second)
        } else {
            Err(EvalError::UnsupportedDimension { power: p as i128 })
        },
        Quantity::Currency(p) => if p == 1 {
            Ok(UnitIdentity::USD)
        } else {
            Err(EvalError::UnsupportedDimension { power: p as i128 })
        },
        Quantity::CompoundQuantity { operation, lhs, rhs } => match spec_get_base_unit(*lhs) {
            Ok(bl) => match spec_get_base_unit(*rhs) {
                Ok(br) => Ok(
                    UnitIdentity::CompoundUnit {
                        operation,
                        lhs: Box::new(bl),
                        rhs: Box::new(br),
                    },
                ),
                Err(e) => Err(e),
            },
            Err(e) => Err(e),
        },
    }
}

/// The factor that converts one of this unit into the base unit of its
/// kind.  Compound units are built from base units, so their factor is
/// one.  The authoritative table: minute 60 s, hour 3600 s, day 86400 s,
/// kilometer 1000 m (squared and cubed accordingly), GBP 6/5 USD.
pub open spec fn spec_conversion_factor(u: UnitIdentity) -> Rational {
    match u {
        UnitIdentity::Minute => Rational { num: 60, den: 1 },
        UnitIdentity::Hour => Rational { num: 3600, den: 1 },
        UnitIdentity::Day => Rational { num: 86400, den: 1 },
        UnitIdentity::Kilometer => Rational { num: 1000, den: 1 },
        UnitIdentity::SquareKilometer => Rational { num: 1000000, den: 1 },
        UnitIdentity::CubicKilometer => Rational { num: 1000000000, den: 1 },
        UnitIdentity::GBP => Rational { num: 6, den: 5 },
        _ => Rational { num: 1, den: 1 },
    }
}

/// The unit algebra of one binary operator: the combined quantity, under
/// the base unit it normalizes to.
pub open spec fn spec_unit_combine(op: BinaryOperation, a: Unit, b: Unit) -> Result<
    Unit,
    EvalError,
> {
    match spec_q_combine(op, a.quantity, b.quantity) {
        Ok(q) => match spec_get_base_unit(q) {
            Ok(base) => Ok(Unit { unit: base, quantity: q }),
            Err(e) => Err(e),
        },
        Err(e) => Err(e),
    }
}

/// The scalar inside a value.
pub open spec fn value_rat(v: Value) -> Rational {
    match v {
        Value::Scalar(r) => r,
    }
}

/// Well-formedness of a value: its scalar is well-formed.
pub open spec fn value_wf(v: Value) -> bool {
    rat_wf(value_rat(v))
}

/// Well-formedness of a dimensioned value.
pub open spec fn dv_wf(v: DimensionedValue) -> bool {
    value_wf(v.value)
}

/// One scalar operation, chosen by the operator.
pub open spec fn spec_rat_op(op: BinaryOperation, a: Rational, b: Rational) -> Result<
    Rational,
    ArithError,
> {
    match op {
        BinaryOperation::Add => spec_rat_add(a, b),
        BinaryOperation::Subtract => spec_rat_sub(a, b),
        BinaryOperation::Multiply => spec_rat_mul(a, b),
        BinaryOperation::Divide => spec_rat_div(a, b),
    }
}

/// The whole effect of one binary operator on two dimensioned values.
///
/// The unit algebra decides legality first; then each operand is converted
/// to its own base units — exactly once, here, at the point the two values
/// combine — and the converted magnitudes are combined by the operator.
pub open spec fn spec_dv_combine(
    op: BinaryOperation,
    l: DimensionedValue,
    r: DimensionedValue,
) -> Result<DimensionedValue, EvalError> {
    match spec_unit_combine(op, l.unit, r.unit) {
        Ok(unit) => match spec_rat_mul(value_rat(l.value), spec_conversion_factor(l.unit.unit)) {
            Ok(lb) => match spec_rat_mul(
                value_rat(r.value),
                spec_conversion_factor(r.unit.unit),
            ) {
                Ok(rb) => match spec_rat_op(op, lb, rb) {
                    Ok(v) => Ok(DimensionedValue { value: Value::Scalar(v), unit }),
                    Err(e) => Err(spec_arith_err(e)),
                },
                Err(e) => Err(spec_arith_err(e)),
            },
            Err(e) => Err(spec_arith_err(e)),
        },
        Err(e) => Err(e),
    }
}

/// One node of the abstract syntax tree.  A tree is built once by the
/// parser and read, never mutated, by the evaluator; each node owns its
/// children outright.
#[derive(Debug)]
pub enum AstNode {
    /// A numeric literal together with the unit it was written in.
    Double { value: Value, unit: Unit },
    /// A reference to a previously assigned variable.
    Name(String),
    /// A fully parenthesized binary operation.
    Expression { operation: BinaryOperation, lhs: Box<AstNode>, rhs: Box<AstNode> },
    /// One statement: a variable bound to the value of an expression.
    Variable { name: Box<AstNode>, expr: Box<AstNode> },
}

/// The mathematical shape of a syntax node: identical to `AstNode`, with
/// names abstracted to character sequences.
pub enum AstNodeView {
    Double { value: Value, unit: Unit },
    Name(Seq<char>),
    Expression { operation: BinaryOperation, lhs: Box<AstNodeView>, rhs: Box<AstNodeView> },
    Variable { name: Box<AstNodeView>, expr: Box<AstNodeView> },
}

/// The view of a syntax node.
pub open spec fn ast_view(n: AstNode) -> AstNodeView
    decreases n,
{
    match n {
        AstNode::Double { value, unit } => AstNodeView::Double { value, unit },
        AstNode::Name(s) => AstNodeView::Name(s@),
        AstNode::Expression { operation, lhs, rhs } => AstNodeView::Expression {
            operation,
            lhs: Box::new(ast_view(*lhs)),
            rhs: Box::new(ast_view(*rhs)),
        },
        AstNode::Variable { name, expr } => AstNodeView::Variable {
            name: Box::new(ast_view(*name)),
            expr: Box::new(ast_view(*expr)),
        },
    }
}

impl View for AstNode {
    type V = AstNodeView;

    open spec fn view(&self) -> AstNodeView {
        ast_view(*self)
    }
}

/// The views of a sequence of syntax nodes.
pub open spec fn asts_view(s: Seq<AstNode>) -> Seq<AstNodeView> {
    s.map_values(|a: AstNode| a@)
}

/// Structural equality of syntax nodes, decided recursively; names compare
/// by their characters.
pub fn ast_eq(a: &AstNode, b: &AstNode) -> (r: bool)
    ensures
        r == (a@ == b@),
    decreases *a,
{
    match (a, b) {
        (AstNode::Double { value: va, unit: ua }, AstNode::Double { value: vb, unit: ub }) => *va
            == *vb && unit_identity_eq(&ua.unit, &ub.unit) && quantity_eq(
            &ua.quantity,
            &ub.quantity,
        ),
        (AstNode::Name(na), AstNode::Name(nb)) => *na == *nb,
        (
            AstNode::Expression { operation: oa, lhs: la, rhs: ra },
            AstNode::Expression { operation: ob, lhs: lb, rhs: rb },
        ) => *oa == *ob && ast_eq(la, lb) && ast_eq(ra, rb),
        (
            AstNode::Variable { name: na, expr: ea },
            AstNode::Variable { name: nb, expr: eb },
        ) => ast_eq(na, nb) && ast_eq(ea, eb),
        _ => false,
    }
}

impl PartialEq for AstNode {
    fn eq(&self, other: &Self) -> (r: bool) {
        ast_eq(self, other)
    }
}

impl vstd::std_specs::cmp::PartialEqSpecImpl for AstNode {
    open spec fn obeys_eq_spec() -> bool {
        true
    }

    open spec fn eq_spec(&self, other: &Self) -> bool {
        self@ == other@
    }
}

/// Structural equality of quantities, decided recursively.
pub fn quantity_eq(a: &Quantity, b: &Quantity) -> (r: bool)
    ensures
        r == (*a == *b),
    decreases *a,
{
    match (a, b) {
        (Quantity::Dimensionless(p), Quantity::Dimensionless(q)) => *p == *q,
        (Quantity::Length(p), Quantity::Length(q)) => *p == *q,
        (Quantity::Time(p), Quantity::Time(q)) => *p == *q,
        (Quantity::Currency(p), Quantity::Currency(q)) => *p == *q,
        (
            Quantity::CompoundQuantity { operation: oa, lhs: la, rhs: ra },
            Quantity::CompoundQuantity { operation: ob, lhs: lb, rhs: rb },
        ) => *oa == *ob && quantity_eq(la, lb) && quantity_eq(ra, rb),
        _ => false,
    }
}

/// A fresh quantity equal to the given one.
pub fn quantity_dup(q: &Quantity) -> (r: Quantity)
    ensures
        r == *q,
    decreases *q,
{
    match q {
        Quantity::Dimensionless(p) => Quantity::Dimensionless(*p),
        Quantity::Length(p) => Quantity::Length(*p),
        Quantity::Time(p) => Quantity::Time(*p),
        Quantity::Currency(p) => Quantity::Currency(*p),
        Quantity::CompoundQuantity { operation, lhs, rhs } => Quantity::CompoundQuantity {
            operation: *operation,
            lhs: Box::new(quantity_dup(lhs)),
            rhs: Box::new(quantity_dup(rhs)),
        },
    }
}

/// Structural equality of unit identities, decided recursively.
pub fn unit_identity_eq(a: &UnitIdentity, b: &UnitIdentity) -> (r: bool)
    ensures
        r == (*a == *b),
    decreases *a,
{
    match (a, b) {
        (UnitIdentity::Dimensionless, UnitIdentity::Dimensionless) => true,
        (UnitIdentity::Second, UnitIdentity::Second) => true,
        (UnitIdentity::Minute, UnitIdentity::Minute) => true,
        (UnitIdentity::Hour, UnitIdentity::Hour) => true,
        (UnitIdentity::Day, UnitIdentity::Day) => true,
        (UnitIdentity::Meter, UnitIdentity::Meter) => true,
        (UnitIdentity::Kilometer, UnitIdentity::Kilometer) => true,
        (UnitIdentity::SquareMeter, UnitIdentity::SquareMeter) => true,
        (UnitIdentity::SquareKilometer, UnitIdentity::SquareKilometer) => true,
        (UnitIdentity::CubicMeter, UnitIdentity::CubicMeter) => true,
        (UnitIdentity::CubicKilometer, UnitIdentity::CubicKilometer) => true,
        (UnitIdentity::USD, UnitIdentity::USD) => true,
        (UnitIdentity::GBP, UnitIdentity::GBP) => true,
        (
            UnitIdentity::CompoundUnit { operation: oa, lhs: la, rhs: ra },
            UnitIdentity::CompoundUnit { operation: ob, lhs: lb, rhs: rb },
        ) => *oa == *ob && unit_identity_eq(la, lb) && unit_identity_eq(ra, rb),
        _ => false,
    }
}

/// A fresh unit identity equal to the given one.
pub fn unit_identity_dup(u: &UnitIdentity) -> (r: UnitIdentity)
    ensures
        r == *u,
    decreases *u,
{
    match u {
        UnitIdentity::Dimensionless => UnitIdentity::Dimensionless,
        UnitIdentity::Second => UnitIdentity::Second,
        UnitIdentity::Minute => UnitIdentity::Minute,
        UnitIdentity::Hour => UnitIdentity::Hour,
        UnitIdentity::Day => UnitIdentity::Day,
        UnitIdentity::Meter => UnitIdentity::Meter,
        UnitIdentity::Kilometer => UnitIdentity::Kilometer,
        UnitIdentity::SquareMeter => UnitIdentity::SquareMeter,
        UnitIdentity::SquareKilometer => UnitIdentity::SquareKilometer,
        UnitIdentity::CubicMeter => UnitIdentity::CubicMeter,
        UnitIdentity::CubicKilometer => UnitIdentity::CubicKilometer,
        UnitIdentity::USD => UnitIdentity::USD,
        UnitIdentity::GBP => UnitIdentity::GBP,
        UnitIdentity::CompoundUnit { operation, lhs, rhs } => UnitIdentity::CompoundUnit {
            operation: *operation,
            lhs: Box::new(unit_identity_dup(lhs)),
            rhs: Box::new(unit_identity_dup(rhs)),
        },
    }
}

impl PartialEq for Quantity {
    fn eq(&self, other: &Self) -> (r: bool) {
        quantity_eq(self, other)
    }
}

impl vstd::std_specs::cmp::PartialEqSpecImpl for Quantity {
    open spec fn obeys_eq_spec() -> bool {
        true
    }

    open spec fn eq_spec(&self, other: &Self) -> bool {
        *self == *other
    }
}

impl PartialEq for UnitIdentity {
    fn eq(&self, other: &Self) -> (r: bool) {
        unit_identity_eq(self, other)
    }
}

impl vstd::std_specs::cmp::PartialEqSpecImpl for UnitIdentity {
    open spec fn obeys_eq_spec() -> bool {
        true
    }

    open spec fn eq_spec(&self, other: &Self) -> bool {
        *self == *other
    }
}

/// The same kind as `a`, at power `r`; see `spec_q_with_power`.
fn q_with_power(a: Quantity, r: i64) -> (res: Quantity)
    ensures
        res == spec_q_with_power(a, r),
{
    match a {
        Quantity::Dimensionless(_) => Quantity::Dimensionless(r),
        Quantity::Length(_) => Quantity::Length(r),
        Quantity::Time(_) => Quantity::Time(r),
        Quantity::Currency(_) => Quantity::Currency(r),
        _ => a,
    }
}

/// Combines two already-derived quantities; see `spec_q_combine_derived`.
fn q_combine_derived(op: BinaryOperation, a: Quantity, b: Quantity) -> (r: Result<
    Quantity,
    EvalError,
>)
    ensures
        r == spec_q_combine_derived(op, a, b),
{
    match op {
        BinaryOperation::Add | BinaryOperation::Subtract => {
            if quantity_eq(&a, &b) {
                Ok(a)
            } else {
                Err(EvalError::IncompatibleUnits { operation: op, lhs: a, rhs: b })
            }
        },
        BinaryOperation::Multiply | BinaryOperation::Divide => {
            let powers: Option<(i64, i64)> = match (&a, &b) {
                (Quantity::Dimensionless(p), Quantity::Dimensionless(q)) => Some((*p, *q)),
                (Quantity::Length(p), Quantity::Length(q)) => Some((*p, *q)),
                (Quantity::Time(p), Quantity::Time(q)) => Some((*p, *q)),
                (Quantity::Currency(p), Quantity::Currency(q)) => Some((*p, *q)),
                _ => None,
            };
            match powers {
                Some((p, q)) => {
                    let sum: i128 = match op {
                        BinaryOperation::Multiply => p as i128 + q as i128,
                        _ => p as i128 - q as i128,
                    };
                    if sum == 0 {
                        Ok(Quantity::Dimensionless(0))
                    } else if i64::MIN as i128 <= sum && sum <= i64::MAX as i128 {
                        Ok(q_with_power(a, sum as i64))
                    } else {
                        Err(EvalError::UnsupportedDimension { power: sum })
                    }
                },
                _ => Ok(
                    Quantity::CompoundQuantity {
                        operation: op,
                        lhs: Box::new(a),
                        rhs: Box::new(b),
                    },
                ),
            }
        },
    }
}

/// Flattens a compound kind one level; see `spec_q_derive`.
fn q_derive(q: &Quantity) -> (r: Result<Quantity, EvalError>)
    ensures
        r == spec_q_derive(*q),
    decreases q_height(*q), 1int,
{
    match q {
        Quantity::CompoundQuantity { operation, lhs, rhs } => q_combine(*operation, lhs, rhs),
        _ => Ok(quantity_dup(q)),
    }
}

/// The quantity algebra of one operator; see `spec_q_combine`.
fn q_combine(op: BinaryOperation, a: &Quantity, b: &Quantity) -> (r: Result<Quantity, EvalError>)
    ensures
        r == spec_q_combine(op, *a, *b),
    decreases q_height(*a) + q_height(*b) + 1, 0int,
{
    let da = match q_derive(a) {
        Ok(x) => x,
        Err(e) => return Err(e),
    };
    let db = match q_derive(b) {
        Ok(x) => x,
        Err(e) => return Err(e),
    };
    q_combine_derived(op, da, db)
}

impl Quantity {
    /// The canonical base unit of this quantity; see `spec_get_base_unit`.
    pub fn get_base_unit(&self) -> (r: Result<UnitIdentity, EvalError>)
        ensures
            r == spec_get_base_unit(*self),
        decreases *self,
    {
        match self {
            Quantity::Dimensionless(p) => if *p == 0 {
                Ok(UnitIdentity::Dimensionless)
            } else {
                Err(EvalError::UnsupportedDimension { power: *p as i128 })
            },
            Quantity::Length(p) => if *p == 1 {
                Ok(UnitIdentity::Meter)
            } else if *p == 2 {
                Ok(UnitIdentity::SquareMeter)
            } else if *p == 3 {
                Ok(UnitIdentity::CubicMeter)
            } else {
                Err(EvalError::UnsupportedDimension { power: *p as i128 })
            },
            Quantity::Time(p) => if *p == 1 {
                Ok(UnitIdentity::Second)
            } else {
                Err(EvalError::UnsupportedDimension { power: *p as i128 })
            },
            Quantity::Currency(p) => if *p == 1 {
                Ok(UnitIdentity::USD)
            } else {
                Err(EvalError::UnsupportedDimension { power: *p as i128 })
            },
            Quantity::CompoundQuantity { operation, lhs, rhs } => {
                let bl = match lhs.get_base_unit() {
                    Ok(x) => x,
                    Err(e) => return Err(e),
                };
                let br = match rhs.get_base_unit() {
                    Ok(x) => x,
                    Err(e) => return Err(e),
                };
                Ok(
                    UnitIdentity::CompoundUnit {
                        operation: *operation,
                        lhs: Box::new(bl),
                        rhs: Box::new(br),
                    },
                )
            },
        }
    }

    /// Addition of quantities; legal only between identical kinds at the
    /// identical power.
    pub fn add(&self, rhs: &Quantity) -> (r: Result<Quantity, EvalError>)
        ensures
            r == spec_q_combine(BinaryOperation::Add, *self, *rhs),
    {
        q_combine(BinaryOperation::Add, self, rhs)
    }

    /// Subtraction of quantities, under the same rule as addition.
    pub fn sub(&self, rhs: &Quantity) -> (r: Result<Quantity, EvalError>)
        ensures
            r == spec_q_combine(BinaryOperation::Subtract, *self, *rhs),
    {
        q_combine(BinaryOperation::Subtract, self, rhs)
    }

    /// Multiplication of quantities: powers add on a shared kind, and
    /// differing kinds form a compound kind.
    pub fn mul(&self, rhs: &Quantity) -> (r: Result<Quantity, EvalError>)
        ensures
            r == spec_q_combine(BinaryOperation::Multiply, *self, *rhs),
    {
        q_combine(BinaryOperation::Multiply, self, rhs)
    }

    /// Division of quantities: powers subtract on a shared kind, a power
    /// of zero yielding the dimensionless kind.
    pub fn div(&self, rhs: &Quantity) -> (r: Result<Quantity, EvalError>)
        ensures
            r == spec_q_combine(BinaryOperation::Divide, *self, *rhs),
    {
        q_combine(BinaryOperation::Divide, self, rhs)
    }
}

/// The unit algebra of one operator; see `spec_unit_combine`.
fn unit_combine(op: BinaryOperation, a: &Unit, b: &Unit) -> (r: Result<Unit, EvalError>)
    ensures
        r == spec_unit_combine(op, *a, *b),
{
    let q = match q_combine(op, &a.quantity, &b.quantity) {
        Ok(x) => x,
        Err(e) => return Err(e),
    };
    let base = match q.get_base_unit() {
        Ok(x) => x,
        Err(e) => return Err(e),
    };
    Ok(Unit { unit: base, quantity: q })
}

impl Unit {
    /// The factor converting this unit into its kind's base unit; see
    /// `spec_conversion_factor`.
    pub fn get_conversion_factor(&self) -> (r: Rational)
        ensures
            r == spec_conversion_factor(self.unit),
            rat_wf(r),
    {
        match &self.unit {
            UnitIdentity::Minute => Rational { num: 60, den: 1 },
            UnitIdentity::Hour => Rational { num: 3600, den: 1 },
            UnitIdentity::Day => Rational { num: 86400, den: 1 },
            UnitIdentity::Kilometer => Rational { num: 1000, den: 1 },
            UnitIdentity::SquareKilometer => Rational { num: 1000000, den: 1 },
            UnitIdentity::CubicKilometer => Rational { num: 1000000000, den: 1 },
            UnitIdentity::GBP => Rational { num: 6, den: 5 },
            _ => Rational { num: 1, den: 1 },
        }
    }

    /// A fresh unit equal to this one.
    pub fn duplicate(&self) -> (r: Unit)
        ensures
            r == *self,
    {
        Unit { unit: unit_identity_dup(&self.unit), quantity: quantity_dup(&self.quantity) }
    }

    /// The unit of a sum; see `spec_unit_combine`.
    pub fn add(&self, rhs: &Unit) -> (r: Result<Unit, EvalError>)
        ensures
            r == spec_unit_combine(BinaryOperation::Add, *self, *rhs),
    {
        unit_combine(BinaryOperation::Add, self, rhs)
    }

    /// The unit of a difference; see `spec_unit_combine`.
    pub fn sub(&self, rhs: &Unit) -> (r: Result<Unit, EvalError>)
        ensures
            r == spec_unit_combine(BinaryOperation::Subtract, *self, *rhs),
    {
        unit_combine(BinaryOperation::Subtract, self, rhs)
    }

    /// The unit of a product; see `spec_unit_combine`.
    pub fn mul(&self, rhs: &Unit) -> (r: Result<Unit, EvalError>)
        ensures
            r == spec_unit_combine(BinaryOperation::Multiply, *self, *rhs),
    {
        unit_combine(BinaryOperation::Multiply, self, rhs)
    }

    /// The unit of a quotient; see `spec_unit_combine`.
    pub fn div(&self, rhs: &Unit) -> (r: Result<Unit, EvalError>)
        ensures
            r == spec_unit_combine(BinaryOperation::Divide, *self, *rhs),
    {
        unit_combine(BinaryOperation::Divide, self, rhs)
    }
}

/// One scalar operation of a value; see `spec_rat_op`.
pub open spec fn spec_value_op(op: BinaryOperation, a: Value, b: Value) -> Result<
    Value,
    ArithError,
> {
    match spec_rat_op(op, value_rat(a), value_rat(b)) {
        Ok(r) => Ok(Value::Scalar(r)),
        Err(e) => Err(e),
    }
}

/// One scalar operation, chosen by the operator; see `spec_rat_op`.
fn rat_op(op: BinaryOperation, a: Rational, b: Rational) -> (r: Result<Rational, ArithError>)
    requires
        rat_wf(a),
        rat_wf(b),
    ensures
        r == spec_rat_op(op, a, b),
        r is Ok ==> rat_wf(r->Ok_0),
{
    match op {
        BinaryOperation::Add => a.add(b),
        BinaryOperation::Subtract => a.sub(b),
        BinaryOperation::Multiply => a.mul(b),
        BinaryOperation::Divide => a.div(b),
    }
}

/// Lifts an arithmetic failure into an evaluation error; see
/// `spec_arith_err`.
fn arith_err(e: ArithError) -> (r: EvalError)
    ensures
        r == spec_arith_err(e),
{
    match e {
        ArithError::Overflow => EvalError::Overflow,
        ArithError::DivisionByZero => EvalError::DivisionByZero,
    }
}

impl Value {
    /// The scalar inside.
    pub fn rat(&self) -> (r: Rational)
        ensures
            r == value_rat(*self),
    {
        match self {
            Value::Scalar(r) => *r,
        }
    }

    /// Exact addition of payloads.
    pub fn add(self, rhs: Value) -> (r: Result<Value, ArithError>)
        requires
            value_wf(self),
            value_wf(rhs),
        ensures
            r == spec_value_op(BinaryOperation::Add, self, rhs),
    {
        value_op(BinaryOperation::Add, self, rhs)
    }

    /// Exact subtraction of payloads.
    pub fn sub(self, rhs: Value) -> (r: Result<Value, ArithError>)
        requires
            value_wf(self),
            value_wf(rhs),
        ensures
            r == spec_value_op(BinaryOperation::Subtract, self, rhs),
    {
        value_op(BinaryOperation::Subtract, self, rhs)
    }

    /// Exact multiplication of payloads.
    pub fn mul(self, rhs: Value) -> (r: Result<Value, ArithError>)
        requires
            value_wf(self),
            value_wf(rhs),
        ensures
            r == spec_value_op(BinaryOperation::Multiply, self, rhs),
    {
        value_op(BinaryOperation::Multiply, self, rhs)
    }

    /// Exact division of payloads.
    pub fn div(self, rhs: Value) -> (r: Result<Value, ArithError>)
        requires
            value_wf(self),
            value_wf(rhs),
        ensures
            r == spec_value_op(BinaryOperation::Divide, self, rhs),
    {
        value_op(BinaryOperation::Divide, self, rhs)
    }
}

/// One scalar operation of a value; see `spec_value_op`.
fn value_op(op: BinaryOperation, a: Value, b: Value) -> (r: Result<Value, ArithError>)
    requires
        value_wf(a),
        value_wf(b),
    ensures
        r == spec_value_op(op, a, b),
{
    let (Value::Scalar(x), Value::Scalar(y)) = (a, b);
    match rat_op(op, x, y) {
        Ok(v) => Ok(Value::Scalar(v)),
        Err(e) => Err(e),
    }
}

/// The whole effect of one operator on two dimensioned values; see
/// `spec_dv_combine`.
fn dv_combine(op: BinaryOperation, l: &DimensionedValue, r: &DimensionedValue) -> (res: Result<
    DimensionedValue,
    EvalError,
>)
    requires
        dv_wf(*l),
        dv_wf(*r),
    ensures
        res == spec_dv_combine(op, *l, *r),
        res is Ok ==> dv_wf(res->Ok_0),
{
    let unit = match unit_combine(op, &l.unit, &r.unit) {
        Ok(u) => u,
        Err(e) => return Err(e),
    };
    let lb = match l.value.rat().mul(l.unit.get_conversion_factor()) {
        Ok(x) => x,
        Err(e) => return Err(arith_err(e)),
    };
    let rb = match r.value.rat().mul(r.unit.get_conversion_factor()) {
        Ok(x) => x,
        Err(e) => return Err(arith_err(e)),
    };
    let v = match rat_op(op, lb, rb) {
        Ok(x) => x,
        Err(e) => return Err(arith_err(e)),
    };
    Ok(DimensionedValue { value: Value::Scalar(v), unit })
}

impl DimensionedValue {
    /// A fresh dimensioned value equal to this one.
    pub fn duplicate(&self) -> (r: DimensionedValue)
        ensures
            r == *self,
    {
        DimensionedValue { value: self.value, unit: self.unit.duplicate() }
    }

    /// The sum: legal only on the identical kind and power, and returned
    /// normalized to base units.
    pub fn add(&self, rhs: &DimensionedValue) -> (r: Result<DimensionedValue, EvalError>)
        requires
            dv_wf(*self),
            dv_wf(*rhs),
        ensures
            r == spec_dv_combine(BinaryOperation::Add, *self, *rhs),
            r is Ok ==> dv_wf(r->Ok_0),
    {
        dv_combine(BinaryOperation::Add, self, rhs)
    }

    /// The difference, under the same rule as the sum.
    pub fn sub(&self, rhs: &DimensionedValue) -> (r: Result<DimensionedValue, EvalError>)
        requires
            dv_wf(*self),
            dv_wf(*rhs),
        ensures
            r == spec_dv_combine(BinaryOperation::Subtract, *self, *rhs),
            r is Ok ==> dv_wf(r->Ok_0),
    {
        dv_combine(BinaryOperation::Subtract, self, rhs)
    }

    /// The product: magnitudes convert to base units and multiply; powers
    /// of a shared kind add; differing kinds form a compound unit.
    pub fn mul(&self, rhs: &DimensionedValue) -> (r: Result<DimensionedValue, EvalError>)
        requires
            dv_wf(*self),
            dv_wf(*rhs),
        ensures
            r == spec_dv_combine(BinaryOperation::Multiply, *self, *rhs),
            r is Ok ==> dv_wf(r->Ok_0),
    {
        dv_combine(BinaryOperation::Multiply, self, rhs)
    }

    /// The quotient: magnitudes convert to base units and divide; equal
    /// powers of a shared kind cancel to the dimensionless unit.
    pub fn div(&self, rhs: &DimensionedValue) -> (r: Result<DimensionedValue, EvalError>)
        requires
            dv_wf(*self),
            dv_wf(*rhs),
        ensures
            r == spec_dv_combine(BinaryOperation::Divide, *self, *rhs),
            r is Ok ==> dv_wf(r->Ok_0),
    {
        dv_combine(BinaryOperation::Divide, self, rhs)
    }
}

} // verus!
