use unitlang::interpreter::Memory;
use unitlang::rational::{ArithError, Rational};
use unitlang::types::{
    AstNode, BinaryOperation, DimensionedValue, EvalError, Quantity, Unit, UnitIdentity, Value,
};

fn meters(num: i64, den: i64) -> DimensionedValue {
    DimensionedValue {
        value: Value::Scalar(Rational { num, den }),
        unit: Unit { unit: UnitIdentity::Meter, quantity: Quantity::Length(1) },
    }
}

fn kilometers(num: i64, den: i64) -> DimensionedValue {
    DimensionedValue {
        value: Value::Scalar(Rational { num, den }),
        unit: Unit { unit: UnitIdentity::Kilometer, quantity: Quantity::Length(1) },
    }
}

#[test]
fn rational_arithmetic_is_exact() {
    let half = Rational { num: 1, den: 2 };
    let third = Rational { num: 1, den: 3 };
    assert_eq!(half.add(third), Ok(Rational { num: 5, den: 6 }));
    assert_eq!(half.sub(third), Ok(Rational { num: 1, den: 6 }));
    assert_eq!(half.mul(third), Ok(Rational { num: 1, den: 6 }));
    assert_eq!(half.div(third), Ok(Rational { num: 3, den: 2 }));
    assert!(Rational { num: 2, den: 4 }.same_value(&half));
    assert!(!Rational { num: 3, den: 4 }.same_value(&half));
}

#[test]
fn rational_arithmetic_reports_its_limits() {
    let big = Rational { num: i64::MAX, den: 1 };
    assert_eq!(big.add(big), Err(ArithError::Overflow));
    let one = Rational::from_int(1);
    let zero = Rational::from_int(0);
    assert_eq!(one.div(zero), Err(ArithError::DivisionByZero));
}

#[test]
fn value_arithmetic_delegates_to_scalars() {
    let a = Value::Scalar(Rational { num: 3, den: 1 });
    let b = Value::Scalar(Rational { num: 2, den: 1 });
    assert_eq!(a.add(b), Ok(Value::Scalar(Rational { num: 5, den: 1 })));
    assert_eq!(a.mul(b), Ok(Value::Scalar(Rational { num: 6, den: 1 })));
}

#[test]
fn quantity_algebra_follows_the_rules() {
    let len = Quantity::Length(1);
    let len2 = Quantity::Length(1);
    assert_eq!(len.add(&len2), Ok(Quantity::Length(1)));
    assert_eq!(len.mul(&len2), Ok(Quantity::Length(2)));
    assert_eq!(len.div(&len2), Ok(Quantity::Dimensionless(0)));

    let time = Quantity::Time(1);
    assert!(matches!(
        len.add(&time),
        Err(EvalError::IncompatibleUnits {
            operation: BinaryOperation::Add,
            lhs: Quantity::Length(1),
            rhs: Quantity::Time(1),
        })
    ));
    match len.mul(&time) {
        Ok(Quantity::CompoundQuantity { operation, lhs, rhs }) => {
            assert_eq!(operation, BinaryOperation::Multiply);
            assert_eq!(*lhs, Quantity::Length(1));
            assert_eq!(*rhs, Quantity::Time(1));
        },
        other => panic!("expected a compound quantity, got {:?}", other),
    }
}

#[test]
fn base_units_come_from_the_catalog() {
    assert_eq!(Quantity::Length(1).get_base_unit(), Ok(UnitIdentity::Meter));
    assert_eq!(Quantity::Length(2).get_base_unit(), Ok(UnitIdentity::SquareMeter));
    assert_eq!(Quantity::Length(3).get_base_unit(), Ok(UnitIdentity::CubicMeter));
    assert_eq!(Quantity::Time(1).get_base_unit(), Ok(UnitIdentity::Second));
    assert_eq!(Quantity::Currency(1).get_base_unit(), Ok(UnitIdentity::USD));
    assert_eq!(Quantity::Dimensionless(0).get_base_unit(), Ok(UnitIdentity::Dimensionless));
    assert!(matches!(
        Quantity::Length(4).get_base_unit(),
        Err(EvalError::UnsupportedDimension { power: 4 })
    ));
    assert!(matches!(
        Quantity::Length(-1).get_base_unit(),
        Err(EvalError::UnsupportedDimension { power: -1 })
    ));
}

#[test]
fn conversion_factors_match_the_table() {
    let factor = |unit: UnitIdentity, quantity: Quantity| {
        Unit { unit, quantity }.get_conversion_factor()
    };
    assert_eq!(factor(UnitIdentity::Meter, Quantity::Length(1)), Rational { num: 1, den: 1 });
    assert_eq!(
        factor(UnitIdentity::Kilometer, Quantity::Length(1)),
        Rational { num: 1000, den: 1 }
    );
    assert_eq!(factor(UnitIdentity::Minute, Quantity::Time(1)), Rational { num: 60, den: 1 });
    assert_eq!(factor(UnitIdentity::Hour, Quantity::Time(1)), Rational { num: 3600, den: 1 });
    assert_eq!(factor(UnitIdentity::Day, Quantity::Time(1)), Rational { num: 86400, den: 1 });
    assert_eq!(factor(UnitIdentity::GBP, Quantity::Currency(1)), Rational { num: 6, den: 5 });
    assert_eq!(factor(UnitIdentity::USD, Quantity::Currency(1)), Rational { num: 1, den: 1 });
}

#[test]
fn dimensioned_addition_normalizes_to_base_units() {
    let km = kilometers(1, 1);
    let m = meters(1, 1);
    let sum = km.add(&m).expect("same kind and power must add");
    let Value::Scalar(r) = sum.value;
    assert_eq!(r, Rational { num: 1001, den: 1 });
    assert_eq!(sum.unit.unit, UnitIdentity::Meter);
    assert_eq!(sum.unit.quantity, Quantity::Length(1));
}

#[test]
fn dimensioned_subtraction_normalizes_to_base_units() {
    let km = kilometers(1, 1);
    let m = meters(250, 1);
    let diff = km.sub(&m).expect("same kind and power must subtract");
    let Value::Scalar(r) = diff.value;
    assert_eq!(r, Rational { num: 750, den: 1 });
    assert_eq!(diff.unit.unit, UnitIdentity::Meter);
}

#[test]
fn run_binds_each_statement_in_order() {
    let program = vec![vec![
        AstNode::Variable {
            name: Box::new(AstNode::Name("a".to_string())),
            expr: Box::new(AstNode::Double {
                value: Value::Scalar(Rational { num: 2, den: 1 }),
                unit: Unit { unit: UnitIdentity::Meter, quantity: Quantity::Length(1) },
            }),
        },
        AstNode::Variable {
            name: Box::new(AstNode::Name("b".to_string())),
            expr: Box::new(AstNode::Expression {
                operation: BinaryOperation::Add,
                lhs: Box::new(AstNode::Name("a".to_string())),
                rhs: Box::new(AstNode::Double {
                    value: Value::Scalar(Rational { num: 3, den: 1 }),
                    unit: Unit { unit: UnitIdentity::Meter, quantity: Quantity::Length(1) },
                }),
            }),
        },
    ]];
    let mut memory = Memory::new(program);
    memory.run().expect("the program should run");
    let b = memory.lookup(&"b".to_string()).expect("b should be bound");
    let Value::Scalar(r) = b.value;
    assert_eq!(r, Rational { num: 5, den: 1 });
    assert_eq!(b.unit.unit, UnitIdentity::Meter);
    assert!(memory.lookup(&"c".to_string()).is_none());
}
