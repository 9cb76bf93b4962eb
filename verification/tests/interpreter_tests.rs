use unitlang::interpreter::{Memory, ProgramError, evaluate_program};
use unitlang::parser::{ParseError, ParseReason};
use unitlang::rational::Rational;
use unitlang::types::{
    AstNode, BinaryOperation, DimensionedValue, EvalError, Quantity, Unit, UnitIdentity, Value,
};

fn lookup(m: &Memory, name: &str) -> DimensionedValue {
    m.lookup(&name.to_string()).expect("variable should be bound")
}

fn rat_of(v: &DimensionedValue) -> Rational {
    let Value::Scalar(r) = v.value;
    r
}

#[test]
fn test_interpreter() {
    let i: Memory = Memory::new(vec![vec![AstNode::Variable {
        name: Box::new(AstNode::Name("var".to_string())),
        expr: Box::new(AstNode::Expression {
            operation: BinaryOperation::Divide,
            lhs: Box::new(AstNode::Double {
                value: Value::Scalar(Rational { num: 2, den: 1 }),
                unit: Unit { unit: UnitIdentity::Meter, quantity: Quantity::Length(1) },
            }),
            rhs: Box::new(AstNode::Double {
                value: Value::Scalar(Rational { num: 2, den: 1 }),
                unit: Unit { unit: UnitIdentity::Kilometer, quantity: Quantity::Length(1) },
            }),
        }),
    }]]);

    println!("{:#?}", i.memory);
}

#[test]
fn additive_identity_after_conversion() {
    let m = evaluate_program("x = (1[km] + 1[m]);").expect("program should run");
    let x = lookup(&m, "x");
    assert_eq!(rat_of(&x), Rational { num: 1001, den: 1 });
    assert_eq!(x.unit.unit, UnitIdentity::Meter);
    assert_eq!(x.unit.quantity, Quantity::Length(1));
}

#[test]
fn multiplicative_power_accumulation() {
    let m = evaluate_program("x = (2[m] * 3[m]);").expect("program should run");
    let x = lookup(&m, "x");
    assert_eq!(rat_of(&x), Rational { num: 6, den: 1 });
    assert_eq!(x.unit.unit, UnitIdentity::SquareMeter);
    assert_eq!(x.unit.quantity, Quantity::Length(2));
}

#[test]
fn division_yields_dimensionless_at_equal_power() {
    let m = evaluate_program("x = (2[m] / 2[m]);").expect("program should run");
    let x = lookup(&m, "x");
    assert!(rat_of(&x).same_value(&Rational { num: 1, den: 1 }));
    assert_eq!(x.unit.unit, UnitIdentity::Dimensionless);
    assert_eq!(x.unit.quantity, Quantity::Dimensionless(0));

    let m2 = evaluate_program("x = (2[m] / 2[km]);").expect("program should run");
    let x2 = lookup(&m2, "x");
    assert!(rat_of(&x2).same_value(&Rational { num: 1, den: 1000 }));
    assert_eq!(x2.unit.unit, UnitIdentity::Dimensionless);
    assert_eq!(x2.unit.quantity, Quantity::Dimensionless(0));
}

#[test]
fn rejection_of_incompatible_add() {
    let r = evaluate_program("x = (2[m] + 2[s]);");
    assert!(matches!(
        r,
        Err(ProgramError::Eval(EvalError::IncompatibleUnits {
            operation: BinaryOperation::Add,
            lhs: Quantity::Length(1),
            rhs: Quantity::Time(1),
        }))
    ));
}

#[test]
fn variable_chaining() {
    let m = evaluate_program("x = (2[m] * 2[km]); y = 1[km];").expect("program should run");
    let x = lookup(&m, "x");
    assert_eq!(rat_of(&x), Rational { num: 4000, den: 1 });
    assert_eq!(x.unit.unit, UnitIdentity::SquareMeter);
    assert_eq!(x.unit.quantity, Quantity::Length(2));
    let y = lookup(&m, "y");
    assert_eq!(rat_of(&y), Rational { num: 1, den: 1 });
    assert_eq!(y.unit.unit, UnitIdentity::Kilometer);

    let chained =
        evaluate_program("x = (2[m] * 2[km]); y = 1[km]; z = (x * y);").expect("should run");
    let z = lookup(&chained, "z");
    assert!(rat_of(&z).same_value(&Rational { num: 4000000, den: 1 }));
    assert_eq!(z.unit.unit, UnitIdentity::CubicMeter);
    assert_eq!(z.unit.quantity, Quantity::Length(3));

    let mixed = evaluate_program("x = (2[m] * 2[km]); y = 1[km]; z = (x + y);");
    assert!(matches!(
        mixed,
        Err(ProgramError::Eval(EvalError::IncompatibleUnits {
            operation: BinaryOperation::Add,
            lhs: Quantity::Length(2),
            rhs: Quantity::Length(1),
        }))
    ));
}

#[test]
fn undefined_variable_failure() {
    let r = evaluate_program("z = (x + 1[m]);");
    match r {
        Err(ProgramError::Eval(EvalError::UndefinedVariable(name))) => {
            assert_eq!(name, "x".to_string());
        },
        other => panic!("expected an undefined-variable failure, got {:?}", other),
    }
}

#[test]
fn parser_rejects_unterminated_program() {
    let r = evaluate_program("x = 2[m]");
    assert!(matches!(
        r,
        Err(ProgramError::Parse(ParseError { position: 0, reason: ParseReason::TrailingInput }))
    ));
}

#[test]
fn add_commutes_on_programs() {
    let ab = evaluate_program("x = (1[km] + 250[m]);").expect("should run");
    let ba = evaluate_program("x = (250[m] + 1[km]);").expect("should run");
    let va = lookup(&ab, "x");
    let vb = lookup(&ba, "x");
    assert!(rat_of(&va).same_value(&rat_of(&vb)));
    assert!(rat_of(&va).same_value(&Rational { num: 1250, den: 1 }));
    assert_eq!(va.unit.unit, vb.unit.unit);
    assert_eq!(va.unit.quantity, vb.unit.quantity);
}

#[test]
fn last_write_wins_on_redefinition() {
    let m = evaluate_program("x = 1[m]; x = 2[s];").expect("should run");
    let x = lookup(&m, "x");
    assert_eq!(rat_of(&x), Rational { num: 2, den: 1 });
    assert_eq!(x.unit.unit, UnitIdentity::Second);
    assert_eq!(x.unit.quantity, Quantity::Time(1));
}

#[test]
fn time_and_currency_conversions() {
    let m = evaluate_program("t = (1[hr] + 30[min]); u = (1[d] + 1[s]);").expect("should run");
    let t = lookup(&m, "t");
    assert_eq!(rat_of(&t), Rational { num: 5400, den: 1 });
    assert_eq!(t.unit.unit, UnitIdentity::Second);
    let u = lookup(&m, "u");
    assert_eq!(rat_of(&u), Rational { num: 86401, den: 1 });

    let c = evaluate_program("p = (1[GBP] + 1[USD]);").expect("should run");
    let p = lookup(&c, "p");
    assert!(rat_of(&p).same_value(&Rational { num: 11, den: 5 }));
    assert_eq!(p.unit.unit, UnitIdentity::USD);
    assert_eq!(p.unit.quantity, Quantity::Currency(1));
}

#[test]
fn compound_units_from_differing_kinds() {
    let m = evaluate_program("w = (3[USD] / 2[s]);").expect("should run");
    let w = lookup(&m, "w");
    assert!(rat_of(&w).same_value(&Rational { num: 3, den: 2 }));
    match &w.unit.quantity {
        Quantity::CompoundQuantity { operation, lhs, rhs } => {
            assert_eq!(*operation, BinaryOperation::Divide);
            assert_eq!(**lhs, Quantity::Currency(1));
            assert_eq!(**rhs, Quantity::Time(1));
        },
        other => panic!("expected a compound quantity, got {:?}", other),
    }
    match &w.unit.unit {
        UnitIdentity::CompoundUnit { operation, lhs, rhs } => {
            assert_eq!(*operation, BinaryOperation::Divide);
            assert_eq!(**lhs, UnitIdentity::USD);
            assert_eq!(**rhs, UnitIdentity::Second);
        },
        other => panic!("expected a compound unit, got {:?}", other),
    }
}

#[test]
fn unsupported_dimension_is_an_error() {
    let r = evaluate_program("a = (2[m] * 2[m]); b = (a * a);");
    assert!(matches!(
        r,
        Err(ProgramError::Eval(EvalError::UnsupportedDimension { power: 4 }))
    ));
}

#[test]
fn magnitude_overflow_is_an_error() {
    let r = evaluate_program("x = (9000000000000000000[m] + 9000000000000000000[m]);");
    assert!(matches!(r, Err(ProgramError::Eval(EvalError::Overflow))));
}

#[test]
fn division_by_zero_is_an_error() {
    let r = evaluate_program("x = (2[m] / 0[m]);");
    assert!(matches!(r, Err(ProgramError::Eval(EvalError::DivisionByZero))));
}

#[test]
fn multi_line_programs_run() {
    let m = evaluate_program("x = 1[m];\ny = (x + 1[km]);\r\n\nz = (y + y);\n")
        .expect("should run");
    let z = lookup(&m, "z");
    assert_eq!(rat_of(&z), Rational { num: 2002, den: 1 });
    assert_eq!(z.unit.unit, UnitIdentity::Meter);
}

#[test]
fn literal_keeps_its_own_unit_until_combined() {
    let m = evaluate_program("x = 1[km];").expect("should run");
    let x = lookup(&m, "x");
    assert_eq!(rat_of(&x), Rational { num: 1, den: 1 });
    assert_eq!(x.unit.unit, UnitIdentity::Kilometer);
    assert_eq!(x.unit.quantity, Quantity::Length(1));
}
