use unitlang::parser::{
    ParseError, ParseReason, parse_expression, parse_line, parse_name, parse_number,
    parse_program, parse_variable,
};
use unitlang::rational::Rational;
use unitlang::types::{AstNode, BinaryOperation, Quantity, Unit, UnitIdentity, Value};

fn meter() -> Unit {
    Unit { unit: UnitIdentity::Meter, quantity: Quantity::Length(1) }
}

fn kilometer() -> Unit {
    Unit { unit: UnitIdentity::Kilometer, quantity: Quantity::Length(1) }
}

fn double(num: i64, den: i64, unit: Unit) -> AstNode {
    AstNode::Double { value: Value::Scalar(Rational { num, den }), unit }
}

fn name(s: &str) -> AstNode {
    AstNode::Name(s.to_string())
}

fn expr(op: BinaryOperation, lhs: AstNode, rhs: AstNode) -> AstNode {
    AstNode::Expression { operation: op, lhs: Box::new(lhs), rhs: Box::new(rhs) }
}

fn variable(n: AstNode, e: AstNode) -> AstNode {
    AstNode::Variable { name: Box::new(n), expr: Box::new(e) }
}

#[test]
fn test_parse_number() {
    assert_eq!(parse_number("11e-1[m]"), Ok((8, double(11, 10, meter()))));
    assert_eq!(parse_number("1[meter]"), Ok((8, double(1, 1, meter()))));
    assert_eq!(parse_number("1.1[km]"), Ok((7, double(11, 10, kilometer()))));
    assert_eq!(
        parse_number("9999999.987654[m]"),
        Ok((17, double(9999999987654, 1000000, meter())))
    );
}

#[test]
fn test_parse_name() {
    assert_eq!(parse_name("test"), Ok((4, name("test"))));
    assert_eq!(parse_name("test"), Ok((4, name("test"))));
}

#[test]
fn test_parse_variable() {
    assert_eq!(
        parse_variable("test = 1.2[m];"),
        Ok((14, variable(name("test"), double(12, 10, meter()))))
    );
    assert_eq!(
        parse_variable("var = -2[kilometers];"),
        Ok((21, variable(name("var"), double(-2, 1, kilometer()))))
    );
}

#[test]
fn test_parse_expression() {
    assert_eq!(
        parse_expression("(2[km] / 2[m])"),
        Ok((
            14,
            expr(
                BinaryOperation::Divide,
                double(2, 1, kilometer()),
                double(2, 1, meter())
            )
        ))
    );
    assert_eq!(
        parse_expression("((2[m] / 2[km]) + (4[km] * 4[m]))"),
        Ok((
            33,
            expr(
                BinaryOperation::Add,
                expr(
                    BinaryOperation::Divide,
                    double(2, 1, meter()),
                    double(2, 1, kilometer())
                ),
                expr(
                    BinaryOperation::Multiply,
                    double(4, 1, kilometer()),
                    double(4, 1, meter())
                )
            )
        ))
    );
}

#[test]
fn parse_variable_expression() {
    assert_eq!(
        parse_variable("var = (2[m] / 2[km]);"),
        Ok((
            21,
            variable(
                name("var"),
                expr(
                    BinaryOperation::Divide,
                    double(2, 1, meter()),
                    double(2, 1, kilometer())
                )
            )
        ))
    );
    assert_eq!(
        parse_variable("var = ((2[m] * 3[kilometers]) * (4[meters] + 5[km]));"),
        Ok((
            53,
            variable(
                name("var"),
                expr(
                    BinaryOperation::Multiply,
                    expr(
                        BinaryOperation::Multiply,
                        double(2, 1, meter()),
                        double(3, 1, kilometer())
                    ),
                    expr(
                        BinaryOperation::Add,
                        double(4, 1, meter()),
                        double(5, 1, kilometer())
                    )
                )
            )
        ))
    );
}

#[test]
fn parse_variables_and_abstract_expressions() {
    let source = "x = (2[m] * 2[kilometer]); y = 1[km]; z = (x + y);";
    let (consumed, nodes) = parse_line(source);
    assert_eq!(consumed, source.len());
    assert_eq!(
        nodes,
        vec![
            variable(
                name("x"),
                expr(
                    BinaryOperation::Multiply,
                    double(2, 1, meter()),
                    double(2, 1, kilometer())
                )
            ),
            variable(name("y"), double(1, 1, kilometer())),
            variable(
                name("z"),
                expr(BinaryOperation::Add, name("x"), name("y"))
            ),
        ]
    );
}

#[test]
fn parses_every_unit_alias() {
    let aliases: Vec<(&str, UnitIdentity, Quantity)> = vec![
        ("m", UnitIdentity::Meter, Quantity::Length(1)),
        ("meter", UnitIdentity::Meter, Quantity::Length(1)),
        ("meters", UnitIdentity::Meter, Quantity::Length(1)),
        ("km", UnitIdentity::Kilometer, Quantity::Length(1)),
        ("kilometer", UnitIdentity::Kilometer, Quantity::Length(1)),
        ("kilometers", UnitIdentity::Kilometer, Quantity::Length(1)),
        ("s", UnitIdentity::Second, Quantity::Time(1)),
        ("second", UnitIdentity::Second, Quantity::Time(1)),
        ("seconds", UnitIdentity::Second, Quantity::Time(1)),
        ("min", UnitIdentity::Minute, Quantity::Time(1)),
        ("minute", UnitIdentity::Minute, Quantity::Time(1)),
        ("minutes", UnitIdentity::Minute, Quantity::Time(1)),
        ("hr", UnitIdentity::Hour, Quantity::Time(1)),
        ("hour", UnitIdentity::Hour, Quantity::Time(1)),
        ("hours", UnitIdentity::Hour, Quantity::Time(1)),
        ("d", UnitIdentity::Day, Quantity::Time(1)),
        ("day", UnitIdentity::Day, Quantity::Time(1)),
        ("days", UnitIdentity::Day, Quantity::Time(1)),
        ("USD", UnitIdentity::USD, Quantity::Currency(1)),
        ("$", UnitIdentity::USD, Quantity::Currency(1)),
        ("GBP", UnitIdentity::GBP, Quantity::Currency(1)),
    ];
    for (alias, unit, quantity) in aliases {
        let text = format!("3[{}]", alias);
        let parsed = parse_number(&text);
        assert_eq!(
            parsed,
            Ok((text.len(), double(3, 1, Unit { unit, quantity }))),
            "alias {}",
            alias
        );
    }
}

#[test]
fn rejects_unterminated_statement() {
    assert_eq!(
        parse_variable("x = 2[m]"),
        Err(ParseError { position: 8, reason: ParseReason::MissingTerminator })
    );
}

#[test]
fn rejects_unknown_unit_alias() {
    assert_eq!(
        parse_variable("x = 2[parsec];"),
        Err(ParseError { position: 6, reason: ParseReason::UnknownUnitAlias })
    );
}

#[test]
fn rejects_missing_unit_bracket() {
    assert_eq!(
        parse_variable("x = 2[m;"),
        Err(ParseError { position: 5, reason: ParseReason::UnknownUnitAlias })
    );
}

#[test]
fn rejects_malformed_literal() {
    assert_eq!(
        parse_variable("x = [m];"),
        Err(ParseError { position: 4, reason: ParseReason::MalformedLiteral })
    );
    assert_eq!(
        parse_number("2 [m]"),
        Err(ParseError { position: 1, reason: ParseReason::MalformedLiteral })
    );
}

#[test]
fn rejects_literal_out_of_range() {
    assert_eq!(
        parse_variable("x = 99999999999999999999[m];"),
        Err(ParseError { position: 4, reason: ParseReason::LiteralOutOfRange })
    );
    assert_eq!(
        parse_variable("x = 1e99[m];"),
        Err(ParseError { position: 4, reason: ParseReason::LiteralOutOfRange })
    );
}

#[test]
fn huge_exponent_of_zero_is_zero() {
    let text = "0e999999999999999999999999[m]";
    assert_eq!(parse_number(text), Ok((text.len(), double(0, 1, meter()))));
}

#[test]
fn rejects_unsupported_operator() {
    assert_eq!(
        parse_variable("x = (2[m] ^ 2[m]);"),
        Err(ParseError { position: 10, reason: ParseReason::UnsupportedOperator })
    );
}

#[test]
fn rejects_unmatched_parenthesis() {
    assert_eq!(
        parse_variable("x = (2[m] + 2[m];"),
        Err(ParseError { position: 16, reason: ParseReason::UnmatchedParenthesis })
    );
    assert_eq!(
        parse_expression("2[m]"),
        Err(ParseError { position: 0, reason: ParseReason::ExpectedTerm })
    );
}

#[test]
fn rejects_missing_name_or_assignment() {
    assert_eq!(
        parse_variable("1x = 2[m];"),
        Err(ParseError { position: 0, reason: ParseReason::ExpectedName })
    );
    assert_eq!(
        parse_variable("x=2[m];"),
        Err(ParseError { position: 1, reason: ParseReason::ExpectedAssignment })
    );
}

#[test]
fn line_stops_before_unparsed_tail() {
    let (consumed, nodes) = parse_line("x = 1[m]; ");
    assert_eq!(consumed, 9);
    assert_eq!(nodes.len(), 1);
    let (consumed2, nodes2) = parse_line("x = 2[m]");
    assert_eq!(consumed2, 0);
    assert_eq!(nodes2, vec![]);
}

#[test]
fn exponent_forms_parse_exactly() {
    assert_eq!(parse_number("1.5e2[s]"), Ok((8, double(150, 1, Unit {
        unit: UnitIdentity::Second,
        quantity: Quantity::Time(1),
    }))));
    assert_eq!(parse_number("2.[m]"), Ok((5, double(2, 1, meter()))));
    assert_eq!(parse_number(".5[m]"), Ok((5, double(5, 10, meter()))));
    assert_eq!(parse_number("+3E+1[m]"), Ok((8, double(30, 1, meter()))));
}

#[test]
fn parse_program_splits_lines_and_skips_empty_ones() {
    let program = parse_program("x = 1[m];\n\ny = 2[s]; z = 3[d];\r\n").expect("should parse");
    assert_eq!(program.len(), 2);
    assert_eq!(program[0], vec![variable(name("x"), double(1, 1, meter()))]);
    assert_eq!(program[1].len(), 2);
    assert_eq!(
        program[1][0],
        variable(
            name("y"),
            double(2, 1, Unit { unit: UnitIdentity::Second, quantity: Quantity::Time(1) })
        )
    );

    assert_eq!(
        parse_program("x = 1[m]; leftover"),
        Err(ParseError { position: 9, reason: ParseReason::TrailingInput })
    );
}
