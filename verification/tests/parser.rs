use spartan::ast::Expr;
use spartan::ast::Program;
use spartan::ast::Statement;
use spartan::ast::Value;
use spartan::parser::Error;
use spartan::parser::ErrorKind;
use spartan::parser::Parser;
use spartan::parser::PrecedenceLevel;
use spartan::Operator;

fn literal(n: u64) -> Expr {
    Expr::Value(Value::Integer(n))
}

fn binary(operator: Operator, left: Expr, right: Expr) -> Expr {
    Expr::BinaryOperation(operator, Box::new(left), Box::new(right))
}

fn group(inner: Expr) -> Expr {
    Expr::Value(Value::Expr(Box::new(inner)))
}

fn negative(inner: Value) -> Value {
    Value::UnaryOperation(Operator::Subtract, Box::new(inner))
}

fn program(exprs: Vec<Expr>) -> Program {
    Program { statements: exprs.into_iter().map(|expr| Statement { expr }).collect() }
}

fn parse(text: &str) -> (Program, Vec<String>) {
    let mut parser = Parser::new(text);
    let parsed = parser.parse();
    (parsed, parser.diagnostics().clone())
}

fn no_diagnostics() -> Vec<String> {
    Vec::new()
}

#[test]
fn multiplication_binds_tighter_than_addition() {
    let (parsed, diagnostics) = parse("1+2*3;");
    assert_eq!(
        parsed,
        program(vec![binary(Operator::Add, literal(1), binary(Operator::Multiply, literal(2), literal(3)))])
    );
    assert_eq!(diagnostics, no_diagnostics());
}

#[test]
fn parentheses_group() {
    let (parsed, diagnostics) = parse("(1+2)*3;");
    assert_eq!(
        parsed,
        program(vec![binary(
            Operator::Multiply,
            group(binary(Operator::Add, literal(1), literal(2))),
            literal(3)
        )])
    );
    assert_eq!(diagnostics, no_diagnostics());
}

#[test]
fn negation_nests() {
    let (parsed, diagnostics) = parse("--5;");
    assert_eq!(parsed, program(vec![Expr::Value(negative(negative(Value::Integer(5))))]));
    assert_eq!(diagnostics, no_diagnostics());
}

#[test]
fn division_by_zero_parses() {
    let (parsed, diagnostics) = parse("1/0;");
    assert_eq!(parsed, program(vec![binary(Operator::Divide, literal(1), literal(0))]));
    assert_eq!(diagnostics, no_diagnostics());
}

#[test]
fn empty_parentheses_are_null() {
    let (parsed, diagnostics) = parse("();");
    assert_eq!(parsed, program(vec![Expr::Value(Value::Null)]));
    assert_eq!(diagnostics, no_diagnostics());
    let (parsed, diagnostics) = parse("( )+1;");
    assert_eq!(parsed, program(vec![binary(Operator::Add, Expr::Value(Value::Null), literal(1))]));
    assert_eq!(diagnostics, no_diagnostics());
}

#[test]
fn a_statement_without_terminator_at_the_end_of_the_text_is_a_syntax_error() {
    let (parsed, diagnostics) = parse("1+2");
    assert_eq!(parsed, program(vec![]));
    assert_eq!(
        diagnostics,
        vec!["SyntaxError: line 1:4, expected ';', got EOF (End-Of-File).".to_string()]
    );
}

#[test]
fn the_end_of_the_text_aborts_silently() {
    for text in ["", "  \n\t", "1;", "1; 2;\n"] {
        let (_, diagnostics) = parse(text);
        assert_eq!(diagnostics, no_diagnostics());
    }
    let mut parser = Parser::new("1;");
    assert!(parser.parse_statement().is_ok());
    assert_eq!(
        parser.parse_statement(),
        Err(Error {
            kind: ErrorKind::Abort,
            message: "line 1:3, Reached EOF (End-Of-File).".to_string(),
            cause: None,
        })
    );
    assert_eq!(parser.diagnostics(), &no_diagnostics());
}

#[test]
fn operators_of_one_tier_group_to_the_left() {
    let (parsed, _) = parse("1-2-3; 8/4*2; 1+2*3-4/5;");
    assert_eq!(
        parsed,
        program(vec![
            binary(Operator::Subtract, binary(Operator::Subtract, literal(1), literal(2)), literal(3)),
            binary(Operator::Multiply, binary(Operator::Divide, literal(8), literal(4)), literal(2)),
            binary(
                Operator::Subtract,
                binary(Operator::Add, literal(1), binary(Operator::Multiply, literal(2), literal(3))),
                binary(Operator::Divide, literal(4), literal(5))
            ),
        ])
    );
}

#[test]
fn negation_binds_tighter_than_any_binary_operator() {
    let (parsed, diagnostics) = parse("1--2*-(3);");
    assert_eq!(
        parsed,
        program(vec![binary(
            Operator::Subtract,
            literal(1),
            binary(
                Operator::Multiply,
                Expr::Value(negative(Value::Integer(2))),
                Expr::Value(negative(Value::Expr(Box::new(literal(3)))))
            )
        )])
    );
    assert_eq!(diagnostics, no_diagnostics());
}

#[test]
fn nested_parentheses_nest_in_the_tree() {
    let (parsed, diagnostics) = parse("((7));");
    assert_eq!(parsed, program(vec![group(group(literal(7)))]));
    assert_eq!(diagnostics, no_diagnostics());
}

#[test]
fn statements_are_kept_in_their_order() {
    let (parsed, diagnostics) = parse("1;\n 2 ;\n3;");
    assert_eq!(parsed, program(vec![literal(1), literal(2), literal(3)]));
    assert_eq!(diagnostics, no_diagnostics());
}

#[test]
fn a_missing_terminator_is_reported_and_parsing_goes_on_where_it_stands() {
    let (parsed, diagnostics) = parse("1; 2 3; 4;");
    assert_eq!(parsed, program(vec![literal(1), literal(4)]));
    assert_eq!(
        diagnostics,
        vec![
            "SyntaxError: line 1:6, expected ';', got integer.".to_string(),
            "SyntaxError: line 1:7, expected a Value, got ';'.".to_string(),
        ]
    );
}

#[test]
fn a_missing_value_is_reported() {
    let (parsed, diagnostics) = parse("1+;\n*2;");
    assert_eq!(parsed, program(vec![literal(2)]));
    assert_eq!(
        diagnostics,
        vec![
            "SyntaxError: line 1:3, expected a Value, got ';'.".to_string(),
            "SyntaxError: line 2:1, expected a Value, got '*'.".to_string(),
        ]
    );
    let (parsed, diagnostics) = parse("1+");
    assert_eq!(parsed, program(vec![]));
    assert_eq!(
        diagnostics,
        vec!["SyntaxError: line 1:3, expected a Value, got EOF (End-Of-File).".to_string()]
    );
}

#[test]
fn a_missing_closing_parenthesis_is_reported() {
    let (parsed, diagnostics) = parse("(1;");
    assert_eq!(parsed, program(vec![]));
    assert_eq!(diagnostics, vec!["SyntaxError: line 1:3, expected ')', got ';'.".to_string()]);
    let (parsed, diagnostics) = parse(")");
    assert_eq!(parsed, program(vec![]));
    assert_eq!(diagnostics, vec!["SyntaxError: line 1:1, expected a Value, got ')'.".to_string()]);
}

#[test]
fn a_lexical_error_aborts_and_only_the_lexer_reports() {
    for text in ["@", "1 @", "1; 2 +@ 3; 4;", "(1 @", "-@", "(@"] {
        let (parsed, diagnostics) = parse(text);
        let expected = if text.starts_with("1;") { vec![literal(1)] } else { vec![] };
        assert_eq!(parsed, program(expected));
        assert_eq!(diagnostics.len(), 1, "{}", text);
        assert!(diagnostics[0].starts_with("SyntaxError: line 1:"), "{}", text);
        assert!(diagnostics[0].ends_with(", unsupported character '@'."), "{}", text);
    }
    let (_, diagnostics) = parse("1 +\n  #");
    assert_eq!(diagnostics, vec!["SyntaxError: line 2:3, unsupported character '#'.".to_string()]);
}

#[test]
fn a_lexical_abort_carries_the_diagnostic_of_the_lexer() {
    let mut parser = Parser::new("1 $;");
    assert_eq!(
        parser.parse_statement(),
        Err(Error {
            kind: ErrorKind::Abort,
            message: "line 1:3, Found an Error Token.".to_string(),
            cause: Some("SyntaxError: line 1:3, unsupported character '$'.".to_string()),
        })
    );
    assert_eq!(parser.diagnostics(), &no_diagnostics());
}

#[test]
fn a_literal_out_of_range_aborts() {
    let (parsed, diagnostics) = parse("1; 18446744073709551616; 2;");
    assert_eq!(parsed, program(vec![literal(1)]));
    assert_eq!(
        diagnostics,
        vec!["SyntaxError: line 1:4, integer literal out of range.".to_string()]
    );
}

#[test]
fn parsing_again_after_an_abort_goes_on_behind_it() {
    let mut parser = Parser::new("1; @ 2;");
    assert_eq!(parser.parse(), program(vec![literal(1)]));
    assert_eq!(parser.parse(), program(vec![literal(2)]));
    assert_eq!(parser.parse(), program(vec![]));
    assert_eq!(
        parser.diagnostics(),
        &vec!["SyntaxError: line 1:4, unsupported character '@'.".to_string()]
    );
}

#[test]
fn parse_value_reads_one_value() {
    let mut parser = Parser::new("-(1) 2");
    assert_eq!(parser.parse_value(), Ok(negative(Value::Expr(Box::new(literal(1))))));
    assert_eq!(parser.parse_value(), Ok(Value::Integer(2)));
    assert_eq!(
        parser.parse_value(),
        Err(Error {
            kind: ErrorKind::SyntaxError,
            message: "line 1:7, expected a Value, got EOF (End-Of-File).".to_string(),
            cause: None,
        })
    );
}

#[test]
fn parse_expr_leaves_operators_of_a_looser_tier_unread() {
    let mut parser = Parser::new("2*3+4");
    assert_eq!(
        parser.parse_expr(PrecedenceLevel::MID),
        Ok(binary(Operator::Multiply, literal(2), literal(3)))
    );
    assert_eq!(
        parser.parse_value(),
        Err(Error {
            kind: ErrorKind::SyntaxError,
            message: "line 1:4, expected a Value, got '+'.".to_string(),
            cause: None,
        })
    );
    let mut parser = Parser::new("2*3+4");
    assert_eq!(parser.parse_expr(PrecedenceLevel::MAX), Ok(literal(2)));
    let mut parser = Parser::new("2*3+4");
    assert_eq!(
        parser.parse_expr(PrecedenceLevel::LOW),
        Ok(binary(Operator::Add, binary(Operator::Multiply, literal(2), literal(3)), literal(4)))
    );
}

#[test]
fn the_tiers_are_climbed_from_low_to_max() {
    assert_eq!(PrecedenceLevel::LOW.next(), PrecedenceLevel::MID);
    assert_eq!(PrecedenceLevel::MID.next(), PrecedenceLevel::MAX);
    assert_eq!(PrecedenceLevel::MAX.next(), PrecedenceLevel::MAX);
    assert!(PrecedenceLevel::LOW.binds(&Operator::Add));
    assert!(PrecedenceLevel::LOW.binds(&Operator::Subtract));
    assert!(PrecedenceLevel::MID.binds(&Operator::Multiply));
    assert!(PrecedenceLevel::MID.binds(&Operator::Divide));
    assert!(!PrecedenceLevel::LOW.binds(&Operator::Multiply));
    assert!(!PrecedenceLevel::MID.binds(&Operator::Add));
    assert!(!PrecedenceLevel::MAX.binds(&Operator::Add));
    assert!(!PrecedenceLevel::MAX.binds(&Operator::Divide));
}

#[test]
fn a_parse_error_prints_its_kind_and_its_message() {
    let error = Error {
        kind: ErrorKind::SyntaxError,
        message: "line 1:3, expected ';', got integer.".to_string(),
        cause: None,
    };
    assert_eq!(error.to_string(), "SyntaxError: line 1:3, expected ';', got integer.");
    let error = Error {
        kind: ErrorKind::Abort,
        message: "line 2:1, Reached EOF (End-Of-File).".to_string(),
        cause: None,
    };
    assert_eq!(error.to_string(), "Abort: line 2:1, Reached EOF (End-Of-File).");
}
