use spartan::lexer::Lexer;
use spartan::text::decimal_string;
use spartan::token::Token;
use spartan::Operator;
use spartan::Position;

fn at(line: usize, column: usize, index: usize) -> Position {
    Position { column, index, line }
}

fn tokens(text: &str) -> Vec<Token> {
    let mut lexer = Lexer::new(text);
    let mut all = Vec::new();
    loop {
        let token = lexer.get_token();
        let last = matches!(token, Token::EOF(_) | Token::Error(_));
        all.push(token);
        if last {
            return all;
        }
    }
}

#[test]
fn empty_text_is_eof_at_the_start() {
    assert_eq!(tokens(""), vec![Token::EOF(at(1, 1, 0))]);
}

#[test]
fn eof_is_returned_again_and_again() {
    let mut lexer = Lexer::new("7");
    assert_eq!(lexer.get_token(), Token::Integer(at(1, 1, 0), 7));
    assert_eq!(lexer.get_token(), Token::EOF(at(1, 2, 1)));
    assert_eq!(lexer.get_token(), Token::EOF(at(1, 2, 1)));
}

#[test]
fn every_symbol_has_its_token() {
    assert_eq!(
        tokens("+/*-();"),
        vec![
            Token::Operator(at(1, 1, 0), Operator::Add),
            Token::Operator(at(1, 2, 1), Operator::Divide),
            Token::Operator(at(1, 3, 2), Operator::Multiply),
            Token::Operator(at(1, 4, 3), Operator::Subtract),
            Token::ParenthesisL(at(1, 5, 4)),
            Token::ParenthesisR(at(1, 6, 5)),
            Token::Terminator(at(1, 7, 6)),
            Token::EOF(at(1, 8, 7)),
        ]
    );
}

#[test]
fn a_literal_takes_all_its_digits_and_stands_where_it_begins() {
    assert_eq!(
        tokens("12 345;"),
        vec![
            Token::Integer(at(1, 1, 0), 12),
            Token::Integer(at(1, 4, 3), 345),
            Token::Terminator(at(1, 7, 6)),
            Token::EOF(at(1, 8, 7)),
        ]
    );
}

#[test]
fn leading_zeros_are_digits_of_the_literal() {
    assert_eq!(tokens("007"), vec![Token::Integer(at(1, 1, 0), 7), Token::EOF(at(1, 4, 3))]);
}

#[test]
fn whitespace_is_skipped_and_line_feeds_start_a_line() {
    assert_eq!(
        tokens(" 1\n\t+\r\n  2 "),
        vec![
            Token::Integer(at(1, 2, 1), 1),
            Token::Operator(at(2, 2, 4), Operator::Add),
            Token::Integer(at(3, 3, 9), 2),
            Token::EOF(at(3, 5, 11)),
        ]
    );
}

#[test]
fn whitespace_beyond_ascii_is_skipped() {
    assert_eq!(
        tokens("1\u{a0}\u{2003}\u{3000}2"),
        vec![Token::Integer(at(1, 1, 0), 1), Token::Integer(at(1, 5, 4), 2), Token::EOF(at(1, 6, 5))]
    );
}

#[test]
fn eof_stands_where_the_text_ends() {
    assert_eq!(tokens("  \n "), vec![Token::EOF(at(2, 2, 4))]);
}

#[test]
fn an_unsupported_character_is_an_error_token() {
    let mut lexer = Lexer::new("1 @ 2");
    assert_eq!(lexer.get_token(), Token::Integer(at(1, 1, 0), 1));
    let token = lexer.get_token();
    assert_eq!(token, Token::Error(at(1, 3, 2)));
    assert_eq!(
        lexer.diagnostic(&token),
        Some("SyntaxError: line 1:3, unsupported character '@'.".to_string())
    );
    assert_eq!(lexer.get_token(), Token::Integer(at(1, 5, 4), 2));
}

#[test]
fn an_unsupported_character_beyond_ascii_is_named_in_the_diagnostic() {
    let mut lexer = Lexer::new("\n é");
    let token = lexer.get_token();
    assert_eq!(token, Token::Error(at(2, 2, 2)));
    assert_eq!(
        lexer.diagnostic(&token),
        Some("SyntaxError: line 2:2, unsupported character 'é'.".to_string())
    );
}

#[test]
fn the_largest_literal_is_read() {
    assert_eq!(
        tokens("18446744073709551615"),
        vec![Token::Integer(at(1, 1, 0), u64::MAX), Token::EOF(at(1, 21, 20))]
    );
}

#[test]
fn a_literal_out_of_range_is_an_error_token_behind_all_its_digits() {
    let mut lexer = Lexer::new("18446744073709551616;");
    let token = lexer.get_token();
    assert_eq!(token, Token::Error(at(1, 1, 0)));
    assert_eq!(
        lexer.diagnostic(&token),
        Some("SyntaxError: line 1:1, integer literal out of range.".to_string())
    );
    assert_eq!(lexer.get_token(), Token::Terminator(at(1, 21, 20)));
}

#[test]
fn a_very_long_literal_is_an_error_token() {
    assert_eq!(
        tokens("99999999999999999999999999999999999999999999"),
        vec![Token::Error(at(1, 1, 0))]
    );
}

#[test]
fn only_error_tokens_of_the_text_have_a_diagnostic() {
    let lexer = Lexer::new("1");
    assert_eq!(lexer.diagnostic(&Token::Integer(at(1, 1, 0), 1)), None);
    assert_eq!(lexer.diagnostic(&Token::EOF(at(1, 2, 1))), None);
    assert_eq!(lexer.diagnostic(&Token::Error(at(1, 2, 1))), None);
}

#[test]
fn view_token_twice_gives_the_same_token() {
    let mut lexer = Lexer::new(" 12 + x");
    loop {
        let first = lexer.view_token();
        let second = lexer.view_token();
        assert_eq!(first, second);
        let taken = lexer.get_token();
        assert_eq!(first, taken);
        if matches!(taken, Token::EOF(_)) {
            break;
        }
    }
}

#[test]
fn drop_token_takes_exactly_one_token() {
    let mut lexer = Lexer::new("1 + 2");
    lexer.drop_token();
    assert_eq!(lexer.view_token(), Token::Operator(at(1, 3, 2), Operator::Add));
    lexer.drop_token();
    assert_eq!(lexer.view_token(), Token::Integer(at(1, 5, 4), 2));
    lexer.drop_token();
    assert_eq!(lexer.view_token(), Token::EOF(at(1, 6, 5)));
    lexer.drop_token();
    assert_eq!(lexer.view_token(), Token::EOF(at(1, 6, 5)));
}

#[test]
fn get_char_reads_one_character_and_counts_lines() {
    let mut lexer = Lexer::new("a\nb");
    assert_eq!(lexer.get_char(), (Some('a'), at(1, 1, 0)));
    assert_eq!(lexer.get_char(), (Some('\n'), at(1, 2, 1)));
    assert_eq!(lexer.get_char(), (Some('b'), at(2, 1, 2)));
    assert_eq!(lexer.get_char(), (None, at(2, 2, 3)));
    assert_eq!(lexer.get_char(), (None, at(2, 2, 3)));
}

#[test]
fn the_numeral_of_a_number_is_read_as_that_number() {
    for n in [0u64, 1, 9, 10, 42, 1000, 9007199254740993, u64::MAX - 1, u64::MAX] {
        let text = decimal_string(n);
        assert_eq!(text, n.to_string());
        let mut lexer = Lexer::new(&text);
        let token = lexer.get_token();
        assert_eq!(token, Token::Integer(at(1, 1, 0), n));
        assert!(matches!(lexer.get_token(), Token::EOF(_)));
        match token {
            Token::Integer(_, value) => assert_eq!(decimal_string(value), text),
            _ => unreachable!(),
        }
    }
}

#[test]
fn tokens_are_named_in_diagnostics() {
    let p = at(1, 1, 0);
    assert_eq!(Token::Error(p).to_string(), "Token::Error");
    assert_eq!(Token::EOF(p).to_string(), "EOF (End-Of-File)");
    assert_eq!(Token::Integer(p, 5).to_string(), "integer");
    assert_eq!(Token::Operator(p, Operator::Add).to_string(), "'+'");
    assert_eq!(Token::Operator(p, Operator::Divide).to_string(), "'/'");
    assert_eq!(Token::Operator(p, Operator::Multiply).to_string(), "'*'");
    assert_eq!(Token::Operator(p, Operator::Subtract).to_string(), "'-'");
    assert_eq!(Token::ParenthesisL(p).to_string(), "'('");
    assert_eq!(Token::ParenthesisR(p).to_string(), "')'");
    assert_eq!(Token::Terminator(p).to_string(), "';'");
}

#[test]
fn a_token_knows_its_position() {
    let p = at(3, 4, 17);
    for token in [
        Token::Error(p),
        Token::EOF(p),
        Token::Integer(p, 5),
        Token::Operator(p, Operator::Add),
        Token::ParenthesisL(p),
        Token::ParenthesisR(p),
        Token::Terminator(p),
    ] {
        assert_eq!(*token.position(), p);
    }
    assert_eq!(p.to_string(), "line 3:4");
}

#[test]
fn all_operators_are_binary_and_only_minus_is_unary() {
    for operator in [Operator::Add, Operator::Divide, Operator::Multiply, Operator::Subtract] {
        assert!(operator.is_binary());
        assert_eq!(operator.is_unary(), operator == Operator::Subtract);
    }
}
