//! From tokens to the syntax tree.
//!
//! The grammar, with `+ -` binding less tightly than `* /`, and both
//! grouping to the left:
//!
//! ```text
//! Program    := Statement*
//! Statement  := Expr ';'
//! Expr       := Term (('+'|'-') Term)*
//! Term       := Value (('*'|'/') Value)*
//! Value      := INTEGER | '-' Value | '(' ')' | '(' Expr ')'
//! ```
//!
//! [`value`], [`expression`], [`statement`] and [`program`] say, as
//! functions of a [`Cursor`], what is read and where reading stops.  The
//! methods of [`Parser`] are proved to compute them.

use vstd::prelude::*;
use vstd::string::*;

use crate::ast::Expr;
use crate::ast::Program;
use crate::ast::Statement;
use crate::ast::Value;
use crate::lexer::diagnostic;
use crate::lexer::Cursor;
use crate::lexer::Lexer;
use crate::token::Token;
use crate::agrees;
use crate::Operator;

verus! {

/// How a parse ends when it yields no tree: `Abort` when nothing more can
/// be read (the text has ended, or the lexer met a lexical error), and
/// `SyntaxError` when a token stands where another was required.
#[derive(Clone, Copy, Debug, PartialEq, Eq)]
pub enum ErrorKind {
    Abort,
    SyntaxError,
}

/// A parse error.  `message` gives the position and what was found;
/// `cause` holds the lexer's diagnostic where a lexical error is behind it.
#[derive(Debug, PartialEq, Eq)]
pub struct Error {
    pub kind: ErrorKind,
    pub message: String,
    pub cause: Option<String>,
}

/// A parse error in specifications.
pub struct Failure {
    pub kind: ErrorKind,
    pub message: Seq<char>,
    pub cause: Option<Seq<char>>,
}

/// The three tiers of binding strength, weakest first: `LOW` for `+ -`,
/// `MID` for `* /`, `MAX` for a single value.
#[derive(Clone, Copy, Debug, PartialEq, Eq)]
pub enum PrecedenceLevel {
    LOW,
    MID,
    MAX,
}

/// What a parse function makes of a cursor: the tree or the error, and the
/// cursor behind what it read.
pub struct Parsed<T> {
    pub result: Result<T, Failure>,
    pub rest: Cursor,
}

/// What parsing a whole program yields: the statements that were read, the
/// diagnostics in the order in which they arose, and the cursor at which
/// parsing stopped.
pub struct Outcome {
    pub statements: Seq<Statement>,
    pub diagnostics: Seq<Seq<char>>,
    pub rest: Cursor,
}

impl ErrorKind {
    /// The kind as diagnostics show it.
    pub open spec fn name(self) -> Seq<char> {
        match self {
            ErrorKind::Abort => "Abort"@,
            ErrorKind::SyntaxError => "SyntaxError"@,
        }
    }
}

impl Failure {
    /// The diagnostic line of the error: its kind, a colon and its message.
    pub open spec fn text(self) -> Seq<char> {
        self.kind.name() + ": "@ + self.message
    }
}

impl View for Error {
    type V = Failure;

    open spec fn view(&self) -> Failure {
        Failure {
            kind: self.kind,
            message: self.message@,
            cause: match self.cause {
                Some(cause) => Some(cause@),
                None => None,
            },
        }
    }
}

impl Error {
    /// The diagnostic line of the error.
    pub fn to_string(&self) -> (s: String)
        ensures
            s@ == self@.text(),
    {
        let mut s = match self.kind {
            ErrorKind::Abort => String::from_str("Abort"),
            ErrorKind::SyntaxError => String::from_str("SyntaxError"),
        };
        s.append(": ");
        s.append(self.message.as_str());
        s
    }
}

impl PrecedenceLevel {
    /// The next tighter tier; `MAX` is the tightest.
    pub open spec fn tighter(self) -> PrecedenceLevel {
        match self {
            PrecedenceLevel::LOW => PrecedenceLevel::MID,
            PrecedenceLevel::MID | PrecedenceLevel::MAX => PrecedenceLevel::MAX,
        }
    }

    /// The tier at which a binary operator binds.
    pub open spec fn of(operator: Operator) -> PrecedenceLevel {
        match operator {
            Operator::Add | Operator::Subtract => PrecedenceLevel::LOW,
            Operator::Divide | Operator::Multiply => PrecedenceLevel::MID,
        }
    }

    /// The place of `expression` at this tier in the order of the recursion.
    pub open spec fn rank(self) -> nat {
        match self {
            PrecedenceLevel::LOW => 5,
            PrecedenceLevel::MID => 3,
            PrecedenceLevel::MAX => 1,
        }
    }

    /// The next tighter tier; `MAX` is the tightest.
    pub fn next(&self) -> (level: Self)
        ensures
            level == self.tighter(),
    {
        match self {
            Self::LOW => Self::MID,
            Self::MID | Self::MAX => Self::MAX,
        }
    }

    /// Whether `operator` binds at this tier.
    pub fn binds(&self, operator: &Operator) -> (b: bool)
        ensures
            b == (Self::of(*operator) == *self),
    {
        match (operator, self) {
            (Operator::Add | Operator::Subtract, PrecedenceLevel::LOW) => true,
            (Operator::Divide | Operator::Multiply, PrecedenceLevel::MID) => true,
            _ => false,
        }
    }
}

/// The syntax error for `token` where `wanted` was required.
pub open spec fn unexpected(token: Token, wanted: Seq<char>) -> Failure {
    Failure {
        kind: ErrorKind::SyntaxError,
        message: token.place().label() + ", expected "@ + wanted + ", got "@ + token.name()
            + "."@,
        cause: None,
    }
}

/// The abort at the end of the text, where `token` is the `EOF` token.
pub open spec fn end_of_input(token: Token) -> Failure {
    Failure {
        kind: ErrorKind::Abort,
        message: token.place().label() + ", Reached EOF (End-Of-File)."@,
        cause: None,
    }
}

/// The abort at an `Error` token of `text`, with the lexer's diagnostic as
/// its cause.
pub open spec fn lexical_abort(text: Seq<char>, token: Token) -> Failure {
    Failure {
        kind: ErrorKind::Abort,
        message: token.place().label() + ", Found an Error Token."@,
        cause: diagnostic(text, token),
    }
}

/// The texts of a list of strings.
pub open spec fn texts(lines: Seq<String>) -> Seq<Seq<char>> {
    lines.map_values(|line: String| line@)
}

/// `Value := INTEGER | '-' Value | '(' ')' | '(' Expr ')'`
pub open spec fn value(c: Cursor) -> Parsed<Value>
    decreases c.remaining(), 0nat,
    via value_decreases
{
    let token = c.token();
    let rest = c.after_token();
    match token {
        Token::Error(_) => Parsed { result: Err(lexical_abort(c.text, token)), rest },
        Token::Integer(_, n) => Parsed { result: Ok(Value::Integer(n)), rest },
        Token::Operator(_, operator) => {
            if operator.unary() {
                let operand = value(rest);
                match operand.result {
                    Ok(v) => Parsed {
                        result: Ok(Value::UnaryOperation(operator, Box::new(v))),
                        rest: operand.rest,
                    },
                    Err(e) => Parsed { result: Err(e), rest: operand.rest },
                }
            } else {
                Parsed { result: Err(unexpected(token, "a Value"@)), rest }
            }
        },
        Token::ParenthesisL(_) => {
            if rest.token() is ParenthesisR {
                Parsed { result: Ok(Value::Null), rest: rest.after_token() }
            } else {
                let inner = expression(PrecedenceLevel::LOW, rest);
                match inner.result {
                    Ok(e) => {
                        let last = inner.rest.token();
                        Parsed {
                            result: match last {
                                Token::Error(_) => Err(lexical_abort(c.text, last)),
                                Token::ParenthesisR(_) => Ok(Value::Expr(Box::new(e))),
                                _ => Err(unexpected(last, "')'"@)),
                            },
                            rest: inner.rest.after_token(),
                        }
                    },
                    Err(e) => Parsed { result: Err(e), rest: inner.rest },
                }
            }
        },
        _ => Parsed { result: Err(unexpected(token, "a Value"@)), rest },
    }
}

/// `Expr` at `LOW`, `Term` at `MID`, and one `Value` at `MAX`: one operand
/// of the next tighter tier, then whatever [`chain`] adds to it.
pub open spec fn expression(level: PrecedenceLevel, c: Cursor) -> Parsed<Expr>
    decreases c.remaining(), level.rank(),
    via expression_decreases
{
    match level {
        PrecedenceLevel::MAX => {
            let single = value(c);
            match single.result {
                Ok(v) => Parsed { result: Ok(Expr::Value(v)), rest: single.rest },
                Err(e) => Parsed { result: Err(e), rest: single.rest },
            }
        },
        _ => {
            let first = expression(level.tighter(), c);
            match first.result {
                // The operand never ends in front of where it began, so the
                // chain always follows (`lemma_chain_goes_on`).
                Ok(e) if first.rest.remaining() <= c.remaining() => chain(level, e, first.rest),
                _ => first,
            }
        },
    }
}

/// The operators of tier `level` that follow the operand `left`, each with
/// its right operand, folded to the left.  An operator of another tier and
/// any token that is no operator end the chain and stay unread.
pub open spec fn chain(level: PrecedenceLevel, left: Expr, c: Cursor) -> Parsed<Expr>
    decreases c.remaining(), (level.rank() - 1) as nat,
    via chain_decreases
{
    match c.token() {
        Token::Operator(_, operator) => {
            if !operator.binary() {
                Parsed { result: Err(unexpected(c.token(), "a binary operator"@)), rest: c }
            } else if PrecedenceLevel::of(operator) == level {
                let right = expression(level.tighter(), c.after_token());
                match right.result {
                    // The operator and its operand take at least one
                    // character, so the chain always goes on
                    // (`lemma_chain_goes_on`).
                    Ok(e) if right.rest.remaining() < c.remaining() => chain(
                        level,
                        Expr::BinaryOperation(operator, Box::new(left), Box::new(e)),
                        right.rest,
                    ),
                    _ => right,
                }
            } else {
                Parsed { result: Ok(left), rest: c }
            }
        },
        _ => Parsed { result: Ok(left), rest: c },
    }
}

#[via_fn]
proof fn value_decreases(c: Cursor) {
    c.lemma_token_advances();
}

#[via_fn]
proof fn expression_decreases(level: PrecedenceLevel, c: Cursor) {
}

#[via_fn]
proof fn chain_decreases(level: PrecedenceLevel, left: Expr, c: Cursor) {
    c.lemma_token_advances();
}

/// `Statement := Expr ';'`.  At the end of the text there is no statement:
/// the parse aborts, and the `EOF` token stays unread.
pub open spec fn statement(c: Cursor) -> Parsed<Statement> {
    if c.token() is EOF {
        Parsed { result: Err(end_of_input(c.token())), rest: c }
    } else {
        let body = expression(PrecedenceLevel::LOW, c);
        match body.result {
            Ok(expr) => {
                let last = body.rest.token();
                Parsed {
                    result: match last {
                        Token::Error(_) => Err(lexical_abort(c.text, last)),
                        Token::Terminator(_) => Ok(Statement { expr }),
                        _ => Err(unexpected(last, "';'"@)),
                    },
                    rest: body.rest.after_token(),
                }
            },
            Err(e) => Parsed { result: Err(e), rest: body.rest },
        }
    }
}

/// `Program := Statement*`, with the recovery from errors: after a syntax
/// error its diagnostic is kept and parsing goes on with the next
/// statement from wherever the cursor stands; an abort ends the program
/// with no diagnostic of its own, but with the lexer's where a lexical
/// error caused it.
pub open spec fn program(c: Cursor) -> Outcome
    decreases c.remaining(),
    via program_decreases
{
    let first = statement(c);
    match first.result {
        Ok(s) => {
            let more = program(first.rest);
            Outcome {
                statements: seq![s] + more.statements,
                diagnostics: more.diagnostics,
                rest: more.rest,
            }
        },
        Err(e) => match e.kind {
            ErrorKind::Abort => Outcome {
                statements: Seq::empty(),
                diagnostics: match e.cause {
                    Some(diagnostic) => seq![diagnostic],
                    None => Seq::empty(),
                },
                rest: first.rest,
            },
            ErrorKind::SyntaxError => {
                let more = program(first.rest);
                Outcome {
                    statements: more.statements,
                    diagnostics: seq![e.text()] + more.diagnostics,
                    rest: more.rest,
                }
            },
        },
    }
}

#[via_fn]
proof fn program_decreases(c: Cursor) {
    lemma_statement_progress(c);
}

/// Parsing stays in the text and never moves back; a value or an
/// expression that was read took at least its first token.
pub proof fn lemma_progress(level: PrecedenceLevel, c: Cursor)
    ensures
        value(c).rest.text == c.text,
        value(c).rest.remaining() <= c.after_token().remaining(),
        expression(level, c).rest.text == c.text,
        expression(level, c).rest.remaining() <= c.after_token().remaining(),
    decreases c.remaining(), level.rank(),
{
    c.lemma_token_advances();
    lemma_value_progress(c);
    match level {
        PrecedenceLevel::MAX => {},
        _ => {
            lemma_progress(level.tighter(), c);
            let first = expression(level.tighter(), c);
            if first.result is Ok {
                lemma_chain_progress(level, first.result->Ok_0, first.rest);
            }
        },
    }
}

proof fn lemma_value_progress(c: Cursor)
    ensures
        value(c).rest.text == c.text,
        value(c).rest.remaining() <= c.after_token().remaining(),
    decreases c.remaining(), 0nat,
{
    c.lemma_token_advances();
    let rest = c.after_token();
    rest.lemma_token_advances();
    match c.token() {
        Token::Operator(_, operator) => {
            if operator.unary() {
                lemma_value_progress(rest);
            }
        },
        Token::ParenthesisL(_) => {
            if !(rest.token() is ParenthesisR) {
                lemma_progress(PrecedenceLevel::LOW, rest);
                expression(PrecedenceLevel::LOW, rest).rest.lemma_token_advances();
            }
        },
        _ => {},
    }
}

proof fn lemma_chain_progress(level: PrecedenceLevel, left: Expr, c: Cursor)
    ensures
        chain(level, left, c).rest.text == c.text,
        chain(level, left, c).rest.remaining() <= c.remaining(),
    decreases c.remaining(), (level.rank() - 1) as nat,
{
    c.lemma_token_advances();
    match c.token() {
        Token::Operator(_, operator) => {
            if operator.binary() && PrecedenceLevel::of(operator) == level {
                let after = c.after_token();
                after.lemma_token_advances();
                lemma_progress(level.tighter(), after);
                let right = expression(level.tighter(), after);
                if right.result is Ok {
                    lemma_chain_progress(
                        level,
                        Expr::BinaryOperation(
                            operator,
                            Box::new(left),
                            Box::new(right.result->Ok_0),
                        ),
                        right.rest,
                    );
                }
            }
        },
        _ => {},
    }
}

/// The two tests of progress in [`expression`] and [`chain`] never fail:
/// the chain always follows the first operand, and always goes on behind
/// an operator of its tier with its operand.
pub proof fn lemma_chain_goes_on(level: PrecedenceLevel, left: Expr, c: Cursor)
    ensures
        !(level is MAX) ==> expression(level, c) == (match expression(level.tighter(), c).result {
            Ok(e) => chain(level, e, expression(level.tighter(), c).rest),
            Err(_) => expression(level.tighter(), c),
        }),
        match c.token() {
            Token::Operator(_, operator) => PrecedenceLevel::of(operator) == level ==> chain(
                level,
                left,
                c,
            ) == (match expression(level.tighter(), c.after_token()).result {
                Ok(e) => chain(
                    level,
                    Expr::BinaryOperation(operator, Box::new(left), Box::new(e)),
                    expression(level.tighter(), c.after_token()).rest,
                ),
                Err(_) => expression(level.tighter(), c.after_token()),
            }),
            _ => true,
        },
{
    c.lemma_token_advances();
    c.after_token().lemma_token_advances();
    lemma_progress(level.tighter(), c);
    lemma_progress(level.tighter(), c.after_token());
}

/// A statement stays in the text, and unless the text has ended it takes
/// at least one character, whether it is read or fails.
pub proof fn lemma_statement_progress(c: Cursor)
    ensures
        statement(c).rest.text == c.text,
        statement(c).rest.remaining() <= c.remaining(),
        !(c.token() is EOF) ==> statement(c).rest.remaining() < c.remaining(),
{
    c.lemma_token_advances();
    lemma_progress(PrecedenceLevel::LOW, c);
    expression(PrecedenceLevel::LOW, c).rest.lemma_token_advances();
}

impl Error {
    /// The syntax error for `token` where `wanted` was required.
    fn unexpected(token: &Token, wanted: &str) -> (error: Error)
        ensures
            error@ == unexpected(*token, wanted@),
    {
        let mut message = token.position().to_string();
        message.append(", expected ");
        message.append(wanted);
        message.append(", got ");
        message.append(token.to_string().as_str());
        message.append(".");
        Error { kind: ErrorKind::SyntaxError, message, cause: None }
    }

    /// The abort at the end of the text.
    fn end_of_input(token: &Token) -> (error: Error)
        ensures
            error@ == end_of_input(*token),
    {
        let mut message = token.position().to_string();
        message.append(", Reached EOF (End-Of-File).");
        Error { kind: ErrorKind::Abort, message, cause: None }
    }

    /// The abort at an `Error` token that `lexer` produced.
    fn lexical_abort(lexer: &Lexer, token: &Token) -> (error: Error)
        ensures
            error@ == lexical_abort(lexer@.text, *token),
    {
        let mut message = token.position().to_string();
        message.append(", Found an Error Token.");
        Error { kind: ErrorKind::Abort, message, cause: lexer.diagnostic(token) }
    }
}

/// The parser of one text.  It owns the lexer, and keeps the diagnostics
/// that parsing gives rise to, in their order.
pub struct Parser<'lexer> {
    lexer: Lexer<'lexer>,
    diagnostics: Vec<String>,
}

impl<'input> Parser<'input> {
    /// Where the parser stands in its text.
    pub closed spec fn cursor(&self) -> Cursor {
        self.lexer@
    }

    /// The diagnostics reported so far.
    pub closed spec fn reported(&self) -> Seq<Seq<char>> {
        texts(self.diagnostics@)
    }

    /// A parser at the start of `input`, with nothing reported.
    pub fn new(input: &'input str) -> (parser: Parser<'input>)
        ensures
            parser.cursor() == Cursor::start(input@),
            parser.reported() == Seq::<Seq<char>>::empty(),
    {
        Parser { lexer: Lexer::new(input), diagnostics: Vec::new() }
    }

    /// The diagnostics reported so far.
    pub fn diagnostics(&self) -> (lines: &Vec<String>)
        ensures
            texts(lines@) == self.reported(),
    {
        &self.diagnostics
    }

    /// Reads one value.
    pub fn parse_value(&mut self) -> (result: Result<Value, Error>)
        ensures
            agrees(result, value(old(self).cursor()).result),
            final(self).cursor() == value(old(self).cursor()).rest,
            final(self).reported() == old(self).reported(),
        decreases old(self).cursor().remaining(), 0nat,
    {
        proof {
            self.cursor().lemma_token_advances();
        }
        let token = self.lexer.get_token();
        match token {
            Token::Error(_) => Err(Error::lexical_abort(&self.lexer, &token)),
            Token::Integer(_, n) => Ok(Value::Integer(n)),
            Token::Operator(_, operator) => {
                if operator.is_unary() {
                    match self.parse_value() {
                        Ok(operand) => Ok(Value::UnaryOperation(operator, Box::new(operand))),
                        Err(error) => Err(error),
                    }
                } else {
                    Err(Error::unexpected(&token, "a Value"))
                }
            },
            Token::ParenthesisL(_) => {
                if let Token::ParenthesisR(_) = self.lexer.view_token() {
                    self.lexer.drop_token();
                    return Ok(Value::Null);
                }
                let inner = match self.parse_expr(PrecedenceLevel::LOW) {
                    Ok(inner) => inner,
                    Err(error) => return Err(error),
                };
                proof {
                    lemma_progress(PrecedenceLevel::LOW, old(self).cursor().after_token());
                    self.cursor().lemma_token_advances();
                }
                let last = self.lexer.get_token();
                match last {
                    Token::Error(_) => Err(Error::lexical_abort(&self.lexer, &last)),
                    Token::ParenthesisR(_) => Ok(Value::Expr(Box::new(inner))),
                    _ => Err(Error::unexpected(&last, "')'")),
                }
            },
            _ => Err(Error::unexpected(&token, "a Value")),
        }
    }

    /// Reads one expression of the tier `precedence`.
    pub fn parse_expr(&mut self, precedence: PrecedenceLevel) -> (result: Result<Expr, Error>)
        ensures
            agrees(result, expression(precedence, old(self).cursor()).result),
            final(self).cursor() == expression(precedence, old(self).cursor()).rest,
            final(self).reported() == old(self).reported(),
        decreases old(self).cursor().remaining(), precedence.rank(),
    {
        match precedence {
            PrecedenceLevel::LOW | PrecedenceLevel::MID => {
                let ghost start = self.cursor();
                let mut expr = match self.parse_expr(precedence.next()) {
                    Ok(first) => first,
                    Err(error) => return Err(error),
                };
                proof {
                    start.lemma_token_advances();
                    lemma_progress(precedence.tighter(), start);
                }
                loop
                    invariant
                        self.reported() == old(self).reported(),
                        start == old(self).cursor(),
                        self.cursor().remaining() <= start.remaining(),
                        precedence.rank() >= 3,
                        expression(precedence, start) == chain(precedence, expr, self.cursor()),
                    ensures
                        self.reported() == old(self).reported(),
                        expression(precedence, start) == (Parsed {
                            result: Ok(expr),
                            rest: self.cursor(),
                        }),
                    decreases self.cursor().remaining(),
                {
                    let ghost here = self.cursor();
                    proof {
                        here.lemma_token_advances();
                        here.after_token().lemma_token_advances();
                        lemma_progress(precedence.tighter(), here.after_token());
                    }
                    let token = self.lexer.view_token();
                    match token {
                        Token::Operator(_, operator) => {
                            if !operator.is_binary() {
                                return Err(Error::unexpected(&token, "a binary operator"));
                            }
                            if !precedence.binds(&operator) {
                                break ;
                            }
                            self.lexer.drop_token();
                            let right = match self.parse_expr(precedence.next()) {
                                Ok(right) => right,
                                Err(error) => return Err(error),
                            };
                            expr = Expr::BinaryOperation(operator, Box::new(expr), Box::new(right));
                        },
                        _ => {
                            break ;
                        },
                    }
                }
                Ok(expr)
            },
            PrecedenceLevel::MAX => match self.parse_value() {
                Ok(single) => Ok(Expr::Value(single)),
                Err(error) => Err(error),
            },
        }
    }

    /// Reads one statement.
    pub fn parse_statement(&mut self) -> (result: Result<Statement, Error>)
        ensures
            agrees(result, statement(old(self).cursor()).result),
            final(self).cursor() == statement(old(self).cursor()).rest,
            final(self).reported() == old(self).reported(),
    {
        let first = self.lexer.view_token();
        if let Token::EOF(_) = first {
            return Err(Error::end_of_input(&first));
        }
        let expr = match self.parse_expr(PrecedenceLevel::LOW) {
            Ok(expr) => expr,
            Err(error) => return Err(error),
        };
        proof {
            lemma_progress(PrecedenceLevel::LOW, old(self).cursor());
            self.cursor().lemma_token_advances();
        }
        let last = self.lexer.get_token();
        match last {
            Token::Error(_) => Err(Error::lexical_abort(&self.lexer, &last)),
            Token::Terminator(_) => Ok(Statement { expr }),
            _ => Err(Error::unexpected(&last, "';'")),
        }
    }

    /// Reads statements until the parse aborts, and returns those that were
    /// read.  Each syntax error is reported and skipped; the abort itself
    /// is not reported, only the lexical error behind it if there is one.
    pub fn parse(&mut self) -> (parsed: Program)
        ensures
            parsed.statements@ == program(old(self).cursor()).statements,
            final(self).reported() == old(self).reported() + program(
                old(self).cursor(),
            ).diagnostics,
            final(self).cursor() == program(old(self).cursor()).rest,
    {
        let mut statements: Vec<Statement> = Vec::new();
        let ghost start = self.cursor();
        loop
            invariant_except_break
                program(start).statements == statements@ + program(self.cursor()).statements,
                old(self).reported() + program(start).diagnostics == self.reported() + program(
                    self.cursor(),
                ).diagnostics,
                program(start).rest == program(self.cursor()).rest,
            invariant
                start == old(self).cursor(),
            ensures
                program(start).statements == statements@,
                old(self).reported() + program(start).diagnostics == self.reported(),
                program(start).rest == self.cursor(),
            decreases self.cursor().remaining(),
        {
            proof {
                lemma_statement_progress(self.cursor());
            }
            match self.parse_statement() {
                Ok(statement) => statements.push(statement),
                Err(error) => match error.kind {
                    ErrorKind::Abort => {
                        if let Some(cause) = error.cause {
                            self.diagnostics.push(cause);
                        }
                        break ;
                    },
                    ErrorKind::SyntaxError => self.diagnostics.push(error.to_string()),
                },
            }
        }
        Program { statements }
    }
}

} // verus!
