//! The vocabulary that the lexer emits and the parser consumes.

use vstd::prelude::*;
use vstd::string::*;

use crate::Operator;
use crate::Position;

verus! {

/// One token, with the position of its first character.  `EOF` carries the
/// position at which the text ended.
#[derive(Clone, Copy, Debug, PartialEq, Eq)]
pub enum Token {
    Error(Position),
    EOF(Position),
    Integer(Position, u64),
    Operator(Position, Operator),
    ParenthesisL(Position),
    ParenthesisR(Position),
    Terminator(Position),
}

/// What a token says, whatever its position.
pub enum Symbol {
    Error,
    EOF,
    Integer(u64),
    Operator(Operator),
    ParenthesisL,
    ParenthesisR,
    Terminator,
}

impl Token {
    /// What the token says.
    pub open spec fn symbol(self) -> Symbol {
        match self {
            Token::Error(_) => Symbol::Error,
            Token::EOF(_) => Symbol::EOF,
            Token::Integer(_, value) => Symbol::Integer(value),
            Token::Operator(_, operator) => Symbol::Operator(operator),
            Token::ParenthesisL(_) => Symbol::ParenthesisL,
            Token::ParenthesisR(_) => Symbol::ParenthesisR,
            Token::Terminator(_) => Symbol::Terminator,
        }
    }

    /// Where the token stands.
    pub open spec fn place(self) -> Position {
        match self {
            Token::Error(position) => position,
            Token::EOF(position) => position,
            Token::Integer(position, _) => position,
            Token::Operator(position, _) => position,
            Token::ParenthesisL(position) => position,
            Token::ParenthesisR(position) => position,
            Token::Terminator(position) => position,
        }
    }

    /// The token as diagnostics name it.
    pub open spec fn name(self) -> Seq<char> {
        match self {
            Token::Error(_) => "Token::Error"@,
            Token::EOF(_) => "EOF (End-Of-File)"@,
            Token::Integer(_, _) => "integer"@,
            Token::Operator(_, operator) => operator.quoted(),
            Token::ParenthesisL(_) => "'('"@,
            Token::ParenthesisR(_) => "')'"@,
            Token::Terminator(_) => "';'"@,
        }
    }

    /// Where the token stands.
    pub fn position(&self) -> (position: &Position)
        ensures
            *position == self.place(),
    {
        match self {
            Token::Error(position) => position,
            Token::EOF(position) => position,
            Token::Integer(position, _) => position,
            Token::Operator(position, _) => position,
            Token::ParenthesisL(position) => position,
            Token::ParenthesisR(position) => position,
            Token::Terminator(position) => position,
        }
    }

    /// The token as diagnostics name it.
    pub fn to_string(&self) -> (s: String)
        ensures
            s@ == self.name(),
    {
        match self {
            Token::Error(_) => String::from_str("Token::Error"),
            Token::EOF(_) => String::from_str("EOF (End-Of-File)"),
            Token::Integer(_, _) => String::from_str("integer"),
            Token::Operator(_, operator) => operator.to_string(),
            Token::ParenthesisL(_) => String::from_str("'('"),
            Token::ParenthesisR(_) => String::from_str("')'"),
            Token::Terminator(_) => String::from_str("';'"),
        }
    }
}

} // verus!
