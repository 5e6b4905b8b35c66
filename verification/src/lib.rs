//! A small interpreter for arithmetic statements: integer literals, unary
//! negation, the four binary operators, parentheses, the empty
//! parenthesis `()` for null, and `;` at the end of each statement.
//!
//! Text goes through the [`lexer`] to tokens, through the [`parser`] to a
//! syntax tree, and through the [`runtime`] to a value or an error.  Each
//! stage is specified by functions on plain mathematical values, and the
//! executable code is proved to compute exactly those.  [`grammar`] holds
//! the laws that tie the parser's trees to the grammar.
//!
//! Nothing here prints or ends the process.  Diagnostics are strings that
//! the parser keeps for its caller, and a statement that fails comes back
//! from [`runtime::Runtime::run`] as an error value.

use vstd::prelude::*;
use vstd::string::*;

use crate::text::decimal;
use crate::text::push_decimal;

pub mod ast;
pub mod grammar;
pub mod lexer;
pub mod parser;
pub mod runtime;
pub mod text;
pub mod token;

verus! {

/// The four arithmetic operators of the language.
#[derive(Clone, Copy, Debug, PartialEq, Eq)]
pub enum Operator {
    Add,
    Divide,
    Multiply,
    Subtract,
}

/// A place in the text: `index` counts characters from 0, `line` and
/// `column` count from 1.
#[derive(Clone, Copy, Debug, PartialEq, Eq)]
pub struct Position {
    pub column: usize,
    pub index: usize,
    pub line: usize,
}

/// That an executable result is the one that a specification names: the
/// same value, or an error with that view.
pub open spec fn agrees<T, E: View>(result: Result<T, E>, expected: Result<T, E::V>) -> bool {
    match result {
        Ok(value) => expected == Ok::<T, E::V>(value),
        Err(error) => expected == Err::<T, E::V>(error@),
    }
}

impl Position {
    /// The position as diagnostics show it: `line`, the line, a colon and
    /// the column.
    pub open spec fn label(self) -> Seq<char> {
        "line "@ + decimal(self.line as nat) + ":"@ + decimal(self.column as nat)
    }

    /// The position as diagnostics show it.
    pub fn to_string(&self) -> (s: String)
        ensures
            s@ == self.label(),
    {
        let mut s = String::from_str("line ");
        push_decimal(&mut s, self.line as u64);
        s.append(":");
        push_decimal(&mut s, self.column as u64);
        s
    }
}

impl Operator {
    /// Whether the operator can stand between two operands: all four can.
    pub open spec fn binary(self) -> bool {
        true
    }

    /// Whether the operator can stand in front of one operand: only `-` can.
    pub open spec fn unary(self) -> bool {
        self is Subtract
    }

    /// The operator as diagnostics show it: its symbol between single quotes.
    pub open spec fn quoted(self) -> Seq<char> {
        match self {
            Operator::Add => "'+'"@,
            Operator::Divide => "'/'"@,
            Operator::Multiply => "'*'"@,
            Operator::Subtract => "'-'"@,
        }
    }

    /// Whether the operator can stand between two operands.
    pub fn is_binary(&self) -> (b: bool)
        ensures
            b == self.binary(),
    {
        match self {
            Operator::Add => true,
            Operator::Divide => true,
            Operator::Multiply => true,
            Operator::Subtract => true,
        }
    }

    /// Whether the operator can stand in front of one operand.
    pub fn is_unary(&self) -> (b: bool)
        ensures
            b == self.unary(),
    {
        matches!(self, Operator::Subtract)
    }

    /// The operator as diagnostics show it.
    pub fn to_string(&self) -> (s: String)
        ensures
            s@ == self.quoted(),
    {
        match self {
            Operator::Add => String::from_str("'+'"),
            Operator::Divide => String::from_str("'/'"),
            Operator::Multiply => String::from_str("'*'"),
            Operator::Subtract => String::from_str("'-'"),
        }
    }
}

} // verus!
