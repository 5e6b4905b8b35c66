//! The syntax tree.  Every node owns its children.

use vstd::prelude::*;

use crate::Operator;

verus! {

/// An expression: two expressions under a binary operator, or one value.
#[derive(Debug, PartialEq, Eq)]
pub enum Expr {
    BinaryOperation(Operator, Box<Expr>, Box<Expr>),
    Value(Value),
}

/// A program: its statements in their order.
#[derive(Debug, PartialEq, Eq)]
pub struct Program {
    pub statements: Vec<Statement>,
}

/// A statement: one expression.
#[derive(Debug, PartialEq, Eq)]
pub struct Statement {
    pub expr: Expr,
}

/// A value: an expression in parentheses, an integer literal, the empty
/// parentheses, or a value under a unary operator.
#[derive(Debug, PartialEq, Eq)]
pub enum Value {
    Expr(Box<Expr>),
    Integer(u64),
    Null,
    UnaryOperation(Operator, Box<Value>),
}

} // verus!
