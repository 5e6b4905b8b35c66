//! The evaluator: from the syntax tree to a value or an error.
//!
//! [`eval_expr`] and [`eval_value`] say what a tree evaluates to, with
//! [`binary`] and [`negation`] for what the operators make of values.  The
//! methods of [`Runtime`], with [`combine`] and [`negate`], are proved to
//! compute them.  No error is caught on the way up: the first one ends the
//! evaluation, and [`Runtime::run`] hands it to its caller, who decides
//! what becomes of the session.

use vstd::prelude::*;
use vstd::string::*;

use crate::ast::Expr;
use crate::ast::Program;
use crate::ast::Statement;
use crate::ast::Value;
use crate::lexer::Cursor;
use crate::grammar::lemma_program_shape;
use crate::grammar::well_formed;
use crate::grammar::well_formed_value;
use crate::parser::program;
use crate::runtime::utils::Data;
use crate::runtime::utils::DataKind;
use crate::runtime::utils::DataValue;
use crate::runtime::utils::Error;
use crate::runtime::utils::ErrorKind;
use crate::runtime::utils::Failure;
use crate::runtime::utils::Frame;
use crate::runtime::utils::Integer;
use crate::runtime::utils::Null;
use crate::runtime::utils::quotient;
use crate::runtime::utils::Number;
use crate::text::decimal;
use crate::text::push_decimal;
use crate::agrees;
use crate::Operator;

pub mod utils;

verus! {

/// The error of a division by zero.
pub open spec fn division_by_zero() -> Failure {
    Failure { kind: ErrorKind::OperationError, message: "Cannot divide by zero."@ }
}

/// The error of an operation whose result the representation of its
/// operands cannot hold.
pub open spec fn overflow(operator: Operator) -> Failure {
    Failure {
        kind: ErrorKind::OperationError,
        message: operator.quoted() + " operator overflowed."@,
    }
}

/// The error of an unsigned operand that meets a signed one, or is
/// negated, and is too large for the signed representation.
pub open spec fn unrepresentable(value: u64) -> Failure {
    Failure {
        kind: ErrorKind::OperationError,
        message: "Cannot represent "@ + decimal(value as nat) + " as a signed integer."@,
    }
}

/// The error of a binary operation with a null operand.
pub open spec fn unsupported_pair(operator: Operator, left: DataKind, right: DataKind) -> Failure {
    Failure {
        kind: ErrorKind::OperationError,
        message: operator.quoted() + " operator is not supported for types: "@ + left.name()
            + " and "@ + right.name() + "."@,
    }
}

/// The error of a negation of null.
pub open spec fn unsupported_operand(operator: Operator) -> Failure {
    Failure {
        kind: ErrorKind::OperationError,
        message: operator.quoted() + " operator is not supported for type: Null."@,
    }
}

/// The error of an operator in front of a value that is not `-`.
pub open spec fn unsupported_unary(operator: Operator) -> Failure {
    Failure {
        kind: ErrorKind::InternalError,
        message: "Unsupported unary operator '"@ + operator.quoted() + "'."@,
    }
}

/// The number that a binary operator makes of two numbers.  Division
/// rounds toward zero.
pub open spec fn apply(operator: Operator, x: int, y: int) -> int {
    match operator {
        Operator::Add => x + y,
        Operator::Divide => quotient(x, y),
        Operator::Multiply => x * y,
        Operator::Subtract => x - y,
    }
}

/// A binary operation on two numbers of one representation: a division
/// by zero is an error, and so is a result that the representation cannot
/// hold.
pub open spec fn operation<T: Number>(operator: Operator, x: T, y: T) -> Result<int, Failure> {
    if operator is Divide && y.number() == 0 {
        Err(division_by_zero())
    } else if T::holds(apply(operator, x.number(), y.number())) {
        Ok(apply(operator, x.number(), y.number()))
    } else {
        Err(overflow(operator))
    }
}

/// The signed number for an unsigned one, where there is one.
pub open spec fn signed(value: u64) -> Result<i64, Failure> {
    if value <= i64::MAX {
        Ok(value as i64)
    } else {
        Err(unrepresentable(value))
    }
}

/// A binary operation on two values.  With a null operand it is an error.
/// Two integers of one representation are computed in it; of a signed and
/// an unsigned one, the unsigned one is taken to the signed representation
/// first.  A division by zero is the error of that name whatever the
/// dividend, also one that the signed representation cannot hold.
pub open spec fn binary(operator: Operator, left: DataValue, right: DataValue) -> Result<
    DataValue,
    Failure,
> {
    match (left, right) {
        (DataValue::Null, _) => Err(unsupported_pair(operator, DataKind::Null, right.kind_of())),
        (_, DataValue::Null) => Err(unsupported_pair(operator, left.kind_of(), DataKind::Null)),
        (DataValue::I64(x), DataValue::I64(y)) => signed_operation(operator, x, y),
        (DataValue::I64(x), DataValue::U64(y)) => match signed(y) {
            Ok(y) => signed_operation(operator, x, y),
            Err(failure) => Err(failure),
        },
        (DataValue::U64(x), DataValue::I64(y)) => if operator is Divide && y == 0 {
            Err(division_by_zero())
        } else {
            match signed(x) {
                Ok(x) => signed_operation(operator, x, y),
                Err(failure) => Err(failure),
            }
        },
        (DataValue::U64(x), DataValue::U64(y)) => match operation(operator, x, y) {
            Ok(n) => Ok(DataValue::U64(n as u64)),
            Err(failure) => Err(failure),
        },
    }
}

/// A binary operation in the signed representation.
pub open spec fn signed_operation(operator: Operator, x: i64, y: i64) -> Result<
    DataValue,
    Failure,
> {
    match operation(operator, x, y) {
        Ok(n) => Ok(DataValue::I64(n as i64)),
        Err(failure) => Err(failure),
    }
}

/// The negation of a value: signed, whatever the representation of the
/// operand.  Of null it is an error.
pub open spec fn negation(operand: DataValue) -> Result<DataValue, Failure> {
    match operand {
        DataValue::I64(x) => if i64::holds(-x) {
            Ok(DataValue::I64((-x) as i64))
        } else {
            Err(overflow(Operator::Subtract))
        },
        DataValue::Null => Err(unsupported_operand(Operator::Subtract)),
        DataValue::U64(x) => match signed(x) {
            Ok(x) => Ok(DataValue::I64((-x) as i64)),
            Err(failure) => Err(failure),
        },
    }
}

/// What an expression evaluates to: the left operand first, then the
/// right one, then the operation.
pub open spec fn eval_expr(expr: Expr) -> Result<DataValue, Failure>
    decreases expr,
{
    match expr {
        Expr::BinaryOperation(operator, left, right) => match eval_expr(*left) {
            Ok(x) => match eval_expr(*right) {
                Ok(y) => binary(operator, x, y),
                Err(failure) => Err(failure),
            },
            Err(failure) => Err(failure),
        },
        Expr::Value(value) => eval_value(value),
    }
}

/// What a value evaluates to.  A literal is unsigned.
pub open spec fn eval_value(value: Value) -> Result<DataValue, Failure>
    decreases value,
{
    match value {
        Value::Expr(expr) => eval_expr(*expr),
        Value::Integer(n) => Ok(DataValue::U64(n)),
        Value::Null => Ok(DataValue::Null),
        Value::UnaryOperation(operator, operand) => match operator {
            Operator::Subtract => match eval_value(*operand) {
                Ok(x) => negation(x),
                Err(failure) => Err(failure),
            },
            _ => Err(unsupported_unary(operator)),
        },
    }
}

/// What a statement evaluates to.
pub open spec fn eval_statement(statement: Statement) -> Result<DataValue, Failure> {
    eval_expr(statement.expr)
}

fn division_by_zero_error() -> (error: Error)
    ensures
        error@ == division_by_zero(),
{
    Error { kind: ErrorKind::OperationError, message: String::from_str("Cannot divide by zero.") }
}

fn overflow_error(operator: &Operator) -> (error: Error)
    ensures
        error@ == overflow(*operator),
{
    let mut message = operator.to_string();
    message.append(" operator overflowed.");
    Error { kind: ErrorKind::OperationError, message }
}

fn unsupported_pair_error(operator: &Operator, left: DataKind, right: DataKind) -> (error: Error)
    ensures
        error@ == unsupported_pair(*operator, left, right),
{
    let mut message = operator.to_string();
    message.append(" operator is not supported for types: ");
    message.append(left.to_string().as_str());
    message.append(" and ");
    message.append(right.to_string().as_str());
    message.append(".");
    Error { kind: ErrorKind::OperationError, message }
}

fn unsupported_operand_error(operator: &Operator) -> (error: Error)
    ensures
        error@ == unsupported_operand(*operator),
{
    let mut message = operator.to_string();
    message.append(" operator is not supported for type: Null.");
    Error { kind: ErrorKind::OperationError, message }
}

fn unsupported_unary_error(operator: &Operator) -> (error: Error)
    ensures
        error@ == unsupported_unary(*operator),
{
    let mut message = String::from_str("Unsupported unary operator '");
    message.append(operator.to_string().as_str());
    message.append("'.");
    Error { kind: ErrorKind::InternalError, message }
}

/// The signed number for an unsigned one, or the error if there is none.
pub fn to_signed(value: u64) -> (result: Result<i64, Error>)
    ensures
        agrees(result, signed(value)),
{
    if value <= i64::MAX as u64 {
        Ok(value as i64)
    } else {
        let mut message = String::from_str("Cannot represent ");
        push_decimal(&mut message, value);
        message.append(" as a signed integer.");
        Err(Error { kind: ErrorKind::OperationError, message })
    }
}

/// One binary operation on two numbers of one representation.
pub fn operate<T: Number>(operator: &Operator, x: T, y: T) -> (result: Result<T, Error>)
    ensures
        match operation(*operator, x, y) {
            Ok(n) => result matches Ok(value) && value.number() == n,
            Err(failure) => result matches Err(error) && error@ == failure,
        },
{
    let held = match operator {
        Operator::Add => crate::runtime::utils::add(x, y),
        Operator::Divide => {
            if y.is_zero() {
                return Err(division_by_zero_error());
            }
            crate::runtime::utils::div(x, y)
        },
        Operator::Multiply => crate::runtime::utils::mul(x, y),
        Operator::Subtract => crate::runtime::utils::sub(x, y),
    };
    match held {
        Some(value) => Ok(value),
        None => Err(overflow_error(operator)),
    }
}

/// One binary operation on two values.
pub fn combine(operator: &Operator, left: DataValue, right: DataValue) -> (result: Result<
    DataValue,
    Error,
>)
    ensures
        agrees(result, binary(*operator, left, right)),
{
    match (left, right) {
        (DataValue::Null, _) => Err(unsupported_pair_error(operator, left.kind(), right.kind())),
        (_, DataValue::Null) => Err(unsupported_pair_error(operator, left.kind(), right.kind())),
        (DataValue::I64(x), DataValue::I64(y)) => match operate(operator, x, y) {
            Ok(value) => Ok(Integer { value }.value()),
            Err(error) => Err(error),
        },
        (DataValue::I64(x), DataValue::U64(y)) => match to_signed(y) {
            Ok(y) => match operate(operator, x, y) {
                Ok(value) => Ok(Integer { value }.value()),
                Err(error) => Err(error),
            },
            Err(error) => Err(error),
        },
        (DataValue::U64(x), DataValue::I64(y)) => {
            if matches!(operator, Operator::Divide) && y == 0 {
                return Err(division_by_zero_error());
            }
            match to_signed(x) {
                Ok(x) => match operate(operator, x, y) {
                    Ok(value) => Ok(Integer { value }.value()),
                    Err(error) => Err(error),
                },
                Err(error) => Err(error),
            }
        },
        (DataValue::U64(x), DataValue::U64(y)) => match operate(operator, x, y) {
            Ok(value) => Ok(Integer { value }.value()),
            Err(error) => Err(error),
        },
    }
}

/// The negation of a value.
pub fn negate(operand: DataValue) -> (result: Result<DataValue, Error>)
    ensures
        agrees(result, negation(operand)),
{
    match operand {
        DataValue::I64(value) => match crate::runtime::utils::sub(0i64, value) {
            Some(value) => Ok(Integer { value }.value()),
            None => Err(overflow_error(&Operator::Subtract)),
        },
        DataValue::Null => Err(unsupported_operand_error(&Operator::Subtract)),
        DataValue::U64(value) => match to_signed(value) {
            Ok(value) => Ok(Integer { value: -value }.value()),
            Err(error) => Err(error),
        },
    }
}

/// What [`Runtime::run`] hands back when a statement fails: the frame
/// that was running, the index of the statement, and the error.
#[derive(Debug, PartialEq, Eq)]
pub struct Fault {
    pub frame: String,
    pub statement: usize,
    pub error: Error,
}

/// A [`Fault`] in specifications.
pub struct Halt {
    pub frame: Seq<char>,
    pub statement: nat,
    pub error: Failure,
}

impl Halt {
    /// The diagnostic of the fault, in three lines: the frame, the
    /// statement, and the error.
    pub open spec fn text(self) -> Seq<char> {
        "Frame '"@ + self.frame + "',\nStatement "@ + decimal(self.statement) + ",\n"@
            + self.error.text()
    }
}

impl View for Fault {
    type V = Halt;

    open spec fn view(&self) -> Halt {
        Halt { frame: self.frame@, statement: self.statement as nat, error: self.error@ }
    }
}

impl Fault {
    /// The diagnostic of the fault.
    pub fn to_string(&self) -> (s: String)
        ensures
            s@ == self@.text(),
    {
        let mut s = String::from_str("Frame '");
        s.append(self.frame.as_str());
        s.append("',\nStatement ");
        push_decimal(&mut s, self.statement as u64);
        s.append(",\n");
        s.append(self.error.to_string().as_str());
        s
    }
}

/// That the run of `statements` ends as `result` says: with `Ok` where
/// every statement evaluates, and else with the error of the first one
/// that fails, at its index.
pub open spec fn ran(
    statements: Seq<Statement>,
    frame: Seq<char>,
    result: Result<(), Fault>,
) -> bool {
    match result {
        Ok(_) => forall|i: int| 0 <= i < statements.len() ==> eval_statement(statements[i]) is Ok,
        Err(fault) => {
            &&& fault@.frame == frame
            &&& fault@.statement < statements.len()
            &&& eval_statement(statements[fault@.statement as int]) == Err::<DataValue, Failure>(
                fault@.error,
            )
            &&& forall|i: int| 0 <= i < fault@.statement ==> eval_statement(statements[i]) is Ok
        },
    }
}

/// The evaluator: a stack of frames, and the index of the statement that
/// is running.
pub struct Runtime {
    counter: usize,
    stack: Vec<Frame>,
}

impl Runtime {
    /// The index of the statement that is running.
    pub closed spec fn counter(&self) -> nat {
        self.counter as nat
    }

    /// The frames of the runs that are under way, the outermost first.
    pub closed spec fn stack(&self) -> Seq<Frame> {
        self.stack@
    }

    /// An evaluator with no frame, at statement 0.
    pub fn new() -> (runtime: Self)
        ensures
            runtime.counter() == 0,
            runtime.stack().len() == 0,
    {
        Self { counter: 0, stack: Vec::new() }
    }

    /// Evaluates an expression.
    pub fn evalute_expr(&self, expr: &Expr) -> (result: Result<DataValue, Error>)
        ensures
            agrees(result, eval_expr(*expr)),
        decreases expr,
    {
        match expr {
            Expr::BinaryOperation(operator, lhs, rhs) => {
                let x = match self.evalute_expr(lhs) {
                    Ok(x) => x,
                    Err(error) => return Err(error),
                };
                let y = match self.evalute_expr(rhs) {
                    Ok(y) => y,
                    Err(error) => return Err(error),
                };
                combine(operator, x, y)
            },
            Expr::Value(value) => self.evalute_value(value),
        }
    }

    /// Evaluates a statement.
    pub fn evalute_statement(&self, statement: &Statement) -> (result: Result<DataValue, Error>)
        ensures
            agrees(result, eval_statement(*statement)),
    {
        self.evalute_expr(&statement.expr)
    }

    /// Evaluates a value.
    pub fn evalute_value(&self, value: &Value) -> (result: Result<DataValue, Error>)
        ensures
            agrees(result, eval_value(*value)),
        decreases value,
    {
        match value {
            Value::Expr(expr) => self.evalute_expr(expr),
            Value::Integer(value) => Ok(Integer { value: *value }.value()),
            Value::Null => Ok(Null {}.value()),
            Value::UnaryOperation(operator, rhs) => {
                match operator {
                    Operator::Subtract => match self.evalute_value(rhs) {
                        Ok(operand) => negate(operand),
                        Err(error) => Err(error),
                    },
                    _ => Err(unsupported_unary_error(operator)),
                }
            },
        }
    }

    /// Runs the statements of `program` in order, in a new frame named
    /// `frame`.  The first statement that fails ends the run, and its
    /// error is returned with the frame's name and the statement's index;
    /// no statement behind it is evaluated.  In either case the frame is
    /// gone again when `run` returns, and the statement index is what it
    /// was before.
    pub fn run(&mut self, frame: &str, program: &Program) -> (result: Result<(), Fault>)
        ensures
            final(self).counter() == old(self).counter(),
            final(self).stack() == old(self).stack(),
            ran(program.statements@, frame@, result),
    {
        let counter = self.counter;
        self.counter = 0;
        self.stack.push(Frame::new(frame));
        let mut result: Result<(), Fault> = Ok(());
        while self.counter < program.statements.len()
            invariant_except_break
                result.is_ok(),
            invariant
                self.counter <= program.statements@.len(),
                self.stack@ == old(self).stack@.push(self.stack@.last()),
                forall|i: int|
                    0 <= i < self.counter ==> eval_statement(program.statements@[i]) is Ok,
            ensures
                result.is_ok() ==> self.counter == program.statements@.len(),
                ran(program.statements@, frame@, result),
            decreases program.statements@.len() - self.counter,
        {
            match self.evalute_statement(&program.statements[self.counter]) {
                Ok(_) => (),
                Err(error) => {
                    result =
                    Err(Fault { frame: String::from_str(frame), statement: self.counter, error });
                    break ;
                },
            }
            self.counter += 1;
        }
        self.stack.pop();
        self.counter = counter;
        result
    }
}

/// That a result is an internal error.
pub open spec fn internal<T>(result: Result<T, Failure>) -> bool {
    result matches Err(failure) && failure.kind is InternalError
}

/// A well-formed tree never evaluates to an internal error.
pub proof fn lemma_no_internal_error(expr: Expr)
    requires
        well_formed(expr),
    ensures
        !internal(eval_expr(expr)),
    decreases expr,
{
    match expr {
        Expr::BinaryOperation(_, left, right) => {
            lemma_no_internal_error(*left);
            lemma_no_internal_error(*right);
        },
        Expr::Value(value) => {
            lemma_no_internal_error_in_value(value);
        },
    }
}

proof fn lemma_no_internal_error_in_value(value: Value)
    requires
        well_formed_value(value),
    ensures
        !internal(eval_value(value)),
    decreases value,
{
    match value {
        Value::Expr(expr) => {
            lemma_no_internal_error(*expr);
        },
        Value::UnaryOperation(_, operand) => {
            lemma_no_internal_error_in_value(*operand);
        },
        _ => {},
    }
}

/// No statement that the parser reads evaluates to an internal error:
/// whatever the text, a run of its program ends with `Ok` or with an
/// operation error.
pub proof fn lemma_parsed_programs_raise_no_internal_error(c: Cursor, i: int)
    requires
        0 <= i < program(c).statements.len(),
    ensures
        !internal(eval_statement(program(c).statements[i])),
{
    lemma_program_shape(c, i);
    lemma_no_internal_error(program(c).statements[i].expr);
}

} // verus!
