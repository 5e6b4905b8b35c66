//! Runtime values, their arithmetic, and the errors of evaluation.

use vstd::prelude::*;
use vstd::string::*;

use crate::text::decimal;
use crate::text::push_decimal;
use crate::text::signed_decimal;

verus! {

/// What every runtime value can be asked: its kind, and its payload.
pub trait Data {
    spec fn kind_of(&self) -> DataKind;

    spec fn value_of(&self) -> DataValue;

    fn kind(&self) -> (kind: DataKind)
        ensures
            kind == self.kind_of(),
    ;

    fn value(&self) -> (value: DataValue)
        ensures
            value == self.value_of(),
    ;
}

/// What kind of value a runtime value is.
#[derive(Clone, Copy, Debug, PartialEq, Eq)]
pub enum DataKind {
    Integer,
    Null,
}

/// A runtime value: an integer in its signed or its unsigned
/// representation, or null.  Literals are unsigned and negation gives
/// signed, so that neither loses a number the other could hold.
#[derive(Clone, Copy, Debug, PartialEq, Eq)]
pub enum DataValue {
    I64(i64),
    Null,
    U64(u64),
}

/// An error of evaluation.
#[derive(Debug, PartialEq, Eq)]
pub struct Error {
    pub kind: ErrorKind,
    pub message: String,
}

/// `OperationError` for an operation that the operands do not allow;
/// `InternalError` for a tree that the parser never builds.
#[derive(Clone, Copy, Debug, PartialEq, Eq)]
pub enum ErrorKind {
    InternalError,
    OperationError,
}

/// An error of evaluation in specifications.
pub struct Failure {
    pub kind: ErrorKind,
    pub message: Seq<char>,
}

/// The scope of one run of the evaluator.
#[derive(Debug, PartialEq, Eq)]
pub struct Frame {
    pub name: String,
    pub variables: Vec<DataValue>,
}

/// An integer value in the representation `I`.
#[derive(Debug, PartialEq, Eq)]
pub struct Integer<I> {
    pub value: I,
}

/// The null value.
#[derive(Clone, Copy, Debug, PartialEq, Eq)]
pub struct Null {}

/// A machine integer that the evaluator computes in.  Each operation gives
/// the exact result where the representation can hold it, and nothing
/// where it cannot; a division by zero gives nothing either.
pub trait Number: Copy {
    /// The number that the value stands for.
    spec fn number(self) -> int;

    /// Whether the representation can hold `n`.
    spec fn holds(n: int) -> bool;

    fn is_zero(self) -> (zero: bool)
        ensures
            zero == (self.number() == 0),
    ;

    fn sum(self, other: Self) -> (held: Option<Self>)
        ensures
            match held {
                Some(value) => {
                    &&& Self::holds(self.number() + other.number())
                    &&& value.number() == self.number() + other.number()
                },
                None => !Self::holds(self.number() + other.number()),
            },
    ;

    fn difference(self, other: Self) -> (held: Option<Self>)
        ensures
            match held {
                Some(value) => {
                    &&& Self::holds(self.number() - other.number())
                    &&& value.number() == self.number() - other.number()
                },
                None => !Self::holds(self.number() - other.number()),
            },
    ;

    fn product(self, other: Self) -> (held: Option<Self>)
        ensures
            match held {
                Some(value) => {
                    &&& Self::holds(self.number() * other.number())
                    &&& value.number() == self.number() * other.number()
                },
                None => !Self::holds(self.number() * other.number()),
            },
    ;

    fn quotient(self, other: Self) -> (held: Option<Self>)
        ensures
            match held {
                Some(value) => {
                    &&& other.number() != 0
                    &&& Self::holds(quotient(self.number(), other.number()))
                    &&& value.number() == quotient(self.number(), other.number())
                },
                None => {
                    ||| other.number() == 0
                    ||| !Self::holds(quotient(self.number(), other.number()))
                },
            },
    ;
}

/// That `held` is the number `n` where the representation can hold it, and
/// nothing where it cannot.
pub open spec fn holding<T: Number>(held: Option<T>, n: int) -> bool {
    match held {
        Some(value) => T::holds(n) && value.number() == n,
        None => !T::holds(n),
    }
}

/// The quotient of a division that rounds toward zero.
pub open spec fn quotient(x: int, y: int) -> int
    recommends
        y != 0,
{
    let magnitude = (if x < 0 {
        -x
    } else {
        x
    }) / (if y < 0 {
        -y
    } else {
        y
    });
    if (x < 0) == (y < 0) {
        magnitude
    } else {
        -magnitude
    }
}

impl DataKind {
    /// The kind as diagnostics show it.
    pub open spec fn name(self) -> Seq<char> {
        match self {
            DataKind::Integer => "Integer"@,
            DataKind::Null => "Null"@,
        }
    }

    /// The kind as diagnostics show it.
    pub fn to_string(&self) -> (s: String)
        ensures
            s@ == self.name(),
    {
        match self {
            DataKind::Integer => String::from_str("Integer"),
            DataKind::Null => String::from_str("Null"),
        }
    }
}

impl DataValue {
    /// The value as it is printed: the decimal numeral of an integer, and
    /// `Null`.
    pub open spec fn text(self) -> Seq<char> {
        match self {
            DataValue::I64(value) => signed_decimal(value as int),
            DataValue::Null => "Null"@,
            DataValue::U64(value) => decimal(value as nat),
        }
    }

    /// The value as it is printed.
    pub fn to_string(&self) -> (s: String)
        ensures
            s@ == self.text(),
    {
        match self {
            DataValue::I64(value) => {
                if *value < 0 {
                    proof {
                        reveal_strlit("-");
                    }
                    let mut s = String::from_str("-");
                    push_decimal(&mut s, (-(*value as i128)) as u64);
                    s
                } else {
                    let mut s = String::new();
                    push_decimal(&mut s, *value as u64);
                    s
                }
            },
            DataValue::Null => String::from_str("Null"),
            DataValue::U64(value) => {
                let mut s = String::new();
                push_decimal(&mut s, *value);
                s
            },
        }
    }
}

impl ErrorKind {
    /// The kind as diagnostics show it.
    pub open spec fn name(self) -> Seq<char> {
        match self {
            ErrorKind::InternalError => "InternalError"@,
            ErrorKind::OperationError => "OperationError"@,
        }
    }
}

impl Failure {
    /// The diagnostic line of the error: its kind, a colon and its message.
    pub open spec fn text(self) -> Seq<char> {
        self.kind.name() + ": "@ + self.message
    }
}

impl View for Error {
    type V = Failure;

    open spec fn view(&self) -> Failure {
        Failure { kind: self.kind, message: self.message@ }
    }
}

impl Error {
    /// The diagnostic line of the error.
    pub fn to_string(&self) -> (s: String)
        ensures
            s@ == self@.text(),
    {
        let mut s = match self.kind {
            ErrorKind::InternalError => String::from_str("InternalError"),
            ErrorKind::OperationError => String::from_str("OperationError"),
        };
        s.append(": ");
        s.append(self.message.as_str());
        s
    }
}

impl Frame {
    /// A frame with the given name and no variables.
    pub fn new(name: &str) -> (frame: Self)
        ensures
            frame.name@ == name@,
            frame.variables@.len() == 0,
    {
        Self { name: String::from_str(name), variables: Vec::new() }
    }
}

impl Data for Integer<i64> {
    open spec fn kind_of(&self) -> DataKind {
        DataKind::Integer
    }

    open spec fn value_of(&self) -> DataValue {
        DataValue::I64(self.value)
    }

    fn kind(&self) -> (kind: DataKind) {
        DataKind::Integer
    }

    fn value(&self) -> (value: DataValue) {
        DataValue::I64(self.value)
    }
}

impl Data for Integer<u64> {
    open spec fn kind_of(&self) -> DataKind {
        DataKind::Integer
    }

    open spec fn value_of(&self) -> DataValue {
        DataValue::U64(self.value)
    }

    fn kind(&self) -> (kind: DataKind) {
        DataKind::Integer
    }

    fn value(&self) -> (value: DataValue) {
        DataValue::U64(self.value)
    }
}

impl Data for Null {
    open spec fn kind_of(&self) -> DataKind {
        DataKind::Null
    }

    open spec fn value_of(&self) -> DataValue {
        DataValue::Null
    }

    fn kind(&self) -> (kind: DataKind) {
        DataKind::Null
    }

    fn value(&self) -> (value: DataValue) {
        DataValue::Null
    }
}

impl Data for DataValue {
    open spec fn kind_of(&self) -> DataKind {
        match self {
            DataValue::I64(_) | DataValue::U64(_) => DataKind::Integer,
            DataValue::Null => DataKind::Null,
        }
    }

    open spec fn value_of(&self) -> DataValue {
        *self
    }

    fn kind(&self) -> (kind: DataKind) {
        match self {
            DataValue::I64(_) | DataValue::U64(_) => DataKind::Integer,
            DataValue::Null => DataKind::Null,
        }
    }

    fn value(&self) -> (value: DataValue) {
        *self
    }
}

impl Number for i64 {
    open spec fn number(self) -> int {
        self as int
    }

    open spec fn holds(n: int) -> bool {
        i64::MIN <= n <= i64::MAX
    }

    fn is_zero(self) -> (zero: bool) {
        self == 0
    }

    fn sum(self, other: Self) -> (held: Option<Self>) {
        self.checked_add(other)
    }

    fn difference(self, other: Self) -> (held: Option<Self>) {
        self.checked_sub(other)
    }

    fn product(self, other: Self) -> (held: Option<Self>) {
        self.checked_mul(other)
    }

    fn quotient(self, other: Self) -> (held: Option<Self>) {
        self.checked_div(other)
    }
}

impl Number for u64 {
    open spec fn number(self) -> int {
        self as int
    }

    open spec fn holds(n: int) -> bool {
        0 <= n <= u64::MAX
    }

    fn is_zero(self) -> (zero: bool) {
        self == 0
    }

    fn sum(self, other: Self) -> (held: Option<Self>) {
        self.checked_add(other)
    }

    fn difference(self, other: Self) -> (held: Option<Self>) {
        self.checked_sub(other)
    }

    fn product(self, other: Self) -> (held: Option<Self>) {
        self.checked_mul(other)
    }

    fn quotient(self, other: Self) -> (held: Option<Self>) {
        self.checked_div(other)
    }
}

/// The sum, where the representation can hold it.
pub fn add<T: Number>(x: T, y: T) -> (held: Option<T>)
    ensures
        holding(held, x.number() + y.number()),
{
    x.sum(y)
}

/// The quotient, rounded toward zero, where the divisor is not zero and
/// the representation can hold the quotient.
pub fn div<T: Number>(x: T, y: T) -> (held: Option<T>)
    ensures
        y.number() == 0 ==> held.is_none(),
        y.number() != 0 ==> holding(held, quotient(x.number(), y.number())),
{
    x.quotient(y)
}

/// The product, where the representation can hold it.
pub fn mul<T: Number>(x: T, y: T) -> (held: Option<T>)
    ensures
        holding(held, x.number() * y.number()),
{
    x.product(y)
}

/// The difference, where the representation can hold it.
pub fn sub<T: Number>(x: T, y: T) -> (held: Option<T>)
    ensures
        holding(held, x.number() - y.number()),
{
    x.difference(y)
}

} // verus!
