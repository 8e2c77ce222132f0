//! The values of the language and what the operators make of them.
use vstd::prelude::*;
use crate::ast::FunctionStmt;
use crate::number;

verus! {

/// The wall clock, a function of the host. It takes no argument and gives
/// the time in seconds.
#[derive(Debug, PartialEq, Eq, Clone, Copy, Structural)]
pub struct NativeClock;

impl NativeClock {
    /// The number of arguments that a call must give: none.
    pub fn arity(&self) -> (n: usize)
        ensures
            n == 0,
    {
        0
    }

    /// The name of the function.
    pub fn to_string(&self) -> (name: String)
        ensures
            name@ == "clock"@,
    {
        String::from_str("clock")
    }
}

/// A function of the program: its declaration and the scope it was declared
/// in, which its body sees when it runs.
#[derive(Debug, PartialEq, Clone, Copy)]
pub struct LoxFunction<'a> {
    pub declaration: &'a FunctionStmt,
    /// The index of the scope that the function closes over.
    pub closure: usize,
}

impl<'a> LoxFunction<'a> {
    /// The function that `declaration` declares in the scope `closure`.
    pub fn new(declaration: &'a FunctionStmt, closure: usize) -> (function: Self)
        ensures
            function.declaration == declaration,
            function.closure == closure,
    {
        Self { declaration, closure }
    }

    /// The number of arguments that a call must give.
    pub fn arity(&self) -> (n: usize)
        ensures
            n == self.declaration.params@.len(),
    {
        self.declaration.params.len()
    }

    /// The name of the function.
    pub fn to_string(&self) -> (name: String)
        ensures
            name@ == self.declaration.name.lexeme@,
    {
        self.declaration.name.lexeme.clone()
    }
}

/// What can be called.
#[derive(Debug, PartialEq, Clone, Copy)]
pub enum Callable<'a> {
    Native(NativeClock),
    Function(LoxFunction<'a>),
}

/// The mathematical content of a [`Callable`].
pub enum CallableView {
    Native,
    Function { declaration: FunctionStmt, closure: int },
}

impl CallableView {
    /// The number of arguments that a call must give.
    pub open spec fn arity(&self) -> nat {
        match *self {
            CallableView::Native => 0,
            CallableView::Function { declaration, .. } => declaration.params@.len(),
        }
    }

    /// The name of the function.
    pub open spec fn name(&self) -> Seq<char> {
        match *self {
            CallableView::Native => "clock"@,
            CallableView::Function { declaration, .. } => declaration.name.lexeme@,
        }
    }
}

impl<'a> View for Callable<'a> {
    type V = CallableView;

    open spec fn view(&self) -> CallableView {
        match *self {
            Callable::Native(_) => CallableView::Native,
            Callable::Function(f) => CallableView::Function {
                declaration: *f.declaration,
                closure: f.closure as int,
            },
        }
    }
}

impl<'a> Callable<'a> {
    /// The number of arguments that a call must give.
    pub fn arity(&self) -> (n: usize)
        ensures
            n == self@.arity(),
    {
        match self {
            Callable::Native(clock) => clock.arity(),
            Callable::Function(f) => f.arity(),
        }
    }

    /// The name of the function.
    pub fn to_string(&self) -> (name: String)
        ensures
            name@ == self@.name(),
    {
        match self {
            Callable::Native(clock) => clock.to_string(),
            Callable::Function(f) => f.to_string(),
        }
    }
}

/// A value. Besides numbers, strings, booleans, `nil` and functions there
/// are two values that stand for an operation that its operands do not
/// allow; they never reach a variable or the output.
#[derive(Debug, PartialEq)]
pub enum Object<'a> {
    /// A number, by the bits of the double.
    Num(u64),
    Str(String),
    Bool(bool),
    Nil,
    Func(Callable<'a>),
    /// Tried to do an operation on incompatible types
    ArithmeticError,
    /// Tried to compare incomparable types
    ComparisonError,
}

/// The mathematical content of an [`Object`].
pub enum ObjectView {
    Num(u64),
    Str(Seq<char>),
    Bool(bool),
    Nil,
    Func(CallableView),
    ArithmeticError,
    ComparisonError,
}

impl<'a> View for Object<'a> {
    type V = ObjectView;

    open spec fn view(&self) -> ObjectView {
        match *self {
            Object::Num(bits) => ObjectView::Num(bits),
            Object::Str(text) => ObjectView::Str(text@),
            Object::Bool(b) => ObjectView::Bool(b),
            Object::Nil => ObjectView::Nil,
            Object::Func(f) => ObjectView::Func(f@),
            Object::ArithmeticError => ObjectView::ArithmeticError,
            Object::ComparisonError => ObjectView::ComparisonError,
        }
    }
}

/// The views of a sequence of values, in order.
pub open spec fn object_views<'a>(values: Seq<Object<'a>>) -> Seq<ObjectView> {
    values.map_values(|v: Object<'a>| v@)
}

impl<'a> Clone for Object<'a> {
    fn clone(&self) -> (copy: Self)
        ensures
            copy == *self,
    {
        match self {
            Object::Num(bits) => Object::Num(*bits),
            Object::Str(text) => Object::Str(text.clone()),
            Object::Bool(b) => Object::Bool(*b),
            Object::Nil => Object::Nil,
            Object::Func(f) => Object::Func(*f),
            Object::ArithmeticError => Object::ArithmeticError,
            Object::ComparisonError => Object::ComparisonError,
        }
    }
}

/// `nil` and `false` are false, everything else is true.
pub open spec fn truthy(value: ObjectView) -> bool {
    !(value is Nil) && value != ObjectView::Bool(false)
}

/// Whether the value stands for an operation that failed.
pub open spec fn is_sentinel(value: ObjectView) -> bool {
    value is ArithmeticError || value is ComparisonError
}

/// `left > right`, defined for two numbers only.
pub open spec fn greater_of(left: ObjectView, right: ObjectView) -> ObjectView {
    match (left, right) {
        (ObjectView::Num(l), ObjectView::Num(r)) => ObjectView::Bool(number::less(r, l)),
        _ => ObjectView::ComparisonError,
    }
}

/// `left >= right`, defined for two numbers only.
pub open spec fn greater_eq_of(left: ObjectView, right: ObjectView) -> ObjectView {
    match (left, right) {
        (ObjectView::Num(l), ObjectView::Num(r)) => ObjectView::Bool(number::less_eq(r, l)),
        _ => ObjectView::ComparisonError,
    }
}

/// `left < right`, defined for two numbers only.
pub open spec fn less_of(left: ObjectView, right: ObjectView) -> ObjectView {
    match (left, right) {
        (ObjectView::Num(l), ObjectView::Num(r)) => ObjectView::Bool(number::less(l, r)),
        _ => ObjectView::ComparisonError,
    }
}

/// `left <= right`, defined for two numbers only.
pub open spec fn less_eq_of(left: ObjectView, right: ObjectView) -> ObjectView {
    match (left, right) {
        (ObjectView::Num(l), ObjectView::Num(r)) => ObjectView::Bool(number::less_eq(l, r)),
        _ => ObjectView::ComparisonError,
    }
}

/// `left == right`: two numbers, two strings or two booleans are compared by
/// value; `nil` equals `nil` and nothing else; no other two values can be
/// compared.
pub open spec fn eq_of(left: ObjectView, right: ObjectView) -> ObjectView {
    match (left, right) {
        (ObjectView::Num(l), ObjectView::Num(r)) => ObjectView::Bool(number::equal(l, r)),
        (ObjectView::Str(l), ObjectView::Str(r)) => ObjectView::Bool(l == r),
        (ObjectView::Bool(l), ObjectView::Bool(r)) => ObjectView::Bool(l == r),
        (ObjectView::Nil, ObjectView::Nil) => ObjectView::Bool(true),
        (ObjectView::Nil, _) => ObjectView::Bool(false),
        (_, ObjectView::Nil) => ObjectView::Bool(false),
        _ => ObjectView::ComparisonError,
    }
}

/// `left != right`: the opposite of `==` where that is defined.
pub open spec fn neq_of(left: ObjectView, right: ObjectView) -> ObjectView {
    match eq_of(left, right) {
        ObjectView::Bool(same) => ObjectView::Bool(!same),
        other => other,
    }
}

impl<'a> Object<'a> {
    /// Whether the value counts as true in a condition.
    pub fn is_truthy(&self) -> (yes: bool)
        ensures
            yes == truthy(self@),
    {
        match self {
            Object::Nil => false,
            Object::Bool(b) => *b,
            _ => true,
        }
    }

    /// Test if `left` is greater-than `right`
    pub fn greater(&self, right: Object<'a>) -> (result: Self)
        ensures
            result@ == greater_of(self@, right@),
    {
        match (self, right) {
            (Self::Num(left), Self::Num(right)) => Self::Bool(number::number_less(right, *left)),
            _ => Self::ComparisonError,
        }
    }

    /// Test if `left` is greater-than, or equal-to `right`
    pub fn greater_eq(&self, right: Object<'a>) -> (result: Self)
        ensures
            result@ == greater_eq_of(self@, right@),
    {
        match (self, right) {
            (Self::Num(left), Self::Num(right)) => Self::Bool(
                number::number_less_eq(right, *left),
            ),
            _ => Self::ComparisonError,
        }
    }

    /// Test if `left` is less-than `right`
    pub fn less(&self, right: Object<'a>) -> (result: Self)
        ensures
            result@ == less_of(self@, right@),
    {
        match (self, right) {
            (Self::Num(left), Self::Num(right)) => Self::Bool(number::number_less(*left, right)),
            _ => Self::ComparisonError,
        }
    }

    /// Test if `left` is less-than, or equal-to `right`
    pub fn less_eq(&self, right: Object<'a>) -> (result: Self)
        ensures
            result@ == less_eq_of(self@, right@),
    {
        match (self, right) {
            (Self::Num(left), Self::Num(right)) => Self::Bool(
                number::number_less_eq(*left, right),
            ),
            _ => Self::ComparisonError,
        }
    }

    /// Test if `left` and `right` are equal
    pub fn eq(&self, right: Object<'a>) -> (result: Self)
        ensures
            result@ == eq_of(self@, right@),
    {
        match (self, right) {
            (Self::Num(left), Self::Num(right)) => Self::Bool(number::number_equal(*left, right)),
            (Self::Str(left), Self::Str(right)) => Self::Bool(*left == right),
            (Self::Bool(left), Self::Bool(right)) => Self::Bool(*left == right),
            (Self::Nil, Self::Nil) => Self::Bool(true),
            (Self::Nil, _) => Self::Bool(false),
            (_, Self::Nil) => Self::Bool(false),
            _ => Self::ComparisonError,
        }
    }

    /// Test if `left` and `right` aren't equal
    pub fn neq(&self, right: Object<'a>) -> (result: Self)
        ensures
            result@ == neq_of(self@, right@),
    {
        match self.eq(right) {
            Self::Bool(same) => Self::Bool(!same),
            other => other,
        }
    }
}

/// The arithmetic that the host does on two numbers.
#[derive(Debug, PartialEq, Eq, Clone, Copy, Structural)]
pub enum Operation {
    Add,
    Subtract,
    Multiply,
    Divide,
}

/// What an arithmetic operator makes of two values.
#[derive(Debug, PartialEq)]
pub enum Outcome<'a> {
    /// The value is this one.
    Value(Object<'a>),
    /// The value is the number that `operation` gives of the two numbers.
    Number { operation: Operation, left: u64, right: u64 },
    /// The value is the decimal form of `number` with `text` behind it, or
    /// before it where `number_first` is false.
    Text { number: u64, text: String, number_first: bool },
}

/// The mathematical content of an [`Outcome`].
pub enum OutcomeView {
    Value(ObjectView),
    Number { operation: Operation, left: u64, right: u64 },
    Text { number: u64, text: Seq<char>, number_first: bool },
}

impl<'a> View for Outcome<'a> {
    type V = OutcomeView;

    open spec fn view(&self) -> OutcomeView {
        match *self {
            Outcome::Value(value) => OutcomeView::Value(value@),
            Outcome::Number { operation, left, right } => OutcomeView::Number {
                operation,
                left,
                right,
            },
            Outcome::Text { number, text, number_first } => OutcomeView::Text {
                number,
                text: text@,
                number_first,
            },
        }
    }
}

/// `-`, `*` and `/` are defined for two numbers only.
pub open spec fn arithmetic_of(operation: Operation, left: ObjectView, right: ObjectView)
    -> OutcomeView {
    match (left, right) {
        (ObjectView::Num(l), ObjectView::Num(r)) => OutcomeView::Number {
            operation,
            left: l,
            right: r,
        },
        _ => OutcomeView::Value(ObjectView::ArithmeticError),
    }
}

/// `+` adds two numbers and joins two strings; of a number and a string it
/// joins the decimal form of the number and the string, in their order.
pub open spec fn sum_of(left: ObjectView, right: ObjectView) -> OutcomeView {
    match (left, right) {
        (ObjectView::Num(l), ObjectView::Num(r)) => OutcomeView::Number {
            operation: Operation::Add,
            left: l,
            right: r,
        },
        (ObjectView::Str(l), ObjectView::Str(r)) => OutcomeView::Value(ObjectView::Str(l + r)),
        (ObjectView::Num(l), ObjectView::Str(r)) => OutcomeView::Text {
            number: l,
            text: r,
            number_first: true,
        },
        (ObjectView::Str(l), ObjectView::Num(r)) => OutcomeView::Text {
            number: r,
            text: l,
            number_first: false,
        },
        _ => OutcomeView::Value(ObjectView::ArithmeticError),
    }
}

/// `-value` for a number; of any other value it is `nil`.
pub open spec fn negative_of(value: ObjectView) -> ObjectView {
    match value {
        ObjectView::Num(bits) => ObjectView::Num(number::negated(bits)),
        _ => ObjectView::Nil,
    }
}

/// How a value that is no number is written. Numbers are written by the
/// host, and the values that stand for a failed operation are never written.
pub open spec fn text_of(value: ObjectView) -> Seq<char> {
    match value {
        ObjectView::Str(text) => text,
        ObjectView::Bool(b) => if b {
            "true"@
        } else {
            "false"@
        },
        ObjectView::Func(f) => "<fn "@ + f.name() + ">"@,
        _ => "nil"@,
    }
}

impl<'a> Object<'a> {
    /// `self - other`, `self * other` or `self / other`.
    pub fn arithmetic(self, operation: Operation, other: Self) -> (outcome: Outcome<'a>)
        ensures
            outcome@ == arithmetic_of(operation, self@, other@),
    {
        match (self, other) {
            (Object::Num(left), Object::Num(right)) => Outcome::Number { operation, left, right },
            _ => Outcome::Value(Object::ArithmeticError),
        }
    }

    /// `self + other`.
    pub fn add(self, other: Self) -> (outcome: Outcome<'a>)
        ensures
            outcome@ == sum_of(self@, other@),
    {
        match (self, other) {
            (Object::Num(left), Object::Num(right)) => Outcome::Number {
                operation: Operation::Add,
                left,
                right,
            },
            (Object::Str(left), Object::Str(right)) => Outcome::Value(
                Object::Str(left.concat(right.as_str())),
            ),
            (Object::Num(left), Object::Str(right)) => Outcome::Text {
                number: left,
                text: right,
                number_first: true,
            },
            (Object::Str(left), Object::Num(right)) => Outcome::Text {
                number: right,
                text: left,
                number_first: false,
            },
            _ => Outcome::Value(Object::ArithmeticError),
        }
    }

    /// `-self`.
    pub fn negate(&self) -> (result: Self)
        ensures
            result@ == negative_of(self@),
    {
        match self {
            Object::Num(bits) => Object::Num(number::number_negated(*bits)),
            _ => Object::Nil,
        }
    }

    /// How the value is written, unless it is a number, whose decimal form
    /// the host gives.
    pub fn to_text(&self) -> (text: Option<String>)
        requires
            !is_sentinel(self@),
        ensures
            match text {
                Some(text) => !(self@ is Num) && text@ == text_of(self@),
                None => self@ is Num,
            },
    {
        match self {
            Object::Num(_) => None,
            Object::Str(text) => Some(text.clone()),
            Object::Bool(b) => Some(
                String::from_str(
                    if *b {
                        "true"
                    } else {
                        "false"
                    },
                ),
            ),
            Object::Func(f) => {
                let mut text = String::from_str("<fn ");
                text.append(f.to_string().as_str());
                text.append(">");
                Some(text)
            },
            _ => Some(String::from_str("nil")),
        }
    }
}

/// A comparison of two values of different kinds is an error, whatever the
/// kinds and the comparison.
pub proof fn law_comparison_needs_numbers(left: ObjectView, right: ObjectView)
    requires
        !(left is Num && right is Num),
    ensures
        greater_of(left, right) is ComparisonError,
        greater_eq_of(left, right) is ComparisonError,
        less_of(left, right) is ComparisonError,
        less_eq_of(left, right) is ComparisonError,
{
}

/// `nil` equals `nil` and no other value, from either side; a test for
/// equality with `nil` is never an error.
pub proof fn law_nil_equality(other: ObjectView)
    ensures
        eq_of(ObjectView::Nil, ObjectView::Nil) == ObjectView::Bool(true),
        eq_of(ObjectView::Nil, other) == ObjectView::Bool(other is Nil),
        eq_of(other, ObjectView::Nil) == ObjectView::Bool(other is Nil),
        neq_of(ObjectView::Nil, other) == ObjectView::Bool(!(other is Nil)),
        neq_of(other, ObjectView::Nil) == ObjectView::Bool(!(other is Nil)),
{
}

} // verus!
