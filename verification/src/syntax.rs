//! The expression language: variables, expression trees, run-time values and
//! evaluation errors, each with the mathematical value that contracts speak of.

use vstd::prelude::*;
use crate::context::Context;
use crate::context::context_view;

verus! {

/// The environment of contracts: a finite map from a variable's name to the
/// model of the value bound to it.
pub type SpecEnv = Map<Seq<char>, SpecValue>;

/// An identifier. Two variables are the same when their names are.
#[derive(Debug, Hash)]
pub struct Variable(pub String);

impl View for Variable {
    type V = Seq<char>;

    open spec fn view(&self) -> Seq<char> {
        self.0@
    }
}

impl Variable {
    /// The variable called `name`.
    pub fn new(name: &str) -> (r: Self)
        ensures
            r@ == name@,
    {
        Variable(name.to_owned())
    }
}

impl PartialEq for Variable {
    fn eq(&self, other: &Self) -> (r: bool) {
        self.0 == other.0
    }
}

impl Eq for Variable {

}

impl vstd::std_specs::cmp::PartialEqSpecImpl for Variable {
    open spec fn obeys_eq_spec() -> bool {
        true
    }

    open spec fn eq_spec(&self, other: &Self) -> bool {
        self@ == other@
    }
}

impl Clone for Variable {
    fn clone(&self) -> (r: Self)
        ensures
            r@ == self@,
    {
        Variable(self.0.clone())
    }
}

/// A function that the host provides. The evaluator only ever calls it.
#[derive(Debug, Clone, Copy, PartialEq, Eq, Structural)]
pub enum Builtin {
    /// Appends its string argument to the log and returns it.
    Content,
    /// Returns the number of log entries.
    Location,
    /// Returns the host parameter.
    Size,
    /// Returns the number of log entries divided by the host parameter.
    Percent,
}

/// An expression tree.
#[derive(Debug)]
pub enum Ast {
    /// A function of one parameter, with its body.
    Lambda(Variable, Box<Ast>),
    /// The self-reference primitive.
    Fix,
    /// A function applied to an operand.
    Application(Box<Ast>, Box<Ast>),
    /// A reference to a variable.
    Variable(Variable),
    /// A value that stands for itself.
    Const(Value),
    /// A condition, and the expressions to go on with where it is true and where
    /// it is false.
    Cond(Box<Ast>, Box<Ast>, Box<Ast>),
}

/// A run-time value.
#[derive(Debug)]
pub enum Value {
    /// What `Ast::Fix` evaluates to.
    Fix,
    BuiltinFunction(Builtin),
    /// A token that only the host can interpret.
    BuiltinValue(u64),
    /// A closure: the environment captured where the lambda was evaluated, the
    /// parameter and the body.
    Function(Context, Variable, Box<Ast>),
    Bool(bool),
    Int(i64),
    String(String),
}

/// The model of a [`Value`].
pub enum SpecValue {
    Fix,
    BuiltinFunction(Builtin),
    BuiltinValue(u64),
    Function(SpecEnv, Seq<char>, Box<SpecAst>),
    Bool(bool),
    Int(i64),
    String(Seq<char>),
}

/// The model of an [`Ast`].
pub enum SpecAst {
    Lambda(Seq<char>, Box<SpecAst>),
    Fix,
    Application(Box<SpecAst>, Box<SpecAst>),
    Variable(Seq<char>),
    Const(SpecValue),
    Cond(Box<SpecAst>, Box<SpecAst>, Box<SpecAst>),
}

/// Why an evaluation stopped.
#[derive(Debug)]
pub enum Error {
    /// A variable was referenced that is not bound.
    NotInScope(Variable),
    /// The value in function position cannot be applied.
    NotACallableValue(Value),
    /// The condition of a conditional is not a boolean.
    NotABoolValue(Value),
    /// `content` was given something other than a string.
    NotAStringValue(Value),
    /// `percent` was called while the host parameter is zero.
    DivisionByZero,
    /// A length or the host parameter does not fit the language's integers.
    IntegerOverflow,
    /// The evaluation nested deeper than its budget allows.
    DepthExceeded,
}

/// The model of an [`Error`].
pub enum SpecError {
    NotInScope(Seq<char>),
    NotACallableValue(SpecValue),
    NotABoolValue(SpecValue),
    NotAStringValue(SpecValue),
    DivisionByZero,
    IntegerOverflow,
    DepthExceeded,
}

impl View for Error {
    type V = SpecError;

    open spec fn view(&self) -> SpecError {
        match *self {
            Error::NotInScope(var) => SpecError::NotInScope(var@),
            Error::NotACallableValue(value) => SpecError::NotACallableValue(value@),
            Error::NotABoolValue(value) => SpecError::NotABoolValue(value@),
            Error::NotAStringValue(value) => SpecError::NotAStringValue(value@),
            Error::DivisionByZero => SpecError::DivisionByZero,
            Error::IntegerOverflow => SpecError::IntegerOverflow,
            Error::DepthExceeded => SpecError::DepthExceeded,
        }
    }
}

impl Clone for Error {
    fn clone(&self) -> (r: Self)
        ensures
            r@ == self@,
    {
        match self {
            Error::NotInScope(var) => Error::NotInScope(var.clone()),
            Error::NotACallableValue(value) => Error::NotACallableValue(value.clone()),
            Error::NotABoolValue(value) => Error::NotABoolValue(value.clone()),
            Error::NotAStringValue(value) => Error::NotAStringValue(value.clone()),
            Error::DivisionByZero => Error::DivisionByZero,
            Error::IntegerOverflow => Error::IntegerOverflow,
            Error::DepthExceeded => Error::DepthExceeded,
        }
    }
}

/// The model of what an evaluation returns.
pub open spec fn result_view(r: Result<Value, Error>) -> Result<SpecValue, SpecError> {
    match r {
        Ok(value) => Ok(value@),
        Err(error) => Err(error@),
    }
}

/// The model of `v`: its closures hold the maps that their environments stand
/// for, its strings and names are sequences of characters.
pub open spec fn value_view(v: Value) -> SpecValue
    decreases v,
{
    match v {
        Value::Fix => SpecValue::Fix,
        Value::BuiltinFunction(b) => SpecValue::BuiltinFunction(b),
        Value::BuiltinValue(token) => SpecValue::BuiltinValue(token),
        Value::Function(captured, param, body) => SpecValue::Function(
            context_view(captured),
            param@,
            Box::new(ast_view(*body)),
        ),
        Value::Bool(b) => SpecValue::Bool(b),
        Value::Int(i) => SpecValue::Int(i),
        Value::String(s) => SpecValue::String(s@),
    }
}

/// The model of `a`, node by node.
pub open spec fn ast_view(a: Ast) -> SpecAst
    decreases a,
{
    match a {
        Ast::Lambda(param, body) => SpecAst::Lambda(param@, Box::new(ast_view(*body))),
        Ast::Fix => SpecAst::Fix,
        Ast::Application(f, x) => SpecAst::Application(
            Box::new(ast_view(*f)),
            Box::new(ast_view(*x)),
        ),
        Ast::Variable(var) => SpecAst::Variable(var@),
        Ast::Const(value) => SpecAst::Const(value_view(value)),
        Ast::Cond(c, t, e) => SpecAst::Cond(
            Box::new(ast_view(*c)),
            Box::new(ast_view(*t)),
            Box::new(ast_view(*e)),
        ),
    }
}

impl View for Value {
    type V = SpecValue;

    open spec fn view(&self) -> SpecValue {
        value_view(*self)
    }
}

impl View for Ast {
    type V = SpecAst;

    open spec fn view(&self) -> SpecAst {
        ast_view(*self)
    }
}

impl Clone for Value {
    fn clone(&self) -> (r: Self)
        ensures
            r@ == self@,
        decreases self,
    {
        match self {
            Value::Fix => Value::Fix,
            Value::BuiltinFunction(b) => Value::BuiltinFunction(*b),
            Value::BuiltinValue(token) => Value::BuiltinValue(*token),
            Value::Function(captured, param, body) => Value::Function(
                captured.clone(),
                param.clone(),
                Box::new((**body).clone()),
            ),
            Value::Bool(b) => Value::Bool(*b),
            Value::Int(i) => Value::Int(*i),
            Value::String(s) => Value::String(s.clone()),
        }
    }
}

impl Clone for Ast {
    fn clone(&self) -> (r: Self)
        ensures
            r@ == self@,
        decreases self,
    {
        match self {
            Ast::Lambda(param, body) => Ast::Lambda(param.clone(), Box::new((**body).clone())),
            Ast::Fix => Ast::Fix,
            Ast::Application(f, x) => Ast::Application(
                Box::new((**f).clone()),
                Box::new((**x).clone()),
            ),
            Ast::Variable(var) => Ast::Variable(var.clone()),
            Ast::Const(value) => Ast::Const(value.clone()),
            Ast::Cond(c, t, e) => Ast::Cond(
                Box::new((**c).clone()),
                Box::new((**t).clone()),
                Box::new((**e).clone()),
            ),
        }
    }
}

} // verus!
