//! The ways in which running or checking a program can stop.
use vstd::prelude::*;

verus! {

/// Why evaluation or checking of a program stopped.
#[derive(Debug, Clone, Copy, PartialEq, Eq, Structural)]
pub enum RuntimeError {
    /// No memory scope is open.
    NoScope,
    /// The variable is not bound in the current scope.
    VarNotFound,
    /// The variable is bound to something that is neither a number nor a boolean.
    NotAValue,
    /// The target of an assignment is not a variable node.
    NotAVariableName,
    /// The memory was asked to assign to something that is not a variable.
    AssignToNonVar,
    /// No function has the given name.
    FunctionNotFound,
    /// The name is bound to something that is not a function.
    NotAFunction,
    /// A call passed a number of arguments other than the number of parameters.
    WrongArgCount { expected: usize, found: usize },
    /// A parameter node does not name a variable.
    ParamNotVariable,
    /// A parameter list holds something that is not a parameter node.
    NotAParameter,
    /// A loop condition is not a boolean.
    NotBool,
    /// `&&` or `||` on operands that are not both booleans.
    BoolOpMismatch,
    /// A comparison between a number and a boolean, or on other values.
    CompareMismatch,
    /// An ordering comparison on booleans.
    BoolCompare,
    /// Arithmetic on an operand that is not a number.
    NotNumber,
    /// The result of arithmetic does not fit in an `i32`.
    Overflow,
    /// Division by zero.
    DivisionByZero,
    /// A new value of another kind than the variable's old value.
    AssignTypeMismatch,
    /// The name part of a function definition or call is not a name.
    BadFunctionName,
    /// The parameter part of a function definition or call is not a list.
    BadFunctionParams,
    /// The return part of a function definition is not a type.
    BadReturnType,
    /// A node the evaluator has no rule for.
    UnmatchedNode,
    /// The evaluation budget ran out.
    OutOfFuel,
}

} // verus!
