//! The fault type of the virtual machine. Every fault aborts the whole
//! evaluation; the environment survives, so a session can continue.

use vstd::prelude::*;
use vstd::string::StringExecFns;

use crate::stdlib::error::EvalError;

verus! {

/// A fault of the virtual machine, carrying a readable message.
#[derive(Debug)]
pub struct VMError {
    message: String,
}

impl VMError {
    /// The message carried by the fault.
    pub closed spec fn spec_message(&self) -> Seq<char> {
        self.message@
    }

    /// A fault with the given message.
    pub fn error(message: String) -> (r: VMError)
        ensures
            r.spec_message() == message@,
    {
        VMError { message }
    }

    /// The machine was asked to act with no stack frame alive.
    pub fn no_stack_frame() -> (r: VMError)
        ensures
            r.spec_message() == "No stack frame exists"@,
    {
        VMError { message: String::from_str("No stack frame exists") }
    }

    /// The front register did not hold a function where a call needed one.
    pub fn not_a_function() -> (r: VMError)
        ensures
            r.spec_message() == "The first item in the register is not a function"@,
    {
        VMError { message: String::from_str("The first item in the register is not a function") }
    }

    /// Wraps a condition raised by a native function.
    pub fn eval_error(error: EvalError) -> (r: VMError)
        ensures
            r.spec_message() == "Error occurred while calling function. Reason: "@
                + error.message@,
    {
        let message = String::from_str("Error occurred while calling function. Reason: ").concat(
            error.message.as_str(),
        );
        VMError { message }
    }

    /// An argument list did not match a function's fixed parameter names.
    pub fn wrong_parameter_len() -> (r: VMError)
        ensures
            r.spec_message() == "Wrong amount of arguments for the parameter list"@,
    {
        VMError { message: String::from_str("Wrong amount of arguments for the parameter list") }
    }

    pub fn message(&self) -> (r: &str)
        ensures
            r@ == self.spec_message(),
    {
        self.message.as_str()
    }
}

} // verus!
