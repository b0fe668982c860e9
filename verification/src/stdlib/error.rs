//! The conditions the native library raises. Every failure is fatal to
//! the current evaluation and carries a code and a readable message.

use vstd::prelude::*;
use vstd::string::StringExecFns;

use crate::vm::error::VMError;

verus! {

/// The error taxonomy of the native library.
#[derive(Debug, Clone, Copy, PartialEq, Eq)]
pub enum EvalErrorCode {
    /// Data is not a function
    E0001,
    /// Name is not bound
    E0002,
    /// Environment does not exist
    E0003,
    /// Name does not resolve to a function
    E0004,
    /// Cannot unwrap `Cons` field
    E0005,
    /// Mismatch in number of arguments
    E0006,
    /// Not implemented yet
    E0007,
    /// Unable to eval function
    E0008,
    /// Not a `Name`
    E0009,
    /// Parameter list unparseable
    E0010,
    /// VMError
    E0011,
    /// Incompatible type
    E0012,
    /// Arithmetic fault: overflow, or division by zero
    E0013,
}

/// An error raised while a native function ran.
#[derive(Debug)]
pub struct EvalError {
    pub code: EvalErrorCode,
    pub message: String,
}

impl EvalError {
    /// An error with the given code and message.
    pub fn new(code: EvalErrorCode, message: String) -> (r: EvalError)
        ensures
            r.code == code,
            r.message@ == message@,
    {
        EvalError { code, message }
    }

    /// Wraps a fault of the virtual machine, keeping its message.
    pub fn from_vm(error: VMError) -> (r: EvalError)
        ensures
            r.code == EvalErrorCode::E0011,
            r.message@ == error.spec_message(),
    {
        let message = error.message().to_owned();
        EvalError { code: EvalErrorCode::E0011, message }
    }
}

/// The arity-mismatch condition for a named native.
pub fn mismatch_arguments(method: &str) -> (r: EvalError)
    ensures
        r.code == EvalErrorCode::E0006,
        r.message@ == "Wrong amount of arguments for '"@ + method@ + "'"@,
{
    let message = String::from_str("Wrong amount of arguments for '").concat(method).concat("'");
    EvalError { code: EvalErrorCode::E0006, message }
}

/// The unparseable-arguments condition for a named native.
pub fn unparseable_arguments(method: &str) -> (r: EvalError)
    ensures
        r.code == EvalErrorCode::E0010,
        r.message@ == "Could not parse arguments for '"@ + method@ + "'"@,
{
    let message = String::from_str("Could not parse arguments for '").concat(method).concat("'");
    EvalError { code: EvalErrorCode::E0010, message }
}

} // verus!
