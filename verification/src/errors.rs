//! Failure taxonomy of the execution core. Each variant names the phase
//! that failed, and carries the engine- or codec-supplied detail text
//! where one exists, so callers can tell the categories apart without
//! inspecting internal state.
use vstd::prelude::*;

verus! {

/// A typed failure of the execution core.
#[derive(Debug, PartialEq, Eq)]
pub enum EvalError {
    /// The context's initialization code failed to run.
    Compile(String),
    /// The submitted code threw, or the engine call itself failed.
    Execution(String),
    /// Draining the isolate's event loop to quiescence failed.
    EventLoop(String),
    /// The result channel held no value after a completed run.
    ResultMissing,
    /// The stored result text failed to parse as an interchange value.
    Conversion(String),
    /// A host argument has no interchange representation.
    UnsupportedType(String),
}

/// The phase-describing message of an error, as a sequence of characters.
pub open spec fn describe_spec(e: EvalError) -> Seq<char> {
    match e {
        EvalError::Compile(m) => "compile error: "@ + m@,
        EvalError::Execution(m) => "execution error: "@ + m@,
        EvalError::EventLoop(m) => "event loop error: "@ + m@,
        EvalError::ResultMissing => "no result stored"@,
        EvalError::Conversion(m) => "conversion error: "@ + m@,
        EvalError::UnsupportedType(m) => "unsupported type: "@ + m@,
    }
}

impl EvalError {
    /// A message that names the phase that failed, followed by the detail
    /// text carried by the error, if any.
    pub fn describe(&self) -> (r: String)
        ensures
            r@ == describe_spec(*self),
    {
        match self {
            EvalError::Compile(m) => String::from_str("compile error: ").concat(m.as_str()),
            EvalError::Execution(m) => String::from_str("execution error: ").concat(m.as_str()),
            EvalError::EventLoop(m) => String::from_str("event loop error: ").concat(m.as_str()),
            EvalError::ResultMissing => String::from_str("no result stored"),
            EvalError::Conversion(m) => String::from_str("conversion error: ").concat(m.as_str()),
            EvalError::UnsupportedType(m) => String::from_str("unsupported type: ").concat(
                m.as_str(),
            ),
        }
    }
}

} // verus!
