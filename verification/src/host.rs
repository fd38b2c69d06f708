//! The host state that a program reads and writes through the builtin functions.

use vstd::prelude::*;
use crate::syntax::Builtin;
use crate::syntax::Error;
use crate::syntax::SpecError;
use crate::syntax::SpecValue;
use crate::syntax::Value;
use crate::syntax::result_view;

verus! {

/// What one pass works on: the log of emitted strings, which only grows, and the
/// parameter that the program can ask for.
#[derive(Debug)]
pub struct State {
    pub content: Vec<String>,
    pub document_size: usize,
}

/// The model of a [`State`].
pub struct SpecState {
    pub content: Seq<Seq<char>>,
    pub document_size: nat,
}

/// The model of a log.
pub open spec fn log_view(log: Seq<String>) -> Seq<Seq<char>> {
    Seq::new(log.len(), |i: int| log[i]@)
}

impl View for State {
    type V = SpecState;

    open spec fn view(&self) -> SpecState {
        SpecState { content: log_view(self.content@), document_size: self.document_size as nat }
    }
}

/// What a step of evaluation leaves behind: its result and the host state after it.
pub struct Outcome {
    pub result: Result<SpecValue, SpecError>,
    pub state: SpecState,
}

/// `n` as an integer of the language, where it is one.
pub open spec fn int_value(n: nat) -> Result<SpecValue, SpecError> {
    if n <= i64::MAX {
        Ok(SpecValue::Int(n as i64))
    } else {
        Err(SpecError::IntegerOverflow)
    }
}

/// What the call of `builtin` on `input` returns and does to the host state.
pub open spec fn call_builtin_spec(builtin: Builtin, input: SpecValue, state: SpecState) -> Outcome {
    match builtin {
        Builtin::Content => match input {
            SpecValue::String(text) => Outcome {
                result: Ok(SpecValue::String(text)),
                state: SpecState { content: state.content.push(text), ..state },
            },
            other => Outcome { result: Err(SpecError::NotAStringValue(other)), state },
        },
        Builtin::Location => Outcome { result: int_value(state.content.len()), state },
        Builtin::Size => Outcome { result: int_value(state.document_size), state },
        Builtin::Percent => Outcome {
            result: if state.content.len() > i64::MAX || state.document_size > i64::MAX {
                Err(SpecError::IntegerOverflow)
            } else if state.document_size == 0 {
                Err(SpecError::DivisionByZero)
            } else {
                Ok(SpecValue::Int((state.content.len() / state.document_size) as i64))
            },
            state,
        },
    }
}

fn int_of(n: usize) -> (r: Result<Value, Error>)
    ensures
        result_view(r) == int_value(n as nat),
{
    if n as u64 <= i64::MAX as u64 {
        Ok(Value::Int(n as i64))
    } else {
        Err(Error::IntegerOverflow)
    }
}

/// Calls `builtin` on `input`.
pub fn call_builtin(builtin: Builtin, input: Value, state: &mut State) -> (r: Result<Value, Error>)
    ensures
        result_view(r) == call_builtin_spec(builtin, input@, old(state)@).result,
        final(state)@ == call_builtin_spec(builtin, input@, old(state)@).state,
{
    match builtin {
        Builtin::Content => match input {
            Value::String(text) => {
                let entry = text.clone();
                state.content.push(entry);
                assert(log_view(state.content@) == log_view(old(state).content@).push(text@));
                Ok(Value::String(text))
            },
            other => Err(Error::NotAStringValue(other)),
        },
        Builtin::Location => int_of(state.content.len()),
        Builtin::Size => int_of(state.document_size),
        Builtin::Percent => {
            let len = state.content.len();
            let size = state.document_size;
            if len as u64 > i64::MAX as u64 || size as u64 > i64::MAX as u64 {
                Err(Error::IntegerOverflow)
            } else if size == 0 {
                Err(Error::DivisionByZero)
            } else {
                Ok(Value::Int(len as i64 / size as i64))
            }
        },
    }
}

} // verus!
