//! The fixed-point driver: evaluates a program pass after pass, each on a fresh
//! environment and host state, until two passes in a row emit the same log.

use vstd::prelude::*;
use crate::context::Context;
use crate::host::log_view;
use crate::host::Outcome;
use crate::host::SpecState;
use crate::host::State;
use crate::interpret::eval;
use crate::interpret::interpret;
use crate::syntax::Ast;
use crate::syntax::Builtin;
use crate::syntax::Error;
use crate::syntax::SpecAst;
use crate::syntax::SpecEnv;
use crate::syntax::SpecError;
use crate::syntax::SpecValue;
use crate::syntax::Value;
use crate::syntax::Variable;

verus! {

/// The number of passes that a caller with no better idea allows.
pub const DEFAULT_MAX_ITERATIONS: usize = 5;

/// The environment that every pass starts in: the two truth values and the four
/// builtin functions, each under its name.
pub open spec fn initial_env() -> SpecEnv {
    Map::<Seq<char>, SpecValue>::empty().insert("true"@, SpecValue::Bool(true)).insert(
        "false"@,
        SpecValue::Bool(false),
    ).insert("content"@, SpecValue::BuiltinFunction(Builtin::Content)).insert(
        "location"@,
        SpecValue::BuiltinFunction(Builtin::Location),
    ).insert("size"@, SpecValue::BuiltinFunction(Builtin::Size)).insert(
        "percent"@,
        SpecValue::BuiltinFunction(Builtin::Percent),
    )
}

/// The host state that a pass starts in: an empty log and the given parameter.
pub open spec fn fresh_state(parameter: nat) -> SpecState {
    SpecState { content: Seq::empty(), document_size: parameter }
}

/// Builds the environment and the host state that a pass starts in.
pub fn initialize(expected_document_size: usize) -> (r: (Context, State))
    ensures
        r.0@ == initial_env(),
        r.1@ == fresh_state(expected_document_size as nat),
{
    let mut context = Context::new();
    let state = State { content: Vec::new(), document_size: expected_document_size };
    proof {
        reveal_strlit("true");
        reveal_strlit("false");
        reveal_strlit("content");
        reveal_strlit("location");
        reveal_strlit("size");
        reveal_strlit("percent");
        assert("true"@.len() == 4 && "false"@.len() == 5 && "content"@.len() == 7);
        assert("location"@.len() == 8 && "size"@.len() == 4 && "percent"@.len() == 7);
        assert("true"@[0] != "size"@[0]);
        assert("content"@[0] != "percent"@[0]);
    }
    context.insert(Variable::new("true"), Value::Bool(true));
    context.insert(Variable::new("false"), Value::Bool(false));
    context.insert(Variable::new("content"), Value::BuiltinFunction(Builtin::Content));
    context.insert(Variable::new("location"), Value::BuiltinFunction(Builtin::Location));
    context.insert(Variable::new("size"), Value::BuiltinFunction(Builtin::Size));
    context.insert(Variable::new("percent"), Value::BuiltinFunction(Builtin::Percent));
    assert(state@.content =~= Seq::<Seq<char>>::empty());
    (context, state)
}

/// What one pass with the given parameter leaves behind.
pub open spec fn pass(program: SpecAst, parameter: nat, depth: nat) -> Outcome {
    eval(program, initial_env(), fresh_state(parameter), depth)
}

/// The parameter that pass number `index` runs with, the first pass being number
/// zero: zero for the first pass, and after it what the pass before left.
pub open spec fn nth_parameter(program: SpecAst, depth: nat, index: nat) -> nat
    decreases index,
{
    if index == 0 {
        0
    } else {
        pass(
            program,
            nth_parameter(program, depth, (index - 1) as nat),
            depth,
        ).state.document_size
    }
}

/// What pass number `index` leaves behind.
pub open spec fn nth_pass(program: SpecAst, depth: nat, index: nat) -> Outcome {
    pass(program, nth_parameter(program, depth, index), depth)
}

/// What the driver returns when it has `remaining` passes left, the next of them
/// with `parameter`, and the pass before emitted `previous`. A pass that fails
/// ends the run with its error. A pass that emits what the one before it emitted
/// ends the run with that log, and so does the last pass, whatever it emits.
pub open spec fn passes(
    program: SpecAst,
    depth: nat,
    parameter: nat,
    previous: Option<Seq<Seq<char>>>,
    remaining: nat,
) -> Result<Seq<Seq<char>>, SpecError>
    decreases remaining,
{
    let outcome = pass(program, parameter, depth);
    match outcome.result {
        Err(error) => Err(error),
        Ok(_) => if previous == Some(outcome.state.content) || remaining <= 1 {
            Ok(outcome.state.content)
        } else {
            passes(
                program,
                depth,
                outcome.state.document_size,
                Some(outcome.state.content),
                (remaining - 1) as nat,
            )
        },
    }
}

/// What `compile` returns: the run of at most `max_iterations` passes that starts
/// with the parameter zero.
pub open spec fn compile_spec(program: SpecAst, max_iterations: nat, depth: nat) -> Result<
    Seq<Seq<char>>,
    SpecError,
> {
    passes(program, depth, 0, None, max_iterations)
}

/// The model of what `compile` returns.
pub open spec fn compiled_view(r: Result<Vec<String>, Error>) -> Result<Seq<Seq<char>>, SpecError> {
    match r {
        Ok(log) => Ok(log_view(log@)),
        Err(error) => Err(error@),
    }
}

/// The model of the log of the pass before, if there was one.
pub open spec fn previous_view(log: Option<Vec<String>>) -> Option<Seq<Seq<char>>> {
    match log {
        Some(log) => Some(log_view(log@)),
        None => None,
    }
}

/// Whether two logs hold the same strings in the same order.
pub fn same_log(a: &Vec<String>, b: &Vec<String>) -> (r: bool)
    ensures
        r == (log_view(a@) == log_view(b@)),
{
    if a.len() != b.len() {
        assert(log_view(a@).len() != log_view(b@).len());
        return false;
    }
    let mut i: usize = 0;
    while i < a.len()
        invariant
            a.len() == b.len(),
            i <= a.len(),
            forall|j: int| 0 <= j < i ==> a[j]@ == b[j]@,
        decreases a.len() - i,
    {
        if a[i] != b[i] {
            assert(log_view(a@)[i as int] != log_view(b@)[i as int]);
            return false;
        }
        i = i + 1;
    }
    assert(log_view(a@) =~= log_view(b@));
    true
}

/// Evaluates `ast` pass after pass until two passes in a row emit the same log,
/// at most `max_iterations` times, and returns the log of the last pass. Each
/// pass may nest `depth` deep.
pub fn compile(ast: &Ast, max_iterations: usize, depth: usize) -> (r: Result<Vec<String>, Error>)
    requires
        max_iterations > 0,
    ensures
        compiled_view(r) == compile_spec(ast@, max_iterations as nat, depth as nat),
{
    let mut document_size: usize = 0;
    let mut out: Option<Vec<String>> = None;
    let mut i: usize = 0;
    while i < max_iterations
        invariant
            0 < max_iterations,
            i <= max_iterations,
            i > 0 ==> out is Some,
            i < max_iterations ==> compile_spec(ast@, max_iterations as nat, depth as nat)
                == passes(
                ast@,
                depth as nat,
                document_size as nat,
                previous_view(out),
                (max_iterations - i) as nat,
            ),
            i == max_iterations ==> compile_spec(ast@, max_iterations as nat, depth as nat)
                == Ok::<Seq<Seq<char>>, SpecError>(previous_view(out).unwrap()),
        decreases max_iterations - i,
    {
        let (mut context, mut state) = initialize(document_size);
        match interpret(ast, &mut context, &mut state, depth) {
            Err(error) => {
                return Err(error);
            },
            Ok(_) => {},
        }
        let converged = match &out {
            Some(previous) => same_log(previous, &state.content),
            None => false,
        };
        if converged {
            return Ok(state.content);
        }
        document_size = state.document_size;
        out = Some(state.content);
        i = i + 1;
    }
    Ok(out.unwrap())
}

} // verus!
