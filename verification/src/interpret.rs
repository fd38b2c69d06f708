//! The evaluator: what an expression evaluates to, and the function that computes it.

use vstd::prelude::*;
use crate::context::Context;
use crate::host::call_builtin;
use crate::host::call_builtin_spec;
use crate::host::Outcome;
use crate::host::SpecState;
use crate::host::State;
use crate::syntax::result_view;
use crate::syntax::Ast;
use crate::syntax::Error;
use crate::syntax::SpecAst;
use crate::syntax::SpecEnv;
use crate::syntax::SpecError;
use crate::syntax::SpecValue;
use crate::syntax::Value;
use crate::syntax::Variable;

verus! {

/// The expression that applying the self-reference marker to `argument` goes on
/// with, where `call` is the application that did so: `argument` applied to `call`.
pub open spec fn unrolled(argument: SpecValue, call: SpecAst) -> SpecAst {
    SpecAst::Application(Box::new(SpecAst::Const(argument)), Box::new(call))
}

/// What applying `callee` to `argument` gives. `call` is the application being
/// evaluated and `env` the environment it is evaluated in; `depth` is the budget
/// left for what the application sets off.
pub open spec fn apply(
    callee: SpecValue,
    argument: SpecValue,
    call: SpecAst,
    env: SpecEnv,
    state: SpecState,
    depth: nat,
) -> Outcome
    decreases depth, 1nat,
{
    match callee {
        SpecValue::BuiltinFunction(builtin) => call_builtin_spec(builtin, argument, state),
        SpecValue::Function(captured, param, body) => eval(
            *body,
            captured.insert(param, argument),
            state,
            depth,
        ),
        SpecValue::Fix => eval(unrolled(argument, call), env, state, depth),
        other => Outcome { result: Err(SpecError::NotACallableValue(other)), state },
    }
}

/// What `ast` evaluates to in `env`, starting from `state`, when evaluations may
/// nest `depth` deep. An evaluation that would nest deeper stops with
/// `DepthExceeded`, in the host state that it had reached.
pub open spec fn eval(ast: SpecAst, env: SpecEnv, state: SpecState, depth: nat) -> Outcome
    decreases depth, 0nat,
{
    if depth == 0 {
        Outcome { result: Err(SpecError::DepthExceeded), state }
    } else {
        let inner = (depth - 1) as nat;
        match ast {
            SpecAst::Lambda(param, body) => Outcome {
                result: Ok(SpecValue::Function(env, param, body)),
                state,
            },
            SpecAst::Fix => Outcome { result: Ok(SpecValue::Fix), state },
            SpecAst::Application(function, operand) => {
                let argument = eval(*operand, env, state, inner);
                match argument.result {
                    Err(_) => argument,
                    Ok(argument_value) => {
                        let callee = eval(*function, env, argument.state, inner);
                        match callee.result {
                            Err(_) => callee,
                            Ok(callee_value) => apply(
                                callee_value,
                                argument_value,
                                ast,
                                env,
                                callee.state,
                                inner,
                            ),
                        }
                    },
                }
            },
            SpecAst::Variable(name) => Outcome {
                result: if env.contains_key(name) {
                    Ok(env[name])
                } else {
                    Err(SpecError::NotInScope(name))
                },
                state,
            },
            SpecAst::Const(value) => Outcome { result: Ok(value), state },
            SpecAst::Cond(condition, accepted, rejected) => {
                let chosen = eval(*condition, env, state, inner);
                match chosen.result {
                    Err(_) => chosen,
                    Ok(SpecValue::Bool(flag)) => eval(
                        if flag {
                            *accepted
                        } else {
                            *rejected
                        },
                        env,
                        chosen.state,
                        inner,
                    ),
                    Ok(other) => Outcome {
                        result: Err(SpecError::NotABoolValue(other)),
                        state: chosen.state,
                    },
                }
            },
        }
    }
}

/// Evaluates `body` in `captured` with `param` bound to `argument` for the time
/// of the evaluation. Afterwards `captured` is what it was, whether the evaluation
/// succeeded or failed.
pub fn call_closure(
    captured: &mut Context,
    param: &Variable,
    body: &Ast,
    argument: Value,
    state: &mut State,
    depth: usize,
) -> (r: Result<Value, Error>)
    ensures
        result_view(r) == eval(
            body@,
            old(captured)@.insert(param@, argument@),
            old(state)@,
            depth as nat,
        ).result,
        final(state)@ == eval(
            body@,
            old(captured)@.insert(param@, argument@),
            old(state)@,
            depth as nat,
        ).state,
        final(captured)@ == old(captured)@,
    decreases depth, 1nat,
{
    // A closure cannot borrow `state` mutably, so the host state goes through the
    // scope by value and comes back with the result.
    let mut held = State { content: Vec::new(), document_size: 0 };
    core::mem::swap(state, &mut held);
    let ghost before = held@;
    let scoped = move |scope: &mut Context| -> (r: (Result<Value, Error>, State))
        ensures
            final(scope)@ == old(scope)@,
            result_view(r.0) == eval(body@, old(scope)@, before, depth as nat).result,
            eval(body@, old(scope)@, before, depth as nat).state == r.1@,
        {
            let mut held = held;
            let out = interpret(body, scope, &mut held, depth);
            (out, held)
        };
    let (out, after) = captured.with_var(param, argument, scoped);
    *state = after;
    out
}

/// Evaluates `ast` in `context`, reading and writing `state` through the builtin
/// functions. Evaluations may nest `depth` deep; the environment comes back as it
/// was, whether the evaluation succeeds or fails.
pub fn interpret(ast: &Ast, context: &mut Context, state: &mut State, depth: usize) -> (r: Result<
    Value,
    Error,
>)
    ensures
        result_view(r) == eval(ast@, old(context)@, old(state)@, depth as nat).result,
        final(state)@ == eval(ast@, old(context)@, old(state)@, depth as nat).state,
        final(context)@ == old(context)@,
    decreases depth, 0nat,
{
    if depth == 0 {
        return Err(Error::DepthExceeded);
    }
    match ast {
        Ast::Lambda(bound_var, body) => Ok(
            Value::Function(context.clone(), bound_var.clone(), Box::new((**body).clone())),
        ),
        Ast::Fix => Ok(Value::Fix),
        Ast::Application(f, x) => {
            let arg = interpret(x, context, state, depth - 1)?;
            let callee = interpret(f, context, state, depth - 1)?;
            proof {
                let inner = (depth - 1) as nat;
                let argument = eval(x@, context@, old(state)@, inner);
                let function = eval(f@, context@, argument.state, inner);
                assert(eval(ast@, context@, old(state)@, depth as nat) == apply(
                    callee@,
                    arg@,
                    ast@,
                    context@,
                    function.state,
                    inner,
                ));
            }
            match callee {
                Value::BuiltinFunction(builtin) => call_builtin(builtin, arg, state),
                Value::Function(captured, bound_var, body) => {
                    let mut captured = captured;
                    call_closure(&mut captured, &bound_var, &body, arg, state, depth - 1)
                },
                Value::Fix => {
                    let ghost argument = arg@;
                    let literal = Ast::Const(arg);
                    assert(literal@ == SpecAst::Const(argument));
                    let again = Ast::Application(Box::new(literal), Box::new(ast.clone()));
                    interpret(&again, context, state, depth - 1)
                },
                val => Err(Error::NotACallableValue(val)),
            }
        },
        Ast::Variable(var) => match context.lookup(var) {
            Some(out) => Ok(out.clone()),
            None => Err(Error::NotInScope(var.clone())),
        },
        Ast::Const(val) => Ok(val.clone()),
        Ast::Cond(cond, accepted, rejected) => match interpret(cond, context, state, depth - 1)? {
            Value::Bool(b) => interpret(
                if b {
                    accepted
                } else {
                    rejected
                },
                context,
                state,
                depth - 1,
            ),
            val => Err(Error::NotABoolValue(val)),
        },
    }
}

} // verus!
