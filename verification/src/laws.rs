//! Laws of the evaluator and of the driver, each proved from the definitions.

use vstd::prelude::*;
use crate::context::binding;
use crate::context::restore_binding;
use crate::driver::compile_spec;
use crate::driver::fresh_state;
use crate::driver::initial_env;
use crate::driver::nth_parameter;
use crate::driver::nth_pass;
use crate::driver::pass;
use crate::driver::passes;
use crate::host::SpecState;
use crate::interpret::apply;
use crate::interpret::eval;
use crate::interpret::unrolled;
use crate::syntax::SpecAst;
use crate::syntax::SpecEnv;
use crate::syntax::SpecError;
use crate::syntax::SpecValue;

verus! {

/// Binding `name` to `value` and then giving `name` back what it was bound to
/// before, or nothing if it was unbound, leaves the environment as it was.
pub proof fn lemma_shadow_restore(env: SpecEnv, name: Seq<char>, value: SpecValue)
    ensures
        restore_binding(env.insert(name, value), name, binding(env, name)) == env,
{
    assert(restore_binding(env.insert(name, value), name, binding(env, name)) =~= env);
}

/// The environment after the scopes of `bindings` have been entered one inside
/// the other, the first outermost, and left again from the innermost out, each
/// giving its name back the binding that it found.
pub open spec fn after_scopes(env: SpecEnv, bindings: Seq<(Seq<char>, SpecValue)>) -> SpecEnv
    decreases bindings.len(),
{
    if bindings.len() == 0 {
        env
    } else {
        let (name, value) = bindings.first();
        restore_binding(
            after_scopes(env.insert(name, value), bindings.drop_first()),
            name,
            binding(env, name),
        )
    }
}

/// However many scopes are nested, and whatever names and values they bind, the
/// environment after the outermost scope is the one before it.
pub proof fn lemma_nested_scopes_restore(env: SpecEnv, bindings: Seq<(Seq<char>, SpecValue)>)
    ensures
        after_scopes(env, bindings) == env,
    decreases bindings.len(),
{
    if bindings.len() > 0 {
        let (name, value) = bindings.first();
        lemma_nested_scopes_restore(env.insert(name, value), bindings.drop_first());
        lemma_shadow_restore(env, name, value);
    }
}

/// A closure keeps the environment that its lambda was evaluated in. Of two
/// closures made from one lambda under two bindings of `name`, each, when applied,
/// evaluates the body with its own binding of `name`, whatever the environment
/// `later` of the application holds.
pub proof fn lemma_closure_capture_isolation(
    env: SpecEnv,
    later: SpecEnv,
    name: Seq<char>,
    first: SpecValue,
    second: SpecValue,
    param: Seq<char>,
    body: SpecAst,
    argument: SpecValue,
    call: SpecAst,
    state: SpecState,
    depth: nat,
)
    requires
        depth > 0,
    ensures
        ({
            let lambda = SpecAst::Lambda(param, Box::new(body));
            let made_first = eval(lambda, env.insert(name, first), state, depth);
            let made_second = eval(lambda, env.insert(name, second), state, depth);
            &&& made_first.result is Ok
            &&& made_second.result is Ok
            &&& made_first.state == state
            &&& made_second.state == state
            &&& apply(made_first.result->Ok_0, argument, call, later, state, depth) == eval(
                body,
                env.insert(name, first).insert(param, argument),
                state,
                depth,
            )
            &&& apply(made_second.result->Ok_0, argument, call, later, state, depth) == eval(
                body,
                env.insert(name, second).insert(param, argument),
                state,
                depth,
            )
        }),
{
}

/// Where the body of the lambda is the variable `name` itself, and `name` is not
/// the parameter, the first closure returns `first` and the second `second`.
pub proof fn lemma_closure_observes_own_binding(
    env: SpecEnv,
    later: SpecEnv,
    name: Seq<char>,
    first: SpecValue,
    second: SpecValue,
    param: Seq<char>,
    argument: SpecValue,
    call: SpecAst,
    state: SpecState,
    depth: nat,
)
    requires
        depth > 0,
        param != name,
    ensures
        ({
            let lambda = SpecAst::Lambda(param, Box::new(SpecAst::Variable(name)));
            let made_first = eval(lambda, env.insert(name, first), state, depth);
            let made_second = eval(lambda, env.insert(name, second), state, depth);
            &&& apply(made_first.result->Ok_0, argument, call, later, state, depth).result == Ok::<
                SpecValue,
                SpecError,
            >(first)
            &&& apply(made_second.result->Ok_0, argument, call, later, state, depth).result == Ok::<
                SpecValue,
                SpecError,
            >(second)
        }),
{
}

/// An application evaluates its operand first, and its function in the host state
/// that the operand left. If the operand fails, the function is not evaluated at
/// all; if the function fails, nothing is applied.
pub proof fn lemma_operand_before_function(
    function: SpecAst,
    operand: SpecAst,
    env: SpecEnv,
    state: SpecState,
    depth: nat,
)
    requires
        depth > 0,
    ensures
        ({
            let call = SpecAst::Application(Box::new(function), Box::new(operand));
            let inner = (depth - 1) as nat;
            let argument = eval(operand, env, state, inner);
            let callee = eval(function, env, argument.state, inner);
            eval(call, env, state, depth) == if argument.result is Err {
                argument
            } else if callee.result is Err {
                callee
            } else {
                apply(callee.result->Ok_0, argument.result->Ok_0, call, env, callee.state, inner)
            }
        }),
{
}

/// Applying the self-reference marker to an argument goes on as the evaluation of
/// the argument applied to the whole application, in the same environment and in
/// the host state reached so far.
pub proof fn lemma_self_reference_unrolls(
    function: SpecAst,
    operand: SpecAst,
    env: SpecEnv,
    state: SpecState,
    depth: nat,
)
    requires
        depth > 0,
        eval(operand, env, state, (depth - 1) as nat).result is Ok,
        eval(
            function,
            env,
            eval(operand, env, state, (depth - 1) as nat).state,
            (depth - 1) as nat,
        ).result == Ok::<SpecValue, SpecError>(SpecValue::Fix),
    ensures
        ({
            let call = SpecAst::Application(Box::new(function), Box::new(operand));
            let inner = (depth - 1) as nat;
            let argument = eval(operand, env, state, inner);
            let callee = eval(function, env, argument.state, inner);
            eval(call, env, state, depth) == eval(
                unrolled(argument.result->Ok_0, call),
                env,
                callee.state,
                inner,
            )
        }),
{
    lemma_operand_before_function(function, operand, env, state, depth);
}

/// `after` is a host state that evaluation can reach from `before`: the parameter
/// is the same, and the log holds what it held, in place, with more at its end.
pub open spec fn extends(before: SpecState, after: SpecState) -> bool {
    &&& after.document_size == before.document_size
    &&& before.content.len() <= after.content.len()
    &&& forall|i: int| 0 <= i < before.content.len() ==> after.content[i] == before.content[i]
}

/// An application only appends to the log and leaves the parameter alone.
pub proof fn lemma_apply_extends_state(
    callee: SpecValue,
    argument: SpecValue,
    call: SpecAst,
    env: SpecEnv,
    state: SpecState,
    depth: nat,
)
    ensures
        extends(state, apply(callee, argument, call, env, state, depth).state),
    decreases depth, 1nat,
{
    match callee {
        SpecValue::BuiltinFunction(builtin) => {},
        SpecValue::Function(captured, param, body) => {
            lemma_eval_extends_state(*body, captured.insert(param, argument), state, depth);
        },
        SpecValue::Fix => {
            lemma_eval_extends_state(unrolled(argument, call), env, state, depth);
        },
        _ => {},
    }
}

/// An evaluation only appends to the log and leaves the parameter alone, whether
/// it succeeds or fails.
pub proof fn lemma_eval_extends_state(ast: SpecAst, env: SpecEnv, state: SpecState, depth: nat)
    ensures
        extends(state, eval(ast, env, state, depth).state),
    decreases depth, 0nat,
{
    if depth > 0 {
        let inner = (depth - 1) as nat;
        match ast {
            SpecAst::Application(function, operand) => {
                let argument = eval(*operand, env, state, inner);
                lemma_eval_extends_state(*operand, env, state, inner);
                if argument.result is Ok {
                    let callee = eval(*function, env, argument.state, inner);
                    lemma_eval_extends_state(*function, env, argument.state, inner);
                    if callee.result is Ok {
                        lemma_apply_extends_state(
                            callee.result->Ok_0,
                            argument.result->Ok_0,
                            ast,
                            env,
                            callee.state,
                            inner,
                        );
                    }
                }
            },
            SpecAst::Cond(condition, accepted, rejected) => {
                let chosen = eval(*condition, env, state, inner);
                lemma_eval_extends_state(*condition, env, state, inner);
                if let Ok(SpecValue::Bool(flag)) = chosen.result {
                    lemma_eval_extends_state(
                        if flag {
                            *accepted
                        } else {
                            *rejected
                        },
                        env,
                        chosen.state,
                        inner,
                    );
                }
            },
            _ => {},
        }
    }
}

/// A larger budget changes nothing for an application that the smaller one was
/// enough for.
pub proof fn lemma_apply_deeper(
    callee: SpecValue,
    argument: SpecValue,
    call: SpecAst,
    env: SpecEnv,
    state: SpecState,
    depth: nat,
    more: nat,
)
    requires
        depth <= more,
        apply(callee, argument, call, env, state, depth).result != Err::<SpecValue, SpecError>(
            SpecError::DepthExceeded,
        ),
    ensures
        apply(callee, argument, call, env, state, more) == apply(
            callee,
            argument,
            call,
            env,
            state,
            depth,
        ),
    decreases depth, 1nat,
{
    match callee {
        SpecValue::Function(captured, param, body) => {
            lemma_eval_deeper(*body, captured.insert(param, argument), state, depth, more);
        },
        SpecValue::Fix => {
            lemma_eval_deeper(unrolled(argument, call), env, state, depth, more);
        },
        _ => {},
    }
}

/// A larger budget changes nothing for an evaluation that the smaller one was
/// enough for: the budget decides only whether an outcome is reached, never which.
pub proof fn lemma_eval_deeper(
    ast: SpecAst,
    env: SpecEnv,
    state: SpecState,
    depth: nat,
    more: nat,
)
    requires
        depth <= more,
        eval(ast, env, state, depth).result != Err::<SpecValue, SpecError>(
            SpecError::DepthExceeded,
        ),
    ensures
        eval(ast, env, state, more) == eval(ast, env, state, depth),
    decreases depth, 0nat,
{
    let inner = (depth - 1) as nat;
    let more_inner = (more - 1) as nat;
    match ast {
        SpecAst::Application(function, operand) => {
            let argument = eval(*operand, env, state, inner);
            lemma_eval_deeper(*operand, env, state, inner, more_inner);
            if argument.result is Ok {
                let callee = eval(*function, env, argument.state, inner);
                lemma_eval_deeper(*function, env, argument.state, inner, more_inner);
                if callee.result is Ok {
                    lemma_apply_deeper(
                        callee.result->Ok_0,
                        argument.result->Ok_0,
                        ast,
                        env,
                        callee.state,
                        inner,
                        more_inner,
                    );
                }
            }
        },
        SpecAst::Cond(condition, accepted, rejected) => {
            let chosen = eval(*condition, env, state, inner);
            lemma_eval_deeper(*condition, env, state, inner, more_inner);
            if let Ok(SpecValue::Bool(flag)) = chosen.result {
                lemma_eval_deeper(
                    if flag {
                        *accepted
                    } else {
                        *rejected
                    },
                    env,
                    chosen.state,
                    inner,
                    more_inner,
                );
            }
        },
        _ => {},
    }
}

/// The log that the pass before pass number `index` emitted, if there was one.
pub open spec fn log_before(program: SpecAst, depth: nat, index: nat) -> Option<Seq<Seq<char>>> {
    if index == 0 {
        None
    } else {
        Some(nth_pass(program, depth, (index - 1) as nat).state.content)
    }
}

/// Pass number `index` emits what the pass before it emitted.
pub open spec fn repeats(program: SpecAst, depth: nat, index: nat) -> bool {
    index > 0 && nth_pass(program, depth, index).state.content == nth_pass(
        program,
        depth,
        (index - 1) as nat,
    ).state.content
}

/// The passes before number `index` all succeed, and none of them repeats the log
/// of the pass before it.
pub open spec fn runs_up_to(program: SpecAst, depth: nat, index: nat) -> bool {
    forall|i: nat|
        i < index ==> (#[trigger] nth_pass(program, depth, i)).result is Ok && !repeats(
            program,
            depth,
            i,
        )
}

proof fn lemma_passes_from(program: SpecAst, depth: nat, max_iterations: nat, from: nat, last: nat)
    requires
        from <= last < max_iterations,
        runs_up_to(program, depth, last),
    ensures
        passes(
            program,
            depth,
            nth_parameter(program, depth, from),
            log_before(program, depth, from),
            (max_iterations - from) as nat,
        ) == passes(
            program,
            depth,
            nth_parameter(program, depth, last),
            log_before(program, depth, last),
            (max_iterations - last) as nat,
        ),
    decreases last - from,
{
    if from < last {
        assert(nth_pass(program, depth, from).result is Ok && !repeats(program, depth, from));
        lemma_passes_from(program, depth, max_iterations, from + 1, last);
    }
}

/// The driver returns the log of the first pass that repeats the log of the pass
/// before it, and the log of its last pass if none does: where the passes before
/// number `last` succeed without repeating, and pass number `last` succeeds and
/// either repeats or is the last that the budget allows, `compile` returns the
/// log of pass number `last`.
pub proof fn lemma_compile_returns_pass(
    program: SpecAst,
    depth: nat,
    max_iterations: nat,
    last: nat,
)
    requires
        last < max_iterations,
        runs_up_to(program, depth, last),
        nth_pass(program, depth, last).result is Ok,
        repeats(program, depth, last) || last + 1 == max_iterations,
    ensures
        compile_spec(program, max_iterations, depth) == Ok::<Seq<Seq<char>>, SpecError>(
            nth_pass(program, depth, last).state.content,
        ),
{
    lemma_passes_from(program, depth, max_iterations, 0, last);
}

/// The driver gives up at the first pass that fails, with that pass's error:
/// where the passes before number `failing` succeed without repeating, and pass
/// number `failing` is within the budget and fails, `compile` returns its error.
pub proof fn lemma_compile_returns_first_error(
    program: SpecAst,
    depth: nat,
    max_iterations: nat,
    failing: nat,
)
    requires
        failing < max_iterations,
        runs_up_to(program, depth, failing),
        nth_pass(program, depth, failing).result is Err,
    ensures
        compile_spec(program, max_iterations, depth) == Err::<Seq<Seq<char>>, SpecError>(
            nth_pass(program, depth, failing).result->Err_0,
        ),
{
    lemma_passes_from(program, depth, max_iterations, 0, failing);
}

/// No builtin function writes the parameter, so every pass runs with zero.
pub proof fn lemma_every_pass_runs_with_zero(program: SpecAst, depth: nat, index: nat)
    ensures
        nth_parameter(program, depth, index) == 0,
    decreases index,
{
    if index > 0 {
        let before = (index - 1) as nat;
        lemma_every_pass_runs_with_zero(program, depth, before);
        lemma_eval_extends_state(program, initial_env(), fresh_state(0), depth);
    }
}

/// With these builtin functions every pass is the first pass again, so the second
/// pass repeats the first: whatever the budget of passes, `compile` returns what
/// the first pass emits, or the error that it fails with.
pub proof fn lemma_compile_is_first_pass(program: SpecAst, depth: nat, max_iterations: nat)
    requires
        max_iterations > 0,
    ensures
        compile_spec(program, max_iterations, depth) == match pass(program, 0, depth).result {
            Ok(_) => Ok::<Seq<Seq<char>>, SpecError>(pass(program, 0, depth).state.content),
            Err(error) => Err(error),
        },
{
    lemma_every_pass_runs_with_zero(program, depth, 1);
    if pass(program, 0, depth).result is Ok && max_iterations > 1 {
        assert(repeats(program, depth, 1));
        assert(runs_up_to(program, depth, 1));
        lemma_compile_returns_pass(program, depth, max_iterations, 1);
    }
}

} // verus!
