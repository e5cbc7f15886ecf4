//! Evaluation: what a syntax tree computes in an environment of a context.

use vstd::prelude::*;
use vstd::string::*;

use crate::ast::{Ast, Expr};
use crate::context::{grows_in_steps, grows_to_itself, steps_grow, Context, State};
use crate::environment::{child, lookup, Environment, EnvironmentRef, Frame};
use crate::errors::Error;
use crate::functions::{
    bind, in_function, primitive, too_deep, Code, CodeModel, Function, Procedure,
};
use crate::types::{data, display, Datum, Value};

verus! {

/// What an evaluation leaves behind: the state of the context after it, and
/// the value or the message of the failure.
pub struct Outcome {
    pub state: State,
    pub result: Result<Datum, Seq<char>>,
}

/// What the evaluation of a list of arguments leaves behind.
pub struct Gathered {
    pub state: State,
    pub result: Result<Seq<Datum>, Seq<char>>,
}

/// The message for a variable that no environment on the chain binds.
pub open spec fn undefined_variable(text: Seq<char>) -> Seq<char> {
    "variable `"@ + text + "` is not defined"@
}

/// The message for a call of a value that is no function of the context.
pub open spec fn not_callable(d: Datum) -> Seq<char> {
    "cannot call "@ + display(d) + " as function"@
}

/// The function of the state that a value refers to, if it refers to one.
pub open spec fn callee(st: State, d: Datum) -> Option<Procedure> {
    match d {
        Datum::Function(f) => if f.index < st.functions.len() {
            Some(st.functions[f.index as int])
        } else {
            None
        },
        _ => None,
    }
}

/// The closure that a definition makes in environment `env`.
pub open spec fn closure(name: crate::types::Name, parameters: Seq<crate::types::Name>, body: Expr, env: nat) -> Procedure {
    Procedure {
        name: Some(name),
        arity: parameters.len(),
        code: CodeModel::Closure { name, parameters, body: Box::new(body), env },
    }
}

/// What the evaluation of `e` in environment `env` of state `st` leaves
/// behind, when at most `fuel` calls of closures may be nested.
///
/// A literal is its value. A variable is what the nearest environment binds it
/// to. A call evaluates the function, then the arguments from left to right,
/// and applies the one to the others. A conditional evaluates its question
/// and then one branch only: the second where the question gave the empty
/// list, the first for any other value. A definition makes a closure over
/// `env`, binds its name to it in `env` itself, and gives the empty list.
pub open spec fn eval(st: State, env: nat, e: Expr, fuel: nat) -> Outcome
    decreases fuel, 2nat, e, 0nat,
{
    match e {
        Expr::Literal(d) => Outcome { state: st, result: Ok(d) },
        Expr::Variable(name) => Outcome {
            state: st,
            result: match lookup(st.frames, env, name.id) {
                Some(d) => Ok(d),
                None => Err(undefined_variable(name.text)),
            },
        },
        Expr::Apply { func, arguments } => {
            let f = eval(st, env, *func, fuel);
            match f.result {
                Err(_) => f,
                Ok(function) => {
                    let a = eval_arguments(f.state, env, arguments, 0, Seq::empty(), fuel);
                    match a.result {
                        Err(m) => Outcome { state: a.state, result: Err(m) },
                        Ok(values) => match callee(a.state, function) {
                            Some(procedure) => apply(a.state, procedure, values, fuel),
                            None => Outcome { state: a.state, result: Err(not_callable(function)) },
                        },
                    }
                },
            }
        },
        Expr::If { question, answer, otherwise } => {
            let q = eval(st, env, *question, fuel);
            match q.result {
                Err(_) => q,
                Ok(v) => if v is Null {
                    eval(q.state, env, *otherwise, fuel)
                } else {
                    eval(q.state, env, *answer, fuel)
                },
            }
        },
        Expr::Define { name, parameters, body } => Outcome {
            state: st.with_function(closure(name, parameters, *body, env)).with_binding(
                env,
                name.id,
                Datum::Function(st.handle(closure(name, parameters, *body, env))),
            ),
            result: Ok(Datum::Null),
        },
    }
}

/// What the evaluation of the arguments from place `i` on leaves behind, in
/// order, after the values in `done`. The first failure ends it.
pub open spec fn eval_arguments(
    st: State,
    env: nat,
    arguments: Seq<Expr>,
    i: nat,
    done: Seq<Datum>,
    fuel: nat,
) -> Gathered
    decreases fuel, 2nat, arguments, arguments.len() - i,
{
    if i >= arguments.len() {
        Gathered { state: st, result: Ok(done) }
    } else {
        let first = eval(st, env, arguments[i as int], fuel);
        match first.result {
            Err(m) => Gathered { state: first.state, result: Err(m) },
            Ok(v) => eval_arguments(first.state, env, arguments, i + 1, done.push(v), fuel),
        }
    }
}

/// What the call of `f` with `arguments` leaves behind.
///
/// The number of arguments is checked first. A built-in operation then gives
/// its result. A closure evaluates its body in a fresh environment inside the
/// one it was defined in, with its parameters bound to the arguments in
/// order; a failure of the body is reported under the closure's name. When
/// the body is done, the fresh environment is given up unless a closure was
/// defined in it. Where no fuel is left, a closure is not entered.
pub open spec fn apply(st: State, f: Procedure, arguments: Seq<Datum>, fuel: nat) -> Outcome
    decreases fuel, 1nat, f, 0nat,
{
    if arguments.len() != f.arity {
        Outcome { state: st, result: Err(f.wrong_arity(arguments.len())) }
    } else {
        match f.code {
            CodeModel::Native(p) => primitive(st, p, arguments),
            CodeModel::Closure { name, parameters, body, env } => {
                if fuel == 0 {
                    Outcome { state: st, result: Err(too_deep()) }
                } else {
                    let inside = st.with_frame(
                        Frame {
                            parent: Some(env),
                            bindings: bind(parameters, arguments, 0, Map::empty()),
                        },
                    );
                    let inner = eval(inside, st.frames.len(), *body, (fuel - 1) as nat);
                    Outcome {
                        state: inner.state.leave(st.frames.len()),
                        result: match inner.result {
                            Ok(v) => Ok(v),
                            Err(m) => Err(in_function(name.text, m)),
                        },
                    }
                }
            },
        }
    }
}

/// A conditional takes every value of its question but the empty list as
/// true, the integer 0 too: it goes on with its first branch for them, with
/// its second for the empty list, and never evaluates the other branch. A
/// failure of the question is the failure of the conditional.
pub proof fn if_tests_for_the_empty_list(
    st: State,
    env: nat,
    question: Expr,
    answer: Expr,
    otherwise: Expr,
    fuel: nat,
)
    ensures
        ({
            let q = eval(st, env, question, fuel);
            let whole = eval(
                st,
                env,
                Expr::If {
                    question: Box::new(question),
                    answer: Box::new(answer),
                    otherwise: Box::new(otherwise),
                },
                fuel,
            );
            match q.result {
                Err(_) => whole == q,
                Ok(v) => if v == Datum::Null {
                    whole == eval(q.state, env, otherwise, fuel)
                } else {
                    whole == eval(q.state, env, answer, fuel)
                },
            }
        }),
        eval(st, env, question, fuel).result == Ok::<Datum, Seq<char>>(Datum::Integer(0)) ==> eval(
            st,
            env,
            Expr::If {
                question: Box::new(question),
                answer: Box::new(answer),
                otherwise: Box::new(otherwise),
            },
            fuel,
        ) == eval(eval(st, env, question, fuel).state, env, answer, fuel),
{
}

/// A definition binds its name in the environment it is evaluated in to a
/// closure over that same environment. So a lookup of the name from a fresh
/// environment inside it, as the body of the closure makes it, finds the
/// closure itself, unless a parameter has the same name: a function can call
/// itself.
pub proof fn a_definition_is_visible_to_its_body(
    st: State,
    env: nat,
    name: crate::types::Name,
    parameters: Seq<crate::types::Name>,
    body: Expr,
    fuel: nat,
    bindings: Map<nat, Datum>,
)
    requires
        st.wf(),
        env < st.frames.len(),
    ensures
        ({
            let o = eval(st, env, Expr::Define { name, parameters, body: Box::new(body) }, fuel);
            let made = Datum::Function(st.handle(closure(name, parameters, body, env)));
            let inside = o.state.with_frame(Frame { parent: Some(env), bindings });
            &&& o.result == Ok::<Datum, Seq<char>>(Datum::Null)
            &&& o.state.wf()
            &&& callee(o.state, made) == Some(closure(name, parameters, body, env))
            &&& lookup(o.state.frames, env, name.id) == Some(made)
            &&& !bindings.contains_key(name.id) ==> lookup(
                inside.frames,
                o.state.frames.len(),
                name.id,
            ) == Some(made)
        }),
{
    let o = eval(st, env, Expr::Define { name, parameters, body: Box::new(body) }, fuel);
    let inside = o.state.with_frame(Frame { parent: Some(env), bindings });
    assert(o.state.frames[env as int].bindings.contains_key(name.id));
    assert(inside.frames[env as int] == o.state.frames[env as int]);
    assert(lookup(inside.frames, env, name.id) == Some(
        Datum::Function(st.handle(closure(name, parameters, body, env))),
    ));
    assert forall|e: int| 0 <= e < o.state.frames.len() implies (
    #[trigger] o.state.frames[e].parent matches Some(p) ==> p < e) by {
        assert(o.state.frames[e].parent == st.frames[e].parent);
    }
}

/// A call with another number of arguments than the function expects fails
/// before anything is run, with a message that names the function, the
/// number given and the number expected; the state is as it was.
pub proof fn a_call_checks_the_number_of_arguments(
    st: State,
    f: Procedure,
    arguments: Seq<Datum>,
    fuel: nat,
)
    requires
        arguments.len() != f.arity,
    ensures
        apply(st, f, arguments, fuel) == (Outcome {
            state: st,
            result: Err(f.wrong_arity(arguments.len())),
        }),
{
}

/// Evaluation keeps what the state of a context holds: the interned symbols
/// keep their identities, the functions their places, and the environments
/// their parents and the names they bind.
pub proof fn eval_grows(st: State, env: nat, e: Expr, fuel: nat)
    ensures
        st.grows_to(eval(st, env, e, fuel).state),
    decreases fuel, 2nat, e, 0nat,
{
    grows_to_itself(st);
    match e {
        Expr::Apply { func, arguments } => {
            eval_grows(st, env, *func, fuel);
            let f = eval(st, env, *func, fuel);
            if let Ok(function) = f.result {
                arguments_grow(f.state, env, arguments, 0, Seq::empty(), fuel);
                let a = eval_arguments(f.state, env, arguments, 0, Seq::empty(), fuel);
                grows_in_steps(st, f.state, a.state);
                if let Ok(values) = a.result {
                    if let Some(procedure) = callee(a.state, function) {
                        apply_grows(a.state, procedure, values, fuel);
                        grows_in_steps(st, a.state, apply(a.state, procedure, values, fuel).state);
                    }
                }
            }
        },
        Expr::If { question, answer, otherwise } => {
            eval_grows(st, env, *question, fuel);
            let q = eval(st, env, *question, fuel);
            if let Ok(v) = q.result {
                if v is Null {
                    eval_grows(q.state, env, *otherwise, fuel);
                    grows_in_steps(st, q.state, eval(q.state, env, *otherwise, fuel).state);
                } else {
                    eval_grows(q.state, env, *answer, fuel);
                    grows_in_steps(st, q.state, eval(q.state, env, *answer, fuel).state);
                }
            }
        },
        Expr::Define { name, parameters, body } => {
            let made = closure(name, parameters, *body, env);
            let s1 = st.with_function(made);
            steps_grow(st, Seq::empty(), child(0), made, 0, 0, Datum::Null);
            steps_grow(s1, Seq::empty(), child(0), made, env, name.id, Datum::Function(st.handle(made)));
            grows_in_steps(st, s1, s1.with_binding(env, name.id, Datum::Function(st.handle(made))));
        },
        _ => {},
    }
}

/// The evaluation of arguments keeps what the state holds.
pub proof fn arguments_grow(
    st: State,
    env: nat,
    arguments: Seq<Expr>,
    i: nat,
    done: Seq<Datum>,
    fuel: nat,
)
    ensures
        st.grows_to(eval_arguments(st, env, arguments, i, done, fuel).state),
    decreases fuel, 2nat, arguments, arguments.len() - i,
{
    grows_to_itself(st);
    if i < arguments.len() {
        eval_grows(st, env, arguments[i as int], fuel);
        let first = eval(st, env, arguments[i as int], fuel);
        if let Ok(v) = first.result {
            arguments_grow(first.state, env, arguments, i + 1, done.push(v), fuel);
            grows_in_steps(
                st,
                first.state,
                eval_arguments(first.state, env, arguments, i + 1, done.push(v), fuel).state,
            );
        }
    }
}

/// A call keeps what the state holds.
pub proof fn apply_grows(st: State, f: Procedure, arguments: Seq<Datum>, fuel: nat)
    ensures
        st.grows_to(apply(st, f, arguments, fuel).state),
    decreases fuel, 1nat, f, 0nat,
{
    grows_to_itself(st);
    if arguments.len() == f.arity {
        match f.code {
            CodeModel::Native(p) => {
                steps_grow(st, Seq::empty(), child(0), f, 0, 0, Datum::Null);
            },
            CodeModel::Closure { name, parameters, body, env } => {
                if fuel > 0 {
                    let frame = Frame {
                        parent: Some(env),
                        bindings: bind(parameters, arguments, 0, Map::empty()),
                    };
                    let inside = st.with_frame(frame);
                    steps_grow(st, Seq::empty(), frame, f, 0, 0, Datum::Null);
                    eval_grows(inside, st.frames.len(), *body, (fuel - 1) as nat);
                    let inner = eval(inside, st.frames.len(), *body, (fuel - 1) as nat).state;
                    grows_in_steps(st, inside, inner);
                    assert(st.grows_to(inner.leave(st.frames.len())));
                }
            },
        }
    }
}

/// A new binding keeps a state well formed.
pub proof fn binding_keeps_wf(st: State, env: nat, id: nat, value: Datum)
    requires
        st.wf(),
    ensures
        st.with_binding(env, id, value).wf(),
{
    let later = st.with_binding(env, id, value);
    assert forall|e: int| 0 <= e < later.frames.len() implies (
    #[trigger] later.frames[e].parent matches Some(p) ==> p < e) by {
        assert(later.frames[e].parent == st.frames[e].parent);
    }
}

/// Giving up the environment of a call that has returned keeps a state
/// well formed.
pub proof fn leaving_keeps_wf(st: State, env: nat)
    requires
        st.wf(),
        env > 0,
    ensures
        st.leave(env).wf(),
{
    let later = st.leave(env);
    if later != st {
        assert forall|f: int| 0 <= f < later.functions.len() implies later.admits(
            #[trigger] later.functions[f],
        ) by {
            assert(st.admits(st.functions[f]));
            assert(!st.functions[f].defined_in(env));
        }
        assert forall|e: int| 0 <= e < later.frames.len() implies (
        #[trigger] later.frames[e].parent matches Some(p) ==> p < e) by {
            assert(later.frames[e] == st.frames[e]);
        }
    }
}

/// Evaluation in an environment of a well-formed state leaves a well-formed
/// state.
pub proof fn eval_keeps_wf(st: State, env: nat, e: Expr, fuel: nat)
    requires
        st.wf(),
        env < st.frames.len(),
    ensures
        eval(st, env, e, fuel).state.wf(),
    decreases fuel, 2nat, e, 0nat,
{
    match e {
        Expr::Apply { func, arguments } => {
            eval_keeps_wf(st, env, *func, fuel);
            eval_grows(st, env, *func, fuel);
            let f = eval(st, env, *func, fuel);
            if let Ok(function) = f.result {
                arguments_keep_wf(f.state, env, arguments, 0, Seq::empty(), fuel);
                let a = eval_arguments(f.state, env, arguments, 0, Seq::empty(), fuel);
                if let Ok(values) = a.result {
                    if let Some(procedure) = callee(a.state, function) {
                        apply_keeps_wf(a.state, procedure, values, fuel);
                    }
                }
            }
        },
        Expr::If { question, answer, otherwise } => {
            eval_keeps_wf(st, env, *question, fuel);
            eval_grows(st, env, *question, fuel);
            let q = eval(st, env, *question, fuel);
            if let Ok(v) = q.result {
                if v is Null {
                    eval_keeps_wf(q.state, env, *otherwise, fuel);
                } else {
                    eval_keeps_wf(q.state, env, *answer, fuel);
                }
            }
        },
        Expr::Define { name, parameters, body } => {
            let made = closure(name, parameters, *body, env);
            let s1 = st.with_function(made);
            assert(s1.wf());
            binding_keeps_wf(s1, env, name.id, Datum::Function(st.handle(made)));
        },
        _ => {},
    }
}

/// The evaluation of arguments in an environment of a well-formed state
/// leaves a well-formed state.
pub proof fn arguments_keep_wf(
    st: State,
    env: nat,
    arguments: Seq<Expr>,
    i: nat,
    done: Seq<Datum>,
    fuel: nat,
)
    requires
        st.wf(),
        env < st.frames.len(),
    ensures
        eval_arguments(st, env, arguments, i, done, fuel).state.wf(),
    decreases fuel, 2nat, arguments, arguments.len() - i,
{
    if i < arguments.len() {
        eval_keeps_wf(st, env, arguments[i as int], fuel);
        eval_grows(st, env, arguments[i as int], fuel);
        let first = eval(st, env, arguments[i as int], fuel);
        if let Ok(v) = first.result {
            arguments_keep_wf(first.state, env, arguments, i + 1, done.push(v), fuel);
        }
    }
}

/// A call of a function that can be called in a well-formed state leaves a
/// well-formed state.
pub proof fn apply_keeps_wf(st: State, f: Procedure, arguments: Seq<Datum>, fuel: nat)
    requires
        st.wf(),
        st.admits(f),
    ensures
        apply(st, f, arguments, fuel).state.wf(),
    decreases fuel, 1nat, f, 0nat,
{
    if arguments.len() == f.arity {
        match f.code {
            CodeModel::Native(p) => {
                crate::context::intern_preserves_wf(st, "t"@);
            },
            CodeModel::Closure { name, parameters, body, env } => {
                if fuel > 0 {
                    let frame = Frame {
                        parent: Some(env),
                        bindings: bind(parameters, arguments, 0, Map::empty()),
                    };
                    let inside = st.with_frame(frame);
                    assert(inside.wf());
                    eval_keeps_wf(inside, st.frames.len(), *body, (fuel - 1) as nat);
                    leaving_keeps_wf(
                        eval(inside, st.frames.len(), *body, (fuel - 1) as nat).state,
                        st.frames.len(),
                    );
                }
            },
        }
    }
}

/// A value that an evaluation gives within the limit on nested calls does not
/// depend on the limit: with a higher limit the evaluation leaves the same
/// state and gives the same value.
pub proof fn a_value_does_not_depend_on_the_limit(
    st: State,
    env: nat,
    e: Expr,
    fuel: nat,
    more: nat,
)
    requires
        eval(st, env, e, fuel).result is Ok,
        fuel <= more,
    ensures
        eval(st, env, e, more) == eval(st, env, e, fuel),
    decreases more - fuel,
{
    if fuel < more {
        eval_with_one_more(st, env, e, fuel);
        a_value_does_not_depend_on_the_limit(st, env, e, fuel + 1, more);
    }
}

/// An evaluation that gives a value gives the same with one more nested
/// call allowed.
pub proof fn eval_with_one_more(st: State, env: nat, e: Expr, fuel: nat)
    requires
        eval(st, env, e, fuel).result is Ok,
    ensures
        eval(st, env, e, fuel + 1) == eval(st, env, e, fuel),
    decreases fuel, 2nat, e, 0nat,
{
    match e {
        Expr::Apply { func, arguments } => {
            let f = eval(st, env, *func, fuel);
            eval_with_one_more(st, env, *func, fuel);
            let function = f.result->Ok_0;
            let a = eval_arguments(f.state, env, arguments, 0, Seq::empty(), fuel);
            arguments_with_one_more(f.state, env, arguments, 0, Seq::empty(), fuel);
            let values = a.result->Ok_0;
            let procedure = callee(a.state, function)->Some_0;
            apply_with_one_more(a.state, procedure, values, fuel);
        },
        Expr::If { question, answer, otherwise } => {
            let q = eval(st, env, *question, fuel);
            eval_with_one_more(st, env, *question, fuel);
            if q.result->Ok_0 is Null {
                eval_with_one_more(q.state, env, *otherwise, fuel);
            } else {
                eval_with_one_more(q.state, env, *answer, fuel);
            }
        },
        _ => {},
    }
}

/// Arguments that all give values give the same with one more nested call
/// allowed.
pub proof fn arguments_with_one_more(
    st: State,
    env: nat,
    arguments: Seq<Expr>,
    i: nat,
    done: Seq<Datum>,
    fuel: nat,
)
    requires
        eval_arguments(st, env, arguments, i, done, fuel).result is Ok,
    ensures
        eval_arguments(st, env, arguments, i, done, fuel + 1) == eval_arguments(
            st,
            env,
            arguments,
            i,
            done,
            fuel,
        ),
    decreases fuel, 2nat, arguments, arguments.len() - i,
{
    if i < arguments.len() {
        let first = eval(st, env, arguments[i as int], fuel);
        eval_with_one_more(st, env, arguments[i as int], fuel);
        arguments_with_one_more(
            first.state,
            env,
            arguments,
            i + 1,
            done.push(first.result->Ok_0),
            fuel,
        );
    }
}

/// A call that gives a value gives the same with one more nested call
/// allowed.
pub proof fn apply_with_one_more(st: State, f: Procedure, arguments: Seq<Datum>, fuel: nat)
    requires
        apply(st, f, arguments, fuel).result is Ok,
    ensures
        apply(st, f, arguments, fuel + 1) == apply(st, f, arguments, fuel),
    decreases fuel, 1nat, f, 0nat,
{
    match f.code {
        CodeModel::Closure { name, parameters, body, env } => {
            let inside = st.with_frame(
                Frame { parent: Some(env), bindings: bind(parameters, arguments, 0, Map::empty()) },
            );
            eval_with_one_more(inside, st.frames.len(), *body, (fuel - 1) as nat);
        },
        _ => {},
    }
}

/// What running the values from place `i` on as a program leaves behind, in
/// the global environment: each is built and evaluated in turn, the first
/// failure ends the run, and the result is the value of the last one, or
/// `last` if there is none.
pub open spec fn run(st: State, program: Seq<Datum>, i: nat, last: Datum, fuel: nat) -> Outcome
    decreases program.len() - i,
{
    if i >= program.len() {
        Outcome { state: st, result: Ok(last) }
    } else {
        match crate::ast::build(program[i as int]) {
            Err(m) => Outcome { state: st, result: Err(m) },
            Ok(e) => {
                let o = eval(st, 0, e, fuel);
                match o.result {
                    Err(_) => o,
                    Ok(v) => run(o.state, program, i + 1, v, fuel),
                }
            },
        }
    }
}

/// What running a source text leaves behind: the text is read whole, its
/// symbols are interned, and its expressions are run in order. The value of
/// a text without expressions is the empty list.
pub open spec fn eval_text(st: State, text: Seq<char>, fuel: nat) -> Outcome {
    match crate::read::parse_text(text, false) {
        Err(stop) => Outcome {
            state: st,
            result: Err(crate::read::pretty(text, crate::read::failure_at(text, stop))),
        },
        Ok(read) => {
            let all = crate::read::intern_forms(st, read, 0, Seq::empty());
            run(all.state, all.data, 0, Datum::Null, fuel)
        },
    }
}

/// Evaluates `ast` in environment `env` of the context, and gives the value
/// or the failure. Definitions change the environments of the context; the
/// limit on nested calls is as it was when the evaluation returns.
#[verifier::loop_isolation(false)]
pub fn eval_ast(ctx: &mut Context, env: EnvironmentRef, ast: &Ast) -> (r: Result<Value, Error>)
    requires
        old(ctx).wf(),
        env@ < old(ctx)@.frames.len(),
    ensures
        final(ctx).wf(),
        final(ctx).budget() == old(ctx).budget(),
        old(ctx)@.frames.len() <= final(ctx)@.frames.len(),
        final(ctx)@ == eval(old(ctx)@, env@, ast@, old(ctx).budget()).state,
        match r {
            Ok(v) => eval(old(ctx)@, env@, ast@, old(ctx).budget()).result == Ok::<Datum, Seq<char>>(
                v@,
            ),
            Err(e) => eval(old(ctx)@, env@, ast@, old(ctx).budget()).result == Err::<
                Datum,
                Seq<char>,
            >(e@),
        },
    decreases old(ctx).budget(), 3nat, ast@,
{
    let ghost fuel = ctx.budget();
    match ast {
        Ast::Value(value) => Ok(value.clone()),
        Ast::Variable(symbol) => match Environment::lookup(ctx, env, symbol) {
            Some(value) => Ok(value),
            None => {
                let mut message = String::from_str("variable `");
                message.append(symbol.as_str());
                message.append("` is not defined");
                Err(Error(message))
            },
        },
        Ast::Apply { func, arguments } => {
            let function = match eval_ast(ctx, env, func) {
                Ok(value) => value,
                Err(e) => {
                    return Err(e);
                },
            };
            let ghost st1 = ctx@;
            let ghost exprs = ast@->Apply_arguments;
            let mut values: Vec<Value> = Vec::new();
            let mut i: usize = 0;
            assert(data(values@) =~= Seq::empty());
            while i < arguments.len()
                invariant
                    ctx.wf(),
                    ctx.budget() == fuel,
                    st1.frames.len() <= ctx@.frames.len(),
                    i <= arguments.len(),
                    eval_arguments(st1, env@, exprs, 0, Seq::empty(), fuel) == eval_arguments(
                        ctx@,
                        env@,
                        exprs,
                        i as nat,
                        data(values@),
                        fuel,
                    ),
                decreases arguments.len() - i,
            {
                assert(exprs[i as int] == arguments[i as int]@);
                match eval_ast(ctx, env, &arguments[i]) {
                    Ok(value) => {
                        let ghost before = values@;
                        values.push(value);
                        assert(data(values@) =~= data(before).push(value@));
                    },
                    Err(e) => {
                        return Err(e);
                    },
                }
                i += 1;
            }
            match ctx.function(&function) {
                Some(f) => f.call(ctx, values.as_slice()),
                None => {
                    let mut message = String::from_str("cannot call ");
                    function.print(&mut message);
                    message.append(" as function");
                    Err(Error(message))
                },
            }
        },
        Ast::If { question, answer, else_ } => {
            let q = match eval_ast(ctx, env, question) {
                Ok(value) => value,
                Err(e) => {
                    return Err(e);
                },
            };
            match q {
                Value::Null => eval_ast(ctx, env, else_),
                _ => eval_ast(ctx, env, answer),
            }
        },
        Ast::Define { name, parameters, body } => {
            let code = Code::Closure {
                name: name.clone(),
                parameters: parameters.clone(),
                body: body.clone(),
                env,
            };
            Function::define(ctx, env, name.clone(), parameters.len(), code);
            Ok(Value::Null)
        },
    }
}

} // verus!
