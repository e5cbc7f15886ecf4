//! Callable functions: the built-in operations and the closures that programs
//! define.

use std::rc::Rc;
use vstd::prelude::*;

use vstd::string::*;

use crate::ast::{Ast, Expr};
use crate::context::{Context, State};
use crate::environment::{Environment, EnvironmentRef};
use crate::errors::Error;
use crate::eval::Outcome;
use crate::text::{digits, push_natural};
use crate::types::{data, names, same, Datum, Name, Symbol, Value};

verus! {

/// The built-in operations.
#[derive(Clone, Copy, Debug)]
pub enum Primitive {
    /// Whether the argument is no pair.
    Atom,
    /// The pair of the two arguments.
    Cons,
    /// The first field of a pair; the empty list for anything else.
    Car,
    /// The second field of a pair; the empty list for anything else.
    Cdr,
    /// Whether the two arguments are equal.
    Equal,
    /// Whether the argument is an integer that is not negative.
    Natp,
    /// The sum of the two arguments, where anything but an integer counts as 0.
    Add,
    /// Whether the first argument is less than the second, where anything but
    /// an integer counts as 0.
    Less,
}

impl Primitive {
    /// The number of arguments that the operation takes.
    pub open spec fn arity_spec(self) -> nat {
        match self {
            Primitive::Atom | Primitive::Car | Primitive::Cdr | Primitive::Natp => 1,
            Primitive::Cons | Primitive::Equal | Primitive::Add | Primitive::Less => 2,
        }
    }

    /// The number of arguments that the operation takes.
    pub fn arity(self) -> (n: usize)
        ensures
            n == self.arity_spec(),
    {
        match self {
            Primitive::Atom | Primitive::Car | Primitive::Cdr | Primitive::Natp => 1,
            Primitive::Cons | Primitive::Equal | Primitive::Add | Primitive::Less => 2,
        }
    }
}

/// What a function does when it is called.
pub enum Code {
    /// A built-in operation.
    Native(Primitive),
    /// A closure: a body to evaluate with the parameters bound, in a fresh
    /// environment inside the one where the function was defined.
    Closure { name: Symbol, parameters: Rc<Vec<Symbol>>, body: Rc<Ast>, env: EnvironmentRef },
}

/// The model of what a function does.
pub enum CodeModel {
    Native(Primitive),
    Closure { name: Name, parameters: Seq<Name>, body: Box<Expr>, env: nat },
}

impl View for Code {
    type V = CodeModel;

    open spec fn view(&self) -> CodeModel {
        match self {
            Code::Native(p) => CodeModel::Native(*p),
            Code::Closure { name, parameters, body, env } => CodeModel::Closure {
                name: name@,
                parameters: names(parameters@),
                body: Box::new(body@),
                env: env@,
            },
        }
    }
}

impl Clone for Code {
    fn clone(&self) -> (r: Code)
        ensures
            r == *self,
    {
        match self {
            Code::Native(p) => Code::Native(*p),
            Code::Closure { name, parameters, body, env } => Code::Closure {
                name: name.clone(),
                parameters: parameters.clone(),
                body: body.clone(),
                env: *env,
            },
        }
    }
}

/// The model of a function.
pub struct Procedure {
    /// The name that the function is shown under, if it has one.
    pub name: Option<Name>,
    /// The number of arguments that a call must give.
    pub arity: nat,
    pub code: CodeModel,
}

impl Procedure {
    /// A built-in operation is called with as many arguments as it takes.
    pub open spec fn wf(self) -> bool {
        self.code matches CodeModel::Native(p) ==> self.arity == p.arity_spec()
    }

    /// Whether the function is a closure that was defined in environment
    /// `env`.
    pub open spec fn defined_in(self, env: nat) -> bool {
        self.code matches CodeModel::Closure { env: defined, .. } && defined == env
    }

    /// How the function is shown: with its name, if it has one.
    pub open spec fn show(self) -> Seq<char> {
        crate::types::show(self.name)
    }

    /// The message for a call with `actual` arguments, where the function
    /// expects another number.
    pub open spec fn wrong_arity(self, actual: nat) -> Seq<char> {
        "called '"@ + self.show() + "' with "@ + digits(actual) + " arguments, but it expected "@
            + digits(self.arity)
    }
}

/// The message for a failure inside the closure `name`.
pub open spec fn in_function(name: Seq<char>, inner: Seq<char>) -> Seq<char> {
    "error in '"@ + name + "': "@ + inner
}

/// The message for a call that would nest closures deeper than the context
/// allows.
pub open spec fn too_deep() -> Seq<char> {
    "call depth limit exceeded"@
}

/// The integer that a value counts as: itself for an integer, 0 for anything
/// else.
pub open spec fn num_spec(d: Datum) -> int {
    match d {
        Datum::Integer(i) => i,
        _ => 0,
    }
}

/// The 64-bit integer that `x` wraps around to.
pub open spec fn wrap(x: int) -> int {
    if x > i64::MAX {
        x - 0x1_0000_0000_0000_0000
    } else if x < i64::MIN {
        x + 0x1_0000_0000_0000_0000
    } else {
        x
    }
}

/// The bindings of a fresh environment of a closure: each parameter from
/// place `i` on is bound to the argument at its place, on top of `bindings`.
pub open spec fn bind(parameters: Seq<Name>, arguments: Seq<Datum>, i: nat, bindings: Map<nat, Datum>) -> Map<
    nat,
    Datum,
>
    decreases parameters.len() - i,
{
    if i >= parameters.len() || i >= arguments.len() {
        bindings
    } else {
        bind(parameters, arguments, i + 1, bindings.insert(parameters[i as int].id, arguments[i as int]))
    }
}

/// What a built-in operation leaves behind when it is given as many
/// arguments as it takes. The operations are total: `car` and `cdr` of
/// anything but a pair are the empty list, and arithmetic takes anything but
/// an integer as 0. A sum wraps around at 64 bits.
pub open spec fn primitive(st: State, p: Primitive, arguments: Seq<Datum>) -> Outcome {
    match p {
        Primitive::Atom => {
            let b = !(arguments[0] is Pair);
            Outcome { state: st.after_truth(b), result: Ok(st.truth(b)) }
        },
        Primitive::Cons => Outcome { state: st, result: Ok(Datum::pair(arguments[0], arguments[1])) },
        Primitive::Car => Outcome {
            state: st,
            result: Ok(
                match arguments[0] {
                    Datum::Pair(a, _) => *a,
                    _ => Datum::Null,
                },
            ),
        },
        Primitive::Cdr => Outcome {
            state: st,
            result: Ok(
                match arguments[0] {
                    Datum::Pair(_, b) => *b,
                    _ => Datum::Null,
                },
            ),
        },
        Primitive::Equal => {
            let b = same(arguments[0], arguments[1]);
            Outcome { state: st.after_truth(b), result: Ok(st.truth(b)) }
        },
        Primitive::Natp => {
            let b = arguments[0] matches Datum::Integer(i) && i >= 0;
            Outcome { state: st.after_truth(b), result: Ok(st.truth(b)) }
        },
        Primitive::Add => Outcome {
            state: st,
            result: Ok(Datum::Integer(wrap(num_spec(arguments[0]) + num_spec(arguments[1])))),
        },
        Primitive::Less => {
            let b = num_spec(arguments[0]) < num_spec(arguments[1]);
            Outcome { state: st.after_truth(b), result: Ok(st.truth(b)) }
        },
    }
}

/// A Scheme function.
pub struct Function {
    pub(crate) name: Option<Symbol>,
    pub(crate) arity: usize,
    pub(crate) code: Code,
}

impl View for Function {
    type V = Procedure;

    open(crate) spec fn view(&self) -> Procedure {
        Procedure {
            name: match self.name {
                Some(n) => Some(n@),
                None => None,
            },
            arity: self.arity as nat,
            code: self.code@,
        }
    }
}

impl Clone for Function {
    fn clone(&self) -> (r: Function)
        ensures
            r == *self,
    {
        Function {
            name: match &self.name {
                Some(n) => Some(n.clone()),
                None => None,
            },
            arity: self.arity,
            code: self.code.clone(),
        }
    }
}

impl Function {
    /// A function with the given name, number of arguments and behaviour.
    pub fn new(name: Option<Symbol>, arity: usize, code: Code) -> (f: Function)
        requires
            code@ matches CodeModel::Native(p) ==> arity == p.arity_spec(),
        ensures
            f@.wf(),
            f@.arity == arity,
            f@.code == code@,
            match name {
                Some(n) => f@.name == Some(n@),
                None => f@.name is None,
            },
    {
        Function { name, arity, code }
    }

    /// Makes a function and binds `name` to it in environment `env`.
    pub fn define(ctx: &mut Context, env: EnvironmentRef, name: Symbol, arity: usize, code: Code)
        requires
            old(ctx).wf(),
            env@ < old(ctx)@.frames.len(),
            old(ctx)@.admits(Procedure { name: Some(name@), arity: arity as nat, code: code@ }),
        ensures
            final(ctx).wf(),
            final(ctx).budget() == old(ctx).budget(),
            final(ctx)@ == old(ctx)@.with_function(
                Procedure { name: Some(name@), arity: arity as nat, code: code@ },
            ).with_binding(
                env@,
                name@.id,
                Datum::Function(
                    crate::types::Handle { index: old(ctx)@.functions.len(), name: Some(name@) },
                ),
            ),
    {
        let function = Function::new(Some(name.clone()), arity, code);
        let handle = ctx.add_function(function);
        ctx.bind(env, name, Value::Function(handle));
    }

    /// How the function is shown: with its name, if it has one.
    pub fn to_string(&self) -> (s: String)
        ensures
            s@ == self@.show(),
    {
        crate::types::show_function(&self.name)
    }

    /// Calls this function with the given arguments.
    pub fn call(&self, ctx: &mut Context, arguments: &[Value]) -> (r: Result<Value, Error>)
        requires
            old(ctx).wf(),
            old(ctx)@.admits(self@),
        ensures
            final(ctx).wf(),
            final(ctx).budget() == old(ctx).budget(),
            old(ctx)@.frames.len() <= final(ctx)@.frames.len(),
            final(ctx)@ == crate::eval::apply(
                old(ctx)@,
                self@,
                data(arguments@),
                old(ctx).budget(),
            ).state,
            match r {
                Ok(v) => crate::eval::apply(
                    old(ctx)@,
                    self@,
                    data(arguments@),
                    old(ctx).budget(),
                ).result == Ok::<Datum, Seq<char>>(v@),
                Err(e) => crate::eval::apply(
                    old(ctx)@,
                    self@,
                    data(arguments@),
                    old(ctx).budget(),
                ).result == Err::<Datum, Seq<char>>(e@),
            },
        decreases old(ctx).budget(), 1nat, self@,
    {
        if arguments.len() != self.arity {
            let mut message = String::from_str("called '");
            let shown = self.to_string();
            message.append(shown.as_str());
            message.append("' with ");
            push_natural(&mut message, arguments.len() as u128);
            message.append(" arguments, but it expected ");
            push_natural(&mut message, self.arity as u128);
            return Err(Error(message));
        }
        match &self.code {
            Code::Native(p) => call_primitive(ctx, *p, arguments),
            Code::Closure { name, parameters, body, env } => {
                if ctx.depth == 0 {
                    return Err(Error::new("call depth limit exceeded"));
                }
                let ghost st = ctx@;
                let ghost fuel = ctx.budget();
                let since = ctx.functions.len();
                ctx.depth = ctx.depth - 1;
                let scope = Environment::make_child(ctx, *env);
                let mut i: usize = 0;
                while i < parameters.len() && i < arguments.len()
                    invariant
                        ctx.wf(),
                        ctx.budget() == fuel - 1,
                        scope@ == st.frames.len(),
                        ctx@.names == st.names,
                        ctx@.functions == st.functions,
                        ctx@.frames.len() == st.frames.len() + 1,
                        ctx@.frames.take(st.frames.len() as int) == st.frames,
                        ctx@.frames[scope@ as int].parent == Some(env@),
                        bind(names(parameters@), data(arguments@), 0, Map::empty()) == bind(
                            names(parameters@),
                            data(arguments@),
                            i as nat,
                            ctx@.frames[scope@ as int].bindings,
                        ),
                    decreases parameters.len() - i,
                {
                    let ghost before = ctx@;
                    ctx.bind(scope, parameters[i].clone(), arguments[i].clone());
                    assert(ctx@.frames.take(st.frames.len() as int) =~= before.frames.take(
                        st.frames.len() as int,
                    ));
                    i += 1;
                }
                assert(ctx@.frames =~= st.frames.push(ctx@.frames[scope@ as int]));
                let ghost inside = ctx@;
                let r = crate::eval::eval_ast(ctx, scope, body);
                proof {
                    crate::eval::eval_grows(inside, scope@, body@, (fuel - 1) as nat);
                    assert forall|f: int| 0 <= f < since implies !(#[trigger] ctx@.functions[f]).defined_in(
                        scope@,
                    ) by {
                        assert(ctx@.functions[f] == st.functions[f]);
                        assert(st.admits(st.functions[f]));
                    }
                }
                ctx.release(scope, since);
                ctx.depth = ctx.depth + 1;
                match r {
                    Ok(v) => Ok(v),
                    Err(e) => {
                        let mut message = String::from_str("error in '");
                        message.append(name.as_str());
                        message.append("': ");
                        message.append(e.message());
                        Err(Error(message))
                    },
                }
            },
        }
    }
}

/// `equal` gives the true value exactly for two values that are the same:
/// for symbols and functions that is their identity, for pairs the sameness
/// of their fields. Two values with one model are the same, wherever each is
/// stored.
pub proof fn equal_compares_values(st: State, a: Datum, b: Datum)
    ensures
        primitive(st, Primitive::Equal, seq![a, b]).result == Ok::<Datum, Seq<char>>(
            st.truth(same(a, b)),
        ),
        a == b ==> same(a, b),
        st.truth(true) != st.truth(false),
{
    crate::types::same_reflexive(a);
}

/// The state after defining the built-in operation `p` under the name
/// `text` in the global environment.
pub open spec fn with_native(st: State, text: Seq<char>, p: Primitive) -> State {
    let name = st.symbol(text);
    st.intern(text).with_function(
        Procedure { name: Some(name), arity: p.arity_spec(), code: CodeModel::Native(p) },
    ).with_binding(
        0,
        name.id,
        Datum::Function(crate::types::Handle { index: st.functions.len(), name: Some(name) }),
    )
}

/// The call of the function that the variable `f` is bound to.
pub open spec fn call_of(f: Name, arguments: Seq<Expr>) -> Expr {
    Expr::Apply { func: Box::new(Expr::Variable(f)), arguments }
}

/// The body of `size`, which counts the pairs of a value:
/// `(if (atom x) '0 (+ '1 (+ (size (car x)) (size (cdr x)))))`.
pub open spec fn size_body(size: Name, x: Name, atom: Name, plus: Name, car: Name, cdr: Name) -> Expr {
    Expr::If {
        question: Box::new(call_of(atom, seq![Expr::Variable(x)])),
        answer: Box::new(Expr::Literal(Datum::Integer(0))),
        otherwise: Box::new(
            call_of(
                plus,
                seq![
                    Expr::Literal(Datum::Integer(1)),
                    call_of(
                        plus,
                        seq![
                            call_of(size, seq![call_of(car, seq![Expr::Variable(x)])]),
                            call_of(size, seq![call_of(cdr, seq![Expr::Variable(x)])]),
                        ],
                    ),
                ],
            ),
        ),
    }
}

/// The state after defining `size` in the global environment, as the
/// evaluation of its definition leaves it.
pub open spec fn with_size(st: State) -> State {
    let size = st.symbol("size"@);
    let s1 = st.intern("size"@);
    let x = s1.symbol("x"@);
    let s2 = s1.intern("x"@);
    let atom = s2.symbol("atom"@);
    let s3 = s2.intern("atom"@);
    let plus = s3.symbol("+"@);
    let s4 = s3.intern("+"@);
    let car = s4.symbol("car"@);
    let s5 = s4.intern("car"@);
    let cdr = s5.symbol("cdr"@);
    let s6 = s5.intern("cdr"@);
    crate::eval::eval(
        s6,
        0,
        Expr::Define {
            name: size,
            parameters: seq![x],
            body: Box::new(size_body(size, x, atom, plus, car, cdr)),
        },
        0,
    ).state
}

/// The state after adding the functions that every program starts with:
/// `atom`, `cons`, `car`, `cdr`, `equal`, `natp`, `+`, `<` and `size`.
pub open spec fn prelude(st: State) -> State {
    with_size(
        with_native(
            with_native(
                with_native(
                    with_native(
                        with_native(
                            with_native(
                                with_native(
                                    with_native(st, "atom"@, Primitive::Atom),
                                    "cons"@,
                                    Primitive::Cons,
                                ),
                                "car"@,
                                Primitive::Car,
                            ),
                            "cdr"@,
                            Primitive::Cdr,
                        ),
                        "equal"@,
                        Primitive::Equal,
                    ),
                    "natp"@,
                    Primitive::Natp,
                ),
                "+"@,
                Primitive::Add,
            ),
            "<"@,
            Primitive::Less,
        ),
    )
}

/// Defines the built-in operation `p` under the name `text` in the global
/// environment.
pub fn define_native(ctx: &mut Context, text: &str, p: Primitive)
    requires
        old(ctx).wf(),
    ensures
        final(ctx).wf(),
        final(ctx).budget() == old(ctx).budget(),
        final(ctx)@ == with_native(old(ctx)@, text@, p),
{
    let name = ctx.intern_symbol(text);
    let env = ctx.global_environment();
    Function::define(ctx, env, name, p.arity(), Code::Native(p));
}

/// The call of the function that the variable `f` is bound to, with one
/// argument.
fn call_one(f: &Symbol, a: Ast) -> (r: Ast)
    ensures
        r@ == call_of(f@, seq![a@]),
{
    let mut arguments: Vec<Ast> = Vec::new();
    arguments.push(a);
    let r = Ast::Apply { func: Box::new(Ast::Variable(f.clone())), arguments };
    proof {
        reveal_with_fuel(Ast::model, 2);
        assert(r@->Apply_arguments =~= seq![a@]);
    }
    r
}

/// The call of the function that the variable `f` is bound to, with two
/// arguments.
fn call_two(f: &Symbol, a: Ast, b: Ast) -> (r: Ast)
    ensures
        r@ == call_of(f@, seq![a@, b@]),
{
    let mut arguments: Vec<Ast> = Vec::new();
    arguments.push(a);
    arguments.push(b);
    let r = Ast::Apply { func: Box::new(Ast::Variable(f.clone())), arguments };
    proof {
        reveal_with_fuel(Ast::model, 2);
        assert(r@->Apply_arguments =~= seq![a@, b@]);
    }
    r
}

/// Defines `size` in the global environment.
fn define_size(ctx: &mut Context)
    requires
        old(ctx).wf(),
    ensures
        final(ctx).wf(),
        final(ctx).budget() == old(ctx).budget(),
        final(ctx)@ == with_size(old(ctx)@),
{
    let size = ctx.intern_symbol("size");
    let x = ctx.intern_symbol("x");
    let atom = ctx.intern_symbol("atom");
    let plus = ctx.intern_symbol("+");
    let car = ctx.intern_symbol("car");
    let cdr = ctx.intern_symbol("cdr");
    let question = call_one(&atom, Ast::Variable(x.clone()));
    let left = call_one(&size, call_one(&car, Ast::Variable(x.clone())));
    let right = call_one(&size, call_one(&cdr, Ast::Variable(x.clone())));
    let sum = call_two(&plus, Ast::Value(Value::Integer(1)), call_two(&plus, left, right));
    let body = Ast::If {
        question: Box::new(question),
        answer: Box::new(Ast::Value(Value::Integer(0))),
        else_: Box::new(sum),
    };
    proof {
        reveal_with_fuel(Ast::model, 2);
    }
    assert(body@ == size_body(size@, x@, atom@, plus@, car@, cdr@));
    let mut parameters: Vec<Symbol> = Vec::new();
    parameters.push(x);
    assert(names(parameters@) =~= seq![x@]);
    let env = ctx.global_environment();
    let code = Code::Closure {
        name: size.clone(),
        parameters: Rc::new(parameters),
        body: Rc::new(body),
        env,
    };
    Function::define(ctx, env, size, 1, code);
}

/// Adds the functions that every program starts with to the context.
pub fn add_prelude_functions(ctx: &mut Context)
    requires
        old(ctx).wf(),
    ensures
        final(ctx).wf(),
        final(ctx).budget() == old(ctx).budget(),
        final(ctx)@ == prelude(old(ctx)@),
{
    define_native(ctx, "atom", Primitive::Atom);
    define_native(ctx, "cons", Primitive::Cons);
    define_native(ctx, "car", Primitive::Car);
    define_native(ctx, "cdr", Primitive::Cdr);
    define_native(ctx, "equal", Primitive::Equal);
    define_native(ctx, "natp", Primitive::Natp);
    define_native(ctx, "+", Primitive::Add);
    define_native(ctx, "<", Primitive::Less);
    define_size(ctx);
}

/// If `value` is an integer, that integer. Otherwise 0, so that arithmetic
/// is defined on every value.
pub fn num(value: &Value) -> (i: i64)
    ensures
        i == num_spec(value@),
{
    match value {
        Value::Integer(i) => *i,
        _ => 0,
    }
}

/// Runs a built-in operation on as many arguments as it takes.
pub fn call_primitive(ctx: &mut Context, p: Primitive, arguments: &[Value]) -> (r: Result<
    Value,
    Error,
>)
    requires
        old(ctx).wf(),
        arguments.len() == p.arity_spec(),
    ensures
        final(ctx).wf(),
        final(ctx).budget() == old(ctx).budget(),
        final(ctx)@ == primitive(old(ctx)@, p, data(arguments@)).state,
        final(ctx)@.frames == old(ctx)@.frames,
        r matches Ok(v) && primitive(old(ctx)@, p, data(arguments@)).result == Ok::<
            Datum,
            Seq<char>,
        >(v@),
{
    match p {
        Primitive::Atom => {
            let b = match &arguments[0] {
                Value::Cons(_) => false,
                _ => true,
            };
            Ok(ctx.bool_value(b))
        },
        Primitive::Cons => Ok(Value::cons(arguments[0].clone(), arguments[1].clone())),
        Primitive::Car => match &arguments[0] {
            Value::Cons(c) => Ok(c.0.clone()),
            _ => Ok(Value::Null),
        },
        Primitive::Cdr => match &arguments[0] {
            Value::Cons(c) => Ok(c.1.clone()),
            _ => Ok(Value::Null),
        },
        Primitive::Equal => {
            let b = arguments[0] == arguments[1];
            Ok(ctx.bool_value(b))
        },
        Primitive::Natp => {
            let b = match &arguments[0] {
                Value::Integer(i) => *i >= 0,
                _ => false,
            };
            Ok(ctx.bool_value(b))
        },
        Primitive::Add => Ok(Value::Integer(num(&arguments[0]).wrapping_add(num(&arguments[1])))),
        Primitive::Less => {
            let b = num(&arguments[0]) < num(&arguments[1]);
            Ok(ctx.bool_value(b))
        },
    }
}

} // verus!
