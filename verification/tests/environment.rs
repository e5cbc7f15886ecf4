use jbob::ast::Ast;
use jbob::context::Context;
use jbob::environment::Environment;
use jbob::eval::eval_ast;
use jbob::functions::{Code, Function, Primitive};
use jbob::read::read_sexpr;
use jbob::types::Value;

#[test]
fn lookup_walks_the_chain_of_parents() {
    let mut ctx = Context::default();
    let global = ctx.global_environment();
    let child = Environment::make_child(&mut ctx, global);
    let grandchild = Environment::make_child(&mut ctx, child);
    let a = ctx.intern_symbol("a");
    let b = ctx.intern_symbol("b");
    let c = ctx.intern_symbol("c");
    ctx.bind(global, a.clone(), Value::Integer(1));
    ctx.bind(child, b.clone(), Value::Integer(2));
    assert_eq!(Environment::lookup(&ctx, grandchild, &a), Some(Value::Integer(1)));
    assert_eq!(Environment::lookup(&ctx, grandchild, &b), Some(Value::Integer(2)));
    assert_eq!(Environment::lookup(&ctx, grandchild, &c), None);
    assert_eq!(Environment::lookup(&ctx, global, &b), None);
    // The nearest binding wins.
    ctx.bind(grandchild, a.clone(), Value::Integer(3));
    assert_eq!(Environment::lookup(&ctx, grandchild, &a), Some(Value::Integer(3)));
    assert_eq!(Environment::lookup(&ctx, child, &a), Some(Value::Integer(1)));
}

#[test]
fn a_child_sees_later_bindings_of_its_parent() {
    let mut ctx = Context::default();
    let global = ctx.global_environment();
    let child = Environment::make_child(&mut ctx, global);
    let late = ctx.intern_symbol("late");
    assert_eq!(Environment::lookup(&ctx, child, &late), None);
    ctx.bind(global, late.clone(), Value::Integer(9));
    assert_eq!(Environment::lookup(&ctx, child, &late), Some(Value::Integer(9)));
    ctx.bind(global, late.clone(), Value::Integer(10));
    assert_eq!(Environment::lookup(&ctx, child, &late), Some(Value::Integer(10)));
}

#[test]
fn define_replaces_a_binding() {
    let mut env = Environment::new();
    let mut ctx = Context::default();
    let a = ctx.intern_symbol("a");
    env.define(a.clone(), Value::Integer(1));
    env.define(a, Value::Integer(2));
    // An environment of its own is no part of a context: put the same
    // bindings into one to look them up.
    let global = ctx.global_environment();
    let a = ctx.intern_symbol("a");
    ctx.bind(global, a.clone(), Value::Integer(1));
    ctx.bind(global, a.clone(), Value::Integer(2));
    assert_eq!(Environment::lookup(&ctx, global, &a), Some(Value::Integer(2)));
}

#[test]
fn the_prelude_is_bound_in_the_global_environment() {
    let mut ctx = Context::default();
    let global = ctx.global_environment();
    for name in ["atom", "cons", "car", "cdr", "equal", "natp", "+", "<", "size"] {
        let symbol = ctx.intern_symbol(name);
        match Environment::lookup(&ctx, global, &symbol) {
            Some(Value::Function(_)) => {}
            _ => panic!("{} is not bound to a function", name),
        }
    }
    let other = ctx.intern_symbol("list");
    assert_eq!(Environment::lookup(&ctx, global, &other), None);
}

#[test]
fn function_define_and_call() {
    let mut ctx = Context::default();
    let global = ctx.global_environment();
    let name = ctx.intern_symbol("pair-up");
    Function::define(&mut ctx, global, name.clone(), 2, Code::Native(Primitive::Cons));
    assert_eq!(ctx.eval_file("(pair-up 1 2)").unwrap().to_string(), "(1 . 2)");
    let value = Environment::lookup(&ctx, global, &name).unwrap();
    let function = ctx.function(&value).unwrap();
    assert_eq!(function.to_string(), "#<function 'pair-up'>");
    let arguments = [Value::Integer(3), Value::Null];
    assert_eq!(function.call(&mut ctx, &arguments).unwrap().to_string(), "(3)");
    assert_eq!(
        function.call(&mut ctx, &arguments[..1]).unwrap_err().to_string(),
        "called '#<function 'pair-up'>' with 1 arguments, but it expected 2"
    );
}

#[test]
fn call_an_anonymous_function() {
    let mut ctx = Context::default();
    let function = Function::new(None, 1, Code::Native(Primitive::Car));
    assert_eq!(function.to_string(), "#<function>");
    let pair = Value::cons(Value::Integer(1), Value::Integer(2));
    assert_eq!(function.call(&mut ctx, &[pair]).unwrap(), Value::Integer(1));
    assert_eq!(
        function.call(&mut ctx, &[]).unwrap_err().to_string(),
        "called '#<function>' with 0 arguments, but it expected 1"
    );
}

#[test]
fn a_value_that_refers_to_no_function_of_the_context() {
    let mut ctx = Context::default();
    assert!(ctx.function(&Value::Integer(1)).is_none());
    assert!(ctx.function(&Value::Null).is_none());
    let mut other = Context::default();
    other.eval_file("(defun extra () 1)").unwrap();
    let extra = other.eval_file("extra").unwrap();
    // The other context has one function more than this one.
    assert!(ctx.function(&extra).is_none());
    let global = ctx.global_environment();
    let holder = ctx.intern_symbol("holder");
    ctx.bind(global, holder, extra);
    assert_eq!(
        ctx.eval_file("(holder)").unwrap_err().to_string(),
        "cannot call #<function 'extra'> as function"
    );
}

#[test]
fn eval_in_a_child_environment() {
    let mut ctx = Context::default();
    let global = ctx.global_environment();
    let child = Environment::make_child(&mut ctx, global);
    let x = ctx.intern_symbol("x");
    ctx.bind(child, x, Value::Integer(5));
    let value = read_sexpr(&mut ctx, "(+ x 1)").unwrap();
    let ast = Ast::build(&mut ctx, &value).unwrap();
    assert_eq!(eval_ast(&mut ctx, child, &ast).unwrap(), Value::Integer(6));
    assert_eq!(
        eval_ast(&mut ctx, global, &ast).unwrap_err().to_string(),
        "variable `x` is not defined"
    );
    // A definition made in the child is bound there only.
    let value = read_sexpr(&mut ctx, "(defun local () x)").unwrap();
    let ast = Ast::build(&mut ctx, &value).unwrap();
    assert_eq!(eval_ast(&mut ctx, child, &ast).unwrap(), Value::Null);
    let value = read_sexpr(&mut ctx, "(local)").unwrap();
    let ast = Ast::build(&mut ctx, &value).unwrap();
    assert_eq!(eval_ast(&mut ctx, child, &ast).unwrap(), Value::Integer(5));
    assert_eq!(
        eval_ast(&mut ctx, global, &ast).unwrap_err().to_string(),
        "variable `local` is not defined"
    );
}

#[test]
fn the_environment_of_a_call_is_given_up_when_the_call_returns() {
    let mut ctx = Context::default();
    let global = ctx.global_environment();
    ctx.eval_file("(defun down (n) (if (< n 1) 0 (+ 1 (down (+ n -1)))))").unwrap();
    assert_eq!(ctx.eval_file("(down 100)").unwrap(), Value::Integer(100));
    assert_eq!(ctx.eval_file("(size '(1 2 3 4 5 6))").unwrap(), Value::Integer(6));
    assert!(ctx.eval_file("(down 'a 'b)").is_err());
    assert!(ctx.eval_file("(defun broken () (car)) (broken)").is_err());
    // Every call has given up its environment: the next one is the first
    // after the global one.
    let child = Environment::make_child(&mut ctx, global);
    assert_eq!(format!("{:?}", child), "EnvironmentRef { index: 1 }");
}

#[test]
fn the_environment_of_a_call_is_kept_for_the_closures_defined_in_it() {
    let mut ctx = Context::default();
    let global = ctx.global_environment();
    ctx.eval_file(
        "(defun make (n)
           (if (defun get () n)
             get
             get))
         (defun call-it (h) (h))",
    )
    .unwrap();
    let first = ctx.eval_file("(make 1)").unwrap();
    let second = ctx.eval_file("(make 2)").unwrap();
    assert_ne!(first, second);
    // Each closure still sees the parameter of the call that defined it.
    assert_eq!(ctx.eval_file("(call-it (make 3))").unwrap(), Value::Integer(3));
    let holder = ctx.intern_symbol("first-get");
    ctx.bind(global, holder, first);
    let holder = ctx.intern_symbol("second-get");
    ctx.bind(global, holder, second);
    assert_eq!(ctx.eval_file("(first-get)").unwrap(), Value::Integer(1));
    assert_eq!(ctx.eval_file("(second-get)").unwrap(), Value::Integer(2));
    assert_eq!(ctx.eval_file("(call-it first-get)").unwrap(), Value::Integer(1));
    // Three calls of `make` kept their environments; the calls of `get` and
    // `call-it` gave theirs up.
    let child = Environment::make_child(&mut ctx, global);
    assert_eq!(format!("{:?}", child), "EnvironmentRef { index: 4 }");
}
