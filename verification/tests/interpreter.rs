use jbob::context::Context;
use jbob::types::Value;

fn assert_eval_eq(ctx: &mut Context, source1: &str, source2: &str) {
    let left = ctx.eval_file(source1).unwrap();
    let right = ctx.eval_file(source2).unwrap();
    println!("left: {}", left.to_string());
    println!("right: {}", right.to_string());
    assert_eq!(left, right);
}

fn eval_error(ctx: &mut Context, source: &str) -> String {
    match ctx.eval_file(source) {
        Ok(value) => panic!("expected a failure, got {}", value.to_string()),
        Err(e) => e.to_string(),
    }
}

#[test]
fn primitives() {
    let mut ctx = Context::default();
    assert_eval_eq(&mut ctx, "(atom '())", "'t");
    assert_eval_eq(&mut ctx, "(atom '(1))", "'nil");
    assert_eval_eq(&mut ctx, "(car (cons 1 2))", "1");
    assert_eval_eq(&mut ctx, "(cdr (cons 1 2))", "2");
    assert_eval_eq(&mut ctx, "(if 't 1 2)", "1");
    assert_eval_eq(&mut ctx, "(if 'nil 1 2)", "2");
    assert_eval_eq(&mut ctx, "(natp '())", "'nil");
    assert_eval_eq(&mut ctx, "(natp -1)", "'nil");
    assert_eval_eq(&mut ctx, "(natp 0)", "'t");
    assert_eval_eq(&mut ctx, "(natp 1)", "'t");
    assert_eval_eq(&mut ctx, "(equal '() '())", "'t");
    assert_eval_eq(&mut ctx, "(equal '(1) '(1))", "'t");
    assert_eval_eq(&mut ctx, "(equal '(1) '(2))", "'nil");
    assert_eval_eq(&mut ctx, "(equal 'a 'a)", "'t");
    assert_eval_eq(&mut ctx, "(equal 'a 'b)", "'nil");
    assert_eval_eq(&mut ctx, "(equal 1 1)", "'t");
    assert_eval_eq(&mut ctx, "(equal 1 2)", "'nil");
}

#[test]
fn recursion() {
    let mut ctx = Context::default();
    let input = "
        (defun my-len (xs)
          (if (atom xs)
            0
            (+ 1 (my-len (cdr xs)))))
        (my-len '(1 2 3 4))
        ";
    assert_eval_eq(&mut ctx, input, "4");
}

#[test]
fn recursion_size() {
    let mut ctx = Context::default();
    assert_eval_eq(
        &mut ctx,
        "(if (atom '(1 2)) '0 (+ '1 (+ (size (car '(1 2))) (size (cdr '(1 2))))))",
        "2",
    );
    assert_eval_eq(&mut ctx, "(size '(1 2))", "2");
}

#[test]
fn false_is_the_empty_list() {
    let mut ctx = Context::default();
    assert_eq!(ctx.eval_file("(atom '(1))").unwrap(), Value::Null);
    assert_eq!(ctx.eval_file("(natp -1)").unwrap(), Value::Null);
    assert_eq!(ctx.eval_file("(equal 1 2)").unwrap(), Value::Null);
    assert_eq!(ctx.eval_file("(< 2 1)").unwrap(), Value::Null);
    assert_eq!(ctx.nil(), Value::Null);
    assert_eq!(ctx.bool_value(false), Value::Null);
}

#[test]
fn true_is_the_symbol_t() {
    let mut ctx = Context::default();
    let t = ctx.intern("t");
    assert_eq!(ctx.eval_file("(atom '())").unwrap(), t);
    assert_eq!(ctx.eval_file("(natp 0)").unwrap(), t);
    assert_eq!(ctx.eval_file("(equal '(1 2) '(1 2))").unwrap(), t);
    assert_eq!(ctx.eval_file("(< 1 2)").unwrap(), t);
    assert_eq!(ctx.t(), t);
    assert_eq!(ctx.bool_value(true), t);
    assert_eq!(t.to_string(), "t");
}

#[test]
fn if_takes_every_value_but_the_empty_list_as_true() {
    let mut ctx = Context::default();
    assert_eq!(ctx.eval_file("(if 0 1 2)").unwrap(), Value::Integer(1));
    assert_eq!(ctx.eval_file("(if -1 1 2)").unwrap(), Value::Integer(1));
    assert_eq!(ctx.eval_file("(if 'a 1 2)").unwrap(), Value::Integer(1));
    assert_eq!(ctx.eval_file("(if '(1) 1 2)").unwrap(), Value::Integer(1));
    assert_eq!(ctx.eval_file("(if car 1 2)").unwrap(), Value::Integer(1));
    assert_eq!(ctx.eval_file("(if '() 1 2)").unwrap(), Value::Integer(2));
    assert_eq!(ctx.eval_file("(if (atom '(1)) 1 2)").unwrap(), Value::Integer(2));
}

#[test]
fn if_evaluates_one_branch_only() {
    let mut ctx = Context::default();
    assert_eq!(ctx.eval_file("(if 't 1 (undefined-function))").unwrap(), Value::Integer(1));
    assert_eq!(ctx.eval_file("(if '() (undefined-function) 2)").unwrap(), Value::Integer(2));
    assert_eq!(ctx.eval_file("(if 't (defun yes () 1) (defun no () 2)) (yes)").unwrap(), Value::Integer(1));
    assert_eq!(eval_error(&mut ctx, "(no)"), "variable `no` is not defined");
}

#[test]
fn self_recursion() {
    let mut ctx = Context::default();
    let value = ctx
        .eval_file("(defun len (xs) (if (atom xs) 0 (+ 1 (len (cdr xs))))) (len '(1 2 3 4))")
        .unwrap();
    assert_eq!(value, Value::Integer(4));
}

#[test]
fn define_gives_the_empty_list() {
    let mut ctx = Context::default();
    assert_eq!(ctx.eval_file("(defun f (x) x)").unwrap(), Value::Null);
    assert_eq!(ctx.eval_file("(dethm g (x) (equal x x))").unwrap(), Value::Null);
    let t = ctx.intern("t");
    assert_eq!(ctx.eval_file("(g 3)").unwrap(), t);
}

#[test]
fn empty_text_gives_the_empty_list() {
    let mut ctx = Context::default();
    assert_eq!(ctx.eval_file("").unwrap(), Value::Null);
    assert_eq!(ctx.eval_file("  ; nothing here\n").unwrap(), Value::Null);
}

#[test]
fn the_last_value_is_the_result() {
    let mut ctx = Context::default();
    assert_eq!(ctx.eval_file("1 2 3").unwrap(), Value::Integer(3));
}

#[test]
fn later_texts_see_earlier_definitions() {
    let mut ctx = Context::default();
    ctx.eval_file("(defun twice (x) (+ x x))").unwrap();
    assert_eq!(ctx.eval_file("(twice 21)").unwrap(), Value::Integer(42));
}

#[test]
fn cons_car_cdr() {
    let mut ctx = Context::default();
    assert_eq!(ctx.eval_file("(car (cons 1 2))").unwrap(), Value::Integer(1));
    assert_eq!(ctx.eval_file("(cdr (cons 1 2))").unwrap(), Value::Integer(2));
    assert_eq!(ctx.eval_file("(cons 1 2)").unwrap().to_string(), "(1 . 2)");
}

#[test]
fn car_and_cdr_of_an_atom_are_the_empty_list() {
    let mut ctx = Context::default();
    assert_eq!(ctx.eval_file("(car 1)").unwrap(), Value::Null);
    assert_eq!(ctx.eval_file("(cdr 'a)").unwrap(), Value::Null);
    assert_eq!(ctx.eval_file("(car '())").unwrap(), Value::Null);
    assert_eq!(ctx.eval_file("(cdr '())").unwrap(), Value::Null);
}

#[test]
fn arithmetic_takes_anything_but_an_integer_as_zero() {
    let mut ctx = Context::default();
    assert_eq!(ctx.eval_file("(+ 2 3)").unwrap(), Value::Integer(5));
    assert_eq!(ctx.eval_file("(+ 'a 3)").unwrap(), Value::Integer(3));
    assert_eq!(ctx.eval_file("(+ '(1) '())").unwrap(), Value::Integer(0));
    let t = ctx.intern("t");
    assert_eq!(ctx.eval_file("(< 'a 1)").unwrap(), t);
    assert_eq!(ctx.eval_file("(< 1 'a)").unwrap(), Value::Null);
    assert_eq!(ctx.eval_file("(< -1 '(5))").unwrap(), t);
}

#[test]
fn a_sum_wraps_around_at_64_bits() {
    let mut ctx = Context::default();
    assert_eq!(
        ctx.eval_file("(+ 9223372036854775807 1)").unwrap(),
        Value::Integer(i64::MIN)
    );
    assert_eq!(
        ctx.eval_file("(+ -9223372036854775808 -1)").unwrap(),
        Value::Integer(i64::MAX)
    );
}

#[test]
fn natp() {
    let mut ctx = Context::default();
    let t = ctx.intern("t");
    assert_eq!(ctx.eval_file("(natp -1)").unwrap(), Value::Null);
    assert_eq!(ctx.eval_file("(natp 0)").unwrap(), t);
    assert_eq!(ctx.eval_file("(natp 'a)").unwrap(), Value::Null);
}

#[test]
fn size_counts_pairs() {
    let mut ctx = Context::default();
    assert_eq!(ctx.eval_file("(size '(1 2 3 4 5 6))").unwrap(), Value::Integer(6));
    assert_eq!(ctx.eval_file("(size 7)").unwrap(), Value::Integer(0));
    assert_eq!(ctx.eval_file("(size '((1 . 2) . (3 . 4)))").unwrap(), Value::Integer(3));
}

#[test]
fn equal_is_structural_for_pairs_and_identity_for_symbols() {
    let mut ctx = Context::default();
    let t = ctx.intern("t");
    assert_eq!(ctx.eval_file("(equal '(1 2) '(1 2))").unwrap(), t);
    assert_eq!(ctx.eval_file("(equal 'a 'a)").unwrap(), t);
    assert_eq!(ctx.eval_file("(equal '(a (b . c)) '(a (b . c)))").unwrap(), t);
    assert_eq!(ctx.eval_file("(equal '(a (b . c)) '(a (b . d)))").unwrap(), Value::Null);
    assert_eq!(ctx.eval_file("(equal car car)").unwrap(), t);
    assert_eq!(ctx.eval_file("(equal car cdr)").unwrap(), Value::Null);
    assert_eq!(ctx.eval_file("(equal 1 '(1))").unwrap(), Value::Null);
}

#[test]
fn functions_are_equal_only_to_themselves() {
    let mut ctx = Context::default();
    ctx.eval_file("(defun f (x) x)").unwrap();
    let first = ctx.eval_file("f").unwrap();
    ctx.eval_file("(defun f (x) x)").unwrap();
    let second = ctx.eval_file("f").unwrap();
    assert_ne!(first, second);
    assert_eq!(second, ctx.eval_file("f").unwrap());
}

#[test]
fn redefinition_shadows_for_later_lookups() {
    let mut ctx = Context::default();
    ctx.eval_file("(defun f () 1) (defun g () (f))").unwrap();
    assert_eq!(ctx.eval_file("(g)").unwrap(), Value::Integer(1));
    ctx.eval_file("(defun f () 2)").unwrap();
    assert_eq!(ctx.eval_file("(f)").unwrap(), Value::Integer(2));
    assert_eq!(ctx.eval_file("(g)").unwrap(), Value::Integer(2));
}

#[test]
fn a_local_definition_is_not_changed_by_a_global_one() {
    let mut ctx = Context::default();
    ctx.eval_file(
        "(defun make ()
           (if (defun helper () 1)
             helper
             helper))
         (defun call-it (h) (h))",
    )
    .unwrap();
    // `helper` is defined in the environment of one call of `make`, not in
    // the global one.
    assert_eq!(ctx.eval_file("(call-it (make))").unwrap(), Value::Integer(1));
    assert_eq!(
        eval_error(&mut ctx, "(helper)"),
        "variable `helper` is not defined"
    );
    ctx.eval_file("(defun helper () 2)").unwrap();
    assert_eq!(ctx.eval_file("(helper)").unwrap(), Value::Integer(2));
    assert_eq!(ctx.eval_file("(call-it (make))").unwrap(), Value::Integer(1));
}

#[test]
fn a_closure_runs_in_a_child_of_its_defining_environment() {
    let mut ctx = Context::default();
    ctx.eval_file(
        "(defun x-of-caller () x)
         (defun caller (x) (x-of-caller))",
    )
    .unwrap();
    // The parameter `x` of `caller` is not visible inside `x-of-caller`.
    assert_eq!(
        eval_error(&mut ctx, "(caller 1)"),
        "error in 'caller': error in 'x-of-caller': variable `x` is not defined"
    );
}

#[test]
fn parameters_are_bound_in_order() {
    let mut ctx = Context::default();
    ctx.eval_file("(defun second (a b c) b)").unwrap();
    assert_eq!(ctx.eval_file("(second 1 2 3)").unwrap(), Value::Integer(2));
    ctx.eval_file("(defun last-wins (a a) a)").unwrap();
    assert_eq!(ctx.eval_file("(last-wins 1 2)").unwrap(), Value::Integer(2));
}

#[test]
fn arguments_are_evaluated_from_left_to_right() {
    let mut ctx = Context::default();
    assert_eq!(
        eval_error(&mut ctx, "(cons first-missing second-missing)"),
        "variable `first-missing` is not defined"
    );
    // The function is evaluated before the arguments, and checked after them.
    assert_eq!(
        eval_error(&mut ctx, "(1 missing)"),
        "variable `missing` is not defined"
    );
    assert_eq!(
        eval_error(&mut ctx, "(missing-function missing)"),
        "variable `missing-function` is not defined"
    );
}

#[test]
fn undefined_variable() {
    let mut ctx = Context::default();
    assert_eq!(eval_error(&mut ctx, "x"), "variable `x` is not defined");
}

#[test]
fn calling_a_value_that_is_no_function() {
    let mut ctx = Context::default();
    assert_eq!(eval_error(&mut ctx, "(1 2)"), "cannot call 1 as function");
    assert_eq!(
        eval_error(&mut ctx, "('(a . b) 2)"),
        "cannot call (a . b) as function"
    );
    assert_eq!(
        eval_error(&mut ctx, "((cons car 1) 2)"),
        "cannot call (#<function 'car'> . 1) as function"
    );
}

#[test]
fn wrong_number_of_arguments_for_a_native_function() {
    let mut ctx = Context::default();
    assert_eq!(
        eval_error(&mut ctx, "(cons 1)"),
        "called '#<function 'cons'>' with 1 arguments, but it expected 2"
    );
    assert_eq!(
        eval_error(&mut ctx, "(atom)"),
        "called '#<function 'atom'>' with 0 arguments, but it expected 1"
    );
    assert_eq!(
        eval_error(&mut ctx, "(car 1 2 3 4 5 6 7 8 9 10 11 12)"),
        "called '#<function 'car'>' with 12 arguments, but it expected 1"
    );
}

#[test]
fn wrong_number_of_arguments_for_a_closure() {
    let mut ctx = Context::default();
    ctx.eval_file("(defun f (a b) a)").unwrap();
    assert_eq!(
        eval_error(&mut ctx, "(f 1)"),
        "called '#<function 'f'>' with 1 arguments, but it expected 2"
    );
}

#[test]
fn a_failure_in_a_closure_is_reported_under_its_name() {
    let mut ctx = Context::default();
    ctx.eval_file("(defun inner () (cons 1)) (defun outer () (inner))").unwrap();
    assert_eq!(
        eval_error(&mut ctx, "(outer)"),
        "error in 'outer': error in 'inner': called '#<function 'cons'>' with 1 arguments, but it expected 2"
    );
}

#[test]
fn a_failure_keeps_the_definitions_before_it() {
    let mut ctx = Context::default();
    assert_eq!(
        eval_error(&mut ctx, "(defun f () 7) (g) (defun h () 8)"),
        "variable `g` is not defined"
    );
    assert_eq!(ctx.eval_file("(f)").unwrap(), Value::Integer(7));
    assert_eq!(eval_error(&mut ctx, "(h)"), "variable `h` is not defined");
}

#[test]
fn a_text_that_does_not_parse_runs_nothing() {
    let mut ctx = Context::default();
    let message = eval_error(&mut ctx, "(defun f () 7) (f");
    assert_eq!(
        message,
        "parse error, expected one of {\"`)`\"}\n1:18: (defun f () 7) (f\n                       ^"
    );
    assert_eq!(eval_error(&mut ctx, "(f)"), "variable `f` is not defined");
}

#[test]
fn runaway_recursion_stops_at_the_depth_limit() {
    let mut ctx = Context::default();
    ctx.set_depth_limit(50);
    assert_eq!(ctx.depth_limit(), 50);
    ctx.eval_file("(defun down (n) (if (< n 1) 0 (+ 1 (down (+ n -1)))))").unwrap();
    assert_eq!(ctx.eval_file("(down 49)").unwrap(), Value::Integer(49));
    let message = eval_error(&mut ctx, "(down 50)");
    assert!(message.starts_with("error in 'down': error in 'down': "));
    assert!(message.ends_with(": call depth limit exceeded"));
    assert_eq!(message.matches("error in 'down': ").count(), 50);
    // The limit is as it was after the failure.
    assert_eq!(ctx.depth_limit(), 50);
    assert_eq!(ctx.eval_file("(down 49)").unwrap(), Value::Integer(49));
    ctx.eval_file("(defun forever (n) (forever n))").unwrap();
    assert!(eval_error(&mut ctx, "(forever 1)").ends_with("call depth limit exceeded"));
}

#[test]
fn no_closure_is_entered_at_depth_limit_zero() {
    let mut ctx = Context::default();
    ctx.set_depth_limit(0);
    assert_eq!(ctx.eval_file("(cons 1 2)").unwrap().to_string(), "(1 . 2)");
    assert_eq!(eval_error(&mut ctx, "(size 1)"), "call depth limit exceeded");
}

#[test]
fn the_default_depth_limit_allows_long_lists() {
    let mut ctx = Context::default();
    assert_eq!(ctx.depth_limit(), jbob::context::DEFAULT_DEPTH_LIMIT);
    ctx.eval_file(
        "(defun build (n) (if (< n 1) '() (cons n (build (+ n -1)))))
         (defun my-len (xs) (if (atom xs) 0 (+ 1 (my-len (cdr xs)))))",
    )
    .unwrap();
    assert_eq!(ctx.eval_file("(my-len (build 300))").unwrap(), Value::Integer(300));
}

#[test]
fn a_value_does_not_depend_on_the_depth_limit() {
    let program = "(defun down (n) (if (< n 1) '(done) (cons n (down (+ n -1))))) (down 20)";
    let mut low = Context::default();
    low.set_depth_limit(21);
    let mut high = Context::default();
    high.set_depth_limit(900);
    let a = low.eval_file(program).unwrap();
    let b = high.eval_file(program).unwrap();
    assert_eq!(a.to_string(), b.to_string());
    assert_eq!(
        a.to_string(),
        "(20 19 18 17 16 15 14 13 12 11 10 9 8 7 6 5 4 3 2 1 done)"
    );
}

#[test]
fn evaluation_keeps_what_was_interned_and_defined() {
    let mut ctx = Context::default();
    let before = ctx.intern_symbol("kept");
    let car = ctx.eval_file("car").unwrap();
    ctx.eval_file("(defun f (x) (cons x 'fresh)) (f 'other)").unwrap();
    assert!(eval_error(&mut ctx, "(f)").starts_with("called"));
    let after = ctx.intern_symbol("kept");
    assert!(before == after);
    assert_eq!(car, ctx.eval_file("car").unwrap());
}

#[test]
fn many_calls() {
    let mut ctx = Context::default();
    let value = ctx
        .eval_file("(defun fib (n) (if (< n 2) n (+ (fib (+ n -1)) (fib (+ n -2))))) (fib 18)")
        .unwrap();
    assert_eq!(value, Value::Integer(2584));
}
