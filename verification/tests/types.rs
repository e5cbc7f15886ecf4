use jbob::context::Context;
use jbob::types::Value;

#[test]
fn value_eq() {
    let mut ctx = Context::default();
    assert_eq!(Value::Null, Value::Null);
    assert_eq!(ctx.intern("a"), ctx.intern("a"));
}

#[test]
fn quote_value() {
    let mut ctx = Context::default();
    assert_eq!(
        Value::quote(&mut ctx, Value::Integer(1)),
        Value::cons(
            ctx.intern("quote"),
            Value::cons(Value::Integer(1), Value::Null),
        ),
    );
}

#[test]
fn display_value() {
    let mut ctx = Context::default();
    let value = Value::cons(
        Value::cons(Value::Integer(1), ctx.intern("a")),
        Value::cons(Value::Null, Value::Null),
    );
    assert_eq!(value.to_string(), "((1 . a) ())");
}

#[test]
fn symbols_are_equal_by_identity() {
    let mut ctx = Context::default();
    let a1 = ctx.intern_symbol("a");
    let b = ctx.intern_symbol("b");
    let a2 = ctx.intern_symbol("a");
    assert!(a1 == a2);
    assert!(a1 != b);
    assert_eq!(a1.as_str(), "a");
    assert_eq!(b.as_str(), "b");
    assert_ne!(ctx.intern("a"), ctx.intern("b"));
    assert_ne!(ctx.intern("a"), ctx.intern("A"));
    assert_ne!(ctx.intern(""), ctx.intern(" "));
}

#[test]
fn interning_keeps_older_symbols() {
    let mut ctx = Context::default();
    let first = ctx.intern_symbol("first");
    for i in 0..100 {
        ctx.intern_symbol(&format!("s{}", i));
    }
    let again = ctx.intern_symbol("first");
    assert!(first == again);
    assert_eq!(again.as_str(), "first");
}

#[test]
fn values_of_different_kinds_are_not_equal() {
    let mut ctx = Context::default();
    assert_ne!(Value::Integer(0), Value::Null);
    assert_ne!(ctx.intern("nil"), Value::Null);
    assert_ne!(Value::cons(Value::Null, Value::Null), Value::Null);
    assert_ne!(ctx.intern("1"), Value::Integer(1));
}

#[test]
fn pairs_are_equal_field_by_field() {
    let shared = Value::cons(Value::Integer(1), Value::Integer(2));
    let copy = shared.clone();
    assert_eq!(shared, copy);
    assert_eq!(shared, Value::cons(Value::Integer(1), Value::Integer(2)));
    assert_ne!(shared, Value::cons(Value::Integer(1), Value::Integer(3)));
    assert_ne!(shared, Value::cons(Value::Integer(2), Value::Integer(2)));
    let nested = Value::cons(shared.clone(), shared.clone());
    assert_eq!(nested, Value::cons(copy.clone(), copy));
}

#[test]
fn display_integers() {
    assert_eq!(Value::Integer(0).to_string(), "0");
    assert_eq!(Value::Integer(7).to_string(), "7");
    assert_eq!(Value::Integer(10).to_string(), "10");
    assert_eq!(Value::Integer(-20).to_string(), "-20");
    assert_eq!(Value::Integer(1234567890).to_string(), "1234567890");
    assert_eq!(Value::Integer(i64::MAX).to_string(), "9223372036854775807");
    assert_eq!(Value::Integer(i64::MIN).to_string(), "-9223372036854775808");
}

#[test]
fn display_lists() {
    let mut ctx = Context::default();
    assert_eq!(Value::Null.to_string(), "()");
    let a = ctx.intern("a");
    assert_eq!(a.to_string(), "a");
    let list = Value::cons(
        Value::Integer(1),
        Value::cons(Value::Integer(2), Value::cons(Value::Integer(3), Value::Null)),
    );
    assert_eq!(list.to_string(), "(1 2 3)");
    let improper = Value::cons(Value::Integer(1), Value::cons(Value::Integer(2), a));
    assert_eq!(improper.to_string(), "(1 2 . a)");
    assert_eq!(Value::cons(Value::Null, Value::Null).to_string(), "(())");
    assert_eq!(Value::quote(&mut ctx, Value::Integer(1)).to_string(), "(quote 1)");
}

#[test]
fn display_functions() {
    let mut ctx = Context::default();
    let car = ctx.eval_file("car").unwrap();
    assert_eq!(car.to_string(), "#<function 'car'>");
    assert_eq!(
        Value::cons(car, Value::Null).to_string(),
        "(#<function 'car'>)"
    );
    let size = ctx.eval_file("(defun my-size (x) (size x)) my-size").unwrap();
    assert_eq!(size.to_string(), "#<function 'my-size'>");
}

#[test]
fn iterate_a_proper_list() {
    let list = Value::cons(Value::Integer(1), Value::cons(Value::Integer(2), Value::Null));
    let mut it = list.iter();
    assert_eq!(it.next().unwrap().unwrap(), Value::Integer(1));
    assert_eq!(it.next().unwrap().unwrap(), Value::Integer(2));
    assert!(it.next().is_none());
    assert!(it.next().is_none());
    assert_eq!(
        list.items().unwrap(),
        vec![Value::Integer(1), Value::Integer(2)]
    );
    assert_eq!(Value::Null.items().unwrap(), Vec::<Value>::new());
}

#[test]
fn iterate_an_improper_list() {
    let list = Value::cons(Value::Integer(1), Value::Integer(2));
    let mut it = list.iter();
    assert_eq!(it.next().unwrap().unwrap(), Value::Integer(1));
    assert_eq!(
        it.next().unwrap().unwrap_err().to_string(),
        "unexpected value in cdr: 2"
    );
    assert_eq!(
        list.items().unwrap_err().to_string(),
        "unexpected value in cdr: 2"
    );
    assert_eq!(
        Value::Integer(5).items().unwrap_err().to_string(),
        "unexpected value in cdr: 5"
    );
}

#[test]
fn expect_symbol() {
    let mut ctx = Context::default();
    let a = ctx.intern("a");
    assert_eq!(a.expect_symbol().unwrap().as_str(), "a");
    assert_eq!(
        Value::Integer(3).expect_symbol().unwrap_err().to_string(),
        "expected symbol, found 3"
    );
    assert_eq!(
        Value::cons(a, Value::Null).expect_symbol().unwrap_err().to_string(),
        "expected symbol, found (a)"
    );
}
