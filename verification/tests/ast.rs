use jbob::ast::{Ast, SpecialForm};
use jbob::context::Context;
use jbob::eval::eval_ast;
use jbob::read::read_sexpr;
use jbob::types::Value;

fn build_text(ctx: &mut Context, text: &str) -> Result<Ast, String> {
    let value = read_sexpr(ctx, text).unwrap();
    Ast::build(ctx, &value).map_err(|e| e.to_string())
}

fn build_error(ctx: &mut Context, text: &str) -> String {
    match build_text(ctx, text) {
        Ok(_) => panic!("expected a failure to build {}", text),
        Err(message) => message,
    }
}

#[test]
fn special_forms_have_fixed_arities() {
    assert_eq!(SpecialForm::Quote.arity(), 1);
    assert_eq!(SpecialForm::If.arity(), 3);
    assert_eq!(SpecialForm::Defun.arity(), 3);
    assert_eq!(SpecialForm::Dethm.arity(), 3);
    assert_eq!(SpecialForm::Quote.name(), "quote");
    assert_eq!(SpecialForm::If.name(), "if");
    assert_eq!(SpecialForm::Defun.name(), "defun");
    assert_eq!(SpecialForm::Dethm.name(), "dethm");
}

#[test]
fn check_arity_names_form_and_counts() {
    assert!(SpecialForm::Quote.check_arity(1).is_ok());
    assert!(SpecialForm::If.check_arity(3).is_ok());
    assert_eq!(
        SpecialForm::Quote.check_arity(2).unwrap_err().to_string(),
        "quote has 2 arguments, expected 1"
    );
    assert_eq!(
        SpecialForm::If.check_arity(0).unwrap_err().to_string(),
        "if has 0 arguments, expected 3"
    );
    assert_eq!(
        SpecialForm::Defun.check_arity(4).unwrap_err().to_string(),
        "defun has 4 arguments, expected 3"
    );
    assert_eq!(
        SpecialForm::Dethm.check_arity(123).unwrap_err().to_string(),
        "dethm has 123 arguments, expected 3"
    );
}

#[test]
fn special_forms_are_known_by_the_text_of_a_symbol() {
    let mut ctx = Context::default();
    for (text, arity) in [("quote", 1), ("if", 3), ("defun", 3), ("dethm", 3)] {
        let symbol = ctx.intern(text);
        let form = SpecialForm::from_value(&symbol).unwrap();
        assert_eq!(form.name(), text);
        assert_eq!(form.arity(), arity);
    }
    for text in ["quot", "quote ", "If", "define", "cons", "", "quot\u{e9}", "\u{131}f", "dethm\u{301}", "defu\u{1f600}"] {
        let symbol = ctx.intern(text);
        assert!(SpecialForm::from_value(&symbol).is_none());
    }
    assert!(SpecialForm::from_value(&Value::Integer(1)).is_none());
    assert!(SpecialForm::from_value(&Value::Null).is_none());
    let quote = ctx.intern("quote");
    assert!(SpecialForm::from_value(&Value::cons(quote, Value::Null)).is_none());
}

#[test]
fn build_literals_and_variables() {
    let mut ctx = Context::default();
    assert!(matches!(
        Ast::build(&mut ctx, &Value::Integer(5)).unwrap(),
        Ast::Value(Value::Integer(5))
    ));
    let x = ctx.intern("x");
    match Ast::build(&mut ctx, &x).unwrap() {
        Ast::Variable(s) => assert_eq!(s.as_str(), "x"),
        _ => panic!("expected a variable"),
    }
    let car = ctx.eval_file("car").unwrap();
    match Ast::build(&mut ctx, &car).unwrap() {
        Ast::Value(v) => assert_eq!(v, car),
        _ => panic!("expected a literal"),
    }
}

#[test]
fn build_refuses_the_empty_list() {
    let mut ctx = Context::default();
    assert_eq!(
        Ast::build(&mut ctx, &Value::Null).err().unwrap().to_string(),
        "the expression () needs to be quoted"
    );
    assert_eq!(
        build_error(&mut ctx, "(cons 1 ())"),
        "the expression () needs to be quoted"
    );
}

#[test]
fn build_quote() {
    let mut ctx = Context::default();
    match build_text(&mut ctx, "'(1 . 2)").unwrap() {
        Ast::Value(v) => assert_eq!(v.to_string(), "(1 . 2)"),
        _ => panic!("expected a literal"),
    }
    match build_text(&mut ctx, "(quote ())").unwrap() {
        Ast::Value(v) => assert_eq!(v, Value::Null),
        _ => panic!("expected a literal"),
    }
    assert_eq!(
        build_error(&mut ctx, "(quote)"),
        "quote has 0 arguments, expected 1"
    );
    assert_eq!(
        build_error(&mut ctx, "(quote 1 2)"),
        "quote has 2 arguments, expected 1"
    );
    assert_eq!(
        build_error(&mut ctx, "(quote . 1)"),
        "unexpected value in cdr: 1"
    );
}

#[test]
fn build_if() {
    let mut ctx = Context::default();
    match build_text(&mut ctx, "(if a 1 '2)").unwrap() {
        Ast::If { question, answer, else_ } => {
            assert!(matches!(*question, Ast::Variable(_)));
            assert!(matches!(*answer, Ast::Value(Value::Integer(1))));
            assert!(matches!(*else_, Ast::Value(Value::Integer(2))));
        }
        _ => panic!("expected a conditional"),
    }
    assert_eq!(
        build_error(&mut ctx, "(if a 1)"),
        "if has 2 arguments, expected 3"
    );
    assert_eq!(
        build_error(&mut ctx, "(if a 1 2 3)"),
        "if has 4 arguments, expected 3"
    );
    assert_eq!(
        build_error(&mut ctx, "(if a 1 . 2)"),
        "unexpected value in cdr: 2"
    );
    // The three parts are built in order.
    assert_eq!(
        build_error(&mut ctx, "(if (quote) (if) ())"),
        "quote has 0 arguments, expected 1"
    );
    assert_eq!(
        build_error(&mut ctx, "(if a (if) ())"),
        "if has 0 arguments, expected 3"
    );
    assert_eq!(
        build_error(&mut ctx, "(if a b ())"),
        "the expression () needs to be quoted"
    );
}

#[test]
fn build_defun_and_dethm() {
    let mut ctx = Context::default();
    for head in ["defun", "dethm"] {
        match build_text(&mut ctx, &format!("({} f (x y) (cons x y))", head)).unwrap() {
            Ast::Define { name, parameters, body } => {
                assert_eq!(name.as_str(), "f");
                assert_eq!(parameters.len(), 2);
                assert_eq!(parameters[0].as_str(), "x");
                assert_eq!(parameters[1].as_str(), "y");
                assert!(matches!(*body, Ast::Apply { .. }));
            }
            _ => panic!("expected a definition"),
        }
        match build_text(&mut ctx, &format!("({} f () 1)", head)).unwrap() {
            Ast::Define { parameters, .. } => assert_eq!(parameters.len(), 0),
            _ => panic!("expected a definition"),
        }
        assert_eq!(
            build_error(&mut ctx, &format!("({} f (x))", head)),
            format!("{} has 2 arguments, expected 3", head)
        );
        assert_eq!(
            build_error(&mut ctx, &format!("({} f (x 1 y) x)", head)),
            "expected symbol, found 1"
        );
        assert_eq!(
            build_error(&mut ctx, &format!("({} f (x . y) x)", head)),
            "unexpected value in cdr: y"
        );
        assert_eq!(
            build_error(&mut ctx, &format!("({} f x x)", head)),
            "unexpected value in cdr: x"
        );
        assert_eq!(
            build_error(&mut ctx, &format!("({} (f) (x) x)", head)),
            "expected symbol, found (f)"
        );
        // The parameters are checked before the name, and the name before
        // the body.
        assert_eq!(
            build_error(&mut ctx, &format!("({} 1 (2) ())", head)),
            "expected symbol, found 2"
        );
        assert_eq!(
            build_error(&mut ctx, &format!("({} 1 (x) ())", head)),
            "expected symbol, found 1"
        );
        assert_eq!(
            build_error(&mut ctx, &format!("({} f (x) ())", head)),
            "the expression () needs to be quoted"
        );
    }
}

#[test]
fn build_apply() {
    let mut ctx = Context::default();
    match build_text(&mut ctx, "(f 1 x (g))").unwrap() {
        Ast::Apply { func, arguments } => {
            assert!(matches!(*func, Ast::Variable(_)));
            assert_eq!(arguments.len(), 3);
            assert!(matches!(arguments[0], Ast::Value(Value::Integer(1))));
            assert!(matches!(arguments[1], Ast::Variable(_)));
            assert!(matches!(arguments[2], Ast::Apply { .. }));
        }
        _ => panic!("expected a call"),
    }
    match build_text(&mut ctx, "((f))").unwrap() {
        Ast::Apply { func, arguments } => {
            assert!(matches!(*func, Ast::Apply { .. }));
            assert_eq!(arguments.len(), 0);
        }
        _ => panic!("expected a call"),
    }
}

#[test]
fn build_refuses_an_improper_argument_list() {
    let mut ctx = Context::default();
    let f = ctx.intern("f");
    let call = Value::cons(f.clone(), Value::cons(Value::Integer(1), Value::Integer(2)));
    assert_eq!(
        Ast::build(&mut ctx, &call).err().unwrap().to_string(),
        "unexpected value in cdr: 2"
    );
    let call = Value::cons(f, Value::Integer(1));
    assert_eq!(
        Ast::build(&mut ctx, &call).err().unwrap().to_string(),
        "unexpected value in cdr: 1"
    );
    assert_eq!(build_error(&mut ctx, "(f . x)"), "unexpected value in cdr: x");
    // The function and the arguments before the end are built first.
    assert_eq!(
        build_error(&mut ctx, "(() 1 . 2)"),
        "the expression () needs to be quoted"
    );
    assert_eq!(
        build_error(&mut ctx, "(f (quote) . 2)"),
        "quote has 0 arguments, expected 1"
    );
}

#[test]
fn eval_ast_in_the_global_environment() {
    let mut ctx = Context::default();
    let env = ctx.global_environment();
    let ast = build_text(&mut ctx, "(cons 1 (cons 2 '()))").unwrap();
    assert_eq!(eval_ast(&mut ctx, env, &ast).unwrap().to_string(), "(1 2)");
    // A syntax tree can be evaluated again.
    assert_eq!(eval_ast(&mut ctx, env, &ast).unwrap().to_string(), "(1 2)");
}
