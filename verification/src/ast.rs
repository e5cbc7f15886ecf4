//! Syntax trees: what the evaluator runs.

use std::rc::Rc;
use vstd::prelude::*;
use vstd::string::*;

use crate::context::Context;
use crate::errors::Error;
use crate::text::{digits, push_natural, same_text};
use crate::types::{
    data, expected_symbol, items_are_smaller, names, unexpected_cdr, Datum, Name, Symbol, Value,
};

verus! {

/// The special forms: lists that the builder takes apart by their shape
/// instead of treating them as calls.
#[derive(Clone, Copy, Debug)]
pub enum SpecialForm {
    /// `(quote x)`: `x` itself, not evaluated.
    Quote,
    /// `(if q a e)`: one of two branches.
    If,
    /// `(defun name (params...) body)`: a function definition.
    Defun,
    /// `(dethm name (params...) body)`: a definition that states a theorem.
    /// It runs as `defun` does.
    Dethm,
}

impl SpecialForm {
    /// The special form with the given name, if there is one.
    pub open spec fn named(text: Seq<char>) -> Option<SpecialForm> {
        if text == "quote"@ {
            Some(SpecialForm::Quote)
        } else if text == "if"@ {
            Some(SpecialForm::If)
        } else if text == "defun"@ {
            Some(SpecialForm::Defun)
        } else if text == "dethm"@ {
            Some(SpecialForm::Dethm)
        } else {
            None
        }
    }

    /// The special form that a value names: that of its text, if the value is
    /// a symbol.
    pub open spec fn of(d: Datum) -> Option<SpecialForm> {
        match d {
            Datum::Symbol(n) => SpecialForm::named(n.text),
            _ => None,
        }
    }

    /// The number of arguments that the form takes.
    pub open spec fn arity_spec(self) -> nat {
        match self {
            SpecialForm::Quote => 1,
            SpecialForm::If => 3,
            SpecialForm::Defun | SpecialForm::Dethm => 3,
        }
    }

    /// The name of the form.
    pub open spec fn name_spec(self) -> Seq<char> {
        match self {
            SpecialForm::Quote => "quote"@,
            SpecialForm::If => "if"@,
            SpecialForm::Defun => "defun"@,
            SpecialForm::Dethm => "dethm"@,
        }
    }

    /// The message for a form that is given `actual` arguments and takes
    /// another number.
    pub open spec fn wrong_arity(self, actual: nat) -> Seq<char> {
        self.name_spec() + " has "@ + digits(actual) + " arguments, expected "@ + digits(
            self.arity_spec(),
        )
    }

    /// If `value` is a symbol that names a special form, that form.
    pub fn from_value(value: &Value) -> (r: Option<SpecialForm>)
        ensures
            r == SpecialForm::of(value@),
    {
        match value {
            Value::Symbol(symbol) => {
                let text = symbol.as_str();
                if same_text(text, "quote") {
                    Some(SpecialForm::Quote)
                } else if same_text(text, "if") {
                    Some(SpecialForm::If)
                } else if same_text(text, "defun") {
                    Some(SpecialForm::Defun)
                } else if same_text(text, "dethm") {
                    Some(SpecialForm::Dethm)
                } else {
                    None
                }
            },
            _ => None,
        }
    }

    /// The number of arguments that the form takes.
    pub fn arity(self) -> (n: usize)
        ensures
            n == self.arity_spec(),
    {
        match self {
            SpecialForm::Quote => 1,
            SpecialForm::If => 3,
            SpecialForm::Defun | SpecialForm::Dethm => 3,
        }
    }

    /// The name of the form.
    pub fn name(self) -> (s: &'static str)
        ensures
            s@ == self.name_spec(),
    {
        match self {
            SpecialForm::Quote => "quote",
            SpecialForm::If => "if",
            SpecialForm::Defun => "defun",
            SpecialForm::Dethm => "dethm",
        }
    }

    /// Checks that the form is given as many arguments as it takes.
    pub fn check_arity(self, actual: usize) -> (r: Result<(), Error>)
        ensures
            match r {
                Ok(_) => actual == self.arity_spec(),
                Err(e) => actual != self.arity_spec() && e@ == self.wrong_arity(actual as nat),
            },
    {
        let expected = self.arity();
        if expected == actual {
            Ok(())
        } else {
            let mut message = String::from_str(self.name());
            message.append(" has ");
            push_natural(&mut message, actual as u128);
            message.append(" arguments, expected ");
            push_natural(&mut message, expected as u128);
            Err(Error(message))
        }
    }
}

/// A syntax tree of the Scheme subset.
pub enum Ast {
    /// A literal value.
    Value(Value),
    /// A variable.
    Variable(Symbol),
    /// Call a function with the given arguments.
    Apply { func: Box<Ast>, arguments: Vec<Ast> },
    /// Run one of two branches.
    If { question: Box<Ast>, answer: Box<Ast>, else_: Box<Ast> },
    /// Define a named function with named parameters and a body.
    Define { name: Symbol, parameters: Rc<Vec<Symbol>>, body: Rc<Ast> },
}

/// The model of a syntax tree.
pub enum Expr {
    Literal(Datum),
    Variable(Name),
    Apply { func: Box<Expr>, arguments: Seq<Expr> },
    If { question: Box<Expr>, answer: Box<Expr>, otherwise: Box<Expr> },
    Define { name: Name, parameters: Seq<Name>, body: Box<Expr> },
}

impl Ast {
    /// The model of this syntax tree.
    pub open spec fn model(&self) -> Expr
        decreases self,
    {
        match self {
            Ast::Value(v) => Expr::Literal(v@),
            Ast::Variable(s) => Expr::Variable(s@),
            Ast::Apply { func, arguments } => Expr::Apply {
                func: Box::new(func.model()),
                arguments: Seq::new(
                    arguments.len() as nat,
                    |i: int|
                        if 0 <= i < arguments.len() {
                            arguments[i].model()
                        } else {
                            Expr::Literal(Datum::Null)
                        },
                ),
            },
            Ast::If { question, answer, else_ } => Expr::If {
                question: Box::new(question.model()),
                answer: Box::new(answer.model()),
                otherwise: Box::new(else_.model()),
            },
            Ast::Define { name, parameters, body } => Expr::Define {
                name: name@,
                parameters: names(parameters@),
                body: Box::new(body.model()),
            },
        }
    }
}

impl View for Ast {
    type V = Expr;

    open spec fn view(&self) -> Expr {
        self.model()
    }
}

/// The models of a sequence of syntax trees.
pub open spec fn exprs(asts: Seq<Ast>) -> Seq<Expr> {
    Seq::new(asts.len(), |i: int| asts[i]@)
}

/// The message for the empty list where an expression is expected.
pub open spec fn needs_quote() -> Seq<char> {
    "the expression () needs to be quoted"@
}

/// The syntax tree of a value, or the message of the first fault in it.
///
/// Integers and functions are literals and symbols are variables. The empty
/// list is refused. A pair whose `car` names a special form is that form, and
/// any other pair is a call of its `car` with the items of its `cdr`.
pub open spec fn build(d: Datum) -> Result<Expr, Seq<char>>
    decreases d.size(),
{
    match d {
        Datum::Integer(_) => Ok(Expr::Literal(d)),
        Datum::Symbol(n) => Ok(Expr::Variable(n)),
        Datum::Null => Err(needs_quote()),
        Datum::Function(_) => Ok(Expr::Literal(d)),
        Datum::Pair(car, cdr) => match SpecialForm::of(*car) {
            Some(form) => build_form(form, *cdr),
            None => match build(*car) {
                Err(e) => Err(e),
                Ok(func) => match build_arguments(*cdr, Seq::empty()) {
                    Err(e) => Err(e),
                    Ok(arguments) => Ok(Expr::Apply { func: Box::new(func), arguments }),
                },
            },
        },
    }
}

/// The syntax tree of a special form with the arguments `cdr`: these must be
/// a proper list of as many items as the form takes.
pub open spec fn build_form(form: SpecialForm, cdr: Datum) -> Result<Expr, Seq<char>>
    decreases cdr.size(),
{
    let items = cdr.items();
    if !cdr.is_list() {
        Err(unexpected_cdr(cdr.end()))
    } else if items.len() != form.arity_spec() {
        Err(form.wrong_arity(items.len()))
    } else {
        match form {
            SpecialForm::Quote => Ok(Expr::Literal(items[0])),
            SpecialForm::If => {
                proof {
                    items_are_smaller(cdr, 0);
                    items_are_smaller(cdr, 1);
                    items_are_smaller(cdr, 2);
                }
                match build(items[0]) {
                    Err(e) => Err(e),
                    Ok(question) => match build(items[1]) {
                        Err(e) => Err(e),
                        Ok(answer) => match build(items[2]) {
                            Err(e) => Err(e),
                            Ok(otherwise) => Ok(
                                Expr::If {
                                    question: Box::new(question),
                                    answer: Box::new(answer),
                                    otherwise: Box::new(otherwise),
                                },
                            ),
                        },
                    },
                }
            },
            SpecialForm::Defun | SpecialForm::Dethm => {
                proof {
                    items_are_smaller(cdr, 2);
                }
                match parameters(items[1], Seq::empty()) {
                    Err(e) => Err(e),
                    Ok(parameters) => match items[0] {
                        Datum::Symbol(name) => match build(items[2]) {
                            Err(e) => Err(e),
                            Ok(body) => Ok(Expr::Define { name, parameters, body: Box::new(body) }),
                        },
                        other => Err(expected_symbol(other)),
                    },
                }
            },
        }
    }
}

/// The syntax trees of the arguments of a call, after those in `done`: one
/// for each item of the list `d`, which must be proper.
pub open spec fn build_arguments(d: Datum, done: Seq<Expr>) -> Result<Seq<Expr>, Seq<char>>
    decreases d.size(),
{
    match d {
        Datum::Pair(a, b) => match build(*a) {
            Err(e) => Err(e),
            Ok(argument) => build_arguments(*b, done.push(argument)),
        },
        Datum::Null => Ok(done),
        other => Err(unexpected_cdr(other)),
    }
}

/// The formal parameters of a definition, after those in `done`: the items of
/// the list `d`, which must be proper and hold symbols only.
pub open spec fn parameters(d: Datum, done: Seq<Name>) -> Result<Seq<Name>, Seq<char>>
    decreases d,
{
    match d {
        Datum::Pair(a, b) => match *a {
            Datum::Symbol(n) => parameters(*b, done.push(n)),
            other => Err(expected_symbol(other)),
        },
        Datum::Null => Ok(done),
        other => Err(unexpected_cdr(other)),
    }
}

/// The arguments of a call that do not end in the empty list are refused.
pub proof fn improper_arguments_fail(d: Datum, done: Seq<Expr>)
    requires
        !d.is_list(),
    ensures
        build_arguments(d, done) is Err,
    decreases d,
{
    match d {
        Datum::Pair(a, b) => {
            match build(*a) {
                Ok(argument) => {
                    improper_arguments_fail(*b, done.push(argument));
                },
                Err(_) => {},
            }
        },
        _ => {},
    }
}

/// A pair whose `cdr` is no proper list has no syntax tree, whether it is a
/// special form or a call.
pub proof fn improper_lists_are_refused(car: Datum, cdr: Datum)
    requires
        !cdr.is_list(),
    ensures
        build(Datum::pair(car, cdr)) is Err,
        SpecialForm::of(car) is Some ==> build(Datum::pair(car, cdr)) == Err::<Expr, Seq<char>>(
            unexpected_cdr(cdr.end()),
        ),
{
    reveal_with_fuel(build, 2);
    if SpecialForm::of(car) is None {
        improper_arguments_fail(cdr, Seq::empty());
    }
}

/// The formal parameters that the list `list` names.
fn build_parameters(list: &Value) -> (r: Result<Vec<Symbol>, Error>)
    ensures
        match r {
            Ok(symbols) => parameters(list@, Seq::empty()) == Ok::<Seq<Name>, Seq<char>>(
                names(symbols@),
            ),
            Err(e) => parameters(list@, Seq::empty()) == Err::<Seq<Name>, Seq<char>>(e@),
        },
{
    let mut symbols: Vec<Symbol> = Vec::new();
    let mut it = list.iter();
    assert(names(symbols@) =~= Seq::empty());
    loop
        invariant
            parameters(list@, Seq::empty()) == parameters(it@, names(symbols@)),
        decreases it@.size(),
    {
        match it.next() {
            None => {
                return Ok(symbols);
            },
            Some(Ok(item)) => match item.expect_symbol() {
                Ok(symbol) => {
                    let ghost before = symbols@;
                    symbols.push(symbol);
                    assert(names(symbols@) =~= names(before).push(symbol@));
                },
                Err(e) => {
                    return Err(e);
                },
            },
            Some(Err(e)) => {
                return Err(e);
            },
        }
    }
}

impl Ast {
    /// Builds the syntax tree of a value. The context is left as it was.
    pub fn build(ctx: &mut Context, value: &Value) -> (r: Result<Ast, Error>)
        ensures
            *final(ctx) == *old(ctx),
            match r {
                Ok(ast) => build(value@) == Ok::<Expr, Seq<char>>(ast@),
                Err(e) => build(value@) == Err::<Expr, Seq<char>>(e@),
            },
        decreases value@.size(),
    {
        proof {
            reveal_with_fuel(build, 2);
        }
        match value {
            Value::Integer(i) => Ok(Ast::Value(Value::Integer(*i))),
            Value::Symbol(s) => Ok(Ast::Variable(s.clone())),
            Value::Null => Err(Error::new("the expression () needs to be quoted")),
            Value::Cons(l) => {
                let car = &l.0;
                match SpecialForm::from_value(car) {
                    Some(special_form) => {
                        let cdr = match l.1.items() {
                            Ok(items) => items,
                            Err(e) => {
                                return Err(e);
                            },
                        };
                        match special_form.check_arity(cdr.len()) {
                            Ok(_) => {},
                            Err(e) => {
                                return Err(e);
                            },
                        }
                        proof {
                            assert(data(cdr@)[0] == cdr@[0]@);
                            if cdr.len() == 3 {
                                assert(data(cdr@)[1] == cdr@[1]@);
                                assert(data(cdr@)[2] == cdr@[2]@);
                                items_are_smaller(l.1@, 1);
                                items_are_smaller(l.1@, 2);
                            }
                            items_are_smaller(l.1@, 0);
                        }
                        match special_form {
                            SpecialForm::Quote => Ok(Ast::Value(cdr[0].clone())),
                            SpecialForm::If => {
                                let question = match Ast::build(ctx, &cdr[0]) {
                                    Ok(ast) => ast,
                                    Err(e) => {
                                        return Err(e);
                                    },
                                };
                                let answer = match Ast::build(ctx, &cdr[1]) {
                                    Ok(ast) => ast,
                                    Err(e) => {
                                        return Err(e);
                                    },
                                };
                                let else_ = match Ast::build(ctx, &cdr[2]) {
                                    Ok(ast) => ast,
                                    Err(e) => {
                                        return Err(e);
                                    },
                                };
                                Ok(
                                    Ast::If {
                                        question: Box::new(question),
                                        answer: Box::new(answer),
                                        else_: Box::new(else_),
                                    },
                                )
                            },
                            SpecialForm::Defun | SpecialForm::Dethm => {
                                let parameters = match build_parameters(&cdr[1]) {
                                    Ok(symbols) => symbols,
                                    Err(e) => {
                                        return Err(e);
                                    },
                                };
                                let name = match cdr[0].expect_symbol() {
                                    Ok(symbol) => symbol,
                                    Err(e) => {
                                        return Err(e);
                                    },
                                };
                                let body = match Ast::build(ctx, &cdr[2]) {
                                    Ok(ast) => ast,
                                    Err(e) => {
                                        return Err(e);
                                    },
                                };
                                Ok(
                                    Ast::Define {
                                        name,
                                        parameters: Rc::new(parameters),
                                        body: Rc::new(body),
                                    },
                                )
                            },
                        }
                    },
                    None => {
                        let func = match Ast::build(ctx, car) {
                            Ok(ast) => ast,
                            Err(e) => {
                                return Err(e);
                            },
                        };
                        let mut arguments: Vec<Ast> = Vec::new();
                        let mut it = l.1.iter();
                        assert(exprs(arguments@) =~= Seq::empty());
                        loop
                            invariant
                                *ctx == *old(ctx),
                                build(value@) == (match build_arguments(l.1@, Seq::empty()) {
                                    Err(e) => Err(e),
                                    Ok(arguments) => Ok(
                                        Expr::Apply { func: Box::new(func@), arguments },
                                    ),
                                }),
                                build_arguments(l.1@, Seq::empty()) == build_arguments(
                                    it@,
                                    exprs(arguments@),
                                ),
                                it@.size() < value@.size(),
                            decreases it@.size(),
                        {
                            match it.next() {
                                None => {
                                    let ast = Ast::Apply { func: Box::new(func), arguments };
                                    assert(ast@->Apply_arguments =~= exprs(arguments@));
                                    return Ok(ast);
                                },
                                Some(Ok(item)) => match Ast::build(ctx, &item) {
                                    Ok(argument) => {
                                        let ghost before = arguments@;
                                        arguments.push(argument);
                                        assert(exprs(arguments@) =~= exprs(before).push(argument@));
                                    },
                                    Err(e) => {
                                        return Err(e);
                                    },
                                },
                                Some(Err(e)) => {
                                    return Err(e);
                                },
                            }
                        }
                    },
                }
            },
            Value::Function(f) => Ok(Ast::Value(Value::Function(f.clone()))),
        }
    }
}

} // verus!
