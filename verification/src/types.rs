//! The values that programs compute with, and their mathematical model.

use std::rc::Rc;
use vstd::prelude::*;
use vstd::std_specs::cmp::PartialEqSpecImpl;
use vstd::string::*;

use crate::context::Context;
use crate::errors::Error;
use crate::text::{decimal, push_integer};

verus! {

/// The model of a symbol: the identity that the interner gave it, and its text.
pub struct Name {
    pub id: nat,
    pub text: Seq<char>,
}

/// An interned string. Two symbols are equal when they have the same identity;
/// their texts are never compared. Only an interner makes symbols.
#[derive(Debug)]
pub struct Symbol {
    pub(crate) id: usize,
    pub(crate) name: Rc<String>,
}

impl View for Symbol {
    type V = Name;

    open(crate) spec fn view(&self) -> Name {
        Name { id: self.id as nat, text: self.name@ }
    }
}

impl Symbol {
    /// The text of this symbol.
    pub fn as_str(&self) -> (s: &str)
        ensures
            s@ == self@.text,
    {
        self.name.as_str()
    }
}

impl Clone for Symbol {
    fn clone(&self) -> (r: Symbol)
        ensures
            r == *self,
    {
        Symbol { id: self.id, name: self.name.clone() }
    }
}

impl PartialEq for Symbol {
    fn eq(&self, rhs: &Symbol) -> (r: bool) {
        self.id == rhs.id
    }
}

impl PartialEqSpecImpl for Symbol {
    open spec fn obeys_eq_spec() -> bool {
        true
    }

    open spec fn eq_spec(&self, rhs: &Symbol) -> bool {
        self@.id == rhs@.id
    }
}

/// The model of a handle on a function: the place of the function in its
/// context, which is its identity, and the name it is shown under.
pub struct Handle {
    pub index: nat,
    pub name: Option<Name>,
}

/// A handle on a function of an interpreter context. Functions are equal only
/// when they are the same function, and the place in the handle is that
/// identity. The handle also carries the name that the function is shown
/// under, if it has one.
#[derive(Debug)]
pub struct FunctionRef {
    pub(crate) index: usize,
    pub(crate) name: Option<Symbol>,
}

impl View for FunctionRef {
    type V = Handle;

    open(crate) spec fn view(&self) -> Handle {
        Handle {
            index: self.index as nat,
            name: match self.name {
                Some(n) => Some(n@),
                None => None,
            },
        }
    }
}

impl Clone for FunctionRef {
    fn clone(&self) -> (r: FunctionRef)
        ensures
            r == *self,
    {
        FunctionRef {
            index: self.index,
            name: match &self.name {
                Some(n) => Some(n.clone()),
                None => None,
            },
        }
    }
}

/// A Scheme value.
#[derive(Debug)]
pub enum Value {
    /// An integer, held in place.
    Integer(i64),
    /// An interned symbol.
    Symbol(Symbol),
    /// The empty list, which is also the false value.
    Null,
    /// A pair, shared by everyone who holds it and never changed.
    Cons(Rc<(Value, Value)>),
    /// A function of the interpreter context.
    Function(FunctionRef),
}

/// The model of a value.
pub enum Datum {
    Integer(int),
    Symbol(Name),
    Null,
    Pair(Box<Datum>, Box<Datum>),
    Function(Handle),
}

impl View for Value {
    type V = Datum;

    open spec fn view(&self) -> Datum
        decreases self,
    {
        match self {
            Value::Integer(i) => Datum::Integer(*i as int),
            Value::Symbol(s) => Datum::Symbol(s@),
            Value::Null => Datum::Null,
            Value::Cons(c) => Datum::Pair(Box::new(c.0@), Box::new(c.1@)),
            Value::Function(f) => Datum::Function(f@),
        }
    }
}

/// The models of a sequence of values.
pub open spec fn data(values: Seq<Value>) -> Seq<Datum> {
    values.map_values(|v: Value| v@)
}

/// The models of a sequence of symbols.
pub open spec fn names(symbols: Seq<Symbol>) -> Seq<Name> {
    symbols.map_values(|s: Symbol| s@)
}

impl Datum {
    /// The number of nodes of a value: one for each atom and each pair.
    pub open spec fn size(self) -> nat
        decreases self,
    {
        match self {
            Datum::Pair(a, b) => 1 + a.size() + b.size(),
            _ => 1,
        }
    }

    /// The pair of `car` and `cdr`.
    pub open spec fn pair(car: Datum, cdr: Datum) -> Datum {
        Datum::Pair(Box::new(car), Box::new(cdr))
    }

    /// The proper list of `items`, which ends in the empty list.
    pub open spec fn list(items: Seq<Datum>) -> Datum
        decreases items.len(),
    {
        if items.len() == 0 {
            Datum::Null
        } else {
            Datum::pair(items[0], Datum::list(items.drop_first()))
        }
    }

    /// The items of a chain of pairs, up to the first `cdr` that is no pair.
    pub open spec fn items(self) -> Seq<Datum>
        decreases self,
    {
        match self {
            Datum::Pair(a, b) => seq![*a] + b.items(),
            _ => Seq::empty(),
        }
    }

    /// The end of a chain of pairs: the first `cdr` that is no pair. It is the
    /// empty list exactly when the chain is a proper list.
    pub open spec fn end(self) -> Datum
        decreases self,
    {
        match self {
            Datum::Pair(_, b) => b.end(),
            other => other,
        }
    }

    /// Whether this value is a proper list.
    pub open spec fn is_list(self) -> bool {
        self.end() is Null
    }
}

/// A proper list is the list of its items: a chain of pairs that ends in the
/// empty list. Any other value is an improper list.
pub proof fn a_list_is_made_of_its_items(d: Datum)
    ensures
        d.is_list() <==> d == Datum::list(d.items()),
    decreases d,
{
    match d {
        Datum::Pair(a, b) => {
            a_list_is_made_of_its_items(*b);
            assert(d.items().drop_first() =~= b.items());
        },
        _ => {},
    }
}

/// The list of some items is a proper list, and its items are those.
pub proof fn the_items_of_a_list(items: Seq<Datum>)
    ensures
        Datum::list(items).is_list(),
        Datum::list(items).items() == items,
    decreases items.len(),
{
    if items.len() > 0 {
        the_items_of_a_list(items.drop_first());
        assert(seq![items[0]] + items.drop_first() =~= items);
    }
}

/// Equality of values, as programs and the interpreter see it: integers by
/// value, symbols and functions by identity, pairs field by field.
pub open spec fn same(a: Datum, b: Datum) -> bool
    decreases a,
{
    match (a, b) {
        (Datum::Integer(x), Datum::Integer(y)) => x == y,
        (Datum::Symbol(x), Datum::Symbol(y)) => x.id == y.id,
        (Datum::Null, Datum::Null) => true,
        (Datum::Pair(a0, a1), Datum::Pair(b0, b1)) => same(*a0, *b0) && same(*a1, *b1),
        (Datum::Function(f), Datum::Function(g)) => f.index == g.index,
        _ => false,
    }
}

/// Every value equals itself.
pub proof fn same_reflexive(a: Datum)
    ensures
        same(a, a),
    decreases a,
{
    match a {
        Datum::Pair(x, y) => {
            same_reflexive(*x);
            same_reflexive(*y);
        },
        _ => {},
    }
}

/// Equality of values does not depend on the order of its arguments.
pub proof fn same_symmetric(a: Datum, b: Datum)
    ensures
        same(a, b) == same(b, a),
    decreases a,
{
    match (a, b) {
        (Datum::Pair(a0, a1), Datum::Pair(b0, b1)) => {
            same_symmetric(*a0, *b0);
            same_symmetric(*a1, *b1);
        },
        _ => {},
    }
}

/// Two values equal to a third are equal to each other.
pub proof fn same_transitive(a: Datum, b: Datum, c: Datum)
    requires
        same(a, b),
        same(b, c),
    ensures
        same(a, c),
    decreases a,
{
    match (a, b, c) {
        (Datum::Pair(a0, a1), Datum::Pair(b0, b1), Datum::Pair(c0, c1)) => {
            same_transitive(*a0, *b0, *c0);
            same_transitive(*a1, *b1, *c1);
        },
        _ => {},
    }
}

/// How a function is shown: with its name, if it has one.
pub open spec fn show(name: Option<Name>) -> Seq<char> {
    match name {
        Some(n) => "#<function '"@ + n.text + "'>"@,
        None => "#<function>"@,
    }
}

/// The printed form of a value: integers in decimal, symbols as their text,
/// the empty list as `()`, a chain of pairs in parentheses with its items
/// separated by spaces and, where it does not end in the empty list, a dot
/// before its end, and a function as `#<function>` with its name inside, if
/// it has one.
pub open spec fn display(d: Datum) -> Seq<char>
    decreases d, 0nat,
{
    match d {
        Datum::Integer(i) => decimal(i),
        Datum::Symbol(n) => n.text,
        Datum::Null => "()"@,
        Datum::Pair(a, b) => seq!['('] + display(*a) + display_rest(*b),
        Datum::Function(f) => show(f.name),
    }
}

/// What follows the first item of a printed chain of pairs, the closing
/// parenthesis included.
pub open spec fn display_rest(d: Datum) -> Seq<char>
    decreases d, 1nat,
{
    match d {
        Datum::Pair(a, b) => seq![' '] + display(*a) + display_rest(*b),
        Datum::Null => seq![')'],
        other => " . "@ + display(other) + seq![')'],
    }
}

/// The message for a chain of pairs that ends in `end`, which is neither a
/// pair nor the empty list.
pub open spec fn unexpected_cdr(end: Datum) -> Seq<char> {
    "unexpected value in cdr: "@ + display(end)
}

/// The message for a value that stands where a symbol is expected.
pub open spec fn expected_symbol(found: Datum) -> Seq<char> {
    "expected symbol, found "@ + display(found)
}

/// Each item of a chain of pairs is smaller than the chain.
pub proof fn items_are_smaller(d: Datum, i: int)
    requires
        0 <= i < d.items().len(),
    ensures
        d.items()[i].size() < d.size(),
    decreases d,
{
    match d {
        Datum::Pair(a, b) => {
            if i > 0 {
                items_are_smaller(*b, i - 1);
            }
        },
        _ => {},
    }
}

/// Trusted: `Rc::ptr_eq` answers whether two pointers share one allocation.
/// Where it says yes, both point to the same pair.
#[verifier::external_body]
fn same_allocation(a: &Rc<(Value, Value)>, b: &Rc<(Value, Value)>) -> (r: bool)
    ensures
        r ==> *a == *b,
{
    Rc::ptr_eq(a, b)
}

impl Clone for Value {
    fn clone(&self) -> (r: Value)
        ensures
            r == *self,
    {
        match self {
            Value::Integer(i) => Value::Integer(*i),
            Value::Symbol(s) => Value::Symbol(s.clone()),
            Value::Null => Value::Null,
            Value::Cons(c) => Value::Cons(c.clone()),
            Value::Function(f) => Value::Function(f.clone()),
        }
    }
}

impl PartialEq for Value {
    fn eq(&self, rhs: &Value) -> (r: bool)
        decreases self@.size(),
    {
        let mut a: &Value = self;
        let mut b: &Value = rhs;
        loop
            invariant
                same(self@, rhs@) == same(a@, b@),
                a@.size() <= self@.size(),
            decreases a@.size(),
        {
            match (a, b) {
                (Value::Integer(x), Value::Integer(y)) => {
                    return *x == *y;
                },
                (Value::Symbol(x), Value::Symbol(y)) => {
                    return x.id == y.id;
                },
                (Value::Null, Value::Null) => {
                    return true;
                },
                (Value::Cons(x), Value::Cons(y)) => {
                    if same_allocation(x, y) {
                        proof {
                            same_reflexive(a@);
                        }
                        return true;
                    }
                    if !x.0.eq(&y.0) {
                        return false;
                    }
                    a = &x.1;
                    b = &y.1;
                },
                (Value::Function(x), Value::Function(y)) => {
                    return x.index == y.index;
                },
                (_, _) => {
                    return false;
                },
            }
        }
    }
}

impl PartialEqSpecImpl for Value {
    open spec fn obeys_eq_spec() -> bool {
        true
    }

    open spec fn eq_spec(&self, rhs: &Value) -> bool {
        same(self@, rhs@)
    }
}

/// How a function is shown: with its name, if it has one.
pub fn show_function(name: &Option<Symbol>) -> (s: String)
    ensures
        s@ == show(
            match name {
                Some(n) => Some(n@),
                None => None,
            },
        ),
{
    match name {
        Some(n) => {
            let mut s = String::from_str("#<function '");
            s.append(n.as_str());
            s.append("'>");
            s
        },
        None => String::from_str("#<function>"),
    }
}

impl Value {
    /// The pair of `car` and `cdr`.
    pub fn cons(car: Value, cdr: Value) -> (v: Value)
        ensures
            v@ == Datum::pair(car@, cdr@),
    {
        Value::Cons(Rc::new((car, cdr)))
    }

    /// Wraps `value` as the list `(quote value)`.
    pub fn quote(ctx: &mut Context, value: Value) -> (v: Value)
        requires
            old(ctx).wf(),
        ensures
            final(ctx).wf(),
            final(ctx)@ == old(ctx)@.intern("quote"@),
            final(ctx).budget() == old(ctx).budget(),
            v@ == Datum::pair(
                Datum::Symbol(old(ctx)@.symbol("quote"@)),
                Datum::pair(value@, Datum::Null),
            ),
    {
        Value::cons(ctx.intern("quote"), Value::cons(value, Value::Null))
    }

    /// A cursor over the items of this value, taken as a list.
    pub fn iter(&self) -> (it: ValueIter)
        ensures
            it@ == self@,
    {
        ValueIter { remaining: self.clone() }
    }

    /// The symbol that this value is, or an error that shows the value.
    pub fn expect_symbol(&self) -> (r: Result<Symbol, Error>)
        ensures
            match r {
                Ok(s) => self@ == Datum::Symbol(s@),
                Err(e) => !(self@ is Symbol) && e@ == expected_symbol(self@),
            },
    {
        match self {
            Value::Symbol(symbol) => Ok(symbol.clone()),
            _ => {
                let mut message = String::from_str("expected symbol, found ");
                self.print(&mut message);
                Err(Error(message))
            },
        }
    }

    /// The items of this value, taken as a list: an error unless it is a
    /// chain of pairs that ends in the empty list.
    pub fn items(&self) -> (r: Result<Vec<Value>, Error>)
        ensures
            match r {
                Ok(items) => self@.is_list() && data(items@) == self@.items(),
                Err(e) => !self@.is_list() && e@ == unexpected_cdr(self@.end()),
            },
    {
        let mut items: Vec<Value> = Vec::new();
        let mut it = self.iter();
        loop
            invariant
                self@.items() == data(items@) + it@.items(),
                self@.end() == it@.end(),
            decreases it@.size(),
        {
            match it.next() {
                None => {
                    assert(data(items@) =~= self@.items());
                    return Ok(items);
                },
                Some(Ok(item)) => {
                    let ghost before = items@;
                    items.push(item);
                    assert(data(items@) =~= data(before).push(item@));
                    assert(self@.items() =~= data(items@) + it@.items());
                },
                Some(Err(e)) => {
                    return Err(e);
                },
            }
        }
    }

    /// Appends the printed form of this value to `out`.
    pub fn print(&self, out: &mut String)
        ensures
            final(out)@ == old(out)@ + display(self@),
        decreases self@.size(), 0nat,
    {
        match self {
            Value::Integer(i) => {
                push_integer(out, *i);
            },
            Value::Symbol(s) => {
                out.append(s.as_str());
            },
            Value::Null => {
                out.append("()");
            },
            Value::Cons(c) => {
                out.push('(');
                c.0.print(out);
                c.1.print_rest(out);
                assert(out@ =~= old(out)@ + display(self@));
            },
            Value::Function(f) => {
                let shown = show_function(&f.name);
                out.append(shown.as_str());
            },
        }
    }

    /// Appends to `out` what follows the first item of a printed chain of
    /// pairs whose `cdr` is this value.
    fn print_rest(&self, out: &mut String)
        ensures
            final(out)@ == old(out)@ + display_rest(self@),
        decreases self@.size(), 1nat,
    {
        let mut rest: &Value = self;
        loop
            invariant
                old(out)@ + display_rest(self@) == out@ + display_rest(rest@),
                rest@.size() <= self@.size(),
            decreases rest@.size(),
        {
            match rest {
                Value::Cons(c) => {
                    out.push(' ');
                    let ghost before = out@;
                    c.0.print(out);
                    assert(out@ + display_rest(c.1@) =~= before.drop_last() + display_rest(rest@));
                    rest = &c.1;
                },
                Value::Null => {
                    out.push(')');
                    return ;
                },
                other => {
                    out.append(" . ");
                    other.print(out);
                    out.push(')');
                    assert(out@ =~= old(out)@ + display_rest(self@));
                    return ;
                },
            }
        }
    }

    /// The printed form of this value.
    pub fn to_string(&self) -> (s: String)
        ensures
            s@ == display(self@),
    {
        let mut s = String::new();
        self.print(&mut s);
        assert(s@ =~= display(self@));
        s
    }
}

/// A cursor over a Scheme list. It hands out the items of a chain of pairs
/// one by one, and reports an error at an end that is neither a pair nor the
/// empty list.
pub struct ValueIter {
    pub(crate) remaining: Value,
}

impl View for ValueIter {
    type V = Datum;

    /// What is left to hand out.
    open(crate) spec fn view(&self) -> Datum {
        self.remaining@
    }
}

impl ValueIter {
    /// The next item: nothing at the empty list, the `car` of a pair (the
    /// cursor moves on to its `cdr`), and an error at anything else.
    pub fn next(&mut self) -> (r: Option<Result<Value, Error>>)
        ensures
            match old(self)@ {
                Datum::Null => r is None && final(self)@ == old(self)@,
                Datum::Pair(a, b) => r matches Some(Ok(v)) && v@ == *a && final(self)@ == *b,
                other => r matches Some(Err(e)) && e@ == unexpected_cdr(other) && final(self)@
                    == old(self)@,
            },
    {
        let current = self.remaining.clone();
        match current {
            Value::Null => None,
            Value::Cons(c) => {
                let car = c.0.clone();
                self.remaining = c.1.clone();
                Some(Ok(car))
            },
            value => {
                let mut message = String::from_str("unexpected value in cdr: ");
                value.print(&mut message);
                Some(Err(Error(message)))
            },
        }
    }
}

} // verus!
