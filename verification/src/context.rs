//! The interpreter context: the symbols, environments and functions of one
//! interpreter.

use std::rc::Rc;
use vstd::hash_map::StringHashMap;
use vstd::prelude::*;
use vstd::string::*;

use crate::ast::Ast;
use crate::environment::{Environment, EnvironmentRef, Frame};
use crate::errors::Error;
use crate::eval::{eval_ast, eval_text, run};
use crate::functions::{add_prelude_functions, prelude, CodeModel, Function, Procedure};
use crate::read::read_file;
use crate::types::{Datum, Name, Symbol, Value};

verus! {

/// How many calls of closures may be nested inside one another in a new
/// context.
pub const DEFAULT_DEPTH_LIMIT: usize = 1000;

/// The model of an interpreter context.
pub struct State {
    /// The texts of the interned symbols; a symbol's identity is its place here.
    pub names: Seq<Seq<char>>,
    /// The environments; the first is the global one.
    pub frames: Seq<Frame>,
    /// The functions that values refer to.
    pub functions: Seq<Procedure>,
}

impl State {
    /// The state before anything is interned or defined: a global
    /// environment without bindings.
    pub open spec fn empty() -> State {
        State {
            names: Seq::empty(),
            frames: seq![Frame { parent: None, bindings: Map::empty() }],
            functions: Seq::empty(),
        }
    }

    /// Whether a function can be called in this state: a built-in operation
    /// has the number of arguments that it takes, and a closure was defined
    /// in an environment of the state.
    pub open spec fn admits(self, f: Procedure) -> bool {
        &&& f.wf()
        &&& f.code matches CodeModel::Closure { env, .. } ==> env < self.frames.len()
    }

    /// No text is interned twice, the global environment exists, each
    /// environment lies inside an older one, and each function can be called.
    pub open spec fn wf(self) -> bool {
        &&& self.names.no_duplicates()
        &&& self.frames.len() > 0
        &&& forall|e: int|
            0 <= e < self.frames.len() ==> (#[trigger] self.frames[e].parent matches Some(p) ==> p < e)
        &&& forall|f: int| 0 <= f < self.functions.len() ==> self.admits(#[trigger] self.functions[f])
    }

    /// The identity of the symbol with the given text: its place among the
    /// interned texts, or the next free place if it is not interned yet.
    pub open spec fn symbol_id(self, text: Seq<char>) -> nat {
        if self.names.contains(text) {
            self.names.index_of(text) as nat
        } else {
            self.names.len()
        }
    }

    /// The symbol with the given text.
    pub open spec fn symbol(self, text: Seq<char>) -> Name {
        Name { id: self.symbol_id(text), text }
    }

    /// The state after interning `text`. The table of symbols only grows.
    pub open spec fn intern(self, text: Seq<char>) -> State {
        if self.names.contains(text) {
            self
        } else {
            State { names: self.names.push(text), ..self }
        }
    }

    /// The value that stands for a truth value: the symbol `t` for true, the
    /// empty list for false.
    pub open spec fn truth(self, b: bool) -> Datum {
        if b {
            Datum::Symbol(self.symbol("t"@))
        } else {
            Datum::Null
        }
    }

    /// The state after making the value that stands for a truth value.
    pub open spec fn after_truth(self, b: bool) -> State {
        if b {
            self.intern("t"@)
        } else {
            self
        }
    }

    /// The state with one more environment.
    pub open spec fn with_frame(self, frame: Frame) -> State {
        State { frames: self.frames.push(frame), ..self }
    }

    /// The handle on a function that is added to this state.
    pub open spec fn handle(self, function: Procedure) -> crate::types::Handle {
        crate::types::Handle { index: self.functions.len(), name: function.name }
    }

    /// The state with one more function.
    pub open spec fn with_function(self, function: Procedure) -> State {
        State { functions: self.functions.push(function), ..self }
    }

    /// The state with `id` bound to `value` in environment `env`.
    pub open spec fn with_binding(self, env: nat, id: nat, value: Datum) -> State {
        State { frames: crate::environment::define(self.frames, env, id, value), ..self }
    }

    /// Whether a closure of this state was defined in environment `env`.
    pub open spec fn captures(self, env: nat) -> bool {
        exists|f: int| 0 <= f < self.functions.len() && (#[trigger] self.functions[f]).defined_in(env)
    }

    /// The state after a call has returned from its environment `env`: the
    /// environment is given up if it is the newest and no closure was
    /// defined in it, so that nothing can refer to it any more.
    pub open spec fn leave(self, env: nat) -> State {
        if self.frames.len() == env + 1 && !self.captures(env) {
            State { frames: self.frames.drop_last(), ..self }
        } else {
            self
        }
    }

    /// Whether `later` can come after this state: every symbol, function and
    /// environment of this state is still there under the same identity, and
    /// every name that one of its environments binds is still bound there.
    pub open spec fn grows_to(self, later: State) -> bool {
        &&& self.names.is_prefix_of(later.names)
        &&& self.functions.is_prefix_of(later.functions)
        &&& self.frames.len() <= later.frames.len()
        &&& forall|e: int|
            0 <= e < self.frames.len() ==> (#[trigger] later.frames[e]).parent
                == self.frames[e].parent
        &&& forall|e: int, id: nat|
            0 <= e < self.frames.len() && self.frames[e].bindings.contains_key(id)
                ==> #[trigger] later.frames[e].bindings.contains_key(id)
    }
}

/// Every state can come after itself.
pub proof fn grows_to_itself(st: State)
    ensures
        st.grows_to(st),
{
}

/// What can come after a later state can come after an earlier one.
pub proof fn grows_in_steps(first: State, second: State, third: State)
    requires
        first.grows_to(second),
        second.grows_to(third),
    ensures
        first.grows_to(third),
{
    assert forall|e: int| 0 <= e < first.frames.len() implies (#[trigger] third.frames[e]).parent
        == first.frames[e].parent by {
        assert(second.frames[e].parent == first.frames[e].parent);
    }
    assert forall|e: int, id: nat|
        0 <= e < first.frames.len() && first.frames[e].bindings.contains_key(
            id,
        ) implies #[trigger] third.frames[e].bindings.contains_key(id) by {
        assert(second.frames[e].bindings.contains_key(id));
    }
}

/// Interning, a new environment, a new function and a new binding keep
/// what a state holds.
pub proof fn steps_grow(st: State, text: Seq<char>, frame: Frame, function: Procedure, env: nat, id: nat, value: Datum)
    ensures
        st.grows_to(st.intern(text)),
        st.grows_to(st.with_frame(frame)),
        st.grows_to(st.with_function(function)),
        st.grows_to(st.with_binding(env, id, value)),
        st.grows_to(st.after_truth(true)),
        st.grows_to(st.after_truth(false)),
{
}

/// A text that is interned has the identity of its place, and only that text
/// has it.
pub proof fn symbol_identity(st: State, text: Seq<char>)
    requires
        st.wf(),
    ensures
        st.names.contains(text) ==> st.symbol_id(text) < st.names.len() && st.names[st.symbol_id(
            text,
        ) as int] == text,
        !st.names.contains(text) ==> st.symbol_id(text) == st.names.len(),
{
}

/// Interning keeps the state well formed.
pub proof fn intern_preserves_wf(st: State, text: Seq<char>)
    requires
        st.wf(),
    ensures
        st.intern(text).wf(),
        st.intern(text).names.contains(text),
{
    if !st.names.contains(text) {
        let names = st.names.push(text);
        assert(names.last() == text);
        assert forall|i: int, j: int| 0 <= i < names.len() && 0 <= j < names.len() && i != j implies names[i]
            != names[j] by {
            if i < st.names.len() && j < st.names.len() {
            } else if i < st.names.len() {
                assert(st.names[i] == names[i]);
            } else {
                assert(st.names[j] == names[j]);
            }
        }
    }
}

/// Interning the same text again gives the same symbol, and changes nothing.
pub proof fn intern_is_idempotent(st: State, text: Seq<char>)
    requires
        st.wf(),
    ensures
        st.intern(text).symbol(text) == st.symbol(text),
        st.intern(text).intern(text) == st.intern(text),
{
    intern_preserves_wf(st, text);
    symbol_identity(st, text);
    symbol_identity(st.intern(text), text);
    if !st.names.contains(text) {
        let names = st.names.push(text);
        assert(names[st.names.len() as int] == text);
    }
}

/// Interning a text leaves the symbols of all interned texts as they are.
pub proof fn intern_keeps_symbols(st: State, text: Seq<char>, other: Seq<char>)
    requires
        st.wf(),
        st.names.contains(other),
    ensures
        st.intern(text).symbol(other) == st.symbol(other),
{
    intern_preserves_wf(st, text);
    symbol_identity(st, other);
    symbol_identity(st.intern(text), other);
    if !st.names.contains(text) {
        let names = st.names.push(text);
        let i = st.symbol_id(other) as int;
        assert(names[i] == other);
    }
}

/// Two symbols of one interner are the same symbol exactly when their texts
/// are the same: whichever is interned first, texts that differ get
/// identities that differ, and equal texts the same identity.
pub proof fn symbols_differ_with_their_texts(st: State, a: Seq<char>, b: Seq<char>)
    requires
        st.wf(),
    ensures
        (st.symbol(a).id == st.intern(a).symbol(b).id) <==> a == b,
{
    intern_preserves_wf(st, a);
    intern_is_idempotent(st, a);
    symbol_identity(st, a);
    symbol_identity(st.intern(a), a);
    symbol_identity(st.intern(a), b);
}

/// The state of a single-threaded interpreter.
pub struct Context {
    /// The identity of each interned text.
    pub(crate) index: StringHashMap<usize>,
    /// The interned symbols, each at the place that is its identity.
    pub(crate) symbols: Vec<Symbol>,
    /// The environments; the first is the global one.
    pub(crate) environments: Vec<Environment>,
    /// The functions that values refer to.
    pub(crate) functions: Vec<Function>,
    /// How many more calls of closures may be nested inside one another.
    pub(crate) depth: usize,
}

impl View for Context {
    type V = State;

    open(crate) spec fn view(&self) -> State {
        State {
            names: self.symbols@.map_values(|s: Symbol| s@.text),
            frames: self.environments@.map_values(|e: Environment| e@),
            functions: self.functions@.map_values(|f: Function| f@),
        }
    }
}

impl Context {
    /// The table of symbols is consistent and the model is well formed.
    pub open(crate) spec fn wf(&self) -> bool {
        &&& self@.wf()
        &&& forall|i: int| 0 <= i < self.symbols.len() ==> (#[trigger] self.symbols[i]).id == i
        &&& forall|i: int|
            0 <= i < self.symbols.len() ==> self.index@.contains_key((#[trigger] self.symbols[i])@.text)
                && self.index@[self.symbols[i]@.text] == i
        &&& forall|t: Seq<char>| #[trigger]
            self.index@.contains_key(t) ==> self.index@[t] < self.symbols.len()
                && self.symbols[self.index@[t] as int]@.text == t
    }

    /// How many more calls of closures may be nested inside one another.
    pub open(crate) spec fn budget(&self) -> nat {
        self.depth as nat
    }

    /// The model of a well-formed context is well formed.
    pub proof fn model_is_wf(&self)
        requires
            self.wf(),
        ensures
            self@.wf(),
    {
    }

    /// Given a string, finds the one symbol with that text, making it the
    /// first time.
    pub fn intern_symbol(&mut self, s: &str) -> (symbol: Symbol)
        requires
            old(self).wf(),
        ensures
            final(self).wf(),
            symbol@ == old(self)@.symbol(s@),
            final(self)@ == old(self)@.intern(s@),
            final(self).budget() == old(self).budget(),
    {
        match self.index.get(s) {
            Some(id) => {
                let id: usize = *id;
                assert(self@.names[id as int] == s@);
                assert(self@.names.contains(s@));
                let symbol = self.symbols[id].clone();
                symbol
            },
            None => {
                assert(!self@.names.contains(s@)) by {
                    if self@.names.contains(s@) {
                        let i = choose|i: int| 0 <= i < self@.names.len() && self@.names[i] == s@;
                        assert(self.symbols[i]@.text == s@);
                    }
                }
                let id: usize = self.symbols.len();
                let symbol = Symbol { id, name: Rc::new(String::from_str(s)) };
                self.index.insert(String::from_str(s), id);
                self.symbols.push(symbol.clone());
                assert(self@.names =~= old(self)@.names.push(s@));
                assert(self@.frames =~= old(self)@.frames);
                assert(self@.functions =~= old(self)@.functions);
                symbol
            },
        }
    }

    /// Given a string, finds the one symbol with that text, as a value.
    pub fn intern(&mut self, s: &str) -> (v: Value)
        requires
            old(self).wf(),
        ensures
            final(self).wf(),
            v@ == Datum::Symbol(old(self)@.symbol(s@)),
            final(self)@ == old(self)@.intern(s@),
            final(self).budget() == old(self).budget(),
    {
        Value::Symbol(self.intern_symbol(s))
    }

    /// The false value: the empty list.
    pub fn nil(&mut self) -> (v: Value)
        ensures
            *final(self) == *old(self),
            v@ == Datum::Null,
    {
        Value::Null
    }

    /// The true value: the symbol `t`.
    pub fn t(&mut self) -> (v: Value)
        requires
            old(self).wf(),
        ensures
            final(self).wf(),
            v@ == old(self)@.truth(true),
            final(self)@ == old(self)@.after_truth(true),
            final(self).budget() == old(self).budget(),
    {
        self.intern("t")
    }

    /// The Scheme value that stands for a truth value.
    pub fn bool_value(&mut self, b: bool) -> (v: Value)
        requires
            old(self).wf(),
        ensures
            final(self).wf(),
            v@ == old(self)@.truth(b),
            final(self)@ == old(self)@.after_truth(b),
            final(self).budget() == old(self).budget(),
    {
        if b {
            self.t()
        } else {
            self.nil()
        }
    }

    /// Adds a function to the context and hands out its handle.
    pub fn add_function(&mut self, function: Function) -> (r: crate::types::FunctionRef)
        requires
            old(self).wf(),
            old(self)@.admits(function@),
        ensures
            final(self).wf(),
            r@ == old(self)@.handle(function@),
            final(self)@ == old(self)@.with_function(function@),
            final(self).budget() == old(self).budget(),
    {
        let r = crate::types::FunctionRef {
            index: self.functions.len(),
            name: match &function.name {
                Some(n) => Some(n.clone()),
                None => None,
            },
        };
        self.functions.push(function);
        assert(self@.functions =~= old(self)@.functions.push(function@));
        assert(self@.names =~= old(self)@.names);
        assert(self@.frames =~= old(self)@.frames);
        r
    }

    /// Binds `symbol` to `value` in environment `env`.
    pub fn bind(&mut self, env: EnvironmentRef, symbol: Symbol, value: Value)
        requires
            old(self).wf(),
            env@ < old(self)@.frames.len(),
        ensures
            final(self).wf(),
            final(self)@ == old(self)@.with_binding(env@, symbol@.id, value@),
            final(self).budget() == old(self).budget(),
    {
        self.environments[env.index].define(symbol, value);
        assert(self@.frames =~= crate::environment::define(
            old(self)@.frames,
            env@,
            symbol@.id,
            value@,
        ));
        assert(self@.names =~= old(self)@.names);
        assert(self@.functions =~= old(self)@.functions);
    }

    /// Gives up environment `env` after a call has returned from it, if it
    /// is the newest and no closure was defined in it. Only the functions
    /// from place `since` on are looked at: the older ones were not defined
    /// in it.
    pub(crate) fn release(&mut self, env: EnvironmentRef, since: usize)
        requires
            old(self).wf(),
            0 < env@ < old(self)@.frames.len(),
            since <= old(self)@.functions.len(),
            forall|f: int| 0 <= f < since ==> !(#[trigger] old(self)@.functions[f]).defined_in(env@),
        ensures
            final(self).wf(),
            final(self)@ == old(self)@.leave(env@),
            final(self).budget() == old(self).budget(),
    {
        if self.environments.len() - 1 != env.index {
            return ;
        }
        let mut f: usize = since;
        while f < self.functions.len()
            invariant
                *self == *old(self),
                self.wf(),
                since <= f <= self.functions.len(),
                forall|g: int| 0 <= g < f ==> !(#[trigger] self@.functions[g]).defined_in(env@),
            decreases self.functions.len() - f,
        {
            match &self.functions[f].code {
                crate::functions::Code::Closure { env: defined, .. } => {
                    if defined.index == env.index {
                        assert(self@.functions[f as int].defined_in(env@));
                        return ;
                    }
                },
                _ => {},
            }
            f += 1;
        }
        self.environments.pop();
        assert(self@.frames =~= old(self)@.frames.drop_last());
        assert(self@.names =~= old(self)@.names);
        assert(self@.functions =~= old(self)@.functions);
        assert forall|g: int| 0 <= g < self@.functions.len() implies self@.admits(
            #[trigger] self@.functions[g],
        ) by {
            assert(old(self)@.admits(old(self)@.functions[g]));
            assert(!old(self)@.functions[g].defined_in(env@));
        }
    }

    /// The function that a value refers to, if it refers to one of this
    /// context.
    pub fn function(&self, value: &Value) -> (r: Option<Function>)
        ensures
            match r {
                Some(f) => crate::eval::callee(self@, value@) == Some(f@),
                None => crate::eval::callee(self@, value@) is None,
            },
    {
        match value {
            Value::Function(h) => {
                if h.index < self.functions.len() {
                    Some(self.functions[h.index].clone())
                } else {
                    None
                }
            },
            _ => None,
        }
    }

    /// How many calls of closures may be nested inside one another.
    pub fn depth_limit(&self) -> (limit: usize)
        ensures
            limit == self.budget(),
    {
        self.depth
    }

    /// Sets how many calls of closures may be nested inside one another.
    pub fn set_depth_limit(&mut self, limit: usize)
        requires
            old(self).wf(),
        ensures
            final(self).wf(),
            final(self)@ == old(self)@,
            final(self).budget() == limit,
    {
        self.depth = limit;
    }

    /// Evaluates a text that holds a series of expressions, in the global
    /// environment, and gives the value of the last one.
    #[verifier::loop_isolation(false)]
    pub fn eval_file(&mut self, input: &str) -> (r: Result<Value, Error>)
        requires
            old(self).wf(),
        ensures
            final(self).wf(),
            final(self).budget() == old(self).budget(),
            final(self)@ == eval_text(old(self)@, input@, old(self).budget()).state,
            match r {
                Ok(v) => eval_text(old(self)@, input@, old(self).budget()).result == Ok::<
                    Datum,
                    Seq<char>,
                >(v@),
                Err(e) => eval_text(old(self)@, input@, old(self).budget()).result == Err::<
                    Datum,
                    Seq<char>,
                >(e@),
            },
    {
        let env = self.global_environment();
        let values = match read_file(self, input) {
            Ok(values) => values,
            Err(e) => {
                return Err(e);
            },
        };
        let ghost start = self@;
        let ghost fuel = self.budget();
        let ghost program = crate::types::data(values@);
        let mut last_value = Value::Null;
        let mut i: usize = 0;
        while i < values.len()
            invariant
                i <= values.len(),
                self.wf(),
                self.budget() == fuel,
                env@ == 0,
                program == crate::types::data(values@),
                run(start, program, 0, Datum::Null, fuel) == run(
                    self@,
                    program,
                    i as nat,
                    last_value@,
                    fuel,
                ),
            decreases values.len() - i,
        {
            let ast = match Ast::build(self, &values[i]) {
                Ok(ast) => ast,
                Err(e) => {
                    return Err(e);
                },
            };
            last_value = match eval_ast(self, env, &ast) {
                Ok(value) => value,
                Err(e) => {
                    return Err(e);
                },
            };
            i += 1;
        }
        Ok(last_value)
    }

    /// The global environment of this context.
    pub fn global_environment(&self) -> (r: EnvironmentRef)
        ensures
            r@ == 0,
            self.wf() ==> r@ < self@.frames.len(),
    {
        EnvironmentRef { index: 0 }
    }
}

impl Default for Context {
    /// A new context: its global environment binds the functions that every
    /// program starts with, and nothing else.
    fn default() -> (ctx: Context)
        ensures
            ctx.wf(),
            ctx@ == prelude(State::empty()),
            ctx.budget() == DEFAULT_DEPTH_LIMIT,
    {
        let mut environments: Vec<Environment> = Vec::new();
        environments.push(Environment::new());
        let mut ctx = Context {
            index: StringHashMap::new(),
            symbols: Vec::new(),
            environments,
            functions: Vec::new(),
            depth: DEFAULT_DEPTH_LIMIT,
        };
        assert(ctx@.names =~= State::empty().names);
        assert(ctx@.frames =~= State::empty().frames);
        assert(ctx@.functions =~= State::empty().functions);
        add_prelude_functions(&mut ctx);
        ctx
    }
}

} // verus!
