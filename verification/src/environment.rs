//! Environments: scopes that map symbols to values and link to the scope
//! around them.

use std::collections::HashMap;
use vstd::prelude::*;

use crate::context::Context;
use crate::types::{Datum, Symbol, Value};

verus! {

/// A handle on an environment of an interpreter context. Everyone who holds
/// the handle sees the bindings that anyone adds through it.
#[derive(Clone, Copy, Debug)]
pub struct EnvironmentRef {
    pub(crate) index: usize,
}

impl View for EnvironmentRef {
    type V = nat;

    open(crate) spec fn view(&self) -> nat {
        self.index as nat
    }
}

/// The model of an environment: its own bindings, keyed by the identity of
/// the symbol, and the environment around it.
pub struct Frame {
    pub parent: Option<nat>,
    pub bindings: Map<nat, Datum>,
}

/// One scope: a mapping from symbols to values, and a link to its parent.
pub struct Environment {
    pub(crate) parent: Option<EnvironmentRef>,
    pub(crate) bindings: HashMap<usize, Value>,
}

/// The model of a table of bindings.
pub open spec fn bindings_model(table: Map<usize, Value>) -> Map<nat, Datum> {
    Map::new(
        |id: nat| id <= usize::MAX && table.contains_key(id as usize),
        |id: nat| table[id as usize]@,
    )
}

impl View for Environment {
    type V = Frame;

    open(crate) spec fn view(&self) -> Frame {
        Frame {
            parent: match self.parent {
                Some(p) => Some(p@),
                None => None,
            },
            bindings: bindings_model(self.bindings@),
        }
    }
}

/// What `id` is bound to when looked up from environment `env`: the binding
/// of the nearest environment on the chain of parents that has one.
pub open spec fn lookup(frames: Seq<Frame>, env: nat, id: nat) -> Option<Datum>
    decreases env,
{
    if env >= frames.len() {
        None
    } else if frames[env as int].bindings.contains_key(id) {
        Some(frames[env as int].bindings[id])
    } else if let Some(p) = frames[env as int].parent {
        if p < env {
            lookup(frames, p, id)
        } else {
            None
        }
    } else {
        None
    }
}

/// The frames with `id` bound to `value` in environment `env`, if there is
/// such an environment.
pub open spec fn define(frames: Seq<Frame>, env: nat, id: nat, value: Datum) -> Seq<Frame> {
    if env < frames.len() {
        frames.update(
            env as int,
            Frame {
                parent: frames[env as int].parent,
                bindings: frames[env as int].bindings.insert(id, value),
            },
        )
    } else {
        frames
    }
}

/// Whether a lookup of `id` from environment `from` comes to environment
/// `env` before it finds a binding: `env` is `from` itself or lies on its
/// chain of parents, and no environment before it binds `id`.
pub open spec fn reaches(frames: Seq<Frame>, from: nat, env: nat, id: nat) -> bool
    decreases from,
{
    if from >= frames.len() {
        false
    } else if from == env {
        true
    } else if frames[from as int].bindings.contains_key(id) {
        false
    } else if let Some(p) = frames[from as int].parent {
        p < from && reaches(frames, p, env, id)
    } else {
        false
    }
}

/// A binding made in an environment is seen at once from that environment
/// and from every environment inside it that does not bind the name itself,
/// whoever holds them.
pub proof fn a_binding_is_seen_from_inside(
    frames: Seq<Frame>,
    env: nat,
    id: nat,
    value: Datum,
    from: nat,
)
    requires
        reaches(frames, from, env, id),
    ensures
        lookup(define(frames, env, id, value), from, id) == Some(value),
    decreases from,
{
    if from != env {
        let p = frames[from as int].parent->Some_0;
        a_binding_is_seen_from_inside(frames, env, id, value, p);
    }
}

/// A binding of one name changes no lookup of another.
pub proof fn a_binding_leaves_other_names(
    frames: Seq<Frame>,
    env: nat,
    id: nat,
    value: Datum,
    from: nat,
    other: nat,
)
    requires
        other != id,
    ensures
        lookup(define(frames, env, id, value), from, other) == lookup(frames, from, other),
    decreases from,
{
    if from < frames.len() {
        if let Some(p) = frames[from as int].parent {
            if p < from {
                a_binding_leaves_other_names(frames, env, id, value, p, other);
            }
        }
    }
}

/// An empty environment inside `parent`.
pub open spec fn child(parent: nat) -> Frame {
    Frame { parent: Some(parent), bindings: Map::empty() }
}

impl Default for Environment {
    /// A global environment: no bindings and no parent.
    fn default() -> (e: Environment)
        ensures
            e@ == (Frame { parent: None, bindings: Map::empty() }),
    {
        Environment::new()
    }
}

impl Environment {
    /// A global environment: no bindings and no parent.
    pub fn new() -> (e: Environment)
        ensures
            e@ == (Frame { parent: None, bindings: Map::empty() }),
    {
        let e = Environment { parent: None, bindings: HashMap::new() };
        assert(e@.bindings =~= Map::empty());
        e
    }

    /// Makes a fresh environment inside `parent`. It starts without bindings
    /// of its own and sees those of `parent` and its ancestors, as they are at
    /// the time of each lookup.
    pub fn make_child(ctx: &mut Context, parent: EnvironmentRef) -> (r: EnvironmentRef)
        requires
            old(ctx).wf(),
            parent@ < old(ctx)@.frames.len(),
        ensures
            final(ctx).wf(),
            r@ == old(ctx)@.frames.len(),
            final(ctx)@ == old(ctx)@.with_frame(child(parent@)),
            final(ctx).budget() == old(ctx).budget(),
    {
        let e = Environment { parent: Some(parent), bindings: HashMap::new() };
        assert(e@.bindings =~= Map::empty());
        let r = EnvironmentRef { index: ctx.environments.len() };
        ctx.environments.push(e);
        assert(ctx@.frames =~= old(ctx)@.frames.push(child(parent@)));
        assert(ctx@.names =~= old(ctx)@.names);
        assert(ctx@.functions =~= old(ctx)@.functions);
        r
    }

    /// Binds `symbol` to `value` in this environment, in place of what it was
    /// bound to here before.
    pub fn define(&mut self, symbol: Symbol, value: Value)
        ensures
            final(self)@.parent == old(self)@.parent,
            final(self)@.bindings == old(self)@.bindings.insert(symbol@.id, value@),
    {
        self.bindings.insert(symbol.id, value);
        assert(self@.bindings =~= old(self)@.bindings.insert(symbol@.id, value@));
    }

    /// Looks `symbol` up from environment `env`: in `env` itself first, then
    /// in its parent, and so on outwards.
    pub fn lookup(ctx: &Context, env: EnvironmentRef, symbol: &Symbol) -> (r: Option<Value>)
        ensures
            match r {
                Some(v) => lookup(ctx@.frames, env@, symbol@.id) == Some(v@),
                None => lookup(ctx@.frames, env@, symbol@.id) is None,
            },
    {
        let mut at: usize = env.index;
        loop
            invariant
                lookup(ctx@.frames, env@, symbol@.id) == lookup(ctx@.frames, at as nat, symbol@.id),
            decreases at,
        {
            if at >= ctx.environments.len() {
                return None;
            }
            let frame = &ctx.environments[at];
            assert(ctx@.frames[at as int] == frame@);
            match frame.bindings.get(&symbol.id) {
                Some(v) => {
                    return Some(v.clone());
                },
                None => {},
            }
            match frame.parent {
                Some(p) => {
                    if p.index < at {
                        at = p.index;
                    } else {
                        return None;
                    }
                },
                None => {
                    return None;
                },
            }
        }
    }
}

} // verus!
