//! What a name stands for while checking: a variable of some type, or a
//! function with its return and parameter types.
use vstd::prelude::*;
use std::collections::HashMap;
use beans::span::Span;
use crate::ast::Ident;
use crate::types::PartialType;

verus! {

broadcast use vstd::std_specs::hash::group_hash_axioms;

pub enum Binding {
    Var(PartialType),
    Fun((PartialType, Vec<PartialType>)),
}

pub enum BindingV {
    Var(PartialType),
    Fun(PartialType, Seq<PartialType>),
}

impl View for Binding {
    type V = BindingV;

    open spec fn view(&self) -> BindingV {
        match *self {
            Binding::Var(t) => BindingV::Var(t),
            Binding::Fun(f) => BindingV::Fun(f.0, f.1@),
        }
    }
}

/// Each name in scope, with what it stands for and where it was defined
/// (built-in functions have no definition).
pub type EnvV = Map<Ident, (BindingV, Option<Span>)>;

/// The type of a variable in scope, if the name is one.
pub open spec fn var_lookup(env: EnvV, x: Ident) -> Option<PartialType> {
    if env.contains_key(x) {
        match env[x].0 {
            BindingV::Var(t) => Some(t),
            _ => None,
        }
    } else {
        None
    }
}

/// The return type, parameter types and definition of a function in
/// scope, if the name is one.
pub open spec fn fun_lookup(env: EnvV, x: Ident) -> Option<
    (PartialType, Seq<PartialType>, Option<Span>),
> {
    if env.contains_key(x) {
        match env[x].0 {
            BindingV::Fun(r, ps) => Some((r, ps, env[x].1)),
            _ => None,
        }
    } else {
        None
    }
}

/// What the name stood for, if anything.
pub open spec fn binding_of(env: EnvV, x: Ident) -> Option<BindingV> {
    if env.contains_key(x) {
        Some(env[x].0)
    } else {
        None
    }
}

/// The scope in which checking happens.
pub struct Environment {
    map: HashMap<Ident, (Binding, Option<Span>)>,
}

impl View for Environment {
    type V = EnvV;

    closed spec fn view(&self) -> EnvV {
        Map::new(
            |k: Ident| self.map@.contains_key(k),
            |k: Ident| (self.map@[k].0@, self.map@[k].1),
        )
    }
}

impl Environment {
    pub fn new() -> (e: Environment)
        ensures
            e@ == Map::<Ident, (BindingV, Option<Span>)>::empty(),
    {
        let e = Environment { map: HashMap::new() };
        assert(e@ =~= Map::<Ident, (BindingV, Option<Span>)>::empty());
        e
    }

    pub fn get(&self, k: Ident) -> (r: Option<&(Binding, Option<Span>)>)
        ensures
            match r {
                Some(v) => self@.contains_key(k) && self@[k] == (v.0@, v.1),
                None => !self@.contains_key(k),
            },
    {
        self.map.get(&k)
    }

    pub fn insert(&mut self, k: Ident, v: (Binding, Option<Span>))
        ensures
            final(self)@ == old(self)@.insert(k, (v.0@, v.1)),
    {
        let ghost vv = (v.0@, v.1);
        self.map.insert(k, v);
        assert(self@ =~= old(self)@.insert(k, vv));
    }

    pub fn remove(&mut self, k: Ident) -> (r: Option<(Binding, Option<Span>)>)
        ensures
            final(self)@ == old(self)@.remove(k),
            match r {
                Some(v) => old(self)@.contains_key(k) && old(self)@[k] == (v.0@, v.1),
                None => !old(self)@.contains_key(k),
            },
    {
        let r = self.map.remove(&k);
        assert(self@ =~= old(self)@.remove(k));
        r
    }
}

} // verus!
