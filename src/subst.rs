use vstd::prelude::*;
use std::rc::Rc;
use crate::term::{Term, TermV, Var, var_eq};

verus! {

/// The mathematical value of a substitution: its bindings, most recent first.
pub type Bindings = Seq<(Seq<char>, TermV)>;

/// A substitution: a persistent list of bindings, most recent first. Each
/// binding holds its older tail through a shared pointer, so extending a
/// substitution leaves it intact and shares it with the extension.
pub enum Env {
    ConsEq(Var, Term, Rc<Env>),
    Nil,
}

pub open spec fn env_view(e: &Env) -> Bindings
    decreases e,
{
    match e {
        Env::ConsEq(x, t, rest) => seq![(x.name@, t@)] + env_view(&**rest),
        Env::Nil => Seq::empty(),
    }
}

impl View for Env {
    type V = Bindings;

    open spec fn view(&self) -> Bindings {
        env_view(self)
    }
}

/// `env` with the binding `x ↦ v` put in front of all others.
pub open spec fn extended(env: Bindings, x: Seq<char>, v: TermV) -> Bindings {
    seq![(x, v)] + env
}

/// What `x` is bound to in `env`: the first binding of `x` decides; where it
/// binds `x` to a variable `y`, the search goes on for `y` in the bindings
/// older than it; where it binds `x` to an application, that is the answer.
pub open spec fn lookup_in(x: Seq<char>, env: Bindings) -> Option<TermV>
    decreases env.len(),
{
    if env.len() == 0 {
        None
    } else if env[0].0 == x {
        match env[0].1 {
            TermV::Var(y) => lookup_in(y, env.drop_first()),
            TermV::App(f, a) => Some(TermV::App(f, a)),
        }
    } else {
        lookup_in(x, env.drop_first())
    }
}

/// The term `t` with a bound variable at its top replaced by what it is bound to.
pub open spec fn enriched(env: Bindings, t: TermV) -> TermV {
    match t {
        TermV::Var(x) => match lookup_in(x, env) {
            Some(u) => u,
            None => t,
        },
        TermV::App(_, _) => t,
    }
}

/// The value of a term that may have been found.
pub open spec fn found_view(r: Option<&Term>) -> Option<TermV> {
    match r {
        Some(t) => Some(t@),
        None => None,
    }
}

impl Env {
    /// The empty substitution.
    pub fn empty() -> (r: Rc<Env>)
        ensures
            r@ == Seq::<(Seq<char>, TermV)>::empty(),
    {
        Rc::new(Env::Nil)
    }
}

/// Binds `x` to `v` in front of `env`; `env` itself is shared, not changed.
pub fn extend(env: &Rc<Env>, x: Var, v: Term) -> (r: Rc<Env>)
    ensures
        r@ == extended(env@, x@, v@),
{
    Rc::new(Env::ConsEq(x, v, env.clone()))
}

/// The application that `x` is bound to in `env`, chasing bindings of
/// variables to variables; `None` where there is none.
pub fn lookup<'a>(x: &Var, env: &'a Env) -> (r: Option<&'a Term>)
    ensures
        found_view(r) == lookup_in(x@, env@),
    decreases env@.len(),
{
    match env {
        Env::ConsEq(y, v, rest) => {
            proof {
                assert(env@.drop_first() =~= rest@);
            }
            if var_eq(x, y) {
                match v {
                    Term::Var(z) => lookup(z, &**rest),
                    Term::Func(_) => Some(v),
                }
            } else {
                lookup(x, &**rest)
            }
        },
        Env::Nil => None,
    }
}

/// The term `t` made rigid at its top where `env` allows.
pub fn enrich<'a>(env: &'a Env, t: &'a Term) -> (r: &'a Term)
    ensures
        r@ == enriched(env@, t@),
{
    match t {
        Term::Var(x) => match lookup(x, env) {
            Some(u) => u,
            None => t,
        },
        Term::Func(_) => t,
    }
}

} // verus!
