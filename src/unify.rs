use vstd::prelude::*;
use std::rc::Rc;
use crate::term::{Args, Function, Term, TermV, copy_term, copy_var, same_arity};
use crate::subst::{Bindings, Env, enrich, enriched, extend, extended};

verus! {

/// Unification of `t` with `s` under `env`, run with at most `fuel` nested
/// levels of argument unification. `None`: the bound was reached before an
/// answer. `Some(None)`: the terms do not unify. `Some(Some(e))`: they unify,
/// and `e` is `env` extended with the bindings made.
pub open spec fn unify_within(env: Bindings, t: TermV, s: TermV, fuel: nat) -> Option<Option<Bindings>>
    decreases fuel, 0nat,
{
    if fuel == 0 {
        None
    } else {
        let t2 = enriched(env, t);
        let s2 = enriched(env, s);
        match t2 {
            TermV::Var(x) => Some(Some(extended(env, x, s2))),
            TermV::App(f, fa) => match s2 {
                TermV::Var(y) => Some(Some(extended(env, y, t2))),
                TermV::App(g, ga) => if f == g && fa.len() == ga.len() {
                    unify_args_within(env, fa, ga, (fuel - 1) as nat)
                } else {
                    Some(None)
                },
            },
        }
    }
}

/// Unification of two argument sequences, pair by pair from the left, each
/// pair under the bindings that the pairs before it made.
pub open spec fn unify_args_within(
    env: Bindings,
    ts: Seq<TermV>,
    ss: Seq<TermV>,
    fuel: nat,
) -> Option<Option<Bindings>>
    decreases fuel, (ts.len() + 1) as nat,
{
    if ts.len() == 0 {
        if ss.len() == 0 {
            Some(Some(env))
        } else {
            Some(None)
        }
    } else if ss.len() == 0 {
        Some(None)
    } else {
        match unify_within(env, ts[0], ss[0], fuel) {
            None => None,
            Some(None) => Some(None),
            Some(Some(env2)) => unify_args_within(env2, ts.drop_first(), ss.drop_first(), fuel),
        }
    }
}

/// Unification of `t` with `s` under `env` comes to an answer.
pub open spec fn unify_halts(env: Bindings, t: TermV, s: TermV) -> bool {
    exists|n: nat| #[trigger] unify_within(env, t, s, n) is Some
}

/// The answer of unifying `t` with `s` under `env`, where it comes to one.
pub open spec fn unify_result(env: Bindings, t: TermV, s: TermV) -> Option<Bindings> {
    unify_within(env, t, s, choose|n: nat| #[trigger] unify_within(env, t, s, n) is Some)->0
}

/// Unification of the two argument sequences under `env` comes to an answer.
pub open spec fn unify_args_halts(env: Bindings, ts: Seq<TermV>, ss: Seq<TermV>) -> bool {
    exists|n: nat| #[trigger] unify_args_within(env, ts, ss, n) is Some
}

/// The answer of unifying the two argument sequences under `env`, where it
/// comes to one.
pub open spec fn unify_args_result(env: Bindings, ts: Seq<TermV>, ss: Seq<TermV>) -> Option<Bindings> {
    unify_args_within(env, ts, ss, choose|n: nat| #[trigger] unify_args_within(env, ts, ss, n) is Some)->0
}

/// The value of a substitution that may have been produced.
pub open spec fn result_view(r: &Option<Rc<Env>>) -> Option<Bindings> {
    match r {
        Some(e) => Some(e@),
        None => None,
    }
}

/// More fuel does not change an answer once there is one.
pub proof fn lemma_unify_fuel_mono(env: Bindings, t: TermV, s: TermV, n: nat, m: nat)
    requires
        n <= m,
        unify_within(env, t, s, n) is Some,
    ensures
        unify_within(env, t, s, m) == unify_within(env, t, s, n),
    decreases n, 0nat,
{
    let t2 = enriched(env, t);
    let s2 = enriched(env, s);
    if let TermV::App(f, fa) = t2 {
        if let TermV::App(g, ga) = s2 {
            if f == g && fa.len() == ga.len() {
                lemma_unify_args_fuel_mono(env, fa, ga, (n - 1) as nat, (m - 1) as nat);
            }
        }
    }
}

/// More fuel does not change an answer on argument sequences once there is one.
pub proof fn lemma_unify_args_fuel_mono(env: Bindings, ts: Seq<TermV>, ss: Seq<TermV>, n: nat, m: nat)
    requires
        n <= m,
        unify_args_within(env, ts, ss, n) is Some,
    ensures
        unify_args_within(env, ts, ss, m) == unify_args_within(env, ts, ss, n),
    decreases n, (ts.len() + 1) as nat,
{
    if ts.len() > 0 && ss.len() > 0 {
        lemma_unify_fuel_mono(env, ts[0], ss[0], n, m);
        if let Some(Some(env2)) = unify_within(env, ts[0], ss[0], n) {
            lemma_unify_args_fuel_mono(env2, ts.drop_first(), ss.drop_first(), n, m);
        }
    }
}

/// An answer found with any fuel is the answer.
pub proof fn lemma_unify_result(env: Bindings, t: TermV, s: TermV, n: nat)
    requires
        unify_within(env, t, s, n) is Some,
    ensures
        unify_halts(env, t, s),
        unify_result(env, t, s) == unify_within(env, t, s, n)->0,
{
    let k = choose|k: nat| #[trigger] unify_within(env, t, s, k) is Some;
    if k <= n {
        lemma_unify_fuel_mono(env, t, s, k, n);
    } else {
        lemma_unify_fuel_mono(env, t, s, n, k);
    }
}

/// An answer on argument sequences found with any fuel is the answer.
pub proof fn lemma_unify_args_result(env: Bindings, ts: Seq<TermV>, ss: Seq<TermV>, n: nat)
    requires
        unify_args_within(env, ts, ss, n) is Some,
    ensures
        unify_args_halts(env, ts, ss),
        unify_args_result(env, ts, ss) == unify_args_within(env, ts, ss, n)->0,
{
    let k = choose|k: nat| #[trigger] unify_args_within(env, ts, ss, k) is Some;
    if k <= n {
        lemma_unify_args_fuel_mono(env, ts, ss, k, n);
    } else {
        lemma_unify_args_fuel_mono(env, ts, ss, n, k);
    }
}

/// Whether two applications have the same symbol and the same number of arguments.
pub fn fun_match(f: &Function, g: &Function) -> (r: bool)
    ensures
        r == (f.name@ == g.name@ && f.args@.len() == g.args@.len()),
{
    f.name == g.name && same_arity(&f.args, &g.args)
}

fn unify_rec(env: &Rc<Env>, t: &Term, s: &Term, Ghost(fuel): Ghost<nat>) -> (r: Option<Rc<Env>>)
    requires
        unify_within(env@, t@, s@, fuel) is Some,
    ensures
        result_view(&r) == unify_within(env@, t@, s@, fuel)->0,
    decreases fuel, 0nat,
{
    let e: &Env = &**env;
    let t2 = enrich(e, t);
    let s2 = enrich(e, s);
    match t2 {
        Term::Var(x) => Some(extend(env, copy_var(x), copy_term(s2))),
        Term::Func(f) => match s2 {
            Term::Var(y) => Some(extend(env, copy_var(y), copy_term(t2))),
            Term::Func(g) => if fun_match(f, g) {
                unify_args_rec(env, &f.args, &g.args, Ghost((fuel - 1) as nat))
            } else {
                None
            },
        },
    }
}

fn unify_args_rec(env: &Rc<Env>, ts: &Args, ss: &Args, Ghost(fuel): Ghost<nat>) -> (r: Option<Rc<Env>>)
    requires
        unify_args_within(env@, ts@, ss@, fuel) is Some,
    ensures
        result_view(&r) == unify_args_within(env@, ts@, ss@, fuel)->0,
    decreases fuel, (ts@.len() + 1) as nat,
{
    match ts {
        Args::Cons(t, t_tail) => match ss {
            Args::Cons(s, s_tail) => {
                proof {
                    assert(ts@.drop_first() =~= t_tail@);
                    assert(ss@.drop_first() =~= s_tail@);
                }
                match unify_rec(env, t, s, Ghost(fuel)) {
                    None => None,
                    Some(env2) => unify_args_rec(&env2, t_tail, s_tail, Ghost(fuel)),
                }
            },
            Args::Nil => None,
        },
        Args::Nil => match ss {
            Args::Cons(_, _) => None,
            Args::Nil => Some(env.clone()),
        },
    }
}

/// Unifies `t` with `s` under `env`: the substitution that extends `env` with
/// the bindings that make them equal, or `None` where they cannot be made
/// equal. Without an occurs check unification can run forever (a variable
/// bound to a term that holds it), so it is asked only where it halts.
pub fn unify(env: &Rc<Env>, t: &Term, s: &Term) -> (r: Option<Rc<Env>>)
    requires
        unify_halts(env@, t@, s@),
    ensures
        result_view(&r) == unify_result(env@, t@, s@),
{
    let ghost fuel = choose|n: nat| #[trigger] unify_within(env@, t@, s@, n) is Some;
    unify_rec(env, t, s, Ghost(fuel))
}

/// Unifies two argument lists position by position under `env`; lists of
/// different lengths do not unify.
pub fn unify_args(env: &Rc<Env>, targs: &Args, sargs: &Args) -> (r: Option<Rc<Env>>)
    requires
        unify_args_halts(env@, targs@, sargs@),
    ensures
        result_view(&r) == unify_args_result(env@, targs@, sargs@),
{
    let ghost fuel = choose|n: nat| #[trigger] unify_args_within(env@, targs@, sargs@, n) is Some;
    unify_args_rec(env, targs, sargs, Ghost(fuel))
}

} // verus!
