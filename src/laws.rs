use vstd::prelude::*;
use crate::term::TermV;
use crate::subst::{Bindings, enriched, extended, lookup_in};
use crate::unify::{
    lemma_unify_args_result, lemma_unify_result, unify_args_halts, unify_args_result,
    unify_args_within, unify_halts, unify_result, unify_within,
};

verus! {

/// The nesting depth of a term: a variable has depth 1.
pub open spec fn depth(t: TermV) -> nat
    decreases t,
{
    match t {
        TermV::Var(_) => 1,
        TermV::App(_, args) => 1 + args_depth(args),
    }
}

/// The greatest depth among the terms of `ts`, 0 for none.
pub open spec fn args_depth(ts: Seq<TermV>) -> nat
    decreases ts,
{
    if ts.len() == 0 {
        0
    } else {
        let d = depth(ts[0]);
        let rest = args_depth(ts.subrange(1, ts.len() as int));
        if d >= rest {
            d
        } else {
            rest
        }
    }
}

/// Every binding of `env` binds a variable to itself.
pub open spec fn only_self_bindings(env: Bindings) -> bool {
    forall|i: int| 0 <= i < env.len() ==> #[trigger] env[i].1 == TermV::Var(env[i].0)
}

/// No variable is bound to anything in `env`: applying it changes no term.
pub open spec fn binds_nothing(env: Bindings) -> bool {
    forall|x: Seq<char>| #[trigger] lookup_in(x, env) is None
}

proof fn lemma_self_bindings_bind_nothing(x: Seq<char>, env: Bindings)
    requires
        only_self_bindings(env),
    ensures
        lookup_in(x, env) is None,
    decreases env.len(),
{
    if env.len() > 0 {
        let rest = env.drop_first();
        assert forall|i: int| 0 <= i < rest.len() implies #[trigger] rest[i].1 == TermV::Var(rest[i].0) by {
            assert(rest[i] == env[i + 1]);
        }
        assert(env[0].1 == TermV::Var(env[0].0));
        lemma_self_bindings_bind_nothing(x, rest);
        lemma_self_bindings_bind_nothing(env[0].0, rest);
    }
}

proof fn lemma_self_binding_kept(env: Bindings, x: Seq<char>)
    requires
        only_self_bindings(env),
    ensures
        only_self_bindings(extended(env, x, TermV::Var(x))),
{
    let e = extended(env, x, TermV::Var(x));
    assert forall|i: int| 0 <= i < e.len() implies #[trigger] e[i].1 == TermV::Var(e[i].0) by {
        if i > 0 {
            assert(e[i] == env[i - 1]);
        }
    }
}

proof fn lemma_self_unify(env: Bindings, t: TermV, fuel: nat)
    requires
        only_self_bindings(env),
        fuel >= depth(t),
    ensures
        unify_within(env, t, t, fuel) matches Some(Some(e)) && only_self_bindings(e),
    decreases t,
{
    if let TermV::Var(x) = t {
        lemma_self_bindings_bind_nothing(x, env);
        assert(enriched(env, t) == t);
        lemma_self_binding_kept(env, x);
    } else if let TermV::App(f, args) = t {
        lemma_self_unify_args(env, args, (fuel - 1) as nat);
    }
}

proof fn lemma_self_unify_args(env: Bindings, ts: Seq<TermV>, fuel: nat)
    requires
        only_self_bindings(env),
        fuel >= args_depth(ts),
    ensures
        unify_args_within(env, ts, ts, fuel) matches Some(Some(e)) && only_self_bindings(e),
    decreases ts,
{
    if ts.len() > 0 {
        let rest = ts.subrange(1, ts.len() as int);
        assert(rest == ts.drop_first());
        lemma_self_unify(env, ts[0], fuel);
        let e2 = unify_within(env, ts[0], ts[0], fuel)->0->0;
        lemma_self_unify_args(e2, rest, fuel);
    }
}

/// Every term unifies with itself under the empty substitution, and the
/// substitution produced binds no variable to anything, so that applying it
/// leaves every term, `t` among them, as it was.
pub proof fn lemma_unify_reflexive(t: TermV)
    ensures
        unify_halts(Seq::empty(), t, t),
        unify_result(Seq::empty(), t, t) matches Some(e) && binds_nothing(e),
{
    let nil = Seq::<(Seq<char>, TermV)>::empty();
    lemma_self_unify(nil, t, depth(t));
    lemma_unify_result(nil, t, t, depth(t));
    let e = unify_result(nil, t, t)->0;
    assert forall|x: Seq<char>| #[trigger] lookup_in(x, e) is None by {
        lemma_self_bindings_bind_nothing(x, e);
    }
}

/// Two applications whose symbols differ, or whose numbers of arguments
/// differ, do not unify, under any substitution.
pub proof fn lemma_symbol_clash(env: Bindings, f: Seq<char>, fa: Seq<TermV>, g: Seq<char>, ga: Seq<TermV>)
    requires
        f != g || fa.len() != ga.len(),
    ensures
        unify_halts(env, TermV::App(f, fa), TermV::App(g, ga)),
        unify_result(env, TermV::App(f, fa), TermV::App(g, ga)) is None,
{
    assert(unify_within(env, TermV::App(f, fa), TermV::App(g, ga), 1) == Some(None::<Bindings>));
    lemma_unify_result(env, TermV::App(f, fa), TermV::App(g, ga), 1);
}

/// Extending a substitution alters none of its bindings: they follow the new
/// one unchanged, and every other variable is looked up in the extension
/// exactly as it was in the substitution before.
pub proof fn lemma_extend_persistent(env: Bindings, x: Seq<char>, v: TermV, y: Seq<char>)
    requires
        y != x,
    ensures
        extended(env, x, v).drop_first() == env,
        lookup_in(y, extended(env, x, v)) == lookup_in(y, env),
{
    assert(extended(env, x, v).drop_first() =~= env);
}

proof fn lemma_length_mismatch_within(env: Bindings, ts: Seq<TermV>, ss: Seq<TermV>, fuel: nat)
    requires
        ts.len() != ss.len(),
    ensures
        !(unify_args_within(env, ts, ss, fuel) matches Some(Some(_))),
    decreases ts.len(),
{
    if ts.len() > 0 && ss.len() > 0 {
        if let Some(Some(env2)) = unify_within(env, ts[0], ss[0], fuel) {
            lemma_length_mismatch_within(env2, ts.drop_first(), ss.drop_first(), fuel);
        }
    }
}

/// Argument lists of different lengths never unify, whatever their terms.
pub proof fn lemma_unify_args_length_mismatch(env: Bindings, ts: Seq<TermV>, ss: Seq<TermV>)
    requires
        ts.len() != ss.len(),
        unify_args_halts(env, ts, ss),
    ensures
        unify_args_result(env, ts, ss) is None,
{
    let n = choose|n: nat| #[trigger] unify_args_within(env, ts, ss, n) is Some;
    lemma_length_mismatch_within(env, ts, ss, n);
}

/// Under the empty substitution, `[t1]` against `[t1, t2]` comes to an
/// answer, and it is failure, though `t1` unifies with itself.
pub proof fn lemma_one_against_two(t1: TermV, t2: TermV)
    ensures
        unify_args_halts(Seq::empty(), seq![t1], seq![t1, t2]),
        unify_args_result(Seq::empty(), seq![t1], seq![t1, t2]) is None,
{
    let nil = Seq::<(Seq<char>, TermV)>::empty();
    let ts = seq![t1];
    let ss = seq![t1, t2];
    lemma_self_unify(nil, t1, depth(t1));
    assert(ts[0] == t1 && ss[0] == t1);
    let e = unify_within(nil, t1, t1, depth(t1))->0->0;
    assert(ts.drop_first().len() == 0 && ss.drop_first().len() == 1);
    assert(unify_args_within(e, ts.drop_first(), ss.drop_first(), depth(t1)) == Some(None::<Bindings>));
    assert(unify_args_within(nil, ts, ss, depth(t1)) is Some);
    lemma_unify_args_result(nil, ts, ss, depth(t1));
}

/// `e` is `env` with zero or more bindings put in front of it.
pub open spec fn grows_from(e: Bindings, env: Bindings) -> bool {
    e.len() >= env.len() && e.subrange(e.len() - env.len(), e.len() as int) == env
}

proof fn lemma_grows_trans(a: Bindings, b: Bindings, c: Bindings)
    requires
        grows_from(a, b),
        grows_from(b, c),
    ensures
        grows_from(a, c),
{
    assert(a.subrange(a.len() - c.len(), a.len() as int) =~= b.subrange(b.len() - c.len(), b.len() as int));
}

proof fn lemma_unify_grows_within(env: Bindings, t: TermV, s: TermV, fuel: nat)
    ensures
        unify_within(env, t, s, fuel) matches Some(Some(e)) ==> grows_from(e, env),
    decreases fuel, 0nat,
{
    if fuel > 0 {
        let t2 = enriched(env, t);
        let s2 = enriched(env, s);
        match t2 {
            TermV::Var(x) => {
                assert(extended(env, x, s2).subrange(1, env.len() + 1 as int) =~= env);
            },
            TermV::App(f, fa) => match s2 {
                TermV::Var(y) => {
                    assert(extended(env, y, t2).subrange(1, env.len() + 1 as int) =~= env);
                },
                TermV::App(g, ga) => {
                    lemma_unify_args_grows_within(env, fa, ga, (fuel - 1) as nat);
                },
            },
        }
    }
}

proof fn lemma_unify_args_grows_within(env: Bindings, ts: Seq<TermV>, ss: Seq<TermV>, fuel: nat)
    ensures
        unify_args_within(env, ts, ss, fuel) matches Some(Some(e)) ==> grows_from(e, env),
    decreases fuel, (ts.len() + 1) as nat,
{
    if ts.len() == 0 {
        assert(env.subrange(0, env.len() as int) =~= env);
    } else if ss.len() > 0 {
        lemma_unify_grows_within(env, ts[0], ss[0], fuel);
        if let Some(Some(env2)) = unify_within(env, ts[0], ss[0], fuel) {
            lemma_unify_args_grows_within(env2, ts.drop_first(), ss.drop_first(), fuel);
            if let Some(Some(e)) = unify_args_within(env2, ts.drop_first(), ss.drop_first(), fuel) {
                lemma_grows_trans(e, env2, env);
            }
        }
    }
}

/// Unification only adds bindings: where it succeeds, the substitution it
/// returns holds the one it started from, unchanged, as its tail.
pub proof fn lemma_unify_grows(env: Bindings, t: TermV, s: TermV)
    requires
        unify_halts(env, t, s),
    ensures
        unify_result(env, t, s) matches Some(e) ==> grows_from(e, env),
{
    let n = choose|n: nat| #[trigger] unify_within(env, t, s, n) is Some;
    lemma_unify_grows_within(env, t, s, n);
}

/// Unification of argument lists only adds bindings, as unification of terms does.
pub proof fn lemma_unify_args_grows(env: Bindings, ts: Seq<TermV>, ss: Seq<TermV>)
    requires
        unify_args_halts(env, ts, ss),
    ensures
        unify_args_result(env, ts, ss) matches Some(e) ==> grows_from(e, env),
{
    let n = choose|n: nat| #[trigger] unify_args_within(env, ts, ss, n) is Some;
    lemma_unify_args_grows_within(env, ts, ss, n);
}

} // verus!
