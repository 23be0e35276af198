use vstd::prelude::*;
use vstd::string::*;
use crate::term::{Args, Term, TermV, Var, is_args_nil};
use crate::subst::{Bindings, Env};

verus! {

/// The text of a term: a variable's name, or `name(arg1,arg2,...)`.
pub open spec fn term_text(t: TermV) -> Seq<char>
    decreases t,
{
    match t {
        TermV::Var(x) => x,
        TermV::App(f, args) => f + seq!['('] + args_text(args) + seq![')'],
    }
}

/// The texts of the terms of `ts`, separated by commas.
pub open spec fn args_text(ts: Seq<TermV>) -> Seq<char>
    decreases ts,
{
    if ts.len() == 0 {
        Seq::empty()
    } else if ts.len() == 1 {
        term_text(ts[0])
    } else {
        term_text(ts[0]) + seq![','] + args_text(ts.subrange(1, ts.len() as int))
    }
}

/// One line `x = t` for each binding, most recent first.
pub open spec fn env_text(env: Bindings) -> Seq<char>
    decreases env.len(),
{
    if env.len() == 0 {
        Seq::empty()
    } else {
        env[0].0 + seq![' ', '=', ' '] + term_text(env[0].1) + seq!['\n'] + env_text(env.drop_first())
    }
}

fn write_term(out: &mut String, t: &Term)
    ensures
        final(out)@ == old(out)@ + term_text(t@),
    decreases t,
{
    match t {
        Term::Var(v) => out.append(v.name.as_str()),
        Term::Func(f) => {
            proof {
                reveal_strlit("(");
                reveal_strlit(")");
            }
            out.append(f.name.as_str());
            out.append("(");
            write_args(out, &f.args);
            out.append(")");
            assert(final(out)@ =~= old(out)@ + term_text(t@));
        },
    }
}

fn write_args(out: &mut String, a: &Args)
    ensures
        final(out)@ == old(out)@ + args_text(a@),
    decreases a,
{
    match a {
        Args::Cons(t, rest) => {
            proof {
                reveal_strlit(",");
                assert(a@.subrange(1, a@.len() as int) =~= rest@);
            }
            write_term(out, t);
            if !is_args_nil(rest) {
                out.append(",");
            }
            write_args(out, rest);
            assert(final(out)@ =~= old(out)@ + args_text(a@));
        },
        Args::Nil => {
            assert(final(out)@ =~= old(out)@ + args_text(a@));
        },
    }
}

fn write_env(out: &mut String, env: &Env)
    ensures
        final(out)@ == old(out)@ + env_text(env@),
    decreases env@.len(),
{
    match env {
        Env::ConsEq(x, t, rest) => {
            proof {
                reveal_strlit(" = ");
                reveal_strlit("\n");
                assert(env@.drop_first() =~= rest@);
            }
            out.append(x.name.as_str());
            out.append(" = ");
            write_term(out, t);
            out.append("\n");
            write_env(out, &**rest);
            assert(final(out)@ =~= old(out)@ + env_text(env@));
        },
        Env::Nil => {
            assert(final(out)@ =~= old(out)@ + env_text(env@));
        },
    }
}

/// The name of the variable.
pub fn render_var(v: &Var) -> (r: String)
    ensures
        r@ == v@,
{
    v.name.clone()
}

/// The text of the term, as `term_text` gives it.
pub fn render_term(t: &Term) -> (r: String)
    ensures
        r@ == term_text(t@),
{
    let mut out = String::new();
    write_term(&mut out, t);
    assert(out@ =~= term_text(t@));
    out
}

/// The text of the argument list, as `args_text` gives it.
pub fn render_args(a: &Args) -> (r: String)
    ensures
        r@ == args_text(a@),
{
    let mut out = String::new();
    write_args(&mut out, a);
    assert(out@ =~= args_text(a@));
    out
}

/// The text of the substitution, one line per binding, as `env_text` gives it.
pub fn render_env(env: &Env) -> (r: String)
    ensures
        r@ == env_text(env@),
{
    let mut out = String::new();
    write_env(&mut out, env);
    assert(out@ =~= env_text(env@));
    out
}

} // verus!
