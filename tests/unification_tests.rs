use std::rc::Rc;
use unification::render::{render_args, render_env, render_term, render_var};
use unification::subst::{enrich, extend, lookup, Env};
use unification::term::{arglen, copy_term, is_args_nil, same_arity, var_eq, Args, Term, Var};
use unification::unify::{fun_match, unify, unify_args};

fn v(name: &str) -> Term {
    Term::variable(name.to_string())
}

fn app(name: &str, args: Vec<Term>) -> Term {
    Term::application(name.to_string(), args)
}

fn var(name: &str) -> Var {
    Var::new(name.to_string())
}

fn bindings(env: &Env) -> String {
    render_env(env)
}

#[test]
fn reflexive_on_variable() {
    let t = v("X");
    let r = unify(&Env::empty(), &t, &t).expect("a term unifies with itself");
    assert_eq!(bindings(&r), "X = X\n");
    assert!(lookup(&var("X"), &r).is_none());
}

#[test]
fn reflexive_on_nested_term() {
    let t = app("f", vec![v("X"), app("g", vec![v("Y"), app("a", vec![])]), v("X")]);
    let r = unify(&Env::empty(), &t, &t).expect("a term unifies with itself");
    assert!(lookup(&var("X"), &r).is_none());
    assert!(lookup(&var("Y"), &r).is_none());
    assert_eq!(render_term(enrich(&r, &t)), render_term(&t));
}

#[test]
fn reflexive_on_constant_binds_nothing() {
    let t = app("c", vec![]);
    let r = unify(&Env::empty(), &t, &t).expect("a term unifies with itself");
    assert_eq!(bindings(&r), "");
}

#[test]
fn different_symbols_fail() {
    let t = app("f", vec![v("X")]);
    let s = app("g", vec![v("X")]);
    assert!(unify(&Env::empty(), &t, &s).is_none());
}

#[test]
fn different_arities_fail() {
    let t = app("f", vec![v("X")]);
    let s = app("f", vec![v("X"), v("Y")]);
    assert!(unify(&Env::empty(), &t, &s).is_none());
    let bound = extend(&Env::empty(), var("Z"), app("h", vec![]));
    assert!(unify(&bound, &t, &s).is_none());
}

#[test]
fn chase_through_intermediate_variable() {
    let nil = Env::empty();
    let e1 = extend(&nil, var("Y"), app("f", vec![v("Z")]));
    let env = extend(&e1, var("X"), v("Y"));
    assert_eq!(bindings(&env), "X = Y\nY = f(Z)\n");
    let x = v("X");
    assert_eq!(render_term(enrich(&env, &x)), "f(Z)");
    let found = lookup(&var("X"), &env).expect("X is bound");
    assert_eq!(render_term(found), "f(Z)");
}

#[test]
fn most_recent_binding_shadows() {
    let nil = Env::empty();
    let e1 = extend(&nil, var("X"), app("g", vec![]));
    let env = extend(&e1, var("X"), app("f", vec![]));
    let found = lookup(&var("X"), &env).expect("X is bound");
    assert_eq!(render_term(found), "f()");
}

#[test]
fn extension_leaves_base_intact() {
    let nil = Env::empty();
    let env = extend(&nil, var("X"), app("a", vec![]));
    let before_x = lookup(&var("X"), &env).map(render_term);
    let before_y = lookup(&var("Y"), &env).map(render_term);
    let env2 = extend(&env, var("X"), app("b", vec![]));
    let env3 = extend(&env, var("Y"), app("c", vec![]));
    assert_eq!(lookup(&var("X"), &env).map(render_term), before_x);
    assert_eq!(lookup(&var("Y"), &env).map(render_term), before_y);
    assert_eq!(before_x, Some("a()".to_string()));
    assert_eq!(before_y, None);
    assert_eq!(render_term(lookup(&var("X"), &env2).unwrap()), "b()");
    assert_eq!(render_term(lookup(&var("Y"), &env3).unwrap()), "c()");
    assert_eq!(bindings(&env), "X = a()\n");
}

#[test]
fn argument_length_mismatch_fails() {
    let one = Args::from_vec(vec![v("T")]);
    let two = Args::from_vec(vec![v("T"), app("u", vec![])]);
    assert!(unify_args(&Env::empty(), &one, &two).is_none());
    let one_app = Args::from_vec(vec![app("k", vec![v("Q")])]);
    let two_app = Args::from_vec(vec![app("k", vec![v("Q")]), v("R")]);
    assert!(unify_args(&Env::empty(), &one_app, &two_app).is_none());
    assert!(unify_args(&Env::empty(), &two_app, &one_app).is_none());
}

#[test]
fn empty_argument_lists_unify_unchanged() {
    let env = extend(&Env::empty(), var("X"), v("Y"));
    let r = unify_args(&env, &Args::Nil, &Args::Nil).expect("empty lists unify");
    assert_eq!(bindings(&r), "X = Y\n");
}

#[test]
fn flex_flex_binds_left_variable() {
    let t = app("f", vec![v("X")]);
    let s = app("f", vec![v("Y")]);
    let r = unify(&Env::empty(), &t, &s).expect("f(X) and f(Y) unify");
    assert_eq!(bindings(&r), "X = Y\n");
}

#[test]
fn different_names_with_variables_fail() {
    let t = app("f", vec![v("X")]);
    let s = app("g", vec![v("Y")]);
    assert!(unify(&Env::empty(), &t, &s).is_none());
}

#[test]
fn earlier_bindings_seen_by_later_arguments() {
    let t = app("f", vec![v("X"), v("X")]);
    let s = app("f", vec![app("a", vec![]), app("b", vec![])]);
    assert!(unify(&Env::empty(), &t, &s).is_none());
    let s2 = app("f", vec![app("a", vec![]), app("a", vec![])]);
    let r = unify(&Env::empty(), &t, &s2).expect("f(X,X) and f(a(),a()) unify");
    assert_eq!(bindings(&r), "X = a()\n");
}

#[test]
fn flex_rigid_binds_variable() {
    let r = unify(&Env::empty(), &v("X"), &app("g", vec![v("Z")])).unwrap();
    assert_eq!(bindings(&r), "X = g(Z)\n");
}

#[test]
fn rigid_flex_binds_variable() {
    let r = unify(&Env::empty(), &app("g", vec![v("Z")]), &v("X")).unwrap();
    assert_eq!(bindings(&r), "X = g(Z)\n");
}

#[test]
fn bound_variable_is_enriched_before_unifying() {
    let env = extend(&Env::empty(), var("X"), app("a", vec![]));
    assert!(unify(&env, &v("X"), &app("b", vec![])).is_none());
    let r = unify(&env, &v("X"), &v("Y")).unwrap();
    assert_eq!(bindings(&r), "Y = a()\nX = a()\n");
}

#[test]
fn variable_bound_to_unbound_variable_is_not_chased_to_it() {
    let env = extend(&Env::empty(), var("X"), v("Y"));
    let x = v("X");
    assert_eq!(render_term(enrich(&env, &x)), "X");
    assert!(lookup(&var("X"), &env).is_none());
}

#[test]
fn nested_arguments_thread_bindings() {
    let t = app("p", vec![v("X"), app("q", vec![v("Y")])]);
    let s = app("p", vec![app("c", vec![]), app("q", vec![v("X")])]);
    let r = unify(&Env::empty(), &t, &s).unwrap();
    assert_eq!(bindings(&r), "Y = c()\nX = c()\n");
}

#[test]
fn render_forms() {
    let t = app("f", vec![v("X"), app("g", vec![]), app("h", vec![v("Y"), v("Z")])]);
    assert_eq!(render_term(&t), "f(X,g(),h(Y,Z))");
    assert_eq!(render_term(&v("W")), "W");
    assert_eq!(render_var(&var("W")), "W");
    assert_eq!(render_args(&Args::from_vec(vec![v("A"), v("B")])), "A,B");
    assert_eq!(render_args(&Args::Nil), "");
    assert_eq!(render_env(&Env::Nil), "");
}

#[test]
fn argument_list_helpers() {
    let a = Args::from_vec(vec![v("A"), v("B"), v("C")]);
    assert_eq!(arglen(&a), 3);
    assert_eq!(arglen(&Args::Nil), 0);
    assert!(!is_args_nil(&a));
    assert!(is_args_nil(&Args::Nil));
    assert!(same_arity(&a, &Args::from_vec(vec![v("X"), v("Y"), v("Z")])));
    assert!(!same_arity(&a, &Args::from_vec(vec![v("X")])));
}

#[test]
fn function_match_needs_name_and_arity() {
    let pick = |t: Term| match t {
        Term::Func(f) => f,
        Term::Var(_) => panic!("not an application"),
    };
    let f1 = pick(app("f", vec![v("X")]));
    let f2 = pick(app("f", vec![v("Y")]));
    let g1 = pick(app("g", vec![v("X")]));
    let f0 = pick(app("f", vec![]));
    assert!(fun_match(&f1, &f2));
    assert!(!fun_match(&f1, &g1));
    assert!(!fun_match(&f1, &f0));
}

#[test]
fn copy_is_equal_in_text() {
    let t = app("f", vec![v("X"), app("g", vec![v("Y")])]);
    assert_eq!(render_term(&copy_term(&t)), "f(X,g(Y))");
}

#[test]
fn shared_base_supports_two_extensions() {
    let base = extend(&Env::empty(), var("X"), app("a", vec![]));
    let left = unify(&base, &v("Y"), &app("b", vec![])).unwrap();
    let right = unify(&base, &v("Y"), &app("c", vec![])).unwrap();
    assert_eq!(bindings(&left), "Y = b()\nX = a()\n");
    assert_eq!(bindings(&right), "Y = c()\nX = a()\n");
    assert_eq!(bindings(&base), "X = a()\n");
    assert_eq!(Rc::strong_count(&base), 3);
}

#[test]
fn variables_equal_by_name() {
    assert!(var_eq(&var("X"), &var("X")));
    assert!(!var_eq(&var("X"), &var("Y")));
}
