use vstd::prelude::*;

verus! {

/// The mathematical value of a term: a variable named by its characters, or a
/// function symbol applied to an ordered sequence of argument terms.
pub enum TermV {
    Var(Seq<char>),
    App(Seq<char>, Seq<TermV>),
}

/// A variable, identified by its name alone.
pub struct Var {
    pub name: String,
}

/// A function symbol applied to its arguments.
pub struct Function {
    pub name: String,
    pub args: Args,
}

pub enum Term {
    Var(Var),
    Func(Function),
}

/// An ordered list of argument terms.
pub enum Args {
    Cons(Box<Term>, Box<Args>),
    Nil,
}

pub open spec fn term_view(t: &Term) -> TermV
    decreases t,
{
    match t {
        Term::Var(v) => TermV::Var(v.name@),
        Term::Func(f) => TermV::App(f.name@, args_view(&f.args)),
    }
}

pub open spec fn args_view(a: &Args) -> Seq<TermV>
    decreases a,
{
    match a {
        Args::Cons(t, rest) => seq![term_view(t)] + args_view(rest),
        Args::Nil => Seq::empty(),
    }
}

impl View for Var {
    type V = Seq<char>;

    open spec fn view(&self) -> Seq<char> {
        self.name@
    }
}

impl View for Term {
    type V = TermV;

    open spec fn view(&self) -> TermV {
        term_view(self)
    }
}

impl View for Args {
    type V = Seq<TermV>;

    open spec fn view(&self) -> Seq<TermV> {
        args_view(self)
    }
}

impl Var {
    pub fn new(name: String) -> (r: Var)
        ensures
            r@ == name@,
    {
        Var { name }
    }
}

impl Term {
    /// The term that is the variable of the given name.
    pub fn variable(name: String) -> (r: Term)
        ensures
            r@ == TermV::Var(name@),
    {
        Term::Var(Var { name })
    }

    /// The application of the symbol `name` to `args`, in order.
    pub fn application(name: String, args: Vec<Term>) -> (r: Term)
        ensures
            r@ == TermV::App(name@, args@.map_values(|t: Term| t@)),
    {
        Term::Func(Function { name, args: Args::from_vec(args) })
    }
}

impl Args {
    /// The argument list holding the terms of `v` in order.
    pub fn from_vec(v: Vec<Term>) -> (r: Args)
        ensures
            r@ == v@.map_values(|t: Term| t@),
    {
        let ghost all = v@.map_values(|t: Term| t@);
        let mut v = v;
        let mut acc = Args::Nil;
        while v.len() > 0
            invariant
                all.len() == v@.len() + acc@.len(),
                v@.map_values(|t: Term| t@) == all.subrange(0, v@.len() as int),
                acc@ == all.subrange(v@.len() as int, all.len() as int),
            decreases v.len(),
        {
            let ghost before = v@;
            let t = v.pop().unwrap();
            proof {
                assert(before == v@.push(t));
                assert(v@.map_values(|t: Term| t@) =~= all.subrange(0, v@.len() as int));
                assert(before[v@.len() as int] == t);
                assert(before.map_values(|t: Term| t@)[v@.len() as int] == t@);
                assert(all[v@.len() as int] == t@);
            }
            acc = Args::Cons(Box::new(t), Box::new(acc));
            proof {
                assert(acc@ =~= all.subrange(v@.len() as int, all.len() as int));
            }
        }
        proof {
            assert(acc@ =~= all);
        }
        acc
    }
}

pub fn is_args_nil(args: &Args) -> (r: bool)
    ensures
        r == (args@.len() == 0),
{
    match args {
        Args::Cons(_, _) => false,
        Args::Nil => true,
    }
}

/// The number of arguments in the list.
pub fn arglen(args: &Args) -> (r: u32)
    requires
        args@.len() <= u32::MAX,
    ensures
        r == args@.len(),
    decreases args,
{
    match args {
        Args::Cons(_, rest) => 1 + arglen(rest),
        Args::Nil => 0,
    }
}

/// Whether the two lists hold equally many arguments.
pub fn same_arity(a: &Args, b: &Args) -> (r: bool)
    ensures
        r == (a@.len() == b@.len()),
    decreases a,
{
    match a {
        Args::Cons(_, a_rest) => match b {
            Args::Cons(_, b_rest) => same_arity(a_rest, b_rest),
            Args::Nil => false,
        },
        Args::Nil => is_args_nil(b),
    }
}

/// Whether the two variables are the same: variables are equal by name.
pub fn var_eq(x: &Var, y: &Var) -> (r: bool)
    ensures
        r == (x@ == y@),
{
    x.name == y.name
}

pub fn copy_var(v: &Var) -> (r: Var)
    ensures
        r@ == v@,
{
    Var { name: v.name.clone() }
}

/// A deep copy of the term.
pub fn copy_term(t: &Term) -> (r: Term)
    ensures
        r@ == t@,
    decreases t,
{
    match t {
        Term::Var(v) => Term::Var(copy_var(v)),
        Term::Func(f) => Term::Func(Function { name: f.name.clone(), args: copy_args(&f.args) }),
    }
}

/// A deep copy of the argument list.
pub fn copy_args(a: &Args) -> (r: Args)
    ensures
        r@ == a@,
    decreases a,
{
    match a {
        Args::Cons(t, rest) => Args::Cons(Box::new(copy_term(t)), Box::new(copy_args(rest))),
        Args::Nil => Args::Nil,
    }
}

} // verus!
