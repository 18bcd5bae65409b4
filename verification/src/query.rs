//! The parsed query: variables, patterns, predicates and compound clauses.

use vstd::prelude::*;
use crate::value_types::TypedValue;

verus! {

/// A query variable such as `?x`. Two variables are the same when their names are.
#[derive(Clone, Debug, PartialEq, Eq)]
pub struct Variable {
    pub name: String,
}

impl Variable {
    pub fn from_valid_name(name: &str) -> (r: Variable)
        ensures
            r.name@ == name@,
    {
        Variable { name: name.to_owned() }
    }

    /// A copy that is equal to the variable.
    pub fn duplicate(&self) -> (r: Variable)
        ensures
            r == *self,
    {
        Variable { name: self.name.clone() }
    }

    pub fn same(&self, other: &Variable) -> (r: bool)
        ensures
            r == (self.name@ == other.name@),
    {
        self.name == other.name
    }

    /// The variable's name as text.
    pub fn name(&self) -> (r: String)
        ensures
            r == self.name,
    {
        self.name.clone()
    }
}

/// Some variable of `vars` has the name `name`.
pub open spec fn mentions(vars: Seq<Variable>, name: Seq<char>) -> bool {
    exists|i: int| 0 <= i < vars.len() && (#[trigger] vars[i]).name@ == name
}

/// No name occurs twice.
pub open spec fn distinct_names(vars: Seq<Variable>) -> bool {
    forall|i: int, j: int|
        0 <= i < j < vars.len() ==> (#[trigger] vars[i]).name@ != (#[trigger] vars[j]).name@
}

/// Whether `vars` holds a variable of the same name.
pub fn contains_variable(vars: &Vec<Variable>, var: &Variable) -> (r: bool)
    ensures
        r == mentions(vars@, var.name@),
{
    let mut i: usize = 0;
    while i < vars.len()
        invariant
            i <= vars.len(),
            forall|j: int| 0 <= j < i ==> (#[trigger] vars@[j]).name@ != var.name@,
        decreases vars.len() - i,
    {
        if vars[i].same(var) {
            return true;
        }
        i = i + 1;
    }
    false
}

/// Adds `var` to `vars` unless a variable of that name is there already.
pub fn add_variable(vars: &mut Vec<Variable>, var: &Variable)
    ensures
        final(vars)@ == (if mentions(old(vars)@, var.name@) {
            old(vars)@
        } else {
            old(vars)@.push(*var)
        }),
        distinct_names(old(vars)@) ==> distinct_names(final(vars)@),
{
    if !contains_variable(vars, var) {
        vars.push(var.duplicate());
    }
}

/// A place in a pattern that cannot hold a value: entity, attribute or transaction.
#[derive(Clone, Debug, PartialEq, Eq)]
pub enum PatternNonValuePlace {
    Placeholder,
    Variable(Variable),
    Entid(i64),
    Ident(String),
}

/// The value place of a pattern.
#[derive(Clone, Debug, PartialEq, Eq)]
pub enum PatternValuePlace {
    Placeholder,
    Variable(Variable),
    EntidOrInteger(i64),
    Constant(TypedValue),
}

/// `[e a v tx]`.
#[derive(Clone, Debug, PartialEq, Eq)]
pub struct Pattern {
    pub entity: PatternNonValuePlace,
    pub attribute: PatternNonValuePlace,
    pub value: PatternValuePlace,
    pub tx: PatternNonValuePlace,
}

impl Pattern {
    pub fn new(
        entity: PatternNonValuePlace,
        attribute: PatternNonValuePlace,
        value: PatternValuePlace,
    ) -> (r: Pattern)
        ensures
            r == (Pattern { entity, attribute, value, tx: PatternNonValuePlace::Placeholder }),
    {
        Pattern { entity, attribute, value, tx: PatternNonValuePlace::Placeholder }
    }
}

/// An argument of a predicate or a function.
#[derive(Clone, Debug, PartialEq, Eq)]
pub enum FnArg {
    Variable(Variable),
    Constant(TypedValue),
}

/// `[(op arg ...)]`.
#[derive(Clone, Debug, PartialEq, Eq)]
pub struct Predicate {
    pub operator: String,
    pub args: Vec<FnArg>,
}

/// `[(f arg ...) ?binding]`.
#[derive(Clone, Debug, PartialEq, Eq)]
pub struct WhereFn {
    pub operator: String,
    pub args: Vec<FnArg>,
    pub binding: Variable,
}

/// Which variables a compound clause shares with its surroundings.
#[derive(Clone, Debug, PartialEq, Eq)]
pub enum UnifyVars {
    /// Every variable that the clause mentions.
    Implicit,
    /// The listed variables.
    Explicit(Vec<Variable>),
}

/// `(not clause ...)` or `(not-join [vars] clause ...)`.
#[derive(Debug, PartialEq, Eq)]
pub struct NotJoin {
    pub unify_vars: UnifyVars,
    pub clauses: Vec<WhereClause>,
}

/// `(or pattern ...)` or `(or-join [vars] pattern ...)`.
#[derive(Clone, Debug, PartialEq, Eq)]
pub struct OrJoin {
    pub unify_vars: UnifyVars,
    pub clauses: Vec<Pattern>,
}

#[derive(Debug, PartialEq, Eq)]
pub enum WhereClause {
    Pattern(Pattern),
    Pred(Predicate),
    WhereFn(WhereFn),
    NotJoin(NotJoin),
    OrJoin(OrJoin),
}


/// `acc` with each variable of `more` that it does not hold yet added, in order.
pub open spec fn merged(acc: Seq<Variable>, more: Seq<Variable>, n: nat) -> Seq<Variable>
    decreases n,
{
    if n == 0 {
        acc
    } else {
        let a = merged(acc, more, (n - 1) as nat);
        if n <= more.len() && !mentions(a, more[n - 1].name@) {
            a.push(more[n - 1])
        } else {
            a
        }
    }
}

pub open spec fn place_variables(place: PatternNonValuePlace) -> Seq<Variable> {
    match place {
        PatternNonValuePlace::Variable(v) => seq![v],
        _ => Seq::empty(),
    }
}

pub open spec fn value_variables(place: PatternValuePlace) -> Seq<Variable> {
    match place {
        PatternValuePlace::Variable(v) => seq![v],
        _ => Seq::empty(),
    }
}

/// The variables of a pattern, as they are written: entity, attribute, value, transaction.
pub open spec fn pattern_variables(p: Pattern) -> Seq<Variable> {
    place_variables(p.entity) + place_variables(p.attribute) + value_variables(p.value)
        + place_variables(p.tx)
}

/// The variables among the first `n` arguments, as they are written.
pub open spec fn argument_variables(args: Seq<FnArg>, n: nat) -> Seq<Variable>
    decreases n,
{
    if n == 0 {
        Seq::empty()
    } else {
        let a = argument_variables(args, (n - 1) as nat);
        if n <= args.len() {
            match args[n - 1] {
                FnArg::Variable(v) => a.push(v),
                _ => a,
            }
        } else {
            a
        }
    }
}

/// The variables of the first `n` patterns, as they are written.
pub open spec fn patterns_variables(ps: Seq<Pattern>, n: nat) -> Seq<Variable>
    decreases n,
{
    if n == 0 {
        Seq::empty()
    } else if n <= ps.len() {
        patterns_variables(ps, (n - 1) as nat) + pattern_variables(ps[n - 1])
    } else {
        patterns_variables(ps, (n - 1) as nat)
    }
}

/// The variables that a clause mentions, as they are written, those of
/// nested clauses included.
pub open spec fn clause_variables(c: WhereClause) -> Seq<Variable>
    decreases c, 0nat,
{
    match c {
        WhereClause::Pattern(p) => pattern_variables(p),
        WhereClause::Pred(p) => argument_variables(p.args@, p.args@.len()),
        WhereClause::WhereFn(f) => argument_variables(f.args@, f.args@.len()).push(f.binding),
        WhereClause::NotJoin(n) => clauses_variables(n.clauses, n.clauses@.len()),
        WhereClause::OrJoin(o) => patterns_variables(o.clauses@, o.clauses@.len()),
    }
}

/// The variables that the first `n` clauses mention, as they are written.
pub open spec fn clauses_variables(cs: Vec<WhereClause>, n: nat) -> Seq<Variable>
    decreases cs, n,
{
    if n == 0 {
        Seq::empty()
    } else if n <= cs@.len() {
        clauses_variables(cs, (n - 1) as nat) + clause_variables(cs@[n - 1])
    } else {
        clauses_variables(cs, (n - 1) as nat)
    }
}

/// The variables in `written`, each once, in the order of first mention.
pub open spec fn each_once(written: Seq<Variable>) -> Seq<Variable> {
    merged(Seq::empty(), written, written.len())
}

/// Adds to `acc` each variable of `more` that it does not hold yet.
pub fn merge_variables(acc: &mut Vec<Variable>, more: &Vec<Variable>)
    ensures
        final(acc)@ == merged(old(acc)@, more@, more@.len()),
{
    let mut i: usize = 0;
    while i < more.len()
        invariant
            i <= more.len(),
            acc@ == merged(old(acc)@, more@, i as nat),
        decreases more.len() - i,
    {
        add_variable(acc, &more[i]);
        i = i + 1;
    }
}

fn push_place(out: &mut Vec<Variable>, place: &PatternNonValuePlace)
    ensures
        final(out)@ == old(out)@ + place_variables(*place),
{
    match place {
        PatternNonValuePlace::Variable(v) => {
            out.push(v.duplicate());
            assert(out@ =~= old(out)@ + place_variables(*place));
        },
        _ => {
            assert(out@ =~= old(out)@ + place_variables(*place));
        },
    }
}

fn push_pattern(out: &mut Vec<Variable>, p: &Pattern)
    ensures
        final(out)@ == old(out)@ + pattern_variables(*p),
{
    push_place(out, &p.entity);
    push_place(out, &p.attribute);
    match &p.value {
        PatternValuePlace::Variable(v) => {
            out.push(v.duplicate());
        },
        _ => {},
    }
    push_place(out, &p.tx);
    assert(out@ =~= old(out)@ + pattern_variables(*p));
}

fn push_arguments(out: &mut Vec<Variable>, args: &Vec<FnArg>)
    ensures
        final(out)@ == old(out)@ + argument_variables(args@, args@.len()),
{
    let mut i: usize = 0;
    assert(out@ =~= old(out)@ + argument_variables(args@, 0));
    while i < args.len()
        invariant
            i <= args.len(),
            out@ == old(out)@ + argument_variables(args@, i as nat),
        decreases args.len() - i,
    {
        match &args[i] {
            FnArg::Variable(v) => {
                out.push(v.duplicate());
            },
            _ => {},
        }
        i = i + 1;
        assert(out@ =~= old(out)@ + argument_variables(args@, i as nat));
    }
}

fn push_clause(out: &mut Vec<Variable>, c: &WhereClause)
    ensures
        final(out)@ == old(out)@ + clause_variables(*c),
    decreases c, 0nat,
{
    match c {
        WhereClause::Pattern(p) => {
            push_pattern(out, p);
        },
        WhereClause::Pred(p) => {
            push_arguments(out, &p.args);
        },
        WhereClause::WhereFn(f) => {
            push_arguments(out, &f.args);
            out.push(f.binding.duplicate());
            assert(out@ =~= old(out)@ + clause_variables(*c));
        },
        WhereClause::NotJoin(n) => {
            push_clauses(out, &n.clauses);
        },
        WhereClause::OrJoin(o) => {
            let mut i: usize = 0;
            assert(out@ =~= old(out)@ + patterns_variables(o.clauses@, 0));
            while i < o.clauses.len()
                invariant
                    i <= o.clauses.len(),
                    out@ == old(out)@ + patterns_variables(o.clauses@, i as nat),
                decreases o.clauses.len() - i,
            {
                push_pattern(out, &o.clauses[i]);
                i = i + 1;
                assert(out@ =~= old(out)@ + patterns_variables(o.clauses@, i as nat));
            }
        },
    }
}

fn push_clauses(out: &mut Vec<Variable>, cs: &Vec<WhereClause>)
    ensures
        final(out)@ == old(out)@ + clauses_variables(*cs, cs@.len()),
    decreases cs, cs@.len(),
{
    let mut i: usize = 0;
    assert(out@ =~= old(out)@ + clauses_variables(*cs, 0));
    while i < cs.len()
        invariant
            i <= cs.len(),
            out@ == old(out)@ + clauses_variables(*cs, i as nat),
        decreases cs.len() - i,
    {
        push_clause(out, &cs[i]);
        i = i + 1;
        assert(out@ =~= old(out)@ + clauses_variables(*cs, i as nat));
    }
}

impl NotJoin {
    /// The variables that the clauses of the negation mention, each once, in
    /// the order of first mention.
    pub open spec fn mentioned(self) -> Seq<Variable> {
        each_once(clauses_variables(self.clauses, self.clauses@.len()))
    }

    /// The variables that the negation shares with the clauses around it.
    pub open spec fn unified(self) -> Seq<Variable> {
        match self.unify_vars {
            UnifyVars::Implicit => self.mentioned(),
            UnifyVars::Explicit(vs) => each_once(vs@),
        }
    }

    pub fn collect_mentioned_variables(&self) -> (r: Vec<Variable>)
        ensures
            r@ == self.mentioned(),
    {
        let mut written: Vec<Variable> = Vec::new();
        push_clauses(&mut written, &self.clauses);
        assert(written@ =~= clauses_variables(self.clauses, self.clauses@.len()));
        let mut out: Vec<Variable> = Vec::new();
        merge_variables(&mut out, &written);
        out
    }

    pub fn unification_set(&self) -> (r: Vec<Variable>)
        ensures
            r@ == self.unified(),
    {
        match &self.unify_vars {
            UnifyVars::Implicit => self.collect_mentioned_variables(),
            UnifyVars::Explicit(vs) => {
                let mut out: Vec<Variable> = Vec::new();
                merge_variables(&mut out, vs);
                out
            },
        }
    }
}

impl OrJoin {
    /// The variables that the alternation shares with the clauses around it:
    /// those listed, or else those that its patterns mention, each once.
    pub open spec fn unified(self) -> Seq<Variable> {
        match self.unify_vars {
            UnifyVars::Implicit => each_once(
                patterns_variables(self.clauses@, self.clauses@.len()),
            ),
            UnifyVars::Explicit(vs) => each_once(vs@),
        }
    }

    pub fn unification_set(&self) -> (r: Vec<Variable>)
        ensures
            r@ == self.unified(),
    {
        let mut out: Vec<Variable> = Vec::new();
        match &self.unify_vars {
            UnifyVars::Implicit => {
                let mut written: Vec<Variable> = Vec::new();
                let mut i: usize = 0;
                assert(written@ =~= patterns_variables(self.clauses@, 0));
                while i < self.clauses.len()
                    invariant
                        i <= self.clauses.len(),
                        written@ == patterns_variables(self.clauses@, i as nat),
                    decreases self.clauses.len() - i,
                {
                    push_pattern(&mut written, &self.clauses[i]);
                    i = i + 1;
                }
                merge_variables(&mut out, &written);
            },
            UnifyVars::Explicit(vs) => {
                merge_variables(&mut out, vs);
            },
        }
        out
    }
}

/// Every variable of `a` is among `b`.
pub open spec fn all_among(a: Seq<Variable>, b: Seq<Variable>) -> bool {
    forall|i: int| 0 <= i < a.len() ==> mentions(b, (#[trigger] a[i]).name@)
}

/// Whether every variable of `a` is among `b`.
pub fn variables_among(a: &Vec<Variable>, b: &Vec<Variable>) -> (r: bool)
    ensures
        r == all_among(a@, b@),
{
    let mut i: usize = 0;
    while i < a.len()
        invariant
            i <= a.len(),
            forall|j: int| 0 <= j < i ==> mentions(b@, (#[trigger] a@[j]).name@),
        decreases a.len() - i,
    {
        if !contains_variable(b, &a[i]) {
            return false;
        }
        i = i + 1;
    }
    true
}

/// The variables that a pattern mentions, as they are written.
pub fn variables_of_pattern(p: &Pattern) -> (r: Vec<Variable>)
    ensures
        r@ == pattern_variables(*p),
{
    let mut out: Vec<Variable> = Vec::new();
    push_pattern(&mut out, p);
    assert(out@ =~= pattern_variables(*p));
    out
}

} // verus!
