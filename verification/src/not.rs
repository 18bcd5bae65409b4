//! Negation: `(not ...)` and `(not-join [...] ...)`, and the dispatch of
//! clauses that negation needs for its own body.

use vstd::prelude::*;
use crate::bindings::{first_at, has_key, lemma_first_at, lemma_put, lookup, put, unique_keys};
use crate::clauses::{AliasCounters, CcModel, ConjoiningClauses};
use crate::query::{
    all_among, contains_variable, mentions, variables_among, NotJoin, Variable, WhereClause,
};
use crate::resolve::{lemma_pruned_unique, lemma_require_upto_wf};
use crate::or::alternates;
use crate::schema::Schema;
use crate::types::{AlgebrizerError, ColumnConstraint, ColumnConstraintOrAlternation, ComputedTable};
use crate::value_types::ValueTypeSet;

verus! {

/// Clauses that hold nothing but the counters.
pub open spec fn blank(counter: AliasCounters) -> CcModel {
    CcModel {
        empty: None,
        counter,
        from: Seq::empty(),
        computed: Seq::empty(),
        wheres: Seq::empty(),
        cols: Seq::empty(),
        inputs: Seq::empty(),
        values: Seq::empty(),
        known: Seq::empty(),
        extracted: Seq::empty(),
        required: Seq::empty(),
    }
}

/// `s` with the entry of `from` under `var` carried over, where there is one.
pub open spec fn carried<V>(s: Seq<(Variable, V)>, from: Seq<(Variable, V)>, var: Variable) -> Seq<
    (Variable, V),
> {
    match lookup(from, var.name@) {
        Some(x) => put(s, var, x),
        None => s,
    }
}

impl CcModel {
    /// Fresh clauses that share the counters with these and carry over what
    /// these say of the first `n` of `vars`: whether it is an input, its
    /// value, its known types and the column its type is read from.
    pub open spec fn template(self, vars: Seq<Variable>, n: nat) -> CcModel
        decreases n,
    {
        if n == 0 {
            blank(self.counter)
        } else {
            let t = self.template(vars, (n - 1) as nat);
            if n > vars.len() {
                t
            } else {
                let v = vars[n - 1];
                CcModel {
                    inputs: if mentions(self.inputs, v.name@) && !mentions(t.inputs, v.name@) {
                        t.inputs.push(v)
                    } else {
                        t.inputs
                    },
                    values: carried(t.values, self.values, v),
                    known: carried(t.known, self.known, v),
                    extracted: carried(t.extracted, self.extracted, v),
                    ..t
                }
            }
        }
    }

    /// The child `t` after the first `n` of `vars` have been tied to these
    /// clauses: a variable that has a value here has it in the template
    /// already, one that is bound to columns here is bound to the first of
    /// them in the child, and one that is neither is an error.
    pub open spec fn seed(self, t: CcModel, vars: Seq<Variable>, n: nat) -> Result<
        CcModel,
        AlgebrizerError,
    >
        decreases n,
    {
        if n == 0 {
            Ok(t)
        } else {
            match self.seed(t, vars, (n - 1) as nat) {
                Err(e) => Err(e),
                Ok(c) => if n > vars.len() {
                    Ok(c)
                } else if has_key(self.values, vars[n - 1].name@) {
                    Ok(c)
                } else {
                    match lookup(self.cols, vars[n - 1].name@) {
                        Some(column) => Ok(
                            CcModel { cols: put(c.cols, vars[n - 1], column), ..c },
                        ),
                        None => Err(AlgebrizerError::UnboundVariable(vars[n - 1].name)),
                    }
                },
            }
        }
    }

    /// The child of a negation over `vars`, before its clauses are applied.
    pub open spec fn child(self, vars: Seq<Variable>) -> Result<CcModel, AlgebrizerError> {
        self.seed(self.template(vars, vars.len()), vars, vars.len())
    }

    /// The three steps that close a set of clauses: the equalities between
    /// the columns of each variable, the pruning of type extractions, and
    /// the required types.
    pub open spec fn close(self) -> Result<CcModel, AlgebrizerError> {
        self.expand().prune().process_required()
    }

    /// What a negation whose body came out as these clauses constrains:
    /// nothing where the body is known empty or says nothing.
    pub open spec fn negation(self) -> Result<Option<CcModel>, AlgebrizerError> {
        if self.is_empty() {
            Ok(None)
        } else {
            match self.close() {
                Err(e) => Err(e),
                Ok(c) => if c.is_empty() || c.wheres.len() == 0 {
                    Ok(None)
                } else {
                    Ok(Some(c))
                },
            }
        }
    }

    /// These clauses with one more constraint: that `child` has no results.
    pub open spec fn excluding(self, child: ConjoiningClauses) -> CcModel {
        CcModel {
            wheres: self.wheres.push(
                ColumnConstraintOrAlternation::Constraint(
                    ColumnConstraint::NotExists(ComputedTable::Subquery(Box::new(child))),
                ),
            ),
            ..self
        }
    }
}

/// Where keys are unique, each entry is what a lookup of its key finds.
pub proof fn lemma_unique_lookup<V>(s: Seq<(Variable, V)>, i: int)
    requires
        unique_keys(s),
        0 <= i < s.len(),
    ensures
        lookup(s, s[i].0.name@) == Some(s[i].1),
{
    assert forall|j: int| 0 <= j < i implies (#[trigger] s[j]).0.name@ != s[i].0.name@ by {}
    assert(first_at(s, s[i].0.name@, i));
    lemma_first_at(s, s[i].0.name@, i);
}

/// A key that a lookup finds is the key of some entry that holds what was found.
pub proof fn lemma_lookup_entry<V>(s: Seq<(Variable, V)>, name: Seq<char>)
    requires
        has_key(s, name),
    ensures
        exists|i: int| 0 <= i < s.len() && (#[trigger] s[i]).0.name@ == name && lookup(s, name)
            == Some(s[i].1),
{
    crate::bindings::lemma_has_first(s, name);
    let k = crate::bindings::first_index(s, name);
    assert(s[k].0.name@ == name);
}

/// In a template every value has come from the parent, with its type.
pub open spec fn template_sound(parent: CcModel, t: CcModel) -> bool {
    &&& forall|nm: Seq<char>|
        has_key(t.values, nm) ==> #[trigger] lookup(t.values, nm) == lookup(parent.values, nm)
    &&& forall|nm: Seq<char>|
        has_key(parent.values, nm) && #[trigger] has_key(t.values, nm) ==> lookup(t.known, nm)
            == lookup(parent.known, nm)
}

/// The template of well-formed clauses that are not known empty is well
/// formed, holds no table, no constraint and no column binding, and shares
/// the counters.
pub proof fn lemma_template_wf(m: CcModel, vars: Seq<Variable>, n: nat)
    requires
        m.wf(),
        !m.is_empty(),
    ensures
        m.template(vars, n).wf(),
        template_sound(m, m.template(vars, n)),
        !m.template(vars, n).is_empty(),
        m.template(vars, n).from.len() == 0,
        m.template(vars, n).wheres.len() == 0,
        m.template(vars, n).cols.len() == 0,
        m.template(vars, n).required.len() == 0,
        m.template(vars, n).computed.len() == 0,
        m.template(vars, n).counter == m.counter,
    decreases n,
{
    let r = m.template(vars, n);
    if n > 0 {
        lemma_template_wf(m, vars, (n - 1) as nat);
        let t = m.template(vars, (n - 1) as nat);
        if n <= vars.len() {
            let v = vars[n - 1];
            match lookup(m.values, v.name@) {
                Some(x) => {
                    lemma_put(t.values, v, x);
                },
                None => {},
            }
            match lookup(m.known, v.name@) {
                Some(x) => {
                    lemma_put(t.known, v, x);
                },
                None => {},
            }
            match lookup(m.extracted, v.name@) {
                Some(x) => {
                    lemma_put(t.extracted, v, x);
                },
                None => {},
            }
            assert(template_sound(m, r)) by {
                assert forall|nm: Seq<char>| has_key(r.values, nm) implies #[trigger] lookup(
                    r.values,
                    nm,
                ) == lookup(m.values, nm) by {
                    if r.values == t.values {
                        assert(lookup(t.values, nm) == lookup(m.values, nm));
                    } else if nm != v.name@ {
                        assert(has_key(r.values, nm) == has_key(t.values, nm));
                        assert(lookup(r.values, nm) == lookup(t.values, nm));
                        assert(lookup(t.values, nm) == lookup(m.values, nm));
                    }
                }
                assert forall|nm: Seq<char>|
                    has_key(m.values, nm) && #[trigger] has_key(r.values, nm) implies lookup(
                    r.known,
                    nm,
                ) == lookup(m.known, nm) by {
                    if nm != v.name@ {
                        if r.values != t.values {
                            assert(has_key(r.values, nm) == has_key(t.values, nm));
                        }
                        assert(has_key(t.values, nm));
                        if r.known != t.known {
                            assert(lookup(r.known, nm) == lookup(t.known, nm));
                        }
                    } else {
                        lemma_lookup_entry(m.values, nm);
                        let i = choose|i: int|
                            0 <= i < m.values.len() && (#[trigger] m.values[i]).0.name@ == nm
                                && lookup(m.values, nm) == Some(m.values[i].1);
                        assert(lookup(m.known, m.values[i].0.name@).is_some());
                    }
                }
            }
            assert forall|i: int| 0 <= i < r.values.len() implies lookup(
                r.known,
                (#[trigger] r.values[i]).0.name@,
            ) == Some(ValueTypeSet::unit_of(r.values[i].1.type_of())) by {
                let nm = r.values[i].0.name@;
                lemma_unique_lookup(r.values, i);
                assert(has_key(r.values, nm));
                assert(lookup(r.values, nm) == lookup(m.values, nm));
                assert(has_key(m.values, nm));
                lemma_lookup_entry(m.values, nm);
                let k = choose|k: int|
                    0 <= k < m.values.len() && (#[trigger] m.values[k]).0.name@ == nm && lookup(
                        m.values,
                        nm,
                    ) == Some(m.values[k].1);
                assert(lookup(m.known, m.values[k].0.name@) == Some(
                    ValueTypeSet::unit_of(m.values[k].1.type_of()),
                ));
            }
        }
    }
}

/// Seeding changes nothing but the column bindings.
pub proof fn lemma_seed_keeps(m: CcModel, t: CcModel, vars: Seq<Variable>, n: nat)
    requires
        t.wf(),
    ensures
        match m.seed(t, vars, n) {
            Ok(c) => c == (CcModel { cols: c.cols, ..t }) && c.wf(),
            Err(_) => true,
        },
    decreases n,
{
    if n > 0 {
        lemma_seed_keeps(m, t, vars, (n - 1) as nat);
    }
}

/// An error while seeding is the result, whatever follows it.
pub proof fn lemma_seed_error_stays(m: CcModel, t: CcModel, vars: Seq<Variable>, k: nat, n: nat)
    requires
        k <= n,
        m.seed(t, vars, k).is_err(),
    ensures
        m.seed(t, vars, n) == m.seed(t, vars, k),
    decreases n,
{
    if n > k {
        lemma_seed_error_stays(m, t, vars, k, (n - 1) as nat);
    }
}

/// Closing keeps the clauses well formed, their tables and their counters.
pub proof fn lemma_close_wf(m: CcModel)
    requires
        m.wf(),
    ensures
        match m.close() {
            Ok(c) => c.wf() && c.from == m.from && c.counter == m.counter && c.cols == m.cols
                && c.values == m.values && c.inputs == m.inputs && c.computed == m.computed && (
            m.is_empty() ==> c == m),
            Err(_) => true,
        },
{
    let p = m.expand().prune();
    if !m.is_empty() {
        lemma_pruned_unique(m.expand(), m.expand().known.len());
    }
    lemma_require_upto_wf(p, p.required.len());
}

impl ConjoiningClauses {
    /// Fresh clauses that share the counters with these and carry over what
    /// these say of `vars`.
    pub fn use_as_template(&self, vars: &Vec<Variable>) -> (r: ConjoiningClauses)
        ensures
            r@ == self@.template(vars@, vars@.len()),
    {
        let mut r = ConjoiningClauses::new();
        r.alias_counter = self.alias_counter;
        let mut i: usize = 0;
        while i < vars.len()
            invariant
                i <= vars.len(),
                r@ == self@.template(vars@, i as nat),
            decreases vars.len() - i,
        {
            let v = &vars[i];
            if contains_variable(&self.input_variables, v) && !contains_variable(
                &r.input_variables,
                v,
            ) {
                r.input_variables.push(v.duplicate());
            }
            match self.value_bindings.get(v) {
                Some(x) => {
                    r.value_bindings.insert(v, x.duplicate());
                },
                None => {},
            }
            match self.known_types.get(v) {
                Some(x) => {
                    r.known_types.insert(v, *x);
                },
                None => {},
            }
            match self.extracted_types.get(v) {
                Some(x) => {
                    r.extracted_types.insert(v, *x);
                },
                None => {},
            }
            i = i + 1;
        }
        r
    }

    /// The child of a negation or an alternation over `vars`: the template,
    /// with each variable that is bound to columns here bound to the first
    /// of them. A variable that has neither a value nor a column here is an
    /// error.
    pub fn child_for(&self, vars: &Vec<Variable>) -> (r: Result<ConjoiningClauses, AlgebrizerError>)
        ensures
            match r {
                Ok(c) => self@.child(vars@) == Ok::<CcModel, AlgebrizerError>(c@),
                Err(e) => self@.child(vars@) == Err::<CcModel, AlgebrizerError>(e),
            },
    {
        let mut c = self.use_as_template(vars);
        let ghost t = c@;
        let mut i: usize = 0;
        while i < vars.len()
            invariant
                i <= vars.len(),
                t == self@.template(vars@, vars@.len()),
                self@.seed(t, vars@, i as nat) == Ok::<CcModel, AlgebrizerError>(c@),
            decreases vars.len() - i,
        {
            let v = &vars[i];
            if !self.value_bindings.contains_key(v) {
                match self.column_bindings.get(v) {
                    Some(column) => {
                        c.column_bindings.insert(v, *column);
                    },
                    None => {
                        proof {
                            lemma_seed_error_stays(
                                self@,
                                t,
                                vars@,
                                (i + 1) as nat,
                                vars@.len() as nat,
                            );
                        }
                        return Err(AlgebrizerError::UnboundVariable(v.name()));
                    },
                }
            }
            i = i + 1;
        }
        Ok(c)
    }

    /// Runs the three steps that close a set of clauses.
    pub fn close(&mut self) -> (r: Result<(), AlgebrizerError>)
        ensures
            match r {
                Ok(()) => old(self)@.close() == Ok::<CcModel, AlgebrizerError>(final(self)@),
                Err(e) => old(self)@.close() == Err::<CcModel, AlgebrizerError>(e),
            },
            old(self)@.wf() && r.is_ok() ==> final(self)@.wf() && final(self)@.computed == old(
                self,
            )@.computed,
    {
        proof {
            if self@.wf() {
                lemma_close_wf(self@);
            }
        }
        self.expand_column_bindings();
        self.prune_extracted_types();
        self.process_required_types()
    }

    /// Embeds the body of a negation, as it came out of its clauses: a body
    /// that is known empty, before or after it is closed, or that constrains
    /// nothing, leaves these clauses as they are; any other joins the
    /// conjunction, well formed, as a subquery that must have no results.
    pub fn embed_negation(&mut self, body: ConjoiningClauses) -> (r: Result<(), AlgebrizerError>)
        requires
            body@.wf(),
        ensures
            match r {
                Ok(()) => match body@.negation() {
                    Ok(None) => final(self)@ == old(self)@,
                    Ok(Some(c)) => exists|child: ConjoiningClauses|
                        child@ == c && c.wf() && final(self)@ == #[trigger] old(self)@.excluding(
                            child,
                        ),
                    Err(_) => false,
                },
                Err(e) => body@.negation() == Err::<Option<CcModel>, AlgebrizerError>(e)
                    && final(self)@ == old(self)@,
            },
    {
        let mut body = body;
        if body.is_known_empty() {
            return Ok(());
        }
        match body.close() {
            Ok(()) => {},
            Err(e) => {
                return Err(e);
            },
        }
        if body.is_known_empty() {
            return Ok(());
        }
        if body.wheres.is_empty() {
            return Ok(());
        }
        let ghost c = body;
        self.wheres.add_intersection(
            ColumnConstraint::NotExists(ComputedTable::Subquery(Box::new(body))),
        );
        assert(old(self)@.excluding(c) == self@);
        Ok(())
    }
}


/// `out` is what the clause `c` makes of the clauses `pre`.
pub open spec fn applies(
    pre: CcModel,
    schema: Schema,
    c: WhereClause,
    out: Result<CcModel, AlgebrizerError>,
) -> bool
    decreases c, 0nat,
{
    match c {
        WhereClause::Pattern(p) => out == pre.apply_pattern(schema, p),
        WhereClause::Pred(p) => out == pre.apply_predicate(p),
        WhereClause::WhereFn(f) => out == pre.apply_where_fn(f),
        WhereClause::OrJoin(o) => alternates(pre, schema, o, out),
        WhereClause::NotJoin(n) => negates(pre, schema, n, out),
    }
}

/// Marks an outcome that a relation speaks of.
pub open spec fn outcome(r: Result<CcModel, AlgebrizerError>) -> bool {
    true
}

/// `out` is what the clause `c` makes of the outcome `mid` of the clauses
/// before it: an error stays the error.
pub open spec fn continues(
    mid: Result<CcModel, AlgebrizerError>,
    schema: Schema,
    c: WhereClause,
    out: Result<CcModel, AlgebrizerError>,
) -> bool
    decreases c, 1nat,
{
    match mid {
        Err(e) => out == Err::<CcModel, AlgebrizerError>(e),
        Ok(m) => applies(m, schema, c, out),
    }
}

/// `out` is what the first `n` of the clauses `cs`, applied in order, make
/// of the clauses `pre`: the first error ends it.
pub open spec fn applies_all(
    pre: CcModel,
    schema: Schema,
    cs: Vec<WhereClause>,
    n: nat,
    out: Result<CcModel, AlgebrizerError>,
) -> bool
    decreases cs, n,
{
    if n == 0 || n > cs@.len() {
        out == Ok::<CcModel, AlgebrizerError>(pre)
    } else {
        exists|mid: Result<CcModel, AlgebrizerError>|
            (#[trigger] outcome(mid)) && applies_all(pre, schema, cs, (n - 1) as nat, mid)
                && continues(mid, schema, cs@[n - 1], out)
    }
}

/// `out` is what a negation whose body came out as `body` makes of `pre`.
pub open spec fn embeds(
    pre: CcModel,
    body: Result<CcModel, AlgebrizerError>,
    out: Result<CcModel, AlgebrizerError>,
) -> bool {
    match body {
        Err(e) => out == Err::<CcModel, AlgebrizerError>(e),
        Ok(b) => match b.negation() {
            Err(e) => out == Err::<CcModel, AlgebrizerError>(e),
            Ok(None) => out == Ok::<CcModel, AlgebrizerError>(pre),
            Ok(Some(c)) => exists|child: ConjoiningClauses|
                child@ == c && c.wf() && out == Ok::<CcModel, AlgebrizerError>(
                    #[trigger] pre.excluding(child),
                ),
        },
    }
}

/// `out` is what the negation `n` makes of the clauses `pre`. Clauses that
/// are known empty stay as they are. A shared variable that the clauses of
/// the negation do not mention is an error. A shared variable that `pre` neither
/// gives a value nor binds to a column is an error. The body is the child
/// of `pre` over the shared variables after the clauses of the negation; an
/// error in it is the error. A body that is known empty, before or after
/// it is closed, or that constrains nothing, leaves `pre` as it is. Any
/// other joins the conjunction of `pre` as a subquery that must have no
/// results, and nothing else of `pre` changes.
pub open spec fn negates(
    pre: CcModel,
    schema: Schema,
    n: NotJoin,
    out: Result<CcModel, AlgebrizerError>,
) -> bool
    decreases n, 0nat,
{
    if pre.is_empty() {
        out == Ok::<CcModel, AlgebrizerError>(pre)
    } else if !all_among(n.unified(), n.mentioned()) {
        out == Err::<CcModel, AlgebrizerError>(AlgebrizerError::NonMatchingVariablesInNotJoin)
    } else {
        match pre.child(n.unified()) {
            Err(e) => out == Err::<CcModel, AlgebrizerError>(e),
            Ok(seeded) => exists|body: Result<CcModel, AlgebrizerError>|
                (#[trigger] outcome(body)) && applies_all(
                    seeded,
                    schema,
                    n.clauses,
                    n.clauses@.len(),
                    body,
                ) && embeds(pre, body, out),
        }
    }
}

impl ConjoiningClauses {
    /// Applies one clause.
    pub fn apply_clause(&mut self, schema: &Schema, clause: &WhereClause) -> (r: Result<
        (),
        AlgebrizerError,
    >)
        requires
            old(self)@.wf(),
        ensures
            match r {
                Ok(()) => applies(
                    old(self)@,
                    *schema,
                    *clause,
                    Ok::<CcModel, AlgebrizerError>(final(self)@),
                ),
                Err(e) => applies(old(self)@, *schema, *clause, Err::<CcModel, AlgebrizerError>(e)),
            },
            r.is_ok() ==> final(self)@.wf() && final(self)@.computed == old(self)@.computed,
            r.is_ok() && old(self)@.is_empty() ==> final(self)@ == old(self)@,
        decreases clause, 0nat,
    {
        match clause {
            WhereClause::Pattern(p) => self.apply_pattern(schema, p),
            WhereClause::Pred(p) => self.apply_predicate(p),
            WhereClause::WhereFn(f) => self.apply_where_fn(f),
            WhereClause::OrJoin(o) => self.apply_or_join(schema, o),
            WhereClause::NotJoin(n) => self.apply_not_join(schema, n),
        }
    }

    /// Applies the clauses in order; the first error ends it.
    pub fn apply_clauses(&mut self, schema: &Schema, clauses: &Vec<WhereClause>) -> (r: Result<
        (),
        AlgebrizerError,
    >)
        requires
            old(self)@.wf(),
        ensures
            match r {
                Ok(()) => applies_all(
                    old(self)@,
                    *schema,
                    *clauses,
                    clauses@.len(),
                    Ok::<CcModel, AlgebrizerError>(final(self)@),
                ),
                Err(e) => applies_all(
                    old(self)@,
                    *schema,
                    *clauses,
                    clauses@.len(),
                    Err::<CcModel, AlgebrizerError>(e),
                ),
            },
            r.is_ok() ==> final(self)@.wf() && final(self)@.computed == old(self)@.computed,
            r.is_ok() && old(self)@.is_empty() ==> final(self)@ == old(self)@,
        decreases clauses, clauses@.len(),
    {
        let mut i: usize = 0;
        while i < clauses.len()
            invariant
                i <= clauses.len(),
                self@.wf(),
                self@.computed == old(self)@.computed,
                old(self)@.is_empty() ==> self@ == old(self)@,
                applies_all(
                    old(self)@,
                    *schema,
                    *clauses,
                    i as nat,
                    Ok::<CcModel, AlgebrizerError>(self@),
                ),
            decreases clauses.len() - i,
        {
            let ghost before = self@;
            match self.apply_clause(schema, &clauses[i]) {
                Ok(()) => {
                    assert(outcome(Ok::<CcModel, AlgebrizerError>(before)));
                    assert(continues(
                        Ok::<CcModel, AlgebrizerError>(before),
                        *schema,
                        clauses@[i as int],
                        Ok::<CcModel, AlgebrizerError>(self@),
                    ));
                },
                Err(e) => {
                    proof {
                        assert(outcome(Ok::<CcModel, AlgebrizerError>(before)));
                        assert(continues(
                            Ok::<CcModel, AlgebrizerError>(before),
                            *schema,
                            clauses@[i as int],
                            Err::<CcModel, AlgebrizerError>(e),
                        ));
                        lemma_error_carries(
                            old(self)@,
                            *schema,
                            *clauses,
                            (i + 1) as nat,
                            clauses@.len(),
                            e,
                        );
                    }
                    return Err(e);
                },
            }
            i = i + 1;
        }
        Ok(())
    }

    /// Applies `(not ...)` or `(not-join [...] ...)`: the clauses of the
    /// negation are applied to a child that shares the unified variables
    /// with these clauses, and the child joins the conjunction as a subquery
    /// that must have no results. A child that is known empty or constrains
    /// nothing is dropped, and these clauses stay as they are.
    pub fn apply_not_join(&mut self, schema: &Schema, not_join: &NotJoin) -> (r: Result<
        (),
        AlgebrizerError,
    >)
        requires
            old(self)@.wf(),
        ensures
            match r {
                Ok(()) => negates(
                    old(self)@,
                    *schema,
                    *not_join,
                    Ok::<CcModel, AlgebrizerError>(final(self)@),
                ),
                Err(e) => negates(
                    old(self)@,
                    *schema,
                    *not_join,
                    Err::<CcModel, AlgebrizerError>(e),
                ) && final(self)@ == old(self)@,
            },
            final(self)@.wf(),
            old(self)@.is_empty() ==> final(self)@ == old(self)@,
            final(self)@.computed == old(self)@.computed,
        decreases not_join, 0nat,
    {
        if self.is_known_empty() {
            return Ok(());
        }
        let unified = not_join.unification_set();
        let mentioned = not_join.collect_mentioned_variables();
        if !variables_among(&unified, &mentioned) {
            return Err(AlgebrizerError::NonMatchingVariablesInNotJoin);
        }
        let mut template = match self.child_for(&unified) {
            Ok(t) => t,
            Err(e) => {
                return Err(e);
            },
        };
        proof {
            lemma_template_wf(self@, unified@, unified@.len());
            lemma_seed_keeps(
                self@,
                self@.template(unified@, unified@.len()),
                unified@,
                unified@.len(),
            );
        }
        let ghost seeded = template@;
        match template.apply_clauses(schema, &not_join.clauses) {
            Ok(()) => {},
            Err(e) => {
                assert(outcome(Err::<CcModel, AlgebrizerError>(e)));
                assert(embeds(
                    old(self)@,
                    Err::<CcModel, AlgebrizerError>(e),
                    Err::<CcModel, AlgebrizerError>(e),
                ));
                return Err(e);
            },
        }
        let ghost body = template@;
        let r = self.embed_negation(template);
        proof {
            assert(outcome(Ok::<CcModel, AlgebrizerError>(body)));
            if r.is_ok() {
                assert(embeds(
                    old(self)@,
                    Ok::<CcModel, AlgebrizerError>(body),
                    Ok::<CcModel, AlgebrizerError>(self@),
                ));
            } else {
                assert(embeds(
                    old(self)@,
                    Ok::<CcModel, AlgebrizerError>(body),
                    Err::<CcModel, AlgebrizerError>(r->Err_0),
                ));
            }
        }
        r
    }
}

/// An error among the first `k` clauses is the result, whatever follows them.
pub proof fn lemma_error_carries(
    pre: CcModel,
    schema: Schema,
    cs: Vec<WhereClause>,
    k: nat,
    n: nat,
    e: AlgebrizerError,
)
    requires
        1 <= k <= n <= cs@.len(),
        applies_all(pre, schema, cs, k, Err::<CcModel, AlgebrizerError>(e)),
    ensures
        applies_all(pre, schema, cs, n, Err::<CcModel, AlgebrizerError>(e)),
    decreases n,
{
    if n > k {
        lemma_error_carries(pre, schema, cs, k, (n - 1) as nat, e);
        assert(outcome(Err::<CcModel, AlgebrizerError>(e)));
        assert(continues(
            Err::<CcModel, AlgebrizerError>(e),
            schema,
            cs@[n - 1],
            Err::<CcModel, AlgebrizerError>(e),
        ));
    }
}

} // verus!
