//! The driver: from a parsed query, a schema and input values to the
//! conjoining clauses and the validated find specification.

use vstd::prelude::*;
use crate::bindings::{has_key, lemma_put, lookup, put};
use crate::clauses::{AliasCounters, CcModel, ConjoiningClauses};
use crate::not::{applies_all, blank, outcome};
use crate::query::{each_once, merge_variables, Variable, WhereClause};
use crate::schema::Schema;
use crate::types::AlgebrizerError;
use crate::value_types::{TypedValue, ValueTypeSet};

verus! {

/// The aggregates that a find specification can ask for.
#[derive(Clone, Copy, Debug, PartialEq, Eq, Structural)]
pub enum AggregateFn {
    Count,
    Sum,
    Avg,
    Min,
    Max,
}

/// One element of a find specification.
#[derive(Clone, Debug, PartialEq, Eq)]
pub enum Element {
    Variable(Variable),
    Aggregate(AggregateFn, Variable),
}

impl Element {
    /// The variable that the element reads.
    pub open spec fn var(self) -> Variable {
        match self {
            Element::Variable(v) => v,
            Element::Aggregate(_, v) => v,
        }
    }

    pub fn variable(&self) -> (r: &Variable)
        ensures
            *r == self.var(),
    {
        match self {
            Element::Variable(v) => v,
            Element::Aggregate(_, v) => v,
        }
    }

    pub fn is_aggregate(&self) -> (r: bool)
        ensures
            r == (self is Aggregate),
    {
        match self {
            Element::Variable(_) => false,
            Element::Aggregate(_, _) => true,
        }
    }
}

/// The shape of the results: a relation, a collection, a scalar or a tuple.
#[derive(Clone, Debug, PartialEq, Eq)]
pub enum FindSpec {
    FindRel(Vec<Element>),
    FindColl(Element),
    FindScalar(Element),
    FindTuple(Vec<Element>),
}

impl FindSpec {
    /// The elements of the specification, in order.
    pub open spec fn elements(self) -> Seq<Element> {
        match self {
            FindSpec::FindRel(es) => es@,
            FindSpec::FindColl(e) => seq![e],
            FindSpec::FindScalar(e) => seq![e],
            FindSpec::FindTuple(es) => es@,
        }
    }

    pub fn len(&self) -> (r: usize)
        ensures
            r == self.elements().len(),
    {
        match self {
            FindSpec::FindRel(es) => es.len(),
            FindSpec::FindColl(_) => 1,
            FindSpec::FindScalar(_) => 1,
            FindSpec::FindTuple(es) => es.len(),
        }
    }

    pub fn element(&self, i: usize) -> (r: &Element)
        requires
            i < self.elements().len(),
        ensures
            *r == self.elements()[i as int],
    {
        match self {
            FindSpec::FindRel(es) => &es[i],
            FindSpec::FindColl(e) => e,
            FindSpec::FindScalar(e) => e,
            FindSpec::FindTuple(es) => &es[i],
        }
    }

    /// At most one row is asked for.
    pub fn is_unit_limited(&self) -> (r: bool)
        ensures
            r == (self is FindScalar || self is FindTuple),
    {
        match self {
            FindSpec::FindScalar(_) => true,
            FindSpec::FindTuple(_) => true,
            _ => false,
        }
    }
}

#[derive(Clone, Copy, Debug, PartialEq, Eq, Structural)]
pub enum Direction {
    Ascending,
    Descending,
}

#[derive(Clone, Debug, PartialEq, Eq)]
pub struct Order(pub Direction, pub Variable);

#[derive(Clone, Debug, PartialEq, Eq)]
pub enum Limit {
    Unbounded,
    Fixed(u64),
    Variable(Variable),
}

/// A parsed query.
#[derive(Debug, PartialEq, Eq)]
pub struct FindQuery {
    pub find_spec: FindSpec,
    pub with: Vec<Variable>,
    pub in_vars: Vec<Variable>,
    pub where_clauses: Vec<WhereClause>,
    pub order: Vec<Order>,
    pub limit: Limit,
}

/// The values that the variables of the `:in` list were given.
#[derive(Debug, PartialEq, Eq)]
pub struct QueryInputs {
    pub values: Vec<(Variable, TypedValue)>,
}

impl QueryInputs {
    pub fn new() -> (r: QueryInputs)
        ensures
            r.values@.len() == 0,
    {
        QueryInputs { values: Vec::new() }
    }

    pub fn with_value_sequence(values: Vec<(Variable, TypedValue)>) -> (r: QueryInputs)
        ensures
            r.values == values,
    {
        QueryInputs { values }
    }
}

/// The result of algebrization.
#[derive(Debug, PartialEq, Eq)]
pub struct AlgebraicQuery {
    pub find_spec: FindSpec,
    pub has_aggregates: bool,
    pub with: Vec<Variable>,
    pub order: Vec<Order>,
    pub limit: Limit,
    pub cc: ConjoiningClauses,
}

impl AlgebraicQuery {
    pub fn is_known_empty(&self) -> (r: bool)
        ensures
            r == self.cc@.is_empty(),
    {
        self.cc.is_known_empty()
    }
}

/// The aggregate sums or averages: it is taken of numbers only.
pub open spec fn takes_numbers(e: Element) -> bool {
    e matches Element::Aggregate(f, _) && (f == AggregateFn::Sum || f == AggregateFn::Avg)
}

impl CcModel {
    /// The types that are required of `name`: every type where nothing is.
    pub open spec fn required_set(self, name: Seq<char>) -> ValueTypeSet {
        match lookup(self.required, name) {
            Some(s) => s,
            None => ValueTypeSet { bits: 255 },
        }
    }

    /// The clauses with what the first `n` elements of a find specification
    /// require: the variable of a sum or an average must be numeric.
    pub open spec fn with_requirements(self, es: Seq<Element>, n: nat) -> CcModel
        decreases n,
    {
        if n == 0 {
            self
        } else {
            let m = self.with_requirements(es, (n - 1) as nat);
            if n <= es.len() && takes_numbers(es[n - 1]) && !m.is_empty() {
                CcModel {
                    required: put(
                        m.required,
                        es[n - 1].var(),
                        m.required_set(es[n - 1].var().name@).meet(ValueTypeSet { bits: 24 }),
                    ),
                    ..m
                }
            } else {
                m
            }
        }
    }
}

/// Adding requirements keeps the clauses well formed.
pub proof fn lemma_requirements_wf(m: CcModel, es: Seq<Element>, n: nat)
    requires
        m.wf(),
    ensures
        m.with_requirements(es, n).wf(),
        m.with_requirements(es, n).computed == m.computed,
    decreases n,
{
    if n > 0 {
        lemma_requirements_wf(m, es, (n - 1) as nat);
        let p = m.with_requirements(es, (n - 1) as nat);
        if n <= es.len() {
            lemma_put(
                p.required,
                es[n - 1].var(),
                p.required_set(es[n - 1].var().name@).meet(ValueTypeSet { bits: 24 }),
            );
        }
    }
}

impl ConjoiningClauses {
    /// Requires the variable of each sum and each average in `spec` to be numeric.
    pub fn require_aggregate_types(&mut self, spec: &FindSpec)
        ensures
            final(self)@ == old(self)@.with_requirements(spec.elements(), spec.elements().len()),
            old(self)@.wf() ==> final(self)@.wf(),
    {
        let n: usize = spec.len();
        let mut i: usize = 0;
        while i < n
            invariant
                i <= n,
                n == spec.elements().len(),
                self@ == old(self)@.with_requirements(spec.elements(), i as nat),
            decreases n - i,
        {
            let sums: bool = match spec.element(i) {
                Element::Aggregate(AggregateFn::Sum, _) => true,
                Element::Aggregate(AggregateFn::Avg, _) => true,
                _ => false,
            };
            if sums && !self.is_known_empty() {
                let var = spec.element(i).variable();
                let so_far = match self.required_types.get(var) {
                    Some(s) => *s,
                    None => ValueTypeSet::any(),
                };
                self.required_types.insert(
                    var,
                    so_far.intersection(&ValueTypeSet::of_numeric_types()),
                );
            }
            i = i + 1;
        }
        proof {
            if old(self)@.wf() {
                lemma_requirements_wf(old(self)@, spec.elements(), n as nat);
            }
        }
    }
}

/// The clauses after the first `n` input values have been installed.
pub open spec fn installed(start: CcModel, values: Seq<(Variable, TypedValue)>, n: nat) -> CcModel
    decreases n,
{
    if n == 0 {
        start
    } else if n <= values.len() {
        installed(start, values, (n - 1) as nat).bind_value(values[n - 1].0, values[n - 1].1)
    } else {
        installed(start, values, (n - 1) as nat)
    }
}

/// Counters that all stand at `offset`.
pub open spec fn counters_at(offset: u64) -> AliasCounters {
    AliasCounters {
        datoms: offset,
        fulltext_values: offset,
        fulltext_datoms: offset,
        all_datoms: offset,
    }
}

/// The clauses that algebrization starts from: the alias counters at
/// `offset`, the declared input variables, and each input value with its type.
pub open spec fn initial(
    offset: u64,
    in_vars: Seq<Variable>,
    values: Seq<(Variable, TypedValue)>,
) -> CcModel {
    installed(
        CcModel { inputs: each_once(in_vars), ..blank(counters_at(offset)) },
        values,
        values.len(),
    )
}

/// The clauses give `name` a column or a value.
pub open spec fn bound(m: CcModel, name: Seq<char>) -> bool {
    has_key(m.cols, name) || has_key(m.values, name)
}

/// The variable that makes the query invalid against the closed clauses
/// `m`: the first element of the find specification, then the first `:with`
/// variable, then the first ordered variable that the clauses do not bind.
/// Clauses that are known empty bind nothing and make no query invalid.
pub open spec fn first_unbound(m: CcModel, q: FindQuery, k: int) -> bool {
    let es = q.find_spec.elements();
    &&& 0 <= k < es.len() + q.with@.len() + q.order@.len()
    &&& !bound(m, query_variable(q, k).name@)
    &&& forall|j: int| 0 <= j < k ==> bound(m, (#[trigger] query_variable(q, j)).name@)
}

/// The `k`-th variable that a query reads: those of the find specification,
/// then those of `:with`, then those of `:order`.
pub open spec fn query_variable(q: FindQuery, k: int) -> Variable {
    let es = q.find_spec.elements();
    if k < es.len() {
        es[k].var()
    } else if k < es.len() + q.with@.len() {
        q.with@[k - es.len()]
    } else {
        q.order@[k - es.len() - q.with@.len()].1
    }
}

/// The limit of the query is in order: a fixed limit is positive, and a
/// variable limit is an input variable.
pub open spec fn limit_error(m: CcModel, limit: Limit) -> Option<AlgebrizerError> {
    match limit {
        Limit::Unbounded => None,
        Limit::Fixed(n) => if n == 0 {
            Some(AlgebrizerError::InvalidLimit)
        } else {
            None
        },
        Limit::Variable(v) => if crate::query::mentions(m.inputs, v.name@) {
            None
        } else {
            Some(AlgebrizerError::UnknownLimit)
        },
    }
}

/// Some variable that the query reads is not bound by the clauses.
pub open spec fn some_unbound(m: CcModel, q: FindQuery) -> bool {
    exists|k: int| #[trigger] first_unbound(m, q, k)
}

/// What the validation of the query against the closed clauses `m` says.
pub open spec fn validates(m: CcModel, q: FindQuery, out: Option<AlgebrizerError>) -> bool {
    if m.is_empty() {
        out == limit_error(m, q.limit)
    } else if some_unbound(m, q) {
        exists|k: int|
            (#[trigger] first_unbound(m, q, k)) && out == Some(
                AlgebrizerError::UnboundVariable(query_variable(q, k).name),
            )
    } else {
        out == limit_error(m, q.limit)
    }
}

/// `out` is what algebrization makes of a query: the clauses that the
/// `:where` list makes of the initial ones, with what the aggregates of the
/// find specification require, closed, unless a clause, the closing or the
/// validation fails.
pub open spec fn algebrizes(
    schema: Schema,
    q: FindQuery,
    offset: u64,
    values: Seq<(Variable, TypedValue)>,
    out: Result<CcModel, AlgebrizerError>,
) -> bool {
    exists|body: Result<CcModel, AlgebrizerError>|
        (#[trigger] outcome(body)) && applies_all(
            initial(offset, q.in_vars@, values),
            schema,
            q.where_clauses,
            q.where_clauses@.len(),
            body,
        ) && match body {
            Err(e) => out == Err::<CcModel, AlgebrizerError>(e),
            Ok(b) => match b.with_requirements(
                q.find_spec.elements(),
                q.find_spec.elements().len(),
            ).close() {
                Err(e) => out == Err::<CcModel, AlgebrizerError>(e),
                Ok(c) => match out {
                    Ok(m) => m == c && validates(c, q, None),
                    Err(e) => validates(c, q, Some(e)),
                },
            },
        }
}

/// Whether the clauses give `var` a column or a value.
pub fn is_bound(cc: &ConjoiningClauses, var: &Variable) -> (r: bool)
    ensures
        r == bound(cc@, var.name@),
{
    cc.column_bindings.contains_key(var) || cc.value_bindings.contains_key(var)
}

/// Validates a query against its closed clauses: every variable that the
/// find specification, `:with` or `:order` reads must be bound, unless the
/// clauses are known empty; a fixed limit must be positive and a variable
/// limit must be an input.
pub fn validate(cc: &ConjoiningClauses, q: &FindQuery) -> (r: Option<AlgebrizerError>)
    ensures
        validates(cc@, *q, r),
{
    if !cc.is_known_empty() {
        let n_find: usize = q.find_spec.len();
        let mut i: usize = 0;
        while i < n_find
            invariant
                i <= n_find,
                !cc@.is_empty(),
                n_find == q.find_spec.elements().len(),
                forall|j: int| 0 <= j < i ==> bound(cc@, (#[trigger] query_variable(*q, j)).name@),
            decreases n_find - i,
        {
            let v = q.find_spec.element(i).variable();
            assert(*v == query_variable(*q, i as int));
            if !is_bound(cc, v) {
                let name = v.name();
                proof {
                    let k = i as int;
                    assert(first_unbound(cc@, *q, k));
                    assert(name == query_variable(*q, k).name);
                }
                return Some(AlgebrizerError::UnboundVariable(name));
            }
            i = i + 1;
        }
        let mut i: usize = 0;
        while i < q.with.len()
            invariant
                i <= q.with.len(),
                !cc@.is_empty(),
                n_find == q.find_spec.elements().len(),
                forall|j: int|
                    0 <= j < n_find + i ==> bound(cc@, (#[trigger] query_variable(*q, j)).name@),
            decreases q.with.len() - i,
        {
            let v = &q.with[i];
            assert(*v == query_variable(*q, n_find + i));
            if !is_bound(cc, v) {
                let name = v.name();
                proof {
                    let k = n_find + i;
                    assert(first_unbound(cc@, *q, k));
                    assert(name == query_variable(*q, k).name);
                }
                return Some(AlgebrizerError::UnboundVariable(name));
            }
            i = i + 1;
        }
        let mut i: usize = 0;
        while i < q.order.len()
            invariant
                i <= q.order.len(),
                !cc@.is_empty(),
                n_find == q.find_spec.elements().len(),
                forall|j: int|
                    0 <= j < n_find + q.with@.len() + i ==> bound(
                        cc@,
                        (#[trigger] query_variable(*q, j)).name@,
                    ),
            decreases q.order.len() - i,
        {
            let v = &q.order[i].1;
            assert(*v == query_variable(*q, n_find + q.with@.len() + i));
            if !is_bound(cc, v) {
                let name = v.name();
                proof {
                    let k = n_find + q.with@.len() + i;
                    assert(first_unbound(cc@, *q, k));
                    assert(name == query_variable(*q, k).name);
                }
                return Some(AlgebrizerError::UnboundVariable(name));
            }
            i = i + 1;
        }
        assert forall|k: int| !first_unbound(cc@, *q, k) by {
            if 0 <= k < n_find + q.with@.len() + q.order@.len() {
                assert(bound(cc@, query_variable(*q, k).name@));
            }
        }
    }
    match &q.limit {
        Limit::Unbounded => None,
        Limit::Fixed(n) => if *n == 0 {
            Some(AlgebrizerError::InvalidLimit)
        } else {
            None
        },
        Limit::Variable(v) => if crate::query::contains_variable(&cc.input_variables, v) {
            None
        } else {
            Some(AlgebrizerError::UnknownLimit)
        },
    }
}

/// The clauses that algebrization starts from.
pub fn initial_clauses(offset: u64, in_vars: &Vec<Variable>, inputs: &QueryInputs) -> (r:
    ConjoiningClauses)
    ensures
        r@ == initial(offset, in_vars@, inputs.values@),
        r@.wf(),
        r@.computed.len() == 0,
{
    let mut cc = ConjoiningClauses::new();
    cc.alias_counter = AliasCounters {
        datoms: offset,
        fulltext_values: offset,
        fulltext_datoms: offset,
        all_datoms: offset,
    };
    merge_variables(&mut cc.input_variables, in_vars);
    let mut i: usize = 0;
    while i < inputs.values.len()
        invariant
            i <= inputs.values.len(),
            cc@.wf(),
            cc@.computed.len() == 0,
            cc@ == installed(
                CcModel { inputs: each_once(in_vars@), ..blank(counters_at(offset)) },
                inputs.values@,
                i as nat,
            ),
        decreases inputs.values.len() - i,
    {
        cc.bind_value(&inputs.values[i].0, &inputs.values[i].1);
        i = i + 1;
    }
    cc
}

/// Algebrizes a query with input values, giving out table aliases from
/// `offset` on: installs the inputs, applies the
/// clauses of the `:where` list in order, requires the variables of sums and
/// averages to be numeric, closes the clauses and validates
/// the find specification, `:with`, `:order` and the limit against them.
pub fn algebrize_with_inputs(
    schema: &Schema,
    parsed: FindQuery,
    offset: u64,
    inputs: QueryInputs,
) -> (r: Result<
    AlgebraicQuery,
    AlgebrizerError,
>)
    ensures
        match r {
            Ok(q) => algebrizes(
                *schema,
                parsed,
                offset,
                inputs.values@,
                Ok::<CcModel, AlgebrizerError>(q.cc@),
            )
                && q.cc@.wf() && q.cc@.computed.len() == 0 && q.find_spec == parsed.find_spec && q.with == parsed.with
                && q.order == parsed.order && q.limit == (if parsed.find_spec is FindScalar
                || parsed.find_spec is FindTuple {
                Limit::Fixed(1)
            } else {
                parsed.limit
            }) && q.has_aggregates == (exists|i: int|
                0 <= i < parsed.find_spec.elements().len()
                    && #[trigger] parsed.find_spec.elements()[i] is Aggregate),
            Err(e) => algebrizes(
                *schema,
                parsed,
                offset,
                inputs.values@,
                Err::<CcModel, AlgebrizerError>(e),
            ),
        },
{
    let mut cc = initial_clauses(offset, &parsed.in_vars, &inputs);
    let ghost start = cc@;
    match cc.apply_clauses(schema, &parsed.where_clauses) {
        Ok(()) => {},
        Err(e) => {
            assert(outcome(Err::<CcModel, AlgebrizerError>(e)));
            return Err(e);
        },
    }
    let ghost body = cc@;
    assert(outcome(Ok::<CcModel, AlgebrizerError>(body)));
    proof {
        lemma_requirements_wf(
            cc@,
            parsed.find_spec.elements(),
            parsed.find_spec.elements().len(),
        );
    }
    cc.require_aggregate_types(&parsed.find_spec);
    match cc.close() {
        Ok(()) => {},
        Err(e) => {
            return Err(e);
        },
    }
    match validate(&cc, &parsed) {
        Some(e) => {
            return Err(e);
        },
        None => {},
    }
    let mut has_aggregates: bool = false;
    let n: usize = parsed.find_spec.len();
    let mut i: usize = 0;
    while i < n
        invariant
            i <= n,
            n == parsed.find_spec.elements().len(),
            has_aggregates == (exists|j: int|
                0 <= j < i && #[trigger] parsed.find_spec.elements()[j] is Aggregate),
        decreases n - i,
    {
        if parsed.find_spec.element(i).is_aggregate() {
            has_aggregates = true;
        }
        i = i + 1;
    }
    let limit = if parsed.find_spec.is_unit_limited() {
        Limit::Fixed(1)
    } else {
        parsed.limit
    };
    Ok(
        AlgebraicQuery {
            find_spec: parsed.find_spec,
            has_aggregates,
            with: parsed.with,
            order: parsed.order,
            limit,
            cc,
        },
    )
}

/// Algebrizes a query that has no input values, giving out table aliases
/// from zero on.
pub fn algebrize(schema: &Schema, parsed: FindQuery) -> (r: Result<AlgebraicQuery, AlgebrizerError>)
    ensures
        match r {
            Ok(q) => algebrizes(
                *schema,
                parsed,
                0,
                Seq::empty(),
                Ok::<CcModel, AlgebrizerError>(q.cc@),
            ) && q.cc@.wf() && q.cc@.computed.len() == 0,
            Err(e) => algebrizes(
                *schema,
                parsed,
                0,
                Seq::empty(),
                Err::<CcModel, AlgebrizerError>(e),
            ),
        },
{
    let inputs = QueryInputs::new();
    assert(inputs.values@ =~= Seq::empty());
    algebrize_with_inputs(schema, parsed, 0, inputs)
}

} // verus!
