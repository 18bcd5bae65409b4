//! What holds of algebrization, stated over the models and relations that
//! the contracts of the library use.

use vstd::prelude::*;
use crate::algebrize::{
    algebrizes, first_unbound, initial, some_unbound, validates, FindQuery,
};
use crate::bindings::{lemma_put, lookup};
use crate::clauses::CcModel;
use crate::not::{applies, applies_all, continues, embeds, negates, outcome};
use crate::or::alternates;
use crate::query::{all_among, NotJoin, OrJoin, PatternValuePlace, Variable, WhereClause};
use crate::schema::Schema;
use crate::types::{AlgebrizerError, DatomsColumn, EmptyBecause, QualifiedAlias, TableAlias};
use crate::value_types::{lemma_meet_laws, TypedValue, ValueType, ValueTypeSet};

verus! {

/// A negation whose body can only come out contradictory changes nothing:
/// where every outcome of the body is a set of clauses that is known empty,
/// the clauses after the negation are the clauses before it.
pub proof fn lemma_contradictory_negation_dropped(
    pre: CcModel,
    schema: Schema,
    n: NotJoin,
    out: Result<CcModel, AlgebrizerError>,
)
    requires
        negates(pre, schema, n, out),
        all_among(n.unified(), n.mentioned()),
        pre.child(n.unified()).is_ok(),
        forall|body: Result<CcModel, AlgebrizerError>|
            (#[trigger] applies_all(
                pre.child(n.unified()).unwrap(),
                schema,
                n.clauses,
                n.clauses@.len(),
                body,
            )) ==> body.is_ok() && body.unwrap().is_empty(),
    ensures
        out == Ok::<CcModel, AlgebrizerError>(pre),
{
    if !pre.is_empty() {
        let seeded = pre.child(n.unified()).unwrap();
        let body = choose|body: Result<CcModel, AlgebrizerError>|
            (#[trigger] outcome(body)) && applies_all(
                seeded,
                schema,
                n.clauses,
                n.clauses@.len(),
                body,
            ) && embeds(pre, body, out);
        assert(applies_all(seeded, schema, n.clauses, n.clauses@.len(), body));
    }
}

/// A negation leaves alone everything but the conjunction, which it
/// lengthens by at most one constraint.
pub proof fn lemma_negation_frame(
    pre: CcModel,
    schema: Schema,
    n: NotJoin,
    out: Result<CcModel, AlgebrizerError>,
)
    requires
        negates(pre, schema, n, out),
        out.is_ok(),
    ensures
        out.unwrap() == (CcModel { wheres: out.unwrap().wheres, ..pre }),
        out.unwrap().wheres == pre.wheres || (out.unwrap().wheres.len() == pre.wheres.len() + 1
            && out.unwrap().wheres.drop_last() == pre.wheres),
{
    let r = out.unwrap();
    if !pre.is_empty() {
        let seeded = pre.child(n.unified()).unwrap();
        let body = choose|body: Result<CcModel, AlgebrizerError>|
            (#[trigger] outcome(body)) && applies_all(
                seeded,
                schema,
                n.clauses,
                n.clauses@.len(),
                body,
            ) && embeds(pre, body, out);
        assert(embeds(pre, body, out));
    }
    if r.wheres != pre.wheres {
        assert(r.wheres.drop_last() =~= pre.wheres);
    }
}


/// In well-formed clauses that are not known empty, a variable that has a
/// value is known to have exactly the type of that value.
pub proof fn lemma_value_bindings_typed(m: CcModel, i: int)
    requires
        m.wf(),
        !m.is_empty(),
        0 <= i < m.values.len(),
    ensures
        lookup(m.known, m.values[i].0.name@) == Some(
            ValueTypeSet::unit_of(m.values[i].1.type_of()),
        ),
{
}

/// In well-formed clauses no table alias stands twice in the `from` list.
pub proof fn lemma_aliases_distinct(m: CcModel, i: int, j: int)
    requires
        m.wf(),
        0 <= i < m.from.len(),
        0 <= j < m.from.len(),
        i != j,
    ensures
        m.from[i].alias != m.from[j].alias,
{
    if i < j {
        assert(m.from[i].alias != m.from[j].alias);
    } else {
        assert(m.from[j].alias != m.from[i].alias);
    }
}

/// An alternation with one branch is that branch's pattern: whatever the
/// alternation makes of some clauses, the pattern alone makes of them.
pub proof fn lemma_single_branch_or(
    pre: CcModel,
    schema: Schema,
    o: OrJoin,
    out: Result<CcModel, AlgebrizerError>,
)
    requires
        o.clauses@.len() == 1,
    ensures
        alternates(pre, schema, o, out) <==> applies(
            pre,
            schema,
            WhereClause::Pattern(o.clauses@[0]),
            out,
        ),
{
}

/// Where no variable is bound to a column, narrowing the variables bound to
/// it changes nothing.
pub proof fn lemma_narrow_unbound_column(m: CcModel, column: QualifiedAlias, set: ValueTypeSet, n: nat)
    requires
        forall|i: int| 0 <= i < m.cols.len() ==> (#[trigger] m.cols[i]).1 != column,
    ensures
        m.narrow_bound(column, set, n) == m,
    decreases n,
{
    if n > 0 {
        lemma_narrow_unbound_column(m, column, set, (n - 1) as nat);
    }
}

/// A literal in the value place is refused exactly for its type: one whose
/// type is not the type that the attribute declares marks the clauses empty
/// with that mismatch, and one of the declared type, at a column that no
/// variable is bound to, leaves them not known empty.
pub proof fn lemma_literal_type_decides(
    m: CcModel,
    declared: ValueType,
    value: TypedValue,
    alias: TableAlias,
)
    requires
        !m.is_empty(),
        forall|i: int|
            0 <= i < m.cols.len() ==> (#[trigger] m.cols[i]).1 != (QualifiedAlias {
                alias,
                column: DatomsColumn::Value,
            }),
    ensures
        value.type_of() != declared ==> m.apply_value(
            Some(declared),
            PatternValuePlace::Constant(value),
            alias,
        ).empty == Some(EmptyBecause::ValueTypeMismatch(declared, value)),
        value.type_of() == declared ==> !m.apply_value(
            Some(declared),
            PatternValuePlace::Constant(value),
            alias,
        ).is_empty(),
{
    let column = QualifiedAlias { alias, column: DatomsColumn::Value };
    let c = m.constrain(
        crate::types::ColumnConstraint::Equals(column, crate::types::QueryValue::TypedValue(value)),
    );
    lemma_narrow_unbound_column(c, column, ValueTypeSet::unit_of(value.type_of()), c.cols.len());
}

/// The clause is a pattern, a predicate or a function: it nests no clauses.
pub open spec fn plain(c: WhereClause) -> bool {
    c is Pattern || c is Pred || c is WhereFn
}

/// Plain clauses have one outcome: two outcomes of the same plain clauses
/// on the same clauses are the same.
pub proof fn lemma_plain_clauses_deterministic(
    pre: CcModel,
    schema: Schema,
    cs: Vec<WhereClause>,
    n: nat,
    a: Result<CcModel, AlgebrizerError>,
    b: Result<CcModel, AlgebrizerError>,
)
    requires
        n <= cs@.len(),
        forall|i: int| 0 <= i < n ==> plain(#[trigger] cs@[i]),
        applies_all(pre, schema, cs, n, a),
        applies_all(pre, schema, cs, n, b),
    ensures
        a == b,
    decreases n,
{
    if n > 0 {
        let ma = choose|mid: Result<CcModel, AlgebrizerError>|
            (#[trigger] outcome(mid)) && applies_all(pre, schema, cs, (n - 1) as nat, mid)
                && continues(mid, schema, cs@[n - 1], a);
        let mb = choose|mid: Result<CcModel, AlgebrizerError>|
            (#[trigger] outcome(mid)) && applies_all(pre, schema, cs, (n - 1) as nat, mid)
                && continues(mid, schema, cs@[n - 1], b);
        lemma_plain_clauses_deterministic(pre, schema, cs, (n - 1) as nat, ma, mb);
        assert(plain(cs@[n - 1]));
    }
}

/// The validation of a query against given clauses has one outcome.
pub proof fn lemma_validation_deterministic(
    m: CcModel,
    q: FindQuery,
    a: Option<AlgebrizerError>,
    b: Option<AlgebrizerError>,
)
    requires
        validates(m, q, a),
        validates(m, q, b),
    ensures
        a == b,
{
    if !m.is_empty() && some_unbound(m, q) {
        let ka = choose|k: int|
            (#[trigger] first_unbound(m, q, k)) && a == Some(
                AlgebrizerError::UnboundVariable(crate::algebrize::query_variable(q, k).name),
            );
        let kb = choose|k: int|
            (#[trigger] first_unbound(m, q, k)) && b == Some(
                AlgebrizerError::UnboundVariable(crate::algebrize::query_variable(q, k).name),
            );
        if ka < kb {
            assert(crate::algebrize::bound(m, crate::algebrize::query_variable(q, ka).name@));
        }
        if kb < ka {
            assert(crate::algebrize::bound(m, crate::algebrize::query_variable(q, kb).name@));
        }
    }
}

/// Algebrizing a query of plain clauses twice on the same inputs comes to
/// the same clauses or to the same error.
pub proof fn lemma_algebrization_deterministic(
    schema: Schema,
    q: FindQuery,
    offset: u64,
    values: Seq<(Variable, TypedValue)>,
    a: Result<CcModel, AlgebrizerError>,
    b: Result<CcModel, AlgebrizerError>,
)
    requires
        forall|i: int| 0 <= i < q.where_clauses@.len() ==> plain(#[trigger] q.where_clauses@[i]),
        algebrizes(schema, q, offset, values, a),
        algebrizes(schema, q, offset, values, b),
    ensures
        a == b,
{
    let start = initial(offset, q.in_vars@, values);
    let n = q.where_clauses@.len();
    let ba = choose|body: Result<CcModel, AlgebrizerError>|
        (#[trigger] outcome(body)) && applies_all(start, schema, q.where_clauses, n, body)
            && match body {
            Err(e) => a == Err::<CcModel, AlgebrizerError>(e),
            Ok(x) => match x.with_requirements(
                q.find_spec.elements(),
                q.find_spec.elements().len(),
            ).close() {
                Err(e) => a == Err::<CcModel, AlgebrizerError>(e),
                Ok(c) => match a {
                    Ok(m) => m == c && validates(c, q, None),
                    Err(e) => validates(c, q, Some(e)),
                },
            },
        };
    let bb = choose|body: Result<CcModel, AlgebrizerError>|
        (#[trigger] outcome(body)) && applies_all(start, schema, q.where_clauses, n, body)
            && match body {
            Err(e) => b == Err::<CcModel, AlgebrizerError>(e),
            Ok(x) => match x.with_requirements(
                q.find_spec.elements(),
                q.find_spec.elements().len(),
            ).close() {
                Err(e) => b == Err::<CcModel, AlgebrizerError>(e),
                Ok(c) => match b {
                    Ok(m) => m == c && validates(c, q, None),
                    Err(e) => validates(c, q, Some(e)),
                },
            },
        };
    lemma_plain_clauses_deterministic(start, schema, q.where_clauses, n, ba, bb);
    match ba {
        Ok(x) => match x.with_requirements(
            q.find_spec.elements(),
            q.find_spec.elements().len(),
        ).close() {
            Ok(c) => {
                let va: Option<AlgebrizerError> = match a {
                    Ok(_) => None,
                    Err(e) => Some(e),
                };
                let vb: Option<AlgebrizerError> = match b {
                    Ok(_) => None,
                    Err(e) => Some(e),
                };
                lemma_validation_deterministic(c, q, va, vb);
            },
            Err(_) => {},
        },
        Err(_) => {},
    }
}

/// Emptiness is sticky: clauses that are known empty stay exactly as they
/// are, whatever clauses are applied to them.
pub proof fn lemma_emptiness_sticky(
    pre: CcModel,
    schema: Schema,
    cs: Vec<WhereClause>,
    n: nat,
    out: Result<CcModel, AlgebrizerError>,
)
    requires
        pre.is_empty(),
        n <= cs@.len(),
        applies_all(pre, schema, cs, n, out),
    ensures
        out == Ok::<CcModel, AlgebrizerError>(pre),
    decreases n,
{
    if n > 0 {
        let mid = choose|mid: Result<CcModel, AlgebrizerError>|
            (#[trigger] outcome(mid)) && applies_all(pre, schema, cs, (n - 1) as nat, mid)
                && continues(mid, schema, cs@[n - 1], out);
        lemma_emptiness_sticky(pre, schema, cs, (n - 1) as nat, mid);
    }
}

/// Types are refined monotonically: narrowing a variable leaves it no type
/// that it did not have before, and leaves the other variables what they had.
pub proof fn lemma_narrowing_is_monotone(m: CcModel, var: Variable, set: ValueTypeSet)
    ensures
        forall|t: ValueType|
            m.narrow(var, set).known_set(var.name@).contains(t) ==> m.known_set(
                var.name@,
            ).contains(t) && (m.is_empty() || set.contains(t)),
        forall|other: Seq<char>|
            other != var.name@ ==> m.narrow(var, set).known_set(other) == m.known_set(other),
{
    if !m.is_empty() {
        let existing = m.known_set(var.name@);
        lemma_put(m.known, var, existing.meet(set));
        lemma_meet_laws(existing, set);
        lemma_meet_laws(set, existing);
    }
}

} // verus!
