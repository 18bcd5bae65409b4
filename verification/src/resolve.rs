//! The steps that close a set of clauses: the equalities between the columns
//! of one variable, the pruning of type extractions, and the required types.

use vstd::prelude::*;
use crate::bindings::{
    first_at, first_index, has_key, lemma_first_at, lemma_has_first, lemma_put, lookup, put,
    unique_keys, without,
};
use crate::clauses::{CcModel, ConjoiningClauses};
use crate::query::Variable;
use crate::types::{
    AlgebrizerError, ColumnConstraint, ColumnConstraintOrAlternation, EmptyBecause,
    QualifiedAlias, QueryValue,
};
use crate::value_types::{lemma_meet_laws, ValueTypeSet};

verus! {

/// The constraint that says that column `b` equals column `a`.
pub open spec fn equality(a: QualifiedAlias, b: QualifiedAlias) -> ColumnConstraintOrAlternation {
    ColumnConstraintOrAlternation::Constraint(ColumnConstraint::Equals(a, QueryValue::Column(b)))
}

/// The conjunction `wheres` holds the equality of `a` and `b`.
pub open spec fn equates(
    wheres: Seq<ColumnConstraintOrAlternation>,
    a: QualifiedAlias,
    b: QualifiedAlias,
) -> bool {
    exists|k: int| 0 <= k < wheres.len() && #[trigger] wheres[k] == equality(a, b)
}

/// The first column that the variable of binding `i` was bound to.
pub open spec fn hub(cols: Seq<(Variable, QualifiedAlias)>, i: int) -> QualifiedAlias {
    cols[first_index(cols, cols[i].0.name@)].1
}

/// Binding `i` is the first one of its variable.
pub open spec fn leads(cols: Seq<(Variable, QualifiedAlias)>, i: int) -> bool {
    0 <= i < cols.len() && first_index(cols, cols[i].0.name@) == i
}

/// Binding `j` is a later binding of the variable of binding `i`.
pub open spec fn follows(cols: Seq<(Variable, QualifiedAlias)>, i: int, j: int) -> bool {
    0 <= i < j < cols.len() && cols[j].0.name@ == cols[i].0.name@
}

/// `wheres` after the missing equalities between column `i` and the later
/// columns of its variable among the first `m` bindings have been added.
pub open spec fn expand_group(
    cols: Seq<(Variable, QualifiedAlias)>,
    wheres: Seq<ColumnConstraintOrAlternation>,
    i: int,
    m: nat,
) -> Seq<ColumnConstraintOrAlternation>
    decreases m,
{
    if m == 0 {
        wheres
    } else {
        let w = expand_group(cols, wheres, i, (m - 1) as nat);
        if follows(cols, i, m - 1) && !equates(w, cols[i].1, cols[m - 1].1) {
            w.push(equality(cols[i].1, cols[m - 1].1))
        } else {
            w
        }
    }
}

/// `wheres` after the variables that are first bound among the first `n`
/// bindings have had their missing equalities added, variable by variable.
pub open spec fn expand_wheres(
    cols: Seq<(Variable, QualifiedAlias)>,
    wheres: Seq<ColumnConstraintOrAlternation>,
    n: nat,
) -> Seq<ColumnConstraintOrAlternation>
    decreases n,
{
    if n == 0 {
        wheres
    } else {
        let w = expand_wheres(cols, wheres, (n - 1) as nat);
        if leads(cols, n - 1) {
            expand_group(cols, w, n - 1, cols.len())
        } else {
            w
        }
    }
}

/// Column `i` is equated to each later column of its variable among the first `m` bindings.
pub open spec fn group_equated(
    cols: Seq<(Variable, QualifiedAlias)>,
    wheres: Seq<ColumnConstraintOrAlternation>,
    i: int,
    m: nat,
) -> bool {
    forall|j: int|
        j < m && #[trigger] follows(cols, i, j) ==> equates(wheres, cols[i].1, cols[j].1)
}

/// Each variable first bound among the first `n` bindings has its first
/// column equated to each of its later columns.
pub open spec fn bindings_equated(
    cols: Seq<(Variable, QualifiedAlias)>,
    wheres: Seq<ColumnConstraintOrAlternation>,
    n: nat,
) -> bool {
    forall|i: int|
        i < n && #[trigger] leads(cols, i) ==> group_equated(cols, wheres, i, cols.len())
}

impl CcModel {
    /// The clauses with every missing equality between the columns of one variable added.
    pub open spec fn expand(self) -> CcModel {
        if self.is_empty() {
            self
        } else {
            CcModel { wheres: expand_wheres(self.cols, self.wheres, self.cols.len()), ..self }
        }
    }

    /// The extractions left after those of the first `n` known types that are a single type
    /// have been dropped.
    pub open spec fn pruned(self, n: nat) -> Seq<(Variable, QualifiedAlias)>
        decreases n,
    {
        if n == 0 {
            self.extracted
        } else {
            let e = self.pruned((n - 1) as nat);
            if n <= self.known.len() && self.known[n - 1].1.is_unit_spec() {
                without(e, self.known[n - 1].0.name@)
            } else {
                e
            }
        }
    }

    pub open spec fn prune(self) -> CcModel {
        if self.is_empty() {
            self
        } else {
            CcModel { extracted: self.pruned(self.known.len()), ..self }
        }
    }

    /// What one required type does to the clauses.
    pub open spec fn require_step(self, var: Variable, required: ValueTypeSet) -> Result<
        CcModel,
        AlgebrizerError,
    > {
        let known = self.known_set(var.name@);
        if self.is_empty() {
            Ok(self)
        } else if known.meet(required).bits == 0 {
            Ok(self.mark_empty(EmptyBecause::TypeMismatch { var, existing: known, desired: required }))
        } else if known.meet(required) == known {
            Ok(self)
        } else {
            match lookup(self.extracted, var.name@) {
                None => Err(AlgebrizerError::UnboundVariable(var.name)),
                Some(column) => Ok(
                    CcModel {
                        wheres: self.wheres.push(
                            ColumnConstraintOrAlternation::Constraint(
                                ColumnConstraint::HasTypes {
                                    value: column.alias,
                                    value_types: required,
                                    check_value: true,
                                },
                            ),
                        ),
                        known: put(self.known, var, known.meet(required)),
                        ..self
                    },
                ),
            }
        }
    }

    /// The clauses after the first `n` required types, or the first error.
    pub open spec fn require_upto(self, n: nat) -> Result<CcModel, AlgebrizerError>
        decreases n,
    {
        if n == 0 {
            Ok(self)
        } else {
            match self.require_upto((n - 1) as nat) {
                Err(e) => Err(e),
                Ok(m) => if n <= self.required.len() {
                    m.require_step(self.required[n - 1].0, self.required[n - 1].1)
                } else {
                    Ok(m)
                },
            }
        }
    }

    pub open spec fn process_required(self) -> Result<CcModel, AlgebrizerError> {
        self.require_upto(self.required.len())
    }
}

/// One more constraint keeps what was equated.
pub proof fn lemma_equates_push(
    w: Seq<ColumnConstraintOrAlternation>,
    c: ColumnConstraintOrAlternation,
    a: QualifiedAlias,
    b: QualifiedAlias,
)
    requires
        equates(w, a, b),
    ensures
        equates(w.push(c), a, b),
{
    let k = choose|k: int| 0 <= k < w.len() && #[trigger] w[k] == equality(a, b);
    assert(w.push(c)[k] == equality(a, b));
}

/// Expanding one variable keeps what was equated.
pub proof fn lemma_group_grows(
    cols: Seq<(Variable, QualifiedAlias)>,
    wheres: Seq<ColumnConstraintOrAlternation>,
    i: int,
    m: nat,
)
    ensures
        forall|a: QualifiedAlias, b: QualifiedAlias|
            equates(wheres, a, b) ==> equates(expand_group(cols, wheres, i, m), a, b),
    decreases m,
{
    if m > 0 {
        lemma_group_grows(cols, wheres, i, (m - 1) as nat);
        let w = expand_group(cols, wheres, i, (m - 1) as nat);
        assert forall|a: QualifiedAlias, b: QualifiedAlias| equates(wheres, a, b) implies equates(
            expand_group(cols, wheres, i, m),
            a,
            b,
        ) by {
            lemma_equates_push(w, equality(cols[i].1, cols[m - 1].1), a, b);
        }
    }
}

/// After one variable has been expanded, its first column is equated to its later ones.
pub proof fn lemma_group_equates(
    cols: Seq<(Variable, QualifiedAlias)>,
    wheres: Seq<ColumnConstraintOrAlternation>,
    i: int,
    m: nat,
)
    ensures
        group_equated(cols, expand_group(cols, wheres, i, m), i, m),
    decreases m,
{
    if m > 0 {
        lemma_group_equates(cols, wheres, i, (m - 1) as nat);
        let w = expand_group(cols, wheres, i, (m - 1) as nat);
        let r = expand_group(cols, wheres, i, m);
        assert forall|j: int| j < m && #[trigger] follows(cols, i, j) implies equates(
            r,
            cols[i].1,
            cols[j].1,
        ) by {
            if j < m - 1 || equates(w, cols[i].1, cols[j].1) {
                if r != w {
                    lemma_equates_push(
                        w,
                        equality(cols[i].1, cols[m - 1].1),
                        cols[i].1,
                        cols[j].1,
                    );
                }
            } else {
                assert(r[w.len() as int] == equality(cols[i].1, cols[j].1));
            }
        }
    }
}

/// After the first `n` bindings have been gone through, each variable first
/// bound among them has its columns equated.
pub proof fn lemma_expand_equates(
    cols: Seq<(Variable, QualifiedAlias)>,
    wheres: Seq<ColumnConstraintOrAlternation>,
    n: nat,
)
    ensures
        bindings_equated(cols, expand_wheres(cols, wheres, n), n),
    decreases n,
{
    if n > 0 {
        lemma_expand_equates(cols, wheres, (n - 1) as nat);
        let w = expand_wheres(cols, wheres, (n - 1) as nat);
        let r = expand_wheres(cols, wheres, n);
        if leads(cols, n - 1) {
            lemma_group_grows(cols, w, n - 1, cols.len());
            lemma_group_equates(cols, w, n - 1, cols.len());
        }
        assert forall|i: int| i < n && #[trigger] leads(cols, i) implies group_equated(
            cols,
            r,
            i,
            cols.len(),
        ) by {
            if i < n - 1 {
                assert(group_equated(cols, w, i, cols.len()));
                assert forall|j: int|
                    j < cols.len() && #[trigger] follows(cols, i, j) implies equates(
                    r,
                    cols[i].1,
                    cols[j].1,
                ) by {
                    assert(equates(w, cols[i].1, cols[j].1));
                }
            }
        }
    }
}

/// Where the columns of a variable are equated already, expanding it adds nothing.
pub proof fn lemma_group_fixed(
    cols: Seq<(Variable, QualifiedAlias)>,
    wheres: Seq<ColumnConstraintOrAlternation>,
    i: int,
    m: nat,
)
    requires
        group_equated(cols, wheres, i, m),
    ensures
        expand_group(cols, wheres, i, m) == wheres,
    decreases m,
{
    if m > 0 {
        lemma_group_fixed(cols, wheres, i, (m - 1) as nat);
        if follows(cols, i, m - 1) {
            assert(equates(wheres, cols[i].1, cols[m - 1].1));
        }
    }
}

/// Where every variable has its columns equated already, expanding adds nothing.
pub proof fn lemma_expand_fixed(
    cols: Seq<(Variable, QualifiedAlias)>,
    wheres: Seq<ColumnConstraintOrAlternation>,
    n: nat,
)
    requires
        bindings_equated(cols, wheres, n),
    ensures
        expand_wheres(cols, wheres, n) == wheres,
    decreases n,
{
    if n > 0 {
        lemma_expand_fixed(cols, wheres, (n - 1) as nat);
        if leads(cols, n - 1) {
            assert(group_equated(cols, wheres, n - 1, cols.len()));
            lemma_group_fixed(cols, wheres, n - 1, cols.len());
        }
    }
}

/// Expanding the column bindings a second time changes nothing.
pub proof fn lemma_expand_idempotent(m: CcModel)
    ensures
        m.expand().expand() == m.expand(),
{
    if !m.is_empty() {
        lemma_expand_equates(m.cols, m.wheres, m.cols.len());
        lemma_expand_fixed(m.cols, m.expand().wheres, m.cols.len());
    }
}

/// After expansion any two columns of one variable are joined through the
/// variable's first column: each is that column or is equated to it.
pub proof fn lemma_expanded_columns_connected(m: CcModel, i: int, j: int)
    requires
        !m.is_empty(),
        0 <= i < m.cols.len(),
        0 <= j < m.cols.len(),
        m.cols[i].0.name@ == m.cols[j].0.name@,
    ensures
        hub(m.cols, i) == hub(m.cols, j),
        m.cols[i].1 == hub(m.cols, i) || equates(m.expand().wheres, hub(m.cols, i), m.cols[i].1),
        m.cols[j].1 == hub(m.cols, i) || equates(m.expand().wheres, hub(m.cols, i), m.cols[j].1),
{
    let name = m.cols[i].0.name@;
    let w = m.expand().wheres;
    lemma_expand_equates(m.cols, m.wheres, m.cols.len());
    assert(has_key(m.cols, name));
    lemma_has_first(m.cols, name);
    let h = first_index(m.cols, name);
    assert(leads(m.cols, h));
    assert(group_equated(m.cols, w, h, m.cols.len()));
    if i != h {
        assert(follows(m.cols, h, i));
    }
    if j != h {
        assert(follows(m.cols, h, j));
    }
}

/// Taking out an entry keeps the keys unique.
pub proof fn lemma_without_unique<V>(s: Seq<(Variable, V)>, name: Seq<char>)
    requires
        unique_keys(s),
    ensures
        unique_keys(without(s, name)),
        !has_key(without(s, name), name),
        forall|n: Seq<char>| n != name ==> lookup(without(s, name), n) == lookup(s, n),
{
    let t = without(s, name);
    if has_key(s, name) {
        lemma_has_first(s, name);
        let k = first_index(s, name);
        assert forall|i: int, j: int| 0 <= i < j < t.len() implies (#[trigger] t[i]).0.name@ != (
        #[trigger] t[j]).0.name@ by {
            let a = if i < k { i } else { i + 1 };
            let b = if j < k { j } else { j + 1 };
            assert(t[i] == s[a]);
            assert(t[j] == s[b]);
        }
        if has_key(t, name) {
            let i = choose|i: int| 0 <= i < t.len() && (#[trigger] t[i]).0.name@ == name;
            let a = if i < k { i } else { i + 1 };
            assert(t[i] == s[a]);
            if a < k {
                assert(s[a].0.name@ != s[k].0.name@);
            } else {
                assert(s[k].0.name@ != s[a].0.name@);
            }
        }
        assert forall|n: Seq<char>| n != name implies lookup(t, n) == lookup(s, n) by {
            if has_key(s, n) {
                lemma_has_first(s, n);
                let a = first_index(s, n);
                let i = if a < k { a } else { a - 1 };
                assert(t[i] == s[a]);
                assert forall|x: int| 0 <= x < i implies (#[trigger] t[x]).0.name@ != n by {
                    let y = if x < k { x } else { x + 1 };
                    assert(t[x] == s[y]);
                }
                assert(first_at(t, n, i));
                lemma_first_at(t, n, i);
            } else if has_key(t, n) {
                let i = choose|i: int| 0 <= i < t.len() && (#[trigger] t[i]).0.name@ == n;
                let a = if i < k { i } else { i + 1 };
                assert(t[i] == s[a]);
            }
        }
    }
}

/// Pruning keeps the keys of the extractions unique.
pub proof fn lemma_pruned_unique(m: CcModel, n: nat)
    requires
        unique_keys(m.extracted),
    ensures
        unique_keys(m.pruned(n)),
    decreases n,
{
    if n > 0 {
        lemma_pruned_unique(m, (n - 1) as nat);
        if n <= m.known.len() {
            lemma_without_unique(m.pruned((n - 1) as nat), m.known[n - 1].0.name@);
        }
    }
}

impl ConjoiningClauses {
    /// Whether the conjunction holds the equality of `a` and `b`.
    pub fn has_equality(&self, a: QualifiedAlias, b: QualifiedAlias) -> (r: bool)
        ensures
            r == equates(self@.wheres, a, b),
    {
        let mut k: usize = 0;
        while k < self.wheres.0.len()
            invariant
                k <= self.wheres.0.len(),
                forall|j: int| 0 <= j < k ==> #[trigger] self@.wheres[j] != equality(a, b),
            decreases self.wheres.0.len() - k,
        {
            let found: bool = match &self.wheres.0[k] {
                ColumnConstraintOrAlternation::Constraint(
                    ColumnConstraint::Equals(q, QueryValue::Column(c)),
                ) => *q == a && *c == b,
                _ => false,
            };
            if found {
                assert(self@.wheres[k as int] == equality(a, b));
                return true;
            }
            k = k + 1;
        }
        false
    }

    /// Adds, variable by variable in the order of their first binding, the
    /// equalities between a variable's first column and each later one that
    /// the conjunction does not hold yet.
    pub fn expand_column_bindings(&mut self)
        ensures
            final(self)@ == old(self)@.expand(),
            !old(self)@.is_empty() ==> bindings_equated(
                final(self)@.cols,
                final(self)@.wheres,
                final(self)@.cols.len(),
            ),
            old(self)@.wf() ==> final(self)@.wf(),
    {
        if self.is_known_empty() {
            return ;
        }
        let n: usize = self.column_bindings.len();
        let mut i: usize = 0;
        while i < n
            invariant
                i <= n,
                n == old(self)@.cols.len(),
                !old(self)@.is_empty(),
                self@ == (CcModel {
                    wheres: expand_wheres(old(self)@.cols, old(self)@.wheres, i as nat),
                    ..old(self)@
                }),
            decreases n - i,
        {
            let var = self.column_bindings.entries[i].0.duplicate();
            let first: QualifiedAlias = self.column_bindings.entries[i].1;
            let leader: bool = match self.column_bindings.find(&var) {
                Some(k) => k == i,
                None => false,
            };
            if leader {
                let ghost before = self@.wheres;
                let mut j: usize = 0;
                while j < n
                    invariant
                        j <= n,
                        i < n,
                        n == old(self)@.cols.len(),
                        var == old(self)@.cols[i as int].0,
                        first == old(self)@.cols[i as int].1,
                        self@ == (CcModel {
                            wheres: expand_group(old(self)@.cols, before, i as int, j as nat),
                            ..old(self)@
                        }),
                    decreases n - j,
                {
                    if j > i && self.column_bindings.entries[j].0.same(&var) {
                        let column: QualifiedAlias = self.column_bindings.entries[j].1;
                        if !self.has_equality(first, column) {
                            self.wheres.add_intersection(
                                ColumnConstraint::Equals(first, QueryValue::Column(column)),
                            );
                        }
                    }
                    j = j + 1;
                }
            }
            i = i + 1;
        }
        proof {
            lemma_expand_equates(old(self)@.cols, old(self)@.wheres, n as nat);
        }
    }

    /// Drops the type extraction of each variable that is known to have a single type.
    pub fn prune_extracted_types(&mut self)
        ensures
            final(self)@ == old(self)@.prune(),
            old(self)@.wf() ==> final(self)@.wf(),
    {
        if self.is_known_empty() {
            return ;
        }
        let n: usize = self.known_types.len();
        let mut i: usize = 0;
        while i < n
            invariant
                i <= n,
                n == old(self)@.known.len(),
                !old(self)@.is_empty(),
                self@ == (CcModel { extracted: old(self)@.pruned(i as nat), ..old(self)@ }),
            decreases n - i,
        {
            if self.known_types.entries[i].1.is_unit() {
                let var = self.known_types.entries[i].0.duplicate();
                self.extracted_types.remove(&var);
            }
            i = i + 1;
        }
        proof {
            if old(self)@.wf() {
                lemma_pruned_unique(old(self)@, n as nat);
            }
        }
    }
}


/// One required type keeps the clauses well formed and the requirements as they were.
pub proof fn lemma_require_step_wf(m: CcModel, var: Variable, required: ValueTypeSet)
    requires
        m.wf(),
    ensures
        match m.require_step(var, required) {
            Ok(r) => r.wf() && r.required == m.required && r.from == m.from && r.cols == m.cols
                && r.counter == m.counter && r.values == m.values && r.inputs == m.inputs
                && r.extracted == m.extracted && r.computed == m.computed && (m.is_empty()
                ==> r == m),
            Err(_) => true,
        },
{
    let known = m.known_set(var.name@);
    let both = known.meet(required);
    if !m.is_empty() && both.bits != 0 && both != known && lookup(m.extracted, var.name@).is_some() {
        let r = m.require_step(var, required).unwrap();
        lemma_put(m.known, var, both);
        assert forall|i: int| 0 <= i < r.values.len() implies lookup(
            r.known,
            (#[trigger] r.values[i]).0.name@,
        ) == Some(ValueTypeSet::unit_of(r.values[i].1.type_of())) by {
            let n = m.values[i].0.name@;
            assert(lookup(m.known, n) == Some(ValueTypeSet::unit_of(m.values[i].1.type_of())));
            if n == var.name@ {
                let b = m.values[i].1.type_of().bit();
                let y = required.bits;
                assert(b & y == 0 || b & y == b) by (bit_vector)
                    requires
                        b == 1 || b == 2 || b == 4 || b == 8 || b == 16 || b == 32 || b == 64 || b
                            == 128,
                ;
            }
        }
    }
}

/// The first `n` required types keep the clauses well formed.
pub proof fn lemma_require_upto_wf(m: CcModel, n: nat)
    requires
        m.wf(),
    ensures
        match m.require_upto(n) {
            Ok(r) => r.wf() && r.required == m.required && r.from == m.from && r.cols == m.cols
                && r.counter == m.counter && r.values == m.values && r.inputs == m.inputs
                && r.extracted == m.extracted && r.computed == m.computed && (m.is_empty()
                ==> r == m),
            Err(_) => true,
        },
    decreases n,
{
    if n > 0 {
        lemma_require_upto_wf(m, (n - 1) as nat);
        match m.require_upto((n - 1) as nat) {
            Ok(p) => {
                if n <= m.required.len() {
                    lemma_require_step_wf(p, m.required[n - 1].0, m.required[n - 1].1);
                }
            },
            Err(_) => {},
        }
    }
}

/// An error at one required type is the result, whatever follows it.
pub proof fn lemma_require_error_stays(m: CcModel, k: nat, n: nat)
    requires
        k <= n,
        m.require_upto(k).is_err(),
    ensures
        m.require_upto(n) == m.require_upto(k),
    decreases n,
{
    if n > k {
        lemma_require_error_stays(m, k, (n - 1) as nat);
    }
}

/// What is known of `var` lies within `required` and is not nothing: the
/// requirement asks nothing more of the clauses.
pub open spec fn settled(m: CcModel, var: Variable, required: ValueTypeSet) -> bool {
    m.known_set(var.name@).meet(required) == m.known_set(var.name@) && m.known_set(var.name@).bits
        != 0
}

/// After the first `n` required types the clauses are known empty or each of
/// those requirements is settled.
pub proof fn lemma_require_settles(m: CcModel, n: nat)
    requires
        unique_keys(m.required),
        n <= m.required.len(),
    ensures
        match m.require_upto(n) {
            Ok(r) => r.required == m.required && (r.is_empty() || forall|i: int|
                0 <= i < n ==> settled(r, (#[trigger] m.required[i]).0, m.required[i].1)),
            Err(_) => true,
        },
    decreases n,
{
    if n > 0 {
        lemma_require_settles(m, (n - 1) as nat);
        match m.require_upto((n - 1) as nat) {
            Ok(p) => {
                let var = m.required[n - 1].0;
                let required = m.required[n - 1].1;
                let known = p.known_set(var.name@);
                let both = known.meet(required);
                lemma_meet_laws(known, required);
                match p.require_step(var, required) {
                    Ok(r) => {
                        if !r.is_empty() {
                            lemma_put(p.known, var, both);
                            assert forall|i: int| 0 <= i < n implies settled(
                                r,
                                (#[trigger] m.required[i]).0,
                                m.required[i].1,
                            ) by {
                                if i < n - 1 {
                                    assert(settled(p, m.required[i].0, m.required[i].1));
                                    assert(m.required[i].0.name@ != m.required[n - 1].0.name@);
                                }
                            }
                        }
                    },
                    Err(_) => {},
                }
            },
            Err(_) => {},
        }
    }
}

/// Clauses that are known empty, or in which the requirements are settled,
/// are left as they are by the required types.
pub proof fn lemma_require_fixed(r: CcModel, n: nat)
    requires
        n <= r.required.len(),
        r.is_empty() || forall|i: int|
            0 <= i < n ==> settled(r, (#[trigger] r.required[i]).0, r.required[i].1),
    ensures
        r.require_upto(n) == Ok::<CcModel, AlgebrizerError>(r),
    decreases n,
{
    if n > 0 {
        lemma_require_fixed(r, (n - 1) as nat);
        if !r.is_empty() {
            assert(settled(r, r.required[n - 1].0, r.required[n - 1].1));
        }
    }
}

/// Processing the required types a second time changes nothing.
pub proof fn lemma_process_required_idempotent(m: CcModel)
    requires
        unique_keys(m.required),
    ensures
        match m.process_required() {
            Ok(r) => r.process_required() == Ok::<CcModel, AlgebrizerError>(r),
            Err(_) => true,
        },
{
    lemma_require_settles(m, m.required.len());
    match m.process_required() {
        Ok(r) => {
            lemma_require_fixed(r, r.required.len());
        },
        Err(_) => {},
    }
}

impl ConjoiningClauses {
    /// Holds what is known of each variable against what is required of it:
    /// a requirement that nothing meets marks the clauses empty, one that
    /// narrows adds a check of the type tag, and one on a variable whose
    /// type cannot be read from any column is an error.
    pub fn process_required_types(&mut self) -> (r: Result<(), AlgebrizerError>)
        ensures
            match r {
                Ok(()) => old(self)@.process_required() == Ok::<CcModel, AlgebrizerError>(
                    final(self)@,
                ),
                Err(e) => old(self)@.process_required() == Err::<CcModel, AlgebrizerError>(e),
            },
            old(self)@.wf() && r.is_ok() ==> final(self)@.wf(),
    {
        let n: usize = self.required_types.len();
        let mut i: usize = 0;
        while i < n
            invariant
                i <= n,
                n == old(self)@.required.len(),
                self@.required == old(self)@.required,
                old(self)@.require_upto(i as nat) == Ok::<CcModel, AlgebrizerError>(self@),
            decreases n - i,
        {
            if !self.is_known_empty() {
                let var = self.required_types.entries[i].0.duplicate();
                let required: ValueTypeSet = self.required_types.entries[i].1;
                let known = self.known_type_set(&var);
                let both = known.intersection(&required);
                if both.is_empty() {
                    self.mark_known_empty(
                        EmptyBecause::TypeMismatch { var, existing: known, desired: required },
                    );
                } else if both == known {
                } else {
                    let column: Option<QualifiedAlias> = match self.extracted_types.get(&var) {
                        Some(c) => Some(*c),
                        None => None,
                    };
                    match column {
                        None => {
                            proof {
                                lemma_require_error_stays(old(self)@, (i + 1) as nat, n as nat);
                            }
                            return Err(AlgebrizerError::UnboundVariable(var.name()));
                        },
                        Some(c) => {
                            self.wheres.add_intersection(
                                ColumnConstraint::HasTypes {
                                    value: c.alias,
                                    value_types: required,
                                    check_value: true,
                                },
                            );
                            self.known_types.insert(&var, both);
                        },
                    }
                }
            }
            i = i + 1;
        }
        proof {
            if old(self)@.wf() {
                lemma_require_upto_wf(old(self)@, n as nat);
            }
        }
        Ok(())
    }
}

} // verus!
