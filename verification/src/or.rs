//! Alternation: `(or ...)` and `(or-join [...] ...)` over patterns.

use vstd::prelude::*;
use crate::bindings::{has_key, lookup, put, unique_keys, VarMap};
use crate::clauses::{CcModel, ConjoiningClauses};
use crate::not::lemma_template_wf;
use crate::query::pattern_variables;
use crate::query::{all_among, variables_among, variables_of_pattern, OrJoin, Variable};
use crate::schema::Schema;
use crate::types::{
    AlgebrizerError, ColumnAlternation, ColumnConstraintOrAlternation, ColumnIntersection,
    EmptyBecause, QualifiedAlias, SourceAlias, TableAlias,
};
use crate::value_types::ValueTypeSet;

verus! {

impl CcModel {
    /// The column bindings of the child of an alternation over the first `n`
    /// of `vars`: each variable that has no value here and is bound to
    /// columns here is bound to the first of them.
    pub open spec fn joined_columns(self, vars: Seq<Variable>, n: nat) -> Seq<
        (Variable, QualifiedAlias),
    >
        decreases n,
    {
        if n == 0 {
            Seq::empty()
        } else {
            let c = self.joined_columns(vars, (n - 1) as nat);
            if n > vars.len() || has_key(self.values, vars[n - 1].name@) {
                c
            } else {
                match lookup(self.cols, vars[n - 1].name@) {
                    Some(column) => put(c, vars[n - 1], column),
                    None => c,
                }
            }
        }
    }

    /// The child that each branch of an alternation over `vars` starts from:
    /// the template, with the variables tied to the columns that bind them
    /// here. A variable that nothing binds here is left to the branch.
    pub open spec fn open_child(self, vars: Seq<Variable>) -> CcModel {
        CcModel {
            cols: self.joined_columns(vars, vars.len()),
            ..self.template(vars, vars.len())
        }
    }
}

/// Every pattern of the alternation mentions the variables `vars` and no others.
pub open spec fn branches_match(o: OrJoin, vars: Seq<Variable>) -> bool {
    forall|i: int|
        0 <= i < o.clauses@.len() ==> all_among(
            pattern_variables(#[trigger] o.clauses@[i]),
            vars,
        ) && all_among(vars, pattern_variables(o.clauses@[i]))
}

/// The constraint that one of the conjunctions of `alt` holds.
pub open spec fn alternation(alt: ColumnAlternation) -> ColumnConstraintOrAlternation {
    ColumnConstraintOrAlternation::Alternation(alt)
}

/// What the `i`-th branch of the alternation makes of the child it starts from.
pub open spec fn branch(pre: CcModel, schema: Schema, o: OrJoin, i: int) -> Result<
    CcModel,
    AlgebrizerError,
> {
    pre.open_child(o.unified()).apply_pattern(schema, o.clauses@[i])
}

/// The `i`-th branch cannot be applied.
pub open spec fn fails(pre: CcModel, schema: Schema, o: OrJoin, i: int) -> bool {
    0 <= i < o.clauses@.len() && branch(pre, schema, o, i).is_err()
}

/// The `i`-th branch is applied and is not known empty.
pub open spec fn survives(pre: CcModel, schema: Schema, o: OrJoin, i: int) -> bool {
    0 <= i < o.clauses@.len() && branch(pre, schema, o, i).is_ok() && !branch(
        pre,
        schema,
        o,
        i,
    ).unwrap().is_empty()
}

pub open spec fn some_fails(pre: CcModel, schema: Schema, o: OrJoin) -> bool {
    exists|i: int| #[trigger] fails(pre, schema, o, i)
}

/// What the surviving branches among the first `n` made of their children, in order.
pub open spec fn survivors(pre: CcModel, schema: Schema, o: OrJoin, n: nat) -> Seq<CcModel>
    decreases n,
{
    if n == 0 {
        Seq::empty()
    } else {
        let before = survivors(pre, schema, o, (n - 1) as nat);
        if survives(pre, schema, o, n - 1) {
            before.push(branch(pre, schema, o, n - 1).unwrap())
        } else {
            before
        }
    }
}

/// What each of the clauses holds.
pub open spec fn models(branches: Seq<ConjoiningClauses>) -> Seq<CcModel> {
    Seq::new(branches.len(), |k: int| branches[k]@)
}

/// The two lists bind the same variables to the same columns in the same order.
pub open spec fn same_columns(
    a: Seq<(Variable, QualifiedAlias)>,
    b: Seq<(Variable, QualifiedAlias)>,
) -> bool {
    a.len() == b.len() && forall|i: int|
        0 <= i < a.len() ==> (#[trigger] a[i]).0.name@ == b[i].0.name@ && a[i].1 == b[i].1
}

/// The branches were resolved against one table alias, the next one that
/// `pre` gives out for its table, and bound the same columns, at least
/// `base` of them.
pub open spec fn agree(pre: CcModel, branches: Seq<CcModel>, base: nat) -> bool {
    &&& branches.len() > 0
    &&& branches[0].from.len() == 1
    &&& branches[0].cols.len() >= base
    &&& branches[0].from[0].alias == (TableAlias {
        table: branches[0].from[0].table,
        index: pre.counter.next(branches[0].from[0].table),
    })
    &&& forall|k: int|
        1 <= k < branches.len() ==> (#[trigger] branches[k]).from.len() == 1
            && branches[k].from[0] == branches[0].from[0] && same_columns(
            branches[k].cols,
            branches[0].cols,
        )
}

/// The types that the first `n` of the branches leave to `name`, taken together.
pub open spec fn joined(branches: Seq<CcModel>, name: Seq<char>, n: nat) -> ValueTypeSet
    decreases n,
{
    if n == 0 {
        ValueTypeSet { bits: 0 }
    } else if n <= branches.len() {
        joined(branches, name, (n - 1) as nat).join(branches[n - 1].known_set(name))
    } else {
        joined(branches, name, (n - 1) as nat)
    }
}

/// `mine` with each of the first `n` extractions of `theirs` whose variable
/// has none in it yet.
pub open spec fn adopted(
    mine: Seq<(Variable, QualifiedAlias)>,
    theirs: Seq<(Variable, QualifiedAlias)>,
    n: nat,
) -> Seq<(Variable, QualifiedAlias)>
    decreases n,
{
    if n == 0 {
        mine
    } else {
        let e = adopted(mine, theirs, (n - 1) as nat);
        if n <= theirs.len() && !has_key(e, theirs[n - 1].0.name@) {
            e.push(theirs[n - 1])
        } else {
            e
        }
    }
}

impl CcModel {
    /// These clauses with each of the first `n` of `vars` narrowed to the
    /// types that the branches leave to it.
    pub open spec fn narrowed_to(self, branches: Seq<CcModel>, vars: Seq<Variable>, n: nat) -> CcModel
        decreases n,
    {
        if n == 0 {
            self
        } else if n <= vars.len() {
            self.narrowed_to(branches, vars, (n - 1) as nat).narrow(
                vars[n - 1],
                joined(branches, vars[n - 1].name@, branches.len()),
            )
        } else {
            self.narrowed_to(branches, vars, (n - 1) as nat)
        }
    }

    /// These clauses with the columns that `first` bound beyond its first
    /// `base`, and with the type extractions of `first` that these lack.
    pub open spec fn adopting(self, first: CcModel, base: nat) -> CcModel {
        CcModel {
            cols: self.cols + first.cols.subrange(base as int, first.cols.len() as int),
            extracted: adopted(self.extracted, first.extracted, first.extracted.len()),
            ..self
        }
    }

    /// These clauses with what the branches that agree bring, but for
    /// their constraints: the table alias, the columns and type extractions
    /// of the first branch, and the types of the variables `vars`.
    pub open spec fn merged(self, branches: Seq<CcModel>, vars: Seq<Variable>, base: nat) -> CcModel {
        self.with_alias(branches[0].from[0].table).adopting(branches[0], base).narrowed_to(
            branches,
            vars,
            vars.len(),
        )
    }
}

/// The conjunction `wheres` is `before` with the constraints of the
/// branches: those of one branch spliced in, or one alternation that holds
/// the constraints of each branch, in order.
pub open spec fn branches_joined(
    before: Seq<ColumnConstraintOrAlternation>,
    branches: Seq<CcModel>,
    wheres: Seq<ColumnConstraintOrAlternation>,
) -> bool {
    if branches.len() == 1 {
        wheres == before + branches[0].wheres
    } else {
        exists|alt: ColumnAlternation|
            {
                &&& wheres == before.push(#[trigger] alternation(alt))
                &&& alt.0@.len() == branches.len()
                &&& forall|k: int|
                    0 <= k < alt.0@.len() ==> (#[trigger] alt.0@[k])@ == branches[k].wheres
            }
    }
}

/// `out` is what the alternation `o` makes of the clauses `pre`. Clauses
/// that are known empty stay as they are, and so do any clauses where the
/// alternation has no branch. One branch is that branch's pattern. With
/// more branches, each must mention the unified variables and no others,
/// or the alternation is an error. Each branch is applied to a child of its
/// own; a branch that cannot be applied is an error. Where every branch is
/// known empty, the clauses are marked empty because no branch matches.
/// The branches that are left must agree on what they bound, or the
/// alternation is an error. Then the clauses take over the table alias of
/// the branches, the columns and type extractions of the first branch, the
/// types that the branches leave to the unified variables, and the
/// constraints of the branches.
pub open spec fn alternates(
    pre: CcModel,
    schema: Schema,
    o: OrJoin,
    out: Result<CcModel, AlgebrizerError>,
) -> bool {
    let left = survivors(pre, schema, o, o.clauses@.len());
    let base = pre.open_child(o.unified()).cols.len();
    if pre.is_empty() || o.clauses@.len() == 0 {
        out == Ok::<CcModel, AlgebrizerError>(pre)
    } else if o.clauses@.len() == 1 {
        out == pre.apply_pattern(schema, o.clauses@[0])
    } else if !branches_match(o, o.unified()) {
        out == Err::<CcModel, AlgebrizerError>(AlgebrizerError::NonMatchingVariablesInOrJoin)
    } else if some_fails(pre, schema, o) {
        out == Err::<CcModel, AlgebrizerError>(AlgebrizerError::AliasesExhausted)
    } else if left.len() == 0 {
        out == Ok::<CcModel, AlgebrizerError>(pre.mark_empty(EmptyBecause::NonMatchingOr))
    } else if !agree(pre, left, base) {
        out == Err::<CcModel, AlgebrizerError>(AlgebrizerError::NonMatchingVariablesInOrJoin)
    } else if pre.counter.next(left[0].from[0].table) == u64::MAX {
        out == Err::<CcModel, AlgebrizerError>(AlgebrizerError::AliasesExhausted)
    } else {
        match out {
            Err(_) => false,
            Ok(m) => m == (CcModel { wheres: m.wheres, ..pre.merged(left, o.unified(), base) })
                && branches_joined(pre.wheres, left, m.wheres),
        }
    }
}

/// Whether two lists of column bindings bind the same variables to the same
/// columns in the same order.
pub fn same_bindings(a: &VarMap<QualifiedAlias>, b: &VarMap<QualifiedAlias>) -> (r: bool)
    ensures
        r == same_columns(a@, b@),
{
    if a.len() != b.len() {
        return false;
    }
    let n: usize = a.len();
    let mut i: usize = 0;
    while i < n
        invariant
            i <= n,
            n == a@.len(),
            a@.len() == b@.len(),
            forall|j: int|
                0 <= j < i ==> (#[trigger] a@[j]).0.name@ == b@[j].0.name@ && a@[j].1 == b@[j].1,
        decreases n - i,
    {
        if !a.entries[i].0.same(&b.entries[i].0) || a.entries[i].1 != b.entries[i].1 {
            return false;
        }
        i = i + 1;
    }
    true
}

/// Narrowing to what the branches leave changes nothing of the conjunction.
pub proof fn lemma_narrowed_keeps_constraints(
    m: CcModel,
    branches: Seq<CcModel>,
    vars: Seq<Variable>,
    n: nat,
)
    ensures
        m.narrowed_to(branches, vars, n).wheres == m.wheres,
        m.narrowed_to(branches, vars, n).computed == m.computed,
    decreases n,
{
    if n > 0 {
        lemma_narrowed_keeps_constraints(m, branches, vars, (n - 1) as nat);
        if n <= vars.len() {
            crate::clauses::lemma_narrow_keeps(
                m.narrowed_to(branches, vars, (n - 1) as nat),
                vars[n - 1],
                joined(branches, vars[n - 1].name@, branches.len()),
            );
        }
    }
}

/// A template binds no column.
pub proof fn lemma_template_no_columns(m: CcModel, vars: Seq<Variable>, n: nat)
    ensures
        m.template(vars, n).cols == Seq::<(Variable, QualifiedAlias)>::empty(),
    decreases n,
{
    if n > 0 {
        lemma_template_no_columns(m, vars, (n - 1) as nat);
    }
}

impl ConjoiningClauses {
    /// The child that each branch of an alternation over `vars` starts from.
    pub fn open_child_for(&self, vars: &Vec<Variable>) -> (r: ConjoiningClauses)
        ensures
            r@ == self@.open_child(vars@),
    {
        let mut c = self.use_as_template(vars);
        proof {
            lemma_template_no_columns(self@, vars@, vars@.len());
        }
        let mut i: usize = 0;
        while i < vars.len()
            invariant
                i <= vars.len(),
                c@ == (CcModel {
                    cols: self@.joined_columns(vars@, i as nat),
                    ..self@.template(vars@, vars@.len())
                }),
            decreases vars.len() - i,
        {
            let v = &vars[i];
            if !self.value_bindings.contains_key(v) {
                match self.column_bindings.get(v) {
                    Some(column) => {
                        c.column_bindings.insert(v, *column);
                    },
                    None => {},
                }
            }
            i = i + 1;
        }
        c
    }

    /// Whether every pattern of `o` mentions the variables `unified` and no others.
    pub fn branches_match_variables(o: &OrJoin, unified: &Vec<Variable>) -> (r: bool)
        ensures
            r == branches_match(*o, unified@),
    {
        let mut i: usize = 0;
        while i < o.clauses.len()
            invariant
                i <= o.clauses.len(),
                forall|j: int|
                    0 <= j < i ==> all_among(pattern_variables(#[trigger] o.clauses@[j]), unified@)
                        && all_among(unified@, pattern_variables(o.clauses@[j])),
            decreases o.clauses.len() - i,
        {
            let written = variables_of_pattern(&o.clauses[i]);
            if !variables_among(&written, unified) || !variables_among(unified, &written) {
                return false;
            }
            i = i + 1;
        }
        true
    }

    /// Applies each pattern of `o` to a child of its own and hands out the
    /// children that are not known empty, in order.
    fn surviving_branches(&self, schema: &Schema, o: &OrJoin, unified: &Vec<Variable>) -> (r:
        Result<Vec<ConjoiningClauses>, AlgebrizerError>)
        requires
            self@.wf(),
            !self@.is_empty(),
            unified@ == o.unified(),
        ensures
            match r {
                Ok(branches) => !some_fails(self@, *schema, *o) && models(branches@) == survivors(
                    self@,
                    *schema,
                    *o,
                    o.clauses@.len(),
                ),
                Err(e) => e == AlgebrizerError::AliasesExhausted && some_fails(
                    self@,
                    *schema,
                    *o,
                ),
            },
    {
        proof {
            lemma_template_wf(self@, unified@, unified@.len());
        }
        let mut branches: Vec<ConjoiningClauses> = Vec::new();
        let mut i: usize = 0;
        assert(models(branches@) =~= survivors(self@, *schema, *o, 0));
        while i < o.clauses.len()
            invariant
                i <= o.clauses.len(),
                unified@ == o.unified(),
                self@.open_child(unified@).wf(),
                forall|j: int| 0 <= j < i ==> !fails(self@, *schema, *o, j),
                models(branches@) == survivors(self@, *schema, *o, i as nat),
            decreases o.clauses.len() - i,
        {
            let ghost before = branches@;
            let mut child = self.open_child_for(unified);
            match child.apply_pattern(schema, &o.clauses[i]) {
                Ok(()) => {},
                Err(_) => {
                    assert(fails(self@, *schema, *o, i as int));
                    return Err(AlgebrizerError::AliasesExhausted);
                },
            }
            assert(branch(self@, *schema, *o, i as int) == Ok::<CcModel, AlgebrizerError>(child@));
            if !child.is_known_empty() {
                branches.push(child);
                assert(models(branches@) =~= models(before).push(child@));
            }
            i = i + 1;
        }
        proof {
            assert forall|j: int| !fails(self@, *schema, *o, j) by {}
        }
        Ok(branches)
    }

    /// The table alias that the branches were resolved against, where they agree.
    fn agreed_source(&self, branches: &Vec<ConjoiningClauses>, base: usize) -> (r: Option<
        SourceAlias,
    >)
        requires
            branches@.len() > 0,
        ensures
            r.is_some() == agree(self@, models(branches@), base as nat),
            r.is_some() ==> r == Some(branches@[0]@.from[0]),
    {
        if branches[0].from.len() != 1 || branches[0].column_bindings.len() < base {
            return None;
        }
        let source: SourceAlias = branches[0].from[0];
        let expected = TableAlias {
            table: source.table,
            index: self.alias_counter.peek(source.table),
        };
        if source.alias != expected {
            return None;
        }
        let mut i: usize = 1;
        while i < branches.len()
            invariant
                1 <= i <= branches.len(),
                source == branches@[0]@.from[0],
                forall|k: int|
                    1 <= k < i ==> (#[trigger] models(branches@)[k]).from.len() == 1 && models(
                        branches@,
                    )[k].from[0] == source && same_columns(
                        models(branches@)[k].cols,
                        models(branches@)[0].cols,
                    ),
            decreases branches.len() - i,
        {
            if branches[i].from.len() != 1 {
                assert(models(branches@)[i as int].from.len() != 1);
                return None;
            }
            if branches[i].from[0] != source || !same_bindings(
                &branches[i].column_bindings,
                &branches[0].column_bindings,
            ) {
                assert(!(models(branches@)[i as int].from[0] == source && same_columns(
                    models(branches@)[i as int].cols,
                    models(branches@)[0].cols,
                )));
                return None;
            }
            i = i + 1;
        }
        Some(source)
    }

    /// The types that the branches leave to `var`, taken together.
    fn joined_types(branches: &Vec<ConjoiningClauses>, var: &Variable) -> (r: ValueTypeSet)
        ensures
            r == joined(models(branches@), var.name@, branches@.len()),
    {
        let mut all = ValueTypeSet::none();
        let mut i: usize = 0;
        while i < branches.len()
            invariant
                i <= branches.len(),
                all == joined(models(branches@), var.name@, i as nat),
            decreases branches.len() - i,
        {
            all = all.union(&branches[i].known_type_set(var));
            i = i + 1;
        }
        all
    }

    /// Takes over from the first branch the columns that it bound beyond
    /// the first `base`, and the type extractions that these clauses lack.
    fn adopt_bindings(&mut self, first: &ConjoiningClauses, base: usize)
        requires
            old(self)@.wf(),
            base <= first.column_bindings@.len(),
        ensures
            final(self)@.wf(),
            final(self)@ == old(self)@.adopting(first@, base as nat),
    {
        let n_cols: usize = first.column_bindings.len();
        let mut k: usize = base;
        assert(self@.cols.take(old(self)@.cols.len() as int) =~= old(self)@.cols);
        assert(self@.cols =~= old(self)@.cols + first@.cols.subrange(base as int, base as int));
        while k < n_cols
            invariant
                base <= k <= n_cols,
                n_cols == first.column_bindings@.len(),
                self@.cols == old(self)@.cols + first@.cols.subrange(base as int, k as int),
                self@ == (CcModel { cols: self@.cols, ..old(self)@ }),
                old(self)@.cols.len() <= self@.cols.len(),
                self@.cols.take(old(self)@.cols.len() as int) == old(self)@.cols,
            decreases n_cols - k,
        {
            let ghost before = self@;
            let var = first.column_bindings.entries[k].0.duplicate();
            let column: QualifiedAlias = first.column_bindings.entries[k].1;
            self.column_bindings.append(&var, column);
            proof {
                assert(self@.cols.take(old(self)@.cols.len() as int) =~= before.cols.take(
                    old(self)@.cols.len() as int,
                ));
                assert(self@.cols =~= old(self)@.cols + first@.cols.subrange(
                    base as int,
                    k + 1,
                ));
            }
            k = k + 1;
        }
        let ghost bound = self@.cols;
        let n_extracted: usize = first.extracted_types.len();
        let mut k: usize = 0;
        while k < n_extracted
            invariant
                k <= n_extracted,
                n_extracted == first.extracted_types@.len(),
                old(self)@.wf(),
                unique_keys(self@.extracted),
                self@.cols == bound,
                self@.extracted == adopted(old(self)@.extracted, first@.extracted, k as nat),
                self@ == (CcModel {
                    cols: self@.cols,
                    extracted: self@.extracted,
                    ..old(self)@
                }),
                old(self)@.cols.len() <= self@.cols.len(),
                self@.cols.take(old(self)@.cols.len() as int) == old(self)@.cols,
            decreases n_extracted - k,
        {
            let var = first.extracted_types.entries[k].0.duplicate();
            let column: QualifiedAlias = first.extracted_types.entries[k].1;
            if !self.extracted_types.contains_key(&var) {
                let ghost before = self@.extracted;
                self.extracted_types.append(&var, column);
                proof {
                    let after = self@.extracted;
                    assert forall|a: int, b: int| 0 <= a < b < after.len() implies (
                    #[trigger] after[a]).0.name@ != (#[trigger] after[b]).0.name@ by {
                        if b == before.len() {
                            assert(before[a].0.name@ != var.name@);
                        }
                    }
                }
            }
            k = k + 1;
        }
    }

    /// Narrows each unified variable to the types that the branches leave to it.
    fn adopt_types(&mut self, branches: &Vec<ConjoiningClauses>, unified: &Vec<Variable>)
        requires
            old(self)@.wf(),
        ensures
            final(self)@.wf(),
            final(self)@ == old(self)@.narrowed_to(
                models(branches@),
                unified@,
                unified@.len(),
            ),
    {
        let mut k: usize = 0;
        while k < unified.len()
            invariant
                k <= unified.len(),
                self@.wf(),
                self@ == old(self)@.narrowed_to(models(branches@), unified@, k as nat),
            decreases unified.len() - k,
        {
            let types = Self::joined_types(branches, &unified[k]);
            proof {
                crate::clauses::lemma_narrow_keeps(self@, unified@[k as int], types);
            }
            self.narrow_types_for_var(&unified[k], types);
            k = k + 1;
        }
    }

    /// Adds the constraints of the branches to the conjunction: spliced in
    /// where there is one branch, as an alternation where there are more.
    fn adopt_constraints(&mut self, branches: Vec<ConjoiningClauses>)
        requires
            branches@.len() > 0,
        ensures
            final(self)@ == (CcModel { wheres: final(self)@.wheres, ..old(self)@ }),
            old(self)@.wheres.len() <= final(self)@.wheres.len(),
            final(self)@.wheres.take(old(self)@.wheres.len() as int) == old(self)@.wheres,
            branches_joined(old(self)@.wheres, models(branches@), final(self)@.wheres),
    {
        let ghost given = branches@;
        let mut branches = branches;
        if branches.len() == 1 {
            let mut only = branches.remove(0);
            self.wheres.0.append(&mut only.wheres.0);
            proof {
                assert(self@.wheres.take(old(self)@.wheres.len() as int) =~= old(self)@.wheres);
            }
        } else {
            let mut alternatives: Vec<ColumnIntersection> = Vec::new();
            while branches.len() > 0
                invariant
                    alternatives@.len() + branches@.len() == given.len(),
                    forall|k: int|
                        0 <= k < alternatives@.len() ==> (#[trigger] alternatives@[k])@
                            == given[k]@.wheres,
                    forall|k: int|
                        0 <= k < branches@.len() ==> #[trigger] branches@[k] == given[
                            alternatives@.len() + k],
                decreases branches.len(),
            {
                let branch = branches.remove(0);
                alternatives.push(branch.wheres);
            }
            let alt = ColumnAlternation(alternatives);
            let ghost made = alt;
            self.wheres.add(ColumnConstraintOrAlternation::Alternation(alt));
            proof {
                assert(self@.wheres.take(old(self)@.wheres.len() as int) =~= old(self)@.wheres);
                assert(self@.wheres == old(self)@.wheres.push(alternation(made)));
                assert forall|k: int| 0 <= k < made.0@.len() implies (#[trigger] made.0@[k])@
                    == models(given)[k].wheres by {}
            }
        }
    }

    /// Applies `(or ...)` or `(or-join [...] ...)` over patterns. One branch
    /// is applied as the pattern it is. With more, each branch is applied to
    /// a child of its own; the branches that are known empty are dropped;
    /// where none is left, these clauses are marked empty. The branches
    /// that are left must have bound the same columns of the same table
    /// alias: the alias joins the tables here, the columns join the column
    /// bindings, each unified variable is narrowed to the types that the
    /// branches leave to it, and the constraints of the branches join the
    /// conjunction, spliced in where one branch is left and as an
    /// alternation where more are.
    pub fn apply_or_join(&mut self, schema: &Schema, o: &OrJoin) -> (r: Result<
        (),
        AlgebrizerError,
    >)
        requires
            old(self)@.wf(),
        ensures
            match r {
                Ok(()) => alternates(
                    old(self)@,
                    *schema,
                    *o,
                    Ok::<CcModel, AlgebrizerError>(final(self)@),
                ),
                Err(e) => alternates(old(self)@, *schema, *o, Err::<CcModel, AlgebrizerError>(e))
                    && final(self)@ == old(self)@,
            },
            final(self)@.wf(),
            old(self)@.is_empty() ==> final(self)@ == old(self)@,
            final(self)@.computed == old(self)@.computed,
    {
        if self.is_known_empty() || o.clauses.len() == 0 {
            return Ok(());
        }
        if o.clauses.len() == 1 {
            return self.apply_pattern(schema, &o.clauses[0]);
        }
        let unified = o.unification_set();
        if !Self::branches_match_variables(o, &unified) {
            return Err(AlgebrizerError::NonMatchingVariablesInOrJoin);
        }
        let base: usize = self.open_child_for(&unified).column_bindings.len();
        let branches = match self.surviving_branches(schema, o, &unified) {
            Ok(branches) => branches,
            Err(e) => {
                return Err(e);
            },
        };
        if branches.len() == 0 {
            self.mark_known_empty(EmptyBecause::NonMatchingOr);
            return Ok(());
        }
        let source = match self.agreed_source(&branches, base) {
            Some(source) => source,
            None => {
                return Err(AlgebrizerError::NonMatchingVariablesInOrJoin);
            },
        };
        match self.next_alias_for_table(source.table) {
            Ok(_) => {},
            Err(e) => {
                return Err(e);
            },
        }
        let ghost left = models(branches@);
        let ghost aliased = self@;
        self.adopt_bindings(&branches[0], base);
        let ghost adopted = self@;
        self.adopt_types(&branches, &unified);
        let ghost narrowed = self@;
        self.adopt_constraints(branches);
        proof {
            assert(left[0] == branches@[0]@);
            assert(aliased == old(self)@.with_alias(source.table));
            assert(adopted == aliased.adopting(left[0], base as nat));
            assert(narrowed == old(self)@.merged(left, unified@, base as nat));
            lemma_narrowed_keeps_constraints(adopted, left, unified@, unified@.len());
            assert(narrowed.wheres == old(self)@.wheres);
            assert(self@ == (CcModel { wheres: self@.wheres, ..narrowed }));
        }
        Ok(())
    }
}

} // verus!
