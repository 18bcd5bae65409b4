//! The conjoining clauses: what algebrization accumulates.

use vstd::prelude::*;
use crate::bindings::{has_key, lemma_put, lookup, put, unique_keys, VarMap};
use crate::query::{contains_variable, Variable};
use crate::types::{
    AlgebrizerError, ColumnConstraint, ColumnConstraintOrAlternation, ColumnIntersection, ComputedTable, DatomsColumn, DatomsTable, EmptyBecause, QualifiedAlias, QueryValue, SourceAlias, TableAlias,
};
use crate::value_types::{TypedValue, ValueType, ValueTypeSet};

verus! {

/// The next alias number of each table.
#[derive(Clone, Copy, Debug, PartialEq, Eq, Structural)]
pub struct AliasCounters {
    pub datoms: u64,
    pub fulltext_values: u64,
    pub fulltext_datoms: u64,
    pub all_datoms: u64,
}

impl AliasCounters {
    pub open spec fn next(self, table: DatomsTable) -> u64 {
        match table {
            DatomsTable::Datoms => self.datoms,
            DatomsTable::FulltextValues => self.fulltext_values,
            DatomsTable::FulltextDatoms => self.fulltext_datoms,
            DatomsTable::AllDatoms => self.all_datoms,
        }
    }

    /// The counters after one more alias of `table` has been given out.
    pub open spec fn bump(self, table: DatomsTable) -> AliasCounters {
        match table {
            DatomsTable::Datoms => AliasCounters { datoms: (self.datoms + 1) as u64, ..self },
            DatomsTable::FulltextValues => AliasCounters {
                fulltext_values: (self.fulltext_values + 1) as u64,
                ..self
            },
            DatomsTable::FulltextDatoms => AliasCounters {
                fulltext_datoms: (self.fulltext_datoms + 1) as u64,
                ..self
            },
            DatomsTable::AllDatoms => AliasCounters {
                all_datoms: (self.all_datoms + 1) as u64,
                ..self
            },
        }
    }

    pub fn zero() -> (r: AliasCounters)
        ensures
            r == (AliasCounters { datoms: 0, fulltext_values: 0, fulltext_datoms: 0, all_datoms: 0 }),
    {
        AliasCounters { datoms: 0, fulltext_values: 0, fulltext_datoms: 0, all_datoms: 0 }
    }

    pub fn peek(&self, table: DatomsTable) -> (r: u64)
        ensures
            r == self.next(table),
    {
        match table {
            DatomsTable::Datoms => self.datoms,
            DatomsTable::FulltextValues => self.fulltext_values,
            DatomsTable::FulltextDatoms => self.fulltext_datoms,
            DatomsTable::AllDatoms => self.all_datoms,
        }
    }

    pub fn advance(&mut self, table: DatomsTable)
        requires
            old(self).next(table) < u64::MAX,
        ensures
            *final(self) == old(self).bump(table),
    {
        match table {
            DatomsTable::Datoms => {
                self.datoms = self.datoms + 1;
            },
            DatomsTable::FulltextValues => {
                self.fulltext_values = self.fulltext_values + 1;
            },
            DatomsTable::FulltextDatoms => {
                self.fulltext_datoms = self.fulltext_datoms + 1;
            },
            DatomsTable::AllDatoms => {
                self.all_datoms = self.all_datoms + 1;
            },
        }
    }
}

#[derive(Debug, PartialEq, Eq)]
pub struct ConjoiningClauses {
    /// Set when the clauses are known to have no results.
    pub empty_because: Option<EmptyBecause>,
    /// The number that the next alias of each table gets.
    pub alias_counter: AliasCounters,
    pub from: Vec<SourceAlias>,
    pub computed_tables: Vec<ComputedTable>,
    pub wheres: ColumnIntersection,
    /// Each variable with the columns known to equal it, in the order in
    /// which they were bound.
    pub column_bindings: VarMap<QualifiedAlias>,
    pub input_variables: Vec<Variable>,
    pub value_bindings: VarMap<TypedValue>,
    pub known_types: VarMap<ValueTypeSet>,
    pub extracted_types: VarMap<QualifiedAlias>,
    pub required_types: VarMap<ValueTypeSet>,
}

/// What a `ConjoiningClauses` holds, as sequences.
pub struct CcModel {
    pub empty: Option<EmptyBecause>,
    pub counter: AliasCounters,
    pub from: Seq<SourceAlias>,
    pub computed: Seq<ComputedTable>,
    pub wheres: Seq<ColumnConstraintOrAlternation>,
    pub cols: Seq<(Variable, QualifiedAlias)>,
    pub inputs: Seq<Variable>,
    pub values: Seq<(Variable, TypedValue)>,
    pub known: Seq<(Variable, ValueTypeSet)>,
    pub extracted: Seq<(Variable, QualifiedAlias)>,
    pub required: Seq<(Variable, ValueTypeSet)>,
}

/// The type that a column holds whatever the schema says: every column but
/// the value column holds a reference.
pub open spec fn column_is_ref(column: DatomsColumn) -> bool {
    column == DatomsColumn::Entity || column == DatomsColumn::Attribute || column
        == DatomsColumn::Tx
}

impl CcModel {
    pub open spec fn is_empty(self) -> bool {
        self.empty.is_some()
    }

    /// Marks the clauses empty; the first reason given stays.
    pub open spec fn mark_empty(self, why: EmptyBecause) -> CcModel {
        if self.empty.is_some() {
            self
        } else {
            CcModel { empty: Some(why), ..self }
        }
    }

    /// The types `name` can have: every type where nothing is known.
    pub open spec fn known_set(self, name: Seq<char>) -> ValueTypeSet {
        match lookup(self.known, name) {
            Some(s) => s,
            None => ValueTypeSet { bits: 255 },
        }
    }

    /// Intersects what is known of `var` with `set`; an empty intersection
    /// marks the clauses empty.
    pub open spec fn narrow(self, var: Variable, set: ValueTypeSet) -> CcModel {
        if self.is_empty() {
            self
        } else {
            let existing = self.known_set(var.name@);
            let both = existing.meet(set);
            let m = CcModel { known: put(self.known, var, both), ..self };
            if both.bits == 0 {
                m.mark_empty(EmptyBecause::TypeMismatch { var, existing, desired: set })
            } else {
                m
            }
        }
    }

    /// Adds `constraint` to the conjunction.
    pub open spec fn constrain(self, constraint: ColumnConstraint) -> CcModel {
        if self.is_empty() {
            self
        } else {
            CcModel {
                wheres: self.wheres.push(ColumnConstraintOrAlternation::Constraint(constraint)),
                ..self
            }
        }
    }

    /// Narrows to `set` every variable among the first `n` column bindings
    /// that is bound to `column`.
    pub open spec fn narrow_bound(self, column: QualifiedAlias, set: ValueTypeSet, n: nat) -> CcModel
        decreases n,
    {
        if n == 0 {
            self
        } else {
            let m = self.narrow_bound(column, set, (n - 1) as nat);
            if n <= self.cols.len() && self.cols[n - 1].1 == column {
                m.narrow(self.cols[n - 1].0, set)
            } else {
                m
            }
        }
    }

    /// Pins `column` to `value`, and narrows the variables bound to a value
    /// column to the value's type.
    pub open spec fn constrain_to_constant(self, column: QualifiedAlias, value: TypedValue) -> CcModel {
        let m = self.constrain(
            ColumnConstraint::Equals(column, QueryValue::TypedValue(value)),
        );
        if column.column == DatomsColumn::Value {
            m.narrow_bound(column, ValueTypeSet::unit_of(value.type_of()), m.cols.len())
        } else {
            m
        }
    }

    /// Pins `column` to the entity `e`.
    pub open spec fn constrain_to_entity(self, column: QualifiedAlias, e: i64) -> CcModel {
        self.constrain(ColumnConstraint::Equals(column, QueryValue::Entid(e)))
    }

    /// Pins the attribute column to `e` and narrows the variables bound to
    /// the value column of the same row to the attribute's declared type.
    pub open spec fn constrain_attribute(
        self,
        column: QualifiedAlias,
        e: i64,
        value_type: ValueType,
    ) -> CcModel {
        let m = self.constrain_to_entity(column, e);
        m.narrow_bound(
            QualifiedAlias { alias: column.alias, column: DatomsColumn::Value },
            ValueTypeSet::unit_of(value_type),
            m.cols.len(),
        )
    }

    /// Whether the type of `name` has to be read from a column at run time.
    pub open spec fn needs_extraction(self, name: Seq<char>, column: QualifiedAlias) -> bool {
        &&& !crate::query::mentions(self.inputs, name)
        &&& column.column == DatomsColumn::Value
        &&& !self.known_set(name).is_unit_spec()
        &&& !has_key(self.extracted, name)
    }

    /// Binds `var` to `column`. A variable that has a value pins the column
    /// to that value instead.
    pub open spec fn bind_column(self, var: Variable, column: QualifiedAlias) -> CcModel {
        if self.is_empty() {
            self
        } else {
            match lookup(self.values, var.name@) {
                Some(value) => {
                    if column.column == DatomsColumn::Value {
                        self.constrain_to_constant(column, value)
                    } else if column_is_ref(column.column) {
                        match value {
                            TypedValue::Ref(e) => self.constrain_to_entity(column, e),
                            _ => self.mark_empty(EmptyBecause::InvalidBinding(column.column, value)),
                        }
                    } else {
                        self
                    }
                },
                None => {
                    let m = CcModel {
                        extracted: if self.needs_extraction(var.name@, column) {
                            self.extracted.push((var, column.type_tag()))
                        } else {
                            self.extracted
                        },
                        cols: self.cols.push((var, column)),
                        ..self
                    };
                    if column_is_ref(column.column) {
                        m.narrow(var, ValueTypeSet::unit_of(ValueType::Ref))
                    } else {
                        m
                    }
                },
            }
        }
    }

    /// The clauses after the next alias of `table` has joined the `from` list.
    pub open spec fn with_alias(self, table: DatomsTable) -> CcModel {
        CcModel {
            counter: self.counter.bump(table),
            from: self.from.push(
                SourceAlias { table, alias: TableAlias { table, index: self.counter.next(table) } },
            ),
            ..self
        }
    }

    /// Every alias in the `from` list was given out by the counters, and none twice.
    pub open spec fn fresh_aliases(self) -> bool {
        &&& forall|i: int|
            0 <= i < self.from.len() ==> (#[trigger] self.from[i]).alias.index
                < self.counter.next(self.from[i].alias.table)
        &&& forall|i: int, j: int|
            0 <= i < j < self.from.len() ==> (#[trigger] self.from[i]).alias != (
            #[trigger] self.from[j]).alias
    }

    /// Each variable that has a value is known to have exactly that value's type.
    pub open spec fn values_typed(self) -> bool {
        forall|i: int|
            0 <= i < self.values.len() ==> lookup(self.known, (#[trigger] self.values[i]).0.name@)
                == Some(ValueTypeSet::unit_of(self.values[i].1.type_of()))
    }

    /// What holds of the clauses at every step of algebrization.
    pub open spec fn wf(self) -> bool {
        &&& unique_keys(self.values)
        &&& unique_keys(self.known)
        &&& unique_keys(self.extracted)
        &&& unique_keys(self.required)
        &&& self.fresh_aliases()
        &&& !self.is_empty() ==> self.values_typed()
    }
}

/// Narrowing leaves everything but the known types and the empty mark as it was.
pub proof fn lemma_narrow_keeps(m: CcModel, var: Variable, set: ValueTypeSet)
    ensures
        m.narrow(var, set).cols == m.cols,
        m.narrow(var, set).wheres == m.wheres,
        m.narrow(var, set).from == m.from,
        m.narrow(var, set).counter == m.counter,
        m.narrow(var, set).values == m.values,
        m.narrow(var, set).extracted == m.extracted,
        m.narrow(var, set).required == m.required,
        m.narrow(var, set).inputs == m.inputs,
        m.narrow(var, set).computed == m.computed,
        m.is_empty() ==> m.narrow(var, set) == m,
        m.wf() ==> m.narrow(var, set).wf(),
{
    let r = m.narrow(var, set);
    if m.wf() && !m.is_empty() {
        let existing = m.known_set(var.name@);
        let both = existing.meet(set);
        lemma_put(m.known, var, both);
        if !r.is_empty() {
            assert forall|i: int| 0 <= i < r.values.len() implies lookup(
                r.known,
                (#[trigger] r.values[i]).0.name@,
            ) == Some(ValueTypeSet::unit_of(r.values[i].1.type_of())) by {
                let n = m.values[i].0.name@;
                assert(lookup(m.known, n) == Some(
                    ValueTypeSet::unit_of(m.values[i].1.type_of()),
                ));
                if n == var.name@ {
                    let b = m.values[i].1.type_of().bit();
                    let y = set.bits;
                    assert(b & y == 0 || b & y == b) by (bit_vector)
                        requires
                            b == 1 || b == 2 || b == 4 || b == 8 || b == 16 || b == 32 || b == 64
                                || b == 128,
                    ;
                }
            }
        }
    }
}

/// Narrowing the bound variables leaves everything but the known types and
/// the empty mark as it was.
pub proof fn lemma_narrow_bound_keeps(m: CcModel, column: QualifiedAlias, set: ValueTypeSet, n: nat)
    ensures
        m.narrow_bound(column, set, n).cols == m.cols,
        m.narrow_bound(column, set, n).wheres == m.wheres,
        m.narrow_bound(column, set, n).from == m.from,
        m.narrow_bound(column, set, n).counter == m.counter,
        m.narrow_bound(column, set, n).values == m.values,
        m.narrow_bound(column, set, n).extracted == m.extracted,
        m.narrow_bound(column, set, n).required == m.required,
        m.narrow_bound(column, set, n).inputs == m.inputs,
        m.narrow_bound(column, set, n).computed == m.computed,
        m.is_empty() ==> m.narrow_bound(column, set, n) == m,
        m.wf() ==> m.narrow_bound(column, set, n).wf(),
    decreases n,
{
    if n > 0 {
        lemma_narrow_bound_keeps(m, column, set, (n - 1) as nat);
        let p = m.narrow_bound(column, set, (n - 1) as nat);
        if n <= m.cols.len() {
            lemma_narrow_keeps(p, m.cols[n - 1].0, set);
        }
    }
}

impl ConjoiningClauses {
    pub open spec fn view(self) -> CcModel {
        CcModel {
            empty: self.empty_because,
            counter: self.alias_counter,
            from: self.from@,
            computed: self.computed_tables@,
            wheres: self.wheres@,
            cols: self.column_bindings@,
            inputs: self.input_variables@,
            values: self.value_bindings@,
            known: self.known_types@,
            extracted: self.extracted_types@,
            required: self.required_types@,
        }
    }

    /// Clauses that say nothing yet.
    pub fn new() -> (r: ConjoiningClauses)
        ensures
            r@ == (CcModel {
                empty: None,
                counter: AliasCounters {
                    datoms: 0,
                    fulltext_values: 0,
                    fulltext_datoms: 0,
                    all_datoms: 0,
                },
                from: Seq::empty(),
                computed: Seq::empty(),
                wheres: Seq::empty(),
                cols: Seq::empty(),
                inputs: Seq::empty(),
                values: Seq::empty(),
                known: Seq::empty(),
                extracted: Seq::empty(),
                required: Seq::empty(),
            }),
            r@.wf(),
    {
        ConjoiningClauses {
            empty_because: None,
            alias_counter: AliasCounters::zero(),
            from: Vec::new(),
            computed_tables: Vec::new(),
            wheres: ColumnIntersection::new(),
            column_bindings: VarMap::new(),
            input_variables: Vec::new(),
            value_bindings: VarMap::new(),
            known_types: VarMap::new(),
            extracted_types: VarMap::new(),
            required_types: VarMap::new(),
        }
    }

    pub fn is_known_empty(&self) -> (r: bool)
        ensures
            r == self@.is_empty(),
    {
        self.empty_because.is_some()
    }

    /// Marks the clauses as having no results. The first reason stays.
    pub fn mark_known_empty(&mut self, why: EmptyBecause)
        ensures
            final(self)@ == old(self)@.mark_empty(why),
    {
        if self.empty_because.is_none() {
            self.empty_because = Some(why);
        }
    }

    /// The types `var` can have: every type where nothing is known.
    pub fn known_type_set(&self, var: &Variable) -> (r: ValueTypeSet)
        ensures
            r == self@.known_set(var.name@),
    {
        match self.known_types.get(var) {
            Some(s) => *s,
            None => ValueTypeSet::any(),
        }
    }

    pub fn narrow_types_for_var(&mut self, var: &Variable, set: ValueTypeSet)
        ensures
            final(self)@ == old(self)@.narrow(*var, set),
            old(self)@.wf() ==> final(self)@.wf(),
    {
        proof {
            lemma_narrow_keeps(self@, *var, set);
        }
        if self.is_known_empty() {
            return ;
        }
        let existing = self.known_type_set(var);
        let both = existing.intersection(&set);
        self.known_types.insert(var, both);
        if both.is_empty() {
            self.mark_known_empty(
                EmptyBecause::TypeMismatch { var: var.duplicate(), existing, desired: set },
            );
        }
    }

    /// Adds `constraint` to the conjunction, unless the clauses are known empty.
    pub fn constrain(&mut self, constraint: ColumnConstraint)
        ensures
            final(self)@ == old(self)@.constrain(constraint),
    {
        if self.is_known_empty() {
            return ;
        }
        self.wheres.add_intersection(constraint);
    }

    /// Narrows to `set` every variable that is bound to `column`.
    pub fn narrow_types_at_column(&mut self, column: QualifiedAlias, set: ValueTypeSet)
        ensures
            final(self)@ == old(self)@.narrow_bound(column, set, old(self)@.cols.len()),
            old(self)@.wf() ==> final(self)@.wf(),
    {
        let n: usize = self.column_bindings.len();
        let mut i: usize = 0;
        while i < n
            invariant
                i <= n,
                n == old(self)@.cols.len(),
                self@ == old(self)@.narrow_bound(column, set, i as nat),
            decreases n - i,
        {
            proof {
                lemma_narrow_bound_keeps(old(self)@, column, set, i as nat);
            }
            let bound: QualifiedAlias = self.column_bindings.entries[i].1;
            if bound == column {
                let var = self.column_bindings.entries[i].0.duplicate();
                self.narrow_types_for_var(&var, set);
            }
            i = i + 1;
        }
        proof {
            lemma_narrow_bound_keeps(old(self)@, column, set, n as nat);
        }
    }

    pub fn constrain_column_to_constant(&mut self, column: QualifiedAlias, value: &TypedValue)
        ensures
            final(self)@ == old(self)@.constrain_to_constant(column, *value),
    {
        self.constrain(ColumnConstraint::Equals(column, QueryValue::TypedValue(value.duplicate())));
        match column.column {
            DatomsColumn::Value => {
                self.narrow_types_at_column(column, ValueTypeSet::of_one(value.value_type()));
            },
            _ => {},
        }
    }

    pub fn constrain_column_to_entity(&mut self, column: QualifiedAlias, e: i64)
        ensures
            final(self)@ == old(self)@.constrain_to_entity(column, e),
    {
        self.constrain(ColumnConstraint::Equals(column, QueryValue::Entid(e)));
    }

    /// Pins the attribute column to `e`, whose declared type is `value_type`.
    pub fn constrain_attribute(&mut self, column: QualifiedAlias, e: i64, value_type: ValueType)
        ensures
            final(self)@ == old(self)@.constrain_attribute(column, e, value_type),
    {
        self.constrain_column_to_entity(column, e);
        self.narrow_types_at_column(
            QualifiedAlias { alias: column.alias, column: DatomsColumn::Value },
            ValueTypeSet::of_one(value_type),
        );
    }

    /// Gives out the next alias of `table` and adds it to the `from` list.
    pub fn next_alias_for_table(&mut self, table: DatomsTable) -> (r: Result<
        TableAlias,
        AlgebrizerError,
    >)
        ensures
            match r {
                Ok(alias) => {
                    &&& old(self)@.counter.next(table) < u64::MAX
                    &&& alias == (TableAlias { table, index: old(self)@.counter.next(table) })
                    &&& final(self)@ == old(self)@.with_alias(table)
                },
                Err(e) => {
                    &&& old(self)@.counter.next(table) == u64::MAX
                    &&& e == AlgebrizerError::AliasesExhausted
                    &&& final(self)@ == old(self)@
                },
            },
            old(self)@.wf() ==> final(self)@.wf(),
    {
        let index: u64 = self.alias_counter.peek(table);
        if index == u64::MAX {
            return Err(AlgebrizerError::AliasesExhausted);
        }
        let alias = TableAlias { table, index };
        self.alias_counter.advance(table);
        self.from.push(SourceAlias { table, alias });
        Ok(alias)
    }
}


/// Binding a column keeps the clauses well formed.
pub proof fn lemma_bind_column_wf(m: CcModel, var: Variable, column: QualifiedAlias)
    requires
        m.wf(),
    ensures
        m.bind_column(var, column).wf(),
        m.bind_column(var, column).from == m.from,
        m.bind_column(var, column).counter == m.counter,
        m.bind_column(var, column).values == m.values,
        m.bind_column(var, column).inputs == m.inputs,
        m.bind_column(var, column).required == m.required,
        m.bind_column(var, column).computed == m.computed,
{
    if !m.is_empty() {
        match lookup(m.values, var.name@) {
            Some(value) => {
                let c = m.constrain(
                    ColumnConstraint::Equals(column, QueryValue::TypedValue(value)),
                );
                lemma_narrow_bound_keeps(
                    c,
                    column,
                    ValueTypeSet::unit_of(value.type_of()),
                    c.cols.len(),
                );
            },
            None => {
                let x = if m.needs_extraction(var.name@, column) {
                    m.extracted.push((var, column.type_tag()))
                } else {
                    m.extracted
                };
                let b = CcModel { extracted: x, cols: m.cols.push((var, column)), ..m };
                assert(unique_keys(x)) by {
                    if m.needs_extraction(var.name@, column) {
                        assert forall|i: int, j: int| 0 <= i < j < x.len() implies (
                        #[trigger] x[i]).0.name@ != (#[trigger] x[j]).0.name@ by {
                            if j == m.extracted.len() {
                                assert(m.extracted[i].0.name@ != var.name@);
                            }
                        }
                    }
                }
                assert(b.wf());
                lemma_narrow_keeps(b, var, ValueTypeSet::unit_of(ValueType::Ref));
            },
        }
    }
}

impl ConjoiningClauses {
    /// Binds `var` to `column`; a variable that has a value pins the column instead.
    pub fn bind_column_to_var(&mut self, var: &Variable, column: QualifiedAlias)
        ensures
            final(self)@ == old(self)@.bind_column(*var, column),
            old(self)@.wf() ==> final(self)@.wf(),
    {
        proof {
            if self@.wf() {
                lemma_bind_column_wf(self@, *var, column);
            }
        }
        if self.is_known_empty() {
            return ;
        }
        let bound: Option<TypedValue> = match self.value_bindings.get(var) {
            Some(value) => Some(value.duplicate()),
            None => None,
        };
        match bound {
            Some(value) => {
                match column.column {
                    DatomsColumn::Value => {
                        self.constrain_column_to_constant(column, &value);
                    },
                    DatomsColumn::ValueTypeTag => {},
                    _ => {
                        match value {
                            TypedValue::Ref(e) => {
                                self.constrain_column_to_entity(column, e);
                            },
                            _ => {
                                self.mark_known_empty(
                                    EmptyBecause::InvalidBinding(column.column, value),
                                );
                            },
                        }
                    },
                }
            },
            None => {
                let late: bool = contains_variable(&self.input_variables, var);
                let is_value: bool = match column.column {
                    DatomsColumn::Value => true,
                    _ => false,
                };
                if !late && is_value && !self.known_type_set(var).is_unit()
                    && !self.extracted_types.contains_key(var) {
                    self.extracted_types.append(var, column.for_type_tag());
                }
                self.column_bindings.append(var, column);
                match column.column {
                    DatomsColumn::Value => {},
                    DatomsColumn::ValueTypeTag => {},
                    _ => {
                        self.narrow_types_for_var(var, ValueTypeSet::of_one(ValueType::Ref));
                    },
                }
            },
        }
    }
}

} // verus!
