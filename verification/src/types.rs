//! Tables, columns, constraints and the reasons for which a query is known
//! to have no results.

use vstd::prelude::*;
use crate::clauses::ConjoiningClauses;
use crate::query::Variable;
use crate::text::two_digits;
use crate::value_types::{TypedValue, ValueType, ValueTypeSet};

verus! {

/// The backing tables a pattern can be resolved against.
#[derive(Clone, Copy, Debug, PartialEq, Eq, Structural)]
pub enum DatomsTable {
    Datoms,
    FulltextValues,
    FulltextDatoms,
    AllDatoms,
}

impl DatomsTable {
    pub fn name(&self) -> (r: &'static str)
        ensures
            r@ == (match *self {
                DatomsTable::Datoms => "datoms"@,
                DatomsTable::FulltextValues => "fulltext_values"@,
                DatomsTable::FulltextDatoms => "fulltext_datoms"@,
                DatomsTable::AllDatoms => "all_datoms"@,
            }),
    {
        match self {
            DatomsTable::Datoms => "datoms",
            DatomsTable::FulltextValues => "fulltext_values",
            DatomsTable::FulltextDatoms => "fulltext_datoms",
            DatomsTable::AllDatoms => "all_datoms",
        }
    }
}

/// std's `format!` with `{}{:02}`: the prefix, then the index in decimal,
/// padded with a zero to two digits. The contract states that text.
#[verifier::external_body]
fn numbered(prefix: &str, index: u64) -> (r: String)
    ensures
        r@ == prefix@ + two_digits(index as nat),
{
    format!("{}{:02}", prefix, index)
}

/// A table alias: the table it stands for and the number it was given.
#[derive(Clone, Copy, Debug, PartialEq, Eq, Structural)]
pub struct TableAlias {
    pub table: DatomsTable,
    pub index: u64,
}

impl TableAlias {
    pub fn new(table: DatomsTable, index: u64) -> (r: TableAlias)
        ensures
            r == (TableAlias { table, index }),
    {
        TableAlias { table, index }
    }

    /// The alias as it is written in a query, such as `datoms00`.
    pub fn name(&self) -> (r: String)
        ensures
            r@ == (match self.table {
                DatomsTable::Datoms => "datoms"@,
                DatomsTable::FulltextValues => "fulltext_values"@,
                DatomsTable::FulltextDatoms => "fulltext_datoms"@,
                DatomsTable::AllDatoms => "all_datoms"@,
            }) + two_digits(self.index as nat),
    {
        numbered(self.table.name(), self.index)
    }
}

#[derive(Clone, Copy, Debug, PartialEq, Eq, Structural)]
pub enum DatomsColumn {
    Entity,
    Attribute,
    Value,
    Tx,
    ValueTypeTag,
}

/// A column of an aliased table.
#[derive(Clone, Copy, Debug, PartialEq, Eq, Structural)]
pub struct QualifiedAlias {
    pub alias: TableAlias,
    pub column: DatomsColumn,
}

impl QualifiedAlias {
    pub fn new(alias: TableAlias, column: DatomsColumn) -> (r: QualifiedAlias)
        ensures
            r == (QualifiedAlias { alias, column }),
    {
        QualifiedAlias { alias, column }
    }

    pub open spec fn type_tag(self) -> QualifiedAlias {
        QualifiedAlias { alias: self.alias, column: DatomsColumn::ValueTypeTag }
    }

    /// The column of the same table that carries the value's type tag.
    pub fn for_type_tag(&self) -> (r: QualifiedAlias)
        ensures
            r == self.type_tag(),
    {
        QualifiedAlias { alias: self.alias, column: DatomsColumn::ValueTypeTag }
    }
}

/// A table in the `from` list, with its alias.
#[derive(Clone, Copy, Debug, PartialEq, Eq, Structural)]
pub struct SourceAlias {
    pub table: DatomsTable,
    pub alias: TableAlias,
}

#[derive(Debug, PartialEq, Eq)]
pub enum QueryValue {
    Column(QualifiedAlias),
    Entid(i64),
    TypedValue(TypedValue),
    PrimitiveLong(i64),
}

#[derive(Clone, Copy, Debug, PartialEq, Eq, Structural)]
pub enum Inequality {
    LessThan,
    LessThanOrEquals,
    GreaterThan,
    GreaterThanOrEquals,
    NotEquals,
}

#[derive(Debug, PartialEq, Eq)]
pub enum ColumnConstraint {
    Equals(QualifiedAlias, QueryValue),
    Inequality { operator: Inequality, left: QueryValue, right: QueryValue },
    HasType(TableAlias, ValueType),
    HasTypes { value: TableAlias, value_types: ValueTypeSet, check_value: bool },
    Matches(QualifiedAlias, QueryValue),
    NotExists(ComputedTable),
}

#[derive(Debug, PartialEq, Eq)]
pub enum ColumnConstraintOrAlternation {
    Constraint(ColumnConstraint),
    Alternation(ColumnAlternation),
}

/// A conjunction of constraints.
#[derive(Debug, PartialEq, Eq)]
pub struct ColumnIntersection(pub Vec<ColumnConstraintOrAlternation>);

/// A disjunction of conjunctions.
#[derive(Debug, PartialEq, Eq)]
pub struct ColumnAlternation(pub Vec<ColumnIntersection>);

impl ColumnIntersection {
    pub open spec fn view(self) -> Seq<ColumnConstraintOrAlternation> {
        self.0@
    }

    pub fn new() -> (r: ColumnIntersection)
        ensures
            r@ == Seq::<ColumnConstraintOrAlternation>::empty(),
    {
        ColumnIntersection(Vec::new())
    }

    pub fn len(&self) -> (r: usize)
        ensures
            r == self@.len(),
    {
        self.0.len()
    }

    pub fn is_empty(&self) -> (r: bool)
        ensures
            r == (self@.len() == 0),
    {
        self.0.len() == 0
    }

    pub fn add(&mut self, constraint: ColumnConstraintOrAlternation)
        ensures
            final(self)@ == old(self)@.push(constraint),
    {
        self.0.push(constraint);
    }

    pub fn add_intersection(&mut self, constraint: ColumnConstraint)
        ensures
            final(self)@ == old(self)@.push(ColumnConstraintOrAlternation::Constraint(constraint)),
    {
        self.0.push(ColumnConstraintOrAlternation::Constraint(constraint));
    }
}

/// A table that the query computes for itself.
#[derive(Debug, PartialEq, Eq)]
pub enum ComputedTable {
    Subquery(Box<ConjoiningClauses>),
    NamedValues { names: Vec<Variable>, values: Vec<TypedValue> },
}

/// Why a set of clauses is known to have no results.
#[derive(Debug, PartialEq, Eq)]
#[allow(inconsistent_fields)]
pub enum EmptyBecause {
    ConflictingBindings { var: Variable, existing: TypedValue, desired: TypedValue },
    TypeMismatch { var: Variable, existing: ValueTypeSet, desired: ValueTypeSet },
    NoValidTypes(Variable),
    NonAttributeArgument,
    NonNumericArgument,
    NonMatchingOr,
    UnresolvedIdent(String),
    InvalidAttributeIdent(String),
    InvalidAttributeEntid(i64),
    InvalidBinding(DatomsColumn, TypedValue),
    ValueTypeMismatch(ValueType, TypedValue),
    CachedAttributeHasNoValues { entity: i64, attr: i64 },
}

/// The errors that end algebrization.
#[derive(Debug, PartialEq, Eq)]
pub enum AlgebrizerError {
    UnboundVariable(String),
    InvalidArgument(String, usize),
    InvalidNumberOfArguments(String, usize, usize),
    InvalidLimit,
    InvalidGroundConstant,
    InvalidGroundFnArg,
    UnknownFunction(String),
    UnknownLimit,
    NonMatchingVariablesInOrJoin,
    NonMatchingVariablesInNotJoin,
    DuplicateVariableInBinding,
    NonNumericArgument,
    NonInstantArgument,
    /// Every alias number has been given out.
    AliasesExhausted,
}

} // verus!
