//! Patterns: `[e a v tx]` resolved against a fresh alias of a backing table.

use vstd::prelude::*;
use crate::clauses::{
    lemma_bind_column_wf, lemma_narrow_bound_keeps, lemma_narrow_keeps, CcModel,
    ConjoiningClauses,
};
use crate::query::{Pattern, PatternNonValuePlace, PatternValuePlace};
use crate::schema::{attribute_of, entid_of, Attribute, Schema};
use crate::types::{
    AlgebrizerError, ColumnConstraint, DatomsColumn, DatomsTable, EmptyBecause, QualifiedAlias,
    QueryValue, TableAlias,
};
use crate::value_types::{TypedValue, ValueType, ValueTypeSet};

verus! {

/// The attribute that an attribute place names, where the schema knows it.
pub open spec fn named_attribute(schema: Schema, place: PatternNonValuePlace) -> Option<Attribute> {
    match place {
        PatternNonValuePlace::Entid(e) => attribute_of(schema.attributes@, e),
        PatternNonValuePlace::Ident(kw) => match entid_of(schema.idents@, kw@) {
            Some(e) => attribute_of(schema.attributes@, e),
            None => None,
        },
        _ => None,
    }
}

/// The attribute place names nothing: it is a placeholder or a variable.
pub open spec fn attribute_open(place: PatternNonValuePlace) -> bool {
    place is Placeholder || place is Variable
}

impl CcModel {
    /// The value place does not say which table holds the value: a string,
    /// or a variable that is not known to have one type other than string.
    pub open spec fn value_ambiguous(self, place: PatternValuePlace) -> bool {
        match place {
            PatternValuePlace::Constant(TypedValue::String(_)) => true,
            PatternValuePlace::Variable(v) => !self.known_set(v.name@).is_unit_spec()
                || self.known_set(v.name@).bits == ValueType::String.bit(),
            _ => false,
        }
    }

    /// The table that a pattern is resolved against.
    pub open spec fn table_for(self, schema: Schema, pattern: Pattern) -> DatomsTable {
        match named_attribute(schema, pattern.attribute) {
            Some(a) => if a.fulltext && !(pattern.value is Placeholder) {
                DatomsTable::FulltextDatoms
            } else {
                DatomsTable::Datoms
            },
            None => if attribute_open(pattern.attribute) && self.value_ambiguous(pattern.value) {
                DatomsTable::AllDatoms
            } else {
                DatomsTable::Datoms
            },
        }
    }

    /// An entity or transaction place at `column`.
    pub open spec fn apply_place(
        self,
        schema: Schema,
        place: PatternNonValuePlace,
        column: QualifiedAlias,
    ) -> CcModel {
        match place {
            PatternNonValuePlace::Placeholder => self,
            PatternNonValuePlace::Variable(v) => self.bind_column(v, column),
            PatternNonValuePlace::Entid(e) => self.constrain_to_entity(column, e),
            PatternNonValuePlace::Ident(kw) => match entid_of(schema.idents@, kw@) {
                Some(e) => self.constrain_to_entity(column, e),
                None => self.mark_empty(EmptyBecause::UnresolvedIdent(kw)),
            },
        }
    }

    /// The attribute place at the attribute column of `alias`.
    pub open spec fn apply_attribute(
        self,
        schema: Schema,
        place: PatternNonValuePlace,
        alias: TableAlias,
    ) -> CcModel {
        let column = QualifiedAlias { alias, column: DatomsColumn::Attribute };
        match place {
            PatternNonValuePlace::Placeholder => self,
            PatternNonValuePlace::Variable(v) => self.bind_column(v, column),
            PatternNonValuePlace::Entid(e) => match attribute_of(schema.attributes@, e) {
                Some(a) => self.constrain_attribute(column, e, a.value_type),
                None => self.mark_empty(EmptyBecause::InvalidAttributeEntid(e)),
            },
            PatternNonValuePlace::Ident(kw) => match entid_of(schema.idents@, kw@) {
                Some(e) => match attribute_of(schema.attributes@, e) {
                    Some(a) => self.constrain_attribute(column, e, a.value_type),
                    None => self.mark_empty(EmptyBecause::InvalidAttributeIdent(kw)),
                },
                None => self.mark_empty(EmptyBecause::UnresolvedIdent(kw)),
            },
        }
    }

    /// The value place at the value column of `alias`, where the pattern's
    /// attribute declares the type `declared`.
    pub open spec fn apply_value(
        self,
        declared: Option<ValueType>,
        place: PatternValuePlace,
        alias: TableAlias,
    ) -> CcModel {
        let column = QualifiedAlias { alias, column: DatomsColumn::Value };
        match place {
            PatternValuePlace::Placeholder => self,
            PatternValuePlace::Variable(v) => match declared {
                Some(t) => self.narrow(v, ValueTypeSet::unit_of(t)).bind_column(v, column),
                None => self.bind_column(v, column),
            },
            PatternValuePlace::EntidOrInteger(i) => match declared {
                Some(ValueType::Ref) => self.constrain_to_entity(column, i),
                Some(ValueType::Long) => self.constrain_to_constant(column, TypedValue::Long(i)),
                Some(t) => self.mark_empty(EmptyBecause::ValueTypeMismatch(t, TypedValue::Long(i))),
                None => self.constrain(
                    ColumnConstraint::Equals(column, QueryValue::PrimitiveLong(i)),
                ),
            },
            PatternValuePlace::Constant(value) => match declared {
                Some(t) => if t == value.type_of() {
                    self.constrain_to_constant(column, value)
                } else {
                    self.mark_empty(EmptyBecause::ValueTypeMismatch(t, value))
                },
                None => self.constrain_to_constant(column, value).constrain(
                    ColumnConstraint::HasType(alias, value.type_of()),
                ),
            },
        }
    }

    /// The four places of `pattern` at `alias`: attribute, value, entity, transaction.
    pub open spec fn apply_places(self, schema: Schema, pattern: Pattern, alias: TableAlias) -> CcModel {
        let declared = match named_attribute(schema, pattern.attribute) {
            Some(a) => Some(a.value_type),
            None => None,
        };
        self.apply_attribute(schema, pattern.attribute, alias).apply_value(
            declared,
            pattern.value,
            alias,
        ).apply_place(
            schema,
            pattern.entity,
            QualifiedAlias { alias, column: DatomsColumn::Entity },
        ).apply_place(schema, pattern.tx, QualifiedAlias { alias, column: DatomsColumn::Tx })
    }

    /// The clauses after `pattern`. Clauses that are known empty stay as they are.
    pub open spec fn apply_pattern(self, schema: Schema, pattern: Pattern) -> Result<
        CcModel,
        AlgebrizerError,
    > {
        let table = self.table_for(schema, pattern);
        if self.is_empty() {
            Ok(self)
        } else if self.counter.next(table) == u64::MAX {
            Err(AlgebrizerError::AliasesExhausted)
        } else {
            Ok(
                self.with_alias(table).apply_places(
                    schema,
                    pattern,
                    TableAlias { table, index: self.counter.next(table) },
                ),
            )
        }
    }
}

impl ConjoiningClauses {
    /// The attribute that the attribute place names, where the schema knows it.
    pub fn attribute_for_place(schema: &Schema, place: &PatternNonValuePlace) -> (r: Option<
        Attribute,
    >)
        ensures
            r == named_attribute(*schema, *place),
    {
        match place {
            PatternNonValuePlace::Entid(e) => schema.attribute_for_entid(*e),
            PatternNonValuePlace::Ident(kw) => match schema.entid_for_ident(kw) {
                Some(e) => schema.attribute_for_entid(e),
                None => None,
            },
            _ => None,
        }
    }

    /// The table that `pattern` is resolved against.
    pub fn table_for_pattern(&self, schema: &Schema, pattern: &Pattern) -> (r: DatomsTable)
        ensures
            r == self@.table_for(*schema, *pattern),
    {
        match Self::attribute_for_place(schema, &pattern.attribute) {
            Some(a) => {
                let placeholder: bool = match &pattern.value {
                    PatternValuePlace::Placeholder => true,
                    _ => false,
                };
                if a.fulltext && !placeholder {
                    DatomsTable::FulltextDatoms
                } else {
                    DatomsTable::Datoms
                }
            },
            None => {
                let open: bool = match &pattern.attribute {
                    PatternNonValuePlace::Placeholder => true,
                    PatternNonValuePlace::Variable(_) => true,
                    _ => false,
                };
                let ambiguous: bool = match &pattern.value {
                    PatternValuePlace::Constant(TypedValue::String(_)) => true,
                    PatternValuePlace::Variable(v) => {
                        let known = self.known_type_set(v);
                        !known.is_unit() || known.bits == ValueType::String.mask()
                    },
                    _ => false,
                };
                if open && ambiguous {
                    DatomsTable::AllDatoms
                } else {
                    DatomsTable::Datoms
                }
            },
        }
    }

    fn apply_place(&mut self, schema: &Schema, place: &PatternNonValuePlace, column: QualifiedAlias)
        requires
            old(self)@.wf(),
        ensures
            final(self)@ == old(self)@.apply_place(*schema, *place, column),
            final(self)@.wf(),
            final(self)@.from == old(self)@.from,
            final(self)@.counter == old(self)@.counter,
            final(self)@.computed == old(self)@.computed,
    {
        proof {
            match place {
                PatternNonValuePlace::Variable(v) => {
                    lemma_bind_column_wf(self@, *v, column);
                },
                _ => {},
            }
        }
        match place {
            PatternNonValuePlace::Placeholder => {},
            PatternNonValuePlace::Variable(v) => {
                self.bind_column_to_var(v, column);
            },
            PatternNonValuePlace::Entid(e) => {
                self.constrain_column_to_entity(column, *e);
            },
            PatternNonValuePlace::Ident(kw) => {
                match schema.entid_for_ident(kw) {
                    Some(e) => {
                        self.constrain_column_to_entity(column, e);
                    },
                    None => {
                        self.mark_known_empty(EmptyBecause::UnresolvedIdent(kw.clone()));
                    },
                }
            },
        }
    }

    fn apply_attribute(&mut self, schema: &Schema, place: &PatternNonValuePlace, alias: TableAlias)
        requires
            old(self)@.wf(),
        ensures
            final(self)@ == old(self)@.apply_attribute(*schema, *place, alias),
            final(self)@.wf(),
            final(self)@.from == old(self)@.from,
            final(self)@.counter == old(self)@.counter,
            final(self)@.computed == old(self)@.computed,
    {
        let column = QualifiedAlias { alias, column: DatomsColumn::Attribute };
        let value_column = QualifiedAlias { alias, column: DatomsColumn::Value };
        proof {
            match place {
                PatternNonValuePlace::Variable(v) => {
                    lemma_bind_column_wf(self@, *v, column);
                },
                PatternNonValuePlace::Entid(e) => {
                    if let Some(a) = attribute_of(schema.attributes@, *e) {
                        let c = self@.constrain_to_entity(column, *e);
                        lemma_narrow_bound_keeps(
                            c,
                            value_column,
                            ValueTypeSet::unit_of(a.value_type),
                            c.cols.len(),
                        );
                    }
                },
                PatternNonValuePlace::Ident(kw) => {
                    if let Some(e) = entid_of(schema.idents@, kw@) {
                        if let Some(a) = attribute_of(schema.attributes@, e) {
                            let c = self@.constrain_to_entity(column, e);
                            lemma_narrow_bound_keeps(
                                c,
                                value_column,
                                ValueTypeSet::unit_of(a.value_type),
                                c.cols.len(),
                            );
                        }
                    }
                },
                _ => {},
            }
        }
        match place {
            PatternNonValuePlace::Placeholder => {},
            PatternNonValuePlace::Variable(v) => {
                self.bind_column_to_var(v, column);
            },
            PatternNonValuePlace::Entid(e) => {
                match schema.attribute_for_entid(*e) {
                    Some(a) => {
                        self.constrain_attribute(column, *e, a.value_type);
                    },
                    None => {
                        self.mark_known_empty(EmptyBecause::InvalidAttributeEntid(*e));
                    },
                }
            },
            PatternNonValuePlace::Ident(kw) => {
                match schema.entid_for_ident(kw) {
                    Some(e) => {
                        match schema.attribute_for_entid(e) {
                            Some(a) => {
                                self.constrain_attribute(column, e, a.value_type);
                            },
                            None => {
                                self.mark_known_empty(
                                    EmptyBecause::InvalidAttributeIdent(kw.clone()),
                                );
                            },
                        }
                    },
                    None => {
                        self.mark_known_empty(EmptyBecause::UnresolvedIdent(kw.clone()));
                    },
                }
            },
        }
    }

    fn apply_value(&mut self, declared: Option<ValueType>, place: &PatternValuePlace, alias: TableAlias)
        requires
            old(self)@.wf(),
        ensures
            final(self)@ == old(self)@.apply_value(declared, *place, alias),
            final(self)@.wf(),
            final(self)@.from == old(self)@.from,
            final(self)@.counter == old(self)@.counter,
            final(self)@.computed == old(self)@.computed,
    {
        let column = QualifiedAlias { alias, column: DatomsColumn::Value };
        proof {
            match place {
                PatternValuePlace::Variable(v) => {
                    match declared {
                        Some(t) => {
                            lemma_narrow_keeps(self@, *v, ValueTypeSet::unit_of(t));
                            lemma_bind_column_wf(
                                self@.narrow(*v, ValueTypeSet::unit_of(t)),
                                *v,
                                column,
                            );
                        },
                        None => {
                            lemma_bind_column_wf(self@, *v, column);
                        },
                    }
                },
                PatternValuePlace::EntidOrInteger(i) => {
                    let c = self@.constrain(
                        ColumnConstraint::Equals(
                            column,
                            QueryValue::TypedValue(TypedValue::Long(*i)),
                        ),
                    );
                    lemma_narrow_bound_keeps(
                        c,
                        column,
                        ValueTypeSet::unit_of(ValueType::Long),
                        c.cols.len(),
                    );
                },
                PatternValuePlace::Constant(value) => {
                    let c = self@.constrain(
                        ColumnConstraint::Equals(column, QueryValue::TypedValue(*value)),
                    );
                    lemma_narrow_bound_keeps(
                        c,
                        column,
                        ValueTypeSet::unit_of(value.type_of()),
                        c.cols.len(),
                    );
                },
                _ => {},
            }
        }
        match place {
            PatternValuePlace::Placeholder => {},
            PatternValuePlace::Variable(v) => {
                match declared {
                    Some(t) => {
                        self.narrow_types_for_var(v, ValueTypeSet::of_one(t));
                    },
                    None => {},
                }
                self.bind_column_to_var(v, column);
            },
            PatternValuePlace::EntidOrInteger(i) => {
                match declared {
                    Some(ValueType::Ref) => {
                        self.constrain_column_to_entity(column, *i);
                    },
                    Some(ValueType::Long) => {
                        self.constrain_column_to_constant(column, &TypedValue::Long(*i));
                    },
                    Some(t) => {
                        self.mark_known_empty(
                            EmptyBecause::ValueTypeMismatch(t, TypedValue::Long(*i)),
                        );
                    },
                    None => {
                        self.constrain(
                            ColumnConstraint::Equals(column, QueryValue::PrimitiveLong(*i)),
                        );
                    },
                }
            },
            PatternValuePlace::Constant(value) => {
                match declared {
                    Some(t) => {
                        if t == value.value_type() {
                            self.constrain_column_to_constant(column, value);
                        } else {
                            self.mark_known_empty(
                                EmptyBecause::ValueTypeMismatch(t, value.duplicate()),
                            );
                        }
                    },
                    None => {
                        self.constrain_column_to_constant(column, value);
                        self.constrain(ColumnConstraint::HasType(alias, value.value_type()));
                    },
                }
            },
        }
    }

    /// Resolves `pattern` against a fresh alias: the attribute, then the
    /// value, the entity and the transaction. Clauses that are known empty
    /// stay as they are. The one error is that the alias numbers have run out.
    pub fn apply_pattern(&mut self, schema: &Schema, pattern: &Pattern) -> (r: Result<
        (),
        AlgebrizerError,
    >)
        requires
            old(self)@.wf(),
        ensures
            match r {
                Ok(()) => old(self)@.apply_pattern(*schema, *pattern) == Ok::<
                    CcModel,
                    AlgebrizerError,
                >(final(self)@),
                Err(e) => old(self)@.apply_pattern(*schema, *pattern) == Err::<
                    CcModel,
                    AlgebrizerError,
                >(e) && final(self)@ == old(self)@,
            },
            final(self)@.wf(),
            old(self)@.is_empty() ==> final(self)@ == old(self)@,
            final(self)@.computed == old(self)@.computed,
    {
        if self.is_known_empty() {
            return Ok(());
        }
        let table = self.table_for_pattern(schema, pattern);
        let alias = match self.next_alias_for_table(table) {
            Ok(alias) => alias,
            Err(e) => {
                return Err(e);
            },
        };
        let declared: Option<ValueType> = match Self::attribute_for_place(
            schema,
            &pattern.attribute,
        ) {
            Some(a) => Some(a.value_type),
            None => None,
        };
        self.apply_attribute(schema, &pattern.attribute, alias);
        self.apply_value(declared, &pattern.value, alias);
        self.apply_place(
            schema,
            &pattern.entity,
            QualifiedAlias { alias, column: DatomsColumn::Entity },
        );
        self.apply_place(schema, &pattern.tx, QualifiedAlias { alias, column: DatomsColumn::Tx });
        Ok(())
    }
}

} // verus!
