use mentat::algebrize::{
    algebrize, algebrize_with_inputs, AggregateFn, Direction, Element, FindQuery, FindSpec, Limit,
    Order, QueryInputs,
};
use mentat::clauses::{AliasCounters, ConjoiningClauses};
use mentat::query::{
    FnArg, NotJoin, OrJoin, Pattern, PatternNonValuePlace, PatternValuePlace, Predicate, UnifyVars,
    Variable, WhereClause, WhereFn,
};
use mentat::schema::{add_attribute, associate_ident, Attribute, Schema};
use mentat::types::{
    AlgebrizerError, ColumnConstraint, ColumnConstraintOrAlternation, ColumnIntersection,
    DatomsColumn, DatomsTable, EmptyBecause, Inequality, QualifiedAlias, QueryValue, SourceAlias,
    TableAlias,
};
use mentat::value_types::{TypedValue, ValueType, ValueTypeSet};

fn v(name: &str) -> Variable {
    Variable::from_valid_name(name)
}

fn people() -> Schema {
    let mut schema = Schema::new();
    for (ident, entid, value_type) in [
        (":foo/name", 65, ValueType::String),
        (":foo/knows", 66, ValueType::String),
        (":foo/parent", 67, ValueType::String),
        (":foo/age", 68, ValueType::Long),
        (":foo/height", 69, ValueType::Long),
        (":foo/friend", 70, ValueType::Ref),
    ] {
        associate_ident(&mut schema, ident, entid);
        add_attribute(
            &mut schema,
            entid,
            Attribute {
                value_type,
                multival: false,
                unique: None,
                fulltext: false,
                index: false,
                no_history: false,
            },
        );
    }
    associate_ident(&mut schema, ":foo/ghost", 99);
    schema
}

fn pat(e: &str, a: &str, value: PatternValuePlace) -> Pattern {
    Pattern::new(
        PatternNonValuePlace::Variable(v(e)),
        PatternNonValuePlace::Ident(a.to_string()),
        value,
    )
}

fn clause(e: &str, a: &str, value: PatternValuePlace) -> WhereClause {
    WhereClause::Pattern(pat(e, a, value))
}

fn text(s: &str) -> PatternValuePlace {
    PatternValuePlace::Constant(TypedValue::typed_string(s))
}

fn find(vars: Vec<&str>, where_clauses: Vec<WhereClause>) -> FindQuery {
    FindQuery {
        find_spec: FindSpec::FindRel(vars.into_iter().map(|x| Element::Variable(v(x))).collect()),
        with: vec![],
        in_vars: vec![],
        where_clauses,
        order: vec![],
        limit: Limit::Unbounded,
    }
}

fn col(index: u64, column: DatomsColumn) -> QualifiedAlias {
    QualifiedAlias::new(TableAlias::new(DatomsTable::Datoms, index), column)
}

fn equals(column: QualifiedAlias, value: QueryValue) -> ColumnConstraintOrAlternation {
    ColumnConstraintOrAlternation::Constraint(ColumnConstraint::Equals(column, value))
}

fn compare(op: &str, left: FnArg, right: FnArg) -> WhereClause {
    WhereClause::Pred(Predicate { operator: op.to_string(), args: vec![left, right] })
}

#[test]
fn test_alias_names_are_padded_to_two_digits() {
    assert_eq!(TableAlias::new(DatomsTable::Datoms, 0).name(), "datoms00");
    assert_eq!(TableAlias::new(DatomsTable::Datoms, 7).name(), "datoms07");
    assert_eq!(TableAlias::new(DatomsTable::Datoms, 10).name(), "datoms10");
    assert_eq!(TableAlias::new(DatomsTable::Datoms, 123).name(), "datoms123");
    assert_eq!(TableAlias::new(DatomsTable::AllDatoms, 0).name(), "all_datoms00");
    assert_eq!(TableAlias::new(DatomsTable::FulltextValues, 3).name(), "fulltext_values03");
    assert_eq!(
        col(2, DatomsColumn::Value).for_type_tag(),
        col(2, DatomsColumn::ValueTypeTag)
    );
}

#[test]
fn test_schema_lookups_take_the_latest_entry() {
    let mut schema = people();
    assert_eq!(schema.entid_for_ident(&":foo/age".to_string()), Some(68));
    assert_eq!(schema.entid_for_ident(&":foo/nope".to_string()), None);
    assert_eq!(schema.attribute_for_entid(68).map(|a| a.value_type), Some(ValueType::Long));
    assert!(!schema.is_attribute(99));
    assert!(schema.attribute_for_entid(70).unwrap().is_ref());
    associate_ident(&mut schema, ":foo/age", 69);
    assert_eq!(schema.entid_for_ident(&":foo/age".to_string()), Some(69));
    add_attribute(&mut schema, 68, Attribute::of_type(ValueType::Instant));
    assert_eq!(schema.attribute_for_entid(68), Some(Attribute::of_type(ValueType::Instant)));
}

#[test]
fn test_pattern_binds_and_types_its_variables() {
    let cc = algebrize(
        &people(),
        find(vec!["?x", "?n"], vec![clause("?x", ":foo/name", PatternValuePlace::Variable(v("?n")))]),
    )
    .unwrap()
    .cc;
    assert_eq!(cc.wheres, ColumnIntersection(vec![equals(col(0, DatomsColumn::Attribute), QueryValue::Entid(65))]));
    assert_eq!(cc.known_types.get(&v("?n")), Some(&ValueTypeSet::of_one(ValueType::String)));
    assert_eq!(cc.known_types.get(&v("?x")), Some(&ValueTypeSet::of_ref()));
    assert_eq!(cc.column_bindings.get_all(&v("?n")), vec![col(0, DatomsColumn::Value)]);
    assert_eq!(cc.column_bindings.get_all(&v("?x")), vec![col(0, DatomsColumn::Entity)]);
    assert_eq!(
        cc.alias_counter,
        AliasCounters { datoms: 1, fulltext_values: 0, fulltext_datoms: 0, all_datoms: 0 }
    );
}

#[test]
fn test_unknown_attribute_reads_all_datoms_and_extracts_the_type() {
    let p = Pattern::new(
        PatternNonValuePlace::Variable(v("?x")),
        PatternNonValuePlace::Variable(v("?a")),
        PatternValuePlace::Variable(v("?val")),
    );
    let cc = algebrize(&people(), find(vec!["?val"], vec![WhereClause::Pattern(p)])).unwrap().cc;
    let alias = TableAlias::new(DatomsTable::AllDatoms, 0);
    assert_eq!(cc.from, vec![SourceAlias { table: DatomsTable::AllDatoms, alias }]);
    assert_eq!(
        cc.extracted_types.get(&v("?val")),
        Some(&QualifiedAlias::new(alias, DatomsColumn::ValueTypeTag))
    );
    assert!(cc.wheres.is_empty());
}

#[test]
fn test_literal_of_another_type_than_the_attribute_is_known_empty() {
    let q = algebrize(&people(), find(vec!["?x"], vec![clause("?x", ":foo/age", text("ten"))]))
        .unwrap();
    assert!(q.is_known_empty());
    assert_eq!(
        q.cc.empty_because,
        Some(EmptyBecause::ValueTypeMismatch(ValueType::Long, TypedValue::typed_string("ten")))
    );
    // The same place with a literal of the declared type is accepted.
    let q = algebrize(
        &people(),
        find(vec!["?x"], vec![clause("?x", ":foo/age", PatternValuePlace::Constant(TypedValue::Long(10)))]),
    )
    .unwrap();
    assert!(!q.is_known_empty());
}

#[test]
fn test_reasons_for_known_empty() {
    let schema = people();
    let why = |clauses: Vec<WhereClause>| algebrize(&schema, find(vec![], clauses)).unwrap().cc.empty_because;
    assert_eq!(
        why(vec![clause("?x", ":foo/nope", text("a"))]),
        Some(EmptyBecause::UnresolvedIdent(":foo/nope".to_string()))
    );
    assert_eq!(
        why(vec![clause("?x", ":foo/ghost", text("a"))]),
        Some(EmptyBecause::InvalidAttributeIdent(":foo/ghost".to_string()))
    );
    assert_eq!(
        why(vec![WhereClause::Pattern(Pattern::new(
            PatternNonValuePlace::Variable(v("?x")),
            PatternNonValuePlace::Entid(99),
            PatternValuePlace::Placeholder,
        ))]),
        Some(EmptyBecause::InvalidAttributeEntid(99))
    );
    assert_eq!(
        why(vec![clause("?x", ":foo/name", PatternValuePlace::EntidOrInteger(5))]),
        Some(EmptyBecause::ValueTypeMismatch(ValueType::String, TypedValue::Long(5)))
    );
    // ?n is a string by the first pattern and a long by the second.
    assert_eq!(
        why(vec![
            clause("?x", ":foo/name", PatternValuePlace::Variable(v("?n"))),
            clause("?x", ":foo/age", PatternValuePlace::Variable(v("?n"))),
        ]),
        Some(EmptyBecause::TypeMismatch {
            var: v("?n"),
            existing: ValueTypeSet::of_one(ValueType::String),
            desired: ValueTypeSet::of_one(ValueType::Long),
        })
    );
    // A value that is no entity cannot stand in the entity place.
    let inputs = QueryInputs::with_value_sequence(vec![(v("?x"), TypedValue::Long(1))]);
    let cc = algebrize_with_inputs(&schema, find(vec![], vec![clause("?x", ":foo/name", text("a"))]),
        0, inputs,
    )
    .unwrap()
    .cc;
    assert_eq!(
        cc.empty_because,
        Some(EmptyBecause::InvalidBinding(DatomsColumn::Entity, TypedValue::Long(1)))
    );
}

#[test]
fn test_emptiness_is_sticky() {
    let q = find(
        vec![],
        vec![
            clause("?x", ":foo/nope", text("a")),
            clause("?x", ":foo/name", text("b")),
            compare("<", FnArg::Variable(v("?unbound")), FnArg::Constant(TypedValue::Long(1))),
        ],
    );
    let cc = algebrize(&people(), q).unwrap().cc;
    assert_eq!(cc.empty_because, Some(EmptyBecause::UnresolvedIdent(":foo/nope".to_string())));
    assert_eq!(cc.from.len(), 1);
    assert!(cc.wheres.is_empty());
    assert!(cc.column_bindings.is_empty());
}

#[test]
fn test_input_values_are_typed_and_pin_columns() {
    let inputs = QueryInputs::with_value_sequence(vec![
        (v("?who"), TypedValue::Ref(7)),
        (v("?n"), TypedValue::typed_string("Ann")),
    ]);
    let mut q = find(vec!["?who"], vec![clause("?who", ":foo/name", PatternValuePlace::Variable(v("?n")))]);
    q.in_vars = vec![v("?who"), v("?n"), v("?who")];
    let cc = algebrize_with_inputs(&people(), q, 0, inputs).unwrap().cc;
    assert_eq!(cc.input_variables, vec![v("?who"), v("?n")]);
    assert_eq!(cc.known_types.get(&v("?who")), Some(&ValueTypeSet::of_ref()));
    assert_eq!(cc.known_types.get(&v("?n")), Some(&ValueTypeSet::of_one(ValueType::String)));
    assert_eq!(
        cc.wheres,
        ColumnIntersection(vec![
            equals(col(0, DatomsColumn::Attribute), QueryValue::Entid(65)),
            equals(col(0, DatomsColumn::Value), QueryValue::TypedValue(TypedValue::typed_string("Ann"))),
            equals(col(0, DatomsColumn::Entity), QueryValue::Entid(7)),
        ])
    );
    assert!(cc.column_bindings.is_empty());
}

#[test]
fn test_conflicting_input_values() {
    let inputs = QueryInputs::with_value_sequence(vec![
        (v("?n"), TypedValue::Long(1)),
        (v("?n"), TypedValue::Long(1)),
        (v("?n"), TypedValue::Long(2)),
    ]);
    let cc = algebrize_with_inputs(&people(), find(vec![], vec![]), 0, inputs).unwrap().cc;
    assert_eq!(
        cc.empty_because,
        Some(EmptyBecause::ConflictingBindings {
            var: v("?n"),
            existing: TypedValue::Long(1),
            desired: TypedValue::Long(2),
        })
    );
}

#[test]
fn test_predicate_errors() {
    let schema = people();
    let age = clause("?x", ":foo/age", PatternValuePlace::Variable(v("?age")));
    let name = clause("?x", ":foo/name", PatternValuePlace::Variable(v("?name")));
    let run = |clauses: Vec<WhereClause>| algebrize(&schema, find(vec![], clauses)).map(|q| q.cc);
    assert_eq!(
        run(vec![compare("~", FnArg::Constant(TypedValue::Long(1)), FnArg::Constant(TypedValue::Long(2)))]),
        Err(AlgebrizerError::UnknownFunction("~".to_string()))
    );
    assert_eq!(
        run(vec![WhereClause::Pred(Predicate { operator: "<".to_string(), args: vec![] })]),
        Err(AlgebrizerError::InvalidNumberOfArguments("<".to_string(), 0, 2))
    );
    assert_eq!(
        run(vec![compare("<", FnArg::Variable(v("?u")), FnArg::Constant(TypedValue::Long(2)))]),
        Err(AlgebrizerError::UnboundVariable("?u".to_string()))
    );
    assert_eq!(
        run(vec![compare(">", FnArg::Constant(TypedValue::Long(2)), FnArg::Variable(v("?u")))]),
        Err(AlgebrizerError::UnboundVariable("?u".to_string()))
    );
    assert_eq!(
        run(vec![name, compare("<", FnArg::Variable(v("?name")), FnArg::Constant(TypedValue::Long(2)))]),
        Err(AlgebrizerError::InvalidArgument("<".to_string(), 0))
    );
    assert_eq!(
        run(vec![age, compare(">=", FnArg::Variable(v("?age")), FnArg::Constant(TypedValue::typed_string("a")))]),
        Err(AlgebrizerError::InvalidArgument(">=".to_string(), 1))
    );
    assert_eq!(
        run(vec![compare("=", FnArg::Constant(TypedValue::Long(2)), FnArg::Constant(TypedValue::Long(2)))]),
        Err(AlgebrizerError::InvalidArgument("=".to_string(), 0))
    );
}

#[test]
fn test_comparisons() {
    let schema = people();
    let age = || clause("?x", ":foo/age", PatternValuePlace::Variable(v("?age")));
    let run = |clauses: Vec<WhereClause>| algebrize(&schema, find(vec![], clauses)).unwrap().cc;
    for (name, operator) in [
        ("<", Inequality::LessThan),
        ("<=", Inequality::LessThanOrEquals),
        (">", Inequality::GreaterThan),
        (">=", Inequality::GreaterThanOrEquals),
        ("!=", Inequality::NotEquals),
    ] {
        // A long compares with a double.
        let cc = run(vec![
            age(),
            compare(name, FnArg::Variable(v("?age")), FnArg::Constant(TypedValue::Double(2.5f64.to_bits()))),
        ]);
        assert!(!cc.is_known_empty());
        assert_eq!(
            cc.wheres.0[1],
            ColumnConstraintOrAlternation::Constraint(ColumnConstraint::Inequality {
                operator,
                left: QueryValue::Column(col(0, DatomsColumn::Value)),
                right: QueryValue::TypedValue(TypedValue::Double(2.5f64.to_bits())),
            })
        );
    }
    let cc = run(vec![age(), compare("=", FnArg::Variable(v("?age")), FnArg::Constant(TypedValue::Long(3)))]);
    assert_eq!(
        cc.wheres.0[1],
        equals(col(0, DatomsColumn::Value), QueryValue::TypedValue(TypedValue::Long(3)))
    );
    // A long never equals an instant: both are comparable, but not with each other.
    let cc = run(vec![age(), compare("<", FnArg::Variable(v("?age")), FnArg::Constant(TypedValue::Instant(3)))]);
    assert_eq!(
        cc.empty_because,
        Some(EmptyBecause::TypeMismatch {
            var: v("?age"),
            existing: ValueTypeSet::of_one(ValueType::Long),
            desired: ValueTypeSet::of_one(ValueType::Instant),
        })
    );
    let cc = run(vec![compare("<", FnArg::Constant(TypedValue::Long(1)), FnArg::Constant(TypedValue::Instant(3)))]);
    assert_eq!(cc.empty_because, Some(EmptyBecause::NonNumericArgument));
    let cc = run(vec![
        age(),
        compare("<", FnArg::Constant(TypedValue::Instant(3)), FnArg::Variable(v("?age"))),
    ]);
    assert_eq!(
        cc.empty_because,
        Some(EmptyBecause::TypeMismatch {
            var: v("?age"),
            existing: ValueTypeSet::of_one(ValueType::Long),
            desired: ValueTypeSet::of_one(ValueType::Instant),
        })
    );
}

#[test]
fn test_ground() {
    let schema = people();
    let ground = |args: Vec<FnArg>, binding: &str| {
        WhereClause::WhereFn(WhereFn { operator: "ground".to_string(), args, binding: v(binding) })
    };
    let run = |clauses: Vec<WhereClause>| algebrize(&schema, find(vec![], clauses)).map(|q| q.cc);
    assert_eq!(
        run(vec![ground(vec![FnArg::Variable(v("?y"))], "?x")]),
        Err(AlgebrizerError::InvalidGroundFnArg)
    );
    assert_eq!(
        run(vec![ground(vec![], "?x")]),
        Err(AlgebrizerError::InvalidNumberOfArguments("ground".to_string(), 0, 1))
    );
    // Ground after the pattern pins the column that the variable was bound to.
    let cc = run(vec![
        clause("?x", ":foo/age", PatternValuePlace::Variable(v("?age"))),
        ground(vec![FnArg::Constant(TypedValue::Long(41))], "?age"),
    ])
    .unwrap();
    assert_eq!(cc.value_bindings.get(&v("?age")), Some(&TypedValue::Long(41)));
    assert_eq!(
        cc.wheres.0[1],
        equals(col(0, DatomsColumn::Value), QueryValue::TypedValue(TypedValue::Long(41)))
    );
    // A value of a type that the variable cannot have.
    let cc = run(vec![
        clause("?x", ":foo/age", PatternValuePlace::Variable(v("?age"))),
        ground(vec![FnArg::Constant(TypedValue::typed_string("old"))], "?age"),
    ])
    .unwrap();
    assert_eq!(
        cc.empty_because,
        Some(EmptyBecause::TypeMismatch {
            var: v("?age"),
            existing: ValueTypeSet::of_one(ValueType::Long),
            desired: ValueTypeSet::of_one(ValueType::String),
        })
    );
}

#[test]
fn test_find_spec_validation_and_limits() {
    let schema = people();
    let base = || find(vec!["?x"], vec![clause("?x", ":foo/name", text("a"))]);
    let mut q = base();
    q.find_spec = FindSpec::FindRel(vec![Element::Variable(v("?x")), Element::Variable(v("?y"))]);
    assert_eq!(algebrize(&schema, q).err(), Some(AlgebrizerError::UnboundVariable("?y".to_string())));
    let mut q = base();
    q.with = vec![v("?w")];
    assert_eq!(algebrize(&schema, q).err(), Some(AlgebrizerError::UnboundVariable("?w".to_string())));
    let mut q = base();
    q.order = vec![Order(Direction::Descending, v("?o"))];
    assert_eq!(algebrize(&schema, q).err(), Some(AlgebrizerError::UnboundVariable("?o".to_string())));
    let mut q = base();
    q.limit = Limit::Fixed(0);
    assert_eq!(algebrize(&schema, q).err(), Some(AlgebrizerError::InvalidLimit));
    let mut q = base();
    q.limit = Limit::Variable(v("?l"));
    assert_eq!(algebrize(&schema, q).err(), Some(AlgebrizerError::UnknownLimit));
    let mut q = base();
    q.limit = Limit::Variable(v("?l"));
    q.in_vars = vec![v("?l")];
    assert_eq!(algebrize(&schema, q).unwrap().limit, Limit::Variable(v("?l")));
    let mut q = base();
    q.limit = Limit::Fixed(10);
    q.order = vec![Order(Direction::Ascending, v("?x"))];
    let done = algebrize(&schema, q).unwrap();
    assert_eq!(done.limit, Limit::Fixed(10));
    assert_eq!(done.order, vec![Order(Direction::Ascending, v("?x"))]);
    assert!(!done.has_aggregates);

    let mut q = base();
    q.find_spec = FindSpec::FindScalar(Element::Aggregate(AggregateFn::Count, v("?x")));
    q.limit = Limit::Fixed(10);
    let done = algebrize(&schema, q).unwrap();
    assert_eq!(done.limit, Limit::Fixed(1));
    assert!(done.has_aggregates);

    // A query that is known empty is no error, whatever it reads.
    let mut q = find(vec!["?x", "?y"], vec![clause("?x", ":foo/nope", text("a"))]);
    q.find_spec = FindSpec::FindTuple(vec![Element::Variable(v("?y"))]);
    assert!(algebrize(&schema, q).unwrap().is_known_empty());
}

#[test]
fn test_expanding_twice_adds_nothing() {
    let q = find(
        vec!["?x"],
        vec![
            clause("?x", ":foo/name", PatternValuePlace::Variable(v("?n"))),
            clause("?x", ":foo/knows", PatternValuePlace::Variable(v("?n"))),
            clause("?x", ":foo/age", PatternValuePlace::Placeholder),
        ],
    );
    let mut cc = algebrize(&people(), q).unwrap().cc;
    let d0e = col(0, DatomsColumn::Entity);
    assert_eq!(
        cc.wheres,
        ColumnIntersection(vec![
            equals(col(0, DatomsColumn::Attribute), QueryValue::Entid(65)),
            equals(col(1, DatomsColumn::Attribute), QueryValue::Entid(66)),
            equals(col(2, DatomsColumn::Attribute), QueryValue::Entid(68)),
            equals(col(0, DatomsColumn::Value), QueryValue::Column(col(1, DatomsColumn::Value))),
            equals(d0e, QueryValue::Column(col(1, DatomsColumn::Entity))),
            equals(d0e, QueryValue::Column(col(2, DatomsColumn::Entity))),
        ])
    );
    assert!(cc.has_equality(d0e, col(2, DatomsColumn::Entity)));
    assert!(!cc.has_equality(col(1, DatomsColumn::Entity), col(2, DatomsColumn::Entity)));
    let before = cc.wheres.len();
    cc.expand_column_bindings();
    assert_eq!(cc.wheres.len(), before);
    // No alias stands twice in the from list.
    for i in 0..cc.from.len() {
        for j in 0..i {
            assert_ne!(cc.from[i].alias, cc.from[j].alias);
        }
    }
}

#[test]
fn test_required_types() {
    let mut cc = ConjoiningClauses::new();
    let alias = TableAlias::new(DatomsTable::AllDatoms, 0);
    let value = QualifiedAlias::new(alias, DatomsColumn::Value);
    cc.bind_column_to_var(&v("?val"), value);
    cc.required_types.insert(&v("?val"), ValueTypeSet::of_numeric_types());
    assert_eq!(cc.process_required_types(), Ok(()));
    assert_eq!(cc.known_types.get(&v("?val")), Some(&ValueTypeSet::of_numeric_types()));
    assert_eq!(
        cc.wheres,
        ColumnIntersection(vec![ColumnConstraintOrAlternation::Constraint(
            ColumnConstraint::HasTypes {
                value: alias,
                value_types: ValueTypeSet::of_numeric_types(),
                check_value: true,
            }
        )])
    );
    // A second time changes nothing.
    assert_eq!(cc.process_required_types(), Ok(()));
    assert_eq!(cc.wheres.len(), 1);
    assert_eq!(cc.known_types.get(&v("?val")), Some(&ValueTypeSet::of_numeric_types()));

    // A requirement that nothing meets.
    cc.required_types.insert(&v("?val"), ValueTypeSet::of_one(ValueType::String));
    assert_eq!(cc.process_required_types(), Ok(()));
    assert_eq!(
        cc.empty_because,
        Some(EmptyBecause::TypeMismatch {
            var: v("?val"),
            existing: ValueTypeSet::of_numeric_types(),
            desired: ValueTypeSet::of_one(ValueType::String),
        })
    );

    // A requirement on a variable whose type cannot be read from a column.
    let mut cc = ConjoiningClauses::new();
    cc.required_types.insert(&v("?free"), ValueTypeSet::of_numeric_types());
    assert_eq!(
        cc.process_required_types(),
        Err(AlgebrizerError::UnboundVariable("?free".to_string()))
    );

    // A single known type prunes the extraction.
    let mut cc = ConjoiningClauses::new();
    cc.bind_column_to_var(&v("?val"), value);
    assert!(cc.extracted_types.contains_key(&v("?val")));
    cc.narrow_types_for_var(&v("?val"), ValueTypeSet::of_one(ValueType::Long));
    cc.prune_extracted_types();
    assert!(!cc.extracted_types.contains_key(&v("?val")));
}

#[test]
fn test_value_bindings_come_with_their_type() {
    let inputs = QueryInputs::with_value_sequence(vec![(v("?age"), TypedValue::Long(3))]);
    let q = find(vec!["?x"], vec![clause("?x", ":foo/age", PatternValuePlace::Variable(v("?age")))]);
    let cc = algebrize_with_inputs(&people(), q, 0, inputs).unwrap().cc;
    for (var, value) in cc.value_bindings.entries.iter() {
        assert_eq!(cc.known_types.get(var), Some(&ValueTypeSet::of_one(value.value_type())));
    }
    // In clauses that are known empty the known types may have been narrowed to nothing.
    let inputs = QueryInputs::with_value_sequence(vec![(v("?age"), TypedValue::Long(3))]);
    let q = find(vec!["?x"], vec![clause("?x", ":foo/name", PatternValuePlace::Variable(v("?age")))]);
    let cc = algebrize_with_inputs(&people(), q, 0, inputs).unwrap().cc;
    assert!(cc.is_known_empty());
    assert_eq!(cc.known_types.get(&v("?age")), Some(&ValueTypeSet::none()));
}

#[test]
fn test_algebrizing_twice_gives_equal_clauses() {
    let make = || {
        find(
            vec!["?x"],
            vec![
                clause("?x", ":foo/knows", text("John")),
                WhereClause::NotJoin(NotJoin {
                    unify_vars: UnifyVars::Implicit,
                    clauses: vec![clause("?x", ":foo/parent", text("Ámbar"))],
                }),
            ],
        )
    };
    assert_eq!(algebrize(&people(), make()), algebrize(&people(), make()));
}

#[test]
fn test_negation_does_not_use_up_aliases_of_its_parent() {
    let q = find(
        vec!["?x"],
        vec![
            clause("?x", ":foo/knows", text("John")),
            WhereClause::NotJoin(NotJoin {
                unify_vars: UnifyVars::Implicit,
                clauses: vec![clause("?x", ":foo/nope", text("Ámbar"))],
            }),
            clause("?x", ":foo/age", PatternValuePlace::Placeholder),
        ],
    );
    let without = find(
        vec!["?x"],
        vec![
            clause("?x", ":foo/knows", text("John")),
            clause("?x", ":foo/age", PatternValuePlace::Placeholder),
        ],
    );
    let left = algebrize(&people(), q).unwrap().cc;
    let right = algebrize(&people(), without).unwrap().cc;
    assert_eq!(left.wheres, right.wheres);
    assert_eq!(left.from, right.from);
}

#[test]
fn test_negation_that_constrains_nothing_is_dropped() {
    let ground = WhereClause::WhereFn(WhereFn {
        operator: "ground".to_string(),
        args: vec![FnArg::Constant(TypedValue::Long(1))],
        binding: v("?y"),
    });
    let q = find(
        vec!["?x"],
        vec![
            clause("?x", ":foo/knows", text("John")),
            WhereClause::NotJoin(NotJoin { unify_vars: UnifyVars::Implicit, clauses: vec![ground] }),
        ],
    );
    let inputs = QueryInputs::with_value_sequence(vec![(v("?y"), TypedValue::Long(1))]);
    let cc = algebrize_with_inputs(&people(), q, 0, inputs).unwrap().cc;
    assert!(!cc.is_known_empty());
    assert_eq!(cc.wheres.len(), 2);
}

#[test]
fn test_not_join_over_a_variable_that_its_clauses_do_not_mention() {
    let q = find(
        vec!["?x"],
        vec![
            clause("?x", ":foo/knows", PatternValuePlace::Variable(v("?y"))),
            WhereClause::NotJoin(NotJoin {
                unify_vars: UnifyVars::Explicit(vec![v("?x"), v("?y")]),
                clauses: vec![clause("?x", ":foo/parent", text("Ámbar"))],
            }),
        ],
    );
    assert_eq!(
        algebrize(&people(), q).err(),
        Some(AlgebrizerError::NonMatchingVariablesInNotJoin)
    );
}

#[test]
fn test_sums_and_averages_are_taken_of_numbers() {
    let schema = people();
    let sum_of = |attribute: &str| {
        let mut q = find(vec![], vec![clause("?x", attribute, PatternValuePlace::Variable(v("?n")))]);
        q.find_spec = FindSpec::FindScalar(Element::Aggregate(AggregateFn::Sum, v("?n")));
        algebrize(&schema, q).unwrap()
    };
    let ages = sum_of(":foo/age");
    assert!(!ages.is_known_empty());
    assert_eq!(ages.cc.required_types.get(&v("?n")), Some(&ValueTypeSet::of_numeric_types()));
    assert_eq!(ages.cc.wheres.len(), 1);
    let names = sum_of(":foo/name");
    assert_eq!(
        names.cc.empty_because,
        Some(EmptyBecause::TypeMismatch {
            var: v("?n"),
            existing: ValueTypeSet::of_one(ValueType::String),
            desired: ValueTypeSet::of_numeric_types(),
        })
    );
    // Where the type is only known at run time, the type tag is checked.
    let mut q = find(
        vec![],
        vec![WhereClause::Pattern(Pattern::new(
            PatternNonValuePlace::Variable(v("?x")),
            PatternNonValuePlace::Placeholder,
            PatternValuePlace::Variable(v("?n")),
        ))],
    );
    q.find_spec = FindSpec::FindColl(Element::Aggregate(AggregateFn::Avg, v("?n")));
    let any = algebrize(&schema, q).unwrap().cc;
    let alias = TableAlias::new(DatomsTable::AllDatoms, 0);
    assert_eq!(
        any.wheres,
        ColumnIntersection(vec![ColumnConstraintOrAlternation::Constraint(
            ColumnConstraint::HasTypes {
                value: alias,
                value_types: ValueTypeSet::of_numeric_types(),
                check_value: true,
            }
        )])
    );
    assert_eq!(any.known_types.get(&v("?n")), Some(&ValueTypeSet::of_numeric_types()));
    // A count asks nothing of the type.
    let mut q = find(vec![], vec![clause("?x", ":foo/name", PatternValuePlace::Variable(v("?n")))]);
    q.find_spec = FindSpec::FindScalar(Element::Aggregate(AggregateFn::Count, v("?n")));
    let counted = algebrize(&schema, q).unwrap();
    assert!(!counted.is_known_empty());
    assert!(counted.cc.required_types.is_empty());
}

#[test]
fn test_or_with_one_branch_is_its_pattern() {
    let or = WhereClause::OrJoin(OrJoin {
        unify_vars: UnifyVars::Implicit,
        clauses: vec![pat("?x", ":foo/knows", text("John"))],
    });
    let left = algebrize(&people(), find(vec!["?x"], vec![or])).unwrap();
    let right =
        algebrize(&people(), find(vec!["?x"], vec![clause("?x", ":foo/knows", text("John"))])).unwrap();
    assert_eq!(left.cc, right.cc);
    let none = WhereClause::OrJoin(OrJoin { unify_vars: UnifyVars::Implicit, clauses: vec![] });
    assert_eq!(algebrize(&people(), find(vec![], vec![none])).unwrap().cc, ConjoiningClauses::new());
}

#[test]
fn test_or_branches() {
    let schema = people();
    let or = |clauses: Vec<Pattern>| {
        WhereClause::OrJoin(OrJoin { unify_vars: UnifyVars::Implicit, clauses })
    };
    // No branch can match.
    let cc = algebrize(
        &schema,
        find(vec![], vec![or(vec![pat("?x", ":foo/nope", text("a")), pat("?x", ":foo/age", text("b"))])]),
    )
    .unwrap()
    .cc;
    assert_eq!(cc.empty_because, Some(EmptyBecause::NonMatchingOr));
    assert!(cc.from.is_empty());
    // One branch is left: its constraints are spliced in.
    let cc = algebrize(
        &schema,
        find(vec!["?x"], vec![or(vec![pat("?x", ":foo/nope", text("a")), pat("?x", ":foo/name", text("b"))])]),
    )
    .unwrap()
    .cc;
    assert_eq!(
        cc.wheres,
        ColumnIntersection(vec![
            equals(col(0, DatomsColumn::Attribute), QueryValue::Entid(65)),
            equals(col(0, DatomsColumn::Value), QueryValue::TypedValue(TypedValue::typed_string("b"))),
        ])
    );
    assert_eq!(cc.column_bindings.get_all(&v("?x")), vec![col(0, DatomsColumn::Entity)]);
    assert_eq!(cc.from.len(), 1);
    // Two branches over different attribute types widen the type of the value.
    let cc = algebrize(
        &schema,
        find(
            vec!["?val"],
            vec![or(vec![
                pat("?x", ":foo/name", PatternValuePlace::Variable(v("?val"))),
                pat("?x", ":foo/age", PatternValuePlace::Variable(v("?val"))),
            ])],
        ),
    )
    .unwrap()
    .cc;
    assert_eq!(
        cc.known_types.get(&v("?val")),
        Some(&ValueTypeSet::of_many(&vec![ValueType::String, ValueType::Long]))
    );
    assert_eq!(cc.wheres.len(), 1);
    // Branches that do not mention the same variables.
    assert_eq!(
        algebrize(
            &schema,
            find(vec![], vec![or(vec![pat("?x", ":foo/name", text("a")), pat("?y", ":foo/name", text("b"))])]),
        )
        .err(),
        Some(AlgebrizerError::NonMatchingVariablesInOrJoin)
    );
    let join = WhereClause::OrJoin(OrJoin {
        unify_vars: UnifyVars::Explicit(vec![v("?x"), v("?z")]),
        clauses: vec![pat("?x", ":foo/name", text("a")), pat("?x", ":foo/name", text("b"))],
    });
    assert_eq!(
        algebrize(&schema, find(vec![], vec![join])).err(),
        Some(AlgebrizerError::NonMatchingVariablesInOrJoin)
    );
}

#[test]
fn test_aliases_run_out() {
    let mut cc = ConjoiningClauses::new();
    cc.alias_counter.datoms = u64::MAX;
    assert_eq!(
        cc.apply_pattern(&people(), &pat("?x", ":foo/name", text("a"))),
        Err(AlgebrizerError::AliasesExhausted)
    );
    assert_eq!(cc.next_alias_for_table(DatomsTable::Datoms), Err(AlgebrizerError::AliasesExhausted));
    assert_eq!(
        cc.next_alias_for_table(DatomsTable::AllDatoms),
        Ok(TableAlias::new(DatomsTable::AllDatoms, 0))
    );
    assert!(cc.wheres.is_empty());
}

#[test]
fn test_aliases_start_at_the_offset() {
    let q = find(vec!["?x"], vec![clause("?x", ":foo/name", text("a"))]);
    let cc = algebrize_with_inputs(&people(), q, 5, QueryInputs::new()).unwrap().cc;
    let alias = TableAlias::new(DatomsTable::Datoms, 5);
    assert_eq!(alias.name(), "datoms05");
    assert_eq!(cc.from, vec![SourceAlias { table: DatomsTable::Datoms, alias }]);
    assert_eq!(
        cc.alias_counter,
        AliasCounters { datoms: 6, fulltext_values: 5, fulltext_datoms: 5, all_datoms: 5 }
    );
}
