use mentat::algebrize::{algebrize, Element, FindQuery, FindSpec, Limit};
use mentat::query::{
    FnArg, Pattern, PatternNonValuePlace, PatternValuePlace, Variable, WhereClause, WhereFn,
};
use mentat::query_builder::{
    query, AndClauseBuilder, AttributeType, Clause, EntityType, FindBuilder, FindType,
    NotClauseBuilder, OrClauseBuilder, OrderBuilder, QueryBuilder, QueryOrder, QueryValueType,
    WhereBuilder, WhereClauseBuilder,
};
use mentat::schema::{add_attribute, associate_ident, Attribute, Schema};
use mentat::types::{
    AlgebrizerError, ColumnConstraint, ColumnConstraintOrAlternation, ColumnIntersection,
    DatomsColumn, DatomsTable, QualifiedAlias, QueryValue, SourceAlias, TableAlias,
};
use mentat::value_types::{TypedValue, ValueType, ValueTypeSet};

fn variable(name: &str) -> Variable {
    Variable::from_valid_name(name)
}

fn schema_with(ident: &str, entid: i64, value_type: ValueType, fulltext: bool) -> Schema {
    let mut schema = Schema::new();
    associate_ident(&mut schema, ident, entid);
    add_attribute(
        &mut schema,
        entid,
        Attribute { value_type, multival: false, unique: None, fulltext, index: false, no_history: false },
    );
    schema
}

fn find_x(where_clauses: Vec<WhereClause>) -> FindQuery {
    FindQuery {
        find_spec: FindSpec::FindRel(vec![Element::Variable(variable("?x"))]),
        with: vec![],
        in_vars: vec![],
        where_clauses,
        order: vec![],
        limit: Limit::Unbounded,
    }
}

// [:find ?x :where [(ground 12) ?v] [?x :foo/bar ?v]]
#[test]
fn test_find_with_ground() {
    let built = query().add_find(|find| find.add("?x"));
    assert_eq!(built.find_builder.unwrap().vars, vec![variable("?x")]);

    let schema = schema_with(":foo/bar", 70, ValueType::Long, false);
    let parsed = find_x(vec![
        WhereClause::WhereFn(WhereFn {
            operator: "ground".to_string(),
            args: vec![FnArg::Constant(TypedValue::Long(12))],
            binding: variable("?v"),
        }),
        WhereClause::Pattern(Pattern::new(
            PatternNonValuePlace::Variable(variable("?x")),
            PatternNonValuePlace::Ident(":foo/bar".to_string()),
            PatternValuePlace::Variable(variable("?v")),
        )),
    ]);
    let cc = algebrize(&schema, parsed).expect("algebrize failed").cc;
    let d0 = TableAlias::new(DatomsTable::Datoms, 0);
    assert!(!cc.is_known_empty());
    assert_eq!(cc.value_bindings.get(&variable("?v")), Some(&TypedValue::Long(12)));
    assert_eq!(
        cc.known_types.get(&variable("?v")),
        Some(&ValueTypeSet::of_one(ValueType::Long))
    );
    assert_eq!(
        cc.wheres,
        ColumnIntersection(vec![
            ColumnConstraintOrAlternation::Constraint(ColumnConstraint::Equals(
                QualifiedAlias::new(d0, DatomsColumn::Attribute),
                QueryValue::Entid(70),
            )),
            ColumnConstraintOrAlternation::Constraint(ColumnConstraint::Equals(
                QualifiedAlias::new(d0, DatomsColumn::Value),
                QueryValue::TypedValue(TypedValue::Long(12)),
            )),
        ])
    );
}

// [:find ?x :where [?x :foo/text "yyy"]] against a fulltext attribute, and
// [:find ?x :where [(fulltext $ :foo/text "yyy") ?x]]
#[test]
fn test_find_with_fulltext() {
    let schema = schema_with(":foo/text", 71, ValueType::String, true);
    let parsed = find_x(vec![WhereClause::Pattern(Pattern::new(
        PatternNonValuePlace::Variable(variable("?x")),
        PatternNonValuePlace::Ident(":foo/text".to_string()),
        PatternValuePlace::Constant(TypedValue::typed_string("yyy")),
    ))]);
    let cc = algebrize(&schema, parsed).expect("algebrize failed").cc;
    let alias = TableAlias::new(DatomsTable::FulltextDatoms, 0);
    assert_eq!(alias.name(), "fulltext_datoms00".to_string());
    assert_eq!(cc.from, vec![SourceAlias { table: DatomsTable::FulltextDatoms, alias }]);

    let called = find_x(vec![WhereClause::WhereFn(WhereFn {
        operator: "fulltext".to_string(),
        args: vec![FnArg::Constant(TypedValue::typed_string("yyy"))],
        binding: variable("?x"),
    })]);
    assert_eq!(
        algebrize(&schema, called).err(),
        Some(AlgebrizerError::UnknownFunction("fulltext".to_string()))
    );
}

// [:find ?x :where [?x :foo/bar "yyy"]]
#[test]
fn test_builder_find_rel() {
    let built = query()
        .add_find(|find| find.add("?x"))
        .add_where(|w| {
            w.add_clause(|c| {
                c.entity(EntityType::Var(Variable::from_valid_name("?x")))
                    .attribute(AttributeType::Keyword(":foo/bar".to_string()))
                    .value(QueryValueType::value(TypedValue::typed_string("yyy")))
            })
        });
    let find = built.find_builder.as_ref().unwrap();
    assert_eq!(find.find_type, FindType::Rel);
    assert_eq!(find.vars, vec![variable("?x")]);
    let clauses = &built.where_builder.as_ref().unwrap().clauses;
    assert_eq!(
        clauses,
        &vec![Clause::Where(WhereClauseBuilder {
            entity: Some(EntityType::Var(variable("?x"))),
            attribute: Some(AttributeType::Keyword(":foo/bar".to_string())),
            value: Some(QueryValueType::Value(TypedValue::typed_string("yyy"))),
        })]
    );
    assert!(built.execute().is_ok());
}

// [:find ?x . :where ...] with a limit and two orders
#[test]
fn test_builder_scalar_limit_and_orders() {
    let built = query()
        .add_find(|find| find.set_type(FindType::Scalar).add("?x"))
        .add_order(|order| order.add_descending("?y").add_ascending("?x").add("?z"))
        .add_limit(1000);
    assert_eq!(built.find_builder.as_ref().unwrap().find_type, FindType::Scalar);
    assert_eq!(built.limit, Some(1000));
    assert_eq!(
        built.order_builder.as_ref().unwrap().orders,
        vec![
            (variable("?y"), QueryOrder::Descending),
            (variable("?x"), QueryOrder::Ascending),
            (variable("?z"), QueryOrder::Ascending),
        ]
    );
    assert!(built.where_builder.is_none());
}

#[test]
fn test_builder_with_type_and_blank_query() {
    let find = FindBuilder::with_type(FindType::Tuple).add("?a").add("?b");
    assert_eq!(find.find_type, FindType::Tuple);
    assert_eq!(find.vars, vec![variable("?a"), variable("?b")]);
    let blank: QueryBuilder = query();
    assert!(blank.find_builder.is_none());
    assert!(blank.where_builder.is_none());
    assert!(blank.order_builder.is_none());
    assert_eq!(blank.limit, None);
    assert_eq!(blank, QueryBuilder::default());
    assert_eq!(OrderBuilder::default().orders.len(), 0);
}

// (or-join [?page] [...] [...]) next to plain clauses, with nested and/not
#[test]
fn test_builder_nested_clauses() {
    let w = WhereBuilder::default()
        .add_or(|or| {
            or.join("?page")
                .add_clause(|c| c.entity(EntityType::Var(Variable::from_valid_name("?page"))))
                .add_and(|and| and.add_clause(|c| c.entity(EntityType::Ref(5))))
                .add_not(|not| not.join("?page"))
                .add_or(|inner| inner)
        })
        .add_not(|not| {
            not.add_clause(|c| c.attribute(AttributeType::Ref(7)))
                .add_or(|or| or)
                .add_not(|n| n)
                .add_and(|and| and)
        })
        .add(AndClauseBuilder::default().add(WhereClauseBuilder::default()).add_and(|a| {
            a.add_or(|o| o).add_not(|n| n).add_clause(|c| c)
        }));
    assert_eq!(w.clauses.len(), 3);
    match &w.clauses[0] {
        Clause::Or(or) => {
            assert_eq!(or.join, Some(variable("?page")));
            assert_eq!(or.clauses.len(), 4);
            assert_eq!(
                or.clauses[0],
                Clause::Where(WhereClauseBuilder {
                    entity: Some(EntityType::Var(variable("?page"))),
                    attribute: None,
                    value: None,
                })
            );
            assert!(matches!(&or.clauses[1], Clause::And(a) if a.clauses.len() == 1));
            assert!(matches!(&or.clauses[2], Clause::Not(n) if n.join == Some(variable("?page"))));
            assert!(matches!(&or.clauses[3], Clause::Or(o) if o.clauses.is_empty()));
        }
        other => panic!("expected an or clause, got {:?}", other),
    }
    match &w.clauses[1] {
        Clause::Not(not) => {
            assert_eq!(not.join, None);
            assert_eq!(not.clauses.len(), 4);
        }
        other => panic!("expected a not clause, got {:?}", other),
    }
    match &w.clauses[2] {
        Clause::And(and) => {
            assert_eq!(and.clauses.len(), 2);
            assert!(matches!(&and.clauses[1], Clause::And(a) if a.clauses.len() == 3));
        }
        other => panic!("expected an and clause, got {:?}", other),
    }
    let n = NotClauseBuilder::default().add(OrClauseBuilder::default().add(WhereClauseBuilder::default()));
    assert_eq!(n.clauses.len(), 1);
    assert_eq!(QueryValueType::variable(variable("?v")), QueryValueType::Var(variable("?v")));
}

#[test]
fn test_builder_places_from_plain_values() {
    assert_eq!(EntityType::from("!=".to_string()), EntityType::Predicate("!=".to_string()));
    assert_eq!(EntityType::from(12i64), EntityType::Ref(12));
    assert_eq!(EntityType::from(variable("?x")), EntityType::Var(variable("?x")));
    assert_eq!(
        AttributeType::from(":foo/bar".to_string()),
        AttributeType::Keyword(":foo/bar".to_string())
    );
    assert_eq!(AttributeType::from(7i64), AttributeType::Ref(7));
    assert_eq!(AttributeType::from(variable("?a")), AttributeType::Var(variable("?a")));
    assert_eq!(QueryValueType::from(variable("?v")), QueryValueType::Var(variable("?v")));
    assert_eq!(
        QueryValueType::from(TypedValue::Long(12)),
        QueryValueType::value(TypedValue::Long(12))
    );
    let clause = WhereClauseBuilder::default()
        .entity("!=".to_string().into())
        .attribute(variable("?y").into())
        .value(TypedValue::Long(12).into());
    assert_eq!(clause.entity, Some(EntityType::Predicate("!=".to_string())));
    assert_eq!(clause.attribute, Some(AttributeType::Var(variable("?y"))));
    assert_eq!(clause.value, Some(QueryValueType::Value(TypedValue::Long(12))));
}

fn var_entity(name: &str) -> EntityType {
    EntityType::from(variable(name))
}

fn keyword(name: &str) -> AttributeType {
    AttributeType::from(name.to_string())
}

fn string_value(s: &str) -> QueryValueType {
    QueryValueType::value(TypedValue::typed_string(s))
}

fn where_clause(entity: Option<EntityType>, attribute: Option<AttributeType>, value: Option<QueryValueType>) -> Clause {
    Clause::Where(WhereClauseBuilder { entity, attribute, value })
}

// [:find ?x :where [?x :foo/bar "yyy"]]
#[test]
fn test_find_rel() {
    let built = query().add_find(|find| find.add("?x")).add_where(|w| {
        w.add_clause(|c| {
            c.entity(var_entity("?x")).attribute(keyword(":foo/bar")).value(string_value("yyy"))
        })
    });
    assert_eq!(built.find_builder.as_ref().unwrap().find_type, FindType::Rel);
    assert_eq!(built.find_builder.as_ref().unwrap().vars, vec![variable("?x")]);
    assert_eq!(
        built.where_builder.as_ref().unwrap().clauses,
        vec![where_clause(
            Some(var_entity("?x")),
            Some(keyword(":foo/bar")),
            Some(string_value("yyy"))
        )]
    );
    assert!(built.execute().is_ok());
}

// [:find ?x :where [?x _ "yyy"]]
#[test]
fn test_find_no_attribute() {
    let built = query()
        .add_find(|find| find.add("?x"))
        .add_where(|w| w.add_clause(|c| c.entity(var_entity("?x")).value(string_value("yyy"))));
    assert_eq!(
        built.where_builder.as_ref().unwrap().clauses,
        vec![where_clause(Some(var_entity("?x")), None, Some(string_value("yyy")))]
    );
    assert!(built.execute().is_ok());
}

// [:find ?x . :where [?x :foo/bar "yyy"]]
#[test]
fn test_find_scalar() {
    let built = query().add_find(|find| find.set_type(FindType::Scalar).add("?x")).add_where(|w| {
        w.add_clause(|c| {
            c.entity(var_entity("?x")).attribute(keyword(":foo/bar")).value(string_value("yyy"))
        })
    });
    assert_eq!(built.find_builder.as_ref().unwrap().find_type, FindType::Scalar);
    assert_eq!(built.find_builder.as_ref().unwrap().vars, vec![variable("?x")]);
    assert_eq!(built.where_builder.as_ref().unwrap().clauses.len(), 1);
    assert!(built.execute().is_ok());
}

// [:find [?url ?description]
//  :where
//  (or-join [?page]
//     [?page :page/url "http://foo.com/"]
//     [?page :page/title "Foo"])
// [?page :page/url ?url]
// [?page :page/description ?description]]
#[test]
fn test_find_or_join() {
    let built = query().add_find(|find| find.add("?url").add("?description")).add_where(|w| {
        w.add_or(|or| {
            or.join("?page")
                .add_clause(|c| {
                    c.entity(var_entity("?page"))
                        .attribute(keyword(":page/url"))
                        .value(string_value("http://foo.com/"))
                })
                .add_clause(|c| {
                    c.entity(var_entity("?page"))
                        .attribute(keyword(":page/title"))
                        .value(string_value("Foo"))
                })
        })
        .add_clause(|c| {
            c.entity(var_entity("?page"))
                .attribute(keyword(":page/url"))
                .value(QueryValueType::variable(variable("?url")))
        })
        .add_clause(|c| {
            c.entity(var_entity("?page"))
                .attribute(keyword(":page/description"))
                .value(QueryValueType::variable(variable("?description")))
        })
    });
    assert_eq!(
        built.find_builder.as_ref().unwrap().vars,
        vec![variable("?url"), variable("?description")]
    );
    let clauses = &built.where_builder.as_ref().unwrap().clauses;
    assert_eq!(clauses.len(), 3);
    match &clauses[0] {
        Clause::Or(or) => {
            assert_eq!(or.join, Some(variable("?page")));
            assert_eq!(
                or.clauses,
                vec![
                    where_clause(
                        Some(var_entity("?page")),
                        Some(keyword(":page/url")),
                        Some(string_value("http://foo.com/"))
                    ),
                    where_clause(
                        Some(var_entity("?page")),
                        Some(keyword(":page/title")),
                        Some(string_value("Foo"))
                    ),
                ]
            );
        }
        other => panic!("expected an or clause, got {:?}", other),
    }
    assert_eq!(
        clauses[2],
        where_clause(
            Some(var_entity("?page")),
            Some(keyword(":page/description")),
            Some(QueryValueType::Var(variable("?description")))
        )
    );
    assert!(built.execute().is_ok());
}

// [:find ?x :where [?x :foo/baz ?y] :limit 1000]
#[test]
fn test_find_with_limit() {
    let built = query()
        .add_find(|find| find.add("?x"))
        .add_where(|w| {
            w.add_clause(|c| {
                c.entity(var_entity("?x"))
                    .attribute(keyword(":foo/baz"))
                    .value(QueryValueType::variable(variable("?y")))
            })
        })
        .add_limit(1000);
    assert_eq!(built.limit, Some(1000));
    assert_eq!(built.where_builder.as_ref().unwrap().clauses.len(), 1);
    assert!(built.execute().is_ok());
}

// [:find ?x :where [?x :foo/baz ?y] :order ?y]
#[test]
fn test_find_with_default_order() {
    let built = query()
        .add_find(|find| find.add("?x"))
        .add_where(|w| {
            w.add_clause(|c| {
                c.entity(var_entity("?x"))
                    .attribute(keyword(":foo/baz"))
                    .value(QueryValueType::variable(variable("?y")))
            })
        })
        .add_order(|order| order.add("?y"));
    assert_eq!(
        built.order_builder.as_ref().unwrap().orders,
        vec![(variable("?y"), QueryOrder::Ascending)]
    );
    assert!(built.execute().is_ok());
}

// [:find ?x :where [?x :foo/bar ?y] :order (desc ?y)]
#[test]
fn test_find_with_desc_order() {
    let built = query()
        .add_find(|find| find.add("?x"))
        .add_where(|w| {
            w.add_clause(|c| {
                c.entity(var_entity("?x"))
                    .attribute(keyword(":foo/bar"))
                    .value(QueryValueType::variable(variable("?y")))
            })
        })
        .add_order(|order| order.add_descending("?y"));
    assert_eq!(
        built.order_builder.as_ref().unwrap().orders,
        vec![(variable("?y"), QueryOrder::Descending)]
    );
    assert!(built.execute().is_ok());
}

// [:find ?x :where [?x :foo/baz ?y] :order (desc ?y) (asc ?x)]
#[test]
fn test_find_with_multiple_orders() {
    let built = query()
        .add_find(|find| find.add("?x"))
        .add_where(|w| {
            w.add_clause(|c| {
                c.entity(var_entity("?x"))
                    .attribute(keyword(":foo/baz"))
                    .value(QueryValueType::variable(variable("?y")))
            })
        })
        .add_order(|order| order.add_descending("?y").add_ascending("?x"));
    assert_eq!(
        built.order_builder.as_ref().unwrap().orders,
        vec![(variable("?y"), QueryOrder::Descending), (variable("?x"), QueryOrder::Ascending)]
    );
    assert!(built.execute().is_ok());
}

// [:find ?x . :where [?x :foo/bar ?y] [(!= ?y 12)]]
#[test]
fn test_find_with_predicate() {
    let built = query().add_find(|find| find.set_type(FindType::Scalar).add("?x")).add_where(|w| {
        w.add_clause(|c| {
            c.entity(var_entity("?x"))
                .attribute(keyword(":foo/bar"))
                .value(QueryValueType::variable(variable("?y")))
        })
        .add_clause(|c| {
            c.entity(EntityType::from("!=".to_string()))
                .attribute(AttributeType::from(variable("?y")))
                .value(QueryValueType::value(TypedValue::Long(12)))
        })
    });
    assert_eq!(built.find_builder.as_ref().unwrap().find_type, FindType::Scalar);
    let clauses = &built.where_builder.as_ref().unwrap().clauses;
    assert_eq!(clauses.len(), 2);
    assert_eq!(
        clauses[1],
        where_clause(
            Some(EntityType::Predicate("!=".to_string())),
            Some(AttributeType::Var(variable("?y"))),
            Some(QueryValueType::Value(TypedValue::Long(12)))
        )
    );
    assert!(built.execute().is_ok());
}
