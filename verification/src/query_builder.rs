//! A programmatic builder of queries: find, where, order and limit.

use vstd::prelude::*;
use crate::query::Variable;
use crate::value_types::TypedValue;

verus! {

/// What stands in the entity place of a clause under construction.
#[derive(Debug, PartialEq, Eq)]
pub enum EntityType {
    Predicate(String),
    Ref(i64),
    Var(Variable),
}

/// What stands in the attribute place of a clause under construction.
#[derive(Debug, PartialEq, Eq)]
pub enum AttributeType {
    Keyword(String),
    Ref(i64),
    Var(Variable),
}

/// What stands in the value place of a clause under construction.
#[derive(Debug, PartialEq, Eq)]
pub enum QueryValueType {
    Var(Variable),
    Value(TypedValue),
}

impl From<String> for EntityType {
    fn from(v: String) -> (r: EntityType) {
        EntityType::Predicate(v)
    }
}

impl vstd::std_specs::convert::FromSpecImpl<String> for EntityType {
    open spec fn obeys_from_spec() -> bool {
        true
    }

    open spec fn from_spec(v: String) -> EntityType {
        EntityType::Predicate(v)
    }
}

impl From<i64> for EntityType {
    fn from(v: i64) -> (r: EntityType) {
        EntityType::Ref(v)
    }
}

impl vstd::std_specs::convert::FromSpecImpl<i64> for EntityType {
    open spec fn obeys_from_spec() -> bool {
        true
    }

    open spec fn from_spec(v: i64) -> EntityType {
        EntityType::Ref(v)
    }
}

impl From<Variable> for EntityType {
    fn from(v: Variable) -> (r: EntityType) {
        EntityType::Var(v)
    }
}

impl vstd::std_specs::convert::FromSpecImpl<Variable> for EntityType {
    open spec fn obeys_from_spec() -> bool {
        true
    }

    open spec fn from_spec(v: Variable) -> EntityType {
        EntityType::Var(v)
    }
}

impl From<String> for AttributeType {
    fn from(v: String) -> (r: AttributeType) {
        AttributeType::Keyword(v)
    }
}

impl vstd::std_specs::convert::FromSpecImpl<String> for AttributeType {
    open spec fn obeys_from_spec() -> bool {
        true
    }

    open spec fn from_spec(v: String) -> AttributeType {
        AttributeType::Keyword(v)
    }
}

impl From<i64> for AttributeType {
    fn from(v: i64) -> (r: AttributeType) {
        AttributeType::Ref(v)
    }
}

impl vstd::std_specs::convert::FromSpecImpl<i64> for AttributeType {
    open spec fn obeys_from_spec() -> bool {
        true
    }

    open spec fn from_spec(v: i64) -> AttributeType {
        AttributeType::Ref(v)
    }
}

impl From<Variable> for AttributeType {
    fn from(v: Variable) -> (r: AttributeType) {
        AttributeType::Var(v)
    }
}

impl vstd::std_specs::convert::FromSpecImpl<Variable> for AttributeType {
    open spec fn obeys_from_spec() -> bool {
        true
    }

    open spec fn from_spec(v: Variable) -> AttributeType {
        AttributeType::Var(v)
    }
}

impl From<Variable> for QueryValueType {
    fn from(v: Variable) -> (r: QueryValueType) {
        QueryValueType::Var(v)
    }
}

impl vstd::std_specs::convert::FromSpecImpl<Variable> for QueryValueType {
    open spec fn obeys_from_spec() -> bool {
        true
    }

    open spec fn from_spec(v: Variable) -> QueryValueType {
        QueryValueType::Var(v)
    }
}

impl From<TypedValue> for QueryValueType {
    fn from(v: TypedValue) -> (r: QueryValueType) {
        QueryValueType::Value(v)
    }
}

impl vstd::std_specs::convert::FromSpecImpl<TypedValue> for QueryValueType {
    open spec fn obeys_from_spec() -> bool {
        true
    }

    open spec fn from_spec(v: TypedValue) -> QueryValueType {
        QueryValueType::Value(v)
    }
}

impl QueryValueType {
    pub fn value(value: TypedValue) -> (r: QueryValueType)
        ensures
            r == QueryValueType::Value(value),
    {
        QueryValueType::Value(value)
    }

    pub fn variable(value: Variable) -> (r: QueryValueType)
        ensures
            r == QueryValueType::Var(value),
    {
        QueryValueType::Var(value)
    }
}

#[derive(Clone, Copy, Debug, PartialEq, Eq, Structural)]
pub enum FindType {
    Coll,
    Rel,
    Scalar,
    Tuple,
}

#[derive(Clone, Copy, Debug, PartialEq, Eq, Structural)]
pub enum QueryOrder {
    Ascending,
    Descending,
}

/// A clause under construction, whatever its kind.
#[derive(Debug, PartialEq, Eq)]
pub enum Clause {
    Where(WhereClauseBuilder),
    Or(OrClauseBuilder),
    Not(NotClauseBuilder),
    And(AndClauseBuilder),
}

/// What can be added to a list of clauses.
pub trait ClauseBuilder: Sized {
    /// The clause that the builder stands for.
    spec fn as_clause(self) -> Clause;

    fn into_clause(self) -> (r: Clause)
        ensures
            r == self.as_clause(),
    ;
}

#[derive(Debug, PartialEq, Eq)]
pub struct FindBuilder {
    pub find_type: FindType,
    pub vars: Vec<Variable>,
}

#[derive(Debug, PartialEq, Eq)]
pub struct WhereBuilder {
    pub clauses: Vec<Clause>,
}

#[derive(Debug, PartialEq, Eq)]
pub struct WhereClauseBuilder {
    pub entity: Option<EntityType>,
    pub attribute: Option<AttributeType>,
    pub value: Option<QueryValueType>,
}

#[derive(Debug, PartialEq, Eq)]
pub struct OrClauseBuilder {
    pub clauses: Vec<Clause>,
    pub join: Option<Variable>,
}

#[derive(Debug, PartialEq, Eq)]
pub struct NotClauseBuilder {
    pub clauses: Vec<Clause>,
    pub join: Option<Variable>,
}

#[derive(Debug, PartialEq, Eq)]
pub struct AndClauseBuilder {
    pub clauses: Vec<Clause>,
}

#[derive(Debug, PartialEq, Eq)]
pub struct OrderBuilder {
    pub orders: Vec<(Variable, QueryOrder)>,
}

#[derive(Debug, PartialEq, Eq)]
pub struct QueryBuilder {
    pub find_builder: Option<FindBuilder>,
    pub where_builder: Option<WhereBuilder>,
    pub order_builder: Option<OrderBuilder>,
    pub limit: Option<i32>,
}

impl ClauseBuilder for WhereClauseBuilder {
    open spec fn as_clause(self) -> Clause {
        Clause::Where(self)
    }

    fn into_clause(self) -> (r: Clause) {
        Clause::Where(self)
    }
}

impl ClauseBuilder for OrClauseBuilder {
    open spec fn as_clause(self) -> Clause {
        Clause::Or(self)
    }

    fn into_clause(self) -> (r: Clause) {
        Clause::Or(self)
    }
}

impl ClauseBuilder for NotClauseBuilder {
    open spec fn as_clause(self) -> Clause {
        Clause::Not(self)
    }

    fn into_clause(self) -> (r: Clause) {
        Clause::Not(self)
    }
}

impl ClauseBuilder for AndClauseBuilder {
    open spec fn as_clause(self) -> Clause {
        Clause::And(self)
    }

    fn into_clause(self) -> (r: Clause) {
        Clause::And(self)
    }
}

impl Default for WhereBuilder {
    fn default() -> (r: WhereBuilder)
        ensures
            r.clauses@.len() == 0,
    {
        WhereBuilder { clauses: Vec::new() }
    }
}

impl Default for WhereClauseBuilder {
    fn default() -> (r: WhereClauseBuilder)
        ensures
            r == WhereClauseBuilder::blank(),
    {
        WhereClauseBuilder { entity: None, attribute: None, value: None }
    }
}

impl Default for OrClauseBuilder {
    fn default() -> (r: OrClauseBuilder)
        ensures
            r.clauses@.len() == 0,
            r.join.is_none(),
    {
        OrClauseBuilder { clauses: Vec::new(), join: None }
    }
}

impl Default for NotClauseBuilder {
    fn default() -> (r: NotClauseBuilder)
        ensures
            r.clauses@.len() == 0,
            r.join.is_none(),
    {
        NotClauseBuilder { clauses: Vec::new(), join: None }
    }
}

impl Default for AndClauseBuilder {
    fn default() -> (r: AndClauseBuilder)
        ensures
            r.clauses@.len() == 0,
    {
        AndClauseBuilder { clauses: Vec::new() }
    }
}

impl Default for OrderBuilder {
    fn default() -> (r: OrderBuilder)
        ensures
            r.orders@.len() == 0,
    {
        OrderBuilder { orders: Vec::new() }
    }
}

impl Default for QueryBuilder {
    fn default() -> (r: QueryBuilder)
        ensures
            r == QueryBuilder::blank(),
    {
        QueryBuilder { find_builder: None, where_builder: None, order_builder: None, limit: None }
    }
}

impl QueryBuilder {
    /// A builder in which nothing has been set.
    pub open spec fn blank() -> QueryBuilder {
        QueryBuilder { find_builder: None, where_builder: None, order_builder: None, limit: None }
    }

    /// Sets the find part to what `builder_fn` makes of a fresh find builder.
    pub fn add_find<F: FnOnce(FindBuilder) -> FindBuilder>(self, builder_fn: F) -> (r: QueryBuilder)
        requires
            forall|b: FindBuilder| b.is_fresh() ==> call_requires(builder_fn, (b,)),
        ensures
            r.where_builder == self.where_builder,
            r.order_builder == self.order_builder,
            r.limit == self.limit,
            r.find_builder.is_some(),
            exists|b: FindBuilder|
                (#[trigger] b.is_fresh()) && call_ensures(
                    builder_fn,
                    (b,),
                    r.find_builder.unwrap(),
                ),
    {
        let mut out = self;
        let fresh = FindBuilder::new();
        assert(fresh.is_fresh());
        out.find_builder = Some(builder_fn(fresh));
        out
    }

    /// Sets the where part to what `builder_fn` makes of an empty where builder.
    pub fn add_where<F: FnOnce(WhereBuilder) -> WhereBuilder>(self, builder_fn: F) -> (r:
        QueryBuilder)
        requires
            forall|b: WhereBuilder| b.is_fresh() ==> call_requires(builder_fn, (b,)),
        ensures
            r.find_builder == self.find_builder,
            r.order_builder == self.order_builder,
            r.limit == self.limit,
            r.where_builder.is_some(),
            exists|b: WhereBuilder|
                (#[trigger] b.is_fresh()) && call_ensures(
                    builder_fn,
                    (b,),
                    r.where_builder.unwrap(),
                ),
    {
        let mut out = self;
        let fresh = WhereBuilder::new();
        assert(fresh.is_fresh());
        let made = builder_fn(fresh);
        out.where_builder = Some(made);
        out
    }

    /// Sets the order part to what `builder_fn` makes of an empty order builder.
    pub fn add_order<F: FnOnce(OrderBuilder) -> OrderBuilder>(self, builder_fn: F) -> (r:
        QueryBuilder)
        requires
            forall|b: OrderBuilder| b.is_fresh() ==> call_requires(builder_fn, (b,)),
        ensures
            r.find_builder == self.find_builder,
            r.where_builder == self.where_builder,
            r.limit == self.limit,
            r.order_builder.is_some(),
            exists|b: OrderBuilder|
                (#[trigger] b.is_fresh()) && call_ensures(
                    builder_fn,
                    (b,),
                    r.order_builder.unwrap(),
                ),
    {
        let mut out = self;
        let fresh = OrderBuilder::new();
        assert(fresh.is_fresh());
        let made = builder_fn(fresh);
        out.order_builder = Some(made);
        out
    }

    pub fn add_limit(self, limit: i32) -> (r: QueryBuilder)
        ensures
            r == (QueryBuilder { limit: Some(limit), ..self }),
    {
        let mut out = self;
        out.limit = Some(limit);
        out
    }

    /// Consumes the builder. Nothing is run.
    pub fn execute(self) -> (r: Result<(), crate::types::AlgebrizerError>)
        ensures
            r.is_ok(),
    {
        Ok(())
    }
}

impl FindBuilder {
    /// Nothing has been added to the builder yet.
    pub open spec fn is_fresh(self) -> bool {
        self.find_type == FindType::Rel && self.vars@.len() == 0
    }

    pub fn with_type(find_type: FindType) -> (r: FindBuilder)
        ensures
            r.find_type == find_type,
            r.vars@.len() == 0,
    {
        FindBuilder { find_type, vars: Vec::new() }
    }

    pub fn new() -> (r: FindBuilder)
        ensures
            r.find_type == FindType::Rel,
            r.vars@.len() == 0,
    {
        FindBuilder { find_type: FindType::Rel, vars: Vec::new() }
    }

    pub fn set_type(self, find_type: FindType) -> (r: FindBuilder)
        ensures
            r.find_type == find_type,
            r.vars == self.vars,
    {
        let mut out = self;
        out.find_type = find_type;
        out
    }

    pub fn add(self, var: &str) -> (r: FindBuilder)
        ensures
            r.find_type == self.find_type,
            r.vars@.len() == self.vars@.len() + 1,
            r.vars@.drop_last() == self.vars@,
            r.vars@.last().name@ == var@,
    {
        let mut out = self;
        out.vars.push(Variable::from_valid_name(var));
        proof {
            assert(out.vars@.drop_last() =~= self.vars@);
        }
        out
    }
}

impl WhereBuilder {
    /// Nothing has been added to the builder yet.
    pub open spec fn is_fresh(self) -> bool {
        self.clauses@.len() == 0
    }

    pub fn new() -> (r: WhereBuilder)
        ensures
            r.clauses@.len() == 0,
    {
        WhereBuilder { clauses: Vec::new() }
    }

    pub fn add<T: ClauseBuilder>(self, clause: T) -> (r: WhereBuilder)
        ensures
            r.clauses@ == self.clauses@.push(clause.as_clause()),
    {
        let mut out = self;
        out.clauses.push(clause.into_clause());
        out
    }

    pub fn add_clause<F: FnOnce(WhereClauseBuilder) -> WhereClauseBuilder>(self, clause_fn: F) -> (r:
        WhereBuilder)
        requires
            call_requires(clause_fn, (WhereClauseBuilder::blank(),)),
        ensures
            exists|c: WhereClauseBuilder|
                (#[trigger] call_ensures(clause_fn, (WhereClauseBuilder::blank(),), c)) && r.clauses@
                    == self.clauses@.push(Clause::Where(c)),
    {
        let mut out = self;
        let c = clause_fn(WhereClauseBuilder::new());
        out.clauses.push(Clause::Where(c));
        out
    }

    pub fn add_or<F: FnOnce(OrClauseBuilder) -> OrClauseBuilder>(self, or_fn: F) -> (r: WhereBuilder)
        requires
            forall|b: OrClauseBuilder| b.is_fresh() ==> call_requires(or_fn, (b,)),
        ensures
            r.clauses@.len() == self.clauses@.len() + 1,
            r.clauses@.drop_last() == self.clauses@,
            exists|b: OrClauseBuilder|
                (#[trigger] b.is_fresh()) && (r.clauses@.last() matches Clause::Or(c) && call_ensures(
                    or_fn,
                    (b,),
                    c,
                )),
    {
        let mut out = self;
        let fresh = OrClauseBuilder::new();
        assert(fresh.is_fresh());
        let c = or_fn(fresh);
        out.clauses.push(Clause::Or(c));
        proof {
            assert(out.clauses@.drop_last() =~= self.clauses@);
        }
        out
    }

    pub fn add_not<F: FnOnce(NotClauseBuilder) -> NotClauseBuilder>(self, not_fn: F) -> (r:
        WhereBuilder)
        requires
            forall|b: NotClauseBuilder| b.is_fresh() ==> call_requires(not_fn, (b,)),
        ensures
            r.clauses@.len() == self.clauses@.len() + 1,
            r.clauses@.drop_last() == self.clauses@,
            exists|b: NotClauseBuilder|
                (#[trigger] b.is_fresh()) && (r.clauses@.last() matches Clause::Not(c) && call_ensures(
                    not_fn,
                    (b,),
                    c,
                )),
    {
        let mut out = self;
        let fresh = NotClauseBuilder::new();
        assert(fresh.is_fresh());
        let c = not_fn(fresh);
        out.clauses.push(Clause::Not(c));
        proof {
            assert(out.clauses@.drop_last() =~= self.clauses@);
        }
        out
    }
}

impl WhereClauseBuilder {
    pub fn new() -> (r: WhereClauseBuilder)
        ensures
            r == WhereClauseBuilder::blank(),
    {
        WhereClauseBuilder { entity: None, attribute: None, value: None }
    }

    /// A clause in which no place has been set.
    pub open spec fn blank() -> WhereClauseBuilder {
        WhereClauseBuilder { entity: None, attribute: None, value: None }
    }

    pub fn entity(self, entity: EntityType) -> (r: WhereClauseBuilder)
        ensures
            r == (WhereClauseBuilder { entity: Some(entity), ..self }),
    {
        let mut out = self;
        out.entity = Some(entity);
        out
    }

    pub fn attribute(self, attribute: AttributeType) -> (r: WhereClauseBuilder)
        ensures
            r == (WhereClauseBuilder { attribute: Some(attribute), ..self }),
    {
        let mut out = self;
        out.attribute = Some(attribute);
        out
    }

    pub fn value(self, value: QueryValueType) -> (r: WhereClauseBuilder)
        ensures
            r == (WhereClauseBuilder { value: Some(value), ..self }),
    {
        let mut out = self;
        out.value = Some(value);
        out
    }
}

impl NotClauseBuilder {
    /// Nothing has been added to the builder yet.
    pub open spec fn is_fresh(self) -> bool {
        self.clauses@.len() == 0 && self.join.is_none()
    }

    pub fn new() -> (r: NotClauseBuilder)
        ensures
            r.clauses@.len() == 0,
            r.join.is_none(),
    {
        NotClauseBuilder { clauses: Vec::new(), join: None }
    }

    pub fn add<T: ClauseBuilder>(self, clause: T) -> (r: NotClauseBuilder)
        ensures
            r.clauses@ == self.clauses@.push(clause.as_clause()),
            r.join == self.join,
    {
        let mut out = self;
        out.clauses.push(clause.into_clause());
        out
    }

    pub fn join(self, var: &str) -> (r: NotClauseBuilder)
        ensures
            r.clauses == self.clauses,
            r.join matches Some(v) && v.name@ == var@,
    {
        let mut out = self;
        out.join = Some(Variable::from_valid_name(var));
        out
    }

    pub fn add_clause<F: FnOnce(WhereClauseBuilder) -> WhereClauseBuilder>(self, clause_fn: F) -> (r:
        NotClauseBuilder)
        requires
            call_requires(clause_fn, (WhereClauseBuilder::blank(),)),
        ensures
            r.join == self.join,
            exists|c: WhereClauseBuilder|
                (#[trigger] call_ensures(clause_fn, (WhereClauseBuilder::blank(),), c)) && r.clauses@
                    == self.clauses@.push(Clause::Where(c)),
    {
        let mut out = self;
        let c = clause_fn(WhereClauseBuilder::new());
        out.clauses.push(Clause::Where(c));
        out
    }

    pub fn add_or<F: FnOnce(OrClauseBuilder) -> OrClauseBuilder>(self, or_fn: F) -> (r:
        NotClauseBuilder)
        requires
            forall|b: OrClauseBuilder| b.is_fresh() ==> call_requires(or_fn, (b,)),
        ensures
            r.join == self.join,
            r.clauses@.len() == self.clauses@.len() + 1,
            r.clauses@.drop_last() == self.clauses@,
            exists|b: OrClauseBuilder|
                (#[trigger] b.is_fresh()) && (r.clauses@.last() matches Clause::Or(c) && call_ensures(
                    or_fn,
                    (b,),
                    c,
                )),
    {
        let mut out = self;
        let fresh = OrClauseBuilder::new();
        assert(fresh.is_fresh());
        let c = or_fn(fresh);
        out.clauses.push(Clause::Or(c));
        proof {
            assert(out.clauses@.drop_last() =~= self.clauses@);
        }
        out
    }

    pub fn add_not<F: FnOnce(NotClauseBuilder) -> NotClauseBuilder>(self, not_fn: F) -> (r:
        NotClauseBuilder)
        requires
            forall|b: NotClauseBuilder| b.is_fresh() ==> call_requires(not_fn, (b,)),
        ensures
            r.join == self.join,
            r.clauses@.len() == self.clauses@.len() + 1,
            r.clauses@.drop_last() == self.clauses@,
            exists|b: NotClauseBuilder|
                (#[trigger] b.is_fresh()) && (r.clauses@.last() matches Clause::Not(c) && call_ensures(
                    not_fn,
                    (b,),
                    c,
                )),
    {
        let mut out = self;
        let fresh = NotClauseBuilder::new();
        assert(fresh.is_fresh());
        let c = not_fn(fresh);
        out.clauses.push(Clause::Not(c));
        proof {
            assert(out.clauses@.drop_last() =~= self.clauses@);
        }
        out
    }

    pub fn add_and<F: FnOnce(AndClauseBuilder) -> AndClauseBuilder>(self, and_fn: F) -> (r:
        NotClauseBuilder)
        requires
            forall|b: AndClauseBuilder| b.is_fresh() ==> call_requires(and_fn, (b,)),
        ensures
            r.join == self.join,
            r.clauses@.len() == self.clauses@.len() + 1,
            r.clauses@.drop_last() == self.clauses@,
            exists|b: AndClauseBuilder|
                (#[trigger] b.is_fresh()) && (r.clauses@.last() matches Clause::And(c) && call_ensures(
                    and_fn,
                    (b,),
                    c,
                )),
    {
        let mut out = self;
        let fresh = AndClauseBuilder::new();
        assert(fresh.is_fresh());
        let c = and_fn(fresh);
        out.clauses.push(Clause::And(c));
        proof {
            assert(out.clauses@.drop_last() =~= self.clauses@);
        }
        out
    }
}

impl OrClauseBuilder {
    /// Nothing has been added to the builder yet.
    pub open spec fn is_fresh(self) -> bool {
        self.clauses@.len() == 0 && self.join.is_none()
    }

    pub fn new() -> (r: OrClauseBuilder)
        ensures
            r.clauses@.len() == 0,
            r.join.is_none(),
    {
        OrClauseBuilder { clauses: Vec::new(), join: None }
    }

    pub fn add<T: ClauseBuilder>(self, clause: T) -> (r: OrClauseBuilder)
        ensures
            r.clauses@ == self.clauses@.push(clause.as_clause()),
            r.join == self.join,
    {
        let mut out = self;
        out.clauses.push(clause.into_clause());
        out
    }

    pub fn join(self, var: &str) -> (r: OrClauseBuilder)
        ensures
            r.clauses == self.clauses,
            r.join matches Some(v) && v.name@ == var@,
    {
        let mut out = self;
        out.join = Some(Variable::from_valid_name(var));
        out
    }

    pub fn add_clause<F: FnOnce(WhereClauseBuilder) -> WhereClauseBuilder>(self, clause_fn: F) -> (r:
        OrClauseBuilder)
        requires
            call_requires(clause_fn, (WhereClauseBuilder::blank(),)),
        ensures
            r.join == self.join,
            exists|c: WhereClauseBuilder|
                (#[trigger] call_ensures(clause_fn, (WhereClauseBuilder::blank(),), c)) && r.clauses@
                    == self.clauses@.push(Clause::Where(c)),
    {
        let mut out = self;
        let c = clause_fn(WhereClauseBuilder::new());
        out.clauses.push(Clause::Where(c));
        out
    }

    pub fn add_or<F: FnOnce(OrClauseBuilder) -> OrClauseBuilder>(self, or_fn: F) -> (r:
        OrClauseBuilder)
        requires
            forall|b: OrClauseBuilder| b.is_fresh() ==> call_requires(or_fn, (b,)),
        ensures
            r.join == self.join,
            r.clauses@.len() == self.clauses@.len() + 1,
            r.clauses@.drop_last() == self.clauses@,
            exists|b: OrClauseBuilder|
                (#[trigger] b.is_fresh()) && (r.clauses@.last() matches Clause::Or(c) && call_ensures(
                    or_fn,
                    (b,),
                    c,
                )),
    {
        let mut out = self;
        let fresh = OrClauseBuilder::new();
        assert(fresh.is_fresh());
        let c = or_fn(fresh);
        out.clauses.push(Clause::Or(c));
        proof {
            assert(out.clauses@.drop_last() =~= self.clauses@);
        }
        out
    }

    pub fn add_not<F: FnOnce(NotClauseBuilder) -> NotClauseBuilder>(self, not_fn: F) -> (r:
        OrClauseBuilder)
        requires
            forall|b: NotClauseBuilder| b.is_fresh() ==> call_requires(not_fn, (b,)),
        ensures
            r.join == self.join,
            r.clauses@.len() == self.clauses@.len() + 1,
            r.clauses@.drop_last() == self.clauses@,
            exists|b: NotClauseBuilder|
                (#[trigger] b.is_fresh()) && (r.clauses@.last() matches Clause::Not(c) && call_ensures(
                    not_fn,
                    (b,),
                    c,
                )),
    {
        let mut out = self;
        let fresh = NotClauseBuilder::new();
        assert(fresh.is_fresh());
        let c = not_fn(fresh);
        out.clauses.push(Clause::Not(c));
        proof {
            assert(out.clauses@.drop_last() =~= self.clauses@);
        }
        out
    }

    pub fn add_and<F: FnOnce(AndClauseBuilder) -> AndClauseBuilder>(self, and_fn: F) -> (r:
        OrClauseBuilder)
        requires
            forall|b: AndClauseBuilder| b.is_fresh() ==> call_requires(and_fn, (b,)),
        ensures
            r.join == self.join,
            r.clauses@.len() == self.clauses@.len() + 1,
            r.clauses@.drop_last() == self.clauses@,
            exists|b: AndClauseBuilder|
                (#[trigger] b.is_fresh()) && (r.clauses@.last() matches Clause::And(c) && call_ensures(
                    and_fn,
                    (b,),
                    c,
                )),
    {
        let mut out = self;
        let fresh = AndClauseBuilder::new();
        assert(fresh.is_fresh());
        let c = and_fn(fresh);
        out.clauses.push(Clause::And(c));
        proof {
            assert(out.clauses@.drop_last() =~= self.clauses@);
        }
        out
    }
}

impl AndClauseBuilder {
    /// Nothing has been added to the builder yet.
    pub open spec fn is_fresh(self) -> bool {
        self.clauses@.len() == 0
    }

    pub fn new() -> (r: AndClauseBuilder)
        ensures
            r.clauses@.len() == 0,
    {
        AndClauseBuilder { clauses: Vec::new() }
    }

    pub fn add<T: ClauseBuilder>(self, clause: T) -> (r: AndClauseBuilder)
        ensures
            r.clauses@ == self.clauses@.push(clause.as_clause()),
    {
        let mut out = self;
        out.clauses.push(clause.into_clause());
        out
    }

    pub fn add_clause<F: FnOnce(WhereClauseBuilder) -> WhereClauseBuilder>(self, clause_fn: F) -> (r:
        AndClauseBuilder)
        requires
            call_requires(clause_fn, (WhereClauseBuilder::blank(),)),
        ensures
            exists|c: WhereClauseBuilder|
                (#[trigger] call_ensures(clause_fn, (WhereClauseBuilder::blank(),), c)) && r.clauses@
                    == self.clauses@.push(Clause::Where(c)),
    {
        let mut out = self;
        let c = clause_fn(WhereClauseBuilder::new());
        out.clauses.push(Clause::Where(c));
        out
    }

    pub fn add_or<F: FnOnce(OrClauseBuilder) -> OrClauseBuilder>(self, or_fn: F) -> (r:
        AndClauseBuilder)
        requires
            forall|b: OrClauseBuilder| b.is_fresh() ==> call_requires(or_fn, (b,)),
        ensures
            r.clauses@.len() == self.clauses@.len() + 1,
            r.clauses@.drop_last() == self.clauses@,
            exists|b: OrClauseBuilder|
                (#[trigger] b.is_fresh()) && (r.clauses@.last() matches Clause::Or(c) && call_ensures(
                    or_fn,
                    (b,),
                    c,
                )),
    {
        let mut out = self;
        let fresh = OrClauseBuilder::new();
        assert(fresh.is_fresh());
        let c = or_fn(fresh);
        out.clauses.push(Clause::Or(c));
        proof {
            assert(out.clauses@.drop_last() =~= self.clauses@);
        }
        out
    }

    pub fn add_not<F: FnOnce(NotClauseBuilder) -> NotClauseBuilder>(self, not_fn: F) -> (r:
        AndClauseBuilder)
        requires
            forall|b: NotClauseBuilder| b.is_fresh() ==> call_requires(not_fn, (b,)),
        ensures
            r.clauses@.len() == self.clauses@.len() + 1,
            r.clauses@.drop_last() == self.clauses@,
            exists|b: NotClauseBuilder|
                (#[trigger] b.is_fresh()) && (r.clauses@.last() matches Clause::Not(c) && call_ensures(
                    not_fn,
                    (b,),
                    c,
                )),
    {
        let mut out = self;
        let fresh = NotClauseBuilder::new();
        assert(fresh.is_fresh());
        let c = not_fn(fresh);
        out.clauses.push(Clause::Not(c));
        proof {
            assert(out.clauses@.drop_last() =~= self.clauses@);
        }
        out
    }

    pub fn add_and<F: FnOnce(AndClauseBuilder) -> AndClauseBuilder>(self, and_fn: F) -> (r:
        AndClauseBuilder)
        requires
            forall|b: AndClauseBuilder| b.is_fresh() ==> call_requires(and_fn, (b,)),
        ensures
            r.clauses@.len() == self.clauses@.len() + 1,
            r.clauses@.drop_last() == self.clauses@,
            exists|b: AndClauseBuilder|
                (#[trigger] b.is_fresh()) && (r.clauses@.last() matches Clause::And(c) && call_ensures(
                    and_fn,
                    (b,),
                    c,
                )),
    {
        let mut out = self;
        let fresh = AndClauseBuilder::new();
        assert(fresh.is_fresh());
        let c = and_fn(fresh);
        out.clauses.push(Clause::And(c));
        proof {
            assert(out.clauses@.drop_last() =~= self.clauses@);
        }
        out
    }
}

impl OrderBuilder {
    /// Nothing has been added to the builder yet.
    pub open spec fn is_fresh(self) -> bool {
        self.orders@.len() == 0
    }

    pub fn new() -> (r: OrderBuilder)
        ensures
            r.orders@.len() == 0,
    {
        OrderBuilder { orders: Vec::new() }
    }

    /// Orders by `var`, ascending.
    pub fn add(self, var: &str) -> (r: OrderBuilder)
        ensures
            r.orders@.len() == self.orders@.len() + 1,
            r.orders@.drop_last() == self.orders@,
            r.orders@.last().0.name@ == var@,
            r.orders@.last().1 == QueryOrder::Ascending,
    {
        self.add_ascending(var)
    }

    pub fn add_ascending(self, var: &str) -> (r: OrderBuilder)
        ensures
            r.orders@.len() == self.orders@.len() + 1,
            r.orders@.drop_last() == self.orders@,
            r.orders@.last().0.name@ == var@,
            r.orders@.last().1 == QueryOrder::Ascending,
    {
        let mut out = self;
        out.orders.push((Variable::from_valid_name(var), QueryOrder::Ascending));
        proof {
            assert(out.orders@.drop_last() =~= self.orders@);
        }
        out
    }

    pub fn add_descending(self, var: &str) -> (r: OrderBuilder)
        ensures
            r.orders@.len() == self.orders@.len() + 1,
            r.orders@.drop_last() == self.orders@,
            r.orders@.last().0.name@ == var@,
            r.orders@.last().1 == QueryOrder::Descending,
    {
        let mut out = self;
        out.orders.push((Variable::from_valid_name(var), QueryOrder::Descending));
        proof {
            assert(out.orders@.drop_last() =~= self.orders@);
        }
        out
    }
}

/// A builder in which nothing has been set.
pub fn query() -> (r: QueryBuilder)
    ensures
        r == QueryBuilder::blank(),
{
    QueryBuilder { find_builder: None, where_builder: None, order_builder: None, limit: None }
}

} // verus!
