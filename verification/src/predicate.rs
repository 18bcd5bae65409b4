//! Predicates `[(op left right)]` and the function `ground`.

use vstd::prelude::*;
use crate::bindings::{lemma_put, lookup, put};
use crate::clauses::{lemma_narrow_bound_keeps, lemma_narrow_keeps, CcModel, ConjoiningClauses};
use crate::query::{FnArg, Predicate, Variable, WhereFn};
use crate::types::{
    AlgebrizerError, ColumnConstraint, EmptyBecause, Inequality, QualifiedAlias, QueryValue,
};
use crate::value_types::{TypedValue, ValueTypeSet};

verus! {

/// The comparison that an operator's name stands for.
pub open spec fn inequality_of(name: Seq<char>) -> Option<Inequality> {
    if name == "<"@ {
        Some(Inequality::LessThan)
    } else if name == "<="@ {
        Some(Inequality::LessThanOrEquals)
    } else if name == ">"@ {
        Some(Inequality::GreaterThan)
    } else if name == ">="@ {
        Some(Inequality::GreaterThanOrEquals)
    } else if name == "!="@ {
        Some(Inequality::NotEquals)
    } else {
        None
    }
}

/// The name is that of a comparison: an inequality or `=`.
pub open spec fn known_operator(name: Seq<char>) -> bool {
    inequality_of(name).is_some() || name == "="@
}

/// The types that the operands of a comparison may have: any type for `=`
/// and `!=`, the comparable ones for the others.
pub open spec fn allowed_types(name: Seq<char>) -> ValueTypeSet {
    if name == "="@ || name == "!="@ {
        ValueTypeSet { bits: 255 }
    } else {
        ValueTypeSet { bits: 28 }
    }
}

/// A set that holds a numeric type, widened to both: a long compares with a double.
pub open spec fn widen_numeric(s: ValueTypeSet) -> ValueTypeSet {
    if s.bits & 24 != 0 {
        ValueTypeSet { bits: s.bits | 24 }
    } else {
        s
    }
}

/// The constraint that a comparison of `left` and `right` adds, where it can
/// be written: `=` needs a column on its left.
pub open spec fn comparison(name: Seq<char>, left: QueryValue, right: QueryValue) -> Option<
    ColumnConstraint,
> {
    match inequality_of(name) {
        Some(operator) => Some(ColumnConstraint::Inequality { operator, left, right }),
        None => match left {
            QueryValue::Column(c) => Some(ColumnConstraint::Equals(c, right)),
            _ => None,
        },
    }
}

/// The two values are the same value of the same type.
pub open spec fn same_value(a: TypedValue, b: TypedValue) -> bool {
    match (a, b) {
        (TypedValue::Ref(x), TypedValue::Ref(y)) => x == y,
        (TypedValue::Boolean(x), TypedValue::Boolean(y)) => x == y,
        (TypedValue::Long(x), TypedValue::Long(y)) => x == y,
        (TypedValue::Double(x), TypedValue::Double(y)) => x == y,
        (TypedValue::Instant(x), TypedValue::Instant(y)) => x == y,
        (TypedValue::String(x), TypedValue::String(y)) => x@ == y@,
        (TypedValue::Keyword(x), TypedValue::Keyword(y)) => x@ == y@,
        (TypedValue::Uuid(x), TypedValue::Uuid(y)) => x == y,
        _ => false,
    }
}

impl CcModel {
    /// The types that an argument can have.
    pub open spec fn argument_types(self, arg: FnArg) -> ValueTypeSet {
        match arg {
            FnArg::Variable(v) => self.known_set(v.name@),
            FnArg::Constant(c) => ValueTypeSet::unit_of(c.type_of()),
        }
    }

    /// What an argument stands for in a constraint: its constant, the value
    /// of its variable, or the first column of its variable.
    pub open spec fn argument_value(self, arg: FnArg) -> Option<QueryValue> {
        match arg {
            FnArg::Constant(c) => Some(QueryValue::TypedValue(c)),
            FnArg::Variable(v) => match lookup(self.values, v.name@) {
                Some(x) => Some(QueryValue::TypedValue(x)),
                None => match lookup(self.cols, v.name@) {
                    Some(column) => Some(QueryValue::Column(column)),
                    None => None,
                },
            },
        }
    }

    pub open spec fn narrow_argument(self, arg: FnArg, set: ValueTypeSet) -> CcModel {
        match arg {
            FnArg::Variable(v) => self.narrow(v, set),
            _ => self,
        }
    }

    /// Why a comparison of operands with the types `left` and `right` has no results.
    pub open spec fn mismatch(a: FnArg, b: FnArg, left: ValueTypeSet, right: ValueTypeSet) -> EmptyBecause {
        match a {
            FnArg::Variable(var) => EmptyBecause::TypeMismatch { var, existing: left, desired: right },
            _ => match b {
                FnArg::Variable(var) => EmptyBecause::TypeMismatch {
                    var,
                    existing: right,
                    desired: left,
                },
                _ => EmptyBecause::NonNumericArgument,
            },
        }
    }

    /// The clauses after a comparison of two operands, or the error.
    pub open spec fn compare(self, operator: String, a: FnArg, b: FnArg) -> Result<
        CcModel,
        AlgebrizerError,
    > {
        let allowed = allowed_types(operator@);
        let left = self.argument_types(a).meet(allowed);
        let right = self.argument_types(b).meet(allowed);
        match (self.argument_value(a), self.argument_value(b)) {
            (None, _) => Err(
                AlgebrizerError::UnboundVariable(
                    match a {
                        FnArg::Variable(v) => v.name,
                        _ => operator,
                    },
                ),
            ),
            (Some(x), None) => if left.bits == 0 {
                Err(AlgebrizerError::InvalidArgument(operator, 0))
            } else {
                Err(
                    AlgebrizerError::UnboundVariable(
                        match b {
                            FnArg::Variable(v) => v.name,
                            _ => operator,
                        },
                    ),
                )
            },
            (Some(x), Some(y)) => if left.bits == 0 {
                Err(AlgebrizerError::InvalidArgument(operator, 0))
            } else if right.bits == 0 {
                Err(AlgebrizerError::InvalidArgument(operator, 1))
            } else {
                match comparison(operator@, x, y) {
                    None => Err(AlgebrizerError::InvalidArgument(operator, 0)),
                    Some(constraint) => if widen_numeric(left).meet(widen_numeric(right)).bits
                        == 0 {
                        Ok(self.mark_empty(Self::mismatch(a, b, left, right)))
                    } else {
                        Ok(
                            self.narrow_argument(a, allowed).narrow_argument(b, allowed).constrain(
                                constraint,
                            ),
                        )
                    },
                }
            },
        }
    }

    /// The clauses after the predicate `p`, or the error. Clauses that are
    /// known empty stay as they are.
    pub open spec fn apply_predicate(self, p: Predicate) -> Result<CcModel, AlgebrizerError> {
        if self.is_empty() {
            Ok(self)
        } else if !known_operator(p.operator@) {
            Err(AlgebrizerError::UnknownFunction(p.operator))
        } else if p.args@.len() != 2 {
            Err(AlgebrizerError::InvalidNumberOfArguments(p.operator, p.args@.len() as usize, 2))
        } else {
            self.compare(p.operator, p.args@[0], p.args@[1])
        }
    }

    /// The clauses after `var` has been given the value `value`.
    pub open spec fn bind_value(self, var: Variable, value: TypedValue) -> CcModel {
        let known = self.known_set(var.name@);
        let unit = ValueTypeSet::unit_of(value.type_of());
        if self.is_empty() {
            self
        } else {
            match lookup(self.values, var.name@) {
                Some(existing) => if same_value(existing, value) {
                    self
                } else {
                    self.mark_empty(
                        EmptyBecause::ConflictingBindings { var, existing, desired: value },
                    )
                },
                None => if known.meet(unit).bits == 0 {
                    self.mark_empty(EmptyBecause::TypeMismatch { var, existing: known, desired: unit })
                } else {
                    CcModel {
                        values: self.values.push((var, value)),
                        known: put(self.known, var, unit),
                        ..self
                    }
                },
            }
        }
    }

    /// The clauses after the function `f`, or the error: `ground` gives its
    /// variable the value of its one constant argument and pins the
    /// variable's first column to it.
    pub open spec fn apply_where_fn(self, f: WhereFn) -> Result<CcModel, AlgebrizerError> {
        if self.is_empty() {
            Ok(self)
        } else if f.operator@ != "ground"@ {
            Err(AlgebrizerError::UnknownFunction(f.operator))
        } else if f.args@.len() != 1 {
            Err(AlgebrizerError::InvalidNumberOfArguments(f.operator, f.args@.len() as usize, 1))
        } else {
            match f.args@[0] {
                FnArg::Variable(_) => Err(AlgebrizerError::InvalidGroundFnArg),
                FnArg::Constant(value) => match lookup(self.cols, f.binding.name@) {
                    Some(column) => Ok(
                        self.bind_value(f.binding, value).constrain_to_constant(column, value),
                    ),
                    None => Ok(self.bind_value(f.binding, value)),
                },
            }
        }
    }
}

/// Giving a variable a value keeps the clauses well formed.
pub proof fn lemma_bind_value_wf(m: CcModel, var: Variable, value: TypedValue)
    requires
        m.wf(),
    ensures
        m.bind_value(var, value).wf(),
        m.bind_value(var, value).from == m.from,
        m.bind_value(var, value).counter == m.counter,
        m.bind_value(var, value).computed == m.computed,
{
    let r = m.bind_value(var, value);
    let unit = ValueTypeSet::unit_of(value.type_of());
    if !m.is_empty() && lookup(m.values, var.name@).is_none() && !r.is_empty() {
        lemma_put(m.known, var, unit);
        assert forall|i: int, j: int| 0 <= i < j < r.values.len() implies (
        #[trigger] r.values[i]).0.name@ != (#[trigger] r.values[j]).0.name@ by {
            if j == m.values.len() {
                assert(m.values[i].0.name@ != var.name@);
            }
        }
        assert forall|i: int| 0 <= i < r.values.len() implies lookup(
            r.known,
            (#[trigger] r.values[i]).0.name@,
        ) == Some(ValueTypeSet::unit_of(r.values[i].1.type_of())) by {
            if i < m.values.len() {
                assert(m.values[i].0.name@ != var.name@);
                assert(lookup(m.known, m.values[i].0.name@) == Some(
                    ValueTypeSet::unit_of(m.values[i].1.type_of()),
                ));
            }
        }
    }
}

/// Whether two values are the same value of the same type.
pub fn values_equal(a: &TypedValue, b: &TypedValue) -> (r: bool)
    ensures
        r == same_value(*a, *b),
{
    match (a, b) {
        (TypedValue::Ref(x), TypedValue::Ref(y)) => *x == *y,
        (TypedValue::Boolean(x), TypedValue::Boolean(y)) => *x == *y,
        (TypedValue::Long(x), TypedValue::Long(y)) => *x == *y,
        (TypedValue::Double(x), TypedValue::Double(y)) => *x == *y,
        (TypedValue::Instant(x), TypedValue::Instant(y)) => *x == *y,
        (TypedValue::String(x), TypedValue::String(y)) => *x == *y,
        (TypedValue::Keyword(x), TypedValue::Keyword(y)) => *x == *y,
        (TypedValue::Uuid(x), TypedValue::Uuid(y)) => *x == *y,
        _ => false,
    }
}

/// Whether `text` is the word `word`.
fn is_word(text: &String, word: &str) -> (r: bool)
    ensures
        r == (text@ == word@),
{
    let w: String = word.to_owned();
    *text == w
}

impl ConjoiningClauses {
    /// The types that an argument can have.
    pub fn potential_types(&self, arg: &FnArg) -> (r: ValueTypeSet)
        ensures
            r == self@.argument_types(*arg),
    {
        match arg {
            FnArg::Variable(v) => self.known_type_set(v),
            FnArg::Constant(c) => ValueTypeSet::of_one(c.value_type()),
        }
    }

    /// What an argument stands for in a constraint.
    pub fn resolve_argument(&self, arg: &FnArg) -> (r: Option<QueryValue>)
        ensures
            r == self@.argument_value(*arg),
    {
        match arg {
            FnArg::Constant(c) => Some(QueryValue::TypedValue(c.duplicate())),
            FnArg::Variable(v) => match self.value_bindings.get(v) {
                Some(x) => Some(QueryValue::TypedValue(x.duplicate())),
                None => match self.column_bindings.get(v) {
                    Some(column) => Some(QueryValue::Column(*column)),
                    None => None,
                },
            },
        }
    }

    fn narrow_argument(&mut self, arg: &FnArg, set: ValueTypeSet)
        ensures
            final(self)@ == old(self)@.narrow_argument(*arg, set),
            old(self)@.wf() ==> final(self)@.wf(),
            final(self)@.from == old(self)@.from,
            final(self)@.counter == old(self)@.counter,
            final(self)@.computed == old(self)@.computed,
    {
        match arg {
            FnArg::Variable(v) => {
                proof {
                    lemma_narrow_keeps(self@, *v, set);
                }
                self.narrow_types_for_var(v, set);
            },
            _ => {},
        }
    }

    /// Applies `[(op left right)]`: both operands must stand for something
    /// and have a type that the operator takes; operands whose types cannot
    /// meet mark the clauses empty; otherwise the variables are narrowed to
    /// the types the operator takes and the comparison joins the conjunction.
    pub fn apply_predicate(&mut self, p: &Predicate) -> (r: Result<(), AlgebrizerError>)
        requires
            old(self)@.wf(),
        ensures
            match r {
                Ok(()) => old(self)@.apply_predicate(*p) == Ok::<CcModel, AlgebrizerError>(
                    final(self)@,
                ),
                Err(e) => old(self)@.apply_predicate(*p) == Err::<CcModel, AlgebrizerError>(e)
                    && final(self)@ == old(self)@,
            },
            final(self)@.wf(),
            final(self)@.from == old(self)@.from,
            final(self)@.counter == old(self)@.counter,
            final(self)@.computed == old(self)@.computed,
    {
        if self.is_known_empty() {
            return Ok(());
        }
        let less: bool = is_word(&p.operator, "<");
        let less_eq: bool = is_word(&p.operator, "<=");
        let greater: bool = is_word(&p.operator, ">");
        let greater_eq: bool = is_word(&p.operator, ">=");
        let differs: bool = is_word(&p.operator, "!=");
        let equals: bool = is_word(&p.operator, "=");
        if !(less || less_eq || greater || greater_eq || differs || equals) {
            return Err(AlgebrizerError::UnknownFunction(p.operator.clone()));
        }
        if p.args.len() != 2 {
            return Err(
                AlgebrizerError::InvalidNumberOfArguments(p.operator.clone(), p.args.len(), 2),
            );
        }
        let a = &p.args[0];
        let b = &p.args[1];
        let allowed = if equals || differs {
            ValueTypeSet::any()
        } else {
            ValueTypeSet::of_comparable_types()
        };
        let left = self.potential_types(a).intersection(&allowed);
        let right = self.potential_types(b).intersection(&allowed);
        let x = match self.resolve_argument(a) {
            Some(x) => x,
            None => {
                return Err(
                    AlgebrizerError::UnboundVariable(
                        match a {
                            FnArg::Variable(v) => v.name(),
                            _ => p.operator.clone(),
                        },
                    ),
                );
            },
        };
        if left.is_empty() {
            return Err(AlgebrizerError::InvalidArgument(p.operator.clone(), 0));
        }
        let y = match self.resolve_argument(b) {
            Some(y) => y,
            None => {
                return Err(
                    AlgebrizerError::UnboundVariable(
                        match b {
                            FnArg::Variable(v) => v.name(),
                            _ => p.operator.clone(),
                        },
                    ),
                );
            },
        };
        if right.is_empty() {
            return Err(AlgebrizerError::InvalidArgument(p.operator.clone(), 1));
        }
        let constraint = if less {
            ColumnConstraint::Inequality { operator: Inequality::LessThan, left: x, right: y }
        } else if less_eq {
            ColumnConstraint::Inequality {
                operator: Inequality::LessThanOrEquals,
                left: x,
                right: y,
            }
        } else if greater {
            ColumnConstraint::Inequality { operator: Inequality::GreaterThan, left: x, right: y }
        } else if greater_eq {
            ColumnConstraint::Inequality {
                operator: Inequality::GreaterThanOrEquals,
                left: x,
                right: y,
            }
        } else if differs {
            ColumnConstraint::Inequality { operator: Inequality::NotEquals, left: x, right: y }
        } else {
            match x {
                QueryValue::Column(c) => ColumnConstraint::Equals(c, y),
                _ => {
                    return Err(AlgebrizerError::InvalidArgument(p.operator.clone(), 0));
                },
            }
        };
        let wide_left = Self::widen(left);
        let wide_right = Self::widen(right);
        if wide_left.intersection(&wide_right).is_empty() {
            let why = match a {
                FnArg::Variable(var) => EmptyBecause::TypeMismatch {
                    var: var.duplicate(),
                    existing: left,
                    desired: right,
                },
                _ => match b {
                    FnArg::Variable(var) => EmptyBecause::TypeMismatch {
                        var: var.duplicate(),
                        existing: right,
                        desired: left,
                    },
                    _ => EmptyBecause::NonNumericArgument,
                },
            };
            self.mark_known_empty(why);
            return Ok(());
        }
        self.narrow_argument(a, allowed);
        self.narrow_argument(b, allowed);
        self.constrain(constraint);
        Ok(())
    }

    fn widen(s: ValueTypeSet) -> (r: ValueTypeSet)
        ensures
            r == widen_numeric(s),
    {
        if s.bits & 24u8 != 0 {
            ValueTypeSet { bits: s.bits | 24u8 }
        } else {
            s
        }
    }

    /// Gives `var` the value `value`: a different value already there, or a
    /// known type that the value does not have, marks the clauses empty.
    pub fn bind_value(&mut self, var: &Variable, value: &TypedValue)
        requires
            old(self)@.wf(),
        ensures
            final(self)@ == old(self)@.bind_value(*var, *value),
            final(self)@.wf(),
            final(self)@.from == old(self)@.from,
            final(self)@.counter == old(self)@.counter,
            final(self)@.computed == old(self)@.computed,
    {
        proof {
            lemma_bind_value_wf(self@, *var, *value);
        }
        if self.is_known_empty() {
            return ;
        }
        let existing: Option<TypedValue> = match self.value_bindings.get(var) {
            Some(x) => Some(x.duplicate()),
            None => None,
        };
        match existing {
            Some(x) => {
                if !values_equal(&x, value) {
                    self.mark_known_empty(
                        EmptyBecause::ConflictingBindings {
                            var: var.duplicate(),
                            existing: x,
                            desired: value.duplicate(),
                        },
                    );
                }
            },
            None => {
                let known = self.known_type_set(var);
                let unit = ValueTypeSet::of_one(value.value_type());
                if known.intersection(&unit).is_empty() {
                    self.mark_known_empty(
                        EmptyBecause::TypeMismatch {
                            var: var.duplicate(),
                            existing: known,
                            desired: unit,
                        },
                    );
                } else {
                    self.value_bindings.append(var, value.duplicate());
                    self.known_types.insert(var, unit);
                }
            },
        }
    }

    /// Applies `[(ground constant) ?var]`: the variable gets the value, and
    /// its first column, where it has one, is pinned to it. Any other
    /// function is unknown.
    pub fn apply_where_fn(&mut self, f: &WhereFn) -> (r: Result<(), AlgebrizerError>)
        requires
            old(self)@.wf(),
        ensures
            match r {
                Ok(()) => old(self)@.apply_where_fn(*f) == Ok::<CcModel, AlgebrizerError>(
                    final(self)@,
                ),
                Err(e) => old(self)@.apply_where_fn(*f) == Err::<CcModel, AlgebrizerError>(e)
                    && final(self)@ == old(self)@,
            },
            final(self)@.wf(),
            final(self)@.from == old(self)@.from,
            final(self)@.counter == old(self)@.counter,
            final(self)@.computed == old(self)@.computed,
    {
        if self.is_known_empty() {
            return Ok(());
        }
        if !is_word(&f.operator, "ground") {
            return Err(AlgebrizerError::UnknownFunction(f.operator.clone()));
        }
        if f.args.len() != 1 {
            return Err(
                AlgebrizerError::InvalidNumberOfArguments(f.operator.clone(), f.args.len(), 1),
            );
        }
        match &f.args[0] {
            FnArg::Variable(_) => Err(AlgebrizerError::InvalidGroundFnArg),
            FnArg::Constant(value) => {
                let bound: Option<QualifiedAlias> = match self.column_bindings.get(&f.binding) {
                    Some(column) => Some(*column),
                    None => None,
                };
                self.bind_value(&f.binding, value);
                match bound {
                    Some(column) => {
                        proof {
                            let c = self@.constrain(
                                ColumnConstraint::Equals(column, QueryValue::TypedValue(*value)),
                            );
                            lemma_narrow_bound_keeps(
                                c,
                                column,
                                ValueTypeSet::unit_of(value.type_of()),
                                c.cols.len(),
                            );
                        }
                        self.constrain_column_to_constant(column, value);
                    },
                    None => {},
                }
                Ok(())
            },
        }
    }
}

} // verus!
