use mentat::value_types::{TypedValue, ValueType, ValueTypeSet};

#[test]
fn test_of_one_holds_its_type() {
    let s = ValueTypeSet::of_one(ValueType::Long);
    assert!(s.contains_type(ValueType::Long));
    assert!(!s.contains_type(ValueType::Double));
    assert_eq!(s.unit(), Some(ValueType::Long));
    assert!(s.is_unit());
    assert!(!s.is_empty());
}

#[test]
fn test_named_sets() {
    let numeric = ValueTypeSet::of_numeric_types();
    assert_eq!(numeric, ValueTypeSet::of_many(&vec![ValueType::Long, ValueType::Double]));
    let comparable = ValueTypeSet::of_comparable_types();
    assert_eq!(comparable, numeric.union(&ValueTypeSet::of_one(ValueType::Instant)));
    assert_eq!(ValueTypeSet::of_ref(), ValueTypeSet::of_one(ValueType::Ref));
    let any = ValueTypeSet::any();
    for t in [
        ValueType::Ref,
        ValueType::Boolean,
        ValueType::Instant,
        ValueType::Long,
        ValueType::Double,
        ValueType::String,
        ValueType::Keyword,
        ValueType::Uuid,
    ] {
        assert!(any.contains_type(t));
        assert!(!ValueTypeSet::none().contains_type(t));
    }
    assert_eq!(any.unit(), None);
    assert!(!numeric.is_unit());
    assert!(ValueTypeSet::none().is_empty());
    assert_eq!(ValueTypeSet::none().unit(), None);
}

#[test]
fn test_intersection_narrows_and_union_widens() {
    let numeric = ValueTypeSet::of_numeric_types();
    let long = ValueTypeSet::of_one(ValueType::Long);
    let string = ValueTypeSet::of_one(ValueType::String);
    assert_eq!(numeric.intersection(&long), long);
    assert_eq!(numeric.intersection(&long).intersection(&long), long);
    assert!(numeric.intersection(&string).is_empty());
    assert_eq!(long.union(&string).bits, 8 | 32);
    assert_eq!(ValueTypeSet::of_many(&vec![]), ValueTypeSet::none());
}

#[test]
fn test_typed_values_know_their_type() {
    assert_eq!(TypedValue::Ref(1).value_type(), ValueType::Ref);
    assert_eq!(TypedValue::Boolean(true).value_type(), ValueType::Boolean);
    assert_eq!(TypedValue::Long(1).value_type(), ValueType::Long);
    assert_eq!(TypedValue::Double(1.5f64.to_bits()).value_type(), ValueType::Double);
    assert_eq!(TypedValue::Instant(1).value_type(), ValueType::Instant);
    assert_eq!(TypedValue::typed_string("a").value_type(), ValueType::String);
    assert_eq!(TypedValue::Keyword(":a/b".to_string()).value_type(), ValueType::Keyword);
    assert_eq!(TypedValue::Uuid(1).value_type(), ValueType::Uuid);
    let v = TypedValue::typed_string("Ámbar");
    assert_eq!(v.duplicate(), v);
}
