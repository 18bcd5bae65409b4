use std::rc::Rc;

use mentat::algebrize::{AggregateFn, Element, FindSpec};
use mentat::projector::{ConstantProjector, QueryOutput, QueryResults};
use mentat::query::Variable;
use mentat::value_types::TypedValue;

#[test]
fn test_constant_projector_hands_out_what_its_factory_makes() {
    let spec = Rc::new(FindSpec::FindColl(Element::Variable(Variable::from_valid_name("?x"))));
    let projector =
        ConstantProjector::new(spec.clone(), || QueryResults::Coll(vec![TypedValue::Long(7)]));
    let output: QueryOutput = projector.project_without_rows();
    assert_eq!(output.results, QueryResults::Coll(vec![TypedValue::Long(7)]));
    assert!(Rc::ptr_eq(&output.spec, &spec));
    let again = projector.project_without_rows();
    assert_eq!(again.results, QueryResults::Coll(vec![TypedValue::Long(7)]));
}

#[test]
fn test_constant_projector_columns_and_empty_results() {
    let elements = vec![
        Element::Variable(Variable::from_valid_name("?x")),
        Element::Aggregate(AggregateFn::Count, Variable::from_valid_name("?y")),
    ];
    let spec = Rc::new(FindSpec::FindRel(elements.clone()));
    let for_factory = spec.clone();
    let projector = ConstantProjector::new(spec, move || QueryResults::empty(&for_factory));
    assert_eq!(projector.columns(), elements);
    assert_eq!(projector.project_without_rows().results, QueryResults::Rel(vec![]));

    let x = Element::Variable(Variable::from_valid_name("?x"));
    assert_eq!(QueryResults::empty(&FindSpec::FindScalar(x.clone())), QueryResults::Scalar(None));
    assert_eq!(QueryResults::empty(&FindSpec::FindTuple(vec![x.clone()])), QueryResults::Tuple(None));
    assert_eq!(QueryResults::empty(&FindSpec::FindColl(x)), QueryResults::Coll(vec![]));
}
