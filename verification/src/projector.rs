//! A projector that answers with fixed results, for queries that are known
//! to have none of their own.

use std::rc::Rc;
use vstd::prelude::*;
use crate::algebrize::{Element, FindSpec};
use crate::value_types::TypedValue;

verus! {

/// The results of a query, in the shape that its find specification asks for.
#[derive(Debug, PartialEq, Eq)]
pub enum QueryResults {
    Scalar(Option<TypedValue>),
    Tuple(Option<Vec<TypedValue>>),
    Coll(Vec<TypedValue>),
    Rel(Vec<Vec<TypedValue>>),
}

impl QueryResults {
    /// No results, in the shape that `spec` asks for.
    pub fn empty(spec: &FindSpec) -> (r: QueryResults)
        ensures
            match *spec {
                FindSpec::FindScalar(_) => r == QueryResults::Scalar(None),
                FindSpec::FindTuple(_) => r == QueryResults::Tuple(None),
                FindSpec::FindColl(_) => r matches QueryResults::Coll(v) && v@.len() == 0,
                FindSpec::FindRel(_) => r matches QueryResults::Rel(v) && v@.len() == 0,
            },
    {
        match spec {
            FindSpec::FindScalar(_) => QueryResults::Scalar(None),
            FindSpec::FindTuple(_) => QueryResults::Tuple(None),
            FindSpec::FindColl(_) => QueryResults::Coll(Vec::new()),
            FindSpec::FindRel(_) => QueryResults::Rel(Vec::new()),
        }
    }
}

/// What a projector hands out: the find specification and the results.
#[derive(Debug, PartialEq, Eq)]
pub struct QueryOutput {
    pub spec: Rc<FindSpec>,
    pub results: QueryResults,
}

/// std's `Rc::clone`: another pointer to the same find specification. The
/// contract says that it holds the same value.
#[verifier::external_body]
fn share(spec: &Rc<FindSpec>) -> (r: Rc<FindSpec>)
    ensures
        r == *spec,
{
    Rc::clone(spec)
}

/// A projector that produces fixed results: its factory makes them anew for
/// each projection.
pub struct ConstantProjector<F> {
    pub spec: Rc<FindSpec>,
    pub results_factory: F,
}

impl<F: Fn() -> QueryResults> ConstantProjector<F> {
    pub fn new(spec: Rc<FindSpec>, results_factory: F) -> (r: ConstantProjector<F>)
        ensures
            r.spec == spec,
            r.results_factory == results_factory,
    {
        ConstantProjector { spec, results_factory }
    }

    /// The find specification with what the factory makes.
    pub fn project_without_rows(&self) -> (r: QueryOutput)
        requires
            call_requires(self.results_factory, ()),
        ensures
            r.spec == self.spec,
            call_ensures(self.results_factory, (), r.results),
    {
        let results = (self.results_factory)();
        let spec = share(&self.spec);
        QueryOutput { spec, results }
    }

    /// The elements that the projection has a column for.
    pub fn columns(&self) -> (r: Vec<Element>)
        ensures
            r@ == self.spec.elements(),
    {
        let n: usize = self.spec.len();
        let mut out: Vec<Element> = Vec::new();
        let mut i: usize = 0;
        while i < n
            invariant
                i <= n,
                n == self.spec.elements().len(),
                out@ == self.spec.elements().take(i as int),
            decreases n - i,
        {
            let e = match self.spec.element(i) {
                Element::Variable(v) => Element::Variable(v.duplicate()),
                Element::Aggregate(f, v) => Element::Aggregate(*f, v.duplicate()),
            };
            out.push(e);
            proof {
                assert(out@ =~= self.spec.elements().take(i + 1));
            }
            i = i + 1;
        }
        proof {
            assert(self.spec.elements().take(n as int) =~= self.spec.elements());
        }
        out
    }
}

} // verus!
