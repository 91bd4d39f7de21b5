//! The `or` combinator.

use vstd::prelude::*;
use crate::json_path::JSONPath;
use crate::json_value::Json;
use crate::predicate::Predicate;
use crate::predicate::PredicateImpl;
use crate::predicate::spec_eval_pred;
use crate::predicate::context::PredicateContext;
use crate::predicate::context::final_path_spec;
use crate::predicate::error::PredicateError;
use crate::predicate::error::SpecErr;
use crate::predicate::second_order::spec_eval_or;
use crate::predicate::second_order::eval_or;

verus! {

/// True at the first child that evaluates true; a failing child is
/// absorbed rather than propagated.  With no true child the result is
/// true exactly if no child failed, so an empty `or` is true.
#[derive(Debug, PartialEq, Eq)]
pub struct Or {
    /// This combinator's own path, composed onto the context root for
    /// all of its children.  Absent means the context is unchanged.
    pub path: Option<JSONPath>,
    /// The child predicates, evaluated in order.
    pub apply: Vec<Predicate>,
}

impl PredicateImpl for Or {
    open spec fn spec_eval(&self, data: Json, root: Option<Seq<Seq<char>>>) -> Result<
        bool,
        SpecErr,
    > {
        spec_eval_or(self.apply@, data, final_path_spec(root, self.path.deep_view()), true)
    }

    fn evaluate(&self, data: &Json, ctx: &PredicateContext) -> (r: Result<bool, PredicateError>) {
        let child = PredicateContext::with_location(ctx.final_path(&self.path));
        eval_or(&self.apply, data, &child)
    }
}

/// An `or` with no children is true, whatever the path, the document
/// and the context.
pub proof fn lemma_empty_or(path: Option<Seq<Seq<char>>>, data: Json, root: Option<Seq<Seq<char>>>)
    ensures
        spec_eval_or(Seq::empty(), data, final_path_spec(root, path), true) == Ok::<bool, SpecErr>(
            true,
        ),
{
}

/// `or` short-circuits: when the first child evaluates true, the
/// outcome is true and does not depend on the remaining children at
/// all — any two tails give the same result.
pub proof fn lemma_or_short_circuit(
    first: Predicate,
    tail_a: Seq<Predicate>,
    tail_b: Seq<Predicate>,
    data: Json,
    root: Option<Seq<Seq<char>>>,
    acc: bool,
)
    requires
        spec_eval_pred(first, data, root) == Ok::<bool, SpecErr>(true),
    ensures
        spec_eval_or(seq![first] + tail_a, data, root, acc) == Ok::<bool, SpecErr>(true),
        spec_eval_or(seq![first] + tail_a, data, root, acc) == spec_eval_or(
            seq![first] + tail_b,
            data,
            root,
            acc,
        ),
{
    let ca = seq![first] + tail_a;
    let cb = seq![first] + tail_b;
    assert(ca[0] == first);
    assert(cb[0] == first);
}

} // verus!
