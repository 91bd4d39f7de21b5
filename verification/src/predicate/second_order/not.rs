//! The `not` combinator.

use vstd::prelude::*;
use crate::json_path::JSONPath;
use crate::json_value::Json;
use crate::predicate::Predicate;
use crate::predicate::PredicateImpl;
use crate::predicate::context::PredicateContext;
use crate::predicate::context::final_path_spec;
use crate::predicate::error::PredicateError;
use crate::predicate::error::SpecErr;
use crate::predicate::second_order::spec_eval_not;
use crate::predicate::second_order::eval_not;

verus! {

/// False as soon as any child evaluates at all; true when every child
/// fails, a failure standing for "not true".  An empty `not` is true.
#[derive(Debug, PartialEq, Eq)]
pub struct Not {
    /// This combinator's own path, composed onto the context root for
    /// all of its children.  Absent means the context is unchanged.
    pub path: Option<JSONPath>,
    /// The child predicates, evaluated in order.
    pub apply: Vec<Predicate>,
}

impl PredicateImpl for Not {
    open spec fn spec_eval(&self, data: Json, root: Option<Seq<Seq<char>>>) -> Result<
        bool,
        SpecErr,
    > {
        spec_eval_not(self.apply@, data, final_path_spec(root, self.path.deep_view()))
    }

    fn evaluate(&self, data: &Json, ctx: &PredicateContext) -> (r: Result<bool, PredicateError>) {
        let child = PredicateContext::with_location(ctx.final_path(&self.path));
        eval_not(&self.apply, data, &child)
    }
}

/// A `not` with no children is true, whatever the path, the document
/// and the context.
pub proof fn lemma_empty_not(path: Option<Seq<Seq<char>>>, data: Json, root: Option<Seq<Seq<char>>>)
    ensures
        spec_eval_not(Seq::empty(), data, final_path_spec(root, path)) == Ok::<bool, SpecErr>(true),
{
}

} // verus!
