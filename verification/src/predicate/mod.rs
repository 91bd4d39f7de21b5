//! Predicates: first-order leaves and second-order combinators, with
//! the recursive evaluation algorithm.

use vstd::prelude::*;
use crate::json_value::Json;
use crate::predicate::context::PredicateContext;
use crate::predicate::context::final_path_spec;
use crate::predicate::error::PredicateError;
use crate::predicate::error::SpecErr;
use crate::predicate::error::res_view;
use crate::predicate::first_order::FirstOrder;
use crate::predicate::first_order::spec_eval_first;
use crate::predicate::second_order::SecondOrder;
use crate::predicate::second_order::spec_eval_and;
use crate::predicate::second_order::spec_eval_or;
use crate::predicate::second_order::spec_eval_not;
use crate::predicate::second_order::eval_and;
use crate::predicate::second_order::eval_or;
use crate::predicate::second_order::eval_not;

pub mod codec;
pub mod context;
pub mod error;
pub mod first_order;
pub mod second_order;

verus! {

/// A testable condition over a JSON document: either one leaf test or
/// a combinator over child predicates.
#[derive(Debug, PartialEq, Eq)]
pub enum Predicate {
    FirstOrder(FirstOrder),
    SecondOrder(SecondOrder),
}

/// What any predicate form offers: a specification-level meaning and a
/// verified evaluator that computes it.
pub trait PredicateImpl {
    /// The outcome of this predicate on `data` under a context root.
    spec fn spec_eval(&self, data: Json, root: Option<Seq<Seq<char>>>) -> Result<bool, SpecErr>;

    /// Evaluate the predicate against the provided document.
    ///
    /// An error means the predicate could not be evaluated as
    /// specified; the caller decides what that implies.
    fn evaluate(&self, data: &Json, ctx: &PredicateContext) -> (r: Result<bool, PredicateError>)
        ensures
            res_view(r) == self.spec_eval(*data, ctx@),
    ;
}

/// The outcome of a whole predicate tree on `data` under `root`.
pub open spec fn spec_eval_pred(p: Predicate, data: Json, root: Option<Seq<Seq<char>>>) -> Result<
    bool,
    SpecErr,
>
    decreases p, 0int,
{
    match p {
        Predicate::FirstOrder(f) => spec_eval_first(f, data, root),
        Predicate::SecondOrder(s) => match s {
            SecondOrder::And(a) => spec_eval_and(
                a.apply@,
                data,
                final_path_spec(root, a.path.deep_view()),
            ),
            SecondOrder::Or(o) => spec_eval_or(
                o.apply@,
                data,
                final_path_spec(root, o.path.deep_view()),
                true,
            ),
            SecondOrder::Not(n) => spec_eval_not(
                n.apply@,
                data,
                final_path_spec(root, n.path.deep_view()),
            ),
        },
    }
}

/// Evaluate a predicate tree.
pub(crate) fn eval_pred(p: &Predicate, data: &Json, ctx: &PredicateContext) -> (r: Result<
    bool,
    PredicateError,
>)
    ensures
        res_view(r) == spec_eval_pred(*p, *data, ctx@),
    decreases *p, 0int,
{
    match p {
        Predicate::FirstOrder(f) => f.evaluate(data, ctx),
        Predicate::SecondOrder(s) => match s {
            SecondOrder::And(a) => {
                proof {
                    assert(decreases_to!(*p => p->SecondOrder_0));
                    assert(decreases_to!(*s => s->And_0));
                    assert(decreases_to!(*a => a.apply));
                }
                let child = PredicateContext::with_location(ctx.final_path(&a.path));
                eval_and(&a.apply, data, &child)
            },
            SecondOrder::Or(o) => {
                proof {
                    assert(decreases_to!(*p => p->SecondOrder_0));
                    assert(decreases_to!(*s => s->Or_0));
                    assert(decreases_to!(*o => o.apply));
                }
                let child = PredicateContext::with_location(ctx.final_path(&o.path));
                eval_or(&o.apply, data, &child)
            },
            SecondOrder::Not(n) => {
                proof {
                    assert(decreases_to!(*p => p->SecondOrder_0));
                    assert(decreases_to!(*s => s->Not_0));
                    assert(decreases_to!(*n => n.apply));
                }
                let child = PredicateContext::with_location(ctx.final_path(&n.path));
                eval_not(&n.apply, data, &child)
            },
        },
    }
}

impl PredicateImpl for Predicate {
    open spec fn spec_eval(&self, data: Json, root: Option<Seq<Seq<char>>>) -> Result<
        bool,
        SpecErr,
    > {
        spec_eval_pred(*self, data, root)
    }

    fn evaluate(&self, data: &Json, ctx: &PredicateContext) -> (r: Result<bool, PredicateError>) {
        eval_pred(self, data, ctx)
    }
}

} // verus!
