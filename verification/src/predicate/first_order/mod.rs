//! The first-order predicates: leaf tests on one referenced value.

use vstd::prelude::*;
use crate::json_path::JSONPath;
use crate::json_value::Json;
use crate::predicate::PredicateImpl;
use crate::predicate::context::PredicateContext;
use crate::predicate::context::effective;
use crate::predicate::error::PredicateError;
use crate::predicate::error::SpecErr;

pub mod contains;
pub mod defined;
pub mod end;
pub mod in_list;
pub mod less;
pub mod matches;
pub mod more;
pub mod start;
pub mod ty;
pub mod undefined;

use contains::Contains;
use defined::Defined;
use end::End;
use in_list::In;
use less::Less;
use matches::Matches;
use more::More;
use start::Start;
use test::Test;
use ty::Type;
use undefined::Undefined;

verus! {

/// One leaf test against a single referenced value.
#[derive(Debug, PartialEq, Eq)]
pub enum FirstOrder {
    Contains(Contains),
    Defined(Defined),
    Undefined(Undefined),
    Start(Start),
    End(End),
    Type(Type),
    In(In),
    Test(Test),
    Matches(Matches),
    Less(Less),
    More(More),
}

/// The outcome of one leaf on `data` under a context root.
pub open spec fn spec_eval_first(f: FirstOrder, data: Json, root: Option<Seq<Seq<char>>>) -> Result<
    bool,
    SpecErr,
> {
    match f {
        FirstOrder::Contains(x) => x.spec_eval(data, root),
        FirstOrder::Defined(x) => x.spec_eval(data, root),
        FirstOrder::Undefined(x) => x.spec_eval(data, root),
        FirstOrder::Start(x) => x.spec_eval(data, root),
        FirstOrder::End(x) => x.spec_eval(data, root),
        FirstOrder::Type(x) => x.spec_eval(data, root),
        FirstOrder::In(x) => x.spec_eval(data, root),
        FirstOrder::Test(x) => x.spec_eval(data, root),
        FirstOrder::Matches(x) => x.spec_eval(data, root),
        FirstOrder::Less(x) => x.spec_eval(data, root),
        FirstOrder::More(x) => x.spec_eval(data, root),
    }
}

/// The path a leaf resolves: context root and local path combined,
/// or the document root when neither is present.
pub(crate) fn effective_path(ctx: &PredicateContext, path: &Option<JSONPath>) -> (r: JSONPath)
    ensures
        r@ == effective(ctx@, path.deep_view()),
{
    match ctx.final_path(path) {
        Some(p) => p,
        None => JSONPath::empty(),
    }
}

impl PredicateImpl for FirstOrder {
    open spec fn spec_eval(&self, data: Json, root: Option<Seq<Seq<char>>>) -> Result<
        bool,
        SpecErr,
    > {
        spec_eval_first(*self, data, root)
    }

    fn evaluate(&self, data: &Json, ctx: &PredicateContext) -> (r: Result<bool, PredicateError>) {
        match self {
            FirstOrder::Contains(x) => x.evaluate(data, ctx),
            FirstOrder::Defined(x) => x.evaluate(data, ctx),
            FirstOrder::Undefined(x) => x.evaluate(data, ctx),
            FirstOrder::Start(x) => x.evaluate(data, ctx),
            FirstOrder::End(x) => x.evaluate(data, ctx),
            FirstOrder::Type(x) => x.evaluate(data, ctx),
            FirstOrder::In(x) => x.evaluate(data, ctx),
            FirstOrder::Test(x) => x.evaluate(data, ctx),
            FirstOrder::Matches(x) => x.evaluate(data, ctx),
            FirstOrder::Less(x) => x.evaluate(data, ctx),
            FirstOrder::More(x) => x.evaluate(data, ctx),
        }
    }
}

} // verus!
