//! The `undefined` predicate.

use vstd::prelude::*;
use crate::json_path::JSONPath;
use crate::json_value::Json;
use crate::json_value::resolve;
use crate::json_value::spec_resolve;
use crate::predicate::PredicateImpl;
use crate::predicate::context::PredicateContext;
use crate::predicate::context::effective;
use crate::predicate::error::PredicateError;
use crate::predicate::error::SpecErr;
use crate::predicate::first_order::defined::defined_sem;
use crate::predicate::first_order::effective_path;

verus! {

/// True when the referenced element does not exist: a resolution
/// failure is the success case here.
#[derive(Debug, PartialEq, Eq)]
pub struct Undefined {
    /// Where to look, relative to the context root.  Absent means the
    /// context root itself.
    pub path: Option<JSONPath>,
}

/// What `undefined` evaluates to.
pub open spec fn undefined_sem(
    local: Option<Seq<Seq<char>>>,
    data: Json,
    root: Option<Seq<Seq<char>>>,
) -> Result<bool, SpecErr> {
    match spec_resolve(data, effective(root, local)) {
        Ok(_) => Ok(false),
        Err(_) => Ok(true),
    }
}

impl PredicateImpl for Undefined {
    open spec fn spec_eval(&self, data: Json, root: Option<Seq<Seq<char>>>) -> Result<
        bool,
        SpecErr,
    > {
        undefined_sem(self.path.deep_view(), data, root)
    }

    fn evaluate(&self, data: &Json, ctx: &PredicateContext) -> (r: Result<bool, PredicateError>) {
        let eff = effective_path(ctx, &self.path);
        match resolve(data, &eff) {
            Ok(_) => Ok(false),
            Err(_) => Ok(true),
        }
    }
}

/// `undefined` and `defined` are dual on every path, document and
/// context: `undefined` is true exactly when `defined` fails, and
/// false exactly when `defined` is true.
pub proof fn lemma_defined_undefined(
    local: Option<Seq<Seq<char>>>,
    data: Json,
    root: Option<Seq<Seq<char>>>,
)
    ensures
        (undefined_sem(local, data, root) == Ok::<bool, SpecErr>(true)) <==> (defined_sem(
            local,
            data,
            root,
        ) is Err),
        (undefined_sem(local, data, root) == Ok::<bool, SpecErr>(false)) <==> (defined_sem(
            local,
            data,
            root,
        ) == Ok::<bool, SpecErr>(true)),
{
}

} // verus!
