//! The `defined` predicate.

use vstd::prelude::*;
use crate::json_path::JSONPath;
use crate::json_value::Json;
use crate::json_value::resolve;
use crate::json_value::spec_resolve;
use crate::predicate::PredicateImpl;
use crate::predicate::context::PredicateContext;
use crate::predicate::context::effective;
use crate::predicate::error::PredicateError;
use crate::predicate::error::SpecErr;
use crate::predicate::first_order::effective_path;

verus! {

/// True when the referenced element exists in the document, even when
/// its value is null; resolution failures are propagated.
#[derive(Debug, PartialEq, Eq)]
pub struct Defined {
    /// Where to look, relative to the context root.  Absent means the
    /// context root itself.
    pub path: Option<JSONPath>,
}

/// What `defined` evaluates to.
pub open spec fn defined_sem(
    local: Option<Seq<Seq<char>>>,
    data: Json,
    root: Option<Seq<Seq<char>>>,
) -> Result<bool, SpecErr> {
    match spec_resolve(data, effective(root, local)) {
        Ok(_) => Ok(true),
        Err(e) => Err(SpecErr::JsonPointerIssue(e)),
    }
}

impl PredicateImpl for Defined {
    open spec fn spec_eval(&self, data: Json, root: Option<Seq<Seq<char>>>) -> Result<
        bool,
        SpecErr,
    > {
        defined_sem(self.path.deep_view(), data, root)
    }

    fn evaluate(&self, data: &Json, ctx: &PredicateContext) -> (r: Result<bool, PredicateError>) {
        let eff = effective_path(ctx, &self.path);
        match resolve(data, &eff) {
            Ok(_) => Ok(true),
            Err(e) => Err(PredicateError::pointer_issue(e)),
        }
    }
}

} // verus!
