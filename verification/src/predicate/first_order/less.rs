//! The `less` predicate.

use vstd::prelude::*;
use crate::json_path::JSONPath;
use crate::json_value::Json;
use crate::json_value::JsonNum;
use crate::json_value::num_val;
use crate::json_value::resolve;
use crate::json_value::spec_resolve;
use crate::predicate::PredicateImpl;
use crate::predicate::context::PredicateContext;
use crate::predicate::context::effective;
use crate::predicate::error::PredicateError;
use crate::predicate::error::SpecErr;
use crate::predicate::first_order::effective_path;

verus! {

/// True when the referenced element is a number strictly below the
/// given one; false when it is not a number at all.
#[derive(Debug, PartialEq, Eq)]
pub struct Less {
    /// Where to look, relative to the context root.  Absent means the
    /// context root itself.
    pub path: Option<JSONPath>,
    /// The bound the referenced number is compared against.
    pub value: JsonNum,
}

/// What `less` evaluates to.
pub open spec fn less_sem(
    local: Option<Seq<Seq<char>>>,
    val: JsonNum,
    data: Json,
    root: Option<Seq<Seq<char>>>,
) -> Result<bool, SpecErr> {
    match spec_resolve(data, effective(root, local)) {
        Ok(v) => Ok(v matches Json::Num(n) && num_val(n) < num_val(val)),
        Err(e) => Err(SpecErr::JsonPointerIssue(e)),
    }
}

impl PredicateImpl for Less {
    open spec fn spec_eval(&self, data: Json, root: Option<Seq<Seq<char>>>) -> Result<
        bool,
        SpecErr,
    > {
        less_sem(self.path.deep_view(), self.value, data, root)
    }

    fn evaluate(&self, data: &Json, ctx: &PredicateContext) -> (r: Result<bool, PredicateError>) {
        let eff = effective_path(ctx, &self.path);
        match resolve(data, &eff) {
            Ok(v) => match v {
                Json::Num(n) => Ok(n.lt(&self.value)),
                _ => Ok(false),
            },
            Err(e) => Err(PredicateError::pointer_issue(e)),
        }
    }
}

} // verus!
