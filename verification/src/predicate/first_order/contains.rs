//! The `contains` predicate.

use vstd::prelude::*;
use crate::json_path::JSONPath;
use crate::json_value::Json;
use crate::json_value::resolve;
use crate::json_value::spec_resolve;
use crate::predicate::PredicateImpl;
use crate::predicate::context::PredicateContext;
use crate::predicate::context::effective;
use crate::predicate::error::PredicateError;
use crate::predicate::error::SpecErr;
use crate::predicate::first_order::effective_path;
use crate::strings::is_substring;
use crate::strings::lower_of;
use crate::strings::lowercase;
use crate::strings::contains_str;

verus! {

/// True when the referenced element and the given value are both
/// strings and the former contains the latter, case-folded on both
/// sides when asked; false on any other shapes.
#[derive(Debug, PartialEq, Eq)]
pub struct Contains {
    /// Where to look, relative to the context root.  Absent means the
    /// context root itself.
    pub path: Option<JSONPath>,
    /// Compare lower-cased forms instead of the strings themselves.
    pub ignore_case: bool,
    /// The candidate substring.
    pub value: Json,
}

/// What `contains` evaluates to.
pub open spec fn contains_sem(
    local: Option<Seq<Seq<char>>>,
    ci: bool,
    val: Json,
    data: Json,
    root: Option<Seq<Seq<char>>>,
) -> Result<bool, SpecErr> {
    match spec_resolve(data, effective(root, local)) {
        Ok(v) => Ok(
            match (v, val) {
                (Json::Str(c), Json::Str(s)) => {
                    if ci {
                        is_substring(lower_of(s@), lower_of(c@))
                    } else {
                        is_substring(s@, c@)
                    }
                },
                _ => false,
            },
        ),
        Err(e) => Err(SpecErr::JsonPointerIssue(e)),
    }
}

impl PredicateImpl for Contains {
    open spec fn spec_eval(&self, data: Json, root: Option<Seq<Seq<char>>>) -> Result<
        bool,
        SpecErr,
    > {
        contains_sem(self.path.deep_view(), self.ignore_case, self.value, data, root)
    }

    fn evaluate(&self, data: &Json, ctx: &PredicateContext) -> (r: Result<bool, PredicateError>) {
        let eff = effective_path(ctx, &self.path);
        match resolve(data, &eff) {
            Ok(v) => match (v, &self.value) {
                (Json::Str(c), Json::Str(s)) => {
                    if self.ignore_case {
                        let lc = lowercase(c.as_str());
                        let ls = lowercase(s.as_str());
                        Ok(contains_str(lc.as_str(), ls.as_str()))
                    } else {
                        Ok(contains_str(c.as_str(), s.as_str()))
                    }
                },
                _ => Ok(false),
            },
            Err(e) => Err(PredicateError::pointer_issue(e)),
        }
    }
}

} // verus!
