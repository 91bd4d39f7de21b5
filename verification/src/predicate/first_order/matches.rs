//! The `matches` predicate.

use vstd::prelude::*;
use crate::json_path::JSONPath;
use crate::json_value::Json;
use crate::json_value::resolve;
use crate::json_value::spec_resolve;
use crate::predicate::PredicateImpl;
use crate::predicate::context::PredicateContext;
use crate::predicate::context::effective;
use crate::predicate::error::PredicateError;
use crate::predicate::error::SpecErr;
use crate::predicate::first_order::effective_path;
use crate::regex::Regex;
use crate::regex::regex_found;
use crate::regex::regex_search;
use crate::regex::regex_valid;

verus! {

/// True when the referenced element is a string in which the pattern
/// matches somewhere; false on any non-string.  The case-folded form
/// recompiles the pattern case-insensitively at each evaluation, and
/// reports a value-type failure if that compilation is refused.
#[derive(Debug, PartialEq, Eq)]
pub struct Matches {
    /// Where to look, relative to the context root.  Absent means the
    /// context root itself.
    pub path: Option<JSONPath>,
    /// Search under the engine's case-insensitive flag.
    pub ignore_case: bool,
    /// The pattern searched for, unanchored.
    pub value: Regex,
}

/// What `matches` evaluates to.
pub open spec fn matches_sem(
    local: Option<Seq<Seq<char>>>,
    ci: bool,
    pat: Seq<char>,
    data: Json,
    root: Option<Seq<Seq<char>>>,
) -> Result<bool, SpecErr> {
    match spec_resolve(data, effective(root, local)) {
        Ok(v) => match v {
            Json::Str(c) => {
                if regex_valid(pat, ci) {
                    Ok(regex_found(pat, ci, c@))
                } else {
                    Err(SpecErr::IncorrectType)
                }
            },
            _ => Ok(false),
        },
        Err(e) => Err(SpecErr::JsonPointerIssue(e)),
    }
}

impl PredicateImpl for Matches {
    open spec fn spec_eval(&self, data: Json, root: Option<Seq<Seq<char>>>) -> Result<
        bool,
        SpecErr,
    > {
        matches_sem(self.path.deep_view(), self.ignore_case, self.value@, data, root)
    }

    fn evaluate(&self, data: &Json, ctx: &PredicateContext) -> (r: Result<bool, PredicateError>) {
        let eff = effective_path(ctx, &self.path);
        match resolve(data, &eff) {
            Ok(v) => match v {
                Json::Str(c) => match regex_search(
                    self.value.as_str(),
                    self.ignore_case,
                    c.as_str(),
                ) {
                    Some(b) => Ok(b),
                    None => Err(PredicateError::ty_issue()),
                },
                _ => Ok(false),
            },
            Err(e) => Err(PredicateError::pointer_issue(e)),
        }
    }
}

} // verus!
