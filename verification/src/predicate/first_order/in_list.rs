//! The `in` predicate.

use vstd::prelude::*;
use crate::json_path::JSONPath;
use crate::json_text::text_of;
use crate::json_text::to_text;
use crate::json_value::Json;
use crate::json_value::jeq;
use crate::json_value::resolve;
use crate::json_value::spec_resolve;
use crate::json_value::SpecIndexError;
use crate::predicate::PredicateImpl;
use crate::predicate::context::PredicateContext;
use crate::predicate::context::effective;
use crate::predicate::error::PredicateError;
use crate::predicate::error::SpecErr;
use crate::predicate::first_order::effective_path;
use crate::strings::lower_of;
use crate::strings::lowercase;
use crate::strings::str_eq;

verus! {

/// True when the referenced element is a member of the given array,
/// by structural equality; the case-folded form compares the
/// lower-cased JSON text of each side instead.
#[derive(Debug, PartialEq, Eq)]
pub struct In {
    /// Where to look, relative to the context root.  Absent means the
    /// context root itself.
    pub path: Option<JSONPath>,
    /// Compare lower-cased serialized forms instead of the values.
    pub ignore_case: bool,
    /// The candidate members.
    pub value: Vec<Json>,
}

/// What `in` evaluates to.
pub open spec fn in_sem(
    local: Option<Seq<Seq<char>>>,
    ci: bool,
    arr: Seq<Json>,
    data: Json,
    root: Option<Seq<Seq<char>>>,
) -> Result<bool, SpecErr> {
    match spec_resolve(data, effective(root, local)) {
        Ok(v) => Ok(
            if ci {
                exists|i: int|
                    0 <= i < arr.len() && lower_of(text_of(#[trigger] arr[i])) == lower_of(
                        text_of(v),
                    )
            } else {
                exists|i: int| 0 <= i < arr.len() && jeq(#[trigger] arr[i], v)
            },
        ),
        Err(e) => Err(SpecErr::JsonPointerIssue(e)),
    }
}

impl PredicateImpl for In {
    open spec fn spec_eval(&self, data: Json, root: Option<Seq<Seq<char>>>) -> Result<
        bool,
        SpecErr,
    > {
        in_sem(self.path.deep_view(), self.ignore_case, self.value@, data, root)
    }

    fn evaluate(&self, data: &Json, ctx: &PredicateContext) -> (r: Result<bool, PredicateError>) {
        let eff = effective_path(ctx, &self.path);
        match resolve(data, &eff) {
            Ok(v) => {
                if self.ignore_case {
                    let ct = lowercase(to_text(v).as_str());
                    let mut i: usize = 0;
                    while i < self.value.len()
                        invariant
                            i <= self.value@.len(),
                            spec_resolve(*data, effective(ctx@, self.path.deep_view()))
                                == Ok::<Json, SpecIndexError>(*v),
                            self.ignore_case,
                            ct@ == lower_of(text_of(*v)),
                            forall|j: int|
                                0 <= j < i ==> lower_of(text_of(#[trigger] self.value@[j]))
                                    != lower_of(text_of(*v)),
                        decreases self.value@.len() - i,
                    {
                        let et = lowercase(to_text(&self.value[i]).as_str());
                        if str_eq(et.as_str(), ct.as_str()) {
                            proof {
                                assert(lower_of(text_of(self.value@[i as int])) == lower_of(
                                    text_of(*v),
                                ));
                            }
                            return Ok(true);
                        }
                        i = i + 1;
                    }
                    Ok(false)
                } else {
                    let mut i: usize = 0;
                    while i < self.value.len()
                        invariant
                            i <= self.value@.len(),
                            spec_resolve(*data, effective(ctx@, self.path.deep_view()))
                                == Ok::<Json, SpecIndexError>(*v),
                            !self.ignore_case,
                            forall|j: int| 0 <= j < i ==> !jeq(#[trigger] self.value@[j], *v),
                        decreases self.value@.len() - i,
                    {
                        if self.value[i].equals(v) {
                            proof {
                                assert(jeq(self.value@[i as int], *v));
                            }
                            return Ok(true);
                        }
                        i = i + 1;
                    }
                    Ok(false)
                }
            },
            Err(e) => Err(PredicateError::pointer_issue(e)),
        }
    }
}

} // verus!
