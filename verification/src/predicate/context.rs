//! The evaluation context: an optional root path accumulated while
//! descending through combinators.

use vstd::prelude::*;
use crate::json_path::JSONPath;
use crate::json_path::JSONPathError;
use crate::json_path::spec_parse;

verus! {

/// How a context root and a predicate's own local path combine: no
/// paths give no path, one path stands alone, and two compose.
pub open spec fn final_path_spec(
    root: Option<Seq<Seq<char>>>,
    local: Option<Seq<Seq<char>>>,
) -> Option<Seq<Seq<char>>> {
    match (root, local) {
        (Option::None, Option::None) => Option::None,
        (Option::Some(r), Option::None) => Option::Some(r),
        (Option::None, Option::Some(l)) => Option::Some(l),
        (Option::Some(r), Option::Some(l)) => Option::Some(r + l),
    }
}

/// The token sequence a leaf resolves: the combined path, or the root
/// of the document when neither context nor leaf carries one.
pub open spec fn effective(
    root: Option<Seq<Seq<char>>>,
    local: Option<Seq<Seq<char>>>,
) -> Seq<Seq<char>> {
    match final_path_spec(root, local) {
        Option::Some(p) => p,
        Option::None => Seq::empty(),
    }
}

/// The context a predicate is evaluated in: an optional root path that
/// scopes every pointer below it.
#[derive(Debug, Clone)]
pub struct PredicateContext {
    location: Option<JSONPath>,
}

impl View for PredicateContext {
    type V = Option<Seq<Seq<char>>>;

    closed spec fn view(&self) -> Option<Seq<Seq<char>>> {
        self.location.deep_view()
    }
}

/// Why a context could not be built.
#[derive(Debug, PartialEq, Eq)]
pub enum PredicateContextError {
    /// A caller-side decoding failure, carried through as text.
    Deserialize(String),
    /// The root path string did not parse.
    JSONPath(JSONPathError),
}

impl Default for PredicateContext {
    /// The empty context: no root path at all.
    fn default() -> (r: Self)
        ensures
            r@ == Option::<Seq<Seq<char>>>::None,
    {
        PredicateContext { location: None }
    }
}

impl PredicateContext {
    /// A context whose root is `path`, or none.
    pub fn with_location(location: Option<JSONPath>) -> (r: Self)
        ensures
            r@ == location.deep_view(),
    {
        PredicateContext { location }
    }

    /// Parse `path` as a pointer and root the context there.
    pub fn new(path: String) -> (r: Result<Self, PredicateContextError>)
        ensures
            match r {
                Ok(c) => spec_parse(path@) matches Ok(t) && c@ == Option::Some(t),
                Err(e) => spec_parse(path@) matches Err(pe) && e == PredicateContextError::JSONPath(
                    pe,
                ),
            },
    {
        match JSONPath::new(path.as_str()) {
            Ok(p) => Ok(PredicateContext { location: Some(p) }),
            Err(e) => Err(PredicateContextError::JSONPath(e)),
        }
    }

    /// Combine this context's root with a predicate's local path.
    pub fn final_path(&self, path: &Option<JSONPath>) -> (r: Option<JSONPath>)
        ensures
            r.deep_view() == final_path_spec(self@, path.deep_view()),
    {
        match (&self.location, path) {
            (None, None) => None,
            (Some(r), None) => Some(r.duplicate()),
            (None, Some(l)) => Some(l.duplicate()),
            (Some(r), Some(l)) => Some(r.duplicate().compose(l.duplicate())),
        }
    }
}

} // verus!
