//! The failures evaluation can report.

use vstd::prelude::*;
use vstd::string::*;
use crate::json_value::IndexError;
use crate::json_value::SpecIndexError;
use crate::strings::dec_digits;

verus! {

/// The error model: what kind of failure occurred, with the pointer
/// detail where resolution failed.
pub enum SpecErr {
    Unimplemented,
    UnknownPredicateOperation,
    JsonPointerIssue(SpecIndexError),
    NoValueMember,
    IncorrectType,
}

/// An evaluation failure.  An error means the predicate could not be
/// evaluated as specified; callers decide their own false-on-error
/// policy.
#[derive(Debug, PartialEq, Eq)]
pub struct PredicateError {
    kind: PredicateErrorKind,
}

#[derive(Debug, PartialEq, Eq)]
enum PredicateErrorKind {
    /// The requested check exists in the wire grammar but is not
    /// implemented here.
    Unimplemented,
    /// The predicate object named an unknown operation.
    UnknownPredicateOperation,
    /// The pointer referenced a value that does not exist, and the
    /// operation does not itself test for absence.
    JsonPointerIssue(IndexError),
    /// A required `value` member was missing.
    NoValueMember,
    /// The `value` member's type does not fit the operation.
    IncorrectType,
}

impl View for PredicateError {
    type V = SpecErr;

    closed spec fn view(&self) -> SpecErr {
        match self.kind {
            PredicateErrorKind::Unimplemented => SpecErr::Unimplemented,
            PredicateErrorKind::UnknownPredicateOperation => SpecErr::UnknownPredicateOperation,
            PredicateErrorKind::JsonPointerIssue(e) => SpecErr::JsonPointerIssue(e@),
            PredicateErrorKind::NoValueMember => SpecErr::NoValueMember,
            PredicateErrorKind::IncorrectType => SpecErr::IncorrectType,
        }
    }
}

/// The outcome of an evaluation, at the specification level.
pub open spec fn res_view(r: Result<bool, PredicateError>) -> Result<bool, SpecErr> {
    match r {
        Ok(b) => Ok(b),
        Err(e) => Err(e@),
    }
}

/// The diagnostic line for each failure.
pub open spec fn err_message(e: SpecErr) -> Seq<char> {
    match e {
        SpecErr::Unimplemented => "Unimplemented"@,
        SpecErr::UnknownPredicateOperation => "UnknownPredicateOperation"@,
        SpecErr::JsonPointerIssue(i) => match i {
            SpecIndexError::NoSuchKey(k) => "The pointer pointed to a nonexistent key, pointed key: "@
                + k,
            SpecIndexError::NotIndexable => "The pointer resulted in trying to index a non-indexable type"@,
            SpecIndexError::OutOfBounds(n) => "The pointer pointed to an out-of-bounds value in an array, pointed at "@
                + dec_digits(n as nat),
        },
        SpecErr::NoValueMember => "NoValueMember"@,
        SpecErr::IncorrectType => "IncorrectType"@,
    }
}

impl PredicateError {
    /// The failure for `iri` and `absolute-iri` type checks.
    pub fn unimplemented() -> (r: Self)
        ensures
            r@ == SpecErr::Unimplemented,
    {
        PredicateError { kind: PredicateErrorKind::Unimplemented }
    }

    /// The failure for a `value` member of the wrong shape.
    pub fn ty_issue() -> (r: Self)
        ensures
            r@ == SpecErr::IncorrectType,
    {
        PredicateError { kind: PredicateErrorKind::IncorrectType }
    }

    /// The failure carrying a pointer-resolution error.
    pub fn pointer_issue(issue: IndexError) -> (r: Self)
        ensures
            r@ == SpecErr::JsonPointerIssue(issue@),
    {
        PredicateError { kind: PredicateErrorKind::JsonPointerIssue(issue) }
    }

    /// The diagnostic line for this failure.
    pub fn message(&self) -> (r: String)
        ensures
            r@ == err_message(self@),
    {
        match &self.kind {
            PredicateErrorKind::Unimplemented => String::from_str("Unimplemented"),
            PredicateErrorKind::UnknownPredicateOperation => String::from_str(
                "UnknownPredicateOperation",
            ),
            PredicateErrorKind::JsonPointerIssue(i) => match i {
                IndexError::NoSuchKey(k) => {
                    let mut m = String::from_str(
                        "The pointer pointed to a nonexistent key, pointed key: ",
                    );
                    m.append(k.as_str());
                    m
                },
                IndexError::NotIndexable => String::from_str(
                    "The pointer resulted in trying to index a non-indexable type",
                ),
                IndexError::OutOfBounds(n) => {
                    let mut m = String::from_str(
                        "The pointer pointed to an out-of-bounds value in an array, pointed at ",
                    );
                    crate::strings::push_decimal(&mut m, *n as u64);
                    m
                },
            },
            PredicateErrorKind::NoValueMember => String::from_str("NoValueMember"),
            PredicateErrorKind::IncorrectType => String::from_str("IncorrectType"),
        }
    }
}

} // verus!
