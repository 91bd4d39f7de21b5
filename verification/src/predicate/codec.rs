//! The wire form of predicates.
//!
//! A predicate travels as a JSON object whose `op` member selects the
//! variant; a trailing `-` on `op` is the wire encoding of the
//! case-folded flag.  `path` is optional (absent or null means the
//! context root); leaves carry `value`, combinators carry `apply`.
//! Decoding reads `op` first and then dispatches to exactly one
//! variant; unknown members are ignored.

use vstd::prelude::*;
use vstd::string::*;
use crate::json_path::JSONPath;
use crate::json_path::JSONPathError;
use crate::json_path::spec_parse;
use crate::json_path::spec_serialize;
use crate::json_value::Json;
use crate::json_value::jeq;
use crate::json_value::obj_lookup;
use crate::json_value::lemma_obj_lookup_at;
use crate::json_value::lemma_obj_lookup_missing;
use crate::json_value::lemma_obj_lookup_decreases;
use crate::predicate::Predicate;
use crate::predicate::first_order::FirstOrder;
use crate::predicate::first_order::contains::Contains;
use crate::predicate::first_order::defined::Defined;
use crate::predicate::first_order::end::End;
use crate::predicate::first_order::in_list::In;
use crate::predicate::first_order::less::Less;
use crate::predicate::first_order::matches::Matches;
use crate::predicate::first_order::more::More;
use crate::predicate::first_order::start::Start;
use crate::predicate::first_order::test::Test;
use crate::predicate::first_order::ty::Type;
use crate::predicate::first_order::undefined::Undefined;
use crate::predicate::second_order::SecondOrder;
use crate::predicate::second_order::and::And;
use crate::predicate::second_order::not::Not;
use crate::predicate::second_order::or::Or;
use crate::regex::Regex;
use crate::regex::regex_valid;
use crate::strings::str_eq;

verus! {

/// Why a wire object was rejected.
#[derive(Debug, Clone, Copy, PartialEq, Eq, Structural)]
pub enum DecodeError {
    /// The wire form is not an object.
    NotAnObject,
    /// The object has no `op` member.
    MissingOp,
    /// The `op` member is not a string.
    OpNotAString,
    /// The `op` string names no known operation.
    UnknownOperation,
    /// The `path` member is neither a string nor null.
    PathNotAString,
    /// The `path` string is not a valid pointer.
    InvalidPath(JSONPathError),
    /// A required `value` member is missing.
    MissingValue,
    /// The `value` member's type does not fit the operation.
    IncorrectValueType,
    /// The pattern of a `matches` does not compile.
    InvalidPattern,
    /// A required `apply` member is missing.
    MissingApply,
    /// The `apply` member is not an array.
    ApplyNotAnArray,
}

/// The member of object `v` named `name`, if `v` is an object that
/// has one.
pub open spec fn field_of(v: Json, name: Seq<char>) -> Option<Json> {
    match v {
        Json::Obj(pairs) => obj_lookup(pairs@, name),
        _ => Option::None,
    }
}

/// The `op` member's text, when it is a string.
pub open spec fn op_tag(v: Json) -> Option<Seq<char>> {
    match field_of(v, "op"@) {
        Option::Some(Json::Str(s)) => Option::Some(s@),
        _ => Option::None,
    }
}

/// What the `path` member decodes to: absent or null is no path, a
/// string must parse as a pointer, anything else is refused.
pub open spec fn spec_decode_path(v: Json) -> Result<Option<Seq<Seq<char>>>, DecodeError> {
    match field_of(v, "path"@) {
        Option::None => Ok(Option::None),
        Option::Some(pv) => match pv {
            Json::Null => Ok(Option::None),
            Json::Str(s) => match spec_parse(s@) {
                Ok(t) => Ok(Option::Some(t)),
                Err(e) => Err(DecodeError::InvalidPath(e)),
            },
            _ => Err(DecodeError::PathNotAString),
        },
    }
}

/// The operations that require a `value` member.
pub open spec fn is_value_op(t: Seq<char>) -> bool {
    ||| t == "contains"@
    ||| t == "contains-"@
    ||| t == "starts"@
    ||| t == "starts-"@
    ||| t == "ends"@
    ||| t == "ends-"@
    ||| t == "test"@
    ||| t == "test-"@
    ||| t == "type"@
    ||| t == "in"@
    ||| t == "in-"@
    ||| t == "matches"@
    ||| t == "matches-"@
    ||| t == "less"@
    ||| t == "more"@
}

/// Whether the `value` member fits the operation.
pub open spec fn value_err(t: Seq<char>, w: Json) -> Option<DecodeError> {
    if t == "type"@ {
        if w is Str {
            Option::None
        } else {
            Option::Some(DecodeError::IncorrectValueType)
        }
    } else if t == "in"@ || t == "in-"@ {
        if w is Arr {
            Option::None
        } else {
            Option::Some(DecodeError::IncorrectValueType)
        }
    } else if t == "matches"@ || t == "matches-"@ {
        match w {
            Json::Str(s) => {
                if regex_valid(s@, false) {
                    Option::None
                } else {
                    Option::Some(DecodeError::InvalidPattern)
                }
            },
            _ => Option::Some(DecodeError::IncorrectValueType),
        }
    } else if t == "less"@ || t == "more"@ {
        if w is Num {
            Option::None
        } else {
            Option::Some(DecodeError::IncorrectValueType)
        }
    } else {
        Option::None
    }
}

/// The first reason decoding `v` fails, or nothing when it succeeds.
/// `op` is read first, then `path`, then the member the operation
/// requires.
pub open spec fn spec_decode_err(v: Json) -> Option<DecodeError>
    decreases v, 0int,
    via spec_decode_err_dec
{
    match v {
        Json::Obj(pairs) => match obj_lookup(pairs@, "op"@) {
            Option::Some(opv) => match opv {
                Json::Str(op) => {
                    let tag = op@;
                    match spec_decode_path(v) {
                        Err(e) => Option::Some(e),
                        Ok(_) => {
                            if tag == "and"@ || tag == "or"@ || tag == "not"@ {
                                match field_of(v, "apply"@) {
                                    Option::Some(av) => match av {
                                        Json::Arr(items) => children_err(items@),
                                        _ => Option::Some(DecodeError::ApplyNotAnArray),
                                    },
                                    Option::None => Option::Some(DecodeError::MissingApply),
                                }
                            } else if tag == "defined"@ || tag == "undefined"@ {
                                Option::None
                            } else if is_value_op(tag) {
                                match field_of(v, "value"@) {
                                    Option::Some(w) => value_err(tag, w),
                                    Option::None => Option::Some(DecodeError::MissingValue),
                                }
                            } else {
                                Option::Some(DecodeError::UnknownOperation)
                            }
                        },
                    }
                },
                _ => Option::Some(DecodeError::OpNotAString),
            },
            Option::None => Option::Some(DecodeError::MissingOp),
        },
        _ => Option::Some(DecodeError::NotAnObject),
    }
}

/// The first reason any child of a combinator fails to decode.
pub open spec fn children_err(items: Seq<Json>) -> Option<DecodeError>
    decreases items, 1int,
{
    if items.len() == 0 {
        Option::None
    } else {
        match spec_decode_err(items[0]) {
            Option::Some(e) => Option::Some(e),
            Option::None => children_err(items.drop_first()),
        }
    }
}

#[via_fn]
proof fn spec_decode_err_dec(v: Json) {
    match v {
        Json::Obj(pairs) => {
            if obj_lookup(pairs@, "apply"@) is Some {
                lemma_obj_lookup_decreases(pairs@, "apply"@);
                let av = obj_lookup(pairs@, "apply"@)->Some_0;
                assert(decreases_to!(v => pairs));
                assert(decreases_to!(pairs => pairs@));
                match av {
                    Json::Arr(items) => {
                        assert(decreases_to!(av => av->Arr_0));
                        assert(decreases_to!(items => items@));
                    },
                    _ => {},
                }
            }
        },
        _ => {},
    }
}

/// How the decoded `path` member relates to the wire object.
pub open spec fn path_ok(v: Json, p: Option<JSONPath>) -> bool {
    spec_decode_path(v) == Ok::<Option<Seq<Seq<char>>>, DecodeError>(p.deep_view())
}

/// The predicate `p` is what the wire object `v` decodes to: the `op`
/// text selects the variant and the flag, the decoded path matches,
/// and the payload is an equivalent copy of the wire member.
pub open spec fn decoded_matches(v: Json, p: Predicate) -> bool
    decreases p,
{
    match p {
        Predicate::FirstOrder(f) => match f {
            FirstOrder::Contains(x) => {
                &&& op_tag(v) == Option::Some(
                    if x.ignore_case {
                        "contains-"@
                    } else {
                        "contains"@
                    },
                )
                &&& path_ok(v, x.path)
                &&& field_of(v, "value"@) matches Option::Some(w) && jeq(x.value, w)
            },
            FirstOrder::Defined(x) => {
                &&& op_tag(v) == Option::Some("defined"@)
                &&& path_ok(v, x.path)
            },
            FirstOrder::Undefined(x) => {
                &&& op_tag(v) == Option::Some("undefined"@)
                &&& path_ok(v, x.path)
            },
            FirstOrder::Start(x) => {
                &&& op_tag(v) == Option::Some(
                    if x.ignore_case {
                        "starts-"@
                    } else {
                        "starts"@
                    },
                )
                &&& path_ok(v, x.path)
                &&& field_of(v, "value"@) matches Option::Some(w) && jeq(x.value, w)
            },
            FirstOrder::End(x) => {
                &&& op_tag(v) == Option::Some(
                    if x.ignore_case {
                        "ends-"@
                    } else {
                        "ends"@
                    },
                )
                &&& path_ok(v, x.path)
                &&& field_of(v, "value"@) matches Option::Some(w) && jeq(x.value, w)
            },
            FirstOrder::Type(x) => {
                &&& op_tag(v) == Option::Some("type"@)
                &&& path_ok(v, x.path)
                &&& field_of(v, "value"@) matches Option::Some(w) && w matches Json::Str(s) && s@
                    == x.value@
            },
            FirstOrder::In(x) => {
                &&& op_tag(v) == Option::Some(
                    if x.ignore_case {
                        "in-"@
                    } else {
                        "in"@
                    },
                )
                &&& path_ok(v, x.path)
                &&& field_of(v, "value"@) matches Option::Some(w) && w matches Json::Arr(items)
                    && items@.len() == x.value@.len() && (forall|i: int|
                    0 <= i < items@.len() ==> jeq(#[trigger] x.value@[i], items@[i]))
            },
            FirstOrder::Test(x) => {
                &&& op_tag(v) == Option::Some(
                    if x.ignore_case {
                        "test-"@
                    } else {
                        "test"@
                    },
                )
                &&& path_ok(v, x.path)
                &&& field_of(v, "value"@) matches Option::Some(w) && jeq(x.value, w)
            },
            FirstOrder::Matches(x) => {
                &&& op_tag(v) == Option::Some(
                    if x.ignore_case {
                        "matches-"@
                    } else {
                        "matches"@
                    },
                )
                &&& path_ok(v, x.path)
                &&& field_of(v, "value"@) matches Option::Some(w) && w matches Json::Str(s) && s@
                    == x.value@
            },
            FirstOrder::Less(x) => {
                &&& op_tag(v) == Option::Some("less"@)
                &&& path_ok(v, x.path)
                &&& field_of(v, "value"@) matches Option::Some(w) && w matches Json::Num(n) && n
                    == x.value
            },
            FirstOrder::More(x) => {
                &&& op_tag(v) == Option::Some("more"@)
                &&& path_ok(v, x.path)
                &&& field_of(v, "value"@) matches Option::Some(w) && w matches Json::Num(n) && n
                    == x.value
            },
        },
        Predicate::SecondOrder(s) => match s {
            SecondOrder::And(x) => {
                &&& op_tag(v) == Option::Some("and"@)
                &&& path_ok(v, x.path)
                &&& field_of(v, "apply"@) matches Option::Some(w) && w matches Json::Arr(items)
                    && items@.len() == x.apply@.len() && (forall|i: int|
                    0 <= i < items@.len() ==> decoded_matches(#[trigger] items@[i], x.apply@[i]))
            },
            SecondOrder::Or(x) => {
                &&& op_tag(v) == Option::Some("or"@)
                &&& path_ok(v, x.path)
                &&& field_of(v, "apply"@) matches Option::Some(w) && w matches Json::Arr(items)
                    && items@.len() == x.apply@.len() && (forall|i: int|
                    0 <= i < items@.len() ==> decoded_matches(#[trigger] items@[i], x.apply@[i]))
            },
            SecondOrder::Not(x) => {
                &&& op_tag(v) == Option::Some("not"@)
                &&& path_ok(v, x.path)
                &&& field_of(v, "apply"@) matches Option::Some(w) && w matches Json::Arr(items)
                    && items@.len() == x.apply@.len() && (forall|i: int|
                    0 <= i < items@.len() ==> decoded_matches(#[trigger] items@[i], x.apply@[i]))
            },
        },
    }
}

/// How the encoded `path` member renders an optional path: null for
/// none, else the pointer string.
pub open spec fn path_field_rel(pj: Json, p: Option<JSONPath>) -> bool {
    match p {
        Option::None => pj is Null,
        Option::Some(q) => pj matches Json::Str(s) && s@ == spec_serialize(q@),
    }
}

/// The first two members of an encoded predicate object: the `op`
/// text and the rendered `path`.
pub open spec fn enc_header(ps: Seq<(String, Json)>, tag: Seq<char>, p: Option<JSONPath>) -> bool {
    &&& ps.len() >= 2
    &&& ps[0].0@ == "op"@
    &&& ps[0].1 matches Json::Str(s) && s@ == tag
    &&& ps[1].0@ == "path"@
    &&& path_field_rel(ps[1].1, p)
}

/// The wire object `r` is an encoding of `p`: members `op`, `path`
/// and, where the variant carries one, `value` or `apply`, in that
/// order.
pub open spec fn encodes_to(p: Predicate, r: Json) -> bool
    decreases p,
{
    match p {
        Predicate::FirstOrder(f) => match f {
            FirstOrder::Contains(x) => r matches Json::Obj(ps) && ps@.len() == 3 && enc_header(
                ps@,
                if x.ignore_case {
                    "contains-"@
                } else {
                    "contains"@
                },
                x.path,
            ) && ps@[2].0@ == "value"@ && jeq(ps@[2].1, x.value),
            FirstOrder::Defined(x) => r matches Json::Obj(ps) && ps@.len() == 2 && enc_header(
                ps@,
                "defined"@,
                x.path,
            ),
            FirstOrder::Undefined(x) => r matches Json::Obj(ps) && ps@.len() == 2 && enc_header(
                ps@,
                "undefined"@,
                x.path,
            ),
            FirstOrder::Start(x) => r matches Json::Obj(ps) && ps@.len() == 3 && enc_header(
                ps@,
                if x.ignore_case {
                    "starts-"@
                } else {
                    "starts"@
                },
                x.path,
            ) && ps@[2].0@ == "value"@ && jeq(ps@[2].1, x.value),
            FirstOrder::End(x) => r matches Json::Obj(ps) && ps@.len() == 3 && enc_header(
                ps@,
                if x.ignore_case {
                    "ends-"@
                } else {
                    "ends"@
                },
                x.path,
            ) && ps@[2].0@ == "value"@ && jeq(ps@[2].1, x.value),
            FirstOrder::Type(x) => r matches Json::Obj(ps) && ps@.len() == 3 && enc_header(
                ps@,
                "type"@,
                x.path,
            ) && ps@[2].0@ == "value"@ && (ps@[2].1 matches Json::Str(s) && s@ == x.value@),
            FirstOrder::In(x) => r matches Json::Obj(ps) && ps@.len() == 3 && enc_header(
                ps@,
                if x.ignore_case {
                    "in-"@
                } else {
                    "in"@
                },
                x.path,
            ) && ps@[2].0@ == "value"@ && (ps@[2].1 matches Json::Arr(items) && items@.len()
                == x.value@.len() && (forall|i: int|
                0 <= i < items@.len() ==> jeq(#[trigger] items@[i], x.value@[i]))),
            FirstOrder::Test(x) => r matches Json::Obj(ps) && ps@.len() == 3 && enc_header(
                ps@,
                if x.ignore_case {
                    "test-"@
                } else {
                    "test"@
                },
                x.path,
            ) && ps@[2].0@ == "value"@ && jeq(ps@[2].1, x.value),
            FirstOrder::Matches(x) => r matches Json::Obj(ps) && ps@.len() == 3 && enc_header(
                ps@,
                if x.ignore_case {
                    "matches-"@
                } else {
                    "matches"@
                },
                x.path,
            ) && ps@[2].0@ == "value"@ && (ps@[2].1 matches Json::Str(s) && s@ == x.value@),
            FirstOrder::Less(x) => r matches Json::Obj(ps) && ps@.len() == 3 && enc_header(
                ps@,
                "less"@,
                x.path,
            ) && ps@[2].0@ == "value"@ && (ps@[2].1 matches Json::Num(n) && n == x.value),
            FirstOrder::More(x) => r matches Json::Obj(ps) && ps@.len() == 3 && enc_header(
                ps@,
                "more"@,
                x.path,
            ) && ps@[2].0@ == "value"@ && (ps@[2].1 matches Json::Num(n) && n == x.value),
        },
        Predicate::SecondOrder(s) => match s {
            SecondOrder::And(x) => r matches Json::Obj(ps) && ps@.len() == 3 && enc_header(
                ps@,
                "and"@,
                x.path,
            ) && ps@[2].0@ == "apply"@ && (ps@[2].1 matches Json::Arr(items) && items@.len()
                == x.apply@.len() && (forall|i: int|
                0 <= i < items@.len() ==> encodes_to(x.apply@[i], #[trigger] items@[i]))),
            SecondOrder::Or(x) => r matches Json::Obj(ps) && ps@.len() == 3 && enc_header(
                ps@,
                "or"@,
                x.path,
            ) && ps@[2].0@ == "apply"@ && (ps@[2].1 matches Json::Arr(items) && items@.len()
                == x.apply@.len() && (forall|i: int|
                0 <= i < items@.len() ==> encodes_to(x.apply@[i], #[trigger] items@[i]))),
            SecondOrder::Not(x) => r matches Json::Obj(ps) && ps@.len() == 3 && enc_header(
                ps@,
                "not"@,
                x.path,
            ) && ps@[2].0@ == "apply"@ && (ps@[2].1 matches Json::Arr(items) && items@.len()
                == x.apply@.len() && (forall|i: int|
                0 <= i < items@.len() ==> encodes_to(x.apply@[i], #[trigger] items@[i]))),
        },
    }
}

/// Render an optional path as its wire member: null or the pointer
/// string.
fn path_json(p: &Option<JSONPath>) -> (r: Json)
    ensures
        path_field_rel(r, *p),
{
    match p {
        None => Json::Null,
        Some(q) => Json::Str(q.serialize()),
    }
}

/// The `op` and `path` members every encoded predicate starts with.
fn enc_header_vec(op_name: &str, path: &Option<JSONPath>) -> (r: Vec<(String, Json)>)
    ensures
        r@.len() == 2,
        enc_header(r@, op_name@, *path),
{
    let mut ps: Vec<(String, Json)> = Vec::new();
    ps.push((String::from_str("op"), Json::Str(op_name.to_owned())));
    ps.push((String::from_str("path"), path_json(path)));
    ps
}

/// Borrow the member of `v` named `name`, if there is one.
fn get_field<'a>(v: &'a Json, name: &str) -> (r: Option<&'a Json>)
    ensures
        match r {
            Some(x) => field_of(*v, name@) == Option::Some(*x),
            None => field_of(*v, name@) is None,
        },
{
    match v {
        Json::Obj(pairs) => {
            let mut j: usize = 0;
            let mut found = false;
            while j < pairs.len() && !found
                invariant
                    j <= pairs.len(),
                    forall|j0: int| 0 <= j0 < j ==> (#[trigger] pairs@[j0]).0@ != name@,
                    found ==> j < pairs.len() && pairs@[j as int].0@ == name@,
                decreases pairs.len() - j + if found {
                    0int
                } else {
                    1int
                },
            {
                if str_eq(pairs[j].0.as_str(), name) {
                    found = true;
                } else {
                    j = j + 1;
                }
            }
            if found {
                proof {
                    lemma_obj_lookup_at(pairs@, name@, j as int);
                }
                Some(&pairs[j].1)
            } else {
                proof {
                    lemma_obj_lookup_missing(pairs@, name@);
                }
                None
            }
        },
        _ => None,
    }
}

/// Decode the `path` member.
fn decode_path(v: &Json) -> (r: Result<Option<JSONPath>, DecodeError>)
    ensures
        match r {
            Ok(p) => spec_decode_path(*v) == Ok::<Option<Seq<Seq<char>>>, DecodeError>(
                p.deep_view(),
            ),
            Err(e) => spec_decode_path(*v) == Err::<Option<Seq<Seq<char>>>, DecodeError>(e),
        },
{
    match get_field(v, "path") {
        None => Ok(None),
        Some(pv) => match pv {
            Json::Null => Ok(None),
            Json::Str(s) => match JSONPath::new(s.as_str()) {
                Ok(p) => Ok(Some(p)),
                Err(e) => Err(DecodeError::InvalidPath(e)),
            },
            _ => Err(DecodeError::PathNotAString),
        },
    }
}

/// An equivalent copy of each element.
fn dup_items(items: &Vec<Json>) -> (r: Vec<Json>)
    ensures
        r@.len() == items@.len(),
        forall|i: int| 0 <= i < items@.len() ==> jeq(#[trigger] r@[i], items@[i]),
{
    let mut out: Vec<Json> = Vec::new();
    let mut i: usize = 0;
    while i < items.len()
        invariant
            i <= items@.len(),
            out@.len() == i,
            forall|j: int| 0 <= j < i ==> jeq(#[trigger] out@[j], items@[j]),
        decreases items@.len() - i,
    {
        out.push(items[i].duplicate());
        i = i + 1;
    }
    out
}

/// Decode every element of a combinator's `apply` array.
fn decode_children(items: &Vec<Json>) -> (r: Result<Vec<Predicate>, DecodeError>)
    ensures
        match r {
            Ok(kids) => children_err(items@) is None && kids@.len() == items@.len() && (forall|
                i: int,
            |
                0 <= i < items@.len() ==> decoded_matches(#[trigger] items@[i], kids@[i])),
            Err(e) => children_err(items@) == Option::Some(e),
        },
    decreases *items, 1int,
{
    let mut kids: Vec<Predicate> = Vec::new();
    let mut i: usize = 0;
    proof {
        assert(items@.skip(0) =~= items@);
    }
    while i < items.len()
        invariant
            i <= items@.len(),
            kids@.len() == i,
            children_err(items@) == children_err(items@.skip(i as int)),
            forall|j: int| 0 <= j < i ==> decoded_matches(#[trigger] items@[j], kids@[j]),
        decreases items@.len() - i,
    {
        proof {
            let tl = items@.skip(i as int);
            assert(tl[0] == items@[i as int]);
            assert(tl.drop_first() =~= items@.skip(i + 1));
            assert(decreases_to!(*items => items@));
            assert(decreases_to!(items@ => items@[i as int]));
        }
        match Predicate::from_json(&items[i]) {
            Ok(p) => {
                kids.push(p);
            },
            Err(e) => {
                return Err(e);
            },
        }
        i = i + 1;
    }
    proof {
        assert(items@.skip(items@.len() as int) =~= Seq::<Json>::empty());
    }
    Ok(kids)
}

impl Predicate {
    /// Decode a predicate from its wire object form.
    ///
    /// The `op` member is read first and dispatches to exactly one
    /// variant; the result is a predicate whose fields are equivalent
    /// copies of the wire members, and an error names the first thing
    /// wrong with the object.
    pub fn from_json(v: &Json) -> (r: Result<Predicate, DecodeError>)
        ensures
            match r {
                Ok(p) => spec_decode_err(*v) is None && decoded_matches(*v, p),
                Err(e) => spec_decode_err(*v) == Option::Some(e),
            },
        decreases *v, 0int,
    {
        let pairs_exist = match v {
            Json::Obj(_) => true,
            _ => false,
        };
        if !pairs_exist {
            return Err(DecodeError::NotAnObject);
        }
        let op: &String = match get_field(v, "op") {
            None => {
                return Err(DecodeError::MissingOp);
            },
            Some(opv) => match opv {
                Json::Str(s) => s,
                _ => {
                    return Err(DecodeError::OpNotAString);
                },
            },
        };
        let tag = op.as_str();
        let path: Option<JSONPath> = match decode_path(v) {
            Ok(p) => p,
            Err(e) => {
                return Err(e);
            },
        };
        if str_eq(tag, "and") || str_eq(tag, "or") || str_eq(tag, "not") {
            let items: &Vec<Json> = match get_field(v, "apply") {
                None => {
                    return Err(DecodeError::MissingApply);
                },
                Some(av) => match av {
                    Json::Arr(items) => {
                        proof {
                            assert(decreases_to!(*v => v->Obj_0));
                            assert(decreases_to!(v->Obj_0 => v->Obj_0@));
                            lemma_obj_lookup_decreases(v->Obj_0@, "apply"@);
                            assert(decreases_to!(*av => av->Arr_0));
                        }
                        items
                    },
                    _ => {
                        return Err(DecodeError::ApplyNotAnArray);
                    },
                },
            };
            let kids = match decode_children(items) {
                Ok(k) => k,
                Err(e) => {
                    return Err(e);
                },
            };
            if str_eq(tag, "and") {
                Ok(Predicate::SecondOrder(SecondOrder::And(And { path, apply: kids })))
            } else if str_eq(tag, "or") {
                Ok(Predicate::SecondOrder(SecondOrder::Or(Or { path, apply: kids })))
            } else {
                Ok(Predicate::SecondOrder(SecondOrder::Not(Not { path, apply: kids })))
            }
        } else if str_eq(tag, "defined") {
            Ok(Predicate::FirstOrder(FirstOrder::Defined(Defined { path })))
        } else if str_eq(tag, "undefined") {
            Ok(Predicate::FirstOrder(FirstOrder::Undefined(Undefined { path })))
        } else if str_eq(tag, "contains") || str_eq(tag, "contains-") || str_eq(tag, "starts")
            || str_eq(tag, "starts-") || str_eq(tag, "ends") || str_eq(tag, "ends-") || str_eq(
            tag,
            "test",
        ) || str_eq(tag, "test-") || str_eq(tag, "type") || str_eq(tag, "in") || str_eq(tag, "in-")
            || str_eq(tag, "matches") || str_eq(tag, "matches-") || str_eq(tag, "less") || str_eq(
            tag,
            "more",
        ) {
            let w: &Json = match get_field(v, "value") {
                None => {
                    return Err(DecodeError::MissingValue);
                },
                Some(w) => w,
            };
            if str_eq(tag, "type") {
                match w {
                    Json::Str(s) => Ok(
                        Predicate::FirstOrder(
                            FirstOrder::Type(Type { path, value: s.clone() }),
                        ),
                    ),
                    _ => Err(DecodeError::IncorrectValueType),
                }
            } else if str_eq(tag, "in") || str_eq(tag, "in-") {
                match w {
                    Json::Arr(items) => Ok(
                        Predicate::FirstOrder(
                            FirstOrder::In(
                                In {
                                    path,
                                    ignore_case: str_eq(tag, "in-"),
                                    value: dup_items(items),
                                },
                            ),
                        ),
                    ),
                    _ => Err(DecodeError::IncorrectValueType),
                }
            } else if str_eq(tag, "matches") || str_eq(tag, "matches-") {
                match w {
                    Json::Str(s) => match Regex::new(s.as_str()) {
                        Some(re) => Ok(
                            Predicate::FirstOrder(
                                FirstOrder::Matches(
                                    Matches {
                                        path,
                                        ignore_case: str_eq(tag, "matches-"),
                                        value: re,
                                    },
                                ),
                            ),
                        ),
                        None => Err(DecodeError::InvalidPattern),
                    },
                    _ => Err(DecodeError::IncorrectValueType),
                }
            } else if str_eq(tag, "less") || str_eq(tag, "more") {
                match w {
                    Json::Num(n) => {
                        if str_eq(tag, "less") {
                            Ok(Predicate::FirstOrder(FirstOrder::Less(Less { path, value: *n })))
                        } else {
                            Ok(Predicate::FirstOrder(FirstOrder::More(More { path, value: *n })))
                        }
                    },
                    _ => Err(DecodeError::IncorrectValueType),
                }
            } else {
                let copy = w.duplicate();
                if str_eq(tag, "contains") || str_eq(tag, "contains-") {
                    Ok(
                        Predicate::FirstOrder(
                            FirstOrder::Contains(
                                Contains {
                                    path,
                                    ignore_case: str_eq(tag, "contains-"),
                                    value: copy,
                                },
                            ),
                        ),
                    )
                } else if str_eq(tag, "starts") || str_eq(tag, "starts-") {
                    Ok(
                        Predicate::FirstOrder(
                            FirstOrder::Start(
                                Start { path, ignore_case: str_eq(tag, "starts-"), value: copy },
                            ),
                        ),
                    )
                } else if str_eq(tag, "ends") || str_eq(tag, "ends-") {
                    Ok(
                        Predicate::FirstOrder(
                            FirstOrder::End(
                                End { path, ignore_case: str_eq(tag, "ends-"), value: copy },
                            ),
                        ),
                    )
                } else {
                    Ok(
                        Predicate::FirstOrder(
                            FirstOrder::Test(
                                Test { path, ignore_case: str_eq(tag, "test-"), value: copy },
                            ),
                        ),
                    )
                }
            }
        } else {
            Err(DecodeError::UnknownOperation)
        }
    }

    /// Encode this predicate as its wire object form: `op`, `path`
    /// and, where the variant carries one, `value` or `apply`.
    pub fn to_json(&self) -> (r: Json)
        ensures
            encodes_to(*self, r),
        decreases *self, 1int,
    {
        match self {
            Predicate::FirstOrder(f) => match f {
                FirstOrder::Contains(x) => {
                    let mut ps = enc_header_vec(
                        if x.ignore_case {
                            "contains-"
                        } else {
                            "contains"
                        },
                        &x.path,
                    );
                    ps.push((String::from_str("value"), x.value.duplicate()));
                    Json::Obj(ps)
                },
                FirstOrder::Defined(x) => {
                    let ps = enc_header_vec("defined", &x.path);
                    Json::Obj(ps)
                },
                FirstOrder::Undefined(x) => {
                    let ps = enc_header_vec("undefined", &x.path);
                    Json::Obj(ps)
                },
                FirstOrder::Start(x) => {
                    let mut ps = enc_header_vec(
                        if x.ignore_case {
                            "starts-"
                        } else {
                            "starts"
                        },
                        &x.path,
                    );
                    ps.push((String::from_str("value"), x.value.duplicate()));
                    Json::Obj(ps)
                },
                FirstOrder::End(x) => {
                    let mut ps = enc_header_vec(
                        if x.ignore_case {
                            "ends-"
                        } else {
                            "ends"
                        },
                        &x.path,
                    );
                    ps.push((String::from_str("value"), x.value.duplicate()));
                    Json::Obj(ps)
                },
                FirstOrder::Type(x) => {
                    let mut ps = enc_header_vec("type", &x.path);
                    ps.push((String::from_str("value"), Json::Str(x.value.clone())));
                    Json::Obj(ps)
                },
                FirstOrder::In(x) => {
                    let mut ps = enc_header_vec(
                        if x.ignore_case {
                            "in-"
                        } else {
                            "in"
                        },
                        &x.path,
                    );
                    ps.push((String::from_str("value"), Json::Arr(dup_items(&x.value))));
                    Json::Obj(ps)
                },
                FirstOrder::Test(x) => {
                    let mut ps = enc_header_vec(
                        if x.ignore_case {
                            "test-"
                        } else {
                            "test"
                        },
                        &x.path,
                    );
                    ps.push((String::from_str("value"), x.value.duplicate()));
                    Json::Obj(ps)
                },
                FirstOrder::Matches(x) => {
                    let mut ps = enc_header_vec(
                        if x.ignore_case {
                            "matches-"
                        } else {
                            "matches"
                        },
                        &x.path,
                    );
                    ps.push((String::from_str("value"), Json::Str(x.value.as_str().to_owned())));
                    Json::Obj(ps)
                },
                FirstOrder::Less(x) => {
                    let mut ps = enc_header_vec("less", &x.path);
                    ps.push((String::from_str("value"), Json::Num(x.value)));
                    Json::Obj(ps)
                },
                FirstOrder::More(x) => {
                    let mut ps = enc_header_vec("more", &x.path);
                    ps.push((String::from_str("value"), Json::Num(x.value)));
                    Json::Obj(ps)
                },
            },
            Predicate::SecondOrder(s) => match s {
                SecondOrder::And(x) => {
                    proof {
                        assert(decreases_to!(*self => self->SecondOrder_0));
                        assert(decreases_to!(*s => s->And_0));
                        assert(decreases_to!(*x => x.apply));
                    }
                    let items = encode_children(self, &x.apply);
                    let mut ps = enc_header_vec("and", &x.path);
                    ps.push((String::from_str("apply"), Json::Arr(items)));
                    Json::Obj(ps)
                },
                SecondOrder::Or(x) => {
                    proof {
                        assert(decreases_to!(*self => self->SecondOrder_0));
                        assert(decreases_to!(*s => s->Or_0));
                        assert(decreases_to!(*x => x.apply));
                    }
                    let items = encode_children(self, &x.apply);
                    let mut ps = enc_header_vec("or", &x.path);
                    ps.push((String::from_str("apply"), Json::Arr(items)));
                    Json::Obj(ps)
                },
                SecondOrder::Not(x) => {
                    proof {
                        assert(decreases_to!(*self => self->SecondOrder_0));
                        assert(decreases_to!(*s => s->Not_0));
                        assert(decreases_to!(*x => x.apply));
                    }
                    let items = encode_children(self, &x.apply);
                    let mut ps = enc_header_vec("not", &x.path);
                    ps.push((String::from_str("apply"), Json::Arr(items)));
                    Json::Obj(ps)
                },
            },
        }
    }
}

/// Encode each child of a combinator, in order.
fn encode_children(whole: &Predicate, children: &Vec<Predicate>) -> (r: Vec<Json>)
    requires
        decreases_to!(*whole => *children),
    ensures
        r@.len() == children@.len(),
        forall|i: int| 0 <= i < children@.len() ==> encodes_to(children@[i], #[trigger] r@[i]),
    decreases *whole, 0int,
{
    let mut out: Vec<Json> = Vec::new();
    let mut i: usize = 0;
    while i < children.len()
        invariant
            decreases_to!(*whole => *children),
            i <= children@.len(),
            out@.len() == i,
            forall|j: int| 0 <= j < i ==> encodes_to(children@[j], #[trigger] out@[j]),
        decreases children@.len() - i,
    {
        proof {
            assert(decreases_to!(*children => children@));
            assert(decreases_to!(children@ => children@[i as int]));
        }
        out.push(children[i].to_json());
        i = i + 1;
    }
    out
}

} // verus!
