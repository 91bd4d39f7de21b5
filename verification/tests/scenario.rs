#![allow(unused_imports)]
#![allow(dead_code)]

use json_predicate::Json;
use json_predicate::JsonNum;
use json_predicate::Predicate;
use json_predicate::PredicateImpl;
use json_predicate::FirstOrder;
use json_predicate::SecondOrder;
use json_predicate::context::PredicateContext;
use json_predicate::json_path::JSONPath;
use json_predicate::predicate::first_order::defined::Defined;
use json_predicate::predicate::first_order::undefined::Undefined;
use json_predicate::predicate::codec::DecodeError;

fn s(x: &str) -> Json {
    Json::Str(x.to_string())
}

fn n(i: i64) -> Json {
    Json::Num(JsonNum::from_i64(i))
}

fn b(v: bool) -> Json {
    Json::Bool(v)
}

fn arr(items: Vec<Json>) -> Json {
    Json::Arr(items)
}

fn obj(pairs: Vec<(&str, Json)>) -> Json {
    Json::Obj(pairs.into_iter().map(|(k, v)| (k.to_string(), v)).collect())
}

fn path(p: &str) -> Option<JSONPath> {
    Some(JSONPath::new(p).unwrap())
}

fn entry() -> Json {
    obj(vec![
        ("arrayA", arr(vec![s("a"), s("b"), s("c")])),
        ("arrayB", arr(vec![s("a"), obj(vec![("foo", s("b"))]), n(3)])),
        ("arrayC", arr(vec![s("a"), obj(vec![("foo", obj(vec![("bar", s("b"))]))]), n(3)])),
        ("arrayN", arr(vec![s("a"), obj(vec![("foo", obj(vec![("num1", n(1))]))]), n(3)])),
        ("null1", Json::Null),
        ("num1", n(1)),
        (
            "objA",
            obj(vec![
                ("absoluteIri", s("https://example.com/library")),
                ("boolF", b(false)),
                ("boolT", b(true)),
                ("boolTS", s("true")),
                ("date", s("2010-10-10")),
                ("dateTime", s("2010-10-10T10:10:10Z")),
                ("dateTimeFuture", s("2080-10-10T10:10:10Z")),
                ("dateTimeOffset", s("2010-10-10T10:10:10+05:30")),
                ("iri", s("https://example.com/library#section")),
                ("lang", s("en-US")),
                ("langRange", s("CH-*")),
                ("langRange2", s("*")),
                ("langRange3", s("CH-de")),
                ("null2", Json::Null),
                ("num2", n(2)),
                (
                    "objB",
                    obj(vec![
                        ("null3", Json::Null),
                        ("num3", n(3)),
                        ("stringM", s("M")),
                        ("stringMNO", s("MNO")),
                        ("stringMnO_456", s("MnO_456")),
                    ]),
                ),
                ("stringX", s("X")),
                ("stringXYZ", s("XYZ")),
                ("stringXyZ_789", s("XyZ_789")),
                ("timeOffset", s("10:10:10+05:30")),
                ("timeZ", s("10:10:10Z")),
            ]),
        ),
        (
            "objX",
            obj(vec![
                ("num1", n(1)),
                ("objY", obj(vec![("num2", n(2))])),
                ("stringAbc", s("Abc")),
            ]),
        ),
        ("stringA", s("A")),
        ("stringABC", s("ABC")),
        ("stringAbC_123", s("AbC_123")),
    ])
}

#[test]
fn and_over_scoped_string_checks() {
    let doc = obj(vec![("a", obj(vec![("b", s("ABC!XYZ"))]))]);
    let wire = obj(vec![
        ("op", s("and")),
        ("path", s("/a/b")),
        (
            "apply",
            arr(vec![
                obj(vec![("op", s("type")), ("value", s("string"))]),
                obj(vec![("op", s("contains")), ("value", s("ABC"))]),
            ]),
        ),
    ]);
    let predicate = Predicate::from_json(&wire).unwrap();
    let result = predicate.evaluate(&doc, &PredicateContext::default());
    assert_eq!(result.unwrap(), true);
}

#[test]
fn defined_fails_where_undefined_succeeds() {
    let doc = obj(vec![("x", n(1))]);
    let defined = Predicate::FirstOrder(FirstOrder::Defined(Defined { path: path("/y") }));
    let result = defined.evaluate(&doc, &PredicateContext::default());
    assert!(result.is_err());
    assert_eq!(
        result.unwrap_err().message(),
        "The pointer pointed to a nonexistent key, pointed key: y"
    );
    let undefined = Predicate::FirstOrder(FirstOrder::Undefined(Undefined { path: path("/y") }));
    let result = undefined.evaluate(&doc, &PredicateContext::default());
    assert_eq!(result.unwrap(), true);
}

#[test]
fn less_and_more_bracket_a_number() {
    let doc = obj(vec![("x", n(1))]);
    let less = Predicate::from_json(&obj(vec![
        ("op", s("less")),
        ("path", s("/x")),
        ("value", n(2)),
    ]))
    .unwrap();
    assert_eq!(less.evaluate(&doc, &PredicateContext::default()).unwrap(), true);
    let more = Predicate::from_json(&obj(vec![
        ("op", s("more")),
        ("path", s("/x")),
        ("value", n(0)),
    ]))
    .unwrap();
    assert_eq!(more.evaluate(&doc, &PredicateContext::default()).unwrap(), true);
}

#[test]
fn case_folded_pattern_matches_upper_case_text() {
    let doc = obj(vec![("s", s("ABC"))]);
    let wire = obj(vec![
        ("op", s("matches-")),
        ("path", s("/s")),
        ("value", s("(?i)[a-z]+")),
    ]);
    let predicate = Predicate::from_json(&wire).unwrap();
    assert_eq!(predicate.evaluate(&doc, &PredicateContext::default()).unwrap(), true);
}

#[test]
fn or_absorbs_a_failing_branch() {
    let doc = obj(vec![("present", n(1))]);
    let wire = obj(vec![
        ("op", s("or")),
        (
            "apply",
            arr(vec![
                obj(vec![("op", s("defined")), ("path", s("/missing"))]),
                obj(vec![("op", s("defined")), ("path", s("/present"))]),
            ]),
        ),
    ]);
    let predicate = Predicate::from_json(&wire).unwrap();
    let result = predicate.evaluate(&doc, &PredicateContext::default());
    assert_eq!(result.unwrap(), true);
}

#[test]
fn decode_reports_each_failure() {
    assert_eq!(Predicate::from_json(&n(1)), Err(DecodeError::NotAnObject));
    assert_eq!(
        Predicate::from_json(&obj(vec![("path", s("/x"))])),
        Err(DecodeError::MissingOp)
    );
    assert_eq!(
        Predicate::from_json(&obj(vec![("op", n(3))])),
        Err(DecodeError::OpNotAString)
    );
    assert_eq!(
        Predicate::from_json(&obj(vec![("op", s("frobnicate"))])),
        Err(DecodeError::UnknownOperation)
    );
    assert_eq!(
        Predicate::from_json(&obj(vec![("op", s("defined")), ("path", n(1))])),
        Err(DecodeError::PathNotAString)
    );
    assert_eq!(
        Predicate::from_json(&obj(vec![("op", s("defined")), ("path", s("oops"))])),
        Err(DecodeError::InvalidPath(
            json_predicate::json_path::JSONPathError::NoLeadingSlash
        ))
    );
    assert_eq!(
        Predicate::from_json(&obj(vec![("op", s("test"))])),
        Err(DecodeError::MissingValue)
    );
    assert_eq!(
        Predicate::from_json(&obj(vec![("op", s("type")), ("value", n(1))])),
        Err(DecodeError::IncorrectValueType)
    );
    assert_eq!(
        Predicate::from_json(&obj(vec![("op", s("and"))])),
        Err(DecodeError::MissingApply)
    );
    assert_eq!(
        Predicate::from_json(&obj(vec![("op", s("and")), ("apply", n(1))])),
        Err(DecodeError::ApplyNotAnArray)
    );
    assert_eq!(
        Predicate::from_json(&obj(vec![("op", s("matches")), ("value", s("(")) ])),
        Err(DecodeError::InvalidPattern)
    );
}

#[test]
fn decode_defaults_path_to_the_context_root() {
    let doc = s("hello");
    let wire = obj(vec![("op", s("contains")), ("value", s("ell"))]);
    let predicate = Predicate::from_json(&wire).unwrap();
    assert_eq!(predicate.evaluate(&doc, &PredicateContext::default()).unwrap(), true);
}

#[test]
fn encode_then_decode_preserves_a_tree() {
    let wire = obj(vec![
        ("op", s("and")),
        ("path", s("/a")),
        (
            "apply",
            arr(vec![
                obj(vec![("op", s("starts-")), ("path", s("/b")), ("value", s("X"))]),
                obj(vec![("op", s("in")), ("path", Json::Null), ("value", arr(vec![n(1)]))]),
            ]),
        ),
    ]);
    let predicate = Predicate::from_json(&wire).unwrap();
    let encoded = predicate.to_json();
    let again = Predicate::from_json(&encoded).unwrap();
    assert_eq!(predicate, again);
}

#[test]
fn context_new_roots_every_leaf_path() {
    let ctx = PredicateContext::new("/objA".to_string()).unwrap();
    let predicate = Predicate::FirstOrder(FirstOrder::Defined(Defined { path: path("/stringX") }));
    assert_eq!(predicate.evaluate(&entry(), &ctx).unwrap(), true);
    assert!(PredicateContext::new("oops".to_string()).is_err());
}

#[test]
fn case_folded_test_compares_whole_serialized_values() {
    let doc = obj(vec![("v", obj(vec![("k", s("AbC"))]))]);
    let wire = obj(vec![
        ("op", s("test-")),
        ("path", s("/v")),
        ("value", obj(vec![("K", s("aBc"))])),
    ]);
    let predicate = Predicate::from_json(&wire).unwrap();
    assert_eq!(predicate.evaluate(&doc, &PredicateContext::default()).unwrap(), true);
}

#[test]
fn and_is_false_when_a_child_is_false() {
    let doc = obj(vec![("k", n(1))]);
    let wire = obj(vec![
        ("op", s("and")),
        (
            "apply",
            arr(vec![
                obj(vec![("op", s("contains")), ("path", s("/k")), ("value", s("x"))]),
                obj(vec![("op", s("defined")), ("path", s("/k"))]),
            ]),
        ),
    ]);
    let predicate = Predicate::from_json(&wire).unwrap();
    assert_eq!(predicate.evaluate(&doc, &PredicateContext::default()).unwrap(), false);
}

#[test]
fn or_ignores_a_false_child_but_remembers_a_failure() {
    let doc = obj(vec![("k", n(1))]);
    let false_child = || obj(vec![("op", s("contains")), ("path", s("/k")), ("value", s("x"))]);
    let failing_child = || obj(vec![("op", s("defined")), ("path", s("/missing"))]);

    let wire = obj(vec![("op", s("or")), ("apply", arr(vec![false_child()]))]);
    let predicate = Predicate::from_json(&wire).unwrap();
    assert_eq!(predicate.evaluate(&doc, &PredicateContext::default()).unwrap(), true);

    let wire = obj(vec![
        ("op", s("or")),
        ("apply", arr(vec![false_child(), failing_child()])),
    ]);
    let predicate = Predicate::from_json(&wire).unwrap();
    assert_eq!(predicate.evaluate(&doc, &PredicateContext::default()).unwrap(), false);
}

#[test]
fn not_is_false_as_soon_as_a_child_evaluates() {
    let doc = obj(vec![("k", n(1))]);
    let wire = obj(vec![
        ("op", s("not")),
        (
            "apply",
            arr(vec![obj(vec![("op", s("contains")), ("path", s("/k")), ("value", s("x"))])]),
        ),
    ]);
    let predicate = Predicate::from_json(&wire).unwrap();
    assert_eq!(predicate.evaluate(&doc, &PredicateContext::default()).unwrap(), false);
}

#[test]
fn out_of_bounds_message_carries_the_index() {
    let doc = obj(vec![("a", arr(vec![n(1), n(2)]))]);
    let wire = obj(vec![("op", s("defined")), ("path", s("/a/17"))]);
    let predicate = Predicate::from_json(&wire).unwrap();
    let result = predicate.evaluate(&doc, &PredicateContext::default());
    assert_eq!(
        result.unwrap_err().message(),
        "The pointer pointed to an out-of-bounds value in an array, pointed at 17"
    );
}

#[test]
fn trailing_dash_ops_set_the_case_folded_flag() {
    let doc = obj(vec![("k", s("HeLLo"))]);
    for op in ["contains-", "starts-", "ends-", "test-"] {
        let needle = if op == "test-" { "hello" } else { "HELLO" };
        let wire = obj(vec![("op", s(op)), ("path", s("/k")), ("value", s(needle))]);
        let predicate = Predicate::from_json(&wire).unwrap();
        let result = predicate.evaluate(&doc, &PredicateContext::default());
        assert_eq!(result.unwrap(), true, "op {}", op);
    }
    let wire = obj(vec![("op", s("in-")), ("path", s("/k")), ("value", arr(vec![s("HELLO")]))]);
    let predicate = Predicate::from_json(&wire).unwrap();
    assert_eq!(predicate.evaluate(&doc, &PredicateContext::default()).unwrap(), true);
    let wire = obj(vec![("op", s("matches-")), ("path", s("/k")), ("value", s("^hello$"))]);
    let predicate = Predicate::from_json(&wire).unwrap();
    assert_eq!(predicate.evaluate(&doc, &PredicateContext::default()).unwrap(), true);
}
