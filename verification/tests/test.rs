#![allow(unused_imports)]
#![allow(dead_code)]

use json_predicate::Json;
use json_predicate::JsonNum;
use json_predicate::Predicate;
use json_predicate::PredicateImpl;
use json_predicate::FirstOrder;
use json_predicate::SecondOrder;
use json_predicate::context::PredicateContext;
use json_predicate::json_path::JSONPath;
use json_predicate::predicate::first_order::test::Test;

fn s(x: &str) -> Json {
    Json::Str(x.to_string())
}

fn n(i: i64) -> Json {
    Json::Num(JsonNum::from_i64(i))
}

fn b(v: bool) -> Json {
    Json::Bool(v)
}

fn arr(items: Vec<Json>) -> Json {
    Json::Arr(items)
}

fn obj(pairs: Vec<(&str, Json)>) -> Json {
    Json::Obj(pairs.into_iter().map(|(k, v)| (k.to_string(), v)).collect())
}

fn path(p: &str) -> Option<JSONPath> {
    Some(JSONPath::new(p).unwrap())
}

fn entry() -> Json {
    obj(vec![
        ("arrayA", arr(vec![s("a"), s("b"), s("c")])),
        ("arrayB", arr(vec![s("a"), obj(vec![("foo", s("b"))]), n(3)])),
        ("arrayC", arr(vec![s("a"), obj(vec![("foo", obj(vec![("bar", s("b"))]))]), n(3)])),
        ("arrayN", arr(vec![s("a"), obj(vec![("foo", obj(vec![("num1", n(1))]))]), n(3)])),
        ("null1", Json::Null),
        ("num1", n(1)),
        (
            "objA",
            obj(vec![
                ("absoluteIri", s("https://example.com/library")),
                ("boolF", b(false)),
                ("boolT", b(true)),
                ("boolTS", s("true")),
                ("date", s("2010-10-10")),
                ("dateTime", s("2010-10-10T10:10:10Z")),
                ("dateTimeFuture", s("2080-10-10T10:10:10Z")),
                ("dateTimeOffset", s("2010-10-10T10:10:10+05:30")),
                ("iri", s("https://example.com/library#section")),
                ("lang", s("en-US")),
                ("langRange", s("CH-*")),
                ("langRange2", s("*")),
                ("langRange3", s("CH-de")),
                ("null2", Json::Null),
                ("num2", n(2)),
                (
                    "objB",
                    obj(vec![
                        ("null3", Json::Null),
                        ("num3", n(3)),
                        ("stringM", s("M")),
                        ("stringMNO", s("MNO")),
                        ("stringMnO_456", s("MnO_456")),
                    ]),
                ),
                ("stringX", s("X")),
                ("stringXYZ", s("XYZ")),
                ("stringXyZ_789", s("XyZ_789")),
                ("timeOffset", s("10:10:10+05:30")),
                ("timeZ", s("10:10:10Z")),
            ]),
        ),
        (
            "objX",
            obj(vec![
                ("num1", n(1)),
                ("objY", obj(vec![("num2", n(2))])),
                ("stringAbc", s("Abc")),
            ]),
        ),
        ("stringA", s("A")),
        ("stringABC", s("ABC")),
        ("stringAbC_123", s("AbC_123")),
    ])
}

fn test_pred(p: &str, value: Json, ci: bool) -> Predicate {
    Predicate::FirstOrder(FirstOrder::Test(Test {
        path: path(p),
        ignore_case: ci,
        value,
    }))
}

fn obj_x_value(abc: &str) -> Json {
    obj(vec![
        ("num1", n(1)),
        ("objY", obj(vec![("num2", n(2))])),
        ("stringAbc", s(abc)),
    ])
}

#[test]
fn test_snapshot_test() {
    let predicate = test_pred("/a/b", s("val"), false);
    let expect = obj(vec![("op", s("test")), ("path", s("/a/b")), ("value", s("val"))]);
    assert_eq!(predicate.to_json(), expect);
}

#[test]
fn test_deser_test() {
    let wire = obj(vec![("op", s("test")), ("path", s("/a/b")), ("value", s("val"))]);
    let deser = Predicate::from_json(&wire).unwrap();
    assert_eq!(test_pred("/a/b", s("val"), false), deser);
}

#[test]
fn test_test_base_predicate_snapshot() {
    let predicate = test_pred("/stringABC", s("ABC"), false);
    let expect = obj(vec![
        ("op", s("test")),
        ("path", s("/stringABC")),
        ("value", s("ABC")),
    ]);
    assert_eq!(predicate.to_json(), expect);
}

#[test]
fn returns_true_for_matching_string_value() {
    let predicate = test_pred("/stringABC", s("ABC"), false);
    let result = predicate.evaluate(&entry(), &PredicateContext::default());
    assert!(result.is_ok());
    assert!(result.unwrap());
}

#[test]
fn returns_false_for_stirng_mismatched_only_by_case_without_ignore_case() {
    let predicate = test_pred("/stringABC", s("aBc"), false);
    let result = predicate.evaluate(&entry(), &PredicateContext::default());
    assert!(result.is_ok());
    assert!(!result.unwrap());
}

#[test]
fn test_returns_true_for_string_mismatched_only_by_case_with_ignore_case() {
    let predicate = test_pred("/stringABC", s("aBc"), true);
    let result = predicate.evaluate(&entry(), &PredicateContext::default());
    assert!(result.is_ok());
    assert!(result.unwrap());
}

#[test]
fn returns_true_for_matching_shallow_object() {
    let predicate = test_pred("/objX/objY", obj(vec![("num2", n(2))]), true);
    let result = predicate.evaluate(&entry(), &PredicateContext::default());
    assert!(result.is_ok());
    assert!(result.unwrap());
}

#[test]
fn returns_true_for_matching_deep_object() {
    let predicate = test_pred("/objX", obj_x_value("Abc"), false);
    let result = predicate.evaluate(&entry(), &PredicateContext::default());
    assert!(result.is_ok());
    assert!(result.unwrap());
}

#[test]
fn returns_true_for_matching_number_value() {
    let predicate = test_pred("/objA/num2", n(2), false);
    let result = predicate.evaluate(&entry(), &PredicateContext::default());
    assert!(result.is_ok());
    assert!(result.unwrap());
}

#[test]
fn returns_true_for_matching_array() {
    let predicate = test_pred("/arrayA", arr(vec![s("a"), s("b"), s("c")]), false);
    let result = predicate.evaluate(&entry(), &PredicateContext::default());
    assert!(result.is_ok());
    assert!(result.unwrap());
}

#[test]
fn returns_false_for_superset_array() {
    let predicate = test_pred("/arrayA", arr(vec![s("a"), s("b"), s("c"), s("d")]), false);
    let result = predicate.evaluate(&entry(), &PredicateContext::default());
    assert!(result.is_ok());
    assert!(!result.unwrap());
}

#[test]
fn returns_false_for_subset_array() {
    let predicate = test_pred("/arrayA", arr(vec![s("a"), s("b")]), false);
    let result = predicate.evaluate(&entry(), &PredicateContext::default());
    assert!(result.is_ok());
    assert!(!result.unwrap());
}

#[test]
fn returns_false_for_string_disguised_as_array() {
    let predicate = test_pred("/arrayA", s("abcd"), false);
    let result = predicate.evaluate(&entry(), &PredicateContext::default());
    assert!(result.is_ok());
    assert!(!result.unwrap());
}

#[test]
fn returns_false_for_array_disguised_as_a_string() {
    let predicate = test_pred("/stringABC", arr(vec![s("A"), s("B"), s("C")]), false);
    let result = predicate.evaluate(&entry(), &PredicateContext::default());
    assert!(result.is_ok());
    assert!(!result.unwrap());
}

#[test]
fn returns_true_for_string_match_inside_object_honoring_ignore_case() {
    let predicate = test_pred("/objX", obj_x_value("aBc"), true);
    let result = predicate.evaluate(&entry(), &PredicateContext::default());
    assert!(result.is_ok());
    assert!(result.unwrap());
}

#[test]
fn test_returns_false_for_string_inside_object_mismatched_only_by_case_without_ignore_case() {
    let predicate = test_pred("/objX", obj_x_value("aBc"), false);
    let result = predicate.evaluate(&entry(), &PredicateContext::default());
    assert!(result.is_ok());
    assert!(!result.unwrap());
}

#[test]
fn test_returns_err_for_undefined_value() {
    let predicate = test_pred("/objZZZ/objZZZZZZZZ", s("dzodeiojdoizej"), false);
    let result = predicate.evaluate(&entry(), &PredicateContext::default());
    assert!(result.is_err());
    assert_eq!(
        result.unwrap_err().message(),
        "The pointer pointed to a nonexistent key, pointed key: objZZZ"
    );
}

#[test]
fn test_returns_err_for_undefined_value_with_ignore_case() {
    let predicate = test_pred("/objZZZ/objZZZZZZZZ", s("dzodeiojdoizej"), true);
    let result = predicate.evaluate(&entry(), &PredicateContext::default());
    assert!(result.is_err());
    assert_eq!(
        result.unwrap_err().message(),
        "The pointer pointed to a nonexistent key, pointed key: objZZZ"
    );
}
