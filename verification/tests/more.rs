#![allow(unused_imports)]
#![allow(dead_code)]

use json_predicate::Json;
use json_predicate::JsonNum;
use json_predicate::Predicate;
use json_predicate::PredicateImpl;
use json_predicate::FirstOrder;
use json_predicate::SecondOrder;
use json_predicate::context::PredicateContext;
use json_predicate::json_path::JSONPath;
use json_predicate::predicate::first_order::more::More;

fn s(x: &str) -> Json {
    Json::Str(x.to_string())
}

fn n(i: i64) -> Json {
    Json::Num(JsonNum::from_i64(i))
}

fn b(v: bool) -> Json {
    Json::Bool(v)
}

fn arr(items: Vec<Json>) -> Json {
    Json::Arr(items)
}

fn obj(pairs: Vec<(&str, Json)>) -> Json {
    Json::Obj(pairs.into_iter().map(|(k, v)| (k.to_string(), v)).collect())
}

fn path(p: &str) -> Option<JSONPath> {
    Some(JSONPath::new(p).unwrap())
}

fn entry() -> Json {
    obj(vec![
        ("arrayA", arr(vec![s("a"), s("b"), s("c")])),
        ("arrayB", arr(vec![s("a"), obj(vec![("foo", s("b"))]), n(3)])),
        ("arrayC", arr(vec![s("a"), obj(vec![("foo", obj(vec![("bar", s("b"))]))]), n(3)])),
        ("arrayN", arr(vec![s("a"), obj(vec![("foo", obj(vec![("num1", n(1))]))]), n(3)])),
        ("null1", Json::Null),
        ("num1", n(1)),
        (
            "objA",
            obj(vec![
                ("absoluteIri", s("https://example.com/library")),
                ("boolF", b(false)),
                ("boolT", b(true)),
                ("boolTS", s("true")),
                ("date", s("2010-10-10")),
                ("dateTime", s("2010-10-10T10:10:10Z")),
                ("dateTimeFuture", s("2080-10-10T10:10:10Z")),
                ("dateTimeOffset", s("2010-10-10T10:10:10+05:30")),
                ("iri", s("https://example.com/library#section")),
                ("lang", s("en-US")),
                ("langRange", s("CH-*")),
                ("langRange2", s("*")),
                ("langRange3", s("CH-de")),
                ("null2", Json::Null),
                ("num2", n(2)),
                (
                    "objB",
                    obj(vec![
                        ("null3", Json::Null),
                        ("num3", n(3)),
                        ("stringM", s("M")),
                        ("stringMNO", s("MNO")),
                        ("stringMnO_456", s("MnO_456")),
                    ]),
                ),
                ("stringX", s("X")),
                ("stringXYZ", s("XYZ")),
                ("stringXyZ_789", s("XyZ_789")),
                ("timeOffset", s("10:10:10+05:30")),
                ("timeZ", s("10:10:10Z")),
            ]),
        ),
        (
            "objX",
            obj(vec![
                ("num1", n(1)),
                ("objY", obj(vec![("num2", n(2))])),
                ("stringAbc", s("Abc")),
            ]),
        ),
        ("stringA", s("A")),
        ("stringABC", s("ABC")),
        ("stringAbC_123", s("AbC_123")),
    ])
}

fn more_pred(p: &str, value: i64) -> Predicate {
    Predicate::FirstOrder(FirstOrder::More(More {
        path: path(p),
        value: JsonNum::from_i64(value),
    }))
}

#[test]
fn more_snapshot_test() {
    let predicate = more_pred("/a/b", 12);
    let expect = obj(vec![("op", s("more")), ("path", s("/a/b")), ("value", n(12))]);
    assert_eq!(predicate.to_json(), expect);
}

#[test]
fn more_deser_test() {
    let wire = obj(vec![("op", s("more")), ("path", s("/a/b")), ("value", n(12))]);
    let deser = Predicate::from_json(&wire).unwrap();
    assert_eq!(more_pred("/a/b", 12), deser);
}

#[test]
fn more_test_base_predicate_snapshot() {
    let predicate = more_pred("/stringABC", 12);
    let expect = obj(vec![
        ("op", s("more")),
        ("path", s("/stringABC")),
        ("value", n(12)),
    ]);
    assert_eq!(predicate.to_json(), expect);
}

#[test]
fn returns_err_for_non_numeric_comparaisons() {
    let wire = obj(vec![("op", s("more")), ("path", s("/stringABC")), ("value", s("XYZ"))]);
    assert!(Predicate::from_json(&wire).is_err());

    let wire = obj(vec![
        ("op", s("more")),
        ("path", s("/objA/stringXYZ")),
        ("value", s("ABC")),
    ]);
    assert!(Predicate::from_json(&wire).is_err());

    let wire = obj(vec![
        ("op", s("more")),
        ("path", s("/objA/stringXYZ")),
        ("value", arr(vec![s("a"), s("b")])),
    ]);
    assert!(Predicate::from_json(&wire).is_err());

    let wire = obj(vec![
        ("op", s("more")),
        ("path", s("/objA/stringXYZ")),
        ("value", obj(vec![("a", s("foo")), ("b", s("bar"))])),
    ]);
    assert!(Predicate::from_json(&wire).is_err());
}

#[test]
fn returns_false_for_greater_predicate_value() {
    let predicate = more_pred("/objA/objB/num3", 4);
    let result = predicate.evaluate(&entry(), &PredicateContext::default());
    assert!(result.is_ok());
    assert!(!result.unwrap());
}

#[test]
fn returns_true_for_lesser_predicate_value() {
    let predicate = more_pred("/objA/objB/num3", 2);
    let result = predicate.evaluate(&entry(), &PredicateContext::default());
    assert!(result.is_ok());
    assert!(result.unwrap());
}

#[test]
fn returns_false_for_equal_numeric_value() {
    let predicate = more_pred("/objA/objB/num3", 3);
    let result = predicate.evaluate(&entry(), &PredicateContext::default());
    assert!(result.is_ok());
    assert!(!result.unwrap());
}

#[test]
fn more_returns_err_for_undefined_value() {
    let predicate = more_pred("/objZZZ/objZZZZZZZZ", 3);
    let result = predicate.evaluate(&entry(), &PredicateContext::default());
    assert!(result.is_err());
}
