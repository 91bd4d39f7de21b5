#![allow(unused_imports)]
#![allow(dead_code)]

use json_predicate::Json;
use json_predicate::JsonNum;
use json_predicate::Predicate;
use json_predicate::PredicateImpl;
use json_predicate::FirstOrder;
use json_predicate::SecondOrder;
use json_predicate::context::PredicateContext;
use json_predicate::json_path::JSONPath;
use json_predicate::json_path::JSONPathError;
use json_predicate::json_value::resolve;
use json_predicate::json_value::IndexError;
use json_predicate::json_text::to_text;

fn s(x: &str) -> Json {
    Json::Str(x.to_string())
}

fn n(i: i64) -> Json {
    Json::Num(JsonNum::from_i64(i))
}

fn b(v: bool) -> Json {
    Json::Bool(v)
}

fn arr(items: Vec<Json>) -> Json {
    Json::Arr(items)
}

fn obj(pairs: Vec<(&str, Json)>) -> Json {
    Json::Obj(pairs.into_iter().map(|(k, v)| (k.to_string(), v)).collect())
}

fn path(p: &str) -> Option<JSONPath> {
    Some(JSONPath::new(p).unwrap())
}

fn entry() -> Json {
    obj(vec![
        ("arrayA", arr(vec![s("a"), s("b"), s("c")])),
        ("arrayB", arr(vec![s("a"), obj(vec![("foo", s("b"))]), n(3)])),
        ("arrayC", arr(vec![s("a"), obj(vec![("foo", obj(vec![("bar", s("b"))]))]), n(3)])),
        ("arrayN", arr(vec![s("a"), obj(vec![("foo", obj(vec![("num1", n(1))]))]), n(3)])),
        ("null1", Json::Null),
        ("num1", n(1)),
        (
            "objA",
            obj(vec![
                ("absoluteIri", s("https://example.com/library")),
                ("boolF", b(false)),
                ("boolT", b(true)),
                ("boolTS", s("true")),
                ("date", s("2010-10-10")),
                ("dateTime", s("2010-10-10T10:10:10Z")),
                ("dateTimeFuture", s("2080-10-10T10:10:10Z")),
                ("dateTimeOffset", s("2010-10-10T10:10:10+05:30")),
                ("iri", s("https://example.com/library#section")),
                ("lang", s("en-US")),
                ("langRange", s("CH-*")),
                ("langRange2", s("*")),
                ("langRange3", s("CH-de")),
                ("null2", Json::Null),
                ("num2", n(2)),
                (
                    "objB",
                    obj(vec![
                        ("null3", Json::Null),
                        ("num3", n(3)),
                        ("stringM", s("M")),
                        ("stringMNO", s("MNO")),
                        ("stringMnO_456", s("MnO_456")),
                    ]),
                ),
                ("stringX", s("X")),
                ("stringXYZ", s("XYZ")),
                ("stringXyZ_789", s("XyZ_789")),
                ("timeOffset", s("10:10:10+05:30")),
                ("timeZ", s("10:10:10Z")),
            ]),
        ),
        (
            "objX",
            obj(vec![
                ("num1", n(1)),
                ("objY", obj(vec![("num2", n(2))])),
                ("stringAbc", s("Abc")),
            ]),
        ),
        ("stringA", s("A")),
        ("stringABC", s("ABC")),
        ("stringAbC_123", s("AbC_123")),
    ])
}

#[test]
fn parse_and_serialize_round_trip() {
    for p in ["", "/", "/a/b", "/a~0b/c~1d", "/x//y", "/-", "/0", "/ "] {
        let parsed = JSONPath::new(p).unwrap();
        assert_eq!(parsed.serialize(), p);
    }
}

#[test]
fn parse_unescapes_tokens() {
    let parsed = JSONPath::new("/a~0b/c~1d").unwrap();
    let toks = parsed.take();
    assert_eq!(toks, vec!["a~b".to_string(), "c/d".to_string()]);
}

#[test]
fn parse_rejects_missing_leading_slash() {
    assert_eq!(JSONPath::new("a/b"), Err(JSONPathError::NoLeadingSlash));
    assert_eq!(JSONPath::new("~0"), Err(JSONPathError::NoLeadingSlash));
}

#[test]
fn parse_rejects_bad_escapes() {
    assert_eq!(JSONPath::new("/a~2b"), Err(JSONPathError::InvalidEscape));
    assert_eq!(JSONPath::new("/a~"), Err(JSONPathError::InvalidEscape));
}

#[test]
fn empty_string_is_the_root_path() {
    let root = JSONPath::new("").unwrap();
    assert_eq!(root.token_count(), 0);
    let doc = entry();
    let resolved = resolve(&doc, &root).unwrap();
    assert_eq!(*resolved, entry());
}

#[test]
fn compose_concatenates_tokens() {
    let a = JSONPath::new("/objA").unwrap();
    let b = JSONPath::new("/objB/num3").unwrap();
    let ab = a.compose(b);
    assert_eq!(ab.serialize(), "/objA/objB/num3");
    let doc = entry();
    assert_eq!(*resolve(&doc, &ab).unwrap(), n(3));
}

#[test]
fn compose_then_resolve_matches_two_step_resolution() {
    let doc = entry();
    let a = JSONPath::new("/objA").unwrap();
    let b = JSONPath::new("/objB/stringMNO").unwrap();
    let composed = a.duplicate().compose(b.duplicate());
    let one_step = resolve(&doc, &composed).unwrap();
    let mid = resolve(&doc, &a).unwrap();
    let two_step = resolve(mid, &b).unwrap();
    assert_eq!(one_step, two_step);
}

#[test]
fn resolve_reports_each_failure_kind() {
    let doc = entry();
    let missing = JSONPath::new("/nope").unwrap();
    assert_eq!(
        resolve(&doc, &missing),
        Err(IndexError::NoSuchKey("nope".to_string()))
    );
    let deep = JSONPath::new("/num1/x").unwrap();
    assert_eq!(resolve(&doc, &deep), Err(IndexError::NotIndexable));
    let out = JSONPath::new("/arrayA/3").unwrap();
    assert_eq!(resolve(&doc, &out), Err(IndexError::OutOfBounds(3)));
    let dash = JSONPath::new("/arrayA/-").unwrap();
    assert_eq!(resolve(&doc, &dash), Err(IndexError::OutOfBounds(3)));
    let alpha = JSONPath::new("/arrayA/x").unwrap();
    assert_eq!(resolve(&doc, &alpha), Err(IndexError::NotIndexable));
}

#[test]
fn resolve_indexes_arrays() {
    let doc = entry();
    let first = JSONPath::new("/arrayA/0").unwrap();
    assert_eq!(*resolve(&doc, &first).unwrap(), s("a"));
    let nested = JSONPath::new("/arrayC/1/foo/bar").unwrap();
    assert_eq!(*resolve(&doc, &nested).unwrap(), s("b"));
}

#[test]
fn numbers_compare_by_value() {
    assert!(JsonNum::from_i64(-2).lt(&JsonNum::from_i64(1)));
    assert!(!JsonNum::from_i64(1).lt(&JsonNum::from_i64(-2)));
    assert!(!JsonNum::from_i64(0).lt(&JsonNum::from_i64(0)));
    assert!(JsonNum::from_u64(3).lt(&JsonNum::from_u64(4)));
    assert!(JsonNum::from_i64(i64::MIN).lt(&JsonNum::from_i64(i64::MAX)));
}

#[test]
fn text_form_is_compact_json() {
    let v = obj(vec![
        ("a", arr(vec![n(1), b(true), Json::Null, s("x\ny")])),
        ("b", n(-12)),
    ]);
    assert_eq!(to_text(&v), "{\"a\":[1,true,null,\"x\\ny\"],\"b\":-12}");
    assert_eq!(to_text(&s("quo\"te")), "\"quo\\\"te\"");
    assert_eq!(to_text(&Json::Str("\u{1}".to_string())), "\"\\u0001\"");
}

#[test]
fn equals_is_structural() {
    assert!(entry().equals(&entry()));
    let a = obj(vec![("k", arr(vec![n(1), n(2)]))]);
    let b = obj(vec![("k", arr(vec![n(1), n(3)]))]);
    assert!(!a.equals(&b));
}
