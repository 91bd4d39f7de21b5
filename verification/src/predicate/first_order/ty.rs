//! The `type` predicate: does the referenced value have the named
//! kind?
//!
//! The structural kinds are decided here; the `date`, `time`,
//! `date-time`, `lang` and `lang-range` kinds lean on outside parsers
//! behind trusted wrappers; `iri` and `absolute-iri` are not
//! implemented; any other tag falls back to plain string comparison
//! with the referenced value.

use vstd::prelude::*;
use vstd::string::*;
use crate::json_path::JSONPath;
use crate::json_value::Json;
use crate::json_value::resolve;
use crate::json_value::spec_resolve;
use crate::predicate::PredicateImpl;
use crate::predicate::context::PredicateContext;
use crate::predicate::context::effective;
use crate::predicate::error::PredicateError;
use crate::predicate::error::SpecErr;
use crate::predicate::first_order::effective_path;
use crate::strings::first_pos;
use crate::strings::lemma_first_pos_concat;
use crate::strings::lemma_first_pos_none;
use crate::strings::sep_free;
use crate::strings::split_all;
use crate::strings::split_str;
use crate::strings::str_eq;
use crate::strings::trim_spec;
use crate::strings::trim_str;

verus! {

/// Whether chrono accepts the text as an ISO calendar date; it
/// depends on the characters alone.
pub uninterp spec fn date_ok(s: Seq<char>) -> bool;

/// Whether chrono accepts the text as a time of day followed by a
/// zone marker; it depends on the characters alone.
pub uninterp spec fn time_ok(s: Seq<char>) -> bool;

/// Whether chrono accepts the text as an RFC 3339 date-time; it
/// depends on the characters alone.
pub uninterp spec fn datetime_ok(s: Seq<char>) -> bool;

/// Whether the text is a well-formed BCP 47 language tag; it depends
/// on the characters alone.
pub uninterp spec fn langtag_ok(s: Seq<char>) -> bool;

/// Whether the text is a well-formed language identifier; it depends
/// on the characters alone.
pub uninterp spec fn langid_ok(s: Seq<char>) -> bool;

/// Relies on `chrono::NaiveDate`'s `FromStr` parser for ISO dates.
#[verifier::external_body]
fn date_check(s: &str) -> (r: bool)
    ensures
        r == date_ok(s@),
{
    s.parse::<chrono::NaiveDate>().is_ok()
}

/// Relies on `chrono::NaiveTime::parse_from_str` with the
/// hour-minute-second-zone format.
#[verifier::external_body]
fn time_check(s: &str) -> (r: bool)
    ensures
        r == time_ok(s@),
{
    chrono::NaiveTime::parse_from_str(s, "%H:%M:%S%Z").is_ok()
}

/// Relies on `chrono::DateTime::parse_from_rfc3339`.
#[verifier::external_body]
fn datetime_check(s: &str) -> (r: bool)
    ensures
        r == datetime_ok(s@),
{
    chrono::DateTime::parse_from_rfc3339(s).is_ok()
}

/// Relies on `langtag::LangTag::new`, the BCP 47 grammar check.
#[verifier::external_body]
fn langtag_check(s: &str) -> (r: bool)
    ensures
        r == langtag_ok(s@),
{
    langtag::LangTag::new(s).is_ok()
}

/// Relies on the `LanguageIdentifier` parser re-exported by
/// `fluent_langneg`.
#[verifier::external_body]
fn langid_check(s: &str) -> (r: bool)
    ensures
        r == langid_ok(s@),
{
    s.parse::<fluent_langneg::LanguageIdentifier>().is_ok()
}

/// The candidate identifier inside one comma-separated range item:
/// the item trimmed of white space and cut at the first semicolon.
pub open spec fn range_item(t: Seq<char>) -> Seq<char> {
    let u = trim_spec(t);
    u.take(first_pos(u, ';') as int)
}

/// The non-empty candidate identifiers of a language-range text.
pub open spec fn lang_items(parts: Seq<Seq<char>>) -> Seq<Seq<char>>
    decreases parts.len(),
{
    if parts.len() == 0 {
        Seq::empty()
    } else {
        let h = range_item(parts[0]);
        let rest = lang_items(parts.drop_first());
        if h.len() > 0 {
            seq![h] + rest
        } else {
            rest
        }
    }
}

/// The candidate identifiers of a language-range text: split on
/// commas, trimmed, cut at semicolons, empty items dropped.
pub open spec fn lang_range_items(s: Seq<char>) -> Seq<Seq<char>> {
    lang_items(split_all(s, ','))
}

/// Every candidate identifier in the range parses.
pub open spec fn lang_range_ok(s: Seq<char>) -> bool {
    forall|i: int|
        0 <= i < lang_range_items(s).len() ==> langid_ok(#[trigger] lang_range_items(s)[i])
}

/// A language-range text whose candidate identifiers did not all
/// parse.
#[derive(Debug, PartialEq, Eq)]
pub struct LangRangeError;

/// Cut `t` at its first semicolon.
fn semi_cut(t: &str) -> (r: String)
    ensures
        r@ == t@.take(first_pos(t@, ';') as int),
{
    let n = t.unicode_len();
    let mut out = String::new();
    let mut k: usize = 0;
    proof {
        assert(out@ =~= t@.take(0));
    }
    while k < n && t.get_char(k) != ';'
        invariant
            n == t@.len(),
            k <= n,
            forall|j: int| 0 <= j < k ==> t@[j] != ';',
            out@ == t@.take(k as int),
        decreases n - k,
    {
        out.push(t.get_char(k));
        proof {
            assert(out@ =~= t@.take(k + 1));
        }
        k = k + 1;
    }
    proof {
        if k < n {
            assert(sep_free(t@.take(k as int), ';'));
            assert(t@.skip(k as int)[0] == t@[k as int]);
            lemma_first_pos_concat(t@.take(k as int), t@.skip(k as int), ';');
            assert(t@.take(k as int) + t@.skip(k as int) =~= t@);
        } else {
            assert(sep_free(t@, ';'));
            lemma_first_pos_none(t@, ';');
            assert(t@.take(k as int) =~= t@);
        }
    }
    out
}

/// Split a language-range text into its candidate identifiers and
/// check each one; the first identifier that does not parse fails the
/// whole range.
pub fn parse_lang_range(s: &str) -> (r: Result<Vec<String>, LangRangeError>)
    ensures
        r is Ok <==> lang_range_ok(s@),
        r matches Ok(v) ==> v.deep_view() == lang_range_items(s@),
{
    let parts = split_str(s, ',');
    let ghost all = parts.deep_view();
    let mut out: Vec<String> = Vec::new();
    let mut i: usize = 0;
    proof {
        assert(all.skip(0) =~= all);
        assert(out.deep_view() + lang_items(all) =~= lang_items(all));
    }
    while i < parts.len()
        invariant
            parts.deep_view() == all,
            lang_range_items(s@) == lang_items(all),
            i <= all.len(),
            lang_items(all) == out.deep_view() + lang_items(all.skip(i as int)),
            forall|j: int| 0 <= j < out.deep_view().len() ==> langid_ok(#[trigger] out.deep_view()[j]),
        decreases all.len() - i,
    {
        proof {
            let tl = all.skip(i as int);
            assert(tl[0] == all[i as int]);
            assert(tl.drop_first() =~= all.skip(i + 1));
        }
        let trimmed = trim_str(parts[i].as_str());
        let head = semi_cut(trimmed.as_str());
        proof {
            assert(head@ == range_item(all[i as int]));
        }
        if head.as_str().is_empty() {
            proof {
                assert(lang_items(all.skip(i as int)) == lang_items(all.skip(i + 1)));
            }
        } else {
            if !langid_check(head.as_str()) {
                proof {
                    let idx = out.deep_view().len() as int;
                    assert(lang_items(all.skip(i as int)) == seq![head@] + lang_items(
                        all.skip(i + 1),
                    ));
                    assert(lang_items(all)[idx] == head@);
                    assert(!lang_range_ok(s@));
                }
                return Err(LangRangeError);
            }
            let ghost old_deep = out.deep_view();
            out.push(head);
            proof {
                assert(out.deep_view() =~= old_deep.push(range_item(all[i as int])));
                assert(old_deep + (seq![range_item(all[i as int])] + lang_items(all.skip(i + 1)))
                    =~= out.deep_view() + lang_items(all.skip(i + 1)));
            }
        }
        i = i + 1;
    }
    proof {
        assert(all.skip(all.len() as int) =~= Seq::<Seq<char>>::empty());
        assert(lang_items(Seq::<Seq<char>>::empty()) == Seq::<Seq<char>>::empty());
        assert(out.deep_view() + Seq::<Seq<char>>::empty() =~= out.deep_view());
        assert(out.deep_view() == lang_range_items(s@));
    }
    Ok(out)
}

/// True when the referenced value has the named kind.  When the path
/// does not resolve, the tag `undefined` succeeds and every other tag
/// propagates the resolution failure.
#[derive(Debug, PartialEq, Eq)]
pub struct Type {
    /// Where to look, relative to the context root.  Absent means the
    /// context root itself.
    pub path: Option<JSONPath>,
    /// The kind tag tested for.
    pub value: String,
}

/// What `type` evaluates to.
pub open spec fn type_sem(
    local: Option<Seq<Seq<char>>>,
    tag: Seq<char>,
    data: Json,
    root: Option<Seq<Seq<char>>>,
) -> Result<bool, SpecErr> {
    match spec_resolve(data, effective(root, local)) {
        Err(e) => {
            if tag == "undefined"@ {
                Ok(true)
            } else {
                Err(SpecErr::JsonPointerIssue(e))
            }
        },
        Ok(v) => {
            if tag == "number"@ {
                Ok(v is Num)
            } else if tag == "string"@ {
                Ok(v is Str)
            } else if tag == "boolean"@ {
                Ok(v is Bool)
            } else if tag == "object"@ {
                Ok(v is Obj)
            } else if tag == "array"@ {
                Ok(v is Arr)
            } else if tag == "null"@ {
                Ok(v is Null)
            } else if tag == "date"@ {
                Ok(v matches Json::Str(sv) && date_ok(sv@))
            } else if tag == "time"@ {
                Ok(v matches Json::Str(sv) && time_ok(sv@))
            } else if tag == "date-time"@ {
                Ok(v matches Json::Str(sv) && datetime_ok(sv@))
            } else if tag == "lang"@ {
                Ok(v matches Json::Str(sv) && langtag_ok(sv@))
            } else if tag == "lang-range"@ {
                Ok(v matches Json::Str(sv) && lang_range_ok(sv@))
            } else if tag == "iri"@ || tag == "absolute-iri"@ {
                Err(SpecErr::Unimplemented)
            } else {
                Ok(v matches Json::Str(sv) && sv@ == tag)
            }
        },
    }
}

impl PredicateImpl for Type {
    open spec fn spec_eval(&self, data: Json, root: Option<Seq<Seq<char>>>) -> Result<
        bool,
        SpecErr,
    > {
        type_sem(self.path.deep_view(), self.value@, data, root)
    }

    fn evaluate(&self, data: &Json, ctx: &PredicateContext) -> (r: Result<bool, PredicateError>) {
        let eff = effective_path(ctx, &self.path);
        let tag = self.value.as_str();
        match resolve(data, &eff) {
            Err(e) => {
                if str_eq(tag, "undefined") {
                    Ok(true)
                } else {
                    Err(PredicateError::pointer_issue(e))
                }
            },
            Ok(v) => {
                if str_eq(tag, "number") {
                    Ok(matches!(v, Json::Num(_)))
                } else if str_eq(tag, "string") {
                    Ok(matches!(v, Json::Str(_)))
                } else if str_eq(tag, "boolean") {
                    Ok(matches!(v, Json::Bool(_)))
                } else if str_eq(tag, "object") {
                    Ok(matches!(v, Json::Obj(_)))
                } else if str_eq(tag, "array") {
                    Ok(matches!(v, Json::Arr(_)))
                } else if str_eq(tag, "null") {
                    Ok(matches!(v, Json::Null))
                } else if str_eq(tag, "date") {
                    match v {
                        Json::Str(sv) => Ok(date_check(sv.as_str())),
                        _ => Ok(false),
                    }
                } else if str_eq(tag, "time") {
                    match v {
                        Json::Str(sv) => Ok(time_check(sv.as_str())),
                        _ => Ok(false),
                    }
                } else if str_eq(tag, "date-time") {
                    match v {
                        Json::Str(sv) => Ok(datetime_check(sv.as_str())),
                        _ => Ok(false),
                    }
                } else if str_eq(tag, "lang") {
                    match v {
                        Json::Str(sv) => Ok(langtag_check(sv.as_str())),
                        _ => Ok(false),
                    }
                } else if str_eq(tag, "lang-range") {
                    match v {
                        Json::Str(sv) => Ok(parse_lang_range(sv.as_str()).is_ok()),
                        _ => Ok(false),
                    }
                } else if str_eq(tag, "iri") || str_eq(tag, "absolute-iri") {
                    Err(PredicateError::unimplemented())
                } else {
                    match v {
                        Json::Str(sv) => Ok(str_eq(sv.as_str(), tag)),
                        _ => Ok(false),
                    }
                }
            },
        }
    }
}

} // verus!
