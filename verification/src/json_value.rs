//! The crate's own model of JSON documents.
//!
//! A [`Json`] value is null, a boolean, an integer number, a string,
//! an array, or an object held as a key/value list in decoded order.
//! Equality between documents is the structural equivalence
//! [`jeq`]; pointer resolution walks a token sequence into a value.

use vstd::prelude::*;
use vstd::string::*;
use crate::json_path::JSONPath;

verus! {

broadcast use vstd::std_specs::vec::group_vec_axioms;

/// A JSON integer: a sign and a magnitude.  The constructors keep the
/// value canonical (a negative number has magnitude at least one).
#[derive(Debug, Clone, Copy, PartialEq, Eq, Structural)]
pub struct JsonNum {
    pub neg: bool,
    pub mag: u64,
}

/// The integer a number stands for.
pub open spec fn num_val(n: JsonNum) -> int {
    if n.neg {
        -(n.mag as int)
    } else {
        n.mag as int
    }
}

impl JsonNum {
    /// The number for a signed integer.
    pub fn from_i64(i: i64) -> (r: JsonNum)
        ensures
            num_val(r) == i as int,
            r.neg ==> r.mag >= 1,
    {
        if i < 0 {
            JsonNum { neg: true, mag: (-(i as i128)) as u64 }
        } else {
            JsonNum { neg: false, mag: i as u64 }
        }
    }

    /// The number for an unsigned integer.
    pub fn from_u64(u: u64) -> (r: JsonNum)
        ensures
            num_val(r) == u as int,
            !r.neg,
    {
        JsonNum { neg: false, mag: u }
    }

    /// Is this number strictly below `other`?
    pub fn lt(&self, other: &JsonNum) -> (r: bool)
        ensures
            r == (num_val(*self) < num_val(*other)),
    {
        if self.neg && !other.neg {
            !(self.mag == 0 && other.mag == 0)
        } else if !self.neg && other.neg {
            false
        } else if !self.neg {
            self.mag < other.mag
        } else {
            other.mag < self.mag
        }
    }
}

/// A JSON document or fragment.
///
/// Object members are kept as a list of key/value pairs in the order
/// the document was decoded in; decoding from a JSON text keeps each
/// object's keys unique and sorted, so list equality is map equality.
#[derive(Debug, PartialEq, Eq)]
pub enum Json {
    Null,
    Bool(bool),
    Num(JsonNum),
    Str(String),
    Arr(Vec<Json>),
    Obj(Vec<(String, Json)>),
}

/// Structural equivalence of two documents: equal shapes, equal
/// scalars, equal strings character for character.
pub open spec fn jeq(a: Json, b: Json) -> bool
    decreases a,
{
    match (a, b) {
        (Json::Null, Json::Null) => true,
        (Json::Bool(x), Json::Bool(y)) => x == y,
        (Json::Num(x), Json::Num(y)) => x == y,
        (Json::Str(x), Json::Str(y)) => x@ == y@,
        (Json::Arr(x), Json::Arr(y)) => {
            &&& x@.len() == y@.len()
            &&& forall|i: int| 0 <= i < x@.len() ==> jeq(#[trigger] x@[i], y@[i])
        },
        (Json::Obj(x), Json::Obj(y)) => {
            &&& x@.len() == y@.len()
            &&& forall|i: int|
                0 <= i < x@.len() ==> (#[trigger] x@[i]).0@ == y@[i].0@ && jeq(x@[i].1, y@[i].1)
        },
        _ => false,
    }
}

impl Json {
    /// Decide structural equivalence with `other`.
    pub fn equals(&self, other: &Json) -> (r: bool)
        ensures
            r == jeq(*self, *other),
        decreases *self,
    {
        match self {
            Json::Null => match other {
                Json::Null => true,
                _ => false,
            },
            Json::Bool(x) => match other {
                Json::Bool(y) => *x == *y,
                _ => false,
            },
            Json::Num(x) => match other {
                Json::Num(y) => x.neg == y.neg && x.mag == y.mag,
                _ => false,
            },
            Json::Str(x) => match other {
                Json::Str(y) => *x == *y,
                _ => false,
            },
            Json::Arr(x) => match other {
                Json::Arr(y) => {
                    if x.len() != y.len() {
                        return false;
                    }
                    let mut i: usize = 0;
                    while i < x.len()
                        invariant
                            *self == Json::Arr(*x),
                            *other == Json::Arr(*y),
                            i <= x.len(),
                            x@.len() == y@.len(),
                            forall|j: int| 0 <= j < i ==> jeq(#[trigger] x@[j], y@[j]),
                        decreases x.len() - i,
                    {
                        proof {
                            assert(decreases_to!(*self => self->Arr_0));
                            assert(decreases_to!(*x => x@));
                            assert(decreases_to!(x@ => x@[i as int]));
                        }
                        if !x[i].equals(&y[i]) {
                            proof {
                                assert(!jeq(x@[i as int], y@[i as int]));
                            }
                            return false;
                        }
                        i = i + 1;
                    }
                    true
                },
                _ => false,
            },
            Json::Obj(x) => match other {
                Json::Obj(y) => {
                    if x.len() != y.len() {
                        return false;
                    }
                    let mut i: usize = 0;
                    while i < x.len()
                        invariant
                            *self == Json::Obj(*x),
                            *other == Json::Obj(*y),
                            i <= x.len(),
                            x@.len() == y@.len(),
                            forall|j: int|
                                0 <= j < i ==> (#[trigger] x@[j]).0@ == y@[j].0@ && jeq(
                                    x@[j].1,
                                    y@[j].1,
                                ),
                        decreases x.len() - i,
                    {
                        proof {
                            assert(decreases_to!(*self => self->Obj_0));
                            assert(decreases_to!(*x => x@));
                            assert(decreases_to!(x@ => x@[i as int]));
                            assert(decreases_to!(x@[i as int] => x@[i as int].1));
                        }
                        if !(x[i].0 == y[i].0) {
                            return false;
                        }
                        if !x[i].1.equals(&y[i].1) {
                            proof {
                                assert(!jeq(x@[i as int].1, y@[i as int].1));
                            }
                            return false;
                        }
                        i = i + 1;
                    }
                    true
                },
                _ => false,
            },
        }
    }

    /// A structurally equivalent copy of this value.
    pub fn duplicate(&self) -> (r: Json)
        ensures
            jeq(r, *self),
        decreases *self,
    {
        match self {
            Json::Null => Json::Null,
            Json::Bool(b) => Json::Bool(*b),
            Json::Num(n) => Json::Num(*n),
            Json::Str(s) => Json::Str(s.clone()),
            Json::Arr(items) => {
                let mut out: Vec<Json> = Vec::new();
                let mut i: usize = 0;
                while i < items.len()
                    invariant
                        *self == Json::Arr(*items),
                        i <= items.len(),
                        out@.len() == i,
                        forall|j: int| 0 <= j < i ==> jeq(#[trigger] out@[j], items@[j]),
                    decreases items.len() - i,
                {
                    proof {
                        assert(decreases_to!(*self => self->Arr_0));
                        assert(decreases_to!(*items => items@));
                        assert(decreases_to!(items@ => items@[i as int]));
                    }
                    out.push(items[i].duplicate());
                    i = i + 1;
                }
                Json::Arr(out)
            },
            Json::Obj(pairs) => {
                let mut out: Vec<(String, Json)> = Vec::new();
                let mut i: usize = 0;
                while i < pairs.len()
                    invariant
                        *self == Json::Obj(*pairs),
                        i <= pairs.len(),
                        out@.len() == i,
                        forall|j: int|
                            0 <= j < i ==> (#[trigger] out@[j]).0@ == pairs@[j].0@ && jeq(
                                out@[j].1,
                                pairs@[j].1,
                            ),
                    decreases pairs.len() - i,
                {
                    proof {
                        assert(decreases_to!(*self => self->Obj_0));
                        assert(decreases_to!(*pairs => pairs@));
                        assert(decreases_to!(pairs@ => pairs@[i as int]));
                        assert(decreases_to!(pairs@[i as int] => pairs@[i as int].1));
                    }
                    let k = pairs[i].0.clone();
                    let v = pairs[i].1.duplicate();
                    out.push((k, v));
                    i = i + 1;
                }
                Json::Obj(out)
            },
        }
    }
}

/// Why a pointer failed to resolve against a document.
#[derive(Debug, Clone, PartialEq, Eq)]
pub enum IndexError {
    /// An object had no member with the given key.
    NoSuchKey(String),
    /// A token was applied to a value that is neither object nor
    /// array, or was not a valid index for an array.
    NotIndexable,
    /// An array index was past the end of the array.
    OutOfBounds(usize),
}

/// The resolution error at the specification level.
pub enum SpecIndexError {
    NoSuchKey(Seq<char>),
    NotIndexable,
    OutOfBounds(int),
}

impl View for IndexError {
    type V = SpecIndexError;

    open spec fn view(&self) -> SpecIndexError {
        match self {
            IndexError::NoSuchKey(k) => SpecIndexError::NoSuchKey(k@),
            IndexError::NotIndexable => SpecIndexError::NotIndexable,
            IndexError::OutOfBounds(i) => SpecIndexError::OutOfBounds(*i as int),
        }
    }
}

/// The value of the first member of `pairs` whose key reads `k`.
pub open spec fn obj_lookup(pairs: Seq<(String, Json)>, k: Seq<char>) -> Option<Json>
    decreases pairs.len(),
{
    if pairs.len() == 0 {
        None
    } else if pairs[0].0@ == k {
        Some(pairs[0].1)
    } else {
        obj_lookup(pairs.drop_first(), k)
    }
}

/// All characters are decimal digits and there is at least one.
pub open spec fn is_digits(t: Seq<char>) -> bool {
    t.len() > 0 && forall|j: int| 0 <= j < t.len() ==> '0' <= #[trigger] t[j] <= '9'
}

/// The number the digit string `t` denotes.
pub open spec fn digits_val(t: Seq<char>) -> int
    decreases t.len(),
{
    if t.len() == 0 {
        0
    } else {
        digits_val(t.drop_last()) * 10 + (t.last() as int - '0' as int)
    }
}

/// The array index a token denotes, if any: an optional `+`, then
/// decimal digits, with a value that fits the machine's index type.
pub open spec fn spec_parse_index(t: Seq<char>) -> Option<int> {
    let d = if t.len() > 0 && t[0] == '+' {
        t.drop_first()
    } else {
        t
    };
    if is_digits(d) && digits_val(d) <= usize::MAX as int {
        Some(digits_val(d))
    } else {
        None
    }
}

/// Resolving a token sequence against a document: at an object the
/// token is a key, at an array it is an index (`-` means one past the
/// end), and anything else cannot be indexed.
pub open spec fn spec_resolve(doc: Json, toks: Seq<Seq<char>>) -> Result<Json, SpecIndexError>
    decreases toks.len(),
{
    if toks.len() == 0 {
        Ok(doc)
    } else {
        let t = toks[0];
        match doc {
            Json::Obj(pairs) => match obj_lookup(pairs@, t) {
                Some(v) => spec_resolve(v, toks.drop_first()),
                None => Err(SpecIndexError::NoSuchKey(t)),
            },
            Json::Arr(items) => {
                if t =~= seq!['-'] {
                    Err(SpecIndexError::OutOfBounds(items@.len() as int))
                } else {
                    match spec_parse_index(t) {
                        Some(n) => {
                            if n < items@.len() {
                                spec_resolve(items@[n], toks.drop_first())
                            } else {
                                Err(SpecIndexError::OutOfBounds(n))
                            }
                        },
                        None => Err(SpecIndexError::NotIndexable),
                    }
                }
            },
            _ => Err(SpecIndexError::NotIndexable),
        }
    }
}

proof fn lemma_digits_val_nonneg(t: Seq<char>)
    requires
        forall|j: int| 0 <= j < t.len() ==> '0' <= #[trigger] t[j] <= '9',
    ensures
        digits_val(t) >= 0,
    decreases t.len(),
{
    if t.len() > 0 {
        lemma_digits_val_nonneg(t.drop_last());
    }
}

proof fn lemma_digits_val_prefix(t: Seq<char>, i: int)
    requires
        forall|j: int| 0 <= j < t.len() ==> '0' <= #[trigger] t[j] <= '9',
        0 <= i <= t.len(),
    ensures
        digits_val(t.take(i)) <= digits_val(t),
    decreases t.len() - i,
{
    if i < t.len() {
        lemma_digits_val_prefix(t, i + 1);
        let a = t.take(i + 1);
        assert(a.drop_last() =~= t.take(i));
        assert(a.last() == t[i]);
        lemma_digits_val_nonneg(t.take(i));
        assert(digits_val(t.take(i)) <= digits_val(t.take(i + 1)));
    } else {
        assert(t.take(i) =~= t);
    }
}

/// Parse an array-index token, as the resolver uses it.
fn parse_index(t: &str) -> (r: Option<usize>)
    ensures
        match r {
            Some(n) => spec_parse_index(t@) == Some(n as int),
            None => spec_parse_index(t@) is None,
        },
{
    let n = t.unicode_len();
    let mut i: usize = 0;
    if n > 0 && t.get_char(0) == '+' {
        i = 1;
    }
    let ghost d = if t@.len() > 0 && t@[0] == '+' {
        t@.drop_first()
    } else {
        t@
    };
    let ghost off = i as int;
    proof {
        assert(d =~= t@.skip(off));
    }
    if i >= n {
        // no digits at all
        proof {
            assert(d.len() == 0);
            assert(!is_digits(d));
        }
        return None;
    }
    let mut acc: usize = 0;
    proof {
        assert(d.take(0) =~= Seq::<char>::empty());
        assert(digits_val(Seq::<char>::empty()) == 0);
    }
    while i < n
        invariant
            n == t@.len(),
            off <= i <= n,
            0 <= off <= 1,
            d == (if t@.len() > 0 && t@[0] == '+' {
                t@.drop_first()
            } else {
                t@
            }),
            d == t@.skip(off),
            d.len() == n - off,
            forall|j: int| 0 <= j < i - off ==> '0' <= #[trigger] d[j] <= '9',
            acc as int == digits_val(d.take(i - off)),
        decreases n - i,
    {
        let c = t.get_char(i);
        if c < '0' || c > '9' {
            proof {
                assert(d[i - off] == t@[i as int]);
                assert(!is_digits(d));
            }
            return None;
        }
        let dig: usize = (c as usize) - ('0' as usize);
        proof {
            assert(d[i - off] == t@[i as int]);
            assert(dig == d[i - off] as int - '0' as int);
            assert(dig <= 9);
        }
        if acc > (usize::MAX - dig) / 10 {
            // the value no longer fits an index
            proof {
                let k = i - off + 1;
                assert(d.take(k).drop_last() =~= d.take(k - 1));
                assert(d.take(k).last() == d[k - 1]);
                assert(digits_val(d.take(k)) == acc as int * 10 + dig);
                assert(digits_val(d.take(k)) > usize::MAX as int) by (nonlinear_arith)
                    requires
                        digits_val(d.take(k)) == acc as int * 10 + dig,
                        acc as int > (usize::MAX as int - dig) / 10,
                        0 <= dig <= 9,
                {
                }
                if is_digits(d) {
                    lemma_digits_val_prefix(d, k);
                    assert(digits_val(d) > usize::MAX as int);
                }
            }
            return None;
        }
        acc = acc * 10 + dig;
        proof {
            let k = i - off + 1;
            assert(d.take(k).drop_last() =~= d.take(k - 1));
            assert(d.take(k).last() == d[k - 1]);
        }
        i = i + 1;
    }
    proof {
        assert(d.take(d.len() as int) =~= d);
        assert(is_digits(d));
    }
    Some(acc)
}

/// Walk `path`'s tokens into `doc`, borrowing the value they lead to.
pub fn resolve<'a>(doc: &'a Json, path: &JSONPath) -> (r: Result<&'a Json, IndexError>)
    ensures
        match r {
            Ok(v) => spec_resolve(*doc, path@) == Ok::<Json, SpecIndexError>(*v),
            Err(e) => spec_resolve(*doc, path@) == Err::<Json, SpecIndexError>(e@),
        },
{
    let toks = path.tokens();
    let mut cur: &'a Json = doc;
    let mut k: usize = 0;
    proof {
        assert(path@.skip(0) =~= path@);
    }
    while k < toks.len()
        invariant
            toks.deep_view() == path@,
            k <= toks.len(),
            spec_resolve(*doc, path@) == spec_resolve(*cur, path@.skip(k as int)),
        decreases toks.len() - k,
    {
        let tok: &String = &toks[k];
        proof {
            let tl = path@.skip(k as int);
            assert(tl[0] == path@[k as int]);
            assert(tl.drop_first() =~= path@.skip(k + 1));
            assert(tok@ == path@[k as int]);
        }
        match cur {
            Json::Obj(pairs) => {
                let mut j: usize = 0;
                let mut found = false;
                while j < pairs.len() && !found
                    invariant
                        j <= pairs.len(),
                        forall|j0: int| 0 <= j0 < j ==> (#[trigger] pairs@[j0]).0@ != tok@,
                        found ==> j < pairs.len() && pairs@[j as int].0@ == tok@,
                    decreases pairs.len() - j + if found {
                        0int
                    } else {
                        1int
                    },
                {
                    if pairs[j].0 == *tok {
                        found = true;
                    } else {
                        j = j + 1;
                    }
                }
                if found {
                    proof {
                        lemma_obj_lookup_at(pairs@, tok@, j as int);
                    }
                    cur = &pairs[j].1;
                } else {
                    proof {
                        lemma_obj_lookup_missing(pairs@, tok@);
                    }
                    return Err(IndexError::NoSuchKey(tok.clone()));
                }
            },
            Json::Arr(items) => {
                if str_is_dash(tok.as_str()) {
                    return Err(IndexError::OutOfBounds(items.len()));
                }
                match parse_index(tok.as_str()) {
                    Some(n) => {
                        if n < items.len() {
                            cur = &items[n];
                        } else {
                            return Err(IndexError::OutOfBounds(n));
                        }
                    },
                    None => {
                        return Err(IndexError::NotIndexable);
                    },
                }
            },
            _ => {
                return Err(IndexError::NotIndexable);
            },
        }
        k = k + 1;
    }
    proof {
        assert(path@.skip(path@.len() as int) =~= Seq::<Seq<char>>::empty());
    }
    Ok(cur)
}

/// Is the token exactly the one-character end-of-array marker?
fn str_is_dash(t: &str) -> (r: bool)
    ensures
        r == (t@ =~= seq!['-']),
{
    proof {
        reveal_strlit("-");
    }
    let n = t.unicode_len();
    if n != 1 {
        return false;
    }
    let c = t.get_char(0);
    proof {
        assert(t@ =~= seq![t@[0]]);
    }
    c == '-'
}

pub(crate) proof fn lemma_obj_lookup_at(pairs: Seq<(String, Json)>, k: Seq<char>, j: int)
    requires
        0 <= j < pairs.len(),
        pairs[j].0@ == k,
        forall|j0: int| 0 <= j0 < j ==> (#[trigger] pairs[j0]).0@ != k,
    ensures
        obj_lookup(pairs, k) == Some(pairs[j].1),
    decreases j,
{
    if j > 0 {
        assert(pairs.drop_first()[j - 1] == pairs[j]);
        assert forall|j0: int| 0 <= j0 < j - 1 implies (#[trigger] pairs.drop_first()[j0]).0@
            != k by {
            assert(pairs[j0 + 1] == pairs.drop_first()[j0]);
        }
        lemma_obj_lookup_at(pairs.drop_first(), k, j - 1);
    }
}

pub(crate) proof fn lemma_obj_lookup_missing(pairs: Seq<(String, Json)>, k: Seq<char>)
    requires
        forall|j0: int| 0 <= j0 < pairs.len() ==> (#[trigger] pairs[j0]).0@ != k,
    ensures
        obj_lookup(pairs, k) is None,
    decreases pairs.len(),
{
    if pairs.len() > 0 {
        lemma_obj_lookup_missing(pairs.drop_first(), k);
    }
}

pub(crate) proof fn lemma_obj_lookup_decreases(pairs: Seq<(String, Json)>, k: Seq<char>)
    requires
        obj_lookup(pairs, k) is Some,
    ensures
        decreases_to!(pairs => obj_lookup(pairs, k)->Some_0),
    decreases pairs.len(),
{
    if pairs.len() > 0 && pairs[0].0@ == k {
        assert(decreases_to!(pairs => pairs[0]));
        assert(decreases_to!(pairs[0] => pairs[0].1));
    } else {
        lemma_obj_lookup_decreases(pairs.drop_first(), k);
        assert(decreases_to!(pairs => pairs.subrange(1, pairs.len() as int)));
        assert(pairs.drop_first() == pairs.subrange(1, pairs.len() as int));
    }
}

/// Resolving a composed path equals resolving its first part and then
/// its second part against what the first part led to.
pub proof fn lemma_resolve_compose(d: Json, a: Seq<Seq<char>>, b: Seq<Seq<char>>)
    ensures
        spec_resolve(d, a + b) == match spec_resolve(d, a) {
            Ok(m) => spec_resolve(m, b),
            Err(e) => Err(e),
        },
    decreases a.len(),
{
    if a.len() == 0 {
        assert(a + b =~= b);
    } else {
        let ab = a + b;
        assert(ab[0] == a[0]);
        assert(ab.drop_first() =~= a.drop_first() + b);
        match d {
            Json::Obj(pairs) => {
                match obj_lookup(pairs@, a[0]) {
                    Some(v) => {
                        lemma_resolve_compose(v, a.drop_first(), b);
                    },
                    None => {},
                }
            },
            Json::Arr(items) => {
                if a[0] =~= seq!['-'] {
                } else {
                    match spec_parse_index(a[0]) {
                        Some(n) => {
                            if n < items@.len() {
                                lemma_resolve_compose(items@[n], a.drop_first(), b);
                            }
                        },
                        None => {},
                    }
                }
            },
            _ => {},
        }
    }
}

} // verus!

