//! JSON Pointer paths: an ordered sequence of reference tokens.
//!
//! A pointer string is either empty (the root) or a sequence of
//! `/`-separated tokens in which `~0` stands for `~` and `~1` stands
//! for `/`.  Parsing rejects a missing leading slash and malformed
//! `~` escapes; serializing re-escapes each token.

use vstd::prelude::*;
use vstd::string::*;

verus! {

/// Why a pointer string failed to parse.
#[derive(Debug, Clone, Copy, PartialEq, Eq, Structural)]
pub enum JSONPathError {
    /// A `~` escape was not followed by `0` or `1`.
    InvalidEscape,
    /// A non-empty pointer string did not start with `/`.
    NoLeadingSlash,
}

/// A parsed JSON Pointer: the sequence of unescaped reference tokens.
/// The empty sequence denotes the document root.
#[derive(Debug, Clone, PartialEq, Eq)]
pub struct JSONPath {
    toks: Vec<String>,
}

impl View for JSONPath {
    type V = Seq<Seq<char>>;

    closed spec fn view(&self) -> Seq<Seq<char>> {
        self.toks.deep_view()
    }
}

impl DeepView for JSONPath {
    type V = Seq<Seq<char>>;

    open spec fn deep_view(&self) -> Seq<Seq<char>> {
        self.view()
    }
}

/// Every `~` in `s` is immediately followed by `0` or `1`.
pub open spec fn escapes_ok(s: Seq<char>) -> bool {
    forall|j: int|
        0 <= j < s.len() && #[trigger] s[j] == '~' ==> j + 1 < s.len() && (s[j + 1] == '0' || s[j
            + 1] == '1')
}

/// `s` holds no separator character.
pub open spec fn no_slash(s: Seq<char>) -> bool {
    forall|j: int| 0 <= j < s.len() ==> s[j] != '/'
}

/// Index of the first `/` in `s`, or `s.len()` if there is none.
pub open spec fn first_slash(s: Seq<char>) -> nat
    decreases s.len(),
{
    if s.len() == 0 {
        0
    } else if s[0] == '/' {
        0
    } else {
        1 + first_slash(s.drop_first())
    }
}

/// The raw (still escaped) tokens of `s`, which is a pointer string
/// with its leading `/` removed, split on `/`.
pub open spec fn split_tail(s: Seq<char>) -> Seq<Seq<char>>
    decreases s.len(),
{
    let i = first_slash(s) as int;
    if i >= s.len() {
        seq![s]
    } else {
        seq![s.take(i)] + split_tail(s.skip(i + 1))
    }
}

/// Decode `~0` to `~` and `~1` to `/`; other characters stand for themselves.
pub open spec fn unescape(s: Seq<char>) -> Seq<char>
    decreases s.len(),
{
    if s.len() == 0 {
        Seq::empty()
    } else if s[0] == '~' {
        if s.len() >= 2 {
            let c = if s[1] == '0' {
                '~'
            } else {
                '/'
            };
            seq![c] + unescape(s.skip(2))
        } else {
            seq!['~']
        }
    } else {
        seq![s[0]] + unescape(s.skip(1))
    }
}

/// Encode `~` as `~0` and `/` as `~1`; other characters stand for themselves.
pub open spec fn escape(s: Seq<char>) -> Seq<char>
    decreases s.len(),
{
    if s.len() == 0 {
        Seq::empty()
    } else {
        let head = if s[0] == '~' {
            seq!['~', '0']
        } else if s[0] == '/' {
            seq!['~', '1']
        } else {
            seq![s[0]]
        };
        head + escape(s.skip(1))
    }
}

/// What parsing a pointer string yields: the empty string is the root;
/// a non-empty string must start with `/` and hold only valid escapes,
/// and then splits into unescaped tokens.
pub open spec fn spec_parse(s: Seq<char>) -> Result<Seq<Seq<char>>, JSONPathError> {
    if s.len() == 0 {
        Ok(Seq::empty())
    } else if s[0] != '/' {
        Err(JSONPathError::NoLeadingSlash)
    } else if !escapes_ok(s) {
        Err(JSONPathError::InvalidEscape)
    } else {
        Ok(split_tail(s.skip(1)).map_values(|t: Seq<char>| unescape(t)))
    }
}

/// The pointer string of a token sequence: `/` before each escaped token.
pub open spec fn spec_serialize(toks: Seq<Seq<char>>) -> Seq<char>
    decreases toks.len(),
{
    if toks.len() == 0 {
        Seq::empty()
    } else {
        seq!['/'] + escape(toks[0]) + spec_serialize(toks.drop_first())
    }
}

proof fn lemma_escapes_ok_skip(a: Seq<char>, k: int)
    requires
        escapes_ok(a),
        0 <= k <= a.len(),
    ensures
        escapes_ok(a.skip(k)),
{
    let t = a.skip(k);
    assert forall|j: int| 0 <= j < t.len() && #[trigger] t[j] == '~' implies j + 1 < t.len() && (t[j
        + 1] == '0' || t[j + 1] == '1') by {
        assert(a[j + k] == '~');
    }
}

proof fn lemma_first_slash_none(a: Seq<char>)
    requires
        no_slash(a),
    ensures
        first_slash(a) == a.len(),
    decreases a.len(),
{
    if a.len() > 0 {
        lemma_first_slash_none(a.drop_first());
    }
}

proof fn lemma_first_slash_concat(a: Seq<char>, b: Seq<char>)
    requires
        no_slash(a),
        b.len() > 0,
        b[0] == '/',
    ensures
        first_slash(a + b) == a.len(),
    decreases a.len(),
{
    if a.len() == 0 {
        assert(a + b =~= b);
    } else {
        assert((a + b).drop_first() =~= a.drop_first() + b);
        lemma_first_slash_concat(a.drop_first(), b);
    }
}

proof fn lemma_split_no_slash(a: Seq<char>)
    requires
        no_slash(a),
    ensures
        split_tail(a) == seq![a],
{
    lemma_first_slash_none(a);
}

proof fn lemma_split_at_slash(a: Seq<char>, b: Seq<char>)
    requires
        no_slash(a),
        b.len() > 0,
        b[0] == '/',
    ensures
        split_tail(a + b) == seq![a] + split_tail(b.drop_first()),
{
    lemma_first_slash_concat(a, b);
    let i = a.len() as int;
    assert((a + b).take(i) =~= a);
    assert((a + b).skip(i + 1) =~= b.drop_first());
}

proof fn lemma_unescape_push_char(a: Seq<char>, c: char)
    requires
        escapes_ok(a),
        c != '~',
    ensures
        escapes_ok(a.push(c)),
        unescape(a.push(c)) == unescape(a).push(c),
    decreases a.len(),
{
    let ap = a.push(c);
    assert forall|j: int| 0 <= j < ap.len() && #[trigger] ap[j] == '~' implies j + 1 < ap.len() && (
    ap[j + 1] == '0' || ap[j + 1] == '1') by {
        assert(j < a.len());
        assert(a[j] == '~');
    }
    if a.len() == 0 {
        assert(ap =~= seq![c]);
        assert(ap.skip(1) =~= Seq::<char>::empty());
        assert(unescape(Seq::<char>::empty()) == Seq::<char>::empty());
        assert(unescape(ap) == seq![ap[0]] + unescape(ap.skip(1)));
        assert(unescape(ap) =~= seq![c]);
        assert(unescape(a).push(c) =~= seq![c]);
    } else if a[0] == '~' {
        assert(a[1] == '0' || a[1] == '1') by {
            assert(a[0] == '~');
        }
        assert(ap.skip(2) =~= a.skip(2).push(c));
        lemma_escapes_ok_skip(a, 2);
        lemma_unescape_push_char(a.skip(2), c);
        let h = if a[1] == '0' {
            '~'
        } else {
            '/'
        };
        assert(unescape(ap) =~= seq![h] + unescape(a.skip(2)).push(c));
        assert(unescape(a).push(c) =~= seq![h] + unescape(a.skip(2)).push(c));
    } else {
        assert(ap.skip(1) =~= a.skip(1).push(c));
        lemma_escapes_ok_skip(a, 1);
        lemma_unescape_push_char(a.skip(1), c);
        assert(unescape(ap) =~= seq![a[0]] + unescape(a.skip(1)).push(c));
        assert(unescape(a).push(c) =~= seq![a[0]] + unescape(a.skip(1)).push(c));
    }
}

proof fn lemma_unescape_push_pair(a: Seq<char>, d: char)
    requires
        escapes_ok(a),
        d == '0' || d == '1',
    ensures
        escapes_ok(a + seq!['~', d]),
        unescape(a + seq!['~', d]) == unescape(a).push(
            if d == '0' {
                '~'
            } else {
                '/'
            },
        ),
    decreases a.len(),
{
    let p = seq!['~', d];
    let ap = a + p;
    let u = if d == '0' {
        '~'
    } else {
        '/'
    };
    assert forall|j: int| 0 <= j < ap.len() && #[trigger] ap[j] == '~' implies j + 1 < ap.len() && (
    ap[j + 1] == '0' || ap[j + 1] == '1') by {
        if j < a.len() {
            assert(a[j] == '~');
            assert(j + 1 < a.len());
        } else if j == a.len() {
            assert(ap[j + 1] == d);
        } else {
            assert(ap[j] == d);
        }
    }
    if a.len() == 0 {
        assert(ap =~= p);
        assert(ap[0] == '~' && ap[1] == d);
        assert(ap.len() == 2);
        assert(ap.skip(2) =~= Seq::<char>::empty());
        assert(unescape(Seq::<char>::empty()) == Seq::<char>::empty());
        assert(unescape(ap) == seq![u] + unescape(ap.skip(2)));
        assert(unescape(ap) =~= seq![u]);
        assert(unescape(a).push(u) =~= seq![u]);
    } else if a[0] == '~' {
        assert(a[1] == '0' || a[1] == '1') by {
            assert(a[0] == '~');
        }
        assert(ap.skip(2) =~= a.skip(2) + p);
        lemma_escapes_ok_skip(a, 2);
        lemma_unescape_push_pair(a.skip(2), d);
        let h = if a[1] == '0' {
            '~'
        } else {
            '/'
        };
        assert(unescape(ap) =~= seq![h] + unescape(a.skip(2)).push(u));
        assert(unescape(a).push(u) =~= seq![h] + unescape(a.skip(2)).push(u));
    } else {
        assert(ap.skip(1) =~= a.skip(1) + p);
        lemma_escapes_ok_skip(a, 1);
        lemma_unescape_push_pair(a.skip(1), d);
        assert(unescape(ap) =~= seq![a[0]] + unescape(a.skip(1)).push(u));
        assert(unescape(a).push(u) =~= seq![a[0]] + unescape(a.skip(1)).push(u));
    }
}

proof fn lemma_first_slash_bound(s: Seq<char>)
    ensures
        first_slash(s) <= s.len(),
        first_slash(s) < s.len() ==> s[first_slash(s) as int] == '/',
        forall|j: int| 0 <= j < first_slash(s) ==> #[trigger] s[j] != '/',
    decreases s.len(),
{
    if s.len() > 0 && s[0] != '/' {
        lemma_first_slash_bound(s.drop_first());
        let f = first_slash(s) as int;
        assert forall|j: int| 0 <= j < f implies #[trigger] s[j] != '/' by {
            if j > 0 {
                assert(s.drop_first()[j - 1] != '/');
            }
        }
    }
}

proof fn lemma_escape_unescape(a: Seq<char>)
    requires
        escapes_ok(a),
        no_slash(a),
    ensures
        escape(unescape(a)) == a,
    decreases a.len(),
{
    if a.len() == 0 {
        assert(unescape(a) == Seq::<char>::empty());
        assert(escape(Seq::<char>::empty()) == Seq::<char>::empty());
    } else if a[0] == '~' {
        assert(a[1] == '0' || a[1] == '1') by {
            assert(a[0] == '~');
        }
        let h = if a[1] == '0' {
            '~'
        } else {
            '/'
        };
        let u = unescape(a.skip(2));
        assert(unescape(a) == seq![h] + u);
        lemma_escapes_ok_skip(a, 2);
        assert(no_slash(a.skip(2))) by {
            assert forall|j: int| 0 <= j < a.skip(2).len() implies a.skip(2)[j] != '/' by {
                assert(a[j + 2] != '/');
            }
        }
        lemma_escape_unescape(a.skip(2));
        let hu = seq![h] + u;
        assert(hu[0] == h);
        assert(hu.skip(1) =~= u);
        assert(escape(hu) == (if h == '~' {
            seq!['~', '0']
        } else {
            seq!['~', '1']
        }) + escape(u));
        assert(escape(hu) =~= a) by {
            assert(a =~= (if h == '~' {
                seq!['~', '0']
            } else {
                seq!['~', '1']
            }) + a.skip(2));
        }
    } else {
        let u = unescape(a.skip(1));
        assert(unescape(a) == seq![a[0]] + u);
        lemma_escapes_ok_skip(a, 1);
        assert(no_slash(a.skip(1))) by {
            assert forall|j: int| 0 <= j < a.skip(1).len() implies a.skip(1)[j] != '/' by {
                assert(a[j + 1] != '/');
            }
        }
        lemma_escape_unescape(a.skip(1));
        let hu = seq![a[0]] + u;
        assert(hu[0] == a[0]);
        assert(hu.skip(1) =~= u);
        assert(a[0] != '/');
        assert(escape(hu) == seq![a[0]] + escape(u));
        assert(escape(hu) =~= a) by {
            assert(a =~= seq![a[0]] + a.skip(1));
        }
    }
}

proof fn lemma_serialize_split(t: Seq<char>)
    requires
        escapes_ok(t),
    ensures
        spec_serialize(split_tail(t).map_values(|x: Seq<char>| unescape(x))) == seq!['/'] + t,
    decreases t.len(),
{
    lemma_first_slash_bound(t);
    let i = first_slash(t) as int;
    let f = |x: Seq<char>| unescape(x);
    if i >= t.len() {
        assert(no_slash(t));
        let m = split_tail(t).map_values(f);
        assert(m =~= seq![unescape(t)]);
        assert(m.drop_first() =~= Seq::<Seq<char>>::empty());
        assert(spec_serialize(Seq::<Seq<char>>::empty()) == Seq::<char>::empty());
        assert(spec_serialize(m) == seq!['/'] + escape(m[0]) + spec_serialize(m.drop_first()));
        lemma_escape_unescape(t);
        assert(spec_serialize(m) =~= seq!['/'] + t);
    } else {
        let head = t.take(i);
        let rest = t.skip(i + 1);
        assert(t[i] == '/');
        assert(no_slash(head)) by {
            assert forall|j: int| 0 <= j < head.len() implies head[j] != '/' by {
                assert(t[j] != '/');
            }
        }
        assert(escapes_ok(head)) by {
            assert forall|j: int|
                0 <= j < head.len() && #[trigger] head[j] == '~' implies j + 1 < head.len() && (
            head[j + 1] == '0' || head[j + 1] == '1') by {
                assert(t[j] == '~');
                assert(j + 1 < t.len() && (t[j + 1] == '0' || t[j + 1] == '1'));
                assert(j + 1 != i);
            }
        }
        lemma_escapes_ok_skip(t, i + 1);
        lemma_serialize_split(rest);
        lemma_escape_unescape(head);
        let m = split_tail(t).map_values(f);
        let mrest = split_tail(rest).map_values(f);
        assert(split_tail(t) == seq![head] + split_tail(rest));
        assert(m =~= seq![unescape(head)] + mrest);
        assert(m[0] == unescape(head));
        assert(m.drop_first() =~= mrest);
        assert(spec_serialize(m) == seq!['/'] + escape(unescape(head)) + spec_serialize(mrest));
        assert(spec_serialize(m) =~= seq!['/'] + t) by {
            assert(t =~= head + seq!['/'] + rest);
        }
    }
}

/// Round trip: a pointer string that parses serializes back to itself.
/// Every escape in such a string is already in canonical `~0`/`~1` form.
pub proof fn lemma_round_trip(s: Seq<char>)
    requires
        spec_parse(s) is Ok,
    ensures
        spec_serialize(spec_parse(s)->Ok_0) == s,
{
    if s.len() == 0 {
        assert(spec_serialize(Seq::<Seq<char>>::empty()) == Seq::<char>::empty());
        assert(Seq::<char>::empty() =~= s);
    } else {
        lemma_escapes_ok_skip(s, 1);
        lemma_serialize_split(s.skip(1));
        assert(seq!['/'] + s.skip(1) =~= s);
    }
}

/// Any non-empty pointer string that does not start with `/` is
/// rejected with `NoLeadingSlash`.
pub proof fn lemma_no_leading_slash(s: Seq<char>)
    requires
        s.len() > 0,
        s[0] != '/',
    ensures
        spec_parse(s) == Err::<Seq<Seq<char>>, JSONPathError>(JSONPathError::NoLeadingSlash),
{
}

impl JSONPath {
    /// Parse a pointer string.
    ///
    /// The empty string is the root path.  A non-empty string must
    /// start with `/`, else `NoLeadingSlash`; a `~` not followed by
    /// `0` or `1` gives `InvalidEscape`.
    pub fn new(s: &str) -> (r: Result<JSONPath, JSONPathError>)
        ensures
            match r {
                Ok(p) => spec_parse(s@) == Ok::<Seq<Seq<char>>, JSONPathError>(p@),
                Err(e) => spec_parse(s@) == Err::<Seq<Seq<char>>, JSONPathError>(e),
            },
    {
        let n = s.unicode_len();
        if n == 0 {
            let p = JSONPath { toks: Vec::new() };
            proof {
                assert(p@ =~= Seq::<Seq<char>>::empty());
            }
            return Ok(p);
        }
        if s.get_char(0) != '/' {
            return Err(JSONPathError::NoLeadingSlash);
        }
        // Check that every `~` escape is well formed.
        let mut i: usize = 0;
        while i < n
            invariant
                n == s@.len(),
                i <= n,
                s@[0] == '/',
                forall|j: int|
                    0 <= j < i && #[trigger] s@[j] == '~' ==> j + 1 < s@.len() && (s@[j + 1] == '0'
                        || s@[j + 1] == '1'),
            decreases n - i,
        {
            if s.get_char(i) == '~' {
                if i + 1 >= n {
                    return Err(JSONPathError::InvalidEscape);
                }
                let d = s.get_char(i + 1);
                if d != '0' && d != '1' {
                    return Err(JSONPathError::InvalidEscape);
                }
            }
            i = i + 1;
        }
        assert(escapes_ok(s@));
        // Split on `/`, unescaping as we go.
        let mut toks: Vec<String> = Vec::new();
        let mut cur = String::new();
        let ghost mut rawcur: Seq<char> = Seq::empty();
        let ghost mut raw_done: Seq<Seq<char>> = Seq::empty();
        let mut i: usize = 1;
        proof {
            assert(rawcur + s@.skip(1) =~= s@.skip(1));
            assert(raw_done + split_tail(s@.skip(1)) =~= split_tail(s@.skip(1)));
            assert(toks.deep_view() =~= raw_done.map_values(|t: Seq<char>| unescape(t)));
        }
        while i < n
            invariant
                n == s@.len(),
                1 <= i <= n,
                s@[0] == '/',
                escapes_ok(s@),
                escapes_ok(rawcur),
                no_slash(rawcur),
                cur@ == unescape(rawcur),
                toks.deep_view() == raw_done.map_values(|t: Seq<char>| unescape(t)),
                split_tail(s@.skip(1)) == raw_done + split_tail(rawcur + s@.skip(i as int)),
            decreases n - i,
        {
            let c = s.get_char(i);
            if c == '/' {
                proof {
                    lemma_split_at_slash(rawcur, s@.skip(i as int));
                    assert((s@.skip(i as int)).drop_first() =~= s@.skip(i + 1));
                    assert(raw_done + (seq![rawcur] + split_tail(s@.skip(i + 1))) =~= (raw_done
                        + seq![rawcur]) + split_tail(s@.skip(i + 1)));
                }
                let ghost old_deep = toks.deep_view();
                toks.push(cur);
                cur = String::new();
                proof {
                    assert(toks.deep_view() =~= old_deep.push(unescape(rawcur)));
                    raw_done = raw_done + seq![rawcur];
                    rawcur = Seq::empty();
                    assert(toks.deep_view() =~= raw_done.map_values(|t: Seq<char>| unescape(t)));
                    assert(rawcur + s@.skip(i + 1) =~= s@.skip(i + 1));
                }
            } else if c == '~' {
                assert(i + 1 < n) by {
                    assert(s@[i as int] == '~');
                }
                let d = s.get_char(i + 1);
                assert(d == '0' || d == '1') by {
                    assert(s@[i as int] == '~');
                }
                let u = if d == '0' {
                    '~'
                } else {
                    '/'
                };
                cur.push(u);
                proof {
                    lemma_unescape_push_pair(rawcur, d);
                    let old_raw = rawcur;
                    rawcur = rawcur + seq!['~', d];
                    assert(old_raw + s@.skip(i as int) =~= rawcur + s@.skip(i + 2));
                }
                i = i + 1;
            } else {
                cur.push(c);
                proof {
                    lemma_unescape_push_char(rawcur, c);
                    let old_raw = rawcur;
                    rawcur = rawcur.push(c);
                    assert(old_raw + s@.skip(i as int) =~= rawcur + s@.skip(i + 1));
                }
            }
            i = i + 1;
        }
        proof {
            assert(rawcur + s@.skip(n as int) =~= rawcur);
            lemma_split_no_slash(rawcur);
            assert(raw_done + seq![rawcur] =~= raw_done + split_tail(rawcur + s@.skip(n as int)));
        }
        let ghost old_deep = toks.deep_view();
        toks.push(cur);
        proof {
            assert(toks.deep_view() =~= old_deep.push(unescape(rawcur)));
            raw_done = raw_done + seq![rawcur];
            assert(toks.deep_view() =~= raw_done.map_values(|t: Seq<char>| unescape(t)));
        }
        let p = JSONPath { toks };
        proof {
            assert(p@ =~= split_tail(s@.skip(1)).map_values(|t: Seq<char>| unescape(t)));
        }
        Ok(p)
    }

    /// The root path: no tokens at all.
    pub fn empty() -> (r: JSONPath)
        ensures
            r@ == Seq::<Seq<char>>::empty(),
    {
        let p = JSONPath { toks: Vec::new() };
        proof {
            assert(p@ =~= Seq::<Seq<char>>::empty());
        }
        p
    }

    /// Hand out the unescaped reference tokens.
    pub fn take(self) -> (r: Vec<String>)
        ensures
            r.deep_view() == self@,
    {
        self.toks
    }

    /// Borrow the unescaped reference tokens.
    pub fn tokens(&self) -> (r: &Vec<String>)
        ensures
            r.deep_view() == self@,
    {
        &self.toks
    }

    /// The number of reference tokens.
    pub fn token_count(&self) -> (r: usize)
        ensures
            r == self@.len(),
    {
        self.toks.len()
    }

    /// An exact copy of this path.
    pub fn duplicate(&self) -> (r: JSONPath)
        ensures
            r@ == self@,
    {
        let mut toks: Vec<String> = Vec::new();
        let mut i: usize = 0;
        proof {
            assert(toks@ =~= self.toks@.take(0));
        }
        while i < self.toks.len()
            invariant
                i <= self.toks.len(),
                toks@ == self.toks@.take(i as int),
            decreases self.toks.len() - i,
        {
            toks.push(self.toks[i].clone());
            proof {
                assert(toks@ =~= self.toks@.take(i + 1));
            }
            i = i + 1;
        }
        proof {
            assert(self.toks@.take(self.toks.len() as int) =~= self.toks@);
        }
        let p = JSONPath { toks };
        p
    }

    /// Token-sequence concatenation: `self`'s tokens followed by `other`'s.
    pub fn compose(self, other: JSONPath) -> (r: JSONPath)
        ensures
            r@ == self@ + other@,
    {
        let mut toks = self.toks;
        let rest = other.toks;
        let ghost a = toks@;
        let ghost b = rest@;
        let ghost av = self@;
        let ghost bv = other@;
        let mut i: usize = 0;
        proof {
            assert(toks@ =~= a + b.take(0));
        }
        while i < rest.len()
            invariant
                i <= rest.len(),
                rest@ == b,
                toks@ == a + b.take(i as int),
            decreases rest.len() - i,
        {
            toks.push(rest[i].clone());
            proof {
                assert(toks@ =~= a + b.take(i + 1));
            }
            i = i + 1;
        }
        proof {
            assert(toks@ =~= a + b);
        }
        let p = JSONPath { toks };
        proof {
            assert(p@ =~= av + bv);
        }
        p
    }

    /// Render the path back as a pointer string, escaping each token.
    pub fn serialize(&self) -> (r: String)
        ensures
            r@ == spec_serialize(self@),
    {
        let mut out = String::new();
        let mut k: usize = 0;
        proof {
            assert(self@.skip(0) =~= self@);
            assert(out@ + spec_serialize(self@) =~= spec_serialize(self@));
        }
        while k < self.toks.len()
            invariant
                k <= self.toks.len(),
                spec_serialize(self@) == out@ + spec_serialize(self@.skip(k as int)),
            decreases self.toks.len() - k,
        {
            proof {
                let tl = self@.skip(k as int);
                assert(tl[0] == self@[k as int]);
                assert(tl.drop_first() =~= self@.skip(k + 1));
            }
            out.push('/');
            let tok = &self.toks[k];
            let m = tok.as_str().unicode_len();
            let mut j: usize = 0;
            proof {
                assert(tok@.skip(0) =~= tok@);
                assert(out@ + escape(tok@) + spec_serialize(self@.skip(k + 1)) =~= spec_serialize(
                    self@,
                ));
            }
            while j < m
                invariant
                    j <= m,
                    m == tok@.len(),
                    tok@ == self@[k as int],
                    k < self@.len(),
                    spec_serialize(self@) == out@ + escape(tok@.skip(j as int)) + spec_serialize(
                        self@.skip(k + 1),
                    ),
                decreases m - j,
            {
                let c = tok.as_str().get_char(j);
                proof {
                    let tl = tok@.skip(j as int);
                    assert(tl[0] == tok@[j as int]);
                    assert(tl.skip(1) =~= tok@.skip(j + 1));
                }
                if c == '~' {
                    out.push('~');
                    out.push('0');
                } else if c == '/' {
                    out.push('~');
                    out.push('1');
                } else {
                    out.push(c);
                }
                proof {
                    assert(out@ + escape(tok@.skip(j + 1)) + spec_serialize(self@.skip(k + 1)) =~= spec_serialize(
                        self@,
                    ));
                }
                j = j + 1;
            }
            proof {
                assert(escape(tok@.skip(m as int)) =~= Seq::<char>::empty());
                assert(out@ + spec_serialize(self@.skip(k + 1)) =~= spec_serialize(self@));
            }
            k = k + 1;
        }
        proof {
            assert(spec_serialize(self@.skip(self.toks.len() as int)) =~= Seq::<char>::empty());
        }
        out
    }
}

} // verus!
