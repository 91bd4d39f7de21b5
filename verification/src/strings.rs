//! Verified character-level string utilities: prefix, suffix and
//! substring tests, decimal formatting, and the case-folding wrapper.

use vstd::prelude::*;
use vstd::string::*;

verus! {

/// Relies on std's `String::push`: appends one character at the end.
pub assume_specification[ String::push ](s: &mut String, ch: char)
    ensures
        final(s)@ == old(s)@.push(ch),
;

/// What `str::to_lowercase` returns; it depends on the characters alone.
pub uninterp spec fn lower_of(s: Seq<char>) -> Seq<char>;

/// Relies on `str::to_lowercase`: Unicode lowercasing, a pure function
/// of the character sequence.
#[verifier::external_body]
pub(crate) fn lowercase(s: &str) -> (r: String)
    ensures
        r@ == lower_of(s@),
{
    s.to_lowercase()
}

/// `p` is a prefix of `s`.
pub open spec fn is_prefix(p: Seq<char>, s: Seq<char>) -> bool {
    p.len() <= s.len() && p == s.take(p.len() as int)
}

/// `p` is a suffix of `s`.
pub open spec fn is_suffix(p: Seq<char>, s: Seq<char>) -> bool {
    p.len() <= s.len() && p == s.skip(s.len() - p.len())
}

/// `p` occurs contiguously somewhere inside `s`.
pub open spec fn is_substring(p: Seq<char>, s: Seq<char>) -> bool {
    exists|k: int| 0 <= k <= s.len() - p.len() && p == #[trigger] s.subrange(k, k + p.len())
}

/// The characters of `a` and `b` are the same.
pub fn str_eq(a: &str, b: &str) -> (r: bool)
    ensures
        r == (a@ == b@),
{
    let an = a.unicode_len();
    let bn = b.unicode_len();
    if an != bn {
        proof {
            assert(a@ != b@);
        }
        return false;
    }
    let mut i: usize = 0;
    while i < an
        invariant
            an == a@.len(),
            an == b@.len(),
            i <= an,
            forall|j: int| 0 <= j < i ==> a@[j] == b@[j],
        decreases an - i,
    {
        if a.get_char(i) != b.get_char(i) {
            return false;
        }
        i = i + 1;
    }
    proof {
        assert(a@ =~= b@);
    }
    true
}

/// Does `s` start with `p`?
pub fn starts_with(s: &str, p: &str) -> (r: bool)
    ensures
        r == is_prefix(p@, s@),
{
    let sn = s.unicode_len();
    let pn = p.unicode_len();
    if pn > sn {
        return false;
    }
    let mut i: usize = 0;
    while i < pn
        invariant
            sn == s@.len(),
            pn == p@.len(),
            pn <= sn,
            i <= pn,
            forall|j: int| 0 <= j < i ==> p@[j] == s@[j],
        decreases pn - i,
    {
        if p.get_char(i) != s.get_char(i) {
            proof {
                assert(p@[i as int] != s@.take(pn as int)[i as int]);
            }
            return false;
        }
        i = i + 1;
    }
    proof {
        assert(p@ =~= s@.take(pn as int));
    }
    true
}

/// Does `s` end with `p`?
pub fn ends_with(s: &str, p: &str) -> (r: bool)
    ensures
        r == is_suffix(p@, s@),
{
    let sn = s.unicode_len();
    let pn = p.unicode_len();
    if pn > sn {
        return false;
    }
    let off = sn - pn;
    let mut i: usize = 0;
    while i < pn
        invariant
            sn == s@.len(),
            pn == p@.len(),
            pn <= sn,
            off == sn - pn,
            i <= pn,
            forall|j: int| 0 <= j < i ==> p@[j] == s@[off + j],
        decreases pn - i,
    {
        if p.get_char(i) != s.get_char(off + i) {
            proof {
                assert(p@[i as int] != s@.skip(off as int)[i as int]);
            }
            return false;
        }
        i = i + 1;
    }
    proof {
        assert(p@ =~= s@.skip(sn - pn));
    }
    true
}

/// Does `p` occur anywhere inside `s`?
pub fn contains_str(s: &str, p: &str) -> (r: bool)
    ensures
        r == is_substring(p@, s@),
{
    let sn = s.unicode_len();
    let pn = p.unicode_len();
    if pn > sn {
        return false;
    }
    if pn == 0 {
        proof {
            assert(s@.subrange(0, 0 + p@.len() as int) =~= p@);
            assert(is_substring(p@, s@));
        }
        return true;
    }
    let mut k: usize = 0;
    while k <= sn - pn
        invariant
            sn == s@.len(),
            pn == p@.len(),
            0 < pn <= sn,
            k <= sn - pn + 1,
            forall|k0: int| 0 <= k0 < k ==> p@ != #[trigger] s@.subrange(k0, k0 + pn),
        decreases sn - pn + 1 - k,
    {
        let mut i: usize = 0;
        let mut hit = true;
        while i < pn
            invariant
                sn == s@.len(),
                pn == p@.len(),
                pn <= sn,
                k <= sn - pn,
                i <= pn,
                hit ==> forall|j: int| 0 <= j < i ==> p@[j] == s@[k + j],
                !hit ==> p@ != s@.subrange(k as int, k + pn),
            decreases pn - i,
        {
            if p.get_char(i) != s.get_char(k + i) {
                proof {
                    assert(p@[i as int] != s@.subrange(k as int, k + pn)[i as int]);
                }
                hit = false;
                i = pn;
            } else {
                i = i + 1;
            }
        }
        if hit {
            proof {
                assert(p@ =~= s@.subrange(k as int, k + pn));
            }
            return true;
        }
        k = k + 1;
    }
    false
}

/// What `char::is_whitespace` returns for one character.
pub uninterp spec fn is_unicode_ws(c: char) -> bool;

/// Relies on std's `char::is_whitespace`: the Unicode white-space test.
pub assume_specification[ char::is_whitespace ](c: char) -> (r: bool)
    ensures
        r == is_unicode_ws(c),
;

/// Index of the first occurrence of `sep` in `s`, or `s.len()`.
pub open spec fn first_pos(s: Seq<char>, sep: char) -> nat
    decreases s.len(),
{
    if s.len() == 0 {
        0
    } else if s[0] == sep {
        0
    } else {
        1 + first_pos(s.drop_first(), sep)
    }
}

/// `s` split on every occurrence of `sep`; no splitting gives one part.
pub open spec fn split_all(s: Seq<char>, sep: char) -> Seq<Seq<char>>
    decreases s.len(),
{
    let i = first_pos(s, sep) as int;
    if i >= s.len() {
        seq![s]
    } else {
        seq![s.take(i)] + split_all(s.skip(i + 1), sep)
    }
}

/// `s` holds no occurrence of `sep`.
pub open spec fn sep_free(s: Seq<char>, sep: char) -> bool {
    forall|j: int| 0 <= j < s.len() ==> s[j] != sep
}

pub proof fn lemma_first_pos_none(a: Seq<char>, sep: char)
    requires
        sep_free(a, sep),
    ensures
        first_pos(a, sep) == a.len(),
    decreases a.len(),
{
    if a.len() > 0 {
        lemma_first_pos_none(a.drop_first(), sep);
    }
}

pub proof fn lemma_split_none(a: Seq<char>, sep: char)
    requires
        sep_free(a, sep),
    ensures
        split_all(a, sep) == seq![a],
{
    lemma_first_pos_none(a, sep);
}

pub proof fn lemma_first_pos_concat(a: Seq<char>, b: Seq<char>, sep: char)
    requires
        sep_free(a, sep),
        b.len() > 0,
        b[0] == sep,
    ensures
        first_pos(a + b, sep) == a.len(),
    decreases a.len(),
{
    if a.len() == 0 {
        assert(a + b =~= b);
    } else {
        assert((a + b).drop_first() =~= a.drop_first() + b);
        lemma_first_pos_concat(a.drop_first(), b, sep);
    }
}

pub proof fn lemma_split_at_sep(a: Seq<char>, b: Seq<char>, sep: char)
    requires
        sep_free(a, sep),
        b.len() > 0,
        b[0] == sep,
    ensures
        split_all(a + b, sep) == seq![a] + split_all(b.drop_first(), sep),
{
    lemma_first_pos_concat(a, b, sep);
    let i = a.len() as int;
    assert((a + b).take(i) =~= a);
    assert((a + b).skip(i + 1) =~= b.drop_first());
}

/// Split `s` on every occurrence of `sep`.
pub fn split_str(s: &str, sep: char) -> (r: Vec<String>)
    ensures
        r.deep_view() == split_all(s@, sep),
{
    let n = s.unicode_len();
    let mut parts: Vec<String> = Vec::new();
    let mut cur = String::new();
    let mut i: usize = 0;
    proof {
        assert(cur@ + s@.skip(0) =~= s@);
        assert(parts.deep_view() + split_all(cur@ + s@.skip(0), sep) =~= split_all(s@, sep));
    }
    while i < n
        invariant
            n == s@.len(),
            i <= n,
            sep_free(cur@, sep),
            split_all(s@, sep) == parts.deep_view() + split_all(cur@ + s@.skip(i as int), sep),
        decreases n - i,
    {
        let c = s.get_char(i);
        if c == sep {
            proof {
                lemma_split_at_sep(cur@, s@.skip(i as int), sep);
                assert(s@.skip(i as int)[0] == s@[i as int]);
                assert((s@.skip(i as int)).drop_first() =~= s@.skip(i + 1));
            }
            let ghost old_deep = parts.deep_view();
            let ghost old_cur = cur@;
            parts.push(cur);
            cur = String::new();
            proof {
                assert(parts.deep_view() =~= old_deep.push(old_cur));
                assert(old_deep + (seq![old_cur] + split_all(s@.skip(i + 1), sep))
                    =~= parts.deep_view() + split_all(s@.skip(i + 1), sep));
                assert(cur@ + s@.skip(i + 1) =~= s@.skip(i + 1));
            }
        } else {
            let ghost old_cur = cur@;
            cur.push(c);
            proof {
                assert(old_cur + s@.skip(i as int) =~= cur@ + s@.skip(i + 1));
            }
        }
        i = i + 1;
    }
    proof {
        assert(cur@ + s@.skip(n as int) =~= cur@);
        lemma_split_none(cur@, sep);
    }
    let ghost old_deep = parts.deep_view();
    let ghost old_cur = cur@;
    parts.push(cur);
    proof {
        assert(parts.deep_view() =~= old_deep.push(old_cur));
        assert(parts.deep_view() =~= split_all(s@, sep));
    }
    parts
}

/// `s` with leading white space removed.
pub open spec fn trim_front(s: Seq<char>) -> Seq<char>
    decreases s.len(),
{
    if s.len() > 0 && is_unicode_ws(s[0]) {
        trim_front(s.drop_first())
    } else {
        s
    }
}

/// `s` with trailing white space removed.
pub open spec fn trim_back(s: Seq<char>) -> Seq<char>
    decreases s.len(),
{
    if s.len() > 0 && is_unicode_ws(s.last()) {
        trim_back(s.drop_last())
    } else {
        s
    }
}

/// `s` with white space removed at both ends.
pub open spec fn trim_spec(s: Seq<char>) -> Seq<char> {
    trim_back(trim_front(s))
}

/// The characters of `s` with surrounding white space removed.
pub fn trim_str(s: &str) -> (r: String)
    ensures
        r@ == trim_spec(s@),
{
    let n = s.unicode_len();
    let mut i: usize = 0;
    proof {
        assert(s@.skip(0) =~= s@);
    }
    while i < n && s.get_char(i).is_whitespace()
        invariant
            n == s@.len(),
            i <= n,
            trim_front(s@) == trim_front(s@.skip(i as int)),
        decreases n - i,
    {
        proof {
            let tl = s@.skip(i as int);
            assert(tl[0] == s@[i as int]);
            assert(tl.drop_first() =~= s@.skip(i + 1));
        }
        i = i + 1;
    }
    proof {
        if i < n {
            assert(s@.skip(i as int)[0] == s@[i as int]);
        } else {
            assert(s@.skip(i as int) =~= Seq::<char>::empty());
        }
        assert(trim_front(s@) == s@.skip(i as int));
    }
    let mut j: usize = n;
    proof {
        assert(s@.subrange(i as int, j as int) =~= s@.skip(i as int));
    }
    while j > i && s.get_char(j - 1).is_whitespace()
        invariant
            n == s@.len(),
            i <= j <= n,
            trim_front(s@) == s@.skip(i as int),
            trim_back(s@.skip(i as int)) == trim_back(s@.subrange(i as int, j as int)),
        decreases j,
    {
        proof {
            let tl = s@.subrange(i as int, j as int);
            assert(tl.last() == s@[j - 1]);
            assert(tl.drop_last() =~= s@.subrange(i as int, j - 1));
        }
        j = j - 1;
    }
    proof {
        let tl = s@.subrange(i as int, j as int);
        if j > i {
            assert(tl.last() == s@[j - 1]);
        }
        assert(trim_back(s@.subrange(i as int, j as int)) == s@.subrange(i as int, j as int));
    }
    let mut out = String::new();
    let mut k: usize = i;
    proof {
        assert(out@ =~= s@.subrange(i as int, i as int));
    }
    while k < j
        invariant
            n == s@.len(),
            i <= k <= j <= n,
            out@ == s@.subrange(i as int, k as int),
        decreases j - k,
    {
        out.push(s.get_char(k));
        proof {
            assert(out@ =~= s@.subrange(i as int, k + 1));
        }
        k = k + 1;
    }
    proof {
        assert(out@ == trim_spec(s@));
    }
    out
}

/// The decimal digits of `n`, most significant first.
pub open spec fn dec_digits(n: nat) -> Seq<char>
    decreases n,
{
    let d = digit_char((n % 10) as int);
    if n < 10 {
        seq![d]
    } else {
        dec_digits(n / 10).push(d)
    }
}

/// The character for one decimal digit value.
pub open spec fn digit_char(d: int) -> char {
    if d == 0 {
        '0'
    } else if d == 1 {
        '1'
    } else if d == 2 {
        '2'
    } else if d == 3 {
        '3'
    } else if d == 4 {
        '4'
    } else if d == 5 {
        '5'
    } else if d == 6 {
        '6'
    } else if d == 7 {
        '7'
    } else if d == 8 {
        '8'
    } else {
        '9'
    }
}

fn digit_to_char(d: u64) -> (r: char)
    requires
        d < 10,
    ensures
        r == digit_char(d as int),
{
    if d == 0 {
        '0'
    } else if d == 1 {
        '1'
    } else if d == 2 {
        '2'
    } else if d == 3 {
        '3'
    } else if d == 4 {
        '4'
    } else if d == 5 {
        '5'
    } else if d == 6 {
        '6'
    } else if d == 7 {
        '7'
    } else if d == 8 {
        '8'
    } else {
        '9'
    }
}

/// Append the decimal form of `n` to `out`.
pub fn push_decimal(out: &mut String, n: u64)
    ensures
        final(out)@ == old(out)@ + dec_digits(n as nat),
    decreases n,
{
    if n < 10 {
        out.push(digit_to_char(n));
    } else {
        push_decimal(out, n / 10);
        out.push(digit_to_char(n % 10));
        proof {
            assert(old(out)@ + dec_digits((n / 10) as nat).push(digit_char((n % 10) as int)) =~= (
            old(out)@ + dec_digits((n / 10) as nat)).push(digit_char((n % 10) as int)));
        }
    }
}

} // verus!
