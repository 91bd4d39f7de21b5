//! Rendering a [`Json`] value as compact JSON text.
//!
//! The case-folded forms of the `test` and `in` predicates compare the
//! serialized text of whole values, so the text form is pinned down
//! here: objects and arrays without spaces, strings quoted with the
//! usual two-character escapes and `\u00..` for other control
//! characters, numbers in plain decimal.

use vstd::prelude::*;
use vstd::string::*;
use crate::json_value::Json;
use crate::json_value::JsonNum;
use crate::strings::dec_digits;
use crate::strings::digit_char;

verus! {

broadcast use vstd::std_specs::vec::group_vec_axioms;

/// The character for one hexadecimal digit value, in lower case.
pub open spec fn hex_char(d: int) -> char {
    if d < 10 {
        digit_char(d)
    } else if d == 10 {
        'a'
    } else if d == 11 {
        'b'
    } else if d == 12 {
        'c'
    } else if d == 13 {
        'd'
    } else if d == 14 {
        'e'
    } else {
        'f'
    }
}

/// How one character appears inside a JSON string literal.
pub open spec fn esc_char(c: char) -> Seq<char> {
    if c == '"' {
        seq!['\\', '"']
    } else if c == '\\' {
        seq!['\\', '\\']
    } else if c == '\u{8}' {
        seq!['\\', 'b']
    } else if c == '\u{9}' {
        seq!['\\', 't']
    } else if c == '\u{A}' {
        seq!['\\', 'n']
    } else if c == '\u{C}' {
        seq!['\\', 'f']
    } else if c == '\u{D}' {
        seq!['\\', 'r']
    } else if (c as int) < 32 {
        seq!['\\', 'u', '0', '0', hex_char((c as int) / 16), hex_char((c as int) % 16)]
    } else {
        seq![c]
    }
}

/// The body of a JSON string literal for the characters `s`.
pub open spec fn escaped(s: Seq<char>) -> Seq<char>
    decreases s.len(),
{
    if s.len() == 0 {
        Seq::empty()
    } else {
        esc_char(s[0]) + escaped(s.drop_first())
    }
}

/// A whole JSON string literal: quotes around the escaped body.
pub open spec fn quoted(s: Seq<char>) -> Seq<char> {
    seq!['"'] + escaped(s) + seq!['"']
}

/// The decimal text of a number.
pub open spec fn num_text(n: JsonNum) -> Seq<char> {
    if n.neg {
        seq!['-'] + dec_digits(n.mag as nat)
    } else {
        dec_digits(n.mag as nat)
    }
}

/// The compact JSON text of a value.
pub open spec fn text_of(v: Json) -> Seq<char>
    decreases v, 0int,
{
    match v {
        Json::Null => seq!['n', 'u', 'l', 'l'],
        Json::Bool(b) => {
            if b {
                seq!['t', 'r', 'u', 'e']
            } else {
                seq!['f', 'a', 'l', 's', 'e']
            }
        },
        Json::Num(n) => num_text(n),
        Json::Str(s) => quoted(s@),
        Json::Arr(items) => seq!['['] + arr_text(items@) + seq![']'],
        Json::Obj(pairs) => seq!['{'] + obj_text(pairs@) + seq!['}'],
    }
}

/// The comma-separated texts of array elements.
pub open spec fn arr_text(items: Seq<Json>) -> Seq<char>
    decreases items, 1int,
{
    if items.len() == 0 {
        Seq::empty()
    } else {
        text_of(items[0]) + arr_tail(items.drop_first())
    }
}

/// The remaining array elements, each preceded by a comma.
pub open spec fn arr_tail(items: Seq<Json>) -> Seq<char>
    decreases items, 0int,
{
    if items.len() == 0 {
        Seq::empty()
    } else {
        seq![','] + text_of(items[0]) + arr_tail(items.drop_first())
    }
}

/// The comma-separated `"key":value` members of an object.
pub open spec fn obj_text(pairs: Seq<(String, Json)>) -> Seq<char>
    decreases pairs, 1int,
{
    if pairs.len() == 0 {
        Seq::empty()
    } else {
        quoted(pairs[0].0@) + seq![':'] + text_of(pairs[0].1) + obj_tail(pairs.drop_first())
    }
}

/// The remaining object members, each preceded by a comma.
pub open spec fn obj_tail(pairs: Seq<(String, Json)>) -> Seq<char>
    decreases pairs, 0int,
{
    if pairs.len() == 0 {
        Seq::empty()
    } else {
        seq![','] + quoted(pairs[0].0@) + seq![':'] + text_of(pairs[0].1) + obj_tail(
            pairs.drop_first(),
        )
    }
}

fn hex_to_char(d: u32) -> (r: char)
    requires
        d < 16,
    ensures
        r == hex_char(d as int),
{
    if d == 0 {
        '0'
    } else if d == 1 {
        '1'
    } else if d == 2 {
        '2'
    } else if d == 3 {
        '3'
    } else if d == 4 {
        '4'
    } else if d == 5 {
        '5'
    } else if d == 6 {
        '6'
    } else if d == 7 {
        '7'
    } else if d == 8 {
        '8'
    } else if d == 9 {
        '9'
    } else if d == 10 {
        'a'
    } else if d == 11 {
        'b'
    } else if d == 12 {
        'c'
    } else if d == 13 {
        'd'
    } else if d == 14 {
        'e'
    } else {
        'f'
    }
}

/// Append the escaped body of a string literal to `out`.
fn push_escaped(out: &mut String, s: &str)
    ensures
        final(out)@ == old(out)@ + escaped(s@),
{
    let n = s.unicode_len();
    let mut j: usize = 0;
    proof {
        assert(s@.skip(0) =~= s@);
        assert(old(out)@ + escaped(s@) =~= old(out)@ + escaped(s@));
    }
    while j < n
        invariant
            n == s@.len(),
            j <= n,
            out@ + escaped(s@.skip(j as int)) == old(out)@ + escaped(s@),
        decreases n - j,
    {
        let c = s.get_char(j);
        proof {
            let tl = s@.skip(j as int);
            assert(tl[0] == s@[j as int]);
            assert(tl.drop_first() =~= s@.skip(j + 1));
        }
        if c == '"' {
            out.push('\\');
            out.push('"');
        } else if c == '\\' {
            out.push('\\');
            out.push('\\');
        } else if c == '\u{8}' {
            out.push('\\');
            out.push('b');
        } else if c == '\u{9}' {
            out.push('\\');
            out.push('t');
        } else if c == '\u{A}' {
            out.push('\\');
            out.push('n');
        } else if c == '\u{C}' {
            out.push('\\');
            out.push('f');
        } else if c == '\u{D}' {
            out.push('\\');
            out.push('r');
        } else if (c as u32) < 32 {
            out.push('\\');
            out.push('u');
            out.push('0');
            out.push('0');
            out.push(hex_to_char((c as u32) / 16));
            out.push(hex_to_char((c as u32) % 16));
        } else {
            out.push(c);
        }
        proof {
            assert(out@ + escaped(s@.skip(j + 1)) =~= old(out)@ + escaped(s@));
        }
        j = j + 1;
    }
    proof {
        assert(escaped(s@.skip(n as int)) =~= Seq::<char>::empty());
        assert(out@ =~= old(out)@ + escaped(s@));
    }
}

/// Append a whole string literal, quotes included.
fn push_quoted(out: &mut String, s: &str)
    ensures
        final(out)@ == old(out)@ + quoted(s@),
{
    out.push('"');
    push_escaped(out, s);
    out.push('"');
    proof {
        assert(out@ =~= old(out)@ + quoted(s@));
    }
}

/// Append the decimal text of a number.
fn push_num(out: &mut String, n: &JsonNum)
    ensures
        final(out)@ == old(out)@ + num_text(*n),
{
    if n.neg {
        out.push('-');
    }
    crate::strings::push_decimal(out, n.mag);
    proof {
        assert(out@ =~= old(out)@ + num_text(*n));
    }
}

/// Append the compact JSON text of `v` to `out`.
pub fn push_text(out: &mut String, v: &Json)
    ensures
        final(out)@ == old(out)@ + text_of(*v),
    decreases *v,
{
    match v {
        Json::Null => {
            out.push('n');
            out.push('u');
            out.push('l');
            out.push('l');
            proof {
                assert(out@ =~= old(out)@ + text_of(*v));
            }
        },
        Json::Bool(b) => {
            if *b {
                out.push('t');
                out.push('r');
                out.push('u');
                out.push('e');
            } else {
                out.push('f');
                out.push('a');
                out.push('l');
                out.push('s');
                out.push('e');
            }
            proof {
                assert(out@ =~= old(out)@ + text_of(*v));
            }
        },
        Json::Num(n) => {
            push_num(out, n);
        },
        Json::Str(s) => {
            push_quoted(out, s.as_str());
        },
        Json::Arr(items) => {
            out.push('[');
            if items.len() > 0 {
                proof {
                    assert(decreases_to!(*v => v->Arr_0));
                    assert(decreases_to!(*items => items@));
                    assert(decreases_to!(items@ => items@[0]));
                }
                push_text(out, &items[0]);
                let mut i: usize = 1;
                proof {
                    assert(items@.drop_first() =~= items@.skip(1));
                    assert(out@ + arr_tail(items@.skip(1)) =~= old(out)@ + seq!['['] + arr_text(
                        items@,
                    ));
                }
                while i < items.len()
                    invariant
                        *v == Json::Arr(*items),
                        1 <= i <= items@.len(),
                        out@ + arr_tail(items@.skip(i as int)) == old(out)@ + seq!['[']
                            + arr_text(items@),
                    decreases items@.len() - i,
                {
                    proof {
                        let tl = items@.skip(i as int);
                        assert(tl[0] == items@[i as int]);
                        assert(tl.drop_first() =~= items@.skip(i + 1));
                        assert(decreases_to!(*v => v->Arr_0));
                        assert(decreases_to!(*items => items@));
                        assert(decreases_to!(items@ => items@[i as int]));
                    }
                    out.push(',');
                    push_text(out, &items[i]);
                    proof {
                        assert(out@ + arr_tail(items@.skip(i + 1)) =~= old(out)@ + seq!['[']
                            + arr_text(items@));
                    }
                    i = i + 1;
                }
                proof {
                    assert(arr_tail(items@.skip(items@.len() as int)) =~= Seq::<char>::empty());
                    assert(out@ =~= old(out)@ + seq!['['] + arr_text(items@));
                }
            } else {
                proof {
                    assert(arr_text(items@) =~= Seq::<char>::empty());
                    assert(out@ =~= old(out)@ + seq!['['] + arr_text(items@));
                }
            }
            out.push(']');
            proof {
                assert(out@ =~= old(out)@ + text_of(*v));
            }
        },
        Json::Obj(pairs) => {
            out.push('{');
            if pairs.len() > 0 {
                proof {
                    assert(decreases_to!(*v => v->Obj_0));
                    assert(decreases_to!(*pairs => pairs@));
                    assert(decreases_to!(pairs@ => pairs@[0]));
                    assert(decreases_to!(pairs@[0] => pairs@[0].1));
                }
                push_quoted(out, pairs[0].0.as_str());
                out.push(':');
                push_text(out, &pairs[0].1);
                let mut i: usize = 1;
                proof {
                    assert(pairs@.drop_first() =~= pairs@.skip(1));
                    assert(out@ + obj_tail(pairs@.skip(1)) =~= old(out)@ + seq!['{'] + obj_text(
                        pairs@,
                    ));
                }
                while i < pairs.len()
                    invariant
                        *v == Json::Obj(*pairs),
                        1 <= i <= pairs@.len(),
                        out@ + obj_tail(pairs@.skip(i as int)) == old(out)@ + seq!['{']
                            + obj_text(pairs@),
                    decreases pairs@.len() - i,
                {
                    proof {
                        let tl = pairs@.skip(i as int);
                        assert(tl[0] == pairs@[i as int]);
                        assert(tl.drop_first() =~= pairs@.skip(i + 1));
                        assert(decreases_to!(*v => v->Obj_0));
                        assert(decreases_to!(*pairs => pairs@));
                        assert(decreases_to!(pairs@ => pairs@[i as int]));
                        assert(decreases_to!(pairs@[i as int] => pairs@[i as int].1));
                    }
                    out.push(',');
                    push_quoted(out, pairs[i].0.as_str());
                    out.push(':');
                    push_text(out, &pairs[i].1);
                    proof {
                        assert(out@ + obj_tail(pairs@.skip(i + 1)) =~= old(out)@ + seq!['{']
                            + obj_text(pairs@));
                    }
                    i = i + 1;
                }
                proof {
                    assert(obj_tail(pairs@.skip(pairs@.len() as int)) =~= Seq::<char>::empty());
                    assert(out@ =~= old(out)@ + seq!['{'] + obj_text(pairs@));
                }
            } else {
                proof {
                    assert(obj_text(pairs@) =~= Seq::<char>::empty());
                    assert(out@ =~= old(out)@ + seq!['{'] + obj_text(pairs@));
                }
            }
            out.push('}');
            proof {
                assert(out@ =~= old(out)@ + text_of(*v));
            }
        },
    }
}

/// The compact JSON text of `v` as a fresh string.
pub fn to_text(v: &Json) -> (r: String)
    ensures
        r@ == text_of(*v),
{
    let mut out = String::new();
    push_text(&mut out, v);
    proof {
        assert(out@ =~= text_of(*v));
    }
    out
}

} // verus!
