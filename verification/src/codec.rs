//! Rendering interchange values as guest-readable literal text: a number
//! renders as its literal text, a string as a quoted literal with every
//! quote, backslash and control character escaped, a sequence as a
//! bracketed comma-separated list, and a mapping as a braced list of
//! quoted keys and values.
use vstd::prelude::*;

use crate::value::{SpecValue, Value};

verus! {

broadcast use vstd::seq::group_seq_axioms, vstd::std_specs::vec::group_vec_axioms;

/// Relies on std's String::push: appends exactly the given character.
pub assume_specification[ String::push ](s: &mut String, c: char)
    ensures
        final(s)@ == old(s)@.push(c),
;

/// The lower-case hexadecimal digit with value `n`.
pub open spec fn hex_digit(n: int) -> char {
    if n == 0 {
        '0'
    } else if n == 1 {
        '1'
    } else if n == 2 {
        '2'
    } else if n == 3 {
        '3'
    } else if n == 4 {
        '4'
    } else if n == 5 {
        '5'
    } else if n == 6 {
        '6'
    } else if n == 7 {
        '7'
    } else if n == 8 {
        '8'
    } else if n == 9 {
        '9'
    } else if n == 10 {
        'a'
    } else if n == 11 {
        'b'
    } else if n == 12 {
        'c'
    } else if n == 13 {
        'd'
    } else if n == 14 {
        'e'
    } else {
        'f'
    }
}

/// How one character appears inside a quoted guest string literal:
/// itself, a two-character escape, or a `\u00..` escape for the
/// remaining control characters.
pub open spec fn escape_char(c: char) -> Seq<char> {
    if c == '"' {
        seq!['\\', '"']
    } else if c == '\\' {
        seq!['\\', '\\']
    } else if c == '\u{8}' {
        seq!['\\', 'b']
    } else if c == '\t' {
        seq!['\\', 't']
    } else if c == '\n' {
        seq!['\\', 'n']
    } else if c == '\u{c}' {
        seq!['\\', 'f']
    } else if c == '\r' {
        seq!['\\', 'r']
    } else if (c as u32) < 0x20 {
        seq!['\\', 'u', '0', '0', hex_digit((c as u32) as int / 16), hex_digit(
            (c as u32) as int % 16,
        )]
    } else {
        seq![c]
    }
}

/// The escaped form of a whole text, character by character.
pub open spec fn escape_text(s: Seq<char>) -> Seq<char>
    decreases s.len(),
{
    if s.len() == 0 {
        Seq::empty()
    } else {
        escape_text(s.drop_last()) + escape_char(s.last())
    }
}

/// A quoted guest string literal: quote, escaped text, quote.
pub open spec fn quoted(s: Seq<char>) -> Seq<char> {
    seq!['"'] + escape_text(s) + seq!['"']
}

/// The lower-case hexadecimal digit with value `n`, as executable code.
fn hex_digit_exec(n: u32) -> (c: char)
    requires
        n < 16,
    ensures
        c == hex_digit(n as int),
{
    if n == 0 {
        '0'
    } else if n == 1 {
        '1'
    } else if n == 2 {
        '2'
    } else if n == 3 {
        '3'
    } else if n == 4 {
        '4'
    } else if n == 5 {
        '5'
    } else if n == 6 {
        '6'
    } else if n == 7 {
        '7'
    } else if n == 8 {
        '8'
    } else if n == 9 {
        '9'
    } else if n == 10 {
        'a'
    } else if n == 11 {
        'b'
    } else if n == 12 {
        'c'
    } else if n == 13 {
        'd'
    } else if n == 14 {
        'e'
    } else {
        'f'
    }
}

/// Appends the escaped form of one character to `out`.
fn push_escape_char(out: &mut String, c: char)
    ensures
        final(out)@ == old(out)@ + escape_char(c),
{
    if c == '"' {
        out.push('\\');
        out.push('"');
    } else if c == '\\' {
        out.push('\\');
        out.push('\\');
    } else if c == '\u{8}' {
        out.push('\\');
        out.push('b');
    } else if c == '\t' {
        out.push('\\');
        out.push('t');
    } else if c == '\n' {
        out.push('\\');
        out.push('n');
    } else if c == '\u{c}' {
        out.push('\\');
        out.push('f');
    } else if c == '\r' {
        out.push('\\');
        out.push('r');
    } else if (c as u32) < 0x20 {
        let n = c as u32;
        out.push('\\');
        out.push('u');
        out.push('0');
        out.push('0');
        out.push(hex_digit_exec(n / 16));
        out.push(hex_digit_exec(n % 16));
    } else {
        out.push(c);
    }
    proof {
        assert(out@ =~= old(out)@ + escape_char(c));
    }
}

/// Appends the escaped characters of `s`, without the quotes, to `out`.
fn append_escaped(out: &mut String, s: &str)
    ensures
        final(out)@ == old(out)@ + escape_text(s@),
{
    let n = s.unicode_len();
    let mut i: usize = 0;
    while i < n
        invariant
            n == s@.len(),
            i <= n,
            out@ == old(out)@ + escape_text(s@.take(i as int)),
        decreases n - i,
    {
        let c = s.get_char(i);
        push_escape_char(out, c);
        proof {
            assert(s@.take(i + 1).drop_last() =~= s@.take(i as int));
            assert(s@.take(i + 1).last() == c);
            assert(out@ =~= old(out)@ + escape_text(s@.take(i + 1)));
        }
        i = i + 1;
    }
    proof {
        assert(s@.take(n as int) =~= s@);
    }
}

/// Renders a text as a quoted, escaped guest string literal, so that
/// arbitrary text, quotes and newlines included, cannot break out of
/// the literal.
pub fn encode_string_literal(s: &str) -> (r: String)
    ensures
        r@ == quoted(s@),
{
    let mut out = String::new();
    out.push('"');
    append_escaped(&mut out, s);
    out.push('"');
    proof {
        assert(out@ =~= quoted(s@));
    }
    out
}

/// The guest-readable literal text of an interchange value.
pub open spec fn text_of(v: SpecValue) -> Seq<char>
    decreases v,
{
    match v {
        SpecValue::Null => seq!['n', 'u', 'l', 'l'],
        SpecValue::Bool(b) => if b {
            seq!['t', 'r', 'u', 'e']
        } else {
            seq!['f', 'a', 'l', 's', 'e']
        },
        SpecValue::Num(s) => s,
        SpecValue::Str(s) => quoted(s),
        SpecValue::Arr(vs) => seq!['['] + arr_text(vs) + seq![']'],
        SpecValue::Obj(ps) => seq!['{'] + obj_text(ps) + seq!['}'],
    }
}

/// The comma-separated rendering of a sequence's elements.
pub open spec fn arr_text(vs: Seq<SpecValue>) -> Seq<char>
    decreases vs,
{
    if vs.len() == 0 {
        Seq::empty()
    } else if vs.len() == 1 {
        text_of(vs[0])
    } else {
        arr_text(vs.drop_last()) + seq![','] + text_of(vs.last())
    }
}

/// The comma-separated rendering of a mapping's quoted keys and values.
pub open spec fn obj_text(ps: Seq<(Seq<char>, SpecValue)>) -> Seq<char>
    decreases ps,
{
    if ps.len() == 0 {
        Seq::empty()
    } else if ps.len() == 1 {
        quoted(ps[0].0) + seq![':'] + text_of(ps[0].1)
    } else {
        obj_text(ps.drop_last()) + seq![','] + quoted(ps.last().0) + seq![':'] + text_of(
            ps.last().1,
        )
    }
}

/// Renders an interchange value as guest-readable literal text.
#[verifier::loop_isolation(false)]
pub fn to_guest_text(v: &Value) -> (r: String)
    ensures
        r@ == text_of(v@),
    decreases v,
{
    match v {
        Value::Null => {
            let r = String::from_str("null");
            proof {
                reveal_strlit("null");
                assert(r@ =~= text_of(v@));
            }
            r
        },
        Value::Bool(b) => {
            if *b {
                let r = String::from_str("true");
                proof {
                    reveal_strlit("true");
                    assert(r@ =~= text_of(v@));
                }
                r
            } else {
                let r = String::from_str("false");
                proof {
                    reveal_strlit("false");
                    assert(r@ =~= text_of(v@));
                }
                r
            }
        },
        Value::Num(s) => s.clone(),
        Value::Str(s) => encode_string_literal(s.as_str()),
        Value::Arr(vs) => {
            let ghost sv = v@->Arr_0;
            let mut out = String::new();
            out.push('[');
            let mut i: usize = 0;
            while i < vs.len()
                invariant
                    i <= vs.len(),
                    out@ == seq!['['] + arr_text(sv.take(i as int)),
                decreases vs.len() - i,
            {
                if i > 0 {
                    out.push(',');
                }
                let piece = to_guest_text(&vs[i]);
                out.append(piece.as_str());
                proof {
                    assert(sv.take(i + 1).drop_last() =~= sv.take(i as int));
                    assert(sv.take(i + 1).last() == sv[i as int]);
                    assert(out@ =~= seq!['['] + arr_text(sv.take(i + 1)));
                }
                i = i + 1;
            }
            out.push(']');
            proof {
                assert(sv.take(vs@.len() as int) =~= sv);
                assert(out@ =~= text_of(v@));
            }
            out
        },
        Value::Obj(kvs) => {
            let ghost sp = v@->Obj_0;
            let mut out = String::new();
            out.push('{');
            let mut i: usize = 0;
            while i < kvs.len()
                invariant
                    i <= kvs.len(),
                    out@ == seq!['{'] + obj_text(sp.take(i as int)),
                decreases kvs.len() - i,
            {
                if i > 0 {
                    out.push(',');
                }
                let key = encode_string_literal(kvs[i].0.as_str());
                out.append(key.as_str());
                out.push(':');
                let piece = to_guest_text(&kvs[i].1);
                out.append(piece.as_str());
                proof {
                    assert(sp.take(i + 1).drop_last() =~= sp.take(i as int));
                    assert(sp.take(i + 1).last() == sp[i as int]);
                    assert(out@ =~= seq!['{'] + obj_text(sp.take(i + 1)));
                }
                i = i + 1;
            }
            out.push('}');
            proof {
                assert(sp.take(kvs@.len() as int) =~= sp);
                assert(out@ =~= text_of(v@));
            }
            out
        },
    }
}

} // verus!
