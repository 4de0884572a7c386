//! Parsing guest-produced serialized text back into the interchange
//! form. The grammar is the compact textual form the guest's serializer
//! emits: `null`, `true`, `false`, numeric literals, quoted strings with
//! short and `\u....` escapes, bracketed sequences and braced mappings,
//! with no whitespace between tokens. A failure to parse is a
//! `Conversion` error: the shape of a successfully produced result was
//! unexpected, not a failure of execution.
use vstd::prelude::*;

use crate::errors::EvalError;
use crate::value::{SpecValue, Value, is_digit, num_end, num_end_exec, spec_value_of};

verus! {

broadcast use
    vstd::seq::group_seq_axioms,
    vstd::std_specs::vec::group_vec_axioms,
    vstd::utf8::char_u32_cast;

/// Relies on std's char::from_u32: `Some` exactly for code points that
/// are Unicode scalar values (below the surrogate range, or above it
/// and below 0x110000), and the returned character has that value.
pub assume_specification[ char::from_u32 ](n: u32) -> (r: Option<char>)
    ensures
        r is Some <==> (n < 0xD800 || (0xE000 <= n && n < 0x110000)),
        r matches Some(c) ==> c as u32 == n,
;

/// The value of a hexadecimal digit, or -1 for any other character.
pub open spec fn hex_val(c: char) -> int {
    if '0' <= c && c <= '9' {
        c as u32 - '0' as u32
    } else if 'a' <= c && c <= 'f' {
        c as u32 - 'a' as u32 + 10
    } else if 'A' <= c && c <= 'F' {
        c as u32 - 'A' as u32 + 10
    } else {
        -1
    }
}

/// The value of the four hexadecimal digits at `i`, if they are there.
pub open spec fn parse_hex4(s: Seq<char>, i: int) -> Option<int> {
    if 0 <= i && i + 4 <= s.len() && hex_val(s[i]) >= 0 && hex_val(s[i + 1]) >= 0 && hex_val(
        s[i + 2],
    ) >= 0 && hex_val(s[i + 3]) >= 0 {
        Some(hex_val(s[i]) * 4096 + hex_val(s[i + 1]) * 256 + hex_val(s[i + 2]) * 16 + hex_val(
            s[i + 3],
        ))
    } else {
        None
    }
}

/// The character named by a short escape, if the escape is defined.
pub open spec fn unescape_short(c: char) -> Option<char> {
    if c == '"' {
        Some('"')
    } else if c == '\\' {
        Some('\\')
    } else if c == '/' {
        Some('/')
    } else if c == 'b' {
        Some('\u{8}')
    } else if c == 'f' {
        Some('\u{c}')
    } else if c == 'n' {
        Some('\n')
    } else if c == 'r' {
        Some('\r')
    } else if c == 't' {
        Some('\t')
    } else {
        None
    }
}

/// Parses the body of a quoted string from `i` (just past the opening
/// quote), accumulating decoded characters onto `acc`; yields the
/// decoded text and the position just past the closing quote. A lone
/// surrogate escape or a raw control character is a parse failure.
pub open spec fn parse_string_body(s: Seq<char>, i: int, acc: Seq<char>) -> Option<(Seq<char>, int)>
    decreases s.len() - i,
{
    if i < 0 || i >= s.len() {
        None
    } else {
        let c = s[i];
        if c == '"' {
            Some((acc, i + 1))
        } else if c == '\\' {
            if i + 1 >= s.len() {
                None
            } else {
                let e = s[i + 1];
                if e == 'u' {
                    match parse_hex4(s, i + 2) {
                        Option::None => None,
                        Option::Some(h) => {
                            if 0xD800 <= h && h < 0xE000 {
                                None
                            } else {
                                parse_string_body(s, i + 6, acc.push(((h as u32) as char)))
                            }
                        },
                    }
                } else {
                    match unescape_short(e) {
                        Option::None => None,
                        Option::Some(ch) => parse_string_body(s, i + 2, acc.push(ch)),
                    }
                }
            }
        } else if (c as u32) < 0x20 {
            None
        } else {
            parse_string_body(s, i + 1, acc.push(c))
        }
    }
}

/// Parses one value at position `i`. The fuel only bounds the number of
/// parsing steps so the definition is well founded; the top-level entry
/// supplies more fuel than any input that fits in memory can consume.
pub open spec fn parse_value(s: Seq<char>, i: int, fuel: nat) -> Option<(SpecValue, int)>
    decreases fuel,
{
    if fuel == 0 || i < 0 || i >= s.len() {
        None
    } else {
        let c = s[i];
        if c == 'n' {
            if i + 4 <= s.len() && s[i + 1] == 'u' && s[i + 2] == 'l' && s[i + 3] == 'l' {
                Some((SpecValue::Null, i + 4))
            } else {
                None
            }
        } else if c == 't' {
            if i + 4 <= s.len() && s[i + 1] == 'r' && s[i + 2] == 'u' && s[i + 3] == 'e' {
                Some((SpecValue::Bool(true), i + 4))
            } else {
                None
            }
        } else if c == 'f' {
            if i + 5 <= s.len() && s[i + 1] == 'a' && s[i + 2] == 'l' && s[i + 3] == 's' && s[i + 4]
                == 'e' {
                Some((SpecValue::Bool(false), i + 5))
            } else {
                None
            }
        } else if c == '"' {
            match parse_string_body(s, i + 1, Seq::empty()) {
                Option::None => None,
                Option::Some((t, j)) => Some((SpecValue::Str(t), j)),
            }
        } else if c == '[' {
            if i + 1 < s.len() && s[i + 1] == ']' {
                Some((SpecValue::Arr(Seq::empty()), i + 2))
            } else {
                match parse_elems(s, i + 1, Seq::empty(), (fuel - 1) as nat) {
                    Option::None => None,
                    Option::Some((es, j)) => Some((SpecValue::Arr(es), j)),
                }
            }
        } else if c == '{' {
            if i + 1 < s.len() && s[i + 1] == '}' {
                Some((SpecValue::Obj(Seq::empty()), i + 2))
            } else {
                match parse_members(s, i + 1, Seq::empty(), (fuel - 1) as nat) {
                    Option::None => None,
                    Option::Some((ps, j)) => Some((SpecValue::Obj(ps), j)),
                }
            }
        } else if c == '-' || is_digit(c) {
            match num_end(s, i) {
                Option::None => None,
                Option::Some(j) => Some((SpecValue::Num(s.subrange(i, j)), j)),
            }
        } else {
            None
        }
    }
}

/// Parses the elements of a non-empty sequence from `i`, accumulating
/// onto `acc`, up to and past the closing bracket.
pub open spec fn parse_elems(s: Seq<char>, i: int, acc: Seq<SpecValue>, fuel: nat) -> Option<
    (Seq<SpecValue>, int),
>
    decreases fuel,
{
    if fuel == 0 {
        None
    } else {
        match parse_value(s, i, (fuel - 1) as nat) {
            Option::None => None,
            Option::Some((v, j)) => {
                if j < s.len() && s[j] == ',' {
                    parse_elems(s, j + 1, acc.push(v), (fuel - 1) as nat)
                } else if j < s.len() && s[j] == ']' {
                    Some((acc.push(v), j + 1))
                } else {
                    None
                }
            },
        }
    }
}

/// Parses the members of a non-empty mapping from `i`, accumulating
/// onto `acc`, up to and past the closing brace.
pub open spec fn parse_members(
    s: Seq<char>,
    i: int,
    acc: Seq<(Seq<char>, SpecValue)>,
    fuel: nat,
) -> Option<(Seq<(Seq<char>, SpecValue)>, int)>
    decreases fuel,
{
    if fuel == 0 {
        None
    } else if 0 <= i && i < s.len() && s[i] == '"' {
        match parse_string_body(s, i + 1, Seq::empty()) {
            Option::None => None,
            Option::Some((k, j)) => {
                if j < s.len() && s[j] == ':' {
                    match parse_value(s, j + 1, (fuel - 1) as nat) {
                        Option::None => None,
                        Option::Some((v, j2)) => {
                            if j2 < s.len() && s[j2] == ',' {
                                parse_members(s, j2 + 1, acc.push((k, v)), (fuel - 1) as nat)
                            } else if j2 < s.len() && s[j2] == '}' {
                                Some((acc.push((k, v)), j2 + 1))
                            } else {
                                None
                            }
                        },
                    }
                } else {
                    None
                }
            },
        }
    } else {
        None
    }
}

/// The fuel the top-level entry hands the parser: more steps than any
/// text that fits in memory can require.
pub open spec fn parse_fuel() -> nat {
    0xFFFF_FFFF_FFFF_FFFF as nat
}

/// The interchange value denoted by a whole text, if the text is one
/// well-formed serialized value with nothing trailing.
pub open spec fn parse_text(s: Seq<char>) -> Option<SpecValue> {
    match parse_value(s, 0, parse_fuel()) {
        Option::None => None,
        Option::Some((v, j)) => if j == s.len() {
            Some(v)
        } else {
            None
        },
    }
}

/// The model of a vector of parsed values.
pub open spec fn arr_view(vs: Vec<Value>) -> Seq<SpecValue> {
    Seq::new(
        vs@.len(),
        |k: int|
            if 0 <= k < vs@.len() {
                spec_value_of(vs@[k])
            } else {
                SpecValue::Null
            },
    )
}

/// The model of a vector of parsed key-value pairs.
pub open spec fn obj_view(ps: Vec<(String, Value)>) -> Seq<(Seq<char>, SpecValue)> {
    Seq::new(
        ps@.len(),
        |k: int|
            if 0 <= k < ps@.len() {
                (ps@[k].0@, spec_value_of(ps@[k].1))
            } else {
                (Seq::empty(), SpecValue::Null)
            },
    )
}

/// The value of a hexadecimal digit, as executable code.
fn hex_val_exec(c: char) -> (r: Option<u32>)
    ensures
        r matches Some(v) ==> v == hex_val(c) && v <= 15,
        r is None ==> hex_val(c) == -1,
{
    if '0' <= c && c <= '9' {
        Some((c as u32) - ('0' as u32))
    } else if 'a' <= c && c <= 'f' {
        Some((c as u32) - ('a' as u32) + 10)
    } else if 'A' <= c && c <= 'F' {
        Some((c as u32) - ('A' as u32) + 10)
    } else {
        None
    }
}

/// The value of the four hexadecimal digits at `i`, as executable code.
fn parse_hex4_exec(s: &str, i: usize) -> (r: Option<u32>)
    requires
        i <= s@.len(),
    ensures
        r matches Some(h) ==> parse_hex4(s@, i as int) == Some(h as int) && h < 0x10000,
        r is None ==> parse_hex4(s@, i as int) is None,
{
    let n = s.unicode_len();
    if n < 4 || i > n - 4 {
        return None;
    }
    let d0 = hex_val_exec(s.get_char(i));
    let d1 = hex_val_exec(s.get_char(i + 1));
    let d2 = hex_val_exec(s.get_char(i + 2));
    let d3 = hex_val_exec(s.get_char(i + 3));
    match (d0, d1, d2, d3) {
        (Some(v0), Some(v1), Some(v2), Some(v3)) => Some(v0 * 4096 + v1 * 256 + v2 * 16 + v3),
        _ => None,
    }
}

/// The character named by a short escape, as executable code.
fn unescape_short_exec(c: char) -> (r: Option<char>)
    ensures
        r == unescape_short(c),
{
    if c == '"' {
        Some('"')
    } else if c == '\\' {
        Some('\\')
    } else if c == '/' {
        Some('/')
    } else if c == 'b' {
        Some('\u{8}')
    } else if c == 'f' {
        Some('\u{c}')
    } else if c == 'n' {
        Some('\n')
    } else if c == 'r' {
        Some('\r')
    } else if c == 't' {
        Some('\t')
    } else {
        None
    }
}

/// Parses a quoted string's body from `i`, as executable code.
#[verifier::loop_isolation(false)]
fn parse_string_body_exec(s: &str, i: usize) -> (r: Option<(String, usize)>)
    requires
        i <= s@.len(),
    ensures
        match r {
            Some(t) => parse_string_body(s@, i as int, Seq::empty()) == Some((t.0@, t.1 as int))
                && i <= t.1 <= s@.len(),
            None => parse_string_body(s@, i as int, Seq::empty()) is None,
        },
{
    let n = s.unicode_len();
    let mut j: usize = i;
    let mut out = String::new();
    loop
        invariant
            i <= j <= n,
            parse_string_body(s@, i as int, Seq::empty()) == parse_string_body(
                s@,
                j as int,
                out@,
            ),
        decreases n - j,
    {
        if j >= n {
            return None;
        }
        let c = s.get_char(j);
        if c == '"' {
            return Some((out, j + 1));
        } else if c == '\\' {
            if j + 1 >= n {
                return None;
            }
            let e = s.get_char(j + 1);
            if e == 'u' {
                match parse_hex4_exec(s, j + 2) {
                    None => {
                        return None;
                    },
                    Some(h) => {
                        if 0xD800 <= h && h < 0xE000 {
                            return None;
                        }
                        match char::from_u32(h) {
                            Some(ch) => {
                                proof {
                                    assert(((h as int) as u32) == h);
                                    vstd::utf8::char_u32_cast(ch, h);
                                    assert((h as char) == ch);
                                }
                                out.push(ch);
                                j = j + 6;
                            },
                            None => {
                                proof {
                                    assert(false);
                                }
                                return None;
                            },
                        }
                    },
                }
            } else {
                match unescape_short_exec(e) {
                    None => {
                        return None;
                    },
                    Some(ch) => {
                        out.push(ch);
                        j = j + 2;
                    },
                }
            }
        } else if (c as u32) < 0x20 {
            return None;
        } else {
            out.push(c);
            j = j + 1;
        }
    }
}

/// Parses one value at `i`, as executable code.
#[verifier::loop_isolation(false)]
fn parse_value_exec(s: &str, i: usize, fuel: u64) -> (r: Option<(Value, usize)>)
    requires
        i <= s@.len(),
    ensures
        match r {
            Some(t) => parse_value(s@, i as int, fuel as nat) == Some((t.0@, t.1 as int)) && i
                <= t.1 <= s@.len(),
            None => parse_value(s@, i as int, fuel as nat) is None,
        },
    decreases fuel,
{
    let n = s.unicode_len();
    if fuel == 0 || i >= n {
        return None;
    }
    let c = s.get_char(i);
    if c == 'n' {
        if n - i >= 4 && s.get_char(i + 1) == 'u' && s.get_char(i + 2) == 'l' && s.get_char(i + 3)
            == 'l' {
            Some((Value::Null, i + 4))
        } else {
            None
        }
    } else if c == 't' {
        if n - i >= 4 && s.get_char(i + 1) == 'r' && s.get_char(i + 2) == 'u' && s.get_char(i + 3)
            == 'e' {
            Some((Value::Bool(true), i + 4))
        } else {
            None
        }
    } else if c == 'f' {
        if n - i >= 5 && s.get_char(i + 1) == 'a' && s.get_char(i + 2) == 'l' && s.get_char(i + 3)
            == 's' && s.get_char(i + 4) == 'e' {
            Some((Value::Bool(false), i + 5))
        } else {
            None
        }
    } else if c == '"' {
        match parse_string_body_exec(s, i + 1) {
            None => None,
            Some((t, j)) => Some((Value::Str(t), j)),
        }
    } else if c == '[' {
        if i + 1 < n && s.get_char(i + 1) == ']' {
            let es: Vec<Value> = Vec::new();
            proof {
                assert(spec_value_of(Value::Arr(es))->Arr_0 =~= Seq::<SpecValue>::empty());
            }
            Some((Value::Arr(es), i + 2))
        } else {
            match parse_elems_exec(s, i + 1, fuel - 1) {
                None => None,
                Some((es, j)) => {
                    proof {
                        assert(spec_value_of(Value::Arr(es))->Arr_0 =~= arr_view(es));
                        assert(spec_value_of(Value::Arr(es)) == SpecValue::Arr(arr_view(es)));
                    }
                    Some((Value::Arr(es), j))
                },
            }
        }
    } else if c == '{' {
        if i + 1 < n && s.get_char(i + 1) == '}' {
            let ps: Vec<(String, Value)> = Vec::new();
            proof {
                assert(spec_value_of(Value::Obj(ps))->Obj_0 =~= Seq::<(Seq<char>, SpecValue)>::empty());
            }
            Some((Value::Obj(ps), i + 2))
        } else {
            match parse_members_exec(s, i + 1, fuel - 1) {
                None => None,
                Some((ps, j)) => {
                    proof {
                        assert(spec_value_of(Value::Obj(ps))->Obj_0 =~= obj_view(ps));
                        assert(spec_value_of(Value::Obj(ps)) == SpecValue::Obj(obj_view(ps)));
                    }
                    Some((Value::Obj(ps), j))
                },
            }
        }
    } else if c == '-' || ('0' <= c && c <= '9') {
        match num_end_exec(s, i) {
            None => None,
            Some(j) => {
                let t = String::from_str(s.substring_char(i, j));
                Some((Value::Num(t), j))
            },
        }
    } else {
        None
    }
}

/// Parses sequence elements from `i` up to the closing bracket, as
/// executable code.
#[verifier::loop_isolation(false)]
fn parse_elems_exec(s: &str, i: usize, fuel: u64) -> (r: Option<(Vec<Value>, usize)>)
    requires
        i <= s@.len(),
    ensures
        match r {
            Some(t) => parse_elems(s@, i as int, Seq::empty(), fuel as nat) == Some(
                (arr_view(t.0), t.1 as int),
            ) && i <= t.1 <= s@.len(),
            None => parse_elems(s@, i as int, Seq::empty(), fuel as nat) is None,
        },
    decreases fuel,
{
    let n = s.unicode_len();
    let mut j: usize = i;
    let mut f: u64 = fuel;
    let mut acc: Vec<Value> = Vec::new();
    proof {
        assert(arr_view(acc) =~= Seq::<SpecValue>::empty());
    }
    loop
        invariant
            i <= j <= n,
            f <= fuel,
            parse_elems(s@, i as int, Seq::empty(), fuel as nat) == parse_elems(
                s@,
                j as int,
                arr_view(acc),
                f as nat,
            ),
        decreases f,
    {
        if f == 0 {
            return None;
        }
        match parse_value_exec(s, j, f - 1) {
            None => {
                return None;
            },
            Some((v, j2)) => {
                if j2 < n && s.get_char(j2) == ',' {
                    let ghost old_acc = arr_view(acc);
                    acc.push(v);
                    proof {
                        assert(arr_view(acc) =~= old_acc.push(v@));
                    }
                    j = j2 + 1;
                    f = f - 1;
                } else if j2 < n && s.get_char(j2) == ']' {
                    let ghost old_acc = arr_view(acc);
                    acc.push(v);
                    proof {
                        assert(arr_view(acc) =~= old_acc.push(v@));
                    }
                    return Some((acc, j2 + 1));
                } else {
                    return None;
                }
            },
        }
    }
}

/// Parses mapping members from `i` up to the closing brace, as
/// executable code.
#[verifier::loop_isolation(false)]
fn parse_members_exec(s: &str, i: usize, fuel: u64) -> (r: Option<(Vec<(String, Value)>, usize)>)
    requires
        i <= s@.len(),
    ensures
        match r {
            Some(t) => parse_members(s@, i as int, Seq::empty(), fuel as nat) == Some(
                (obj_view(t.0), t.1 as int),
            ) && i <= t.1 <= s@.len(),
            None => parse_members(s@, i as int, Seq::empty(), fuel as nat) is None,
        },
    decreases fuel,
{
    let n = s.unicode_len();
    let mut j: usize = i;
    let mut f: u64 = fuel;
    let mut acc: Vec<(String, Value)> = Vec::new();
    proof {
        assert(obj_view(acc) =~= Seq::<(Seq<char>, SpecValue)>::empty());
    }
    loop
        invariant
            i <= j <= n,
            f <= fuel,
            parse_members(s@, i as int, Seq::empty(), fuel as nat) == parse_members(
                s@,
                j as int,
                obj_view(acc),
                f as nat,
            ),
        decreases f,
    {
        if f == 0 {
            return None;
        }
        if !(j < n && s.get_char(j) == '"') {
            return None;
        }
        match parse_string_body_exec(s, j + 1) {
            None => {
                return None;
            },
            Some((k, j1)) => {
                if !(j1 < n && s.get_char(j1) == ':') {
                    return None;
                }
                match parse_value_exec(s, j1 + 1, f - 1) {
                    None => {
                        return None;
                    },
                    Some((v, j2)) => {
                        if j2 < n && s.get_char(j2) == ',' {
                            let ghost old_acc = obj_view(acc);
                            acc.push((k, v));
                            proof {
                                assert(obj_view(acc) =~= old_acc.push((k@, v@)));
                            }
                            j = j2 + 1;
                            f = f - 1;
                        } else if j2 < n && s.get_char(j2) == '}' {
                            let ghost old_acc = obj_view(acc);
                            acc.push((k, v));
                            proof {
                                assert(obj_view(acc) =~= old_acc.push((k@, v@)));
                            }
                            return Some((acc, j2 + 1));
                        } else {
                            return None;
                        }
                    },
                }
            },
        }
    }
}

/// Parses guest-produced serialized text into an interchange value; a
/// text that is not exactly one well-formed serialized value yields a
/// `Conversion` error.
pub fn from_guest_text(s: &str) -> (r: Result<Value, EvalError>)
    ensures
        r matches Ok(v) ==> parse_text(s@) == Some(v@),
        r is Err ==> parse_text(s@) is None,
        r matches Err(e) ==> e matches EvalError::Conversion(_),
{
    let n = s.unicode_len();
    match parse_value_exec(s, 0, 0xFFFF_FFFF_FFFF_FFFF) {
        Some((v, j)) => {
            if j == n {
                Ok(v)
            } else {
                Err(EvalError::Conversion(String::from_str("text continues past the first value")))
            }
        },
        None => Err(EvalError::Conversion(String::from_str("text is not a serialized value"))),
    }
}

} // verus!
