//! The neutral structured interchange form that crosses the host/guest
//! boundary, and the grammar of the numeric literal text it carries.
use vstd::prelude::*;

verus! {

broadcast use vstd::seq::group_seq_axioms, vstd::std_specs::vec::group_vec_axioms;

/// Mathematical model of an interchange value: null, boolean, number
/// (kept as its decimal literal text), string, ordered sequence, or a
/// mapping from string keys to values (kept in insertion order).
pub enum SpecValue {
    Null,
    Bool(bool),
    Num(Seq<char>),
    Str(Seq<char>),
    Arr(Seq<SpecValue>),
    Obj(Seq<(Seq<char>, SpecValue)>),
}

/// An interchange value as executable data. Numbers carry their decimal
/// literal text so that fractional and exponent forms produced by the
/// guest survive the boundary without loss.
#[derive(Debug, PartialEq, Eq)]
pub enum Value {
    Null,
    Bool(bool),
    Num(String),
    Str(String),
    Arr(Vec<Value>),
    Obj(Vec<(String, Value)>),
}

/// The mathematical model of an executable interchange value.
pub open spec fn spec_value_of(v: Value) -> SpecValue
    decreases v,
{
    match v {
        Value::Null => SpecValue::Null,
        Value::Bool(b) => SpecValue::Bool(b),
        Value::Num(s) => SpecValue::Num(s@),
        Value::Str(s) => SpecValue::Str(s@),
        Value::Arr(vs) => SpecValue::Arr(
            Seq::new(
                vs@.len(),
                |i: int|
                    if 0 <= i < vs@.len() {
                        spec_value_of(vs@[i])
                    } else {
                        SpecValue::Null
                    },
            ),
        ),
        Value::Obj(kvs) => SpecValue::Obj(
            Seq::new(
                kvs@.len(),
                |i: int|
                    if 0 <= i < kvs@.len() {
                        (kvs@[i].0@, spec_value_of(kvs@[i].1))
                    } else {
                        (Seq::empty(), SpecValue::Null)
                    },
            ),
        ),
    }
}

impl View for Value {
    type V = SpecValue;

    open spec fn view(&self) -> SpecValue {
        spec_value_of(*self)
    }
}

/// A decimal digit.
pub open spec fn is_digit(c: char) -> bool {
    '0' <= c && c <= '9'
}

/// The first position at or after `i` that does not hold a digit.
pub open spec fn scan_digits(s: Seq<char>, i: int) -> int
    decreases s.len() - i,
{
    if 0 <= i && i < s.len() && is_digit(s[i]) {
        scan_digits(s, i + 1)
    } else {
        i
    }
}

/// The position just past a numeric literal that starts at `i`: an
/// optional minus sign, digits, an optional fraction of a dot and
/// digits, and an optional exponent of `e` or `E`, an optional sign,
/// and digits. `None` when no such literal starts at `i`.
pub open spec fn num_end(s: Seq<char>, i: int) -> Option<int> {
    let j0 = if 0 <= i && i < s.len() && s[i] == '-' {
        i + 1
    } else {
        i
    };
    let j1 = scan_digits(s, j0);
    if j1 == j0 {
        None
    } else {
        let j2 = if j1 < s.len() && s[j1] == '.' {
            let k = scan_digits(s, j1 + 1);
            if k == j1 + 1 {
                -1
            } else {
                k
            }
        } else {
            j1
        };
        if j2 < 0 {
            None
        } else {
            let j3 = if j2 < s.len() && (s[j2] == 'e' || s[j2] == 'E') {
                let je = if j2 + 1 < s.len() && (s[j2 + 1] == '+' || s[j2 + 1] == '-') {
                    j2 + 2
                } else {
                    j2 + 1
                };
                let k = scan_digits(s, je);
                if k == je {
                    -1
                } else {
                    k
                }
            } else {
                j2
            };
            if j3 < 0 {
                None
            } else {
                Some(j3)
            }
        }
    }
}

/// Whether `s` is exactly one numeric literal.
pub open spec fn is_num_text(s: Seq<char>) -> bool {
    num_end(s, 0) == Some(s.len() as int)
}

/// Whether the character at `i` is a decimal digit.
fn digit_at(s: &str, i: usize) -> (r: bool)
    requires
        i < s@.len(),
    ensures
        r == is_digit(s@[i as int]),
{
    let c = s.get_char(i);
    '0' <= c && c <= '9'
}

/// The first position at or after `i` without a digit, as executable code.
fn scan_digits_exec(s: &str, i: usize) -> (j: usize)
    requires
        i <= s@.len(),
    ensures
        j as int == scan_digits(s@, i as int),
        i <= j <= s@.len(),
{
    let n = s.unicode_len();
    let mut j: usize = i;
    while j < n && digit_at(s, j)
        invariant
            i <= j <= n,
            n == s@.len(),
            scan_digits(s@, i as int) == scan_digits(s@, j as int),
        decreases n - j,
    {
        j = j + 1;
    }
    j
}

/// The position just past the numeric literal starting at `i`, as
/// executable code.
pub fn num_end_exec(s: &str, i: usize) -> (r: Option<usize>)
    requires
        i <= s@.len(),
    ensures
        match r {
            Some(j) => num_end(s@, i as int) == Some(j as int) && i <= j <= s@.len(),
            None => num_end(s@, i as int) is None,
        },
{
    let n = s.unicode_len();
    let j0: usize = if i < n && s.get_char(i) == '-' {
        i + 1
    } else {
        i
    };
    let j1 = scan_digits_exec(s, j0);
    if j1 == j0 {
        return None;
    }
    let j2: usize = if j1 < n && s.get_char(j1) == '.' {
        let k = scan_digits_exec(s, j1 + 1);
        if k == j1 + 1 {
            return None;
        }
        k
    } else {
        j1
    };
    let j3: usize = if j2 < n && (s.get_char(j2) == 'e' || s.get_char(j2) == 'E') {
        let je: usize = if j2 + 1 < n && (s.get_char(j2 + 1) == '+' || s.get_char(j2 + 1) == '-') {
            j2 + 2
        } else {
            j2 + 1
        };
        let k = scan_digits_exec(s, je);
        if k == je {
            return None;
        }
        k
    } else {
        j2
    };
    Some(j3)
}

/// Whether `s` is exactly one numeric literal, as executable code.
pub fn is_number_text(s: &str) -> (r: bool)
    ensures
        r == is_num_text(s@),
{
    let n = s.unicode_len();
    match num_end_exec(s, 0) {
        Some(j) => j == n,
        None => false,
    }
}

} // verus!
