//! The function-call façade: builds a guest call expression from a
//! function name and a host argument list, and decodes a guest result
//! text back into a host value. The name is inserted unescaped and
//! unvalidated: the caller is responsible for passing a syntactically
//! valid identifier or property access, a deliberate trust boundary of
//! the embedding model; the arguments are rendered through the codec
//! and cannot break out of the argument list.
use vstd::prelude::*;

use crate::codec::{text_of, to_guest_text};
use crate::errors::EvalError;
use crate::host::{
    HostValue, SpecHost, host_of, interchange_of, interchange_to_host, interchangeable,
    host_to_interchange,
};
use crate::parse::{from_guest_text, parse_text};
use crate::value::SpecValue;

verus! {

broadcast use vstd::seq::group_seq_axioms, vstd::std_specs::vec::group_vec_axioms;

/// The models of a list of host arguments.
pub open spec fn host_views(args: Vec<HostValue>) -> Seq<SpecHost> {
    Seq::new(
        args@.len(),
        |i: int|
            if 0 <= i < args@.len() {
                args@[i]@
            } else {
                SpecHost::Null
            },
    )
}

/// Whether every argument in a list has an interchange representation.
pub open spec fn all_interchangeable(hs: Seq<SpecHost>) -> bool {
    forall|i: int| 0 <= i < hs.len() ==> interchangeable(#[trigger] hs[i])
}

/// The interchange forms of a list of host arguments.
pub open spec fn interchanged(hs: Seq<SpecHost>) -> Seq<SpecValue> {
    Seq::new(
        hs.len(),
        |i: int|
            if 0 <= i < hs.len() {
                interchange_of(hs[i])
            } else {
                SpecValue::Null
            },
    )
}

/// The rendering of an argument list: the arguments' guest texts joined
/// by a comma and a space.
pub open spec fn args_text(vs: Seq<SpecValue>) -> Seq<char>
    decreases vs,
{
    if vs.len() == 0 {
        Seq::empty()
    } else if vs.len() == 1 {
        text_of(vs[0])
    } else {
        args_text(vs.drop_last()) + seq![',', ' '] + text_of(vs.last())
    }
}

/// A call expression: the name, unchanged, followed by the parenthesized
/// argument list.
pub open spec fn call_text(name: Seq<char>, vs: Seq<SpecValue>) -> Seq<char> {
    name + seq!['('] + args_text(vs) + seq![')']
}

/// Builds the call expression `name(arg, ...)` from a function name and
/// host arguments; an argument with no interchange representation is an
/// `UnsupportedType` error.
#[verifier::loop_isolation(false)]
pub fn build_call_expression(name: &str, args: &Vec<HostValue>) -> (r: Result<String, EvalError>)
    ensures
        r matches Ok(s) ==> all_interchangeable(host_views(*args)) && s@ == call_text(
            name@,
            interchanged(host_views(*args)),
        ),
        r is Err ==> !all_interchangeable(host_views(*args)),
        r matches Err(e) ==> e matches EvalError::UnsupportedType(_),
{
    let ghost hs = host_views(*args);
    let ghost vs = interchanged(hs);
    let mut out = String::from_str(name);
    out.push('(');
    let mut i: usize = 0;
    while i < args.len()
        invariant
            i <= args.len(),
            out@ == name@ + seq!['('] + args_text(vs.take(i as int)),
            forall|k: int| 0 <= k < i ==> interchangeable(#[trigger] hs[k]),
        decreases args.len() - i,
    {
        if i > 0 {
            out.push(',');
            out.push(' ');
        }
        match host_to_interchange(&args[i]) {
            Ok(v) => {
                let piece = to_guest_text(&v);
                out.append(piece.as_str());
            },
            Err(e) => {
                proof {
                    assert(hs[i as int] == args@[i as int]@);
                }
                return Err(e);
            },
        }
        proof {
            assert(vs.take(i + 1).drop_last() =~= vs.take(i as int));
            assert(vs.take(i + 1).last() == vs[i as int]);
            assert(vs[i as int] == interchange_of(args@[i as int]@));
            assert(out@ =~= name@ + seq!['('] + args_text(vs.take(i + 1)));
        }
        i = i + 1;
    }
    out.push(')');
    proof {
        assert(vs.take(args@.len() as int) =~= vs);
        assert(out@ =~= call_text(name@, vs));
    }
    Ok(out)
}

/// Decodes a guest result text into a host value: the text is parsed as
/// an interchange value and mapped structurally to its host form; a
/// text that does not parse is a `Conversion` error.
pub fn decode_result(text: &str) -> (r: Result<HostValue, EvalError>)
    ensures
        r matches Ok(h) ==> (match parse_text(text@) {
            Some(v) => h@ == host_of(v),
            None => false,
        }),
        r is Err ==> parse_text(text@) is None,
        r matches Err(e) ==> e matches EvalError::Conversion(_),
{
    match from_guest_text(text) {
        Ok(v) => Ok(interchange_to_host(&v)),
        Err(e) => Err(e),
    }
}

} // verus!
