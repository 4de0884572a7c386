//! Host-side values and the structural conversions between them and the
//! interchange form. A host value is a scalar, a sequence, or a keyed
//! mapping; a host value with no interchange representation (an opaque
//! callable, an unconvertible numeric) is carried as `Opaque` and is
//! rejected by the conversion with an `UnsupportedType` error.
use vstd::prelude::*;

use crate::errors::EvalError;
use crate::value::{SpecValue, Value, is_num_text, is_number_text};

verus! {

broadcast use vstd::seq::group_seq_axioms, vstd::std_specs::vec::group_vec_axioms;

/// Mathematical model of a host value.
pub enum SpecHost {
    Null,
    Bool(bool),
    Num(Seq<char>),
    Str(Seq<char>),
    List(Seq<SpecHost>),
    Dict(Seq<(Seq<char>, SpecHost)>),
    Opaque(Seq<char>),
}

/// A host value as executable data. `Opaque` stands for a host type with
/// no defined interchange mapping and carries a description of it.
#[derive(Debug, PartialEq, Eq)]
pub enum HostValue {
    Null,
    Bool(bool),
    Num(String),
    Str(String),
    List(Vec<HostValue>),
    Dict(Vec<(String, HostValue)>),
    Opaque(String),
}

/// The mathematical model of an executable host value.
pub open spec fn spec_host_of(h: HostValue) -> SpecHost
    decreases h,
{
    match h {
        HostValue::Null => SpecHost::Null,
        HostValue::Bool(b) => SpecHost::Bool(b),
        HostValue::Num(s) => SpecHost::Num(s@),
        HostValue::Str(s) => SpecHost::Str(s@),
        HostValue::List(hs) => SpecHost::List(
            Seq::new(
                hs@.len(),
                |i: int|
                    if 0 <= i < hs@.len() {
                        spec_host_of(hs@[i])
                    } else {
                        SpecHost::Null
                    },
            ),
        ),
        HostValue::Dict(kvs) => SpecHost::Dict(
            Seq::new(
                kvs@.len(),
                |i: int|
                    if 0 <= i < kvs@.len() {
                        (kvs@[i].0@, spec_host_of(kvs@[i].1))
                    } else {
                        (Seq::empty(), SpecHost::Null)
                    },
            ),
        ),
        HostValue::Opaque(s) => SpecHost::Opaque(s@),
    }
}

impl View for HostValue {
    type V = SpecHost;

    open spec fn view(&self) -> SpecHost {
        spec_host_of(*self)
    }
}

/// Whether a host value has a faithful interchange representation:
/// no opaque component, and every numeric component a valid literal.
pub open spec fn interchangeable(h: SpecHost) -> bool
    decreases h,
{
    match h {
        SpecHost::Null => true,
        SpecHost::Bool(_) => true,
        SpecHost::Num(s) => is_num_text(s),
        SpecHost::Str(_) => true,
        SpecHost::List(hs) => forall|i: int|
            0 <= i < hs.len() ==> interchangeable(#[trigger] hs[i]),
        SpecHost::Dict(ps) => forall|i: int|
            0 <= i < ps.len() ==> interchangeable(#[trigger] ps[i].1),
        SpecHost::Opaque(_) => false,
    }
}

/// The interchange form of an interchangeable host value, structurally.
pub open spec fn interchange_of(h: SpecHost) -> SpecValue
    decreases h,
{
    match h {
        SpecHost::Null => SpecValue::Null,
        SpecHost::Bool(b) => SpecValue::Bool(b),
        SpecHost::Num(s) => SpecValue::Num(s),
        SpecHost::Str(s) => SpecValue::Str(s),
        SpecHost::List(hs) => SpecValue::Arr(
            Seq::new(
                hs.len(),
                |i: int|
                    if 0 <= i < hs.len() {
                        interchange_of(hs[i])
                    } else {
                        SpecValue::Null
                    },
            ),
        ),
        SpecHost::Dict(ps) => SpecValue::Obj(
            Seq::new(
                ps.len(),
                |i: int|
                    if 0 <= i < ps.len() {
                        (ps[i].0, interchange_of(ps[i].1))
                    } else {
                        (Seq::empty(), SpecValue::Null)
                    },
            ),
        ),
        SpecHost::Opaque(_) => SpecValue::Null,
    }
}

/// The host form of an interchange value, structurally. Total: every
/// well-formed interchange value has a host form.
pub open spec fn host_of(v: SpecValue) -> SpecHost
    decreases v,
{
    match v {
        SpecValue::Null => SpecHost::Null,
        SpecValue::Bool(b) => SpecHost::Bool(b),
        SpecValue::Num(s) => SpecHost::Num(s),
        SpecValue::Str(s) => SpecHost::Str(s),
        SpecValue::Arr(vs) => SpecHost::List(
            Seq::new(
                vs.len(),
                |i: int|
                    if 0 <= i < vs.len() {
                        host_of(vs[i])
                    } else {
                        SpecHost::Null
                    },
            ),
        ),
        SpecValue::Obj(ps) => SpecHost::Dict(
            Seq::new(
                ps.len(),
                |i: int|
                    if 0 <= i < ps.len() {
                        (ps[i].0, host_of(ps[i].1))
                    } else {
                        (Seq::empty(), SpecHost::Null)
                    },
            ),
        ),
    }
}

/// Round trip: converting an interchangeable host value to the
/// interchange form and back yields the same host value.
pub proof fn lemma_interchange_round_trip(h: SpecHost)
    requires
        interchangeable(h),
    ensures
        host_of(interchange_of(h)) == h,
    decreases h,
{
    match h {
        SpecHost::List(hs) => {
            let back = host_of(interchange_of(h))->List_0;
            assert forall|i: int| 0 <= i < hs.len() implies back[i] == hs[i] by {
                assert(interchangeable(hs[i]));
                lemma_interchange_round_trip(hs[i]);
            }
            assert(back =~= hs);
        },
        SpecHost::Dict(ps) => {
            let back = host_of(interchange_of(h))->Dict_0;
            assert forall|i: int| 0 <= i < ps.len() implies back[i] == ps[i] by {
                assert(interchangeable(ps[i].1));
                lemma_interchange_round_trip(ps[i].1);
            }
            assert(back =~= ps);
        },
        _ => {},
    }
}

/// Maps a host value structurally into the interchange form; an opaque
/// component or an invalid numeric literal yields `UnsupportedType`.
#[verifier::loop_isolation(false)]
pub fn host_to_interchange(h: &HostValue) -> (r: Result<Value, EvalError>)
    ensures
        r matches Ok(v) ==> interchangeable(h@) && v@ == interchange_of(h@),
        r is Err ==> !interchangeable(h@),
        r matches Err(e) ==> e matches EvalError::UnsupportedType(_),
    decreases h,
{
    match h {
        HostValue::Null => Ok(Value::Null),
        HostValue::Bool(b) => Ok(Value::Bool(*b)),
        HostValue::Num(s) => {
            if is_number_text(s.as_str()) {
                Ok(Value::Num(s.clone()))
            } else {
                Err(EvalError::UnsupportedType(String::from_str("numeric text is not a literal")))
            }
        },
        HostValue::Str(s) => Ok(Value::Str(s.clone())),
        HostValue::List(hs) => {
            let mut out: Vec<Value> = Vec::new();
            let mut i: usize = 0;
            while i < hs.len()
                invariant
                    i <= hs.len(),
                    out@.len() == i as int,
                    forall|k: int|
                        0 <= k < i ==> interchangeable(#[trigger] hs@[k]@) && out@[k]@
                            == interchange_of(hs@[k]@),
                decreases hs.len() - i,
            {
                match host_to_interchange(&hs[i]) {
                    Ok(v) => {
                        out.push(v);
                    },
                    Err(e) => {
                        proof {
                            assert(h@->List_0[i as int] == hs@[i as int]@);
                        }
                        return Err(e);
                    },
                }
                i = i + 1;
            }
            proof {
                let shs = h@->List_0;
                assert forall|k: int| 0 <= k < shs.len() implies interchangeable(
                    #[trigger] shs[k],
                ) by {
                    assert(shs[k] == hs@[k]@);
                }
                let built = Value::Arr(out)@->Arr_0;
                let want = interchange_of(h@)->Arr_0;
                assert forall|k: int| 0 <= k < built.len() implies built[k] == want[k] by {
                    assert(shs[k] == hs@[k]@);
                    assert(built[k] == out@[k]@);
                }
                assert(built =~= want);
            }
            Ok(Value::Arr(out))
        },
        HostValue::Dict(kvs) => {
            let mut out: Vec<(String, Value)> = Vec::new();
            let mut i: usize = 0;
            while i < kvs.len()
                invariant
                    i <= kvs.len(),
                    out@.len() == i as int,
                    forall|k: int|
                        0 <= k < i ==> interchangeable(#[trigger] kvs@[k].1@) && out@[k].0@
                            == kvs@[k].0@ && out@[k].1@ == interchange_of(kvs@[k].1@),
                decreases kvs.len() - i,
            {
                match host_to_interchange(&kvs[i].1) {
                    Ok(v) => {
                        let key = kvs[i].0.clone();
                        out.push((key, v));
                    },
                    Err(e) => {
                        proof {
                            assert(h@->Dict_0[i as int].1 == kvs@[i as int].1@);
                        }
                        return Err(e);
                    },
                }
                i = i + 1;
            }
            proof {
                let sps = h@->Dict_0;
                assert forall|k: int| 0 <= k < sps.len() implies interchangeable(
                    #[trigger] sps[k].1,
                ) by {
                    assert(sps[k].1 == kvs@[k].1@);
                }
                let built = Value::Obj(out)@->Obj_0;
                let want = interchange_of(h@)->Obj_0;
                assert forall|k: int| 0 <= k < built.len() implies built[k] == want[k] by {
                    assert(sps[k] == (kvs@[k].0@, kvs@[k].1@));
                    assert(built[k] == (out@[k].0@, out@[k].1@));
                }
                assert(built =~= want);
            }
            Ok(Value::Obj(out))
        },
        HostValue::Opaque(d) => Err(EvalError::UnsupportedType(d.clone())),
    }
}

/// Maps an interchange value structurally back into a host value; total
/// over every interchange value.
#[verifier::loop_isolation(false)]
pub fn interchange_to_host(v: &Value) -> (r: HostValue)
    ensures
        r@ == host_of(v@),
    decreases v,
{
    match v {
        Value::Null => HostValue::Null,
        Value::Bool(b) => HostValue::Bool(*b),
        Value::Num(s) => HostValue::Num(s.clone()),
        Value::Str(s) => HostValue::Str(s.clone()),
        Value::Arr(vs) => {
            let mut out: Vec<HostValue> = Vec::new();
            let mut i: usize = 0;
            while i < vs.len()
                invariant
                    i <= vs.len(),
                    out@.len() == i as int,
                    forall|k: int| 0 <= k < i ==> out@[k]@ == host_of(#[trigger] vs@[k]@),
                decreases vs.len() - i,
            {
                let hv = interchange_to_host(&vs[i]);
                out.push(hv);
                i = i + 1;
            }
            proof {
                let built = HostValue::List(out)@->List_0;
                let want = host_of(v@)->List_0;
                assert forall|k: int| 0 <= k < built.len() implies built[k] == want[k] by {
                    assert(built[k] == out@[k]@);
                    assert(v@->Arr_0[k] == vs@[k]@);
                }
                assert(built =~= want);
            }
            HostValue::List(out)
        },
        Value::Obj(kvs) => {
            let mut out: Vec<(String, HostValue)> = Vec::new();
            let mut i: usize = 0;
            while i < kvs.len()
                invariant
                    i <= kvs.len(),
                    out@.len() == i as int,
                    forall|k: int|
                        0 <= k < i ==> out@[k].0@ == kvs@[k].0@ && out@[k].1@ == host_of(
                            #[trigger] kvs@[k].1@,
                        ),
                decreases kvs.len() - i,
            {
                let key = kvs[i].0.clone();
                let hv = interchange_to_host(&kvs[i].1);
                out.push((key, hv));
                i = i + 1;
            }
            proof {
                let built = HostValue::Dict(out)@->Dict_0;
                let want = host_of(v@)->Dict_0;
                assert forall|k: int| 0 <= k < built.len() implies built[k] == want[k] by {
                    assert(built[k] == (out@[k].0@, out@[k].1@));
                    assert(v@->Obj_0[k] == (kvs@[k].0@, kvs@[k].1@));
                }
                assert(built =~= want);
            }
            HostValue::Dict(out)
        },
    }
}

} // verus!
