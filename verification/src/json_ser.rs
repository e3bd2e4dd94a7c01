//! The executable JSON serializer: emits exactly `spec_ser` of a value's
//! shape, appending to a byte buffer.

use vstd::prelude::*;
use crate::json::{
    jv_items, jv_members, lemma_jv_items_index, lemma_jv_members_index, spec_ser, spec_ser_items,
    spec_ser_member, spec_ser_members, Json,
};

verus! {

/// Appends all of `s` to `out`.
pub fn push_bytes(out: &mut Vec<u8>, s: &Vec<u8>)
    ensures
        final(out)@ == old(out)@ + s@,
{
    let mut i: usize = 0;
    while i < s.len()
        invariant
            i <= s.len(),
            out@ == old(out)@ + s@.subrange(0, i as int),
        decreases s.len() - i,
    {
        out.push(s[i]);
        assert(out@ =~= old(out)@ + s@.subrange(0, i + 1));
        i = i + 1;
    }
    assert(s@.subrange(0, s@.len() as int) =~= s@);
}

/// Appends the compact serialization of `v` to `out`.
pub fn push_json(v: &Json, out: &mut Vec<u8>)
    ensures
        final(out)@ == old(out)@ + spec_ser(v.jv()),
    decreases v,
{
    match v {
        Json::Null => {
            out.push(110u8);
            out.push(117u8);
            out.push(108u8);
            out.push(108u8);
            assert(out@ =~= old(out)@ + spec_ser(v.jv()));
        },
        Json::Boolean(b) => {
            if *b {
                out.push(116u8);
                out.push(114u8);
                out.push(117u8);
                out.push(101u8);
            } else {
                out.push(102u8);
                out.push(97u8);
                out.push(108u8);
                out.push(115u8);
                out.push(101u8);
            }
            assert(out@ =~= old(out)@ + spec_ser(v.jv()));
        },
        Json::Num(s) => {
            push_bytes(out, s);
        },
        Json::Text(s) => {
            out.push(34u8);
            push_bytes(out, s);
            out.push(34u8);
            assert(out@ =~= old(out)@ + spec_ser(v.jv()));
        },
        Json::Arr(items) => {
            let ghost jvs = jv_items(items@, 0);
            proof {
                lemma_jv_items_index(items@, 0);
            }
            out.push(91u8);
            let mut idx: usize = 0;
            while idx < items.len()
                invariant
                    idx <= items.len(),
                    *v == Json::Arr(*items),
                    jvs == jv_items(items@, 0),
                    jvs.len() == items@.len(),
                    forall|k: int| 0 <= k < items@.len() ==> jvs[k] == items@[k].jv(),
                    out@ + spec_ser_items(jvs, idx as int) == old(out)@ + seq![91u8]
                        + spec_ser_items(jvs, 0),
                decreases items.len() - idx,
            {
                let ghost pre = out@;
                proof {
                    assert(decreases_to!(*v => (*v)->Arr_0));
                    assert(decreases_to!(*items => items@));
                    assert(decreases_to!(items@ => items@[idx as int]));
                }
                push_json(&items[idx], out);
                if idx + 1 < items.len() {
                    out.push(44u8);
                    proof {
                        assert(spec_ser_items(jvs, idx as int) == spec_ser(jvs[idx as int])
                            + seq![44u8] + spec_ser_items(jvs, idx + 1));
                        assert(out@ + spec_ser_items(jvs, idx + 1) =~= pre + spec_ser_items(
                            jvs,
                            idx as int,
                        ));
                    }
                } else {
                    proof {
                        assert(spec_ser_items(jvs, idx as int) == spec_ser(jvs[idx as int]));
                        assert(out@ + spec_ser_items(jvs, idx + 1) =~= pre + spec_ser_items(
                            jvs,
                            idx as int,
                        ));
                    }
                }
                idx = idx + 1;
            }
            out.push(93u8);
            assert(out@ =~= old(out)@ + (seq![91u8] + spec_ser_items(jvs, 0) + seq![93u8]));
        },
        Json::Obj(members) => {
            let ghost jms = jv_members(members@, 0);
            proof {
                lemma_jv_members_index(members@, 0);
            }
            out.push(123u8);
            let mut idx: usize = 0;
            while idx < members.len()
                invariant
                    idx <= members.len(),
                    *v == Json::Obj(*members),
                    jms == jv_members(members@, 0),
                    jms.len() == members@.len(),
                    forall|k: int|
                        0 <= k < members@.len() ==> jms[k] == (members@[k].0@, members@[k].1.jv()),
                    out@ + spec_ser_members(jms, idx as int) == old(out)@ + seq![123u8]
                        + spec_ser_members(jms, 0),
                decreases members.len() - idx,
            {
                let ghost pre = out@;
                out.push(34u8);
                push_bytes(out, &members[idx].0);
                out.push(34u8);
                out.push(58u8);
                proof {
                    assert(decreases_to!(*v => (*v)->Obj_0));
                    assert(decreases_to!(*members => members@));
                    assert(decreases_to!(members@ => members@[idx as int]));
                    assert(decreases_to!(members@[idx as int] => members@[idx as int].1));
                }
                push_json(&members[idx].1, out);
                proof {
                    assert(out@ =~= pre + spec_ser_member(jms[idx as int]));
                }
                if idx + 1 < members.len() {
                    out.push(44u8);
                    proof {
                        assert(spec_ser_members(jms, idx as int) == spec_ser_member(
                            jms[idx as int],
                        ) + seq![44u8] + spec_ser_members(jms, idx + 1));
                        assert(out@ + spec_ser_members(jms, idx + 1) =~= pre + spec_ser_members(
                            jms,
                            idx as int,
                        ));
                    }
                } else {
                    proof {
                        assert(spec_ser_members(jms, idx as int) == spec_ser_member(
                            jms[idx as int],
                        ));
                        assert(out@ + spec_ser_members(jms, idx + 1) =~= pre + spec_ser_members(
                            jms,
                            idx as int,
                        ));
                    }
                }
                idx = idx + 1;
            }
            out.push(125u8);
            assert(out@ =~= old(out)@ + (seq![123u8] + spec_ser_members(jms, 0) + seq![125u8]));
        },
    }
}

/// The compact serialization of `v` as a fresh buffer.
pub fn json_to_bytes(v: &Json) -> (r: Vec<u8>)
    ensures
        r@ == spec_ser(v.jv()),
{
    let mut out: Vec<u8> = Vec::new();
    push_json(v, &mut out);
    out
}

} // verus!
