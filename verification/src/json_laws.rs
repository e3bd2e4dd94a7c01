//! The decode/encode round trip: a well-formed value, serialized and parsed
//! back, is recovered exactly. Since values keep raw lexemes, this is what
//! makes re-serialization byte-preserving for every field.

use vstd::prelude::*;
use crate::json::{
    is_digit, is_ws, spec_parse_items, spec_parse_json, spec_parse_members, spec_parse_value,
    spec_scan_frac, spec_scan_exp, spec_scan_number, spec_scan_string, spec_ser, spec_ser_items,
    spec_ser_member, spec_ser_members, spec_skip_digits, spec_skip_ws, spec_str_content_ok,
    spec_wf, spec_wf_items, spec_wf_members, Jv,
};

verus! {

/// A byte that may legally follow a serialized value: end of input, a
/// separator, a closing bracket or brace, or whitespace.
pub open spec fn spec_val_delim(t: Seq<u8>, j: int) -> bool {
    j == t.len() || (t[j] == 44 || t[j] == 93 || t[j] == 125 || is_ws(t[j]))
}

/// What `spec_skip_digits` computes: the end of the digit run.
proof fn lemma_skip_digits_props(s: Seq<u8>, a: int)
    requires
        0 <= a <= s.len(),
    ensures
        a <= spec_skip_digits(s, a) <= s.len(),
        forall|k: int| a <= k < spec_skip_digits(s, a) ==> is_digit(s[k]),
        spec_skip_digits(s, a) == s.len() || !is_digit(s[spec_skip_digits(s, a)]),
    decreases s.len() - a,
{
    if a < s.len() && is_digit(s[a]) {
        lemma_skip_digits_props(s, a + 1);
    }
}

/// `spec_skip_digits` lands exactly at the first non-digit.
proof fn lemma_skip_digits_frame(t: Seq<u8>, i: int, e: int)
    requires
        0 <= i <= e <= t.len(),
        forall|k: int| i <= k < e ==> is_digit(t[k]),
        e == t.len() || !is_digit(t[e]),
    ensures
        spec_skip_digits(t, i) == e,
    decreases e - i,
{
    if i < e {
        lemma_skip_digits_frame(t, i + 1, e);
    }
}

/// `spec_skip_ws` does not move on a non-whitespace byte.
proof fn lemma_skip_ws_stay(t: Seq<u8>, i: int)
    requires
        0 <= i,
        i == t.len() || !is_ws(t[i]),
    ensures
        spec_skip_ws(t, i) == i,
{
}

/// A number token embedded in `t` and followed by a delimiter scans to its
/// own end.
proof fn lemma_scan_number_embed(t: Seq<u8>, i: int, lex: Seq<u8>)
    requires
        spec_scan_number(lex, 0) == Some(lex.len() as int),
        0 <= i,
        i + lex.len() <= t.len(),
        t.subrange(i, i + lex.len() as int) == lex,
        spec_val_delim(t, i + lex.len() as int),
    ensures
        spec_scan_number(t, i) == Some(i + lex.len() as int),
{
    let ll = lex.len() as int;
    let e = i + ll;
    assert forall|k: int| i <= k < e implies t[k] == lex[k - i] by {
        assert(t.subrange(i, e)[k - i] == t[k]);
    }
    // no byte of the delimiter set continues a number token
    assert(e == t.len() || !(is_digit(t[e]) || t[e] == 46 || t[e] == 101 || t[e] == 69 || t[e]
        == 43 || t[e] == 45));
    let l1: int = if lex[0] == 45 {
        1
    } else {
        0
    };
    assert(l1 < ll && is_digit(lex[l1]));
    let l2: int = if lex[l1] == 48 {
        l1 + 1
    } else {
        spec_skip_digits(lex, l1)
    };
    if lex[l1] != 48 {
        lemma_skip_digits_props(lex, l1);
        lemma_skip_digits_frame(t, i + l1, i + l2);
    }
    assert(l1 <= l2 <= ll);
    let t2 = i + l2;
    assert(spec_scan_frac(lex, l2) is Some);
    let l3 = spec_scan_frac(lex, l2)->Some_0;
    if l2 < ll && lex[l2] == 46 {
        lemma_skip_digits_props(lex, l2 + 1);
        assert(l3 == spec_skip_digits(lex, l2 + 1));
        lemma_skip_digits_frame(t, i + l2 + 1, i + l3);
        assert(spec_scan_frac(t, t2) == Some(i + l3));
    } else {
        assert(l3 == l2);
        if t2 < t.len() {
            assert(t2 < e ==> t[t2] == lex[l2]);
        }
        assert(!(t2 < t.len() && t[t2] == 46));
        assert(spec_scan_frac(t, t2) == Some(t2));
    }
    let t3 = i + l3;
    assert(spec_scan_exp(lex, l3) == Some(ll));
    if l3 < ll && (lex[l3] == 101 || lex[l3] == 69) {
        let l4: int = if l3 + 1 < ll && (lex[l3 + 1] == 43 || lex[l3 + 1] == 45) {
            l3 + 2
        } else {
            l3 + 1
        };
        assert(spec_skip_digits(lex, l4) == ll && ll != l4);
        lemma_skip_digits_props(lex, l4);
        assert(l4 < ll && is_digit(lex[l4]));
        assert(t3 + 1 < e ==> t[t3 + 1] == lex[l3 + 1]);
        lemma_skip_digits_frame(t, i + l4, e);
        assert(spec_scan_exp(t, t3) == Some(e));
    } else {
        assert(l3 == ll);
        assert(!(t3 < t.len() && (t[t3] == 101 || t[t3] == 69)));
        assert(spec_scan_exp(t, t3) == Some(t3));
    }
    assert(spec_scan_number(t, i) == Some(e));
}

/// String content embedded in `t` with a closing quote after it scans to
/// just past that quote.
proof fn lemma_scan_string_embed(t: Seq<u8>, i: int, content: Seq<u8>, k: int)
    requires
        0 <= k <= content.len(),
        spec_str_content_ok(content, k),
        0 <= i,
        i + content.len() < t.len(),
        t.subrange(i, i + content.len() as int) == content,
        t[i + content.len() as int] == 34,
    ensures
        spec_scan_string(t, i + k) == Some(i + content.len() + 1),
    decreases content.len() - k,
{
    let cl = content.len() as int;
    assert forall|k: int| i <= k < i + cl implies t[k] == content[k - i] by {
        assert(t.subrange(i, i + cl)[k - i] == t[k]);
    }
    if k == cl {
        assert(t[i + k] == 34);
    } else {
        let b = content[k];
        assert(b != 34);
        if b == 92 {
            let e = content[k + 1];
            if e == 117 {
                lemma_scan_string_embed(t, i, content, k + 6);
            } else {
                lemma_scan_string_embed(t, i, content, k + 2);
            }
        } else {
            lemma_scan_string_embed(t, i, content, k + 1);
        }
    }
}

/// Every element of a well-formed element list is well-formed.
proof fn lemma_wf_items_at(items: Seq<Jv>, k: int)
    requires
        spec_wf_items(items, 0),
        0 <= k < items.len(),
    ensures
        spec_wf(items[k]),
        forall|j: int| 0 <= j <= k ==> spec_wf_items(items, j),
    decreases k,
{
    assert(spec_wf_items(items, 0));
    if k > 0 {
        lemma_wf_items_at(items, k - 1);
        assert(spec_wf_items(items, k - 1));
        assert(spec_wf_items(items, k));
    } else {
        assert(spec_wf(items[0]));
    }
}

/// Every member of a well-formed member list has valid key content and a
/// well-formed value.
proof fn lemma_wf_members_at(members: Seq<(Seq<u8>, Jv)>, k: int)
    requires
        spec_wf_members(members, 0),
        0 <= k < members.len(),
    ensures
        spec_str_content_ok(members[k].0, 0),
        spec_wf(members[k].1),
        forall|j: int| 0 <= j <= k ==> spec_wf_members(members, j),
    decreases k,
{
    assert(spec_wf_members(members, 0));
    if k > 0 {
        lemma_wf_members_at(members, k - 1);
        assert(spec_wf_members(members, k - 1));
        assert(spec_wf_members(members, k));
    } else {
        assert(spec_str_content_ok(members[0].0, 0) && spec_wf(members[0].1));
    }
}

/// A serialized well-formed value is never empty and never starts with
/// whitespace, a separator, or a closing bracket or brace.
proof fn lemma_ser_first_byte(v: Jv)
    requires
        spec_wf(v),
    ensures
        spec_ser(v).len() > 0,
        !is_ws(spec_ser(v)[0]),
        spec_ser(v)[0] != 44,
        spec_ser(v)[0] != 93,
        spec_ser(v)[0] != 125,
        spec_ser(v)[0] != 58,
{
    match v {
        Jv::Num(lex) => {
            assert(spec_scan_number(lex, 0) == Some(lex.len() as int));
            assert(lex.len() > 0);
            assert(lex[0] == 45 || is_digit(lex[0]));
        },
        _ => {},
    }
}

/// Parsing a serialized well-formed value at its embedded position yields
/// exactly that value and consumes exactly its serialization.
pub proof fn lemma_parse_ser_value(v: Jv, t: Seq<u8>, i: int)
    requires
        spec_wf(v),
        0 <= i,
        i + spec_ser(v).len() <= t.len(),
        t.subrange(i, i + spec_ser(v).len() as int) == spec_ser(v),
        spec_val_delim(t, i + spec_ser(v).len() as int),
    ensures
        spec_parse_value(t, i) == Some((v, i + spec_ser(v).len() as int)),
    decreases v, 0int,
{
    let ser = spec_ser(v);
    let sl = ser.len() as int;
    let e = i + sl;
    assert forall|k: int| i <= k < e implies t[k] == ser[k - i] by {
        assert(t.subrange(i, e)[k - i] == t[k]);
    }
    lemma_ser_first_byte(v);
    match v {
        Jv::Null => {
            assert(t[i] == 110 && t[i + 1] == 117 && t[i + 2] == 108 && t[i + 3] == 108);
        },
        Jv::Boolean(b) => {
            if b {
                assert(t[i] == 116 && t[i + 1] == 114 && t[i + 2] == 117 && t[i + 3] == 101);
            } else {
                assert(t[i] == 102 && t[i + 1] == 97 && t[i + 2] == 108 && t[i + 3] == 115 && t[i
                    + 4] == 101);
            }
        },
        Jv::Num(lex) => {
            assert(t[i] == lex[0]);
            assert(t.subrange(i, i + lex.len() as int) =~= lex);
            lemma_scan_number_embed(t, i, lex);
            assert(t.subrange(i, e) =~= lex);
            assert(spec_parse_value(t, i) == Some((Jv::Num(t.subrange(i, e)), e)));
        },
        Jv::Text(content) => {
            assert(t[i] == 34);
            assert(t.subrange(i + 1, i + 1 + content.len() as int) =~= content);
            assert(t[i + 1 + content.len() as int] == 34);
            lemma_scan_string_embed(t, i + 1, content, 0);
            assert(spec_scan_string(t, i + 1) == Some(e));
            assert(t.subrange(i + 1, e - 1) =~= content);
        },
        Jv::Arr(items) => {
            assert(t[i] == 91);
            if items.len() == 0 {
                assert(spec_ser_items(items, 0) =~= Seq::<u8>::empty());
                assert(ser =~= seq![91u8, 93u8]);
                assert(t[i + 1] == 93);
                lemma_skip_ws_stay(t, i + 1);
                assert(spec_parse_value(t, i) == Some((Jv::Arr(Seq::empty()), i + 2)));
                assert(items =~= Seq::<Jv>::empty());
                assert(v == Jv::Arr(Seq::<Jv>::empty()));
            } else {
                let body = spec_ser_items(items, 0);
                assert(ser =~= seq![91u8] + body + seq![93u8]);
                assert(t.subrange(i + 1, i + 1 + body.len() as int) =~= body);
                lemma_wf_items_at(items, 0);
                lemma_ser_first_byte(items[0]);
                assert(body[0] == spec_ser(items[0])[0]);
                assert(t[i + 1] == body[0]);
                lemma_skip_ws_stay(t, i + 1);
                assert(t[i + 1] != 93);
                assert(t[e - 1] == 93);
                lemma_parse_ser_items(items, 0, t, i + 1);
                assert(spec_parse_items(t, i + 1, items.subrange(0, 0)) == Some((items, e)));
                assert(items.subrange(0, 0) =~= Seq::<Jv>::empty());
            }
        },
        Jv::Obj(members) => {
            assert(t[i] == 123);
            if members.len() == 0 {
                assert(spec_ser_members(members, 0) =~= Seq::<u8>::empty());
                assert(ser =~= seq![123u8, 125u8]);
                assert(t[i + 1] == 125);
                lemma_skip_ws_stay(t, i + 1);
                assert(spec_parse_value(t, i) == Some((Jv::Obj(Seq::empty()), i + 2)));
                assert(members =~= Seq::<(Seq<u8>, Jv)>::empty());
                assert(v == Jv::Obj(Seq::<(Seq<u8>, Jv)>::empty()));
            } else {
                let body = spec_ser_members(members, 0);
                assert(ser =~= seq![123u8] + body + seq![125u8]);
                assert(t.subrange(i + 1, i + 1 + body.len() as int) =~= body);
                assert(body[0] == spec_ser_member(members[0])[0]);
                assert(t[i + 1] == 34);
                lemma_skip_ws_stay(t, i + 1);
                assert(t[e - 1] == 125);
                lemma_parse_ser_members(members, 0, t, i + 1);
                assert(spec_parse_members(t, i + 1, members.subrange(0, 0)) == Some(
                    (members, e),
                ));
                assert(members.subrange(0, 0) =~= Seq::<(Seq<u8>, Jv)>::empty());
            }
        },
    }
}

/// Parsing the serialized tail of a non-empty element list, with the already
/// parsed prefix accumulated, yields the whole list.
proof fn lemma_parse_ser_items(items: Seq<Jv>, idx: int, t: Seq<u8>, i: int)
    requires
        spec_wf_items(items, 0),
        0 <= idx < items.len(),
        0 <= i,
        i + spec_ser_items(items, idx).len() < t.len(),
        t.subrange(i, i + spec_ser_items(items, idx).len() as int) == spec_ser_items(items, idx),
        t[i + spec_ser_items(items, idx).len() as int] == 93,
    ensures
        spec_parse_items(t, i, items.subrange(0, idx)) == Some(
            (items, i + spec_ser_items(items, idx).len() + 1),
        ),
    decreases items, items.len() - idx,
{
    let ser = spec_ser_items(items, idx);
    let sl = ser.len() as int;
    let e = i + sl;
    assert forall|k: int| i <= k < e implies t[k] == ser[k - i] by {
        assert(t.subrange(i, e)[k - i] == t[k]);
    }
    lemma_wf_items_at(items, idx);
    let vs = spec_ser(items[idx]);
    let vl = vs.len() as int;
    if idx + 1 == items.len() {
        assert(ser == vs);
        assert(t.subrange(i, i + vl) =~= vs);
        lemma_parse_ser_value(items[idx], t, i);
        let j = i + vl;
        lemma_skip_ws_stay(t, j);
        assert(t[j] == 93);
        lemma_ser_first_byte(items[idx]);
        assert(spec_parse_items(t, i, items.subrange(0, idx)) == Some(
            (items.subrange(0, idx).push(items[idx]), j + 1),
        ));
        assert(items.subrange(0, idx).push(items[idx]) =~= items);
    } else {
        assert(ser == vs + seq![44u8] + spec_ser_items(items, idx + 1));
        assert(t.subrange(i, i + vl) =~= vs);
        assert(t[i + vl] == 44);
        lemma_parse_ser_value(items[idx], t, i);
        let j = i + vl;
        lemma_skip_ws_stay(t, j);
        let m = j + 1;
        let rest = spec_ser_items(items, idx + 1);
        assert(t.subrange(m, m + rest.len() as int) =~= rest);
        assert(t[m + rest.len() as int] == 93);
        lemma_wf_items_at(items, idx + 1);
        lemma_ser_first_byte(items[idx + 1]);
        assert(rest[0] == spec_ser(items[idx + 1])[0]);
        assert(t[m] == rest[0]);
        lemma_skip_ws_stay(t, m);
        lemma_parse_ser_items(items, idx + 1, t, m);
        assert(items.subrange(0, idx).push(items[idx]) =~= items.subrange(0, idx + 1));
        lemma_ser_first_byte(items[idx]);
        assert(spec_parse_items(t, i, items.subrange(0, idx)) == spec_parse_items(
            t,
            m,
            items.subrange(0, idx + 1),
        ));
    }
}

/// Parsing the serialized tail of a non-empty member list, with the already
/// parsed prefix accumulated, yields the whole list.
#[verifier::rlimit(100)]
proof fn lemma_parse_ser_members(members: Seq<(Seq<u8>, Jv)>, idx: int, t: Seq<u8>, i: int)
    requires
        spec_wf_members(members, 0),
        0 <= idx < members.len(),
        0 <= i,
        i + spec_ser_members(members, idx).len() < t.len(),
        t.subrange(i, i + spec_ser_members(members, idx).len() as int) == spec_ser_members(
            members,
            idx,
        ),
        t[i + spec_ser_members(members, idx).len() as int] == 125,
    ensures
        spec_parse_members(t, i, members.subrange(0, idx)) == Some(
            (members, i + spec_ser_members(members, idx).len() + 1),
        ),
    decreases members, members.len() - idx,
{
    let ser = spec_ser_members(members, idx);
    let sl = ser.len() as int;
    let e = i + sl;
    assert forall|k: int| i <= k < e implies t[k] == ser[k - i] by {
        assert(t.subrange(i, e)[k - i] == t[k]);
    }
    lemma_wf_members_at(members, idx);
    let key = members[idx].0;
    let kl = key.len() as int;
    let ms = spec_ser_member(members[idx]);
    let vs = spec_ser(members[idx].1);
    let vl = vs.len() as int;
    assert(ms =~= seq![34u8] + key + seq![34u8, 58u8] + vs);
    let more = idx + 1 < members.len();
    if more {
        assert(ser == ms + seq![44u8] + spec_ser_members(members, idx + 1));
    } else {
        assert(ser == ms);
    }
    assert forall|k: int| i <= k < i + ms.len() implies t[k] == ms[k - i] by {
        assert(ser[k - i] == ms[k - i]);
    }
    assert(t[i] == 34);
    assert(t.subrange(i + 1, i + 1 + kl) =~= key);
    assert(t[i + 1 + kl] == 34);
    lemma_scan_string_embed(t, i + 1, key, 0);
    let j = i + kl + 2;
    assert(spec_scan_string(t, i + 1) == Some(j));
    assert(t.subrange(i + 1, j - 1) =~= key);
    assert(t[j] == 58);
    lemma_skip_ws_stay(t, j);
    let m0 = j + 1;
    assert(t.subrange(m0, m0 + vl) =~= vs);
    lemma_ser_first_byte(members[idx].1);
    assert(t[m0] == vs[0]);
    lemma_skip_ws_stay(t, m0);
    lemma_parse_ser_value(members[idx].1, t, m0);
    let p = m0 + vl;
    lemma_skip_ws_stay(t, p);
    if more {
        assert(t[p] == 44);
        let r = p + 1;
        let rest = spec_ser_members(members, idx + 1);
        assert(t.subrange(r, r + rest.len() as int) =~= rest);
        assert(t[r + rest.len() as int] == 125);
        lemma_wf_members_at(members, idx + 1);
        assert(rest[0] == spec_ser_member(members[idx + 1])[0]);
        assert(t[r] == 34);
        lemma_skip_ws_stay(t, r);
        lemma_parse_ser_members(members, idx + 1, t, r);
        assert(members.subrange(0, idx).push((key, members[idx].1)) =~= members.subrange(
            0,
            idx + 1,
        ));
        assert(spec_parse_members(t, i, members.subrange(0, idx)) == spec_parse_members(
            t,
            r,
            members.subrange(0, idx + 1),
        ));
    } else {
        assert(t[p] == 125);
        assert(members.subrange(0, idx).push((key, members[idx].1)) =~= members);
        assert(spec_parse_members(t, i, members.subrange(0, idx)) == Some((members, p + 1)));
    }
}

/// The round trip: a well-formed value, serialized and parsed back as a
/// whole document, is recovered exactly. Every decoded value is well-formed,
/// so a decoded generic report body re-serializes to a document that decodes
/// to the very same value: no field is altered.
pub proof fn lemma_json_round_trip(v: Jv)
    requires
        spec_wf(v),
    ensures
        spec_parse_json(spec_ser(v)) == Some(v),
{
    let t = spec_ser(v);
    lemma_ser_first_byte(v);
    lemma_skip_ws_stay(t, 0);
    assert(t.subrange(0, t.len() as int) =~= t);
    lemma_parse_ser_value(v, t, 0);
    lemma_skip_ws_stay(t, t.len() as int);
}

} // verus!
