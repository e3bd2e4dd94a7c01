//! The JSON value model.
//!
//! Report payloads are JSON documents. `Json` is the executable value tree;
//! `Jv` is its mathematical shape, used by every contract. Numbers and string
//! contents are kept as their raw lexemes, so a decoded document can be
//! re-serialized without altering a single byte of any field.

use vstd::prelude::*;

verus! {

/// The mathematical shape of a JSON value. Numbers and string contents are
/// raw lexemes (for strings: the bytes between the quotes, escapes intact).
pub enum Jv {
    Null,
    Boolean(bool),
    Num(Seq<u8>),
    Text(Seq<u8>),
    Arr(Seq<Jv>),
    Obj(Seq<(Seq<u8>, Jv)>),
}

/// A JSON value tree. Numbers and string contents are raw lexemes, validated
/// during parsing but never rewritten.
pub enum Json {
    Null,
    Boolean(bool),
    Num(Vec<u8>),
    Text(Vec<u8>),
    Arr(Vec<Json>),
    Obj(Vec<(Vec<u8>, Json)>),
}

impl Json {
    /// The mathematical shape of this value.
    pub open spec fn jv(self) -> Jv
        decreases self, 0int,
    {
        match self {
            Json::Null => Jv::Null,
            Json::Boolean(b) => Jv::Boolean(b),
            Json::Num(s) => Jv::Num(s@),
            Json::Text(s) => Jv::Text(s@),
            Json::Arr(items) => Jv::Arr(jv_items(items@, 0)),
            Json::Obj(members) => Jv::Obj(jv_members(members@, 0)),
        }
    }
}

/// The shapes of the elements `items[i..]`.
pub open spec fn jv_items(items: Seq<Json>, i: int) -> Seq<Jv>
    decreases items, items.len() - i, 1int,
{
    if i < 0 || i >= items.len() {
        Seq::empty()
    } else {
        seq![items[i].jv()] + jv_items(items, i + 1)
    }
}

/// The shapes of the members `members[i..]`.
pub open spec fn jv_members(members: Seq<(Vec<u8>, Json)>, i: int) -> Seq<(Seq<u8>, Jv)>
    decreases members, members.len() - i, 1int,
{
    if i < 0 || i >= members.len() {
        Seq::empty()
    } else {
        seq![(members[i].0@, members[i].1.jv())] + jv_members(members, i + 1)
    }
}

/// `jv_items(items, i)` is the elementwise shape of `items[i..]`.
pub proof fn lemma_jv_items_index(items: Seq<Json>, i: int)
    requires
        0 <= i <= items.len(),
    ensures
        jv_items(items, i).len() == items.len() - i,
        forall|k: int| i <= k < items.len() ==> jv_items(items, i)[k - i] == items[k].jv(),
    decreases items.len() - i,
{
    if i < items.len() {
        lemma_jv_items_index(items, i + 1);
    }
}

/// `jv_members(members, i)` is the memberwise shape of `members[i..]`.
pub proof fn lemma_jv_members_index(members: Seq<(Vec<u8>, Json)>, i: int)
    requires
        0 <= i <= members.len(),
    ensures
        jv_members(members, i).len() == members.len() - i,
        forall|k: int|
            i <= k < members.len() ==> jv_members(members, i)[k - i] == (
            members[k].0@,
            members[k].1.jv(),
            ),
    decreases members.len() - i,
{
    if i < members.len() {
        lemma_jv_members_index(members, i + 1);
    }
}

/// The shape sequence of a whole element list, elementwise.
pub proof fn lemma_jv_items_elts(items: Seq<Json>)
    ensures
        jv_items(items, 0).len() == items.len(),
        forall|k: int|
            0 <= k < items.len() ==> #[trigger] jv_items(items, 0)[k] == items[k].jv(),
{
    lemma_jv_items_index(items, 0);
    assert forall|k: int| 0 <= k < items.len() implies #[trigger] jv_items(items, 0)[k]
        == items[k].jv() by {
        assert(jv_items(items, 0)[k - 0] == items[k].jv());
    }
}

/// The shape sequence of a whole member list, elementwise.
pub proof fn lemma_jv_members_elts(members: Seq<(Vec<u8>, Json)>)
    ensures
        jv_members(members, 0).len() == members.len(),
        forall|k: int|
            0 <= k < members.len() ==> #[trigger] jv_members(members, 0)[k] == (
            members[k].0@,
            members[k].1.jv(),
            ),
{
    lemma_jv_members_index(members, 0);
    assert forall|k: int| 0 <= k < members.len() implies #[trigger] jv_members(members, 0)[k] == (
        members[k].0@,
        members[k].1.jv(),
    ) by {
        assert(jv_members(members, 0)[k - 0] == (members[k].0@, members[k].1.jv()));
    }
}

/// Appending an element appends its shape.
pub proof fn lemma_jv_items_push(items: Seq<Json>, x: Json, i: int)
    requires
        0 <= i <= items.len(),
    ensures
        jv_items(items.push(x), i) == jv_items(items, i).push(x.jv()),
    decreases items.len() - i,
{
    if i < items.len() {
        lemma_jv_items_push(items, x, i + 1);
        assert(items.push(x)[i] == items[i]);
        assert(jv_items(items.push(x), i) == seq![items[i].jv()] + jv_items(
            items.push(x),
            i + 1,
        ));
        assert(jv_items(items, i) == seq![items[i].jv()] + jv_items(items, i + 1));
        assert(jv_items(items.push(x), i) =~= jv_items(items, i).push(x.jv()));
    } else {
        assert(items.push(x)[i] == x);
        assert(jv_items(items.push(x), i + 1) =~= Seq::<Jv>::empty());
        assert(jv_items(items.push(x), i) == seq![x.jv()] + jv_items(items.push(x), i + 1));
        assert(jv_items(items.push(x), i) =~= jv_items(items, i).push(x.jv()));
    }
}

/// Appending a member appends its shape.
pub proof fn lemma_jv_members_push(members: Seq<(Vec<u8>, Json)>, x: (Vec<u8>, Json), i: int)
    requires
        0 <= i <= members.len(),
    ensures
        jv_members(members.push(x), i) == jv_members(members, i).push((x.0@, x.1.jv())),
    decreases members.len() - i,
{
    if i < members.len() {
        lemma_jv_members_push(members, x, i + 1);
        assert(members.push(x)[i] == members[i]);
        assert(jv_members(members.push(x), i) == seq![(members[i].0@, members[i].1.jv())]
            + jv_members(members.push(x), i + 1));
        assert(jv_members(members, i) == seq![(members[i].0@, members[i].1.jv())] + jv_members(
            members,
            i + 1,
        ));
        assert(jv_members(members.push(x), i) =~= jv_members(members, i).push((x.0@, x.1.jv())));
    } else {
        assert(members.push(x)[i] == x);
        assert(jv_members(members.push(x), i + 1) =~= Seq::<(Seq<u8>, Jv)>::empty());
        assert(jv_members(members.push(x), i) == seq![(x.0@, x.1.jv())] + jv_members(
            members.push(x),
            i + 1,
        ));
        assert(jv_members(members.push(x), i) =~= jv_members(members, i).push((x.0@, x.1.jv())));
    }
}

// ---------------------------------------------------------------------------
// Serialization: the canonical compact text of a value.
// ---------------------------------------------------------------------------

/// The compact serialization of `v`: no whitespace, members and elements in
/// order, lexemes emitted verbatim.
pub open spec fn spec_ser(v: Jv) -> Seq<u8>
    decreases v, 0int,
{
    match v {
        Jv::Null => seq![110u8, 117u8, 108u8, 108u8],
        Jv::Boolean(b) => if b {
            seq![116u8, 114u8, 117u8, 101u8]
        } else {
            seq![102u8, 97u8, 108u8, 115u8, 101u8]
        },
        Jv::Num(s) => s,
        Jv::Text(s) => seq![34u8] + s + seq![34u8],
        Jv::Arr(items) => seq![91u8] + spec_ser_items(items, 0) + seq![93u8],
        Jv::Obj(members) => seq![123u8] + spec_ser_members(members, 0) + seq![125u8],
    }
}

/// The serialization of the elements `items[i..]`, comma-separated.
pub open spec fn spec_ser_items(items: Seq<Jv>, i: int) -> Seq<u8>
    decreases items, items.len() - i, 1int,
{
    if i < 0 || i >= items.len() {
        Seq::empty()
    } else if i + 1 == items.len() {
        spec_ser(items[i])
    } else {
        spec_ser(items[i]) + seq![44u8] + spec_ser_items(items, i + 1)
    }
}

/// The serialization of the members `members[i..]`, comma-separated, each as
/// `"key":value`.
pub open spec fn spec_ser_members(members: Seq<(Seq<u8>, Jv)>, i: int) -> Seq<u8>
    decreases members, members.len() - i, 1int,
{
    if i < 0 || i >= members.len() {
        Seq::empty()
    } else if i + 1 == members.len() {
        spec_ser_member(members[i])
    } else {
        spec_ser_member(members[i]) + seq![44u8] + spec_ser_members(members, i + 1)
    }
}

/// The serialization of one member: `"key":value`.
pub open spec fn spec_ser_member(m: (Seq<u8>, Jv)) -> Seq<u8>
    decreases m, 0int,
{
    seq![34u8] + m.0 + seq![34u8, 58u8] + spec_ser(m.1)
}

/// A deep copy of a JSON value: the same shape, fresh buffers.
pub fn clone_json(v: &Json) -> (r: Json)
    ensures
        r.jv() == v.jv(),
    decreases v,
{
    match v {
        Json::Null => Json::Null,
        Json::Boolean(b) => Json::Boolean(*b),
        Json::Num(s) => Json::Num(clone_bytes(s)),
        Json::Text(s) => Json::Text(clone_bytes(s)),
        Json::Arr(items) => {
            let mut out: Vec<Json> = Vec::new();
            let mut idx: usize = 0;
            while idx < items.len()
                invariant
                    *v == Json::Arr(*items),
                    idx <= items@.len(),
                    out@.len() == idx,
                    forall|k: int| 0 <= k < idx ==> #[trigger] out@[k].jv() == items@[k].jv(),
                decreases items@.len() - idx,
            {
                proof {
                    assert(decreases_to!(*v => (*v)->Arr_0));
                    assert(decreases_to!(*items => items@));
                    assert(decreases_to!(items@ => items@[idx as int]));
                }
                let c = clone_json(&items[idx]);
                out.push(c);
                idx = idx + 1;
            }
            proof {
                lemma_jv_items_elts(out@);
                lemma_jv_items_elts(items@);
                assert(jv_items(out@, 0) =~= jv_items(items@, 0));
            }
            Json::Arr(out)
        },
        Json::Obj(members) => {
            let mut out: Vec<(Vec<u8>, Json)> = Vec::new();
            let mut idx: usize = 0;
            while idx < members.len()
                invariant
                    *v == Json::Obj(*members),
                    idx <= members@.len(),
                    out@.len() == idx,
                    forall|k: int|
                        0 <= k < idx ==> (#[trigger] out@[k]).0@ == members@[k].0@ && out@[k].1.jv()
                            == members@[k].1.jv(),
                decreases members@.len() - idx,
            {
                proof {
                    assert(decreases_to!(*v => (*v)->Obj_0));
                    assert(decreases_to!(*members => members@));
                    assert(decreases_to!(members@ => members@[idx as int]));
                    assert(decreases_to!(members@[idx as int] => members@[idx as int].1));
                }
                let key = clone_bytes(&members[idx].0);
                let val = clone_json(&members[idx].1);
                out.push((key, val));
                idx = idx + 1;
            }
            proof {
                lemma_jv_members_elts(out@);
                lemma_jv_members_elts(members@);
                assert(jv_members(out@, 0) =~= jv_members(members@, 0));
            }
            Json::Obj(out)
        },
    }
}

/// A copy of a byte buffer.
fn clone_bytes(s: &Vec<u8>) -> (r: Vec<u8>)
    ensures
        r@ == s@,
{
    let mut out: Vec<u8> = Vec::new();
    let mut i: usize = 0;
    while i < s.len()
        invariant
            i <= s@.len(),
            out@ == s@.subrange(0, i as int),
        decreases s@.len() - i,
    {
        out.push(s[i]);
        assert(out@ =~= s@.subrange(0, i + 1));
        i = i + 1;
    }
    assert(out@ =~= s@);
    out
}

// ---------------------------------------------------------------------------
// Lexical classes and token scanners.
// ---------------------------------------------------------------------------

/// JSON insignificant whitespace.
pub open spec fn is_ws(b: u8) -> bool {
    b == 32 || b == 9 || b == 10 || b == 13
}

/// An ASCII decimal digit.
pub open spec fn is_digit(b: u8) -> bool {
    48 <= b && b <= 57
}

/// An ASCII hexadecimal digit (either case).
pub open spec fn is_hex_digit(b: u8) -> bool {
    (48 <= b && b <= 57) || (97 <= b && b <= 102) || (65 <= b && b <= 70)
}

/// The first index at or after `i` holding no whitespace.
pub open spec fn spec_skip_ws(s: Seq<u8>, i: int) -> int
    decreases s.len() - i,
{
    if i < 0 || i >= s.len() || !is_ws(s[i]) {
        i
    } else {
        spec_skip_ws(s, i + 1)
    }
}

/// The first index at or after `i` holding no decimal digit.
pub open spec fn spec_skip_digits(s: Seq<u8>, i: int) -> int
    decreases s.len() - i,
{
    if i < 0 || i >= s.len() || !is_digit(s[i]) {
        i
    } else {
        spec_skip_digits(s, i + 1)
    }
}

/// The end of the optional fraction part starting at `i`, or `None` if a
/// fraction starts but holds no digit.
pub open spec fn spec_scan_frac(s: Seq<u8>, i: int) -> Option<int> {
    if 0 <= i && i < s.len() && s[i] == 46 {
        let j = spec_skip_digits(s, i + 1);
        if j == i + 1 {
            None
        } else {
            Some(j)
        }
    } else {
        Some(i)
    }
}

/// The end of the optional exponent part starting at `i`, or `None` if an
/// exponent starts but holds no digit.
pub open spec fn spec_scan_exp(s: Seq<u8>, i: int) -> Option<int> {
    if 0 <= i && i < s.len() && (s[i] == 101 || s[i] == 69) {
        let i1 = if i + 1 < s.len() && (s[i + 1] == 43 || s[i + 1] == 45) {
            i + 2
        } else {
            i + 1
        };
        let j = spec_skip_digits(s, i1);
        if j == i1 {
            None
        } else {
            Some(j)
        }
    } else {
        Some(i)
    }
}

/// The end of the number token starting at `i`, or `None` if no valid number
/// starts there. The grammar of RFC 8259: an optional minus, an integer part
/// without leading zeroes, an optional fraction, an optional exponent.
pub open spec fn spec_scan_number(s: Seq<u8>, i: int) -> Option<int> {
    if i < 0 || i >= s.len() {
        None
    } else {
        let i1 = if s[i] == 45 {
            i + 1
        } else {
            i
        };
        if i1 >= s.len() || !is_digit(s[i1]) {
            None
        } else {
            let i2 = if s[i1] == 48 {
                i1 + 1
            } else {
                spec_skip_digits(s, i1)
            };
            match spec_scan_frac(s, i2) {
                None => None,
                Some(i3) => spec_scan_exp(s, i3),
            }
        }
    }
}

/// Scans string-literal content from `i` (just past the opening quote) and
/// returns the index just past the closing quote, or `None` on malformed
/// content: an unescaped control byte, a bad escape, or no closing quote.
pub open spec fn spec_scan_string(s: Seq<u8>, i: int) -> Option<int>
    decreases s.len() - i,
{
    if i < 0 || i >= s.len() {
        None
    } else if s[i] == 34 {
        Some(i + 1)
    } else if s[i] == 92 {
        if i + 1 >= s.len() {
            None
        } else {
            let e = s[i + 1];
            if e == 34 || e == 92 || e == 47 || e == 98 || e == 102 || e == 110 || e == 114 || e
                == 116 {
                spec_scan_string(s, i + 2)
            } else if e == 117 {
                if i + 6 <= s.len() && is_hex_digit(s[i + 2]) && is_hex_digit(s[i + 3])
                    && is_hex_digit(s[i + 4]) && is_hex_digit(s[i + 5]) {
                    spec_scan_string(s, i + 6)
                } else {
                    None
                }
            } else {
                None
            }
        }
    } else if s[i] >= 32 {
        spec_scan_string(s, i + 1)
    } else {
        None
    }
}

/// Whether the bytes `s[i..]` are valid string-literal content: no unescaped
/// quote, backslash or control byte, and only well-formed escapes.
pub open spec fn spec_str_content_ok(s: Seq<u8>, i: int) -> bool
    decreases s.len() - i,
{
    if i < 0 {
        false
    } else if i >= s.len() {
        true
    } else if s[i] == 34 {
        false
    } else if s[i] == 92 {
        if i + 1 >= s.len() {
            false
        } else {
            let e = s[i + 1];
            if e == 34 || e == 92 || e == 47 || e == 98 || e == 102 || e == 110 || e == 114 || e
                == 116 {
                spec_str_content_ok(s, i + 2)
            } else if e == 117 {
                i + 6 <= s.len() && is_hex_digit(s[i + 2]) && is_hex_digit(s[i + 3]) && is_hex_digit(
                    s[i + 4],
                ) && is_hex_digit(s[i + 5]) && spec_str_content_ok(s, i + 6)
            } else {
                false
            }
        }
    } else {
        s[i] >= 32 && spec_str_content_ok(s, i + 1)
    }
}

// ---------------------------------------------------------------------------
// Well-formedness: the lexemes a value carries are valid tokens.
// ---------------------------------------------------------------------------

/// A value whose lexemes are valid: every number lexeme is exactly one number
/// token and every string lexeme is valid string-literal content. Parsing
/// only produces such values, and only such values serialize to parseable
/// text.
pub open spec fn spec_wf(v: Jv) -> bool
    decreases v, 0int,
{
    match v {
        Jv::Null => true,
        Jv::Boolean(_) => true,
        Jv::Num(s) => spec_scan_number(s, 0) == Some(s.len() as int),
        Jv::Text(s) => spec_str_content_ok(s, 0),
        Jv::Arr(items) => spec_wf_items(items, 0),
        Jv::Obj(members) => spec_wf_members(members, 0),
    }
}

/// All of `items[i..]` are well-formed.
pub open spec fn spec_wf_items(items: Seq<Jv>, i: int) -> bool
    decreases items, items.len() - i, 1int,
{
    if i < 0 || i >= items.len() {
        true
    } else {
        spec_wf(items[i]) && spec_wf_items(items, i + 1)
    }
}

/// All keys of `members[i..]` are valid string content and all values are
/// well-formed.
pub open spec fn spec_wf_members(members: Seq<(Seq<u8>, Jv)>, i: int) -> bool
    decreases members, members.len() - i, 1int,
{
    if i < 0 || i >= members.len() {
        true
    } else {
        spec_str_content_ok(members[i].0, 0) && spec_wf(members[i].1) && spec_wf_members(
            members,
            i + 1,
        )
    }
}

// ---------------------------------------------------------------------------
// Parsing: the meaning of a byte payload.
// ---------------------------------------------------------------------------

/// Parses one value at `i`: on success, the value and the index just past
/// it. The bounds tests on every scanned-past index can never fail (the
/// scanners only move forward); they make termination evident.
pub open spec fn spec_parse_value(s: Seq<u8>, i: int) -> Option<(Jv, int)>
    decreases s.len() - i, 0int,
{
    if i < 0 || i >= s.len() {
        None
    } else {
        let b = s[i];
        if b == 110 {  // 'n'
            if i + 4 <= s.len() && s[i + 1] == 117 && s[i + 2] == 108 && s[i + 3] == 108 {
                Some((Jv::Null, i + 4))
            } else {
                None
            }
        } else if b == 116 {  // 't'
            if i + 4 <= s.len() && s[i + 1] == 114 && s[i + 2] == 117 && s[i + 3] == 101 {
                Some((Jv::Boolean(true), i + 4))
            } else {
                None
            }
        } else if b == 102 {  // 'f'
            if i + 5 <= s.len() && s[i + 1] == 97 && s[i + 2] == 108 && s[i + 3] == 115 && s[i + 4]
                == 101 {
                Some((Jv::Boolean(false), i + 5))
            } else {
                None
            }
        } else if b == 34 {  // '"'
            match spec_scan_string(s, i + 1) {
                None => None,
                Some(j) => Some((Jv::Text(s.subrange(i + 1, j - 1)), j)),
            }
        } else if b == 45 || is_digit(b) {
            match spec_scan_number(s, i) {
                None => None,
                Some(j) => Some((Jv::Num(s.subrange(i, j)), j)),
            }
        } else if b == 91 {  // '['
            let j = spec_skip_ws(s, i + 1);
            if !(i + 1 <= j && j <= s.len()) {
                None
            } else if j < s.len() && s[j] == 93 {
                Some((Jv::Arr(Seq::empty()), j + 1))
            } else {
                match spec_parse_items(s, j, Seq::empty()) {
                    None => None,
                    Some((items, k)) => Some((Jv::Arr(items), k)),
                }
            }
        } else if b == 123 {  // '{'
            let j = spec_skip_ws(s, i + 1);
            if !(i + 1 <= j && j <= s.len()) {
                None
            } else if j < s.len() && s[j] == 125 {
                Some((Jv::Obj(Seq::empty()), j + 1))
            } else {
                match spec_parse_members(s, j, Seq::empty()) {
                    None => None,
                    Some((members, k)) => Some((Jv::Obj(members), k)),
                }
            }
        } else {
            None
        }
    }
}

/// Parses the elements of a non-empty array from `i` (at the first byte of
/// an element) to the closing bracket, appending to `acc`.
pub open spec fn spec_parse_items(s: Seq<u8>, i: int, acc: Seq<Jv>) -> Option<(Seq<Jv>, int)>
    decreases s.len() - i, 1int,
{
    match spec_parse_value(s, i) {
        None => None,
        Some((v, j)) => if !(i < j && j <= s.len()) {
            None
        } else {
            let k = spec_skip_ws(s, j);
            if !(j <= k && k <= s.len()) {
                None
            } else if k < s.len() && s[k] == 44 {
                let m = spec_skip_ws(s, k + 1);
                if !(k + 1 <= m && m <= s.len()) {
                    None
                } else {
                    spec_parse_items(s, m, acc.push(v))
                }
            } else if k < s.len() && s[k] == 93 {
                Some((acc.push(v), k + 1))
            } else {
                None
            }
        },
    }
}

/// Parses the members of a non-empty object from `i` (at the opening quote
/// of a key) to the closing brace, appending to `acc`.
pub open spec fn spec_parse_members(s: Seq<u8>, i: int, acc: Seq<(Seq<u8>, Jv)>) -> Option<
    (Seq<(Seq<u8>, Jv)>, int),
>
    decreases s.len() - i, 1int,
{
    if i < 0 || i >= s.len() || s[i] != 34 {
        None
    } else {
        match spec_scan_string(s, i + 1) {
            None => None,
            Some(j) => if !(i + 1 < j && j <= s.len()) {
                None
            } else {
                let key = s.subrange(i + 1, j - 1);
                let k = spec_skip_ws(s, j);
                if !(j <= k && k <= s.len()) {
                    None
                } else if k < s.len() && s[k] == 58 {
                    let m = spec_skip_ws(s, k + 1);
                    if !(k + 1 <= m && m <= s.len()) {
                        None
                    } else {
                        match spec_parse_value(s, m) {
                            None => None,
                            Some((v, p)) => if !(m < p && p <= s.len()) {
                                None
                            } else {
                                let q = spec_skip_ws(s, p);
                                if !(p <= q && q <= s.len()) {
                                    None
                                } else if q < s.len() && s[q] == 44 {
                                    let r = spec_skip_ws(s, q + 1);
                                    if !(q + 1 <= r && r <= s.len()) {
                                        None
                                    } else {
                                        spec_parse_members(s, r, acc.push((key, v)))
                                    }
                                } else if q < s.len() && s[q] == 125 {
                                    Some((acc.push((key, v)), q + 1))
                                } else {
                                    None
                                }
                            },
                        }
                    }
                } else {
                    None
                }
            },
        }
    }
}

/// The meaning of a whole payload: optional whitespace, one value, optional
/// whitespace, end of input — or nothing, if the payload is not a JSON
/// document.
pub open spec fn spec_parse_json(s: Seq<u8>) -> Option<Jv> {
    let i = spec_skip_ws(s, 0);
    match spec_parse_value(s, i) {
        None => None,
        Some((v, j)) => if spec_skip_ws(s, j) == s.len() {
            Some(v)
        } else {
            None
        },
    }
}

} // verus!

