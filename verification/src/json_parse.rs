//! The executable JSON parser: computes exactly what `spec_parse_json` says a
//! payload means.

use vstd::prelude::*;
use crate::json::{
    is_digit, is_hex_digit, jv_items, jv_members, lemma_jv_items_push, lemma_jv_members_push,
    spec_parse_items, spec_parse_json, spec_parse_members, spec_parse_value, spec_scan_frac,
    spec_scan_number, spec_scan_string, spec_skip_digits, spec_skip_ws, Json,
};

verus! {

/// The first index at or after `i` holding no whitespace.
fn skip_ws(s: &Vec<u8>, i: usize) -> (r: usize)
    requires
        i <= s@.len(),
    ensures
        r as int == spec_skip_ws(s@, i as int),
        i <= r <= s@.len(),
{
    let mut j: usize = i;
    while j < s.len() && (s[j] == 32 || s[j] == 9 || s[j] == 10 || s[j] == 13)
        invariant
            i <= j <= s@.len(),
            spec_skip_ws(s@, i as int) == spec_skip_ws(s@, j as int),
        decreases s@.len() - j,
    {
        j = j + 1;
    }
    j
}

/// The first index at or after `i` holding no decimal digit.
fn skip_digits(s: &Vec<u8>, i: usize) -> (r: usize)
    requires
        i <= s@.len(),
    ensures
        r as int == spec_skip_digits(s@, i as int),
        i <= r <= s@.len(),
{
    let mut j: usize = i;
    while j < s.len() && 48 <= s[j] && s[j] <= 57
        invariant
            i <= j <= s@.len(),
            spec_skip_digits(s@, i as int) == spec_skip_digits(s@, j as int),
        decreases s@.len() - j,
    {
        j = j + 1;
    }
    j
}

/// Whether `b` is an ASCII hexadecimal digit.
fn is_hex_byte(b: u8) -> (r: bool)
    ensures
        r == is_hex_digit(b),
{
    (48 <= b && b <= 57) || (97 <= b && b <= 102) || (65 <= b && b <= 70)
}

/// Scans the number token starting at `i`.
fn scan_number(s: &Vec<u8>, i: usize) -> (r: Option<usize>)
    requires
        i <= s@.len(),
    ensures
        match r {
            None => spec_scan_number(s@, i as int) is None,
            Some(j) => spec_scan_number(s@, i as int) == Some(j as int) && i < j <= s@.len(),
        },
{
    if i >= s.len() {
        return None;
    }
    let i1: usize = if s[i] == 45 {
        i + 1
    } else {
        i
    };
    if i1 >= s.len() || !(48 <= s[i1] && s[i1] <= 57) {
        return None;
    }
    let i2: usize = if s[i1] == 48 {
        i1 + 1
    } else {
        let t = skip_digits(s, i1 + 1);
        proof {
            assert(is_digit(s@[i1 as int]));
            assert(spec_skip_digits(s@, i1 as int) == t as int);
        }
        t
    };
    let i3: usize = if i2 < s.len() && s[i2] == 46 {
        let j = skip_digits(s, i2 + 1);
        if j == i2 + 1 {
            proof {
                assert(spec_scan_frac(s@, i2 as int) is None);
            }
            return None;
        }
        j
    } else {
        i2
    };
    assert(spec_scan_frac(s@, i2 as int) == Some(i3 as int));
    if i3 < s.len() && (s[i3] == 101 || s[i3] == 69) {
        let i4: usize = if i3 + 1 < s.len() && (s[i3 + 1] == 43 || s[i3 + 1] == 45) {
            i3 + 2
        } else {
            i3 + 1
        };
        let j = skip_digits(s, i4);
        if j == i4 {
            return None;
        }
        Some(j)
    } else {
        Some(i3)
    }
}

/// Scans string-literal content from `i` (just past the opening quote) and
/// returns the index just past the closing quote.
fn scan_string(s: &Vec<u8>, i: usize) -> (r: Option<usize>)
    requires
        i <= s@.len(),
    ensures
        match r {
            None => spec_scan_string(s@, i as int) is None,
            Some(j) => spec_scan_string(s@, i as int) == Some(j as int) && i < j <= s@.len(),
        },
{
    let mut k: usize = i;
    loop
        invariant
            i <= k <= s@.len(),
            spec_scan_string(s@, i as int) == spec_scan_string(s@, k as int),
        decreases s@.len() - k,
    {
        if k >= s.len() {
            return None;
        }
        let b = s[k];
        if b == 34 {
            return Some(k + 1);
        }
        if b == 92 {
            if k + 1 >= s.len() {
                return None;
            }
            let e = s[k + 1];
            if e == 34 || e == 92 || e == 47 || e == 98 || e == 102 || e == 110 || e == 114 || e
                == 116 {
                k = k + 2;
            } else if e == 117 {
                if s.len() - k >= 6 && is_hex_byte(s[k + 2]) && is_hex_byte(s[k + 3]) && is_hex_byte(
                    s[k + 4],
                ) && is_hex_byte(s[k + 5]) {
                    k = k + 6;
                } else {
                    return None;
                }
            } else {
                return None;
            }
        } else if b >= 32 {
            k = k + 1;
        } else {
            return None;
        }
    }
}

/// A copy of the bytes `s[a..b]`.
fn copy_range(s: &Vec<u8>, a: usize, b: usize) -> (r: Vec<u8>)
    requires
        a <= b <= s@.len(),
    ensures
        r@ == s@.subrange(a as int, b as int),
{
    let mut out: Vec<u8> = Vec::new();
    let mut i: usize = a;
    while i < b
        invariant
            a <= i <= b <= s@.len(),
            out@ == s@.subrange(a as int, i as int),
        decreases b - i,
    {
        out.push(s[i]);
        assert(out@ =~= s@.subrange(a as int, i + 1));
        i = i + 1;
    }
    out
}

/// Parses one value at `i`: on success, the value and the index just past it.
pub fn parse_value(s: &Vec<u8>, i: usize) -> (r: Option<(Json, usize)>)
    requires
        i <= s@.len(),
    ensures
        match r {
            None => spec_parse_value(s@, i as int) is None,
            Some((v, j)) => spec_parse_value(s@, i as int) == Some((v.jv(), j as int)) && i < j
                <= s@.len(),
        },
    decreases s@.len() - i, 0int,
{
    if i >= s.len() {
        return None;
    }
    let b = s[i];
    if b == 110 {
        if s.len() - i >= 4 && s[i + 1] == 117 && s[i + 2] == 108 && s[i + 3] == 108 {
            Some((Json::Null, i + 4))
        } else {
            None
        }
    } else if b == 116 {
        if s.len() - i >= 4 && s[i + 1] == 114 && s[i + 2] == 117 && s[i + 3] == 101 {
            Some((Json::Boolean(true), i + 4))
        } else {
            None
        }
    } else if b == 102 {
        if s.len() - i >= 5 && s[i + 1] == 97 && s[i + 2] == 108 && s[i + 3] == 115 && s[i + 4]
            == 101 {
            Some((Json::Boolean(false), i + 5))
        } else {
            None
        }
    } else if b == 34 {
        match scan_string(s, i + 1) {
            None => None,
            Some(j) => {
                let lex = copy_range(s, i + 1, j - 1);
                Some((Json::Text(lex), j))
            },
        }
    } else if b == 45 || (48 <= b && b <= 57) {
        match scan_number(s, i) {
            None => None,
            Some(j) => {
                let lex = copy_range(s, i, j);
                Some((Json::Num(lex), j))
            },
        }
    } else if b == 91 {
        let j = skip_ws(s, i + 1);
        if j < s.len() && s[j] == 93 {
            let empty: Vec<Json> = Vec::new();
            let v = Json::Arr(empty);
            assert(v.jv() =~= spec_parse_value(s@, i as int)->Some_0.0);
            Some((v, j + 1))
        } else {
            match parse_items(s, j) {
                None => None,
                Some((items, k)) => Some((Json::Arr(items), k)),
            }
        }
    } else if b == 123 {
        let j = skip_ws(s, i + 1);
        if j < s.len() && s[j] == 125 {
            let empty: Vec<(Vec<u8>, Json)> = Vec::new();
            let v = Json::Obj(empty);
            assert(v.jv() =~= spec_parse_value(s@, i as int)->Some_0.0);
            Some((v, j + 1))
        } else {
            match parse_members(s, j) {
                None => None,
                Some((members, k)) => Some((Json::Obj(members), k)),
            }
        }
    } else {
        None
    }
}

/// Parses the elements of a non-empty array from `i` (at the first byte of
/// an element) to the closing bracket.
fn parse_items(s: &Vec<u8>, i: usize) -> (r: Option<(Vec<Json>, usize)>)
    requires
        i <= s@.len(),
    ensures
        match r {
            None => spec_parse_items(s@, i as int, Seq::empty()) is None,
            Some((items, j)) => spec_parse_items(s@, i as int, Seq::empty()) == Some(
                (jv_items(items@, 0), j as int),
            ) && i < j <= s@.len(),
        },
    decreases s@.len() - i, 1int,
{
    let mut acc: Vec<Json> = Vec::new();
    let mut cur: usize = i;
    loop
        invariant
            i <= cur <= s@.len(),
            spec_parse_items(s@, i as int, Seq::empty()) == spec_parse_items(
                s@,
                cur as int,
                jv_items(acc@, 0),
            ),
        decreases s@.len() - cur,
    {
        let ghost acc_jv = jv_items(acc@, 0);
        match parse_value(s, cur) {
            None => {
                return None;
            },
            Some((v, j)) => {
                let k = skip_ws(s, j);
                if k < s.len() && s[k] == 44 {
                    let m = skip_ws(s, k + 1);
                    proof {
                        lemma_jv_items_push(acc@, v, 0);
                        assert(spec_parse_items(s@, cur as int, acc_jv) == spec_parse_items(
                            s@,
                            m as int,
                            acc_jv.push(v.jv()),
                        ));
                    }
                    acc.push(v);
                    cur = m;
                } else if k < s.len() && s[k] == 93 {
                    proof {
                        lemma_jv_items_push(acc@, v, 0);
                        assert(spec_parse_items(s@, cur as int, acc_jv) == Some(
                            (acc_jv.push(v.jv()), k + 1 as int),
                        ));
                    }
                    acc.push(v);
                    return Some((acc, k + 1));
                } else {
                    return None;
                }
            },
        }
    }
}

/// Parses the members of a non-empty object from `i` (at the opening quote
/// of a key) to the closing brace.
fn parse_members(s: &Vec<u8>, i: usize) -> (r: Option<(Vec<(Vec<u8>, Json)>, usize)>)
    requires
        i <= s@.len(),
    ensures
        match r {
            None => spec_parse_members(s@, i as int, Seq::empty()) is None,
            Some((members, j)) => spec_parse_members(s@, i as int, Seq::empty()) == Some(
                (jv_members(members@, 0), j as int),
            ) && i < j <= s@.len(),
        },
    decreases s@.len() - i, 1int,
{
    let mut acc: Vec<(Vec<u8>, Json)> = Vec::new();
    let mut cur: usize = i;
    loop
        invariant
            i <= cur <= s@.len(),
            spec_parse_members(s@, i as int, Seq::empty()) == spec_parse_members(
                s@,
                cur as int,
                jv_members(acc@, 0),
            ),
        decreases s@.len() - cur,
    {
        let ghost acc_jv = jv_members(acc@, 0);
        if cur >= s.len() || s[cur] != 34 {
            return None;
        }
        match scan_string(s, cur + 1) {
            None => {
                return None;
            },
            Some(j) => {
                let key = copy_range(s, cur + 1, j - 1);
                let k = skip_ws(s, j);
                if !(k < s.len() && s[k] == 58) {
                    return None;
                }
                let m = skip_ws(s, k + 1);
                match parse_value(s, m) {
                    None => {
                        return None;
                    },
                    Some((v, p)) => {
                        let q = skip_ws(s, p);
                        if q < s.len() && s[q] == 44 {
                            let r2 = skip_ws(s, q + 1);
                            proof {
                                lemma_jv_members_push(acc@, (key, v), 0);
                                assert(spec_parse_members(s@, cur as int, acc_jv)
                                    == spec_parse_members(
                                    s@,
                                    r2 as int,
                                    acc_jv.push((key@, v.jv())),
                                ));
                            }
                            acc.push((key, v));
                            cur = r2;
                        } else if q < s.len() && s[q] == 125 {
                            proof {
                                lemma_jv_members_push(acc@, (key, v), 0);
                                assert(spec_parse_members(s@, cur as int, acc_jv) == Some(
                                    (acc_jv.push((key@, v.jv())), q + 1 as int),
                                ));
                            }
                            acc.push((key, v));
                            return Some((acc, q + 1));
                        } else {
                            return None;
                        }
                    },
                }
            },
        }
    }
}

/// Parses a whole payload: optional whitespace, one value, optional
/// whitespace, end of input. Returns `None` exactly when the payload is not
/// a JSON document.
pub fn parse_json(s: &Vec<u8>) -> (r: Option<Json>)
    ensures
        match r {
            None => spec_parse_json(s@) is None,
            Some(v) => spec_parse_json(s@) == Some(v.jv()),
        },
{
    let i = skip_ws(s, 0);
    match parse_value(s, i) {
        None => None,
        Some((v, j)) => {
            let k = skip_ws(s, j);
            if k == s.len() {
                Some(v)
            } else {
                None
            }
        },
    }
}

} // verus!
