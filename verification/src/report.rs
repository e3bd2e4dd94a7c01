//! The report envelope: the outer structure common to all beacon types, as
//! defined by the W3C reporting API, and the strict decoding of a batch of
//! envelopes from a payload.

use vstd::prelude::*;
use vstd::string::*;
use crate::errors::PipelineError;
use crate::json::{jv_members, lemma_jv_items_elts, lemma_jv_members_elts, Json, Jv};
use crate::json::{is_digit, spec_parse_json};
use crate::json_parse::parse_json;
use crate::text::bytes_eq;

verus! {

/// One beacon envelope: the fixed fields every report carries, and a body
/// whose interpretation depends on the report's type and the decoding mode.
/// String fields hold raw JSON string lexemes (escapes intact), so a report
/// re-serializes to the very bytes it arrived with.
pub struct Report<T> {
    /// The value of the User-Agent header of the request from which the
    /// report was generated (as reported by the agent, not this request's).
    pub user_agent: Vec<u8>,
    /// The address of the document or worker the report pertains to.
    pub url: Vec<u8>,
    /// The report type tag, such as `network-error` or `csp-violation`.
    pub report_type: Vec<u8>,
    /// The schema-variant payload.
    pub body: T,
    /// Milliseconds since the event, as reported by the agent.
    pub age: i64,
}

/// The mathematical shape of an envelope.
pub struct ReportV {
    pub user_agent: Seq<u8>,
    pub url: Seq<u8>,
    pub report_type: Seq<u8>,
    pub body: Jv,
    pub age: int,
}

/// The shape of a decoded generic-body report.
pub open spec fn spec_report_v(rep: Report<Json>) -> ReportV {
    ReportV {
        user_agent: rep.user_agent@,
        url: rep.url@,
        report_type: rep.report_type@,
        body: rep.body.jv(),
        age: rep.age as int,
    }
}

// ---------------------------------------------------------------------------
// Object member lookup.
// ---------------------------------------------------------------------------

/// How many members of `ms` carry `key`.
pub open spec fn spec_count_key(ms: Seq<(Seq<u8>, Jv)>, key: Seq<u8>) -> int
    decreases ms.len(),
{
    if ms.len() == 0 {
        0
    } else {
        spec_count_key(ms.drop_last(), key) + if ms.last().0 == key {
            1int
        } else {
            0int
        }
    }
}

/// The value of the last member of `ms` carrying `key` (the only one, when
/// the count is 1).
pub open spec fn spec_get_key(ms: Seq<(Seq<u8>, Jv)>, key: Seq<u8>) -> Option<Jv>
    decreases ms.len(),
{
    if ms.len() == 0 {
        None
    } else if ms.last().0 == key {
        Some(ms.last().1)
    } else {
        spec_get_key(ms.drop_last(), key)
    }
}

/// Member counts are never negative.
pub proof fn lemma_count_key_nonneg(ms: Seq<(Seq<u8>, Jv)>, key: Seq<u8>)
    ensures
        spec_count_key(ms, key) >= 0,
    decreases ms.len(),
{
    if ms.len() > 0 {
        lemma_count_key_nonneg(ms.drop_last(), key);
    }
}

// ---------------------------------------------------------------------------
// Integer lexemes.
// ---------------------------------------------------------------------------

/// Whether `s[i..]` holds decimal digits only.
pub open spec fn spec_all_digits(s: Seq<u8>, i: int) -> bool
    decreases s.len() - i,
{
    i >= s.len() || (0 <= i && is_digit(s[i]) && spec_all_digits(s, i + 1))
}

/// The value of the first `n` digits of `s`.
pub open spec fn spec_digits_val(s: Seq<u8>, n: int) -> int
    decreases n,
{
    if n <= 0 {
        0
    } else {
        spec_digits_val(s, n - 1) * 10 + (s[n - 1] - 48)
    }
}

/// The integer a lexeme denotes: an optional minus sign followed by digits
/// only — a JSON number token without fraction or exponent.
pub open spec fn spec_int_lexeme(s: Seq<u8>) -> Option<int> {
    if s.len() > 0 && s[0] == 45 {
        let d = s.subrange(1, s.len() as int);
        if d.len() > 0 && spec_all_digits(d, 0) {
            Some(-spec_digits_val(d, d.len() as int))
        } else {
            None
        }
    } else if s.len() > 0 && spec_all_digits(s, 0) {
        Some(spec_digits_val(s, s.len() as int))
    } else {
        None
    }
}

/// The integer a lexeme denotes, when it fits a 64-bit signed value.
pub open spec fn spec_int_lexeme_i64(s: Seq<u8>) -> Option<int> {
    match spec_int_lexeme(s) {
        Some(x) => if -0x8000_0000_0000_0000 <= x && x <= 0x7fff_ffff_ffff_ffff {
            Some(x)
        } else {
            None
        },
        None => None,
    }
}

/// Digit values are never negative.
proof fn lemma_digits_val_nonneg(s: Seq<u8>, n: int)
    requires
        spec_all_digits(s, 0),
        0 <= n <= s.len(),
    ensures
        spec_digits_val(s, n) >= 0,
    decreases n,
{
    if n > 0 {
        lemma_digits_val_nonneg(s, n - 1);
        lemma_all_digits_at(s, n - 1);
    }
}

/// Every position of an all-digit lexeme holds a digit.
proof fn lemma_all_digits_at(s: Seq<u8>, k: int)
    requires
        spec_all_digits(s, 0),
        0 <= k < s.len(),
    ensures
        is_digit(s[k]),
        forall|j: int| 0 <= j <= k ==> spec_all_digits(s, j),
    decreases k,
{
    assert(spec_all_digits(s, 0));
    if k > 0 {
        lemma_all_digits_at(s, k - 1);
        assert(spec_all_digits(s, k - 1));
        assert(spec_all_digits(s, k));
    } else {
        assert(is_digit(s[0]));
    }
}

/// Reading more digits never shrinks the value.
proof fn lemma_digits_val_mono(s: Seq<u8>, m: int, n: int)
    requires
        spec_all_digits(s, 0),
        0 <= m <= n <= s.len(),
    ensures
        spec_digits_val(s, m) <= spec_digits_val(s, n),
    decreases n - m,
{
    if m < n {
        lemma_digits_val_mono(s, m, n - 1);
        lemma_digits_val_nonneg(s, n - 1);
        lemma_all_digits_at(s, n - 1);
    }
}

/// A lexeme whose positions all hold digits is all digits from any start.
proof fn lemma_all_digits_suffix(s: Seq<u8>, j: int)
    requires
        0 <= j <= s.len(),
        forall|k: int| s.len() - j <= k < s.len() ==> is_digit(s[k]),
    ensures
        spec_all_digits(s, s.len() - j),
    decreases j,
{
    if j > 0 {
        lemma_all_digits_suffix(s, j - 1);
    }
}

/// Reads an integer lexeme into a 64-bit value; `None` exactly when the
/// lexeme is not an optional minus followed by digits, or does not fit.
pub fn lexeme_to_i64(lex: &Vec<u8>) -> (r: Option<i64>)
    ensures
        match r {
            Some(x) => spec_int_lexeme_i64(lex@) == Some(x as int),
            None => spec_int_lexeme_i64(lex@) is None,
        },
{
    let neg = lex.len() > 0 && lex[0] == 45;
    let start: usize = if neg {
        1
    } else {
        0
    };
    let ghost d: Seq<u8> = if neg {
        lex@.subrange(1, lex@.len() as int)
    } else {
        lex@
    };
    if lex.len() == start {
        return None;
    }
    let mut mag: u128 = 0;
    let mut i: usize = start;
    while i < lex.len()
        invariant
            start <= i <= lex@.len(),
            start == (if neg {
                1int
            } else {
                0int
            }),
            neg ==> lex@.len() > 0 && lex@[0] == 45,
            !neg ==> (lex@.len() == 0 || lex@[0] != 45),
            d == (if neg {
                lex@.subrange(1, lex@.len() as int)
            } else {
                lex@
            }),
            lex@.len() > start,
            d.len() == lex@.len() - start,
            forall|j: int| 0 <= j < i - start ==> is_digit(d[j]),
            mag == spec_digits_val(d, i - start),
            mag <= 0x8000_0000_0000_0000u128,
        decreases lex@.len() - i,
    {
        let b = lex[i];
        if !(48 <= b && b <= 57) {
            proof {
                assert(d[i - start] == lex@[i as int]);
                assert(!spec_all_digits(d, i - start));
                if spec_all_digits(d, 0) {
                    lemma_all_digits_at(d, i - start);
                }
            }
            return None;
        }
        mag = mag * 10 + ((b - 48) as u128);
        i = i + 1;
        proof {
            assert(spec_digits_val(d, i - start) == spec_digits_val(d, i - start - 1) * 10 + (d[i
                - start - 1] - 48));
        }
        if mag > 0x8000_0000_0000_0000u128 {
            proof {
                if spec_all_digits(d, 0) {
                    lemma_digits_val_mono(d, i - start, d.len() as int);
                }
            }
            return None;
        }
    }
    proof {
        lemma_all_digits_suffix(d, d.len() as int);
        assert(spec_all_digits(d, 0));
    }
    if neg {
        if mag == 0 {
            Some(0i64)
        } else {
            Some((-(mag as i128)) as i64)
        }
    } else {
        if mag == 0x8000_0000_0000_0000u128 {
            proof {
                assert(spec_int_lexeme(lex@) == Some(spec_digits_val(d, d.len() as int)));
            }
            None
        } else {
            Some(mag as i64)
        }
    }
}

// ---------------------------------------------------------------------------
// Field lookup on object values.
// ---------------------------------------------------------------------------

/// The integer a lexeme denotes, when it fits a 32-bit signed value.
pub open spec fn spec_int_lexeme_i32(s: Seq<u8>) -> Option<int> {
    match spec_int_lexeme(s) {
        Some(x) => if -0x8000_0000 <= x && x <= 0x7fff_ffff {
            Some(x)
        } else {
            None
        },
        None => None,
    }
}

/// Reads an integer lexeme into a 32-bit value; `None` exactly when the
/// lexeme is not an integer or does not fit.
pub fn lexeme_to_i32(lex: &Vec<u8>) -> (r: Option<i32>)
    ensures
        match r {
            Some(x) => spec_int_lexeme_i32(lex@) == Some(x as int),
            None => spec_int_lexeme_i32(lex@) is None,
        },
{
    match lexeme_to_i64(lex) {
        Some(x) => if -0x8000_0000i64 <= x && x <= 0x7fff_ffffi64 {
            Some(x as i32)
        } else {
            None
        },
        None => None,
    }
}

/// `ms` holds `key` exactly once, with a string value.
pub open spec fn spec_has_text(ms: Seq<(Seq<u8>, Jv)>, key: Seq<u8>) -> bool {
    spec_count_key(ms, key) == 1 && spec_get_key(ms, key) matches Some(Jv::Text(_))
}

/// `ms` holds `key` exactly once, with a number value.
pub open spec fn spec_has_num(ms: Seq<(Seq<u8>, Jv)>, key: Seq<u8>) -> bool {
    spec_count_key(ms, key) == 1 && spec_get_key(ms, key) matches Some(Jv::Num(_))
}

/// `ms` holds `key` exactly once, with a number value that is an integer
/// fitting 32 bits.
pub open spec fn spec_has_i32(ms: Seq<(Seq<u8>, Jv)>, key: Seq<u8>) -> bool {
    spec_count_key(ms, key) == 1 && (spec_get_key(ms, key) matches Some(Jv::Num(lex))
        && spec_int_lexeme_i32(lex) is Some)
}

/// `ms` holds `key` exactly once, with a boolean value.
pub open spec fn spec_has_bool(ms: Seq<(Seq<u8>, Jv)>, key: Seq<u8>) -> bool {
    spec_count_key(ms, key) == 1 && spec_get_key(ms, key) matches Some(Jv::Boolean(_))
}

/// The string content of the unique member `key`.
pub open spec fn spec_text_of(ms: Seq<(Seq<u8>, Jv)>, key: Seq<u8>) -> Seq<u8> {
    spec_get_key(ms, key)->Some_0->Text_0
}

/// The number lexeme of the unique member `key`.
pub open spec fn spec_num_of(ms: Seq<(Seq<u8>, Jv)>, key: Seq<u8>) -> Seq<u8> {
    spec_get_key(ms, key)->Some_0->Num_0
}

/// The 32-bit integer value of the unique member `key`.
pub open spec fn spec_i32_of(ms: Seq<(Seq<u8>, Jv)>, key: Seq<u8>) -> int {
    spec_int_lexeme_i32(spec_num_of(ms, key))->Some_0
}

/// Finds the member carrying `key`, provided it occurs exactly once.
#[verifier::loop_isolation(false)]
pub fn find_unique<'a>(ms: &'a Vec<(Vec<u8>, Json)>, key: &Vec<u8>) -> (r: Option<&'a Json>)
    ensures
        match r {
            Some(x) => spec_count_key(jv_members(ms@, 0), key@) == 1 && spec_get_key(
                jv_members(ms@, 0),
                key@,
            ) == Some(x.jv()),
            None => spec_count_key(jv_members(ms@, 0), key@) != 1,
        },
{
    let ghost full = jv_members(ms@, 0);
    proof {
        lemma_jv_members_elts(ms@);
        assert(full.subrange(0, full.len() as int) =~= full);
    }
    let mut i: usize = ms.len();
    let mut found: Option<usize> = None;
    while i > 0
        invariant
            i <= ms@.len(),
            match found {
                None => spec_count_key(full, key@) == spec_count_key(
                    full.subrange(0, i as int),
                    key@,
                ) && spec_get_key(full, key@) == spec_get_key(full.subrange(0, i as int), key@),
                Some(j) => i <= j < ms@.len() && full[j as int].0 == key@ && spec_count_key(
                    full,
                    key@,
                ) == spec_count_key(full.subrange(0, i as int), key@) + 1 && spec_get_key(
                    full,
                    key@,
                ) == Some(full[j as int].1),
            },
        decreases i,
    {
        i = i - 1;
        proof {
            assert(full.subrange(0, i + 1).drop_last() =~= full.subrange(0, i as int));
            assert(full.subrange(0, i + 1).last() == full[i as int]);
        }
        if bytes_eq(&ms[i].0, key) {
            if found.is_some() {
                proof {
                    lemma_count_key_nonneg(full.subrange(0, i as int), key@);
                }
                return None;
            }
            found = Some(i);
        }
    }
    proof {
        assert(full.subrange(0, 0) =~= Seq::<(Seq<u8>, Jv)>::empty());
    }
    match found {
        Some(j) => Some(&ms[j].1),
        None => None,
    }
}

/// The string content of the unique member `key`, or `None` if `key` is not
/// unique or its value is not a string.
pub fn get_text(ms: &Vec<(Vec<u8>, Json)>, key: &Vec<u8>) -> (r: Option<Vec<u8>>)
    ensures
        match r {
            Some(x) => spec_has_text(jv_members(ms@, 0), key@) && x@ == spec_text_of(
                jv_members(ms@, 0),
                key@,
            ),
            None => !spec_has_text(jv_members(ms@, 0), key@),
        },
{
    match find_unique(ms, key) {
        Some(Json::Text(lex)) => Some(crate::log_line::copy_vec(lex)),
        _ => None,
    }
}

/// The number lexeme of the unique member `key`, or `None` if `key` is not
/// unique or its value is not a number.
pub fn get_num(ms: &Vec<(Vec<u8>, Json)>, key: &Vec<u8>) -> (r: Option<Vec<u8>>)
    ensures
        match r {
            Some(x) => spec_has_num(jv_members(ms@, 0), key@) && x@ == spec_num_of(
                jv_members(ms@, 0),
                key@,
            ),
            None => !spec_has_num(jv_members(ms@, 0), key@),
        },
{
    match find_unique(ms, key) {
        Some(Json::Num(lex)) => Some(crate::log_line::copy_vec(lex)),
        _ => None,
    }
}

/// The 32-bit integer value of the unique member `key`, or `None` if `key`
/// is not unique or its value is not such an integer.
pub fn get_i32(ms: &Vec<(Vec<u8>, Json)>, key: &Vec<u8>) -> (r: Option<i32>)
    ensures
        match r {
            Some(x) => spec_has_i32(jv_members(ms@, 0), key@) && x as int == spec_i32_of(
                jv_members(ms@, 0),
                key@,
            ),
            None => !spec_has_i32(jv_members(ms@, 0), key@),
        },
{
    match find_unique(ms, key) {
        Some(Json::Num(lex)) => lexeme_to_i32(lex),
        _ => None,
    }
}

/// The boolean value of the unique member `key`, or `None` if `key` is not
/// unique or its value is not a boolean.
pub fn get_bool(ms: &Vec<(Vec<u8>, Json)>, key: &Vec<u8>) -> (r: Option<bool>)
    ensures
        match r {
            Some(x) => spec_has_bool(jv_members(ms@, 0), key@) && Jv::Boolean(x) == spec_get_key(
                jv_members(ms@, 0),
                key@,
            )->Some_0,
            None => !spec_has_bool(jv_members(ms@, 0), key@),
        },
{
    match find_unique(ms, key) {
        Some(Json::Boolean(b)) => Some(*b),
        _ => None,
    }
}

// ---------------------------------------------------------------------------
// The envelope shape.
// ---------------------------------------------------------------------------

/// The shape of a prefix of a member list is the prefix of its shape.
pub proof fn lemma_jv_members_prefix(s: Seq<(Vec<u8>, Json)>, n: int)
    requires
        0 <= n <= s.len(),
    ensures
        jv_members(s.subrange(0, n), 0) == jv_members(s, 0).subrange(0, n),
{
    lemma_jv_members_elts(s.subrange(0, n));
    lemma_jv_members_elts(s);
    assert forall|k: int| 0 <= k < n implies jv_members(s.subrange(0, n), 0)[k] == jv_members(
        s,
        0,
    ).subrange(0, n)[k] by {
        assert(s.subrange(0, n)[k] == s[k]);
    }
    assert(jv_members(s.subrange(0, n), 0) =~= jv_members(s, 0).subrange(0, n));
}

/// The five envelope field names are pairwise distinct byte strings.
pub proof fn lemma_envelope_keys_distinct()
    ensures
        "user_agent".spec_bytes() != "url".spec_bytes(),
        "user_agent".spec_bytes() != "type".spec_bytes(),
        "user_agent".spec_bytes() != "body".spec_bytes(),
        "user_agent".spec_bytes() != "age".spec_bytes(),
        "url".spec_bytes() != "type".spec_bytes(),
        "url".spec_bytes() != "body".spec_bytes(),
        "url".spec_bytes() != "age".spec_bytes(),
        "type".spec_bytes() != "body".spec_bytes(),
        "type".spec_bytes() != "age".spec_bytes(),
        "body".spec_bytes() != "age".spec_bytes(),
{
    broadcast use vstd::string::is_ascii_spec_bytes;

    reveal_strlit("user_agent");
    reveal_strlit("url");
    reveal_strlit("type");
    reveal_strlit("body");
    reveal_strlit("age");
    assert(is_ascii("user_agent"));
    assert(is_ascii("url"));
    assert(is_ascii("type"));
    assert(is_ascii("body"));
    assert(is_ascii("age"));
    assert("user_agent".spec_bytes().len() == 10);
    assert("url".spec_bytes().len() == 3);
    assert("type".spec_bytes().len() == 4);
    assert("body".spec_bytes().len() == 4);
    assert("age".spec_bytes().len() == 3);
    assert("type".spec_bytes()[0] == 116u8);
    assert("body".spec_bytes()[0] == 98u8);
    assert("url".spec_bytes()[0] == 117u8);
    assert("age".spec_bytes()[0] == 97u8);
}

/// Whether `v` is a well-shaped envelope object: exactly one member for each
/// required field, each of the right shape; unknown members are ignored.
pub open spec fn spec_envelope_ok(v: Jv) -> bool {
    match v {
        Jv::Obj(ms) => {
            &&& spec_count_key(ms, "user_agent".spec_bytes()) == 1
            &&& spec_get_key(ms, "user_agent".spec_bytes()) matches Some(Jv::Text(_))
            &&& spec_count_key(ms, "url".spec_bytes()) == 1
            &&& spec_get_key(ms, "url".spec_bytes()) matches Some(Jv::Text(_))
            &&& spec_count_key(ms, "type".spec_bytes()) == 1
            &&& spec_get_key(ms, "type".spec_bytes()) matches Some(Jv::Text(_))
            &&& spec_count_key(ms, "body".spec_bytes()) == 1
            &&& spec_count_key(ms, "age".spec_bytes()) == 1
            &&& (spec_get_key(ms, "age".spec_bytes()) matches Some(Jv::Num(lex))
                && spec_int_lexeme_i64(lex) is Some)
        },
        _ => false,
    }
}

/// The envelope fields of a well-shaped envelope object.
pub open spec fn spec_envelope(v: Jv) -> ReportV
    recommends
        spec_envelope_ok(v),
{
    let ms = v->Obj_0;
    ReportV {
        user_agent: spec_get_key(ms, "user_agent".spec_bytes())->Some_0->Text_0,
        url: spec_get_key(ms, "url".spec_bytes())->Some_0->Text_0,
        report_type: spec_get_key(ms, "type".spec_bytes())->Some_0->Text_0,
        body: spec_get_key(ms, "body".spec_bytes())->Some_0,
        age: spec_int_lexeme_i64(spec_get_key(ms, "age".spec_bytes())->Some_0->Num_0)->Some_0,
    }
}

/// Decodes one envelope object. Strict at the envelope level: a missing,
/// duplicated or wrongly-shaped required field fails the whole batch, so the
/// error is `MalformedBatch`.
#[verifier::loop_isolation(false)]
pub fn decode_envelope(v: Json) -> (r: Result<Report<Json>, PipelineError>)
    ensures
        match r {
            Ok(rep) => spec_envelope_ok(v.jv()) && spec_report_v(rep) == spec_envelope(v.jv()),
            Err(e) => !spec_envelope_ok(v.jv()) && e == PipelineError::MalformedBatch,
        },
{
    let ghost vj = v.jv();
    let mut ms: Vec<(Vec<u8>, Json)> = match v {
        Json::Obj(members) => members,
        _ => {
            return Err(PipelineError::MalformedBatch);
        },
    };
    let ghost full: Seq<(Seq<u8>, Jv)> = jv_members(ms@, 0);
    proof {
        assert(vj == Jv::Obj(full));
        lemma_jv_members_elts(ms@);
    }
    let ghost full_ms0 = ms@;
    let key_ua = "user_agent".as_bytes_vec();
    let key_url = "url".as_bytes_vec();
    let key_type = "type".as_bytes_vec();
    let key_body = "body".as_bytes_vec();
    let key_age = "age".as_bytes_vec();
    let mut ua: Option<Vec<u8>> = None;
    let mut url: Option<Vec<u8>> = None;
    let mut rtype: Option<Vec<u8>> = None;
    let mut body: Option<Json> = None;
    let mut age: Option<i64> = None;
    while ms.len() > 0
        invariant
            key_ua@ == "user_agent".spec_bytes(),
            key_url@ == "url".spec_bytes(),
            key_type@ == "type".spec_bytes(),
            key_body@ == "body".spec_bytes(),
            key_age@ == "age".spec_bytes(),
            full == jv_members(full_ms0, 0),
            full.len() == full_ms0.len(),
            forall|k: int|
                0 <= k < full_ms0.len() ==> full[k] == (full_ms0[k].0@, full_ms0[k].1.jv()),
            ms@ == full_ms0.subrange(0, ms@.len() as int),
            ms@.len() <= full_ms0.len(),
            match ua {
                None => spec_count_key(full, key_ua@) == spec_count_key(
                    jv_members(ms@, 0),
                    key_ua@,
                ) && spec_get_key(full, key_ua@) == spec_get_key(jv_members(ms@, 0), key_ua@),
                Some(x) => spec_count_key(full, key_ua@) == spec_count_key(jv_members(ms@, 0), key_ua@)
                    + 1 && spec_get_key(full, key_ua@) == Some(Jv::Text(x@)),
            },
            match url {
                None => spec_count_key(full, key_url@) == spec_count_key(
                    jv_members(ms@, 0),
                    key_url@,
                ) && spec_get_key(full, key_url@) == spec_get_key(jv_members(ms@, 0), key_url@),
                Some(x) => spec_count_key(full, key_url@) == spec_count_key(jv_members(ms@, 0), key_url@)
                    + 1 && spec_get_key(full, key_url@) == Some(Jv::Text(x@)),
            },
            match rtype {
                None => spec_count_key(full, key_type@) == spec_count_key(
                    jv_members(ms@, 0),
                    key_type@,
                ) && spec_get_key(full, key_type@) == spec_get_key(jv_members(ms@, 0), key_type@),
                Some(x) => spec_count_key(full, key_type@) == spec_count_key(
                    jv_members(ms@, 0),
                    key_type@,
                ) + 1 && spec_get_key(full, key_type@) == Some(Jv::Text(x@)),
            },
            match body {
                None => spec_count_key(full, key_body@) == spec_count_key(
                    jv_members(ms@, 0),
                    key_body@,
                ) && spec_get_key(full, key_body@) == spec_get_key(jv_members(ms@, 0), key_body@),
                Some(x) => spec_count_key(full, key_body@) == spec_count_key(
                    jv_members(ms@, 0),
                    key_body@,
                ) + 1 && spec_get_key(full, key_body@) == Some(x.jv()),
            },
            match age {
                None => spec_count_key(full, key_age@) == spec_count_key(
                    jv_members(ms@, 0),
                    key_age@,
                ) && spec_get_key(full, key_age@) == spec_get_key(jv_members(ms@, 0), key_age@),
                Some(x) => spec_count_key(full, key_age@) == spec_count_key(jv_members(ms@, 0), key_age@)
                    + 1 && (spec_get_key(full, key_age@) matches Some(Jv::Num(lex))
                    && spec_int_lexeme_i64(lex) == Some(x as int)),
            },
        decreases ms@.len(),
    {
        let ghost n0 = ms@.len() as int;
        let ghost pre = jv_members(ms@, 0);
        proof {
            lemma_envelope_keys_distinct();
            lemma_jv_members_prefix(full_ms0, n0);
            assert(pre == full.subrange(0, n0));
        }
        let popped = ms.pop();
        let (k, val) = match popped {
            Some(kv) => kv,
            None => {
                // the loop guard keeps the member list non-empty here
                proof {
                    assert(false);
                }
                return Err(PipelineError::MalformedBatch);
            },
        };
        proof {
            assert(ms@ =~= full_ms0.subrange(0, n0 - 1));
            lemma_jv_members_prefix(full_ms0, n0 - 1);
            assert(jv_members(ms@, 0) == full.subrange(0, n0 - 1));
            assert(jv_members(ms@, 0) =~= pre.drop_last());
            assert((k, val) == full_ms0[n0 - 1]);
            assert(full[n0 - 1] == (full_ms0[n0 - 1].0@, full_ms0[n0 - 1].1.jv()));
            assert(pre.last() == (k@, val.jv()));
        }
        if bytes_eq(&k, &key_ua) {
            if ua.is_some() {
                proof {
                    lemma_count_key_nonneg(jv_members(ms@, 0).drop_last(), key_ua@);
                    lemma_count_key_nonneg(jv_members(ms@, 0), key_ua@);
                }
                return Err(PipelineError::MalformedBatch);
            }
            match val {
                Json::Text(lex) => {
                    ua = Some(lex);
                },
                _ => {
                    return Err(PipelineError::MalformedBatch);
                },
            }
        } else if bytes_eq(&k, &key_url) {
            if url.is_some() {
                proof {
                    lemma_count_key_nonneg(jv_members(ms@, 0), key_url@);
                }
                return Err(PipelineError::MalformedBatch);
            }
            match val {
                Json::Text(lex) => {
                    url = Some(lex);
                },
                _ => {
                    return Err(PipelineError::MalformedBatch);
                },
            }
        } else if bytes_eq(&k, &key_type) {
            if rtype.is_some() {
                proof {
                    lemma_count_key_nonneg(jv_members(ms@, 0), key_type@);
                }
                return Err(PipelineError::MalformedBatch);
            }
            match val {
                Json::Text(lex) => {
                    rtype = Some(lex);
                },
                _ => {
                    return Err(PipelineError::MalformedBatch);
                },
            }
        } else if bytes_eq(&k, &key_body) {
            if body.is_some() {
                proof {
                    lemma_count_key_nonneg(jv_members(ms@, 0), key_body@);
                }
                return Err(PipelineError::MalformedBatch);
            }
            body = Some(val);
        } else if bytes_eq(&k, &key_age) {
            if age.is_some() {
                proof {
                    lemma_count_key_nonneg(jv_members(ms@, 0), key_age@);
                }
                return Err(PipelineError::MalformedBatch);
            }
            match val {
                Json::Num(lex) => {
                    match lexeme_to_i64(&lex) {
                        Some(x) => {
                            age = Some(x);
                        },
                        None => {
                            return Err(PipelineError::MalformedBatch);
                        },
                    }
                },
                _ => {
                    return Err(PipelineError::MalformedBatch);
                },
            }
        }
    }
    proof {
        assert(ms@.len() == 0);
        assert(jv_members(ms@, 0) =~= Seq::<(Seq<u8>, Jv)>::empty());
    }
    match (ua, url, rtype, body, age) {
        (Some(user_agent), Some(url_v), Some(report_type), Some(body_v), Some(age_v)) => {
            let rep = Report {
                user_agent,
                url: url_v,
                report_type,
                body: body_v,
                age: age_v,
            };
            Ok(rep)
        },
        _ => Err(PipelineError::MalformedBatch),
    }
}

// ---------------------------------------------------------------------------
// The batch.
// ---------------------------------------------------------------------------

/// Whether every element of `items[i..]` is a well-shaped envelope.
pub open spec fn spec_envelopes_ok(items: Seq<Jv>, i: int) -> bool
    decreases items.len() - i,
{
    i >= items.len() || (0 <= i && spec_envelope_ok(items[i]) && spec_envelopes_ok(items, i + 1))
}

/// Each element of a well-shaped batch is a well-shaped envelope.
pub proof fn lemma_envelopes_ok_at(items: Seq<Jv>, k: int)
    requires
        spec_envelopes_ok(items, 0),
        0 <= k < items.len(),
    ensures
        spec_envelope_ok(items[k]),
        forall|j: int| 0 <= j <= k ==> spec_envelopes_ok(items, j),
    decreases k,
{
    assert(spec_envelopes_ok(items, 0));
    if k > 0 {
        lemma_envelopes_ok_at(items, k - 1);
        assert(spec_envelopes_ok(items, k - 1));
        assert(spec_envelopes_ok(items, k));
    } else {
        assert(spec_envelope_ok(items[0]));
    }
}

/// The meaning of a payload: an ordered sequence of envelopes, or nothing if
/// the payload is not a JSON array of well-shaped envelope objects.
pub open spec fn spec_decode_batch(s: Seq<u8>) -> Option<Seq<ReportV>> {
    match spec_parse_json(s) {
        None => None,
        Some(v) => match v {
            Jv::Arr(items) => if spec_envelopes_ok(items, 0) {
                Some(Seq::new(items.len(), |i: int| spec_envelope(items[i])))
            } else {
                None
            },
            _ => None,
        },
    }
}

/// Decodes a raw payload into an ordered sequence of generic reports, each
/// body carried opaquely. Fails with `MalformedBatch`, fatally for the whole
/// request, exactly when the payload is not a JSON array of well-shaped
/// envelope objects.
#[verifier::loop_isolation(false)]
pub fn decode_batch(payload: &Vec<u8>) -> (r: Result<Vec<Report<Json>>, PipelineError>)
    ensures
        match r {
            Ok(reps) => spec_decode_batch(payload@) matches Some(rvs) && reps@.len() == rvs.len()
                && forall|j: int| 0 <= j < reps@.len() ==> spec_report_v(reps@[j]) == rvs[j],
            Err(e) => spec_decode_batch(payload@) is None && e == PipelineError::MalformedBatch,
        },
{
    let parsed = match parse_json(payload) {
        Some(p) => p,
        None => {
            return Err(PipelineError::MalformedBatch);
        },
    };
    let ghost pj = parsed.jv();
    let mut items: Vec<Json> = match parsed {
        Json::Arr(elems) => elems,
        _ => {
            return Err(PipelineError::MalformedBatch);
        },
    };
    let ghost full_items = items@;
    let ghost jvs = crate::json::jv_items(full_items, 0);
    proof {
        assert(pj == Jv::Arr(jvs));
        lemma_jv_items_elts(full_items);
    }
    let mut out: Vec<Report<Json>> = Vec::new();
    let n = items.len();
    let mut idx: usize = 0;
    while idx < n
        invariant
            n == full_items.len(),
            jvs == crate::json::jv_items(full_items, 0),
            jvs.len() == n,
            forall|k: int| 0 <= k < n ==> jvs[k] == full_items[k].jv(),
            idx <= n,
            items@ == full_items.subrange(idx as int, n as int),
            out@.len() == idx,
            forall|j: int| 0 <= j < idx ==> spec_envelope_ok(jvs[j]),
            forall|j: int| 0 <= j < idx ==> spec_report_v(out@[j]) == spec_envelope(jvs[j]),
        decreases n - idx,
    {
        let e = items.remove(0);
        proof {
            assert(e == full_items[idx as int]);
            assert(items@ =~= full_items.subrange(idx + 1, n as int));
        }
        match decode_envelope(e) {
            Ok(rep) => {
                out.push(rep);
            },
            Err(err) => {
                proof {
                    if spec_envelopes_ok(jvs, 0) {
                        lemma_envelopes_ok_at(jvs, idx as int);
                    }
                }
                return Err(err);
            },
        }
        idx = idx + 1;
    }
    proof {
        lemma_envelopes_ok_suffix(jvs, n as int);
        assert(spec_envelopes_ok(jvs, 0));
    }
    Ok(out)
}

/// If every element from position `len - j` on is well-shaped, the suffix
/// predicate holds there.
proof fn lemma_envelopes_ok_suffix(items: Seq<Jv>, j: int)
    requires
        0 <= j <= items.len(),
        forall|k: int| items.len() - j <= k < items.len() ==> spec_envelope_ok(items[k]),
    ensures
        spec_envelopes_ok(items, items.len() - j),
    decreases j,
{
    if j > 0 {
        lemma_envelopes_ok_suffix(items, j - 1);
    }
}

} // verus!
