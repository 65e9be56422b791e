//! Textual encoding of protocol messages.
//!
//! Each message is written as structured text: a tagged object whose tag
//! names the variant and whose fields follow in a fixed order, with string
//! values quoted and escaped. The spec functions here define both the
//! encoding ([`request_json`], [`response_json`]) and the decoding
//! ([`parse_request`], [`parse_response`]), and the lemmas prove that
//! decoding inverts encoding — for every message value, not only those a
//! test happens to try. The reader accepts the canonical written form that
//! this library and the daemon's own protocol library both produce: fixed
//! field order, no extra whitespace, and the standard escapes inside quoted
//! values.

use vstd::prelude::*;
use vstd::string::StrSliceExecFns;

use crate::proto::{AuthMessageType, ErrorType, Request, RequestView, Response, ResponseView};

verus! {

broadcast use vstd::seq_lib::group_seq_lib_default, vstd::seq::group_seq_axioms;

/// The lower-case hexadecimal digit for a value below sixteen.
pub open spec fn hex_digit_char(n: int) -> char
    recommends
        0 <= n < 16,
{
    seq!['0', '1', '2', '3', '4', '5', '6', '7', '8', '9', 'a', 'b', 'c', 'd', 'e', 'f'][n]
}

/// The numeric value of a lower-case hexadecimal digit.
pub open spec fn hex_val(c: char) -> Option<int> {
    let v = c as u32;
    if 48 <= v && v <= 57 {
        Some(v - 48)
    } else if 97 <= v && v <= 102 {
        Some(v - 87)
    } else {
        None
    }
}

/// How one character is written inside a quoted string: quote and backslash
/// get a two-character escape, as do the five control characters with short
/// names; the remaining control characters get a six-character numeric
/// escape; every other character stands for itself.
pub open spec fn json_escape_char(c: char) -> Seq<char> {
    if c == '"' {
        seq!['\\', '"']
    } else if c == '\\' {
        seq!['\\', '\\']
    } else if c == '\u{8}' {
        seq!['\\', 'b']
    } else if c == '\t' {
        seq!['\\', 't']
    } else if c == '\n' {
        seq!['\\', 'n']
    } else if c == '\u{c}' {
        seq!['\\', 'f']
    } else if c == '\r' {
        seq!['\\', 'r']
    } else if (c as u32) < 0x20 {
        seq!['\\', 'u', '0', '0', hex_digit_char((c as u32) as int / 16), hex_digit_char(
            (c as u32) as int % 16,
        )]
    } else {
        seq![c]
    }
}

/// A whole character sequence, escaped.
pub open spec fn json_escape(s: Seq<char>) -> Seq<char>
    decreases s.len(),
{
    if s.len() == 0 {
        Seq::empty()
    } else {
        json_escape_char(s[0]) + json_escape(s.drop_first())
    }
}

/// The inverse of a two-character escape, for the short escape names.
pub open spec fn simple_unescape(e: char) -> Option<char> {
    if e == '"' {
        Some('"')
    } else if e == '\\' {
        Some('\\')
    } else if e == '/' {
        Some('/')
    } else if e == 'b' {
        Some('\u{8}')
    } else if e == 't' {
        Some('\t')
    } else if e == 'n' {
        Some('\n')
    } else if e == 'f' {
        Some('\u{c}')
    } else if e == 'r' {
        Some('\r')
    } else {
        None
    }
}

/// Reads the body of a quoted string, positioned just after the opening
/// quote, up to and including the closing quote. Returns the unescaped
/// content and what follows the closing quote. Numeric escapes are accepted
/// for values below 0x80; larger characters arrive unescaped.
pub open spec fn parse_string_body(t: Seq<char>) -> Option<(Seq<char>, Seq<char>)>
    decreases t.len(),
{
    if t.len() == 0 {
        None
    } else if t[0] == '"' {
        Some((Seq::empty(), t.drop_first()))
    } else if t[0] == '\\' {
        if t.len() < 2 {
            None
        } else if t[1] == 'u' {
            if t.len() < 6 {
                None
            } else {
                match (hex_val(t[2]), hex_val(t[3]), hex_val(t[4]), hex_val(t[5])) {
                    (Some(h3), Some(h2), Some(h1), Some(h0)) => {
                        let v = h3 * 4096 + h2 * 256 + h1 * 16 + h0;
                        if v < 0x80 {
                            match parse_string_body(t.skip(6)) {
                                Some((s, r)) => Some((seq![((v as u32) as char)] + s, r)),
                                None => None,
                            }
                        } else {
                            None
                        }
                    },
                    _ => None,
                }
            }
        } else {
            match simple_unescape(t[1]) {
                Some(c) => match parse_string_body(t.skip(2)) {
                    Some((s, r)) => Some((seq![c] + s, r)),
                    None => None,
                },
                None => None,
            }
        }
    } else if (t[0] as u32) < 0x20 {
        None
    } else {
        match parse_string_body(t.drop_first()) {
            Some((s, r)) => Some((seq![t[0]] + s, r)),
            None => None,
        }
    }
}

/// Whatever a string body parse consumes, it consumes at least the closing
/// quote, so the remainder is strictly shorter than the input.
proof fn lemma_parse_string_body_len(t: Seq<char>)
    ensures
        parse_string_body(t) matches Some((s, r)) ==> r.len() < t.len(),
    decreases t.len(),
{
    if t.len() == 0 {
    } else if t[0] == '"' {
    } else if t[0] == '\\' {
        if t.len() >= 6 {
            lemma_parse_string_body_len(t.skip(6));
        }
        if t.len() >= 2 {
            lemma_parse_string_body_len(t.skip(2));
        }
    } else {
        lemma_parse_string_body_len(t.drop_first());
    }
}

/// Escaping then reading back a string body returns the string and leaves
/// exactly what followed the closing quote.
/// A two-character escape reads back as the character it stands for.
proof fn lemma_parse_two_char_escape(c: char, e: char, s2: Seq<char>, rest: Seq<char>)
    requires
        simple_unescape(e) == Some(c),
        e != 'u',
        json_escape_char(c) == seq!['\\', e],
        parse_string_body(json_escape(s2) + seq!['"'] + rest) == Some((s2, rest)),
    ensures
        parse_string_body(json_escape_char(c) + (json_escape(s2) + seq!['"'] + rest)) == Some(
            (seq![c] + s2, rest),
        ),
{
    let tail = json_escape(s2) + seq!['"'] + rest;
    let t = json_escape_char(c) + tail;
    assert(t =~= seq!['\\', e] + tail);
    assert(t.skip(2) =~= tail);
    assert(parse_string_body(t) == Some((seq![c] + s2, rest))) by {
        reveal_with_fuel(parse_string_body, 2);
    }
}

/// A numeric escape reads back as the control character it stands for.
proof fn lemma_parse_hex_escape(c: char, s2: Seq<char>, rest: Seq<char>)
    requires
        (c as u32) < 0x20,
        json_escape_char(c) == seq!['\\', 'u', '0', '0', hex_digit_char((c as u32) as int / 16), hex_digit_char((c as u32) as int % 16)],
        parse_string_body(json_escape(s2) + seq!['"'] + rest) == Some((s2, rest)),
    ensures
        parse_string_body(json_escape_char(c) + (json_escape(s2) + seq!['"'] + rest)) == Some(
            (seq![c] + s2, rest),
        ),
{
    broadcast use vstd::utf8::char_u32_cast;

    let tail = json_escape(s2) + seq!['"'] + rest;
    let t = json_escape_char(c) + tail;
    let v = c as u32;
    let hi = v as int / 16;
    let lo = v as int % 16;
    assert(t =~= seq!['\\', 'u', '0', '0', hex_digit_char(hi), hex_digit_char(lo)] + tail);
    assert(t.skip(6) =~= tail);
    lemma_hex_digit_char_val(hi);
    lemma_hex_digit_char_val(lo);
    assert(hex_val('0') == Some(0int));
    assert(0 * 4096 + 0 * 256 + hi * 16 + lo == v);
    assert(parse_string_body(t) == Some((seq![c] + s2, rest))) by {
        reveal_with_fuel(parse_string_body, 2);
    }
}

/// A character that needs no escape reads back as itself.
proof fn lemma_parse_plain_char(c: char, s2: Seq<char>, rest: Seq<char>)
    requires
        c != '"',
        c != '\\',
        (c as u32) >= 0x20,
        parse_string_body(json_escape(s2) + seq!['"'] + rest) == Some((s2, rest)),
    ensures
        parse_string_body(json_escape_char(c) + (json_escape(s2) + seq!['"'] + rest)) == Some(
            (seq![c] + s2, rest),
        ),
{
    let tail = json_escape(s2) + seq!['"'] + rest;
    let t = json_escape_char(c) + tail;
    assert(json_escape_char(c) == seq![c]);
    assert(t =~= seq![c] + tail);
    assert(t.drop_first() =~= tail);
    assert(parse_string_body(t) == Some((seq![c] + s2, rest))) by {
        reveal_with_fuel(parse_string_body, 2);
    }
}

/// Escaping then reading back a string body returns the string and leaves
/// exactly what followed the closing quote.
proof fn lemma_parse_escape(s: Seq<char>, rest: Seq<char>)
    ensures
        parse_string_body(json_escape(s) + seq!['"'] + rest) == Some((s, rest)),
    decreases s.len(),
{
    if s.len() == 0 {
        let t = json_escape(s) + seq!['"'] + rest;
        assert(t =~= seq!['"'] + rest);
        assert(t.drop_first() =~= rest);
        assert(parse_string_body(t) == Some((s, rest)));
    } else {
        let c = s[0];
        let s2 = s.drop_first();
        let t = json_escape(s) + seq!['"'] + rest;
        let tail = json_escape(s2) + seq!['"'] + rest;
        lemma_parse_escape(s2, rest);
        assert(seq![c] + s2 =~= s);
        assert(t =~= json_escape_char(c) + tail);
        if c == '"' {
            lemma_parse_two_char_escape(c, '"', s2, rest);
        } else if c == '\\' {
            lemma_parse_two_char_escape(c, '\\', s2, rest);
        } else if c == '\u{8}' {
            lemma_parse_two_char_escape(c, 'b', s2, rest);
        } else if c == '\t' {
            lemma_parse_two_char_escape(c, 't', s2, rest);
        } else if c == '\n' {
            lemma_parse_two_char_escape(c, 'n', s2, rest);
        } else if c == '\u{c}' {
            lemma_parse_two_char_escape(c, 'f', s2, rest);
        } else if c == '\r' {
            lemma_parse_two_char_escape(c, 'r', s2, rest);
        } else if (c as u32) < 0x20 {
            lemma_parse_hex_escape(c, s2, rest);
        } else {
            lemma_parse_plain_char(c, s2, rest);
        }
    }
}

/// A hexadecimal digit character reads back as its value.
proof fn lemma_hex_digit_char_val(n: int)
    requires
        0 <= n < 16,
    ensures
        hex_val(hex_digit_char(n)) == Some(n),
{
    if n == 0 {
        assert(hex_val(hex_digit_char(0)) == Some(0int));
    } else if n == 1 {
        assert(hex_val(hex_digit_char(1)) == Some(1int));
    } else if n == 2 {
        assert(hex_val(hex_digit_char(2)) == Some(2int));
    } else if n == 3 {
        assert(hex_val(hex_digit_char(3)) == Some(3int));
    } else if n == 4 {
        assert(hex_val(hex_digit_char(4)) == Some(4int));
    } else if n == 5 {
        assert(hex_val(hex_digit_char(5)) == Some(5int));
    } else if n == 6 {
        assert(hex_val(hex_digit_char(6)) == Some(6int));
    } else if n == 7 {
        assert(hex_val(hex_digit_char(7)) == Some(7int));
    } else if n == 8 {
        assert(hex_val(hex_digit_char(8)) == Some(8int));
    } else if n == 9 {
        assert(hex_val(hex_digit_char(9)) == Some(9int));
    } else if n == 10 {
        assert(hex_val(hex_digit_char(10)) == Some(10int));
    } else if n == 11 {
        assert(hex_val(hex_digit_char(11)) == Some(11int));
    } else if n == 12 {
        assert(hex_val(hex_digit_char(12)) == Some(12int));
    } else if n == 13 {
        assert(hex_val(hex_digit_char(13)) == Some(13int));
    } else if n == 14 {
        assert(hex_val(hex_digit_char(14)) == Some(14int));
    } else {
        assert(hex_val(hex_digit_char(15)) == Some(15int));
    }
}


/// A quoted, escaped string value.
pub open spec fn json_string(s: Seq<char>) -> Seq<char> {
    seq!['"'] + json_escape(s) + seq!['"']
}

/// The comma-separated items of a non-empty array of string values.
pub open spec fn json_array_items(v: Seq<Seq<char>>) -> Seq<char>
    decreases v.len(),
{
    if v.len() == 0 {
        Seq::empty()
    } else if v.len() == 1 {
        json_string(v[0])
    } else {
        json_string(v[0]) + seq![','] + json_array_items(v.drop_first())
    }
}

/// A bracketed array of string values.
pub open spec fn json_string_array(v: Seq<Seq<char>>) -> Seq<char> {
    seq!['['] + json_array_items(v) + seq![']']
}

/// Reads the items of an array of string values, positioned at the opening
/// quote of the first item; consumes the closing bracket.
pub open spec fn parse_array_items(t: Seq<char>) -> Option<(Seq<Seq<char>>, Seq<char>)>
    decreases t.len(),
        via parse_array_items_dec
{
    if t.len() == 0 || t[0] != '"' {
        None
    } else {
        match parse_string_body(t.drop_first()) {
            None => None,
            Some((s, r)) => if r.len() == 0 {
                None
            } else if r[0] == ']' {
                Some((seq![s], r.drop_first()))
            } else if r[0] == ',' {
                match parse_array_items(r.drop_first()) {
                    None => None,
                    Some((v, r2)) => Some((seq![s] + v, r2)),
                }
            } else {
                None
            },
        }
    }
}

#[via_fn]
proof fn parse_array_items_dec(t: Seq<char>) {
    if t.len() != 0 && t[0] == '"' {
        lemma_parse_string_body_len(t.drop_first());
    }
}

/// Reads a bracketed array of string values and returns what follows it.
pub open spec fn parse_string_array(t: Seq<char>) -> Option<(Seq<Seq<char>>, Seq<char>)> {
    if t.len() < 2 || t[0] != '[' {
        None
    } else if t[1] == ']' {
        Some((Seq::empty(), t.skip(2)))
    } else {
        parse_array_items(t.drop_first())
    }
}

/// Writing the items of a non-empty array and reading them back returns the
/// items and leaves what followed the closing bracket.
#[verifier::rlimit(50)]
proof fn lemma_parse_array_items(v: Seq<Seq<char>>, rest: Seq<char>)
    requires
        v.len() >= 1,
    ensures
        parse_array_items(json_array_items(v) + seq![']'] + rest) == Some((v, rest)),
    decreases v.len(),
{
    let t = json_array_items(v) + seq![']'] + rest;
    if v.len() == 1 {
        let after = seq![']'] + rest;
        lemma_parse_escape(v[0], after);
        assert(t =~= seq!['"'] + (json_escape(v[0]) + seq!['"'] + after));
        assert(t.drop_first() =~= json_escape(v[0]) + seq!['"'] + after);
        assert(after.drop_first() =~= rest);
        assert(seq![v[0]] =~= v);
        assert(parse_array_items(t) == Some((v, rest)));
    } else {
        let v2 = v.drop_first();
        let items2 = json_array_items(v2) + seq![']'] + rest;
        let after = seq![','] + items2;
        lemma_parse_array_items(v2, rest);
        lemma_parse_escape(v[0], after);
        assert(t =~= seq!['"'] + (json_escape(v[0]) + seq!['"'] + after));
        assert(t.drop_first() =~= json_escape(v[0]) + seq!['"'] + after);
        assert(after.drop_first() =~= items2);
        assert(seq![v[0]] + v2 =~= v);
        assert(parse_array_items(t) == Some((v, rest)));
    }
}

/// Writing an array and reading it back returns the items and leaves what
/// followed the closing bracket.
proof fn lemma_parse_string_array(v: Seq<Seq<char>>, rest: Seq<char>)
    ensures
        parse_string_array(json_string_array(v) + rest) == Some((v, rest)),
{
    let t = json_string_array(v) + rest;
    if v.len() == 0 {
        assert(t =~= seq!['[', ']'] + rest);
        assert(t.skip(2) =~= rest);
        assert(parse_string_array(t) == Some((v, rest)));
    } else {
        lemma_parse_array_items(v, rest);
        assert(json_array_items(v)[0] == '"');
        assert(t =~= seq!['['] + (json_array_items(v) + seq![']'] + rest));
        assert(t.drop_first() =~= json_array_items(v) + seq![']'] + rest);
        assert(t[0] == '[');
        assert(t[1] == '"');
        assert(parse_string_array(t) == Some((v, rest)));
    }
}

/// Removes a known leading text, or says that the text is not there.
pub open spec fn strip_lit(t: Seq<char>, p: Seq<char>) -> Option<Seq<char>> {
    if p.len() <= t.len() && t.subrange(0, p.len() as int) == p {
        Some(t.skip(p.len() as int))
    } else {
        None
    }
}

/// Text that begins with the expected leading text is stripped to what
/// follows it.
proof fn lemma_strip_some(p: Seq<char>, rest: Seq<char>)
    ensures
        strip_lit(p + rest, p) == Some(rest),
{
    let t = p + rest;
    assert(t.subrange(0, p.len() as int) =~= p);
    assert(t.skip(p.len() as int) =~= rest);
}

/// Text that differs from the expected leading text at some position is not
/// stripped.
proof fn lemma_strip_none(t: Seq<char>, p: Seq<char>, i: int)
    requires
        0 <= i < p.len(),
        i < t.len(),
        t[i] != p[i],
    ensures
        strip_lit(t, p) is None,
{
    if p.len() <= t.len() && t.subrange(0, p.len() as int) == p {
        assert(t.subrange(0, p.len() as int)[i] == t[i]);
    }
}

/// Two texts that differ at some position are different.
proof fn lemma_neq_at(t: Seq<char>, p: Seq<char>, i: int)
    requires
        0 <= i < t.len(),
        i < p.len(),
        t[i] != p[i],
    ensures
        t != p,
{
}

pub open spec fn lit_create() -> Seq<char> {
    "{\"type\":\"create_session\",\"username\":\""@
}

pub open spec fn lit_post_some() -> Seq<char> {
    "{\"type\":\"post_auth_message_response\",\"response\":\""@
}

pub open spec fn lit_post_null() -> Seq<char> {
    "{\"type\":\"post_auth_message_response\",\"response\":null}"@
}

pub open spec fn lit_start() -> Seq<char> {
    "{\"type\":\"start_session\",\"cmd\":"@
}

pub open spec fn lit_env() -> Seq<char> {
    ",\"env\":"@
}

pub open spec fn lit_cancel() -> Seq<char> {
    "{\"type\":\"cancel_session\"}"@
}

pub open spec fn lit_succ() -> Seq<char> {
    "{\"type\":\"success\"}"@
}

pub open spec fn lit_err_e() -> Seq<char> {
    "{\"type\":\"error\",\"error_type\":\"error\",\"description\":\""@
}

pub open spec fn lit_err_a() -> Seq<char> {
    "{\"type\":\"error\",\"error_type\":\"auth_error\",\"description\":\""@
}

pub open spec fn lit_auth_v() -> Seq<char> {
    "{\"type\":\"auth_message\",\"auth_message_type\":\"visible\",\"auth_message\":\""@
}

pub open spec fn lit_auth_s() -> Seq<char> {
    "{\"type\":\"auth_message\",\"auth_message_type\":\"secret\",\"auth_message\":\""@
}

pub open spec fn lit_auth_i() -> Seq<char> {
    "{\"type\":\"auth_message\",\"auth_message_type\":\"info\",\"auth_message\":\""@
}

pub open spec fn lit_auth_e() -> Seq<char> {
    "{\"type\":\"auth_message\",\"auth_message_type\":\"error\",\"auth_message\":\""@
}

pub open spec fn lit_qbrace() -> Seq<char> {
    "\"}"@
}

pub open spec fn lit_brace() -> Seq<char> {
    "}"@
}

/// The text of one request.
pub open spec fn request_json(r: RequestView) -> Seq<char> {
    match r {
        RequestView::CreateSession { username } => lit_create() + json_escape(username)
            + lit_qbrace(),
        RequestView::PostAuthMessageResponse { response } => match response {
            Some(s) => lit_post_some() + json_escape(s) + lit_qbrace(),
            None => lit_post_null(),
        },
        RequestView::StartSession { cmd, env } => lit_start() + json_string_array(cmd) + lit_env()
            + json_string_array(env) + lit_brace(),
        RequestView::CancelSession => lit_cancel(),
    }
}

/// The text of one response.
pub open spec fn response_json(r: ResponseView) -> Seq<char> {
    match r {
        ResponseView::Success => lit_succ(),
        ResponseView::Error { error_type, description } => (match error_type {
            ErrorType::Error => lit_err_e(),
            ErrorType::AuthError => lit_err_a(),
        }) + json_escape(description) + lit_qbrace(),
        ResponseView::AuthMessage { auth_message_type, auth_message } => (match auth_message_type {
            AuthMessageType::Visible => lit_auth_v(),
            AuthMessageType::Secret => lit_auth_s(),
            AuthMessageType::Info => lit_auth_i(),
            AuthMessageType::Error => lit_auth_e(),
        }) + json_escape(auth_message) + lit_qbrace(),
    }
}

/// Reads one quoted value and the closing brace of the object around it.
pub open spec fn parse_value_and_brace(t1: Seq<char>) -> Option<Seq<char>> {
    match parse_string_body(t1) {
        Some((s, r)) => if r == lit_brace() {
            Some(s)
        } else {
            None
        },
        None => None,
    }
}

/// The kind tag of an error response, by its leading text.
pub open spec fn strip_err_kind(t: Seq<char>) -> Option<(ErrorType, Seq<char>)> {
    match strip_lit(t, lit_err_e()) {
        Some(t1) => Some((ErrorType::Error, t1)),
        None => match strip_lit(t, lit_err_a()) {
            Some(t1) => Some((ErrorType::AuthError, t1)),
            None => None,
        },
    }
}

/// The kind tag of an authentication message, by its leading text.
pub open spec fn strip_auth_kind(t: Seq<char>) -> Option<(AuthMessageType, Seq<char>)> {
    match strip_lit(t, lit_auth_v()) {
        Some(t1) => Some((AuthMessageType::Visible, t1)),
        None => match strip_lit(t, lit_auth_s()) {
            Some(t1) => Some((AuthMessageType::Secret, t1)),
            None => match strip_lit(t, lit_auth_i()) {
                Some(t1) => Some((AuthMessageType::Info, t1)),
                None => match strip_lit(t, lit_auth_e()) {
                    Some(t1) => Some((AuthMessageType::Error, t1)),
                    None => None,
                },
            },
        },
    }
}

/// Reads the two arrays and closing brace of a session-start request.
pub open spec fn parse_start_tail(t1: Seq<char>) -> Option<RequestView> {
    match parse_string_array(t1) {
        Some((cmd, r1)) => match strip_lit(r1, lit_env()) {
            Some(t2) => match parse_string_array(t2) {
                Some((env, r2)) => if r2 == lit_brace() {
                    Some(RequestView::StartSession { cmd, env })
                } else {
                    None
                },
                None => None,
            },
            None => None,
        },
        None => None,
    }
}

/// The request encoded in the given text, if the text is well-formed.
pub open spec fn parse_request(t: Seq<char>) -> Option<RequestView> {
    match strip_lit(t, lit_create()) {
        Some(t1) => match parse_value_and_brace(t1) {
            Some(u) => Some(RequestView::CreateSession { username: u }),
            None => None,
        },
        None => match strip_lit(t, lit_post_some()) {
            Some(t1) => match parse_value_and_brace(t1) {
                Some(s) => Some(RequestView::PostAuthMessageResponse { response: Some(s) }),
                None => None,
            },
            None => if t == lit_post_null() {
                Some(RequestView::PostAuthMessageResponse { response: None })
            } else {
                match strip_lit(t, lit_start()) {
                    Some(t1) => parse_start_tail(t1),
                    None => if t == lit_cancel() {
                        Some(RequestView::CancelSession)
                    } else {
                        None
                    },
                }
            },
        },
    }
}

/// The response encoded in the given text, if the text is well-formed.
pub open spec fn parse_response(t: Seq<char>) -> Option<ResponseView> {
    if t == lit_succ() {
        Some(ResponseView::Success)
    } else {
        match strip_err_kind(t) {
            Some((k, t1)) => match parse_value_and_brace(t1) {
                Some(d) => Some(ResponseView::Error { error_type: k, description: d }),
                None => None,
            },
            None => match strip_auth_kind(t) {
                Some((k, t1)) => match parse_value_and_brace(t1) {
                    Some(m) => Some(
                        ResponseView::AuthMessage { auth_message_type: k, auth_message: m },
                    ),
                    None => None,
                },
                None => None,
            },
        }
    }
}


/// The closing of a quoted value equals a quote followed by the brace.
proof fn lemma_qbrace()
    ensures
        lit_qbrace() =~= seq!['"'] + lit_brace(),
{
    reveal_strlit("\"}");
    reveal_strlit("}");
}

/// Round trip of a session-creation request.
proof fn lemma_rt_create(u: Seq<char>)
    ensures
        parse_request(lit_create() + json_escape(u) + lit_qbrace()) == Some(
            RequestView::CreateSession { username: u },
        ),
{
    let t = lit_create() + json_escape(u) + lit_qbrace();
    lemma_qbrace();
    let x = json_escape(u) + seq!['"'] + lit_brace();
    assert(t =~= lit_create() + x);
    lemma_strip_some(lit_create(), x);
    lemma_parse_escape(u, lit_brace());
}

/// Round trip of an answered authentication-message request.
proof fn lemma_rt_post_some(v: Seq<char>)
    ensures
        parse_request(lit_post_some() + json_escape(v) + lit_qbrace()) == Some(
            RequestView::PostAuthMessageResponse { response: Some(v) },
        ),
{
    let t = lit_post_some() + json_escape(v) + lit_qbrace();
    lemma_qbrace();
    let x = json_escape(v) + seq!['"'] + lit_brace();
    assert(t =~= lit_post_some() + x);
    reveal_strlit("{\"type\":\"post_auth_message_response\",\"response\":\"");
    reveal_strlit("{\"type\":\"create_session\",\"username\":\"");
    assert(t[9] == 'p');
    lemma_strip_none(t, lit_create(), 9);
    lemma_strip_some(lit_post_some(), x);
    lemma_parse_escape(v, lit_brace());
}

/// Round trip of a declined authentication-message request.
proof fn lemma_rt_post_null()
    ensures
        parse_request(lit_post_null()) == Some(
            RequestView::PostAuthMessageResponse { response: None },
        ),
{
    let t = lit_post_null();
    reveal_strlit("{\"type\":\"post_auth_message_response\",\"response\":null}");
    reveal_strlit("{\"type\":\"post_auth_message_response\",\"response\":\"");
    reveal_strlit("{\"type\":\"create_session\",\"username\":\"");
    assert(t[9] == 'p');
    lemma_strip_none(t, lit_create(), 9);
    assert(t[48] == 'n');
    lemma_strip_none(t, lit_post_some(), 48);
}

/// Round trip of a session-start request.
proof fn lemma_rt_start(cmd: Seq<Seq<char>>, env: Seq<Seq<char>>)
    ensures
        parse_request(
            lit_start() + json_string_array(cmd) + lit_env() + json_string_array(env)
                + lit_brace(),
        ) == Some(RequestView::StartSession { cmd, env }),
{
    let t = lit_start() + json_string_array(cmd) + lit_env() + json_string_array(env)
        + lit_brace();
    let after_cmd = lit_env() + (json_string_array(env) + lit_brace());
    let x = json_string_array(cmd) + after_cmd;
    assert(t =~= lit_start() + x);
    reveal_strlit("{\"type\":\"start_session\",\"cmd\":");
    reveal_strlit("{\"type\":\"create_session\",\"username\":\"");
    reveal_strlit("{\"type\":\"post_auth_message_response\",\"response\":\"");
    reveal_strlit("{\"type\":\"post_auth_message_response\",\"response\":null}");
    assert(t[9] == 's');
    lemma_strip_none(t, lit_create(), 9);
    lemma_strip_none(t, lit_post_some(), 9);
    lemma_neq_at(t, lit_post_null(), 9);
    lemma_strip_some(lit_start(), x);
    lemma_parse_string_array(cmd, after_cmd);
    lemma_strip_some(lit_env(), json_string_array(env) + lit_brace());
    lemma_parse_string_array(env, lit_brace());
}

/// Round trip of a session-cancellation request.
proof fn lemma_rt_cancel()
    ensures
        parse_request(lit_cancel()) == Some(RequestView::CancelSession),
{
    let t = lit_cancel();
    reveal_strlit("{\"type\":\"cancel_session\"}");
    reveal_strlit("{\"type\":\"create_session\",\"username\":\"");
    reveal_strlit("{\"type\":\"post_auth_message_response\",\"response\":\"");
    reveal_strlit("{\"type\":\"post_auth_message_response\",\"response\":null}");
    reveal_strlit("{\"type\":\"start_session\",\"cmd\":");
    assert(t[9] == 'c' && t[10] == 'a');
    lemma_strip_none(t, lit_create(), 10);
    lemma_strip_none(t, lit_post_some(), 9);
    lemma_neq_at(t, lit_post_null(), 9);
    lemma_strip_none(t, lit_start(), 9);
}

/// Reading back the text of any request yields that request.
pub proof fn lemma_request_round_trip(r: RequestView)
    ensures
        parse_request(request_json(r)) == Some(r),
{
    match r {
        RequestView::CreateSession { username } => lemma_rt_create(username),
        RequestView::PostAuthMessageResponse { response } => match response {
            Some(v) => lemma_rt_post_some(v),
            None => lemma_rt_post_null(),
        },
        RequestView::StartSession { cmd, env } => lemma_rt_start(cmd, env),
        RequestView::CancelSession => lemma_rt_cancel(),
    }
}

/// Round trip of an error response.
proof fn lemma_rt_error(k: ErrorType, d: Seq<char>)
    ensures
        parse_response(
            (match k {
                ErrorType::Error => lit_err_e(),
                ErrorType::AuthError => lit_err_a(),
            }) + json_escape(d) + lit_qbrace(),
        ) == Some(ResponseView::Error { error_type: k, description: d }),
{
    let p = match k {
        ErrorType::Error => lit_err_e(),
        ErrorType::AuthError => lit_err_a(),
    };
    let t = p + json_escape(d) + lit_qbrace();
    lemma_qbrace();
    let x = json_escape(d) + seq!['"'] + lit_brace();
    assert(t =~= p + x);
    reveal_strlit("{\"type\":\"success\"}");
    reveal_strlit("{\"type\":\"error\",\"error_type\":\"error\",\"description\":\"");
    reveal_strlit("{\"type\":\"error\",\"error_type\":\"auth_error\",\"description\":\"");
    assert(t[9] == 'e');
    lemma_neq_at(t, lit_succ(), 9);
    lemma_strip_some(p, x);
    match k {
        ErrorType::Error => {
        },
        ErrorType::AuthError => {
            assert(t[30] == 'a');
            lemma_strip_none(t, lit_err_e(), 30);
        },
    }
    lemma_parse_escape(d, lit_brace());
}

/// Round trip of an authentication-message response.
proof fn lemma_rt_auth(k: AuthMessageType, m: Seq<char>)
    ensures
        parse_response(
            (match k {
                AuthMessageType::Visible => lit_auth_v(),
                AuthMessageType::Secret => lit_auth_s(),
                AuthMessageType::Info => lit_auth_i(),
                AuthMessageType::Error => lit_auth_e(),
            }) + json_escape(m) + lit_qbrace(),
        ) == Some(ResponseView::AuthMessage { auth_message_type: k, auth_message: m }),
{
    let p = match k {
        AuthMessageType::Visible => lit_auth_v(),
        AuthMessageType::Secret => lit_auth_s(),
        AuthMessageType::Info => lit_auth_i(),
        AuthMessageType::Error => lit_auth_e(),
    };
    let t = p + json_escape(m) + lit_qbrace();
    lemma_qbrace();
    let x = json_escape(m) + seq!['"'] + lit_brace();
    assert(t =~= p + x);
    reveal_strlit("{\"type\":\"success\"}");
    reveal_strlit("{\"type\":\"error\",\"error_type\":\"error\",\"description\":\"");
    reveal_strlit("{\"type\":\"error\",\"error_type\":\"auth_error\",\"description\":\"");
    reveal_strlit("{\"type\":\"auth_message\",\"auth_message_type\":\"visible\",\"auth_message\":\"");
    reveal_strlit("{\"type\":\"auth_message\",\"auth_message_type\":\"secret\",\"auth_message\":\"");
    reveal_strlit("{\"type\":\"auth_message\",\"auth_message_type\":\"info\",\"auth_message\":\"");
    reveal_strlit("{\"type\":\"auth_message\",\"auth_message_type\":\"error\",\"auth_message\":\"");
    assert(t[9] == 'a');
    lemma_neq_at(t, lit_succ(), 9);
    lemma_strip_none(t, lit_err_e(), 9);
    lemma_strip_none(t, lit_err_a(), 9);
    lemma_strip_some(p, x);
    match k {
        AuthMessageType::Visible => {
        },
        AuthMessageType::Secret => {
            assert(t[44] == 's');
            lemma_strip_none(t, lit_auth_v(), 44);
        },
        AuthMessageType::Info => {
            assert(t[44] == 'i');
            lemma_strip_none(t, lit_auth_v(), 44);
            lemma_strip_none(t, lit_auth_s(), 44);
        },
        AuthMessageType::Error => {
            assert(t[44] == 'e');
            lemma_strip_none(t, lit_auth_v(), 44);
            lemma_strip_none(t, lit_auth_s(), 44);
            lemma_strip_none(t, lit_auth_i(), 44);
        },
    }
    lemma_parse_escape(m, lit_brace());
}

/// Reading back the text of any response yields that response.
pub proof fn lemma_response_round_trip(r: ResponseView)
    ensures
        parse_response(response_json(r)) == Some(r),
{
    match r {
        ResponseView::Success => {
        },
        ResponseView::Error { error_type, description } => lemma_rt_error(
            error_type,
            description,
        ),
        ResponseView::AuthMessage { auth_message_type, auth_message } => lemma_rt_auth(
            auth_message_type,
            auth_message,
        ),
    }
}


/// The characters of a text, in order.
pub(crate) fn str_chars(s: &str) -> (v: Vec<char>)
    ensures
        v@ == s@,
{
    let n = s.unicode_len();
    let mut v: Vec<char> = Vec::new();
    let mut i: usize = 0;
    while i < n
        invariant
            i <= n,
            n == s@.len(),
            v@ == s@.take(i as int),
        decreases n - i,
    {
        let c = s.get_char(i);
        v.push(c);
        proof {
            assert(s@.take(i as int + 1) =~= s@.take(i as int).push(s@[i as int]));
        }
        i += 1;
    }
    proof {
        assert(s@.take(n as int) =~= s@);
    }
    v
}

/// Appends the characters of a text.
fn push_lit(out: &mut Vec<char>, p: &str)
    ensures
        final(out)@ == old(out)@ + p@,
{
    let n = p.unicode_len();
    let mut i: usize = 0;
    while i < n
        invariant
            i <= n,
            n == p@.len(),
            out@ == old(out)@ + p@.take(i as int),
        decreases n - i,
    {
        let c = p.get_char(i);
        out.push(c);
        proof {
            assert(p@.take(i as int + 1) =~= p@.take(i as int).push(p@[i as int]));
        }
        i += 1;
    }
    proof {
        assert(p@.take(n as int) =~= p@);
        assert(old(out)@ + p@.take(n as int) == old(out)@ + p@);
    }
}

/// The lower-case hexadecimal digit for a value below sixteen.
fn hex_digit(n: u8) -> (c: char)
    requires
        n < 16,
    ensures
        c == hex_digit_char(n as int),
{
    if n == 0 { '0' }
    else if n == 1 { '1' }
    else if n == 2 { '2' }
    else if n == 3 { '3' }
    else if n == 4 { '4' }
    else if n == 5 { '5' }
    else if n == 6 { '6' }
    else if n == 7 { '7' }
    else if n == 8 { '8' }
    else if n == 9 { '9' }
    else if n == 10 { 'a' }
    else if n == 11 { 'b' }
    else if n == 12 { 'c' }
    else if n == 13 { 'd' }
    else if n == 14 { 'e' }
    else { 'f' }
}

/// Appends the escape of one character.
fn push_escaped_char(out: &mut Vec<char>, c: char)
    ensures
        final(out)@ == old(out)@ + json_escape_char(c),
{
    if c == '"' {
        out.push('\\');
        out.push('"');
        proof {
            assert(out@ =~= old(out)@ + json_escape_char(c));
        }
    } else if c == '\\' {
        out.push('\\');
        out.push('\\');
        proof {
            assert(out@ =~= old(out)@ + json_escape_char(c));
        }
    } else if c == '\u{8}' {
        out.push('\\');
        out.push('b');
        proof {
            assert(out@ =~= old(out)@ + json_escape_char(c));
        }
    } else if c == '\t' {
        out.push('\\');
        out.push('t');
        proof {
            assert(out@ =~= old(out)@ + json_escape_char(c));
        }
    } else if c == '\n' {
        out.push('\\');
        out.push('n');
        proof {
            assert(out@ =~= old(out)@ + json_escape_char(c));
        }
    } else if c == '\u{c}' {
        out.push('\\');
        out.push('f');
        proof {
            assert(out@ =~= old(out)@ + json_escape_char(c));
        }
    } else if c == '\r' {
        out.push('\\');
        out.push('r');
        proof {
            assert(out@ =~= old(out)@ + json_escape_char(c));
        }
    } else {
        let v = c as u32;
        if v < 0x20 {
            out.push('\\');
            out.push('u');
            out.push('0');
            out.push('0');
            let hi = hex_digit((v / 16) as u8);
            let lo = hex_digit((v % 16) as u8);
            out.push(hi);
            out.push(lo);
            proof {
                assert(out@ =~= old(out)@ + json_escape_char(c));
            }
        } else {
            out.push(c);
            proof {
                assert(out@ =~= old(out)@ + json_escape_char(c));
            }
        }
    }
}

/// Escaping distributes over extending the string by one character.
proof fn lemma_json_escape_push(s: Seq<char>, c: char)
    ensures
        json_escape(s.push(c)) == json_escape(s) + json_escape_char(c),
    decreases s.len(),
{
    if s.len() == 0 {
        assert(s.push(c)[0] == c);
        assert(s.push(c).drop_first() =~= s);
        assert(json_escape(s.push(c)) =~= json_escape(s) + json_escape_char(c));
    } else {
        lemma_json_escape_push(s.drop_first(), c);
        assert(s.push(c)[0] == s[0]);
        assert(s.push(c).drop_first() =~= s.drop_first().push(c));
        assert(json_escape_char(s[0]) + (json_escape(s.drop_first()) + json_escape_char(c)) =~= (
        json_escape_char(s[0]) + json_escape(s.drop_first())) + json_escape_char(c));
        assert(json_escape(s.push(c)) =~= json_escape(s) + json_escape_char(c));
    }
}

/// Appends the escape of a whole text.
fn push_escaped(out: &mut Vec<char>, s: &str)
    ensures
        final(out)@ == old(out)@ + json_escape(s@),
{
    let n = s.unicode_len();
    let mut i: usize = 0;
    proof {
        assert(out@ =~= old(out)@ + json_escape(s@.take(0)));
    }
    while i < n
        invariant
            i <= n,
            n == s@.len(),
            out@ == old(out)@ + json_escape(s@.take(i as int)),
        decreases n - i,
    {
        let c = s.get_char(i);
        push_escaped_char(out, c);
        proof {
            assert(s@.take(i as int + 1) =~= s@.take(i as int).push(s@[i as int]));
            lemma_json_escape_push(s@.take(i as int), s@[i as int]);
            assert(old(out)@ + json_escape(s@.take(i as int)) + json_escape_char(s@[i as int])
                =~= old(out)@ + json_escape(s@.take(i as int + 1)));
        }
        i += 1;
    }
    proof {
        assert(s@.take(n as int) =~= s@);
    }
}

/// Appends a quoted, escaped string value.
fn push_string_value(out: &mut Vec<char>, s: &str)
    ensures
        final(out)@ == old(out)@ + json_string(s@),
{
    out.push('"');
    push_escaped(out, s);
    out.push('"');
    proof {
        assert(out@ =~= old(out)@ + json_string(s@));
    }
}

/// Extending a non-empty array by one item appends a comma and the item.
proof fn lemma_items_push(v: Seq<Seq<char>>, x: Seq<char>)
    requires
        v.len() >= 1,
    ensures
        json_array_items(v.push(x)) == json_array_items(v) + seq![','] + json_string(x),
    decreases v.len(),
{
    if v.len() == 1 {
        let w = v.push(x);
        assert(w[0] == v[0]);
        assert(w.drop_first() =~= seq![x]);
        assert(seq![x].len() == 1 && seq![x][0] == x);
        assert(json_array_items(seq![x]) == json_string(x));
        assert(json_string(v[0]) + seq![','] + json_string(x) =~= json_array_items(v) + seq![',']
            + json_string(x));
        assert(json_array_items(w) =~= json_array_items(v) + seq![','] + json_string(x));
    } else {
        let w = v.push(x);
        lemma_items_push(v.drop_first(), x);
        assert(w[0] == v[0]);
        assert(w.drop_first() =~= v.drop_first().push(x));
        assert(json_string(v[0]) + seq![','] + ((json_array_items(v.drop_first()) + seq![','])
            + json_string(x)) =~= ((json_string(v[0]) + seq![','] + json_array_items(
            v.drop_first(),
        )) + seq![',']) + json_string(x));
        assert(json_array_items(w) =~= json_array_items(v) + seq![','] + json_string(x));
    }
}

/// Appends a bracketed array of string values.
fn push_string_array(out: &mut Vec<char>, v: &Vec<String>)
    ensures
        final(out)@ == old(out)@ + json_string_array(v.deep_view()),
{
    let ghost dv = v.deep_view();
    out.push('[');
    let mut i: usize = 0;
    while i < v.len()
        invariant
            i <= v@.len(),
            dv == v.deep_view(),
            dv.len() == v@.len(),
            forall|k: int| 0 <= k < v@.len() ==> dv[k] == v@[k]@,
            i == 0 ==> out@ == old(out)@ + seq!['['],
            i >= 1 ==> out@ == old(out)@ + seq!['['] + json_array_items(dv.take(i as int)),
        decreases v@.len() - i,
    {
        if i > 0 {
            out.push(',');
            push_string_value(out, v[i].as_str());
            proof {
                lemma_items_push(dv.take(i as int), dv[i as int]);
                assert(dv.take(i as int + 1) =~= dv.take(i as int).push(dv[i as int]));
                assert(old(out)@ + seq!['['] + json_array_items(dv.take(i as int)) + seq![',']
                    + json_string(dv[i as int]) =~= old(out)@ + seq!['['] + json_array_items(
                    dv.take(i as int + 1),
                ));
            }
        } else {
            push_string_value(out, v[i].as_str());
            proof {
                assert(dv.take(1).len() == 1 && dv.take(1)[0] == dv[0]);
                assert(json_array_items(dv.take(1)) == json_string(dv[0]));
                assert(out@ =~= old(out)@ + seq!['['] + json_array_items(dv.take(1)));
            }
        }
        i += 1;
    }
    out.push(']');
    proof {
        assert(dv.take(v@.len() as int) =~= dv);
        if v@.len() == 0 {
            assert(out@ =~= old(out)@ + json_string_array(dv));
        } else {
            assert(out@ =~= old(out)@ + json_string_array(dv));
        }
    }
}

/// Writes one request as text; the result is exactly [`request_json`] of the
/// request's model.
pub fn encode_request(req: &Request) -> (t: Vec<char>)
    ensures
        t@ == request_json(req@),
{
    let mut out: Vec<char> = Vec::new();
    match req {
        Request::CreateSession { username } => {
            push_lit(&mut out, "{\"type\":\"create_session\",\"username\":\"");
            push_escaped(&mut out, username.as_str());
            push_lit(&mut out, "\"}");
            proof {
                assert(out@ =~= lit_create() + json_escape(username@) + lit_qbrace());
            }
        },
        Request::PostAuthMessageResponse { response } => {
            match response {
                Some(v) => {
                    push_lit(&mut out, "{\"type\":\"post_auth_message_response\",\"response\":\"");
                    push_escaped(&mut out, v.as_str());
                    push_lit(&mut out, "\"}");
                    proof {
                        assert(out@ =~= lit_post_some() + json_escape(v@) + lit_qbrace());
                    }
                },
                None => {
                    push_lit(
                        &mut out,
                        "{\"type\":\"post_auth_message_response\",\"response\":null}",
                    );
                    proof {
                        assert(out@ =~= lit_post_null());
                    }
                },
            }
        },
        Request::StartSession { cmd, env } => {
            push_lit(&mut out, "{\"type\":\"start_session\",\"cmd\":");
            push_string_array(&mut out, cmd);
            push_lit(&mut out, ",\"env\":");
            push_string_array(&mut out, env);
            push_lit(&mut out, "}");
            proof {
                assert(out@ =~= lit_start() + json_string_array(cmd.deep_view()) + lit_env()
                    + json_string_array(env.deep_view()) + lit_brace());
            }
        },
        Request::CancelSession => {
            push_lit(&mut out, "{\"type\":\"cancel_session\"}");
            proof {
                assert(out@ =~= lit_cancel());
            }
        },
    }
    out
}

/// Writes one response as text; the result is exactly [`response_json`] of
/// the response's model.
pub fn encode_response(resp: &Response) -> (t: Vec<char>)
    ensures
        t@ == response_json(resp@),
{
    let mut out: Vec<char> = Vec::new();
    match resp {
        Response::Success => {
            push_lit(&mut out, "{\"type\":\"success\"}");
            proof {
                assert(out@ =~= lit_succ());
            }
        },
        Response::Error { error_type, description } => {
            match error_type {
                ErrorType::Error => {
                    push_lit(
                        &mut out,
                        "{\"type\":\"error\",\"error_type\":\"error\",\"description\":\"",
                    );
                },
                ErrorType::AuthError => {
                    push_lit(
                        &mut out,
                        "{\"type\":\"error\",\"error_type\":\"auth_error\",\"description\":\"",
                    );
                },
            }
            push_escaped(&mut out, description.as_str());
            push_lit(&mut out, "\"}");
            proof {
                match error_type {
                    ErrorType::Error => {
                        assert(out@ =~= lit_err_e() + json_escape(description@) + lit_qbrace());
                    },
                    ErrorType::AuthError => {
                        assert(out@ =~= lit_err_a() + json_escape(description@) + lit_qbrace());
                    },
                }
            }
        },
        Response::AuthMessage { auth_message_type, auth_message } => {
            match auth_message_type {
                AuthMessageType::Visible => {
                    push_lit(
                        &mut out,
                        "{\"type\":\"auth_message\",\"auth_message_type\":\"visible\",\"auth_message\":\"",
                    );
                },
                AuthMessageType::Secret => {
                    push_lit(
                        &mut out,
                        "{\"type\":\"auth_message\",\"auth_message_type\":\"secret\",\"auth_message\":\"",
                    );
                },
                AuthMessageType::Info => {
                    push_lit(
                        &mut out,
                        "{\"type\":\"auth_message\",\"auth_message_type\":\"info\",\"auth_message\":\"",
                    );
                },
                AuthMessageType::Error => {
                    push_lit(
                        &mut out,
                        "{\"type\":\"auth_message\",\"auth_message_type\":\"error\",\"auth_message\":\"",
                    );
                },
            }
            push_escaped(&mut out, auth_message.as_str());
            push_lit(&mut out, "\"}");
            proof {
                match auth_message_type {
                    AuthMessageType::Visible => {
                        assert(out@ =~= lit_auth_v() + json_escape(auth_message@) + lit_qbrace());
                    },
                    AuthMessageType::Secret => {
                        assert(out@ =~= lit_auth_s() + json_escape(auth_message@) + lit_qbrace());
                    },
                    AuthMessageType::Info => {
                        assert(out@ =~= lit_auth_i() + json_escape(auth_message@) + lit_qbrace());
                    },
                    AuthMessageType::Error => {
                        assert(out@ =~= lit_auth_e() + json_escape(auth_message@) + lit_qbrace());
                    },
                }
            }
        },
    }
    out
}


/// Relies on String's FromIterator of char: collecting characters yields the
/// string of exactly those characters, in order.
#[verifier::external_body]
pub(crate) fn chars_to_string(v: &Vec<char>) -> (s: String)
    ensures
        s@ == v@,
{
    v.iter().collect()
}

/// Appends the characters of another vector.
fn append_chars(dst: &mut Vec<char>, src: &Vec<char>)
    ensures
        final(dst)@ == old(dst)@ + src@,
{
    let mut k: usize = 0;
    while k < src.len()
        invariant
            k <= src@.len(),
            dst@ == old(dst)@ + src@.take(k as int),
        decreases src@.len() - k,
    {
        dst.push(src[k]);
        proof {
            assert(src@.take(k as int + 1) =~= src@.take(k as int).push(src@[k as int]));
        }
        k += 1;
    }
    proof {
        assert(src@.take(src@.len() as int) =~= src@);
    }
}

/// Appends clones of the strings of another vector.
fn append_strings(dst: &mut Vec<String>, src: &Vec<String>)
    ensures
        final(dst).deep_view() == old(dst).deep_view() + src.deep_view(),
{
    let mut k: usize = 0;
    while k < src.len()
        invariant
            k <= src@.len(),
            dst.deep_view() == old(dst).deep_view() + src.deep_view().take(k as int),
        decreases src@.len() - k,
    {
        let ghost pre = dst.deep_view();
        let x = src[k].clone();
        dst.push(x);
        proof {
            assert(dst.deep_view() =~= pre.push(src.deep_view()[k as int]));
            assert(src.deep_view().take(k as int + 1) =~= src.deep_view().take(k as int).push(
                src.deep_view()[k as int],
            ));
            assert(dst.deep_view() =~= old(dst).deep_view() + src.deep_view().take(k as int + 1));
        }
        k += 1;
    }
    proof {
        assert(src.deep_view().take(src@.len() as int) =~= src.deep_view());
    }
}

/// The numeric value of one hexadecimal digit character, if it is one.
fn hexv(c: char) -> (r: Option<u8>)
    ensures
        match r {
            Some(h) => hex_val(c) == Some(h as int),
            None => hex_val(c) is None,
        },
{
    let v = c as u32;
    if 48 <= v && v <= 57 {
        Some((v - 48) as u8)
    } else if 97 <= v && v <= 102 {
        Some((v - 87) as u8)
    } else {
        None
    }
}

/// The character a two-character escape stands for, if the name is known.
fn unesc(e: char) -> (r: Option<char>)
    ensures
        r == simple_unescape(e),
{
    if e == '"' {
        Some('"')
    } else if e == '\\' {
        Some('\\')
    } else if e == '/' {
        Some('/')
    } else if e == 'b' {
        Some('\u{8}')
    } else if e == 't' {
        Some('\t')
    } else if e == 'n' {
        Some('\n')
    } else if e == 'f' {
        Some('\u{c}')
    } else if e == 'r' {
        Some('\r')
    } else {
        None
    }
}

/// Reads a quoted string's body starting at the given position; on success
/// returns the content and the position just past the closing quote.
fn parse_body(t: &Vec<char>, i: usize) -> (r: Option<(Vec<char>, usize)>)
    requires
        i <= t@.len(),
    ensures
        match r {
            Some(p) => i < p.1 <= t@.len() && parse_string_body(t@.skip(i as int)) == Some(
                (p.0@, t@.skip(p.1 as int)),
            ),
            None => parse_string_body(t@.skip(i as int)) is None,
        },
    decreases t@.len() - i,
{
    let ghost u = t@.skip(i as int);
    if t.len() == i {
        return None;
    }
    let c0 = t[i];
    proof {
        assert(u[0] == t@[i as int]);
    }
    if c0 == '"' {
        proof {
            assert(u.drop_first() =~= t@.skip(i as int + 1));
        }
        let empty: Vec<char> = Vec::new();
        return Some((empty, i + 1));
    }
    if c0 == '\\' {
        if t.len() - i < 2 {
            return None;
        }
        let c1 = t[i + 1];
        proof {
            assert(u[1] == t@[i as int + 1]);
        }
        if c1 == 'u' {
            if t.len() - i < 6 {
                return None;
            }
            proof {
                assert(u[2] == t@[i as int + 2]);
                assert(u[3] == t@[i as int + 3]);
                assert(u[4] == t@[i as int + 4]);
                assert(u[5] == t@[i as int + 5]);
            }
            let h3 = hexv(t[i + 2]);
            let h2 = hexv(t[i + 3]);
            let h1 = hexv(t[i + 4]);
            let h0 = hexv(t[i + 5]);
            match (h3, h2, h1, h0) {
                (Some(a3), Some(a2), Some(a1), Some(a0)) => {
                    let v: u32 = (a3 as u32) * 4096 + (a2 as u32) * 256 + (a1 as u32) * 16 + (
                    a0 as u32);
                    if v < 0x80 {
                        proof {
                            assert(u.skip(6) =~= t@.skip(i as int + 6));
                        }
                        match parse_body(t, i + 6) {
                            Some((s2, j)) => {
                                let mut out: Vec<char> = Vec::new();
                                out.push((v as u8) as char);
                                append_chars(&mut out, &s2);
                                proof {
                                    assert(out@ =~= seq![(v as u8) as char] + s2@);
                                    assert(((v as u8) as char) == ((v as u32) as char));
                                }
                                Some((out, j))
                            },
                            None => None,
                        }
                    } else {
                        None
                    }
                },
                _ => None,
            }
        } else {
            match unesc(c1) {
                Some(c) => {
                    proof {
                        assert(u.skip(2) =~= t@.skip(i as int + 2));
                    }
                    match parse_body(t, i + 2) {
                        Some((s2, j)) => {
                            let mut out: Vec<char> = Vec::new();
                            out.push(c);
                            append_chars(&mut out, &s2);
                            proof {
                                assert(out@ =~= seq![c] + s2@);
                            }
                            Some((out, j))
                        },
                        None => None,
                    }
                },
                None => None,
            }
        }
    } else {
        let v0 = c0 as u32;
        if v0 < 0x20 {
            return None;
        }
        proof {
            assert(u.drop_first() =~= t@.skip(i as int + 1));
        }
        match parse_body(t, i + 1) {
            Some((s2, j)) => {
                let mut out: Vec<char> = Vec::new();
                out.push(c0);
                append_chars(&mut out, &s2);
                proof {
                    assert(out@ =~= seq![c0] + s2@);
                }
                Some((out, j))
            },
            None => None,
        }
    }
}


/// Reads the items of an array of string values, positioned at the opening
/// quote of the first item.
fn parse_items(t: &Vec<char>, i: usize) -> (r: Option<(Vec<String>, usize)>)
    requires
        i <= t@.len(),
    ensures
        match r {
            Some(p) => i < p.1 <= t@.len() && parse_array_items(t@.skip(i as int)) == Some(
                (p.0.deep_view(), t@.skip(p.1 as int)),
            ),
            None => parse_array_items(t@.skip(i as int)) is None,
        },
    decreases t@.len() - i,
{
    let ghost u = t@.skip(i as int);
    if t.len() == i {
        return None;
    }
    proof {
        assert(u[0] == t@[i as int]);
    }
    if t[i] != '"' {
        return None;
    }
    proof {
        assert(u.drop_first() =~= t@.skip(i as int + 1));
    }
    match parse_body(t, i + 1) {
        None => None,
        Some((s, j)) => {
            let sv = chars_to_string(&s);
            let ghost rest = t@.skip(j as int);
            if j == t.len() {
                return None;
            }
            proof {
                assert(rest[0] == t@[j as int]);
                assert(rest.drop_first() =~= t@.skip(j as int + 1));
            }
            let rc = t[j];
            if rc == ']' {
                let mut out: Vec<String> = Vec::new();
                out.push(sv);
                proof {
                    assert(out.deep_view() =~= seq![s@]);
                }
                Some((out, j + 1))
            } else if rc == ',' {
                match parse_items(t, j + 1) {
                    None => None,
                    Some((v2, j2)) => {
                        let mut out: Vec<String> = Vec::new();
                        out.push(sv);
                        proof {
                            assert(out.deep_view() =~= seq![s@]);
                        }
                        append_strings(&mut out, &v2);
                        proof {
                            assert(out.deep_view() =~= seq![s@] + v2.deep_view());
                        }
                        Some((out, j2))
                    },
                }
            } else {
                None
            }
        },
    }
}

/// Reads a bracketed array of string values starting at the given position;
/// on success returns the items and the position just past the bracket.
fn parse_array(t: &Vec<char>, i: usize) -> (r: Option<(Vec<String>, usize)>)
    requires
        i <= t@.len(),
    ensures
        match r {
            Some(p) => i < p.1 <= t@.len() && parse_string_array(t@.skip(i as int)) == Some(
                (p.0.deep_view(), t@.skip(p.1 as int)),
            ),
            None => parse_string_array(t@.skip(i as int)) is None,
        },
{
    let ghost u = t@.skip(i as int);
    if t.len() - i < 2 {
        return None;
    }
    proof {
        assert(u[0] == t@[i as int]);
        assert(u[1] == t@[i as int + 1]);
    }
    if t[i] != '[' {
        return None;
    }
    if t[i + 1] == ']' {
        proof {
            assert(u.skip(2) =~= t@.skip(i as int + 2));
        }
        let out: Vec<String> = Vec::new();
        proof {
            assert(out.deep_view() =~= Seq::<Seq<char>>::empty());
        }
        return Some((out, i + 2));
    }
    proof {
        assert(u.drop_first() =~= t@.skip(i as int + 1));
    }
    parse_items(t, i + 1)
}

/// Whether the expected text stands at the given position; on success
/// returns the position just past it.
fn match_lit(t: &Vec<char>, i: usize, p: &str) -> (r: Option<usize>)
    requires
        i <= t@.len(),
    ensures
        match r {
            Some(j) => i <= j <= t@.len() && j - i == p@.len() && strip_lit(
                t@.skip(i as int),
                p@,
            ) == Some(t@.skip(j as int)),
            None => strip_lit(t@.skip(i as int), p@) is None,
        },
{
    let ghost u = t@.skip(i as int);
    let n = p.unicode_len();
    if n > t.len() - i {
        return None;
    }
    let cs = str_chars(p);
    let m = t.len();
    let mut k: usize = 0;
    while k < n
        invariant
            k <= n,
            i <= t@.len(),
            m == t@.len(),
            n == p@.len(),
            n <= t@.len() - i,
            cs@ == p@,
            u == t@.skip(i as int),
            forall|q: int| 0 <= q < k ==> u[q] == p@[q],
        decreases n - k,
    {
        proof {
            assert(u[k as int] == t@[i as int + k as int]);
            assert(i + k < t@.len());
        }
        if t[i + k] != cs[k] {
            proof {
                lemma_strip_none(u, p@, k as int);
            }
            return None;
        }
        k += 1;
    }
    proof {
        assert(u.subrange(0, p@.len() as int) =~= p@);
        assert(u.skip(p@.len() as int) =~= t@.skip(i as int + n as int));
    }
    Some(i + n)
}

/// Whether everything from the given position on is exactly the closing
/// brace of the object.
fn rest_is_brace(t: &Vec<char>, j: usize) -> (b: bool)
    requires
        j <= t@.len(),
    ensures
        b == (t@.skip(j as int) == lit_brace()),
{
    proof {
        reveal_strlit("}");
    }
    if t.len() - j == 1 && t[j] == '}' {
        proof {
            assert(t@.skip(j as int) =~= lit_brace());
        }
        true
    } else {
        proof {
            let u = t@.skip(j as int);
            if u == lit_brace() {
                assert(u.len() == 1);
                assert(u[0] == t@[j as int]);
                assert(u[0] == '}');
            }
        }
        false
    }
}

/// Whether the given position is the end of the text.
fn at_end(t: &Vec<char>, j: usize) -> (b: bool)
    requires
        j <= t@.len(),
    ensures
        b == (j == t@.len()),
{
    j == t.len()
}

/// Reads one request from its text; returns the request exactly when
/// [`parse_request`] accepts the text.
pub fn decode_request_text(t: &Vec<char>) -> (r: Option<Request>)
    ensures
        match r {
            Some(req) => parse_request(t@) == Some(req@),
            None => parse_request(t@) is None,
        },
{
    proof {
        assert(t@.skip(0) =~= t@);
    }
    if let Some(j) = match_lit(t, 0, "{\"type\":\"create_session\",\"username\":\"") {
        match parse_body(t, j) {
            Some((u, j2)) => {
                if rest_is_brace(t, j2) {
                    Some(Request::CreateSession { username: chars_to_string(&u) })
                } else {
                    None
                }
            },
            None => None,
        }
    } else if let Some(j) = match_lit(t, 0, "{\"type\":\"post_auth_message_response\",\"response\":\"") {
        match parse_body(t, j) {
            Some((u, j2)) => {
                if rest_is_brace(t, j2) {
                    Some(
                        Request::PostAuthMessageResponse {
                            response: Some(chars_to_string(&u)),
                        },
                    )
                } else {
                    None
                }
            },
            None => None,
        }
    } else if let Some(j) = match_lit(
        t,
        0,
        "{\"type\":\"post_auth_message_response\",\"response\":null}",
    ) {
        if at_end(t, j) {
            proof {
                assert(t@ =~= lit_post_null());
            }
            Some(Request::PostAuthMessageResponse { response: None })
        } else {
            proof {
                reveal_strlit("{\"type\":\"post_auth_message_response\",\"response\":null}");
                reveal_strlit("{\"type\":\"start_session\",\"cmd\":");
                reveal_strlit("{\"type\":\"cancel_session\"}");
                assert(t@.len() != lit_post_null().len());
                assert(t@.subrange(0, lit_post_null().len() as int) == lit_post_null());
                assert(t@.subrange(0, lit_post_null().len() as int)[9] == t@[9]);
                assert(t@[9] == 'p');
                lemma_strip_none(t@, lit_start(), 9);
                lemma_neq_at(t@, lit_cancel(), 9);
            }
            None
        }
    } else if let Some(j) = match_lit(t, 0, "{\"type\":\"start_session\",\"cmd\":") {
        proof {
            if t@ == lit_post_null() {
                lemma_strip_some(lit_post_null(), Seq::<char>::empty());
                assert(t@ + Seq::<char>::empty() =~= t@);
            }
        }
        match parse_array(t, j) {
            Some((cmd, j1)) => {
                if let Some(j2) = match_lit(t, j1, ",\"env\":") {
                    match parse_array(t, j2) {
                        Some((env, j3)) => {
                            if rest_is_brace(t, j3) {
                                Some(Request::StartSession { cmd, env })
                            } else {
                                None
                            }
                        },
                        None => None,
                    }
                } else {
                    None
                }
            },
            None => None,
        }
    } else if let Some(j) = match_lit(t, 0, "{\"type\":\"cancel_session\"}") {
        proof {
            if t@ == lit_post_null() {
                lemma_strip_some(lit_post_null(), Seq::<char>::empty());
                assert(t@ + Seq::<char>::empty() =~= t@);
            }
        }
        if at_end(t, j) {
            proof {
                assert(t@ =~= lit_cancel());
            }
            Some(Request::CancelSession)
        } else {
            proof {
                assert(t@.len() != lit_cancel().len());
            }
            None
        }
    } else {
        proof {
            if t@ == lit_post_null() {
                lemma_strip_some(lit_post_null(), Seq::<char>::empty());
                assert(t@ + Seq::<char>::empty() =~= t@);
            }
            if t@ == lit_cancel() {
                lemma_strip_some(lit_cancel(), Seq::<char>::empty());
                assert(t@ + Seq::<char>::empty() =~= t@);
            }
        }
        None
    }
}

/// Reads one response from its text; returns the response exactly when
/// [`parse_response`] accepts the text.
pub fn decode_response_text(t: &Vec<char>) -> (r: Option<Response>)
    ensures
        match r {
            Some(resp) => parse_response(t@) == Some(resp@),
            None => parse_response(t@) is None,
        },
{
    proof {
        assert(t@.skip(0) =~= t@);
    }
    if let Some(j) = match_lit(t, 0, "{\"type\":\"success\"}") {
        if at_end(t, j) {
            proof {
                assert(t@ =~= lit_succ());
            }
            return Some(Response::Success);
        }
    }
    proof {
        if t@ == lit_succ() {
            lemma_strip_some(lit_succ(), Seq::<char>::empty());
            assert(t@ + Seq::<char>::empty() =~= t@);
            assert(t@.len() == lit_succ().len());
        }
    }
    if let Some(j) = match_lit(t, 0, "{\"type\":\"error\",\"error_type\":\"error\",\"description\":\"") {
        match parse_body(t, j) {
            Some((u, j2)) => {
                if rest_is_brace(t, j2) {
                    Some(
                        Response::Error {
                            error_type: ErrorType::Error,
                            description: chars_to_string(&u),
                        },
                    )
                } else {
                    None
                }
            },
            None => None,
        }
    } else if let Some(j) = match_lit(
        t,
        0,
        "{\"type\":\"error\",\"error_type\":\"auth_error\",\"description\":\"",
    ) {
        match parse_body(t, j) {
            Some((u, j2)) => {
                if rest_is_brace(t, j2) {
                    Some(
                        Response::Error {
                            error_type: ErrorType::AuthError,
                            description: chars_to_string(&u),
                        },
                    )
                } else {
                    None
                }
            },
            None => None,
        }
    } else if let Some(j) = match_lit(
        t,
        0,
        "{\"type\":\"auth_message\",\"auth_message_type\":\"visible\",\"auth_message\":\"",
    ) {
        match parse_body(t, j) {
            Some((u, j2)) => {
                if rest_is_brace(t, j2) {
                    Some(
                        Response::AuthMessage {
                            auth_message_type: AuthMessageType::Visible,
                            auth_message: chars_to_string(&u),
                        },
                    )
                } else {
                    None
                }
            },
            None => None,
        }
    } else if let Some(j) = match_lit(
        t,
        0,
        "{\"type\":\"auth_message\",\"auth_message_type\":\"secret\",\"auth_message\":\"",
    ) {
        match parse_body(t, j) {
            Some((u, j2)) => {
                if rest_is_brace(t, j2) {
                    Some(
                        Response::AuthMessage {
                            auth_message_type: AuthMessageType::Secret,
                            auth_message: chars_to_string(&u),
                        },
                    )
                } else {
                    None
                }
            },
            None => None,
        }
    } else if let Some(j) = match_lit(
        t,
        0,
        "{\"type\":\"auth_message\",\"auth_message_type\":\"info\",\"auth_message\":\"",
    ) {
        match parse_body(t, j) {
            Some((u, j2)) => {
                if rest_is_brace(t, j2) {
                    Some(
                        Response::AuthMessage {
                            auth_message_type: AuthMessageType::Info,
                            auth_message: chars_to_string(&u),
                        },
                    )
                } else {
                    None
                }
            },
            None => None,
        }
    } else if let Some(j) = match_lit(
        t,
        0,
        "{\"type\":\"auth_message\",\"auth_message_type\":\"error\",\"auth_message\":\"",
    ) {
        match parse_body(t, j) {
            Some((u, j2)) => {
                if rest_is_brace(t, j2) {
                    Some(
                        Response::AuthMessage {
                            auth_message_type: AuthMessageType::Error,
                            auth_message: chars_to_string(&u),
                        },
                    )
                } else {
                    None
                }
            },
            None => None,
        }
    } else {
        None
    }
}

} // verus!
