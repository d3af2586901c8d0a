//! Replies handed back to the caller, and the proxy's own error documents.
use vstd::prelude::*;
use crate::json::{
    is_flat_json_object, lemma_quoted_is_literal, literal_value, object_text, push_quoted, quoted, members_text,
    member_text,
};

verus! {

/// 400: the caller's request cannot be served.
pub const BAD_REQUEST: u16 = 400;

/// 500: the proxy could not complete the exchange.
pub const INTERNAL_SERVER_ERROR: u16 = 500;

/// The body of a reply: a text the proxy wrote, or bytes relayed unchanged.
pub enum Body {
    Text(String),
    Bytes(Vec<u8>),
}

/// An HTTP reply: status, header names with their raw values in order, body.
pub struct Reply {
    pub status: u16,
    pub headers: Vec<(String, Vec<u8>)>,
    pub body: Body,
}

/// The bytes of a text made of ASCII characters.
pub open spec fn ascii_bytes(s: Seq<char>) -> Seq<u8> {
    Seq::new(s.len(), |i: int| s[i] as u8)
}

pub open spec fn opt_view(o: Option<String>) -> Option<Seq<char>> {
    match o {
        Some(s) => Some(s@),
        None => None,
    }
}

/// The members of an error document, as string literals.
pub open spec fn error_members(msg: Seq<char>, err: Option<Seq<char>>) -> Seq<(Seq<char>, Seq<char>)> {
    match err {
        None => seq![(quoted("message"@), quoted(msg))],
        Some(e) => seq![(quoted("message"@), quoted(msg)), (quoted("error"@), quoted(e))],
    }
}

/// `{"message": <msg>}`, or `{"message": <msg>, "error": <err>}` when a detail is given.
pub open spec fn error_body(msg: Seq<char>, err: Option<Seq<char>>) -> Seq<char> {
    object_text(error_members(msg, err))
}

/// `r` is the error reply with status `code`, a JSON content type, and the
/// error document for `msg` and `err`.
pub open spec fn is_error_reply(r: Reply, code: u16, msg: Seq<char>, err: Option<Seq<char>>) -> bool {
    &&& r.status == code
    &&& r.headers.len() == 1
    &&& r.headers[0].0@ == "Content-Type"@
    &&& r.headers[0].1@ == ascii_bytes("application/json"@)
    &&& r.body matches Body::Text(t) && t@ == error_body(msg, err)
}

/// Whatever the message and the detail hold (quotes, backslashes, control
/// characters), an error document is a well-formed JSON object whose keys and
/// values are string literals: `message` denotes `msg` and, when a detail is
/// given, `error` denotes it.
pub proof fn lemma_error_body_is_json(msg: Seq<char>, err: Option<Seq<char>>)
    ensures
        is_flat_json_object(error_body(msg, err)),
        error_body(msg, err) == object_text(error_members(msg, err)),
        literal_value(error_members(msg, err)[0].0) == Some("message"@),
        literal_value(error_members(msg, err)[0].1) == Some(msg),
        err is None ==> error_members(msg, err).len() == 1,
        err matches Some(e) ==> error_members(msg, err).len() == 2 && literal_value(
            error_members(msg, err)[1].0,
        ) == Some("error"@) && literal_value(error_members(msg, err)[1].1) == Some(e),
{
    let members = error_members(msg, err);
    lemma_quoted_is_literal("message"@);
    lemma_quoted_is_literal("error"@);
    lemma_quoted_is_literal(msg);
    if let Some(e) = err {
        lemma_quoted_is_literal(e);
    }
    assert(error_body(msg, err) == object_text(members));
}

fn ascii_to_bytes(s: &str) -> (r: Vec<u8>)
    requires
        s.is_ascii(),
        s@.len() <= usize::MAX,
    ensures
        r@ == ascii_bytes(s@),
{
    let n = s.unicode_len();
    let mut r: Vec<u8> = Vec::new();
    let mut i: usize = 0;
    while i < n
        invariant
            n == s@.len(),
            i <= n,
            s.is_ascii(),
            r@ == ascii_bytes(s@.subrange(0, i as int)),
        decreases n - i,
    {
        r.push(s.get_ascii(i));
        i = i + 1;
        assert(r@ =~= ascii_bytes(s@.subrange(0, i as int)));
    }
    assert(s@.subrange(0, n as int) =~= s@);
    r
}

/// The JSON error document for `msg`, with `err` as detail when present.
pub fn error_text(msg: &str, err: &Option<String>) -> (r: String)
    ensures
        r@ == error_body(msg@, opt_view(*err)),
{
    proof {
        reveal_strlit("{");
        reveal_strlit(": ");
        reveal_strlit(", ");
        reveal_strlit("}");
    }
    let mut out = String::new();
    out.append("{");
    push_quoted(&mut out, "message");
    out.append(": ");
    push_quoted(&mut out, msg);
    let ghost first = member_text(quoted("message"@), quoted(msg@));
    assert(out@ =~= seq!['{'] + first);
    match err {
        Some(e) => {
            out.append(", ");
            push_quoted(&mut out, "error");
            out.append(": ");
            push_quoted(&mut out, e.as_str());
            let ghost m = error_members(msg@, Some(e@));
            assert(m.drop_last() =~= seq![(quoted("message"@), quoted(msg@))]);
            assert(members_text(m.drop_last()) == first);
            assert(out@ =~= seq!['{'] + members_text(m));
        },
        None => {},
    }
    out.append("}");
    assert(out@ =~= error_body(msg@, opt_view(*err)));
    out
}

/// A reply with status `code` whose JSON body carries `msg` and, when given, `err`.
pub fn error_response(msg: &str, err: Option<String>, code: u16) -> (r: Reply)
    ensures
        is_error_reply(r, code, msg@, opt_view(err)),
{
    proof {
        reveal_strlit("application/json");
    }
    let body = error_text(msg, &err);
    let media = ascii_to_bytes("application/json");
    let mut headers: Vec<(String, Vec<u8>)> = Vec::new();
    headers.push(("Content-Type".to_owned(), media));
    Reply { status: code, headers, body: Body::Text(body) }
}

/// A 400 reply carrying `msg`.
pub fn bad_request(msg: &str) -> (r: Reply)
    ensures
        is_error_reply(r, BAD_REQUEST, msg@, None),
{
    error_response(msg, None, BAD_REQUEST)
}

/// A 500 reply carrying `msg` and the underlying diagnostic `err`.
pub fn internal_server_error(msg: &str, err: String) -> (r: Reply)
    ensures
        is_error_reply(r, INTERNAL_SERVER_ERROR, msg@, Some(err@)),
{
    error_response(msg, Some(err), INTERNAL_SERVER_ERROR)
}

} // verus!
