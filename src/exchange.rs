//! The exchange of an authorization code, as a sequence of stages. Each stage
//! takes what the previous one asked for (settings, the upstream response, its
//! body) and decides what comes next; a stage value is consumed by the step
//! that follows, so one inbound request yields at most one outbound request.
use vstd::prelude::*;
use crate::form::{Form, secret_key};
use crate::reply::{
    Body, Reply, bad_request, internal_server_error, is_error_reply, BAD_REQUEST,
    INTERNAL_SERVER_ERROR,
};

verus! {

#[verifier::external_type_specification]
#[verifier::external_body]
pub struct ExConfig(config::Config);

/// The string value that loaded settings hold under a plain key, if any.
pub uninterp spec fn setting_of(settings: config::Config, key: Seq<char>) -> Option<Seq<char>>;

/// Relies on config::Config::get_str: it reads the settings already in memory,
/// so the outcome depends on the settings and the key alone; on failure the
/// lookup's error is rendered as text. Only the two plain keys the proxy uses
/// are admitted: other keys may be parsed as subscripts, which can panic.
#[verifier::external_body]
fn config_str(settings: &config::Config, key: &str) -> (r: Result<String, String>)
    requires
        key@ == "client_secret"@ || key@ == "token_url"@,
    ensures
        r matches Ok(s) ==> setting_of(*settings, key@) == Some(s@),
        r is Err ==> setting_of(*settings, key@) is None,
{
    match settings.get_str(key) {
        Ok(s) => Ok(s),
        Err(e) => Err(format!("{}", e)),
    }
}

/// The only response type the proxy accepts to produce.
pub open spec fn json_media() -> Seq<char> {
    "application/json"@
}

pub open spec fn unsupported_accept_msg() -> Seq<char> {
    "Unsupported response content type"@
}

pub open spec fn settings_unavailable_msg() -> Seq<char> {
    "Could not load proxy settings"@
}

pub open spec fn no_secret_msg() -> Seq<char> {
    "Could not retrieve client secret"@
}

pub open spec fn no_token_url_msg() -> Seq<char> {
    "Could not retrieve token URL"@
}

pub open spec fn transport_failure_msg() -> Seq<char> {
    "Error retrieving response from token URL"@
}

pub open spec fn bad_header_msg() -> Seq<char> {
    "Error retrieving a token response header"@
}

pub open spec fn unreadable_body_msg() -> Seq<char> {
    "Could not unwrap body of token response"@
}

pub open spec fn unbuildable_reply_msg() -> Seq<char> {
    "Could not unwrap constructed response"@
}

/// A header value that reads as text: tabs and visible ASCII only.
pub open spec fn is_text_value(v: Seq<u8>) -> bool {
    forall|i: int| 0 <= i < v.len() ==> (v[i] == 9 || (32 <= #[trigger] v[i] && v[i] < 127))
}

/// Every header value of the list reads as text.
pub open spec fn all_text_values(headers: Seq<(String, Vec<u8>)>) -> bool {
    forall|i: int| 0 <= i < headers.len() ==> is_text_value(#[trigger] headers[i].1@)
}

/// An inbound request that passed the content check, waiting for settings.
pub struct Pending {
    pub accept: String,
    pub form: Form,
}

/// The request to send upstream.
pub struct Outbound {
    pub url: String,
    pub accept: String,
    pub form: Form,
}

/// What the upstream answered before its body: status and headers in order.
pub struct UpstreamHead {
    pub status: u16,
    pub headers: Vec<(String, Vec<u8>)>,
}

/// The start of the relayed reply, waiting for the upstream body.
pub struct ReplyHead {
    pub status: u16,
    pub headers: Vec<(String, Vec<u8>)>,
}

/// `r` relays the upstream's status, headers and body unchanged.
pub open spec fn is_relay_of(
    r: Reply,
    status: u16,
    headers: Seq<(String, Vec<u8>)>,
    body: Seq<u8>,
) -> bool {
    &&& r.status == status
    &&& r.headers@ == headers
    &&& r.body matches Body::Bytes(b) && b@ == body
}

/// What `on_request` decides: a request goes on, unchanged, exactly when its
/// `Accept` is `application/json`; any other is answered with 400.
pub open spec fn request_outcome(accept: String, form: Form, r: Result<Pending, Reply>) -> bool {
    &&& (accept@ == json_media() <==> r is Ok)
    &&& (r matches Ok(p) ==> p.accept@ == accept@ && p.form@ == form@)
    &&& (r matches Err(rep) ==> is_error_reply(rep, BAD_REQUEST, unsupported_accept_msg(), None))
}

/// What `on_settings` decides: the outbound request when both settings were
/// found, with the configured secret set in the caller's form; otherwise a
/// 500 naming the first setting that is missing.
pub open spec fn settings_outcome(
    p: Pending,
    secret: Result<String, String>,
    url: Result<String, String>,
    r: Result<Outbound, Reply>,
) -> bool {
    &&& (r is Ok <==> (secret is Ok && url is Ok))
    &&& (r matches Ok(o) ==> {
        &&& o.url@ == url->Ok_0@
        &&& o.accept@ == p.accept@
        &&& o.form@ == p.form@.insert(secret_key(), secret->Ok_0@)
    })
    &&& (secret matches Err(d) ==> r matches Err(rep) && is_error_reply(
        rep,
        INTERNAL_SERVER_ERROR,
        no_secret_msg(),
        Some(d@),
    ))
    &&& (secret is Ok ==> (url matches Err(d) ==> r matches Err(rep) && is_error_reply(
        rep,
        INTERNAL_SERVER_ERROR,
        no_token_url_msg(),
        Some(d@),
    )))
}

/// A request leads to an outbound request exactly when its `Accept` is
/// `application/json` and both settings are found; the outbound request then
/// carries the caller's form with the configured secret set, and goes to the
/// configured token URL with the caller's `Accept`. (The stages take their
/// input by value, so one request cannot lead to a second outbound request.)
pub proof fn lemma_outbound_exactly_when_qualified(
    accept: String,
    form: Form,
    first: Result<Pending, Reply>,
    secret: Result<String, String>,
    url: Result<String, String>,
    second: Result<Outbound, Reply>,
)
    requires
        request_outcome(accept, form, first),
        first matches Ok(p) ==> settings_outcome(p, secret, url, second),
    ensures
        (first is Ok && second is Ok) <==> (accept@ == json_media() && secret is Ok && url is Ok),
        first is Ok ==> (second matches Ok(o) ==> {
            &&& o.url@ == url->Ok_0@
            &&& o.accept@ == accept@
            &&& o.form@ == form@.insert(secret_key(), secret->Ok_0@)
        }),
{
}

/// What `on_response` decides on an upstream answer `h`: the reply starts
/// with its status and headers when every header value reads as text, and is
/// a 500 otherwise.
pub open spec fn head_outcome(h: UpstreamHead, r: Result<ReplyHead, Reply>) -> bool {
    &&& (r is Ok <==> all_text_values(h.headers@))
    &&& (r matches Ok(rh) ==> rh.status == h.status && rh.headers@ == h.headers@)
    &&& (r matches Err(rep) ==> is_error_reply(
        rep,
        INTERNAL_SERVER_ERROR,
        bad_header_msg(),
        Some("failed to convert header to a str"@),
    ))
}

/// What `on_body` decides: the body read is relayed after the reply's start;
/// a failed read is a 500.
pub open spec fn body_outcome(rh: ReplyHead, body: Result<Vec<u8>, String>, r: Reply) -> bool {
    &&& (body matches Ok(b) ==> is_relay_of(r, rh.status, rh.headers@, b@))
    &&& (body matches Err(d) ==> is_error_reply(
        r,
        INTERNAL_SERVER_ERROR,
        unreadable_body_msg(),
        Some(d@),
    ))
}

/// When the upstream call succeeds, every header value reads as text and the
/// body is read whole, the reply carries the upstream's status, headers and
/// body bytes unchanged.
pub proof fn lemma_relay_mirrors_upstream(
    h: UpstreamHead,
    started: Result<ReplyHead, Reply>,
    body: Vec<u8>,
    r: Reply,
)
    requires
        all_text_values(h.headers@),
        head_outcome(h, started),
        started matches Ok(rh) && body_outcome(rh, Ok(body), r),
    ensures
        is_relay_of(r, h.status, h.headers@, body@),
{
}

/// The first stage: a request whose `Accept` is not exactly
/// `application/json` is answered with 400 whatever its body holds; any other
/// goes on to load the settings.
pub fn on_request(accept: String, form: Form) -> (r: Result<Pending, Reply>)
    ensures
        request_outcome(accept, form, r),
{
    proof {
        reveal_strlit("application/json");
    }
    let json = "application/json".to_owned();
    if accept == json {
        Ok(Pending { accept, form })
    } else {
        Err(bad_request("Unsupported response content type"))
    }
}

impl Pending {
    /// The settings could not be loaded: 500 with the loader's diagnostic.
    pub fn on_settings_unavailable(self, diag: String) -> (r: Reply)
        ensures
            is_error_reply(r, INTERNAL_SERVER_ERROR, settings_unavailable_msg(), Some(diag@)),
    {
        internal_server_error("Could not load proxy settings", diag)
    }

    /// With the outcomes of looking up the client secret and the token URL:
    /// the first failure in that order is answered with 500; otherwise the
    /// outbound request goes to the token URL with the caller's `Accept` and
    /// the caller's form, its `client_secret` set to the configured secret.
    pub fn on_settings(self, secret: Result<String, String>, url: Result<String, String>) -> (r:
        Result<Outbound, Reply>)
        ensures
            settings_outcome(self, secret, url, r),
    {
        let client_secret = match secret {
            Ok(s) => s,
            Err(d) => {
                return Err(internal_server_error("Could not retrieve client secret", d));
            },
        };
        let token_url = match url {
            Ok(u) => u,
            Err(d) => {
                return Err(internal_server_error("Could not retrieve token URL", d));
            },
        };
        proof {
            reveal_strlit("client_secret");
        }
        let form = self.form.set_field("client_secret", client_secret);
        Ok(Outbound { url: token_url, accept: self.accept, form })
    }

    /// Looks the client secret and then the token URL up in loaded settings,
    /// and goes on as `on_settings` does with what the lookups gave. The token
    /// URL is not looked up when the secret is missing.
    pub fn on_config(self, settings: &config::Config) -> (r: Result<Outbound, Reply>)
        ensures
            r is Ok <==> (setting_of(*settings, "client_secret"@) is Some && setting_of(
                *settings,
                "token_url"@,
            ) is Some),
            r matches Ok(o) ==> {
                &&& o.url@ == setting_of(*settings, "token_url"@)->Some_0
                &&& o.accept@ == self.accept@
                &&& o.form@ == self.form@.insert(
                    secret_key(),
                    setting_of(*settings, "client_secret"@)->Some_0,
                )
            },
            r matches Err(rep) ==> exists|d: Seq<char>|
                #![trigger is_error_reply(rep, INTERNAL_SERVER_ERROR, no_secret_msg(), Some(d))]
                #![trigger is_error_reply(rep, INTERNAL_SERVER_ERROR, no_token_url_msg(), Some(d))]
                (setting_of(*settings, "client_secret"@) is None && is_error_reply(
                    rep,
                    INTERNAL_SERVER_ERROR,
                    no_secret_msg(),
                    Some(d),
                )) || (setting_of(*settings, "client_secret"@) is Some && is_error_reply(
                    rep,
                    INTERNAL_SERVER_ERROR,
                    no_token_url_msg(),
                    Some(d),
                )),
    {
        proof {
            reveal_strlit("client_secret");
            reveal_strlit("token_url");
        }
        let secret = config_str(settings, "client_secret");
        let r = match secret {
            Ok(s) => {
                let url = config_str(settings, "token_url");
                let ghost u = url;
                let r = self.on_settings(Ok(s), url);
                proof {
                    if let Err(d) = u {
                        assert(is_error_reply(r->Err_0, INTERNAL_SERVER_ERROR, no_token_url_msg(), Some(d@)));
                    }
                }
                r
            },
            Err(d) => {
                let rep = internal_server_error("Could not retrieve client secret", d);
                assert(is_error_reply(rep, INTERNAL_SERVER_ERROR, no_secret_msg(), Some(d@)));
                Err(rep)
            },
        };
        r
    }
}

/// Tells whether a header value reads as text.
fn text_value(v: &Vec<u8>) -> (r: bool)
    ensures
        r == is_text_value(v@),
{
    let mut i: usize = 0;
    while i < v.len()
        invariant
            i <= v.len(),
            forall|j: int| 0 <= j < i ==> (v@[j] == 9 || (32 <= #[trigger] v@[j] && v@[j] < 127)),
        decreases v.len() - i,
    {
        let b = v[i];
        if !(b == 9 || (32 <= b && b < 127)) {
            return false;
        }
        i = i + 1;
    }
    true
}

/// With the upstream's answer: a transport failure, or a header value that
/// does not read as text, is answered with 500; otherwise the reply starts
/// with the upstream's status and all its headers, in order.
pub fn on_response(head: Result<UpstreamHead, String>) -> (r: Result<ReplyHead, Reply>)
    ensures
        head matches Err(d) ==> r matches Err(rep) && is_error_reply(
            rep,
            INTERNAL_SERVER_ERROR,
            transport_failure_msg(),
            Some(d@),
        ),
        head matches Ok(h) ==> head_outcome(h, r),
{
    let h = match head {
        Ok(h) => h,
        Err(d) => {
            return Err(internal_server_error("Error retrieving response from token URL", d));
        },
    };
    let mut i: usize = 0;
    while i < h.headers.len()
        invariant
            head == Ok::<UpstreamHead, String>(h),
            i <= h.headers.len(),
            forall|j: int| 0 <= j < i ==> is_text_value(#[trigger] h.headers@[j].1@),
        decreases h.headers.len() - i,
    {
        if !text_value(&h.headers[i].1) {
            // The diagnostic is the text of the header crate's conversion error.
            return Err(
                internal_server_error(
                    "Error retrieving a token response header",
                    "failed to convert header to a str".to_owned(),
                ),
            );
        }
        i = i + 1;
    }
    Ok(ReplyHead { status: h.status, headers: h.headers })
}

impl ReplyHead {
    /// With the upstream body: a failed read is answered with 500; otherwise
    /// the reply is the upstream's status, headers and body bytes unchanged.
    pub fn on_body(self, body: Result<Vec<u8>, String>) -> (r: Reply)
        ensures
            body_outcome(self, body, r),
    {
        match body {
            Ok(b) => Reply { status: self.status, headers: self.headers, body: Body::Bytes(b) },
            Err(d) => internal_server_error("Could not unwrap body of token response", d),
        }
    }
}

/// The relayed reply could not be put together: 500 with the diagnostic.
pub fn on_build_failure(diag: String) -> (r: Reply)
    ensures
        is_error_reply(r, INTERNAL_SERVER_ERROR, unbuildable_reply_msg(), Some(diag@)),
{
    internal_server_error("Could not unwrap constructed response", diag)
}

} // verus!
