use oauth_proxy::exchange::{on_build_failure, on_request, on_response, Outbound, UpstreamHead};
use oauth_proxy::form::Form;
use oauth_proxy::json::quote;
use oauth_proxy::reply::{bad_request, error_text, internal_server_error, Body, Reply};

fn pairs(items: &[(&str, &str)]) -> Vec<(String, String)> {
    items.iter().map(|(k, v)| (k.to_string(), v.to_string())).collect()
}

fn text_of(r: &Reply) -> String {
    match &r.body {
        Body::Text(t) => t.clone(),
        Body::Bytes(_) => panic!("expected an error document"),
    }
}

fn bytes_of(r: &Reply) -> Vec<u8> {
    match &r.body {
        Body::Bytes(b) => b.clone(),
        Body::Text(_) => panic!("expected a relayed body"),
    }
}

fn assert_json_content_type(r: &Reply) {
    assert_eq!(r.headers.len(), 1);
    assert_eq!(r.headers[0].0, "Content-Type");
    assert_eq!(r.headers[0].1, b"application/json".to_vec());
}

fn outbound_for(body: &[(&str, &str)]) -> Outbound {
    let form = Form::from_fields(pairs(body));
    let pending = match on_request("application/json".to_string(), form) {
        Ok(p) => p,
        Err(_) => panic!("request refused"),
    };
    match pending.on_settings(
        Ok("s3cret".to_string()),
        Ok("https://idp.example/token".to_string()),
    ) {
        Ok(o) => o,
        Err(_) => panic!("settings refused"),
    }
}

fn field<'a>(form: &'a Form, key: &str) -> Vec<&'a String> {
    form.fields.iter().filter(|(k, _)| k == key).map(|(_, v)| v).collect()
}

#[test]
fn happy_path() {
    let out = outbound_for(&[("code", "abc"), ("grant_type", "authorization_code")]);
    assert_eq!(out.url, "https://idp.example/token");
    assert_eq!(out.accept, "application/json");
    assert_eq!(
        out.form.fields,
        pairs(&[
            ("code", "abc"),
            ("grant_type", "authorization_code"),
            ("client_secret", "s3cret"),
        ])
    );

    let headers = vec![("Content-Type".to_string(), b"application/json".to_vec())];
    let head = UpstreamHead { status: 200, headers: headers.clone() };
    let started = match on_response(Ok(head)) {
        Ok(h) => h,
        Err(_) => panic!("upstream head refused"),
    };
    let body = br#"{"access_token":"T","token_type":"bearer"}"#.to_vec();
    let reply = started.on_body(Ok(body.clone()));
    assert_eq!(reply.status, 200);
    assert_eq!(reply.headers, headers);
    assert_eq!(bytes_of(&reply), body);
}

#[test]
fn secret_overwrite() {
    let out = outbound_for(&[("code", "abc"), ("client_secret", "attacker")]);
    assert_eq!(field(&out.form, "client_secret"), vec!["s3cret"]);
    assert_eq!(field(&out.form, "code"), vec!["abc"]);
    assert_eq!(out.form.fields.len(), 2);
}

#[test]
fn bad_accept() {
    let form = Form::from_fields(pairs(&[("code", "abc")]));
    let reply = match on_request("text/html".to_string(), form) {
        Ok(_) => panic!("text/html accepted"),
        Err(r) => r,
    };
    assert_eq!(reply.status, 400);
    assert_json_content_type(&reply);
    assert_eq!(text_of(&reply), r#"{"message": "Unsupported response content type"}"#);
}

#[test]
fn accept_match_is_strict() {
    for accept in ["*/*", "application/json; charset=utf-8", "Application/JSON", " application/json", ""] {
        let form = Form::from_fields(Vec::new());
        match on_request(accept.to_string(), form) {
            Ok(_) => panic!("accepted {:?}", accept),
            Err(r) => assert_eq!(r.status, 400),
        }
    }
}

#[test]
fn upstream_rejects_code() {
    let _ = outbound_for(&[("code", "expired")]);
    let headers = vec![
        ("content-type".to_string(), b"application/json".to_vec()),
        ("cache-control".to_string(), b"no-store".to_vec()),
    ];
    let head = UpstreamHead { status: 400, headers: headers.clone() };
    let started = match on_response(Ok(head)) {
        Ok(h) => h,
        Err(_) => panic!("upstream head refused"),
    };
    let body = br#"{"error":"invalid_grant"}"#.to_vec();
    let reply = started.on_body(Ok(body.clone()));
    assert_eq!(reply.status, 400);
    assert_eq!(reply.headers, headers);
    assert_eq!(bytes_of(&reply), body);
}

#[test]
fn upstream_unreachable() {
    let reply = match on_response(Err("error sending request: connection refused".to_string())) {
        Ok(_) => panic!("transport failure relayed"),
        Err(r) => r,
    };
    assert_eq!(reply.status, 500);
    assert_json_content_type(&reply);
    assert_eq!(
        text_of(&reply),
        r#"{"message": "Error retrieving response from token URL", "error": "error sending request: connection refused"}"#
    );
}

#[test]
fn missing_setting() {
    let pending = match on_request("application/json".to_string(), Form::from_fields(Vec::new())) {
        Ok(p) => p,
        Err(_) => panic!("request refused"),
    };
    let reply = match pending.on_settings(
        Ok("s3cret".to_string()),
        Err("configuration property \"token_url\" not found".to_string()),
    ) {
        Ok(_) => panic!("sent without a token URL"),
        Err(r) => r,
    };
    assert_eq!(reply.status, 500);
    assert_eq!(
        text_of(&reply),
        r#"{"message": "Could not retrieve token URL", "error": "configuration property \"token_url\" not found"}"#
    );
}

#[test]
fn missing_secret_comes_first() {
    let pending = match on_request("application/json".to_string(), Form::from_fields(Vec::new())) {
        Ok(p) => p,
        Err(_) => panic!("request refused"),
    };
    let reply = match pending.on_settings(Err("no secret".to_string()), Err("no url".to_string())) {
        Ok(_) => panic!("sent without settings"),
        Err(r) => r,
    };
    assert_eq!(reply.status, 500);
    assert_eq!(
        text_of(&reply),
        r#"{"message": "Could not retrieve client secret", "error": "no secret"}"#
    );
}

#[test]
fn missing_setting_in_loaded_config() {
    let mut settings = config::Config::default();
    settings.set("client_secret", "s3cret").unwrap();
    let pending = match on_request("application/json".to_string(), Form::from_fields(Vec::new())) {
        Ok(p) => p,
        Err(_) => panic!("request refused"),
    };
    let reply = match pending.on_config(&settings) {
        Ok(_) => panic!("sent without a token URL"),
        Err(r) => r,
    };
    assert_eq!(reply.status, 500);
    assert!(text_of(&reply).starts_with(r#"{"message": "Could not retrieve token URL", "error": ""#));
}

#[test]
fn settings_read_from_loaded_config() {
    let mut settings = config::Config::default();
    settings.set("client_secret", "s3cret").unwrap();
    settings.set("token_url", "https://idp.example/token").unwrap();
    let form = Form::from_fields(pairs(&[("code", "abc")]));
    let pending = match on_request("application/json".to_string(), form) {
        Ok(p) => p,
        Err(_) => panic!("request refused"),
    };
    let out = match pending.on_config(&settings) {
        Ok(o) => o,
        Err(r) => panic!("refused: {}", text_of(&r)),
    };
    assert_eq!(out.url, "https://idp.example/token");
    assert_eq!(out.form.fields, pairs(&[("code", "abc"), ("client_secret", "s3cret")]));
}

#[test]
fn settings_unavailable() {
    let pending = match on_request("application/json".to_string(), Form::from_fields(Vec::new())) {
        Ok(p) => p,
        Err(_) => panic!("request refused"),
    };
    let reply = pending.on_settings_unavailable("configuration file \"Settings\" not found".to_string());
    assert_eq!(reply.status, 500);
    assert_eq!(
        text_of(&reply),
        r#"{"message": "Could not load proxy settings", "error": "configuration file \"Settings\" not found"}"#
    );
}

#[test]
fn header_not_text() {
    let head = UpstreamHead {
        status: 200,
        headers: vec![
            ("content-type".to_string(), b"application/json".to_vec()),
            ("x-odd".to_string(), vec![b'a', 0xff, b'b']),
        ],
    };
    let reply = match on_response(Ok(head)) {
        Ok(_) => panic!("non-text header relayed"),
        Err(r) => r,
    };
    assert_eq!(reply.status, 500);
    assert_eq!(
        text_of(&reply),
        r#"{"message": "Error retrieving a token response header", "error": "failed to convert header to a str"}"#
    );
}

#[test]
fn tab_in_header_is_text() {
    let headers = vec![("x-tab".to_string(), b"a\tb ~".to_vec())];
    let head = UpstreamHead { status: 201, headers: headers.clone() };
    let started = match on_response(Ok(head)) {
        Ok(h) => h,
        Err(_) => panic!("text header refused"),
    };
    let reply = started.on_body(Ok(Vec::new()));
    assert_eq!(reply.status, 201);
    assert_eq!(reply.headers, headers);
    assert_eq!(bytes_of(&reply), Vec::<u8>::new());
}

#[test]
fn body_read_failure() {
    let head = UpstreamHead { status: 200, headers: Vec::new() };
    let started = match on_response(Ok(head)) {
        Ok(h) => h,
        Err(_) => panic!("upstream head refused"),
    };
    let reply = started.on_body(Err("connection reset".to_string()));
    assert_eq!(reply.status, 500);
    assert_eq!(
        text_of(&reply),
        r#"{"message": "Could not unwrap body of token response", "error": "connection reset"}"#
    );
}

#[test]
fn reply_build_failure() {
    let reply = on_build_failure("invalid status code".to_string());
    assert_eq!(reply.status, 500);
    assert_json_content_type(&reply);
    assert_eq!(
        text_of(&reply),
        r#"{"message": "Could not unwrap constructed response", "error": "invalid status code"}"#
    );
}

#[test]
fn error_document_escapes_everything() {
    let text = error_text("say \"hi\"\\", &Some("line\nbreak\t\u{1}\u{1f}\u{8}\u{c}\r é".to_string()));
    assert_eq!(
        text,
        "{\"message\": \"say \\\"hi\\\"\\\\\", \"error\": \"line\\nbreak\\t\\u0001\\u001f\\b\\f\\r é\"}"
    );
}

#[test]
fn error_helpers_set_status() {
    let r = bad_request("nope");
    assert_eq!(r.status, 400);
    assert_eq!(text_of(&r), r#"{"message": "nope"}"#);
    let r = internal_server_error("broken", "why".to_string());
    assert_eq!(r.status, 500);
    assert_eq!(text_of(&r), r#"{"message": "broken", "error": "why"}"#);
}

#[test]
fn quote_literal() {
    assert_eq!(quote(""), "\"\"");
    assert_eq!(quote("a/b"), "\"a/b\"");
    assert_eq!(quote("\u{0}"), "\"\\u0000\"");
}

#[test]
fn set_field_keeps_other_fields() {
    let form = Form::from_fields(pairs(&[
        ("client_secret", "a"),
        ("code", "abc"),
        ("client_secret", "b"),
        ("redirect_uri", "https://app.example/cb"),
    ]));
    let form = form.set_field("client_secret", "s3cret".to_string());
    assert_eq!(
        form.fields,
        pairs(&[
            ("code", "abc"),
            ("redirect_uri", "https://app.example/cb"),
            ("client_secret", "s3cret"),
        ])
    );
}
