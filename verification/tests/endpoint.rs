use switchyard_route::endpoint::{build_judge_peer, JudgeEndpoint, JudgeRequest};
use switchyard_route::uri::{AuthorityParts, UriParts};

fn endpoint(url: &str) -> JudgeEndpoint {
    JudgeEndpoint::parse(url).ok().expect("URL parses")
}

fn failure(url: &str) -> String {
    JudgeEndpoint::parse(url).err().expect("URL is refused").message()
}

fn header<'a>(request: &'a JudgeRequest, name: &str) -> Option<&'a str> {
    request.headers.get(name).map(|value| value.to_str().expect("ASCII"))
}

#[test]
fn parses_http_endpoint_with_default_port() {
    let endpoint = endpoint("http://judge.internal/v1/chat/completions");
    assert!(!endpoint.tls, "http:// must not enable TLS");
    assert_eq!(endpoint.host, "judge.internal", "host comes from the authority");
    assert_eq!(endpoint.port, 80, "http:// defaults to port 80");
    assert_eq!(endpoint.sni, "", "cleartext endpoints carry no SNI");
    assert_eq!(
        endpoint.uri.to_string(),
        "/v1/chat/completions",
        "the POST target is the path and query only"
    );
}

#[test]
fn parses_https_endpoint_with_default_port_and_sni() {
    let endpoint = endpoint("https://judge.example.com/v1/chat/completions");
    assert!(endpoint.tls, "https:// must enable TLS");
    assert_eq!(endpoint.port, 443, "https:// defaults to port 443");
    assert_eq!(endpoint.sni, "judge.example.com", "TLS endpoints use the host as SNI");
    assert_eq!(
        endpoint.authority.to_str().expect("authority is ASCII"),
        "judge.example.com",
        "the Host header carries the original authority"
    );
}

#[test]
fn parses_explicit_port_and_preserves_query() {
    let endpoint = endpoint("https://judge:9443/v1/chat?api-version=2024-02-01");
    assert_eq!(endpoint.port, 9443, "an explicit port overrides the scheme default");
    assert_eq!(
        endpoint.uri.to_string(),
        "/v1/chat?api-version=2024-02-01",
        "the query string must survive into the sub-request"
    );
}

#[test]
fn parses_ipv6_host_without_brackets() {
    let endpoint = endpoint("http://[::1]:8000/v1/chat/completions");
    assert_eq!(endpoint.host, "::1", "DNS lookup needs the bare IPv6 literal");
    assert_eq!(endpoint.port, 8000, "the explicit port is used");
    assert_eq!(
        endpoint.authority.to_str().expect("authority is ASCII"),
        "[::1]:8000",
        "the Host header keeps the bracketed form"
    );
}

#[test]
fn parses_endpoint_without_path_as_root() {
    let endpoint = endpoint("http://judge.internal");
    assert_eq!(endpoint.uri.to_string(), "/", "a missing path becomes /");
}

#[test]
fn rejects_unsupported_scheme() {
    let err = failure("ftp://judge.internal/v1");
    assert!(
        err.contains("unsupported scheme 'ftp'"),
        "the error must name the scheme, got {err}"
    );
}

#[test]
fn rejects_relative_endpoint() {
    let err = failure("/v1/chat/completions");
    assert!(
        err.contains("absolute http(s) URL"),
        "the error must ask for an absolute URL, got {err}"
    );
}

#[test]
fn rejects_unparsable_endpoint() {
    let err = failure("http://ju dge/v1");
    assert!(
        err.contains("bad endpoint"),
        "URI parse failures are reported as bad endpoints, got {err}"
    );
}

#[test]
fn schemes_are_recognised_in_any_case() {
    assert!(endpoint("HTTPS://judge/v1").tls);
    assert!(!endpoint("HTTP://judge/v1").tls);
}

#[test]
fn the_fragment_and_the_credentials_stay_out_of_target_and_host() {
    let endpoint = endpoint("http://user@judge:81/v1?a=b#frag");
    assert_eq!(endpoint.host, "judge");
    assert_eq!(endpoint.port, 81);
    assert_eq!(endpoint.uri, "/v1?a=b");
    assert_eq!(endpoint.authority.to_str().expect("ASCII"), "user@judge:81");
}

fn parts(scheme: Option<&str>, authority: Option<&str>) -> UriParts {
    UriParts {
        scheme: scheme.map(str::to_owned),
        authority: authority.map(|text| AuthorityParts {
            text: text.to_owned(),
            host: text.to_owned(),
            port: None,
        }),
        path_and_query: None,
    }
}

fn parts_failure(uri: UriParts, target: Result<UriParts, String>) -> String {
    JudgeEndpoint::from_parts(uri, target).err().expect("parts are refused").message()
}

#[test]
fn parts_are_checked_in_order() {
    let target = || Err("no path".to_owned());
    assert_eq!(
        parts_failure(parts(None, None), target()),
        "judge callout failed: endpoint must be an absolute http(s) URL"
    );
    assert_eq!(
        parts_failure(parts(Some("ws"), None), target()),
        "judge callout failed: unsupported scheme 'ws'"
    );
    assert_eq!(
        parts_failure(parts(Some("http"), None), target()),
        "judge callout failed: endpoint missing host"
    );
    assert_eq!(
        parts_failure(parts(Some("http"), Some("a\nb")), target()),
        "judge callout failed: invalid authority: failed to parse header value"
    );
    assert_eq!(
        parts_failure(parts(Some("http"), Some("a")), target()),
        "judge callout failed: bad path: no path"
    );
    let endpoint = JudgeEndpoint::from_parts(
        parts(Some("https"), Some("[[fe80::1]]")),
        Ok(parts(None, None)),
    )
    .ok()
    .expect("parts are accepted");
    assert_eq!(endpoint.host, "fe80::1");
    assert_eq!(endpoint.sni, "fe80::1");
    assert_eq!(endpoint.uri, "/");
}

#[test]
fn builds_unauthenticated_judge_post() {
    let endpoint = endpoint("http://judge.internal:8000/v1/chat/completions");
    let subrequest = endpoint.build_request(b"{}".to_vec(), None).ok().expect("request builds");
    assert_eq!(subrequest.method, http::Method::POST, "judge calls are POSTs");
    assert_eq!(
        subrequest.uri.to_string(),
        "/v1/chat/completions",
        "the sub-request targets the judge path"
    );
    assert_eq!(
        header(&subrequest, "host"),
        Some("judge.internal:8000"),
        "the Host header carries the judge authority"
    );
    assert_eq!(
        header(&subrequest, "content-type"),
        Some("application/json"),
        "the judge speaks JSON"
    );
    assert!(
        !subrequest.headers.contains_key(http::header::AUTHORIZATION),
        "no token configured means no Authorization header"
    );
    assert_eq!(subrequest.body, b"{}".to_vec(), "the encoded body is passed through");
    assert_eq!(subrequest.headers.len(), 2);
}

#[test]
fn builds_authenticated_judge_post() {
    let endpoint = endpoint("https://judge.example.com/v1/chat/completions");
    let subrequest =
        endpoint.build_request(b"{}".to_vec(), Some("sk-test")).ok().expect("request builds");
    assert_eq!(
        header(&subrequest, "authorization"),
        Some("Bearer sk-test"),
        "the configured token becomes a bearer credential"
    );
}

#[test]
fn rejects_token_that_cannot_be_a_header() {
    let endpoint = endpoint("https://judge.example.com/v1");
    let err = endpoint
        .build_request(Vec::new(), Some("bad\nvalue"))
        .err()
        .expect("a newline cannot go in a header")
        .message();
    assert!(
        err.contains("invalid auth header"),
        "the error must point at the auth header, got {err}"
    );
    assert_eq!(err, "judge callout failed: invalid auth header: failed to parse header value");
}

#[test]
fn builds_cleartext_peer_without_tls_options() {
    let endpoint = endpoint("http://judge.internal:8000/v1");
    let peer = build_judge_peer("127.0.0.1:8000", &endpoint, true);
    assert!(!peer.tls, "an http:// judge must be dialled in cleartext");
    assert_eq!(peer.addr, "127.0.0.1:8000");
    assert_eq!(peer.sni, "");
}

#[test]
fn builds_verifying_tls_peer_by_default() {
    let endpoint = endpoint("https://judge.example.com/v1");
    let peer = build_judge_peer("127.0.0.1:8443", &endpoint, true);
    assert!(peer.tls, "an https:// judge must be dialled over TLS");
    assert!(peer.verify_cert, "verify_tls: true must keep certificate checks on");
    assert!(peer.verify_hostname, "verify_tls: true must keep hostname checks on");
    assert_eq!(peer.sni, "judge.example.com");
}

#[test]
fn disables_tls_verification_when_configured() {
    let endpoint = endpoint("https://judge.example.com/v1");
    let peer = build_judge_peer("127.0.0.1:8443", &endpoint, false);
    assert!(!peer.verify_cert, "verify_tls: false must skip certificate checks");
    assert!(!peer.verify_hostname, "verify_tls: false must skip hostname checks");
}
