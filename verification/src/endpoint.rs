//! Where the judge is and how a request to it is put together.

use vstd::prelude::*;
use vstd::string::StringExecFns;
use vstd::utf8::{encode_utf8, is_ascii_chars_encode_utf8};

use crate::error::{RouteError, RouteFault};
use crate::headers::{
    header_bytes, header_fields, header_insert, header_map, header_value, is_header_text,
    static_header_value, INVALID_HEADER_VALUE,
};
use crate::text::{
    join, law_stripping_takes_only_the_brackets, strip_brackets, strip_end, strip_start, text_eq,
};
use crate::uri::{parse_uri, parsed_uri, shape_of, AuthorityShape, UriParts, UriShape};

verus! {

/// Parsed judge URL.
pub struct JudgeEndpoint {
    /// Whether the endpoint is reached over TLS.
    pub tls: bool,
    /// Host name for address resolution, without brackets.
    pub host: String,
    /// TCP port.
    pub port: u16,
    /// TLS server name; empty for cleartext.
    pub sni: String,
    /// Original URL authority, sent as the `Host` header.
    pub authority: http::HeaderValue,
    /// Path and query of the request.
    pub uri: String,
}

/// Mathematical [`JudgeEndpoint`].
pub struct EndpointShape {
    pub tls: bool,
    pub host: Seq<char>,
    pub port: u16,
    pub sni: Seq<char>,
    pub authority: Seq<u8>,
    pub uri: Seq<char>,
}

impl View for JudgeEndpoint {
    type V = EndpointShape;

    open spec fn view(&self) -> EndpointShape {
        EndpointShape {
            tls: self.tls,
            host: self.host@,
            port: self.port,
            sni: self.sni@,
            authority: header_bytes(self.authority),
            uri: self.uri@,
        }
    }
}

/// Path and query that a request to the URI asks for.
pub open spec fn request_target(uri: UriShape) -> Seq<char> {
    match uri.path_and_query {
        Some(path) => path,
        None => "/"@,
    }
}

/// Bare host of an authority: IPv6 literals lose their brackets.
pub open spec fn bare_host(host: Seq<char>) -> Seq<char> {
    strip_end(strip_start(host, '['), ']')
}

/// The endpoint that a URI describes, given what its request target parses to.
/// The scheme is looked at first, then the authority, then the target.
pub open spec fn endpoint_of(uri: UriShape, target: Result<UriShape, Seq<char>>) -> Result<
    EndpointShape,
    RouteFault,
> {
    match uri.scheme {
        None => Err(RouteFault::Judge("endpoint must be an absolute http(s) URL"@)),
        Some(scheme) => if scheme != "https"@ && scheme != "http"@ {
            Err(RouteFault::Judge("unsupported scheme '"@ + scheme + "'"@))
        } else {
            match uri.authority {
                None => Err(RouteFault::Judge("endpoint missing host"@)),
                Some(authority) => if !is_header_text(authority.text) {
                    Err(RouteFault::Judge("invalid authority: "@ + INVALID_HEADER_VALUE@))
                } else {
                    match target {
                        Err(cause) => Err(RouteFault::Judge("bad path: "@ + cause)),
                        Ok(_) => Ok(
                            EndpointShape {
                                tls: scheme == "https"@,
                                host: bare_host(authority.host),
                                port: match authority.port {
                                    Some(port) => port,
                                    None => if scheme == "https"@ {
                                        443
                                    } else {
                                        80
                                    },
                                },
                                sni: if scheme == "https"@ {
                                    bare_host(authority.host)
                                } else {
                                    Seq::empty()
                                },
                                authority: encode_utf8(authority.text),
                                uri: request_target(uri),
                            },
                        ),
                    }
                },
            }
        },
    }
}

/// The endpoint that a text describes.
pub open spec fn endpoint_in(text: Seq<char>) -> Result<EndpointShape, RouteFault> {
    match parsed_uri(text) {
        Err(cause) => Err(RouteFault::Judge("bad endpoint: "@ + cause)),
        Ok(uri) => endpoint_of(uri, parsed_uri(request_target(uri))),
    }
}

/// View of an outcome that carries an endpoint.
pub open spec fn endpoint_outcome(outcome: Result<JudgeEndpoint, RouteError>) -> Result<
    EndpointShape,
    RouteFault,
> {
    match outcome {
        Ok(endpoint) => Ok(endpoint@),
        Err(err) => Err(err@),
    }
}

/// A judge failure: `what` followed by its cause.
pub fn judge_failure(what: &str, cause: &str) -> (err: RouteError)
    ensures
        err@ == RouteFault::Judge(what@ + cause@),
{
    RouteError::Judge(join(what, cause))
}

impl JudgeEndpoint {
    /// Parses an absolute http(s) URL.
    pub fn parse(endpoint: &str) -> (outcome: Result<Self, RouteError>)
        ensures
            endpoint_outcome(outcome) == endpoint_in(endpoint@),
    {
        match parse_uri(endpoint) {
            Err(cause) => Err(judge_failure("bad endpoint: ", cause.as_str())),
            Ok(uri) => {
                let target = match &uri.path_and_query {
                    Some(path) => parse_uri(path.as_str()),
                    None => parse_uri("/"),
                };
                Self::from_parts(uri, target)
            },
        }
    }

    /// Puts an endpoint together from its URI and what the URI's request target
    /// parses to.
    pub fn from_parts(uri: UriParts, target: Result<UriParts, String>) -> (outcome: Result<
        Self,
        RouteError,
    >)
        ensures
            endpoint_outcome(outcome) == endpoint_of(uri@, shape_of(target)),
    {
        let tls = match &uri.scheme {
            None => {
                return Err(
                    RouteError::Judge("endpoint must be an absolute http(s) URL".to_owned()),
                );
            },
            Some(scheme) => if text_eq(scheme.as_str(), "https") {
                true
            } else if text_eq(scheme.as_str(), "http") {
                proof {
                    reveal_strlit("https");
                    reveal_strlit("http");
                }
                false
            } else {
                return Err(
                    RouteError::Judge(join("unsupported scheme '", scheme.as_str()).concat("'")),
                );
            },
        };
        let authority = match uri.authority {
            None => {
                return Err(RouteError::Judge("endpoint missing host".to_owned()));
            },
            Some(authority) => authority,
        };
        let host = strip_brackets(authority.host.as_str(), '[', ']');
        let port: u16 = match authority.port {
            Some(port) => port,
            None => if tls {
                443
            } else {
                80
            },
        };
        let sni = if tls {
            host.clone()
        } else {
            String::new()
        };
        let authority = match header_value(authority.text.as_str()) {
            Err(cause) => {
                return Err(judge_failure("invalid authority: ", cause.as_str()));
            },
            Ok(authority) => authority,
        };
        if let Err(cause) = target {
            return Err(judge_failure("bad path: ", cause.as_str()));
        }
        let path = match uri.path_and_query {
            Some(path) => path,
            None => "/".to_owned(),
        };
        let endpoint = JudgeEndpoint { tls, host, port, sni, authority, uri: path };
        assert(endpoint@.sni =~= if tls {
            endpoint@.host
        } else {
            Seq::empty()
        });
        Ok(endpoint)
    }

    /// Builds the POST that carries an encoded body.
    pub fn build_request(&self, body: Vec<u8>, auth_token: Option<&str>) -> (outcome: Result<
        JudgeRequest,
        RouteError,
    >)
        ensures
            match auth_header(token_text(auth_token)) {
                Err(fault) => outcome matches Err(err) && err@ == fault,
                Ok(credential) => {
                    &&& outcome matches Ok(request)
                    &&& request.method@ == "POST"@
                    &&& request.uri@ == self@.uri
                    &&& header_fields(request.headers) == judge_headers(self@.authority, credential)
                    &&& request.body@ == body@
                },
            },
    {
        proof {
            reveal_strlit("host");
            reveal_strlit("content-type");
            reveal_strlit("authorization");
            reveal_strlit("application/json");
            is_ascii_chars_encode_utf8("application/json"@);
        }
        let mut headers = header_map();
        assert(header_fields(headers) =~= Map::empty());
        header_insert(&mut headers, "host", self.authority.clone());
        header_insert(&mut headers, "content-type", static_header_value("application/json"));
        if let Some(token) = auth_token {
            let value = join("Bearer ", token);
            match header_value(value.as_str()) {
                Err(cause) => {
                    return Err(judge_failure("invalid auth header: ", cause.as_str()));
                },
                Ok(header) => {
                    header_insert(&mut headers, "authorization", header);
                },
            }
        }
        Ok(JudgeRequest { method: "POST", uri: self.uri.clone(), headers, body })
    }
}

/// A request to the judge.
pub struct JudgeRequest {
    pub method: &'static str,
    /// Path and query.
    pub uri: String,
    pub headers: http::HeaderMap,
    pub body: Vec<u8>,
}

/// View of an optional token.
pub open spec fn token_text(token: Option<&str>) -> Option<Seq<char>> {
    match token {
        Some(token) => Some(token@),
        None => None,
    }
}

/// Value of the authorization header, where a token is configured.
pub open spec fn auth_header(token: Option<Seq<char>>) -> Result<Option<Seq<u8>>, RouteFault> {
    match token {
        None => Ok(None),
        Some(token) => if is_header_text("Bearer "@ + token) {
            Ok(Some(encode_utf8("Bearer "@ + token)))
        } else {
            Err(RouteFault::Judge("invalid auth header: "@ + INVALID_HEADER_VALUE@))
        },
    }
}

/// Headers of a judge request.
pub open spec fn judge_headers(authority: Seq<u8>, credential: Option<Seq<u8>>) -> Map<
    Seq<char>,
    Seq<u8>,
> {
    let plain = Map::empty().insert("host"@, authority).insert(
        "content-type"@,
        encode_utf8("application/json"@),
    );
    match credential {
        Some(credential) => plain.insert("authorization"@, credential),
        None => plain,
    }
}

/// How to connect to one judge address.
#[derive(Debug, PartialEq, Eq)]
pub struct JudgePeer {
    pub addr: String,
    pub tls: bool,
    pub sni: String,
    pub verify_cert: bool,
    pub verify_hostname: bool,
}

/// Connection to one address of an endpoint. The two verifications are off only
/// for a TLS endpoint that is configured so.
pub fn build_judge_peer(addr: &str, endpoint: &JudgeEndpoint, verify_tls: bool) -> (peer: JudgePeer)
    ensures
        peer.addr@ == addr@,
        peer.tls == endpoint.tls,
        peer.sni@ == endpoint.sni@,
        peer.verify_cert == (!endpoint.tls || verify_tls),
        peer.verify_hostname == (!endpoint.tls || verify_tls),
{
    let mut peer = JudgePeer {
        addr: addr.to_owned(),
        tls: endpoint.tls,
        sni: endpoint.sni.clone(),
        verify_cert: true,
        verify_hostname: true,
    };
    if endpoint.tls && !verify_tls {
        peer.verify_cert = false;
        peer.verify_hostname = false;
    }
    peer
}

/// An endpoint carries a server name exactly for TLS, and that name is its host.
pub proof fn law_server_name_is_for_tls(uri: UriShape, target: Result<UriShape, Seq<char>>)
    requires
        endpoint_of(uri, target) is Ok,
    ensures
        endpoint_of(uri, target)->Ok_0.tls ==> endpoint_of(uri, target)->Ok_0.sni == endpoint_of(
            uri,
            target,
        )->Ok_0.host,
        !endpoint_of(uri, target)->Ok_0.tls ==> endpoint_of(uri, target)->Ok_0.sni.len() == 0,
{
}

/// The body of a judge request is never sent with another credential than the
/// configured token: without one there is no authorization header.
pub proof fn law_credential_only_with_token(authority: Seq<u8>, token: Option<Seq<char>>)
    requires
        auth_header(token) is Ok,
    ensures
        judge_headers(authority, auth_header(token)->Ok_0).contains_key("authorization"@)
            <==> token is Some,
        token matches Some(token) ==> judge_headers(
            authority,
            auth_header(Some(token))->Ok_0,
        )["authorization"@] == encode_utf8("Bearer "@ + token),
{
    reveal_strlit("host");
    reveal_strlit("content-type");
    reveal_strlit("authorization");
    assert("authorization"@.len() != "host"@.len());
    assert("authorization"@.len() != "content-type"@.len());
}

/// A port that the URI gives is used as given; without one it is 443 for https
/// and 80 for http.
pub proof fn law_given_port_is_used(uri: UriShape, target: Result<UriShape, Seq<char>>)
    requires
        endpoint_of(uri, target) is Ok,
    ensures
        uri.authority is Some,
        uri.authority->0.port matches Some(port) ==> endpoint_of(uri, target)->Ok_0.port == port,
        uri.authority->0.port is None && uri.scheme == Some("https"@) ==> endpoint_of(
            uri,
            target,
        )->Ok_0.port == 443,
        uri.authority->0.port is None && uri.scheme == Some("http"@) ==> endpoint_of(
            uri,
            target,
        )->Ok_0.port == 80,
{
    reveal_strlit("https");
    reveal_strlit("http");
    assert("https"@.len() != "http"@.len());
}

/// The port of a URI decides the endpoint's port and nothing else of it.
pub proof fn law_port_changes_only_the_port(
    uri: UriShape,
    target: Result<UriShape, Seq<char>>,
    port: u16,
)
    requires
        endpoint_of(uri, target) is Ok,
    ensures
        ({
            let authority = AuthorityShape { port: Some(port), ..uri.authority->0 };
            let moved = UriShape { authority: Some(authority), ..uri };
            endpoint_of(moved, target) == Ok::<EndpointShape, RouteFault>(
                EndpointShape { port, ..endpoint_of(uri, target)->Ok_0 },
            )
        }),
{
}

/// An endpoint is that of its URI: reached over TLS exactly for https, with the
/// authority as written for the `Host` header and the path as written, the root
/// where there is none. What is behind the path has no say.
pub proof fn law_endpoint_follows_the_uri(
    uri: UriShape,
    target: Result<UriShape, Seq<char>>,
    endpoint: EndpointShape,
)
    requires
        endpoint_of(uri, target) == Ok::<EndpointShape, RouteFault>(endpoint),
    ensures
        uri.scheme == Some("https"@) || uri.scheme == Some("http"@),
        endpoint.tls <==> uri.scheme == Some("https"@),
        endpoint.authority == encode_utf8(uri.authority->0.text),
        uri.path_and_query matches Some(path) ==> endpoint.uri == path,
        uri.path_and_query is None ==> endpoint.uri == "/"@,
        endpoint.tls ==> endpoint.sni == endpoint.host,
        !endpoint.tls ==> endpoint.sni == Seq::<char>::empty(),
{
}

/// The host of an endpoint is what stands in the URI's host between leading
/// opening and trailing closing brackets, character for character.
pub proof fn law_host_loses_only_brackets(
    uri: UriShape,
    target: Result<UriShape, Seq<char>>,
    endpoint: EndpointShape,
) -> (cut: (int, int))
    requires
        endpoint_of(uri, target) == Ok::<EndpointShape, RouteFault>(endpoint),
    ensures
        0 <= cut.0 <= cut.1 <= uri.authority->0.host.len(),
        endpoint.host == uri.authority->0.host.subrange(cut.0, cut.1),
        forall|i: int| 0 <= i < cut.0 ==> #[trigger] uri.authority->0.host[i] == '[',
        forall|i: int|
            cut.1 <= i < uri.authority->0.host.len() ==> #[trigger] uri.authority->0.host[i] == ']',
        cut.0 < uri.authority->0.host.len() ==> uri.authority->0.host[cut.0] != '[',
        cut.0 < cut.1 ==> uri.authority->0.host[cut.1 - 1] != ']',
{
    law_stripping_takes_only_the_brackets(uri.authority->0.host, '[', ']')
}

/// A URI is refused for a missing scheme, then for one that is neither https nor
/// http, then for a missing authority, then for an authority that is no header
/// text, then for a target that does not parse; any other one is accepted.
pub proof fn law_uris_are_accepted_or_refused(uri: UriShape, target: Result<UriShape, Seq<char>>)
    ensures
        uri.scheme is None ==> endpoint_of(uri, target) == Err::<EndpointShape, RouteFault>(
            RouteFault::Judge("endpoint must be an absolute http(s) URL"@),
        ),
        uri.scheme matches Some(scheme) ==> scheme != "https"@ && scheme != "http"@ ==> endpoint_of(
            uri,
            target,
        ) == Err::<EndpointShape, RouteFault>(
            RouteFault::Judge("unsupported scheme '"@ + scheme + "'"@),
        ),
        uri.scheme == Some("https"@) || uri.scheme == Some("http"@) ==> {
            &&& uri.authority is None ==> endpoint_of(uri, target) == Err::<
                EndpointShape,
                RouteFault,
            >(RouteFault::Judge("endpoint missing host"@))
            &&& uri.authority matches Some(authority) ==> !is_header_text(authority.text)
                ==> endpoint_of(uri, target) == Err::<EndpointShape, RouteFault>(
                RouteFault::Judge("invalid authority: "@ + "failed to parse header value"@),
            )
            &&& uri.authority matches Some(authority) ==> is_header_text(authority.text) ==> {
                &&& target matches Err(cause) ==> endpoint_of(uri, target) == Err::<
                    EndpointShape,
                    RouteFault,
                >(RouteFault::Judge("bad path: "@ + cause))
                &&& target is Ok ==> endpoint_of(uri, target) is Ok
            }
        },
{
}

/// A text that is no URI is refused with the parser's words; one that is gives
/// the endpoint of that URI, whose target is its path, or the root.
pub proof fn law_endpoint_text_is_parsed(text: Seq<char>, uri: UriShape, cause: Seq<char>)
    ensures
        parsed_uri(text) == Err::<UriShape, Seq<char>>(cause) ==> endpoint_in(text) == Err::<
            EndpointShape,
            RouteFault,
        >(RouteFault::Judge("bad endpoint: "@ + cause)),
        parsed_uri(text) == Ok::<UriShape, Seq<char>>(uri) ==> endpoint_in(text) == endpoint_of(
            uri,
            parsed_uri(
                if uri.path_and_query is Some {
                    uri.path_and_query->0
                } else {
                    "/"@
                },
            ),
        ),
{
}

/// A token is sent whole behind `Bearer`, or refused as a whole where it cannot
/// stand in a header; without a token there is no credential.
pub proof fn law_token_is_sent_whole(token: Seq<char>)
    ensures
        auth_header(None) == Ok::<Option<Seq<u8>>, RouteFault>(None),
        is_header_text("Bearer "@ + token) ==> auth_header(Some(token)) == Ok::<
            Option<Seq<u8>>,
            RouteFault,
        >(Some(encode_utf8("Bearer "@ + token))),
        !is_header_text("Bearer "@ + token) ==> auth_header(Some(token)) == Err::<
            Option<Seq<u8>>,
            RouteFault,
        >(RouteFault::Judge("invalid auth header: "@ + "failed to parse header value"@)),
{
}

/// A judge request has exactly the headers `host`, `content-type` and, with a
/// credential, `authorization`, each with its own value.
pub proof fn law_judge_headers_are_exact(
    authority: Seq<u8>,
    credential: Option<Seq<u8>>,
    name: Seq<char>,
)
    ensures
        judge_headers(authority, credential).contains_key(name) <==> name == "host"@ || name
            == "content-type"@ || name == "authorization"@ && credential is Some,
        judge_headers(authority, credential)["host"@] == authority,
        judge_headers(authority, credential)["content-type"@] == encode_utf8("application/json"@),
        credential matches Some(credential) ==> judge_headers(
            authority,
            Some(credential),
        )["authorization"@] == credential,
{
    reveal_strlit("host");
    reveal_strlit("content-type");
    reveal_strlit("authorization");
    assert("authorization"@.len() != "host"@.len());
    assert("authorization"@.len() != "content-type"@.len());
    assert("content-type"@.len() != "host"@.len());
}

/// An endpoint shows its parts as they are, and so does an outcome.
pub proof fn law_endpoint_shows_its_parts(endpoint: JudgeEndpoint, err: RouteError, token: &str)
    ensures
        endpoint@.tls == endpoint.tls,
        endpoint@.host == endpoint.host@,
        endpoint@.port == endpoint.port,
        endpoint@.sni == endpoint.sni@,
        endpoint@.authority == header_bytes(endpoint.authority),
        endpoint@.uri == endpoint.uri@,
        endpoint_outcome(Ok(endpoint)) == Ok::<EndpointShape, RouteFault>(endpoint@),
        endpoint_outcome(Err(err)) == Err::<EndpointShape, RouteFault>(err@),
        token_text(Some(token)) == Some(token@),
        token_text(None) is None,
{
}

/// A call that puts an endpoint together uses the port that the URI gives, and
/// the scheme's own port without one.
pub proof fn law_endpoint_call_uses_the_given_port(
    uri: UriParts,
    target: Result<UriParts, String>,
    outcome: Result<JudgeEndpoint, RouteError>,
)
    requires
        call_ensures(JudgeEndpoint::from_parts, (uri, target), outcome),
    ensures
        outcome matches Ok(endpoint) ==> {
            &&& uri.authority is Some
            &&& uri.authority->0.port matches Some(port) ==> endpoint.port == port
            &&& uri.authority->0.port is None ==> endpoint.port == if endpoint.tls {
                443u16
            } else {
                80u16
            }
        },
{
    if let Ok(endpoint) = outcome {
        law_given_port_is_used(uri@, shape_of(target));
        law_endpoint_follows_the_uri(uri@, shape_of(target), endpoint@);
    }
}

/// A connection goes to the address with the endpoint's server name, and checks
/// certificate and host name unless a TLS endpoint is configured not to.
pub proof fn law_peer_follows_the_endpoint(
    addr: &str,
    endpoint: &JudgeEndpoint,
    verify_tls: bool,
    peer: JudgePeer,
)
    requires
        call_ensures(build_judge_peer, (addr, endpoint, verify_tls), peer),
    ensures
        peer.addr@ == addr@,
        peer.tls == endpoint.tls,
        peer.sni@ == endpoint.sni@,
        verify_tls ==> peer.verify_cert && peer.verify_hostname,
        !endpoint.tls ==> peer.verify_cert && peer.verify_hostname,
        endpoint.tls && !verify_tls ==> !peer.verify_cert && !peer.verify_hostname,
{
}

/// A judge request is a POST of the given body to the endpoint's path, with the
/// endpoint's authority as its host and the token, where there is one, whole.
pub proof fn law_judge_request_carries_the_body(
    endpoint: &JudgeEndpoint,
    body: Vec<u8>,
    token: Option<&str>,
    outcome: Result<JudgeRequest, RouteError>,
)
    requires
        call_ensures(JudgeEndpoint::build_request, (endpoint, body, token), outcome),
    ensures
        outcome is Ok <==> token is None || is_header_text("Bearer "@ + token->0@),
        outcome matches Ok(request) ==> {
            let fields = header_fields(request.headers);
            &&& request.method@ == "POST"@
            &&& request.uri@ == endpoint.uri@
            &&& request.body@ == body@
            &&& fields["host"@] == header_bytes(endpoint.authority)
            &&& fields["content-type"@] == encode_utf8("application/json"@)
            &&& fields.contains_key("authorization"@) <==> token is Some
            &&& token matches Some(token) ==> fields["authorization"@] == encode_utf8(
                "Bearer "@ + token@,
            )
        },
{
    if let Ok(request) = outcome {
        let credential = auth_header(token_text(token))->Ok_0;
        law_judge_headers_are_exact(endpoint@.authority, credential, "authorization"@);
        law_credential_only_with_token(endpoint@.authority, token_text(token));
    }
}

} // verus!
