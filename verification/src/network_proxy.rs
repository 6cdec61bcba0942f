//! Parsing of what a proxy client sends first: the CONNECT target, or the
//! absolute URL of a forward-proxy request, and the request line itself.

use crate::text::{
    after_first_token, chars_of, find_first, find_last, first_index, first_token, has_prefix_at,
    last_index, lower, parse_u16, read_u16, same_chars, skip_spaces, slice_of, string_of,
    to_lower, token_end, trim_end, trim_end_bound, trim_start,
};
use vstd::prelude::*;

verus! {

/// The default port the proxy listens on inside the trusted network.
pub const DEFAULT_PROXY_PORT: u16 = 18791;

/// Why a connection was given up before any response was written.
#[derive(Debug, Clone, PartialEq, Eq)]
pub enum ProxyError {
    /// The first line was empty, or held only white space.
    EmptyRequest,
    /// The first line held fewer than two tokens; the line is kept, without
    /// its trailing white space.
    MalformedRequestLine(String),
    /// An event arrived that the connection was not waiting for.
    UnexpectedEvent,
}

/// The mathematical value of a [`ProxyError`].
pub ghost enum ProxyErrorSpec {
    EmptyRequest,
    MalformedRequestLine(Seq<char>),
    UnexpectedEvent,
}

impl View for ProxyError {
    type V = ProxyErrorSpec;

    open spec fn view(&self) -> ProxyErrorSpec {
        match self {
            ProxyError::EmptyRequest => ProxyErrorSpec::EmptyRequest,
            ProxyError::MalformedRequestLine(l) => ProxyErrorSpec::MalformedRequestLine(l@),
            ProxyError::UnexpectedEvent => ProxyErrorSpec::UnexpectedEvent,
        }
    }
}

impl ProxyErrorSpec {
    /// The error in words.
    pub open spec fn message(self) -> Seq<char> {
        match self {
            ProxyErrorSpec::EmptyRequest => "empty request"@,
            ProxyErrorSpec::MalformedRequestLine(l) => "malformed request line: "@ + l,
            ProxyErrorSpec::UnexpectedEvent => "unexpected event"@,
        }
    }
}

impl ProxyError {
    /// The error in words.
    pub fn message(&self) -> (s: String)
        ensures
            s@ == self@.message(),
    {
        match self {
            ProxyError::EmptyRequest => "empty request".to_owned(),
            ProxyError::MalformedRequestLine(l) => {
                let mut out = chars_of("malformed request line: ");
                crate::text::push_all(&mut out, &chars_of(l.as_str()));
                string_of(&out)
            },
            ProxyError::UnexpectedEvent => "unexpected event".to_owned(),
        }
    }
}

/// What a client asks the proxy for.
#[derive(Debug, Clone, PartialEq, Eq)]
pub enum ProxyRequest {
    /// `CONNECT host[:port]`: a raw tunnel to `domain:port`.
    Connect { domain: String, port: u16 },
    /// `<METHOD> <absolute URL>`: a plain HTTP request to forward to
    /// `domain:port` with the URL's path.
    Forward { method: String, path: String, domain: String, port: u16 },
}

/// The mathematical value of a [`ProxyRequest`].
pub ghost enum ProxyRequestSpec {
    Connect { domain: Seq<char>, port: u16 },
    Forward { method: Seq<char>, path: Seq<char>, domain: Seq<char>, port: u16 },
}

impl View for ProxyRequest {
    type V = ProxyRequestSpec;

    open spec fn view(&self) -> ProxyRequestSpec {
        match self {
            ProxyRequest::Connect { domain, port } => ProxyRequestSpec::Connect {
                domain: domain@,
                port: *port,
            },
            ProxyRequest::Forward { method, path, domain, port } => ProxyRequestSpec::Forward {
                method: method@,
                path: path@,
                domain: domain@,
                port: *port,
            },
        }
    }
}

impl ProxyRequestSpec {
    /// The domain that the policy is asked about.
    pub open spec fn domain(self) -> Seq<char> {
        match self {
            ProxyRequestSpec::Connect { domain, .. } => domain,
            ProxyRequestSpec::Forward { domain, .. } => domain,
        }
    }

    /// The upstream port.
    pub open spec fn port(self) -> u16 {
        match self {
            ProxyRequestSpec::Connect { port, .. } => port,
            ProxyRequestSpec::Forward { port, .. } => port,
        }
    }
}

/// The scheme prefix `http://`.
pub open spec fn http_scheme() -> Seq<char> {
    seq!['h', 't', 't', 'p', ':', '/', '/']
}

/// The scheme prefix `https://`.
pub open spec fn https_scheme() -> Seq<char> {
    seq!['h', 't', 't', 'p', 's', ':', '/', '/']
}

/// The URL without its `http://` or `https://` prefix, if it has one.
pub open spec fn after_scheme(url: Seq<char>) -> Seq<char> {
    if http_scheme().is_prefix_of(url) {
        url.skip(7)
    } else if https_scheme().is_prefix_of(url) {
        url.skip(8)
    } else {
        url
    }
}

/// The `host[:port]` part of a URL: what stands between the scheme and the
/// next `/`.
pub open spec fn authority(url: Seq<char>) -> Seq<char> {
    let rest = after_scheme(url);
    rest.take(first_index(rest, '/'))
}

/// The port that a `host:port` pair names after its last `:`, or
/// `default` where there is no `:` or no number follows it.
pub open spec fn port_or(host_port: Seq<char>, default: u16) -> u16 {
    let k = last_index(host_port, ':');
    if k >= 0 {
        match parse_u16(host_port.skip(k + 1)) {
            Some(p) => p,
            None => default,
        }
    } else {
        default
    }
}

/// The host of a `host[:port]` pair: what stands before its last `:`, or
/// all of it where there is none.
pub open spec fn host_part(host_port: Seq<char>) -> Seq<char> {
    let k = last_index(host_port, ':');
    if k >= 0 {
        host_port.take(k)
    } else {
        host_port
    }
}

/// Host and port of a CONNECT target; the port is 443 where it is left out
/// or is no number.
pub open spec fn host_port_of(target: Seq<char>) -> (Seq<char>, u16) {
    (host_part(target), port_or(target, 443))
}

/// The host of an absolute URL.
pub open spec fn host_of_url(url: Seq<char>) -> Seq<char> {
    host_part(authority(url))
}

/// The port of an absolute URL: the one it names, else 443 for an
/// `https://` URL and 80 for any other.
pub open spec fn port_of_url(url: Seq<char>) -> u16 {
    port_or(
        authority(url),
        if https_scheme().is_prefix_of(url) {
            443
        } else {
            80
        },
    )
}

/// The path of an absolute URL: what follows the authority, or `/` where
/// nothing does.
pub open spec fn path_of_url(url: Seq<char>) -> Seq<char> {
    let rest = after_scheme(url);
    let k = first_index(rest, '/');
    if k < rest.len() {
        rest.skip(k)
    } else {
        seq!['/']
    }
}

/// What a request line asks for. The line is read without its trailing
/// white space; its first two white-space separated tokens are the method
/// and the target. `CONNECT`, in any case, asks for a tunnel.
pub open spec fn request_of_line(line: Seq<char>) -> Result<ProxyRequestSpec, ProxyErrorSpec> {
    let trimmed = trim_end(line);
    let method = first_token(trimmed);
    let target = first_token(after_first_token(trimmed));
    if trimmed.len() == 0 {
        Err(ProxyErrorSpec::EmptyRequest)
    } else if target.len() == 0 {
        Err(ProxyErrorSpec::MalformedRequestLine(trimmed))
    } else if lower(method) == "connect"@ {
        Ok(
            ProxyRequestSpec::Connect {
                domain: host_port_of(target).0,
                port: host_port_of(target).1,
            },
        )
    } else {
        Ok(
            ProxyRequestSpec::Forward {
                method,
                path: path_of_url(target),
                domain: host_of_url(target),
                port: port_of_url(target),
            },
        )
    }
}

/// Start of what follows the scheme prefix in `url`, and whether the
/// prefix is `https://`.
fn scheme_end(url: &[char]) -> (r: (usize, bool))
    ensures
        r.0 <= url.len(),
        url@.skip(r.0 as int) == after_scheme(url@),
        r.1 == https_scheme().is_prefix_of(url@),
{
    let mut http: Vec<char> = Vec::new();
    http.push('h');
    http.push('t');
    http.push('t');
    http.push('p');
    let mut https: Vec<char> = http.clone();
    https.push('s');
    http.push(':');
    http.push('/');
    http.push('/');
    https.push(':');
    https.push('/');
    https.push('/');
    assert(http@ =~= http_scheme());
    assert(https@ =~= https_scheme());
    assert(url@.skip(0) == url@);
    let is_http = has_prefix_at(url, 0, &http);
    let is_https = has_prefix_at(url, 0, &https);
    if is_http {
        assert(url@.subrange(0, 7).len() == 7);
        (7, is_https)
    } else if is_https {
        assert(url@.subrange(0, 8).len() == 8);
        (8, true)
    } else {
        (0, false)
    }
}

/// The bounds of the authority of `url`, and whether the URL is an
/// `https://` one.
fn authority_bounds(url: &[char]) -> (r: (usize, usize, bool))
    ensures
        r.0 <= r.1 <= url.len(),
        url@.skip(r.0 as int) == after_scheme(url@),
        r.1 - r.0 == first_index(after_scheme(url@), '/'),
        url@.subrange(r.0 as int, r.1 as int) == authority(url@),
        r.2 == https_scheme().is_prefix_of(url@),
{
    let (start, https) = scheme_end(url);
    assert(url@.subrange(start as int, url.len() as int) == url@.skip(start as int));
    let k = find_first(url, start, url.len(), '/');
    assert(url@.skip(start as int).take(k as int) == url@.subrange(
        start as int,
        start + k as int,
    ));
    (start, start + k, https)
}

/// Host and port of `v[from..to]`, read as `host[:port]`.
fn split_host_port(v: &[char], from: usize, to: usize, default: u16) -> (r: (Vec<char>, u16))
    requires
        from <= to <= v.len(),
    ensures
        r.0@ == host_part(v@.subrange(from as int, to as int)),
        r.1 == port_or(v@.subrange(from as int, to as int), default),
{
    let ghost s = v@.subrange(from as int, to as int);
    match find_last(v, from, to, ':') {
        Some(k) => {
            assert(s.take(k as int) == v@.subrange(from as int, from + k as int));
            assert(s.skip(k + 1) == v@.subrange(from + k + 1 as int, to as int));
            let host = slice_of(v, from, from + k);
            let port = match read_u16(v, from + k + 1, to) {
                Some(p) => p,
                None => default,
            };
            (host, port)
        },
        None => { (slice_of(v, from, to), default) },
    }
}

/// Parses `host:port` from a CONNECT target. The port is 443 where it is
/// left out or is no number. Never fails.
pub fn parse_host_port(target: &str) -> (r: Result<(String, u16), ProxyError>)
    ensures
        r matches Ok(pair) && pair.0@ == host_port_of(target@).0 && pair.1 == host_port_of(
            target@,
        ).1,
{
    let v = chars_of(target);
    assert(v@.subrange(0, v.len() as int) == v@);
    let (host, port) = split_host_port(&v, 0, v.len(), 443);
    Ok((string_of(&host), port))
}

/// Extracts the host name from an absolute HTTP URL. Never fails.
pub fn extract_host_from_url(url: &str) -> (r: Result<String, ProxyError>)
    ensures
        r matches Ok(host) && host@ == host_of_url(url@),
{
    let v = chars_of(url);
    let (start, end, _https) = authority_bounds(&v);
    let (host, _port) = split_host_port(&v, start, end, 80);
    Ok(string_of(&host))
}

/// Extracts the port from an absolute HTTP URL: the one it names, else 443
/// for `https://` and 80 otherwise.
pub fn extract_port_from_url(url: &str) -> (port: u16)
    ensures
        port == port_of_url(url@),
{
    let v = chars_of(url);
    let (start, end, https) = authority_bounds(&v);
    let default: u16 = if https {
        443
    } else {
        80
    };
    let (_host, port) = split_host_port(&v, start, end, default);
    port
}

/// Converts an absolute URL to the path that is sent upstream.
pub fn url_to_path(url: &str) -> (path: String)
    ensures
        path@ == path_of_url(url@),
{
    let v = chars_of(url);
    let (start, end, _https) = authority_bounds(&v);
    if end < v.len() {
        assert(v@.skip(start as int).skip(end - start) == v@.subrange(
            end as int,
            v.len() as int,
        ));
        string_of(&slice_of(&v, end, v.len()))
    } else {
        let mut out: Vec<char> = Vec::new();
        out.push('/');
        assert(out@ =~= seq!['/']);
        string_of(&out)
    }
}

/// Reads the request line of a connection: tells a CONNECT request from a
/// forward-proxy request and extracts the upstream host and port, or says
/// why the line is no request.
pub fn parse_request_line(line: &str) -> (r: Result<ProxyRequest, ProxyError>)
    ensures
        match r {
            Ok(request) => request_of_line(line@) == Ok::<ProxyRequestSpec, ProxyErrorSpec>(
                request@,
            ),
            Err(error) => request_of_line(line@) == Err::<ProxyRequestSpec, ProxyErrorSpec>(
                error@,
            ),
        },
{
    let v = chars_of(line);
    assert(v@.subrange(0, v.len() as int) == v@);
    let end = trim_end_bound(&v, 0, v.len());
    let trimmed = slice_of(&v, 0, end);
    if trimmed.len() == 0 {
        return Err(ProxyError::EmptyRequest);
    }
    assert(trimmed@.skip(0) == trimmed@);
    let m0 = skip_spaces(&trimmed, 0);
    let m1 = token_end(&trimmed, m0);
    let t0 = skip_spaces(&trimmed, m1);
    let t1 = token_end(&trimmed, t0);
    proof {
        let ts = trim_start(trimmed@);
        assert(ts == trimmed@.skip(m0 as int));
        assert(first_token(trimmed@) == trimmed@.subrange(m0 as int, m1 as int)) by {
            assert(ts.take(m1 - m0) =~= trimmed@.subrange(m0 as int, m1 as int));
        }
        let rest = after_first_token(trimmed@);
        assert(rest == trimmed@.skip(m1 as int)) by {
            assert(ts.skip(m1 - m0) =~= trimmed@.skip(m1 as int));
        }
        assert(first_token(rest) == trimmed@.subrange(t0 as int, t1 as int)) by {
            assert(trimmed@.skip(t0 as int).take(t1 - t0) =~= trimmed@.subrange(
                t0 as int,
                t1 as int,
            ));
        }
    }
    if t1 == t0 {
        return Err(ProxyError::MalformedRequestLine(string_of(&trimmed)));
    }
    let method = slice_of(&trimmed, m0, m1);
    let target = slice_of(&trimmed, t0, t1);
    let connect = chars_of("connect");
    if same_chars(&to_lower(&method), &connect) {
        assert(target@.subrange(0, target.len() as int) == target@);
        let (host, port) = split_host_port(&target, 0, target.len(), 443);
        Ok(ProxyRequest::Connect { domain: string_of(&host), port })
    } else {
        let (start, end, https) = authority_bounds(&target);
        let default: u16 = if https {
            443
        } else {
            80
        };
        let (host, port) = split_host_port(&target, start, end, default);
        let path = if end < target.len() {
            assert(target@.skip(start as int).skip(end - start) == target@.subrange(
                end as int,
                target.len() as int,
            ));
            slice_of(&target, end, target.len())
        } else {
            let mut out: Vec<char> = Vec::new();
            out.push('/');
            assert(out@ =~= seq!['/']);
            out
        };
        Ok(
            ProxyRequest::Forward {
                method: string_of(&method),
                path: string_of(&path),
                domain: string_of(&host),
                port,
            },
        )
    }
}

} // verus!
