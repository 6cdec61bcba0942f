use moltis_core::network_proxy::{
    extract_host_from_url, extract_port_from_url, parse_host_port, parse_request_line,
    url_to_path, ProxyError, ProxyRequest, DEFAULT_PROXY_PORT,
};

#[test]
fn test_parse_host_port() {
    let (host, port) = parse_host_port("github.com:443").unwrap();
    assert_eq!(host, "github.com");
    assert_eq!(port, 443);

    let (host, port) = parse_host_port("example.com").unwrap();
    assert_eq!(host, "example.com");
    assert_eq!(port, 443);

    let (host, port) = parse_host_port("api.example.com:8080").unwrap();
    assert_eq!(host, "api.example.com");
    assert_eq!(port, 8080);
}

#[test]
fn test_extract_host_from_url() {
    assert_eq!(
        extract_host_from_url("http://example.com/path").unwrap(),
        "example.com"
    );
    assert_eq!(
        extract_host_from_url("https://api.github.com:443/v1").unwrap(),
        "api.github.com"
    );
    assert_eq!(
        extract_host_from_url("http://localhost:8080/").unwrap(),
        "localhost"
    );
}

#[test]
fn test_extract_port_from_url() {
    assert_eq!(extract_port_from_url("http://example.com/path"), 80);
    assert_eq!(extract_port_from_url("https://example.com/path"), 443);
    assert_eq!(extract_port_from_url("http://example.com:8080/path"), 8080);
}

#[test]
fn test_url_to_path() {
    assert_eq!(
        url_to_path("http://example.com/path/to/resource"),
        "/path/to/resource"
    );
    assert_eq!(url_to_path("http://example.com"), "/");
    assert_eq!(url_to_path("https://api.github.com/v1/repos"), "/v1/repos");
}

#[test]
fn default_port_is_18791() {
    assert_eq!(DEFAULT_PROXY_PORT, 18791);
}

#[test]
fn connect_target_port_defaults_to_443_when_unparsable() {
    for (target, host, port) in [
        ("example.com:", "example.com", 443u16),
        ("example.com:http", "example.com", 443),
        ("example.com:65536", "example.com", 443),
        ("example.com:99999999999999999999", "example.com", 443),
        ("example.com:-1", "example.com", 443),
        ("example.com: 80", "example.com", 443),
        ("example.com:80 ", "example.com", 443),
        ("example.com:+", "example.com", 443),
        ("example.com:65535", "example.com", 65535),
        ("example.com:0", "example.com", 0),
        ("example.com:+8080", "example.com", 8080),
        ("example.com:00080", "example.com", 80),
        ("[::1]:8443", "[::1]", 8443),
        ("a:b:81", "a:b", 81),
        (":81", "", 81),
        ("", "", 443),
        ("٣:٤٤٣", "٣", 443),
    ] {
        assert_eq!(
            parse_host_port(target),
            Ok((host.to_string(), port)),
            "target {target:?}"
        );
        // The same as the standard library's own reading of the port.
        let std_port = target
            .rsplit_once(':')
            .map(|(_, p)| p.parse::<u16>().unwrap_or(443))
            .unwrap_or(443);
        assert_eq!(port, std_port, "target {target:?}");
    }
}

#[test]
fn url_host_port_and_path() {
    for (url, host, port, path) in [
        ("http://example.com/a/b", "example.com", 80u16, "/a/b"),
        ("https://example.com", "example.com", 443, "/"),
        ("https://example.com:8443/x?y=1", "example.com", 8443, "/x?y=1"),
        ("http://example.com:bad/x", "example.com", 80, "/x"),
        ("https://example.com:bad/x", "example.com", 443, "/x"),
        ("example.com/x", "example.com", 80, "/x"),
        ("example.com:81", "example.com", 81, "/"),
        ("ftp://example.com/x", "ftp", 80, "//example.com/x"),
        ("HTTP://example.com/x", "HTTP", 80, "//example.com/x"),
        ("http://", "", 80, "/"),
        ("http:///x", "", 80, "/x"),
        ("http://user:pw@host:99/p", "user:pw@host", 99, "/p"),
        ("http://https://x/", "https", 80, "//x/"),
        ("", "", 80, "/"),
    ] {
        assert_eq!(extract_host_from_url(url), Ok(host.to_string()), "url {url:?}");
        assert_eq!(extract_port_from_url(url), port, "url {url:?}");
        assert_eq!(url_to_path(url), path, "url {url:?}");
    }
}

#[test]
fn request_line_of_a_connect_request() {
    assert_eq!(
        parse_request_line("CONNECT github.com:443 HTTP/1.1\r\n"),
        Ok(ProxyRequest::Connect {
            domain: "github.com".to_string(),
            port: 443
        })
    );
    assert_eq!(
        parse_request_line("connect example.com"),
        Ok(ProxyRequest::Connect {
            domain: "example.com".to_string(),
            port: 443
        })
    );
    assert_eq!(
        parse_request_line("  CoNnEcT \t api.example.com:8080   HTTP/1.1 extra\n"),
        Ok(ProxyRequest::Connect {
            domain: "api.example.com".to_string(),
            port: 8080
        })
    );
}

#[test]
fn request_line_of_a_forward_request() {
    assert_eq!(
        parse_request_line("GET http://example.com/a/b HTTP/1.1\r\n"),
        Ok(ProxyRequest::Forward {
            method: "GET".to_string(),
            path: "/a/b".to_string(),
            domain: "example.com".to_string(),
            port: 80
        })
    );
    assert_eq!(
        parse_request_line("post https://Example.com"),
        Ok(ProxyRequest::Forward {
            method: "post".to_string(),
            path: "/".to_string(),
            domain: "Example.com".to_string(),
            port: 443
        })
    );
    assert_eq!(
        parse_request_line("CONNECTX host:1 HTTP/1.1"),
        Ok(ProxyRequest::Forward {
            method: "CONNECTX".to_string(),
            path: "/".to_string(),
            domain: "host".to_string(),
            port: 1
        })
    );
}

#[test]
fn request_line_errors() {
    for line in ["", "\r\n", "   \t  \n", "\u{3000}"] {
        assert_eq!(parse_request_line(line), Err(ProxyError::EmptyRequest));
    }
    assert_eq!(
        parse_request_line("GET\r\n"),
        Err(ProxyError::MalformedRequestLine("GET".to_string()))
    );
    assert_eq!(
        parse_request_line("  CONNECT  \r\n"),
        Err(ProxyError::MalformedRequestLine("  CONNECT".to_string()))
    );
}

#[test]
fn error_messages() {
    assert_eq!(ProxyError::EmptyRequest.message(), "empty request");
    assert_eq!(
        ProxyError::MalformedRequestLine("GET".to_string()).message(),
        "malformed request line: GET"
    );
    assert_eq!(ProxyError::UnexpectedEvent.message(), "unexpected event");
}
