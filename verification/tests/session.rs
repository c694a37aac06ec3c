use eoka::session::{escape_cookie_value, sanitize_cookie_name};
use eoka::textmap::TextMap;
use eoka::{BrowserSession, BrowserState, SessionCookie};

#[test]
fn test_cookie_header() {
    let session = BrowserSession {
        cookies: vec![
            SessionCookie {
                name: "a".to_string(),
                value: "1".to_string(),
                domain: "example.com".to_string(),
                path: "/".to_string(),
                secure: false,
                http_only: false,
                same_site: None,
                expires: None,
            },
            SessionCookie {
                name: "b".to_string(),
                value: "2".to_string(),
                domain: "example.com".to_string(),
                path: "/".to_string(),
                secure: false,
                http_only: false,
                same_site: None,
                expires: None,
            },
        ],
        user_agent: String::new(),
        url: String::new(),
        extra_headers: TextMap::new(),
    };

    let header = session.cookie_header();
    assert_eq!(header, "a=1; b=2");
}

#[test]
fn test_cookies_for_domain() {
    let session = BrowserSession {
        cookies: vec![
            SessionCookie {
                name: "site1".to_string(),
                value: "v1".to_string(),
                domain: "example.com".to_string(),
                path: "/".to_string(),
                secure: false,
                http_only: false,
                same_site: None,
                expires: None,
            },
            SessionCookie {
                name: "site2".to_string(),
                value: "v2".to_string(),
                domain: "other.com".to_string(),
                path: "/".to_string(),
                secure: false,
                http_only: false,
                same_site: None,
                expires: None,
            },
            SessionCookie {
                name: "sub".to_string(),
                value: "v3".to_string(),
                domain: ".example.com".to_string(),
                path: "/".to_string(),
                secure: false,
                http_only: false,
                same_site: None,
                expires: None,
            },
        ],
        user_agent: String::new(),
        url: String::new(),
        extra_headers: TextMap::new(),
    };

    // Exact host match
    let example_cookies = session.cookies_for_domain("example.com");
    assert_eq!(example_cookies.len(), 2); // "example.com" + ".example.com"

    // Subdomain: only the domain cookie ".example.com" matches
    let sub_cookies = session.cookies_for_domain("sub.example.com");
    assert_eq!(sub_cookies.len(), 1); // only ".example.com"

    // Must NOT match "badexample.com" (no dot boundary)
    let bad_cookies = session.cookies_for_domain("badexample.com");
    assert_eq!(bad_cookies.len(), 0);

    // other.com only matches itself
    let other_cookies = session.cookies_for_domain("other.com");
    assert_eq!(other_cookies.len(), 1);
}

#[test]
fn test_cookie_header_escaping() {
    let session = BrowserSession {
        cookies: vec![SessionCookie {
            name: "tok".to_string(),
            value: "val;ue with spaces".to_string(),
            domain: "x.com".to_string(),
            path: "/".to_string(),
            secure: false,
            http_only: false,
            same_site: None,
            expires: None,
        }],
        user_agent: String::new(),
        url: String::new(),
        extra_headers: TextMap::new(),
    };
    let header = session.cookie_header();
    assert!(!header.contains(';'));
    assert!(header.contains("tok=val%3Bue%20with%20spaces"));
}

/// A session with a single cookie.
fn single_cookie(name: &str, value: &str) -> BrowserSession {
    BrowserSession {
        cookies: vec![SessionCookie {
            name: name.to_string(),
            value: value.to_string(),
            domain: "x.com".to_string(),
            path: "/".to_string(),
            secure: false,
            http_only: false,
            same_site: None,
            expires: None,
        }],
        user_agent: String::new(),
        url: String::new(),
        extra_headers: TextMap::new(),
    }
}

#[test]
fn test_cookie_header_no_crlf_injection() {
    // A value carrying a CRLF header-injection payload must be neutralized:
    // no raw CR or LF may survive into the header string.
    let session = single_cookie("sid", "x\r\nX-Injected: 1");
    let header = session.cookie_header();
    assert!(!header.contains('\r'), "raw CR leaked: {:?}", header);
    assert!(!header.contains('\n'), "raw LF leaked: {:?}", header);
    // CR and LF are percent-encoded.
    assert!(header.contains("%0D"));
    assert!(header.contains("%0A"));
    assert_eq!(header, "sid=x%0D%0AX-Injected:%201");
}

#[test]
fn test_cookie_header_value_special_chars_encoded() {
    // ';', ',', space and '%' are all percent-encoded.
    let session = single_cookie("k", "a;b,c d");
    let header = session.cookie_header();
    assert_eq!(header, "k=a%3Bb%2Cc%20d");
    assert!(!header.contains(';'));
    assert!(!header.contains(','));
    assert!(!header.contains(' '));
}

#[test]
fn test_cookie_header_percent_first_no_double_encode() {
    // '%' must be escaped first so a literal '%' becomes exactly %25 and
    // existing percent sequences in the value are not re-interpreted.
    let session = single_cookie("k", "100%");
    let header = session.cookie_header();
    assert_eq!(header, "k=100%25");

    // A literal "%3B" in the value must not be mistaken for an encoded ';'.
    let session = single_cookie("k", "%3B");
    let header = session.cookie_header();
    assert_eq!(header, "k=%253B");
}

#[test]
fn test_cookie_header_name_sanitized() {
    // Control chars, spaces and separators in the NAME must be
    // percent-encoded so they cannot appear unescaped in the header.
    let session = single_cookie("a b;c=d\ne", "1");
    let header = session.cookie_header();
    // The value part is trivially "1"; inspect the name portion.
    let name = header.strip_suffix("=1").expect("header ends with =1");
    assert!(!name.contains(' '), "raw space in name: {:?}", name);
    assert!(!name.contains(';'), "raw ; in name: {:?}", name);
    assert!(!name.contains('\n'), "raw LF in name: {:?}", name);
    // The '=' that is part of the cookie name must be escaped (%3D), so
    // there is exactly one unescaped '=' separator in the whole header.
    assert_eq!(header.matches('=').count(), 1);
    assert_eq!(name, "a%20b%3Bc%3Dd%0Ae");
}

#[test]
fn test_cookies_for_domain_host_only_vs_domain() {
    let session = BrowserSession {
        cookies: vec![
            // Host-only cookie: stored domain has no leading dot.
            SessionCookie {
                name: "host".to_string(),
                value: "1".to_string(),
                domain: "example.com".to_string(),
                path: "/".to_string(),
                secure: false,
                http_only: false,
                same_site: None,
                expires: None,
            },
            // Domain cookie: stored domain has a leading dot.
            SessionCookie {
                name: "dom".to_string(),
                value: "2".to_string(),
                domain: ".example.com".to_string(),
                path: "/".to_string(),
                secure: false,
                http_only: false,
                same_site: None,
                expires: None,
            },
        ],
        user_agent: String::new(),
        url: String::new(),
        extra_headers: TextMap::new(),
    };

    let names = |domain: &str| -> Vec<String> {
        session
            .cookies_for_domain(domain)
            .iter()
            .map(|c| c.name.clone())
            .collect()
    };

    // Exact host: both host-only and domain cookie match.
    let exact = names("example.com");
    assert!(exact.contains(&"host".to_string()));
    assert!(exact.contains(&"dom".to_string()));
    assert_eq!(exact.len(), 2);

    // Subdomain: only the domain cookie matches (host-only does NOT).
    let sub = names("sub.example.com");
    assert_eq!(sub, vec!["dom".to_string()]);

    // Suffix that is not a dot-boundary subdomain matches neither.
    let bad = names("badexample.com");
    assert!(bad.is_empty());
}

#[test]
fn a_state_keeps_storage_and_hidden_cookies() {
    let mut local_storage = TextMap::new();
    local_storage.insert("token".to_string(), "value".to_string());
    let mut session_storage = TextMap::new();
    session_storage.insert("tab".to_string(), "other".to_string());
    session_storage.insert("tab".to_string(), "value".to_string());
    let state = BrowserState {
        cookies: vec![SessionCookie {
            name: "session".to_string(),
            value: "secret".to_string(),
            domain: ".example.com".to_string(),
            path: "/".to_string(),
            secure: true,
            http_only: true,
            same_site: Some("Lax".to_string()),
            expires: None,
        }],
        local_storage,
        session_storage,
        user_agent: "Mozilla/5.0".to_string(),
        url: "https://example.com/account".to_string(),
    };
    assert!(state.cookies[0].http_only);
    assert_eq!(state.local_storage.get("token").map(String::as_str), Some("value"));
    assert_eq!(state.session_storage.get("tab").map(String::as_str), Some("value"));
    assert_eq!(state.session_storage.len(), 1);
    assert!(state.local_storage.get("tab").is_none());
    assert_eq!(state.url, "https://example.com/account");
}

#[test]
fn an_empty_session_has_an_empty_header() {
    let session = BrowserSession::new(Vec::new(), "ua".to_string(), "u".to_string());
    assert_eq!(session.cookie_header(), "");
    assert_eq!(session.user_agent, "ua");
    assert_eq!(session.url, "u");
    assert_eq!(session.extra_headers.len(), 0);
}

/// Undoes percent-encoding, byte by byte.
fn decode(text: &str) -> Vec<u8> {
    let bytes = text.as_bytes();
    let mut out = Vec::new();
    let mut i = 0;
    while i < bytes.len() {
        if bytes[i] == b'%' {
            out.push(u8::from_str_radix(&text[i + 1..i + 3], 16).unwrap());
            i += 3;
        } else {
            out.push(bytes[i]);
            i += 1;
        }
    }
    out
}

#[test]
fn encoded_cookies_decode() {
    for value in ["", "%", "%25;,\r\n é", "a=b", "\"\\\t€"] {
        assert_eq!(decode(&escape_cookie_value(value)), value.as_bytes());
    }
    for name in ["", "a b", "é=\"", "()<>@,;:\\\"/[]?={}\u{7f}~!"] {
        assert_eq!(decode(&sanitize_cookie_name(name)), name.as_bytes());
    }
    assert_eq!(sanitize_cookie_name("é"), "%C3%A9");
    assert_eq!(sanitize_cookie_name("a%b"), "a%b");
    assert_eq!(escape_cookie_value("é"), "%C3%A9");
    assert_eq!(escape_cookie_value("a\\b"), "a%5Cb");
    assert_eq!(escape_cookie_value("\"\t\u{7f}"), "%22%09%7F");
    let legal = "!#$&'()*+-./0:<=>?@AZ[]^_`az{|}~";
    assert_eq!(escape_cookie_value(legal), legal);
}

#[test]
fn a_header_comes_apart_into_its_cookies() {
    let mut session = single_cookie("a; b", "1; c=2");
    session.cookies.push(SessionCookie {
        name: "d".to_string(),
        value: "=".to_string(),
        domain: String::new(),
        path: String::new(),
        secure: false,
        http_only: false,
        same_site: None,
        expires: Some(1.5f64.to_bits()),
    });
    let header = session.cookie_header();
    let pieces: Vec<&str> = header.split("; ").collect();
    assert_eq!(pieces, vec!["a%3B%20b=1%3B%20c=2", "d=="]);
    assert!(session.cookies_for_domain("").len() == 1);
}
