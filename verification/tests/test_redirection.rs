use attohttpc::compressed_reader::Method;
use attohttpc::error::{ClientError, ErrorKind, InvalidResponseKind};
use attohttpc::response::{parse_response, Response};
use attohttpc::redirect::{
    decide, header_text, Action, Decision, RedirectState, DEFAULT_MAX_REDIRECTIONS,
};

/// Plays a server that answers every request with a 301 to "/".
fn send(url: &str, max_redirections: u32, follow_redirects: bool) -> Result<(Response, u32), ClientError> {
    let answer = b"HTTP/1.1 301 Moved Permanently\r\nLocation: /\r\nContent-Length: 0\r\n\r\n";
    let mut state = RedirectState::start(Method::Get, url.to_string(), max_redirections, follow_redirects)?;
    let mut requests: u32 = 0;
    loop {
        requests += 1;
        assert!(requests < 100);
        let response = parse_response(answer, state.method)?;
        let location = response.location();
        match state.on_response(response.status(), location.as_deref())? {
            Action::Return => return Ok((response, requests)),
            Action::Send(next) => assert_eq!(next, "http://localhost:55123/"),
        }
    }
}

#[test]
fn test_redirection_default() {
    assert_eq!(DEFAULT_MAX_REDIRECTIONS, 5);
    match send("http://localhost:55123/", DEFAULT_MAX_REDIRECTIONS, true) {
        Err(err) => match err.kind() {
            ErrorKind::TooManyRedirections => (),
            _ => panic!(),
        },
        _ => panic!(),
    }
}

#[test]
fn test_redirection_0() {
    match send("http://localhost:55123/", 0, true) {
        Err(err) => match err.kind() {
            ErrorKind::TooManyRedirections => (),
            _ => panic!(),
        },
        _ => panic!(),
    }
}

#[test]
fn test_redirection_disallowed() {
    let (resp, requests) = send("http://localhost:55123/", DEFAULT_MAX_REDIRECTIONS, false).unwrap();

    assert!((300..400).contains(&resp.status()));
    assert_eq!(resp.status(), 301);
    assert_eq!(resp.location(), Some(b"/".to_vec()));
    assert_eq!(requests, 1);
}

#[test]
fn relative_location_is_resolved_and_method_kept() {
    let mut state =
        RedirectState::start(Method::Post, "http://example.com/a/b?x=1".to_string(), 2, true).unwrap();
    match state.on_response(302, Some(b"c/d")).unwrap() {
        Action::Send(next) => assert_eq!(next, "http://example.com/a/c/d"),
        Action::Return => panic!(),
    }
    assert_eq!(state.url, "http://example.com/a/c/d");
    assert_eq!(state.remaining, 1);
    assert_eq!(state.method, Method::Post);
    match state.on_response(307, Some(b"https://other.test/z")).unwrap() {
        Action::Send(next) => assert_eq!(next, "https://other.test/z"),
        Action::Return => panic!(),
    }
    assert_eq!(state.remaining, 0);
    assert!(matches!(state.on_response(200, None).unwrap(), Action::Return));
    assert_eq!(state.url, "https://other.test/z");
}

#[test]
fn budget_of_k_allows_k_redirections() {
    for codes in [[301u16, 302, 303], [307, 308, 301]] {
        let mut state = RedirectState::start(Method::Get, "http://h.test/".to_string(), 3, true).unwrap();
        for code in codes {
            assert!(matches!(state.on_response(code, Some(b"/n")).unwrap(), Action::Send(_)));
        }
        assert!(matches!(state.on_response(200, None).unwrap(), Action::Return));

        let mut short = RedirectState::start(Method::Get, "http://h.test/".to_string(), 2, true).unwrap();
        assert!(short.on_response(codes[0], Some(b"/n")).is_ok());
        assert!(short.on_response(codes[1], Some(b"/n")).is_ok());
        let err = short.on_response(codes[2], Some(b"/n")).unwrap_err();
        assert!(matches!(err.kind(), ErrorKind::TooManyRedirections));
        assert_eq!(short.remaining, 0);
        assert_eq!(short.url, "http://h.test/n");
    }
}

#[test]
fn redirection_without_location_is_returned() {
    let mut state = RedirectState::start(Method::Get, "http://h.test/".to_string(), 3, true).unwrap();
    assert!(matches!(state.on_response(304, None).unwrap(), Action::Return));
    assert_eq!(state.remaining, 3);
}

#[test]
fn location_that_is_not_text_is_refused() {
    let mut state = RedirectState::start(Method::Get, "http://h.test/".to_string(), 3, true).unwrap();
    let err = state.on_response(301, Some(b"/caf\xc3\xa9")).unwrap_err();
    assert!(matches!(err.kind(), ErrorKind::InvalidResponse(InvalidResponseKind::LocationHeader)));
    let err = state.on_response(301, Some(b"")).unwrap_err();
    assert!(matches!(err.kind(), ErrorKind::InvalidResponse(InvalidResponseKind::LocationHeader)));
    assert_eq!(state.remaining, 3);
}

#[test]
fn location_that_does_not_resolve_is_refused() {
    let mut state = RedirectState::start(Method::Get, "http://h.test/".to_string(), 3, true).unwrap();
    let err = state.on_response(301, Some(b"http://[::1")).unwrap_err();
    assert!(matches!(err.kind(), ErrorKind::InvalidResponse(InvalidResponseKind::RedirectionUrl)));
    assert_eq!(state.url, "http://h.test/");
}

#[test]
fn connect_is_refused_at_start() {
    let err = RedirectState::start(Method::Connect, "http://h.test/".to_string(), 3, true).unwrap_err();
    assert!(matches!(err.kind(), ErrorKind::ConnectNotSupported));
    assert_eq!(err.message(), "CONNECT is not supported");
}

#[test]
fn decide_on_given_resolution() {
    assert!(matches!(decide(true, 1, 200, Some(b"/x"), true, Some("http://h/x".to_string())), Decision::Return));
    assert!(matches!(decide(false, 1, 301, Some(b"/x"), true, Some("http://h/x".to_string())), Decision::Return));
    assert!(matches!(decide(true, 1, 399, None, true, None), Decision::Return));
    assert!(matches!(decide(true, 1, 400, Some(b"/x"), true, None), Decision::Return));
    assert!(matches!(
        decide(true, 1, 301, Some(b"\x01"), true, Some("http://h/x".to_string())),
        Decision::Invalid(InvalidResponseKind::LocationHeader)
    ));
    assert!(matches!(
        decide(true, 1, 301, Some(b"/x"), true, None),
        Decision::Invalid(InvalidResponseKind::RedirectionUrl)
    ));
    assert!(matches!(
        decide(true, 0, 301, Some(b"/x"), true, Some("http://h/x".to_string())),
        Decision::TooManyRedirections
    ));
    match decide(true, 1, 300, Some(b"/x"), true, Some("http://h/x".to_string())) {
        Decision::Follow(url) => assert_eq!(url, "http://h/x"),
        _ => panic!(),
    }
}

#[test]
fn header_text_is_visible_ascii() {
    assert!(header_text(b"/a b\tc~"));
    assert!(!header_text(b""));
    assert!(!header_text(b"a\x7f"));
    assert!(!header_text(b"a\r\n"));
    assert!(!header_text(b"\x80"));
}

#[test]
fn base_that_is_no_url_is_refused() {
    let err = RedirectState::start(Method::Get, "not a url".to_string(), 3, true).unwrap_err();
    assert!(matches!(err.kind(), ErrorKind::InvalidBaseUrl));
    let mut state = RedirectState {
        method: Method::Get,
        url: "not a url".to_string(),
        remaining: 3,
        follow: true,
    };
    let err = state.on_response(301, Some(b"/x")).unwrap_err();
    assert!(matches!(err.kind(), ErrorKind::InvalidBaseUrl));
    assert_eq!(state.remaining, 3);
    assert!(matches!(state.on_response(200, Some(b"/x")).unwrap(), Action::Return));
    assert!(matches!(
        decide(true, 1, 301, Some(b"/x"), false, None),
        Decision::InvalidBaseUrl
    ));
    assert!(matches!(
        decide(true, 1, 301, Some(b""), false, None),
        Decision::Invalid(InvalidResponseKind::LocationHeader)
    ));
}
