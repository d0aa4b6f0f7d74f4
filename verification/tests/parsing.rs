use attohttpc::body_reader::{BodyReader, BodyState};
use attohttpc::compressed_reader::{CompressedReader, Method};
use attohttpc::error::{ClientError, ErrorKind, InvalidResponseKind};
use attohttpc::framing::{
    decode_chunked, framing_mode, parse_chunk_size, parse_number, read_body, skip_trailers, Framing,
};
use attohttpc::headers::{header_values, value_has_item, values_have_item};
use attohttpc::parse::{next_line, parse_head, parse_header_line, parse_status_line, Header};
use attohttpc::response::{parse_response, response_end, Response};
use attohttpc::text::{eq_ignore_case, index_of, lower_bytes, trim};

fn header(name: &str, value: &str) -> Header {
    Header { name: name.as_bytes().to_vec(), value: value.as_bytes().to_vec() }
}

fn position(resp: &Response) -> usize {
    match &resp.body {
        CompressedReader::Plain(b) => b.pos,
        _ => panic!("not a plain body"),
    }
}

fn kind_of(err: ClientError) -> InvalidResponseKind {
    match err.into_kind() {
        ErrorKind::InvalidResponse(kind) => kind,
        other => panic!("unexpected {:?}", other),
    }
}

#[test]
fn hello_response() {
    let mut resp = parse_response(b"HTTP/1.1 200 OK\r\nContent-Length: 5\r\n\r\nHello", Method::Get).unwrap();
    assert_eq!(resp.status(), 200);
    assert_eq!(resp.status.major, 1);
    assert_eq!(resp.status.minor, 1);
    assert_eq!(resp.status.reason, b"OK".to_vec());
    assert_eq!(resp.headers, vec![header("content-length", "5")]);
    assert_eq!(position(&resp), 38);
    assert_eq!(resp.body.read(64).unwrap(), b"Hello".to_vec());
    assert_eq!(resp.body.read(64).unwrap(), Vec::<u8>::new());
    assert_eq!(resp.body.read(64).unwrap(), Vec::<u8>::new());
    assert_eq!(position(&resp), 43);
}

#[test]
fn wikipedia_chunks() {
    let wire = b"4\r\nWiki\r\n5\r\npedia\r\n0\r\n\r\n";
    let (body, end) = decode_chunked(wire, 0).unwrap();
    assert_eq!(body, b"Wikipedia".to_vec());
    assert_eq!(end, wire.len());
}

#[test]
fn content_length_stops_at_the_declared_count() {
    let bytes = b"HTTP/1.1 200 OK\r\nContent-Length: 3\r\n\r\nabcHTTP/1.1 404 Not Found\r\n\r\n";
    let mut resp = parse_response(bytes, Method::Get).unwrap();
    assert_eq!(resp.body.read(1).unwrap(), b"a".to_vec());
    assert_eq!(resp.body.read(1).unwrap(), b"b".to_vec());
    assert_eq!(resp.body.read(5).unwrap(), b"c".to_vec());
    assert_eq!(resp.body.read(5).unwrap(), Vec::<u8>::new());
    assert_eq!(position(&resp), 41);
    let next = parse_response(&bytes[position(&resp)..], Method::Get).unwrap();
    assert_eq!(next.status(), 404);
    assert_eq!(next.status.reason, b"Not Found".to_vec());
}

#[test]
fn content_length_short_body_fails() {
    let mut resp = parse_response(b"HTTP/1.1 200 OK\r\nContent-Length: 6\r\n\r\nHello", Method::Get).unwrap();
    assert_eq!(kind_of(resp.body.read(3).unwrap_err()), InvalidResponseKind::ContentLength);
    assert_eq!(kind_of(resp.body.read_to_end().unwrap_err()), InvalidResponseKind::ContentLength);
    assert_eq!(position(&resp), 38);
    assert_eq!(read_body(Framing::ContentLength(2), b"a", 0), Err(InvalidResponseKind::ContentLength));
    assert_eq!(read_body(Framing::ContentLength(0), b"a", 1), Ok((vec![], 1)));
}

#[test]
fn content_length_must_be_a_number() {
    for bad in ["", "abc", "-1", "1 2", "18446744073709551616", "0x10"] {
        let hs = vec![header("content-length", bad)];
        assert_eq!(framing_mode(&hs), Err(InvalidResponseKind::ContentLength));
    }
    assert_eq!(
        framing_mode(&vec![header("content-length", "18446744073709551615")]),
        Ok(Framing::ContentLength(u64::MAX))
    );
    assert_eq!(framing_mode(&vec![header("content-length", "007")]), Ok(Framing::ContentLength(7)));
}

#[test]
fn framing_precedence() {
    let hs = vec![header("content-length", "5"), header("transfer-encoding", "gzip, Chunked")];
    assert_eq!(framing_mode(&hs), Ok(Framing::Chunked));
    let hs = vec![header("transfer-encoding", "gzip"), header("content-length", "5"), header("content-length", "9")];
    assert_eq!(framing_mode(&hs), Ok(Framing::ContentLength(5)));
    assert_eq!(framing_mode(&vec![header("server", "x")]), Ok(Framing::CloseDelimited));
    assert_eq!(framing_mode(&vec![]), Ok(Framing::CloseDelimited));
}

#[test]
fn close_delimited_reads_to_the_end() {
    let mut resp = parse_response(b"HTTP/1.0 200 OK\r\n\r\nall of it", Method::Get).unwrap();
    assert_eq!(resp.status.minor, 0);
    assert_eq!(resp.body.read(3).unwrap(), b"all".to_vec());
    assert_eq!(resp.body.read_to_end().unwrap(), b" of it".to_vec());
    assert_eq!(resp.body.read(3).unwrap(), Vec::<u8>::new());
    assert_eq!(position(&resp), 28);
    assert_eq!(read_body(Framing::CloseDelimited, b"", 0), Ok((vec![], 0)));
}

#[test]
fn chunked_response_with_extensions_and_trailers() {
    let bytes = b"HTTP/1.1 200 OK\r\nTransfer-Encoding: chunked\r\n\r\n4;ext=1\r\nWiki\r\nA\r\n0123456789\r\n0\r\nX-Trailer: 1\r\n\r\nrest";
    let mut resp = parse_response(bytes, Method::Get).unwrap();
    assert_eq!(resp.body.read_to_end().unwrap(), b"Wiki0123456789".to_vec());
    assert_eq!(&bytes[position(&resp)..], b"rest");
}

#[test]
fn chunk_size_errors() {
    assert_eq!(decode_chunked(b"zz\r\nab\r\n0\r\n\r\n", 0), Err(InvalidResponseKind::ChunkSize));
    assert_eq!(decode_chunked(b"\r\n", 0), Err(InvalidResponseKind::ChunkSize));
    assert_eq!(decode_chunked(b"4", 0), Err(InvalidResponseKind::ChunkSize));
    assert_eq!(decode_chunked(b"", 0), Err(InvalidResponseKind::ChunkSize));
    assert_eq!(decode_chunked(b"10000000000000000\r\n", 0), Err(InvalidResponseKind::ChunkSize));
    assert_eq!(parse_chunk_size(b"1f"), Some(31));
    assert_eq!(parse_chunk_size(b" 1F ; name=value"), Some(31));
    assert_eq!(parse_chunk_size(b"ffffffffffffffff"), Some(u64::MAX));
    assert_eq!(parse_chunk_size(b";1f"), None);
    assert_eq!(parse_chunk_size(b"1g"), None);
}

#[test]
fn chunk_errors() {
    assert_eq!(decode_chunked(b"4\r\nWikiXX5\r\npedia\r\n0\r\n\r\n", 0), Err(InvalidResponseKind::Chunk));
    assert_eq!(decode_chunked(b"4\r\nWiki\n\n0\r\n\r\n", 0), Err(InvalidResponseKind::Chunk));
    assert_eq!(decode_chunked(b"4\r\nWi", 0), Err(InvalidResponseKind::Chunk));
    assert_eq!(decode_chunked(b"4\r\nWiki\r", 0), Err(InvalidResponseKind::Chunk));
    assert_eq!(decode_chunked(b"0\r\nno colon\r\n\r\n", 0), Err(InvalidResponseKind::Chunk));
    assert_eq!(decode_chunked(b"0\r\n", 0), Err(InvalidResponseKind::Chunk));
    assert_eq!(decode_chunked(b"ffffffffffffffff\r\nab\r\n", 0), Err(InvalidResponseKind::Chunk));
    let mut resp = parse_response(b"HTTP/1.1 200 OK\r\nTransfer-Encoding: chunked\r\n\r\n2\r\nabc\r\n", Method::Get).unwrap();
    assert_eq!(kind_of(resp.body.read(1).unwrap_err()), InvalidResponseKind::Chunk);
}

#[test]
fn trailers_are_consumed() {
    assert_eq!(skip_trailers(b"\r\nnext", 0), Ok(2));
    assert_eq!(skip_trailers(b"A: 1\r\nB:2\n\nnext", 0), Ok(11));
    assert_eq!(skip_trailers(b"A: 1\r\n", 0), Err(InvalidResponseKind::Chunk));
    assert_eq!(decode_chunked(b"xx0\r\nA: 1\r\n\r\n", 2), Ok((vec![], 13)));
}

#[test]
fn status_lines() {
    let st = parse_status_line(b"HTTP/1.1 404 Not Found").unwrap();
    assert_eq!((st.major, st.minor, st.code), (1, 1, 404));
    assert_eq!(st.reason, b"Not Found".to_vec());
    let st = parse_status_line(b"HTTP/2.0 204").unwrap();
    assert_eq!((st.major, st.minor, st.code), (2, 0, 204));
    assert_eq!(st.reason, Vec::<u8>::new());
    assert_eq!(parse_status_line(b"HTTP/1.1 599 ").unwrap().code, 599);
    assert_eq!(parse_status_line(b"HTTP/1.1 100 Continue").unwrap().code, 100);
    for bad in ["", "HTTP/1.1", "HTTP/1.1200 OK", "HTTX/1.1 200 OK", "HTTP/11 200 OK", "http/1.1 200 OK", "HTTP/1.x 200 OK", " HTTP/1.1 200 OK"] {
        assert_eq!(parse_status_line(bad.as_bytes()), Err(InvalidResponseKind::StatusLine), "{}", bad);
    }
    for bad in ["HTTP/1.1 ", "HTTP/1.1 20 OK", "HTTP/1.1 2000 OK", "HTTP/1.1 abc OK", "HTTP/1.1 099 OK", "HTTP/1.1 600 OK", "HTTP/1.1  200 OK", "HTTP/1.1 +20 OK"] {
        assert_eq!(parse_status_line(bad.as_bytes()), Err(InvalidResponseKind::StatusCode), "{}", bad);
    }
}

#[test]
fn header_lines() {
    assert_eq!(parse_header_line(b"Content-Type:  text/html ; q=1 \t"), Ok(header("content-type", "text/html ; q=1")));
    assert_eq!(parse_header_line(b"X-Empty:"), Ok(header("x-empty", "")));
    assert_eq!(parse_header_line(b"Host : a:b"), Ok(header("host", "a:b")));
    for bad in ["", "no colon here", ": value", "  : value", " folded: line", "\tfolded"] {
        assert_eq!(parse_header_line(bad.as_bytes()), Err(InvalidResponseKind::Header), "{}", bad);
    }
}

#[test]
fn heads() {
    let h = parse_head(b"HTTP/1.1 200 OK\nA: 1\r\nB: 2\nA: 3\r\n\r\nbody").unwrap();
    assert_eq!(h.status.code, 200);
    assert_eq!(h.headers, vec![header("a", "1"), header("b", "2"), header("a", "3")]);
    assert_eq!(h.body_start, 35);
    assert_eq!(header_values(&h.headers, b"A"), vec![b"1".to_vec(), b"3".to_vec()]);
    assert_eq!(header_values(&h.headers, b"c"), Vec::<Vec<u8>>::new());
    assert_eq!(parse_head(b"HTTP/1.1 200 OK"), Err(InvalidResponseKind::StatusLine));
    assert_eq!(parse_head(b""), Err(InvalidResponseKind::StatusLine));
    assert_eq!(parse_head(b"HTTP/1.1 20x OK\r\n\r\n"), Err(InvalidResponseKind::StatusCode));
    assert_eq!(parse_head(b"HTTP/1.1 200 OK\r\nA: 1\r\n"), Err(InvalidResponseKind::Header));
    assert_eq!(parse_head(b"HTTP/1.1 200 OK\r\nA: 1"), Err(InvalidResponseKind::Header));
    assert_eq!(parse_head(b"HTTP/1.1 200 OK\r\nA: 1\r\n continued\r\n\r\n"), Err(InvalidResponseKind::Header));
    assert_eq!(parse_head(b"HTTP/1.1 200 OK\r\nbroken\r\n\r\n"), Err(InvalidResponseKind::Header));
}

#[test]
fn response_errors_keep_their_kind() {
    let err = parse_response(b"garbage\r\n\r\n", Method::Get).unwrap_err();
    assert_eq!(kind_of(err), InvalidResponseKind::StatusLine);
    let err = parse_response(b"HTTP/1.1 700 X\r\n\r\n", Method::Get).unwrap_err();
    assert_eq!(kind_of(err), InvalidResponseKind::StatusCode);
    let err = parse_response(b"HTTP/1.1 200 OK\r\nContent-Length: x\r\n\r\n", Method::Get).unwrap_err();
    assert_eq!(kind_of(err), InvalidResponseKind::ContentLength);
    let mut resp = parse_response(b"HTTP/1.1 200 OK\r\nTransfer-Encoding: chunked\r\n\r\nq\r\n", Method::Get).unwrap();
    assert_eq!(kind_of(resp.body.read(1).unwrap_err()), InvalidResponseKind::ChunkSize);
    let err = parse_response(b"HTTP/1.1 200 OK\r\noops\r\n\r\n", Method::Get).unwrap_err();
    assert_eq!(err.message(), "InvalidResponse: invalid header");
}

#[test]
fn location_lookup() {
    let resp = parse_response(b"HTTP/1.1 301 Moved\r\nLOCATION: /a\r\nLocation: /b\r\n\r\n", Method::Get).unwrap();
    assert_eq!(resp.location(), Some(b"/a".to_vec()));
    let resp = parse_response(b"HTTP/1.1 301 Moved\r\n\r\n", Method::Get).unwrap();
    assert_eq!(resp.location(), None);
}

#[test]
fn messages() {
    assert_eq!(InvalidResponseKind::LocationHeader.message(), "missing or invalid location header");
    assert_eq!(InvalidResponseKind::RedirectionUrl.message(), "invalid redirection url");
    assert_eq!(InvalidResponseKind::StatusLine.message(), "invalid status line");
    assert_eq!(InvalidResponseKind::StatusCode.message(), "invalid status code");
    assert_eq!(InvalidResponseKind::Header.message(), "invalid header");
    assert_eq!(InvalidResponseKind::ChunkSize.message(), "invalid chunk size");
    assert_eq!(InvalidResponseKind::Chunk.message(), "invalid chunk");
    assert_eq!(InvalidResponseKind::ContentLength.message(), "invalid content length");
    assert_eq!(ClientError::from(ErrorKind::TooManyRedirections).message(), "Too many redirections");
    assert_eq!(ClientError::from(ErrorKind::InvalidBaseUrl).message(), "Invalid base URL");
    assert_eq!(ClientError::from(ErrorKind::InvalidUrlHost).message(), "URL is missing a host");
    assert_eq!(ClientError::from(ErrorKind::InvalidUrlPort).message(), "URL is missing a port");
    assert_eq!(ClientError::from(ErrorKind::ConnectNotSupported).description().unwrap(), "CONNECT is not supported");
    assert_eq!(ClientError::from(ErrorKind::InvalidBaseUrl).description().unwrap(), "invalid base url");
    assert_eq!(ClientError::from(ErrorKind::InvalidUrlHost).description().unwrap(), "url has no host");
    assert_eq!(ClientError::from(ErrorKind::InvalidUrlPort).description().unwrap(), "url has no port");
    assert_eq!(ClientError::from(InvalidResponseKind::Chunk).description().unwrap(), "invalid response");
    assert_eq!(ClientError::from(ErrorKind::TooManyRedirections).description().unwrap(), "too many redirections");
    let wrapped = ClientError::from(std::io::Error::new(std::io::ErrorKind::Other, "boom"));
    assert_eq!(wrapped.description(), None);
    let io = std::io::Error::new(std::io::ErrorKind::Other, "boom");
    let err = ClientError::from(io);
    assert!(matches!(err.kind(), ErrorKind::Io(_)));
    assert_eq!(err.message(), "Io Error: boom");
    let json = serde_json::from_str::<serde_json::Value>("{").unwrap_err();
    let expected = format!("Json Error: {}", json);
    let err = ClientError::from(json);
    assert!(matches!(err.kind(), ErrorKind::Json(_)));
    assert_eq!(err.message(), expected);
    let bad = http::Request::builder().method("bad method").body(()).unwrap_err();
    let expected = format!("Http Error: {}", bad);
    let err = ClientError::from(bad);
    assert_eq!(err.message(), expected);
    assert!(matches!(err.into_kind(), ErrorKind::Http(_)));
}

#[test]
fn text_helpers() {
    assert_eq!(trim(b"  a b \t\r\n"), b"a b");
    assert_eq!(trim(b" \t "), b"");
    assert_eq!(trim(b""), b"");
    assert_eq!(lower_bytes(b"Content-LENGTH_09[`{"), b"content-length_09[`{".to_vec());
    assert!(eq_ignore_case(b"GZip", b"gzIP"));
    assert!(!eq_ignore_case(b"gzip", b"gzi"));
    assert!(!eq_ignore_case(b"@", b"`"));
    assert_eq!(index_of(b"a,b,c", b',', 0), 1);
    assert_eq!(index_of(b"a,b,c", b',', 2), 3);
    assert_eq!(index_of(b"a,b,c", b',', 4), 5);
    assert_eq!(next_line(b"ab\r\ncd\nef", 0), Some((2, 4)));
    assert_eq!(next_line(b"ab\r\ncd\nef", 4), Some((6, 7)));
    assert_eq!(next_line(b"ab\r\ncd\nef", 7), None);
    assert_eq!(next_line(b"\r\n", 0), Some((0, 2)));
    assert_eq!(next_line(b"\r\n", 1), Some((1, 2)));
    assert_eq!(parse_number(b"1234", 10), Some(1234));
    assert_eq!(parse_number(b"12a", 10), None);
    assert_eq!(parse_number(b"12a", 16), Some(0x12a));
    assert_eq!(parse_number(b"", 16), None);
    assert!(value_has_item(b"a, b ,c", b"B"));
    assert!(!value_has_item(b"a, b ,c", b"d"));
    assert!(values_have_item(&vec![b"x".to_vec(), b"y, z".to_vec()], b"z"));
    assert!(!values_have_item(&vec![], b"z"));
}

#[test]
fn chunked_reader_walks_its_states() {
    let wire = b"4\r\nWiki\r\n5\r\npedia\r\n0\r\nT: 1\r\n\r\nnext".to_vec();
    let mut reader = BodyReader::new(Framing::Chunked, wire, 0);
    assert_eq!(reader.state, BodyState::ReadingSize);
    assert_eq!(reader.read(3), Ok(b"Wik".to_vec()));
    assert_eq!(reader.state, BodyState::ReadingData(1));
    assert_eq!(reader.pos, 6);
    assert_eq!(reader.read(0), Ok(vec![]));
    assert_eq!(reader.state, BodyState::ReadingData(1));
    assert_eq!(reader.read(3), Ok(b"i".to_vec()));
    assert_eq!(reader.state, BodyState::ReadingSize);
    assert_eq!(reader.pos, 9);
    assert_eq!(reader.read(100), Ok(b"pedia".to_vec()));
    assert_eq!(reader.state, BodyState::ReadingSize);
    assert_eq!(reader.read(100), Ok(vec![]));
    assert_eq!(reader.state, BodyState::Done);
    assert_eq!(reader.pos, 30);
    assert_eq!(reader.read(100), Ok(vec![]));
    assert_eq!(reader.pos, 30);
}

#[test]
fn pieces_of_any_size_give_the_same_body() {
    let wire = b"4\r\nWiki\r\n5\r\npedia\r\n0\r\n\r\n";
    for max in 1..12usize {
        let mut reader = BodyReader::new(Framing::Chunked, wire.to_vec(), 0);
        let mut all = Vec::new();
        loop {
            let piece = reader.read(max).unwrap();
            assert!(piece.len() <= max);
            if piece.is_empty() {
                break;
            }
            all.extend(piece);
        }
        assert_eq!(all, b"Wikipedia".to_vec());
        assert_eq!(reader.pos, wire.len());

        let mut reader = BodyReader::new(Framing::ContentLength(9), b"xxWikipediaHTTP".to_vec(), 2);
        let mut all = Vec::new();
        loop {
            let piece = reader.read(max).unwrap();
            if piece.is_empty() {
                break;
            }
            all.extend(piece);
        }
        assert_eq!(all, b"Wikipedia".to_vec());
        assert_eq!(reader.pos, 11);
        assert_eq!(reader.state, BodyState::Length(0));
    }
}

#[test]
fn reader_failures_leave_the_reader_in_place() {
    let mut reader = BodyReader::new(Framing::Chunked, b"2\r\nab\r\nzz\r\n".to_vec(), 0);
    assert_eq!(reader.read(10), Ok(b"ab".to_vec()));
    assert_eq!(reader.read(10), Err(InvalidResponseKind::ChunkSize));
    assert_eq!(reader.read(10), Err(InvalidResponseKind::ChunkSize));
    assert_eq!(reader.pos, 7);
    assert_eq!(reader.state, BodyState::ReadingSize);
    let mut reader = BodyReader::new(Framing::Chunked, b"2\r\nab\r\n0\r\nbad\r\n\r\n".to_vec(), 0);
    assert_eq!(reader.read_to_end(), Err(InvalidResponseKind::Chunk));
    let mut reader = BodyReader::new(Framing::Chunked, b"2\r\nab".to_vec(), 0);
    assert_eq!(reader.read(1), Err(InvalidResponseKind::Chunk));
    assert_eq!(reader.pos, 0);
    let mut reader = BodyReader::new(Framing::ContentLength(4), b"abc".to_vec(), 0);
    assert_eq!(reader.read(1), Err(InvalidResponseKind::ContentLength));
    let mut reader = BodyReader::new(Framing::ContentLength(3), b"abc".to_vec(), 0);
    assert_eq!(reader.read_to_end(), Ok(b"abc".to_vec()));
    let mut reader = BodyReader::new(Framing::CloseDelimited, b"abc".to_vec(), 3);
    assert_eq!(reader.read_to_end(), Ok(vec![]));
}

#[test]
fn end_of_a_response_in_a_growing_buffer() {
    let wire = b"HTTP/1.1 200 OK\r\nContent-Length: 3\r\n\r\nabcHTTP/1.1 204 No Content\r\n\r\n";
    for cut in 0..41 {
        assert_eq!(response_end(&wire[..cut], Method::Get), None, "{}", cut);
    }
    for cut in 41..wire.len() {
        assert_eq!(response_end(&wire[..cut], Method::Get), Some(41));
    }
    assert_eq!(response_end(wire, Method::Head), Some(38));
    let chunked = b"HTTP/1.1 200 OK\r\nTransfer-Encoding: chunked\r\n\r\n2\r\nab\r\n0\r\n\r\nmore";
    assert_eq!(response_end(chunked, Method::Get), Some(chunked.len() - 4));
    assert_eq!(response_end(&chunked[..chunked.len() - 6], Method::Get), None);
    assert_eq!(response_end(b"HTTP/1.1 200 OK\r\n\r\nuntil close", Method::Get), None);
    assert_eq!(response_end(b"HTTP/1.1 200 OK\r\nContent-Length: x\r\n\r\n", Method::Get), None);
    assert_eq!(response_end(b"garbage\r\n\r\n", Method::Get), None);
}
