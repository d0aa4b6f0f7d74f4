use std::io::Write;

use attohttpc::compressed_reader::{
    have_encoding, have_encoding_content_encoding, have_encoding_item,
    have_encoding_transfer_encoding, select_decoding, CompressedReader, Decoding, Method,
};
use attohttpc::body_reader::BodyReader;
use attohttpc::error::{ErrorKind, InvalidResponseKind};
use attohttpc::framing::Framing;
use attohttpc::response::parse_response;
use http::header::{HeaderMap, HeaderValue};
use libflate::{deflate, gzip};

fn whole(bytes: Vec<u8>) -> BodyReader {
    BodyReader::new(Framing::CloseDelimited, bytes, 0)
}

fn text(bytes: Vec<u8>) -> String {
    String::from_utf8(bytes).unwrap()
}

fn gzipped(data: &[u8]) -> Vec<u8> {
    let mut payload = Vec::new();
    let mut enc = gzip::Encoder::new(&mut payload).unwrap();
    enc.write_all(data).unwrap();
    enc.finish().into_result().unwrap();
    payload
}

fn deflated(data: &[u8]) -> Vec<u8> {
    let mut payload = Vec::new();
    let mut enc = deflate::Encoder::new(&mut payload);
    enc.write_all(data).unwrap();
    enc.finish().into_result().unwrap();
    payload
}

#[test]
fn test_have_encoding_none() {
    let mut headers = HeaderMap::new();
    headers.insert("content-encoding", HeaderValue::from_static("gzip"));
    assert!(!have_encoding(&headers, "deflate"));
}

#[test]
fn test_have_encoding_content_encoding_simple() {
    let mut headers = HeaderMap::new();
    headers.insert("content-encoding", HeaderValue::from_static("gzip"));
    assert!(have_encoding(&headers, "gzip"));
}

#[test]
fn test_have_encoding_content_encoding_multi() {
    let mut headers = HeaderMap::new();
    headers.insert("content-encoding", HeaderValue::from_static("identity, deflate"));
    assert!(have_encoding(&headers, "deflate"));
}

#[test]
fn test_have_encoding_transfer_encoding_simple() {
    let mut headers = HeaderMap::new();
    headers.insert("transfer-encoding", HeaderValue::from_static("deflate"));
    assert!(have_encoding(&headers, "deflate"));
}

#[test]
fn test_have_encoding_transfer_encoding_multi() {
    let mut headers = HeaderMap::new();
    headers.insert("transfer-encoding", HeaderValue::from_static("gzip, chunked"));
    assert!(have_encoding(&headers, "gzip"));
}

#[test]
fn test_stream_plain() {
    let payload = b"Hello world!!!!!!!!";

    let mut buf: Vec<u8> =
        format!("HTTP/1.1 200 OK\r\nContent-Length: {}\r\n\r\n", payload.len()).into_bytes();
    buf.extend(payload);

    let mut response = parse_response(&buf, Method::Get).unwrap();
    assert_eq!(text(response.body.read_to_end().unwrap()), "Hello world!!!!!!!!");
}

#[test]
fn test_stream_deflate() {
    let payload = deflated(b"Hello world!!!!!!!!");

    let mut buf: Vec<u8> = format!(
        "HTTP/1.1 200 OK\r\nContent-Length: {}\r\nContent-Encoding: deflate\r\n\r\n",
        payload.len()
    )
    .into_bytes();
    buf.extend(payload);

    let mut response = parse_response(&buf, Method::Get).unwrap();
    assert_eq!(text(response.body.read_to_end().unwrap()), "Hello world!!!!!!!!");
}

#[test]
fn test_stream_gzip() {
    let payload = gzipped(b"Hello world!!!!!!!!");

    let mut buf: Vec<u8> = format!(
        "HTTP/1.1 200 OK\r\nContent-Length: {}\r\nContent-Encoding: gzip\r\n\r\n",
        payload.len()
    )
    .into_bytes();
    buf.extend(payload);

    let mut response = parse_response(&buf, Method::Get).unwrap();
    assert_eq!(text(response.body.read_to_end().unwrap()), "Hello world!!!!!!!!");
}

#[test]
fn test_no_body_with_gzip() {
    let buf = b"HTTP/1.1 200 OK\r\ncontent-encoding: gzip\r\n\r\n";
    assert!(parse_response(buf, Method::Get).is_err());
}

#[test]
fn test_no_body_with_gzip_head() {
    let buf = b"HTTP/1.1 200 OK\r\ncontent-encoding: gzip\r\n\r\n";
    assert!(parse_response(buf, Method::Head).is_ok());
}

#[test]
fn no_body_with_gzip_is_an_io_failure() {
    let buf = b"HTTP/1.1 200 OK\r\ncontent-encoding: gzip\r\n\r\n";
    let err = parse_response(buf, Method::Get).unwrap_err();
    assert!(matches!(err.kind(), ErrorKind::Io(_)));
}

#[test]
fn head_with_gzip_yields_empty_body() {
    let buf = b"HTTP/1.1 200 OK\r\ncontent-encoding: gzip\r\n\r\n";
    let mut response = parse_response(buf, Method::Head).unwrap();
    assert!(matches!(response.body, CompressedReader::Plain(_)));
    assert_eq!(response.body.read(16).unwrap(), Vec::<u8>::new());
}

#[test]
fn encoding_items_are_trimmed_and_case_insensitive() {
    assert!(have_encoding_item("gzip", "gzip"));
    assert!(have_encoding_item("identity,  GZip ", "gzip"));
    assert!(have_encoding_item("a,b,,c", ""));
    assert!(have_encoding_item("", ""));
    assert!(!have_encoding_item("gzipped", "gzip"));
    assert!(!have_encoding_item("gz,ip", "gzip"));
    assert!(!have_encoding_item("", "gzip"));
    assert!(have_encoding_item("deflate,gzip", "gzip"));
}

#[test]
fn encodings_are_found_across_repeated_headers() {
    let mut headers = HeaderMap::new();
    headers.append("content-encoding", HeaderValue::from_static("identity"));
    headers.append("content-encoding", HeaderValue::from_static("br, GZIP"));
    assert!(have_encoding_content_encoding(&headers, "gzip"));
    assert!(!have_encoding_transfer_encoding(&headers, "gzip"));
    assert!(have_encoding(&headers, "br"));
    assert!(!have_encoding(&headers, "deflate"));
}

#[test]
fn values_that_are_not_text_are_passed_over() {
    let mut headers = HeaderMap::new();
    headers.append("content-encoding", HeaderValue::from_bytes(b"gzip\xff").unwrap());
    assert!(!have_encoding(&headers, "gzip"));
    headers.append("content-encoding", HeaderValue::from_static("gzip"));
    assert!(have_encoding(&headers, "gzip"));
}

#[test]
fn gzip_goes_before_deflate_and_head_decodes_nothing() {
    assert_eq!(select_decoding(Method::Get, true, true), Decoding::Gzip);
    assert_eq!(select_decoding(Method::Get, false, true), Decoding::Deflate);
    assert_eq!(select_decoding(Method::Post, false, false), Decoding::Plain);
    assert_eq!(select_decoding(Method::Head, true, true), Decoding::Plain);
}

#[test]
fn reader_from_header_map_decodes_gzip() {
    let mut headers = HeaderMap::new();
    headers.insert("content-encoding", HeaderValue::from_static("gzip"));
    let mut reader =
        CompressedReader::new(&headers, Method::Get, whole(gzipped(b"Hello world!!!!!!!!"))).unwrap();
    assert!(matches!(reader, CompressedReader::Gzip(_)));
    assert_eq!(reader.read(5).unwrap(), b"Hello".to_vec());
    assert_eq!(reader.read(100).unwrap(), b" world!!!!!!!!".to_vec());
    assert_eq!(reader.read(100).unwrap(), Vec::<u8>::new());
}

#[test]
fn reader_from_header_map_decodes_deflate() {
    let mut headers = HeaderMap::new();
    headers.insert("transfer-encoding", HeaderValue::from_static("deflate, chunked"));
    let mut reader =
        CompressedReader::new(&headers, Method::Get, whole(deflated(b"Hello world!!!!!!!!"))).unwrap();
    assert!(matches!(reader, CompressedReader::Deflate(_)));
    assert_eq!(reader.read_to_end().unwrap(), b"Hello world!!!!!!!!".to_vec());
}

#[test]
fn reader_for_head_passes_bytes_through() {
    let mut headers = HeaderMap::new();
    headers.insert("content-encoding", HeaderValue::from_static("gzip"));
    let mut reader = CompressedReader::new(&headers, Method::Head, whole(Vec::new())).unwrap();
    assert!(matches!(reader, CompressedReader::Plain(_)));
    assert_eq!(reader.read_to_end().unwrap(), Vec::<u8>::new());
}

#[test]
fn corrupt_deflate_fails_on_read_as_io() {
    let mut reader = CompressedReader::open(Decoding::Deflate, whole(vec![0xff, 0xff, 0xff])).unwrap();
    let err = reader.read(10).unwrap_err();
    assert!(matches!(err.kind(), ErrorKind::Io(_)));
}

#[test]
fn truncated_gzip_fails_on_read_as_io() {
    let mut payload = gzipped(b"Hello world!!!!!!!!");
    payload.truncate(payload.len() - 6);
    let mut reader = CompressedReader::open(Decoding::Gzip, whole(payload)).unwrap();
    let err = reader.read_to_end().unwrap_err();
    assert!(matches!(err.kind(), ErrorKind::Io(_)));
}

#[test]
fn gzip_without_header_fails_on_open() {
    let err = CompressedReader::open(Decoding::Gzip, whole(b"plain".to_vec())).unwrap_err();
    assert!(matches!(err.into_kind(), ErrorKind::Io(_)));
}

#[test]
fn gzip_inside_chunked_framing() {
    let payload = gzipped(b"Hello world!!!!!!!!");
    let (first, second) = payload.split_at(7);
    let mut buf = b"HTTP/1.1 200 OK\r\nTransfer-Encoding: chunked\r\nContent-Encoding: gzip\r\n\r\n".to_vec();
    buf.extend(format!("{:x}\r\n", first.len()).into_bytes());
    buf.extend(first);
    buf.extend(format!("\r\n{:X};x=y\r\n", second.len()).into_bytes());
    buf.extend(second);
    buf.extend(b"\r\n0\r\n\r\n");
    let mut response = parse_response(&buf, Method::Get).unwrap();
    assert!(matches!(response.body, CompressedReader::Gzip(_)));
    assert_eq!(text(response.body.read_to_end().unwrap()), "Hello world!!!!!!!!");
    assert_eq!(response.body.read(8).unwrap(), Vec::<u8>::new());
}

#[test]
fn opening_under_deflate_never_fails_and_reads_nothing() {
    let buf = b"HTTP/1.1 200 OK\r\nContent-Length: 50\r\nContent-Encoding: deflate\r\n\r\nshort";
    let mut response = parse_response(buf, Method::Get).unwrap();
    match &response.body {
        CompressedReader::Deflate(e) => {
            assert!(!e.ready);
            assert_eq!(e.source.pos, 66);
            assert_eq!(e.source.source, buf.to_vec());
        }
        _ => panic!(),
    }
    let err = response.body.read(8).unwrap_err();
    assert!(matches!(err.kind(), ErrorKind::Io(_)));

    let mut headers = HeaderMap::new();
    headers.insert("content-encoding", HeaderValue::from_static("deflate"));
    let reader = CompressedReader::new(&headers, Method::Get, whole(Vec::new())).unwrap();
    assert!(matches!(reader, CompressedReader::Deflate(_)));
    let broken = BodyReader::new(Framing::Chunked, b"zz\r\n".to_vec(), 0);
    let reader = CompressedReader::new(&headers, Method::Post, broken).unwrap();
    assert!(matches!(reader, CompressedReader::Deflate(_)));
}

#[test]
fn opening_under_gzip_fails_only_on_the_gzip_header() {
    let payload = gzipped(b"Hello world!!!!!!!!");

    // The whole stream in one chunk, then a malformed chunk: the decoder never gets there.
    let mut wire = format!("{:x}\r\n", payload.len()).into_bytes();
    wire.extend(&payload);
    wire.extend(b"\r\nzz\r\n");
    let mut reader =
        CompressedReader::open(Decoding::Gzip, BodyReader::new(Framing::Chunked, wire, 0)).unwrap();
    assert_eq!(text(reader.read_to_end().unwrap()), "Hello world!!!!!!!!");

    // The header in a first chunk, the rest lost to a malformed chunk: opening succeeds,
    // reading fails as an I/O failure.
    let (first, _) = payload.split_at(12);
    let mut wire = format!("{:x}\r\n", first.len()).into_bytes();
    wire.extend(first);
    wire.extend(b"\r\nzz\r\n");
    let mut reader =
        CompressedReader::open(Decoding::Gzip, BodyReader::new(Framing::Chunked, wire, 0)).unwrap();
    match &reader {
        CompressedReader::Gzip(e) => assert_eq!(e.source.pos, 0),
        _ => panic!(),
    }
    let err = reader.read(4).unwrap_err();
    assert!(matches!(err.kind(), ErrorKind::Io(_)));
    let err = reader.read(4).unwrap_err();
    assert!(matches!(err.kind(), ErrorKind::Io(_)));

    // No byte of the header can be delivered: opening fails, as an I/O failure.
    let reader = BodyReader::new(Framing::Chunked, b"5\r\nabc\r\n".to_vec(), 0);
    let err = CompressedReader::open(Decoding::Gzip, reader).unwrap_err();
    assert!(matches!(err.kind(), ErrorKind::Io(_)));
    let buf = b"HTTP/1.1 200 OK\r\nContent-Length: 50\r\nContent-Encoding: gzip\r\n\r\nshort";
    let err = parse_response(buf, Method::Get).unwrap_err();
    assert!(matches!(err.kind(), ErrorKind::Io(_)));
    assert!(!matches!(err.kind(), ErrorKind::InvalidResponse(InvalidResponseKind::ContentLength)));
}

#[test]
fn encoding_items_are_trimmed_of_unicode_whitespace() {
    assert!(have_encoding_item("\u{a0}gzip", "gzip"));
    assert!(have_encoding_item("identity,\u{2003}GZIP\u{3000}\u{85}", "gzip"));
    assert!(have_encoding_item("\u{1680}\u{2028}\u{2029}\u{202f}\u{205f}\u{200a}x\t\n\u{b}\u{c}\r ", "X"));
    assert!(!have_encoding_item("g\u{a0}zip", "gzip"));
    assert!(!have_encoding_item("\u{200b}gzip", "gzip"));
    assert!(!have_encoding_item("gzip\u{feff}", "gzip"));
    assert!(have_encoding_item("\u{e9}t\u{e9}", "\u{e9}T\u{e9}"));
    assert!(!have_encoding_item("\u{e9}", "\u{c9}"));
}

#[test]
fn head_with_declared_length_and_no_body_parses() {
    let buf = b"HTTP/1.1 200 OK\r\nContent-Length: 120\r\nContent-Encoding: gzip\r\n\r\n";
    let response = parse_response(buf, Method::Head).unwrap();
    assert!(matches!(response.body, CompressedReader::Plain(_)));
    assert_eq!(response.status(), 200);
}
