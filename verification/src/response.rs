//! A whole response: the head, the framed body, and the reader that decodes it.

use vstd::prelude::*;
use vstd::string::StringSliceAdditionalSpecFns;
use crate::body_reader::{initial_state, BodyReader};
use crate::compressed_reader::{
    decoding_for, headers_name_encoding, names_encoding, select_decoding, CompressedReader,
    Decoding, Method,
};
use crate::error::{ClientError, ErrorKind, InvalidResponseKind};
use crate::framing::{body_of, framing_mode, framing_of, read_body, Framing};
use crate::headers::{header_values, values_of};
use crate::parse::{head, header_views, parse_head, Header, StatusLine};
use crate::text::to_vec;

verus! {

/// A parsed response, with a reader over its body.
#[derive(Debug)]
pub struct Response {
    pub status: StatusLine,
    pub headers: Vec<Header>,
    pub body: CompressedReader,
}

/// The decoding that a parsed header list selects for the response to a request with this
/// method.
pub open spec fn decoding_of(method: Method, hs: Seq<(Seq<u8>, Seq<u8>)>) -> Decoding {
    decoding_for(
        method,
        names_encoding(hs, "gzip".spec_bytes()),
        names_encoding(hs, "deflate".spec_bytes()),
    )
}

/// Whether the body of the response in `r`, or the failure in it, is what opening a reader
/// over `reader` under `decoding` gives.
pub open spec fn body_opened(
    decoding: Decoding,
    reader: BodyReader,
    r: Result<Response, ClientError>,
) -> bool {
    CompressedReader::opened(
        decoding,
        reader,
        match r {
            Ok(resp) => Ok(resp.body),
            Err(e) => Err(e),
        },
    )
}

/// What parsing the bytes of a response to a request with this method gives. A malformed
/// head, or a header list that selects no framing, fails with its kind. Otherwise the
/// response holds the head and a reader opened, under the decoding that the headers select,
/// over a framing reader at the start of the body.
pub open spec fn parsed(bytes: Seq<u8>, method: Method, r: Result<Response, ClientError>) -> bool {
    match head(bytes) {
        Err(kind) => r matches Err(e) && *e.0 == ErrorKind::InvalidResponse(kind),
        Ok(h) => match framing_of(h.headers) {
            Err(kind) => r matches Err(e) && *e.0 == ErrorKind::InvalidResponse(kind),
            Ok(f) => exists|reader: BodyReader|
                {
                    &&& reader.wf()
                    &&& reader.source@ == bytes
                    &&& reader.pos == h.body_start
                    &&& reader.state == initial_state(f)
                    &&& #[trigger] body_opened(decoding_of(method, h.headers), reader, r)
                    &&& r matches Ok(resp) ==> resp.status@ == h.status && header_views(
                        resp.headers@,
                    ) == h.headers
                },
        },
    }
}

impl Response {
    /// The status code.
    pub fn status(&self) -> (r: u16)
        ensures
            r == self.status.code,
    {
        self.status.code
    }

    /// The value of the first `Location` header, if there is one.
    pub fn location(&self) -> (r: Option<Vec<u8>>)
        ensures
            ({
                let values = values_of(header_views(self.headers@), "location".spec_bytes());
                match r {
                    Some(v) => values.len() > 0 && v@ == values[0],
                    None => values.len() == 0,
                }
            }),
    {
        let values = header_values(&self.headers, "location".as_bytes());
        if values.len() == 0 {
            None
        } else {
            assert(crate::headers::byte_views(values@)[0] == values@[0]@);
            Some(to_vec(values[0].as_slice()))
        }
    }
}

/// Where the response at the start of `s` ends, where `s` shows it: behind the head for the
/// response to a HEAD request, else behind the body under a declared length or chunked
/// framing. `None` where the head or the body is not whole or is malformed, and for a body
/// that runs to the end of the connection.
pub open spec fn end_of(s: Seq<u8>, method: Method) -> Option<int> {
    match head(s) {
        Err(_) => None,
        Ok(h) => if method == Method::Head {
            Some(h.body_start)
        } else {
            match framing_of(h.headers) {
                Err(_) => None,
                Ok(f) => match body_of(f, s, h.body_start) {
                    Ok((_, end)) if f != Framing::CloseDelimited => Some(end),
                    _ => None,
                },
            }
        },
    }
}

/// Finds where the response at the start of `bytes` ends, so that a caller that fills
/// `bytes` from a connection knows when to stop.
pub fn response_end(bytes: &[u8], method: Method) -> (r: Option<usize>)
    ensures
        match r {
            Some(end) => end_of(bytes@, method) == Some(end as int) && end <= bytes@.len(),
            None => end_of(bytes@, method).is_none(),
        },
{
    let parsed_head = match parse_head(bytes) {
        Err(_) => {
            return None;
        },
        Ok(h) => h,
    };
    if method == Method::Head {
        return Some(parsed_head.body_start);
    }
    let framing = match framing_mode(&parsed_head.headers) {
        Err(_) => {
            return None;
        },
        Ok(f) => f,
    };
    match framing {
        Framing::CloseDelimited => None,
        _ => match read_body(framing, bytes, parsed_head.body_start) {
            Ok((_, end)) => Some(end),
            Err(_) => None,
        },
    }
}

/// Parses the response to a request with the given method from the bytes that the
/// connection delivered.
pub fn parse_response(bytes: &[u8], method: Method) -> (r: Result<Response, ClientError>)
    ensures
        parsed(bytes@, method, r),
        r matches Ok(resp) ==> resp.body.wf(),
{
    let parsed_head = match parse_head(bytes) {
        Err(kind) => {
            return Err(ClientError::from(kind));
        },
        Ok(h) => h,
    };
    let framing = match framing_mode(&parsed_head.headers) {
        Err(kind) => {
            return Err(ClientError::from(kind));
        },
        Ok(f) => f,
    };
    let gzip = headers_name_encoding(&parsed_head.headers, "gzip");
    let deflate = headers_name_encoding(&parsed_head.headers, "deflate");
    let decoding = select_decoding(method, gzip, deflate);
    let reader = BodyReader::new(framing, to_vec(bytes), parsed_head.body_start);
    let ghost start = reader;
    let r = match CompressedReader::open(decoding, reader) {
        Err(e) => Err(e),
        Ok(body) => Ok(
            Response { status: parsed_head.status, headers: parsed_head.headers, body },
        ),
    };
    assert(body_opened(decoding, start, r));
    r
}

} // verus!
