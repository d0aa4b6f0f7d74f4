//! The decoded body of a response: which content decoding the headers select, and a reader
//! that delivers the decoded bytes.

use std::io::Read;
use http::{HeaderMap, HeaderValue};
use libflate::{deflate, gzip};
use vstd::prelude::*;
use vstd::slice::slice_subrange;
use vstd::string::StringSliceAdditionalSpecFns;
use crate::body_reader::BodyReader;
use crate::error::{ClientError, ErrorKind, InvalidResponseKind};
use crate::headers::{
    any_has_item, has_item, header_values, value_has_item, values_have_item, values_of,
};
use crate::items::{chars_of, lists_item, text_lists_item};
use crate::parse::{header_views, Header};
use crate::text::to_vec;

verus! {

/// The method of the request that a response answers.
#[derive(Debug, Clone, Copy, PartialEq, Eq, Structural)]
pub enum Method {
    Get,
    Head,
    Post,
    Put,
    Delete,
    Connect,
    Options,
    Trace,
    Patch,
}

/// The decoding that a body needs.
#[derive(Debug, Clone, Copy, PartialEq, Eq, Structural)]
pub enum Decoding {
    Plain,
    Deflate,
    Gzip,
}

/// The values that a header map holds under a name, in the order in which the map yields
/// them; a value that is not visible ASCII text stands as `None`.
pub uninterp spec fn header_texts(headers: HeaderMap<HeaderValue>, name: Seq<char>) -> Seq<
    Option<Seq<u8>>,
>;

/// Whether a byte string starts with a GZIP header that the decoder accepts.
pub uninterp spec fn gzip_header_accepted(data: Seq<u8>) -> bool;

/// The content of a GZIP stream, or `None` where the decoder rejects it.
pub uninterp spec fn gunzipped(data: Seq<u8>) -> Option<Seq<u8>>;

/// The content of a DEFLATE stream, or `None` where the decoder rejects it.
pub uninterp spec fn inflated(data: Seq<u8>) -> Option<Seq<u8>>;

/// The views of a list of optional byte strings.
pub open spec fn text_views(vs: Seq<Option<Vec<u8>>>) -> Seq<Option<Seq<u8>>> {
    vs.map_values(
        |o: Option<Vec<u8>>|
            match o {
                Some(v) => Some(v@),
                None => None,
            },
    )
}

/// Whether `item` is listed in one of the texts that are present.
pub open spec fn texts_have_item(texts: Seq<Option<Seq<u8>>>, item: Seq<u8>) -> bool {
    exists|i: int|
        0 <= i < texts.len() && (#[trigger] texts[i]) is Some && has_item(texts[i].unwrap(), item)
}

/// Whether a header map lists `enc` under `Content-Encoding`.
pub open spec fn content_encoding_lists(headers: HeaderMap<HeaderValue>, enc: Seq<u8>) -> bool {
    texts_have_item(header_texts(headers, "content-encoding"@), enc)
}

/// Whether a header map lists `enc` under `Transfer-Encoding`.
pub open spec fn transfer_encoding_lists(headers: HeaderMap<HeaderValue>, enc: Seq<u8>) -> bool {
    texts_have_item(header_texts(headers, "transfer-encoding"@), enc)
}

/// Whether a header map lists `enc` under either of the two headers.
pub open spec fn lists_encoding(headers: HeaderMap<HeaderValue>, enc: Seq<u8>) -> bool {
    content_encoding_lists(headers, enc) || transfer_encoding_lists(headers, enc)
}

/// Whether a parsed header list names `enc` under `Content-Encoding` or `Transfer-Encoding`.
pub open spec fn names_encoding(hs: Seq<(Seq<u8>, Seq<u8>)>, enc: Seq<u8>) -> bool {
    any_has_item(values_of(hs, "content-encoding".spec_bytes()), enc) || any_has_item(
        values_of(hs, "transfer-encoding".spec_bytes()),
        enc,
    )
}

/// The decoding selected for a response: none for a HEAD request; otherwise gzip where it
/// is listed, else deflate where that is listed, else none.
pub open spec fn decoding_for(method: Method, gzip: bool, deflate: bool) -> Decoding {
    if method == Method::Head {
        Decoding::Plain
    } else if gzip {
        Decoding::Gzip
    } else if deflate {
        Decoding::Deflate
    } else {
        Decoding::Plain
    }
}

/// The body of the response to a HEAD request is never decoded, whatever the headers list.
pub proof fn lemma_head_is_not_decoded(gzip: bool, deflate: bool)
    ensures
        decoding_for(Method::Head, gzip, deflate) == Decoding::Plain,
{
}

/// Gzip goes before deflate, and a response that lists neither is not decoded.
pub proof fn lemma_decoding_order(method: Method, gzip: bool, deflate: bool)
    requires
        method != Method::Head,
    ensures
        gzip ==> decoding_for(method, gzip, deflate) == Decoding::Gzip,
        !gzip && deflate ==> decoding_for(method, gzip, deflate) == Decoding::Deflate,
        !gzip && !deflate ==> decoding_for(method, gzip, deflate) == Decoding::Plain,
{
}

/// Calls `HeaderMap::get_all` and `HeaderValue::to_str` on each value that it yields. The
/// result is the list that `header_texts` names for this map and this name.
#[verifier::external_body]
fn header_text_values(headers: &HeaderMap<HeaderValue>, name: &str) -> (r: Vec<Option<Vec<u8>>>)
    ensures
        text_views(r@) == header_texts(*headers, name@),
{
    headers.get_all(name).iter().map(|v| v.to_str().ok().map(|s| s.as_bytes().to_vec())).collect()
}

/// Calls `libflate::gzip::Decoder::new` on the bytes. It succeeds exactly where the bytes
/// start with a header that the decoder accepts, which `gzip_header_accepted` names.
#[verifier::external_body]
fn gzip_open(data: &[u8]) -> (r: Result<(), std::io::Error>)
    ensures
        r is Ok <==> gzip_header_accepted(data@),
{
    gzip::Decoder::new(data).map(|_| ())
}

/// Calls `libflate::gzip::Decoder::new` and reads the decoder to its end. The result is the
/// content that `gunzipped` names for these bytes, or an error where it names none.
#[verifier::external_body]
fn gzip_decode(data: &[u8]) -> (r: Result<Vec<u8>, std::io::Error>)
    ensures
        match r {
            Ok(out) => gunzipped(data@) == Some(out@),
            Err(_) => gunzipped(data@).is_none(),
        },
{
    let mut out = Vec::new();
    gzip::Decoder::new(data)?.read_to_end(&mut out)?;
    Ok(out)
}

/// Calls `libflate::deflate::Decoder::new` and reads the decoder to its end. The result is
/// the content that `inflated` names for these bytes, or an error where it names none.
#[verifier::external_body]
fn deflate_decode(data: &[u8]) -> (r: Result<Vec<u8>, std::io::Error>)
    ensures
        match r {
            Ok(out) => inflated(data@) == Some(out@),
            Err(_) => inflated(data@).is_none(),
        },
{
    let mut out = Vec::new();
    deflate::Decoder::new(data).read_to_end(&mut out)?;
    Ok(out)
}

/// Whether `enc` is one of the comma-separated items of `value`, each item taken without
/// the Unicode whitespace around it and compared up to ASCII case.
pub fn have_encoding_item(value: &str, enc: &str) -> (r: bool)
    ensures
        r == lists_item(value@, enc@),
{
    let text = chars_of(value);
    let item = chars_of(enc);
    text_lists_item(&text, &item)
}

/// Whether `item` is listed in one of the texts that are present.
pub fn any_text_has_item(texts: &Vec<Option<Vec<u8>>>, item: &[u8]) -> (r: bool)
    ensures
        r == texts_have_item(text_views(texts@), item@),
{
    let mut i: usize = 0;
    while i < texts.len()
        invariant
            i <= texts@.len(),
            forall|j: int|
                0 <= j < i ==> !((#[trigger] text_views(texts@)[j]) is Some && has_item(
                    text_views(texts@)[j].unwrap(),
                    item@,
                )),
        decreases texts@.len() - i,
    {
        match &texts[i] {
            Some(v) => {
                assert(text_views(texts@)[i as int] == Some(v@));
                if value_has_item(v.as_slice(), item) {
                    return true;
                }
            },
            None => {
                assert(text_views(texts@)[i as int].is_none());
            },
        }
        i += 1;
    }
    false
}

/// Whether the map lists `enc` under `Content-Encoding`.
pub fn have_encoding_content_encoding(headers: &HeaderMap<HeaderValue>, enc: &str) -> (r: bool)
    ensures
        r == content_encoding_lists(*headers, enc.spec_bytes()),
{
    let texts = header_text_values(headers, "content-encoding");
    any_text_has_item(&texts, enc.as_bytes())
}

/// Whether the map lists `enc` under `Transfer-Encoding`.
pub fn have_encoding_transfer_encoding(headers: &HeaderMap<HeaderValue>, enc: &str) -> (r: bool)
    ensures
        r == transfer_encoding_lists(*headers, enc.spec_bytes()),
{
    let texts = header_text_values(headers, "transfer-encoding");
    any_text_has_item(&texts, enc.as_bytes())
}

/// Whether the map lists `enc` under `Content-Encoding` or `Transfer-Encoding`.
pub fn have_encoding(headers: &HeaderMap<HeaderValue>, enc: &str) -> (r: bool)
    ensures
        r == lists_encoding(*headers, enc.spec_bytes()),
{
    have_encoding_content_encoding(headers, enc) || have_encoding_transfer_encoding(headers, enc)
}

/// Whether a parsed header list names `enc` under `Content-Encoding` or `Transfer-Encoding`.
pub fn headers_name_encoding(headers: &Vec<Header>, enc: &str) -> (r: bool)
    ensures
        r == names_encoding(header_views(headers@), enc.spec_bytes()),
{
    let content = header_values(headers, "content-encoding".as_bytes());
    if values_have_item(&content, enc.as_bytes()) {
        return true;
    }
    let transfer = header_values(headers, "transfer-encoding".as_bytes());
    values_have_item(&transfer, enc.as_bytes())
}

/// Selects the decoding for a response from the request's method and from whether the
/// headers list gzip and deflate.
pub fn select_decoding(method: Method, gzip: bool, deflate: bool) -> (r: Decoding)
    ensures
        r == decoding_for(method, gzip, deflate),
{
    if method == Method::Head {
        Decoding::Plain
    } else if gzip {
        Decoding::Gzip
    } else if deflate {
        Decoding::Deflate
    } else {
        Decoding::Plain
    }
}

/// An encoded body. While `ready` is false nothing has been read from `source`, which
/// stands at the start of the framed body, and `data` is unused; afterwards `data` is the
/// decoded body, delivered up to `pos`.
#[derive(Debug)]
pub struct Encoded {
    pub source: BodyReader,
    pub data: Vec<u8>,
    pub pos: usize,
    pub ready: bool,
}

impl Encoded {
    /// The framing reader is well formed, the position lies in the decoded bytes, and
    /// nothing is delivered before the body is decoded.
    pub open spec fn wf(&self) -> bool {
        self.source.wf() && self.pos <= self.data@.len() && (!self.ready ==> self.pos == 0)
    }

    /// An encoded body over `reader` of which nothing has been read.
    pub open spec fn unread(&self, reader: BodyReader) -> bool {
        self.source == reader && !self.ready && self.pos == 0 && self.data@.len() == 0
    }

    /// Delivers the next bytes of a decoded body, at most `max` of them.
    pub fn take(&mut self, max: usize) -> (r: Vec<u8>)
        requires
            old(self).wf(),
            old(self).ready,
        ensures
            final(self).wf(),
            final(self).source == old(self).source,
            final(self).data == old(self).data,
            final(self).ready,
            r@ == old(self).data@.subrange(
                old(self).pos as int,
                next_stop(old(self).data@.len() as int, old(self).pos as int, max as int),
            ),
            final(self).pos == old(self).pos + r@.len(),
    {
        let left = self.data.len() - self.pos;
        let n = if max < left {
            max
        } else {
            left
        };
        let out = to_vec(slice_subrange(self.data.as_slice(), self.pos, self.pos + n));
        self.pos = self.pos + n;
        out
    }
}

/// Where a read of at most `max` bytes stops in a body of `len` bytes delivered up to `pos`.
pub open spec fn next_stop(len: int, pos: int, max: int) -> int {
    if pos + max < len {
        pos + max
    } else {
        len
    }
}

/// The body of a response, read through the decoding that its headers select. A plain
/// body is read from the framing reader piece by piece. An encoded body is decoded at the
/// first read, from what the framing reader can deliver.
#[derive(Debug)]
pub enum CompressedReader {
    Plain(BodyReader),
    Deflate(Encoded),
    Gzip(Encoded),
}

/// The outcome of a read with a framing failure wrapped as the library's error.
pub open spec fn wrapped(r: Result<Vec<u8>, ClientError>) -> Option<
    Result<Vec<u8>, InvalidResponseKind>,
> {
    match r {
        Ok(out) => Some(Ok(out)),
        Err(e) => match *e.0 {
            ErrorKind::InvalidResponse(kind) => Some(Err(kind)),
            _ => None,
        },
    }
}

impl CompressedReader {
    /// The decoding that this reader applies.
    pub open spec fn decoding(&self) -> Decoding {
        match self {
            CompressedReader::Plain(_) => Decoding::Plain,
            CompressedReader::Deflate(_) => Decoding::Deflate,
            CompressedReader::Gzip(_) => Decoding::Gzip,
        }
    }

    /// The reader inside is well formed.
    pub open spec fn wf(&self) -> bool {
        match self {
            CompressedReader::Plain(b) => b.wf(),
            CompressedReader::Deflate(e) => e.wf(),
            CompressedReader::Gzip(e) => e.wf(),
        }
    }

    /// The framing reader that this reader reads from.
    pub open spec fn source(&self) -> BodyReader {
        match self {
            CompressedReader::Plain(b) => *b,
            CompressedReader::Deflate(e) => e.source,
            CompressedReader::Gzip(e) => e.source,
        }
    }

    /// Whether the body of a decoding reader has been decoded.
    pub open spec fn ready(&self) -> bool {
        match self {
            CompressedReader::Plain(_) => true,
            CompressedReader::Deflate(e) => e.ready,
            CompressedReader::Gzip(e) => e.ready,
        }
    }

    /// The whole decoded body: what the decoder makes of the bytes that the framing reader
    /// can deliver, or `None` where the decoder rejects them.
    pub open spec fn content(&self) -> Option<Seq<u8>> {
        match self {
            CompressedReader::Plain(b) => Some(b.available()),
            CompressedReader::Deflate(e) => if e.ready {
                Some(e.data@)
            } else {
                inflated(e.source.available())
            },
            CompressedReader::Gzip(e) => if e.ready {
                Some(e.data@)
            } else {
                gunzipped(e.source.available())
            },
        }
    }

    /// The bytes that a decoding reader holds once its body is decoded.
    pub open spec fn decoded(&self) -> Vec<u8> {
        match self {
            CompressedReader::Plain(b) => b.source,
            CompressedReader::Deflate(e) => e.data,
            CompressedReader::Gzip(e) => e.data,
        }
    }

    /// How many decoded bytes a decoding reader has delivered.
    pub open spec fn delivered(&self) -> int {
        match self {
            CompressedReader::Plain(_) => 0,
            CompressedReader::Deflate(e) => e.pos as int,
            CompressedReader::Gzip(e) => e.pos as int,
        }
    }

    /// A reader under `decoding` over `reader`, of which it has read nothing.
    pub open spec fn fresh(&self, decoding: Decoding, reader: BodyReader) -> bool {
        match self {
            CompressedReader::Plain(b) => decoding == Decoding::Plain && *b == reader,
            CompressedReader::Deflate(e) => decoding == Decoding::Deflate && e.unread(reader),
            CompressedReader::Gzip(e) => decoding == Decoding::Gzip && e.unread(reader),
        }
    }

    /// What opening a reader over `reader` under `decoding` gives: a reader that holds
    /// `reader` unread. Only gzip can fail, and only where what the framing reader can
    /// deliver does not start with a header that the decoder accepts.
    pub open spec fn opened(
        decoding: Decoding,
        reader: BodyReader,
        r: Result<CompressedReader, ClientError>,
    ) -> bool {
        if decoding == Decoding::Gzip && !gzip_header_accepted(reader.available()) {
            r matches Err(e) && *e.0 is Io
        } else {
            r matches Ok(cr) && cr.fresh(decoding, reader) && cr.wf()
        }
    }

    /// What a read of at most `max` bytes promises: `r` is its result, `self` the reader
    /// before it and `after` the reader behind it. A plain reader reads as its framing
    /// reader does. A decoding reader delivers the next bytes of the decoded body and
    /// leaves its framing reader alone; it fails, unchanged, where the decoder rejects the
    /// bytes that the framing reader can deliver.
    pub open spec fn read_from(&self, after: CompressedReader, max: usize, r: Result<
        Vec<u8>,
        ClientError,
    >) -> bool {
        match self {
            CompressedReader::Plain(b) => {
                &&& after matches CompressedReader::Plain(a)
                &&& wrapped(r) matches Some(inner)
                &&& b.read_from(a, max, inner)
            },
            _ => {
                &&& after.decoding() == self.decoding()
                &&& after.source() == self.source()
                &&& match r {
                    Ok(out) => {
                        &&& self.content() matches Some(body)
                        &&& after.content() == Some(body)
                        &&& after.ready()
                        &&& out@ == body.subrange(
                            self.delivered(),
                            next_stop(body.len() as int, self.delivered(), max as int),
                        )
                        &&& after.delivered() == self.delivered() + out@.len()
                    },
                    Err(e) => self.content().is_none() && *e.0 is Io && after == *self,
                }
            },
        }
    }

    /// What reading to the end promises: `r` is its result, `self` the reader before it and
    /// `after` the reader behind it. A plain reader delivers what its framing reader has left,
    /// and stands at the end of the body afterwards; a decoding reader delivers what is left
    /// of the decoded bytes.
    pub open spec fn drained_from(&self, after: CompressedReader, r: Result<
        Vec<u8>,
        ClientError,
    >) -> bool {
        match self {
            CompressedReader::Plain(b) => {
                &&& after matches CompressedReader::Plain(a)
                &&& match r {
                    Ok(out) => b.rest() == Ok::<(Seq<u8>, int), InvalidResponseKind>(
                        (out@, a.pos as int),
                    ) && a.finished(),
                    Err(e) => *e.0 matches ErrorKind::InvalidResponse(kind) && b.rest() == Err::<
                        (Seq<u8>, int),
                        InvalidResponseKind,
                    >(kind),
                }
            },
            _ => {
                &&& after.decoding() == self.decoding()
                &&& after.source() == self.source()
                &&& match r {
                    Ok(out) => {
                        &&& self.content() matches Some(body)
                        &&& after.content() == Some(body)
                        &&& out@ == body.subrange(self.delivered(), body.len() as int)
                        &&& after.delivered() == body.len()
                    },
                    Err(e) => self.content().is_none() && *e.0 is Io && after == *self,
                }
            },
        }
    }

    /// Opens a reader over the framed body under a decoding. Nothing is read from the
    /// framing reader; for gzip the start of what it can deliver is looked at.
    pub fn open(decoding: Decoding, reader: BodyReader) -> (r: Result<
        CompressedReader,
        ClientError,
    >)
        requires
            reader.wf(),
        ensures
            CompressedReader::opened(decoding, reader, r),
    {
        match decoding {
            Decoding::Plain => Ok(CompressedReader::Plain(reader)),
            Decoding::Deflate => Ok(
                CompressedReader::Deflate(
                    Encoded { source: reader, data: Vec::new(), pos: 0, ready: false },
                ),
            ),
            Decoding::Gzip => {
                let start = reader.peek_available();
                match gzip_open(start.as_slice()) {
                    Ok(_) => Ok(
                        CompressedReader::Gzip(
                            Encoded { source: reader, data: Vec::new(), pos: 0, ready: false },
                        ),
                    ),
                    Err(e) => Err(ClientError::from(e)),
                }
            },
        }
    }

    /// Opens a reader over the framed body of a response, with the decoding that the
    /// response's headers and the request's method select.
    pub fn new(headers: &HeaderMap<HeaderValue>, method: Method, reader: BodyReader) -> (r: Result<
        CompressedReader,
        ClientError,
    >)
        requires
            reader.wf(),
        ensures
            CompressedReader::opened(
                decoding_for(
                    method,
                    lists_encoding(*headers, "gzip".spec_bytes()),
                    lists_encoding(*headers, "deflate".spec_bytes()),
                ),
                reader,
                r,
            ),
    {
        let gzip = have_encoding(headers, "gzip");
        let deflate = have_encoding(headers, "deflate");
        CompressedReader::open(select_decoding(method, gzip, deflate), reader)
    }

    /// Delivers the next bytes of the body, at most `max` of them; none once the body has
    /// been delivered whole. The first read of an encoded body decodes it.
    pub fn read(&mut self, max: usize) -> (r: Result<Vec<u8>, ClientError>)
        requires
            old(self).wf(),
        ensures
            final(self).wf(),
            old(self).read_from(*final(self), max, r),
    {
        match self {
            CompressedReader::Plain(b) => match b.read(max) {
                Ok(out) => Ok(out),
                Err(kind) => Err(ClientError::from(kind)),
            },
            CompressedReader::Deflate(e) => {
                if !e.ready {
                    let raw = e.source.peek_available();
                    match deflate_decode(raw.as_slice()) {
                        Ok(d) => {
                            e.data = d;
                            e.ready = true;
                        },
                        Err(err) => {
                            return Err(ClientError::from(err));
                        },
                    }
                }
                Ok(e.take(max))
            },
            CompressedReader::Gzip(e) => {
                if !e.ready {
                    let raw = e.source.peek_available();
                    match gzip_decode(raw.as_slice()) {
                        Ok(d) => {
                            e.data = d;
                            e.ready = true;
                        },
                        Err(err) => {
                            return Err(ClientError::from(err));
                        },
                    }
                }
                Ok(e.take(max))
            },
        }
    }

    /// Delivers all that is left of the body: of a plain body what its framing reader has
    /// left, of an encoded body what is left of the decoded bytes.
    pub fn read_to_end(&mut self) -> (r: Result<Vec<u8>, ClientError>)
        requires
            old(self).wf(),
        ensures
            final(self).wf(),
            old(self).drained_from(*final(self), r),
    {
        match self {
            CompressedReader::Plain(b) => match b.read_to_end() {
                Ok(out) => Ok(out),
                Err(kind) => Err(ClientError::from(kind)),
            },
            _ => {
                let r = self.read(usize::MAX);
                assert(self.decoded().len() == self.decoded()@.len());
                r
            },
        }
    }
}

} // verus!
