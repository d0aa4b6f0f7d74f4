//! The wire form of a chunked body, and the proof that decoding it gives back the payloads.

use vstd::prelude::*;
use crate::error::InvalidResponseKind;
use crate::framing::{chunk_size, chunks_from, joined, trailers_end};
use crate::parse::{header_line, line_end};
use crate::text::find_byte;

verus! {

/// A carriage return and a line feed.
pub open spec fn crlf() -> Seq<u8> {
    seq![13u8, 10u8]
}

/// No byte of `s` is a line feed.
pub open spec fn no_line_feed(s: Seq<u8>) -> bool {
    forall|i: int| 0 <= i < s.len() ==> #[trigger] s[i] != 10
}

/// One chunk: its size line, without the line ending, and its payload.
pub struct Chunk {
    pub size_line: Seq<u8>,
    pub payload: Seq<u8>,
}

impl Chunk {
    /// The payload is not empty, and the size line is one line that declares its length.
    pub open spec fn valid(self) -> bool {
        &&& no_line_feed(self.size_line)
        &&& 0 < self.payload.len() <= u64::MAX
        &&& chunk_size(self.size_line) == Some(self.payload.len() as u64)
    }

    /// The chunk as it is sent: size line, line ending, payload, line ending.
    pub open spec fn bytes(self) -> Seq<u8> {
        self.size_line + crlf() + self.payload + crlf()
    }
}

/// A chunked body as it is sent: the chunks, then the size line of the last chunk, which
/// declares no payload, and the trailer block.
pub open spec fn chunked_wire(chunks: Seq<Chunk>, last: Seq<u8>, trailer: Seq<u8>) -> Seq<u8>
    decreases chunks.len(),
{
    if chunks.len() == 0 {
        last + crlf() + trailer
    } else {
        chunks[0].bytes() + chunked_wire(chunks.drop_first(), last, trailer)
    }
}

/// The payloads of the chunks, in order.
pub open spec fn payloads(chunks: Seq<Chunk>) -> Seq<Seq<u8>> {
    chunks.map_values(|c: Chunk| c.payload)
}

/// A position moved by `k`.
pub open spec fn moved(r: Result<(Seq<u8>, int), InvalidResponseKind>, k: int) -> Result<
    (Seq<u8>, int),
    InvalidResponseKind,
> {
    match r {
        Ok((body, end)) => Ok((body, end + k)),
        Err(e) => Err(e),
    }
}

/// A search passes over bytes that differ from the one searched for.
pub proof fn lemma_find_byte_skips(s: Seq<u8>, b: u8, from: int, to: int)
    requires
        0 <= from <= to <= s.len(),
        forall|j: int| from <= j < to ==> s[j] != b,
    ensures
        find_byte(s, b, from) == find_byte(s, b, to),
    decreases to - from,
{
    if from < to {
        lemma_find_byte_skips(s, b, from + 1, to);
    }
}

/// A search in the second of two joined parts finds what it finds in that part alone.
pub proof fn lemma_find_byte_shift(p: Seq<u8>, t: Seq<u8>, b: u8, from: int)
    requires
        0 <= from <= t.len(),
    ensures
        find_byte(p + t, b, p.len() + from) == p.len() + find_byte(t, b, from),
    decreases t.len() - from,
{
    if from < t.len() {
        assert((p + t)[p.len() + from] == t[from]);
        if t[from] != b {
            lemma_find_byte_shift(p, t, b, from + 1);
        }
    }
}

/// A line in the second of two joined parts is the line that it is in that part alone.
pub proof fn lemma_line_end_shift(p: Seq<u8>, t: Seq<u8>, pos: int)
    requires
        0 <= pos <= t.len(),
    ensures
        match line_end(t, pos) {
            Some((end, next)) => line_end(p + t, p.len() + pos) == Some(
                (end + p.len(), next + p.len()),
            ) && (p + t).subrange(p.len() + pos, p.len() + end) == t.subrange(pos, end) && pos
                <= end < next <= t.len(),
            None => line_end(p + t, p.len() + pos).is_none(),
        },
{
    lemma_find_byte_shift(p, t, 10, pos);
    lemma_find_byte_range(t, 10, pos);
    let nl = find_byte(t, 10, pos);
    if nl < t.len() {
        if nl > pos {
            assert((p + t)[p.len() + nl - 1] == t[nl - 1]);
        }
        let end = line_end(t, pos).unwrap().0;
        assert((p + t).subrange(p.len() + pos, p.len() + end) =~= t.subrange(pos, end));
    }
}

/// A search ends at or after its start, within the bytes, and on the byte where it ends
/// before the end.
pub proof fn lemma_find_byte_range(s: Seq<u8>, b: u8, from: int)
    requires
        0 <= from <= s.len(),
    ensures
        from <= find_byte(s, b, from) <= s.len(),
        find_byte(s, b, from) < s.len() ==> s[find_byte(s, b, from)] == b,
    decreases s.len() - from,
{
    if from < s.len() && s[from] != b {
        lemma_find_byte_range(s, b, from + 1);
    }
}

/// A trailer block in the second of two joined parts ends where it ends in that part alone.
pub proof fn lemma_trailers_shift(p: Seq<u8>, t: Seq<u8>, pos: int)
    requires
        0 <= pos <= t.len(),
    ensures
        trailers_end(p + t, p.len() + pos) == match trailers_end(t, pos) {
            Ok(stop) => Ok::<int, InvalidResponseKind>(stop + p.len()),
            Err(e) => Err(e),
        },
    decreases t.len() - pos,
{
    lemma_line_end_shift(p, t, pos);
    match line_end(t, pos) {
        Some((end, next)) => {
            if end != pos && header_line(t.subrange(pos, end)) is Ok {
                lemma_trailers_shift(p, t, next);
                assert(p.len() + next == next + p.len());
            }
        },
        None => {},
    }
}

/// A chunked body in the second of two joined parts decodes as it does in that part alone.
pub proof fn lemma_chunks_shift(p: Seq<u8>, t: Seq<u8>, pos: int, acc: Seq<u8>)
    requires
        0 <= pos <= t.len(),
    ensures
        chunks_from(p + t, p.len() + pos, acc) == moved(chunks_from(t, pos, acc), p.len() as int),
    decreases t.len() - pos,
{
    let k = p.len() as int;
    lemma_line_end_shift(p, t, pos);
    match line_end(t, pos) {
        Some((end, next)) => {
            match chunk_size(t.subrange(pos, end)) {
                Some(n) => {
                    if n == 0 {
                        lemma_trailers_shift(p, t, next);
                        assert(k + next == next + k);
                    } else if next + n + 2 <= t.len() {
                        assert((p + t)[k + next + n] == t[next + n]);
                        assert((p + t)[k + next + n + 1] == t[next + n + 1]);
                        assert((p + t).subrange(k + next, k + next + n) =~= t.subrange(
                            next,
                            next + n,
                        ));
                        if t[next + n] == 13 && t[next + n + 1] == 10 {
                            lemma_chunks_shift(p, t, next + n + 2, acc + t.subrange(next, next + n));
                            assert(k + (next + n + 2) == next + k + n + 2);
                        }
                    }
                },
                None => {},
            }
        },
        None => {},
    }
}

/// The first line of bytes that start with a line without a line feed, followed by a
/// carriage return and a line feed, is that line.
pub proof fn lemma_first_line(a: Seq<u8>, rest: Seq<u8>)
    requires
        no_line_feed(a),
    ensures
        line_end(a + crlf() + rest, 0) == Some((a.len() as int, a.len() as int + 2)),
        (a + crlf() + rest).subrange(0, a.len() as int) == a,
{
    let s = a + crlf() + rest;
    let n = a.len() as int;
    assert(s[n] == 13);
    assert(s[n + 1] == 10);
    assert forall|j: int| 0 <= j < n + 1 implies s[j] != 10 by {
        if j < n {
            assert(s[j] == a[j]);
        }
    }
    lemma_find_byte_skips(s, 10, 0, n + 1);
    assert(s.subrange(0, n) =~= a);
}

/// Decoding the wire form of a chunked body delivers the payloads of its chunks one after
/// the other and ends at the end of the trailer block: no size line, line ending or
/// trailer is part of what is delivered.
pub proof fn lemma_chunked_round_trip(
    chunks: Seq<Chunk>,
    last: Seq<u8>,
    trailer: Seq<u8>,
    acc: Seq<u8>,
)
    requires
        forall|i: int| 0 <= i < chunks.len() ==> (#[trigger] chunks[i]).valid(),
        no_line_feed(last),
        chunk_size(last) == Some(0u64),
        trailers_end(trailer, 0) == Ok::<int, InvalidResponseKind>(trailer.len() as int),
    ensures
        chunks_from(chunked_wire(chunks, last, trailer), 0, acc) == Ok::<
            (Seq<u8>, int),
            InvalidResponseKind,
        >((acc + joined(payloads(chunks)), chunked_wire(chunks, last, trailer).len() as int)),
    decreases chunks.len(),
{
    let s = chunked_wire(chunks, last, trailer);
    if chunks.len() == 0 {
        lemma_first_line(last, trailer);
        let p = last + crlf();
        assert(p + trailer =~= s);
        lemma_trailers_shift(p, trailer, 0);
        assert(payloads(chunks) =~= Seq::empty());
        assert(acc + joined(payloads(chunks)) =~= acc);
    } else {
        let c = chunks[0];
        let rest = chunks.drop_first();
        let tail = chunked_wire(rest, last, trailer);
        let n = c.payload.len() as int;
        let next = c.size_line.len() as int + 2;
        assert(s =~= c.size_line + crlf() + (c.payload + crlf() + tail));
        lemma_first_line(c.size_line, c.payload + crlf() + tail);
        assert(s[next + n] == 13);
        assert(s[next + n + 1] == 10);
        assert(s.subrange(next, next + n) =~= c.payload);
        assert(s =~= c.bytes() + tail);
        assert(c.bytes().len() == next + n + 2);
        assert forall|i: int| 0 <= i < rest.len() implies (#[trigger] rest[i]).valid() by {
            assert(rest[i] == chunks[i + 1]);
        }
        lemma_chunked_round_trip(rest, last, trailer, acc + c.payload);
        lemma_chunks_shift(c.bytes(), tail, 0, acc + c.payload);
        assert(payloads(chunks).drop_first() =~= payloads(rest));
        assert(payloads(chunks)[0] == c.payload);
        assert((acc + c.payload) + joined(payloads(rest)) =~= acc + joined(payloads(chunks)));
    }
}

} // verus!
