//! A reader over the body of a response held in memory. It delivers the body piece by
//! piece under the framing that the headers selected, and stops at the end of the body.

use vstd::prelude::*;
use vstd::slice::slice_subrange;
use crate::error::InvalidResponseKind;
use crate::framing::{
    body_of, chunk_size, chunks_from, joined, lemma_chunked_delivers_payloads, parse_chunk_size,
    payloads_from, skip_trailers, trailers_end, Framing,
};
use crate::parse::{line_end, next_line};
use crate::text::to_vec;

verus! {

/// Where a body reader stands.
#[derive(Debug, Clone, Copy, PartialEq, Eq, Structural)]
pub enum BodyState {
    /// Under a declared length, with this many bytes still to deliver.
    Length(u64),
    /// Before the size line of a chunk.
    ReadingSize,
    /// Inside a chunk, with this many bytes of it still to deliver.
    ReadingData(u64),
    /// Behind the last chunk, before the trailer block.
    ReadingTrailer,
    /// Under no framing: up to the end of the source.
    ToClose,
    /// At the end of the body.
    Done,
}

/// The state in which a reader starts under a framing.
pub open spec fn initial_state(framing: Framing) -> BodyState {
    match framing {
        Framing::ContentLength(n) => BodyState::Length(n),
        Framing::Chunked => BodyState::ReadingSize,
        Framing::CloseDelimited => BodyState::ToClose,
    }
}

/// A body with `first` put before it.
pub open spec fn prepend(first: Seq<u8>, rest: Result<(Seq<u8>, int), InvalidResponseKind>) -> Result<
    (Seq<u8>, int),
    InvalidResponseKind,
> {
    match rest {
        Ok((body, end)) => Ok((first + body, end)),
        Err(e) => Err(e),
    }
}

/// Whether the `n` bytes at `pos` are the payload of a chunk: not empty, and followed by a
/// carriage return and a line feed.
pub open spec fn chunk_at(s: Seq<u8>, pos: int, n: int) -> bool {
    n > 0 && pos + n + 2 <= s.len() && s[pos + n] == 13 && s[pos + n + 1] == 10
}

/// The shorter of a piece and what a read may take.
pub open spec fn piece_len(len: int, max: int) -> int {
    if max < len {
        max
    } else {
        len
    }
}

/// The bytes of a response and how far its body has been read.
#[derive(Debug)]
pub struct BodyReader {
    pub source: Vec<u8>,
    pub pos: usize,
    pub state: BodyState,
}

impl BodyReader {
    /// The position lies in the source, and inside a chunk the rest of the chunk does.
    pub open spec fn wf(&self) -> bool {
        &&& self.pos <= self.source@.len()
        &&& match self.state {
            BodyState::ReadingData(n) => chunk_at(self.source@, self.pos as int, n as int),
            _ => true,
        }
    }

    /// What is still to be delivered, and where the body ends in the source; or the failure
    /// that reading on will meet.
    pub open spec fn rest(&self) -> Result<(Seq<u8>, int), InvalidResponseKind> {
        let s = self.source@;
        let pos = self.pos as int;
        match self.state {
            BodyState::Length(n) => body_of(Framing::ContentLength(n), s, pos),
            BodyState::ReadingSize => chunks_from(s, pos, Seq::empty()),
            BodyState::ReadingData(n) => prepend(
                s.subrange(pos, pos + n),
                chunks_from(s, pos + n + 2, Seq::empty()),
            ),
            BodyState::ReadingTrailer => match trailers_end(s, pos) {
                Ok(stop) => Ok((Seq::empty(), stop)),
                Err(e) => Err(e),
            },
            BodyState::ToClose => Ok((s.subrange(pos, s.len() as int), s.len() as int)),
            BodyState::Done => Ok((Seq::empty(), pos)),
        }
    }

    /// The bytes that the reader delivers before it reaches the end of the body or fails:
    /// the whole body where the framing holds, else the payloads of the chunks that are
    /// whole, and nothing of a body that is shorter than its declared length.
    pub open spec fn available(&self) -> Seq<u8> {
        let s = self.source@;
        let pos = self.pos as int;
        match self.state {
            BodyState::Length(n) => if pos + n <= s.len() {
                s.subrange(pos, pos + n)
            } else {
                Seq::empty()
            },
            BodyState::ReadingSize => joined(payloads_from(s, pos)),
            BodyState::ReadingData(n) => s.subrange(pos, pos + n) + joined(
                payloads_from(s, pos + n + 2),
            ),
            BodyState::ToClose => s.subrange(pos, s.len() as int),
            _ => Seq::empty(),
        }
    }

    /// Where the piece at hand starts: behind the size line where the reader stands before
    /// one, else at the reader's position.
    pub open spec fn piece_start(&self) -> int {
        match (self.state, line_end(self.source@, self.pos as int)) {
            (BodyState::ReadingSize, Some((_, next))) => next,
            _ => self.pos as int,
        }
    }

    /// How long the piece at hand is: the rest of the declared length, of the chunk or of
    /// the source; the chunk's declared size before a size line; nothing at the end.
    pub open spec fn at_hand(&self) -> int {
        let s = self.source@;
        let pos = self.pos as int;
        match self.state {
            BodyState::Length(n) => n as int,
            BodyState::ReadingData(n) => n as int,
            BodyState::ToClose => s.len() - pos,
            BodyState::ReadingSize => match line_end(s, pos) {
                Some((end, _)) => match chunk_size(s.subrange(pos, end)) {
                    Some(n) => n as int,
                    None => 0,
                },
                None => 0,
            },
            _ => 0,
        }
    }

    /// Nothing is left to deliver, and the reader stands at the end of the body.
    pub open spec fn finished(&self) -> bool {
        self.rest() == Ok::<(Seq<u8>, int), InvalidResponseKind>((Seq::empty(), self.pos as int))
    }

    /// A reader at the start of the body that begins at `pos` in `source`.
    pub fn new(framing: Framing, source: Vec<u8>, pos: usize) -> (r: BodyReader)
        requires
            pos <= source@.len(),
        ensures
            r.wf(),
            r.source == source,
            r.pos == pos,
            r.state == initial_state(framing),
            r.rest() == body_of(framing, source@, pos as int),
    {
        let state = match framing {
            Framing::ContentLength(n) => BodyState::Length(n),
            Framing::Chunked => BodyState::ReadingSize,
            Framing::CloseDelimited => BodyState::ToClose,
        };
        BodyReader { source, pos, state }
    }

    /// What a read of at most `max` bytes promises: `r` is its result, `self` the reader
    /// before it and `after` the reader behind it.
    pub open spec fn read_from(&self, after: BodyReader, max: usize, r: Result<
        Vec<u8>,
        InvalidResponseKind,
    >) -> bool {
        &&& after.source == self.source
        &&& match r {
            Ok(out) => {
                &&& after.wf()
                &&& self.rest() == prepend(out@, after.rest())
                &&& self.available() == out@ + after.available()
                &&& out@.len() == piece_len(self.at_hand(), max as int)
                &&& out@ == self.source@.subrange(
                    self.piece_start(),
                    self.piece_start() + out@.len(),
                )
                &&& out@.len() <= max
                &&& after.pos >= self.pos
                &&& out@.len() > 0 ==> after.pos > self.pos
                &&& max > 0 && out@.len() == 0 ==> after.finished()
                &&& self.state == BodyState::Done ==> out@.len() == 0 && after == *self
            },
            Err(e) => self.rest() == Err::<(Seq<u8>, int), InvalidResponseKind>(e) && after
                == *self && self.available().len() == 0,
        }
    }

    /// Delivers the next `k` bytes of the source.
    fn deliver(&mut self, k: usize) -> (r: Vec<u8>)
        requires
            old(self).pos + k <= old(self).source@.len(),
        ensures
            final(self).source == old(self).source,
            final(self).state == old(self).state,
            final(self).pos == old(self).pos + k,
            r@ == old(self).source@.subrange(old(self).pos as int, old(self).pos + k),
    {
        let len = self.source.len();
        let out = to_vec(slice_subrange(self.source.as_slice(), self.pos, self.pos + k));
        self.pos = self.pos + k;
        out
    }

    /// Delivers the next bytes of the body, at most `max` of them and never more than the
    /// piece at hand: the rest of the declared length, the rest of the current chunk, or the
    /// rest of the source. At the end of the body it delivers nothing. A failure leaves the
    /// reader as it was.
    pub fn read(&mut self, max: usize) -> (r: Result<Vec<u8>, InvalidResponseKind>)
        requires
            old(self).wf(),
        ensures
            final(self).wf(),
            old(self).read_from(*final(self), max, r),
    {
        match self.state {
            BodyState::Done => {
                let out: Vec<u8> = Vec::new();
                proof {
                    lemma_prepend_nothing(self.rest());
                    assert(out@ =~= self.source@.subrange(self.pos as int, self.pos as int));
                    assert(self.available() =~= out@ + self.available());
                }
                Ok(out)
            },
            BodyState::ToClose => self.read_to_close(max),
            BodyState::Length(n) => self.read_length(n, max),
            BodyState::ReadingTrailer => {
                let ghost start = self.pos as int;
                let r = self.read_trailer(self.pos);
                proof {
                    if r is Ok {
                        assert(r.unwrap()@ + Seq::<u8>::empty() =~= Seq::<u8>::empty());
                        assert(r.unwrap()@ =~= self.source@.subrange(start, start));
                        assert(Seq::<u8>::empty() =~= r.unwrap()@ + self.available());
                    }
                }
                r
            },
            BodyState::ReadingSize => self.read_size(max),
            BodyState::ReadingData(n) => self.take_data(n, max),
        }
    }

    fn read_to_close(&mut self, max: usize) -> (r: Result<Vec<u8>, InvalidResponseKind>)
        requires
            old(self).wf(),
            old(self).state == BodyState::ToClose,
        ensures
            final(self).wf(),
            old(self).read_from(*final(self), max, r),
    {
        let ghost s = self.source@;
        let ghost start = self.pos as int;
        let left = self.source.len() - self.pos;
        let k = if max < left {
            max
        } else {
            left
        };
        let out = self.deliver(k);
        assert(s.subrange(start, start + k) + s.subrange(start + k, s.len() as int)
            =~= s.subrange(start, s.len() as int));
        assert(k == 0 && max > 0 ==> s.subrange(start, s.len() as int) =~= Seq::<u8>::empty());
        Ok(out)
    }

    fn read_length(&mut self, n: u64, max: usize) -> (r: Result<Vec<u8>, InvalidResponseKind>)
        requires
            old(self).wf(),
            old(self).state == BodyState::Length(n),
        ensures
            final(self).wf(),
            old(self).read_from(*final(self), max, r),
    {
        let ghost s = self.source@;
        let ghost start = self.pos as int;
        let left = self.source.len() - self.pos;
        if n > left as u64 {
            return Err(InvalidResponseKind::ContentLength);
        }
        let whole = n as usize;
        let k = if max < whole {
            max
        } else {
            whole
        };
        let out = self.deliver(k);
        self.state = BodyState::Length(n - k as u64);
        assert(s.subrange(start, start + k) + s.subrange(start + k, start + n) =~= s.subrange(
            start,
            start + n,
        ));
        assert(k == 0 && max > 0 ==> s.subrange(start, start + n) =~= Seq::<u8>::empty());
        Ok(out)
    }

    /// Steps over the trailer block that starts at `from` and ends the body.
    fn read_trailer(&mut self, from: usize) -> (r: Result<Vec<u8>, InvalidResponseKind>)
        requires
            old(self).wf(),
            from <= old(self).source@.len(),
        ensures
            final(self).source == old(self).source,
            match r {
                Ok(out) => {
                    &&& out@.len() == 0
                    &&& trailers_end(old(self).source@, from as int) == Ok::<
                        int,
                        InvalidResponseKind,
                    >(final(self).pos as int)
                    &&& final(self).pos > from
                    &&& final(self).pos <= final(self).source@.len()
                    &&& final(self).state == BodyState::Done
                },
                Err(e) => trailers_end(old(self).source@, from as int) == Err::<
                    int,
                    InvalidResponseKind,
                >(e) && *final(self) == *old(self),
            },
    {
        match skip_trailers(self.source.as_slice(), from) {
            Err(e) => Err(e),
            Ok(stop) => {
                self.pos = stop;
                self.state = BodyState::Done;
                let out: Vec<u8> = Vec::new();
                assert(out@ + Seq::<u8>::empty() =~= Seq::<u8>::empty());
                Ok(out)
            },
        }
    }

    fn read_size(&mut self, max: usize) -> (r: Result<Vec<u8>, InvalidResponseKind>)
        requires
            old(self).wf(),
            old(self).state == BodyState::ReadingSize,
        ensures
            final(self).wf(),
            old(self).read_from(*final(self), max, r),
    {
        let ghost s = self.source@;
        let len = self.source.len();
        let (end, next) = match next_line(self.source.as_slice(), self.pos) {
            None => {
                return Err(InvalidResponseKind::ChunkSize);
            },
            Some(p) => p,
        };
        let n = match parse_chunk_size(slice_subrange(self.source.as_slice(), self.pos, end)) {
            None => {
                return Err(InvalidResponseKind::ChunkSize);
            },
            Some(n) => n,
        };
        if n == 0 {
            let r = self.read_trailer(next);
            proof {
                assert(joined(payloads_from(s, old(self).pos as int)) =~= Seq::<u8>::empty());
                if r is Ok {
                    assert(r.unwrap()@ + Seq::<u8>::empty() =~= Seq::<u8>::empty());
                    assert(Seq::<u8>::empty() =~= r.unwrap()@ + self.available());
                }
            }
            return r;
        }
        let left = len - next;
        if left < 2 || n > (left - 2) as u64 {
            return Err(InvalidResponseKind::Chunk);
        }
        let data_end = next + (n as usize);
        if self.source[data_end] != 13 || self.source[data_end + 1] != 10 {
            return Err(InvalidResponseKind::Chunk);
        }
        proof {
            let data = s.subrange(next as int, next + n);
            assert(Seq::<u8>::empty() + data =~= data);
            lemma_chunks_accumulate(s, next + n + 2, data);
            let later = payloads_from(s, next + n + 2);
            assert((seq![data] + later).drop_first() =~= later);
            assert((seq![data] + later)[0] == data);
            assert(joined(payloads_from(s, old(self).pos as int)) == data + joined(later));
        }
        self.pos = next;
        self.state = BodyState::ReadingData(n);
        self.take_data(n, max)
    }

    /// Delivers up to `max` bytes of the chunk at hand, and steps over the line ending
    /// behind the chunk once its last byte is out.
    fn take_data(&mut self, n: u64, max: usize) -> (r: Result<Vec<u8>, InvalidResponseKind>)
        requires
            old(self).wf(),
            old(self).state == BodyState::ReadingData(n),
        ensures
            final(self).wf(),
            old(self).read_from(*final(self), max, r),
            r is Ok,
            max > 0 ==> r.unwrap()@.len() > 0,
    {
        let ghost s = self.source@;
        let ghost start = self.pos as int;
        let len = self.source.len();
        let whole = n as usize;
        let k = if max < whole {
            max
        } else {
            whole
        };
        let out = self.deliver(k);
        let ghost tail = chunks_from(s, start + n + 2, Seq::empty());
        let ghost later = joined(payloads_from(s, start + n + 2));
        if k == whole {
            self.pos = self.pos + 2;
            self.state = BodyState::ReadingSize;
        } else {
            assert(s.subrange(start, start + n) + later =~= s.subrange(start, start + k) + (
            s.subrange(start + k, start + n) + later));
            self.state = BodyState::ReadingData(n - k as u64);
            assert(s.subrange(start, start + k) + s.subrange(start + k, start + n) =~= s.subrange(
                start,
                start + n,
            ));
            proof {
                lemma_prepend_twice(
                    s.subrange(start, start + k),
                    s.subrange(start + k, start + n),
                    tail,
                );
            }
        }
        Ok(out)
    }

    /// Delivers all that is left of the body.
    pub fn read_to_end(&mut self) -> (r: Result<Vec<u8>, InvalidResponseKind>)
        requires
            old(self).wf(),
        ensures
            final(self).wf(),
            final(self).source == old(self).source,
            match r {
                Ok(out) => old(self).rest() == Ok::<(Seq<u8>, int), InvalidResponseKind>(
                    (out@, final(self).pos as int),
                ) && final(self).finished(),
                Err(e) => old(self).rest() == Err::<(Seq<u8>, int), InvalidResponseKind>(e),
            },
    {
        let mut all: Vec<u8> = Vec::new();
        let ghost whole = self.rest();
        proof {
            lemma_prepend_nothing(self.rest());
        }
        loop
            invariant
                self.wf(),
                self.source == old(self).source,
                whole == old(self).rest(),
                whole == prepend(all@, self.rest()),
            decreases self.source@.len() - self.pos,
        {
            let ghost before = all@;
            let ghost mid = self.rest();
            match self.read(usize::MAX) {
                Err(e) => {
                    return Err(e);
                },
                Ok(piece) => {
                    if piece.len() == 0 {
                        assert(all@ + Seq::<u8>::empty() =~= all@);
                        return Ok(all);
                    }
                    all.extend_from_slice(piece.as_slice());
                    proof {
                        assert(mid == prepend(piece@, self.rest()));
                        assert(all@ == before + piece@);
                        lemma_prepend_twice(before, piece@, self.rest());
                    }
                },
            }
        }
    }

    /// Delivers all that the reader can deliver: it reads on to the end of the body or to
    /// the first failure, and keeps the failure to itself.
    pub fn read_available(&mut self) -> (r: Vec<u8>)
        requires
            old(self).wf(),
        ensures
            final(self).wf(),
            final(self).source == old(self).source,
            r@ == old(self).available(),
            final(self).available().len() == 0,
    {
        let mut all: Vec<u8> = Vec::new();
        assert(all@ + self.available() =~= self.available());
        loop
            invariant
                self.wf(),
                self.source == old(self).source,
                old(self).available() == all@ + self.available(),
            decreases self.source@.len() - self.pos,
        {
            let ghost before = all@;
            let ghost mid = self.available();
            match self.read(usize::MAX) {
                Err(_) => {
                    assert(all@ + mid =~= all@);
                    return all;
                },
                Ok(piece) => {
                    if piece.len() == 0 {
                        proof {
                            lemma_available_is_body(*self);
                            assert(all@ + mid =~= all@);
                        }
                        return all;
                    }
                    all.extend_from_slice(piece.as_slice());
                    assert(before + (piece@ + self.available()) =~= all@ + self.available());
                },
            }
        }
    }

    /// What the reader can deliver, without moving the reader.
    pub fn peek_available(&self) -> (r: Vec<u8>)
        requires
            self.wf(),
        ensures
            r@ == self.available(),
    {
        let mut probe = BodyReader {
            source: to_vec(self.source.as_slice()),
            pos: self.pos,
            state: self.state,
        };
        probe.read_available()
    }
}

/// Where the framing holds, what the reader can deliver is the rest of the body.
pub proof fn lemma_available_is_body(reader: BodyReader)
    requires
        reader.wf(),
        reader.rest() is Ok,
    ensures
        reader.available() == reader.rest().unwrap().0,
{
    let s = reader.source@;
    let pos = reader.pos as int;
    match reader.state {
        BodyState::ReadingSize => {
            lemma_chunked_delivers_payloads(s, pos, Seq::empty());
            assert(Seq::<u8>::empty() + joined(payloads_from(s, pos)) =~= joined(
                payloads_from(s, pos),
            ));
        },
        BodyState::ReadingData(n) => {
            lemma_chunked_delivers_payloads(s, pos + n + 2, Seq::empty());
            assert(Seq::<u8>::empty() + joined(payloads_from(s, pos + n + 2)) =~= joined(
                payloads_from(s, pos + n + 2),
            ));
        },
        _ => {},
    }
}

/// At the end of the body a read delivers nothing, does not fail, and leaves the reader at
/// the end of the body.
pub proof fn lemma_read_at_end(
    before: BodyReader,
    after: BodyReader,
    max: usize,
    r: Result<Vec<u8>, InvalidResponseKind>,
)
    requires
        before.finished(),
        before.read_from(after, max, r),
        max > 0,
    ensures
        r matches Ok(out) && out@.len() == 0,
        after.finished(),
{
    match r {
        Ok(out) => {
            match after.rest() {
                Ok((body, end)) => {
                    assert((out@ + body).len() == 0);
                },
                Err(_) => {},
            }
        },
        Err(_) => {},
    }
}

/// Putting nothing in front of a body changes nothing.
pub proof fn lemma_prepend_nothing(rest: Result<(Seq<u8>, int), InvalidResponseKind>)
    ensures
        prepend(Seq::empty(), rest) == rest,
{
    match rest {
        Ok((body, end)) => {
            assert(Seq::<u8>::empty() + body =~= body);
        },
        Err(_) => {},
    }
}

/// Putting two pieces in front of a body one after the other is putting both in front.
pub proof fn lemma_prepend_twice(a: Seq<u8>, b: Seq<u8>, rest: Result<
    (Seq<u8>, int),
    InvalidResponseKind,
>)
    ensures
        prepend(a, prepend(b, rest)) == prepend(a + b, rest),
{
    match rest {
        Ok((body, end)) => {
            assert(a + (b + body) =~= (a + b) + body);
        },
        Err(_) => {},
    }
}

/// Decoding chunks onto bytes that are there already is decoding them onto nothing and
/// putting those bytes in front.
pub proof fn lemma_chunks_accumulate(s: Seq<u8>, pos: int, acc: Seq<u8>)
    ensures
        chunks_from(s, pos, acc) == prepend(acc, chunks_from(s, pos, Seq::empty())),
    decreases s.len() - pos,
{
    match line_end(s, pos) {
        None => {},
        Some((end, next)) => match chunk_size(s.subrange(pos, end)) {
            None => {},
            Some(n) => {
                if n == 0 {
                    assert(acc + Seq::<u8>::empty() =~= acc);
                } else if next + n + 2 > s.len() || s[next + n] != 13 || s[next + n + 1] != 10 {
                } else {
                    let data = s.subrange(next, next + n);
                    lemma_chunks_accumulate(s, next + n + 2, acc + data);
                    lemma_chunks_accumulate(s, next + n + 2, Seq::empty() + data);
                    assert(Seq::<u8>::empty() + data =~= data);
                    match chunks_from(s, next + n + 2, Seq::empty()) {
                        Ok((body, stop)) => {
                            assert((acc + data) + body =~= acc + (data + body));
                        },
                        Err(_) => {},
                    }
                }
            },
        },
    }
}

} // verus!
