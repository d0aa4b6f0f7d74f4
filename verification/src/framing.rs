//! How the body of a response is delimited, and the bytes that each discipline delivers.

use vstd::prelude::*;
use vstd::slice::slice_subrange;
use vstd::string::StringSliceAdditionalSpecFns;
use crate::error::InvalidResponseKind;
use crate::headers::{any_has_item, header_values, values_have_item, values_of};
use crate::parse::{lemma_line_end_stable, header_line, header_views, line_end, next_line, parse_header_line, Header};
use crate::text::{find_byte, index_of, to_vec, trim, trimmed};

verus! {

/// The discipline that delimits a body.
#[derive(Debug, Clone, Copy, PartialEq, Eq, Structural)]
pub enum Framing {
    /// Exactly this many bytes.
    ContentLength(u64),
    /// Size-prefixed segments up to a segment of size zero.
    Chunked,
    /// Everything up to the end of the stream.
    CloseDelimited,
}

/// The value of a digit in base 16 or below, or -1 for any other byte.
pub open spec fn digit_of(b: u8) -> int {
    if 48 <= b && b <= 57 {
        b - 48
    } else if 97 <= b && b <= 102 {
        b - 87
    } else if 65 <= b && b <= 70 {
        b - 55
    } else {
        -1
    }
}

/// Whether every byte of `s` is a digit of the base.
pub open spec fn all_digits(s: Seq<u8>, base: int) -> bool {
    forall|i: int| 0 <= i < s.len() ==> 0 <= #[trigger] digit_of(s[i]) < base
}

/// The number that the digits of `s` write in the base, most significant first.
pub open spec fn number(s: Seq<u8>, base: int) -> int
    decreases s.len(),
{
    if s.len() == 0 {
        0
    } else {
        number(s.drop_last(), base) * base + digit_of(s.last())
    }
}

/// The number written by `s`, where `s` is a non-empty string of digits of the base and the
/// number fits in 64 bits.
pub open spec fn number_of(s: Seq<u8>, base: int) -> Option<u64> {
    if s.len() > 0 && all_digits(s, base) && number(s, base) <= u64::MAX {
        Some(number(s, base) as u64)
    } else {
        None
    }
}

/// The size that a chunk's size line declares: hexadecimal digits, with anything from the
/// first semicolon on and surrounding whitespace left out.
pub open spec fn chunk_size(line: Seq<u8>) -> Option<u64> {
    number_of(trimmed(line.subrange(0, find_byte(line, 59, 0))), 16)
}

/// The discipline that a header list selects: chunked where `Transfer-Encoding` lists it,
/// else the first `Content-Length`, else close-delimited.
pub open spec fn framing_of(hs: Seq<(Seq<u8>, Seq<u8>)>) -> Result<Framing, InvalidResponseKind> {
    let lengths = values_of(hs, "content-length".spec_bytes());
    if any_has_item(values_of(hs, "transfer-encoding".spec_bytes()), "chunked".spec_bytes()) {
        Ok(Framing::Chunked)
    } else if lengths.len() == 0 {
        Ok(Framing::CloseDelimited)
    } else {
        match number_of(lengths[0], 10) {
            Some(n) => Ok(Framing::ContentLength(n)),
            None => Err(InvalidResponseKind::ContentLength),
        }
    }
}

/// Where the trailer block that starts at `pos` ends: after its blank line.
pub open spec fn trailers_end(s: Seq<u8>, pos: int) -> Result<int, InvalidResponseKind>
    decreases s.len() - pos,
{
    match line_end(s, pos) {
        None => Err(InvalidResponseKind::Chunk),
        Some((end, next)) => if end == pos {
            Ok(next)
        } else if header_line(s.subrange(pos, end)) is Err {
            Err(InvalidResponseKind::Chunk)
        } else {
            trailers_end(s, next)
        },
    }
}

/// The payloads of the chunks that start at `pos`, appended to `acc`, with the position
/// after the trailer block.
pub open spec fn chunks_from(s: Seq<u8>, pos: int, acc: Seq<u8>) -> Result<
    (Seq<u8>, int),
    InvalidResponseKind,
>
    decreases s.len() - pos,
{
    match line_end(s, pos) {
        None => Err(InvalidResponseKind::ChunkSize),
        Some((end, next)) => match chunk_size(s.subrange(pos, end)) {
            None => Err(InvalidResponseKind::ChunkSize),
            Some(n) => if n == 0 {
                match trailers_end(s, next) {
                    Err(e) => Err(e),
                    Ok(stop) => Ok((acc, stop)),
                }
            } else if next + n + 2 > s.len() || s[next + n] != 13 || s[next + n + 1] != 10 {
                Err(InvalidResponseKind::Chunk)
            } else {
                chunks_from(s, next + n + 2, acc + s.subrange(next, next + n))
            },
        },
    }
}

/// The body that starts at `pos` under a discipline, with the position after it.
pub open spec fn body_of(f: Framing, s: Seq<u8>, pos: int) -> Result<
    (Seq<u8>, int),
    InvalidResponseKind,
> {
    match f {
        Framing::ContentLength(n) => if pos + n <= s.len() {
            Ok((s.subrange(pos, pos + n), pos + n))
        } else {
            Err(InvalidResponseKind::ContentLength)
        },
        Framing::Chunked => chunks_from(s, pos, Seq::empty()),
        Framing::CloseDelimited => Ok((s.subrange(pos, s.len() as int), s.len() as int)),
    }
}

/// The payloads of the chunks that start at `pos`, in order, up to the first line that is
/// no size line of a chunk that is whole.
pub open spec fn payloads_from(s: Seq<u8>, pos: int) -> Seq<Seq<u8>>
    decreases s.len() - pos,
{
    match line_end(s, pos) {
        None => Seq::empty(),
        Some((end, next)) => match chunk_size(s.subrange(pos, end)) {
            None => Seq::empty(),
            Some(n) => if n == 0 || next + n + 2 > s.len() || s[next + n] != 13 || s[next + n + 1]
                != 10 {
                Seq::empty()
            } else {
                seq![s.subrange(next, next + n)] + payloads_from(s, next + n + 2)
            },
        },
    }
}

/// The parts one after the other.
pub open spec fn joined(parts: Seq<Seq<u8>>) -> Seq<u8>
    decreases parts.len(),
{
    if parts.len() == 0 {
        Seq::empty()
    } else {
        parts[0] + joined(parts.drop_first())
    }
}

/// A chunked body that decodes delivers the payloads of its chunks one after the other, and
/// nothing else: no size line, no line ending and no trailer is part of it.
pub proof fn lemma_chunked_delivers_payloads(s: Seq<u8>, pos: int, acc: Seq<u8>)
    requires
        chunks_from(s, pos, acc) is Ok,
    ensures
        chunks_from(s, pos, acc).unwrap().0 == acc + joined(payloads_from(s, pos)),
    decreases s.len() - pos,
{
    let (end, next) = line_end(s, pos).unwrap();
    let n = chunk_size(s.subrange(pos, end)).unwrap();
    if n == 0 {
        assert(acc + joined(payloads_from(s, pos)) =~= acc);
    } else {
        let data = s.subrange(next, next + n);
        let rest = payloads_from(s, next + n + 2);
        lemma_chunked_delivers_payloads(s, next + n + 2, acc + data);
        assert((seq![data] + rest).drop_first() =~= rest);
        assert((seq![data] + rest)[0] == data);
        assert(joined(seq![data] + rest) == data + joined(rest));
        assert((acc + data) + joined(rest) =~= acc + (data + joined(rest)));
    }
}

/// Under a declared length of `n` the body is the `n` bytes that follow the head, whatever
/// comes after them, and it ends right behind them.
pub proof fn lemma_content_length_delivers(s: Seq<u8>, pos: int, n: u64, more: Seq<u8>)
    requires
        0 <= pos,
        pos + n <= s.len(),
    ensures
        body_of(Framing::ContentLength(n), s + more, pos) == Ok::<
            (Seq<u8>, int),
            InvalidResponseKind,
        >((s.subrange(pos, pos + n), pos + n)),
        s.subrange(pos, pos + n).len() == n,
{
    assert((s + more).subrange(pos, pos + n) =~= s.subrange(pos, pos + n));
}

/// A body that is shorter than its declared length is refused.
pub proof fn lemma_content_length_short(s: Seq<u8>, pos: int, n: u64)
    requires
        0 <= pos <= s.len(),
        pos + n > s.len(),
    ensures
        body_of(Framing::ContentLength(n), s, pos) == Err::<(Seq<u8>, int), InvalidResponseKind>(
            InvalidResponseKind::ContentLength,
        ),
{
}

/// Bytes appended after a trailer block that is whole do not change where it ends.
pub proof fn lemma_trailers_stable(s: Seq<u8>, more: Seq<u8>, pos: int)
    requires
        trailers_end(s, pos) is Ok,
    ensures
        trailers_end(s + more, pos) == trailers_end(s, pos),
    decreases s.len() - pos,
{
    lemma_line_end_stable(s, more, pos);
    let (end, next) = line_end(s, pos).unwrap();
    if end != pos {
        lemma_trailers_stable(s, more, next);
    }
}

/// Bytes appended after a chunked body that is whole change neither what it delivers nor
/// where it ends.
pub proof fn lemma_chunked_stable(s: Seq<u8>, more: Seq<u8>, pos: int, acc: Seq<u8>)
    requires
        chunks_from(s, pos, acc) is Ok,
    ensures
        chunks_from(s + more, pos, acc) == chunks_from(s, pos, acc),
    decreases s.len() - pos,
{
    lemma_line_end_stable(s, more, pos);
    let (end, next) = line_end(s, pos).unwrap();
    let n = chunk_size(s.subrange(pos, end)).unwrap();
    if n == 0 {
        lemma_trailers_stable(s, more, next);
    } else {
        assert((s + more)[next + n] == s[next + n]);
        assert((s + more)[next + n + 1] == s[next + n + 1]);
        assert((s + more).subrange(next, next + n) =~= s.subrange(next, next + n));
        lemma_chunked_stable(s, more, next + n + 2, acc + s.subrange(next, next + n));
    }
}

/// Where the body has a length or is chunked, nothing that follows it on the connection
/// changes it: it ends where the framing says, and the next message starts there.
pub proof fn lemma_body_ignores_what_follows(f: Framing, s: Seq<u8>, more: Seq<u8>, pos: int)
    requires
        0 <= pos,
        f != Framing::CloseDelimited,
        body_of(f, s, pos) is Ok,
    ensures
        body_of(f, s + more, pos) == body_of(f, s, pos),
{
    match f {
        Framing::ContentLength(n) => {
            lemma_content_length_delivers(s, pos, n, more);
            lemma_content_length_delivers(s, pos, n, Seq::empty());
            assert(s + Seq::<u8>::empty() =~= s);
        },
        Framing::Chunked => {
            lemma_chunked_stable(s, more, pos, Seq::empty());
        },
        Framing::CloseDelimited => {},
    }
}

/// A prefix of a digit string writes a number that is not negative and not above the whole.
pub proof fn lemma_prefix_number(s: Seq<u8>, base: int, i: int)
    requires
        all_digits(s, base),
        base >= 1,
        0 <= i <= s.len(),
    ensures
        0 <= number(s.subrange(0, i), base) <= number(s, base),
    decreases s.len() - i,
{
    lemma_number_nonnegative(s.subrange(0, i), base);
    if i == s.len() {
        assert(s.subrange(0, i) =~= s);
    } else {
        lemma_prefix_number(s, base, i + 1);
        let p = s.subrange(0, i + 1);
        assert(p.drop_last() =~= s.subrange(0, i));
        let v = number(s.subrange(0, i), base);
        assert(digit_of(p.last()) >= 0);
        assert(v * base >= v) by (nonlinear_arith)
            requires
                v >= 0,
                base >= 1,
        ;
    }
}

/// A digit string writes a number that is not negative.
pub proof fn lemma_number_nonnegative(s: Seq<u8>, base: int)
    requires
        all_digits(s, base),
        base >= 1,
    ensures
        0 <= number(s, base),
    decreases s.len(),
{
    if s.len() > 0 {
        lemma_number_nonnegative(s.drop_last(), base);
        let v = number(s.drop_last(), base);
        assert(digit_of(s.last()) >= 0);
        assert(v * base >= 0) by (nonlinear_arith)
            requires
                v >= 0,
                base >= 1,
        ;
    }
}

/// The value of a digit, or `None` for a byte that is no hexadecimal digit.
pub fn digit_value(b: u8) -> (r: Option<u8>)
    ensures
        match r {
            Some(d) => digit_of(b) == d && d < 16,
            None => digit_of(b) == -1,
        },
{
    if 48 <= b && b <= 57 {
        Some(b - 48)
    } else if 97 <= b && b <= 102 {
        Some(b - 87)
    } else if 65 <= b && b <= 70 {
        Some(b - 55)
    } else {
        None
    }
}

/// Reads a non-empty string of digits in base 10 or 16 as a number of 64 bits.
pub fn parse_number(s: &[u8], base: u8) -> (r: Option<u64>)
    requires
        base == 10 || base == 16,
    ensures
        r == number_of(s@, base as int),
{
    if s.len() == 0 {
        return None;
    }
    let mut acc: u64 = 0;
    let mut i: usize = 0;
    assert(s@.subrange(0, 0) =~= Seq::empty());
    while i < s.len()
        invariant
            i <= s@.len(),
            s@.len() > 0,
            base == 10 || base == 16,
            all_digits(s@.subrange(0, i as int), base as int),
            acc == number(s@.subrange(0, i as int), base as int),
        decreases s@.len() - i,
    {
        let ghost p = s@.subrange(0, i + 1);
        assert(p.drop_last() =~= s@.subrange(0, i as int));
        let d = match digit_value(s[i]) {
            Some(d) => d,
            None => {
                assert(digit_of(s@[i as int]) == -1);
                return None;
            },
        };
        if d >= base {
            assert(digit_of(s@[i as int]) >= base);
            return None;
        }
        assert(all_digits(p, base as int)) by {
            assert forall|j: int| 0 <= j < p.len() implies 0 <= #[trigger] digit_of(p[j])
                < base by {
                if j < i {
                    assert(p[j] == s@.subrange(0, i as int)[j]);
                }
            }
        }
        let next = match acc.checked_mul(base as u64) {
            Some(m) => m.checked_add(d as u64),
            None => None,
        };
        match next {
            Some(v) => {
                acc = v;
            },
            None => {
                proof {
                    if all_digits(s@, base as int) {
                        lemma_prefix_number(s@, base as int, i + 1);
                    }
                }
                return None;
            },
        }
        i += 1;
    }
    assert(s@.subrange(0, i as int) =~= s@);
    Some(acc)
}

/// Reads the size that a chunk's size line declares.
pub fn parse_chunk_size(line: &[u8]) -> (r: Option<u64>)
    ensures
        r == chunk_size(line@),
{
    let stop = index_of(line, 59, 0);
    parse_number(trim(slice_subrange(line, 0, stop)), 16)
}

/// Selects the discipline that delimits the body.
pub fn framing_mode(headers: &Vec<Header>) -> (r: Result<Framing, InvalidResponseKind>)
    ensures
        r == framing_of(header_views(headers@)),
{
    let encodings = header_values(headers, "transfer-encoding".as_bytes());
    if values_have_item(&encodings, "chunked".as_bytes()) {
        return Ok(Framing::Chunked);
    }
    let lengths = header_values(headers, "content-length".as_bytes());
    if lengths.len() == 0 {
        return Ok(Framing::CloseDelimited);
    }
    assert(crate::headers::byte_views(lengths@)[0] == lengths@[0]@);
    match parse_number(lengths[0].as_slice(), 10) {
        Some(n) => Ok(Framing::ContentLength(n)),
        None => Err(InvalidResponseKind::ContentLength),
    }
}

/// Consumes the trailer block after the last chunk.
pub fn skip_trailers(s: &[u8], pos: usize) -> (r: Result<usize, InvalidResponseKind>)
    requires
        pos <= s@.len(),
    ensures
        match r {
            Ok(stop) => trailers_end(s@, pos as int) == Ok::<int, InvalidResponseKind>(stop as int)
                && pos < stop <= s@.len(),
            Err(e) => trailers_end(s@, pos as int) == Err::<int, InvalidResponseKind>(e),
        },
{
    let mut at: usize = pos;
    loop
        invariant
            pos <= at <= s@.len(),
            trailers_end(s@, pos as int) == trailers_end(s@, at as int),
        decreases s@.len() - at,
    {
        let (end, next) = match next_line(s, at) {
            None => {
                return Err(InvalidResponseKind::Chunk);
            },
            Some(p) => p,
        };
        if end == at {
            return Ok(next);
        }
        if parse_header_line(slice_subrange(s, at, end)).is_err() {
            return Err(InvalidResponseKind::Chunk);
        }
        at = next;
    }
}

/// Decodes the chunked body that starts at `pos`: the payloads in order, and the position
/// after the trailer block.
pub fn decode_chunked(s: &[u8], pos: usize) -> (r: Result<(Vec<u8>, usize), InvalidResponseKind>)
    requires
        pos <= s@.len(),
    ensures
        match r {
            Ok((body, stop)) => chunks_from(s@, pos as int, Seq::empty()) == Ok::<
                (Seq<u8>, int),
                InvalidResponseKind,
            >((body@, stop as int)) && pos < stop <= s@.len(),
            Err(e) => chunks_from(s@, pos as int, Seq::empty()) == Err::<
                (Seq<u8>, int),
                InvalidResponseKind,
            >(e),
        },
{
    let mut out: Vec<u8> = Vec::new();
    let mut at: usize = pos;
    loop
        invariant
            pos <= at <= s@.len(),
            chunks_from(s@, pos as int, Seq::empty()) == chunks_from(s@, at as int, out@),
        decreases s@.len() - at,
    {
        let (end, next) = match next_line(s, at) {
            None => {
                return Err(InvalidResponseKind::ChunkSize);
            },
            Some(p) => p,
        };
        let n = match parse_chunk_size(slice_subrange(s, at, end)) {
            None => {
                return Err(InvalidResponseKind::ChunkSize);
            },
            Some(n) => n,
        };
        if n == 0 {
            return match skip_trailers(s, next) {
                Err(e) => Err(e),
                Ok(stop) => Ok((out, stop)),
            };
        }
        let left = s.len() - next;
        if left < 2 || n > (left - 2) as u64 {
            return Err(InvalidResponseKind::Chunk);
        }
        let data_end = next + (n as usize);
        if s[data_end] != 13 || s[data_end + 1] != 10 {
            return Err(InvalidResponseKind::Chunk);
        }
        let ghost before = out@;
        out.extend_from_slice(slice_subrange(s, next, data_end));
        assert(out@ == before + s@.subrange(next as int, next + n));
        assert(chunks_from(s@, at as int, before) == chunks_from(s@, next + n + 2, out@));
        at = data_end + 2;
    }
}

/// Extracts the body that starts at `pos` under the given discipline, with the position
/// after it. Nothing past that position is looked at.
pub fn read_body(framing: Framing, s: &[u8], pos: usize) -> (r: Result<
    (Vec<u8>, usize),
    InvalidResponseKind,
>)
    requires
        pos <= s@.len(),
    ensures
        match r {
            Ok((body, stop)) => body_of(framing, s@, pos as int) == Ok::<
                (Seq<u8>, int),
                InvalidResponseKind,
            >((body@, stop as int)) && pos <= stop <= s@.len(),
            Err(e) => body_of(framing, s@, pos as int) == Err::<
                (Seq<u8>, int),
                InvalidResponseKind,
            >(e),
        },
{
    match framing {
        Framing::ContentLength(n) => {
            if n > (s.len() - pos) as u64 {
                Err(InvalidResponseKind::ContentLength)
            } else {
                let stop = pos + (n as usize);
                Ok((to_vec(slice_subrange(s, pos, stop)), stop))
            }
        },
        Framing::Chunked => decode_chunked(s, pos),
        Framing::CloseDelimited => Ok((to_vec(slice_subrange(s, pos, s.len())), s.len())),
    }
}

} // verus!
