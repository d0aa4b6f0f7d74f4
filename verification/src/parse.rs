//! The status line and the header block of a response.

use vstd::prelude::*;
use vstd::slice::slice_subrange;
use crate::error::InvalidResponseKind;
use crate::text::{lemma_find_byte_stable, find_byte, index_of, is_space, lower_bytes, lowered, to_vec, trim, trimmed};

verus! {

/// The first line of a response.
#[derive(Debug, Clone, PartialEq, Eq)]
pub struct StatusLine {
    pub major: u8,
    pub minor: u8,
    pub code: u16,
    pub reason: Vec<u8>,
}

/// What a `StatusLine` stands for.
pub struct StatusLineModel {
    pub major: int,
    pub minor: int,
    pub code: int,
    pub reason: Seq<u8>,
}

impl View for StatusLine {
    type V = StatusLineModel;

    open spec fn view(&self) -> StatusLineModel {
        StatusLineModel {
            major: self.major as int,
            minor: self.minor as int,
            code: self.code as int,
            reason: self.reason@,
        }
    }
}

/// One header: the name in lower case, and the value without surrounding whitespace.
#[derive(Debug, Clone, PartialEq, Eq)]
pub struct Header {
    pub name: Vec<u8>,
    pub value: Vec<u8>,
}

impl View for Header {
    type V = (Seq<u8>, Seq<u8>);

    open spec fn view(&self) -> (Seq<u8>, Seq<u8>) {
        (self.name@, self.value@)
    }
}

/// A decimal digit.
pub open spec fn is_digit(b: u8) -> bool {
    48 <= b && b <= 57
}

/// `HTTP/x.y` with one decimal digit for each of `x` and `y`.
pub open spec fn is_version(v: Seq<u8>) -> bool {
    &&& v.len() == 8
    &&& v[0] == 72
    &&& v[1] == 84
    &&& v[2] == 84
    &&& v[3] == 80
    &&& v[4] == 47
    &&& is_digit(v[5])
    &&& v[6] == 46
    &&& is_digit(v[7])
}

/// Exactly three decimal digits.
pub open spec fn is_code(c: Seq<u8>) -> bool {
    c.len() == 3 && is_digit(c[0]) && is_digit(c[1]) && is_digit(c[2])
}

/// The number that three decimal digits write.
pub open spec fn code_value(c: Seq<u8>) -> int {
    100 * (c[0] - 48) + 10 * (c[1] - 48) + (c[2] - 48)
}

/// The meaning of a status line (without its line ending): the version token up to the first
/// space, the code token up to the next one, and the rest as the reason.
pub open spec fn status_line(line: Seq<u8>) -> Result<StatusLineModel, InvalidResponseKind> {
    let sp1 = find_byte(line, 32, 0);
    let sp2 = find_byte(line, 32, sp1 + 1);
    let code = line.subrange(sp1 + 1, sp2);
    if sp1 >= line.len() || !is_version(line.subrange(0, sp1)) {
        Err(InvalidResponseKind::StatusLine)
    } else if !is_code(code) || code_value(code) < 100 || code_value(code) > 599 {
        Err(InvalidResponseKind::StatusCode)
    } else {
        Ok(
            StatusLineModel {
                major: line[5] - 48,
                minor: line[7] - 48,
                code: code_value(code),
                reason: if sp2 < line.len() {
                    line.subrange(sp2 + 1, line.len() as int)
                } else {
                    Seq::empty()
                },
            },
        )
    }
}

/// The meaning of one header line (without its line ending). A line that starts with
/// whitespace, has no colon, or has an empty name is malformed.
pub open spec fn header_line(line: Seq<u8>) -> Result<(Seq<u8>, Seq<u8>), InvalidResponseKind> {
    let colon = find_byte(line, 58, 0);
    let name = lowered(trimmed(line.subrange(0, colon)));
    if line.len() == 0 || is_space(line[0]) || colon >= line.len() || name.len() == 0 {
        Err(InvalidResponseKind::Header)
    } else {
        Ok((name, trimmed(line.subrange(colon + 1, line.len() as int))))
    }
}

/// The line that starts at `pos`: where its content ends and where the next line starts.
/// A line ends at the first line feed; one carriage return before it is not part of the line.
pub open spec fn line_end(s: Seq<u8>, pos: int) -> Option<(int, int)> {
    let nl = find_byte(s, 10, pos);
    if 0 <= pos <= nl < s.len() {
        Some((if nl > pos && s[nl - 1] == 13 { nl - 1 } else { nl }, nl + 1))
    } else {
        None
    }
}

/// The header block that starts at `pos`, appended to `acc`, with the position after the
/// blank line that ends it.
pub open spec fn headers_from(s: Seq<u8>, pos: int, acc: Seq<(Seq<u8>, Seq<u8>)>) -> Result<
    (Seq<(Seq<u8>, Seq<u8>)>, int),
    InvalidResponseKind,
>
    decreases s.len() - pos,
{
    match line_end(s, pos) {
        None => Err(InvalidResponseKind::Header),
        Some((end, next)) => if end == pos {
            Ok((acc, next))
        } else {
            match header_line(s.subrange(pos, end)) {
                Err(e) => Err(e),
                Ok(h) => headers_from(s, next, acc.push(h)),
            }
        },
    }
}

/// Bytes appended after a line that is whole change neither its extent nor its content.
pub proof fn lemma_line_end_stable(s: Seq<u8>, more: Seq<u8>, pos: int)
    requires
        line_end(s, pos) is Some,
    ensures
        line_end(s + more, pos) == line_end(s, pos),
        (s + more).subrange(pos, line_end(s, pos).unwrap().0) == s.subrange(
            pos,
            line_end(s, pos).unwrap().0,
        ),
{
    let nl = find_byte(s, 10, pos);
    lemma_find_byte_stable(s, more, 10, pos);
    if nl > pos {
        assert((s + more)[nl - 1] == s[nl - 1]);
    }
    let end = line_end(s, pos).unwrap().0;
    assert((s + more).subrange(pos, end) =~= s.subrange(pos, end));
}

/// What the head of a response holds.
pub struct HeadModel {
    pub status: StatusLineModel,
    pub headers: Seq<(Seq<u8>, Seq<u8>)>,
    pub body_start: int,
}

/// The meaning of a response's head: the status line, then headers up to the first blank line.
pub open spec fn head(s: Seq<u8>) -> Result<HeadModel, InvalidResponseKind> {
    match line_end(s, 0) {
        None => Err(InvalidResponseKind::StatusLine),
        Some((end, next)) => match status_line(s.subrange(0, end)) {
            Err(e) => Err(e),
            Ok(st) => match headers_from(s, next, Seq::empty()) {
                Err(e) => Err(e),
                Ok((hs, body)) => Ok(HeadModel { status: st, headers: hs, body_start: body }),
            },
        },
    }
}

/// The views of a list of headers, in order.
pub open spec fn header_views(hs: Seq<Header>) -> Seq<(Seq<u8>, Seq<u8>)> {
    hs.map_values(|h: Header| h@)
}

/// The parsed head of a response and the offset at which its body starts.
#[derive(Debug, Clone, PartialEq, Eq)]
pub struct Head {
    pub status: StatusLine,
    pub headers: Vec<Header>,
    pub body_start: usize,
}

impl View for Head {
    type V = HeadModel;

    open spec fn view(&self) -> HeadModel {
        HeadModel {
            status: self.status@,
            headers: header_views(self.headers@),
            body_start: self.body_start as int,
        }
    }
}

pub fn is_digit_byte(b: u8) -> (r: bool)
    ensures
        r == is_digit(b),
{
    48 <= b && b <= 57
}

/// Finds the end of the line that starts at `pos`.
pub fn next_line(s: &[u8], pos: usize) -> (r: Option<(usize, usize)>)
    requires
        pos <= s@.len(),
    ensures
        match r {
            Some((end, next)) => line_end(s@, pos as int) == Some((end as int, next as int))
                && pos <= end < next <= s@.len(),
            None => line_end(s@, pos as int).is_none(),
        },
{
    let nl = index_of(s, 10, pos);
    if nl >= s.len() {
        None
    } else if nl > pos && s[nl - 1] == 13 {
        Some((nl - 1, nl + 1))
    } else {
        Some((nl, nl + 1))
    }
}

/// Parses a status line, given without its line ending.
pub fn parse_status_line(line: &[u8]) -> (r: Result<StatusLine, InvalidResponseKind>)
    ensures
        match r {
            Ok(st) => status_line(line@) == Ok::<StatusLineModel, InvalidResponseKind>(st@),
            Err(e) => status_line(line@) == Err::<StatusLineModel, InvalidResponseKind>(e),
        },
{
    let n = line.len();
    let sp1 = index_of(line, 32, 0);
    if sp1 >= n {
        return Err(InvalidResponseKind::StatusLine);
    }
    let version = slice_subrange(line, 0, sp1);
    if !(version.len() == 8 && version[0] == 72 && version[1] == 84 && version[2] == 84
        && version[3] == 80 && version[4] == 47 && is_digit_byte(version[5]) && version[6] == 46
        && is_digit_byte(version[7])) {
        return Err(InvalidResponseKind::StatusLine);
    }
    let sp2 = index_of(line, 32, sp1 + 1);
    let code = slice_subrange(line, sp1 + 1, sp2);
    if !(code.len() == 3 && is_digit_byte(code[0]) && is_digit_byte(code[1]) && is_digit_byte(
        code[2],
    )) {
        return Err(InvalidResponseKind::StatusCode);
    }
    let value: u16 = 100 * ((code[0] - 48) as u16) + 10 * ((code[1] - 48) as u16) + ((code[2]
        - 48) as u16);
    if value < 100 || value > 599 {
        return Err(InvalidResponseKind::StatusCode);
    }
    let reason = if sp2 < n {
        to_vec(slice_subrange(line, sp2 + 1, n))
    } else {
        Vec::new()
    };
    Ok(StatusLine { major: line[5] - 48, minor: line[7] - 48, code: value, reason })
}

/// Parses one header line, given without its line ending.
pub fn parse_header_line(line: &[u8]) -> (r: Result<Header, InvalidResponseKind>)
    ensures
        match r {
            Ok(h) => header_line(line@) == Ok::<(Seq<u8>, Seq<u8>), InvalidResponseKind>(h@),
            Err(e) => header_line(line@) == Err::<(Seq<u8>, Seq<u8>), InvalidResponseKind>(e),
        },
{
    let n = line.len();
    if n == 0 || crate::text::is_space_byte(line[0]) {
        return Err(InvalidResponseKind::Header);
    }
    let colon = index_of(line, 58, 0);
    if colon >= n {
        return Err(InvalidResponseKind::Header);
    }
    let name = lower_bytes(trim(slice_subrange(line, 0, colon)));
    if name.len() == 0 {
        return Err(InvalidResponseKind::Header);
    }
    let value = to_vec(trim(slice_subrange(line, colon + 1, n)));
    Ok(Header { name, value })
}

/// Parses the head of a response: the status line and the headers up to the blank line.
pub fn parse_head(s: &[u8]) -> (r: Result<Head, InvalidResponseKind>)
    ensures
        match r {
            Ok(h) => head(s@) == Ok::<HeadModel, InvalidResponseKind>(h@)
                && h.body_start <= s@.len(),
            Err(e) => head(s@) == Err::<HeadModel, InvalidResponseKind>(e),
        },
{
    let (end, first) = match next_line(s, 0) {
        None => {
            return Err(InvalidResponseKind::StatusLine);
        },
        Some(p) => p,
    };
    let status = match parse_status_line(slice_subrange(s, 0, end)) {
        Err(e) => {
            return Err(e);
        },
        Ok(st) => st,
    };
    let mut headers: Vec<Header> = Vec::new();
    let mut pos: usize = first;
    assert(header_views(headers@) =~= Seq::empty());
    loop
        invariant
            pos <= s@.len(),
            headers_from(s@, first as int, Seq::empty()) == headers_from(
                s@,
                pos as int,
                header_views(headers@),
            ),
            line_end(s@, 0) == Some((end as int, first as int)),
            status_line(s@.subrange(0, end as int)) == Ok::<StatusLineModel, InvalidResponseKind>(
                status@,
            ),
        decreases s@.len() - pos,
    {
        let (line_stop, next) = match next_line(s, pos) {
            None => {
                return Err(InvalidResponseKind::Header);
            },
            Some(p) => p,
        };
        if line_stop == pos {
            return Ok(Head { status, headers, body_start: next });
        }
        match parse_header_line(slice_subrange(s, pos, line_stop)) {
            Err(e) => {
                return Err(e);
            },
            Ok(h) => {
                let ghost before = header_views(headers@);
                headers.push(h);
                assert(header_views(headers@) =~= before.push(h@));
                pos = next;
            },
        }
    }
}

} // verus!
