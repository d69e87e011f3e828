//! A line-oriented parser for the same wire protocol, working on whole
//! buffers rather than a streaming ring: the buffer is split at line
//! feeds, each line is decoded on its own, and every decoded command is
//! handed to a caller-supplied handler.  An optional carriage return
//! before the line feed is tolerated.  Coordinates are 16-bit here, and
//! an eight-digit color is alpha-first (AARRGGBB).

use vstd::prelude::*;

use crate::bgra::Bgra;

verus! {

broadcast use vstd::seq_lib::lemma_seq_skip_index, vstd::seq_lib::lemma_seq_skip_len;

/// One decoded command of the line protocol.
#[derive(Debug, Clone, Copy, PartialEq, Eq, Structural)]
pub enum Command {
    Help,
    Size,
    Offset { x: u16, y: u16 },
    GetPixel { x: u16, y: u16 },
    SetPixel { x: u16, y: u16, color: Bgra },
}

/// Implemented by whatever executes decoded commands.
pub trait CommandHandler {
    type Error;

    fn handle(&mut self, cmd: Command) -> Result<(), Self::Error>;
}

/// Marks the error type a [`CommandHandler`] may return.
pub trait CommandExecutionError: PartialEq {
}

/// Why feeding a buffer stopped.
#[derive(Debug, PartialEq, Eq)]
pub enum ParserError<E: CommandExecutionError> {
    UnknownCommand,
    InvalidCoordinates,
    InvalidColor,
    InvalidInteger,
    CommandExecutionError(E),
}

/// The parse errors a single line can produce.
#[derive(Debug, Clone, Copy, PartialEq, Eq, Structural)]
pub enum ParseFailKind {
    UnknownCommand,
    InvalidCoordinates,
    InvalidColor,
    InvalidInteger,
}

/// What one line means: nothing (an empty line), a command, or an
/// error.
pub enum LineOutcome {
    Skip,
    Cmd(Command),
    Fail(ParseFailKind),
}

/// The position of the first `sep` in `s`, if any.
pub open spec fn spec_first_index(s: Seq<u8>, sep: u8) -> Option<int>
    decreases s.len(),
{
    if s.len() == 0 {
        None::<int>
    } else if s[0] == sep {
        Some(0int)
    } else {
        match spec_first_index(s.skip(1), sep) {
            Some(i) => Some(i + 1),
            None => None::<int>,
        }
    }
}

/// Split `s` at every `sep`: the pieces between separators, in order,
/// the empty piece included.
pub open spec fn spec_split(s: Seq<u8>, sep: u8) -> Seq<Seq<u8>>
    decreases s.len(),
{
    match spec_first_index(s, sep) {
        None => seq![s],
        Some(j) => if 0 <= j < s.len() {
            seq![s.take(j)] + spec_split(s.skip(j + 1), sep)
        } else {
            seq![s]
        },
    }
}

/// The position `spec_first_index` names holds `sep` and nothing
/// before it does.
proof fn lemma_first_index_char(s: Seq<u8>, sep: u8)
    ensures
        match spec_first_index(s, sep) {
            Some(i) => 0 <= i < s.len() && s[i] == sep && forall|k: int| 0 <= k < i ==> s[k] != sep,
            None => forall|k: int| 0 <= k < s.len() ==> s[k] != sep,
        },
    decreases s.len(),
{
    if s.len() > 0 && s[0] != sep {
        let rest = s.skip(1);
        lemma_first_index_char(rest, sep);
        match spec_first_index(rest, sep) {
            Some(i) => {
                assert(s[i + 1] == rest[i]);
                assert forall|k: int| 0 <= k < i + 1 implies s[k] != sep by {
                    if k > 0 {
                        assert(rest[k - 1] == s[k]);
                    }
                }
            },
            None => {
                assert forall|k: int| 0 <= k < s.len() implies s[k] != sep by {
                    if k > 0 {
                        assert(rest[k - 1] == s[k]);
                    }
                }
            },
        }
    }
}

/// The numeric value of a run of decimal digit bytes, or nothing if
/// any byte is no digit or the run is empty.
pub open spec fn spec_dec_value(s: Seq<u8>, acc: int) -> Option<int>
    decreases s.len(),
{
    if s.len() == 0 {
        Some(acc)
    } else if 48 <= s[0] <= 57 {
        spec_dec_value(s.skip(1), acc * 10 + (s[0] - 48))
    } else {
        None::<int>
    }
}

/// The numeric value of a run of hexadecimal digit bytes (either
/// case), or nothing if any byte is no such digit or the run is empty.
pub open spec fn spec_hex_value(s: Seq<u8>, acc: int) -> Option<int>
    decreases s.len(),
{
    if s.len() == 0 {
        Some(acc)
    } else if crate::command_ring::spec_hex_lookup(s[0]) != crate::command_ring::INVALID_HEX_DIGIT {
        spec_hex_value(s.skip(1), acc * 16 + crate::command_ring::spec_hex_lookup(s[0]))
    } else {
        None::<int>
    }
}

/// A decimal numeral as `u16::from_str` reads it: an optional leading
/// plus sign, then at least one digit, and a value that fits.
pub open spec fn spec_parse_u16(s: Seq<u8>) -> Option<u16> {
    let body = if s.len() > 0 && s[0] == 43 {
        s.skip(1)
    } else {
        s
    };
    if body.len() == 0 {
        None::<u16>
    } else {
        match spec_dec_value(body, 0) {
            Some(v) => if v <= 0xffff {
                Some(v as u16)
            } else {
                None::<u16>
            },
            None => None::<u16>,
        }
    }
}

/// A hexadecimal numeral as `u32::from_str_radix(_, 16)` reads it: an
/// optional leading plus sign, then at least one digit of either case,
/// and a value that fits.
pub open spec fn spec_parse_hex_u32(s: Seq<u8>) -> Option<u32> {
    let body = if s.len() > 0 && s[0] == 43 {
        s.skip(1)
    } else {
        s
    };
    if body.len() == 0 {
        None::<u32>
    } else {
        match spec_hex_value(body, 0) {
            Some(v) => if v <= 0xffffffff {
                Some(v as u32)
            } else {
                None::<u32>
            },
            None => None::<u32>,
        }
    }
}

/// A line with any trailing carriage return removed.
pub open spec fn spec_strip_cr(s: Seq<u8>) -> Seq<u8> {
    if s.len() > 0 && s[s.len() - 1] == 13 {
        s.take(s.len() - 1)
    } else {
        s
    }
}

/// The color piece of a `PX` write: two digits are grayscale, six are
/// RGB, eight are alpha-first ARGB; any other length is an invalid
/// color, and a bad digit an invalid integer.
pub open spec fn spec_parse_color(piece: Seq<u8>) -> Result<Bgra, ParseFailKind> {
    if piece.len() == 6 {
        match spec_parse_hex_u32(piece) {
            Some(v) => Ok(Bgra::spec_from_rgb(v)),
            None => Err(ParseFailKind::InvalidInteger),
        }
    } else if piece.len() == 8 {
        match spec_parse_hex_u32(piece) {
            Some(v) => Ok(Bgra::spec_from_argb(v)),
            None => Err(ParseFailKind::InvalidInteger),
        }
    } else if piece.len() == 2 {
        match spec_parse_hex_u32(piece) {
            Some(v) => Ok(Bgra::spec_from_bw((v % 0x100) as u8)),
            None => Err(ParseFailKind::InvalidInteger),
        }
    } else {
        Err(ParseFailKind::InvalidColor)
    }
}

/// What one line of the buffer means.  The fixed verbs must fill the
/// whole line; `OFFSET` and `PX` expect space-separated decimal
/// coordinates, and `PX` with three pieces expects a color, checked
/// before the coordinates.
pub open spec fn spec_parse_line(line: Seq<u8>) -> LineOutcome {
    if line.len() == 0 {
        LineOutcome::Skip
    } else if line == seq![72u8, 69u8, 76u8, 80u8] || line == seq![72u8, 69u8, 76u8, 80u8, 13u8] {
        LineOutcome::Cmd(Command::Help)
    } else if line == seq![83u8, 73u8, 90u8, 69u8] || line == seq![83u8, 73u8, 90u8, 69u8, 13u8] {
        LineOutcome::Cmd(Command::Size)
    } else if line.len() >= 7 && line.take(7) == seq![79u8, 70u8, 70u8, 83u8, 69u8, 84u8, 32u8] {
        let pieces = spec_split(spec_strip_cr(line.skip(7)), 32);
        if pieces.len() == 2 {
            match (spec_parse_u16(pieces[0]), spec_parse_u16(pieces[1])) {
                (Some(x), Some(y)) => LineOutcome::Cmd(Command::Offset { x, y }),
                _ => LineOutcome::Fail(ParseFailKind::InvalidInteger),
            }
        } else {
            LineOutcome::Fail(ParseFailKind::InvalidCoordinates)
        }
    } else if line.len() >= 3 && line.take(3) == seq![80u8, 88u8, 32u8] {
        let pieces = spec_split(spec_strip_cr(line.skip(3)), 32);
        if pieces.len() == 3 {
            match spec_parse_color(pieces[2]) {
                Ok(color) => match (spec_parse_u16(pieces[0]), spec_parse_u16(pieces[1])) {
                    (Some(x), Some(y)) => LineOutcome::Cmd(Command::SetPixel { x, y, color }),
                    _ => LineOutcome::Fail(ParseFailKind::InvalidInteger),
                },
                Err(k) => LineOutcome::Fail(k),
            }
        } else if pieces.len() == 2 {
            match (spec_parse_u16(pieces[0]), spec_parse_u16(pieces[1])) {
                (Some(x), Some(y)) => LineOutcome::Cmd(Command::GetPixel { x, y }),
                _ => LineOutcome::Fail(ParseFailKind::InvalidInteger),
            }
        } else {
            LineOutcome::Fail(ParseFailKind::InvalidCoordinates)
        }
    } else {
        LineOutcome::Fail(ParseFailKind::UnknownCommand)
    }
}

/// The commands a buffer's lines decode to, or the first parse error.
pub open spec fn spec_feed_lines(lines: Seq<Seq<u8>>) -> Result<Seq<Command>, ParseFailKind>
    decreases lines.len(),
{
    if lines.len() == 0 {
        Ok(Seq::<Command>::empty())
    } else {
        match spec_parse_line(lines[0]) {
            LineOutcome::Skip => spec_feed_lines(lines.skip(1)),
            LineOutcome::Cmd(c) => match spec_feed_lines(lines.skip(1)) {
                Ok(cs) => Ok(seq![c] + cs),
                Err(k) => Err(k),
            },
            LineOutcome::Fail(k) => Err(k),
        }
    }
}

/// The commands a whole buffer decodes to, or the first parse error.
pub open spec fn spec_feed(data: Seq<u8>) -> Result<Seq<Command>, ParseFailKind> {
    spec_feed_lines(spec_split(data, 10))
}

/// A parse error kind as the caller-facing error type.
pub open spec fn spec_fail_as_error<E: CommandExecutionError>(k: ParseFailKind) -> ParserError<E> {
    match k {
        ParseFailKind::UnknownCommand => ParserError::UnknownCommand,
        ParseFailKind::InvalidCoordinates => ParserError::InvalidCoordinates,
        ParseFailKind::InvalidColor => ParserError::InvalidColor,
        ParseFailKind::InvalidInteger => ParserError::InvalidInteger,
    }
}

/// Split a buffer at every `sep` byte.
pub fn split_bytes(data: &[u8], sep: u8) -> (r: Vec<Vec<u8>>)
    ensures
        r.deep_view() == spec_split(data@, sep),
{
    let mut pieces: Vec<Vec<u8>> = Vec::new();
    let mut pos: usize = 0;
    proof {
        assert(data@.skip(0) =~= data@);
        assert(pieces.deep_view() =~= Seq::<Seq<u8>>::empty());
        assert(pieces.deep_view() + spec_split(data@.skip(0), sep) =~= spec_split(data@, sep));
    }
    loop
        invariant
            pos <= data@.len(),
            spec_split(data@, sep) == pieces.deep_view() + spec_split(data@.skip(pos as int), sep),
        decreases data@.len() - pos,
    {
        let mut j = pos;
        while j < data.len() && data[j] != sep
            invariant
                pos <= j <= data@.len(),
                forall|k: int| pos <= k < j ==> data@[k] != sep,
            decreases data@.len() - j,
        {
            j = j + 1;
        }
        let mut piece: Vec<u8> = Vec::new();
        let mut k = pos;
        while k < j
            invariant
                pos <= k <= j <= data@.len(),
                piece@ == data@.subrange(pos as int, k as int),
            decreases j - k,
        {
            proof {
                assert(data@.subrange(pos as int, k as int).push(data@[k as int])
                    =~= data@.subrange(pos as int, k as int + 1));
            }
            piece.push(data[k]);
            k = k + 1;
        }
        let ghost rest = data@.skip(pos as int);
        let ghost dv = pieces.deep_view();
        proof {
            lemma_first_index_char(rest, sep);
        }
        if j == data.len() {
            proof {
                match spec_first_index(rest, sep) {
                    Some(i) => {
                        assert(rest[i] == data@[pos + i]);
                        assert(false);
                    },
                    None => {},
                }
                assert(piece@ =~= rest);
            }
            pieces.push(piece);
            proof {
                assert(pieces.deep_view() =~~= dv.push(rest));
                assert(dv.push(rest) =~= dv + seq![rest]);
                assert(spec_split(rest, sep) == seq![rest]);
            }
            return pieces;
        } else {
            proof {
                assert(data@[j as int] == sep);
                assert(rest[j - pos] == sep);
                match spec_first_index(rest, sep) {
                    Some(i) => {
                        if i < j - pos {
                            assert(rest[i] == data@[pos + i]);
                            assert(false);
                        }
                        if i > j - pos {
                            assert(false);
                        }
                    },
                    None => {
                        assert(false);
                    },
                }
                assert(piece@ =~= rest.take(j - pos));
                assert(rest.skip(j - pos + 1) =~= data@.skip(j as int + 1));
            }
            pieces.push(piece);
            proof {
                assert(pieces.deep_view() =~~= dv.push(rest.take(j - pos)));
                assert(dv.push(rest.take(j - pos)) + spec_split(data@.skip(j as int + 1), sep)
                    =~= dv + (seq![rest.take(j - pos)] + spec_split(data@.skip(j as int + 1), sep)));
            }
            pos = j + 1;
        }
    }
}

/// Read a decimal numeral as `u16::from_str` does.
pub fn parse_u16_bytes(piece: &Vec<u8>) -> (r: Option<u16>)
    ensures
        r == spec_parse_u16(piece@),
{
    let n = piece.len();
    let start: usize = if n > 0 && piece[0] == 43 {
        1
    } else {
        0
    };
    let ghost body = if piece@.len() > 0 && piece@[0] == 43 {
        piece@.skip(1)
    } else {
        piece@
    };
    if start == n {
        return None;
    }
    let mut i = start;
    let mut val: u64 = 0;
    let ghost mut gv: int = 0;
    proof {
        assert(body.skip(0) =~= body);
    }
    while i < n
        invariant
            start <= i <= n,
            n == piece@.len(),
            start == 1 ==> (piece@.len() > 0 && piece@[0] == 43),
            start == 0 ==> !(piece@.len() > 0 && piece@[0] == 43),
            body == (if piece@.len() > 0 && piece@[0] == 43 {
                piece@.skip(1)
            } else {
                piece@
            }),
            body.len() == n - start,
            0 <= gv,
            gv <= 0xffff ==> val == gv,
            gv > 0xffff ==> val == 0x10000,
            spec_dec_value(body, 0) == spec_dec_value(body.skip(i - start), gv),
        decreases n - i,
    {
        let b = piece[i];
        proof {
            assert(body.skip(i - start)[0] == body[i - start] == piece@[i as int]);
            assert(body.skip(i - start).skip(1) =~= body.skip(i - start + 1));
        }
        if b < 48 || b > 57 {
            return None;
        }
        proof {
            gv = gv * 10 + (b - 48);
        }
        val = val * 10 + ((b - 48) as u64);
        if val > 0xffff {
            val = 0x10000;
        }
        i = i + 1;
    }
    if val <= 0xffff {
        Some(val as u16)
    } else {
        None
    }
}

/// Read a hexadecimal numeral as `u32::from_str_radix(_, 16)` does.
pub fn parse_hex_u32_bytes(piece: &Vec<u8>) -> (r: Option<u32>)
    ensures
        r == spec_parse_hex_u32(piece@),
{
    let n = piece.len();
    let start: usize = if n > 0 && piece[0] == 43 {
        1
    } else {
        0
    };
    let ghost body = if piece@.len() > 0 && piece@[0] == 43 {
        piece@.skip(1)
    } else {
        piece@
    };
    if start == n {
        return None;
    }
    let mut i = start;
    let mut val: u64 = 0;
    let ghost mut gv: int = 0;
    proof {
        assert(body.skip(0) =~= body);
    }
    while i < n
        invariant
            start <= i <= n,
            n == piece@.len(),
            start == 1 ==> (piece@.len() > 0 && piece@[0] == 43),
            start == 0 ==> !(piece@.len() > 0 && piece@[0] == 43),
            body == (if piece@.len() > 0 && piece@[0] == 43 {
                piece@.skip(1)
            } else {
                piece@
            }),
            body.len() == n - start,
            0 <= gv,
            gv <= 0xffffffff ==> val == gv,
            gv > 0xffffffff ==> val == 0x100000000,
            spec_hex_value(body, 0) == spec_hex_value(body.skip(i - start), gv),
        decreases n - i,
    {
        let b = piece[i];
        proof {
            assert(body.skip(i - start)[0] == body[i - start] == piece@[i as int]);
            assert(body.skip(i - start).skip(1) =~= body.skip(i - start + 1));
        }
        let d = crate::command_ring::hex_lookup(b);
        if d == crate::command_ring::INVALID_HEX_DIGIT {
            return None;
        }
        proof {
            gv = gv * 16 + crate::command_ring::spec_hex_lookup(piece@[i as int]);
        }
        val = val * 16 + (d as u64);
        if val > 0xffffffff {
            val = 0x100000000;
        }
        i = i + 1;
    }
    if val <= 0xffffffff {
        Some(val as u32)
    } else {
        None
    }
}

/// Decode the color piece of a `PX` write.
pub fn parse_color(piece: &Vec<u8>) -> (r: Result<Bgra, ParseFailKind>)
    ensures
        r == spec_parse_color(piece@),
{
    if piece.len() == 6 {
        match parse_hex_u32_bytes(piece) {
            Some(v) => Ok(Bgra::from_rgb(v)),
            None => Err(ParseFailKind::InvalidInteger),
        }
    } else if piece.len() == 8 {
        match parse_hex_u32_bytes(piece) {
            Some(v) => Ok(Bgra::from_argb(v)),
            None => Err(ParseFailKind::InvalidInteger),
        }
    } else if piece.len() == 2 {
        match parse_hex_u32_bytes(piece) {
            Some(v) => Ok(Bgra::from_bw((v % 0x100) as u8)),
            None => Err(ParseFailKind::InvalidInteger),
        }
    } else {
        Err(ParseFailKind::InvalidColor)
    }
}

/// Copy the line from `from` on, with a trailing carriage return
/// dropped.
fn tail_without_cr(line: &Vec<u8>, from: usize) -> (r: Vec<u8>)
    requires
        from <= line@.len(),
    ensures
        r@ == spec_strip_cr(line@.skip(from as int)),
{
    let n = line.len();
    let end = if n > from && line[n - 1] == 13 {
        n - 1
    } else {
        n
    };
    let mut out: Vec<u8> = Vec::new();
    let mut k = from;
    while k < end
        invariant
            from <= k <= end <= line@.len(),
            out@ == line@.subrange(from as int, k as int),
        decreases end - k,
    {
        proof {
            assert(line@.subrange(from as int, k as int).push(line@[k as int]) =~= line@.subrange(
                from as int,
                k as int + 1,
            ));
        }
        out.push(line[k]);
        k = k + 1;
    }
    proof {
        assert(out@ =~= spec_strip_cr(line@.skip(from as int)));
    }
    out
}

/// Decode one line of the buffer.
pub fn parse_line(line: &Vec<u8>) -> (r: LineOutcome)
    ensures
        r == spec_parse_line(line@),
{
    let n = line.len();
    if n == 0 {
        return LineOutcome::Skip;
    }
    if (n == 4 && line[0] == 72 && line[1] == 69 && line[2] == 76 && line[3] == 80) || (n == 5
        && line[0] == 72 && line[1] == 69 && line[2] == 76 && line[3] == 80 && line[4] == 13) {
        proof {
            if line@.len() == 4 {
                assert(line@ =~= seq![72u8, 69u8, 76u8, 80u8]);
            } else {
                assert(line@ =~= seq![72u8, 69u8, 76u8, 80u8, 13u8]);
            }
        }
        return LineOutcome::Cmd(Command::Help);
    }
    if (n == 4 && line[0] == 83 && line[1] == 73 && line[2] == 90 && line[3] == 69) || (n == 5
        && line[0] == 83 && line[1] == 73 && line[2] == 90 && line[3] == 69 && line[4] == 13) {
        proof {
            if line@.len() == 4 {
                assert(line@ =~= seq![83u8, 73u8, 90u8, 69u8]);
            } else {
                assert(line@ =~= seq![83u8, 73u8, 90u8, 69u8, 13u8]);
            }
        }
        return LineOutcome::Cmd(Command::Size);
    }
    if n >= 7 && line[0] == 79 && line[1] == 70 && line[2] == 70 && line[3] == 83 && line[4] == 69
        && line[5] == 84 && line[6] == 32 {
        proof {
            assert(line@.take(7) =~= seq![79u8, 70u8, 70u8, 83u8, 69u8, 84u8, 32u8]);
        }
        let cords = tail_without_cr(line, 7);
        let pieces = split_bytes(cords.as_slice(), 32);
        let ghost sp = spec_split(spec_strip_cr(line@.skip(7)), 32);
        if pieces.len() == 2 {
            let p0: &Vec<u8> = &pieces[0];
            let p1: &Vec<u8> = &pieces[1];
            proof {
                assert(p0.deep_view() =~= p0@);
                assert(p1.deep_view() =~= p1@);
                assert(p0@ == sp[0] && p1@ == sp[1]);
            }
            match (parse_u16_bytes(p0), parse_u16_bytes(p1)) {
                (Some(x), Some(y)) => {
                    return LineOutcome::Cmd(Command::Offset { x, y });
                },
                _ => {
                    return LineOutcome::Fail(ParseFailKind::InvalidInteger);
                },
            }
        } else {
            return LineOutcome::Fail(ParseFailKind::InvalidCoordinates);
        }
    }
    if n >= 3 && line[0] == 80 && line[1] == 88 && line[2] == 32 {
        proof {
            assert(line@.take(3) =~= seq![80u8, 88u8, 32u8]);
        }
        let params = tail_without_cr(line, 3);
        let pieces = split_bytes(params.as_slice(), 32);
        let ghost sp = spec_split(spec_strip_cr(line@.skip(3)), 32);
        if pieces.len() == 3 {
            let p0: &Vec<u8> = &pieces[0];
            let p1: &Vec<u8> = &pieces[1];
            let p2: &Vec<u8> = &pieces[2];
            proof {
                assert(p0.deep_view() =~= p0@);
                assert(p1.deep_view() =~= p1@);
                assert(p2.deep_view() =~= p2@);
                assert(p0@ == sp[0] && p1@ == sp[1] && p2@ == sp[2]);
            }
            match parse_color(p2) {
                Ok(color) => match (parse_u16_bytes(p0), parse_u16_bytes(p1)) {
                    (Some(x), Some(y)) => LineOutcome::Cmd(Command::SetPixel { x, y, color }),
                    _ => LineOutcome::Fail(ParseFailKind::InvalidInteger),
                },
                Err(k) => LineOutcome::Fail(k),
            }
        } else if pieces.len() == 2 {
            let p0: &Vec<u8> = &pieces[0];
            let p1: &Vec<u8> = &pieces[1];
            proof {
                assert(p0.deep_view() =~= p0@);
                assert(p1.deep_view() =~= p1@);
                assert(p0@ == sp[0] && p1@ == sp[1]);
            }
            match (parse_u16_bytes(p0), parse_u16_bytes(p1)) {
                (Some(x), Some(y)) => LineOutcome::Cmd(Command::GetPixel { x, y }),
                _ => LineOutcome::Fail(ParseFailKind::InvalidInteger),
            }
        } else {
            LineOutcome::Fail(ParseFailKind::InvalidCoordinates)
        }
    } else {
        LineOutcome::Fail(ParseFailKind::UnknownCommand)
    }
}

/// Decode a whole buffer into its command sequence, or the first
/// parse error: exactly the value of [`spec_feed`].
pub fn parse_commands(data: &[u8]) -> (res: Result<Vec<Command>, ParseFailKind>)
    ensures
        spec_feed(data@) matches Ok(cs) ==> (res matches Ok(v) && v@ == cs),
        spec_feed(data@) matches Err(k) ==> res == Err::<Vec<Command>, ParseFailKind>(k),
{
    let lines = split_bytes(data, 10);
    let n = lines.len();
    let ghost dv = lines.deep_view();
    let mut out: Vec<Command> = Vec::new();
    let mut l: usize = 0;
    proof {
        assert(dv.skip(0) =~= dv);
        assert(out@ + spec_feed_lines(dv)->Ok_0 =~= spec_feed_lines(dv)->Ok_0);
    }
    while l < n
        invariant
            l <= n,
            n == lines@.len(),
            dv == lines.deep_view(),
            dv == spec_split(data@, 10),
            dv.len() == n,
            spec_feed(data@) is Ok <==> spec_feed_lines(dv.skip(l as int)) is Ok,
            spec_feed(data@) matches Ok(cs) ==> (spec_feed_lines(dv.skip(l as int)) matches Ok(
                rest,
            ) && cs == out@ + rest),
            spec_feed(data@) matches Err(k) ==> spec_feed_lines(dv.skip(l as int)) == Err::<
                Seq<Command>,
                ParseFailKind,
            >(k),
        decreases n - l,
    {
        let lv: &Vec<u8> = &lines[l];
        proof {
            assert(lv.deep_view() =~= lv@);
            assert(dv.skip(l as int)[0] == dv[l as int]);
            assert(dv.skip(l as int).skip(1) =~= dv.skip(l as int + 1));
        }
        match parse_line(lv) {
            LineOutcome::Skip => {},
            LineOutcome::Cmd(c) => {
                let ghost out0 = out@;
                out.push(c);
                proof {
                    match spec_feed_lines(dv.skip(l as int + 1)) {
                        Ok(rest2) => {
                            assert(out0 + (seq![c] + rest2) =~= (out0.push(c)) + rest2);
                        },
                        Err(_) => {},
                    }
                }
            },
            LineOutcome::Fail(k) => {
                return Err(k);
            },
        }
        l = l + 1;
    }
    proof {
        match spec_feed_lines(dv.skip(n as int)) {
            Ok(rest) => {
                assert(out@ + rest =~= out@);
            },
            Err(_) => {},
        }
    }
    Ok(out)
}

/// The line-at-a-time parser.
pub struct NaiveParser;

impl NaiveParser {
    /// Decode `data` whole, then hand each command to `handler` in
    /// order, stopping at the first error the handler returns.  A parse
    /// error is reported before any command is executed; a buffer whose
    /// lines all decode fails only if the handler does, and a buffer
    /// that decodes to no commands at all succeeds outright.
    pub fn feed<E: CommandExecutionError, H: CommandHandler<Error = E>>(
        &mut self,
        data: &[u8],
        handler: &mut H,
    ) -> (res: Result<(), ParserError<E>>)
        ensures
            spec_feed(data@) matches Err(k) ==> res == Err::<(), ParserError<E>>(
                spec_fail_as_error::<E>(k),
            ),
            spec_feed(data@) matches Ok(cs) ==> (res is Ok || (res matches Err(e) && e
                is CommandExecutionError)),
            spec_feed(data@) matches Ok(cs) && cs.len() == 0 ==> res == Ok::<(), ParserError<E>>(
                (),
            ),
            res is Ok ==> spec_feed(data@) is Ok,
    {
        match parse_commands(data) {
            Err(k) => Err(
                match k {
                    ParseFailKind::UnknownCommand => ParserError::UnknownCommand,
                    ParseFailKind::InvalidCoordinates => ParserError::InvalidCoordinates,
                    ParseFailKind::InvalidColor => ParserError::InvalidColor,
                    ParseFailKind::InvalidInteger => ParserError::InvalidInteger,
                },
            ),
            Ok(commands) => {
                let n = commands.len();
                let mut i: usize = 0;
                while i < n
                    invariant
                        i <= n,
                        n == commands@.len(),
                        spec_feed(data@) matches Ok(cs) && cs == commands@,
                    decreases n - i,
                {
                    match handler.handle(commands[i]) {
                        Ok(()) => {},
                        Err(e) => {
                            return Err(ParserError::CommandExecutionError(e));
                        },
                    }
                    i = i + 1;
                }
                Ok(())
            },
        }
    }
}

} // verus!
