//! A fixed-capacity byte ring that the network read path fills and the
//! streaming command parser drains.  Read and write positions chase each
//! other modulo the capacity; a last-operation marker tells a full ring
//! from an empty one when they coincide.  The parser consumes commands
//! transactionally: a command cut short by the end of the received bytes
//! leaves the ring exactly as it was.

use vstd::prelude::*;

use crate::bgra::Bgra;
use crate::command::Command;

verus! {

broadcast use vstd::seq_lib::lemma_seq_skip_index, vstd::seq_lib::lemma_seq_skip_len;

/// Errors of the streaming parser.
#[derive(Debug, Clone, Copy, PartialEq, Eq, Structural)]
pub enum CommandRingError {
    /// The bytes so far are a prefix of a valid command; parsing can
    /// resume once more arrive.
    MoreDataRequired,
    /// A coordinate held this byte, which is no digit.
    InvalidDecimalDigit(u8),
    /// A color held this byte, which is no hexadecimal digit.
    InvalidHexadecimalDigit(u8),
    /// A color had a number of digits other than 2, 6 or 8.
    InvalidColor,
    /// The line starts with none of the known verbs.
    UnknownVerb,
}

/// Whether the last pointer movement was a read or a write; resolves the
/// full-versus-empty ambiguity when the two positions coincide.
#[derive(Debug, Clone, Copy, PartialEq, Eq, Structural)]
enum Operation {
    Read,
    Write,
}

/// The byte ring.  Its mathematical state is `contents()`: the received
/// and not yet consumed bytes, oldest first.
#[derive(Debug)]
pub struct CommandRing {
    buf: Vec<u8>,
    read: usize,
    write: usize,
    last_op: Operation,
}

/// Position `i` of a ring of capacity `cap`, folded back after the end.
/// Meaningful for `0 <= i < 2 * cap`.
spec fn ring_wrap(i: int, cap: int) -> int {
    if i < cap {
        i
    } else {
        i - cap
    }
}

impl CommandRing {
    /// The positions lie inside the buffer and the buffer is not empty.
    pub closed spec fn wf(self) -> bool {
        &&& self.buf@.len() >= 1
        &&& self.read < self.buf@.len()
        &&& self.write < self.buf@.len()
    }

    /// Total number of bytes the ring can hold.
    pub closed spec fn spec_capacity(self) -> int {
        self.buf@.len() as int
    }

    /// Number of bytes received and not yet consumed.
    closed spec fn avail(self) -> int {
        if self.read < self.write {
            self.write - self.read
        } else if self.read > self.write {
            self.spec_capacity() - self.read + self.write
        } else if self.last_op is Write {
            self.spec_capacity()
        } else {
            0
        }
    }

    /// The received and not yet consumed bytes, oldest first.
    pub closed spec fn contents(self) -> Seq<u8> {
        Seq::new(
            self.avail() as nat,
            |i: int| self.buf@[ring_wrap(self.read + i, self.spec_capacity())],
        )
    }

    /// The number of unconsumed bytes never exceeds the capacity.
    pub proof fn lemma_contents_bounded(self)
        requires
            self.wf(),
        ensures
            self.contents().len() <= self.spec_capacity(),
    {
    }

    /// A fresh, empty ring of capacity `size`.
    pub fn new(size: usize) -> (res: CommandRing)
        requires
            size >= 1,
        ensures
            res.wf(),
            res.spec_capacity() == size,
            res.contents() == Seq::<u8>::empty(),
    {
        let mut buf: Vec<u8> = Vec::new();
        let mut i: usize = 0;
        while i < size
            invariant
                i <= size,
                buf@.len() == i,
            decreases size - i,
        {
            buf.push(0);
            i = i + 1;
        }
        let res = CommandRing { buf, read: 0, write: 0, last_op: Operation::Read };
        proof {
            assert(res.contents() =~= Seq::<u8>::empty());
        }
        res
    }

    /// Total number of bytes the ring can hold.
    pub fn capacity(&self) -> (r: usize)
        ensures
            r == self.spec_capacity(),
    {
        self.buf.len()
    }

    /// Number of bytes received and not yet consumed.
    pub fn available_to_read(&self) -> (r: usize)
        requires
            self.wf(),
        ensures
            r == self.contents().len(),
    {
        if self.read < self.write {
            self.write - self.read
        } else if self.read > self.write {
            self.buf.len() - self.read + self.write
        } else {
            match self.last_op {
                Operation::Write => self.buf.len(),
                Operation::Read => 0,
            }
        }
    }

    /// Room left for incoming bytes.
    pub fn free_space(&self) -> (r: usize)
        requires
            self.wf(),
        ensures
            r == self.spec_capacity() - self.contents().len(),
    {
        self.buf.len() - self.available_to_read()
    }

    /// The unconsumed byte at offset `j`.
    fn ring_at(&self, j: usize) -> (r: u8)
        requires
            self.wf(),
            j < self.contents().len(),
        ensures
            r == self.contents()[j as int],
    {
        let idx = if j < self.buf.len() - self.read {
            self.read + j
        } else {
            j - (self.buf.len() - self.read)
        };
        self.buf[idx]
    }

    /// Append one received byte.
    fn push_byte(&mut self, b: u8)
        requires
            old(self).wf(),
            old(self).contents().len() < old(self).spec_capacity(),
        ensures
            final(self).wf(),
            final(self).spec_capacity() == old(self).spec_capacity(),
            final(self).read == old(self).read,
            final(self).contents() == old(self).contents().push(b),
    {
        proof {
            assert(ring_wrap(self.read + self.avail(), self.spec_capacity()) == self.write);
        }
        let cap = self.buf.len();
        self.buf.set(self.write, b);
        self.write = if self.write + 1 == cap {
            0
        } else {
            self.write + 1
        };
        self.last_op = Operation::Write;
        proof {
            assert(self.avail() == old(self).avail() + 1);
            assert forall|i: int| 0 <= i < old(self).avail() implies self.contents()[i] == old(self).contents()[i] by {
                assert(ring_wrap(self.read + i, self.spec_capacity()) != old(self).write);
            }
            assert(self.contents() =~= old(self).contents().push(b));
        }
    }

    /// Append as much of `data` as fits; the rest stays with the caller.
    /// Returns how many bytes were taken.
    pub fn push_bytes(&mut self, data: &[u8]) -> (n: usize)
        requires
            old(self).wf(),
        ensures
            final(self).wf(),
            final(self).spec_capacity() == old(self).spec_capacity(),
            n == vstd::math::min(
                data@.len() as int,
                old(self).spec_capacity() - old(self).contents().len(),
            ),
            final(self).contents() == old(self).contents() + data@.take(n as int),
    {
        let free = self.free_space();
        let n = if data.len() < free {
            data.len()
        } else {
            free
        };
        let mut i: usize = 0;
        while i < n
            invariant
                i <= n,
                n <= data@.len(),
                self.wf(),
                self.spec_capacity() == old(self).spec_capacity(),
                n <= self.spec_capacity() - old(self).contents().len(),
                self.contents() == old(self).contents() + data@.take(i as int),
            decreases n - i,
        {
            proof {
                assert(data@.take(i as int).push(data@[i as int]) =~= data@.take(i as int + 1));
            }
            self.push_byte(data[i]);
            i = i + 1;
        }
        n
    }

    /// Consume and return the oldest byte.
    fn pop_byte(&mut self) -> (r: u8)
        requires
            old(self).wf(),
            old(self).contents().len() >= 1,
        ensures
            final(self).wf(),
            final(self).spec_capacity() == old(self).spec_capacity(),
            final(self).buf@ == old(self).buf@,
            final(self).write == old(self).write,
            r == old(self).contents()[0],
            final(self).contents() == old(self).contents().skip(1),
    {
        let cap = self.buf.len();
        let r = self.buf[self.read];
        self.read = if self.read + 1 == cap {
            0
        } else {
            self.read + 1
        };
        self.last_op = Operation::Read;
        proof {
            assert(self.avail() == old(self).avail() - 1);
            assert(self.contents() =~= old(self).contents().skip(1));
        }
        r
    }

    /// Consume the oldest `k` bytes.
    fn advance_read_by(&mut self, k: usize)
        requires
            old(self).wf(),
            1 <= k <= old(self).contents().len(),
        ensures
            final(self).wf(),
            final(self).spec_capacity() == old(self).spec_capacity(),
            final(self).buf@ == old(self).buf@,
            final(self).write == old(self).write,
            final(self).contents() == old(self).contents().skip(k as int),
    {
        let mut i: usize = 0;
        while i < k
            invariant
                i <= k,
                self.wf(),
                self.spec_capacity() == old(self).spec_capacity(),
                self.buf@ == old(self).buf@,
                self.write == old(self).write,
                k <= old(self).contents().len(),
                self.contents() == old(self).contents().skip(i as int),
            decreases k - i,
        {
            proof {
                assert(old(self).contents().skip(i as int).skip(1) =~= old(self).contents().skip(
                    i as int + 1,
                ));
            }
            self.pop_byte();
            i = i + 1;
        }
    }
}

/// Sentinel of [`spec_hex_lookup`] and [`hex_lookup`] for bytes that are
/// no hexadecimal digit.
pub const INVALID_HEX_DIGIT: u16 = 0xffff;

/// The value of a hexadecimal digit byte, upper or lower case, or
/// [`INVALID_HEX_DIGIT`].
pub open spec fn spec_hex_lookup(b: u8) -> u16 {
    if 48 <= b <= 57 {
        (b - 48) as u16
    } else if 97 <= b <= 102 {
        (b - 97 + 10) as u16
    } else if 65 <= b <= 70 {
        (b - 65 + 10) as u16
    } else {
        INVALID_HEX_DIGIT
    }
}

/// Look up the value of one (hexadecimal) digit byte.
pub fn hex_lookup(b: u8) -> (r: u16)
    ensures
        r == spec_hex_lookup(b),
{
    if 48 <= b && b <= 57 {
        (b - 48) as u16
    } else if 97 <= b && b <= 102 {
        (b - 97) as u16 + 10
    } else if 65 <= b && b <= 70 {
        (b - 65) as u16 + 10
    } else {
        INVALID_HEX_DIGIT
    }
}

/// Outcome of matching the ring against a fixed verb.
pub enum VerbMatch {
    /// Fewer bytes available than the verb is long.
    Incomplete,
    /// The verb is there, and is consumed.
    Match,
    /// Enough bytes, but they differ from the verb; nothing is consumed.
    NoMatch,
}

/// Outcome of skipping spaces: how many were skipped, if a byte after
/// them has arrived.
pub enum SpaceParse {
    Incomplete,
    Done(int),
}

/// Outcome of reading a decimal coordinate up to a terminator byte.
pub enum NumParse {
    Incomplete,
    /// The offending byte, and how many bytes were consumed.
    Bad(u8, int),
    /// The value, the terminator that ended it, and the bytes consumed.
    Done(u32, u8, int),
}

/// Outcome of reading a hexadecimal color up to a line feed.
pub enum ColorParse {
    Incomplete,
    /// The offending byte, and how many bytes were consumed.
    BadDigit(u8, int),
    /// A digit count other than 2, 6 or 8; bytes consumed.
    BadLength(int),
    /// The color and the bytes consumed.
    Done(Bgra, int),
}

/// Outcome of parsing one command from a byte sequence.
pub enum ParseOutcome {
    /// The bytes are a prefix of a valid command.
    Incomplete,
    /// A command, and how many bytes it occupied.
    Parsed(Command, int),
    /// A protocol error, and how many bytes were consumed reaching it.
    Failed(CommandRingError, int),
}

/// The verb of a `PX` line.
pub open spec fn px_verb() -> Seq<u8> {
    seq![80, 88]
}

/// The complete `SIZE` line.
pub open spec fn size_verb() -> Seq<u8> {
    seq![83, 73, 90, 69, 10]
}

/// The complete `HELP` line.
pub open spec fn help_verb() -> Seq<u8> {
    seq![72, 69, 76, 80, 10]
}

/// The verb of an `OFFSET` line.
pub open spec fn offset_verb() -> Seq<u8> {
    seq![79, 70, 70, 83, 69, 84]
}

/// Match `s` against a fixed verb: undecided until `s` holds at least as
/// many bytes as the verb.
pub open spec fn spec_match_verb(s: Seq<u8>, verb: Seq<u8>) -> VerbMatch {
    if s.len() < verb.len() {
        VerbMatch::Incomplete
    } else if s.take(verb.len() as int) == verb {
        VerbMatch::Match
    } else {
        VerbMatch::NoMatch
    }
}

/// Count the run of leading spaces; undecided while nothing but spaces
/// has arrived.
pub open spec fn spec_skip_spaces(s: Seq<u8>) -> SpaceParse
    decreases s.len(),
{
    if s.len() == 0 {
        SpaceParse::Incomplete
    } else if s[0] != 32 {
        SpaceParse::Done(0)
    } else {
        match spec_skip_spaces(s.skip(1)) {
            SpaceParse::Incomplete => SpaceParse::Incomplete,
            SpaceParse::Done(k) => SpaceParse::Done(k + 1),
        }
    }
}

/// Read a decimal `u32` (digits 0 through 9, the accumulator wrapping
/// modulo 2^32 on overflow) until a terminator byte: a space if
/// `space_ends`, a line feed if `newline_ends`.  A terminator with no
/// digits before it yields the accumulator unchanged.
pub open spec fn spec_take_u32(s: Seq<u8>, acc: u32, space_ends: bool, newline_ends: bool) -> NumParse
    decreases s.len(),
{
    if s.len() == 0 {
        NumParse::Incomplete
    } else {
        let b = s[0];
        if (space_ends && b == 32) || (newline_ends && b == 10) {
            NumParse::Done(acc, b, 1)
        } else if !(48 <= b <= 57) {
            NumParse::Bad(b, 1)
        } else {
            let acc2 = (((acc as int) * 10 + (b - 48)) % 0x100000000) as u32;
            match spec_take_u32(s.skip(1), acc2, space_ends, newline_ends) {
                NumParse::Incomplete => NumParse::Incomplete,
                NumParse::Bad(c, n) => NumParse::Bad(c, n + 1),
                NumParse::Done(v, t, n) => NumParse::Done(v, t, n + 1),
            }
        }
    }
}

/// Read a hexadecimal color terminated by a line feed, with `ndigits`
/// digits of value `acc` already read (the accumulator wraps modulo
/// 2^32, as the executable arithmetic does).  2, 6 and 8 digits make a
/// grayscale, RGB and RGBA color; at most 9 bytes are ever consumed.
pub open spec fn spec_take_color(s: Seq<u8>, acc: u32, ndigits: int) -> ColorParse
    decreases s.len(),
{
    if ndigits >= 9 {
        ColorParse::BadLength(0)
    } else if s.len() == 0 {
        ColorParse::Incomplete
    } else {
        let b = s[0];
        if b == 10 {
            if ndigits == 6 {
                ColorParse::Done(Bgra::spec_from_rgb(acc), 1)
            } else if ndigits == 2 {
                ColorParse::Done(Bgra::spec_from_bw(acc as u8), 1)
            } else if ndigits == 8 {
                ColorParse::Done(Bgra::spec_from_rgba(acc), 1)
            } else {
                ColorParse::BadLength(1)
            }
        } else if spec_hex_lookup(b) == INVALID_HEX_DIGIT {
            ColorParse::BadDigit(b, 1)
        } else {
            let acc2 = (((acc as int) * 16 + spec_hex_lookup(b)) % 0x100000000) as u32;
            match spec_take_color(s.skip(1), acc2, ndigits + 1) {
                ColorParse::Incomplete => ColorParse::Incomplete,
                ColorParse::BadDigit(c, n) => ColorParse::BadDigit(c, n + 1),
                ColorParse::BadLength(n) => ColorParse::BadLength(n + 1),
                ColorParse::Done(c, n) => ColorParse::Done(c, n + 1),
            }
        }
    }
}

/// Add `j` already-skipped spaces to a space-skipping outcome.
pub open spec fn space_bump(o: SpaceParse, j: int) -> SpaceParse {
    match o {
        SpaceParse::Incomplete => SpaceParse::Incomplete,
        SpaceParse::Done(k) => SpaceParse::Done(k + j),
    }
}

/// Add `j` already-consumed bytes to a number-parsing outcome.
pub open spec fn num_bump(o: NumParse, j: int) -> NumParse {
    match o {
        NumParse::Incomplete => NumParse::Incomplete,
        NumParse::Bad(c, n) => NumParse::Bad(c, n + j),
        NumParse::Done(v, t, n) => NumParse::Done(v, t, n + j),
    }
}

/// Add `j` already-consumed bytes to a color-parsing outcome.
pub open spec fn color_bump(o: ColorParse, j: int) -> ColorParse {
    match o {
        ColorParse::Incomplete => ColorParse::Incomplete,
        ColorParse::BadDigit(c, n) => ColorParse::BadDigit(c, n + j),
        ColorParse::BadLength(n) => ColorParse::BadLength(n + j),
        ColorParse::Done(c, n) => ColorParse::Done(c, n + j),
    }
}

/// Add `k` already-consumed bytes to a parse outcome.
pub open spec fn bump(o: ParseOutcome, k: int) -> ParseOutcome {
    match o {
        ParseOutcome::Incomplete => ParseOutcome::Incomplete,
        ParseOutcome::Parsed(c, n) => ParseOutcome::Parsed(c, n + k),
        ParseOutcome::Failed(e, n) => ParseOutcome::Failed(e, n + k),
    }
}

/// What follows the `PX` verb: spaces, x, spaces, then y ended either by
/// a line feed (a pixel read) or by a space and a color (a pixel write).
pub open spec fn spec_parse_px_args(s: Seq<u8>) -> ParseOutcome {
    match spec_skip_spaces(s) {
        SpaceParse::Incomplete => ParseOutcome::Incomplete,
        SpaceParse::Done(k1) => match spec_take_u32(s.skip(k1), 0, true, false) {
            NumParse::Incomplete => ParseOutcome::Incomplete,
            NumParse::Bad(b, n) => ParseOutcome::Failed(
                CommandRingError::InvalidDecimalDigit(b),
                k1 + n,
            ),
            NumParse::Done(x, _, n1) => {
                let s2 = s.skip(k1 + n1);
                match spec_skip_spaces(s2) {
                    SpaceParse::Incomplete => ParseOutcome::Incomplete,
                    SpaceParse::Done(k2) => match spec_take_u32(s2.skip(k2), 0, true, true) {
                        NumParse::Incomplete => ParseOutcome::Incomplete,
                        NumParse::Bad(b, n) => ParseOutcome::Failed(
                            CommandRingError::InvalidDecimalDigit(b),
                            k1 + n1 + k2 + n,
                        ),
                        NumParse::Done(y, term, n2) => {
                            if term == 32 {
                                match spec_take_color(s2.skip(k2 + n2), 0, 0) {
                                    ColorParse::Incomplete => ParseOutcome::Incomplete,
                                    ColorParse::BadDigit(b, n) => ParseOutcome::Failed(
                                        CommandRingError::InvalidHexadecimalDigit(b),
                                        k1 + n1 + k2 + n2 + n,
                                    ),
                                    ColorParse::BadLength(n) => ParseOutcome::Failed(
                                        CommandRingError::InvalidColor,
                                        k1 + n1 + k2 + n2 + n,
                                    ),
                                    ColorParse::Done(color, n3) => ParseOutcome::Parsed(
                                        Command::SetPixel { x, y, color },
                                        k1 + n1 + k2 + n2 + n3,
                                    ),
                                }
                            } else {
                                ParseOutcome::Parsed(Command::GetPixel { x, y }, k1 + n1 + k2 + n2)
                            }
                        },
                    },
                }
            },
        },
    }
}

/// What follows the `OFFSET` verb: spaces, x, spaces, then y ended by a
/// line feed.
pub open spec fn spec_parse_offset_args(s: Seq<u8>) -> ParseOutcome {
    match spec_skip_spaces(s) {
        SpaceParse::Incomplete => ParseOutcome::Incomplete,
        SpaceParse::Done(k1) => match spec_take_u32(s.skip(k1), 0, true, false) {
            NumParse::Incomplete => ParseOutcome::Incomplete,
            NumParse::Bad(b, n) => ParseOutcome::Failed(
                CommandRingError::InvalidDecimalDigit(b),
                k1 + n,
            ),
            NumParse::Done(x, _, n1) => {
                let s2 = s.skip(k1 + n1);
                match spec_skip_spaces(s2) {
                    SpaceParse::Incomplete => ParseOutcome::Incomplete,
                    SpaceParse::Done(k2) => match spec_take_u32(s2.skip(k2), 0, false, true) {
                        NumParse::Incomplete => ParseOutcome::Incomplete,
                        NumParse::Bad(b, n) => ParseOutcome::Failed(
                            CommandRingError::InvalidDecimalDigit(b),
                            k1 + n1 + k2 + n,
                        ),
                        NumParse::Done(y, _, n2) => ParseOutcome::Parsed(
                            Command::Offset { x, y },
                            k1 + n1 + k2 + n2,
                        ),
                    },
                }
            },
        },
    }
}

/// Parse one command from the front of `s`.  The verbs are tried in the
/// order `PX`, `SIZE`, `HELP`, `OFFSET`; a verb cut short by the end of
/// `s` keeps the outcome undecided.
pub open spec fn spec_parse(s: Seq<u8>) -> ParseOutcome {
    match spec_match_verb(s, px_verb()) {
        VerbMatch::Incomplete => ParseOutcome::Incomplete,
        VerbMatch::Match => bump(spec_parse_px_args(s.skip(2)), 2),
        VerbMatch::NoMatch => match spec_match_verb(s, size_verb()) {
            VerbMatch::Incomplete => ParseOutcome::Incomplete,
            VerbMatch::Match => ParseOutcome::Parsed(Command::Size, 5),
            VerbMatch::NoMatch => match spec_match_verb(s, help_verb()) {
                VerbMatch::Incomplete => ParseOutcome::Incomplete,
                VerbMatch::Match => ParseOutcome::Parsed(Command::Help, 5),
                VerbMatch::NoMatch => match spec_match_verb(s, offset_verb()) {
                    VerbMatch::Incomplete => ParseOutcome::Incomplete,
                    VerbMatch::Match => bump(spec_parse_offset_args(s.skip(6)), 6),
                    VerbMatch::NoMatch => ParseOutcome::Failed(CommandRingError::UnknownVerb, 0),
                },
            },
        },
    }
}

/// Skipping spaces consumes at most the whole sequence.
pub proof fn lemma_skip_spaces_bounds(s: Seq<u8>)
    ensures
        spec_skip_spaces(s) matches SpaceParse::Done(k) ==> 0 <= k <= s.len(),
    decreases s.len(),
{
    if s.len() > 0 && s[0] == 32 {
        lemma_skip_spaces_bounds(s.skip(1));
    }
}

/// Reading a number consumes at least the terminator or offending byte
/// and at most the whole sequence.
pub proof fn lemma_take_u32_bounds(s: Seq<u8>, acc: u32, space_ends: bool, newline_ends: bool)
    ensures
        spec_take_u32(s, acc, space_ends, newline_ends) matches NumParse::Bad(b, n) ==> 1 <= n
            <= s.len(),
        spec_take_u32(s, acc, space_ends, newline_ends) matches NumParse::Done(v, t, n) ==> 1 <= n
            <= s.len(),
    decreases s.len(),
{
    if s.len() > 0 {
        let b = s[0];
        if !((space_ends && b == 32) || (newline_ends && b == 10)) && 48 <= b <= 57 {
            let acc2 = (((acc as int) * 10 + (b - 48)) % 0x100000000) as u32;
            lemma_take_u32_bounds(s.skip(1), acc2, space_ends, newline_ends);
        }
    }
}

/// Reading a color consumes at most the whole sequence.
pub proof fn lemma_take_color_bounds(s: Seq<u8>, acc: u32, ndigits: int)
    ensures
        spec_take_color(s, acc, ndigits) matches ColorParse::BadDigit(b, n) ==> 1 <= n <= s.len(),
        spec_take_color(s, acc, ndigits) matches ColorParse::BadLength(n) ==> 0 <= n <= s.len(),
        spec_take_color(s, acc, ndigits) matches ColorParse::Done(c, n) ==> 1 <= n <= s.len(),
    decreases s.len(),
{
    if ndigits < 9 && s.len() > 0 {
        let b = s[0];
        if b != 10 && spec_hex_lookup(b) != INVALID_HEX_DIGIT {
            let acc2 = (((acc as int) * 16 + spec_hex_lookup(b)) % 0x100000000) as u32;
            lemma_take_color_bounds(s.skip(1), acc2, ndigits + 1);
        }
    }
}

/// The bytes a space-skipping outcome consumed.
spec fn space_consumed(o: SpaceParse) -> int {
    match o {
        SpaceParse::Incomplete => 0,
        SpaceParse::Done(k) => k,
    }
}

/// The bytes a number-parsing outcome consumed.
spec fn num_consumed(o: NumParse) -> int {
    match o {
        NumParse::Incomplete => 0,
        NumParse::Bad(b, n) => n,
        NumParse::Done(v, t, n) => n,
    }
}

/// The bytes a color-parsing outcome consumed.
spec fn color_consumed(o: ColorParse) -> int {
    match o {
        ColorParse::Incomplete => 0,
        ColorParse::BadDigit(b, n) => n,
        ColorParse::BadLength(n) => n,
        ColorParse::Done(c, n) => n,
    }
}

/// Two successive skips collapse into one.
proof fn lemma_skip_chain(s: Seq<u8>, a: int, b: int)
    ensures
        (0 <= a && 0 <= b && a + b <= s.len()) ==> s.skip(a).skip(b) == s.skip(a + b),
{
    vstd::seq_lib::lemma_seq_skip_of_skip(s, a, b);
}

impl CommandRing {
    /// Consume the verb if the ring starts with it; leave the ring alone
    /// on a mismatch or while too few bytes have arrived.
    fn consume_compare<const N: usize>(&mut self, verb: &[u8; N]) -> (res: Result<
        bool,
        CommandRingError,
    >)
        requires
            old(self).wf(),
            N >= 1,
        ensures
            final(self).wf(),
            final(self).spec_capacity() == old(self).spec_capacity(),
            final(self).buf@ == old(self).buf@,
            final(self).write == old(self).write,
            match spec_match_verb(old(self).contents(), verb@) {
                VerbMatch::Incomplete => res == Err::<bool, CommandRingError>(
                    CommandRingError::MoreDataRequired,
                ) && final(self).contents() == old(self).contents(),
                VerbMatch::Match => res == Ok::<bool, CommandRingError>(true) && final(self).contents() == old(self).contents().skip(N as int),
                VerbMatch::NoMatch => res == Ok::<bool, CommandRingError>(false) && final(self).contents() == old(self).contents(),
            },
    {
        if self.available_to_read() < N {
            return Err(CommandRingError::MoreDataRequired);
        }
        let mut j: usize = 0;
        while j < N
            invariant
                j <= N,
                self.wf(),
                self == old(self),
                N <= self.contents().len(),
                forall|i: int| 0 <= i < j ==> self.contents()[i] == verb@[i],
            decreases N - j,
        {
            if self.ring_at(j) != verb[j] {
                proof {
                    assert(self.contents().take(N as int)[j as int] != verb@[j as int]);
                }
                return Ok(false);
            }
            j = j + 1;
        }
        proof {
            assert(self.contents().take(N as int) =~= verb@);
        }
        self.advance_read_by(N);
        Ok(true)
    }

    /// Consume the run of leading spaces; ask for more bytes while
    /// nothing but spaces has arrived.
    fn consume_whitespace(&mut self) -> (res: Result<(), CommandRingError>)
        requires
            old(self).wf(),
        ensures
            final(self).wf(),
            final(self).spec_capacity() == old(self).spec_capacity(),
            final(self).buf@ == old(self).buf@,
            final(self).write == old(self).write,
            match spec_skip_spaces(old(self).contents()) {
                SpaceParse::Incomplete => res == Err::<(), CommandRingError>(
                    CommandRingError::MoreDataRequired,
                ),
                SpaceParse::Done(k) => res == Ok::<(), CommandRingError>(()) && final(self).contents() == old(self).contents().skip(k),
            },
    {
        let ghost mut j: int = 0;
        loop
            invariant
                self.wf(),
                self.spec_capacity() == old(self).spec_capacity(),
                self.buf@ == old(self).buf@,
                self.write == old(self).write,
                0 <= j <= old(self).contents().len(),
                self.contents() == old(self).contents().skip(j),
                spec_skip_spaces(old(self).contents()) == space_bump(
                    spec_skip_spaces(self.contents()),
                    j,
                ),
            decreases self.contents().len(),
        {
            if self.available_to_read() == 0 {
                return Err(CommandRingError::MoreDataRequired);
            }
            let b = self.ring_at(0);
            if b != 32 {
                return Ok(());
            }
            proof {
                assert(old(self).contents().skip(j).skip(1) =~= old(self).contents().skip(j + 1));
            }
            self.pop_byte();
            proof {
                j = j + 1;
            }
        }
    }

    /// Read a decimal coordinate up to its terminator: a space if
    /// `space_ends`, a line feed if `newline_ends`.  Returns the value
    /// and the terminator that ended it.
    fn consume_decimal_u32(&mut self, space_ends: bool, newline_ends: bool) -> (res: Result<
        (u32, u8),
        CommandRingError,
    >)
        requires
            old(self).wf(),
        ensures
            final(self).wf(),
            final(self).spec_capacity() == old(self).spec_capacity(),
            final(self).buf@ == old(self).buf@,
            final(self).write == old(self).write,
            match spec_take_u32(old(self).contents(), 0u32, space_ends, newline_ends) {
                NumParse::Incomplete => res == Err::<(u32, u8), CommandRingError>(
                    CommandRingError::MoreDataRequired,
                ),
                NumParse::Bad(b, n) => res == Err::<(u32, u8), CommandRingError>(
                    CommandRingError::InvalidDecimalDigit(b),
                ) && final(self).contents() == old(self).contents().skip(n),
                NumParse::Done(v, t, n) => res == Ok::<(u32, u8), CommandRingError>((v, t)) && final(self).contents() == old(self).contents().skip(n),
            },
    {
        let mut value: u32 = 0;
        let ghost mut j: int = 0;
        loop
            invariant
                self.wf(),
                self.spec_capacity() == old(self).spec_capacity(),
                self.buf@ == old(self).buf@,
                self.write == old(self).write,
                0 <= j <= old(self).contents().len(),
                self.contents() == old(self).contents().skip(j),
                spec_take_u32(old(self).contents(), 0u32, space_ends, newline_ends) == num_bump(
                    spec_take_u32(self.contents(), value, space_ends, newline_ends),
                    j,
                ),
            decreases self.contents().len(),
        {
            if self.available_to_read() == 0 {
                return Err(CommandRingError::MoreDataRequired);
            }
            proof {
                assert(old(self).contents().skip(j).skip(1) =~= old(self).contents().skip(j + 1));
            }
            let digit = self.pop_byte();
            if (space_ends && digit == 32) || (newline_ends && digit == 10) {
                return Ok((value, digit));
            }
            if digit < 48 || digit > 57 {
                return Err(CommandRingError::InvalidDecimalDigit(digit));
            }
            let wide: u64 = (value as u64) * 10 + ((digit - 48) as u64);
            value = (wide % 0x100000000) as u32;
            proof {
                j = j + 1;
            }
        }
    }

    /// Read a hexadecimal color ended by a line feed: 2, 6 or 8 digits
    /// for grayscale, RGB and RGBA; anything else is an invalid color,
    /// and no more than 9 bytes are consumed looking for the line feed.
    fn consume_hexadecimal_color_until_new_line(&mut self) -> (res: Result<Bgra, CommandRingError>)
        requires
            old(self).wf(),
        ensures
            final(self).wf(),
            final(self).spec_capacity() == old(self).spec_capacity(),
            final(self).buf@ == old(self).buf@,
            final(self).write == old(self).write,
            match spec_take_color(old(self).contents(), 0u32, 0) {
                ColorParse::Incomplete => res == Err::<Bgra, CommandRingError>(
                    CommandRingError::MoreDataRequired,
                ),
                ColorParse::BadDigit(b, n) => res == Err::<Bgra, CommandRingError>(
                    CommandRingError::InvalidHexadecimalDigit(b),
                ) && final(self).contents() == old(self).contents().skip(n),
                ColorParse::BadLength(n) => res == Err::<Bgra, CommandRingError>(
                    CommandRingError::InvalidColor,
                ) && final(self).contents() == old(self).contents().skip(n),
                ColorParse::Done(c, n) => res == Ok::<Bgra, CommandRingError>(c) && final(self).contents() == old(self).contents().skip(n),
            },
    {
        let mut value: u32 = 0;
        let mut ndigits: usize = 0;
        let ghost mut j: int = 0;
        loop
            invariant
                self.wf(),
                self.spec_capacity() == old(self).spec_capacity(),
                self.buf@ == old(self).buf@,
                self.write == old(self).write,
                0 <= j <= old(self).contents().len(),
                ndigits <= 9,
                self.contents() == old(self).contents().skip(j),
                spec_take_color(old(self).contents(), 0u32, 0) == color_bump(
                    spec_take_color(self.contents(), value, ndigits as int),
                    j,
                ),
            decreases self.contents().len(),
        {
            if ndigits >= 9 {
                return Err(CommandRingError::InvalidColor);
            }
            if self.available_to_read() == 0 {
                return Err(CommandRingError::MoreDataRequired);
            }
            proof {
                assert(old(self).contents().skip(j).skip(1) =~= old(self).contents().skip(j + 1));
            }
            let chr = self.pop_byte();
            if chr == 10 {
                return match ndigits {
                    6 => Ok(Bgra::from_rgb(value)),
                    2 => Ok(Bgra::from_bw(#[verifier::truncate] (value as u8))),
                    8 => Ok(Bgra::from_rgba(value)),
                    _ => Err(CommandRingError::InvalidColor),
                };
            }
            let v = hex_lookup(chr);
            if v == INVALID_HEX_DIGIT {
                return Err(CommandRingError::InvalidHexadecimalDigit(chr));
            }
            let wide: u64 = (value as u64) * 16 + (v as u64);
            value = (wide % 0x100000000) as u32;
            ndigits = ndigits + 1;
            proof {
                j = j + 1;
            }
        }
    }

    /// Parse one command off the ring, consuming bytes as it goes; the
    /// verbs are tried in order of increasing length.
    #[verifier::rlimit(100)]
    #[verifier::spinoff_prover]
    fn read_next_command_inner(&mut self) -> (res: Result<Command, CommandRingError>)
        requires
            old(self).wf(),
        ensures
            final(self).wf(),
            final(self).spec_capacity() == old(self).spec_capacity(),
            final(self).buf@ == old(self).buf@,
            final(self).write == old(self).write,
            match spec_parse(old(self).contents()) {
                ParseOutcome::Incomplete => res == Err::<Command, CommandRingError>(
                    CommandRingError::MoreDataRequired,
                ),
                ParseOutcome::Parsed(cmd, n) => res == Ok::<Command, CommandRingError>(cmd)
                    && final(self).contents() == old(self).contents().skip(n),
                ParseOutcome::Failed(e, n) => res == Err::<Command, CommandRingError>(e)
                    && final(self).contents() == old(self).contents().skip(n),
            },
    {
        let ghost s0 = self.contents();
        let px: [u8; 2] = [80, 88];
        let size_v: [u8; 5] = [83, 73, 90, 69, 10];
        let help_v: [u8; 5] = [72, 69, 76, 80, 10];
        let offset_v: [u8; 6] = [79, 70, 70, 83, 69, 84];
        proof {
            assert(px@ =~= px_verb());
            assert(size_v@ =~= size_verb());
            assert(help_v@ =~= help_verb());
            assert(offset_v@ =~= offset_verb());
            assert(s0.skip(0) =~= s0);
        }
        if self.consume_compare(&px)? {
            let ghost t = s0.skip(2);
            proof {
                lemma_skip_spaces_bounds(t);
            }
            self.consume_whitespace()?;
            let ghost k1 = space_consumed(spec_skip_spaces(t));
            proof {
                lemma_take_u32_bounds(t.skip(k1), 0u32, true, false);
                let n = num_consumed(spec_take_u32(t.skip(k1), 0u32, true, false));
                lemma_skip_chain(t, k1, n);
                lemma_skip_chain(s0, 2, k1 + n);
            }
            let (x, _term) = self.consume_decimal_u32(true, false)?;
            let ghost n1 = num_consumed(spec_take_u32(t.skip(k1), 0u32, true, false));
            let ghost s2 = t.skip(k1 + n1);
            proof {
                lemma_skip_spaces_bounds(s2);
            }
            self.consume_whitespace()?;
            let ghost k2 = space_consumed(spec_skip_spaces(s2));
            proof {
                lemma_take_u32_bounds(s2.skip(k2), 0u32, true, true);
                let n = num_consumed(spec_take_u32(s2.skip(k2), 0u32, true, true));
                lemma_skip_chain(s2, k2, n);
                lemma_skip_chain(t, k1 + n1, k2 + n);
                lemma_skip_chain(s0, 2, k1 + n1 + k2 + n);
            }
            let (y, terminator) = self.consume_decimal_u32(true, true)?;
            let ghost n2 = num_consumed(spec_take_u32(s2.skip(k2), 0u32, true, true));
            if terminator == 32 {
                proof {
                    lemma_take_color_bounds(s2.skip(k2 + n2), 0u32, 0);
                    let n3 = color_consumed(spec_take_color(s2.skip(k2 + n2), 0u32, 0));
                    lemma_skip_chain(s2, k2 + n2, n3);
                    lemma_skip_chain(t, k1 + n1, k2 + n2 + n3);
                    lemma_skip_chain(s0, 2, k1 + n1 + k2 + n2 + n3);
                }
                let color = self.consume_hexadecimal_color_until_new_line()?;
                Ok(Command::SetPixel { x, y, color })
            } else {
                Ok(Command::GetPixel { x, y })
            }
        } else if self.consume_compare(&size_v)? {
            Ok(Command::Size)
        } else if self.consume_compare(&help_v)? {
            Ok(Command::Help)
        } else if self.consume_compare(&offset_v)? {
            let ghost t = s0.skip(6);
            proof {
                lemma_skip_spaces_bounds(t);
            }
            self.consume_whitespace()?;
            let ghost k1 = space_consumed(spec_skip_spaces(t));
            proof {
                lemma_take_u32_bounds(t.skip(k1), 0u32, true, false);
                let n = num_consumed(spec_take_u32(t.skip(k1), 0u32, true, false));
                lemma_skip_chain(t, k1, n);
                lemma_skip_chain(s0, 6, k1 + n);
            }
            let (x, _term) = self.consume_decimal_u32(true, false)?;
            let ghost n1 = num_consumed(spec_take_u32(t.skip(k1), 0u32, true, false));
            let ghost s2 = t.skip(k1 + n1);
            proof {
                lemma_skip_spaces_bounds(s2);
            }
            self.consume_whitespace()?;
            let ghost k2 = space_consumed(spec_skip_spaces(s2));
            proof {
                lemma_take_u32_bounds(s2.skip(k2), 0u32, false, true);
                let n = num_consumed(spec_take_u32(s2.skip(k2), 0u32, false, true));
                lemma_skip_chain(s2, k2, n);
                lemma_skip_chain(t, k1 + n1, k2 + n);
                lemma_skip_chain(s0, 6, k1 + n1 + k2 + n);
            }
            let (y, _term2) = self.consume_decimal_u32(false, true)?;
            Ok(Command::Offset { x, y })
        } else {
            Err(CommandRingError::UnknownVerb)
        }
    }

    /// Parse one command off the ring.  A command cut short by the end
    /// of the received bytes leaves the ring exactly as it was, so that
    /// parsing resumes at the same place once more bytes arrive; a
    /// protocol error leaves the offending bytes consumed.
    pub fn read_next_command(&mut self) -> (res: Result<Command, CommandRingError>)
        requires
            old(self).wf(),
        ensures
            final(self).wf(),
            final(self).spec_capacity() == old(self).spec_capacity(),
            match spec_parse(old(self).contents()) {
                ParseOutcome::Incomplete => res == Err::<Command, CommandRingError>(
                    CommandRingError::MoreDataRequired,
                ) && final(self).contents() == old(self).contents(),
                ParseOutcome::Parsed(cmd, n) => res == Ok::<Command, CommandRingError>(cmd)
                    && final(self).contents() == old(self).contents().skip(n),
                ParseOutcome::Failed(e, n) => res == Err::<Command, CommandRingError>(e) && final(self).contents() == old(self).contents().skip(n),
            },
    {
        let old_read = self.read;
        let old_last_op = self.last_op;

        match self.read_next_command_inner() {
            Ok(cmd) => Ok(cmd),
            Err(CommandRingError::MoreDataRequired) => {
                self.read = old_read;
                self.last_op = old_last_op;
                Err(CommandRingError::MoreDataRequired)
            },
            Err(e) => Err(e),
        }
    }
}

} // verus!
