//! Laws of the streaming parser.  The central one: a byte stream can be
//! cut anywhere, its halves fed separately, and the commands that come
//! out are the same as if the stream had arrived whole.

use vstd::prelude::*;

use crate::command::Command;
use crate::command_ring::{
    spec_match_verb, spec_skip_spaces, spec_take_u32, spec_take_color, spec_parse,
    spec_parse_px_args, spec_parse_offset_args, spec_hex_lookup, px_verb, size_verb, help_verb,
    offset_verb, lemma_skip_spaces_bounds, lemma_take_u32_bounds, lemma_take_color_bounds,
    CommandRingError, ParseOutcome, NumParse, SpaceParse, INVALID_HEX_DIGIT,
};

verus! {

broadcast use vstd::seq_lib::lemma_seq_skip_index, vstd::seq_lib::lemma_seq_skip_len;

/// Appending bytes commutes with skipping a prefix.
proof fn lemma_skip_add(s: Seq<u8>, t: Seq<u8>, k: int)
    requires
        0 <= k <= s.len(),
    ensures
        (s + t).skip(k) == s.skip(k) + t,
{
    assert((s + t).skip(k) =~= s.skip(k) + t);
}

/// A decided verb match is not changed by later bytes.
proof fn lemma_match_verb_extend(s: Seq<u8>, t: Seq<u8>, verb: Seq<u8>)
    requires
        !(spec_match_verb(s, verb) is Incomplete),
    ensures
        spec_match_verb(s + t, verb) == spec_match_verb(s, verb),
{
    assert((s + t).take(verb.len() as int) =~= s.take(verb.len() as int));
}

/// A decided run of spaces is not changed by later bytes.
proof fn lemma_skip_spaces_extend(s: Seq<u8>, t: Seq<u8>)
    requires
        spec_skip_spaces(s) is Done,
    ensures
        spec_skip_spaces(s + t) == spec_skip_spaces(s),
    decreases s.len(),
{
    assert(s.len() > 0);
    assert((s + t)[0] == s[0]);
    if s[0] == 32 {
        lemma_skip_add(s, t, 1);
        lemma_skip_spaces_extend(s.skip(1), t);
    }
}

/// A decided number parse is not changed by later bytes.
proof fn lemma_take_u32_extend(s: Seq<u8>, t: Seq<u8>, acc: u32, space_ends: bool, newline_ends: bool)
    requires
        !(spec_take_u32(s, acc, space_ends, newline_ends) is Incomplete),
    ensures
        spec_take_u32(s + t, acc, space_ends, newline_ends) == spec_take_u32(
            s,
            acc,
            space_ends,
            newline_ends,
        ),
    decreases s.len(),
{
    assert(s.len() > 0);
    assert((s + t)[0] == s[0]);
    let b = s[0];
    if !((space_ends && b == 32) || (newline_ends && b == 10)) && 48 <= b <= 57 {
        let acc2 = (((acc as int) * 10 + (b - 48)) % 0x100000000) as u32;
        lemma_skip_add(s, t, 1);
        lemma_take_u32_extend(s.skip(1), t, acc2, space_ends, newline_ends);
    }
}

/// A decided color parse is not changed by later bytes.
proof fn lemma_take_color_extend(s: Seq<u8>, t: Seq<u8>, acc: u32, ndigits: int)
    requires
        !(spec_take_color(s, acc, ndigits) is Incomplete),
    ensures
        spec_take_color(s + t, acc, ndigits) == spec_take_color(s, acc, ndigits),
    decreases s.len(),
{
    if ndigits < 9 {
        assert(s.len() > 0);
        assert((s + t)[0] == s[0]);
        let b = s[0];
        if b != 10 && spec_hex_lookup(b) != INVALID_HEX_DIGIT {
            let acc2 = (((acc as int) * 16 + spec_hex_lookup(b)) % 0x100000000) as u32;
            lemma_skip_add(s, t, 1);
            lemma_take_color_extend(s.skip(1), t, acc2, ndigits + 1);
        }
    }
}

/// Decided `PX` arguments are not changed by later bytes.
proof fn lemma_px_args_extend(s: Seq<u8>, t: Seq<u8>)
    requires
        !(spec_parse_px_args(s) is Incomplete),
    ensures
        spec_parse_px_args(s + t) == spec_parse_px_args(s),
{
    lemma_skip_spaces_bounds(s);
    let sp1 = spec_skip_spaces(s);
    assert(sp1 is Done);
    lemma_skip_spaces_extend(s, t);
    let k1 = sp1->Done_0;
    lemma_skip_add(s, t, k1);
    let num1 = spec_take_u32(s.skip(k1), 0u32, true, false);
    assert(!(num1 is Incomplete));
    lemma_take_u32_extend(s.skip(k1), t, 0u32, true, false);
    lemma_take_u32_bounds(s.skip(k1), 0u32, true, false);
    if num1 is Done {
        let n1 = num1->Done_2;
        let s2 = s.skip(k1 + n1);
        lemma_skip_add(s, t, k1 + n1);
        lemma_skip_spaces_bounds(s2);
        let sp2 = spec_skip_spaces(s2);
        assert(sp2 is Done);
        lemma_skip_spaces_extend(s2, t);
        let k2 = sp2->Done_0;
        lemma_skip_add(s2, t, k2);
        let num2 = spec_take_u32(s2.skip(k2), 0u32, true, true);
        assert(!(num2 is Incomplete));
        lemma_take_u32_extend(s2.skip(k2), t, 0u32, true, true);
        lemma_take_u32_bounds(s2.skip(k2), 0u32, true, true);
        match num2 {
            NumParse::Done(y, term, n2) => {
                if term == 32 {
                    lemma_skip_add(s2, t, k2 + n2);
                    lemma_take_color_extend(s2.skip(k2 + n2), t, 0u32, 0);
                }
            },
            _ => {},
        }
    }
}

/// Decided `OFFSET` arguments are not changed by later bytes.
proof fn lemma_offset_args_extend(s: Seq<u8>, t: Seq<u8>)
    requires
        !(spec_parse_offset_args(s) is Incomplete),
    ensures
        spec_parse_offset_args(s + t) == spec_parse_offset_args(s),
{
    lemma_skip_spaces_bounds(s);
    let sp1 = spec_skip_spaces(s);
    assert(sp1 is Done);
    lemma_skip_spaces_extend(s, t);
    let k1 = sp1->Done_0;
    lemma_skip_add(s, t, k1);
    let num1 = spec_take_u32(s.skip(k1), 0u32, true, false);
    assert(!(num1 is Incomplete));
    lemma_take_u32_extend(s.skip(k1), t, 0u32, true, false);
    lemma_take_u32_bounds(s.skip(k1), 0u32, true, false);
    if num1 is Done {
        let n1 = num1->Done_2;
        let s2 = s.skip(k1 + n1);
        lemma_skip_add(s, t, k1 + n1);
        lemma_skip_spaces_bounds(s2);
        let sp2 = spec_skip_spaces(s2);
        assert(sp2 is Done);
        lemma_skip_spaces_extend(s2, t);
        let k2 = sp2->Done_0;
        lemma_skip_add(s2, t, k2);
        let num2 = spec_take_u32(s2.skip(k2), 0u32, false, true);
        assert(!(num2 is Incomplete));
        lemma_take_u32_extend(s2.skip(k2), t, 0u32, false, true);
    }
}

/// A decided parse, one whole command or a protocol error, is not
/// changed by any bytes that arrive after it.
pub proof fn lemma_parse_extend(s: Seq<u8>, t: Seq<u8>)
    requires
        !(spec_parse(s) is Incomplete),
    ensures
        spec_parse(s + t) == spec_parse(s),
{
    let m_px = spec_match_verb(s, px_verb());
    assert(!(m_px is Incomplete));
    lemma_match_verb_extend(s, t, px_verb());
    if m_px is Match {
        lemma_skip_add(s, t, 2);
        lemma_px_args_extend(s.skip(2), t);
    } else {
        let m_size = spec_match_verb(s, size_verb());
        assert(!(m_size is Incomplete));
        lemma_match_verb_extend(s, t, size_verb());
        if !(m_size is Match) {
            let m_help = spec_match_verb(s, help_verb());
            assert(!(m_help is Incomplete));
            lemma_match_verb_extend(s, t, help_verb());
            if !(m_help is Match) {
                let m_offset = spec_match_verb(s, offset_verb());
                assert(!(m_offset is Incomplete));
                lemma_match_verb_extend(s, t, offset_verb());
                if m_offset is Match {
                    lemma_skip_add(s, t, 6);
                    lemma_offset_args_extend(s.skip(6), t);
                }
            }
        }
    }
}

/// A parsed command occupies at least one byte and at most the whole
/// sequence; a protocol error consumes at most the whole sequence and
/// is never the request for more bytes.
pub proof fn lemma_parse_bounds(s: Seq<u8>)
    ensures
        spec_parse(s) matches ParseOutcome::Parsed(c, n) ==> 1 <= n <= s.len(),
        spec_parse(s) matches ParseOutcome::Failed(e, n) ==> 0 <= n <= s.len() && !(e
            is MoreDataRequired),
{
    if spec_match_verb(s, px_verb()) is Match {
        let t = s.skip(2);
        lemma_skip_spaces_bounds(t);
        match spec_skip_spaces(t) {
            SpaceParse::Done(k1) => {
                lemma_take_u32_bounds(t.skip(k1), 0u32, true, false);
                match spec_take_u32(t.skip(k1), 0u32, true, false) {
                    NumParse::Done(x, _t1, n1) => {
                        let s2 = t.skip(k1 + n1);
                        lemma_skip_spaces_bounds(s2);
                        match spec_skip_spaces(s2) {
                            SpaceParse::Done(k2) => {
                                lemma_take_u32_bounds(s2.skip(k2), 0u32, true, true);
                                match spec_take_u32(s2.skip(k2), 0u32, true, true) {
                                    NumParse::Done(y, term, n2) => {
                                        if term == 32 {
                                            lemma_take_color_bounds(s2.skip(k2 + n2), 0u32, 0);
                                        }
                                    },
                                    _ => {},
                                }
                            },
                            _ => {},
                        }
                    },
                    _ => {},
                }
            },
            _ => {},
        }
    } else if spec_match_verb(s, offset_verb()) is Match {
        let t = s.skip(6);
        lemma_skip_spaces_bounds(t);
        match spec_skip_spaces(t) {
            SpaceParse::Done(k1) => {
                lemma_take_u32_bounds(t.skip(k1), 0u32, true, false);
                match spec_take_u32(t.skip(k1), 0u32, true, false) {
                    NumParse::Done(x, _t1, n1) => {
                        let s2 = t.skip(k1 + n1);
                        lemma_skip_spaces_bounds(s2);
                        match spec_skip_spaces(s2) {
                            SpaceParse::Done(k2) => {
                                lemma_take_u32_bounds(s2.skip(k2), 0u32, false, true);
                            },
                            _ => {},
                        }
                    },
                    _ => {},
                }
            },
            _ => {},
        }
    }
}

/// Feed `s` to the parser until it asks for more bytes or fails:
/// the commands recognized, the unconsumed residue, and the error that
/// stopped parsing, if one did.
pub open spec fn spec_drain(s: Seq<u8>) -> (Seq<Command>, Seq<u8>, Option<CommandRingError>)
    decreases s.len(),
{
    match spec_parse(s) {
        ParseOutcome::Incomplete => (Seq::<Command>::empty(), s, None::<CommandRingError>),
        ParseOutcome::Parsed(c, n) => if 1 <= n <= s.len() {
            let rest = spec_drain(s.skip(n));
            (seq![c] + rest.0, rest.1, rest.2)
        } else {
            (Seq::<Command>::empty(), s, None::<CommandRingError>)
        },
        ParseOutcome::Failed(e, n) => (
            Seq::<Command>::empty(),
            if 0 <= n <= s.len() {
                s.skip(n)
            } else {
                s
            },
            Some(e),
        ),
    }
}

/// Resumability of the parser.  Split any byte stream into a prefix and
/// a suffix.  If draining the prefix hits no protocol error, then
/// draining the prefix and afterwards its residue extended by the
/// suffix yields, in order, exactly the commands, the residue and the
/// error of draining the whole stream at once.
pub proof fn lemma_parser_resumable(s: Seq<u8>, t: Seq<u8>)
    requires
        spec_drain(s).2 is None,
    ensures
        spec_drain(s + t).0 == spec_drain(s).0 + spec_drain(spec_drain(s).1 + t).0,
        spec_drain(s + t).1 == spec_drain(spec_drain(s).1 + t).1,
        spec_drain(s + t).2 == spec_drain(spec_drain(s).1 + t).2,
    decreases s.len(),
{
    lemma_parse_bounds(s);
    match spec_parse(s) {
        ParseOutcome::Incomplete => {
            assert(spec_drain(s).1 == s);
            assert(spec_drain(s).0 + spec_drain(s + t).0 =~= spec_drain(s + t).0);
        },
        ParseOutcome::Parsed(c, n) => {
            lemma_parse_extend(s, t);
            lemma_skip_add(s, t, n);
            lemma_parser_resumable(s.skip(n), t);
            assert(seq![c] + (spec_drain(s.skip(n)).0 + spec_drain(
                spec_drain(s.skip(n)).1 + t,
            ).0) =~= (seq![c] + spec_drain(s.skip(n)).0) + spec_drain(
                spec_drain(s.skip(n)).1 + t,
            ).0);
        },
        ParseOutcome::Failed(e, n) => {
            assert(false);
        },
    }
}

} // verus!
