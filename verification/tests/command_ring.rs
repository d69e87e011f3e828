use wellenbrecher::bgra::Bgra;
use wellenbrecher::command::Command;
use wellenbrecher::command_ring::{hex_lookup, CommandRing, CommandRingError, INVALID_HEX_DIGIT};

fn drain(ring: &mut CommandRing) -> (Vec<Command>, Option<CommandRingError>) {
    let mut commands = Vec::new();
    loop {
        match ring.read_next_command() {
            Ok(cmd) => commands.push(cmd),
            Err(CommandRingError::MoreDataRequired) => return (commands, None),
            Err(e) => return (commands, Some(e)),
        }
    }
}

#[test]
fn hex_lookup_values() {
    assert_eq!(hex_lookup(b'0'), 0);
    assert_eq!(hex_lookup(b'9'), 9);
    assert_eq!(hex_lookup(b'a'), 10);
    assert_eq!(hex_lookup(b'f'), 15);
    assert_eq!(hex_lookup(b'A'), 10);
    assert_eq!(hex_lookup(b'F'), 15);
    assert_eq!(hex_lookup(b'g'), INVALID_HEX_DIGIT);
    assert_eq!(hex_lookup(b' '), INVALID_HEX_DIGIT);
    assert_eq!(hex_lookup(b'\r'), INVALID_HEX_DIGIT);
}

#[test]
fn ring_accounting() {
    let mut ring = CommandRing::new(8);
    assert_eq!(ring.capacity(), 8);
    assert_eq!(ring.available_to_read(), 0);
    assert_eq!(ring.free_space(), 8);
    assert_eq!(ring.push_bytes(b"abcde"), 5);
    assert_eq!(ring.available_to_read(), 5);
    assert_eq!(ring.free_space(), 3);
    // Only as much as fits is taken.
    assert_eq!(ring.push_bytes(b"XYZW"), 3);
    assert_eq!(ring.available_to_read(), 8);
    assert_eq!(ring.free_space(), 0);
    assert_eq!(ring.push_bytes(b"!"), 0);
}

#[test]
fn parses_each_verb() {
    let mut ring = CommandRing::new(256);
    ring.push_bytes(b"HELP\nSIZE\nOFFSET 7 9\nPX 3 4\nPX 5 6 aabbcc\n");
    assert_eq!(ring.read_next_command(), Ok(Command::Help));
    assert_eq!(ring.read_next_command(), Ok(Command::Size));
    assert_eq!(ring.read_next_command(), Ok(Command::Offset { x: 7, y: 9 }));
    assert_eq!(ring.read_next_command(), Ok(Command::GetPixel { x: 3, y: 4 }));
    assert_eq!(
        ring.read_next_command(),
        Ok(Command::SetPixel { x: 5, y: 6, color: Bgra::from_rgb(0xaabbcc) })
    );
    assert_eq!(ring.read_next_command(), Err(CommandRingError::MoreDataRequired));
}

#[test]
fn color_forms() {
    let mut ring = CommandRing::new(256);
    ring.push_bytes(b"PX 0 0 7f\nPX 0 0 102030\nPX 0 0 10203040\n");
    assert_eq!(
        ring.read_next_command(),
        Ok(Command::SetPixel { x: 0, y: 0, color: Bgra::from_bw(0x7f) })
    );
    assert_eq!(
        ring.read_next_command(),
        Ok(Command::SetPixel { x: 0, y: 0, color: Bgra::from_rgb(0x102030) })
    );
    // Eight digits are red, green, blue, alpha.
    assert_eq!(
        ring.read_next_command(),
        Ok(Command::SetPixel { x: 0, y: 0, color: Bgra { r: 0x10, g: 0x20, b: 0x30, a: 0x40 } })
    );
}

#[test]
fn verb_boundaries_byte_at_a_time() {
    // Feeding "PX 1 2\n" one byte at a time yields exactly one
    // GetPixel{1,2} after the final line feed and nothing before.
    let mut ring = CommandRing::new(64);
    let bytes = b"PX 1 2\n";
    for (i, b) in bytes.iter().enumerate() {
        if i + 1 < bytes.len() {
            assert_eq!(ring.push_bytes(&[*b]), 1);
            assert_eq!(ring.read_next_command(), Err(CommandRingError::MoreDataRequired));
        } else {
            assert_eq!(ring.push_bytes(&[*b]), 1);
            assert_eq!(ring.read_next_command(), Ok(Command::GetPixel { x: 1, y: 2 }));
        }
    }
    assert_eq!(ring.read_next_command(), Err(CommandRingError::MoreDataRequired));
}

#[test]
fn resumes_identically_for_every_split() {
    // Any prefix/suffix split of a byte stream parses to the same
    // command sequence as the whole stream at once.
    let stream = b"PX 10 20 0a0b0c\nOFFSET 4 5\nPX 1 2\nHELP\nSIZE\n";
    let mut whole = CommandRing::new(256);
    whole.push_bytes(stream);
    let (expected, expected_err) = drain(&mut whole);
    assert_eq!(expected_err, None);
    assert_eq!(expected.len(), 5);
    for cut in 0..=stream.len() {
        let mut ring = CommandRing::new(256);
        let mut commands = Vec::new();
        ring.push_bytes(&stream[..cut]);
        let (mut first, err) = drain(&mut ring);
        assert_eq!(err, None);
        commands.append(&mut first);
        ring.push_bytes(&stream[cut..]);
        let (mut second, err) = drain(&mut ring);
        assert_eq!(err, None);
        commands.append(&mut second);
        assert_eq!(commands, expected, "split at {cut}");
    }
}

#[test]
fn rejects_unknown_verb() {
    let mut ring = CommandRing::new(64);
    ring.push_bytes(b"FLOOD 1 2\n");
    assert_eq!(ring.read_next_command(), Err(CommandRingError::UnknownVerb));
}

#[test]
fn rejects_bad_decimal_digit() {
    let mut ring = CommandRing::new(64);
    ring.push_bytes(b"PX !\n");
    assert_eq!(
        ring.read_next_command(),
        Err(CommandRingError::InvalidDecimalDigit(b'!'))
    );
}

#[test]
fn rejects_bad_hex_digit_in_color() {
    let mut ring = CommandRing::new(64);
    ring.push_bytes(b"PX 1 1 zz\n");
    assert_eq!(
        ring.read_next_command(),
        Err(CommandRingError::InvalidHexadecimalDigit(b'z'))
    );
}

#[test]
fn rejects_bad_color_length() {
    let mut ring = CommandRing::new(64);
    ring.push_bytes(b"PX 1 1 abc\n");
    assert_eq!(ring.read_next_command(), Err(CommandRingError::InvalidColor));
    let mut ring = CommandRing::new(64);
    ring.push_bytes(b"PX 1 1 123456789\n");
    assert_eq!(ring.read_next_command(), Err(CommandRingError::InvalidColor));
}

#[test]
fn carriage_return_is_rejected_by_the_streaming_parser() {
    // The hot-path parser recognizes bare line feeds only; a carriage
    // return in a coordinate is an invalid digit.
    let mut ring = CommandRing::new(64);
    ring.push_bytes(b"PX 1 2\r\n");
    assert_eq!(
        ring.read_next_command(),
        Err(CommandRingError::InvalidDecimalDigit(b'\r'))
    );
}

#[test]
fn rejects_hex_letters_in_coordinates() {
    // Coordinates are decimal: a hexadecimal letter is no digit.
    let mut ring = CommandRing::new(64);
    ring.push_bytes(b"PX a 0\n");
    assert_eq!(
        ring.read_next_command(),
        Err(CommandRingError::InvalidDecimalDigit(b'a'))
    );
}

#[test]
fn partial_command_is_kept_until_more_bytes_arrive() {
    let mut ring = CommandRing::new(64);
    ring.push_bytes(b"OFFSET 12");
    assert_eq!(ring.read_next_command(), Err(CommandRingError::MoreDataRequired));
    assert_eq!(ring.available_to_read(), 9);
    ring.push_bytes(b" 34\n");
    assert_eq!(ring.read_next_command(), Ok(Command::Offset { x: 12, y: 34 }));
    assert_eq!(ring.available_to_read(), 0);
}

#[test]
fn wraps_around_the_buffer_edge() {
    // A ring sized barely larger than one command forces the read and
    // write positions to wrap while parsing stays correct.
    let mut ring = CommandRing::new(10);
    for i in 0..50 {
        let x = i % 10;
        let line = format!("PX {x} 2\n");
        assert_eq!(ring.push_bytes(line.as_bytes()), line.len());
        assert_eq!(ring.read_next_command(), Ok(Command::GetPixel { x, y: 2 }));
        assert_eq!(ring.read_next_command(), Err(CommandRingError::MoreDataRequired));
    }
}

#[test]
fn coordinates_wrap_modulo_u32() {
    // The accumulator wraps as 32-bit arithmetic does: 4294967296
    // reads as 0.
    let mut ring = CommandRing::new(64);
    ring.push_bytes(b"PX 4294967296 1\n");
    assert_eq!(ring.read_next_command(), Ok(Command::GetPixel { x: 0, y: 1 }));
}
