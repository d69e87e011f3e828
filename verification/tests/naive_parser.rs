use wellenbrecher::bgra::Bgra;
use wellenbrecher::pfparse::{
    parse_commands, Command, CommandExecutionError, CommandHandler, NaiveParser, ParseFailKind,
    ParserError,
};

#[derive(PartialEq, Debug)]
struct Infallible;

impl CommandExecutionError for Infallible {}

struct Handler {
    latest: Command,
}

impl CommandHandler for Handler {
    type Error = Infallible;

    fn handle(&mut self, cmd: Command) -> Result<(), Self::Error> {
        self.latest = cmd;
        Ok(())
    }
}

#[derive(PartialEq, Debug)]
struct AlwaysFails;

impl CommandExecutionError for AlwaysFails {}

struct FailingHandler;

impl CommandHandler for FailingHandler {
    type Error = AlwaysFails;

    fn handle(&mut self, _cmd: Command) -> Result<(), Self::Error> {
        Err(AlwaysFails)
    }
}

#[test]
fn naive_parser_test() {
    let mut handler = Handler { latest: Command::Size };
    let mut parser = NaiveParser;

    assert_eq!(Ok(()), parser.feed(b"HELP\n", &mut handler));
    assert_eq!(Command::Help, handler.latest);

    assert_eq!(Ok(()), parser.feed(b"HELP\r\n", &mut handler));
    assert_eq!(Command::Help, handler.latest);

    assert_eq!(Ok(()), parser.feed(b"SIZE\n", &mut handler));
    assert_eq!(Command::Size, handler.latest);

    assert_eq!(Ok(()), parser.feed(b"SIZE\r\n", &mut handler));
    assert_eq!(Command::Size, handler.latest);

    assert_eq!(Ok(()), parser.feed(b"OFFSET 420 69\n", &mut handler));
    assert_eq!(Command::Offset { x: 420, y: 69 }, handler.latest);

    assert_eq!(Ok(()), parser.feed(b"OFFSET 420 69\r\n", &mut handler));
    assert_eq!(Command::Offset { x: 420, y: 69 }, handler.latest);

    assert_eq!(Ok(()), parser.feed(b"PX 420 69\n", &mut handler));
    assert_eq!(Command::GetPixel { x: 420, y: 69 }, handler.latest);

    assert_eq!(Ok(()), parser.feed(b"PX 420 69\r\n", &mut handler));
    assert_eq!(Command::GetPixel { x: 420, y: 69 }, handler.latest);

    assert_eq!(Ok(()), parser.feed(b"PX 420 69 ff\n", &mut handler));
    assert_eq!(
        Command::SetPixel { x: 420, y: 69, color: Bgra::from_bw(0xff) },
        handler.latest
    );

    assert_eq!(Ok(()), parser.feed(b"PX 420 69 ff\r\n", &mut handler));
    assert_eq!(
        Command::SetPixel { x: 420, y: 69, color: Bgra::from_bw(0xff) },
        handler.latest
    );

    assert_eq!(Ok(()), parser.feed(b"PX 420 69 1144ee\n", &mut handler));
    assert_eq!(
        Command::SetPixel { x: 420, y: 69, color: Bgra { r: 0x11, g: 0x44, b: 0xee, a: 0xff } },
        handler.latest
    );

    assert_eq!(Ok(()), parser.feed(b"PX 420 69 1144ee\r\n", &mut handler));
    assert_eq!(
        Command::SetPixel { x: 420, y: 69, color: Bgra { r: 0x11, g: 0x44, b: 0xee, a: 0xff } },
        handler.latest
    );

    assert_eq!(Ok(()), parser.feed(b"PX 420 69 cc1144ee\n", &mut handler));
    assert_eq!(
        Command::SetPixel { x: 420, y: 69, color: Bgra { r: 0x11, g: 0x44, b: 0xee, a: 0xcc } },
        handler.latest
    );

    assert_eq!(Ok(()), parser.feed(b"PX 420 69 cc1144ee\r\n", &mut handler));
    assert_eq!(
        Command::SetPixel { x: 420, y: 69, color: Bgra { r: 0x11, g: 0x44, b: 0xee, a: 0xcc } },
        handler.latest
    );
}

#[test]
fn naive_parser_handles_several_lines_in_one_buffer() {
    let mut handler = Handler { latest: Command::Size };
    let mut parser = NaiveParser;
    assert_eq!(Ok(()), parser.feed(b"HELP\nOFFSET 1 2\nPX 3 4\n", &mut handler));
    assert_eq!(Command::GetPixel { x: 3, y: 4 }, handler.latest);
}

#[test]
fn naive_parser_rejects_unknown_command() {
    let mut handler = Handler { latest: Command::Size };
    let mut parser = NaiveParser;
    assert_eq!(
        Err(ParserError::UnknownCommand),
        parser.feed(b"NOPE\n", &mut handler)
    );
}

#[test]
fn naive_parser_rejects_wrong_piece_counts() {
    let mut handler = Handler { latest: Command::Size };
    let mut parser = NaiveParser;
    assert_eq!(
        Err(ParserError::InvalidCoordinates),
        parser.feed(b"OFFSET 1\n", &mut handler)
    );
    assert_eq!(
        Err(ParserError::InvalidCoordinates),
        parser.feed(b"PX 1\n", &mut handler)
    );
}

#[test]
fn naive_parser_rejects_bad_color_length() {
    let mut handler = Handler { latest: Command::Size };
    let mut parser = NaiveParser;
    assert_eq!(
        Err(ParserError::InvalidColor),
        parser.feed(b"PX 1 1 abc\n", &mut handler)
    );
}

#[test]
fn naive_parser_rejects_bad_numbers() {
    let mut handler = Handler { latest: Command::Size };
    let mut parser = NaiveParser;
    assert_eq!(
        Err(ParserError::InvalidInteger),
        parser.feed(b"PX x 1 ff\n", &mut handler)
    );
    // Coordinates are 16-bit here; an overflowing value is rejected.
    assert_eq!(
        Err(ParserError::InvalidInteger),
        parser.feed(b"OFFSET 70000 1\n", &mut handler)
    );
}

#[test]
fn naive_parser_propagates_handler_errors() {
    let mut handler = FailingHandler;
    let mut parser = NaiveParser;
    assert_eq!(
        Err(ParserError::CommandExecutionError(AlwaysFails)),
        parser.feed(b"HELP\n", &mut handler)
    );
}

#[test]
fn naive_parser_skips_empty_lines() {
    let mut handler = Handler { latest: Command::Size };
    let mut parser = NaiveParser;
    assert_eq!(Ok(()), parser.feed(b"\n\nHELP\n\n", &mut handler));
    assert_eq!(Command::Help, handler.latest);
    assert_eq!(Ok(()), parser.feed(b"", &mut handler));
}

#[test]
fn parse_commands_returns_the_decoded_sequence() {
    assert_eq!(
        parse_commands(b"HELP\nOFFSET 1 2\nPX 3 4\nPX 5 6 ff\n"),
        Ok(vec![
            Command::Help,
            Command::Offset { x: 1, y: 2 },
            Command::GetPixel { x: 3, y: 4 },
            Command::SetPixel { x: 5, y: 6, color: Bgra::from_bw(0xff) },
        ])
    );
    assert_eq!(parse_commands(b""), Ok(vec![]));
    assert_eq!(parse_commands(b"NOPE\n"), Err(ParseFailKind::UnknownCommand));
    assert_eq!(
        parse_commands(b"HELP\nPX 1\n"),
        Err(ParseFailKind::InvalidCoordinates)
    );
}
