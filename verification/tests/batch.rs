use wellenbrecher::bgra::Bgra;
use wellenbrecher::canvas::{Canvas, CanvasCreateInfo};
use wellenbrecher::command::StaticReplies;
use wellenbrecher::pixelflut_connection_handler::{
    process_batch, BatchResult, Connection, PixelflutConnectionHandler,
};
use wellenbrecher::replies::{format_px_reply, format_size_reply, help_text};

fn canvas_1280_720() -> Canvas {
    Canvas::new(CanvasCreateInfo {
        width: 1280,
        height: 720,
        initial_canvas: vec![Bgra::default(); 1280 * 720],
    })
}

fn feed(conn: &mut Connection, canvas: &mut Canvas, bytes: &[u8]) -> BatchResult {
    assert_eq!(conn.command_ring.push_bytes(bytes), bytes.len());
    process_batch(conn, canvas)
}

#[test]
fn write_then_read_replies_with_the_stored_color() {
    let mut canvas = canvas_1280_720();
    let mut conn = Connection::new(1, 65536);
    let result = feed(&mut conn, &mut canvas, b"PX 10 20 0a0b0c\nPX 10 20\n");
    assert!(!result.closed);
    assert_eq!(result.pixel_replies.len(), 1);
    assert_eq!(result.pixel_replies[0], b"PX 10 20 0a0b0cff\n");
    assert_eq!(result.static_replies, StaticReplies { help: 0, size: 0 });
}

#[test]
fn grayscale_short_form_replies_replicated() {
    let mut canvas = canvas_1280_720();
    let mut conn = Connection::new(1, 65536);
    let result = feed(&mut conn, &mut canvas, b"PX 0 0 7f\nPX 0 0\n");
    assert!(!result.closed);
    assert_eq!(result.pixel_replies.len(), 1);
    assert_eq!(result.pixel_replies[0], b"PX 0 0 7f7f7fff\n");
}

#[test]
fn offset_translates_both_writes_and_reads() {
    let mut canvas = canvas_1280_720();
    let mut conn = Connection::new(1, 65536);
    let result = feed(&mut conn, &mut canvas, b"OFFSET 100 50\nPX 1 2 ff0000\nPX 1 2\n");
    assert!(!result.closed);
    assert_eq!(result.pixel_replies.len(), 1);
    // The reply names the post-offset coordinates.
    assert_eq!(result.pixel_replies[0], b"PX 101 52 ff0000ff\n");
    assert_eq!(conn.user_offset, (100, 50));
}

#[test]
fn size_requests_coalesce_to_one_reply_per_batch() {
    let mut canvas = canvas_1280_720();
    let mut conn = Connection::new(1, 65536);
    let mut bytes = Vec::new();
    for _ in 0..100 {
        bytes.extend_from_slice(b"SIZE\n");
    }
    let result = feed(&mut conn, &mut canvas, &bytes);
    assert!(!result.closed);
    assert_eq!(result.pixel_replies.len(), 0);
    assert_eq!(result.static_replies.size, 100);
    assert_eq!(result.static_replies.help, 0);
    // The caller answers a positive counter with exactly one reply.
    assert_eq!(format_size_reply(canvas.width(), canvas.height()), b"SIZE 1280 720\n");
}

#[test]
fn help_requests_coalesce_too() {
    let mut canvas = canvas_1280_720();
    let mut conn = Connection::new(1, 65536);
    let result = feed(&mut conn, &mut canvas, b"HELP\nHELP\nHELP\nSIZE\n");
    assert!(!result.closed);
    assert_eq!(result.static_replies.help, 3);
    assert_eq!(result.static_replies.size, 1);
    assert_eq!(result.pixel_replies.len(), 0);
}

#[test]
fn out_of_bounds_write_closes_the_connection() {
    let mut canvas = canvas_1280_720();
    let mut conn = Connection::new(1, 65536);
    let result = feed(&mut conn, &mut canvas, b"PX 1280 0 ff\n");
    assert!(result.closed);
    assert_eq!(result.pixel_replies.len(), 0);
}

#[test]
fn no_commands_run_after_the_closing_error() {
    let mut canvas = canvas_1280_720();
    let mut conn = Connection::new(1, 65536);
    let result = feed(
        &mut conn,
        &mut canvas,
        b"PX 5 5 112233\nPX 1280 720 ff\nPX 6 6 445566\n",
    );
    assert!(result.closed);
    // The write before the error happened, the one after did not.
    assert_eq!(canvas.pixel(5, 5), Ok(Bgra::from_rgb(0x112233)));
    assert_eq!(canvas.pixel(6, 6), Ok(Bgra::default()));
}

#[test]
fn parse_error_closes_the_connection() {
    let mut canvas = canvas_1280_720();
    let mut conn = Connection::new(1, 65536);
    let result = feed(&mut conn, &mut canvas, b"BLAH 1 2\n");
    assert!(result.closed);
}

#[test]
fn partial_tail_waits_in_the_ring() {
    let mut canvas = canvas_1280_720();
    let mut conn = Connection::new(1, 65536);
    let result = feed(&mut conn, &mut canvas, b"PX 1 1 aa\nPX 2");
    assert!(!result.closed);
    assert_eq!(conn.command_ring.available_to_read(), 4);
    let result = feed(&mut conn, &mut canvas, b" 3\n");
    assert!(!result.closed);
    assert_eq!(result.pixel_replies.len(), 1);
    assert_eq!(result.pixel_replies[0], b"PX 2 3 00000000\n");
}

#[test]
fn writes_tag_the_owner_map() {
    let mut canvas = canvas_1280_720();
    let mut conn = Connection::new(42, 65536);
    let result = feed(&mut conn, &mut canvas, b"PX 9 9 ff0000\n");
    assert!(!result.closed);
    assert_eq!(canvas.user(9, 9), Ok(42));
    assert_eq!(canvas.user(8, 9), Ok(0));
}

#[test]
fn px_reply_formats_coordinates_and_color() {
    let reply = format_px_reply(1280, 720, Bgra { r: 0xab, g: 0x00, b: 0x09, a: 0xff });
    assert_eq!(reply, b"PX 1280 720 ab0009ff\n");
    let reply = format_px_reply(0, 0, Bgra::default());
    assert_eq!(reply, b"PX 0 0 00000000\n");
    let reply = format_px_reply(u32::MAX, 1, Bgra::from_rgba(0xdeadbeef));
    assert_eq!(reply, b"PX 4294967295 1 deadbeef\n");
}

#[test]
fn size_reply_formats_dimensions() {
    assert_eq!(format_size_reply(1, 1), b"SIZE 1 1\n");
    assert_eq!(format_size_reply(4294967295, 1080), b"SIZE 4294967295 1080\n");
}

#[test]
fn handler_owns_canvas_and_size_reply() {
    let mut handler = PixelflutConnectionHandler::new(canvas_1280_720());
    assert_eq!(handler.size_reply_buffer, b"SIZE 1280 720\n");
    let mut conn = Connection::new(3, 65536);
    conn.command_ring.push_bytes(b"PX 7 8 010203\nPX 7 8\n");
    let result = handler.handle_batch(&mut conn);
    assert!(!result.closed);
    assert_eq!(result.pixel_replies.len(), 1);
    assert_eq!(result.pixel_replies[0], b"PX 7 8 010203ff\n");
    assert_eq!(handler.canvas.user(7, 8), Ok(3));
}

#[test]
fn help_page_is_fixed_and_newline_terminated() {
    let text = help_text();
    assert!(!text.is_empty());
    assert_eq!(*text.last().unwrap(), b'\n');
    assert_eq!(help_text(), text);
    assert!(text.starts_with(b"Welcome to Pixelflut!\n"));
}
