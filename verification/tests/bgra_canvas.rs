use wellenbrecher::bgra::Bgra;
use wellenbrecher::canvas::{
    check_header, check_region_size, shared_region_size, Canvas, CanvasCreateInfo, CanvasError,
};

fn small_canvas(width: u32, height: u32) -> Canvas {
    Canvas::new(CanvasCreateInfo {
        width,
        height,
        initial_canvas: vec![Bgra::default(); (width * height) as usize],
    })
}

#[test]
fn bgra_from_rgb_parts() {
    let c = Bgra::from_rgb(0x112233);
    assert_eq!(c.r, 0x11);
    assert_eq!(c.g, 0x22);
    assert_eq!(c.b, 0x33);
    assert_eq!(c.a, 0xff);
}

#[test]
fn bgra_from_rgba_parts() {
    let c = Bgra::from_rgba(0x11223344);
    assert_eq!(c.r, 0x11);
    assert_eq!(c.g, 0x22);
    assert_eq!(c.b, 0x33);
    assert_eq!(c.a, 0x44);
}

#[test]
fn bgra_from_argb_parts() {
    let c = Bgra::from_argb(0xcc1144ee);
    assert_eq!(c.a, 0xcc);
    assert_eq!(c.r, 0x11);
    assert_eq!(c.g, 0x44);
    assert_eq!(c.b, 0xee);
}

#[test]
fn bgra_from_bw_parts() {
    let c = Bgra::from_bw(0x7f);
    assert_eq!(c, Bgra { r: 0x7f, g: 0x7f, b: 0x7f, a: 0xff });
}

#[test]
fn bgra_rgb_packs_channels() {
    let c = Bgra { r: 0x11, g: 0x22, b: 0x33, a: 0xff };
    assert_eq!(c.rgb(), 0x112233);
}

#[test]
fn bgra_u32_round_trip() {
    let c = Bgra { r: 1, g: 2, b: 3, a: 4 };
    assert_eq!(Bgra::from_u32(c.to_u32()), c);
    assert_eq!(Bgra::from_u32(0x01020304), Bgra { b: 1, g: 2, r: 3, a: 4 });
}

#[test]
fn canvas_round_trip_opaque_write() {
    let mut canvas = small_canvas(16, 16);
    let color = Bgra::from_rgb(0xa0b0c0);
    assert_eq!(canvas.set_pixel(3, 5, color, 7), Ok(()));
    assert_eq!(canvas.pixel(3, 5), Ok(color));
    assert_eq!(canvas.user(3, 5), Ok(7));
}

#[test]
fn canvas_transparent_write_is_no_op() {
    let mut canvas = small_canvas(8, 8);
    let opaque = Bgra::from_rgb(0x123456);
    assert_eq!(canvas.set_pixel(1, 1, opaque, 9), Ok(()));
    let transparent = Bgra { r: 0xff, g: 0xff, b: 0xff, a: 0 };
    assert_eq!(canvas.set_pixel(1, 1, transparent, 4), Ok(()));
    assert_eq!(canvas.pixel(1, 1), Ok(opaque));
    assert_eq!(canvas.user(1, 1), Ok(9));
}

#[test]
fn canvas_blend_midpoint() {
    // Over black, an r=100 g=150 b=200 write at alpha 128 leaves
    // r=50 g=75 b=100, fully opaque.
    let mut canvas = small_canvas(4, 4);
    let src = Bgra { r: 100, g: 150, b: 200, a: 128 };
    assert_eq!(canvas.set_pixel(0, 0, src, 2), Ok(()));
    assert_eq!(canvas.pixel(0, 0), Ok(Bgra { r: 50, g: 75, b: 100, a: 255 }));
    assert_eq!(canvas.user(0, 0), Ok(2));
}

#[test]
fn canvas_blend_saturates_downwards() {
    // The packed subtraction saturates: blending black over white
    // leaves white.
    let mut canvas = small_canvas(4, 4);
    assert_eq!(canvas.set_pixel(2, 2, Bgra::from_rgb(0xffffff), 1), Ok(()));
    assert_eq!(canvas.set_pixel(2, 2, Bgra { r: 0, g: 0, b: 0, a: 128 }, 2), Ok(()));
    assert_eq!(canvas.pixel(2, 2), Ok(Bgra::from_rgb(0xffffff)));
    assert_eq!(canvas.user(2, 2), Ok(2));
}

#[test]
fn canvas_out_of_bounds_write_and_read() {
    let mut canvas = small_canvas(10, 10);
    assert_eq!(
        canvas.set_pixel(10, 0, Bgra::from_bw(0xff), 1),
        Err(CanvasError::PixelOutOfBounds { x: 10, y: 0 })
    );
    assert_eq!(
        canvas.pixel(0, 10),
        Err(CanvasError::PixelOutOfBounds { x: 0, y: 10 })
    );
    assert_eq!(
        canvas.user(10, 10),
        Err(CanvasError::PixelOutOfBounds { x: 10, y: 10 })
    );
}

#[test]
fn canvas_dimensions_and_slices() {
    let canvas = small_canvas(6, 3);
    assert_eq!(canvas.width(), 6);
    assert_eq!(canvas.height(), 3);
    assert_eq!(canvas.pixel_slice().len(), 18);
    assert_eq!(canvas.user_id_slice().len(), 18);
    assert!(canvas.user_id_slice().iter().all(|u| *u == 0));
}

#[test]
fn region_size_counts_header_and_both_arrays() {
    assert_eq!(shared_region_size(1280, 720), 8 + 1280 * 720 * 8);
    assert_eq!(shared_region_size(1, 1), 16);
}

#[test]
fn header_check_accepts_only_matching_dimensions() {
    assert_eq!(check_header(1280, 720, 1280, 720), Ok(()));
    assert_eq!(check_header(1280, 720, 1920, 1080), Err(CanvasError::InvalidSize));
    assert_eq!(check_header(1280, 720, 1280, 721), Err(CanvasError::InvalidSize));
}

#[test]
fn region_length_check_accepts_only_the_exact_size() {
    assert_eq!(check_region_size(1280, 720, 8 + 1280 * 720 * 8), Ok(()));
    assert_eq!(
        check_region_size(1280, 720, 8 + 1280 * 720 * 8 - 1),
        Err(CanvasError::InvalidSize)
    );
    assert_eq!(check_region_size(1, 1, 8), Err(CanvasError::InvalidSize));
    assert_eq!(check_region_size(1, 1, 16), Ok(()));
}
