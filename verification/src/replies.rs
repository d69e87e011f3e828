//! The textual replies of the protocol: the `PX` answer to a pixel
//! read and the `SIZE` answer, both newline-terminated, and the fixed
//! multi-line `HELP` page.

use vstd::prelude::*;

use crate::bgra::Bgra;

verus! {

/// The shortest decimal numeral of `n`, as ASCII digit bytes.
pub open spec fn spec_u32_dec(n: int) -> Seq<u8>
    decreases n,
{
    if n < 10 {
        seq![(48 + n) as u8]
    } else {
        spec_u32_dec(n / 10) + seq![(48 + n % 10) as u8]
    }
}

/// The `k` lowest hexadecimal digits of `v`, lower case, most
/// significant first.
pub open spec fn spec_hex_digits(v: int, k: int) -> Seq<u8>
    decreases k,
{
    if k <= 0 {
        Seq::<u8>::empty()
    } else {
        spec_hex_digits(v / 16, k - 1) + seq![spec_hex_digit_byte(v % 16)]
    }
}

/// The ASCII byte of one hexadecimal digit, lower case.
pub open spec fn spec_hex_digit_byte(d: int) -> u8 {
    if d < 10 {
        (48 + d) as u8
    } else {
        (97 + d - 10) as u8
    }
}

/// The reply to reading pixel (x, y): `PX <x> <y> <aarrggbb>\n`, where
/// the color byte order on the wire is red, green, blue, alpha.
pub open spec fn spec_px_reply(x: u32, y: u32, color: u32) -> Seq<u8> {
    seq![80u8, 88u8, 32u8] + spec_u32_dec(x as int) + seq![32u8] + spec_u32_dec(y as int)
        + seq![32u8] + spec_hex_digits(color as int, 8) + seq![10u8]
}

/// The reply to `SIZE`: `SIZE <width> <height>\n`.
pub open spec fn spec_size_reply(width: u32, height: u32) -> Seq<u8> {
    seq![83u8, 73u8, 90u8, 69u8, 32u8] + spec_u32_dec(width as int) + seq![32u8] + spec_u32_dec(
        height as int,
    ) + seq![10u8]
}

/// Append the decimal numeral of `n`.
pub fn push_u32_dec(n: u32, out: &mut Vec<u8>)
    ensures
        final(out)@ == old(out)@ + spec_u32_dec(n as int),
    decreases n,
{
    if n < 10 {
        out.push(48 + n as u8);
        proof {
            assert(out@ =~= old(out)@ + spec_u32_dec(n as int));
        }
    } else {
        push_u32_dec(n / 10, out);
        out.push(48 + (n % 10) as u8);
        proof {
            assert(out@ =~= old(out)@ + spec_u32_dec(n as int));
        }
    }
}

/// Append the `k`-digit zero-padded lowercase hexadecimal numeral of
/// `v`'s low `k` digits.
pub fn push_hex_digits(v: u32, k: usize, out: &mut Vec<u8>)
    ensures
        final(out)@ == old(out)@ + spec_hex_digits(v as int, k as int),
    decreases k,
{
    if k == 0 {
        proof {
            assert(out@ =~= old(out)@ + spec_hex_digits(v as int, 0));
        }
    } else {
        push_hex_digits(v / 16, k - 1, out);
        let d = v % 16;
        let b: u8 = if d < 10 {
            48 + d as u8
        } else {
            97 + (d - 10) as u8
        };
        out.push(b);
        proof {
            assert(out@ =~= old(out)@ + spec_hex_digits(v as int, k as int));
        }
    }
}

/// Build the reply to reading pixel (x, y) with the given color.
pub fn format_px_reply(x: u32, y: u32, color: Bgra) -> (r: Vec<u8>)
    ensures
        r@ == spec_px_reply(x, y, color.spec_to_rgba()),
{
    let mut out: Vec<u8> = Vec::new();
    out.push(80);
    out.push(88);
    out.push(32);
    push_u32_dec(x, &mut out);
    out.push(32);
    push_u32_dec(y, &mut out);
    out.push(32);
    push_hex_digits(color.to_rgba(), 8, &mut out);
    out.push(10);
    proof {
        assert(out@ =~= spec_px_reply(x, y, color.spec_to_rgba()));
    }
    out
}

/// Build the reply to `SIZE` for a canvas of the given dimensions.
pub fn format_size_reply(width: u32, height: u32) -> (r: Vec<u8>)
    ensures
        r@ == spec_size_reply(width, height),
{
    let mut out: Vec<u8> = Vec::new();
    out.push(83);
    out.push(73);
    out.push(90);
    out.push(69);
    out.push(32);
    push_u32_dec(width, &mut out);
    out.push(32);
    push_u32_dec(height, &mut out);
    out.push(10);
    proof {
        assert(out@ =~= spec_size_reply(width, height));
    }
    out
}

/// The fixed help page: non-empty, and it ends with a line feed.
pub fn help_text() -> (r: Vec<u8>)
    ensures
        r@.len() >= 1,
        r@[r@.len() - 1] == 10u8,
{
    let text: &str = "Welcome to Pixelflut!\n\nCommands:\n    HELP                -> get this information page\n    SIZE                -> get the size of the canvas\n    PX <x> <y>          -> get the color of pixel (x, y)\n    PX <x> <y> <COLOR>  -> set the color of pixel (x, y)\n    OFFSET <x> <y>      -> sets an pixel offset for all following commands\n\n    COLOR:\n        Grayscale: ww          (\"00\"       black .. \"ff\"       white)\n        RGB:       rrggbb      (\"000000\"   black .. \"ffffff\"   white)\n        RGBA:      rrggbbaa    (rgb with alpha)\n\nExample:\n    \"PX 420 69 ff\\n\"       -> set the color of pixel at (420, 69) to white\n    \"PX 420 69 00ffff\\n\"   -> set the color of pixel at (420, 69) to cyan\n    \"PX 420 69 ffff007f\\n\" -> blend the color of pixel at (420, 69) with yellow (alpha 127)\n";
    let bytes = text.as_bytes();
    let mut out: Vec<u8> = Vec::new();
    let mut i: usize = 0;
    while i < bytes.len()
        invariant
            out@.len() == i,
            i <= bytes@.len(),
        decreases bytes@.len() - i,
    {
        out.push(bytes[i]);
        i = i + 1;
    }
    if out.len() == 0 || out[out.len() - 1] != 10 {
        out.push(10);
    }
    out
}

} // verus!
