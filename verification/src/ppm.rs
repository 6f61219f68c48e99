//! Plain-text image encoding.
//!
//! The image leaves the renderer as ASCII text: a three-line header — the
//! format's magic line, the image size, and the maximum channel value —
//! followed by one line per pixel in row-major order, each holding the three
//! gamma-encoded channel bytes as decimal numbers.

use vstd::prelude::*;

verus! {

/// ASCII space.
pub const SPACE: u8 = 32;

/// ASCII line feed.
pub const NEWLINE: u8 = 10;

/// ASCII capital `P`: first byte of the format's magic line.
pub const MAGIC_LETTER: u8 = 80;

/// ASCII digit three: second byte of the format's magic line.
pub const MAGIC_DIGIT: u8 = 51;

/// Largest value a channel byte can take, and the header's third line.
pub const MAX_CHANNEL: u8 = 255;

/// The decimal digits of `n` in ASCII, most significant first, without
/// leading zeros (zero itself is the single digit `0`).
pub open spec fn decimal(n: nat) -> Seq<u8>
    decreases n,
{
    if n < 10 {
        seq![(48 + n) as u8]
    } else {
        decimal(n / 10).push((48 + n % 10) as u8)
    }
}

/// Append the decimal digits of `n` to `v`.
pub fn push_decimal(v: &mut Vec<u8>, n: u32)
    ensures
        final(v)@ == old(v)@ + decimal(n as nat),
    decreases n,
{
    if n < 10 {
        v.push(48 + n as u8);
        assert(v@ =~= old(v)@ + decimal(n as nat));
    } else {
        push_decimal(v, n / 10);
        v.push(48 + (n % 10) as u8);
        assert(v@ =~= old(v)@ + decimal(n as nat));
    }
}

/// The decimal digits of `n` in ASCII.
pub fn format_decimal(n: u32) -> (r: Vec<u8>)
    ensures
        r@ == decimal(n as nat),
{
    let mut v: Vec<u8> = Vec::new();
    push_decimal(&mut v, n);
    assert(v@ =~= decimal(n as nat));
    v
}

/// One pixel's text line: the three channel bytes as decimal numbers,
/// separated by spaces and closed by a newline.
pub open spec fn pixel_line(r: u8, g: u8, b: u8) -> Seq<u8> {
    decimal(r as nat) + seq![SPACE] + decimal(g as nat) + seq![SPACE] + decimal(b as nat)
        + seq![NEWLINE]
}

/// Append one pixel's text line to `v`.
pub fn push_pixel_line(v: &mut Vec<u8>, r: u8, g: u8, b: u8)
    ensures
        final(v)@ == old(v)@ + pixel_line(r, g, b),
{
    push_decimal(v, r as u32);
    v.push(SPACE);
    push_decimal(v, g as u32);
    v.push(SPACE);
    push_decimal(v, b as u32);
    v.push(NEWLINE);
    assert(v@ =~= old(v)@ + pixel_line(r, g, b));
}

/// The three header lines: the magic line, `<width> <height>`, and the
/// maximum channel value.
pub open spec fn header(width: u32, height: u32) -> Seq<u8> {
    seq![MAGIC_LETTER, MAGIC_DIGIT, NEWLINE] + decimal(width as nat) + seq![SPACE]
        + decimal(height as nat) + seq![NEWLINE] + decimal(MAX_CHANNEL as nat) + seq![NEWLINE]
}

/// Append the header to `v`.
pub fn push_header(v: &mut Vec<u8>, width: u32, height: u32)
    ensures
        final(v)@ == old(v)@ + header(width, height),
{
    v.push(MAGIC_LETTER);
    v.push(MAGIC_DIGIT);
    v.push(NEWLINE);
    push_decimal(v, width);
    v.push(SPACE);
    push_decimal(v, height);
    v.push(NEWLINE);
    push_decimal(v, MAX_CHANNEL as u32);
    v.push(NEWLINE);
    assert(v@ =~= old(v)@ + header(width, height));
}

/// The text lines of a pixel sequence, in order.
pub open spec fn pixel_lines(pixels: Seq<(u8, u8, u8)>) -> Seq<u8>
    decreases pixels.len(),
{
    if pixels.len() == 0 {
        Seq::empty()
    } else {
        pixel_line(pixels[0].0, pixels[0].1, pixels[0].2) + pixel_lines(pixels.drop_first())
    }
}

/// Appending a pixel appends its line.
proof fn lemma_pixel_lines_push(pixels: Seq<(u8, u8, u8)>, p: (u8, u8, u8))
    ensures
        pixel_lines(pixels.push(p)) == pixel_lines(pixels) + pixel_line(p.0, p.1, p.2),
    decreases pixels.len(),
{
    if pixels.len() == 0 {
        assert(pixels.push(p).drop_first() =~= pixels);
        assert(pixel_lines(pixels.push(p)) =~= pixel_lines(pixels) + pixel_line(p.0, p.1, p.2));
    } else {
        assert(pixels.push(p).drop_first() =~= pixels.drop_first().push(p));
        lemma_pixel_lines_push(pixels.drop_first(), p);
        assert(pixel_lines(pixels.push(p)) =~= pixel_lines(pixels) + pixel_line(p.0, p.1, p.2));
    }
}

/// The whole image text: the header, then each pixel's line in row-major
/// order.
pub open spec fn image_text(width: u32, height: u32, pixels: Seq<(u8, u8, u8)>) -> Seq<u8> {
    header(width, height) + pixel_lines(pixels)
}

/// Encode a finished image as plain text.  The pixel sequence must hold one
/// gamma-encoded byte triple per pixel, in row-major order.
pub fn encode_image(width: u32, height: u32, pixels: &Vec<(u8, u8, u8)>) -> (out: Vec<u8>)
    requires
        pixels@.len() == width as int * height as int,
    ensures
        out@ == image_text(width, height, pixels@),
{
    let mut out: Vec<u8> = Vec::new();
    push_header(&mut out, width, height);
    assert(out@ =~= header(width, height) + pixel_lines(pixels@.take(0)));
    let mut i: usize = 0;
    while i < pixels.len()
        invariant
            i <= pixels@.len(),
            out@ == header(width, height) + pixel_lines(pixels@.take(i as int)),
        decreases pixels@.len() - i,
    {
        let p = pixels[i];
        push_pixel_line(&mut out, p.0, p.1, p.2);
        proof {
            lemma_pixel_lines_push(pixels@.take(i as int), p);
            assert(pixels@.take(i as int + 1) =~= pixels@.take(i as int).push(pixels@[i as int]));
            assert(out@ =~= header(width, height) + pixel_lines(pixels@.take(i as int + 1)));
        }
        i = i + 1;
    }
    proof {
        assert(pixels@.take(pixels@.len() as int) =~= pixels@);
    }
    out
}

} // verus!
