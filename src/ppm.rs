//! The plain-text `P3` pixel format: a header, then one `R G B` line per pixel.
use vstd::prelude::*;

verus! {

/// ASCII code of the digit `0`.
pub const ZERO_DIGIT: u8 = 48;

/// The decimal digits of `n` as ASCII bytes, most significant first, with no
/// leading zeros.
pub open spec fn decimal(n: nat) -> Seq<u8>
    decreases n,
{
    if n < 10 {
        seq![(ZERO_DIGIT + n) as u8]
    } else {
        decimal(n / 10).push((ZERO_DIGIT + n % 10) as u8)
    }
}

/// Appends the decimal digits of `n` to `out`.
pub fn push_decimal(out: &mut Vec<u8>, n: u32)
    ensures
        final(out)@ == old(out)@ + decimal(n as nat),
    decreases n,
{
    if n >= 10 {
        push_decimal(out, n / 10);
    }
    out.push(ZERO_DIGIT + (n % 10) as u8);
    proof {
        assert(final(out)@ =~= old(out)@ + decimal(n as nat));
    }
}


/// ASCII codes of the separators and header letters of the format.
pub const SPACE: u8 = 32;
pub const NEWLINE: u8 = 10;
pub const LETTER_P: u8 = 80;
pub const DIGIT_THREE: u8 = 51;

/// The largest channel value, written in the header.
pub const MAX_CHANNEL: u32 = 255;

/// A tone-mapped pixel: one byte per channel, so every channel lies in 0..=255.
#[derive(Clone, Copy, Debug, PartialEq, Eq, Structural)]
pub struct Rgb {
    pub r: u8,
    pub g: u8,
    pub b: u8,
}

/// The line `R G B\n` of one pixel.
pub open spec fn pixel_text(p: Rgb) -> Seq<u8> {
    decimal(p.r as nat) + seq![SPACE] + decimal(p.g as nat) + seq![SPACE] + decimal(p.b as nat)
        + seq![NEWLINE]
}

/// The header: `P3`, the line `<width> <height>`, and the line `255`.
pub open spec fn header_text(width: nat, height: nat) -> Seq<u8> {
    seq![LETTER_P, DIGIT_THREE, NEWLINE] + decimal(width) + seq![SPACE] + decimal(height)
        + seq![NEWLINE] + decimal(255) + seq![NEWLINE]
}

/// The pixel lines of `pixels`, in order.
pub open spec fn pixels_text(pixels: Seq<Rgb>) -> Seq<u8>
    decreases pixels.len(),
{
    if pixels.len() == 0 {
        Seq::empty()
    } else {
        pixels_text(pixels.drop_last()) + pixel_text(pixels.last())
    }
}

/// A whole image: the header followed by every pixel line.
pub open spec fn image_text(width: nat, height: nat, pixels: Seq<Rgb>) -> Seq<u8> {
    header_text(width, height) + pixels_text(pixels)
}

/// Appends the header of a `width` by `height` image to `out`.
pub fn write_header(out: &mut Vec<u8>, width: u32, height: u32)
    ensures
        final(out)@ == old(out)@ + header_text(width as nat, height as nat),
{
    out.push(LETTER_P);
    out.push(DIGIT_THREE);
    out.push(NEWLINE);
    push_decimal(out, width);
    out.push(SPACE);
    push_decimal(out, height);
    out.push(NEWLINE);
    push_decimal(out, MAX_CHANNEL);
    out.push(NEWLINE);
    proof {
        assert(final(out)@ =~= old(out)@ + header_text(width as nat, height as nat));
    }
}

/// Appends the line of one pixel to `out`.
pub fn write_pixel(out: &mut Vec<u8>, pixel: Rgb)
    ensures
        final(out)@ == old(out)@ + pixel_text(pixel),
{
    push_decimal(out, pixel.r as u32);
    out.push(SPACE);
    push_decimal(out, pixel.g as u32);
    out.push(SPACE);
    push_decimal(out, pixel.b as u32);
    out.push(NEWLINE);
    proof {
        assert(final(out)@ =~= old(out)@ + pixel_text(pixel));
    }
}

/// Encodes a `width` by `height` image whose pixels are given in scan order.
/// Returns `None` when the number of pixels is not `width * height`.
pub fn encode_image(width: u32, height: u32, pixels: &Vec<Rgb>) -> (r: Option<Vec<u8>>)
    ensures
        r is None <==> pixels@.len() != width as nat * height as nat,
        r matches Some(bytes) ==> bytes@ == image_text(width as nat, height as nat, pixels@),
{
    proof {
        assert(width as u64 * height as u64 <= u32::MAX as u64 * u32::MAX as u64) by (nonlinear_arith);
    }
    if pixels.len() as u64 != width as u64 * height as u64 {
        return None;
    }
    let mut out: Vec<u8> = Vec::new();
    write_header(&mut out, width, height);
    let mut k: usize = 0;
    while k < pixels.len()
        invariant
            k <= pixels@.len(),
            out@ == header_text(width as nat, height as nat) + pixels_text(pixels@.take(k as int)),
        decreases pixels@.len() - k,
    {
        let ghost before = out@;
        write_pixel(&mut out, pixels[k]);
        proof {
            assert(pixels@.take(k + 1).drop_last() =~= pixels@.take(k as int));
            assert(out@ =~= header_text(width as nat, height as nat) + pixels_text(
                pixels@.take(k + 1),
            ));
        }
        k = k + 1;
    }
    proof {
        assert(pixels@.take(k as int) =~= pixels@);
    }
    Some(out)
}


/// The number of newline bytes in `s`, which is its number of complete lines.
pub open spec fn line_count(s: Seq<u8>) -> nat
    decreases s.len(),
{
    if s.len() == 0 {
        0
    } else {
        line_count(s.drop_last()) + if s.last() == NEWLINE {
            1nat
        } else {
            0nat
        }
    }
}

proof fn lemma_line_count_concat(a: Seq<u8>, b: Seq<u8>)
    ensures
        line_count(a + b) == line_count(a) + line_count(b),
    decreases b.len(),
{
    if b.len() == 0 {
        assert(a + b =~= a);
    } else {
        assert((a + b).drop_last() =~= a + b.drop_last());
        lemma_line_count_concat(a, b.drop_last());
    }
}

proof fn lemma_decimal_no_newline(n: nat)
    ensures
        line_count(decimal(n)) == 0,
    decreases n,
{
    if n < 10 {
        lemma_single_byte((ZERO_DIGIT + n) as u8);
    } else {
        lemma_decimal_no_newline(n / 10);
        assert(decimal(n).drop_last() =~= decimal(n / 10));
        assert(decimal(n).last() != NEWLINE);
    }
}

proof fn lemma_single_byte(c: u8)
    ensures
        line_count(seq![c]) == if c == NEWLINE {
            1nat
        } else {
            0nat
        },
{
    assert(seq![c].drop_last() =~= Seq::<u8>::empty());
    reveal_with_fuel(line_count, 2);
}

proof fn lemma_pixel_one_line(p: Rgb)
    ensures
        line_count(pixel_text(p)) == 1,
{
    let d_r = decimal(p.r as nat);
    let d_g = decimal(p.g as nat);
    let d_b = decimal(p.b as nat);
    lemma_decimal_no_newline(p.r as nat);
    lemma_decimal_no_newline(p.g as nat);
    lemma_decimal_no_newline(p.b as nat);
    lemma_single_byte(SPACE);
    lemma_single_byte(NEWLINE);
    lemma_line_count_concat(d_r, seq![SPACE]);
    lemma_line_count_concat(d_r + seq![SPACE], d_g);
    lemma_line_count_concat(d_r + seq![SPACE] + d_g, seq![SPACE]);
    lemma_line_count_concat(d_r + seq![SPACE] + d_g + seq![SPACE], d_b);
    lemma_line_count_concat(d_r + seq![SPACE] + d_g + seq![SPACE] + d_b, seq![NEWLINE]);
}

proof fn lemma_header_three_lines(width: nat, height: nat)
    ensures
        line_count(header_text(width, height)) == 3,
{
    let start = seq![LETTER_P, DIGIT_THREE, NEWLINE];
    assert(line_count(start) == 1) by {
        assert(start.drop_last() =~= seq![LETTER_P, DIGIT_THREE]);
        assert(seq![LETTER_P, DIGIT_THREE].drop_last() =~= seq![LETTER_P]);
        lemma_single_byte(LETTER_P);
        reveal_with_fuel(line_count, 3);
    }
    let d_w = decimal(width);
    let d_h = decimal(height);
    let d_m = decimal(255);
    lemma_decimal_no_newline(width);
    lemma_decimal_no_newline(height);
    lemma_decimal_no_newline(255);
    lemma_single_byte(SPACE);
    lemma_single_byte(NEWLINE);
    lemma_line_count_concat(start, d_w);
    lemma_line_count_concat(start + d_w, seq![SPACE]);
    lemma_line_count_concat(start + d_w + seq![SPACE], d_h);
    lemma_line_count_concat(start + d_w + seq![SPACE] + d_h, seq![NEWLINE]);
    lemma_line_count_concat(start + d_w + seq![SPACE] + d_h + seq![NEWLINE], d_m);
    lemma_line_count_concat(start + d_w + seq![SPACE] + d_h + seq![NEWLINE] + d_m, seq![NEWLINE]);
}

proof fn lemma_pixels_lines(pixels: Seq<Rgb>)
    ensures
        line_count(pixels_text(pixels)) == pixels.len(),
    decreases pixels.len(),
{
    if pixels.len() == 0 {
    } else {
        lemma_pixels_lines(pixels.drop_last());
        lemma_pixel_one_line(pixels.last());
        lemma_line_count_concat(pixels_text(pixels.drop_last()), pixel_text(pixels.last()));
    }
}

/// An encoded image has one line for each pixel after the three header lines:
/// a `width` by `height` image has exactly `3 + width * height` lines.
pub proof fn lemma_image_line_count(width: nat, height: nat, pixels: Seq<Rgb>)
    requires
        pixels.len() == width * height,
    ensures
        line_count(image_text(width, height, pixels)) == 3 + width * height,
{
    lemma_header_three_lines(width, height);
    lemma_pixels_lines(pixels);
    lemma_line_count_concat(header_text(width, height), pixels_text(pixels));
}

} // verus!
