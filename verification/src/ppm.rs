//! The textual PPM encoding of a rendered image.
//!
//! The writer appends to an in-memory byte buffer; persisting those bytes
//! is its caller's affair.  The encoding is pinned byte for byte: the
//! header `P3`, the dimensions, the maximum channel value 255, then each
//! row's pixels as space-separated 8-bit triples.

use vstd::prelude::*;
use crate::fx::{SCALE, clamp_s, tdiv_s};
use crate::image::{C3s, Color, Image};

verus! {

/// The decimal digits of a nonnegative number, most significant first.
pub open spec fn dec_s(n: int) -> Seq<u8>
    decreases n,
{
    if n < 0 {
        Seq::empty()
    } else if n < 10 {
        seq![(48 + n) as u8]
    } else {
        dec_s(n / 10).push((48 + n % 10) as u8)
    }
}

/// The 8-bit channel value a fixed-point channel maps to:
/// `c * 255` truncated, clamped into `[0, 255]`.
pub open spec fn numerize_s(c: int) -> int {
    clamp_s(tdiv_s(c * 255, SCALE as int), 0, 255)
}

/// The bytes one pixel contributes: three decimal channel values, each
/// followed by a space.
pub open spec fn pixel_bytes_s(c: C3s) -> Seq<u8> {
    dec_s(numerize_s(c.red)) + seq![32u8] + dec_s(numerize_s(c.green)) + seq![32u8] + dec_s(
        numerize_s(c.blue),
    ) + seq![32u8]
}

/// The bytes of the first `col` pixels of row `line`.
pub open spec fn row_bytes_s(data: Seq<Color>, width: int, line: int, col: int) -> Seq<u8>
    decreases col,
{
    if col <= 0 {
        Seq::empty()
    } else {
        row_bytes_s(data, width, line, col - 1) + pixel_bytes_s(data[line * width + (col - 1)]@)
    }
}

/// The bytes of the first `line` rows, each closed by a newline.
pub open spec fn rows_bytes_s(data: Seq<Color>, width: int, line: int) -> Seq<u8>
    decreases line,
{
    if line <= 0 {
        Seq::empty()
    } else {
        rows_bytes_s(data, width, line - 1) + row_bytes_s(data, width, line - 1, width) + seq![
            10u8,
        ]
    }
}

/// The whole encoding: `P3`, the dimensions, 255, then the pixel rows.
pub open spec fn ppm_bytes_s(img: Image) -> Seq<u8> {
    seq![80u8, 51u8, 10u8] + dec_s(img.width as int) + seq![32u8] + dec_s(img.height as int)
        + seq![10u8] + seq![50u8, 53u8, 53u8, 10u8] + rows_bytes_s(
        img.data@,
        img.width as int,
        img.height as int,
    )
}

/// Append the decimal digits of `n`.
fn push_dec(out: &mut Vec<u8>, n: u64)
    ensures
        final(out)@ == old(out)@ + dec_s(n as int),
    decreases n,
{
    if n >= 10 {
        push_dec(out, n / 10);
    }
    out.push(48 + (n % 10) as u8);
    proof {
        assert(out@ =~= old(out)@ + dec_s(n as int));
    }
}

/// The 8-bit value of a fixed-point channel, scaled by 255 and clamped.
fn numerize(f: i64) -> (r: u8)
    ensures
        r as int == numerize_s(f as int),
{
    if f <= 0 {
        proof {
            if f < 0 {
                assert((f as int) * 255 < 0) by (nonlinear_arith)
                    requires f < 0;
                vstd::arithmetic::div_mod::lemma_div_pos_is_pos(-(f as int * 255), SCALE as int);
            }
        }
        0
    } else {
        proof {
            assert((f as int) * 255 >= 0) by (nonlinear_arith)
                requires f > 0;
            assert((f as int) * 255 <= 0x8000_0000_0000_0000int * 255) by (nonlinear_arith)
                requires f as int <= 0x8000_0000_0000_0000;
        }
        let v: u128 = (f as u128) * 255 / (SCALE as u128);
        if v > 255 {
            255
        } else {
            v as u8
        }
    }
}

/// Append the bytes of one pixel.
fn push_pixel(out: &mut Vec<u8>, px: &Color)
    ensures
        final(out)@ == old(out)@ + pixel_bytes_s(px@),
{
    push_dec(out, numerize(px.red) as u64);
    out.push(32);
    push_dec(out, numerize(px.green) as u64);
    out.push(32);
    push_dec(out, numerize(px.blue) as u64);
    out.push(32);
    proof {
        assert(out@ =~= old(out)@ + pixel_bytes_s(px@));
    }
}

/// Serializes an image as textual PPM into an owned byte buffer.
pub struct PPMWriter {
    pub writer: Vec<u8>,
}

impl PPMWriter {
    /// A writer appending to the given buffer.
    pub fn new(writer: Vec<u8>) -> (w: PPMWriter)
        ensures
            w.writer@ == writer@,
    {
        PPMWriter { writer }
    }

    /// The buffer written so far.
    pub fn into_bytes(self) -> (r: Vec<u8>)
        ensures
            r@ == self.writer@,
    {
        self.writer
    }

    /// Append the complete PPM encoding of the image to the buffer.
    pub fn write(&mut self, img: &Image)
        requires
            img.wf(),
        ensures
            final(self).writer@ == old(self).writer@ + ppm_bytes_s(*img),
    {
        let ghost base = self.writer@;
        self.writer.push(80);
        self.writer.push(51);
        self.writer.push(10);
        push_dec(&mut self.writer, img.width as u64);
        self.writer.push(32);
        push_dec(&mut self.writer, img.height as u64);
        self.writer.push(10);
        self.writer.push(50);
        self.writer.push(53);
        self.writer.push(53);
        self.writer.push(10);
        let ghost header = self.writer@;
        proof {
            assert(header =~= base + seq![80u8, 51u8, 10u8] + dec_s(img.width as int)
                + seq![32u8] + dec_s(img.height as int) + seq![10u8] + seq![
                50u8,
                53u8,
                53u8,
                10u8,
            ]);
        }
        let width = img.width;
        let height = img.height;
        let mut line: usize = 0;
        while line < height
            invariant
                img.wf(),
                width == img.width,
                height == img.height,
                line <= height,
                self.writer@ == header + rows_bytes_s(img.data@, width as int, line as int),
            decreases height - line,
        {
            let mut col: usize = 0;
            while col < width
                invariant
                    img.wf(),
                    width == img.width,
                    height == img.height,
                    line < height,
                    col <= width,
                    self.writer@ == header + rows_bytes_s(img.data@, width as int, line as int)
                        + row_bytes_s(img.data@, width as int, line as int, col as int),
                decreases width - col,
            {
                proof {
                    assert(line * width + col < width * height) by (nonlinear_arith)
                        requires
                            line < height,
                            col < width,
                            0 <= line,
                            0 <= col,
                    ;
                }
                let px = &img.data[line * width + col];
                push_pixel(&mut self.writer, px);
                proof {
                    assert(self.writer@ =~= header + rows_bytes_s(
                        img.data@,
                        width as int,
                        line as int,
                    ) + row_bytes_s(img.data@, width as int, line as int, col as int + 1));
                }
                col = col + 1;
            }
            self.writer.push(10);
            proof {
                assert(self.writer@ =~= header + rows_bytes_s(
                    img.data@,
                    width as int,
                    line as int + 1,
                ));
            }
            line = line + 1;
        }
        proof {
            assert(self.writer@ =~= old(self).writer@ + ppm_bytes_s(*img));
        }
    }
}

} // verus!
