//! Linear-space colors and the rendered image buffer.

use vstd::prelude::*;
use crate::fx::{
    SCALE, clamp_s, fx_add, fx_add_s, fx_clamp, fx_divn, fx_divn_s, fx_mul, fx_mul_s,
};

verus! {

/// Mathematical model of a color: the three fixed-point channels, as
/// unbounded integers.
pub ghost struct C3s {
    pub red: int,
    pub green: int,
    pub blue: int,
}

/// A linear-space color; channels are fixed-point reals, unbounded until
/// the final clamp at pixel write time.
#[derive(Debug, Clone, Copy, PartialEq, Eq, Structural)]
pub struct Color {
    pub red: i64,
    pub green: i64,
    pub blue: i64,
}

impl View for Color {
    type V = C3s;

    open spec fn view(&self) -> C3s {
        C3s { red: self.red as int, green: self.green as int, blue: self.blue as int }
    }
}

/// Channelwise sum.
pub open spec fn add_cs(a: C3s, b: C3s) -> C3s {
    C3s {
        red: fx_add_s(a.red, b.red),
        green: fx_add_s(a.green, b.green),
        blue: fx_add_s(a.blue, b.blue),
    }
}

/// Channelwise (Hadamard) product.
pub open spec fn mul_cs(a: C3s, b: C3s) -> C3s {
    C3s {
        red: fx_mul_s(a.red, b.red),
        green: fx_mul_s(a.green, b.green),
        blue: fx_mul_s(a.blue, b.blue),
    }
}

/// Scaling by a fixed-point factor.
pub open spec fn scale_cs(a: C3s, k: int) -> C3s {
    C3s { red: fx_mul_s(a.red, k), green: fx_mul_s(a.green, k), blue: fx_mul_s(a.blue, k) }
}

/// Channelwise division by a plain sample count.
pub open spec fn div_n_cs(a: C3s, n: int) -> C3s {
    C3s { red: fx_divn_s(a.red, n), green: fx_divn_s(a.green, n), blue: fx_divn_s(a.blue, n) }
}

/// Channelwise clamp into `[min, max]`.
pub open spec fn clamp_cs(a: C3s, min: int, max: int) -> C3s {
    C3s {
        red: clamp_s(a.red, min, max),
        green: clamp_s(a.green, min, max),
        blue: clamp_s(a.blue, min, max),
    }
}

/// All channels at or above `min` and at or below `max`.
pub open spec fn bounded_cs(a: C3s, min: int, max: int) -> bool {
    min <= a.red <= max && min <= a.green <= max && min <= a.blue <= max
}

/// Black: all channels zero.
pub open spec fn black_s() -> C3s {
    C3s { red: 0, green: 0, blue: 0 }
}

/// White: all channels one.
pub open spec fn white_s() -> C3s {
    C3s { red: SCALE as int, green: SCALE as int, blue: SCALE as int }
}

impl Default for Color {
    /// Black.
    fn default() -> (c: Self)
        ensures
            c@ == black_s(),
    {
        Color { red: 0, green: 0, blue: 0 }
    }
}

impl Color {
    pub fn new(red: i64, green: i64, blue: i64) -> (c: Color)
        ensures
            c@ == (C3s { red: red as int, green: green as int, blue: blue as int }),
    {
        Color { red, green, blue }
    }

    /// Black: all channels zero.
    pub fn black() -> (c: Color)
        ensures
            c@ == black_s(),
    {
        Color { red: 0, green: 0, blue: 0 }
    }

    /// White: all channels one.
    pub fn white() -> (c: Color)
        ensures
            c@ == white_s(),
    {
        Color { red: SCALE, green: SCALE, blue: SCALE }
    }

    /// Channelwise sum.
    pub fn add(&self, other: &Color) -> (c: Color)
        ensures
            c@ == add_cs(self@, other@),
    {
        Color {
            red: fx_add(self.red, other.red),
            green: fx_add(self.green, other.green),
            blue: fx_add(self.blue, other.blue),
        }
    }

    /// Channelwise (Hadamard) product.
    pub fn mul(&self, other: &Color) -> (c: Color)
        ensures
            c@ == mul_cs(self@, other@),
    {
        Color {
            red: fx_mul(self.red, other.red),
            green: fx_mul(self.green, other.green),
            blue: fx_mul(self.blue, other.blue),
        }
    }

    /// Scaling by a fixed-point factor.
    pub fn scale(&self, k: i64) -> (c: Color)
        ensures
            c@ == scale_cs(self@, k as int),
    {
        Color { red: fx_mul(self.red, k), green: fx_mul(self.green, k), blue: fx_mul(self.blue, k) }
    }

    /// The channelwise mean over a sample count.
    pub fn div_n(&self, n: i64) -> (c: Color)
        ensures
            c@ == div_n_cs(self@, n as int),
    {
        Color {
            red: fx_divn(self.red, n),
            green: fx_divn(self.green, n),
            blue: fx_divn(self.blue, n),
        }
    }

    /// Clamp every channel into `[min, max]`.
    pub fn clamp(&mut self, min: i64, max: i64)
        ensures
            final(self)@ == clamp_cs(old(self)@, min as int, max as int),
    {
        self.red = fx_clamp(self.red, min, max);
        self.green = fx_clamp(self.green, min, max);
        self.blue = fx_clamp(self.blue, min, max);
    }
}

/// A width x height grid of linear colors, stored row-major: the pixel at
/// (row, col) sits at flat index `row * width + col`.
pub struct Image {
    pub width: usize,
    pub height: usize,
    pub data: Vec<Color>,
}

impl Image {
    /// The buffer always holds exactly one color per pixel.
    pub open spec fn wf(&self) -> bool {
        self.data.len() == self.width * self.height
    }

    /// A black image of the given dimensions.
    pub fn new(width: usize, height: usize) -> (img: Image)
        requires
            width * height <= usize::MAX,
        ensures
            img.wf(),
            img.width == width,
            img.height == height,
            forall|i: int| 0 <= i < img.data.len() ==> img.data[i]@ == black_s(),
    {
        let sz: usize = width * height;
        let mut data: Vec<Color> = Vec::new();
        let mut k: usize = 0;
        while k < sz
            invariant
                data.len() == k,
                k <= sz,
                forall|i: int| 0 <= i < k ==> data[i]@ == black_s(),
            decreases sz - k,
        {
            data.push(Color::black());
            k = k + 1;
        }
        Image { width, height, data }
    }
}

} // verus!
