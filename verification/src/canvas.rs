//! Colours and the pixel grid that collects them.
use vstd::prelude::*;
use vstd::std_specs::cmp::PartialEqSpecImpl;
use crate::scalar::{Scalar, ONE_BITS};

verus! {

/// A colour: red, green and blue intensities, not limited to any range. Two
/// colours are `==` when their intensities are equal as numbers.
#[derive(Clone, Copy, Debug)]
pub struct Color(pub Scalar, pub Scalar, pub Scalar);

impl PartialEq for Color {
    fn eq(&self, other: &Self) -> (r: bool) {
        self.0.same(other.0) && self.1.same(other.1) && self.2.same(other.2)
    }
}

impl PartialEqSpecImpl for Color {
    open spec fn obeys_eq_spec() -> bool {
        true
    }

    open spec fn eq_spec(&self, other: &Self) -> bool {
        self.0.same_spec(other.0) && self.1.same_spec(other.1) && self.2.same_spec(other.2)
    }
}

impl Color {
    /// The colour whose three intensities have the given bit patterns.
    pub open spec fn of_bits(r: u64, g: u64, b: u64) -> Color {
        Color(Scalar { bits: r }, Scalar { bits: g }, Scalar { bits: b })
    }

    /// Full intensity in all three channels.
    pub fn white() -> (c: Color)
        ensures
            c == Color::of_bits(ONE_BITS, ONE_BITS, ONE_BITS),
    {
        Color(Scalar::one(), Scalar::one(), Scalar::one())
    }

    /// Pure red.
    pub fn red() -> (c: Color)
        ensures
            c == Color::of_bits(ONE_BITS, 0, 0),
    {
        Color(Scalar::one(), Scalar::zero(), Scalar::zero())
    }

    /// Pure green.
    pub fn green() -> (c: Color)
        ensures
            c == Color::of_bits(0, ONE_BITS, 0),
    {
        Color(Scalar::zero(), Scalar::one(), Scalar::zero())
    }

    /// Pure blue.
    pub fn blue() -> (c: Color)
        ensures
            c == Color::of_bits(0, 0, ONE_BITS),
    {
        Color(Scalar::zero(), Scalar::zero(), Scalar::one())
    }

    /// No light at all.
    pub fn black() -> (c: Color)
        ensures
            c == Color::of_bits(0, 0, 0),
    {
        Color(Scalar::zero(), Scalar::zero(), Scalar::zero())
    }
}

/// The colour that three consecutive intensities of a buffer make up: those of
/// its `k`-th pixel.
pub open spec fn pixel_of(buffer: Seq<Scalar>, k: int) -> Color {
    Color(buffer[3 * k], buffer[3 * k + 1], buffer[3 * k + 2])
}

/// The offset of a pixel inside the grid is no larger than the buffer.
proof fn lemma_offsets_fit(x: int, y: int, width: int, height: int)
    requires
        0 <= x,
        0 <= y,
        0 <= width,
        0 <= height,
        y * width + x < width * height,
    ensures
        0 <= y * width <= y * width + x,
        (y * width + x) * 3 + 2 < width * height * 3,
{
    assert(0 <= y * width) by (nonlinear_arith)
        requires
            0 <= y,
            0 <= width,
    ;
}

/// A grid of `width` by `height` pixels, stored row by row, three intensities
/// per pixel.
pub struct Canvas {
    pub pixels: Vec<Scalar>,
    pub width: usize,
    pub height: usize,
}

impl Canvas {
    /// The buffer holds exactly three intensities for each pixel of the grid.
    pub open spec fn wf(self) -> bool {
        self.pixels@.len() == self.width * self.height * 3
    }

    /// The colour stored for the `k`-th pixel in row-major order.
    pub open spec fn pixel(self, k: int) -> Color {
        pixel_of(self.pixels@, k)
    }

    /// A canvas filled with `color`, or with black when there is none.
    pub fn new(width: usize, height: usize, color: Option<Color>) -> (c: Canvas)
        requires
            width * height * 3 <= usize::MAX,
        ensures
            c.wf(),
            c.width == width,
            c.height == height,
            forall|k: int|
                0 <= k < width * height ==> #[trigger] c.pixel(k) == match color {
                    Some(fill) => fill,
                    None => Color::of_bits(0, 0, 0),
                },
    {
        let fill = match color {
            Some(fill) => fill,
            None => Color::black(),
        };
        assert(width * height <= width * height * 3) by (nonlinear_arith);
        let count: usize = width * height;
        let mut pixels: Vec<Scalar> = Vec::new();
        let mut k: usize = 0;
        while k < count
            invariant
                k <= count,
                pixels@.len() == 3 * k,
                forall|n: int| 0 <= n < k ==> #[trigger] pixel_of(pixels@, n) == fill,
            decreases count - k,
        {
            let ghost before = pixels@;
            pixels.push(fill.0);
            pixels.push(fill.1);
            pixels.push(fill.2);
            k += 1;
            assert forall|n: int| 0 <= n < k implies #[trigger] pixel_of(pixels@, n) == fill by {
                if n < k - 1 {
                    assert(pixel_of(before, n) == fill);
                }
            }
        }
        Canvas { pixels, width, height }
    }

    /// Stores `color` at column `x` of row `y`.
    pub fn write_pixel(&mut self, x: usize, y: usize, color: Color)
        requires
            old(self).wf(),
            y * old(self).width + x < old(self).width * old(self).height,
        ensures
            final(self).wf(),
            final(self).width == old(self).width,
            final(self).height == old(self).height,
            final(self).pixel(y * old(self).width + x) == color,
            forall|k: int|
                0 <= k < old(self).width * old(self).height && k != y * old(self).width + x
                    ==> #[trigger] final(self).pixel(k) == old(self).pixel(k),
    {
        let len: usize = self.pixels.len();
        proof {
            lemma_offsets_fit(x as int, y as int, self.width as int, self.height as int);
            assert((y * self.width + x) * 3 + 2 < len);
        }
        let at: usize = (y * self.width + x) * 3;
        self.pixels.set(at, color.0);
        self.pixels.set(at + 1, color.1);
        self.pixels.set(at + 2, color.2);
    }

    /// The colour at column `x` of row `y`.
    pub fn pixel_at(&self, x: usize, y: usize) -> (c: Color)
        requires
            self.wf(),
            y * self.width + x < self.width * self.height,
        ensures
            c == self.pixel(y * self.width + x),
    {
        let len: usize = self.pixels.len();
        proof {
            lemma_offsets_fit(x as int, y as int, self.width as int, self.height as int);
            assert((y * self.width + x) * 3 + 2 < len);
        }
        let at: usize = (y * self.width + x) * 3;
        Color(self.pixels[at], self.pixels[at + 1], self.pixels[at + 2])
    }
}

} // verus!
