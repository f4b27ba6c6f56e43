//! Bitmaps and simple operations on them.
use vstd::prelude::*;
use crate::scalar::Scalar;

verus! {

/// A pixel colour: red, green, blue.
pub type Color = [u8; 3];

/// The colour a fresh bitmap is filled with.
pub open spec fn black() -> Color {
    [0u8, 0u8, 0u8]
}

/// An `Image` is a vector of pixel colours with some metadata describing how
/// to interpret the pixels.
pub struct Image {
    /// How many pixels are in each bitmap row.
    pub width: usize,
    /// How many rows are in the bitmap.
    pub height: usize,
    /// If true, the first pixel row in the vector is the last row of the bitmap.
    pub flipped: bool,
    pub pixels: Vec<Color>,
}

/// What an [`Image`] holds, as mathematics.
pub ghost struct Bitmap {
    pub width: nat,
    pub height: nat,
    pub flipped: bool,
    pub pixels: Seq<Color>,
}

impl View for Image {
    type V = Bitmap;

    open spec fn view(&self) -> Bitmap {
        Bitmap {
            width: self.width as nat,
            height: self.height as nat,
            flipped: self.flipped,
            pixels: self.pixels@,
        }
    }
}

impl Bitmap {
    /// The row of the pixel vector that bitmap row `y` is stored in. A flipped
    /// bitmap stores its last row first, and so on: for a row beyond the last
    /// the result is negative.
    pub open spec fn row_of(self, y: int) -> int {
        if self.flipped {
            self.height - 1 - y
        } else {
            y
        }
    }

    /// Where `(x, y)` lies in the pixel vector: columns wrap around at `width`.
    pub open spec fn index_of(self, x: int, y: int) -> int
        recommends
            self.width > 0,
    {
        x % (self.width as int) + self.row_of(y) * self.width
    }

    /// `(x, y)` names a stored pixel.
    pub open spec fn addressable(self, x: int, y: int) -> bool {
        self.width > 0 && 0 <= self.index_of(x, y) < self.pixels.len()
    }

    /// The bitmap with `color` written at `(x, y)`; the same bitmap where
    /// `(x, y)` names no stored pixel.
    pub open spec fn painted(self, x: int, y: int, color: Color) -> Bitmap {
        if self.addressable(x, y) {
            Bitmap { pixels: self.pixels.update(self.index_of(x, y), color), ..self }
        } else {
            self
        }
    }

    /// The bitmap with the orientation flag toggled.
    pub open spec fn turned(self) -> Bitmap {
        Bitmap { flipped: !self.flipped, ..self }
    }

    /// The pixel at `(x, y)`, black where `(x, y)` names no stored pixel.
    pub open spec fn pixel_or_black(self, x: int, y: int) -> Color {
        if self.addressable(x, y) {
            self.pixels[self.index_of(x, y)]
        } else {
            black()
        }
    }

    /// The pixel under the unit coordinates `(u, v)`: each is scaled by the
    /// bitmap's extent and then cut down to a whole number.
    pub open spec fn sampled<T: Scalar>(self, u: T, v: T) -> Color {
        self.pixel_or_black(
            u.product(T::of_index(self.width as usize)).to_index() as int,
            v.product(T::of_index(self.height as usize)).to_index() as int,
        )
    }

    /// The bitmap stores exactly `width * height` pixels.
    pub open spec fn whole(self) -> bool {
        self.pixels.len() == self.width * self.height
    }

    /// `(x, y)` lies within the extent of the bitmap.
    pub open spec fn in_range(self, x: int, y: int) -> bool {
        0 <= x < self.width && 0 <= y < self.height
    }

    /// In a whole bitmap the pixels within its extent are stored, each at a
    /// place of its own: row `y` in row `y` of the pixel vector, or, in a
    /// flipped bitmap, counted from the last row. A row beyond the extent is
    /// not stored, whatever the column.
    pub proof fn lemma_stored_pixels(self, x: int, y: int)
        requires
            self.whole(),
            0 <= x,
            0 <= y,
        ensures
            self.in_range(x, y) ==> self.addressable(x, y),
            self.in_range(x, y) && self.flipped ==> self.index_of(x, y) == x + (self.height - 1
                - y) * self.width,
            self.in_range(x, y) && !self.flipped ==> self.index_of(x, y) == x + y * self.width,
            y >= self.height ==> !self.addressable(x, y),
    {
        let w = self.width as int;
        let h = self.height as int;
        let r = self.row_of(y);
        if w > 0 {
            assert(0 <= x % w < w);
            if self.in_range(x, y) {
                vstd::arithmetic::div_mod::lemma_small_mod(x as nat, w as nat);
                assert(0 <= r * w && r * w + w <= h * w) by (nonlinear_arith)
                    requires
                        0 <= r < h,
                        w > 0,
                ;
            }
            if y >= h {
                assert(r < 0 ==> r * w <= -w) by (nonlinear_arith)
                    requires
                        w > 0,
                ;
                assert(r >= h ==> r * w >= h * w) by (nonlinear_arith)
                    requires
                        w > 0,
                ;
            }
        }
    }

    /// A stored pixel lies in a row at or after the first, and its row starts
    /// at or before it.
    pub proof fn lemma_addressable_row(self, x: int, y: int)
        requires
            self.addressable(x, y),
            0 <= x,
        ensures
            0 <= self.row_of(y),
            self.row_of(y) * self.width <= self.index_of(x, y),
    {
        let w = self.width as int;
        let r = self.row_of(y);
        assert(0 <= x % w < w);
        assert(r < 0 ==> r * w <= -w) by (nonlinear_arith)
            requires
                w > 0,
        ;
        assert(r >= 0 ==> r * w >= 0) by (nonlinear_arith)
            requires
                w > 0,
        ;
    }
}

impl Image {
    /// The pixel vector holds exactly `width * height` pixels.
    pub open spec fn wf(&self) -> bool {
        self@.whole()
    }

    /// A black, unflipped bitmap of `w` by `h` pixels.
    pub fn make(w: usize, h: usize) -> (img: Image)
        requires
            w * h <= usize::MAX,
        ensures
            img.wf(),
            img@ == (Bitmap {
                width: w as nat,
                height: h as nat,
                flipped: false,
                pixels: Seq::new((w * h) as nat, |i: int| black()),
            }),
    {
        let count: usize = w * h;
        let mut pixels: Vec<Color> = Vec::new();
        let mut i: usize = 0;
        while i < count
            invariant
                i <= count,
                pixels@.len() == i,
                forall|k: int| 0 <= k < i ==> pixels@[k] == black(),
            decreases count - i,
        {
            let p: Color = [0u8, 0u8, 0u8];
            assert(p =~= black());
            pixels.push(p);
            i += 1;
        }
        assert(pixels@ =~= Seq::new((w * h) as nat, |i: int| black()));
        Image { width: w, height: h, flipped: false, pixels }
    }

    /// How many pixels are there?
    pub fn size(&self) -> (n: usize)
        requires
            self.width * self.height <= usize::MAX,
        ensures
            n == self.width * self.height,
    {
        self.width * self.height
    }

    /// Toggles the orientation flag; no pixel data is touched.
    pub fn flip(&mut self)
        ensures
            final(self)@ == old(self)@.turned(),
    {
        self.flipped = !self.flipped;
    }

    /// The index of `(x, y)` in the pixel vector, if it names a stored pixel.
    pub fn locate(&self, x: usize, y: usize) -> (at: Option<usize>)
        ensures
            match at {
                Some(index) => self@.addressable(x as int, y as int) && index == self@.index_of(
                    x as int,
                    y as int,
                ),
                None => !self@.addressable(x as int, y as int),
            },
    {
        if self.width == 0 {
            return None;
        }
        if self.flipped && y >= self.height {
            proof {
                if self@.addressable(x as int, y as int) {
                    self@.lemma_addressable_row(x as int, y as int);
                }
            }
            return None;
        }
        let row: usize = if self.flipped {
            self.height - 1 - y
        } else {
            y
        };
        let col: usize = x % self.width;
        let count: usize = self.pixels.len();
        assert(self@.index_of(x as int, y as int) == col + row * self.width);
        match row.checked_mul(self.width) {
            None => None,
            Some(start) => match start.checked_add(col) {
                None => None,
                Some(index) => if index < count {
                    Some(index)
                } else {
                    None
                },
            },
        }
    }

    /// Writes `color` at `(x, y)`. Coordinates that name no stored pixel are
    /// ignored. In a whole bitmap a write within the extent is never
    /// dropped, and a write to a row beyond it always is.
    pub fn put(&mut self, x: usize, y: usize, color: Color)
        ensures
            final(self)@ == old(self)@.painted(x as int, y as int, color),
            old(self)@.whole() && old(self)@.in_range(x as int, y as int) ==> old(
                self,
            )@.addressable(x as int, y as int),
            old(self)@.whole() && y >= old(self).height ==> final(self)@ == old(self)@,
    {
        proof {
            if self@.whole() {
                self@.lemma_stored_pixels(x as int, y as int);
            }
        }
        match self.locate(x, y) {
            Some(index) => {
                self.pixels[index] = color;
            },
            None => {},
        }
    }

    /// Reads the pixel at `(x, y)`.
    pub fn get(&self, x: usize, y: usize) -> (color: Color)
        requires
            self@.addressable(x as int, y as int),
        ensures
            color == self@.pixels[self@.index_of(x as int, y as int)],
    {
        proof {
            self@.lemma_addressable_row(x as int, y as int);
        }
        let row: usize = if self.flipped {
            self.height - 1 - y
        } else {
            y
        };
        let count: usize = self.pixels.len();
        assert(row * self.width <= self@.index_of(x as int, y as int) < count);
        let pixel_index: usize = x % self.width + row * self.width;
        self.pixels[pixel_index]
    }

    /// Gets a pixel using unit coordinates, 0 at one edge of the bitmap and 1
    /// at the other. Coordinates that lead to no stored pixel give black.
    pub fn get_unit<T: Scalar>(&self, x: T, y: T) -> (color: Color)
        ensures
            color == self@.sampled(x, y),
    {
        let x: usize = x.mul(T::from_usize(self.width)).to_usize();
        let y: usize = y.mul(T::from_usize(self.height)).to_usize();
        match self.locate(x, y) {
            Some(index) => self.pixels[index],
            None => {
                let p: Color = [0u8, 0u8, 0u8];
                assert(p =~= black());
                p
            },
        }
    }
}

} // verus!
