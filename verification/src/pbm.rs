//! Netpbm support.
use vstd::prelude::*;
use crate::image::{Color, Image};
use crate::text::{decimal_digits, push_decimal};

verus! {

/// The two bytes that a binary pixmap starts with: a capital P and a six.
pub const MAGIC: (u8, u8) = (0x50, 0x36);

/// The largest value of a colour channel, as the header gives it.
pub const MAX_CHANNEL: usize = 255;

/// The header of a binary pixmap of `width` by `height` pixels: the magic
/// number of the format, the extent and the largest channel value, with a
/// space after each but the last, which a newline follows.
pub open spec fn pixmap_header(width: nat, height: nat) -> Seq<u8> {
    seq![MAGIC.0, MAGIC.1, 0x20u8] + decimal_digits(width) + seq![0x20u8] + decimal_digits(height)
        + seq![0x20u8] + decimal_digits(MAX_CHANNEL as nat) + seq![0x0au8]
}

/// The channels of `pixels`, pixel after pixel: red, green, blue.
pub open spec fn channels(pixels: Seq<Color>) -> Seq<u8> {
    Seq::new(3 * pixels.len(), |i: int| pixels[i / 3][i % 3])
}

/// The binary pixmap of an image of `width` by `height` pixels whose pixel
/// vector is `pixels`.
pub open spec fn pixmap(width: nat, height: nat, pixels: Seq<Color>) -> Seq<u8> {
    pixmap_header(width, height) + channels(pixels)
}

impl Image {
    /// Save the bitmap data as a Netpbm image (a binary PixMap): the bytes
    /// are appended to `writer`. The pixels are written in the order
    /// of the pixel vector, whatever the orientation flag says.
    pub fn write(&self, writer: &mut Vec<u8>)
        ensures
            final(writer)@ == old(writer)@ + pixmap(self@.width, self@.height, self@.pixels),
    {
        writer.push(MAGIC.0);
        writer.push(MAGIC.1);
        writer.push(0x20);
        push_decimal(writer, self.width);
        writer.push(0x20);
        push_decimal(writer, self.height);
        writer.push(0x20);
        push_decimal(writer, MAX_CHANNEL);
        writer.push(0x0a);
        let ghost head = old(writer)@ + pixmap_header(self@.width, self@.height);
        assert(writer@ =~= head);
        assert(writer@ =~= head + channels(self.pixels@.subrange(0, 0)));
        let mut i: usize = 0;
        while i < self.pixels.len()
            invariant
                i <= self.pixels@.len(),
                writer@ == head + channels(self.pixels@.subrange(0, i as int)),
            decreases self.pixels@.len() - i,
        {
            let p: Color = self.pixels[i];
            writer.push(p[0]);
            writer.push(p[1]);
            writer.push(p[2]);
            assert(writer@ =~= head + channels(self.pixels@.subrange(0, i + 1)));
            i += 1;
        }
        assert(self.pixels@.subrange(0, i as int) =~= self.pixels@);
        assert(writer@ =~= old(writer)@ + pixmap(self@.width, self@.height, self@.pixels));
    }
}

} // verus!
