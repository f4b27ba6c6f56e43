//! Decoding of run-length encoded, 24-bit Truevision TGA images.
use vstd::prelude::*;
use vstd::slice::slice_subrange;
use crate::image::{black, Bitmap, Color, Image};

verus! {

/// Why a byte string is not a TGA image that this decoder reads.
#[derive(Debug, Clone, Copy, PartialEq, Eq, Structural)]
pub enum TgaError {
    /// The data ends inside the header, a packet header or a pixel.
    Truncated,
    /// The file carries a colour map.
    ColorMapped,
    /// The pixels are not 24 bits deep.
    UnsupportedDepth,
    /// The image is not a run-length encoded true-colour image.
    UnsupportedType,
    /// The first pixel is not at the left edge.
    UnsupportedOrigin,
    /// The header declares rows without pixels.
    EmptyRows,
    /// A packet holds more pixels than are left in its row.
    PacketOverrun,
}

/// The fields of a TGA header that the decoder looks at.
#[derive(Debug, Clone, Copy, PartialEq, Eq, Structural)]
pub struct TgaHeader {
    pub image_type: u8,
    pub image_width: usize,
    pub image_height: usize,
    pub bit_depth: u8,
    /// Bits 4 and 5 of the image descriptor.
    pub origin: u8,
}

/// The number of bytes in a TGA header.
pub const HEADER_LEN: usize = 18;

/// The 16-bit number whose low byte is `lo` and whose high byte is `hi`.
pub open spec fn le16(lo: u8, hi: u8) -> int {
    lo + 256 * hi
}

/// What the first eighteen bytes of `data` say, or why they say nothing.
pub open spec fn parse_header(data: Seq<u8>) -> Result<TgaHeader, TgaError> {
    if data.len() < HEADER_LEN {
        Err(TgaError::Truncated)
    } else if le16(data[5], data[6]) != 0 {
        Err(TgaError::ColorMapped)
    } else {
        Ok(
            TgaHeader {
                image_type: data[2],
                image_width: le16(data[12], data[13]) as usize,
                image_height: le16(data[14], data[15]) as usize,
                bit_depth: data[16],
                origin: ((data[17] / 16) % 4) as u8,
            },
        )
    }
}

/// The pixel stored, blue byte first, in the three bytes of `data` from `at`.
pub open spec fn pixel_at(data: Seq<u8>, at: int) -> Color {
    [data[at + 2], data[at + 1], data[at]]
}

/// The number of pixels that a packet with this header byte yields.
pub open spec fn packet_pixels(header: u8) -> int {
    header % 128 + 1
}

/// Whether a packet with this header byte repeats one pixel.
pub open spec fn packet_repeats(header: u8) -> bool {
    header >= 128
}

/// The packet at `at`, in a row with room for `room` more pixels: its pixels
/// and the position after it.
///
/// A repeating packet is read whole before its size is held against the room
/// left. A raw packet is read pixel by pixel, so that one pixel beyond the
/// room must be there for the overrun to be noticed.
pub open spec fn decode_packet(data: Seq<u8>, at: int, room: int) -> Result<
    (Seq<Color>, int),
    TgaError,
> {
    if at >= data.len() {
        Err(TgaError::Truncated)
    } else {
        let count = packet_pixels(data[at]);
        if packet_repeats(data[at]) {
            if at + 4 > data.len() {
                Err(TgaError::Truncated)
            } else if count > room {
                Err(TgaError::PacketOverrun)
            } else {
                Ok((Seq::new(count as nat, |i: int| pixel_at(data, at + 1)), at + 4))
            }
        } else if count <= room {
            if at + 1 + 3 * count > data.len() {
                Err(TgaError::Truncated)
            } else {
                Ok(
                    (
                        Seq::new(count as nat, |i: int| pixel_at(data, at + 1 + 3 * i)),
                        at + 1 + 3 * count,
                    ),
                )
            }
        } else if at + 1 + 3 * (room + 1) > data.len() {
            Err(TgaError::Truncated)
        } else {
            Err(TgaError::PacketOverrun)
        }
    }
}

/// The rest of a row of `width` pixels of which `done` are decoded already,
/// read packet by packet from `at`: the whole row and the position after it.
pub open spec fn decode_row_from(data: Seq<u8>, at: int, done: Seq<Color>, width: nat) -> Result<
    (Seq<Color>, int),
    TgaError,
>
    decreases width - done.len(),
{
    if done.len() >= width {
        Ok((done, at))
    } else {
        match decode_packet(data, at, width - done.len()) {
            Err(e) => Err(e),
            Ok((pixels, next)) => decode_row_from(data, next, done + pixels, width),
        }
    }
}

/// The row of `width` pixels encoded from `at`, and the position after it.
pub open spec fn decode_row(data: Seq<u8>, at: int, width: nat) -> Result<
    (Seq<Color>, int),
    TgaError,
> {
    decode_row_from(data, at, Seq::empty(), width)
}

/// The rows after the first `done.len()` of `rows` rows, read from `at`: all
/// the rows, in the order in which the data holds them.
pub open spec fn decode_rows_from(
    data: Seq<u8>,
    at: int,
    done: Seq<Seq<Color>>,
    width: nat,
    rows: nat,
) -> Result<Seq<Seq<Color>>, TgaError>
    decreases rows - done.len(),
{
    if done.len() >= rows {
        Ok(done)
    } else {
        match decode_row(data, at, width) {
            Err(e) => Err(e),
            Ok((row, next)) => decode_rows_from(data, next, done.push(row), width, rows),
        }
    }
}

/// The row of the pixel vector that the `r`th encoded row is stored in; also
/// the encoded row that the `r`th row of the pixel vector holds.
pub open spec fn stored_row(r: int, rows: nat, upsidedown: bool) -> int {
    if upsidedown {
        rows - r - 1
    } else {
        r
    }
}

/// The pixel vector of an image of `rows` rows of `width` pixels, encoded from
/// `at`. With `upsidedown` the first encoded row is stored last.
pub open spec fn decode_image(
    data: Seq<u8>,
    at: int,
    width: nat,
    rows: nat,
    upsidedown: bool,
) -> Result<Seq<Color>, TgaError> {
    match decode_rows_from(data, at, Seq::empty(), width, rows) {
        Err(e) => Err(e),
        Ok(encoded) => Ok(
            Seq::new(
                rows * width,
                |k: int|
                    encoded[stored_row(k / (width as int), rows, upsidedown)][k % (width as int)],
            ),
        ),
    }
}

/// The bitmap that `data` encodes, or why it encodes none. The pixels are
/// taken to follow the header directly. An image whose first row is the
/// bottom one is stored last row first and marked as flipped.
pub open spec fn decode_tga(data: Seq<u8>) -> Result<Bitmap, TgaError> {
    match parse_header(data) {
        Err(e) => Err(e),
        Ok(header) => if header.bit_depth != 24 {
            Err(TgaError::UnsupportedDepth)
        } else if header.image_type != 10 {
            Err(TgaError::UnsupportedType)
        } else if header.origin != 0 && header.origin != 2 {
            Err(TgaError::UnsupportedOrigin)
        } else if header.image_width == 0 {
            Err(TgaError::EmptyRows)
        } else {
            match decode_image(
                data,
                HEADER_LEN as int,
                header.image_width as nat,
                header.image_height as nat,
                header.origin == 0,
            ) {
                Err(e) => Err(e),
                Ok(pixels) => Ok(
                    Bitmap {
                        width: header.image_width as nat,
                        height: header.image_height as nat,
                        flipped: header.origin == 0,
                        pixels,
                    },
                ),
            }
        },
    }
}

/// TGA stores numbers low byte first.
pub fn to_u16(bytes: &[u8]) -> (n: u16)
    requires
        bytes@.len() >= 2,
    ensures
        n == le16(bytes@[0], bytes@[1]),
{
    let lo: u8 = bytes[0];
    let hi: u8 = bytes[1];
    assert((((hi as u16) << 8) | (lo as u16)) == (lo as u16) + 256 * (hi as u16)) by (bit_vector);
    ((hi as u16) << 8) | (lo as u16)
}

impl TgaHeader {
    /// Parses the TGA header at the start of `data`.
    pub fn from_data(data: &[u8]) -> (header: Result<TgaHeader, TgaError>)
        ensures
            header == parse_header(data@),
    {
        if data.len() < HEADER_LEN {
            return Err(TgaError::Truncated);
        }
        let image_type: u8 = data[2];
        let colormap_length: u16 = to_u16(slice_subrange(data, 5, 7));
        let image_width: u16 = to_u16(slice_subrange(data, 12, 14));
        let image_height: u16 = to_u16(slice_subrange(data, 14, 16));
        let bit_depth: u8 = data[16];
        let image_desc: u8 = data[17];
        let origin: u8 = (image_desc & 0b0011_0000) >> 4;
        assert(((image_desc & 0b0011_0000) >> 4) == (image_desc / 16) % 4) by (bit_vector);
        if colormap_length != 0 {
            return Err(TgaError::ColorMapped);
        }
        Ok(
            TgaHeader {
                image_type,
                image_width: image_width as usize,
                image_height: image_height as usize,
                bit_depth,
                origin,
            },
        )
    }
}

/// Decodes the packet at `at` of `source` into `sink`, from `start` on, where
/// the row has room for `room` more pixels. Returns the number of pixels
/// written and the position after the packet.
pub fn read_pixel_packet(
    source: &[u8],
    at: usize,
    sink: &mut Vec<Color>,
    start: usize,
    room: usize,
) -> (read: Result<(usize, usize), TgaError>)
    requires
        start + room <= old(sink)@.len(),
    ensures
        final(sink)@.len() == old(sink)@.len(),
        match read {
            Ok((count, next)) => {
                &&& decode_packet(source@, at as int, room as int) == Ok::<
                    (Seq<Color>, int),
                    TgaError,
                >((final(sink)@.subrange(start as int, start + count), next as int))
                &&& 0 < count <= room
                &&& forall|k: int|
                    0 <= k < start || start + count <= k < old(sink)@.len() ==> final(sink)@[k]
                        == old(sink)@[k]
            },
            Err(e) => decode_packet(source@, at as int, room as int) == Err::<
                (Seq<Color>, int),
                TgaError,
            >(e),
        },
{
    let len: usize = source.len();
    let capacity: usize = sink.len();
    if at >= len {
        return Err(TgaError::Truncated);
    }
    let packet_header: u8 = source[at];
    let packet_type: u8 = (packet_header & 0b1000_0000) >> 7;
    // This 7 bit value is encoded as 1 less than the number of pixels in the
    // packet.
    let packet_size: usize = (packet_header & 0b0111_1111) as usize + 1;
    assert((((packet_header & 0b1000_0000) >> 7) == 1) == (packet_header >= 128)) by (bit_vector);
    assert((packet_header & 0b0111_1111) == packet_header % 128) by (bit_vector);
    if packet_type == 1 {
        if len - at < 4 {
            return Err(TgaError::Truncated);
        }
        if packet_size > room {
            return Err(TgaError::PacketOverrun);
        }
        let pixel_value: Color = [source[at + 3], source[at + 2], source[at + 1]];
        assert(pixel_value =~= pixel_at(source@, at + 1));
        let mut i: usize = 0;
        while i < packet_size
            invariant
                i <= packet_size <= room,
                start + room <= capacity == old(sink)@.len(),
                sink@.len() == old(sink)@.len(),
                pixel_value == pixel_at(source@, at + 1),
                forall|k: int| start <= k < start + i ==> sink@[k] == pixel_value,
                forall|k: int|
                    0 <= k < start || start + i <= k < old(sink)@.len() ==> sink@[k] == old(
                        sink,
                    )@[k],
            decreases packet_size - i,
        {
            sink[start + i] = pixel_value;
            i += 1;
        }
        assert(sink@.subrange(start as int, start + packet_size) =~= Seq::new(
            packet_size as nat,
            |i: int| pixel_at(source@, at + 1),
        ));
        Ok((packet_size, at + 4))
    } else {
        let needed: usize = if packet_size <= room {
            packet_size
        } else {
            room + 1
        };
        if (len - at - 1) / 3 < needed {
            return Err(TgaError::Truncated);
        }
        if packet_size > room {
            return Err(TgaError::PacketOverrun);
        }
        let mut i: usize = 0;
        while i < packet_size
            invariant
                i <= packet_size <= room,
                at + 1 + 3 * packet_size <= len == source@.len(),
                start + room <= capacity == old(sink)@.len(),
                sink@.len() == old(sink)@.len(),
                forall|k: int|
                    start <= k < start + i ==> #[trigger] sink@[k] == pixel_at(
                        source@,
                        at + 1 + 3 * (k - start),
                    ),
                forall|k: int|
                    0 <= k < start || start + i <= k < old(sink)@.len() ==> sink@[k] == old(
                        sink,
                    )@[k],
            decreases packet_size - i,
        {
            let from: usize = at + 1 + 3 * i;
            let pixel_value: Color = [source[from + 2], source[from + 1], source[from]];
            assert(pixel_value =~= pixel_at(source@, at + 1 + 3 * i));
            sink[start + i] = pixel_value;
            i += 1;
        }
        assert(sink@.subrange(start as int, start + packet_size) =~= Seq::new(
            packet_size as nat,
            |i: int| pixel_at(source@, at + 1 + 3 * i),
        ));
        Ok((packet_size, at + 1 + 3 * packet_size))
    }
}

/// Decodes one row of `width` pixels from `at` of `source` into `sink`, from
/// `start` on. Returns the position after the row.
pub fn read_pixel_row_rle(
    source: &[u8],
    at: usize,
    width: usize,
    sink: &mut Vec<Color>,
    start: usize,
) -> (read: Result<usize, TgaError>)
    requires
        start + width <= old(sink)@.len(),
    ensures
        final(sink)@.len() == old(sink)@.len(),
        match read {
            Ok(next) => {
                &&& decode_row(source@, at as int, width as nat) == Ok::<
                    (Seq<Color>, int),
                    TgaError,
                >((final(sink)@.subrange(start as int, start + width), next as int))
                &&& forall|k: int|
                    0 <= k < start || start + width <= k < old(sink)@.len() ==> final(sink)@[k]
                        == old(sink)@[k]
            },
            Err(e) => decode_row(source@, at as int, width as nat) == Err::<
                (Seq<Color>, int),
                TgaError,
            >(e),
        },
{
    let capacity: usize = sink.len();
    let mut pos: usize = 0;
    let mut cur: usize = at;
    assert(sink@.subrange(start as int, start + pos) =~= Seq::empty());
    while pos < width
        invariant
            pos <= width,
            start + width <= capacity == old(sink)@.len(),
            sink@.len() == old(sink)@.len(),
            decode_row(source@, at as int, width as nat) == decode_row_from(
                source@,
                cur as int,
                sink@.subrange(start as int, start + pos),
                width as nat,
            ),
            forall|k: int|
                0 <= k < start || start + width <= k < old(sink)@.len() ==> sink@[k] == old(
                    sink,
                )@[k],
        decreases width - pos,
    {
        let ghost before = sink@;
        // RLE packets should not pass the image width
        match read_pixel_packet(source, cur, sink, start + pos, width - pos) {
            Err(e) => {
                return Err(e);
            },
            Ok((count, next)) => {
                assert(sink@.subrange(start as int, start + pos + count) =~= before.subrange(
                    start as int,
                    start + pos,
                ) + sink@.subrange(start + pos, start + pos + count));
                pos += count;
                cur = next;
            },
        }
    }
    Ok(cur)
}

/// Decodes `count / width` rows of `width` pixels from `at` of `data` into a
/// vector of `count` pixels. With `upsidedown` the first row of the data
/// becomes the last of the vector.
pub fn read_image_data_rle(
    data: &[u8],
    at: usize,
    count: usize,
    width: usize,
    upsidedown: bool,
) -> (read: Result<Vec<Color>, TgaError>)
    requires
        width > 0,
    ensures
        match read {
            Ok(pixels) => {
                &&& pixels@.len() == count
                &&& decode_image(
                    data@,
                    at as int,
                    width as nat,
                    (count / width) as nat,
                    upsidedown,
                ) == Ok::<Seq<Color>, TgaError>(pixels@.subrange(0, (count / width) * width))
                &&& forall|k: int| (count / width) * width <= k < count ==> pixels@[k] == black()
            },
            Err(e) => decode_image(
                data@,
                at as int,
                width as nat,
                (count / width) as nat,
                upsidedown,
            ) == Err::<Seq<Color>, TgaError>(e),
        },
{
    let num_rows: usize = count / width;
    let mut pixels: Vec<Color> = Vec::new();
    let mut n: usize = 0;
    while n < count
        invariant
            n <= count,
            pixels@.len() == n,
            forall|k: int| 0 <= k < n ==> pixels@[k] == black(),
        decreases count - n,
    {
        let p: Color = [0u8, 0u8, 0u8];
        assert(p =~= black());
        pixels.push(p);
        n += 1;
    }
    assert(num_rows * width <= count) by (nonlinear_arith)
        requires
            num_rows == count / width,
            width > 0,
    ;
    let ghost mut encoded: Seq<Seq<Color>> = Seq::empty();
    let mut cur: usize = at;
    let mut r: usize = 0;
    while r < num_rows
        invariant
            r <= num_rows == count / width,
            width > 0,
            num_rows * width <= count,
            pixels@.len() == count,
            encoded.len() == r,
            forall|j: int| 0 <= j < r ==> (#[trigger] encoded[j]).len() == width,
            decode_rows_from(data@, at as int, Seq::empty(), width as nat, num_rows as nat)
                == decode_rows_from(data@, cur as int, encoded, width as nat, num_rows as nat),
            forall|j: int, c: int|
                0 <= j < r && 0 <= c < width ==> #[trigger] pixels@[stored_row(
                    j,
                    num_rows as nat,
                    upsidedown,
                ) * width + c] == encoded[j][c],
            forall|k: int| num_rows * width <= k < count ==> pixels@[k] == black(),
        decreases num_rows - r,
    {
        let i: usize = if upsidedown {
            num_rows - r - 1
        } else {
            r
        };
        assert(i * width + width <= num_rows * width) by (nonlinear_arith)
            requires
                i < num_rows,
        ;
        let row_start: usize = i * width;
        let ghost before = pixels@;
        assert(decode_rows_from(data@, cur as int, encoded, width as nat, num_rows as nat)
            == match decode_row(data@, cur as int, width as nat) {
            Err(e) => Err(e),
            Ok((row, next)) => decode_rows_from(
                data@,
                next,
                encoded.push(row),
                width as nat,
                num_rows as nat,
            ),
        });
        match read_pixel_row_rle(data, cur, width, &mut pixels, row_start) {
            Err(e) => {
                return Err(e);
            },
            Ok(next) => {
                let ghost row = pixels@.subrange(row_start as int, row_start + width);
                proof {
                    assert forall|j: int, c: int|
                        0 <= j < r + 1 && 0 <= c < width implies pixels@[stored_row(
                        j,
                        num_rows as nat,
                        upsidedown,
                    ) * width + c] == encoded.push(row)[j][c] by {
                        let s = stored_row(j, num_rows as nat, upsidedown);
                        if j < r {
                            assert(s != i);
                            assert(s * width + c < row_start || row_start + width <= s * width
                                + c) by (nonlinear_arith)
                                requires
                                    s != i,
                                    0 <= c < width,
                                    row_start == i * width,
                            ;
                            assert(0 <= s * width + c < count) by (nonlinear_arith)
                                requires
                                    0 <= s < num_rows,
                                    0 <= c < width,
                                    num_rows * width <= count,
                            ;
                            assert(before[s * width + c] == encoded[j][c]);
                        } else {
                            assert(row[c] == pixels@[row_start + c]);
                        }
                    }
                    encoded = encoded.push(row);
                }
                cur = next;
                r += 1;
            },
        }
    }
    proof {
        let rows = num_rows as nat;
        let w = width as int;
        assert(pixels@.subrange(0, num_rows * width) =~= Seq::new(
            rows * (width as nat),
            |k: int| encoded[stored_row(k / w, rows, upsidedown)][k % w],
        )) by {
            assert forall|k: int|
                0 <= k < num_rows * width implies pixels@[k] == encoded[stored_row(
                k / w,
                rows,
                upsidedown,
            )][k % w] by {
                let b = k / w;
                let c = k % w;
                vstd::arithmetic::div_mod::lemma_fundamental_div_mod(k, w);
                assert(0 <= b < num_rows) by (nonlinear_arith)
                    requires
                        0 <= k < num_rows * w,
                        w > 0,
                        b == k / w,
                ;
                let j = stored_row(b, rows, upsidedown);
                assert(stored_row(j, rows, upsidedown) == b);
                assert(stored_row(j, rows, upsidedown) * width + c == k) by (nonlinear_arith)
                    requires
                        stored_row(j, rows, upsidedown) == b,
                        k == w * b + c,
                        w == width,
                ;
            }
        }
    }
    Ok(pixels)
}

impl Image {
    /// Parses the given TGA data into a bitmap image.
    pub fn from_tga(data: &[u8]) -> (image: Result<Image, TgaError>)
        ensures
            match image {
                Ok(img) => decode_tga(data@) == Ok::<Bitmap, TgaError>(img@) && img.wf(),
                Err(e) => decode_tga(data@) == Err::<Bitmap, TgaError>(e),
            },
    {
        let header = match TgaHeader::from_data(data) {
            Err(e) => {
                return Err(e);
            },
            Ok(header) => header,
        };
        // only 24 bit RLE is implemented, origins from the left
        if header.bit_depth != 24 {
            return Err(TgaError::UnsupportedDepth);
        }
        if header.image_type != 10 {
            return Err(TgaError::UnsupportedType);
        }
        if !(header.origin == 0b00 || header.origin == 0b10) {
            return Err(TgaError::UnsupportedOrigin);
        }
        if header.image_width == 0 {
            return Err(TgaError::EmptyRows);
        }
        assert(header.image_width * header.image_height <= 0xffff * 0xffff) by (nonlinear_arith)
            requires
                header.image_width <= 0xffff,
                header.image_height <= 0xffff,
        ;
        let pixel_count: usize = header.image_width * header.image_height;
        let flipped: bool = header.origin == 0b00;
        assert(pixel_count / header.image_width == header.image_height) by (nonlinear_arith)
            requires
                pixel_count == header.image_width * header.image_height,
                header.image_width > 0,
        ;
        match read_image_data_rle(data, HEADER_LEN, pixel_count, header.image_width, flipped) {
            Err(e) => Err(e),
            Ok(pixels) => {
                assert(pixels@.subrange(0, pixel_count as int) =~= pixels@);
                Ok(
                    Image {
                        width: header.image_width,
                        height: header.image_height,
                        flipped,
                        pixels,
                    },
                )
            },
        }
    }
}

} // verus!
