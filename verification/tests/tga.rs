use tinyrenderer::image::{Color, Image};
use tinyrenderer::tga::{
    read_image_data_rle, read_pixel_packet, read_pixel_row_rle, to_u16, TgaError, TgaHeader,
};

fn header(width: u16, height: u16, descriptor: u8) -> Vec<u8> {
    let mut bytes = vec![0, 0, 10, 0, 0, 0, 0, 0, 0, 0, 0, 0];
    bytes.extend_from_slice(&width.to_le_bytes());
    bytes.extend_from_slice(&height.to_le_bytes());
    bytes.push(24);
    bytes.push(descriptor);
    bytes
}

const TOP_LEFT: u8 = 0x20;
const BOTTOM_LEFT: u8 = 0x00;

const A: Color = [1, 2, 3];
const B: Color = [40, 50, 60];
const C: Color = [7, 8, 9];
const NONE: Color = [0, 0, 0];

fn run(count: u8, pixel: Color) -> Vec<u8> {
    vec![0x80 | (count - 1), pixel[2], pixel[1], pixel[0]]
}

fn raw(pixels: &[Color]) -> Vec<u8> {
    let mut bytes = vec![pixels.len() as u8 - 1];
    for p in pixels {
        bytes.extend_from_slice(&[p[2], p[1], p[0]]);
    }
    bytes
}

fn file(head: Vec<u8>, packets: &[Vec<u8>]) -> Vec<u8> {
    let mut bytes = head;
    for p in packets {
        bytes.extend_from_slice(p);
    }
    bytes
}

#[test]
fn to_u16_reads_low_byte_first() {
    assert_eq!(to_u16(&[0x34, 0x12]), 0x1234);
    assert_eq!(to_u16(&[0xff, 0x00]), 255);
    assert_eq!(to_u16(&[0x00, 0x01, 0x77]), 256);
}

#[test]
fn header_fields_are_read() {
    let mut bytes = header(300, 2, 0x2f);
    bytes[2] = 2;
    bytes[16] = 32;
    let parsed = TgaHeader::from_data(&bytes).unwrap();
    assert_eq!(
        parsed,
        TgaHeader { image_type: 2, image_width: 300, image_height: 2, bit_depth: 32, origin: 2 }
    );
}

#[test]
fn header_origin_is_two_bits() {
    for (descriptor, origin) in [(0x00u8, 0u8), (0x10, 1), (0x20, 2), (0x30, 3), (0xcf, 0), (0xff, 3)]
    {
        assert_eq!(TgaHeader::from_data(&header(1, 1, descriptor)).unwrap().origin, origin);
    }
}

#[test]
fn short_header_is_truncated() {
    let bytes = header(1, 1, 0);
    assert_eq!(TgaHeader::from_data(&bytes[..17]), Err(TgaError::Truncated));
    assert_eq!(TgaHeader::from_data(&[]), Err(TgaError::Truncated));
    assert_eq!(Image::from_tga(&bytes[..5]).err(), Some(TgaError::Truncated));
}

#[test]
fn color_map_is_refused() {
    let mut bytes = header(1, 1, 0);
    bytes[5] = 1;
    assert_eq!(TgaHeader::from_data(&bytes), Err(TgaError::ColorMapped));
    bytes[5] = 0;
    bytes[6] = 1;
    assert_eq!(Image::from_tga(&bytes).err(), Some(TgaError::ColorMapped));
}

#[test]
fn other_depths_types_and_origins_are_refused() {
    let mut bytes = file(header(1, 1, TOP_LEFT), &[run(1, A)]);
    assert!(Image::from_tga(&bytes).is_ok());
    bytes[16] = 32;
    assert_eq!(Image::from_tga(&bytes).err(), Some(TgaError::UnsupportedDepth));
    bytes[2] = 2;
    assert_eq!(Image::from_tga(&bytes).err(), Some(TgaError::UnsupportedDepth));
    bytes[16] = 24;
    assert_eq!(Image::from_tga(&bytes).err(), Some(TgaError::UnsupportedType));
    bytes[2] = 10;
    bytes[17] = 0x10;
    assert_eq!(Image::from_tga(&bytes).err(), Some(TgaError::UnsupportedOrigin));
    bytes[17] = 0x30;
    assert_eq!(Image::from_tga(&bytes).err(), Some(TgaError::UnsupportedOrigin));
}

#[test]
fn rows_without_pixels_are_refused() {
    assert_eq!(Image::from_tga(&header(0, 3, TOP_LEFT)).err(), Some(TgaError::EmptyRows));
}

#[test]
fn image_without_rows_is_empty() {
    let image = Image::from_tga(&header(3, 0, TOP_LEFT)).unwrap();
    assert_eq!((image.width, image.height, image.flipped), (3, 0, false));
    assert!(image.pixels.is_empty());
}

#[test]
fn top_left_image_is_stored_as_it_comes() {
    let bytes = file(header(3, 2, TOP_LEFT), &[run(2, A), raw(&[B]), raw(&[C, B, A])]);
    let image = Image::from_tga(&bytes).unwrap();
    assert_eq!((image.width, image.height, image.flipped), (3, 2, false));
    assert_eq!(image.pixels, vec![A, A, B, C, B, A]);
    assert_eq!(image.get(2, 0), B);
    assert_eq!(image.get(0, 1), C);
}

#[test]
fn bottom_left_image_is_stored_last_row_first_and_flipped() {
    let bytes = file(header(3, 2, BOTTOM_LEFT), &[run(2, A), raw(&[B]), raw(&[C, B, A])]);
    let image = Image::from_tga(&bytes).unwrap();
    assert_eq!((image.width, image.height, image.flipped), (3, 2, true));
    assert_eq!(image.pixels, vec![C, B, A, A, A, B]);
    // read through the flag, the rows come as the file has them
    assert_eq!([image.get(0, 0), image.get(1, 0), image.get(2, 0)], [A, A, B]);
    assert_eq!([image.get(0, 1), image.get(1, 1), image.get(2, 1)], [C, B, A]);
}

#[test]
fn bytes_after_the_image_are_ignored() {
    let mut bytes = file(header(2, 1, TOP_LEFT), &[run(2, C)]);
    bytes.extend_from_slice(&[9, 9, 9, 9, 9]);
    assert_eq!(Image::from_tga(&bytes).unwrap().pixels, vec![C, C]);
}

#[test]
fn longest_packets_are_read() {
    let bytes = file(header(256, 1, TOP_LEFT), &[run(128, A), raw(&[B; 128])]);
    let image = Image::from_tga(&bytes).unwrap();
    assert_eq!(image.pixels[..128], [A; 128]);
    assert_eq!(image.pixels[128..], [B; 128]);
}

#[test]
fn missing_packets_are_truncated() {
    let whole = file(header(2, 2, TOP_LEFT), &[run(2, A), raw(&[B, C])]);
    assert!(Image::from_tga(&whole).is_ok());
    for cut in 18..whole.len() {
        assert_eq!(Image::from_tga(&whole[..cut]).err(), Some(TgaError::Truncated), "cut {}", cut);
    }
}

#[test]
fn packet_beyond_the_row_is_an_overrun() {
    let bytes = file(header(2, 2, TOP_LEFT), &[run(3, A), run(1, A)]);
    assert_eq!(Image::from_tga(&bytes).err(), Some(TgaError::PacketOverrun));
    let bytes = file(header(2, 2, TOP_LEFT), &[run(1, A), raw(&[B, C]), run(1, A)]);
    assert_eq!(Image::from_tga(&bytes).err(), Some(TgaError::PacketOverrun));
}

#[test]
fn raw_overrun_is_noticed_one_pixel_late() {
    // two pixels left in the row, a raw packet of four: with the third pixel
    // there it is an overrun, without it the data is short
    let long = raw(&[A, B, C, A]);
    let mut sink = vec![NONE; 2];
    assert_eq!(read_pixel_packet(&long[..10], 0, &mut sink, 0, 2), Err(TgaError::PacketOverrun));
    let mut sink = vec![NONE; 2];
    assert_eq!(read_pixel_packet(&long[..9], 0, &mut sink, 0, 2), Err(TgaError::Truncated));
    // a run is read whole first
    let mut sink = vec![NONE; 2];
    assert_eq!(read_pixel_packet(&run(4, A)[..3], 0, &mut sink, 0, 2), Err(TgaError::Truncated));
    let mut sink = vec![NONE; 2];
    assert_eq!(read_pixel_packet(&run(4, A), 0, &mut sink, 0, 2), Err(TgaError::PacketOverrun));
}

#[test]
fn packet_is_written_where_it_belongs() {
    let mut data = vec![0xee];
    data.extend_from_slice(&raw(&[A, B]));
    let mut sink = vec![NONE; 5];
    assert_eq!(read_pixel_packet(&data, 1, &mut sink, 2, 3), Ok((2, 8)));
    assert_eq!(sink, vec![NONE, NONE, A, B, NONE]);
    let mut sink = vec![NONE; 5];
    assert_eq!(read_pixel_packet(&run(3, C), 0, &mut sink, 1, 4), Ok((3, 4)));
    assert_eq!(sink, vec![NONE, C, C, C, NONE]);
    let mut sink = vec![NONE; 1];
    assert_eq!(read_pixel_packet(&[], 0, &mut sink, 0, 1), Err(TgaError::Truncated));
}

#[test]
fn row_is_read_packet_by_packet() {
    let data = file(vec![], &[run(2, A), raw(&[B, C]), run(1, A), run(5, B)]);
    let mut sink = vec![NONE; 7];
    assert_eq!(read_pixel_row_rle(&data, 0, 5, &mut sink, 1), Ok(15));
    assert_eq!(sink, vec![NONE, A, A, B, C, A, NONE]);
    let mut sink = vec![NONE; 7];
    assert_eq!(read_pixel_row_rle(&data, 0, 0, &mut sink, 1), Ok(0));
    assert_eq!(sink, vec![NONE; 7]);
    let mut sink = vec![NONE; 7];
    assert_eq!(read_pixel_row_rle(&data, 0, 3, &mut sink, 0), Err(TgaError::PacketOverrun));
}

#[test]
fn pixels_beyond_the_last_whole_row_stay_black() {
    let data = file(vec![], &[run(2, A), run(2, B)]);
    assert_eq!(read_image_data_rle(&data, 0, 5, 2, false), Ok(vec![A, A, B, B, NONE]));
    assert_eq!(read_image_data_rle(&data, 0, 5, 2, true), Ok(vec![B, B, A, A, NONE]));
    assert_eq!(read_image_data_rle(&data, 0, 1, 2, true), Ok(vec![NONE]));
    assert_eq!(read_image_data_rle(&data, 4, 4, 2, false), Err(TgaError::Truncated));
}
