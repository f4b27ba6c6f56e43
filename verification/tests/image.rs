use tinyrenderer::image::{Color, Image};
use tinyrenderer::scalar::Scalar;

#[derive(Clone, Copy, Debug, PartialEq)]
struct Real(f64);

impl Scalar for Real {
    fn from_usize(n: usize) -> Real {
        Real(n as f64)
    }

    fn to_usize(self) -> usize {
        self.0 as usize
    }

    fn add(self, rhs: Real) -> Real {
        Real(self.0 + rhs.0)
    }

    fn sub(self, rhs: Real) -> Real {
        Real(self.0 - rhs.0)
    }

    fn mul(self, rhs: Real) -> Real {
        Real(self.0 * rhs.0)
    }

    fn div(self, rhs: Real) -> Real {
        Real(self.0 / rhs.0)
    }

    fn neg(self) -> Real {
        Real(-self.0)
    }

    fn sqrt(self) -> Real {
        Real(self.0.sqrt())
    }

    fn lt(self, rhs: Real) -> bool {
        self.0 < rhs.0
    }

    fn parse(text: &[u8]) -> Option<Real> {
        std::str::from_utf8(text).ok()?.parse().ok().map(Real)
    }
}

const RED: Color = [255, 0, 0];
const BLUE: Color = [0, 0, 255];
const BLACK: Color = [0, 0, 0];

fn numbered(width: usize, height: usize) -> Image {
    let mut image = Image::make(width, height);
    for i in 0..width * height {
        image.pixels[i] = [i as u8, 0, 0];
    }
    image
}

#[test]
fn make_gives_a_black_unflipped_bitmap() {
    let image = Image::make(4, 3);
    assert_eq!((image.width, image.height, image.flipped), (4, 3, false));
    assert_eq!(image.pixels, vec![BLACK; 12]);
    assert_eq!(image.size(), 12);
    assert_eq!(Image::make(0, 7).size(), 0);
    assert!(Image::make(7, 0).pixels.is_empty());
}

#[test]
fn flip_toggles_the_flag_only() {
    let mut image = numbered(2, 2);
    let before = image.pixels.clone();
    image.flip();
    assert!(image.flipped);
    assert_eq!(image.pixels, before);
    image.flip();
    assert!(!image.flipped);
    assert_eq!(image.pixels, before);
}

#[test]
fn put_and_get_agree() {
    let mut image = Image::make(4, 3);
    image.put(1, 2, RED);
    assert_eq!(image.get(1, 2), RED);
    assert_eq!(image.pixels[9], RED);
    assert_eq!(image.pixels.iter().filter(|p| **p == RED).count(), 1);
    assert_eq!(image.locate(1, 2), Some(9));
}

#[test]
fn columns_wrap_around() {
    let mut image = Image::make(4, 3);
    image.put(5, 1, BLUE);
    assert_eq!(image.pixels[5], BLUE);
    assert_eq!(image.get(1, 1), BLUE);
    assert_eq!(image.get(9, 1), BLUE);
}

#[test]
fn put_outside_is_ignored() {
    let mut image = Image::make(4, 3);
    image.put(0, 3, RED);
    image.put(2, 1000, RED);
    image.put(3, usize::MAX, RED);
    image.put(usize::MAX, usize::MAX, RED);
    assert_eq!(image.pixels, vec![BLACK; 12]);
    assert_eq!(image.locate(0, 3), None);
    let mut empty = Image::make(0, 0);
    empty.put(0, 0, RED);
    assert!(empty.pixels.is_empty());
    let mut no_columns = Image::make(0, 5);
    no_columns.put(1, 1, RED);
    assert!(no_columns.pixels.is_empty());
}

#[test]
fn flipped_rows_count_back_from_the_last() {
    let mut image = numbered(2, 3);
    image.flip();
    // row y is stored in row 2 - y
    assert_eq!(image.get(0, 0), [4, 0, 0]);
    assert_eq!(image.get(1, 0), [5, 0, 0]);
    assert_eq!(image.get(1, 1), [3, 0, 0]);
    assert_eq!(image.get(1, 2), [1, 0, 0]);
    assert_eq!(image.locate(0, 0), Some(4));
    assert_eq!(image.locate(1, 2), Some(1));
    assert_eq!(image.locate(0, 3), None);
    assert_eq!(image.locate(0, 4), None);
    image.put(0, 3, RED);
    image.put(0, 4, RED);
    image.put(0, usize::MAX, RED);
    assert!(image.pixels.iter().all(|p| *p != RED));
    image.put(1, 0, RED);
    assert_eq!(image.pixels[5], RED);
    image.put(0, 2, BLUE);
    assert_eq!(image.pixels[0], BLUE);
}

#[test]
fn write_within_the_extent_is_never_dropped() {
    for flipped in [false, true] {
        for y in 0..2usize {
            for x in 0..3usize {
                let mut image = Image::make(3, 2);
                if flipped {
                    image.flip();
                }
                image.put(x, y, RED);
                let row = if flipped { 1 - y } else { y };
                let mut expected = vec![BLACK; 6];
                expected[x + row * 3] = RED;
                assert_eq!(image.pixels, expected, "flipped {} at ({}, {})", flipped, x, y);
                assert_eq!(image.get(x, y), RED);
            }
        }
        let mut image = Image::make(3, 2);
        if flipped {
            image.flip();
        }
        image.put(1, 2, RED);
        image.put(0, 7, RED);
        assert_eq!(image.pixels, vec![BLACK; 6]);
    }
}

#[test]
fn flipping_twice_reads_as_before() {
    let mut image = numbered(2, 3);
    image.flip();
    assert_eq!(image.get(1, 0), [5, 0, 0]);
    image.flip();
    assert_eq!(image.get(1, 0), [1, 0, 0]);
}

#[test]
fn unit_coordinates_are_scaled_and_cut() {
    let image = numbered(4, 2);
    assert_eq!(image.get_unit(Real(0.0), Real(0.0)), [0, 0, 0]);
    assert_eq!(image.get_unit(Real(0.49), Real(0.0)), [1, 0, 0]);
    assert_eq!(image.get_unit(Real(0.5), Real(0.5)), [6, 0, 0]);
    assert_eq!(image.get_unit(Real(0.99), Real(0.99)), [7, 0, 0]);
    // the far edge in x wraps to the first column
    assert_eq!(image.get_unit(Real(1.0), Real(0.5)), [4, 0, 0]);
    // the far edge in y names no row
    assert_eq!(image.get_unit(Real(0.5), Real(1.0)), BLACK);
    assert_eq!(image.get_unit(Real(-3.0), Real(-1.0)), [0, 0, 0]);
    assert_eq!(image.get_unit(Real(f64::NAN), Real(0.6)), [4, 0, 0]);
}

#[test]
fn unit_coordinates_in_a_flipped_bitmap() {
    let mut image = numbered(4, 2);
    image.flip();
    assert_eq!(image.get_unit(Real(0.25), Real(0.0)), [5, 0, 0]);
    assert_eq!(image.get_unit(Real(0.25), Real(0.49)), [5, 0, 0]);
    assert_eq!(image.get_unit(Real(0.25), Real(0.5)), [1, 0, 0]);
    assert_eq!(image.get_unit(Real(0.99), Real(0.99)), [3, 0, 0]);
    // the far edge in y names no row
    assert_eq!(image.get_unit(Real(0.25), Real(1.0)), BLACK);
    assert_eq!(Image::make(0, 0).get_unit(Real(0.5), Real(0.5)), BLACK);
}
