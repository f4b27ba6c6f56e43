use tinyrenderer::geometry::{Matrix, Vec3};
use tinyrenderer::image::{Color, Image};
use tinyrenderer::render::{
    barycentric, bounding_box, lookat, projection, triangle, viewport, PixelBox, Shader,
};
use tinyrenderer::scalar::Scalar;

#[derive(Clone, Copy, Debug, PartialEq)]
struct Real(f64);

impl Scalar for Real {
    fn from_usize(n: usize) -> Real {
        Real(n as f64)
    }

    fn to_usize(self) -> usize {
        self.0 as usize
    }

    fn add(self, rhs: Real) -> Real {
        Real(self.0 + rhs.0)
    }

    fn sub(self, rhs: Real) -> Real {
        Real(self.0 - rhs.0)
    }

    fn mul(self, rhs: Real) -> Real {
        Real(self.0 * rhs.0)
    }

    fn div(self, rhs: Real) -> Real {
        Real(self.0 / rhs.0)
    }

    fn neg(self) -> Real {
        Real(-self.0)
    }

    fn sqrt(self) -> Real {
        Real(self.0.sqrt())
    }

    fn lt(self, rhs: Real) -> bool {
        self.0 < rhs.0
    }

    fn parse(text: &[u8]) -> Option<Real> {
        std::str::from_utf8(text).ok()?.parse().ok().map(Real)
    }
}

fn v(x: f64, y: f64, z: f64) -> Vec3<Real> {
    Vec3::new(Real(x), Real(y), Real(z))
}

/// Paints every fragment in one colour and counts how often each
/// barycentric coordinate came by.
struct Flat {
    color: Color,
    keep: bool,
    calls: usize,
    strictly_inside: usize,
}

impl Flat {
    fn new(color: Color) -> Flat {
        Flat { color, keep: true, calls: 0, strictly_inside: 0 }
    }
}

impl Shader<Real> for Flat {
    fn vertex(&mut self, _face_i: usize, _vert_i: usize) -> Vec3<Real> {
        v(0.0, 0.0, 0.0)
    }

    fn fragment(&mut self, bar: Vec3<Real>, color: &mut Color) -> bool {
        self.calls += 1;
        if bar.x.0 > 0.0 && bar.y.0 > 0.0 && bar.z.0 > 0.0 {
            self.strictly_inside += 1;
        }
        *color = self.color;
        self.keep
    }
}

const RED: Color = [255, 0, 0];
const GREEN: Color = [0, 255, 0];
const BLACK: Color = [0, 0, 0];

fn depths(width: usize, height: usize) -> Vec<Real> {
    vec![Real(f64::MIN); width * height]
}

fn colored(canvas: &Image, color: Color) -> Vec<(usize, usize)> {
    let mut found = Vec::new();
    for y in 0..canvas.height {
        for x in 0..canvas.width {
            if canvas.get(x, y) == color {
                found.push((x, y));
            }
        }
    }
    found
}

fn assert_close(a: Vec3<Real>, b: (f64, f64, f64)) {
    assert!((a.x.0 - b.0).abs() <= 1e-6, "{:?} against {:?}", a.x, b.0);
    assert!((a.y.0 - b.1).abs() <= 1e-6, "{:?} against {:?}", a.y, b.1);
    assert!((a.z.0 - b.2).abs() <= 1e-6, "{:?} against {:?}", a.z, b.2);
}

#[test]
fn barycentric_at_the_corners() {
    let (a, b, c) = (v(1.0, 2.0, 0.0), v(7.5, 3.0, 0.0), v(2.0, 9.25, 0.0));
    assert_close(barycentric(a, b, c, a), (1.0, 0.0, 0.0));
    assert_close(barycentric(a, b, c, b), (0.0, 1.0, 0.0));
    assert_close(barycentric(a, b, c, c), (0.0, 0.0, 1.0));
}

#[test]
fn barycentric_inside_sums_to_one() {
    let (a, b, c) = (v(0.0, 0.0, 0.0), v(4.0, 0.0, 0.0), v(0.0, 4.0, 0.0));
    let bc = barycentric(a, b, c, v(1.0, 2.0, 0.0));
    assert_close(bc, (0.25, 0.25, 0.5));
}

#[test]
fn barycentric_of_flat_triangle_is_the_sentinel() {
    let bc = barycentric(v(0.0, 0.0, 0.0), v(1.0, 1.0, 0.0), v(2.0, 2.0, 0.0), v(1.0, 1.0, 0.0));
    assert_eq!((bc.x.0, bc.y.0, bc.z.0), (-1.0, 1.0, 1.0));
}

#[test]
fn barycentric_of_sliver_below_threshold_is_the_sentinel() {
    // doubled area 1/128: not above one hundredth
    let bc =
        barycentric(v(0.0, 0.0, 0.0), v(0.125, 0.0, 0.0), v(0.0, 0.0625, 0.0), v(0.0, 0.0, 0.0));
    assert_eq!((bc.x.0, bc.y.0, bc.z.0), (-1.0, 1.0, 1.0));
    // doubled area 1/64: above it
    let bc =
        barycentric(v(0.0, 0.0, 0.0), v(0.125, 0.0, 0.0), v(0.0, 0.125, 0.0), v(0.0, 0.0, 0.0));
    assert_eq!((bc.x.0, bc.y.0, bc.z.0), (1.0, 0.0, 0.0));
}

#[test]
fn bounding_box_is_cut_to_the_frame() {
    let area = bounding_box(v(5.0, 5.0, 1.0), v(-100.0, 5.0, 1.0), v(5.0, 200.0, 1.0), 10, 10);
    assert_eq!(area, PixelBox { x_from: 0, x_to: 6, y_from: 5, y_to: 10 });
}

#[test]
fn bounding_box_holds_the_corner_pixels() {
    let area = bounding_box(v(1.5, 2.9, 0.0), v(3.2, 4.0, 0.0), v(2.0, 7.99, 0.0), 100, 100);
    assert_eq!(area, PixelBox { x_from: 1, x_to: 4, y_from: 2, y_to: 8 });
}

#[test]
fn bounding_box_outside_the_frame_is_empty() {
    let area = bounding_box(v(20.0, 1.0, 0.0), v(30.0, 2.0, 0.0), v(25.0, 8.0, 0.0), 10, 10);
    assert_eq!(area, PixelBox { x_from: 20, x_to: 10, y_from: 1, y_to: 9 });
}

#[test]
fn triangle_outside_the_frame_draws_nothing() {
    let mut canvas = Image::make(10, 10);
    let mut zbuffer = depths(10, 10);
    let mut shader = Flat::new(RED);
    triangle(
        &mut canvas,
        &mut zbuffer,
        &mut shader,
        v(20.0, 1.0, 0.0),
        v(30.0, 2.0, 0.0),
        v(25.0, 8.0, 0.0),
    );
    assert_eq!(shader.calls, 0);
    assert!(colored(&canvas, RED).is_empty());
    assert!(zbuffer.iter().all(|z| z.0 == f64::MIN));
}

#[test]
fn every_inner_pixel_is_shaded_once() {
    let mut canvas = Image::make(16, 16);
    let mut zbuffer = depths(16, 16);
    let mut shader = Flat::new(RED);
    let (a, b, c) = (v(2.0, 3.0, 1.0), v(13.0, 5.0, 1.0), v(6.0, 14.0, 1.0));
    triangle(&mut canvas, &mut zbuffer, &mut shader, a, b, c);
    let mut inside = 0;
    let mut touched = 0;
    for y in 0..16usize {
        for x in 0..16usize {
            let bc = barycentric(a, b, c, v(x as f64 + 0.5, y as f64 + 0.5, 0.0));
            let strictly = bc.x.0 > 0.0 && bc.y.0 > 0.0 && bc.z.0 > 0.0;
            let drawn = canvas.get(x, y) == RED;
            if strictly {
                inside += 1;
                assert!(drawn, "({}, {}) lies inside and is not drawn", x, y);
            }
            if drawn {
                touched += 1;
                assert!((2..14).contains(&x) && (3..15).contains(&y));
                assert!((zbuffer[x + y * 16].0 - 1.0).abs() <= 1e-9);
            } else {
                assert_eq!(zbuffer[x + y * 16], Real(f64::MIN));
            }
        }
    }
    assert!(inside > 30);
    assert_eq!(shader.strictly_inside, inside);
    assert_eq!(shader.calls, touched);
}

#[test]
fn drawing_twice_is_drawing_once() {
    let (a, b, c) = (v(1.0, 1.0, 3.0), v(9.0, 2.0, 5.0), v(4.0, 9.0, 8.0));
    let mut once = Image::make(10, 10);
    let mut once_depths = depths(10, 10);
    let mut shader = Flat::new(RED);
    triangle(&mut once, &mut once_depths, &mut shader, a, b, c);
    let calls = shader.calls;
    assert!(calls > 0);

    let mut twice = Image::make(10, 10);
    let mut twice_depths = depths(10, 10);
    let mut first = Flat::new(RED);
    triangle(&mut twice, &mut twice_depths, &mut first, a, b, c);
    let mut second = Flat::new(GREEN);
    triangle(&mut twice, &mut twice_depths, &mut second, a, b, c);

    assert_eq!(second.calls, 0);
    assert_eq!(once.pixels, twice.pixels);
    assert_eq!(once_depths, twice_depths);
}

#[test]
fn discarded_fragment_still_stores_its_depth() {
    let (a, b, c) = (v(0.0, 0.0, 7.0), v(4.0, 0.0, 7.0), v(0.0, 4.0, 7.0));
    let mut canvas = Image::make(4, 4);
    let mut zbuffer = depths(4, 4);
    let mut shader = Flat::new(RED);
    shader.keep = false;
    triangle(&mut canvas, &mut zbuffer, &mut shader, a, b, c);
    assert!(shader.calls > 0);
    assert!(colored(&canvas, RED).is_empty());
    assert_eq!(zbuffer[0], Real(7.0));
    // what is drawn later at the same depth finds the pixel taken
    let mut later = Flat::new(GREEN);
    triangle(&mut canvas, &mut zbuffer, &mut later, a, b, c);
    assert_eq!(later.calls, 0);
    assert!(colored(&canvas, GREEN).is_empty());
}

#[test]
fn degenerate_triangle_writes_nothing() {
    let mut canvas = Image::make(5, 5);
    let mut zbuffer = depths(5, 5);
    let mut shader = Flat::new(RED);
    triangle(
        &mut canvas,
        &mut zbuffer,
        &mut shader,
        v(0.0, 0.0, 0.0),
        v(1.0, 1.0, 0.0),
        v(2.0, 2.0, 0.0),
    );
    assert_eq!(shader.calls, 0);
    assert_eq!(colored(&canvas, BLACK).len(), 25);
    assert!(zbuffer.iter().all(|z| z.0 == f64::MIN));
}

#[test]
fn far_corners_touch_only_the_frame() {
    let mut canvas = Image::make(10, 10);
    let mut zbuffer = depths(10, 10);
    let mut shader = Flat::new(RED);
    triangle(
        &mut canvas,
        &mut zbuffer,
        &mut shader,
        v(5.0, 5.0, 1.0),
        v(-100.0, 5.0, 1.0),
        v(5.0, 200.0, 1.0),
    );
    assert_eq!(canvas.pixels.len(), 100);
    assert_eq!(zbuffer.len(), 100);
    let red = colored(&canvas, RED);
    assert!(!red.is_empty());
    assert_eq!(red.len(), shader.calls);
    for (x, y) in red {
        assert!(x < 5 && (5..10).contains(&y), "({}, {})", x, y);
    }
    for y in 0..10usize {
        for x in 0..10usize {
            if canvas.get(x, y) == RED {
                assert!((zbuffer[x + y * 10].0 - 1.0).abs() <= 1e-9);
            } else {
                assert_eq!(zbuffer[x + y * 10], Real(f64::MIN));
            }
        }
    }
}

#[test]
fn flat_triangle_colors_the_pixels_whose_centers_it_holds() {
    let mut canvas = Image::make(3, 3);
    let mut zbuffer = depths(3, 3);
    let mut shader = Flat::new(RED);
    triangle(
        &mut canvas,
        &mut zbuffer,
        &mut shader,
        v(0.0, 0.0, 0.0),
        v(2.0, 0.0, 0.0),
        v(0.0, 2.0, 0.0),
    );
    assert_eq!(colored(&canvas, RED), vec![(0, 0), (1, 0), (0, 1)]);
    assert_eq!(colored(&canvas, BLACK).len(), 6);
}

fn overlap(first_high: bool) -> Image {
    let mut canvas = Image::make(8, 8);
    let mut zbuffer = depths(8, 8);
    let low = (v(0.0, 0.0, 1.0), v(6.0, 0.0, 1.0), v(0.0, 6.0, 1.0));
    let high = (v(1.0, 1.0, 2.0), v(8.0, 1.0, 2.0), v(1.0, 8.0, 2.0));
    let mut red = Flat::new(RED);
    let mut green = Flat::new(GREEN);
    if first_high {
        triangle(&mut canvas, &mut zbuffer, &mut green, high.0, high.1, high.2);
        triangle(&mut canvas, &mut zbuffer, &mut red, low.0, low.1, low.2);
    } else {
        triangle(&mut canvas, &mut zbuffer, &mut red, low.0, low.1, low.2);
        triangle(&mut canvas, &mut zbuffer, &mut green, high.0, high.1, high.2);
    }
    canvas
}

#[test]
fn greater_depth_wins_in_either_order() {
    let a = overlap(true);
    let b = overlap(false);
    assert_eq!(a.pixels, b.pixels);
    // in both triangles
    assert_eq!(a.get(2, 2), GREEN);
    assert_eq!(a.get(1, 3), GREEN);
    // in the lower one only
    assert_eq!(a.get(0, 0), RED);
    assert_eq!(a.get(4, 0), RED);
    // in the higher one only
    assert_eq!(a.get(5, 2), GREEN);
    // in neither
    assert_eq!(a.get(7, 7), BLACK);
}

#[test]
fn equal_depth_keeps_the_first() {
    let mut canvas = Image::make(4, 4);
    let mut zbuffer = depths(4, 4);
    let t = (v(0.0, 0.0, 1.0), v(4.0, 0.0, 1.0), v(0.0, 4.0, 1.0));
    triangle(&mut canvas, &mut zbuffer, &mut Flat::new(RED), t.0, t.1, t.2);
    triangle(&mut canvas, &mut zbuffer, &mut Flat::new(GREEN), t.0, t.1, t.2);
    assert_eq!(canvas.get(1, 1), RED);
}

#[test]
fn depth_is_interpolated() {
    let mut canvas = Image::make(4, 4);
    let mut zbuffer = depths(4, 4);
    triangle(
        &mut canvas,
        &mut zbuffer,
        &mut Flat::new(RED),
        v(0.0, 0.0, 0.0),
        v(4.0, 0.0, 4.0),
        v(0.0, 4.0, 8.0),
    );
    // at the centre (1.5, 0.5) the weights are 0.5, 0.375, 0.125
    assert_eq!(zbuffer[1], Real(0.375 * 4.0 + 0.125 * 8.0));
}

#[test]
fn flipped_canvas_is_written_through_put() {
    let mut canvas = Image::make(3, 3);
    canvas.flip();
    let mut zbuffer = depths(3, 3);
    triangle(
        &mut canvas,
        &mut zbuffer,
        &mut Flat::new(RED),
        v(0.0, 0.0, 0.0),
        v(2.0, 0.0, 0.0),
        v(0.0, 2.0, 0.0),
    );
    // row y is stored in row 2 - y: no row of the picture is lost
    let stored: Vec<usize> =
        canvas.pixels.iter().enumerate().filter(|(_, p)| **p == RED).map(|(i, _)| i).collect();
    assert_eq!(stored, vec![3, 6, 7]);
    assert_eq!(colored(&canvas, RED), vec![(0, 0), (1, 0), (0, 1)]);
    assert_eq!(zbuffer[0], Real(0.0));
    assert_eq!(zbuffer[1], Real(0.0));
    assert_eq!(zbuffer[3], Real(0.0));
}

fn entries(m: &Matrix<Real>) -> Vec<Vec<f64>> {
    (0..m.rows).map(|i| (0..m.cols).map(|j| m.get(i, j).0).collect()).collect()
}

#[test]
fn viewport_scales_and_moves() {
    let vp = viewport(Real(100.0), Real(50.0), Real(600.0), Real(400.0), Real(255.0));
    assert_eq!(
        entries(&vp),
        vec![
            vec![300.0, 0.0, 0.0, 400.0],
            vec![0.0, 200.0, 0.0, 250.0],
            vec![0.0, 0.0, 127.5, 127.5],
            vec![0.0, 0.0, 0.0, 1.0],
        ]
    );
    // the corner (-1, -1, -1) of the cube goes to the corner of the box
    let corner = &vp * &Matrix::from_v(v(-1.0, -1.0, -1.0));
    let p = Vec3::from_m(&corner);
    assert_eq!((p.x.0, p.y.0, p.z.0), (100.0, 50.0, 0.0));
}

#[test]
fn projection_divides_by_depth() {
    let p = projection(Real(-0.25));
    assert_eq!(
        entries(&p),
        vec![
            vec![1.0, 0.0, 0.0, 0.0],
            vec![0.0, 1.0, 0.0, 0.0],
            vec![0.0, 0.0, 1.0, 0.0],
            vec![0.0, 0.0, -0.25, 1.0],
        ]
    );
    let moved = Vec3::from_m(&(&p * &Matrix::from_v(v(1.0, 2.0, 2.0))));
    assert_eq!((moved.x.0, moved.y.0, moved.z.0), (2.0, 4.0, 4.0));
}

#[test]
fn lookat_down_the_z_axis_is_the_identity() {
    let m = lookat(v(0.0, 0.0, 3.0), v(0.0, 0.0, 0.0), v(0.0, 1.0, 0.0));
    let e = entries(&m);
    for i in 0..4 {
        for j in 0..4 {
            let expected = if i == j { 1.0 } else { 0.0 };
            assert!((e[i][j] - expected).abs() <= 1e-12, "entry {} {}: {}", i, j, e[i][j]);
        }
    }
}

#[test]
fn lookat_builds_the_camera_axes() {
    let m = lookat(v(3.0, 0.0, 0.0), v(1.0, 2.0, 3.0), v(0.0, 1.0, 0.0));
    let e = entries(&m);
    // forward = normalize(eye - center) = (2, -2, -3) / sqrt(17)
    let n = 17f64.sqrt();
    assert!((e[2][0] - 2.0 / n).abs() <= 1e-12);
    assert!((e[2][1] + 2.0 / n).abs() <= 1e-12);
    assert!((e[2][2] + 3.0 / n).abs() <= 1e-12);
    // right = normalize(up x forward) = (-3, 0, -2) / sqrt(13)
    let r = 13f64.sqrt();
    assert!((e[0][0] + 3.0 / r).abs() <= 1e-12);
    assert!(e[0][1].abs() <= 1e-12);
    assert!((e[0][2] + 2.0 / r).abs() <= 1e-12);
    // the rows are at right angles
    let dot = |a: usize, b: usize| (0..3).map(|k| e[a][k] * e[b][k]).sum::<f64>();
    assert!(dot(0, 1).abs() <= 1e-12 && dot(0, 2).abs() <= 1e-12 && dot(1, 2).abs() <= 1e-12);
    assert!((dot(1, 1) - 1.0).abs() <= 1e-12);
    // the last column is minus the center as the axes see it
    for row in 0..3 {
        let seen = e[row][0] * 1.0 + e[row][1] * 2.0 + e[row][2] * 3.0;
        assert!((e[row][3] + seen).abs() <= 1e-12, "row {}: {}", row, e[row][3]);
    }
    assert!((e[0][3] - 9.0 / r).abs() <= 1e-12);
    assert!((e[2][3] - 11.0 / n).abs() <= 1e-12);
    assert_eq!(e[3], vec![0.0, 0.0, 0.0, 1.0]);
}

fn moved(m: &Matrix<Real>, p: Vec3<Real>) -> (f64, f64, f64) {
    let q = Vec3::from_m(&(m * &Matrix::from_v(p)));
    (q.x.0, q.y.0, q.z.0)
}

fn assert_near(a: (f64, f64, f64), b: (f64, f64, f64)) {
    assert!(
        (a.0 - b.0).abs() <= 1e-12 && (a.1 - b.1).abs() <= 1e-12 && (a.2 - b.2).abs() <= 1e-12,
        "{:?} against {:?}",
        a,
        b
    );
}

#[test]
fn lookat_takes_the_center_to_the_origin() {
    let m = lookat(v(1.0, 0.0, 1.0), v(0.0, 0.0, 1.0), v(0.0, 1.0, 0.0));
    assert_near(moved(&m, v(0.0, 0.0, 1.0)), (0.0, 0.0, 0.0));
    // the eye lies one ahead of the center, on the forward axis
    assert_near(moved(&m, v(1.0, 0.0, 1.0)), (0.0, 0.0, 1.0));
    let m = lookat(v(3.0, 0.0, 0.0), v(1.0, 2.0, 3.0), v(0.0, 1.0, 0.0));
    assert_near(moved(&m, v(1.0, 2.0, 3.0)), (0.0, 0.0, 0.0));
    assert_near(moved(&m, v(3.0, 0.0, 0.0)), (0.0, 0.0, 17f64.sqrt()));
}

#[test]
fn lookat_moves_then_turns() {
    let (eye, center, up) = (v(2.0, 5.0, -1.0), v(-1.0, 0.5, 4.0), v(0.0, 1.0, 0.0));
    let m = lookat(eye, center, up);
    let e = entries(&m);
    for p in [(0.0, 0.0, 0.0), (1.0, 2.0, 3.0), (-4.0, 0.25, 9.0)] {
        let d = (p.0 + 1.0, p.1 - 0.5, p.2 - 4.0);
        let turned = (
            e[0][0] * d.0 + e[0][1] * d.1 + e[0][2] * d.2,
            e[1][0] * d.0 + e[1][1] * d.1 + e[1][2] * d.2,
            e[2][0] * d.0 + e[2][1] * d.1 + e[2][2] * d.2,
        );
        assert_near(moved(&m, v(p.0, p.1, p.2)), turned);
    }
}
