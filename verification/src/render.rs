//! Rasterize triangles, with vertex and fragment shaders.
use vstd::prelude::*;
use crate::geometry::{identity_entries, Matrix, Vec3};
use crate::image::{black, Bitmap, Color, Image};
use crate::scalar::{abs, larger, magnitude, max, min, one, smaller, zero, Scalar};

verus! {

/// A shader can change vertices and fragments (pixels).
///
/// Both stages may change the shader: the vertex stage caches what the
/// fragment stage interpolates. The specification functions name what each
/// stage returns and what it leaves behind. A verified shader, such as
/// [`GouraudShader`](crate::shaders::GouraudShader), says what each of them
/// is, and is held to it. A shader that is compiled without the verifier
/// writes the two stages only: the specification functions keep their
/// default bodies, which say nothing, and nothing is proved of it.
pub trait Shader<T: Scalar>: Sized {
    /// Whether the shader can be asked for corner `vert_i` of face `face_i`.
    open spec fn has_vertex(&self, face_i: usize, vert_i: usize) -> bool {
        arbitrary()
    }

    /// What `vertex` returns.
    open spec fn position(&self, face_i: usize, vert_i: usize) -> Vec3<T> {
        arbitrary()
    }

    /// Whether `after` is a shader that `vertex` may leave behind.
    open spec fn vertex_leaves(&self, face_i: usize, vert_i: usize, after: Self) -> bool {
        arbitrary()
    }

    /// The colour that `fragment` leaves in `color`.
    open spec fn shaded(&self, bar: Vec3<T>, color: Color) -> Color {
        arbitrary()
    }

    /// What `fragment` returns: whether the fragment is to be drawn.
    open spec fn kept(&self, bar: Vec3<T>, color: Color) -> bool {
        arbitrary()
    }

    /// The shader that `fragment` leaves behind.
    open spec fn after_fragment(&self, bar: Vec3<T>, color: Color) -> Self {
        arbitrary()
    }

    /// Where should this vertex be?
    fn vertex(&mut self, face_i: usize, vert_i: usize) -> (position: Vec3<T>)
        requires
            old(self).has_vertex(face_i, vert_i),
        ensures
            position == old(self).position(face_i, vert_i),
            old(self).vertex_leaves(face_i, vert_i, *final(self)),
    ;

    /// What is the color of the fragment at `bar`?
    /// Returns true iff the fragment should be rendered.
    fn fragment(&mut self, bar: Vec3<T>, color: &mut Color) -> (keep: bool)
        ensures
            keep == old(self).kept(bar, *old(color)),
            *final(color) == old(self).shaded(bar, *old(color)),
            *final(self) == old(self).after_fragment(bar, *old(color)),
    ;
}

/// One half, as the scalar division makes it.
pub open spec fn half<T: Scalar>() -> T {
    one::<T>().quotient(T::of_index(2))
}

/// One hundredth: a triangle whose doubled area is no larger is not drawn.
pub open spec fn hundredth<T: Scalar>() -> T {
    one::<T>().quotient(T::of_index(100))
}

/// The centre of the pixel `(x, y)`.
pub open spec fn pixel_center<T: Scalar>(x: int, y: int) -> Vec3<T> {
    Vec3 {
        x: T::of_index(x as usize).sum(half()),
        y: T::of_index(y as usize).sum(half()),
        z: zero(),
    }
}

/// Twice the signed area of the triangle `a`, `b`, `c` in the XY plane.
pub open spec fn doubled_area<T: Scalar>(a: Vec3<T>, b: Vec3<T>, c: Vec3<T>) -> T {
    c.x.difference(a.x).product(b.y.difference(a.y)).difference(
        b.x.difference(a.x).product(c.y.difference(a.y)),
    )
}

/// The triangle has no area to speak of in the XY plane.
pub open spec fn degenerate<T: Scalar>(a: Vec3<T>, b: Vec3<T>, c: Vec3<T>) -> bool {
    !hundredth::<T>().less(magnitude(doubled_area(a, b, c)))
}

/// The barycentric coordinates that stand for "no coordinates".
pub open spec fn nowhere<T: Scalar>() -> Vec3<T> {
    Vec3 { x: one::<T>().negation(), y: one(), z: one() }
}

/// The barycentric coordinates of `p` in the triangle `a`, `b`, `c`, all
/// taken in the XY plane; `nowhere()` for a degenerate triangle.
pub open spec fn barycentric_of<T: Scalar>(a: Vec3<T>, b: Vec3<T>, c: Vec3<T>, p: Vec3<T>) -> Vec3<
    T,
> {
    let xs = Vec3 { x: c.x.difference(a.x), y: b.x.difference(a.x), z: a.x.difference(p.x) };
    let ys = Vec3 { x: c.y.difference(a.y), y: b.y.difference(a.y), z: a.y.difference(p.y) };
    let u = xs.crossed(ys);
    if degenerate(a, b, c) {
        nowhere()
    } else {
        Vec3 {
            x: one::<T>().difference(u.x.sum(u.y).quotient(u.z)),
            y: u.y.quotient(u.z),
            z: u.x.quotient(u.z),
        }
    }
}

/// Some barycentric coordinate is negative: the point is outside the triangle.
pub open spec fn outside<T: Scalar>(bc: Vec3<T>) -> bool {
    bc.x.less(zero()) || bc.y.less(zero()) || bc.z.less(zero())
}

/// The depth at barycentric coordinates `bc` of a triangle whose corners have
/// the depths of `v0`, `v1`, `v2`.
pub open spec fn depth_of<T: Scalar>(v0: Vec3<T>, v1: Vec3<T>, v2: Vec3<T>, bc: Vec3<T>) -> T {
    v0.z.product(bc.x).sum(v1.z.product(bc.y)).sum(v2.z.product(bc.z))
}

/// The [barycentric coordinates] for p in the triangle a,b,c.
/// [barycentric coordinates]: https://en.wikipedia.org/wiki/Barycentric_coordinate_system
pub fn barycentric<T: Scalar>(a: Vec3<T>, b: Vec3<T>, c: Vec3<T>, p: Vec3<T>) -> (bc: Vec3<T>)
    ensures
        bc == barycentric_of(a, b, c, p),
{
    let xs = Vec3 { x: c.x.sub(a.x), y: b.x.sub(a.x), z: a.x.sub(p.x) };
    let ys = Vec3 { x: c.y.sub(a.y), y: b.y.sub(a.y), z: a.y.sub(p.y) };
    let u = xs.cross(ys);
    let one = T::from_usize(1);
    let threshold = one.div(T::from_usize(100));
    if threshold.lt(abs(u.z)) {
        Vec3 { x: one.sub(u.x.add(u.y).div(u.z)), y: u.y.div(u.z), z: u.x.div(u.z) }
    } else {
        Vec3 { x: one.neg(), y: one, z: one }
    }
}

/// A rectangle of pixels: the columns from `x_from` up to, not including,
/// `x_to`, and the rows from `y_from` up to, not including, `y_to`.
#[derive(Clone, Copy, Debug, PartialEq, Eq, Structural)]
pub struct PixelBox {
    pub x_from: usize,
    pub x_to: usize,
    pub y_from: usize,
    pub y_to: usize,
}

impl PixelBox {
    /// The number of columns.
    pub open spec fn columns(self) -> nat {
        if self.x_from < self.x_to {
            (self.x_to - self.x_from) as nat
        } else {
            0
        }
    }

    /// The number of rows.
    pub open spec fn rows(self) -> nat {
        if self.y_from < self.y_to {
            (self.y_to - self.y_from) as nat
        } else {
            0
        }
    }

    /// The number of pixels.
    pub open spec fn count(self) -> nat {
        self.columns() * self.rows()
    }

    /// `(x, y)` lies in the rectangle.
    pub open spec fn contains(self, x: int, y: int) -> bool {
        self.x_from <= x < self.x_to && self.y_from <= y < self.y_to
    }

    /// The `k`th pixel in the order of the scan: column by column, and down
    /// each column row by row.
    pub open spec fn pixel(self, k: int) -> (int, int)
        recommends
            0 <= k < self.count(),
    {
        (self.x_from + k / (self.rows() as int), self.y_from + k % (self.rows() as int))
    }

    /// The place of `(x, y)` in the order of the scan.
    pub open spec fn position(self, x: int, y: int) -> int
        recommends
            self.contains(x, y),
    {
        (x - self.x_from) * self.rows() + (y - self.y_from)
    }
}

/// The pixels that a triangle can cover in a frame of `width` by `height`
/// pixels: from the pixel that holds the least coordinate of the corners to
/// the pixel that holds the greatest, as far as they lie in the frame.
pub open spec fn bounding_box_of<T: Scalar>(
    v0: Vec3<T>,
    v1: Vec3<T>,
    v2: Vec3<T>,
    width: usize,
    height: usize,
) -> PixelBox {
    let xmax = larger(larger(v0.x, v1.x), v2.x).to_index();
    let ymax = larger(larger(v0.y, v1.y), v2.y).to_index();
    PixelBox {
        x_from: smaller(smaller(v0.x, v1.x), v2.x).to_index(),
        x_to: if xmax < width {
            (xmax + 1) as usize
        } else {
            width
        },
        y_from: smaller(smaller(v0.y, v1.y), v2.y).to_index(),
        y_to: if ymax < height {
            (ymax + 1) as usize
        } else {
            height
        },
    }
}

/// Figures out the bounding box.
pub fn bounding_box<T: Scalar>(
    v0: Vec3<T>,
    v1: Vec3<T>,
    v2: Vec3<T>,
    width: usize,
    height: usize,
) -> (area: PixelBox)
    ensures
        area == bounding_box_of(v0, v1, v2, width, height),
        area.x_to <= width,
        area.y_to <= height,
{
    let xmin: usize = min(min(v0.x, v1.x), v2.x).to_usize();
    let xmax: usize = max(max(v0.x, v1.x), v2.x).to_usize();
    let ymin: usize = min(min(v0.y, v1.y), v2.y).to_usize();
    let ymax: usize = max(max(v0.y, v1.y), v2.y).to_usize();
    PixelBox {
        x_from: xmin,
        x_to: if xmax < width {
            xmax + 1
        } else {
            width
        },
        y_from: ymin,
        y_to: if ymax < height {
            ymax + 1
        } else {
            height
        },
    }
}

/// What a draw call works on: the canvas, the depth buffer and the shader.
pub ghost struct Frame<T, S> {
    pub canvas: Bitmap,
    pub depths: Seq<T>,
    pub shader: S,
}

/// The place of the pixel `(x, y)` in the depth buffer of a frame `width`
/// pixels wide.
pub open spec fn depth_index(x: int, y: int, width: nat) -> int {
    x + y * width
}

/// The frame after the pixel `(x, y)` has been looked at for the triangle
/// `v0`, `v1`, `v2`.
///
/// Nothing changes where the pixel lies outside the frame or its centre
/// outside the triangle, nor where the buffered depth is not strictly less
/// than the triangle's depth there. Else the depth is stored and the fragment
/// shaded; the colour is written only if the shader keeps the fragment.
pub open spec fn shade_pixel<T: Scalar, S: Shader<T>>(
    frame: Frame<T, S>,
    v0: Vec3<T>,
    v1: Vec3<T>,
    v2: Vec3<T>,
    x: int,
    y: int,
) -> Frame<T, S> {
    let bc = barycentric_of(v0, v1, v2, pixel_center(x, y));
    let z = depth_of(v0, v1, v2, bc);
    let i = depth_index(x, y, frame.canvas.width);
    if !(0 <= x < frame.canvas.width && 0 <= y < frame.canvas.height && i < frame.depths.len()) {
        frame
    } else if outside(bc) {
        frame
    } else if !frame.depths[i].less(z) {
        frame
    } else {
        Frame {
            canvas: if frame.shader.kept(bc, black()) {
                frame.canvas.painted(x, y, frame.shader.shaded(bc, black()))
            } else {
                frame.canvas
            },
            depths: frame.depths.update(i, z),
            shader: frame.shader.after_fragment(bc, black()),
        }
    }
}

/// The frame after the first `n` pixels of `area` have been looked at, in the
/// order of the scan.
pub open spec fn scanned<T: Scalar, S: Shader<T>>(
    frame: Frame<T, S>,
    v0: Vec3<T>,
    v1: Vec3<T>,
    v2: Vec3<T>,
    area: PixelBox,
    n: nat,
) -> Frame<T, S>
    decreases n,
{
    if n == 0 {
        frame
    } else {
        let (x, y) = area.pixel(n - 1);
        shade_pixel(scanned(frame, v0, v1, v2, area, (n - 1) as nat), v0, v1, v2, x, y)
    }
}

/// The frame after the triangle `v0`, `v1`, `v2` has been drawn.
pub open spec fn drawn<T: Scalar, S: Shader<T>>(
    frame: Frame<T, S>,
    v0: Vec3<T>,
    v1: Vec3<T>,
    v2: Vec3<T>,
) -> Frame<T, S> {
    let area = bounding_box_of(
        v0,
        v1,
        v2,
        frame.canvas.width as usize,
        frame.canvas.height as usize,
    );
    scanned(frame, v0, v1, v2, area, area.count())
}

/// Render a triangle v0,v1,v2 to the given canvas.
///
/// The pixels of the canvas in the triangle's bounding box are looked at one
/// by one, column by column. A pixel whose centre is not outside the triangle
/// is given the triangle's depth at the centre if the depth buffer holds a
/// depth strictly below it; its fragment is then shaded, and drawn if the
/// shader keeps it. A degenerate triangle and one that lies outside the
/// canvas change nothing.
pub fn triangle<T: Scalar, S: Shader<T>>(
    canvas: &mut Image,
    zbuffer: &mut Vec<T>,
    shader: &mut S,
    v0: Vec3<T>,
    v1: Vec3<T>,
    v2: Vec3<T>,
)
    requires
        old(zbuffer)@.len() == old(canvas).width * old(canvas).height,
    ensures
        (Frame { canvas: final(canvas)@, depths: final(zbuffer)@, shader: *final(shader) })
            == drawn(
            Frame { canvas: old(canvas)@, depths: old(zbuffer)@, shader: *old(shader) },
            v0,
            v1,
            v2,
        ),
{
    let ghost start = Frame { canvas: canvas@, depths: zbuffer@, shader: *shader };
    let width: usize = canvas.width;
    let height: usize = canvas.height;
    let area = bounding_box(v0, v1, v2, width, height);
    if area.x_from >= area.x_to || area.y_from >= area.y_to {
        assert(area.count() == 0) by (nonlinear_arith)
            requires
                area.columns() == 0 || area.rows() == 0,
                area.count() == area.columns() * area.rows(),
        ;
        return;
    }
    let cells: usize = zbuffer.len();
    let ghost rows = area.rows() as int;
    let offset = T::from_usize(1).div(T::from_usize(2));
    let origin = T::from_usize(0);
    // for every pixel p inside the box ...
    let mut x: usize = area.x_from;
    while x < area.x_to
        invariant
            area.x_from <= x <= area.x_to <= width,
            area.y_from < area.y_to <= height,
            rows == area.rows(),
            offset == half::<T>(),
            origin == zero::<T>(),
            canvas.width == width,
            canvas.height == height,
            start.canvas.width == width,
            start.canvas.height == height,
            zbuffer@.len() == cells == width * height,
            (Frame { canvas: canvas@, depths: zbuffer@, shader: *shader }) == scanned(
                start,
                v0,
                v1,
                v2,
                area,
                ((x - area.x_from) * rows) as nat,
            ),
        decreases area.x_to - x,
    {
        let mut y: usize = area.y_from;
        while y < area.y_to
            invariant
                area.x_from <= x < area.x_to <= width,
                area.y_from <= y <= area.y_to <= height,
                rows == area.rows(),
                offset == half::<T>(),
                origin == zero::<T>(),
                canvas.width == width,
                canvas.height == height,
                start.canvas.width == width,
                start.canvas.height == height,
                zbuffer@.len() == cells == width * height,
                (Frame { canvas: canvas@, depths: zbuffer@, shader: *shader }) == scanned(
                    start,
                    v0,
                    v1,
                    v2,
                    area,
                    ((x - area.x_from) * rows + (y - area.y_from)) as nat,
                ),
            decreases area.y_to - y,
        {
            let ghost k = (x - area.x_from) * rows + (y - area.y_from);
            let ghost before = Frame { canvas: canvas@, depths: zbuffer@, shader: *shader };
            proof {
                assert(0 <= (x - area.x_from) * rows) by (nonlinear_arith)
                    requires
                        0 <= x - area.x_from,
                        0 < rows,
                ;
                vstd::arithmetic::div_mod::lemma_fundamental_div_mod_converse(
                    k,
                    rows,
                    x - area.x_from,
                    y - area.y_from,
                );
                assert(area.pixel(k) == (x as int, y as int));
                assert(x + y * width < width * height) by (nonlinear_arith)
                    requires
                        0 <= x < width,
                        0 <= y < height,
                ;
                assert(0 <= y * width) by (nonlinear_arith)
                    requires
                        0 <= y,
                        0 <= width,
                ;
            }
            // ... calculate the barycentric coordinates for p
            let p = Vec3 {
                x: T::from_usize(x).add(offset),
                y: T::from_usize(y).add(offset),
                z: origin,
            };
            let bc_screen = barycentric(v0, v1, v2, p);
            // if any part of the coordinate is negative, p is outside the triangle
            if !(bc_screen.x.lt(origin) || bc_screen.y.lt(origin) || bc_screen.z.lt(origin)) {
                let z = v0.z.mul(bc_screen.x).add(v1.z.mul(bc_screen.y)).add(
                    v2.z.mul(bc_screen.z),
                );
                // don't draw fragments behind something we have already drawn
                let fragment_index: usize = x + y * width;
                if zbuffer[fragment_index].lt(z) {
                    zbuffer[fragment_index] = z;
                    // apply fragment shader
                    let mut color: Color = [0u8, 0u8, 0u8];
                    assert(color =~= black());
                    let keep_fragment = shader.fragment(bc_screen, &mut color);
                    if keep_fragment {
                        canvas.put(x, y, color);
                    }
                }
            }
            assert((Frame { canvas: canvas@, depths: zbuffer@, shader: *shader }) == shade_pixel(
                before,
                v0,
                v1,
                v2,
                x as int,
                y as int,
            ));
            y += 1;
        }
        proof {
            assert((x - area.x_from) * rows + (area.y_to - area.y_from) == (x + 1 - area.x_from)
                * rows) by (nonlinear_arith)
                requires
                    rows == area.y_to - area.y_from,
            ;
        }
        x += 1;
    }
    proof {
        assert(((area.x_to - area.x_from) * rows) as nat == area.count()) by (nonlinear_arith)
            requires
                area.count() == area.columns() * area.rows(),
                area.columns() == area.x_to - area.x_from,
                rows == area.rows(),
        ;
    }
}

/// The vertex stage can be run for the three corners of face `face_i`, one
/// after the other: whatever an earlier corner leaves behind, the shader has
/// the next corner.
pub open spec fn has_face<T: Scalar, S: Shader<T>>(shader: S, face_i: usize) -> bool {
    &&& shader.has_vertex(face_i, 0)
    &&& forall|first: S| #[trigger]
        shader.vertex_leaves(face_i, 0, first) ==> {
            &&& first.has_vertex(face_i, 1)
            &&& forall|second: S| #[trigger]
                first.vertex_leaves(face_i, 1, second) ==> second.has_vertex(face_i, 2)
        }
}

/// `after` is a frame that drawing face `face_i` may leave: the vertex stage
/// has run for the corners 0, 1 and 2, in this order, and the triangle of the
/// three positions has been drawn with the shader that the last corner left.
pub open spec fn face_drawn<T: Scalar, S: Shader<T>>(
    frame: Frame<T, S>,
    face_i: usize,
    after: Frame<T, S>,
) -> bool {
    exists|first: S, second: S, third: S|
        {
            &&& frame.shader.vertex_leaves(face_i, 0, first)
            &&& #[trigger] first.vertex_leaves(face_i, 1, second)
            &&& #[trigger] second.vertex_leaves(face_i, 2, third)
            &&& after == drawn(
                Frame { canvas: frame.canvas, depths: frame.depths, shader: third },
                frame.shader.position(face_i, 0),
                first.position(face_i, 1),
                second.position(face_i, 2),
            )
        }
}

/// Draws one face: runs the vertex stage for each of its corners, once and in
/// order, and renders the triangle of the positions that come back.
pub fn draw_face<T: Scalar, S: Shader<T>>(
    canvas: &mut Image,
    zbuffer: &mut Vec<T>,
    shader: &mut S,
    face_i: usize,
)
    requires
        old(zbuffer)@.len() == old(canvas).width * old(canvas).height,
        has_face::<T, S>(*old(shader), face_i),
    ensures
        face_drawn(
            Frame { canvas: old(canvas)@, depths: old(zbuffer)@, shader: *old(shader) },
            face_i,
            Frame { canvas: final(canvas)@, depths: final(zbuffer)@, shader: *final(shader) },
        ),
{
    let v0 = shader.vertex(face_i, 0);
    let ghost first = *shader;
    let v1 = shader.vertex(face_i, 1);
    let ghost second = *shader;
    let v2 = shader.vertex(face_i, 2);
    let ghost third = *shader;
    triangle(canvas, zbuffer, shader, v0, v1, v2);
    assert(first.vertex_leaves(face_i, 1, second) && second.vertex_leaves(face_i, 2, third));
}

/// The entries of the matrix that maps the cube from -1 to 1 onto the box
/// that starts at `(x, y, 0)` and is `w` wide, `h` high and `depth` deep.
pub open spec fn viewport_entries<T: Scalar>(x: T, y: T, w: T, h: T, depth: T) -> Seq<Seq<T>> {
    let two = T::of_index(2);
    seq![
        seq![w.quotient(two), zero(), zero(), x.sum(w.quotient(two))],
        seq![zero(), h.quotient(two), zero(), y.sum(h.quotient(two))],
        seq![zero(), zero(), depth.quotient(two), depth.quotient(two)],
        seq![zero(), zero(), zero(), one()],
    ]
}

/// Create a viewport that starts at x, y, with the given width, height and depth.
pub fn viewport<T: Scalar>(x: T, y: T, w: T, h: T, depth: T) -> (vp: Matrix<T>)
    ensures
        vp.is(4, 4),
        vp@ == viewport_entries(x, y, w, h, depth),
{
    let two = T::from_usize(2);
    let mut vp = Matrix::identity(4);

    vp.put(0, 3, x.add(w.div(two)));
    vp.put(1, 3, y.add(h.div(two)));
    vp.put(2, 3, depth.div(two));

    vp.put(0, 0, w.div(two));
    vp.put(1, 1, h.div(two));
    vp.put(2, 2, depth.div(two));

    assert(vp@ =~~= viewport_entries(x, y, w, h, depth));
    vp
}

/// The entries of the identity matrix with `coeff` in the last row, under
/// the depth: the point's fourth coordinate becomes one plus `coeff` times
/// its depth.
pub open spec fn projection_entries<T: Scalar>(coeff: T) -> Seq<Seq<T>> {
    seq![
        seq![one(), zero(), zero(), zero()],
        seq![zero(), one(), zero(), zero()],
        seq![zero(), zero(), one(), zero()],
        seq![zero(), zero(), coeff, one()],
    ]
}

/// Create a perspective projection matrix.
pub fn projection<T: Scalar>(coeff: T) -> (projection: Matrix<T>)
    ensures
        projection.is(4, 4),
        projection@ == projection_entries(coeff),
{
    let mut projection = Matrix::identity(4);
    projection.put(3, 2, coeff);
    assert(projection@ =~~= projection_entries(coeff));
    projection
}

/// The axes of a camera at `eye` that looks at `center`, with `up` pointing
/// upwards: right, up and forward. Forward is the unit vector from `center`
/// to `eye`, right the unit vector across `up` and forward, and up the
/// vector across forward and right.
pub open spec fn camera_axes<T: Scalar>(eye: Vec3<T>, center: Vec3<T>, up: Vec3<T>) -> (
    Vec3<T>,
    Vec3<T>,
    Vec3<T>,
) {
    let z = eye.minus(center).unit();
    let x = up.crossed(z).unit();
    (x, z.crossed(x), z)
}

/// The entries of the matrix of a camera at `eye` that looks at `center`,
/// with `up` pointing upwards. The matrix moves `center` to the origin and
/// then turns into the camera's axes: the rows of its upper left are the
/// axes, and each entry of its last column is minus the product of that
/// row's axis with `center`.
pub open spec fn lookat_entries<T: Scalar>(eye: Vec3<T>, center: Vec3<T>, up: Vec3<T>) -> Seq<
    Seq<T>,
> {
    let (x, y, z) = camera_axes(eye, center, up);
    seq![
        seq![x.x, x.y, x.z, x.dot(center).negation()],
        seq![y.x, y.y, y.z, y.dot(center).negation()],
        seq![z.x, z.y, z.z, z.dot(center).negation()],
        seq![zero(), zero(), zero(), one()],
    ]
}

/// Create a matrix representing a camera with the given orientation.
pub fn lookat<T: Scalar>(eye: Vec3<T>, center: Vec3<T>, up: Vec3<T>) -> (res: Matrix<T>)
    ensures
        res.is(4, 4),
        res@ == lookat_entries(eye, center, up),
{
    let z = (eye - center).normalized();
    let x = up.cross(z).normalized();
    let y = z.cross(x);
    let mut res = Matrix::identity(4);
    let ghost target = lookat_entries(eye, center, up);
    let mut i: usize = 0;
    while i < 3
        invariant
            i <= 3,
            res.is(4, 4),
            target == lookat_entries(eye, center, up),
            (x, y, z) == camera_axes(eye, center, up),
            res@[3] == identity_entries::<T>(4)[3],
            forall|r: int, c: int|
                0 <= r < 3 && 0 <= c < i ==> #[trigger] res@[r][c] == target[r][c],
        decreases 3 - i,
    {
        res.put(0, i, x[i]);
        res.put(1, i, y[i]);
        res.put(2, i, z[i]);
        i += 1;
    }
    res.put(0, 3, (x * center).neg());
    res.put(1, 3, (y * center).neg());
    res.put(2, 3, (z * center).neg());
    assert(res@ =~~= target);
    res
}

} // verus!
