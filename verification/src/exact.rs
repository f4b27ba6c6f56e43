//! What fixed-point arithmetic makes exact: coordinates that the arithmetic
//! of other scalars only comes close to.
use vstd::prelude::*;
use crate::fixed::{abs_int, cut_quotient, lemma_fixed_is_ordered, Fixed, UNIT};
use crate::geometry::{column_of, partial_dot, product_entries, Vec3};
use crate::render::{
    barycentric_of, camera_axes, degenerate, depth_index, doubled_area, drawn, lookat_entries,
    Frame, Shader,
};
use crate::scalar::{one, zero, Scalar};
use crate::image::Bitmap;
use crate::scan::{
    covers, depth_at, lemma_colors_do_not_depend_on_draw_order,
    lemma_degenerate_triangle_draws_nothing, lemma_depths_do_not_depend_on_draw_order,
    lemma_draw_twice_is_draw_once, shader_is_steady, shader_keeps_all,
};

verus! {

/// The largest distance from zero, in steps, of a coordinate whose products
/// and sums with others like it stay in range: 2 to the power of 37 steps.
pub const REACH: i64 = 0x20_0000_0000;

/// Both screen coordinates of `v` are within `REACH` of zero.
pub open spec fn within_reach(v: Vec3<Fixed>) -> bool {
    -REACH <= v.x.raw <= REACH && -REACH <= v.y.raw <= REACH
}

/// The product of `m` and `n` steps, in steps, cut towards zero.
pub open spec fn cut_product(m: int, n: int) -> int {
    cut_quotient(m * n, UNIT as int)
}

/// Cut products of numbers that are small enough stay in range, and cutting
/// does not care for the sign.
pub proof fn lemma_cut_product(m: int, n: int)
    requires
        -2 * REACH <= m <= 2 * REACH,
        -2 * REACH <= n <= 2 * REACH,
    ensures
        -0x1000_0000_0000_0000 <= cut_product(m, n) <= 0x1000_0000_0000_0000,
        cut_product(-m, n) == -cut_product(m, n),
        cut_product(m, -n) == -cut_product(m, n),
        cut_product(0, n) == 0,
        cut_product(m, 0) == 0,
        (Fixed { raw: m as i64 }).product(Fixed { raw: n as i64 }).raw == cut_product(m, n),
{
    let p = m * n;
    assert(-0x1000_0000_0000_0000_0000 <= p <= 0x1000_0000_0000_0000_0000) by (nonlinear_arith)
        requires
            p == m * n,
            -0x40_0000_0000 <= m <= 0x40_0000_0000,
            -0x40_0000_0000 <= n <= 0x40_0000_0000,
    ;
    assert((-m) * n == -p && m * (-n) == -p && 0 * n == 0 && m * 0 == 0) by (nonlinear_arith)
        requires
            p == m * n,
    ;
    assert(abs_int(p) / 65536 <= 0x1000_0000_0000_0000);
}

/// A number divided by itself is one, and zero divided by a number is zero.
pub proof fn lemma_quotient_of_equals(z: int)
    requires
        z != 0,
        -0x4000_0000_0000_0000 <= z <= 0x4000_0000_0000_0000,
    ensures
        (Fixed { raw: z as i64 }).quotient(Fixed { raw: z as i64 }) == one::<Fixed>(),
        zero::<Fixed>().quotient(Fixed { raw: z as i64 }) == zero::<Fixed>(),
{
    let a = abs_int(z);
    assert(abs_int(z * UNIT) == a * 65536) by (nonlinear_arith)
        requires
            a == abs_int(z),
    ;
    assert((a * 65536) / a == 65536) by (nonlinear_arith)
        requires
            a > 0,
    ;
    assert(((z * UNIT) >= 0) == (z > 0)) by (nonlinear_arith)
        requires
            z != 0,
            UNIT == 65536,
    ;
    assert(0int * UNIT == 0);
    assert(0int / a == 0) by (nonlinear_arith)
        requires
            a > 0,
    ;
}

/// At the corners of a triangle that is not degenerate, the barycentric
/// coordinates are exactly one for the corner itself and zero for the others.
pub proof fn lemma_barycentric_at_corners(a: Vec3<Fixed>, b: Vec3<Fixed>, c: Vec3<Fixed>)
    requires
        within_reach(a),
        within_reach(b),
        within_reach(c),
        !degenerate(a, b, c),
    ensures
        barycentric_of(a, b, c, a) == (Vec3 { x: one::<Fixed>(), y: zero(), z: zero() }),
        barycentric_of(a, b, c, b) == (Vec3 { x: zero::<Fixed>(), y: one(), z: zero() }),
        barycentric_of(a, b, c, c) == (Vec3 { x: zero::<Fixed>(), y: zero(), z: one() }),
{
    let dx = b.x.raw - a.x.raw;
    let dy = b.y.raw - a.y.raw;
    let ex = c.x.raw - a.x.raw;
    let ey = c.y.raw - a.y.raw;
    lemma_cut_product(ex, dy);
    lemma_cut_product(dx, ey);
    lemma_cut_product(dx, dy);
    lemma_cut_product(ex, ey);
    lemma_cut_product(dx, 0);
    lemma_cut_product(ex, 0);
    lemma_cut_product(0, dy);
    lemma_cut_product(0, ey);
    let area = cut_product(ex, dy) - cut_product(dx, ey);
    assert(doubled_area(a, b, c).raw == area);
    assert(area != 0);
    lemma_quotient_of_equals(area);
}

/// A triangle whose corners lie on one line is degenerate.
pub proof fn lemma_collinear_is_degenerate(a: Vec3<Fixed>, b: Vec3<Fixed>, c: Vec3<Fixed>)
    requires
        within_reach(a),
        within_reach(b),
        within_reach(c),
        (c.x.raw - a.x.raw) * (b.y.raw - a.y.raw) == (b.x.raw - a.x.raw) * (c.y.raw - a.y.raw),
    ensures
        doubled_area(a, b, c) == zero::<Fixed>(),
        degenerate(a, b, c),
{
    lemma_cut_product(c.x.raw - a.x.raw, b.y.raw - a.y.raw);
    lemma_cut_product(b.x.raw - a.x.raw, c.y.raw - a.y.raw);
}

/// Drawing a triangle whose corners lie on one line changes nothing: no
/// depth is stored and no colour written.
pub proof fn lemma_collinear_triangle_draws_nothing<S: Shader<Fixed>>(
    frame: Frame<Fixed, S>,
    v0: Vec3<Fixed>,
    v1: Vec3<Fixed>,
    v2: Vec3<Fixed>,
)
    requires
        within_reach(v0),
        within_reach(v1),
        within_reach(v2),
        (v2.x.raw - v0.x.raw) * (v1.y.raw - v0.y.raw) == (v1.x.raw - v0.x.raw) * (v2.y.raw
            - v0.y.raw),
    ensures
        drawn(frame, v0, v1, v2) == frame,
{
    lemma_collinear_is_degenerate(v0, v1, v2);
    lemma_fixed_degenerate_triangle_draws_nothing(frame, v0, v1, v2);
}

/// A fixed-point number times one is the number itself.
pub proof fn lemma_product_with_one(a: Fixed)
    ensures
        a.product(one::<Fixed>()) == a,
        one::<Fixed>().product(a) == a,
        zero::<Fixed>().product(a) == zero::<Fixed>(),
        zero::<Fixed>().sum(a) == a,
{
    let n = a.raw as int;
    assert(abs_int(n * 65536) == abs_int(n) * 65536 && ((n * 65536) >= 0) == (n >= 0)
        && 65536 * n == n * 65536 && 0 * n == 0) by (nonlinear_arith);
    assert((abs_int(n) * 65536) / 65536 == abs_int(n)) by (nonlinear_arith);
}

/// The camera matrix takes the point that the camera looks at to the
/// origin, where no product of an axis with that point lies at the lower
/// end of the range.
pub proof fn lemma_lookat_takes_center_to_origin(
    eye: Vec3<Fixed>,
    center: Vec3<Fixed>,
    up: Vec3<Fixed>,
)
    requires
        ({
            let (x, y, z) = camera_axes(eye, center, up);
            x.dot(center).raw > i64::MIN && y.dot(center).raw > i64::MIN && z.dot(center).raw
                > i64::MIN
        }),
    ensures
        product_entries(lookat_entries(eye, center, up), column_of(center), 1) == column_of(
            Vec3 { x: zero::<Fixed>(), y: zero::<Fixed>(), z: zero::<Fixed>() },
        ),
        Vec3::from_column(
            product_entries(lookat_entries(eye, center, up), column_of(center), 1),
        ) == (Vec3 { x: zero::<Fixed>(), y: zero::<Fixed>(), z: zero::<Fixed>() }),
{
    let (x, y, z) = camera_axes(eye, center, up);
    let m = lookat_entries(eye, center, up);
    let c = column_of(center);
    let moved = product_entries(m, c, 1);
    reveal_with_fuel(partial_dot, 5);
    lemma_row_takes_center_to_zero(x, center);
    lemma_row_takes_center_to_zero(y, center);
    lemma_row_takes_center_to_zero(z, center);
    lemma_product_with_one(center.x);
    lemma_product_with_one(center.y);
    lemma_product_with_one(center.z);
    lemma_product_with_one(one::<Fixed>());
    assert(c.len() == 4);
    assert(partial_dot(m, c, 0, 0, 4) == zero::<Fixed>());
    assert(partial_dot(m, c, 1, 0, 4) == zero::<Fixed>());
    assert(partial_dot(m, c, 2, 0, 4) == zero::<Fixed>());
    assert(partial_dot(m, c, 3, 0, 4) == one::<Fixed>());
    assert(moved =~~= column_of(
        Vec3 { x: zero::<Fixed>(), y: zero::<Fixed>(), z: zero::<Fixed>() },
    ));
    lemma_quotient_of_equals(65536);
}

/// The product of an axis with a point, less that same product, is zero.
proof fn lemma_row_takes_center_to_zero(axis: Vec3<Fixed>, center: Vec3<Fixed>)
    requires
        axis.dot(center).raw > i64::MIN,
    ensures
        zero::<Fixed>().sum(axis.x.product(center.x)).sum(axis.y.product(center.y)).sum(
            axis.z.product(center.z),
        ).sum(axis.dot(center).negation().product(one::<Fixed>())) == zero::<Fixed>(),
{
    lemma_product_with_one(axis.x.product(center.x));
    lemma_product_with_one(axis.dot(center).negation());
}

/// Drawing the same triangle a second time changes nothing: the canvas, the
/// depth buffer and the shader are as the first draw left them.
pub proof fn lemma_fixed_draw_twice_is_draw_once<S: Shader<Fixed>>(
    frame: Frame<Fixed, S>,
    v0: Vec3<Fixed>,
    v1: Vec3<Fixed>,
    v2: Vec3<Fixed>,
)
    requires
        frame.depths.len() == frame.canvas.width * frame.canvas.height,
    ensures
        drawn(drawn(frame, v0, v1, v2), v0, v1, v2) == drawn(frame, v0, v1, v2),
{
    lemma_fixed_is_ordered();
    lemma_draw_twice_is_draw_once(frame, v0, v1, v2);
}

/// Drawing a degenerate triangle changes nothing.
pub proof fn lemma_fixed_degenerate_triangle_draws_nothing<S: Shader<Fixed>>(
    frame: Frame<Fixed, S>,
    v0: Vec3<Fixed>,
    v1: Vec3<Fixed>,
    v2: Vec3<Fixed>,
)
    requires
        degenerate(v0, v1, v2),
    ensures
        drawn(frame, v0, v1, v2) == frame,
{
    lemma_fixed_is_ordered();
    lemma_degenerate_triangle_draws_nothing(frame, v0, v1, v2);
}

/// The depth that two draws leave for a pixel of the frame does not depend
/// on which triangle is drawn first.
pub proof fn lemma_fixed_depths_do_not_depend_on_draw_order<S: Shader<Fixed>>(
    frame: Frame<Fixed, S>,
    a: (Vec3<Fixed>, Vec3<Fixed>, Vec3<Fixed>),
    b: (Vec3<Fixed>, Vec3<Fixed>, Vec3<Fixed>),
    x: int,
    y: int,
)
    requires
        0 <= x < frame.canvas.width,
        0 <= y < frame.canvas.height,
        frame.depths.len() == frame.canvas.width * frame.canvas.height,
    ensures
        drawn(drawn(frame, a.0, a.1, a.2), b.0, b.1, b.2).depths[depth_index(
            x,
            y,
            frame.canvas.width,
        )] == drawn(drawn(frame, b.0, b.1, b.2), a.0, a.1, a.2).depths[depth_index(
            x,
            y,
            frame.canvas.width,
        )],
{
    lemma_fixed_is_ordered();
    lemma_depths_do_not_depend_on_draw_order(frame, a, b, x, y);
}

/// Where two triangles are drawn with steady shaders that keep every
/// fragment, the colour that the two draws leave for a pixel does not depend
/// on which triangle is drawn first, unless both cover the pixel at the same
/// depth.
pub proof fn lemma_fixed_colors_do_not_depend_on_draw_order<S: Shader<Fixed>>(
    canvas: Bitmap,
    depths: Seq<Fixed>,
    a: (Vec3<Fixed>, Vec3<Fixed>, Vec3<Fixed>),
    with_a: S,
    b: (Vec3<Fixed>, Vec3<Fixed>, Vec3<Fixed>),
    with_b: S,
    x: int,
    y: int,
)
    requires
        shader_is_steady::<Fixed, S>(with_a),
        shader_is_steady::<Fixed, S>(with_b),
        shader_keeps_all::<Fixed, S>(with_a),
        shader_keeps_all::<Fixed, S>(with_b),
        depths.len() == canvas.width * canvas.height,
        0 <= x < canvas.width,
        0 <= y < canvas.height,
        canvas.addressable(x, y),
        !(covers(canvas, a, x, y) && covers(canvas, b, x, y) && depth_at(a, x, y) == depth_at(
            b,
            x,
            y,
        )),
    ensures
        ({
            let first_a = drawn(Frame { canvas, depths, shader: with_a }, a.0, a.1, a.2);
            let then_b = drawn(
                Frame { canvas: first_a.canvas, depths: first_a.depths, shader: with_b },
                b.0,
                b.1,
                b.2,
            );
            let first_b = drawn(Frame { canvas, depths, shader: with_b }, b.0, b.1, b.2);
            let then_a = drawn(
                Frame { canvas: first_b.canvas, depths: first_b.depths, shader: with_a },
                a.0,
                a.1,
                a.2,
            );
            then_b.canvas.pixels[canvas.index_of(x, y)] == then_a.canvas.pixels[canvas.index_of(
                x,
                y,
            )]
        }),
{
    lemma_fixed_is_ordered();
    lemma_colors_do_not_depend_on_draw_order(canvas, depths, a, with_a, b, with_b, x, y);
}

} // verus!
