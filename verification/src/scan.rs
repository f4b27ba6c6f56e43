//! What holds of every scan of a triangle, whatever the scalars and the shader.
use vstd::prelude::*;
use crate::geometry::Vec3;
use crate::image::{black, Bitmap, Color};
use crate::render::{
    barycentric_of, bounding_box_of, degenerate, depth_index, depth_of, drawn, nowhere, outside,
    pixel_center, scanned, shade_pixel, Frame, PixelBox, Shader,
};
use crate::scalar::{one, zero, Scalar};

verus! {

/// The scan looks at every pixel of its box exactly once and at no pixel
/// outside the box: the order of the scan pairs the pixels of the box with
/// the numbers below `area.count()`.
pub proof fn lemma_scan_visits_each_pixel_once(area: PixelBox)
    ensures
        forall|k: int|
            0 <= k < area.count() ==> {
                let (x, y) = #[trigger] area.pixel(k);
                area.contains(x, y) && area.position(x, y) == k
            },
        forall|x: int, y: int|
            area.contains(x, y) ==> {
                let k = #[trigger] area.position(x, y);
                0 <= k < area.count() && area.pixel(k) == (x, y)
            },
{
    let rows = area.rows() as int;
    let columns = area.columns() as int;
    assert forall|k: int| 0 <= k < area.count() implies {
        let (x, y) = #[trigger] area.pixel(k);
        area.contains(x, y) && area.position(x, y) == k
    } by {
        assert(rows > 0 && columns > 0) by (nonlinear_arith)
            requires
                0 <= k < columns * rows,
                0 <= rows,
                0 <= columns,
        ;
        vstd::arithmetic::div_mod::lemma_fundamental_div_mod(k, rows);
        vstd::arithmetic::div_mod::lemma_mod_bound(k, rows);
        assert(0 <= k / rows < columns) by (nonlinear_arith)
            requires
                0 <= k < columns * rows,
                rows > 0,
                k == rows * (k / rows) + k % rows,
                0 <= k % rows < rows,
        ;
        assert((k / rows) * rows + k % rows == k) by (nonlinear_arith)
            requires
                k == rows * (k / rows) + k % rows,
        ;
    }
    assert forall|x: int, y: int| area.contains(x, y) implies {
        let k = #[trigger] area.position(x, y);
        0 <= k < area.count() && area.pixel(k) == (x, y)
    } by {
        let k = area.position(x, y);
        let c = x - area.x_from;
        let r = y - area.y_from;
        assert(0 <= c * rows + r < columns * rows) by (nonlinear_arith)
            requires
                0 <= c < columns,
                0 <= r < rows,
        ;
        vstd::arithmetic::div_mod::lemma_fundamental_div_mod_converse(k, rows, c, r);
    }
}

/// Two pixels of a frame share a place in the depth buffer only if they are
/// the same pixel.
pub proof fn lemma_depth_index_is_one_to_one(x: int, y: int, u: int, v: int, width: nat)
    requires
        0 <= x < width,
        0 <= u < width,
        depth_index(x, y, width) == depth_index(u, v, width),
    ensures
        x == u,
        y == v,
{
    assert(y == v) by (nonlinear_arith)
        requires
            0 <= x < width,
            0 <= u < width,
            x + y * width == u + v * width,
    ;
}

/// The pixel `(x, y)` is in the frame and in the box.
pub open spec fn scan_covers(area: PixelBox, canvas: Bitmap, x: int, y: int) -> bool {
    area.contains(x, y) && 0 <= x < canvas.width && 0 <= y < canvas.height
}

/// A scan keeps the extent of the canvas and of the depth buffer. A depth
/// that differs afterwards is that of a pixel in both the box and the frame,
/// and so is a colour that differs.
pub proof fn lemma_scan_stays_in_box<T: Scalar, S: Shader<T>>(
    frame: Frame<T, S>,
    v0: Vec3<T>,
    v1: Vec3<T>,
    v2: Vec3<T>,
    area: PixelBox,
    n: nat,
)
    requires
        n <= area.count(),
    ensures
        ({
            let after = scanned(frame, v0, v1, v2, area, n);
            &&& after.canvas.width == frame.canvas.width
            &&& after.canvas.height == frame.canvas.height
            &&& after.canvas.flipped == frame.canvas.flipped
            &&& after.canvas.pixels.len() == frame.canvas.pixels.len()
            &&& after.depths.len() == frame.depths.len()
            &&& forall|i: int|
                0 <= i < frame.depths.len() && #[trigger] after.depths[i] != frame.depths[i]
                    ==> exists|x: int, y: int|
                    #[trigger] scan_covers(area, frame.canvas, x, y) && i == depth_index(
                        x,
                        y,
                        frame.canvas.width,
                    )
            &&& forall|i: int|
                0 <= i < frame.canvas.pixels.len() && #[trigger] after.canvas.pixels[i]
                    != frame.canvas.pixels[i] ==> exists|x: int, y: int|
                    #[trigger] scan_covers(area, frame.canvas, x, y) && frame.canvas.addressable(
                        x,
                        y,
                    ) && i == frame.canvas.index_of(x, y)
        }),
    decreases n,
{
    if n > 0 {
        let m = (n - 1) as nat;
        lemma_scan_stays_in_box(frame, v0, v1, v2, area, m);
        lemma_scan_visits_each_pixel_once(area);
        let before = scanned(frame, v0, v1, v2, area, m);
        let after = scanned(frame, v0, v1, v2, area, n);
        let (x, y) = area.pixel(m as int);
        assert(after == shade_pixel(before, v0, v1, v2, x, y));
        assert(area.contains(x, y));
        assert forall|i: int|
            0 <= i < frame.depths.len() && #[trigger] after.depths[i]
                != frame.depths[i] implies exists|x: int, y: int|
            #[trigger] scan_covers(area, frame.canvas, x, y) && i == depth_index(
                x,
                y,
                frame.canvas.width,
            ) by {
            if after.depths[i] != before.depths[i] {
                assert(scan_covers(area, frame.canvas, x, y));
                assert(i == depth_index(x, y, frame.canvas.width));
            } else {
                assert(before.depths[i] != frame.depths[i]);
            }
        }
        assert forall|i: int|
            0 <= i < frame.canvas.pixels.len() && #[trigger] after.canvas.pixels[i]
                != frame.canvas.pixels[i] implies exists|x: int, y: int|
            #[trigger] scan_covers(area, frame.canvas, x, y) && frame.canvas.addressable(x, y) && i
                == frame.canvas.index_of(x, y) by {
            if after.canvas.pixels[i] != before.canvas.pixels[i] {
                assert(scan_covers(area, frame.canvas, x, y));
                assert(before.canvas.addressable(x, y));
                assert(i == before.canvas.index_of(x, y));
                assert(frame.canvas.addressable(x, y));
                assert(i == frame.canvas.index_of(x, y));
            } else {
                assert(before.canvas.pixels[i] != frame.canvas.pixels[i]);
            }
        }
    }
}

/// Drawing a triangle changes no depth and no colour but those of pixels of
/// the frame that lie in the triangle's bounding box.
pub proof fn lemma_draw_stays_in_frame<T: Scalar, S: Shader<T>>(
    frame: Frame<T, S>,
    v0: Vec3<T>,
    v1: Vec3<T>,
    v2: Vec3<T>,
)
    ensures
        ({
            let after = drawn(frame, v0, v1, v2);
            let area = bounding_box_of(
                v0,
                v1,
                v2,
                frame.canvas.width as usize,
                frame.canvas.height as usize,
            );
            &&& after.canvas.width == frame.canvas.width
            &&& after.canvas.height == frame.canvas.height
            &&& after.canvas.flipped == frame.canvas.flipped
            &&& after.canvas.pixels.len() == frame.canvas.pixels.len()
            &&& after.depths.len() == frame.depths.len()
            &&& forall|i: int|
                0 <= i < frame.depths.len() && #[trigger] after.depths[i] != frame.depths[i]
                    ==> exists|x: int, y: int|
                    #[trigger] scan_covers(area, frame.canvas, x, y) && i == depth_index(
                        x,
                        y,
                        frame.canvas.width,
                    )
            &&& forall|i: int|
                0 <= i < frame.canvas.pixels.len() && #[trigger] after.canvas.pixels[i]
                    != frame.canvas.pixels[i] ==> exists|x: int, y: int|
                    #[trigger] scan_covers(area, frame.canvas, x, y) && frame.canvas.addressable(
                        x,
                        y,
                    ) && i == frame.canvas.index_of(x, y)
        }),
{
    let area = bounding_box_of(
        v0,
        v1,
        v2,
        frame.canvas.width as usize,
        frame.canvas.height as usize,
    );
    lemma_scan_stays_in_box(frame, v0, v1, v2, area, area.count());
}

/// A degenerate triangle leaves the frame as it is: no depth is stored, no
/// fragment shaded and no colour written, however many pixels are looked at.
pub proof fn lemma_degenerate_triangle_scans_nothing<T: Scalar, S: Shader<T>>(
    frame: Frame<T, S>,
    v0: Vec3<T>,
    v1: Vec3<T>,
    v2: Vec3<T>,
    area: PixelBox,
    n: nat,
)
    requires
        degenerate(v0, v1, v2),
        one::<T>().negation().less(zero()),
    ensures
        scanned(frame, v0, v1, v2, area, n) == frame,
    decreases n,
{
    if n > 0 {
        lemma_degenerate_triangle_scans_nothing(frame, v0, v1, v2, area, (n - 1) as nat);
        let (x, y) = area.pixel(n - 1);
        assert(barycentric_of(v0, v1, v2, pixel_center::<T>(x, y)) == nowhere::<T>());
        assert(outside(nowhere::<T>()));
    }
}

/// Drawing a degenerate triangle changes nothing, where the scalars have
/// minus one below zero.
pub proof fn lemma_degenerate_triangle_draws_nothing<T: Scalar, S: Shader<T>>(
    frame: Frame<T, S>,
    v0: Vec3<T>,
    v1: Vec3<T>,
    v2: Vec3<T>,
)
    requires
        degenerate(v0, v1, v2),
        one::<T>().negation().less(zero()),
    ensures
        drawn(frame, v0, v1, v2) == frame,
{
    let area = bounding_box_of(
        v0,
        v1,
        v2,
        frame.canvas.width as usize,
        frame.canvas.height as usize,
    );
    lemma_degenerate_triangle_scans_nothing(frame, v0, v1, v2, area, area.count());
}

/// Two pixels of a canvas share a place in its pixel vector only if they are
/// the same pixel.
pub proof fn lemma_pixel_index_is_one_to_one(canvas: Bitmap, x: int, y: int, u: int, v: int)
    requires
        0 <= x < canvas.width,
        0 <= u < canvas.width,
        canvas.index_of(x, y) == canvas.index_of(u, v),
    ensures
        x == u,
        y == v,
{
    let width = canvas.width as int;
    let r = canvas.row_of(y);
    let s = canvas.row_of(v);
    vstd::arithmetic::div_mod::lemma_small_mod(x as nat, width as nat);
    vstd::arithmetic::div_mod::lemma_small_mod(u as nat, width as nat);
    assert(r == s) by (nonlinear_arith)
        requires
            0 <= x < width,
            0 <= u < width,
            x + r * width == u + s * width,
    ;
}

/// After the first `n` pixels of a scan, the colour of each of them that the
/// canvas stores is the colour that was there when the pixel had just been
/// looked at, and the colours of the pixels that are still to come are as
/// they were: no pixel is coloured twice, and none by another pixel.
pub proof fn lemma_scan_colors_each_pixel_once<T: Scalar, S: Shader<T>>(
    frame: Frame<T, S>,
    v0: Vec3<T>,
    v1: Vec3<T>,
    v2: Vec3<T>,
    area: PixelBox,
    n: nat,
    k: int,
)
    requires
        n <= area.count(),
        0 <= k < area.count(),
        ({
            let (x, y) = area.pixel(k);
            0 <= x < frame.canvas.width && frame.canvas.addressable(x, y)
        }),
    ensures
        ({
            let (x, y) = area.pixel(k);
            let j = frame.canvas.index_of(x, y);
            let after = scanned(frame, v0, v1, v2, area, n);
            after.canvas.pixels[j] == if k < n {
                scanned(frame, v0, v1, v2, area, (k + 1) as nat).canvas.pixels[j]
            } else {
                frame.canvas.pixels[j]
            }
        }),
    decreases n,
{
    let (x, y) = area.pixel(k);
    let j = frame.canvas.index_of(x, y);
    if n > 0 && k != n - 1 {
        let m = (n - 1) as nat;
        lemma_scan_colors_each_pixel_once(frame, v0, v1, v2, area, m, k);
        lemma_scan_stays_in_box(frame, v0, v1, v2, area, m);
        lemma_scan_visits_each_pixel_once(area);
        let before = scanned(frame, v0, v1, v2, area, m);
        let after = scanned(frame, v0, v1, v2, area, n);
        let (u, v) = area.pixel(m as int);
        assert(after == shade_pixel(before, v0, v1, v2, u, v));
        assert(area.position(u, v) == m);
        assert(area.position(x, y) == k);
        if after.canvas.pixels[j] != before.canvas.pixels[j] {
            assert(before.canvas.index_of(u, v) == frame.canvas.index_of(u, v));
            lemma_pixel_index_is_one_to_one(frame.canvas, x, y, u, v);
        }
    }
}

/// The depth that looking at the pixel `(x, y)` leaves for it, where
/// `buffered` was there before: the triangle's depth at the pixel's centre if
/// the centre is not outside the triangle and `buffered` lies strictly below
/// that depth, else `buffered`.
pub open spec fn settled_depth<T: Scalar>(
    buffered: T,
    v0: Vec3<T>,
    v1: Vec3<T>,
    v2: Vec3<T>,
    x: int,
    y: int,
) -> T {
    let bc = barycentric_of(v0, v1, v2, pixel_center::<T>(x, y));
    let z = depth_of(v0, v1, v2, bc);
    if !outside(bc) && buffered.less(z) {
        z
    } else {
        buffered
    }
}

/// After the first `n` pixels of a scan, the depth of each of them that lies
/// in the frame is settled from the depth it had before the scan, and the
/// depths of the pixels that are still to come are as they were: every pixel
/// is compared once, against what the buffer held for it at the start.
pub proof fn lemma_scan_settles_depths<T: Scalar, S: Shader<T>>(
    frame: Frame<T, S>,
    v0: Vec3<T>,
    v1: Vec3<T>,
    v2: Vec3<T>,
    area: PixelBox,
    n: nat,
    k: int,
)
    requires
        n <= area.count(),
        0 <= k < area.count(),
        frame.depths.len() == frame.canvas.width * frame.canvas.height,
        ({
            let (x, y) = area.pixel(k);
            0 <= x < frame.canvas.width && 0 <= y < frame.canvas.height
        }),
    ensures
        ({
            let (x, y) = area.pixel(k);
            let i = depth_index(x, y, frame.canvas.width);
            let after = scanned(frame, v0, v1, v2, area, n);
            &&& 0 <= i < frame.depths.len()
            &&& after.depths[i] == if k < n {
                settled_depth(frame.depths[i], v0, v1, v2, x, y)
            } else {
                frame.depths[i]
            }
        }),
    decreases n,
{
    let (x, y) = area.pixel(k);
    let width = frame.canvas.width;
    let i = depth_index(x, y, width);
    assert(0 <= i < frame.depths.len()) by (nonlinear_arith)
        requires
            i == x + y * width,
            0 <= x < width,
            0 <= y < frame.canvas.height,
            frame.depths.len() == width * frame.canvas.height,
    ;
    if n > 0 {
        let m = (n - 1) as nat;
        lemma_scan_settles_depths(frame, v0, v1, v2, area, m, k);
        lemma_scan_stays_in_box(frame, v0, v1, v2, area, m);
        lemma_scan_visits_each_pixel_once(area);
        let before = scanned(frame, v0, v1, v2, area, m);
        let after = scanned(frame, v0, v1, v2, area, n);
        let (u, v) = area.pixel(m as int);
        assert(after == shade_pixel(before, v0, v1, v2, u, v));
        if k != m {
            assert(area.position(u, v) == m);
            assert(area.position(x, y) == k);
            if after.depths[i] != before.depths[i] {
                lemma_depth_index_is_one_to_one(x, y, u, v, width);
            }
        }
    }
}

/// After a triangle has been drawn, the depth of each pixel of the frame in
/// the triangle's bounding box is settled from the depth it had before, and
/// the depth of every other pixel is as it was.
pub proof fn lemma_draw_settles_depths<T: Scalar, S: Shader<T>>(
    frame: Frame<T, S>,
    v0: Vec3<T>,
    v1: Vec3<T>,
    v2: Vec3<T>,
    x: int,
    y: int,
)
    requires
        0 <= x < frame.canvas.width,
        0 <= y < frame.canvas.height,
        frame.depths.len() == frame.canvas.width * frame.canvas.height,
    ensures
        ({
            let area = bounding_box_of(
                v0,
                v1,
                v2,
                frame.canvas.width as usize,
                frame.canvas.height as usize,
            );
            let i = depth_index(x, y, frame.canvas.width);
            &&& 0 <= i < frame.depths.len()
            &&& drawn(frame, v0, v1, v2).depths[i] == if area.contains(x, y) {
                settled_depth(frame.depths[i], v0, v1, v2, x, y)
            } else {
                frame.depths[i]
            }
        }),
{
    let area = bounding_box_of(
        v0,
        v1,
        v2,
        frame.canvas.width as usize,
        frame.canvas.height as usize,
    );
    let width = frame.canvas.width;
    let i = depth_index(x, y, width);
    assert(0 <= i < frame.depths.len()) by (nonlinear_arith)
        requires
            i == x + y * width,
            0 <= x < width,
            0 <= y < frame.canvas.height,
            frame.depths.len() == width * frame.canvas.height,
    ;
    lemma_scan_visits_each_pixel_once(area);
    if area.contains(x, y) {
        let k = area.position(x, y);
        assert(area.pixel(k) == (x, y));
        lemma_scan_settles_depths(frame, v0, v1, v2, area, area.count(), k);
    } else {
        lemma_scan_stays_in_box(frame, v0, v1, v2, area, area.count());
        let after = drawn(frame, v0, v1, v2);
        if after.depths[i] != frame.depths[i] {
            let (u, v) = choose|u: int, v: int|
                #[trigger] scan_covers(area, frame.canvas, u, v) && i == depth_index(u, v, width);
            lemma_depth_index_is_one_to_one(x, y, u, v, width);
        }
    }
}

/// Drawing a triangle never lowers a depth: each depth of the buffer is
/// afterwards what it was, or something that it lay strictly below.
pub proof fn lemma_depth_never_decreases<T: Scalar, S: Shader<T>>(
    frame: Frame<T, S>,
    v0: Vec3<T>,
    v1: Vec3<T>,
    v2: Vec3<T>,
    i: int,
)
    requires
        0 <= i < frame.depths.len(),
        frame.depths.len() == frame.canvas.width * frame.canvas.height,
    ensures
        drawn(frame, v0, v1, v2).depths[i] == frame.depths[i] || frame.depths[i].less(
            drawn(frame, v0, v1, v2).depths[i],
        ),
{
    let width = frame.canvas.width as int;
    assert(width > 0) by (nonlinear_arith)
        requires
            0 <= i < width * frame.canvas.height,
            width >= 0,
    ;
    let x = i % width;
    let y = i / width;
    vstd::arithmetic::div_mod::lemma_fundamental_div_mod(i, width);
    vstd::arithmetic::div_mod::lemma_mod_bound(i, width);
    assert(0 <= y < frame.canvas.height) by (nonlinear_arith)
        requires
            0 <= i < width * frame.canvas.height,
            width > 0,
            i == width * y + x,
            0 <= x < width,
    ;
    assert(depth_index(x, y, frame.canvas.width) == i) by (nonlinear_arith)
        requires
            i == width * y + x,
            depth_index(x, y, frame.canvas.width) == x + y * width,
    ;
    lemma_draw_settles_depths(frame, v0, v1, v2, x, y);
}

/// Shading a fragment leaves the shader as it is.
pub open spec fn shader_is_steady<T: Scalar, S: Shader<T>>(shader: S) -> bool {
    forall|bar: Vec3<T>, color: Color| #[trigger] shader.after_fragment(bar, color) == shader
}

/// A scan leaves a steady shader as it is.
pub proof fn lemma_scan_keeps_steady_shader<T: Scalar, S: Shader<T>>(
    frame: Frame<T, S>,
    v0: Vec3<T>,
    v1: Vec3<T>,
    v2: Vec3<T>,
    area: PixelBox,
    n: nat,
)
    requires
        shader_is_steady::<T, S>(frame.shader),
    ensures
        scanned(frame, v0, v1, v2, area, n).shader == frame.shader,
    decreases n,
{
    if n > 0 {
        lemma_scan_keeps_steady_shader(frame, v0, v1, v2, area, (n - 1) as nat);
    }
}

/// The colour that looking at the pixel `(x, y)` leaves for it, where
/// `buffered` was the depth and `stored` the colour before: what the shader
/// makes of black at the pixel's barycentric coordinates if the pixel's
/// centre is not outside the triangle, `buffered` lies strictly below the
/// triangle's depth there and the shader keeps the fragment, else `stored`.
pub open spec fn settled_color<T: Scalar, S: Shader<T>>(
    shader: S,
    buffered: T,
    stored: Color,
    v0: Vec3<T>,
    v1: Vec3<T>,
    v2: Vec3<T>,
    x: int,
    y: int,
) -> Color {
    let bc = barycentric_of(v0, v1, v2, pixel_center::<T>(x, y));
    let z = depth_of(v0, v1, v2, bc);
    if !outside(bc) && buffered.less(z) && shader.kept(bc, black()) {
        shader.shaded(bc, black())
    } else {
        stored
    }
}

/// After a triangle has been drawn with a steady shader, each pixel of the
/// bounding box that the canvas stores has the colour settled from the depth
/// and the colour it had before: exactly the pixels whose centres the
/// triangle holds, and that are not hidden, are coloured anew.
pub proof fn lemma_draw_settles_colors<T: Scalar, S: Shader<T>>(
    frame: Frame<T, S>,
    v0: Vec3<T>,
    v1: Vec3<T>,
    v2: Vec3<T>,
    x: int,
    y: int,
)
    requires
        shader_is_steady::<T, S>(frame.shader),
        frame.depths.len() == frame.canvas.width * frame.canvas.height,
        0 <= x < frame.canvas.width,
        0 <= y < frame.canvas.height,
        frame.canvas.addressable(x, y),
        bounding_box_of(
            v0,
            v1,
            v2,
            frame.canvas.width as usize,
            frame.canvas.height as usize,
        ).contains(x, y),
    ensures
        drawn(frame, v0, v1, v2).shader == frame.shader,
        drawn(frame, v0, v1, v2).canvas.pixels[frame.canvas.index_of(x, y)] == settled_color(
            frame.shader,
            frame.depths[depth_index(x, y, frame.canvas.width)],
            frame.canvas.pixels[frame.canvas.index_of(x, y)],
            v0,
            v1,
            v2,
            x,
            y,
        ),
{
    let area = bounding_box_of(
        v0,
        v1,
        v2,
        frame.canvas.width as usize,
        frame.canvas.height as usize,
    );
    lemma_scan_visits_each_pixel_once(area);
    let k = area.position(x, y);
    assert(area.pixel(k) == (x, y));
    let before = scanned(frame, v0, v1, v2, area, k as nat);
    let after = scanned(frame, v0, v1, v2, area, (k + 1) as nat);
    assert(after == shade_pixel(before, v0, v1, v2, x, y));
    lemma_scan_keeps_steady_shader(frame, v0, v1, v2, area, area.count());
    lemma_scan_keeps_steady_shader(frame, v0, v1, v2, area, k as nat);
    lemma_scan_stays_in_box(frame, v0, v1, v2, area, k as nat);
    lemma_scan_settles_depths(frame, v0, v1, v2, area, k as nat, k);
    lemma_scan_colors_each_pixel_once(frame, v0, v1, v2, area, k as nat, k);
    lemma_scan_colors_each_pixel_once(frame, v0, v1, v2, area, area.count(), k);
    assert(before.canvas.index_of(x, y) == frame.canvas.index_of(x, y));
    assert(before.canvas.addressable(x, y));
}

/// After a triangle has been drawn with a steady shader, each pixel of the
/// frame that the canvas stores has the colour settled from what it had
/// before if it lies in the triangle's bounding box, and the colour that it
/// had before if not.
pub proof fn lemma_draw_settles_every_color<T: Scalar, S: Shader<T>>(
    frame: Frame<T, S>,
    v0: Vec3<T>,
    v1: Vec3<T>,
    v2: Vec3<T>,
    x: int,
    y: int,
)
    requires
        shader_is_steady::<T, S>(frame.shader),
        frame.depths.len() == frame.canvas.width * frame.canvas.height,
        0 <= x < frame.canvas.width,
        0 <= y < frame.canvas.height,
        frame.canvas.addressable(x, y),
    ensures
        drawn(frame, v0, v1, v2).shader == frame.shader,
        drawn(frame, v0, v1, v2).canvas.pixels[frame.canvas.index_of(x, y)] == if bounding_box_of(
            v0,
            v1,
            v2,
            frame.canvas.width as usize,
            frame.canvas.height as usize,
        ).contains(x, y) {
            settled_color(
                frame.shader,
                frame.depths[depth_index(x, y, frame.canvas.width)],
                frame.canvas.pixels[frame.canvas.index_of(x, y)],
                v0,
                v1,
                v2,
                x,
                y,
            )
        } else {
            frame.canvas.pixels[frame.canvas.index_of(x, y)]
        },
{
    let area = bounding_box_of(
        v0,
        v1,
        v2,
        frame.canvas.width as usize,
        frame.canvas.height as usize,
    );
    lemma_scan_keeps_steady_shader(frame, v0, v1, v2, area, area.count());
    if area.contains(x, y) {
        lemma_draw_settles_colors(frame, v0, v1, v2, x, y);
    } else {
        lemma_draw_stays_in_frame(frame, v0, v1, v2);
        let j = frame.canvas.index_of(x, y);
        let after = drawn(frame, v0, v1, v2);
        if after.canvas.pixels[j] != frame.canvas.pixels[j] {
            let (u, v) = choose|u: int, v: int|
                #[trigger] scan_covers(area, frame.canvas, u, v) && frame.canvas.addressable(u, v)
                    && j == frame.canvas.index_of(u, v);
            lemma_pixel_index_is_one_to_one(frame.canvas, x, y, u, v);
        }
    }
}

/// The shader keeps every fragment.
pub open spec fn shader_keeps_all<T: Scalar, S: Shader<T>>(shader: S) -> bool {
    forall|bar: Vec3<T>, color: Color| #[trigger] shader.kept(bar, color)
}

/// The triangle `t` covers the pixel `(x, y)` of the canvas: the pixel lies
/// in the triangle's bounding box and its centre is not outside the triangle.
pub open spec fn covers<T: Scalar>(
    canvas: Bitmap,
    t: (Vec3<T>, Vec3<T>, Vec3<T>),
    x: int,
    y: int,
) -> bool {
    &&& bounding_box_of(t.0, t.1, t.2, canvas.width as usize, canvas.height as usize).contains(
        x,
        y,
    )
    &&& !outside(barycentric_of(t.0, t.1, t.2, pixel_center::<T>(x, y)))
}

/// The depth of the triangle `t` at the centre of the pixel `(x, y)`.
pub open spec fn depth_at<T: Scalar>(t: (Vec3<T>, Vec3<T>, Vec3<T>), x: int, y: int) -> T {
    depth_of(t.0, t.1, t.2, barycentric_of(t.0, t.1, t.2, pixel_center::<T>(x, y)))
}

/// Where the scalars are in a strict total order and two triangles are drawn
/// with steady shaders that keep every fragment, the colour that the two
/// draws leave for a pixel does not depend on which triangle is drawn first,
/// unless both cover the pixel at the same depth: the triangle of the
/// greater depth shows.
pub proof fn lemma_colors_do_not_depend_on_draw_order<T: Scalar, S: Shader<T>>(
    canvas: Bitmap,
    depths: Seq<T>,
    a: (Vec3<T>, Vec3<T>, Vec3<T>),
    with_a: S,
    b: (Vec3<T>, Vec3<T>, Vec3<T>),
    with_b: S,
    x: int,
    y: int,
)
    requires
        order_is_total::<T>(),
        shader_is_steady::<T, S>(with_a),
        shader_is_steady::<T, S>(with_b),
        shader_keeps_all::<T, S>(with_a),
        shader_keeps_all::<T, S>(with_b),
        depths.len() == canvas.width * canvas.height,
        0 <= x < canvas.width,
        0 <= y < canvas.height,
        canvas.addressable(x, y),
        !(covers(canvas, a, x, y) && covers(canvas, b, x, y) && depth_at(a, x, y) == depth_at(
            b,
            x,
            y,
        )),
    ensures
        ({
            let first_a = drawn(Frame { canvas, depths, shader: with_a }, a.0, a.1, a.2);
            let then_b = drawn(
                Frame { canvas: first_a.canvas, depths: first_a.depths, shader: with_b },
                b.0,
                b.1,
                b.2,
            );
            let first_b = drawn(Frame { canvas, depths, shader: with_b }, b.0, b.1, b.2);
            let then_a = drawn(
                Frame { canvas: first_b.canvas, depths: first_b.depths, shader: with_a },
                a.0,
                a.1,
                a.2,
            );
            then_b.canvas.pixels[canvas.index_of(x, y)] == then_a.canvas.pixels[canvas.index_of(
                x,
                y,
            )]
        }),
{
    let start_a = Frame { canvas, depths, shader: with_a };
    let start_b = Frame { canvas, depths, shader: with_b };
    let first_a = drawn(start_a, a.0, a.1, a.2);
    let first_b = drawn(start_b, b.0, b.1, b.2);
    let second_b = Frame { canvas: first_a.canvas, depths: first_a.depths, shader: with_b };
    let second_a = Frame { canvas: first_b.canvas, depths: first_b.depths, shader: with_a };
    lemma_draw_stays_in_frame(start_a, a.0, a.1, a.2);
    lemma_draw_stays_in_frame(start_b, b.0, b.1, b.2);
    lemma_draw_settles_depths(start_a, a.0, a.1, a.2, x, y);
    lemma_draw_settles_depths(start_b, b.0, b.1, b.2, x, y);
    lemma_draw_settles_every_color(start_a, a.0, a.1, a.2, x, y);
    lemma_draw_settles_every_color(start_b, b.0, b.1, b.2, x, y);
    assert(first_a.canvas.index_of(x, y) == canvas.index_of(x, y));
    assert(first_b.canvas.index_of(x, y) == canvas.index_of(x, y));
    assert(first_a.canvas.addressable(x, y));
    assert(first_b.canvas.addressable(x, y));
    lemma_draw_settles_every_color(second_b, b.0, b.1, b.2, x, y);
    lemma_draw_settles_every_color(second_a, a.0, a.1, a.2, x, y);
    assert(with_a.kept(barycentric_of(a.0, a.1, a.2, pixel_center::<T>(x, y)), black()));
    assert(with_b.kept(barycentric_of(b.0, b.1, b.2, pixel_center::<T>(x, y)), black()));
}

/// A triangle whose bounding box holds no pixel of the frame leaves the frame
/// as it is.
pub proof fn lemma_triangle_outside_draws_nothing<T: Scalar, S: Shader<T>>(
    frame: Frame<T, S>,
    v0: Vec3<T>,
    v1: Vec3<T>,
    v2: Vec3<T>,
)
    requires
        ({
            let area = bounding_box_of(
                v0,
                v1,
                v2,
                frame.canvas.width as usize,
                frame.canvas.height as usize,
            );
            area.x_from >= area.x_to || area.y_from >= area.y_to
        }),
    ensures
        drawn(frame, v0, v1, v2) == frame,
{
    let area = bounding_box_of(
        v0,
        v1,
        v2,
        frame.canvas.width as usize,
        frame.canvas.height as usize,
    );
    assert(area.count() == 0) by (nonlinear_arith)
        requires
            area.columns() == 0 || area.rows() == 0,
            area.count() == area.columns() * area.rows(),
    ;
}

/// The order of the scalars is a strict total order: no scalar lies below
/// itself, of two different scalars one lies below the other, and what lies
/// below a scalar lies below all that it lies below.
pub open spec fn order_is_total<T: Scalar>() -> bool {
    &&& forall|a: T| !(#[trigger] a.less(a))
    &&& forall|a: T, b: T| #[trigger] a.less(b) || b.less(a) || a == b
    &&& forall|a: T, b: T, c: T| #[trigger] a.less(b) && #[trigger] b.less(c) ==> a.less(c)
}

/// Where the scalars are in a strict total order, the depth that two draws
/// leave for a pixel does not depend on which triangle is drawn first.
pub proof fn lemma_depths_do_not_depend_on_draw_order<T: Scalar, S: Shader<T>>(
    frame: Frame<T, S>,
    a: (Vec3<T>, Vec3<T>, Vec3<T>),
    b: (Vec3<T>, Vec3<T>, Vec3<T>),
    x: int,
    y: int,
)
    requires
        order_is_total::<T>(),
        0 <= x < frame.canvas.width,
        0 <= y < frame.canvas.height,
        frame.depths.len() == frame.canvas.width * frame.canvas.height,
    ensures
        drawn(drawn(frame, a.0, a.1, a.2), b.0, b.1, b.2).depths[depth_index(
            x,
            y,
            frame.canvas.width,
        )] == drawn(drawn(frame, b.0, b.1, b.2), a.0, a.1, a.2).depths[depth_index(
            x,
            y,
            frame.canvas.width,
        )],
{
    let first_a = drawn(frame, a.0, a.1, a.2);
    let first_b = drawn(frame, b.0, b.1, b.2);
    lemma_draw_stays_in_frame(frame, a.0, a.1, a.2);
    lemma_draw_stays_in_frame(frame, b.0, b.1, b.2);
    lemma_draw_settles_depths(frame, a.0, a.1, a.2, x, y);
    lemma_draw_settles_depths(frame, b.0, b.1, b.2, x, y);
    lemma_draw_settles_depths(first_a, b.0, b.1, b.2, x, y);
    lemma_draw_settles_depths(first_b, a.0, a.1, a.2, x, y);
}

/// The strict order of the scalars is strict: no scalar lies below itself.
pub open spec fn order_is_strict<T: Scalar>() -> bool {
    forall|a: T| !(#[trigger] a.less(a))
}

/// Once a pixel inside the triangle has been looked at, the depth stored for
/// it is never again below the triangle's depth there, for the rest of the
/// scan.
pub proof fn lemma_depth_settles<T: Scalar, S: Shader<T>>(
    frame: Frame<T, S>,
    v0: Vec3<T>,
    v1: Vec3<T>,
    v2: Vec3<T>,
    area: PixelBox,
    k: nat,
    m: nat,
)
    requires
        order_is_strict::<T>(),
        k < m <= area.count(),
        frame.depths.len() == frame.canvas.width * frame.canvas.height,
        ({
            let (x, y) = area.pixel(k as int);
            0 <= x < frame.canvas.width && 0 <= y < frame.canvas.height
        }),
    ensures
        ({
            let (x, y) = area.pixel(k as int);
            let bc = barycentric_of(v0, v1, v2, pixel_center::<T>(x, y));
            let i = depth_index(x, y, frame.canvas.width);
            let after = scanned(frame, v0, v1, v2, area, m);
            !outside(bc) ==> !after.depths[i].less(depth_of(v0, v1, v2, bc))
        }),
{
    let (x, y) = area.pixel(k as int);
    let z = depth_of(v0, v1, v2, barycentric_of(v0, v1, v2, pixel_center::<T>(x, y)));
    lemma_scan_settles_depths(frame, v0, v1, v2, area, m, k as int);
    assert(!z.less(z));
}

/// Looking at the pixels of a finished scan once more changes nothing: no
/// fragment finds a depth strictly below its own.
pub proof fn lemma_second_scan_changes_nothing<T: Scalar, S: Shader<T>>(
    frame: Frame<T, S>,
    v0: Vec3<T>,
    v1: Vec3<T>,
    v2: Vec3<T>,
    area: PixelBox,
    n: nat,
)
    requires
        order_is_strict::<T>(),
        n <= area.count(),
        frame.depths.len() == frame.canvas.width * frame.canvas.height,
    ensures
        scanned(scanned(frame, v0, v1, v2, area, area.count()), v0, v1, v2, area, n) == scanned(
            frame,
            v0,
            v1,
            v2,
            area,
            area.count(),
        ),
    decreases n,
{
    if n > 0 {
        let done = scanned(frame, v0, v1, v2, area, area.count());
        lemma_second_scan_changes_nothing(frame, v0, v1, v2, area, (n - 1) as nat);
        lemma_scan_stays_in_box(frame, v0, v1, v2, area, area.count());
        let (x, y) = area.pixel(n - 1);
        if 0 <= x < frame.canvas.width && 0 <= y < frame.canvas.height {
            lemma_depth_settles(frame, v0, v1, v2, area, (n - 1) as nat, area.count());
        }
        assert(shade_pixel(done, v0, v1, v2, x, y) == done);
    }
}

/// Drawing the same triangle a second time changes nothing: the canvas, the
/// depth buffer and the shader are as the first draw left them, whether or
/// not the shader kept its fragments.
pub proof fn lemma_draw_twice_is_draw_once<T: Scalar, S: Shader<T>>(
    frame: Frame<T, S>,
    v0: Vec3<T>,
    v1: Vec3<T>,
    v2: Vec3<T>,
)
    requires
        order_is_strict::<T>(),
        frame.depths.len() == frame.canvas.width * frame.canvas.height,
    ensures
        drawn(drawn(frame, v0, v1, v2), v0, v1, v2) == drawn(frame, v0, v1, v2),
{
    let area = bounding_box_of(
        v0,
        v1,
        v2,
        frame.canvas.width as usize,
        frame.canvas.height as usize,
    );
    lemma_scan_stays_in_box(frame, v0, v1, v2, area, area.count());
    lemma_second_scan_changes_nothing(frame, v0, v1, v2, area, area.count());
}

} // verus!
