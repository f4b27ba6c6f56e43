//! Example shader implementations: a smooth one and a flat one.
use vstd::prelude::*;
use crate::geometry::{
    column_of, m_mul_v, m_put_col, product_entries, rows_times, with_column, Matrix, Vec3,
};
use crate::image::{Bitmap, Color, Image};
use crate::model::{Mesh, Model};
use crate::render::{barycentric_of, depth_of, has_face, outside, pixel_center, Shader};
use crate::scalar::{larger, max, zero, Scalar};
use crate::scan::{settled_color, shader_is_steady, shader_keeps_all};

verus! {

/// A classic smooth shader!
/// https://en.wikipedia.org/wiki/Gouraud_shading
pub struct GouraudShader<'a, T: Scalar> {
    model: &'a Model<T>,
    screen_transform: &'a Matrix<T>,
    diffuse_texture: &'a Image,
    light: Vec3<T>,
    varying_intensity: Vec3<T>,
    varying_uv: Matrix<T>,
}

/// One colour channel scaled by `intensity`: cut down to a whole number and
/// held at 255.
pub open spec fn lit<T: Scalar>(channel: u8, intensity: T) -> u8 {
    let scaled = T::of_index(channel as usize).product(intensity).to_index();
    if scaled > 255 {
        255u8
    } else {
        scaled as u8
    }
}

/// Scales one colour channel by `intensity`.
pub fn light_channel<T: Scalar>(channel: u8, intensity: T) -> (r: u8)
    ensures
        r == lit(channel, intensity),
{
    let scaled: usize = T::from_usize(channel as usize).mul(intensity).to_usize();
    if scaled > 255 {
        255
    } else {
        scaled as u8
    }
}

impl<'a, T: Scalar> GouraudShader<'a, T> {
    #[verifier::type_invariant]
    spec fn inv(self) -> bool {
        self.screen_transform.is(4, 4) && self.varying_uv.is(2, 3)
    }

    /// The mesh that is drawn.
    pub closed spec fn mesh(&self) -> Mesh<T> {
        self.model@
    }

    /// The entries of the matrix that takes a vertex to the screen.
    pub closed spec fn transform(&self) -> Seq<Seq<T>> {
        self.screen_transform@
    }

    /// The texture that gives the fragments their colour.
    pub closed spec fn texture(&self) -> Bitmap {
        self.diffuse_texture@
    }

    /// The direction that the light comes from.
    pub closed spec fn light(&self) -> Vec3<T> {
        self.light
    }

    /// The light intensity cached for each corner of the current triangle.
    pub closed spec fn intensities(&self) -> Vec3<T> {
        self.varying_intensity
    }

    /// The texture coordinates cached for the corners of the current
    /// triangle: one column for each corner, `u` in the first row, `v` in the
    /// second.
    pub closed spec fn uvs(&self) -> Seq<Seq<T>> {
        self.varying_uv@
    }

    /// Can face `face_i` be drawn: does the model hold its three corners,
    /// with all that they refer to?
    pub fn can_draw(&self, face_i: usize) -> (able: bool)
        ensures
            able == (self.has_vertex(face_i, 0) && self.has_vertex(face_i, 1) && self.has_vertex(
                face_i,
                2,
            )),
            able ==> has_face::<T, GouraudShader<'a, T>>(*self, face_i),
    {
        self.model.has_corner(face_i, 0) && self.model.has_corner(face_i, 1)
            && self.model.has_corner(face_i, 2)
    }

    pub fn new(
        model: &'a Model<T>,
        screen_transform: &'a Matrix<T>,
        diffuse_texture: &'a Image,
        light: Vec3<T>,
    ) -> (shader: GouraudShader<'a, T>)
        requires
            screen_transform.is(4, 4),
        ensures
            shader.mesh() == model@,
            shader.transform() == screen_transform@,
            shader.texture() == diffuse_texture@,
            shader.light() == light,
            shader.intensities() == (Vec3 { x: zero::<T>(), y: zero::<T>(), z: zero::<T>() }),
            shader.uvs() == Seq::new(2, |i: int| Seq::new(3, |j: int| zero::<T>())),
    {
        GouraudShader {
            model,
            screen_transform,
            diffuse_texture,
            light,
            varying_intensity: Vec3::zero(),
            varying_uv: Matrix::new(2, 3),
        }
    }
}

impl<T: Scalar> Shader<T> for GouraudShader<'_, T> {
    open spec fn has_vertex(&self, face_i: usize, vert_i: usize) -> bool {
        &&& self.mesh().has_vert(face_i as int, vert_i as int)
        &&& self.mesh().has_uv(face_i as int, vert_i as int)
        &&& self.mesh().has_norm(face_i as int, vert_i as int)
    }

    /// The corner's vertex, taken to the screen.
    open spec fn position(&self, face_i: usize, vert_i: usize) -> Vec3<T> {
        let mesh = self.mesh();
        let vertex = mesh.verts[mesh.faces[face_i as int].verts.component(vert_i as int) as int];
        Vec3::from_column(product_entries(self.transform(), column_of(vertex), 1))
    }

    /// The corner's texture coordinate is cached, and the light that falls on
    /// its normal, which is no less than zero. Nothing else changes.
    open spec fn vertex_leaves(&self, face_i: usize, vert_i: usize, after: Self) -> bool {
        let mesh = self.mesh();
        let face = mesh.faces[face_i as int];
        let normal = mesh.norms[face.norms.component(vert_i as int) as int];
        let uv = mesh.uvs[face.uvs.component(vert_i as int) as int];
        &&& after.mesh() == mesh
        &&& after.transform() == self.transform()
        &&& after.texture() == self.texture()
        &&& after.light() == self.light()
        &&& after.intensities() == self.intensities().with_component(
            vert_i as int,
            larger(normal.dot(self.light()), zero()),
        )
        &&& after.uvs() == with_column(self.uvs(), vert_i as int, uv)
    }

    /// The texture's colour under the interpolated texture coordinate, each
    /// channel scaled by the interpolated light intensity.
    open spec fn shaded(&self, bar: Vec3<T>, color: Color) -> Color {
        let intensity = self.intensities().dot(bar);
        let uv = rows_times(self.uvs(), bar);
        let diffuse = self.texture().sampled(uv.x, uv.y);
        [lit(diffuse[0], intensity), lit(diffuse[1], intensity), lit(diffuse[2], intensity)]
    }

    /// Every fragment is drawn.
    open spec fn kept(&self, bar: Vec3<T>, color: Color) -> bool {
        true
    }

    /// Shading a fragment leaves the shader as it is.
    open spec fn after_fragment(&self, bar: Vec3<T>, color: Color) -> Self {
        *self
    }

    fn vertex(&mut self, face_i: usize, vert_i: usize) -> (position: Vec3<T>) {
        proof {
            use_type_invariant(&*self);
        }
        let intensity = self.model.fnorm(face_i, vert_i) * self.light;
        m_put_col(&mut self.varying_uv, vert_i, self.model.fuv(face_i, vert_i));
        self.varying_intensity.set(vert_i, max(intensity, T::from_usize(0)));
        let vert_m = Matrix::from_v(self.model.fvert(face_i, vert_i));
        let transformed = self.screen_transform.times(&vert_m);
        Vec3::from_m(&transformed)
    }

    fn fragment(&mut self, coords: Vec3<T>, color: &mut Color) -> (keep: bool) {
        proof {
            use_type_invariant(&*self);
        }
        let intensity = self.varying_intensity * coords;
        let uv = m_mul_v(&self.varying_uv, coords);
        let diffuse = self.diffuse_texture.get_unit(uv.x, uv.y);
        let lit: Color = [
            light_channel(diffuse[0], intensity),
            light_channel(diffuse[1], intensity),
            light_channel(diffuse[2], intensity),
        ];
        *color = lit;
        assert(*color =~= old(self).shaded(coords, *old(color)));
        true  // render fragment
    }
}

/// Shading a fragment leaves a Gouraud shader as it is, and it keeps every
/// fragment: what holds of draws with such a shader holds of draws with this
/// one.
pub proof fn lemma_gouraud_shader_is_steady<T: Scalar>(shader: GouraudShader<'_, T>)
    ensures
        shader_is_steady::<T, GouraudShader<'_, T>>(shader),
        shader_keeps_all::<T, GouraudShader<'_, T>>(shader),
{
}

/// The plainest shader: every fragment gets one colour, whatever the light.
pub struct FlatShader<'a, T: Scalar> {
    model: &'a Model<T>,
    screen_transform: &'a Matrix<T>,
    color: Color,
}

impl<'a, T: Scalar> FlatShader<'a, T> {
    #[verifier::type_invariant]
    spec fn inv(self) -> bool {
        self.screen_transform.is(4, 4)
    }

    /// The mesh that is drawn.
    pub closed spec fn mesh(&self) -> Mesh<T> {
        self.model@
    }

    /// The entries of the matrix that takes a vertex to the screen.
    pub closed spec fn transform(&self) -> Seq<Seq<T>> {
        self.screen_transform@
    }

    /// The colour that every fragment gets.
    pub closed spec fn color(&self) -> Color {
        self.color
    }

    pub fn new(model: &'a Model<T>, screen_transform: &'a Matrix<T>, color: Color) -> (shader:
        FlatShader<'a, T>)
        requires
            screen_transform.is(4, 4),
        ensures
            shader.mesh() == model@,
            shader.transform() == screen_transform@,
            shader.color() == color,
    {
        FlatShader { model, screen_transform, color }
    }

    /// Can face `face_i` be drawn: does the model hold the vertices of its
    /// three corners?
    pub fn can_draw(&self, face_i: usize) -> (able: bool)
        ensures
            able == (self.has_vertex(face_i, 0) && self.has_vertex(face_i, 1) && self.has_vertex(
                face_i,
                2,
            )),
            able ==> has_face::<T, FlatShader<'a, T>>(*self, face_i),
    {
        self.model.has_vertex(face_i, 0) && self.model.has_vertex(face_i, 1)
            && self.model.has_vertex(face_i, 2)
    }
}

impl<T: Scalar> Shader<T> for FlatShader<'_, T> {
    open spec fn has_vertex(&self, face_i: usize, vert_i: usize) -> bool {
        self.mesh().has_vert(face_i as int, vert_i as int)
    }

    /// The corner's vertex, taken to the screen.
    open spec fn position(&self, face_i: usize, vert_i: usize) -> Vec3<T> {
        let mesh = self.mesh();
        let vertex = mesh.verts[mesh.faces[face_i as int].verts.component(vert_i as int) as int];
        Vec3::from_column(product_entries(self.transform(), column_of(vertex), 1))
    }

    /// The vertex stage leaves the shader as it is.
    open spec fn vertex_leaves(&self, face_i: usize, vert_i: usize, after: Self) -> bool {
        after == *self
    }

    /// The one colour.
    open spec fn shaded(&self, bar: Vec3<T>, color: Color) -> Color {
        self.color()
    }

    /// Every fragment is drawn.
    open spec fn kept(&self, bar: Vec3<T>, color: Color) -> bool {
        true
    }

    /// Shading a fragment leaves the shader as it is.
    open spec fn after_fragment(&self, bar: Vec3<T>, color: Color) -> Self {
        *self
    }

    fn vertex(&mut self, face_i: usize, vert_i: usize) -> (position: Vec3<T>) {
        proof {
            use_type_invariant(&*self);
        }
        let vert_m = Matrix::from_v(self.model.fvert(face_i, vert_i));
        let transformed = self.screen_transform.times(&vert_m);
        Vec3::from_m(&transformed)
    }

    fn fragment(&mut self, coords: Vec3<T>, color: &mut Color) -> (keep: bool) {
        *color = self.color;
        true
    }
}

/// Shading a fragment leaves a flat shader as it is, and it keeps every
/// fragment: what holds of draws with such a shader holds of draws with this
/// one. After a draw, a pixel
/// of the bounding box has the shader's colour if its centre is not outside
/// the triangle and its depth lay strictly below the triangle's, and the
/// colour it had before if not.
pub proof fn lemma_flat_shader_is_steady<T: Scalar>(shader: FlatShader<'_, T>)
    ensures
        shader_is_steady::<T, FlatShader<'_, T>>(shader),
        shader_keeps_all::<T, FlatShader<'_, T>>(shader),
        forall|buffered: T, stored: Color, v0: Vec3<T>, v1: Vec3<T>, v2: Vec3<T>, x: int, y: int|
            #[trigger] settled_color(shader, buffered, stored, v0, v1, v2, x, y) == if !outside(
                barycentric_of(v0, v1, v2, pixel_center::<T>(x, y)),
            ) && buffered.less(
                depth_of(v0, v1, v2, barycentric_of(v0, v1, v2, pixel_center::<T>(x, y))),
            ) {
                shader.color()
            } else {
                stored
            },
{
}

} // verus!
