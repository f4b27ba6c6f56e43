//! Modeling 3D objects, and reading [Wavefront .obj] files.
//!
//! [Wavefront .obj]: https://en.wikipedia.org/wiki/Wavefront_.obj_file
use vstd::prelude::*;
use vstd::slice::slice_subrange;
use crate::geometry::Vec3;
use crate::scalar::Scalar;
use crate::text::{
    after_field, field, field_end, lemma_field_end, next_field, parse_whole_number, whole_number,
    find_field_end,
};

verus! {

/// A face references vertices, texture uv coords, and normals by index
pub struct Face {
    pub verts: Vec3<usize>,
    pub uvs: Vec3<usize>,
    pub norms: Vec3<usize>,
}

/// A model has a bunch of faces (triangles), see Face for what data they contain.
/// The face data lives in the model, since multiple faces share data.
pub struct Model<T> {
    verts: Vec<Vec3<T>>,
    uvs: Vec<Vec3<T>>,
    norms: Vec<Vec3<T>>,
    faces: Vec<Face>,
}

/// What a [`Model`] holds, as mathematics.
pub ghost struct Mesh<T> {
    pub verts: Seq<Vec3<T>>,
    pub uvs: Seq<Vec3<T>>,
    pub norms: Seq<Vec3<T>>,
    pub faces: Seq<Face>,
}

/// Why a text is not a Wavefront .obj file that this reader takes.
#[derive(Debug, Clone, Copy, PartialEq, Eq, Structural)]
pub enum ObjError {
    /// A line ends before all its numbers are given.
    MissingField,
    /// A field does not hold a number.
    BadNumber,
    /// A face refers to the element number zero; the numbers start at one.
    ZeroIndex,
}

/// What one line of a Wavefront .obj file says.
pub enum Record<T> {
    /// `v`: a vertex position.
    Vertex(Vec3<T>),
    /// `vt`: a texture coordinate.
    TexCoord(Vec3<T>),
    /// `vn`: a vertex normal.
    Normal(Vec3<T>),
    /// `f`: a triangle.
    Triangle(Face),
    /// Anything else; it is passed over.
    Other,
}

/// The byte that separates the fields of a line.
pub const SPACE: u8 = 0x20;

/// The byte that separates the numbers of a face's corner.
pub const SLASH: u8 = 0x2f;

/// The byte that ends a line.
pub const NEWLINE: u8 = 0x0a;

/// The byte that may stand before the one that ends a line.
pub const RETURN: u8 = 0x0d;

/// The number in the field of `line` at `cursor`.
pub open spec fn number_at<T: Scalar>(line: Seq<u8>, cursor: Option<usize>) -> Result<T, ObjError> {
    match field(line, cursor, SPACE) {
        None => Err(ObjError::MissingField),
        Some(text) => match T::parsed(text) {
            None => Err(ObjError::BadNumber),
            Some(value) => Ok(value),
        },
    }
}

/// The three numbers in the fields of `line` from `cursor` on.
pub open spec fn triple_at<T: Scalar>(line: Seq<u8>, cursor: Option<usize>) -> Result<
    Vec3<T>,
    ObjError,
> {
    let second = after_field(line, cursor, SPACE);
    let third = after_field(line, second, SPACE);
    match number_at::<T>(line, cursor) {
        Err(e) => Err(e),
        Ok(x) => match number_at::<T>(line, second) {
            Err(e) => Err(e),
            Ok(y) => match number_at::<T>(line, third) {
                Err(e) => Err(e),
                Ok(z) => Ok(Vec3 { x, y, z }),
            },
        },
    }
}

/// The whole number in the field of `corner` at `cursor`.
pub open spec fn index_at(corner: Seq<u8>, cursor: Option<usize>) -> Result<usize, ObjError> {
    match field(corner, cursor, SLASH) {
        None => Err(ObjError::MissingField),
        Some(text) => match whole_number(text) {
            None => Err(ObjError::BadNumber),
            Some(value) => Ok(value),
        },
    }
}

/// The three whole numbers of a face's corner, as the file counts them:
/// vertex, texture coordinate, normal.
pub open spec fn corner_of(corner: Seq<u8>) -> Result<Vec3<usize>, ObjError> {
    let second = after_field(corner, Some(0usize), SLASH);
    let third = after_field(corner, second, SLASH);
    match index_at(corner, Some(0usize)) {
        Err(e) => Err(e),
        Ok(x) => match index_at(corner, second) {
            Err(e) => Err(e),
            Ok(y) => match index_at(corner, third) {
                Err(e) => Err(e),
                Ok(z) => Ok(Vec3 { x, y, z }),
            },
        },
    }
}

/// The face with the corners `a`, `b`, `c`. The file counts from one, the
/// face from zero.
pub open spec fn face_of(a: Vec3<usize>, b: Vec3<usize>, c: Vec3<usize>) -> Result<
    Face,
    ObjError,
> {
    if a.x == 0 || b.x == 0 || c.x == 0 || a.y == 0 || b.y == 0 || c.y == 0 || a.z == 0 || b.z
        == 0 || c.z == 0 {
        Err(ObjError::ZeroIndex)
    } else {
        Ok(
            Face {
                verts: Vec3 { x: (a.x - 1) as usize, y: (b.x - 1) as usize, z: (c.x - 1) as usize },
                uvs: Vec3 { x: (a.y - 1) as usize, y: (b.y - 1) as usize, z: (c.y - 1) as usize },
                norms: Vec3 {
                    x: (a.z - 1) as usize,
                    y: (b.z - 1) as usize,
                    z: (c.z - 1) as usize,
                },
            },
        )
    }
}

/// The face whose three corners stand in the fields of `line` from `cursor`
/// on. All three fields must be there before any is read.
pub open spec fn face_at(line: Seq<u8>, cursor: Option<usize>) -> Result<Face, ObjError> {
    let second = after_field(line, cursor, SPACE);
    let third = after_field(line, second, SPACE);
    match (field(line, cursor, SPACE), field(line, second, SPACE), field(line, third, SPACE)) {
        (Some(a), Some(b), Some(c)) => match corner_of(a) {
            Err(e) => Err(e),
            Ok(a) => match corner_of(b) {
                Err(e) => Err(e),
                Ok(b) => match corner_of(c) {
                    Err(e) => Err(e),
                    Ok(c) => face_of(a, b, c),
                },
            },
        },
        _ => Err(ObjError::MissingField),
    }
}

/// What `line` says. Texture coordinates and normals have one field between
/// the keyword and the numbers that is passed over.
pub open spec fn record_of<T: Scalar>(line: Seq<u8>) -> Result<Record<T>, ObjError> {
    let keyword = field(line, Some(0usize), SPACE).unwrap();
    let first = after_field(line, Some(0usize), SPACE);
    let second = after_field(line, first, SPACE);
    if keyword == seq![0x76u8] {
        match triple_at::<T>(line, first) {
            Err(e) => Err(e),
            Ok(v) => Ok(Record::Vertex(v)),
        }
    } else if keyword == seq![0x76u8, 0x74u8] {
        match triple_at::<T>(line, second) {
            Err(e) => Err(e),
            Ok(v) => Ok(Record::TexCoord(v)),
        }
    } else if keyword == seq![0x76u8, 0x6eu8] {
        match triple_at::<T>(line, second) {
            Err(e) => Err(e),
            Ok(v) => Ok(Record::Normal(v)),
        }
    } else if keyword == seq![0x66u8] {
        match face_at(line, first) {
            Err(e) => Err(e),
            Ok(face) => Ok(Record::Triangle(face)),
        }
    } else {
        Ok(Record::Other)
    }
}

impl<T> Mesh<T> {
    /// The mesh without anything in it.
    pub open spec fn empty() -> Mesh<T> {
        Mesh { verts: Seq::empty(), uvs: Seq::empty(), norms: Seq::empty(), faces: Seq::empty() }
    }

    /// The mesh with what `record` holds added at the end of its kind.
    pub open spec fn with_record(self, record: Record<T>) -> Mesh<T> {
        match record {
            Record::Vertex(v) => Mesh { verts: self.verts.push(v), ..self },
            Record::TexCoord(v) => Mesh { uvs: self.uvs.push(v), ..self },
            Record::Normal(v) => Mesh { norms: self.norms.push(v), ..self },
            Record::Triangle(face) => Mesh { faces: self.faces.push(face), ..self },
            Record::Other => self,
        }
    }

    /// Corner `v` of face `f` exists, and so does the vertex it refers to.
    pub open spec fn has_vert(self, f: int, v: int) -> bool {
        0 <= f < self.faces.len() && 0 <= v < 3 && self.faces[f].verts.component(v)
            < self.verts.len()
    }

    /// Corner `v` of face `f` exists, and so does the texture coordinate it
    /// refers to.
    pub open spec fn has_uv(self, f: int, v: int) -> bool {
        0 <= f < self.faces.len() && 0 <= v < 3 && self.faces[f].uvs.component(v) < self.uvs.len()
    }

    /// Corner `v` of face `f` exists, and so does the normal it refers to.
    pub open spec fn has_norm(self, f: int, v: int) -> bool {
        0 <= f < self.faces.len() && 0 <= v < 3 && self.faces[f].norms.component(v)
            < self.norms.len()
    }
}

/// The line of `data` that starts at `at`: up to the end of `data` or the
/// next newline, without a carriage return in front of that newline.
pub open spec fn line_at(data: Seq<u8>, at: int) -> Seq<u8> {
    let end = field_end(data, at, NEWLINE);
    if end < data.len() && at < end && data[end - 1] == RETURN {
        data.subrange(at, end - 1)
    } else {
        data.subrange(at, end)
    }
}

/// The mesh that grows out of `mesh` by the lines of `data` from `at` on, or
/// what is wrong with the first line that cannot be read.
pub open spec fn parse_from<T: Scalar>(data: Seq<u8>, at: int, mesh: Mesh<T>) -> Result<
    Mesh<T>,
    ObjError,
>
    decreases data.len() + 1 - at,
    via parse_from_decreases::<T>
{
    if at < 0 || at >= data.len() {
        Ok(mesh)
    } else {
        match record_of::<T>(line_at(data, at)) {
            Err(e) => Err(e),
            Ok(record) => parse_from(
                data,
                field_end(data, at, NEWLINE) + 1,
                mesh.with_record(record),
            ),
        }
    }
}

#[via_fn]
proof fn parse_from_decreases<T: Scalar>(data: Seq<u8>, at: int, mesh: Mesh<T>) {
    if 0 <= at < data.len() {
        lemma_field_end(data, at, NEWLINE);
    }
}

/// The mesh that the Wavefront .obj text `data` describes.
pub open spec fn parse_obj<T: Scalar>(data: Seq<u8>) -> Result<Mesh<T>, ObjError> {
    parse_from(data, 0, Mesh::empty())
}

/// Reads the number in the next field of `line`.
fn read_number<T: Scalar>(line: &[u8], cursor: &mut Option<usize>) -> (number: Result<T, ObjError>)
    requires
        *old(cursor) matches Some(at) ==> at <= line@.len(),
    ensures
        number == number_at::<T>(line@, *old(cursor)),
        *final(cursor) == after_field(line@, *old(cursor), SPACE),
        *final(cursor) matches Some(at) ==> at <= line@.len(),
{
    match next_field(line, cursor, SPACE) {
        None => Err(ObjError::MissingField),
        Some(text) => match T::parse(text) {
            None => Err(ObjError::BadNumber),
            Some(value) => Ok(value),
        },
    }
}

/// Reads the numbers in the next three fields of `line`.
fn read_triple<T: Scalar>(line: &[u8], cursor: Option<usize>) -> (triple: Result<Vec3<T>, ObjError>)
    requires
        cursor matches Some(at) ==> at <= line@.len(),
    ensures
        triple == triple_at::<T>(line@, cursor),
{
    let mut cursor = cursor;
    let x = match read_number::<T>(line, &mut cursor) {
        Err(e) => {
            return Err(e);
        },
        Ok(x) => x,
    };
    let y = match read_number::<T>(line, &mut cursor) {
        Err(e) => {
            return Err(e);
        },
        Ok(y) => y,
    };
    let z = match read_number::<T>(line, &mut cursor) {
        Err(e) => {
            return Err(e);
        },
        Ok(z) => z,
    };
    Ok(Vec3 { x, y, z })
}

/// Reads the whole number in the next field of `corner`.
fn read_index(corner: &[u8], cursor: &mut Option<usize>) -> (index: Result<usize, ObjError>)
    requires
        *old(cursor) matches Some(at) ==> at <= corner@.len(),
    ensures
        index == index_at(corner@, *old(cursor)),
        *final(cursor) == after_field(corner@, *old(cursor), SLASH),
        *final(cursor) matches Some(at) ==> at <= corner@.len(),
{
    match next_field(corner, cursor, SLASH) {
        None => Err(ObjError::MissingField),
        Some(text) => match parse_whole_number(text) {
            None => Err(ObjError::BadNumber),
            Some(value) => Ok(value),
        },
    }
}

/// Reads the three whole numbers of a face's corner.
fn read_corner(corner: &[u8]) -> (numbers: Result<Vec3<usize>, ObjError>)
    ensures
        numbers == corner_of(corner@),
{
    let mut cursor: Option<usize> = Some(0);
    let x = match read_index(corner, &mut cursor) {
        Err(e) => {
            return Err(e);
        },
        Ok(x) => x,
    };
    let y = match read_index(corner, &mut cursor) {
        Err(e) => {
            return Err(e);
        },
        Ok(y) => y,
    };
    let z = match read_index(corner, &mut cursor) {
        Err(e) => {
            return Err(e);
        },
        Ok(z) => z,
    };
    Ok(Vec3 { x, y, z })
}

/// Reads the face whose corners stand in the next three fields of `line`.
fn read_face(line: &[u8], cursor: Option<usize>) -> (face: Result<Face, ObjError>)
    requires
        cursor matches Some(at) ==> at <= line@.len(),
    ensures
        face == face_at(line@, cursor),
{
    let mut cursor = cursor;
    let a = next_field(line, &mut cursor, SPACE);
    let b = next_field(line, &mut cursor, SPACE);
    let c = next_field(line, &mut cursor, SPACE);
    let (a, b, c) = match (a, b, c) {
        (Some(a), Some(b), Some(c)) => (a, b, c),
        _ => {
            return Err(ObjError::MissingField);
        },
    };
    let a = match read_corner(a) {
        Err(e) => {
            return Err(e);
        },
        Ok(a) => a,
    };
    let b = match read_corner(b) {
        Err(e) => {
            return Err(e);
        },
        Ok(b) => b,
    };
    let c = match read_corner(c) {
        Err(e) => {
            return Err(e);
        },
        Ok(c) => c,
    };
    if a.x == 0 || b.x == 0 || c.x == 0 || a.y == 0 || b.y == 0 || c.y == 0 || a.z == 0 || b.z == 0
        || c.z == 0 {
        return Err(ObjError::ZeroIndex);
    }
    // in wavefront obj all indices start at 1, not zero
    Ok(
        Face {
            verts: Vec3::new(a.x - 1, b.x - 1, c.x - 1),
            uvs: Vec3::new(a.y - 1, b.y - 1, c.y - 1),
            norms: Vec3::new(a.z - 1, b.z - 1, c.z - 1),
        },
    )
}

/// Reads one line of a Wavefront .obj file.
pub fn parse_line<T: Scalar>(line: &[u8]) -> (record: Result<Record<T>, ObjError>)
    ensures
        record == record_of::<T>(line@),
{
    let mut cursor: Option<usize> = Some(0);
    let keyword = match next_field(line, &mut cursor, SPACE) {
        Some(keyword) => keyword,
        None => {
            return Ok(Record::Other);
        },
    };
    if keyword.len() == 1 && keyword[0] == 0x76 {
        assert(keyword@ =~= seq![0x76u8]);
        match read_triple::<T>(line, cursor) {
            Err(e) => Err(e),
            Ok(v) => Ok(Record::Vertex(v)),
        }
    } else if keyword.len() == 2 && keyword[0] == 0x76 && (keyword[1] == 0x74 || keyword[1]
        == 0x6e) {
        // skip an extra space
        let _ = next_field(line, &mut cursor, SPACE);
        if keyword[1] == 0x74 {
            assert(keyword@ =~= seq![0x76u8, 0x74u8]);
            match read_triple::<T>(line, cursor) {
                Err(e) => Err(e),
                Ok(v) => Ok(Record::TexCoord(v)),
            }
        } else {
            assert(keyword@ =~= seq![0x76u8, 0x6eu8]);
            assert(keyword@ != seq![0x76u8, 0x74u8]);
            match read_triple::<T>(line, cursor) {
                Err(e) => Err(e),
                Ok(v) => Ok(Record::Normal(v)),
            }
        }
    } else if keyword.len() == 1 && keyword[0] == 0x66 {
        assert(keyword@ =~= seq![0x66u8]);
        match read_face(line, cursor) {
            Err(e) => Err(e),
            Ok(face) => Ok(Record::Triangle(face)),
        }
    } else {
        assert(keyword@ != seq![0x76u8]);
        assert(keyword@ != seq![0x76u8, 0x74u8]);
        assert(keyword@ != seq![0x76u8, 0x6eu8]);
        assert(keyword@ != seq![0x66u8]);
        Ok(Record::Other)
    }
}

impl<T> View for Model<T> {
    type V = Mesh<T>;

    closed spec fn view(&self) -> Mesh<T> {
        Mesh { verts: self.verts@, uvs: self.uvs@, norms: self.norms@, faces: self.faces@ }
    }
}

impl<T: Scalar> Model<T> {
    /// Parse the given data as a Waveform .obj into a model
    pub fn from_obj(obj_data: &[u8]) -> (model: Result<Model<T>, ObjError>)
        ensures
            match model {
                Ok(m) => parse_obj::<T>(obj_data@) == Ok::<Mesh<T>, ObjError>(m@),
                Err(e) => parse_obj::<T>(obj_data@) == Err::<Mesh<T>, ObjError>(e),
            },
    {
        let mut obj_verts: Vec<Vec3<T>> = Vec::new();
        let mut obj_uvs: Vec<Vec3<T>> = Vec::new();
        let mut obj_norms: Vec<Vec3<T>> = Vec::new();
        let mut obj_faces: Vec<Face> = Vec::new();
        let len: usize = obj_data.len();
        let mut at: usize = 0;
        assert(Mesh::<T>::empty() =~= (Mesh {
            verts: obj_verts@,
            uvs: obj_uvs@,
            norms: obj_norms@,
            faces: obj_faces@,
        }));
        while at < len
            invariant
                at <= len == obj_data@.len(),
                parse_obj::<T>(obj_data@) == parse_from(
                    obj_data@,
                    at as int,
                    Mesh { verts: obj_verts@, uvs: obj_uvs@, norms: obj_norms@, faces: obj_faces@ },
                ),
            decreases len - at,
        {
            let end = find_field_end(obj_data, at, NEWLINE);
            let stop: usize = if end < len && at < end && obj_data[end - 1] == RETURN {
                end - 1
            } else {
                end
            };
            let line = slice_subrange(obj_data, at, stop);
            assert(line@ == line_at(obj_data@, at as int));
            let ghost before = Mesh {
                verts: obj_verts@,
                uvs: obj_uvs@,
                norms: obj_norms@,
                faces: obj_faces@,
            };
            let record = match parse_line::<T>(line) {
                Err(e) => {
                    return Err(e);
                },
                Ok(record) => record,
            };
            assert(parse_from(obj_data@, at as int, before) == parse_from(
                obj_data@,
                end + 1,
                before.with_record(record),
            ));
            assert(end == len ==> parse_from(obj_data@, end + 1, before.with_record(record))
                == parse_from(obj_data@, len as int, before.with_record(record)));
            match record {
                Record::Vertex(v) => obj_verts.push(v),
                Record::TexCoord(v) => obj_uvs.push(v),
                Record::Normal(v) => obj_norms.push(v),
                Record::Triangle(face) => obj_faces.push(face),
                Record::Other => {},
            }
            at = if end < len {
                end + 1
            } else {
                len
            };
        }
        Ok(Model { verts: obj_verts, uvs: obj_uvs, norms: obj_norms, faces: obj_faces })
    }

    /// get vertex by index
    pub fn vert(&self, i: usize) -> (v: Vec3<T>)
        requires
            i < self@.verts.len(),
        ensures
            v == self@.verts[i as int],
    {
        self.verts[i]
    }

    /// get the `v`th vertex of the face `f`
    pub fn fvert(&self, f: usize, v: usize) -> (vertex: Vec3<T>)
        requires
            self@.has_vert(f as int, v as int),
        ensures
            vertex == self@.verts[self@.faces[f as int].verts.component(v as int) as int],
    {
        self.verts[self.faces[f].verts[v]]
    }

    /// does corner `v` of face `f` exist, with the vertex, the texture
    /// coordinate and the normal that it refers to?
    pub fn has_corner(&self, f: usize, v: usize) -> (found: bool)
        ensures
            found == (self@.has_vert(f as int, v as int) && self@.has_uv(f as int, v as int)
                && self@.has_norm(f as int, v as int)),
    {
        if f >= self.faces.len() || v >= 3 {
            return false;
        }
        let face = &self.faces[f];
        face.verts[v] < self.verts.len() && face.uvs[v] < self.uvs.len() && face.norms[v]
            < self.norms.len()
    }

    /// does corner `v` of face `f` exist, with the vertex that it refers to?
    pub fn has_vertex(&self, f: usize, v: usize) -> (found: bool)
        ensures
            found == self@.has_vert(f as int, v as int),
    {
        if f >= self.faces.len() || v >= 3 {
            return false;
        }
        self.faces[f].verts[v] < self.verts.len()
    }

    /// how many faces are there?
    pub fn nfaces(&self) -> (n: usize)
        ensures
            n == self@.faces.len(),
    {
        self.faces.len()
    }

    /// get face by index
    pub fn face(&self, i: usize) -> (face: &Face)
        requires
            i < self@.faces.len(),
        ensures
            *face == self@.faces[i as int],
    {
        &self.faces[i]
    }

    /// walk through the faces, first to last
    pub fn faces(&self) -> (faces: std::slice::Iter<'_, Face>)
        ensures
            vstd::std_specs::slice::into_iter_elts(faces) == self@.faces,
    {
        self.faces.iter()
    }

    /// get uv coords by index
    pub fn uv(&self, i: usize) -> (uv: Vec3<T>)
        requires
            i < self@.uvs.len(),
        ensures
            uv == self@.uvs[i as int],
    {
        self.uvs[i]
    }

    /// get the `v`th uv coord of the face `f`
    pub fn fuv(&self, f: usize, v: usize) -> (uv: Vec3<T>)
        requires
            self@.has_uv(f as int, v as int),
        ensures
            uv == self@.uvs[self@.faces[f as int].uvs.component(v as int) as int],
    {
        self.uvs[self.faces[f].uvs[v]]
    }

    /// get a normal by index
    pub fn norm(&self, i: usize) -> (normal: Vec3<T>)
        requires
            i < self@.norms.len(),
        ensures
            normal == self@.norms[i as int],
    {
        self.norms[i]
    }

    /// get the `v`th normal of the face `f`
    pub fn fnorm(&self, f: usize, v: usize) -> (normal: Vec3<T>)
        requires
            self@.has_norm(f as int, v as int),
        ensures
            normal == self@.norms[self@.faces[f as int].norms.component(v as int) as int],
    {
        self.norms[self.faces[f].norms[v]]
    }
}

} // verus!
