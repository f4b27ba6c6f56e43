use tinyrenderer::geometry::Vec3;
use tinyrenderer::model::{parse_line, Face, Model, ObjError, Record};
use tinyrenderer::scalar::Scalar;
use tinyrenderer::text::{find_field_end, next_field};

#[derive(Clone, Copy, Debug, PartialEq)]
struct Real(f64);

impl Scalar for Real {
    fn from_usize(n: usize) -> Real {
        Real(n as f64)
    }

    fn to_usize(self) -> usize {
        self.0 as usize
    }

    fn add(self, rhs: Real) -> Real {
        Real(self.0 + rhs.0)
    }

    fn sub(self, rhs: Real) -> Real {
        Real(self.0 - rhs.0)
    }

    fn mul(self, rhs: Real) -> Real {
        Real(self.0 * rhs.0)
    }

    fn div(self, rhs: Real) -> Real {
        Real(self.0 / rhs.0)
    }

    fn neg(self) -> Real {
        Real(-self.0)
    }

    fn sqrt(self) -> Real {
        Real(self.0.sqrt())
    }

    fn lt(self, rhs: Real) -> bool {
        self.0 < rhs.0
    }

    fn parse(text: &[u8]) -> Option<Real> {
        std::str::from_utf8(text).ok()?.parse().ok().map(Real)
    }
}

fn v(x: f64, y: f64, z: f64) -> Vec3<Real> {
    Vec3::new(Real(x), Real(y), Real(z))
}

fn triple(v: Vec3<Real>) -> (f64, f64, f64) {
    (v.x.0, v.y.0, v.z.0)
}

fn indices(v: Vec3<usize>) -> (usize, usize, usize) {
    (v.x, v.y, v.z)
}

fn face(f: &Face) -> [(usize, usize, usize); 3] {
    [indices(f.verts), indices(f.uvs), indices(f.norms)]
}

fn line(text: &str) -> Result<Record<Real>, ObjError> {
    parse_line::<Real>(text.as_bytes())
}

fn refused(text: &str) -> ObjError {
    match line(text) {
        Err(e) => e,
        Ok(_) => panic!("{:?} is taken", text),
    }
}

const SQUARE: &str = "# a square\n\
v 0 0 0\n\
v 1 0 0\r\n\
v 1 1 0.5\n\
v 0 1 -2.5e-1\n\
\n\
vt  0.0 0.0 0.0\n\
vt  1.0 0.0 0.0\n\
vt  1.0 1.0 0.0\n\
vn  0 0 1\n\
g square\n\
f 1/1/1 2/2/1 3/3/1\n\
f 1/1/1 3/3/1 4/2/1";

#[test]
fn square_is_read() {
    let model = Model::<Real>::from_obj(SQUARE.as_bytes()).ok().unwrap();
    assert_eq!(model.nfaces(), 2);
    assert_eq!(triple(model.vert(2)), (1.0, 1.0, 0.5));
    assert_eq!(triple(model.vert(3)), (0.0, 1.0, -0.25));
    assert_eq!(triple(model.uv(1)), (1.0, 0.0, 0.0));
    assert_eq!(triple(model.norm(0)), (0.0, 0.0, 1.0));
    assert_eq!(face(model.face(0)), [(0, 1, 2), (0, 1, 2), (0, 0, 0)]);
    assert_eq!(face(model.face(1)), [(0, 2, 3), (0, 2, 1), (0, 0, 0)]);
    assert_eq!(triple(model.fvert(1, 2)), (0.0, 1.0, -0.25));
    assert_eq!(triple(model.fvert(0, 1)), (1.0, 0.0, 0.0));
    assert_eq!(triple(model.fuv(1, 1)), (1.0, 1.0, 0.0));
    assert_eq!(triple(model.fuv(1, 2)), (1.0, 0.0, 0.0));
    assert_eq!(triple(model.fnorm(1, 0)), (0.0, 0.0, 1.0));
    let walked: Vec<usize> = model.faces().map(|f| f.verts.y).collect();
    assert_eq!(walked, vec![1, 2]);
}

#[test]
fn empty_text_is_an_empty_model() {
    let model = Model::<Real>::from_obj(b"").ok().unwrap();
    assert_eq!(model.nfaces(), 0);
    assert_eq!(model.faces().count(), 0);
    let model = Model::<Real>::from_obj(b"\n\n# nothing\n").ok().unwrap();
    assert_eq!(model.nfaces(), 0);
}

#[test]
fn first_bad_line_decides() {
    assert_eq!(Model::<Real>::from_obj(b"v 1 2 3\nv 1 2\nv x y z\n").err(), Some(ObjError::MissingField));
    assert_eq!(Model::<Real>::from_obj(b"v 1 2 3\nv x y z\nv 1 2\n").err(), Some(ObjError::BadNumber));
    assert_eq!(Model::<Real>::from_obj(b"f 1/1/1 2/2/2 0/3/3").err(), Some(ObjError::ZeroIndex));
}

#[test]
fn carriage_return_is_dropped_before_a_newline_only() {
    assert!(Model::<Real>::from_obj(b"v 1 2 3\r\nv 4 5 6\r\n").is_ok());
    assert_eq!(Model::<Real>::from_obj(b"v 1 2 3\r").err(), Some(ObjError::BadNumber));
    assert_eq!(Model::<Real>::from_obj(b"v 1 2 3\r\r\n").err(), Some(ObjError::BadNumber));
}

#[test]
fn vertex_line() {
    match line("v 1.5 -2 3e2") {
        Ok(Record::Vertex(v)) => assert_eq!(triple(v), (1.5, -2.0, 300.0)),
        _ => panic!("no vertex"),
    }
    // what follows the third number is not looked at
    match line("v 1 2 3 4 five") {
        Ok(Record::Vertex(v)) => assert_eq!(triple(v), (1.0, 2.0, 3.0)),
        _ => panic!("no vertex"),
    }
    assert_eq!(refused("v"), ObjError::MissingField);
    assert_eq!(refused("v 1 2"), ObjError::MissingField);
    assert_eq!(refused("v 1 2 "), ObjError::BadNumber);
    assert_eq!(refused("v  1 2 3"), ObjError::BadNumber);
    assert_eq!(refused("v 1 two 3"), ObjError::BadNumber);
    assert_eq!(refused("v one"), ObjError::BadNumber);
}

#[test]
fn texture_and_normal_lines_skip_one_field() {
    match line("vt  0.25 0.5 0") {
        Ok(Record::TexCoord(v)) => assert_eq!(triple(v), (0.25, 0.5, 0.0)),
        _ => panic!("no texture coordinate"),
    }
    match line("vn anything 1 0 0") {
        Ok(Record::Normal(v)) => assert_eq!(triple(v), (1.0, 0.0, 0.0)),
        _ => panic!("no normal"),
    }
    assert_eq!(refused("vt 0.25 0.5 0"), ObjError::MissingField);
    assert_eq!(refused("vn"), ObjError::MissingField);
    assert_eq!(refused("vn  1 0 x"), ObjError::BadNumber);
}

#[test]
fn face_line() {
    match line("f 1/2/3 4/5/6 7/8/9") {
        Ok(Record::Triangle(f)) => assert_eq!(face(&f), [(0, 3, 6), (1, 4, 7), (2, 5, 8)]),
        _ => panic!("no face"),
    }
    match line("f +1/2/3/x 4/5/6 7/8/9 10/11/12") {
        Ok(Record::Triangle(f)) => assert_eq!(face(&f), [(0, 3, 6), (1, 4, 7), (2, 5, 8)]),
        _ => panic!("no face"),
    }
    assert_eq!(refused("f 1/2/3 4/5/6"), ObjError::MissingField);
    // all three corners must be there before the first is read
    assert_eq!(refused("f x 4/5/6"), ObjError::MissingField);
    assert_eq!(refused("f 1/2 4/5/6 7/8/9"), ObjError::MissingField);
    assert_eq!(refused("f 1 2 3"), ObjError::MissingField);
    assert_eq!(refused("f 1//3 4/5/6 7/8/9"), ObjError::BadNumber);
    assert_eq!(refused("f 1/2/3 4/-5/6 7/8/9"), ObjError::BadNumber);
    assert_eq!(refused("f 1/2/3 4/5/6 7/8/99999999999999999999999"), ObjError::BadNumber);
    assert_eq!(refused("f 1/2/3  4/5/6 7/8/9"), ObjError::BadNumber);
    assert_eq!(refused("f 1/2/3 4/5/6 7/8/0"), ObjError::ZeroIndex);
    assert_eq!(refused("f 0/2/3 4/5/6 7/8/x"), ObjError::BadNumber);
}

#[test]
fn other_lines_are_passed_over() {
    for text in ["", " ", "# v 1 2 3", "vp 1 2 3", "V 1 2 3", " v 1 2 3", "vtx", "ff", "g head", "s 1"] {
        assert!(matches!(line(text), Ok(Record::Other)), "{:?}", text);
    }
}

#[test]
fn fields_are_cut_at_every_separator() {
    let text = b"a  bc ";
    assert_eq!(find_field_end(text, 0, b' '), 1);
    assert_eq!(find_field_end(text, 2, b' '), 2);
    assert_eq!(find_field_end(text, 3, b' '), 5);
    assert_eq!(find_field_end(text, 6, b' '), 6);
    let mut cursor = Some(0);
    let mut fields = Vec::new();
    while let Some(f) = next_field(text, &mut cursor, b' ') {
        fields.push(f.to_vec());
    }
    let expected: Vec<Vec<u8>> = "a  bc ".split(' ').map(|s| s.as_bytes().to_vec()).collect();
    assert_eq!(fields, expected);
    assert_eq!(cursor, None);
    assert_eq!(next_field(text, &mut cursor, b' '), None);
}
