//! 2D and 3D vectors, and some arithmetic for them.
//! Also matrices with arbitrary numbers of rows and columns.
use vstd::prelude::*;
use vstd::std_specs::ops::{AddSpecImpl, MulSpecImpl, SubSpecImpl};
use crate::scalar::{one, zero, Scalar};

verus! {

pub struct Vec2<T> {
    pub x: T,
    pub y: T,
}

impl<T: Copy> Clone for Vec2<T> {
    fn clone(&self) -> (r: Self)
        ensures
            r == *self,
    {
        *self
    }
}

impl<T: Copy> Copy for Vec2<T> {

}

impl<T: Scalar> Vec2<T> {
    /// The vector with both components zero.
    pub fn zero() -> (v: Vec2<T>)
        ensures
            v == (Vec2 { x: zero::<T>(), y: zero::<T>() }),
    {
        Vec2 { x: T::from_usize(0), y: T::from_usize(0) }
    }

    /// The sum, component by component.
    pub open spec fn plus(self, other: Vec2<T>) -> Vec2<T> {
        Vec2 { x: self.x.sum(other.x), y: self.y.sum(other.y) }
    }

    /// The difference, component by component.
    pub open spec fn minus(self, other: Vec2<T>) -> Vec2<T> {
        Vec2 { x: self.x.difference(other.x), y: self.y.difference(other.y) }
    }

    /// Each component multiplied by `s`.
    pub open spec fn scaled(self, s: T) -> Vec2<T> {
        Vec2 { x: self.x.product(s), y: self.y.product(s) }
    }
}

impl<T: Scalar> std::ops::Add<Vec2<T>> for Vec2<T> {
    type Output = Vec2<T>;

    fn add(self, other: Vec2<T>) -> (r: Vec2<T>) {
        Vec2 { x: self.x.add(other.x), y: self.y.add(other.y) }
    }
}

impl<T: Scalar> AddSpecImpl<Vec2<T>> for Vec2<T> {
    open spec fn obeys_add_spec() -> bool {
        true
    }

    open spec fn add_req(self, other: Vec2<T>) -> bool {
        true
    }

    open spec fn add_spec(self, other: Vec2<T>) -> Vec2<T> {
        self.plus(other)
    }
}

impl<T: Scalar> std::ops::Sub<Vec2<T>> for Vec2<T> {
    type Output = Vec2<T>;

    fn sub(self, other: Vec2<T>) -> (r: Vec2<T>) {
        Vec2 { x: self.x.sub(other.x), y: self.y.sub(other.y) }
    }
}

impl<T: Scalar> SubSpecImpl<Vec2<T>> for Vec2<T> {
    open spec fn obeys_sub_spec() -> bool {
        true
    }

    open spec fn sub_req(self, other: Vec2<T>) -> bool {
        true
    }

    open spec fn sub_spec(self, other: Vec2<T>) -> Vec2<T> {
        self.minus(other)
    }
}

impl<T: Scalar> std::ops::Mul<T> for Vec2<T> {
    type Output = Vec2<T>;

    fn mul(self, s: T) -> (r: Vec2<T>) {
        Vec2 { x: self.x.mul(s), y: self.y.mul(s) }
    }
}

impl<T: Scalar> MulSpecImpl<T> for Vec2<T> {
    open spec fn obeys_mul_spec() -> bool {
        true
    }

    open spec fn mul_req(self, s: T) -> bool {
        true
    }

    open spec fn mul_spec(self, s: T) -> Vec2<T> {
        self.scaled(s)
    }
}

pub struct Vec3<T> {
    pub x: T,
    pub y: T,
    pub z: T,
}

impl<T: Copy> Clone for Vec3<T> {
    fn clone(&self) -> (r: Self)
        ensures
            r == *self,
    {
        *self
    }
}

impl<T: Copy> Copy for Vec3<T> {

}

impl<T> Vec3<T> {
    pub fn new(x: T, y: T, z: T) -> (v: Vec3<T>)
        ensures
            v == (Vec3 { x, y, z }),
    {
        Vec3 { x, y, z }
    }

    /// The component with the given number: 0 for `x`, 1 for `y`, 2 for `z`.
    pub open spec fn component(self, i: int) -> T
        recommends
            0 <= i < 3,
    {
        if i == 0 {
            self.x
        } else if i == 1 {
            self.y
        } else {
            self.z
        }
    }

    /// The vector with component `i` replaced by `value`.
    pub open spec fn with_component(self, i: int, value: T) -> Vec3<T>
        recommends
            0 <= i < 3,
    {
        if i == 0 {
            Vec3 { x: value, y: self.y, z: self.z }
        } else if i == 1 {
            Vec3 { x: self.x, y: value, z: self.z }
        } else {
            Vec3 { x: self.x, y: self.y, z: value }
        }
    }

    /// Replaces component `i` by `value`.
    pub fn set(&mut self, i: usize, value: T)
        requires
            i < 3,
        ensures
            *final(self) == old(self).with_component(i as int, value),
        no_unwind
    {
        if i == 0 {
            self.x = value;
        } else if i == 1 {
            self.y = value;
        } else {
            self.z = value;
        }
    }
}

impl<T> std::ops::Index<usize> for Vec3<T> {
    type Output = T;

    fn index(&self, i: usize) -> (r: &T)
        ensures
            *r == self.component(i as int),
    {
        if i == 0 {
            &self.x
        } else if i == 1 {
            &self.y
        } else {
            &self.z
        }
    }
}

impl<T> vstd::std_specs::core::IndexSpecImpl<usize> for Vec3<T> {
    open spec fn index_req(&self, i: &usize) -> bool {
        *i < 3
    }
}

impl<T: Scalar> Vec3<T> {
    /// The vector with all components zero.
    pub fn zero() -> (v: Vec3<T>)
        ensures
            v == (Vec3 { x: zero::<T>(), y: zero::<T>(), z: zero::<T>() }),
    {
        Vec3 { x: T::from_usize(0), y: T::from_usize(0), z: T::from_usize(0) }
    }

    /// The sum, component by component.
    pub open spec fn plus(self, other: Vec3<T>) -> Vec3<T> {
        Vec3 { x: self.x.sum(other.x), y: self.y.sum(other.y), z: self.z.sum(other.z) }
    }

    /// The difference, component by component.
    pub open spec fn minus(self, other: Vec3<T>) -> Vec3<T> {
        Vec3 {
            x: self.x.difference(other.x),
            y: self.y.difference(other.y),
            z: self.z.difference(other.z),
        }
    }

    /// Each component multiplied by `s`.
    pub open spec fn scaled(self, s: T) -> Vec3<T> {
        Vec3 { x: self.x.product(s), y: self.y.product(s), z: self.z.product(s) }
    }

    /// The dot product, summed from the left.
    pub open spec fn dot(self, other: Vec3<T>) -> T {
        self.x.product(other.x).sum(self.y.product(other.y)).sum(self.z.product(other.z))
    }

    /// The cross product.
    pub open spec fn crossed(self, other: Vec3<T>) -> Vec3<T> {
        Vec3 {
            x: self.y.product(other.z).difference(self.z.product(other.y)),
            y: self.z.product(other.x).difference(self.x.product(other.z)),
            z: self.x.product(other.y).difference(self.y.product(other.x)),
        }
    }

    /// The Euclidean length.
    pub open spec fn length(self) -> T {
        self.dot(self).root()
    }

    /// The vector scaled by the inverse of its length.
    pub open spec fn unit(self) -> Vec3<T> {
        self.scaled(one::<T>().quotient(self.length()))
    }

    pub fn cross(&self, other: Vec3<T>) -> (r: Vec3<T>)
        ensures
            r == self.crossed(other),
    {
        Vec3 {
            x: self.y.mul(other.z).sub(self.z.mul(other.y)),
            y: self.z.mul(other.x).sub(self.x.mul(other.z)),
            z: self.x.mul(other.y).sub(self.y.mul(other.x)),
        }
    }

    pub fn norm(&self) -> (r: T)
        ensures
            r == self.length(),
    {
        self.x.mul(self.x).add(self.y.mul(self.y)).add(self.z.mul(self.z)).sqrt()
    }

    pub fn normalize(&mut self)
        ensures
            *final(self) == old(self).unit(),
    {
        let inverse = T::from_usize(1).div(self.norm());
        *self = *self * inverse;
    }

    pub fn normalized(&self) -> (r: Vec3<T>)
        ensures
            r == self.unit(),
    {
        *self * T::from_usize(1).div(self.norm())
    }
}

impl<T: Scalar> std::ops::Add<Vec3<T>> for Vec3<T> {
    type Output = Vec3<T>;

    fn add(self, other: Vec3<T>) -> (r: Vec3<T>) {
        Vec3 { x: self.x.add(other.x), y: self.y.add(other.y), z: self.z.add(other.z) }
    }
}

impl<T: Scalar> AddSpecImpl<Vec3<T>> for Vec3<T> {
    open spec fn obeys_add_spec() -> bool {
        true
    }

    open spec fn add_req(self, other: Vec3<T>) -> bool {
        true
    }

    open spec fn add_spec(self, other: Vec3<T>) -> Vec3<T> {
        self.plus(other)
    }
}

impl<T: Scalar> std::ops::Sub<Vec3<T>> for Vec3<T> {
    type Output = Vec3<T>;

    fn sub(self, other: Vec3<T>) -> (r: Vec3<T>) {
        Vec3 { x: self.x.sub(other.x), y: self.y.sub(other.y), z: self.z.sub(other.z) }
    }
}

impl<T: Scalar> SubSpecImpl<Vec3<T>> for Vec3<T> {
    open spec fn obeys_sub_spec() -> bool {
        true
    }

    open spec fn sub_req(self, other: Vec3<T>) -> bool {
        true
    }

    open spec fn sub_spec(self, other: Vec3<T>) -> Vec3<T> {
        self.minus(other)
    }
}

impl<T: Scalar> std::ops::Mul<T> for Vec3<T> {
    type Output = Vec3<T>;

    fn mul(self, s: T) -> (r: Vec3<T>) {
        Vec3 { x: self.x.mul(s), y: self.y.mul(s), z: self.z.mul(s) }
    }
}

impl<T: Scalar> MulSpecImpl<T> for Vec3<T> {
    open spec fn obeys_mul_spec() -> bool {
        true
    }

    open spec fn mul_req(self, s: T) -> bool {
        true
    }

    open spec fn mul_spec(self, s: T) -> Vec3<T> {
        self.scaled(s)
    }
}

impl<T: Scalar> std::ops::Mul<Vec3<T>> for Vec3<T> {
    type Output = T;

    fn mul(self, other: Vec3<T>) -> (r: T) {
        self.x.mul(other.x).add(self.y.mul(other.y)).add(self.z.mul(other.z))
    }
}

impl<T: Scalar> MulSpecImpl<Vec3<T>> for Vec3<T> {
    open spec fn obeys_mul_spec() -> bool {
        true
    }

    open spec fn mul_req(self, other: Vec3<T>) -> bool {
        true
    }

    open spec fn mul_spec(self, other: Vec3<T>) -> T {
        self.dot(other)
    }
}

/// A matrix of `rows` rows and `cols` columns.
pub struct Matrix<T> {
    pub m: Vec<Vec<T>>,
    pub rows: usize,
    pub cols: usize,
}

impl<T> View for Matrix<T> {
    type V = Seq<Seq<T>>;

    /// The entries, row by row.
    open spec fn view(&self) -> Seq<Seq<T>> {
        Seq::new(self.m@.len(), |i: int| self.m@[i]@)
    }
}

/// The sum of the first `k` products of row `i` of `a` with column `j` of
/// `b`, added up from zero in that order.
pub open spec fn partial_dot<T: Scalar>(a: Seq<Seq<T>>, b: Seq<Seq<T>>, i: int, j: int, k: nat) -> T
    decreases k,
{
    if k == 0 {
        zero()
    } else {
        partial_dot(a, b, i, j, (k - 1) as nat).sum(a[i][k - 1].product(b[k - 1][j]))
    }
}

/// The entries of the identity matrix.
pub open spec fn identity_entries<T: Scalar>(dimensions: nat) -> Seq<Seq<T>> {
    Seq::new(
        dimensions,
        |i: int|
            Seq::new(
                dimensions,
                |j: int|
                    if i == j {
                        one::<T>()
                    } else {
                        zero::<T>()
                    },
            ),
    )
}

/// The column of homogeneous coordinates that stands for the point `v`: its
/// coordinates and a one.
pub open spec fn column_of<T: Scalar>(v: Vec3<T>) -> Seq<Seq<T>> {
    seq![seq![v.x], seq![v.y], seq![v.z], seq![one::<T>()]]
}

/// The entries of the product of two matrices.
pub open spec fn product_entries<T: Scalar>(a: Seq<Seq<T>>, b: Seq<Seq<T>>, cols: nat) -> Seq<
    Seq<T>,
> {
    Seq::new(a.len(), |i: int| Seq::new(cols, |j: int| partial_dot(a, b, i, j, b.len())))
}

impl<T: Scalar> Matrix<T> {
    /// The matrix has `rows` rows of `cols` entries each.
    pub open spec fn wf(&self) -> bool {
        &&& self@.len() == self.rows
        &&& forall|i: int| 0 <= i < self.rows ==> (#[trigger] self@[i]).len() == self.cols
    }

    /// The matrix has the given extent.
    pub open spec fn is(&self, rows: nat, cols: nat) -> bool {
        self.wf() && self.rows == rows && self.cols == cols
    }

    /// A matrix of zeros.
    pub fn new(rows: usize, cols: usize) -> (r: Matrix<T>)
        ensures
            r.is(rows as nat, cols as nat),
            r@ == Seq::new(rows as nat, |i: int| Seq::new(cols as nat, |j: int| zero::<T>())),
    {
        let nothing = T::from_usize(0);
        let mut m: Vec<Vec<T>> = Vec::new();
        let mut i: usize = 0;
        while i < rows
            invariant
                i <= rows,
                nothing == zero::<T>(),
                m@.len() == i,
                forall|k: int|
                    0 <= k < i ==> (#[trigger] m@[k])@ == Seq::new(
                        cols as nat,
                        |j: int| zero::<T>(),
                    ),
            decreases rows - i,
        {
            let mut row: Vec<T> = Vec::new();
            let mut j: usize = 0;
            while j < cols
                invariant
                    j <= cols,
                    nothing == zero::<T>(),
                    row@.len() == j,
                    forall|k: int| 0 <= k < j ==> row@[k] == zero::<T>(),
                decreases cols - j,
            {
                row.push(nothing);
                j += 1;
            }
            assert(row@ =~= Seq::new(cols as nat, |j: int| zero::<T>()));
            m.push(row);
            i += 1;
        }
        let r = Matrix { m, rows, cols };
        assert(r@ =~= Seq::new(rows as nat, |i: int| Seq::new(cols as nat, |j: int| zero::<T>())));
        r
    }

    pub fn identity(dimensions: usize) -> (r: Matrix<T>)
        ensures
            r.is(dimensions as nat, dimensions as nat),
            r@ == identity_entries::<T>(dimensions as nat),
    {
        let mut result = Matrix::new(dimensions, dimensions);
        let nothing = T::from_usize(0);
        let unit = T::from_usize(1);
        let mut i: usize = 0;
        while i < dimensions
            invariant
                i <= dimensions,
                nothing == zero::<T>(),
                unit == one::<T>(),
                result.is(dimensions as nat, dimensions as nat),
                forall|k: int, j: int|
                    0 <= k < i && 0 <= j < dimensions ==> #[trigger] result@[k][j]
                        == identity_entries::<T>(dimensions as nat)[k][j],
            decreases dimensions - i,
        {
            let mut j: usize = 0;
            while j < dimensions
                invariant
                    i < dimensions,
                    j <= dimensions,
                    nothing == zero::<T>(),
                    unit == one::<T>(),
                    result.is(dimensions as nat, dimensions as nat),
                    forall|k: int, j: int|
                        0 <= k < i && 0 <= j < dimensions ==> #[trigger] result@[k][j]
                            == identity_entries::<T>(dimensions as nat)[k][j],
                    forall|c: int|
                        0 <= c < j ==> #[trigger] result@[i as int][c] == identity_entries::<T>(
                            dimensions as nat,
                        )[i as int][c],
                decreases dimensions - j,
            {
                result.put(
                    i,
                    j,
                    if i == j {
                        unit
                    } else {
                        nothing
                    },
                );
                j += 1;
            }
            i += 1;
        }
        assert(result@ =~~= identity_entries::<T>(dimensions as nat));
        result
    }

    /// The column that stands for the point `v`: its coordinates and a one.
    pub fn from_v(v: Vec3<T>) -> (r: Matrix<T>)
        ensures
            r.is(4, 1),
            r@ == column_of(v),
    {
        let mut m = Matrix::new(4, 1);
        m.put(0, 0, v.x);
        m.put(1, 0, v.y);
        m.put(2, 0, v.z);
        m.put(3, 0, T::from_usize(1));
        assert(m@ =~~= column_of(v));
        m
    }

    pub fn get(&self, row: usize, col: usize) -> (r: T)
        requires
            self.wf(),
            row < self.rows,
            col < self.cols,
        ensures
            r == self@[row as int][col as int],
    {
        assert(self@[row as int] == self.m@[row as int]@);
        self.m[row][col]
    }

    pub fn put(&mut self, row: usize, col: usize, v: T)
        requires
            old(self).wf(),
            row < old(self).rows,
            col < old(self).cols,
        ensures
            final(self).is(old(self).rows as nat, old(self).cols as nat),
            final(self)@ == old(self)@.update(
                row as int,
                old(self)@[row as int].update(col as int, v),
            ),
        no_unwind
    {
        assert(self@[row as int] == self.m@[row as int]@);
        self.m[row][col] = v;
        assert(self@ =~~= old(self)@.update(
            row as int,
            old(self)@[row as int].update(col as int, v),
        ));
    }
}

impl<T: Scalar> Vec3<T> {
    /// The point that a column of homogeneous coordinates stands for: the
    /// first three entries, each divided by the fourth.
    pub open spec fn from_column(column: Seq<Seq<T>>) -> Vec3<T> {
        Vec3 {
            x: column[0][0].quotient(column[3][0]),
            y: column[1][0].quotient(column[3][0]),
            z: column[2][0].quotient(column[3][0]),
        }
    }

    pub fn from_m(m: &Matrix<T>) -> (v: Vec3<T>)
        requires
            m.wf(),
            m.rows >= 4,
            m.cols >= 1,
        ensures
            v == Self::from_column(m@),
    {
        Vec3 {
            x: m.get(0, 0).div(m.get(3, 0)),
            y: m.get(1, 0).div(m.get(3, 0)),
            z: m.get(2, 0).div(m.get(3, 0)),
        }
    }
}

impl<T: Scalar> Matrix<T> {
    /// The matrix product `self * other`. Each entry is added up from zero,
    /// one product after the other.
    pub fn times(&self, other: &Matrix<T>) -> (r: Matrix<T>)
        requires
            self.wf(),
            other.wf(),
            self.cols == other.rows,
        ensures
            r.is(self.rows as nat, other.cols as nat),
            r@ == product_entries(self@, other@, other.cols as nat),
    {
        let mut result = Matrix::new(self.rows, other.cols);
        let mut i: usize = 0;
        while i < self.rows
            invariant
                i <= self.rows,
                self.wf(),
                other.wf(),
                self.cols == other.rows,
                result.is(self.rows as nat, other.cols as nat),
                forall|r: int, c: int|
                    0 <= r < i && 0 <= c < other.cols ==> #[trigger] result@[r][c] == partial_dot(
                        self@,
                        other@,
                        r,
                        c,
                        other.rows as nat,
                    ),
            decreases self.rows - i,
        {
            let mut j: usize = 0;
            while j < other.cols
                invariant
                    i < self.rows,
                    j <= other.cols,
                    self.wf(),
                    other.wf(),
                    self.cols == other.rows,
                    result.is(self.rows as nat, other.cols as nat),
                    forall|r: int, c: int|
                        0 <= r < i && 0 <= c < other.cols ==> #[trigger] result@[r][c]
                            == partial_dot(self@, other@, r, c, other.rows as nat),
                    forall|c: int|
                        0 <= c < j ==> #[trigger] result@[i as int][c] == partial_dot(
                            self@,
                            other@,
                            i as int,
                            c,
                            other.rows as nat,
                        ),
                decreases other.cols - j,
            {
                result.put(i, j, T::from_usize(0));
                let mut k: usize = 0;
                while k < self.cols
                    invariant
                        i < self.rows,
                        j < other.cols,
                        k <= self.cols,
                        self.wf(),
                        other.wf(),
                        self.cols == other.rows,
                        result.is(self.rows as nat, other.cols as nat),
                        forall|r: int, c: int|
                            0 <= r < i && 0 <= c < other.cols ==> #[trigger] result@[r][c]
                                == partial_dot(self@, other@, r, c, other.rows as nat),
                        forall|c: int|
                            0 <= c < j ==> #[trigger] result@[i as int][c] == partial_dot(
                                self@,
                                other@,
                                i as int,
                                c,
                                other.rows as nat,
                            ),
                        result@[i as int][j as int] == partial_dot(
                            self@,
                            other@,
                            i as int,
                            j as int,
                            k as nat,
                        ),
                    decreases self.cols - k,
                {
                    result.put(i, j, result.get(i, j).add(self.get(i, k).mul(other.get(k, j))));
                    k += 1;
                }
                j += 1;
            }
            i += 1;
        }
        assert(result@ =~~= product_entries(self@, other@, other.cols as nat));
        result
    }
}

impl<T: Scalar> std::ops::Mul<&Matrix<T>> for &Matrix<T> {
    type Output = Matrix<T>;

    fn mul(self, other: &Matrix<T>) -> (r: Matrix<T>)
        ensures
            r.is(self.rows as nat, other.cols as nat),
            r@ == product_entries(self@, other@, other.cols as nat),
    {
        self.times(other)
    }
}

/// The operator gives what `times` gives. A matrix owns its rows, so that no
/// specification function can build the product: the operator's own
/// contract states its entries instead.
impl<T: Scalar> MulSpecImpl<&Matrix<T>> for &Matrix<T> {
    open spec fn obeys_mul_spec() -> bool {
        false
    }

    open spec fn mul_req(self, other: &Matrix<T>) -> bool {
        self.wf() && other.wf() && self.cols == other.rows
    }

    open spec fn mul_spec(self, other: &Matrix<T>) -> Matrix<T> {
        arbitrary()
    }
}

impl<T: Scalar> std::ops::Mul<&Matrix<T>> for Matrix<T> {
    type Output = Matrix<T>;

    fn mul(self, other: &Matrix<T>) -> (r: Matrix<T>)
        ensures
            r.is(self.rows as nat, other.cols as nat),
            r@ == product_entries(self@, other@, other.cols as nat),
    {
        self.times(other)
    }
}

/// As for two borrowed matrices.
impl<T: Scalar> MulSpecImpl<&Matrix<T>> for Matrix<T> {
    open spec fn obeys_mul_spec() -> bool {
        false
    }

    open spec fn mul_req(self, other: &Matrix<T>) -> bool {
        self.wf() && other.wf() && self.cols == other.rows
    }

    open spec fn mul_spec(self, other: &Matrix<T>) -> Matrix<T> {
        arbitrary()
    }
}

/// The entries of `m` with the first two entries of column `c` replaced by
/// the first two coordinates of `v`.
pub open spec fn with_column<T>(m: Seq<Seq<T>>, c: int, v: Vec3<T>) -> Seq<Seq<T>> {
    m.update(0, m[0].update(c, v.x)).update(1, m[1].update(c, v.y))
}

/// The products of the first two rows of `m` with `v`, and a zero.
pub open spec fn rows_times<T: Scalar>(m: Seq<Seq<T>>, v: Vec3<T>) -> Vec3<T> {
    Vec3 {
        x: (Vec3 { x: m[0][0], y: m[0][1], z: m[0][2] }).dot(v),
        y: (Vec3 { x: m[1][0], y: m[1][1], z: m[1][2] }).dot(v),
        z: zero(),
    }
}

/// Writes the first two coordinates of `v` into column `c` of `m`.
pub fn m_put_col<T: Scalar>(m: &mut Matrix<T>, c: usize, v: Vec3<T>)
    requires
        old(m).wf(),
        old(m).rows >= 2,
        c < old(m).cols,
    ensures
        final(m).is(old(m).rows as nat, old(m).cols as nat),
        final(m)@ == with_column(old(m)@, c as int, v),
    no_unwind
{
    m.put(0, c, v.x);
    m.put(1, c, v.y);
}

/// Multiplies the first two rows of `m`, each three long, with `v`.
pub fn m_mul_v<T: Scalar>(m: &Matrix<T>, v: Vec3<T>) -> (r: Vec3<T>)
    requires
        m.wf(),
        m.rows >= 2,
        m.cols >= 3,
    ensures
        r == rows_times(m@, v),
{
    Vec3::new(
        Vec3::new(m.get(0, 0), m.get(0, 1), m.get(0, 2)) * v,
        Vec3::new(m.get(1, 0), m.get(1, 1), m.get(1, 2)) * v,
        T::from_usize(0),
    )
}

} // verus!
