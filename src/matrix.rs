use vstd::prelude::*;

use crate::vector::{fits_i32, lemma_product_bound, Vector4};

verus! {

/// A 4×4 matrix stored row by row.
#[derive(Clone, Copy, Debug, Default, PartialEq, Eq)]
pub struct Matrix4<T> {
    pub data: [[T; 4]; 4],
}

/// Entry `(r, c)` of `m`.
pub open spec fn entry(m: Matrix4<i32>, r: int, c: int) -> int {
    m.data@[r]@[c] as int
}

/// Row `r` of `m` applied to `v`.
pub open spec fn row_times(m: Matrix4<i32>, r: int, v: Vector4<i32>) -> int {
    entry(m, r, 0) * v.x + entry(m, r, 1) * v.y + entry(m, r, 2) * v.z + entry(m, r, 3) * v.w
}

/// Row `r` of `m` applied to `v`, computed without overflow.
fn row_times_exec(m: &Matrix4<i32>, r: usize, v: &Vector4<i32>) -> (s: i128)
    requires
        r < 4,
    ensures
        s == row_times(*m, r as int, *v),
{
    let row = m.data[r];
    let (a, b, c, d) = (row[0] as i128, row[1] as i128, row[2] as i128, row[3] as i128);
    proof {
        lemma_product_bound(a as int, v.x as int);
        lemma_product_bound(b as int, v.y as int);
        lemma_product_bound(c as int, v.z as int);
        lemma_product_bound(d as int, v.w as int);
    }
    a * (v.x as i128) + b * (v.y as i128) + c * (v.z as i128) + d * (v.w as i128)
}

/// Entry `(r, c)` of the product `a · b`.
pub open spec fn product_entry(a: Matrix4<i32>, b: Matrix4<i32>, r: int, c: int) -> int {
    entry(a, r, 0) * entry(b, 0, c) + entry(a, r, 1) * entry(b, 1, c) + entry(a, r, 2) * entry(b, 2, c)
        + entry(a, r, 3) * entry(b, 3, c)
}

/// Row `r` of the product `a · b`, whose entries must fit in an `i32`.
fn product_row(a: &Matrix4<i32>, b: &Matrix4<i32>, r: usize) -> (row: [i32; 4])
    requires
        r < 4,
        forall|c: int| 0 <= c < 4 ==> fits_i32(#[trigger] product_entry(*a, *b, r as int, c)),
    ensures
        forall|c: int| 0 <= c < 4 ==> row@[c] == product_entry(*a, *b, r as int, c),
{
    let x = a.data[r];
    let mut row: [i32; 4] = [0, 0, 0, 0];
    let mut c: usize = 0;
    while c < 4
        invariant
            0 <= c <= 4,
            r < 4,
            x@ == a.data@[r as int]@,
            forall|k: int| 0 <= k < 4 ==> fits_i32(#[trigger] product_entry(*a, *b, r as int, k)),
            forall|k: int| 0 <= k < c ==> row@[k] == product_entry(*a, *b, r as int, k),
        decreases 4 - c,
    {
        let (p, q, s, t) = (x[0] as i128, x[1] as i128, x[2] as i128, x[3] as i128);
        let (e, f, g, h) = (b.data[0][c] as i128, b.data[1][c] as i128, b.data[2][c] as i128, b.data[3][c] as i128);
        proof {
            lemma_product_bound(p as int, e as int);
            lemma_product_bound(q as int, f as int);
            lemma_product_bound(s as int, g as int);
            lemma_product_bound(t as int, h as int);
        }
        let v = p * e + q * f + s * g + t * h;
        assert(fits_i32(product_entry(*a, *b, r as int, c as int)));
        row.set(c, v as i32);
        c += 1;
    }
    row
}

impl Matrix4<i32> {
    /// The matrix that moves a point by `(x, y, z)` and leaves directions alone.
    pub fn translate(x: i32, y: i32, z: i32) -> (r: Matrix4<i32>)
        ensures
            forall|i: int, j: int|
                0 <= i < 4 && 0 <= j < 4 ==> #[trigger] entry(r, i, j) == if j == 3 && i == 0 {
                    x as int
                } else if j == 3 && i == 1 {
                    y as int
                } else if j == 3 && i == 2 {
                    z as int
                } else if i == j {
                    1
                } else {
                    0
                },
    {
        let r = Matrix4 { data: [[1, 0, 0, x], [0, 1, 0, y], [0, 0, 1, z], [0, 0, 0, 1]] };
        assert(r.data@[0]@ =~= seq![1i32, 0, 0, x]);
        assert(r.data@[1]@ =~= seq![0i32, 1, 0, y]);
        assert(r.data@[2]@ =~= seq![0i32, 0, 1, z]);
        assert(r.data@[3]@ =~= seq![0i32, 0, 0, 1]);
        r
    }

    /// The matrix product `self · rhs`; each entry of the result must fit in
    /// an `i32`.
    pub fn mul(self, rhs: Matrix4<i32>) -> (r: Matrix4<i32>)
        requires
            forall|i: int, j: int| 0 <= i < 4 && 0 <= j < 4 ==> fits_i32(#[trigger] product_entry(self, rhs, i, j)),
        ensures
            forall|i: int, j: int|
                0 <= i < 4 && 0 <= j < 4 ==> #[trigger] entry(r, i, j) == product_entry(self, rhs, i, j),
    {
        let r = Matrix4 {
            data: [
                product_row(&self, &rhs, 0),
                product_row(&self, &rhs, 1),
                product_row(&self, &rhs, 2),
                product_row(&self, &rhs, 3),
            ],
        };
        assert forall|i: int, j: int| 0 <= i < 4 && 0 <= j < 4 implies #[trigger] entry(r, i, j) == product_entry(
            self,
            rhs,
            i,
            j,
        ) by {
            assert(r.data@ =~= seq![r.data[0], r.data[1], r.data[2], r.data[3]]);
        }
        r
    }

    /// The product `self · rhs`; each component of the result must fit in an `i32`.
    pub fn mul_vec(&self, rhs: Vector4<i32>) -> (r: Vector4<i32>)
        requires
            forall|i: int| 0 <= i < 4 ==> fits_i32(#[trigger] row_times(*self, i, rhs)),
        ensures
            r.x == row_times(*self, 0, rhs),
            r.y == row_times(*self, 1, rhs),
            r.z == row_times(*self, 2, rhs),
            r.w == row_times(*self, 3, rhs),
    {
        let x = row_times_exec(self, 0, &rhs);
        let y = row_times_exec(self, 1, &rhs);
        let z = row_times_exec(self, 2, &rhs);
        let w = row_times_exec(self, 3, &rhs);
        assert(fits_i32(row_times(*self, 0, rhs)));
        assert(fits_i32(row_times(*self, 1, rhs)));
        assert(fits_i32(row_times(*self, 2, rhs)));
        assert(fits_i32(row_times(*self, 3, rhs)));
        Vector4 { x: x as i32, y: y as i32, z: z as i32, w: w as i32 }
    }
}

} // verus!
