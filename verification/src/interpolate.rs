//! Linear interpolation along integer steps: one sample for each whole
//! coordinate between two endpoints, for single values and for the bundle
//! of attributes that varies across a triangle.
use crate::fixed::{lemma_from_int_to_int, lemma_to_int_monotone, magnitude, Fixed};
use crate::math::{Vector2, Vector3};
use vstd::prelude::*;

verus! {

/// The number of whole steps from `i0` to `i1`, both ends included.
pub open spec fn sample_count(i0: Fixed, i1: Fixed) -> int {
    magnitude(i1.to_int_spec() - i0.to_int_spec()) + 1
}

/// The change of the dependent value for one step from `i0` toward `i1`.
pub open spec fn slope_spec(i0: Fixed, d0: Fixed, i1: Fixed, d1: Fixed) -> Fixed {
    if i0.raw == i1.raw {
        Fixed::zero_spec()
    } else if i0.raw < i1.raw {
        d1.sub_spec(d0).div_spec(i1.sub_spec(i0))
    } else {
        d1.sub_spec(d0).div_spec(i0.sub_spec(i1))
    }
}

/// The sample `k` steps after `d0`: each step adds `step`.
pub open spec fn sample_spec(d0: Fixed, step: Fixed, k: nat) -> Fixed
    decreases k,
{
    if k == 0 {
        d0
    } else {
        sample_spec(d0, step, (k - 1) as nat).add_spec(step)
    }
}

/// The samples of the line through `(i0, d0)` and `(i1, d1)` at each whole
/// step from `i0` to `i1`.
pub open spec fn interpolate_spec(i0: Fixed, d0: Fixed, i1: Fixed, d1: Fixed) -> Seq<Fixed> {
    Seq::new(
        sample_count(i0, i1) as nat,
        |k: int| sample_spec(d0, slope_spec(i0, d0, i1, d1), k as nat),
    )
}

/// The samples along the long edge of a triangle, and those along its two
/// short edges joined at the middle vertex.
pub open spec fn edge_interpolate_spec(
    y0: Fixed,
    v0: Fixed,
    y1: Fixed,
    v1: Fixed,
    y2: Fixed,
    v2: Fixed,
) -> (Seq<Fixed>, Seq<Fixed>) {
    (
        interpolate_spec(y0, v0, y2, v2),
        interpolate_spec(y0, v0, y1, v1).drop_last() + interpolate_spec(y1, v1, y2, v2),
    )
}

/// The change of the dependent value for one step from `i0` toward `i1`.
pub fn slope(i0: Fixed, d0: Fixed, i1: Fixed, d1: Fixed) -> (a: Fixed)
    ensures
        a == slope_spec(i0, d0, i1, d1),
{
    if i0.raw == i1.raw {
        Fixed::zero()
    } else if i0.raw < i1.raw {
        d1.sub(d0).div(i1.sub(i0))
    } else {
        d1.sub(d0).div(i0.sub(i1))
    }
}

/// The number of whole steps from `i0` to `i1`, both ends included.
pub fn count_samples(i0: Fixed, i1: Fixed) -> (n: u64)
    ensures
        n == sample_count(i0, i1),
        1 <= n <= 0x1_0000_0000,
{
    let t0: i64 = i0.to_int() as i64;
    let t1: i64 = i1.to_int() as i64;
    if t1 >= t0 {
        (t1 - t0 + 1) as u64
    } else {
        (t0 - t1 + 1) as u64
    }
}

/// One sample of the line through `(i0, d0)` and `(i1, d1)` for each whole
/// step from `i0` to `i1`: the first is `d0`, and each next one adds the
/// slope. Equal endpoints give the single sample `d0`.
pub fn interpolate(i0: Fixed, d0: Fixed, i1: Fixed, d1: Fixed) -> (values: Vec<Fixed>)
    ensures
        values@ == interpolate_spec(i0, d0, i1, d1),
        values@.len() == sample_count(i0, i1),
        values@[0] == d0,
{
    let step = slope(i0, d0, i1, d1);
    let n: u64 = count_samples(i0, i1);
    let mut values: Vec<Fixed> = Vec::new();
    let mut d = d0;
    let mut k: u64 = 0;
    while k < n
        invariant
            k <= n,
            values@.len() == k,
            d == sample_spec(d0, step, k as nat),
            forall|j: int| 0 <= j < k ==> values@[j] == sample_spec(d0, step, j as nat),
        decreases n - k,
    {
        values.push(d);
        d = d.add(step);
        k = k + 1;
    }
    assert(values@ =~= interpolate_spec(i0, d0, i1, d1));
    values
}

/// The interpolation tables of one attribute along the edges of a triangle
/// whose vertices are ordered by `y`: first the long edge from vertex 0 to
/// vertex 2, then the two short edges through vertex 1, with the sample at
/// vertex 1 taken once.
pub fn edge_interpolate(y0: Fixed, v0: Fixed, y1: Fixed, v1: Fixed, y2: Fixed, v2: Fixed) -> (r: (
    Vec<Fixed>,
    Vec<Fixed>,
))
    ensures
        (r.0@, r.1@) == edge_interpolate_spec(y0, v0, y1, v1, y2, v2),
        y0.raw <= y1.raw <= y2.raw ==> r.0@.len() == r.1@.len() == sample_count(y0, y2),
{
    let mut x01 = interpolate(y0, v0, y1, v1);
    let mut x12 = interpolate(y1, v1, y2, v2);
    let x02 = interpolate(y0, v0, y2, v2);
    x01.pop();
    x01.append(&mut x12);
    proof {
        if y0.raw <= y1.raw <= y2.raw {
            lemma_to_int_monotone(y0, y1);
            lemma_to_int_monotone(y1, y2);
        }
    }
    (x02, x01)
}

/// The attributes that vary across a filled triangle: the reciprocal of the
/// depth, the surface normal, and the texture coordinate divided by the depth.
#[derive(Clone, Copy, Debug, PartialEq, Eq, Structural)]
pub struct Varying {
    pub inv_z: Fixed,
    pub normal: Vector3,
    pub uv_z: Vector2,
}

impl Varying {
    /// The sum, attribute by attribute.
    pub open spec fn plus_spec(self, rhs: Varying) -> Varying {
        Varying {
            inv_z: self.inv_z.add_spec(rhs.inv_z),
            normal: self.normal.plus_spec(rhs.normal),
            uv_z: Vector2 {
                x: self.uv_z.x.add_spec(rhs.uv_z.x),
                y: self.uv_z.y.add_spec(rhs.uv_z.y),
            },
        }
    }

    /// The slope of each attribute from `(i0, a0)` toward `(i1, a1)`.
    pub open spec fn slope_spec(i0: Fixed, a0: Varying, i1: Fixed, a1: Varying) -> Varying {
        Varying {
            inv_z: slope_spec(i0, a0.inv_z, i1, a1.inv_z),
            normal: Vector3 {
                x: slope_spec(i0, a0.normal.x, i1, a1.normal.x),
                y: slope_spec(i0, a0.normal.y, i1, a1.normal.y),
                z: slope_spec(i0, a0.normal.z, i1, a1.normal.z),
            },
            uv_z: Vector2 {
                x: slope_spec(i0, a0.uv_z.x, i1, a1.uv_z.x),
                y: slope_spec(i0, a0.uv_z.y, i1, a1.uv_z.y),
            },
        }
    }

    /// Each attribute `k` steps after `a0`.
    pub open spec fn sample_spec(a0: Varying, step: Varying, k: nat) -> Varying {
        Varying {
            inv_z: sample_spec(a0.inv_z, step.inv_z, k),
            normal: Vector3 {
                x: sample_spec(a0.normal.x, step.normal.x, k),
                y: sample_spec(a0.normal.y, step.normal.y, k),
                z: sample_spec(a0.normal.z, step.normal.z, k),
            },
            uv_z: Vector2 {
                x: sample_spec(a0.uv_z.x, step.uv_z.x, k),
                y: sample_spec(a0.uv_z.y, step.uv_z.y, k),
            },
        }
    }

    /// The samples of every attribute at each whole step from `i0` to `i1`.
    pub open spec fn interpolate_spec(i0: Fixed, a0: Varying, i1: Fixed, a1: Varying) -> Seq<
        Varying,
    > {
        Seq::new(
            sample_count(i0, i1) as nat,
            |k: int| Varying::sample_spec(a0, Varying::slope_spec(i0, a0, i1, a1), k as nat),
        )
    }

    /// The attribute samples along the long edge of a triangle, and those
    /// along its two short edges joined at the middle vertex.
    pub open spec fn edge_interpolate_spec(
        y0: Fixed,
        a0: Varying,
        y1: Fixed,
        a1: Varying,
        y2: Fixed,
        a2: Varying,
    ) -> (Seq<Varying>, Seq<Varying>) {
        (
            Varying::interpolate_spec(y0, a0, y2, a2),
            Varying::interpolate_spec(y0, a0, y1, a1).drop_last() + Varying::interpolate_spec(
                y1,
                a1,
                y2,
                a2,
            ),
        )
    }

    /// The sum, attribute by attribute.
    pub fn plus(&self, rhs: &Varying) -> (r: Varying)
        ensures
            r == self.plus_spec(*rhs),
    {
        Varying {
            inv_z: self.inv_z.add(rhs.inv_z),
            normal: self.normal.plus(&rhs.normal),
            uv_z: Vector2 { x: self.uv_z.x.add(rhs.uv_z.x), y: self.uv_z.y.add(rhs.uv_z.y) },
        }
    }

    /// The slope of each attribute from `(i0, a0)` toward `(i1, a1)`.
    pub fn slope(i0: Fixed, a0: &Varying, i1: Fixed, a1: &Varying) -> (r: Varying)
        ensures
            r == Varying::slope_spec(i0, *a0, i1, *a1),
    {
        Varying {
            inv_z: slope(i0, a0.inv_z, i1, a1.inv_z),
            normal: Vector3 {
                x: slope(i0, a0.normal.x, i1, a1.normal.x),
                y: slope(i0, a0.normal.y, i1, a1.normal.y),
                z: slope(i0, a0.normal.z, i1, a1.normal.z),
            },
            uv_z: Vector2 {
                x: slope(i0, a0.uv_z.x, i1, a1.uv_z.x),
                y: slope(i0, a0.uv_z.y, i1, a1.uv_z.y),
            },
        }
    }

    /// One sample of every attribute for each whole step from `i0` to `i1`:
    /// each attribute is interpolated as a single value is.
    pub fn interpolate(i0: Fixed, a0: &Varying, i1: Fixed, a1: &Varying) -> (values: Vec<Varying>)
        ensures
            values@ == Varying::interpolate_spec(i0, *a0, i1, *a1),
            values@.len() == sample_count(i0, i1),
    {
        let step = Varying::slope(i0, a0, i1, a1);
        let n: u64 = count_samples(i0, i1);
        let mut values: Vec<Varying> = Vec::new();
        let mut a = *a0;
        let mut k: u64 = 0;
        while k < n
            invariant
                k <= n,
                values@.len() == k,
                a == Varying::sample_spec(*a0, step, k as nat),
                forall|j: int|
                    0 <= j < k ==> values@[j] == Varying::sample_spec(*a0, step, j as nat),
            decreases n - k,
        {
            values.push(a);
            a = a.plus(&step);
            k = k + 1;
        }
        assert(values@ =~= Varying::interpolate_spec(i0, *a0, i1, *a1));
        values
    }

    /// The attribute tables along the edges of a triangle whose vertices are
    /// ordered by `y`: the long edge, then the two short edges joined.
    pub fn edge_interpolate(
        y0: Fixed,
        a0: &Varying,
        y1: Fixed,
        a1: &Varying,
        y2: Fixed,
        a2: &Varying,
    ) -> (r: (Vec<Varying>, Vec<Varying>))
        ensures
            (r.0@, r.1@) == Varying::edge_interpolate_spec(y0, *a0, y1, *a1, y2, *a2),
            y0.raw <= y1.raw <= y2.raw ==> r.0@.len() == r.1@.len() == sample_count(y0, y2),
    {
        let mut a01 = Varying::interpolate(y0, a0, y1, a1);
        let mut a12 = Varying::interpolate(y1, a1, y2, a2);
        let a02 = Varying::interpolate(y0, a0, y2, a2);
        a01.pop();
        a01.append(&mut a12);
        proof {
            if y0.raw <= y1.raw <= y2.raw {
                lemma_to_int_monotone(y0, y1);
                lemma_to_int_monotone(y1, y2);
            }
        }
        (a02, a01)
    }
}

/// Along whole steps the samples advance by one slope each, starting at `d0`;
/// between whole endpoints there are `|i1 - i0| + 1` of them.
pub proof fn lemma_interpolate_linear(i0: Fixed, d0: Fixed, i1: Fixed, d1: Fixed)
    ensures
        interpolate_spec(i0, d0, i1, d1).len() >= 1,
        interpolate_spec(i0, d0, i1, d1)[0] == d0,
        i0.raw == i1.raw ==> interpolate_spec(i0, d0, i1, d1) == seq![d0],
        forall|k: int|
            0 <= k && k + 1 < interpolate_spec(i0, d0, i1, d1).len() ==> #[trigger] interpolate_spec(
                i0,
                d0,
                i1,
                d1,
            )[k + 1] == interpolate_spec(i0, d0, i1, d1)[k].add_spec(
                slope_spec(i0, d0, i1, d1),
            ),
{
    let s = interpolate_spec(i0, d0, i1, d1);
    let step = slope_spec(i0, d0, i1, d1);
    assert forall|k: int| 0 <= k && k + 1 < s.len() implies #[trigger] s[k + 1] == s[k].add_spec(
        step,
    ) by {
        assert(sample_spec(d0, step, (k + 1) as nat) == sample_spec(d0, step, k as nat).add_spec(
            step,
        ));
    }
    if i0.raw == i1.raw {
        assert(s =~= seq![d0]);
    }
}

/// Between whole endpoints `a` and `b` there are `|b - a| + 1` samples.
pub proof fn lemma_interpolate_whole_count(a: i32, d0: Fixed, b: i32, d1: Fixed)
    ensures
        interpolate_spec(Fixed::from_int_spec(a as int), d0, Fixed::from_int_spec(b as int), d1).len()
            == magnitude(b - a) + 1,
{
    lemma_from_int_to_int(a as int);
    lemma_from_int_to_int(b as int);
}

/// While no sum leaves the range of the numbers, sample `k` is `d0` plus `k`
/// slopes exactly.
pub proof fn lemma_sample_closed_form(d0: Fixed, step: Fixed, k: nat)
    requires
        i64::MIN <= d0.raw + k * step.raw <= i64::MAX,
    ensures
        sample_spec(d0, step, k).raw == d0.raw + k * step.raw,
    decreases k,
{
    if k > 0 {
        let j = (k - 1) as nat;
        assert(k * step.raw == j * step.raw + step.raw) by (nonlinear_arith)
            requires
                j == k - 1,
        ;
        if step.raw >= 0 {
            assert(j * step.raw >= 0) by (nonlinear_arith)
                requires
                    step.raw >= 0,
            ;
        } else {
            assert(j * step.raw <= 0) by (nonlinear_arith)
                requires
                    step.raw < 0,
            ;
        }
        lemma_sample_closed_form(d0, step, j);
        assert(sample_spec(d0, step, k) == sample_spec(d0, step, j).add_spec(step));
    } else {
        assert(k * step.raw == 0) by (nonlinear_arith)
            requires
                k == 0,
        ;
    }
}

/// The two edge tables of a triangle whose vertices are ordered by height
/// have one entry for each scanline from the lowest to the highest vertex.
pub proof fn lemma_edge_table_lengths(
    y0: Fixed,
    v0: Fixed,
    y1: Fixed,
    v1: Fixed,
    y2: Fixed,
    v2: Fixed,
    a0: Varying,
    a1: Varying,
    a2: Varying,
)
    requires
        y0.raw <= y1.raw <= y2.raw,
    ensures
        edge_interpolate_spec(y0, v0, y1, v1, y2, v2).0.len() == sample_count(y0, y2),
        edge_interpolate_spec(y0, v0, y1, v1, y2, v2).1.len() == sample_count(y0, y2),
        Varying::edge_interpolate_spec(y0, a0, y1, a1, y2, a2).0.len() == sample_count(y0, y2),
        Varying::edge_interpolate_spec(y0, a0, y1, a1, y2, a2).1.len() == sample_count(y0, y2),
        sample_count(y0, y2) == y2.to_int_spec() - y0.to_int_spec() + 1,
{
    lemma_to_int_monotone(y0, y1);
    lemma_to_int_monotone(y1, y2);
}

/// The samples run from `d0` to `d1`: between whole endpoints `a < b` the
/// last sample misses `d1` by less than one unit of resolution for each
/// step, as long as the difference of `d0` and `d1` is within range.
pub proof fn lemma_interpolate_reaches_end(a: i32, d0: Fixed, b: i32, d1: Fixed)
    requires
        a < b,
        i64::MIN <= d1.raw - d0.raw <= i64::MAX,
    ensures
        ({
            let samples = interpolate_spec(Fixed::from_int_spec(a as int), d0, Fixed::from_int_spec(b as int), d1);
            &&& samples.len() == b - a + 1
            &&& samples[0] == d0
            &&& magnitude(samples[b - a].raw - d1.raw) < b - a
        }),
{
    reveal(Fixed::div_spec);
    let i0 = Fixed::from_int_spec(a as int);
    let i1 = Fixed::from_int_spec(b as int);
    lemma_from_int_to_int(a as int);
    lemma_from_int_to_int(b as int);
    let n = b - a;
    let big = d1.raw - d0.raw;
    let step = slope_spec(i0, d0, i1, d1);
    assert(i1.sub_spec(i0).raw == n * 65536);
    assert(d1.sub_spec(d0).raw == big);
    let m = magnitude(big);
    assert(magnitude(big * 65536) == 65536 * m);
    assert(n * 65536 == 65536 * n);
    vstd::arithmetic::div_mod::lemma_div_multiples_vanish_quotient(65536, m, n);
    vstd::arithmetic::div_mod::lemma_fundamental_div_mod(m, n);
    vstd::arithmetic::div_mod::lemma_mod_pos_bound(m, n);
    let q = m / n;
    assert(0 <= n * q <= m) by (nonlinear_arith)
        requires
            m == n * q + m % n,
            0 <= m % n < n,
            n > 0,
            m >= 0,
    ;
    assert(q >= 0) by (nonlinear_arith)
        requires
            0 <= n * q,
            n > 0,
    ;
    assert(q <= m) by (nonlinear_arith)
        requires
            n * q <= m,
            n >= 1,
            q >= 0,
    ;
    assert(crate::fixed::div_toward_zero(big * 65536, n * 65536) == if big >= 0 {
        q
    } else {
        -q
    });
    assert(step.raw == if big >= 0 {
        q
    } else {
        -q
    });
    assert(n * step.raw == if big >= 0 {
        n * q
    } else {
        -(n * q)
    }) by (nonlinear_arith)
        requires
            step.raw == if big >= 0 {
                q
            } else {
                -q
            },
    ;
    lemma_sample_closed_form(d0, step, n as nat);
}

} // verus!
