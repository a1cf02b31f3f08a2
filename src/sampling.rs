//! Dense arrays of samples over an extent, filled from a field through a
//! sampling domain: points of the domain take the field's value, all other
//! points the ambient value.

use vstd::prelude::*;
use crate::geometry::{Extent2i, Extent3i, Point2i, Point3i};

verus! {

/// Position of `p` in the x-fastest, then y, then z layout of `e`.
pub open spec fn index3(e: Extent3i, p: Point3i) -> int {
    (p.x - e.minimum.x) + e.shape.x * ((p.y - e.minimum.y) + e.shape.y * (p.z - e.minimum.z))
}

/// Position of `p` in the x-fastest, then y layout of `e`.
pub open spec fn index2(e: Extent2i, p: Point2i) -> int {
    (p.x - e.minimum.x) + e.shape.x * (p.y - e.minimum.y)
}

pub open spec fn volume3(e: Extent3i) -> int {
    e.shape.x * e.shape.y * e.shape.z
}

pub open spec fn volume2(e: Extent2i) -> int {
    e.shape.x * e.shape.y
}

/// `v` is what sampling gives at `p`: a value the field returns there when
/// `p` is in `domain`, else `ambient`.
pub open spec fn sampled3<T, F: Fn(Point3i) -> T>(field: F, domain: Extent3i, ambient: T, p: Point3i, v: T) -> bool {
    if domain.contains_spec(p) {
        field.ensures((p,), v)
    } else {
        v == ambient
    }
}

/// `v` is what sampling gives at `p`: a value the field returns there when
/// `p` is in `domain`, else `ambient`.
pub open spec fn sampled2<T, F: Fn(Point2i) -> T>(field: F, domain: Extent2i, ambient: T, p: Point2i, v: T) -> bool {
    if domain.contains_spec(p) {
        field.ensures((p,), v)
    } else {
        v == ambient
    }
}

/// A dense array of values, one for each point of its extent.
pub struct Array3<T> {
    extent: Extent3i,
    values: Vec<T>,
}

/// A dense array of values, one for each point of its extent.
pub struct Array2<T> {
    extent: Extent2i,
    values: Vec<T>,
}

proof fn lemma_index3_lt(dx: int, dy: int, dz: int, cx: int, cy: int, cz: int, sx: int, sy: int)
    requires
        0 <= dx < sx,
        0 <= dy < sy,
        0 <= dz,
        0 <= cx,
        0 <= cy,
        0 <= cz,
        dz < cz || (dz == cz && (dy < cy || (dy == cy && dx < cx))),
    ensures
        dx + sx * (dy + sy * dz) < cx + sx * (cy + sy * cz),
{
    assert(sx * (dy + sy * dz) == sx * dy + sx * sy * dz) by (nonlinear_arith);
    assert(sx * (cy + sy * cz) == sx * cy + sx * sy * cz) by (nonlinear_arith);
    assert(sx * cy >= 0) by (nonlinear_arith)
        requires
            sx > 0,
            cy >= 0,
    ;
    if dz < cz {
        assert(sx * dy <= sx * (sy - 1)) by (nonlinear_arith)
            requires
                0 <= dy < sy,
                sx > 0,
        ;
        assert(sx * sy * dz + sx * sy <= sx * sy * cz) by (nonlinear_arith)
            requires
                dz < cz,
                sx > 0,
                sy > 0,
        ;
        assert(sx * (sy - 1) + sx == sx * sy) by (nonlinear_arith);
    } else if dy < cy {
        assert(sx * dy + sx <= sx * cy) by (nonlinear_arith)
            requires
                dy < cy,
                sx > 0,
        ;
    }
}

proof fn lemma_index2_lt(dx: int, dy: int, cx: int, cy: int, sx: int)
    requires
        0 <= dx < sx,
        0 <= dy,
        0 <= cx,
        0 <= cy,
        dy < cy || (dy == cy && dx < cx),
    ensures
        dx + sx * dy < cx + sx * cy,
{
    if dy < cy {
        assert(sx * dy + sx <= sx * cy) by (nonlinear_arith)
            requires
                dy < cy,
                sx > 0,
        ;
    }
}

proof fn lemma_next_row(sx: int, sy: int, dy: int, dz: int)
    ensures
        sx + sx * (dy + sy * dz) == 0 + sx * ((dy + 1) + sy * dz),
{
    assert(sx * ((dy + 1) + sy * dz) == sx + sx * (dy + sy * dz)) by (nonlinear_arith);
}

proof fn lemma_next_layer(sx: int, sy: int, dz: int)
    ensures
        0 + sx * (sy + sy * dz) == 0 + sx * (0 + sy * (dz + 1)),
{
    assert(sy * (dz + 1) == sy + sy * dz) by (nonlinear_arith);
}

/// Samples over `extent`: each point of `domain` takes the value that `field`
/// returns for it, each other point `ambient`. This is what reading a chunked
/// store gives after the field was written into it over `domain`.
pub fn sample3<T: Copy, F: Fn(Point3i) -> T>(
    field: &F,
    domain: &Extent3i,
    extent: &Extent3i,
    ambient: T,
) -> (r: Array3<T>)
    requires
        extent.nonnegative(),
        extent.bounded(),
        volume3(*extent) <= usize::MAX,
        forall|p: Point3i| #[trigger] field.requires((p,)),
    ensures
        r.wf(),
        r.extent_spec() == *extent,
        forall|p: Point3i|
            #[trigger] extent.contains_spec(p) ==> sampled3(*field, *domain, ambient, p, r.value_at(p)),
{
    let mx = extent.minimum.x;
    let my = extent.minimum.y;
    let mz = extent.minimum.z;
    let ux = mx + extent.shape.x;
    let uy = my + extent.shape.y;
    let uz = mz + extent.shape.z;
    let ghost sx = extent.shape.x as int;
    let ghost sy = extent.shape.y as int;
    let mut values: Vec<T> = Vec::new();
    let mut z = mz;
    proof {
        assert(sx * (0 + sy * 0) == 0) by (nonlinear_arith);
    }
    while z < uz
        invariant
            mx == extent.minimum.x && my == extent.minimum.y && mz == extent.minimum.z,
            ux == mx + extent.shape.x && uy == my + extent.shape.y && uz == mz + extent.shape.z,
            sx == extent.shape.x && sy == extent.shape.y,
            extent.nonnegative(),
            forall|p: Point3i| #[trigger] field.requires((p,)),
            mz <= z <= uz,
            values@.len() == index3(*extent, Point3i { x: mx, y: my, z }),
            forall|q: Point3i|
                #[trigger] extent.contains_spec(q) && q.z < z ==> sampled3(
                    *field,
                    *domain,
                    ambient,
                    q,
                    values@[index3(*extent, q)],
                ),
        decreases uz - z,
    {
        let mut y = my;
        while y < uy
            invariant
                mx == extent.minimum.x && my == extent.minimum.y && mz == extent.minimum.z,
                ux == mx + extent.shape.x && uy == my + extent.shape.y && uz == mz + extent.shape.z,
                sx == extent.shape.x && sy == extent.shape.y,
                extent.nonnegative(),
                forall|p: Point3i| #[trigger] field.requires((p,)),
                mz <= z < uz,
                my <= y <= uy,
                values@.len() == index3(*extent, Point3i { x: mx, y, z }),
                forall|q: Point3i|
                    #[trigger] extent.contains_spec(q) && (q.z < z || (q.z == z && q.y < y)) ==> sampled3(
                        *field,
                        *domain,
                        ambient,
                        q,
                        values@[index3(*extent, q)],
                    ),
            decreases uy - y,
        {
            let mut x = mx;
            while x < ux
                invariant
                    mx == extent.minimum.x && my == extent.minimum.y && mz == extent.minimum.z,
                    ux == mx + extent.shape.x && uy == my + extent.shape.y && uz == mz + extent.shape.z,
                    sx == extent.shape.x && sy == extent.shape.y,
                    extent.nonnegative(),
                    forall|p: Point3i| #[trigger] field.requires((p,)),
                    mz <= z < uz,
                    my <= y < uy,
                    mx <= x <= ux,
                    values@.len() == index3(*extent, Point3i { x, y, z }),
                    forall|q: Point3i|
                        #[trigger] extent.contains_spec(q) && (q.z < z || (q.z == z && (q.y < y || (q.y == y
                            && q.x < x)))) ==> sampled3(
                            *field,
                            *domain,
                            ambient,
                            q,
                            values@[index3(*extent, q)],
                        ),
                decreases ux - x,
            {
                let p = Point3i { x, y, z };
                let v = if domain.contains(&p) {
                    field(p)
                } else {
                    ambient
                };
                let ghost old = values@;
                values.push(v);
                proof {
                    assert forall|q: Point3i|
                        #[trigger] extent.contains_spec(q) && (q.z < z || (q.z == z && (q.y < y || (q.y == y
                            && q.x < x + 1)))) implies sampled3(
                        *field,
                        *domain,
                        ambient,
                        q,
                        values@[index3(*extent, q)],
                    ) by {
                        if q == p {
                            assert(values@[old.len() as int] == v);
                        } else {
                            lemma_index3_lt(
                                q.x - mx, q.y - my, q.z - mz, x - mx, y - my, z - mz, sx, sy,
                            );
                            assert(values@[index3(*extent, q)] == old[index3(*extent, q)]);
                        }
                    }
                }
                x = x + 1;
            }
            proof {
                lemma_next_row(sx, sy, y - my, z - mz);
            }
            y = y + 1;
        }
        proof {
            lemma_next_layer(sx, sy, z - mz);
        }
        z = z + 1;
    }
    proof {
        assert(sx * (0 + sy * extent.shape.z) == sx * sy * extent.shape.z) by (nonlinear_arith);
    }
    Array3 { extent: *extent, values }
}

/// Samples over `extent`: each point of `domain` takes the value that `field`
/// returns for it, each other point `ambient`. This is what reading a chunked
/// store gives after the field was written into it over `domain`.
pub fn sample2<T: Copy, F: Fn(Point2i) -> T>(
    field: &F,
    domain: &Extent2i,
    extent: &Extent2i,
    ambient: T,
) -> (r: Array2<T>)
    requires
        extent.nonnegative(),
        extent.bounded(),
        volume2(*extent) <= usize::MAX,
        forall|p: Point2i| #[trigger] field.requires((p,)),
    ensures
        r.wf(),
        r.extent_spec() == *extent,
        forall|p: Point2i|
            #[trigger] extent.contains_spec(p) ==> sampled2(*field, *domain, ambient, p, r.value_at(p)),
{
    let mx = extent.minimum.x;
    let my = extent.minimum.y;
    let ux = mx + extent.shape.x;
    let uy = my + extent.shape.y;
    let ghost sx = extent.shape.x as int;
    let mut values: Vec<T> = Vec::new();
    let mut y = my;
    proof {
        assert(sx * 0 == 0);
    }
    while y < uy
        invariant
            mx == extent.minimum.x && my == extent.minimum.y,
            ux == mx + extent.shape.x && uy == my + extent.shape.y,
            sx == extent.shape.x,
            extent.nonnegative(),
            forall|p: Point2i| #[trigger] field.requires((p,)),
            my <= y <= uy,
            values@.len() == index2(*extent, Point2i { x: mx, y }),
            forall|q: Point2i|
                #[trigger] extent.contains_spec(q) && q.y < y ==> sampled2(
                    *field,
                    *domain,
                    ambient,
                    q,
                    values@[index2(*extent, q)],
                ),
        decreases uy - y,
    {
        let mut x = mx;
        while x < ux
            invariant
                mx == extent.minimum.x && my == extent.minimum.y,
                ux == mx + extent.shape.x && uy == my + extent.shape.y,
                sx == extent.shape.x,
                extent.nonnegative(),
                forall|p: Point2i| #[trigger] field.requires((p,)),
                my <= y < uy,
                mx <= x <= ux,
                values@.len() == index2(*extent, Point2i { x, y }),
                forall|q: Point2i|
                    #[trigger] extent.contains_spec(q) && (q.y < y || (q.y == y && q.x < x)) ==> sampled2(
                        *field,
                        *domain,
                        ambient,
                        q,
                        values@[index2(*extent, q)],
                    ),
            decreases ux - x,
        {
            let p = Point2i { x, y };
            let v = if domain.contains(&p) {
                field(p)
            } else {
                ambient
            };
            let ghost old = values@;
            values.push(v);
            proof {
                assert forall|q: Point2i|
                    #[trigger] extent.contains_spec(q) && (q.y < y || (q.y == y && q.x < x + 1)) implies sampled2(
                    *field,
                    *domain,
                    ambient,
                    q,
                    values@[index2(*extent, q)],
                ) by {
                    if q == p {
                        assert(values@[old.len() as int] == v);
                    } else {
                        lemma_index2_lt(q.x - mx, q.y - my, x - mx, y - my, sx);
                        assert(values@[index2(*extent, q)] == old[index2(*extent, q)]);
                    }
                }
            }
            x = x + 1;
        }
        proof {
            assert(sx + sx * (y - my) == sx * (y + 1 - my)) by (nonlinear_arith);
        }
        y = y + 1;
    }
    Array2 { extent: *extent, values }
}

impl<T> Array3<T> {
    pub closed spec fn extent_spec(&self) -> Extent3i {
        self.extent
    }

    pub closed spec fn values_spec(&self) -> Seq<T> {
        self.values@
    }

    /// One value for each point of the extent, whose shape is nowhere negative.
    pub open spec fn wf(&self) -> bool {
        &&& self.extent_spec().nonnegative()
        &&& self.values_spec().len() == volume3(self.extent_spec())
    }

    /// The value stored for `p`.
    pub open spec fn value_at(&self, p: Point3i) -> T {
        self.values_spec()[index3(self.extent_spec(), p)]
    }

    pub fn extent(&self) -> (r: Extent3i)
        ensures
            r == self.extent_spec(),
    {
        self.extent
    }

    /// The values, x fastest, then y, then z.
    pub fn values(&self) -> (r: &Vec<T>)
        ensures
            r@ == self.values_spec(),
    {
        &self.values
    }

    /// The value stored for `p`.
    pub fn get(&self, p: &Point3i) -> (r: &T)
        requires
            self.wf(),
            self.extent_spec().contains_spec(*p),
        ensures
            *r == self.value_at(*p),
    {
        let e = self.extent;
        let dx = (p.x as i64 - e.minimum.x as i64) as usize;
        let dy = (p.y as i64 - e.minimum.y as i64) as usize;
        let dz = (p.z as i64 - e.minimum.z as i64) as usize;
        let sx = e.shape.x as usize;
        let sy = e.shape.y as usize;
        let sz = e.shape.z as usize;
        let n = self.values.len();
        proof {
            lemma_index3_lt(dx as int, dy as int, dz as int, 0, 0, sz as int, sx as int, sy as int);
            assert(sx * (0 + sy * sz) == sx * sy * sz) by (nonlinear_arith);
            assert(sy * dz >= 0) by (nonlinear_arith);
            assert(dy + sy * dz <= sx * (dy + sy * dz)) by (nonlinear_arith)
                requires
                    sx >= 1,
                    dy + sy * dz >= 0,
            ;
            assert(dx + sx * (dy + sy * dz) < n);
        }
        let inner = dy + sy * dz;
        let i = dx + sx * inner;
        &self.values[i]
    }

    /// The values, x fastest, then y, then z.
    pub fn into_values(self) -> (r: Vec<T>)
        ensures
            r@ == self.values_spec(),
    {
        self.values
    }
}

impl<T> Array2<T> {
    pub closed spec fn extent_spec(&self) -> Extent2i {
        self.extent
    }

    pub closed spec fn values_spec(&self) -> Seq<T> {
        self.values@
    }

    /// One value for each point of the extent, whose shape is nowhere negative.
    pub open spec fn wf(&self) -> bool {
        &&& self.extent_spec().nonnegative()
        &&& self.values_spec().len() == volume2(self.extent_spec())
    }

    /// The value stored for `p`.
    pub open spec fn value_at(&self, p: Point2i) -> T {
        self.values_spec()[index2(self.extent_spec(), p)]
    }

    pub fn extent(&self) -> (r: Extent2i)
        ensures
            r == self.extent_spec(),
    {
        self.extent
    }

    /// The values, x fastest, then y.
    pub fn values(&self) -> (r: &Vec<T>)
        ensures
            r@ == self.values_spec(),
    {
        &self.values
    }

    /// The value stored for `p`.
    pub fn get(&self, p: &Point2i) -> (r: &T)
        requires
            self.wf(),
            self.extent_spec().contains_spec(*p),
        ensures
            *r == self.value_at(*p),
    {
        let e = self.extent;
        let dx = (p.x as i64 - e.minimum.x as i64) as usize;
        let dy = (p.y as i64 - e.minimum.y as i64) as usize;
        let sx = e.shape.x as usize;
        let sy = e.shape.y as usize;
        let n = self.values.len();
        proof {
            lemma_index2_lt(dx as int, dy as int, 0, sy as int, sx as int);
            assert(sx * dy >= 0) by (nonlinear_arith)
                requires
                    sx >= 1,
                    dy >= 0,
            ;
            assert(dx + sx * dy < n);
        }
        let i = dx + sx * dy;
        &self.values[i]
    }

    /// The values, x fastest, then y.
    pub fn into_values(self) -> (r: Vec<T>)
        ensures
            r@ == self.values_spec(),
    {
        self.values
    }
}

} // verus!
