//! Lattice points and axis-aligned integer boxes ("extents") in two and three dimensions.

use vstd::prelude::*;

verus! {

/// The larger of two integers.
pub open spec fn max_int(a: int, b: int) -> int {
    if a >= b { a } else { b }
}

/// The smaller of two integers.
pub open spec fn min_int(a: int, b: int) -> int {
    if a <= b { a } else { b }
}

/// Whether an integer is representable as an `i32`.
pub open spec fn in_i32(v: int) -> bool {
    i32::MIN <= v <= i32::MAX
}

/// A point of the three-dimensional integer lattice.
#[derive(Clone, Copy, Debug, PartialEq, Eq, Structural)]
pub struct Point3i {
    pub x: i32,
    pub y: i32,
    pub z: i32,
}

/// A point of the two-dimensional integer lattice.
#[derive(Clone, Copy, Debug, PartialEq, Eq, Structural)]
pub struct Point2i {
    pub x: i32,
    pub y: i32,
}

impl Point3i {
    pub fn new(x: i32, y: i32, z: i32) -> (r: Point3i)
        ensures
            r == (Point3i { x, y, z }),
    {
        Point3i { x, y, z }
    }

    /// The point with every coordinate equal to `v`.
    pub fn fill(v: i32) -> (r: Point3i)
        ensures
            r == (Point3i { x: v, y: v, z: v }),
    {
        Point3i { x: v, y: v, z: v }
    }
}

impl Point2i {
    pub fn new(x: i32, y: i32) -> (r: Point2i)
        ensures
            r == (Point2i { x, y }),
    {
        Point2i { x, y }
    }

    /// The point with every coordinate equal to `v`.
    pub fn fill(v: i32) -> (r: Point2i)
        ensures
            r == (Point2i { x: v, y: v }),
    {
        Point2i { x: v, y: v }
    }
}

/// An axis-aligned box of lattice points: the points `p` with
/// `minimum <= p < minimum + shape` on every axis. A non-positive shape on some
/// axis makes the box empty.
#[derive(Clone, Copy, Debug, PartialEq, Eq, Structural)]
pub struct Extent3i {
    pub minimum: Point3i,
    pub shape: Point3i,
}

/// The two-dimensional counterpart of [`Extent3i`].
#[derive(Clone, Copy, Debug, PartialEq, Eq, Structural)]
pub struct Extent2i {
    pub minimum: Point2i,
    pub shape: Point2i,
}

/// Whether `p` lies in the half-open interval that starts at `lo` and spans `len` points.
pub open spec fn axis_contains(lo: int, len: int, p: int) -> bool {
    lo <= p < lo + len
}

/// Whether the interval `[lo, lo + len)` lies inside `[dlo, dlo + dlen)`.
pub open spec fn axis_within(lo: int, len: int, dlo: int, dlen: int) -> bool {
    dlo <= lo && lo + len <= dlo + dlen
}

/// Start of the intersection of two intervals.
pub open spec fn axis_meet_lo(alo: int, blo: int) -> int {
    max_int(alo, blo)
}

/// Length of the intersection of two intervals; negative when they are far apart.
pub open spec fn axis_meet_len(alo: int, alen: int, blo: int, blen: int) -> int {
    min_int(alo + alen, blo + blen) - max_int(alo, blo)
}

fn meet_axis(alo: i32, alen: i32, blo: i32, blen: i32) -> (r: (i32, i32))
    requires
        in_i32(alo + alen),
        in_i32(blo + blen),
        in_i32(axis_meet_len(alo as int, alen as int, blo as int, blen as int)),
    ensures
        r.0 == axis_meet_lo(alo as int, blo as int),
        r.1 == axis_meet_len(alo as int, alen as int, blo as int, blen as int),
{
    let lo = if alo >= blo { alo } else { blo };
    let alub = alo as i64 + alen as i64;
    let blub = blo as i64 + blen as i64;
    let lub = if alub <= blub { alub } else { blub };
    (lo, (lub - lo as i64) as i32)
}

fn lt_lub(p: i32, lo: i32, len: i32) -> (r: bool)
    ensures
        r == (p < lo + len),
{
    (p as i64) < (lo as i64) + (len as i64)
}

impl Extent3i {
    pub fn from_min_and_shape(minimum: Point3i, shape: Point3i) -> (r: Extent3i)
        ensures
            r == (Extent3i { minimum, shape }),
    {
        Extent3i { minimum, shape }
    }

    pub open spec fn contains_spec(self, p: Point3i) -> bool {
        &&& axis_contains(self.minimum.x as int, self.shape.x as int, p.x as int)
        &&& axis_contains(self.minimum.y as int, self.shape.y as int, p.y as int)
        &&& axis_contains(self.minimum.z as int, self.shape.z as int, p.z as int)
    }

    /// Every axis of `self` lies within the same axis of `other`.
    pub open spec fn is_within(self, other: Extent3i) -> bool {
        &&& axis_within(self.minimum.x as int, self.shape.x as int, other.minimum.x as int, other.shape.x as int)
        &&& axis_within(self.minimum.y as int, self.shape.y as int, other.minimum.y as int, other.shape.y as int)
        &&& axis_within(self.minimum.z as int, self.shape.z as int, other.minimum.z as int, other.shape.z as int)
    }

    /// The least upper bound `minimum + shape` is representable on every axis.
    pub open spec fn bounded(self) -> bool {
        &&& in_i32(self.minimum.x + self.shape.x)
        &&& in_i32(self.minimum.y + self.shape.y)
        &&& in_i32(self.minimum.z + self.shape.z)
    }

    /// No axis has a negative shape.
    pub open spec fn nonnegative(self) -> bool {
        self.shape.x >= 0 && self.shape.y >= 0 && self.shape.z >= 0
    }

    pub open spec fn can_pad(self, n: int) -> bool {
        &&& in_i32(self.minimum.x - n) && in_i32(self.shape.x + 2 * n)
        &&& in_i32(self.minimum.y - n) && in_i32(self.shape.y + 2 * n)
        &&& in_i32(self.minimum.z - n) && in_i32(self.shape.z + 2 * n)
    }

    /// The extent grown by `n` on every face.
    pub open spec fn padded_spec(self, n: int) -> Extent3i {
        Extent3i {
            minimum: Point3i {
                x: (self.minimum.x - n) as i32,
                y: (self.minimum.y - n) as i32,
                z: (self.minimum.z - n) as i32,
            },
            shape: Point3i {
                x: (self.shape.x + 2 * n) as i32,
                y: (self.shape.y + 2 * n) as i32,
                z: (self.shape.z + 2 * n) as i32,
            },
        }
    }

    pub open spec fn can_add_to_shape(self, d: Point3i) -> bool {
        in_i32(self.shape.x + d.x) && in_i32(self.shape.y + d.y) && in_i32(self.shape.z + d.z)
    }

    /// The extent with the same minimum and its shape grown by `d`.
    pub open spec fn add_to_shape_spec(self, d: Point3i) -> Extent3i {
        Extent3i {
            minimum: self.minimum,
            shape: Point3i {
                x: (self.shape.x + d.x) as i32,
                y: (self.shape.y + d.y) as i32,
                z: (self.shape.z + d.z) as i32,
            },
        }
    }

    pub open spec fn can_intersect(self, o: Extent3i) -> bool {
        &&& self.bounded() && o.bounded()
        &&& in_i32(axis_meet_len(self.minimum.x as int, self.shape.x as int, o.minimum.x as int, o.shape.x as int))
        &&& in_i32(axis_meet_len(self.minimum.y as int, self.shape.y as int, o.minimum.y as int, o.shape.y as int))
        &&& in_i32(axis_meet_len(self.minimum.z as int, self.shape.z as int, o.minimum.z as int, o.shape.z as int))
    }

    /// The largest extent inside both `self` and `o`: on each axis its minimum
    /// is the larger minimum and its least upper bound the smaller one.
    pub open spec fn intersection_spec(self, o: Extent3i) -> Extent3i {
        Extent3i {
            minimum: Point3i {
                x: axis_meet_lo(self.minimum.x as int, o.minimum.x as int) as i32,
                y: axis_meet_lo(self.minimum.y as int, o.minimum.y as int) as i32,
                z: axis_meet_lo(self.minimum.z as int, o.minimum.z as int) as i32,
            },
            shape: Point3i {
                x: axis_meet_len(self.minimum.x as int, self.shape.x as int, o.minimum.x as int, o.shape.x as int) as i32,
                y: axis_meet_len(self.minimum.y as int, self.shape.y as int, o.minimum.y as int, o.shape.y as int) as i32,
                z: axis_meet_len(self.minimum.z as int, self.shape.z as int, o.minimum.z as int, o.shape.z as int) as i32,
            },
        }
    }

    /// Whether `p` lies in the extent.
    pub fn contains(&self, p: &Point3i) -> (r: bool)
        ensures
            r == self.contains_spec(*p),
    {
        self.minimum.x <= p.x && lt_lub(p.x, self.minimum.x, self.shape.x)
            && self.minimum.y <= p.y && lt_lub(p.y, self.minimum.y, self.shape.y)
            && self.minimum.z <= p.z && lt_lub(p.z, self.minimum.z, self.shape.z)
    }

    /// Grows the extent by `n` on every face.
    pub fn padded(&self, n: i32) -> (r: Extent3i)
        requires
            self.can_pad(n as int),
        ensures
            r == self.padded_spec(n as int),
    {
        Extent3i {
            minimum: Point3i {
                x: self.minimum.x - n,
                y: self.minimum.y - n,
                z: self.minimum.z - n,
            },
            shape: Point3i {
                x: self.shape.x + n + n,
                y: self.shape.y + n + n,
                z: self.shape.z + n + n,
            },
        }
    }

    /// Grows the maximum corner by `d`, keeping the minimum.
    pub fn add_to_shape(&self, d: Point3i) -> (r: Extent3i)
        requires
            self.can_add_to_shape(d),
        ensures
            r == self.add_to_shape_spec(d),
    {
        Extent3i {
            minimum: self.minimum,
            shape: Point3i {
                x: self.shape.x + d.x,
                y: self.shape.y + d.y,
                z: self.shape.z + d.z,
            },
        }
    }

    /// Clips the extent to `o`.
    pub fn intersection(&self, o: &Extent3i) -> (r: Extent3i)
        requires
            self.can_intersect(*o),
        ensures
            r == self.intersection_spec(*o),
    {
        let (x, sx) = meet_axis(self.minimum.x, self.shape.x, o.minimum.x, o.shape.x);
        let (y, sy) = meet_axis(self.minimum.y, self.shape.y, o.minimum.y, o.shape.y);
        let (z, sz) = meet_axis(self.minimum.z, self.shape.z, o.minimum.z, o.shape.z);
        Extent3i { minimum: Point3i { x, y, z }, shape: Point3i { x: sx, y: sy, z: sz } }
    }
}

impl Extent2i {
    pub fn from_min_and_shape(minimum: Point2i, shape: Point2i) -> (r: Extent2i)
        ensures
            r == (Extent2i { minimum, shape }),
    {
        Extent2i { minimum, shape }
    }

    pub open spec fn contains_spec(self, p: Point2i) -> bool {
        &&& axis_contains(self.minimum.x as int, self.shape.x as int, p.x as int)
        &&& axis_contains(self.minimum.y as int, self.shape.y as int, p.y as int)
    }

    /// Every axis of `self` lies within the same axis of `other`.
    pub open spec fn is_within(self, other: Extent2i) -> bool {
        &&& axis_within(self.minimum.x as int, self.shape.x as int, other.minimum.x as int, other.shape.x as int)
        &&& axis_within(self.minimum.y as int, self.shape.y as int, other.minimum.y as int, other.shape.y as int)
    }

    /// The least upper bound `minimum + shape` is representable on every axis.
    pub open spec fn bounded(self) -> bool {
        &&& in_i32(self.minimum.x + self.shape.x)
        &&& in_i32(self.minimum.y + self.shape.y)
    }

    /// No axis has a negative shape.
    pub open spec fn nonnegative(self) -> bool {
        self.shape.x >= 0 && self.shape.y >= 0
    }

    pub open spec fn can_pad(self, n: int) -> bool {
        &&& in_i32(self.minimum.x - n) && in_i32(self.shape.x + 2 * n)
        &&& in_i32(self.minimum.y - n) && in_i32(self.shape.y + 2 * n)
    }

    /// The extent grown by `n` on every face.
    pub open spec fn padded_spec(self, n: int) -> Extent2i {
        Extent2i {
            minimum: Point2i {
                x: (self.minimum.x - n) as i32,
                y: (self.minimum.y - n) as i32,
            },
            shape: Point2i {
                x: (self.shape.x + 2 * n) as i32,
                y: (self.shape.y + 2 * n) as i32,
            },
        }
    }

    pub open spec fn can_add_to_shape(self, d: Point2i) -> bool {
        in_i32(self.shape.x + d.x) && in_i32(self.shape.y + d.y)
    }

    /// The extent with the same minimum and its shape grown by `d`.
    pub open spec fn add_to_shape_spec(self, d: Point2i) -> Extent2i {
        Extent2i {
            minimum: self.minimum,
            shape: Point2i {
                x: (self.shape.x + d.x) as i32,
                y: (self.shape.y + d.y) as i32,
            },
        }
    }

    pub open spec fn can_intersect(self, o: Extent2i) -> bool {
        &&& self.bounded() && o.bounded()
        &&& in_i32(axis_meet_len(self.minimum.x as int, self.shape.x as int, o.minimum.x as int, o.shape.x as int))
        &&& in_i32(axis_meet_len(self.minimum.y as int, self.shape.y as int, o.minimum.y as int, o.shape.y as int))
    }

    /// The largest extent inside both `self` and `o`: on each axis its minimum
    /// is the larger minimum and its least upper bound the smaller one.
    pub open spec fn intersection_spec(self, o: Extent2i) -> Extent2i {
        Extent2i {
            minimum: Point2i {
                x: axis_meet_lo(self.minimum.x as int, o.minimum.x as int) as i32,
                y: axis_meet_lo(self.minimum.y as int, o.minimum.y as int) as i32,
            },
            shape: Point2i {
                x: axis_meet_len(self.minimum.x as int, self.shape.x as int, o.minimum.x as int, o.shape.x as int) as i32,
                y: axis_meet_len(self.minimum.y as int, self.shape.y as int, o.minimum.y as int, o.shape.y as int) as i32,
            },
        }
    }

    /// Whether `p` lies in the extent.
    pub fn contains(&self, p: &Point2i) -> (r: bool)
        ensures
            r == self.contains_spec(*p),
    {
        self.minimum.x <= p.x && lt_lub(p.x, self.minimum.x, self.shape.x)
            && self.minimum.y <= p.y && lt_lub(p.y, self.minimum.y, self.shape.y)
    }

    /// Grows the extent by `n` on every face.
    pub fn padded(&self, n: i32) -> (r: Extent2i)
        requires
            self.can_pad(n as int),
        ensures
            r == self.padded_spec(n as int),
    {
        Extent2i {
            minimum: Point2i {
                x: self.minimum.x - n,
                y: self.minimum.y - n,
            },
            shape: Point2i {
                x: self.shape.x + n + n,
                y: self.shape.y + n + n,
            },
        }
    }

    /// Grows the maximum corner by `d`, keeping the minimum.
    pub fn add_to_shape(&self, d: Point2i) -> (r: Extent2i)
        requires
            self.can_add_to_shape(d),
        ensures
            r == self.add_to_shape_spec(d),
    {
        Extent2i {
            minimum: self.minimum,
            shape: Point2i {
                x: self.shape.x + d.x,
                y: self.shape.y + d.y,
            },
        }
    }

    /// Clips the extent to `o`.
    pub fn intersection(&self, o: &Extent2i) -> (r: Extent2i)
        requires
            self.can_intersect(*o),
        ensures
            r == self.intersection_spec(*o),
    {
        let (x, sx) = meet_axis(self.minimum.x, self.shape.x, o.minimum.x, o.shape.x);
        let (y, sy) = meet_axis(self.minimum.y, self.shape.y, o.minimum.y, o.shape.y);
        Extent2i { minimum: Point2i { x, y }, shape: Point2i { x: sx, y: sy } }
    }
}

/// Clipping never grows an extent: the intersection lies within both operands.
pub proof fn lemma_intersection_within3(a: Extent3i, b: Extent3i)
    requires
        a.can_intersect(b),
    ensures
        a.intersection_spec(b).minimum.x >= a.minimum.x && a.intersection_spec(b).minimum.x >= b.minimum.x,
        a.intersection_spec(b).minimum.y >= a.minimum.y && a.intersection_spec(b).minimum.y >= b.minimum.y,
        a.intersection_spec(b).minimum.z >= a.minimum.z && a.intersection_spec(b).minimum.z >= b.minimum.z,
        a.intersection_spec(b).minimum.x + a.intersection_spec(b).shape.x <= a.minimum.x + a.shape.x,
        a.intersection_spec(b).minimum.x + a.intersection_spec(b).shape.x <= b.minimum.x + b.shape.x,
        a.intersection_spec(b).minimum.y + a.intersection_spec(b).shape.y <= a.minimum.y + a.shape.y,
        a.intersection_spec(b).minimum.y + a.intersection_spec(b).shape.y <= b.minimum.y + b.shape.y,
        a.intersection_spec(b).minimum.z + a.intersection_spec(b).shape.z <= a.minimum.z + a.shape.z,
        a.intersection_spec(b).minimum.z + a.intersection_spec(b).shape.z <= b.minimum.z + b.shape.z,
{
}

/// Clipping never grows an extent: the intersection lies within both operands.
pub proof fn lemma_intersection_within2(a: Extent2i, b: Extent2i)
    requires
        a.can_intersect(b),
    ensures
        a.intersection_spec(b).minimum.x >= a.minimum.x && a.intersection_spec(b).minimum.x >= b.minimum.x,
        a.intersection_spec(b).minimum.y >= a.minimum.y && a.intersection_spec(b).minimum.y >= b.minimum.y,
        a.intersection_spec(b).minimum.x + a.intersection_spec(b).shape.x <= a.minimum.x + a.shape.x,
        a.intersection_spec(b).minimum.x + a.intersection_spec(b).shape.x <= b.minimum.x + b.shape.x,
        a.intersection_spec(b).minimum.y + a.intersection_spec(b).shape.y <= a.minimum.y + a.shape.y,
        a.intersection_spec(b).minimum.y + a.intersection_spec(b).shape.y <= b.minimum.y + b.shape.y,
{
}

} // verus!
