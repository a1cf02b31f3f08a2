//! Chunks: fixed-shape boxes that tile the lattice, each named by its minimum corner.

use vstd::prelude::*;
use vstd::arithmetic::div_mod::{
    lemma_fundamental_div_mod, lemma_mod_add_multiples_vanish, lemma_mod_bound,
    lemma_mod_multiples_vanish, lemma_small_mod,
};
use crate::geometry::{Extent2i, Extent3i, Point2i, Point3i, in_i32};

verus! {

/// The start of the chunk of side `s` (along one axis) that holds coordinate `p`.
pub open spec fn chunk_min_axis(p: int, s: int) -> int {
    p - p % s
}

/// Whether `v` occurs in `s`.
pub open spec fn seq_has(s: Seq<i32>, v: int) -> bool {
    exists|i: int| 0 <= i < s.len() && s[i] == v
}

/// Whether the chunk that starts at `k` and spans `s` overlaps `[lo, hi)`.
pub open spec fn chunk_overlaps_axis(k: int, s: int, lo: int, hi: int) -> bool {
    k % s == 0 && k < hi && lo < k + s
}

proof fn lemma_chunk_min_axis(p: int, s: int)
    requires
        s > 0,
    ensures
        chunk_min_axis(p, s) % s == 0,
        chunk_min_axis(p, s) <= p < chunk_min_axis(p, s) + s,
{
    lemma_mod_bound(p, s);
    lemma_fundamental_div_mod(p, s);
    lemma_mod_multiples_vanish(p / s, 0, s);
    assert(chunk_min_axis(p, s) == s * (p / s) + 0);
}

proof fn lemma_chunk_min_of_member(k: int, p: int, s: int)
    requires
        s > 0,
        k % s == 0,
        k <= p < k + s,
    ensures
        chunk_min_axis(p, s) == k,
{
    lemma_fundamental_div_mod(k, s);
    lemma_mod_multiples_vanish(k / s, p - k, s);
    lemma_small_mod((p - k) as nat, s as nat);
    assert(p == s * (k / s) + (p - k));
}

/// Start of the chunk of side `s` that holds `p`.
pub fn chunk_min_containing(p: i32, s: i32) -> (r: i32)
    requires
        s > 0,
        in_i32(chunk_min_axis(p as int, s as int)),
    ensures
        r == chunk_min_axis(p as int, s as int),
{
    let m = p.checked_rem_euclid(s).unwrap();
    (p as i64 - m as i64) as i32
}

/// The starts, in increasing order, of the chunks of side `s` that overlap the
/// interval of `len` points starting at `lo`.
pub fn chunk_mins_covering(lo: i32, len: i32, s: i32) -> (r: Vec<i32>)
    requires
        s > 0,
        in_i32(lo + len),
        in_i32(chunk_min_axis(lo as int, s as int)),
    ensures
        forall|i: int|
            0 <= i < r@.len() ==> chunk_overlaps_axis(
                #[trigger] r@[i] as int,
                s as int,
                lo as int,
                lo + len,
            ),
        forall|i: int, j: int| 0 <= i < j < r@.len() ==> r@[i] < r@[j],
        forall|p: int|
            lo <= p < lo + len ==> seq_has(r@, #[trigger] chunk_min_axis(p, s as int)),
{
    let hi: i64 = lo as i64 + len as i64;
    let mut k: i64 = chunk_min_containing(lo, s) as i64;
    let mut r: Vec<i32> = Vec::new();
    proof {
        lemma_chunk_min_axis(lo as int, s as int);
    }
    while k < hi
        invariant
            s > 0,
            hi == lo + len,
            in_i32(hi as int),
            (k as int) % (s as int) == 0,
            lo < k + s,
            k >= i32::MIN,
            forall|i: int|
                0 <= i < r@.len() ==> chunk_overlaps_axis(#[trigger] r@[i] as int, s as int, lo as int, hi as int) && r@[i] < k,
            forall|i: int, j: int| 0 <= i < j < r@.len() ==> r@[i] < r@[j],
            forall|p: int|
                lo <= p < k && p < hi ==> seq_has(r@, #[trigger] chunk_min_axis(p, s as int)),
        decreases hi + s - k,
    {
        let ghost old_r = r@;
        r.push(k as i32);
        proof {
            assert forall|p: int| lo <= p < k + s && p < hi implies seq_has(r@, #[trigger] chunk_min_axis(p, s as int)) by {
                if p < k {
                    assert(seq_has(old_r, chunk_min_axis(p, s as int)));
                    let i = choose|i: int| 0 <= i < old_r.len() && old_r[i] == chunk_min_axis(p, s as int);
                    assert(r@[i] == old_r[i]);
                } else {
                    lemma_chunk_min_of_member(k as int, p, s as int);
                    assert(r@[old_r.len() as int] == k as i32);
                }
            }
            lemma_mod_add_multiples_vanish(k as int, s as int);
        }
        let ghost prev = k;
        k = k + s as i64;
        assert(k == prev + s);
    }
    r
}

/// Whether the key `(x, y, z)` occurs in `keys`.
pub open spec fn has_key3(keys: Seq<Point3i>, x: int, y: int, z: int) -> bool {
    exists|i: int| 0 <= i < keys.len() && keys[i].x == x && keys[i].y == y && keys[i].z == z
}

/// Whether the key `(x, y)` occurs in `keys`.
pub open spec fn has_key2(keys: Seq<Point2i>, x: int, y: int) -> bool {
    exists|i: int| 0 <= i < keys.len() && keys[i].x == x && keys[i].y == y
}

/// The chunks of shape `s` can be enumerated over `domain` without overflow.
pub open spec fn chunkable3(domain: Extent3i, s: Point3i) -> bool {
    &&& s.x > 0 && s.y > 0 && s.z > 0
    &&& domain.bounded()
    &&& in_i32(chunk_min_axis(domain.minimum.x as int, s.x as int))
    &&& in_i32(chunk_min_axis(domain.minimum.y as int, s.y as int))
    &&& in_i32(chunk_min_axis(domain.minimum.z as int, s.z as int))
}

/// The chunks of shape `s` can be enumerated over `domain` without overflow.
pub open spec fn chunkable2(domain: Extent2i, s: Point2i) -> bool {
    &&& s.x > 0 && s.y > 0
    &&& domain.bounded()
    &&& in_i32(chunk_min_axis(domain.minimum.x as int, s.x as int))
    &&& in_i32(chunk_min_axis(domain.minimum.y as int, s.y as int))
}

/// The chunk of shape `s` keyed by `k` is a chunk and overlaps `domain`.
pub open spec fn key_overlaps3(k: Point3i, s: Point3i, domain: Extent3i) -> bool {
    &&& chunk_overlaps_axis(k.x as int, s.x as int, domain.minimum.x as int, domain.minimum.x + domain.shape.x)
    &&& chunk_overlaps_axis(k.y as int, s.y as int, domain.minimum.y as int, domain.minimum.y + domain.shape.y)
    &&& chunk_overlaps_axis(k.z as int, s.z as int, domain.minimum.z as int, domain.minimum.z + domain.shape.z)
}

/// The chunk of shape `s` keyed by `k` is a chunk and overlaps `domain`.
pub open spec fn key_overlaps2(k: Point2i, s: Point2i, domain: Extent2i) -> bool {
    &&& chunk_overlaps_axis(k.x as int, s.x as int, domain.minimum.x as int, domain.minimum.x + domain.shape.x)
    &&& chunk_overlaps_axis(k.y as int, s.y as int, domain.minimum.y as int, domain.minimum.y + domain.shape.y)
}

proof fn lemma_push_keeps_key3(keys: Seq<Point3i>, v: Point3i)
    ensures
        forall|x: int, y: int, z: int|
            has_key3(keys, x, y, z) ==> #[trigger] has_key3(keys.push(v), x, y, z),
        has_key3(keys.push(v), v.x as int, v.y as int, v.z as int),
{
    assert forall|x: int, y: int, z: int| has_key3(keys, x, y, z) implies #[trigger] has_key3(
        keys.push(v),
        x,
        y,
        z,
    ) by {
        let i = choose|i: int| 0 <= i < keys.len() && keys[i].x == x && keys[i].y == y && keys[i].z == z;
        assert(keys.push(v)[i] == keys[i]);
    }
    assert(keys.push(v)[keys.len() as int] == v);
}

proof fn lemma_push_keeps_key2(keys: Seq<Point2i>, v: Point2i)
    ensures
        forall|x: int, y: int| has_key2(keys, x, y) ==> #[trigger] has_key2(keys.push(v), x, y),
        has_key2(keys.push(v), v.x as int, v.y as int),
{
    assert forall|x: int, y: int| has_key2(keys, x, y) implies #[trigger] has_key2(keys.push(v), x, y) by {
        let i = choose|i: int| 0 <= i < keys.len() && keys[i].x == x && keys[i].y == y;
        assert(keys.push(v)[i] == keys[i]);
    }
    assert(keys.push(v)[keys.len() as int] == v);
}

/// The keys of all chunks of shape `s` that overlap `domain`, each once.
pub fn chunk_keys_for_extent3(domain: &Extent3i, s: &Point3i) -> (keys: Vec<Point3i>)
    requires
        chunkable3(*domain, *s),
    ensures
        forall|i: int| 0 <= i < keys@.len() ==> key_overlaps3(#[trigger] keys@[i], *s, *domain),
        keys@.no_duplicates(),
        forall|p: Point3i|
            #[trigger] domain.contains_spec(p) ==> has_key3(
                keys@,
                chunk_min_axis(p.x as int, s.x as int),
                chunk_min_axis(p.y as int, s.y as int),
                chunk_min_axis(p.z as int, s.z as int),
            ),
{
    let xs = chunk_mins_covering(domain.minimum.x, domain.shape.x, s.x);
    let ys = chunk_mins_covering(domain.minimum.y, domain.shape.y, s.y);
    let zs = chunk_mins_covering(domain.minimum.z, domain.shape.z, s.z);
    let mut keys: Vec<Point3i> = Vec::new();
    let mut c: usize = 0;
    while c < zs.len()
        invariant
            c <= zs@.len(),
            forall|i: int| 0 <= i < xs@.len() ==> chunk_overlaps_axis(#[trigger] xs@[i] as int, s.x as int, domain.minimum.x as int, domain.minimum.x + domain.shape.x),
            forall|i: int| 0 <= i < ys@.len() ==> chunk_overlaps_axis(#[trigger] ys@[i] as int, s.y as int, domain.minimum.y as int, domain.minimum.y + domain.shape.y),
            forall|i: int| 0 <= i < zs@.len() ==> chunk_overlaps_axis(#[trigger] zs@[i] as int, s.z as int, domain.minimum.z as int, domain.minimum.z + domain.shape.z),
            forall|i: int, j: int| 0 <= i < j < xs@.len() ==> xs@[i] < xs@[j],
            forall|i: int, j: int| 0 <= i < j < ys@.len() ==> ys@[i] < ys@[j],
            forall|i: int, j: int| 0 <= i < j < zs@.len() ==> zs@[i] < zs@[j],
            forall|i: int| 0 <= i < keys@.len() ==> key_overlaps3(#[trigger] keys@[i], *s, *domain),
            keys@.no_duplicates(),
            forall|i: int| 0 <= i < keys@.len() && c < zs@.len() ==> #[trigger] keys@[i].z < zs@[c as int],
            forall|a: int, b: int, e: int|
                0 <= a < c && 0 <= b < ys@.len() && 0 <= e < xs@.len() ==> #[trigger] has_key3(
                    keys@,
                    xs@[e] as int,
                    ys@[b] as int,
                    zs@[a] as int,
                ),
        decreases zs@.len() - c,
    {
        let mut b: usize = 0;
        while b < ys.len()
            invariant
                c < zs@.len(),
                b <= ys@.len(),
                forall|i: int| 0 <= i < xs@.len() ==> chunk_overlaps_axis(#[trigger] xs@[i] as int, s.x as int, domain.minimum.x as int, domain.minimum.x + domain.shape.x),
                forall|i: int| 0 <= i < ys@.len() ==> chunk_overlaps_axis(#[trigger] ys@[i] as int, s.y as int, domain.minimum.y as int, domain.minimum.y + domain.shape.y),
                forall|i: int| 0 <= i < zs@.len() ==> chunk_overlaps_axis(#[trigger] zs@[i] as int, s.z as int, domain.minimum.z as int, domain.minimum.z + domain.shape.z),
                forall|i: int, j: int| 0 <= i < j < xs@.len() ==> xs@[i] < xs@[j],
                forall|i: int, j: int| 0 <= i < j < ys@.len() ==> ys@[i] < ys@[j],
                forall|i: int, j: int| 0 <= i < j < zs@.len() ==> zs@[i] < zs@[j],
                forall|i: int| 0 <= i < keys@.len() ==> key_overlaps3(#[trigger] keys@[i], *s, *domain),
                keys@.no_duplicates(),
                forall|i: int|
                    0 <= i < keys@.len() ==> #[trigger] keys@[i].z < zs@[c as int] || (keys@[i].z
                        == zs@[c as int] && (b < ys@.len() ==> keys@[i].y < ys@[b as int])),
                forall|a: int, bb: int, e: int|
                    0 <= a < c && 0 <= bb < ys@.len() && 0 <= e < xs@.len() ==> #[trigger] has_key3(
                        keys@,
                        xs@[e] as int,
                        ys@[bb] as int,
                        zs@[a] as int,
                    ),
                forall|bb: int, e: int|
                    0 <= bb < b && 0 <= e < xs@.len() ==> #[trigger] has_key3(
                        keys@,
                        xs@[e] as int,
                        ys@[bb] as int,
                        zs@[c as int] as int,
                    ),
            decreases ys@.len() - b,
        {
            let mut e: usize = 0;
            while e < xs.len()
                invariant
                    c < zs@.len(),
                    b < ys@.len(),
                    e <= xs@.len(),
                    forall|i: int| 0 <= i < xs@.len() ==> chunk_overlaps_axis(#[trigger] xs@[i] as int, s.x as int, domain.minimum.x as int, domain.minimum.x + domain.shape.x),
                    forall|i: int| 0 <= i < ys@.len() ==> chunk_overlaps_axis(#[trigger] ys@[i] as int, s.y as int, domain.minimum.y as int, domain.minimum.y + domain.shape.y),
                    forall|i: int| 0 <= i < zs@.len() ==> chunk_overlaps_axis(#[trigger] zs@[i] as int, s.z as int, domain.minimum.z as int, domain.minimum.z + domain.shape.z),
                    forall|i: int, j: int| 0 <= i < j < xs@.len() ==> xs@[i] < xs@[j],
                    forall|i: int, j: int| 0 <= i < j < ys@.len() ==> ys@[i] < ys@[j],
                    forall|i: int, j: int| 0 <= i < j < zs@.len() ==> zs@[i] < zs@[j],
                    forall|i: int| 0 <= i < keys@.len() ==> key_overlaps3(#[trigger] keys@[i], *s, *domain),
                    keys@.no_duplicates(),
                    forall|i: int|
                        0 <= i < keys@.len() ==> #[trigger] keys@[i].z < zs@[c as int] || (keys@[i].z
                            == zs@[c as int] && (keys@[i].y < ys@[b as int] || (keys@[i].y == ys@[b as int]
                            && (e < xs@.len() ==> keys@[i].x < xs@[e as int])))),
                    forall|a: int, bb: int, ee: int|
                        0 <= a < c && 0 <= bb < ys@.len() && 0 <= ee < xs@.len() ==> #[trigger] has_key3(
                            keys@,
                            xs@[ee] as int,
                            ys@[bb] as int,
                            zs@[a] as int,
                        ),
                    forall|bb: int, ee: int|
                        0 <= bb < b && 0 <= ee < xs@.len() ==> #[trigger] has_key3(
                            keys@,
                            xs@[ee] as int,
                            ys@[bb] as int,
                            zs@[c as int] as int,
                        ),
                    forall|ee: int|
                        0 <= ee < e ==> #[trigger] has_key3(
                            keys@,
                            xs@[ee] as int,
                            ys@[b as int] as int,
                            zs@[c as int] as int,
                        ),
                decreases xs@.len() - e,
            {
                let k = Point3i { x: xs[e], y: ys[b], z: zs[c] };
                let ghost old_keys = keys@;
                proof {
                    lemma_push_keeps_key3(old_keys, k);
                    assert(chunk_overlaps_axis(xs@[e as int] as int, s.x as int, domain.minimum.x as int, domain.minimum.x + domain.shape.x));
                    assert(chunk_overlaps_axis(ys@[b as int] as int, s.y as int, domain.minimum.y as int, domain.minimum.y + domain.shape.y));
                    assert(chunk_overlaps_axis(zs@[c as int] as int, s.z as int, domain.minimum.z as int, domain.minimum.z + domain.shape.z));
                    assert(key_overlaps3(k, *s, *domain));
                    assert forall|i: int| 0 <= i < old_keys.len() implies old_keys[i] != k by {
                        assert(key_overlaps3(old_keys[i], *s, *domain));
                    }
                }
                keys.push(k);
                proof {
                    assert forall|i: int, j: int| 0 <= i < keys@.len() && 0 <= j < keys@.len() && i != j
                        implies keys@[i] != keys@[j] by {
                        if j == old_keys.len() {
                            assert(old_keys[i] != k);
                        } else if i == old_keys.len() {
                            assert(old_keys[j] != k);
                        } else {
                            assert(old_keys[i] != old_keys[j]);
                        }
                    }
                    assert forall|i: int| 0 <= i < keys@.len() implies #[trigger] keys@[i].z < zs@[c as int] || (keys@[i].z
                        == zs@[c as int] && (keys@[i].y < ys@[b as int] || (keys@[i].y == ys@[b as int]
                        && (e + 1 < xs@.len() ==> keys@[i].x < xs@[e + 1])))) by {
                        if i < old_keys.len() {
                            assert(keys@[i] == old_keys[i]);
                        }
                    }
                    assert forall|i: int| 0 <= i < keys@.len() implies key_overlaps3(#[trigger] keys@[i], *s, *domain) by {
                        if i < old_keys.len() {
                            assert(keys@[i] == old_keys[i]);
                        }
                    }
                }
                e = e + 1;
            }
            proof {
                assert forall|i: int|
                    0 <= i < keys@.len() implies #[trigger] keys@[i].z < zs@[c as int] || (keys@[i].z
                        == zs@[c as int] && (b + 1 < ys@.len() ==> keys@[i].y < ys@[b + 1])) by {
                }
            }
            b = b + 1;
        }
        proof {
            assert forall|i: int| 0 <= i < keys@.len() && c + 1 < zs@.len() implies #[trigger] keys@[i].z < zs@[c + 1] by {
            }
        }
        c = c + 1;
    }
    proof {
        assert forall|p: Point3i| #[trigger] domain.contains_spec(p) implies has_key3(
            keys@,
            chunk_min_axis(p.x as int, s.x as int),
            chunk_min_axis(p.y as int, s.y as int),
            chunk_min_axis(p.z as int, s.z as int),
        ) by {
            assert(seq_has(xs@, chunk_min_axis(p.x as int, s.x as int)));
            assert(seq_has(ys@, chunk_min_axis(p.y as int, s.y as int)));
            assert(seq_has(zs@, chunk_min_axis(p.z as int, s.z as int)));
            let e = choose|e: int| 0 <= e < xs@.len() && xs@[e] == chunk_min_axis(p.x as int, s.x as int);
            let b = choose|b: int| 0 <= b < ys@.len() && ys@[b] == chunk_min_axis(p.y as int, s.y as int);
            let a = choose|a: int| 0 <= a < zs@.len() && zs@[a] == chunk_min_axis(p.z as int, s.z as int);
            assert(has_key3(keys@, xs@[e] as int, ys@[b] as int, zs@[a] as int));
        }
    }
    keys
}

/// The keys of all chunks of shape `s` that overlap `domain`, each once.
pub fn chunk_keys_for_extent2(domain: &Extent2i, s: &Point2i) -> (keys: Vec<Point2i>)
    requires
        chunkable2(*domain, *s),
    ensures
        forall|i: int| 0 <= i < keys@.len() ==> key_overlaps2(#[trigger] keys@[i], *s, *domain),
        keys@.no_duplicates(),
        forall|p: Point2i|
            #[trigger] domain.contains_spec(p) ==> has_key2(
                keys@,
                chunk_min_axis(p.x as int, s.x as int),
                chunk_min_axis(p.y as int, s.y as int),
            ),
{
    let xs = chunk_mins_covering(domain.minimum.x, domain.shape.x, s.x);
    let ys = chunk_mins_covering(domain.minimum.y, domain.shape.y, s.y);
    let mut keys: Vec<Point2i> = Vec::new();
    let mut b: usize = 0;
    while b < ys.len()
        invariant
            b <= ys@.len(),
            forall|i: int| 0 <= i < xs@.len() ==> chunk_overlaps_axis(#[trigger] xs@[i] as int, s.x as int, domain.minimum.x as int, domain.minimum.x + domain.shape.x),
            forall|i: int| 0 <= i < ys@.len() ==> chunk_overlaps_axis(#[trigger] ys@[i] as int, s.y as int, domain.minimum.y as int, domain.minimum.y + domain.shape.y),
            forall|i: int, j: int| 0 <= i < j < xs@.len() ==> xs@[i] < xs@[j],
            forall|i: int, j: int| 0 <= i < j < ys@.len() ==> ys@[i] < ys@[j],
            forall|i: int| 0 <= i < keys@.len() ==> key_overlaps2(#[trigger] keys@[i], *s, *domain),
            keys@.no_duplicates(),
            forall|i: int| 0 <= i < keys@.len() && b < ys@.len() ==> #[trigger] keys@[i].y < ys@[b as int],
            forall|bb: int, e: int|
                0 <= bb < b && 0 <= e < xs@.len() ==> #[trigger] has_key2(keys@, xs@[e] as int, ys@[bb] as int),
        decreases ys@.len() - b,
    {
        let mut e: usize = 0;
        while e < xs.len()
            invariant
                b < ys@.len(),
                e <= xs@.len(),
                forall|i: int| 0 <= i < xs@.len() ==> chunk_overlaps_axis(#[trigger] xs@[i] as int, s.x as int, domain.minimum.x as int, domain.minimum.x + domain.shape.x),
                forall|i: int| 0 <= i < ys@.len() ==> chunk_overlaps_axis(#[trigger] ys@[i] as int, s.y as int, domain.minimum.y as int, domain.minimum.y + domain.shape.y),
                forall|i: int, j: int| 0 <= i < j < xs@.len() ==> xs@[i] < xs@[j],
                forall|i: int, j: int| 0 <= i < j < ys@.len() ==> ys@[i] < ys@[j],
                forall|i: int| 0 <= i < keys@.len() ==> key_overlaps2(#[trigger] keys@[i], *s, *domain),
                keys@.no_duplicates(),
                forall|i: int|
                    0 <= i < keys@.len() ==> #[trigger] keys@[i].y < ys@[b as int] || (keys@[i].y == ys@[b as int]
                        && (e < xs@.len() ==> keys@[i].x < xs@[e as int])),
                forall|bb: int, ee: int|
                    0 <= bb < b && 0 <= ee < xs@.len() ==> #[trigger] has_key2(keys@, xs@[ee] as int, ys@[bb] as int),
                forall|ee: int| 0 <= ee < e ==> #[trigger] has_key2(keys@, xs@[ee] as int, ys@[b as int] as int),
            decreases xs@.len() - e,
        {
            let k = Point2i { x: xs[e], y: ys[b] };
            let ghost old_keys = keys@;
            proof {
                lemma_push_keeps_key2(old_keys, k);
                assert(chunk_overlaps_axis(xs@[e as int] as int, s.x as int, domain.minimum.x as int, domain.minimum.x + domain.shape.x));
                assert(chunk_overlaps_axis(ys@[b as int] as int, s.y as int, domain.minimum.y as int, domain.minimum.y + domain.shape.y));
                assert(key_overlaps2(k, *s, *domain));
                assert forall|i: int| 0 <= i < old_keys.len() implies old_keys[i] != k by {
                    assert(key_overlaps2(old_keys[i], *s, *domain));
                }
            }
            keys.push(k);
            proof {
                assert forall|i: int, j: int| 0 <= i < keys@.len() && 0 <= j < keys@.len() && i != j
                    implies keys@[i] != keys@[j] by {
                    if j == old_keys.len() {
                        assert(old_keys[i] != k);
                    } else if i == old_keys.len() {
                        assert(old_keys[j] != k);
                    } else {
                        assert(old_keys[i] != old_keys[j]);
                    }
                }
                assert forall|i: int| 0 <= i < keys@.len() implies #[trigger] keys@[i].y < ys@[b as int] || (keys@[i].y
                    == ys@[b as int] && (e + 1 < xs@.len() ==> keys@[i].x < xs@[e + 1])) by {
                    if i < old_keys.len() {
                        assert(keys@[i] == old_keys[i]);
                    }
                }
                assert forall|i: int| 0 <= i < keys@.len() implies key_overlaps2(#[trigger] keys@[i], *s, *domain) by {
                    if i < old_keys.len() {
                        assert(keys@[i] == old_keys[i]);
                    }
                }
            }
            e = e + 1;
        }
        proof {
            assert forall|i: int| 0 <= i < keys@.len() && b + 1 < ys@.len() implies #[trigger] keys@[i].y < ys@[b + 1] by {
            }
        }
        b = b + 1;
    }
    proof {
        assert forall|p: Point2i| #[trigger] domain.contains_spec(p) implies has_key2(
            keys@,
            chunk_min_axis(p.x as int, s.x as int),
            chunk_min_axis(p.y as int, s.y as int),
        ) by {
            assert(seq_has(xs@, chunk_min_axis(p.x as int, s.x as int)));
            assert(seq_has(ys@, chunk_min_axis(p.y as int, s.y as int)));
            let e = choose|e: int| 0 <= e < xs@.len() && xs@[e] == chunk_min_axis(p.x as int, s.x as int);
            let b = choose|b: int| 0 <= b < ys@.len() && ys@[b] == chunk_min_axis(p.y as int, s.y as int);
            assert(has_key2(keys@, xs@[e] as int, ys@[b] as int));
        }
    }
    keys
}

/// The extent of the chunk of shape `s` keyed by `key`.
pub fn extent_for_chunk3(key: Point3i, s: Point3i) -> (r: Extent3i)
    ensures
        r == (Extent3i { minimum: key, shape: s }),
{
    Extent3i::from_min_and_shape(key, s)
}

/// The extent of the chunk of shape `s` keyed by `key`.
pub fn extent_for_chunk2(key: Point2i, s: Point2i) -> (r: Extent2i)
    ensures
        r == (Extent2i { minimum: key, shape: s }),
{
    Extent2i::from_min_and_shape(key, s)
}

} // verus!
