//! Rays, intersection records, and the scene.

use vstd::prelude::*;
use crate::fx::FX_MAX;
use crate::material::Material;
use crate::sphere::{Sphere, sphere_hit_some_s, sphere_hit_t_s, record_matches_s};
use crate::vec::{Point, V3s, Vector, add_vs, neg_vs, scale_vs};

verus! {

/// The parameter bound standing in for an unbounded search interval.
pub const T_INFINITY: i64 = FX_MAX;

/// A half-line: origin plus a (not necessarily unit) direction.
#[derive(Debug, Clone, Copy)]
pub struct Ray {
    pub origin: Point,
    pub direction: Vector,
}

/// The point a ray reaches at parameter `t`: `origin + t * direction`.
pub open spec fn at_s(r: Ray, t: int) -> V3s {
    add_vs(r.origin@, scale_vs(r.direction@, t))
}

impl Ray {
    pub fn new(origin: Point, direction: Vector) -> (r: Ray)
        ensures
            r.origin == origin,
            r.direction == direction,
    {
        Ray { origin, direction }
    }

    /// Evaluate the ray at parameter `t`; `t` may be negative, range
    /// restriction is the caller's affair.
    pub fn at(&self, t: i64) -> (p: Point)
        ensures
            p@ == at_s(*self, t as int),
    {
        self.origin.add(&self.direction.scale(t))
    }
}

/// The nearest intersection found on a ray: where, with what surface
/// orientation, and what material was struck.
#[derive(Debug, Clone, Copy)]
pub struct HitRecord {
    pub point: Point,
    pub normal: Vector,
    pub t: i64,
    pub material: Material,
    pub front_face: bool,
}

impl HitRecord {
    /// Builds a record whose stored normal is the outward normal when the
    /// ray struck the front face, and its negation otherwise, so the
    /// stored normal always opposes the incoming ray.
    pub fn new(
        point: Point,
        normal: Vector,
        t: i64,
        front_face: bool,
        material: Material,
    ) -> (h: HitRecord)
        ensures
            h.point == point,
            h.t == t,
            h.front_face == front_face,
            h.material == material,
            h.normal@ == if front_face {
                normal@
            } else {
                neg_vs(normal@)
            },
    {
        let normal = if front_face {
            normal
        } else {
            normal.neg()
        };
        HitRecord { point, normal, t, material, front_face }
    }
}

/// The closed set of geometric primitives a scene may hold.
#[derive(Debug, Clone, Copy)]
pub enum Hittable {
    Sphere(Sphere),
}

/// Whether a primitive reports an intersection in the open interval
/// `(t_min, t_max)`.
pub open spec fn hit_some_of(o: Hittable, ray: Ray, t_min: int, t_max: int) -> bool {
    match o {
        Hittable::Sphere(s) => sphere_hit_some_s(s, ray, t_min, t_max),
    }
}

/// The parameter of the intersection a primitive reports.
pub open spec fn hit_t_of(o: Hittable, ray: Ray, t_min: int, t_max: int) -> int {
    match o {
        Hittable::Sphere(s) => sphere_hit_t_s(s, ray, t_min, t_max),
    }
}

/// Whether `h` is exactly the record a primitive builds for an
/// intersection at parameter `t`.
pub open spec fn record_of(o: Hittable, ray: Ray, t: int, h: HitRecord) -> bool {
    match o {
        Hittable::Sphere(s) => record_matches_s(s, ray, t, h),
    }
}

impl Hittable {
    /// Report the nearest intersection with the ray in `(t_min, t_max)`,
    /// or that there is none.
    pub fn hit_by(&self, ray: &Ray, t_min: i64, t_max: i64) -> (res: Option<HitRecord>)
        ensures
            res is Some <==> hit_some_of(*self, *ray, t_min as int, t_max as int),
            res matches Some(h) ==> h.t as int == hit_t_of(*self, *ray, t_min as int, t_max as int)
                && record_of(*self, *ray, h.t as int, h) && t_min < h.t < t_max,
    {
        match self {
            Hittable::Sphere(s) => s.hit_by(ray, t_min, t_max),
        }
    }
}

/// The progressive scan of a scene prefix: which object (by index) holds
/// the nearest accepted intersection so far, and the narrowed upper bound
/// of the search interval (`t_max` while nothing was accepted).
pub open spec fn scan_s(objs: Seq<Hittable>, ray: Ray, t_min: int, t_max: int) -> (Option<int>, int)
    decreases objs.len(),
{
    if objs.len() == 0 {
        (None::<int>, t_max)
    } else {
        let prev = scan_s(objs.drop_last(), ray, t_min, t_max);
        let o = objs.last();
        if hit_some_of(o, ray, t_min, prev.1) {
            (Some(objs.len() - 1), hit_t_of(o, ray, t_min, prev.1))
        } else {
            prev
        }
    }
}

/// An intersection reported for a narrower interval is also reported for
/// any wider one with the same lower bound.
pub proof fn lemma_hit_widens(o: Hittable, ray: Ray, t_min: int, b1: int, b2: int)
    requires
        b1 <= b2,
        hit_some_of(o, ray, t_min, b1),
    ensures
        hit_some_of(o, ray, t_min, b2),
{
}

/// The parameter a primitive reports lies strictly inside the queried
/// interval.
pub proof fn lemma_hit_t_within(o: Hittable, ray: Ray, t_min: int, t_max: int)
    requires
        hit_some_of(o, ray, t_min, t_max),
    ensures
        t_min < hit_t_of(o, ray, t_min, t_max) < t_max,
{
}

/// The nearest-hit guarantee of the progressive scan: once the whole
/// scene was scanned, no primitive intersects the ray strictly nearer
/// than the narrowed bound the scan ended with.  In particular, a scan
/// that found nothing rules out every intersection in the full interval,
/// and the order primitives were inserted in cannot hide a nearer hit.
pub proof fn lemma_scan_nearest(objs: Seq<Hittable>, ray: Ray, t_min: int, t_max: int)
    ensures
        scan_s(objs, ray, t_min, t_max).1 <= t_max,
        scan_s(objs, ray, t_min, t_max).0 is None ==> scan_s(objs, ray, t_min, t_max).1 == t_max,
        forall|k: int|
            0 <= k < objs.len() ==> !hit_some_of(
                #[trigger] objs[k],
                ray,
                t_min,
                scan_s(objs, ray, t_min, t_max).1,
            ),
    decreases objs.len(),
{
    if objs.len() > 0 {
        lemma_scan_nearest(objs.drop_last(), ray, t_min, t_max);
        let prev = scan_s(objs.drop_last(), ray, t_min, t_max);
        let o = objs.last();
        let cur = scan_s(objs, ray, t_min, t_max);
        if hit_some_of(o, ray, t_min, prev.1) {
            let t = hit_t_of(o, ray, t_min, prev.1);
            lemma_hit_t_within(o, ray, t_min, prev.1);
            assert(cur.1 == t);
            match o {
                Hittable::Sphere(s) => {
                    crate::sphere::lemma_sphere_no_closer_hit(s, ray, t_min, prev.1);
                },
            }
        }
        assert forall|k: int| 0 <= k < objs.len() implies !hit_some_of(
            #[trigger] objs[k],
            ray,
            t_min,
            cur.1,
        ) by {
            if k == objs.len() - 1 {
                assert(objs[k] == objs.last());
            } else {
                assert(objs[k] == objs.drop_last()[k]);
                assert(!hit_some_of(objs.drop_last()[k], ray, t_min, prev.1));
                if hit_some_of(objs[k], ray, t_min, cur.1) {
                    lemma_hit_widens(objs[k], ray, t_min, cur.1, prev.1);
                }
            }
        }
    }
}

/// An ordered collection of primitives, scanned linearly for the globally
/// nearest intersection.
pub struct HittableVec {
    pub objects: Vec<Hittable>,
}

/// Whether `h` is exactly the record the scene scan reports for the ray
/// over the open interval `(t_min, t_max)`: the scan found a winner, `h`
/// carries the narrowed parameter, and `h` is that winner's record.
/// Opaque: callers pass the fact along whole and reveal it where the
/// scan's clauses are needed.
#[verifier::opaque]
pub open spec fn scan_hit_ok(world: HittableVec, ray: Ray, t_min: int, t_max: int, h: HitRecord) -> bool {
    let scan = scan_s(world.objects@, ray, t_min, t_max);
    &&& scan.0 is Some
    &&& h.t as int == scan.1
    &&& t_min < h.t < t_max
    &&& (scan.0 matches Some(j) && 0 <= j < world.objects@.len() && record_of(
        world.objects@[j],
        ray,
        scan.1,
        h,
    ))
}

impl HittableVec {
    pub fn new(objects: Vec<Hittable>) -> (s: HittableVec)
        ensures
            s.objects@ == objects@,
    {
        HittableVec { objects }
    }

    /// Scan all primitives, narrowing the upper search bound to the
    /// nearest hit found so far; the result is the record of the winning
    /// primitive of the progressive scan, or nothing when no primitive
    /// intersects the ray within the full interval.
    pub fn hit_by(&self, ray: &Ray, t_min: i64, t_max: i64) -> (res: Option<HitRecord>)
        ensures
            res is Some <==> scan_s(self.objects@, *ray, t_min as int, t_max as int).0 is Some,
            res matches Some(h) ==> scan_hit_ok(*self, *ray, t_min as int, t_max as int, h),
            res matches Some(h) ==> forall|k: int|
                0 <= k < self.objects@.len() ==> !hit_some_of(
                    #[trigger] self.objects@[k],
                    *ray,
                    t_min as int,
                    h.t as int,
                ),
            res is None ==> forall|k: int|
                0 <= k < self.objects@.len() ==> !hit_some_of(
                    #[trigger] self.objects@[k],
                    *ray,
                    t_min as int,
                    t_max as int,
                ),
    {
        proof {
            reveal(scan_hit_ok);
            lemma_scan_nearest(self.objects@, *ray, t_min as int, t_max as int);
        }
        let ghost tmin = t_min as int;
        let ghost tmax = t_max as int;
        let mut closest: i64 = t_max;
        let mut hit: Option<HitRecord> = None;
        let mut i: usize = 0;
        while i < self.objects.len()
            invariant
                i <= self.objects@.len(),
                closest as int <= tmax,
                t_min as int == tmin,
                t_max as int == tmax,
                ({
                    let scan = scan_s(self.objects@.take(i as int), *ray, tmin, tmax);
                    &&& closest as int == scan.1
                    &&& (hit is Some <==> scan.0 is Some)
                    &&& (hit matches Some(h) ==> h.t as int == scan.1 && t_min < h.t < t_max
                        && (scan.0 matches Some(j) && 0 <= j < i
                        && record_of(self.objects@[j], *ray, scan.1, h)))
                }),
            decreases self.objects@.len() - i,
        {
            let item = &self.objects[i];
            let candidate = item.hit_by(ray, t_min, closest);
            proof {
                let pre = scan_s(self.objects@.take(i as int), *ray, tmin, tmax);
                let post = scan_s(self.objects@.take(i as int + 1), *ray, tmin, tmax);
                assert(self.objects@.take(i as int + 1).drop_last() =~= self.objects@.take(
                    i as int,
                ));
                assert(self.objects@.take(i as int + 1).last() == self.objects@[i as int]);
                assert(post == if hit_some_of(self.objects@[i as int], *ray, tmin, pre.1) {
                    (
                        Some(i as int),
                        hit_t_of(self.objects@[i as int], *ray, tmin, pre.1),
                    )
                } else {
                    pre
                });
            }
            if let Some(h) = candidate {
                closest = h.t;
                hit = Some(h);
            }
            i = i + 1;
        }
        proof {
            assert(self.objects@.take(i as int) =~= self.objects@);
        }
        hit
    }
}

} // verus!
