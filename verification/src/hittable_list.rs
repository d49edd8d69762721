//! A scene: a list of spheres, asked for the nearest hit of a ray.

use vstd::prelude::*;
use crate::fixed::{Fixed, lemma_fx_div_monotonic, lemma_fx_sqrt_bounds};
use crate::hittable::{HitRecord, Hittable};
use crate::ray::Ray;
use crate::sphere::Sphere;

verus! {

/// The upper end of the window in which the next object is searched.
pub open spec fn closest_so_far(before: Option<HitRecord>, t_max: Fixed) -> Fixed {
    match before {
        Some(h) => h.t,
        None => t_max,
    }
}

/// A hit, unless it lies beyond `c`.
pub open spec fn narrowed(full: Option<HitRecord>, c: Fixed) -> Option<HitRecord> {
    match full {
        Some(h) => if h.t@ <= c@ {
            Some(h)
        } else {
            None
        },
        None => None,
    }
}

/// The hit that each object has within the whole window, taken alone.
pub open spec fn hits_alone(objects: Seq<Sphere>, r: Ray, t_min: Fixed, t_max: Fixed) -> Seq<
    Option<HitRecord>,
> {
    Seq::new(objects.len(), |i: int| objects[i].spec_hit(r, t_min, t_max))
}

/// Whether `out` is the nearest of the hits; among hits at the same
/// distance, the last.
pub open spec fn is_nearest_of(hits: Seq<Option<HitRecord>>, out: Option<HitRecord>) -> bool {
    match out {
        None => forall|i: int| 0 <= i < hits.len() ==> (#[trigger] hits[i]) is None,
        Some(h) => exists|j: int|
            {
                &&& 0 <= j < hits.len()
                &&& #[trigger] hits[j] == Some(h)
                &&& forall|i: int|
                    0 <= i < hits.len() ==> match #[trigger] hits[i] {
                        Some(other) => h.t@ <= other.t@ && (i > j ==> h.t@ < other.t@),
                        None => true,
                    }
            },
    }
}

/// Whether `out` is the nearest of the hits that the objects have within
/// the whole window, each taken alone; among hits at the same distance, the
/// one of the last object.
pub open spec fn is_nearest(
    objects: Seq<Sphere>,
    r: Ray,
    t_min: Fixed,
    t_max: Fixed,
    out: Option<HitRecord>,
) -> bool {
    is_nearest_of(hits_alone(objects, r, t_min, t_max), out)
}

/// The result of going through the hits in order and keeping each one
/// that is not farther than the one kept before.
pub open spec fn scan_hits(hits: Seq<Option<HitRecord>>, t_max: Fixed) -> Option<HitRecord>
    decreases hits.len(),
{
    if hits.len() == 0 {
        None
    } else {
        let before = scan_hits(hits.drop_last(), t_max);
        match narrowed(hits.last(), closest_so_far(before, t_max)) {
            Some(h) => Some(h),
            None => before,
        }
    }
}

/// The result of going through the objects in order, each searched only
/// up to the nearest hit found before it.
pub open spec fn spec_scan(objects: Seq<Sphere>, r: Ray, t_min: Fixed, t_max: Fixed) -> Option<
    HitRecord,
>
    decreases objects.len(),
{
    if objects.len() == 0 {
        None
    } else {
        let before = spec_scan(objects.drop_last(), r, t_min, t_max);
        match objects.last().spec_hit(r, t_min, closest_so_far(before, t_max)) {
            Some(h) => Some(h),
            None => before,
        }
    }
}

/// The smaller root is not the larger one.
pub proof fn lemma_roots_ordered(s: Sphere, r: Ray)
    requires
        s.meets(r),
    ensures
        s.near_root(r)@ <= s.far_root(r)@,
{
    let x = s.quad_half_b(r).spec_negated();
    let sq = s.discriminant(r).spec_sqrt();
    lemma_fx_sqrt_bounds(s.discriminant(r)@);
    assert(sq@ >= 0);
    lemma_fx_div_monotonic(x.spec_minus(sq)@, x.spec_plus(sq)@, s.quad_a(r)@);
}

/// A hit lies in the window in which it was searched.
pub proof fn lemma_hit_in_window(s: Sphere, r: Ray, t_min: Fixed, t_max: Fixed)
    ensures
        match s.spec_hit(r, t_min, t_max) {
            Some(h) => t_min@ <= h.t@ <= t_max@,
            None => true,
        },
{
}

/// Searching a narrower window finds the same hit, unless that hit lies
/// beyond the narrower window.
pub proof fn lemma_narrower_window(s: Sphere, r: Ray, t_min: Fixed, t_max: Fixed, c: Fixed)
    requires
        c@ <= t_max@,
    ensures
        s.spec_hit(r, t_min, c) == narrowed(s.spec_hit(r, t_min, t_max), c),
{
    if s.meets(r) {
        lemma_roots_ordered(s, r);
    }
}

/// Going through the hits in order keeps the nearest, and none beyond `t_max`.
pub proof fn lemma_scan_hits_is_nearest(hits: Seq<Option<HitRecord>>, t_max: Fixed)
    requires
        forall|i: int|
            0 <= i < hits.len() ==> match #[trigger] hits[i] {
                Some(h) => h.t@ <= t_max@,
                None => true,
            },
    ensures
        is_nearest_of(hits, scan_hits(hits, t_max)),
        closest_so_far(scan_hits(hits, t_max), t_max)@ <= t_max@,
    decreases hits.len(),
{
    if hits.len() > 0 {
        let init = hits.drop_last();
        let n = init.len() as int;
        assert(forall|i: int| 0 <= i < n ==> hits[i] == init[i]);
        lemma_scan_hits_is_nearest(init, t_max);
        let before = scan_hits(init, t_max);
        let out = scan_hits(hits, t_max);
        let kept = narrowed(hits[n], closest_so_far(before, t_max));
        match before {
            Some(hb) => {
                let j = choose|j: int|
                    {
                        &&& 0 <= j < init.len()
                        &&& #[trigger] init[j] == Some(hb)
                        &&& forall|i: int|
                            0 <= i < init.len() ==> match #[trigger] init[i] {
                                Some(other) => hb.t@ <= other.t@ && (i > j ==> hb.t@ < other.t@),
                                None => true,
                            }
                    };
                assert(hits[j] == Some(hb));
                match kept {
                    Some(h) => {
                        assert(hits[n] == Some(h));
                        assert forall|i: int| 0 <= i < hits.len() implies match #[trigger] hits[i] {
                            Some(other) => h.t@ <= other.t@ && (i > n ==> h.t@ < other.t@),
                            None => true,
                        } by {
                            if i < n {
                                assert(hits[i] == init[i]);
                            }
                        }
                    },
                    None => {
                        assert forall|i: int| 0 <= i < hits.len() implies match #[trigger] hits[i] {
                            Some(other) => hb.t@ <= other.t@ && (i > j ==> hb.t@ < other.t@),
                            None => true,
                        } by {
                            if i < n {
                                assert(hits[i] == init[i]);
                            }
                        }
                    },
                }
            },
            None => {
                match kept {
                    Some(h) => {
                        assert(hits[n] == Some(h));
                        assert forall|i: int| 0 <= i < hits.len() implies match #[trigger] hits[i] {
                            Some(other) => h.t@ <= other.t@ && (i > n ==> h.t@ < other.t@),
                            None => true,
                        } by {
                            if i < n {
                                assert(hits[i] == init[i]);
                            }
                        }
                    },
                    None => {
                        assert forall|i: int| 0 <= i < hits.len() implies (#[trigger] hits[i])
                            is None by {
                            if i < n {
                                assert(hits[i] == init[i]);
                            }
                        }
                    },
                }
            },
        }
    }
}

/// Going through the objects with a narrowing window gives what going
/// through their hits in the whole window gives.
pub proof fn lemma_scan_by_hits(objects: Seq<Sphere>, r: Ray, t_min: Fixed, t_max: Fixed)
    ensures
        spec_scan(objects, r, t_min, t_max) == scan_hits(
            hits_alone(objects, r, t_min, t_max),
            t_max,
        ),
    decreases objects.len(),
{
    let hits = hits_alone(objects, r, t_min, t_max);
    if objects.len() > 0 {
        let init = objects.drop_last();
        lemma_scan_by_hits(init, r, t_min, t_max);
        let init_hits = hits_alone(init, r, t_min, t_max);
        assert(hits.drop_last() =~= init_hits);
        assert forall|i: int| 0 <= i < init_hits.len() implies match #[trigger] init_hits[i] {
            Some(h) => h.t@ <= t_max@,
            None => true,
        } by {
            lemma_hit_in_window(init[i], r, t_min, t_max);
        }
        lemma_scan_hits_is_nearest(init_hits, t_max);
        let before = scan_hits(init_hits, t_max);
        lemma_narrower_window(objects.last(), r, t_min, t_max, closest_so_far(before, t_max));
        assert(hits.last() == objects.last().spec_hit(r, t_min, t_max));
    }
}

/// Going through the objects in order finds the nearest hit.
pub proof fn lemma_scan_is_nearest(objects: Seq<Sphere>, r: Ray, t_min: Fixed, t_max: Fixed)
    ensures
        is_nearest(objects, r, t_min, t_max, spec_scan(objects, r, t_min, t_max)),
{
    let hits = hits_alone(objects, r, t_min, t_max);
    assert forall|i: int| 0 <= i < hits.len() implies match #[trigger] hits[i] {
        Some(h) => h.t@ <= t_max@,
        None => true,
    } by {
        lemma_hit_in_window(objects[i], r, t_min, t_max);
    }
    lemma_scan_hits_is_nearest(hits, t_max);
    lemma_scan_by_hits(objects, r, t_min, t_max);
}

/// Whether hits at the same distance are the same hit.
pub open spec fn no_ties(objects: Seq<Sphere>, r: Ray, t_min: Fixed, t_max: Fixed) -> bool {
    forall|i: int, j: int|
        0 <= i < objects.len() && 0 <= j < objects.len() ==> match (
            (#[trigger] objects[i]).spec_hit(r, t_min, t_max),
            (#[trigger] objects[j]).spec_hit(r, t_min, t_max),
        ) {
            (Some(h1), Some(h2)) => h1.t == h2.t ==> h1 == h2,
            _ => true,
        }
}

/// An object of one scene is an object of any scene with the same objects.
proof fn lemma_same_objects(a: Seq<Sphere>, b: Seq<Sphere>, i: int) -> (k: int)
    requires
        a.to_multiset() == b.to_multiset(),
        0 <= i < a.len(),
    ensures
        0 <= k < b.len(),
        b[k] == a[i],
{
    vstd::seq_lib::to_multiset_contains(a, a[i]);
    vstd::seq_lib::to_multiset_contains(b, a[i]);
    assert(a.contains(a[i]));
    choose|k: int| 0 <= k < b.len() && b[k] == a[i]
}

/// The nearest hit of one scene is no nearer than that of a scene with the
/// same objects.
proof fn lemma_no_nearer(a: Seq<Sphere>, b: Seq<Sphere>, r: Ray, t_min: Fixed, t_max: Fixed)
    requires
        a.to_multiset() == b.to_multiset(),
    ensures
        match spec_scan(a, r, t_min, t_max) {
            Some(ha) => match spec_scan(b, r, t_min, t_max) {
                Some(hb) => hb.t@ <= ha.t@ && exists|k: int|
                    0 <= k < b.len() && (#[trigger] b[k]).spec_hit(r, t_min, t_max) == Some(hb),
                None => false,
            },
            None => true,
        },
{
    lemma_scan_is_nearest(a, r, t_min, t_max);
    lemma_scan_is_nearest(b, r, t_min, t_max);
    let hits_a = hits_alone(a, r, t_min, t_max);
    let hits_b = hits_alone(b, r, t_min, t_max);
    if let Some(ha) = spec_scan(a, r, t_min, t_max) {
        let j = choose|j: int| 0 <= j < hits_a.len() && #[trigger] hits_a[j] == Some(ha);
        let k = lemma_same_objects(a, b, j);
        assert(hits_b[k] == Some(ha));
        match spec_scan(b, r, t_min, t_max) {
            Some(hb) => {
                let m = choose|m: int| 0 <= m < hits_b.len() && #[trigger] hits_b[m] == Some(hb);
                assert(b[m].spec_hit(r, t_min, t_max) == Some(hb));
            },
            None => {},
        }
    }
}

/// The order of the objects does not matter: scenes with the same objects
/// hit at the same distance or not at all, and with the same record where
/// no two different hits are equally near.
pub proof fn lemma_hit_in_any_order(
    a: Seq<Sphere>,
    b: Seq<Sphere>,
    r: Ray,
    t_min: Fixed,
    t_max: Fixed,
)
    requires
        a.to_multiset() == b.to_multiset(),
    ensures
        spec_scan(a, r, t_min, t_max) is None <==> spec_scan(b, r, t_min, t_max) is None,
        closest_so_far(spec_scan(a, r, t_min, t_max), t_max) == closest_so_far(
            spec_scan(b, r, t_min, t_max),
            t_max,
        ),
        no_ties(a, r, t_min, t_max) ==> spec_scan(a, r, t_min, t_max) == spec_scan(
            b,
            r,
            t_min,
            t_max,
        ),
{
    lemma_no_nearer(a, b, r, t_min, t_max);
    lemma_no_nearer(b, a, r, t_min, t_max);
    if let Some(ha) = spec_scan(a, r, t_min, t_max) {
        let hb = spec_scan(b, r, t_min, t_max)->0;
        assert(ha.t@ == hb.t@);
        assert(ha.t == hb.t);
        if no_ties(a, r, t_min, t_max) {
            let j = choose|j: int|
                0 <= j < a.len() && (#[trigger] a[j]).spec_hit(r, t_min, t_max) == Some(ha);
            let k = choose|k: int|
                0 <= k < b.len() && (#[trigger] b[k]).spec_hit(r, t_min, t_max) == Some(hb);
            let m = lemma_same_objects(b, a, k);
            assert(a[m].spec_hit(r, t_min, t_max) == Some(hb));
            assert(a[j].spec_hit(r, t_min, t_max) == Some(ha));
        }
    }
}

/// A scene: spheres in the order in which they were added.
pub struct HittableList {
    pub objects: Vec<Sphere>,
}

impl View for HittableList {
    type V = Seq<Sphere>;

    open spec fn view(&self) -> Seq<Sphere> {
        self.objects@
    }
}

impl HittableList {
    /// The empty scene.
    pub fn new() -> (list: HittableList)
        ensures
            list@.len() == 0,
    {
        HittableList { objects: Vec::new() }
    }

    pub fn add_sphere(&mut self, object: Sphere)
        ensures
            final(self)@ == old(self)@.push(object),
    {
        self.objects.push(object);
    }

    pub fn len(&self) -> (n: usize)
        ensures
            n == self@.len(),
    {
        self.objects.len()
    }
}

impl Hittable for HittableList {
    open spec fn spec_hit(&self, r: Ray, t_min: Fixed, t_max: Fixed) -> Option<HitRecord> {
        spec_scan(self@, r, t_min, t_max)
    }

    /// The nearest hit of the ray among all objects of the scene.
    fn hit(&self, r: &Ray, t_min: Fixed, t_max: Fixed) -> (out: Option<HitRecord>)
        ensures
            is_nearest(self@, *r, t_min, t_max, out),
            out matches Some(h) ==> t_min@ <= h.t@ <= t_max@,
            self@.len() == 0 ==> out is None,
    {
        let mut output: Option<HitRecord> = None;
        let mut closest = t_max;
        let mut i: usize = 0;
        assert(self@.take(0) =~= Seq::<Sphere>::empty());
        while i < self.objects.len()
            invariant
                i <= self.objects.len(),
                output == spec_scan(self@.take(i as int), *r, t_min, t_max),
                closest == closest_so_far(output, t_max),
            decreases self.objects.len() - i,
        {
            proof {
                let next = self@.take(i + 1);
                assert(next.drop_last() =~= self@.take(i as int));
                assert(next.last() == self@[i as int]);
            }
            let maybe_hit = self.objects[i].hit(r, t_min, closest);
            if let Some(h) = maybe_hit {
                closest = h.t;
                output = maybe_hit;
            }
            i += 1;
        }
        proof {
            assert(self@.take(i as int) =~= self@);
            lemma_scan_is_nearest(self@, *r, t_min, t_max);
            if let Some(h) = output {
                let hits = hits_alone(self@, *r, t_min, t_max);
                let j = choose|j: int| 0 <= j < hits.len() && #[trigger] hits[j] == Some(h);
                lemma_hit_in_window(self@[j], *r, t_min, t_max);
            }
        }
        output
    }
}

} // verus!
