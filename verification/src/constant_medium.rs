//! A homogeneous fog inside a boundary: which stretch of a ray runs through
//! it, and whether the ray is scattered there.
//!
//! The boundary is crossed twice, first anywhere along the line of the ray
//! and then beyond the first crossing. Intersecting the boundary and
//! drawing the distance the ray travels freely are left to functions the
//! caller hands in; what is decided here is what the boundary is asked,
//! which stretch of the ray lies inside the fog, and whether the free path
//! ends within it.

use crate::aabb::AABB;
use crate::hit_record::HitRecord;
use crate::ray::Ray;
use crate::ray::ScatteredRay;
use crate::scalar::Scalar;
use crate::texture::SolidColor;
use crate::vec3::Vec3;
use vstd::prelude::*;

verus! {

/// `t` raised to `floor` where it lies below it.
pub open spec fn raised(t: Scalar, floor: Scalar) -> Scalar {
    if t.spec_lt(floor) {
        floor
    } else {
        t
    }
}

/// `t` lowered to `ceiling` where it lies above it.
pub open spec fn lowered(t: Scalar, ceiling: Scalar) -> Scalar {
    if ceiling.spec_lt(t) {
        ceiling
    } else {
        t
    }
}

/// The stretch of the ray inside the boundary that counts, given the two
/// crossings of the boundary where there are two.
///
/// Without both crossings there is no stretch, and neither is there one
/// where a crossing lies at a distance that is not a number. The crossings
/// are clamped to the interval from `t_min` to `t_max`; where that leaves
/// the exit no later than the entry there is no stretch either. An entry
/// behind the ray's origin is moved to the origin.
pub open spec fn span_spec(
    entry: Option<HitRecord>,
    exit: Option<HitRecord>,
    t_min: Scalar,
    t_max: Scalar,
) -> Option<(Scalar, Scalar)> {
    match (entry, exit) {
        (Some(rec1), Some(rec2)) => {
            let from = raised(rec1.t, t_min);
            let to = lowered(rec2.t, t_max);
            if rec1.t.nan() || rec2.t.nan() {
                None
            } else if to.spec_le(from) {
                None
            } else {
                Some((raised(from, Scalar::spec_zero()), to))
            }
        },
        _ => None,
    }
}

/// Works out the stretch of a ray that runs inside the fog; see
/// `span_spec`. `entry` is where the ray first crosses the boundary anywhere
/// along its line, `exit` where it crosses the boundary next after that.
pub fn span(entry: Option<HitRecord>, exit: Option<HitRecord>, t_min: Scalar, t_max: Scalar) -> (r:
    Option<(Scalar, Scalar)>)
    ensures
        r == span_spec(entry, exit, t_min, t_max),
{
    let rec1 = match entry {
        None => {
            return None;
        },
        Some(hit) => hit,
    };
    let rec2 = match exit {
        None => {
            return None;
        },
        Some(hit) => hit,
    };
    if rec1.t().is_nan() || rec2.t().is_nan() {
        return None;
    }
    let mut rec1_t = rec1.t();
    if rec1_t.lt(t_min) {
        rec1_t = t_min;
    }
    let mut rec2_t = rec2.t();
    if t_max.lt(rec2_t) {
        rec2_t = t_max;
    }
    if rec2_t.le(rec1_t) {
        return None;
    }
    if rec1_t.lt(Scalar::zero()) {
        rec1_t = Scalar::zero();
    }
    Some((rec1_t, rec2_t))
}

/// What `scatter_within` reports.
pub open spec fn scatter_within_spec(
    distance_inside: Scalar,
    hit_distance: Scalar,
    t: Scalar,
    point: Vec3,
    incidence: Scalar,
    phase_function: usize,
) -> Option<HitRecord> {
    if distance_inside.nan() || hit_distance.nan() || t.nan() {
        None
    } else if distance_inside.spec_lt(hit_distance) {
        None
    } else {
        Some(
            HitRecord::spec_new_hit(
                t,
                point,
                Vec3::spec_zero(),
                incidence,
                (Scalar::spec_zero(), Scalar::spec_zero()),
                phase_function,
            ),
        )
    }
}

/// Decides whether a ray is scattered inside the fog. `distance_inside` is
/// the length of the stretch inside the boundary and `hit_distance` the
/// distance the ray travels freely, drawn by the caller.
///
/// A ray whose free path is longer than the stretch leaves the fog without
/// an event, and so does one for which the length of the stretch, the free
/// path or the place of the event is not a number. Otherwise it is
/// scattered at `t`, the entry plus the free path, where it stands at
/// `point`: the record carries the fog's phase function as material, a zero
/// normal and a zero surface coordinate.
pub fn scatter_within(
    distance_inside: Scalar,
    hit_distance: Scalar,
    t: Scalar,
    point: Vec3,
    incidence: Scalar,
    phase_function: usize,
) -> (r: Option<HitRecord>)
    ensures
        r == scatter_within_spec(distance_inside, hit_distance, t, point, incidence, phase_function),
        r matches Some(h) ==> !h.t.nan() && h.t == t && h.material == Some(phase_function),
{
    if distance_inside.is_nan() || hit_distance.is_nan() || t.is_nan() {
        return None;
    }
    if distance_inside.lt(hit_distance) {
        return None;
    }
    Some(
        HitRecord::new_hit(
            t,
            point,
            Vec3::zero(),
            incidence,
            (Scalar::zero(), Scalar::zero()),
            phase_function,
        ),
    )
}

/// What the caller has worked out about the passage of a ray through the
/// fog: how long the stretch inside the boundary is, how far the ray travels
/// freely (drawn at random), and where the ray stands once it has travelled
/// that far from the start of the stretch: at which distance along the ray,
/// at which point, and with which dot product of its direction with the
/// zero normal.
#[derive(Clone, Copy, Debug, PartialEq, Eq)]
pub struct Passage {
    pub distance_inside: Scalar,
    pub hit_distance: Scalar,
    pub t: Scalar,
    pub point: Vec3,
    pub incidence: Scalar,
}

/// Whether `r` may be what `hit` returns once the boundary has been crossed
/// first at `entry`.
pub open spec fn hit_after_entry<
    B,
    P: Fn(&B, Scalar, Scalar) -> Option<HitRecord>,
    N: Fn(Scalar) -> Scalar,
    F: Fn(Scalar, Scalar, Scalar) -> Passage,
>(
    medium: ConstantMedium<B>,
    entry: HitRecord,
    probe: P,
    beyond: N,
    free_path: F,
    t_min: Scalar,
    t_max: Scalar,
    r: Option<HitRecord>,
) -> bool {
    exists|resume: Scalar, exit: Option<HitRecord>| #[trigger]
        beyond.ensures((entry.t,), resume) && #[trigger] probe.ensures(
            (&medium.boundary, resume, Scalar::spec_infinity()),
            exit,
        ) && match span_spec(Some(entry), exit, t_min, t_max) {
            None => r is None,
            Some((from, to)) => exists|passage: Passage| #[trigger]
                free_path.ensures((medium.neg_inv_density, from, to), passage) && r
                    == scatter_within_spec(
                    passage.distance_inside,
                    passage.hit_distance,
                    passage.t,
                    passage.point,
                    passage.incidence,
                    medium.phase_function,
                ),
        }
}

/// Whether `r` may be what `hit` returns.
pub open spec fn hit_outcome<
    B,
    P: Fn(&B, Scalar, Scalar) -> Option<HitRecord>,
    N: Fn(Scalar) -> Scalar,
    F: Fn(Scalar, Scalar, Scalar) -> Passage,
>(
    medium: ConstantMedium<B>,
    probe: P,
    beyond: N,
    free_path: F,
    t_min: Scalar,
    t_max: Scalar,
    r: Option<HitRecord>,
) -> bool {
    exists|entry: Option<HitRecord>| #[trigger]
        probe.ensures(
            (&medium.boundary, Scalar::spec_neg_infinity(), Scalar::spec_infinity()),
            entry,
        ) && match entry {
            None => r is None,
            Some(rec1) => hit_after_entry(medium, rec1, probe, beyond, free_path, t_min, t_max, r),
        }
}

/// A homogeneous fog that fills a boundary. `phase_function` names the
/// material that scatters a ray inside the fog, and `neg_inv_density` is the
/// negative reciprocal of the density of the fog.
#[derive(Debug, PartialEq, Eq)]
pub struct ConstantMedium<B> {
    pub boundary: B,
    pub phase_function: usize,
    pub neg_inv_density: Scalar,
}

impl<B> ConstantMedium<B> {
    /// The fog inside `boundary`.
    pub fn new(boundary: B, neg_inv_density: Scalar, phase_function: usize) -> (r: ConstantMedium<B>)
        ensures
            r.boundary == boundary,
            r.neg_inv_density == neg_inv_density,
            r.phase_function == phase_function,
    {
        ConstantMedium { boundary, phase_function, neg_inv_density }
    }

    /// Intersects a ray with the fog between `t_min` and `t_max`.
    ///
    /// `probe` intersects the ray with the boundary of the fog between two
    /// distances, `beyond` moves a distance a little further along the ray,
    /// and `free_path` works out the passage through a stretch of the ray
    /// from the negative reciprocal of the density and the two ends of the
    /// stretch.
    ///
    /// The boundary is asked first for a crossing anywhere along the line of
    /// the ray, from negative to positive infinity, and then for the next
    /// crossing from a little beyond the first, without an upper bound. A
    /// ray that lacks either crossing misses the fog. The stretch between
    /// the two is cut down as `span` describes; a ray without a stretch
    /// misses the fog. Otherwise the passage through the stretch decides as
    /// `scatter_within` describes, and the hit carries the phase function as
    /// its material.
    pub fn hit<
        P: Fn(&B, Scalar, Scalar) -> Option<HitRecord>,
        N: Fn(Scalar) -> Scalar,
        F: Fn(Scalar, Scalar, Scalar) -> Passage,
    >(&self, probe: &P, beyond: &N, free_path: &F, t_min: Scalar, t_max: Scalar) -> (r: Option<
        HitRecord,
    >)
        requires
            forall|low: Scalar, high: Scalar| probe.requires((&self.boundary, low, high)),
            forall|t: Scalar| beyond.requires((t,)),
            forall|from: Scalar, to: Scalar|
                free_path.requires((self.neg_inv_density, from, to)),
        ensures
            hit_outcome(*self, *probe, *beyond, *free_path, t_min, t_max, r),
    {
        let rec1 = match probe(&self.boundary, Scalar::neg_infinity(), Scalar::infinity()) {
            None => {
                return None;
            },
            Some(hit) => hit,
        };
        let resume = beyond(rec1.t());
        let exit = probe(&self.boundary, resume, Scalar::infinity());
        match span(Some(rec1), exit, t_min, t_max) {
            None => None,
            Some((from, to)) => {
                let passage = free_path(self.neg_inv_density, from, to);
                scatter_within(
                    passage.distance_inside,
                    passage.hit_distance,
                    passage.t,
                    passage.point,
                    passage.incidence,
                    self.phase_function,
                )
            },
        }
    }

    /// The box around the fog: that of its boundary, which `bounds` gives.
    pub fn bounding_box<F: Fn(&B) -> AABB>(&self, bounds: &F) -> (r: AABB)
        requires
            bounds.requires((&self.boundary,)),
        ensures
            bounds.ensures((&self.boundary,), r),
    {
        bounds(&self.boundary)
    }
}

/// The phase function of a fog: light is scattered evenly in all
/// directions, tinted by the texture `albedo`.
#[derive(Debug, PartialEq, Eq)]
pub struct Isotropic<T> {
    pub albedo: T,
}

impl<T> Isotropic<T> {
    /// The phase function with the given texture.
    pub fn new(albedo: T) -> (r: Isotropic<T>)
        ensures
            r.albedo == albedo,
    {
        Isotropic { albedo }
    }

    /// Scatters a ray into `scattered`, the ray from the point of the event
    /// in a direction drawn evenly at random. The fog never absorbs; the
    /// attenuation is the colour `sample` reads from the albedo texture.
    pub fn scatter<F: Fn(&T) -> Vec3>(&self, scattered: Ray, sample: &F) -> (r: Option<ScatteredRay>)
        requires
            sample.requires((&self.albedo,)),
        ensures
            r is Some,
            r->0.ray == scattered,
            sample.ensures((&self.albedo,), r->0.attenuation),
    {
        Some(ScatteredRay { ray: scattered, attenuation: sample(&self.albedo) })
    }

    /// The light the fog gives off: none.
    pub fn emitted(&self) -> (r: Vec3)
        ensures
            r == Vec3::spec_zero(),
    {
        Vec3::zero()
    }
}

impl Isotropic<SolidColor> {
    /// The phase function of one colour.
    pub fn new_from_color(color: Vec3) -> (r: Isotropic<SolidColor>)
        ensures
            r.albedo.color == color,
    {
        Isotropic { albedo: SolidColor::new(color) }
    }
}

/// A stretch that is reported starts no earlier than the ray's origin and
/// `t_min` and ends no later than `t_max`, and it is empty only where it
/// ends at or behind the origin, whenever the bounds are numbers.
pub proof fn lemma_span_within_bounds(
    entry: Option<HitRecord>,
    exit: Option<HitRecord>,
    t_min: Scalar,
    t_max: Scalar,
)
    requires
        !t_min.nan(),
        !t_max.nan(),
    ensures
        span_spec(entry, exit, t_min, t_max) matches Some((from, to)) ==> {
            &&& t_min.spec_le(from)
            &&& Scalar::spec_zero().spec_le(from)
            &&& to.spec_le(t_max)
            &&& from.spec_lt(to) || to.rank() <= 0
        },
{
}

} // verus!
