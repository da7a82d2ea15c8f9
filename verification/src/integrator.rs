//! The light-transport recursion: the colour a ray brings back from the
//! scene.
//!
//! The scene, its materials and the arithmetic on colours are handed in as
//! functions. What is fixed here is the walk itself: when it ends, what it
//! asks of the scene, and which of the answers make up the colour.

use crate::hit_record::HitRecord;
use crate::ray::Ray;
use crate::ray::ScatteredRay;
use crate::scalar::Scalar;
use crate::vec3::Vec3;
use vstd::prelude::*;

verus! {

/// Whether `color` may be what a ray brings back after at most `depth`
/// bounces.
///
/// With no bounce left the ray brings back nothing. Otherwise the scene is
/// asked for the closest intersection from `ray_offset` on, without an upper
/// bound. A ray that meets nothing brings back the background. One that
/// meets a surface brings back what the surface gives off and, where the
/// surface scatters it, what `shade` makes of that, the attenuation and the
/// colour the scattered ray brings back with one bounce fewer.
pub open spec fn radiance<
    H: Fn(&Ray, Scalar, Scalar) -> Option<HitRecord>,
    S: Fn(&Ray, &HitRecord) -> Option<ScatteredRay>,
    E: Fn(&HitRecord) -> Vec3,
    C: Fn(Vec3, Vec3, Vec3) -> Vec3,
>(
    ray: Ray,
    background: Vec3,
    depth: int,
    ray_offset: Scalar,
    hit: H,
    scatter: S,
    emitted: E,
    shade: C,
    color: Vec3,
) -> bool
    decreases depth, 1int,
{
    if depth <= 0 {
        color == Vec3::spec_zero()
    } else {
        exists|found: Option<HitRecord>| #[trigger]
            hit.ensures((&ray, ray_offset, Scalar::spec_infinity()), found) && match found {
                None => color == background,
                Some(rec) => after_hit(
                    ray,
                    rec,
                    background,
                    depth,
                    ray_offset,
                    hit,
                    scatter,
                    emitted,
                    shade,
                    color,
                ),
            }
    }
}

/// Whether `color` may be what a ray brings back that has met a surface at
/// `rec`, with `depth` bounces left, this one included: what the surface
/// gives off and, where the surface scatters the ray, what `shade` makes of
/// that, the attenuation and the colour the scattered ray brings back.
pub open spec fn after_hit<
    H: Fn(&Ray, Scalar, Scalar) -> Option<HitRecord>,
    S: Fn(&Ray, &HitRecord) -> Option<ScatteredRay>,
    E: Fn(&HitRecord) -> Vec3,
    C: Fn(Vec3, Vec3, Vec3) -> Vec3,
>(
    ray: Ray,
    rec: HitRecord,
    background: Vec3,
    depth: int,
    ray_offset: Scalar,
    hit: H,
    scatter: S,
    emitted: E,
    shade: C,
    color: Vec3,
) -> bool
    decreases depth, 0int,
{
    exists|scattered: Option<ScatteredRay>, glow: Vec3| #[trigger]
        scatter.ensures((&ray, &rec), scattered) && #[trigger] emitted.ensures((&rec,), glow)
            && match scattered {
            None => color == glow,
            Some(s) => depth > 0 && exists|incoming: Vec3|
                radiance(
                    s.ray,
                    background,
                    depth - 1,
                    ray_offset,
                    hit,
                    scatter,
                    emitted,
                    shade,
                    incoming,
                ) && #[trigger] shade.ensures((glow, s.attenuation, incoming), color),
        }
}

/// A ray that meets nothing brings back the background: where the scene
/// answers nothing but a miss for the ray and a bounce is left, the colour
/// is the background's.
pub proof fn lemma_miss_shows_background<
    H: Fn(&Ray, Scalar, Scalar) -> Option<HitRecord>,
    S: Fn(&Ray, &HitRecord) -> Option<ScatteredRay>,
    E: Fn(&HitRecord) -> Vec3,
    C: Fn(Vec3, Vec3, Vec3) -> Vec3,
>(
    ray: Ray,
    background: Vec3,
    depth: int,
    ray_offset: Scalar,
    hit: H,
    scatter: S,
    emitted: E,
    shade: C,
    color: Vec3,
)
    requires
        depth > 0,
        radiance(ray, background, depth, ray_offset, hit, scatter, emitted, shade, color),
        forall|found: Option<HitRecord>| #[trigger]
            hit.ensures((&ray, ray_offset, Scalar::spec_infinity()), found) ==> found is None,
    ensures
        color == background,
{
}

/// A light in view is seen in its own colour: where the ray meets a
/// surface, that surface scatters nothing and a bounce is left, the colour
/// is what the surface gives off, whatever the background and however many
/// bounces are left.
pub proof fn lemma_absorbing_surface_shows_its_light<
    H: Fn(&Ray, Scalar, Scalar) -> Option<HitRecord>,
    S: Fn(&Ray, &HitRecord) -> Option<ScatteredRay>,
    E: Fn(&HitRecord) -> Vec3,
    C: Fn(Vec3, Vec3, Vec3) -> Vec3,
>(
    ray: Ray,
    background: Vec3,
    depth: int,
    ray_offset: Scalar,
    hit: H,
    scatter: S,
    emitted: E,
    shade: C,
    color: Vec3,
)
    requires
        depth > 0,
        radiance(ray, background, depth, ray_offset, hit, scatter, emitted, shade, color),
        forall|found: Option<HitRecord>| #[trigger]
            hit.ensures((&ray, ray_offset, Scalar::spec_infinity()), found) ==> found is Some,
        forall|rec: HitRecord, scattered: Option<ScatteredRay>| #[trigger]
            scatter.ensures((&ray, &rec), scattered) ==> scattered is None,
    ensures
        exists|rec: HitRecord|
            hit.ensures((&ray, ray_offset, Scalar::spec_infinity()), Some(rec))
                && #[trigger] emitted.ensures((&rec,), color),
{
    let found = choose|found: Option<HitRecord>| #[trigger]
        hit.ensures((&ray, ray_offset, Scalar::spec_infinity()), found) && match found {
            None => color == background,
            Some(rec) => after_hit(
                ray,
                rec,
                background,
                depth,
                ray_offset,
                hit,
                scatter,
                emitted,
                shade,
                color,
            ),
        };
    let rec = found->0;
    assert(after_hit(ray, rec, background, depth, ray_offset, hit, scatter, emitted, shade, color));
    assert(emitted.ensures((&rec,), color));
}

/// The colour a ray brings back from the scene after at most
/// `recursive_depth` bounces.
///
/// `hit` intersects a ray with the scene between two distances, `scatter`
/// and `emitted` ask the material at an intersection for the scattered ray
/// and for the light given off, and `shade` adds up a bounce: the light
/// given off, plus the attenuation times the incoming colour, channel by
/// channel.
///
/// With no bounce left the result is black, whatever the scene holds, and
/// the scene is not asked.
pub fn ray_color<
    H: Fn(&Ray, Scalar, Scalar) -> Option<HitRecord>,
    S: Fn(&Ray, &HitRecord) -> Option<ScatteredRay>,
    E: Fn(&HitRecord) -> Vec3,
    C: Fn(Vec3, Vec3, Vec3) -> Vec3,
>(
    ray: &Ray,
    background: &Vec3,
    recursive_depth: i32,
    ray_offset: Scalar,
    hit: &H,
    scatter: &S,
    emitted: &E,
    shade: &C,
) -> (color: Vec3)
    requires
        forall|r: Ray, t_min: Scalar, t_max: Scalar| hit.requires((&r, t_min, t_max)),
        forall|r: Ray, rec: HitRecord| scatter.requires((&r, &rec)),
        forall|rec: HitRecord| emitted.requires((&rec,)),
        forall|glow: Vec3, attenuation: Vec3, incoming: Vec3|
            shade.requires((glow, attenuation, incoming)),
    ensures
        recursive_depth <= 0 ==> color == Vec3::spec_zero(),
        radiance(
            *ray,
            *background,
            recursive_depth as int,
            ray_offset,
            *hit,
            *scatter,
            *emitted,
            *shade,
            color,
        ),
    decreases recursive_depth,
{
    if recursive_depth <= 0 {
        return Vec3::zero();
    }
    let world_hit = hit(ray, ray_offset, Scalar::infinity());
    match world_hit {
        Some(hit_res) => {
            let scatter_result = scatter(ray, &hit_res);
            let glow = emitted(&hit_res);
            match scatter_result {
                Some(scattered) => {
                    let incoming = ray_color(
                        &scattered.ray,
                        background,
                        recursive_depth - 1,
                        ray_offset,
                        hit,
                        scatter,
                        emitted,
                        shade,
                    );
                    shade(glow, scattered.attenuation, incoming)
                },
                None => glow,
            }
        },
        None => *background,
    }
}

} // verus!
