use rust_tracing::aabb::AABB;
use rust_tracing::constant_medium::scatter_within;
use rust_tracing::constant_medium::span;
use rust_tracing::cuboid::Cuboid;
use rust_tracing::hit_record::HitRecord;
use rust_tracing::rectangle::Axis;
use rust_tracing::rectangle::AxisRectangle;
use rust_tracing::scalar::Double;
use rust_tracing::scalar::Scalar;
use rust_tracing::sphere::Root;
use rust_tracing::sphere::Sphere;
use rust_tracing::vec3::Vec3;

fn ssc(x: f32) -> Scalar {
    Scalar::from_bits(x.to_bits())
}

fn sfl(s: Scalar) -> f32 {
    f32::from_bits(s.to_bits())
}

fn svec(x: f32, y: f32, z: f32) -> Vec3 {
    Vec3::new(ssc(x), ssc(y), ssc(z))
}

fn sarr(v: Vec3) -> [f32; 3] {
    [sfl(v.x()), sfl(v.y()), sfl(v.z())]
}

fn zero_uv() -> (Scalar, Scalar) {
    (ssc(0.0), ssc(0.0))
}

fn record_at(t: f32) -> HitRecord {
    HitRecord::new_hit(ssc(t), svec(0.0, 0.0, 0.0), svec(0.0, 1.0, 0.0), ssc(-1.0), zero_uv(), 0)
}

fn sdot(a: [f32; 3], b: [f32; 3]) -> f32 {
    a[0] * b[0] + a[1] * b[1] + a[2] * b[2]
}

fn sphere_root(center: [f32; 3], radius: f32, origin: [f32; 3], direction: [f32; 3], t: f32) -> Root {
    let point = [origin[0] + t * direction[0], origin[1] + t * direction[1], origin[2] + t * direction[2]];
    let normal =
        [(point[0] - center[0]) / radius, (point[1] - center[1]) / radius, (point[2] - center[2]) / radius];
    let pi = std::f32::consts::PI;
    let u = 1.0 - (normal[2].atan2(normal[0]) + pi) / (2.0 * pi);
    let v = (normal[1].asin() + pi / 2.0) / pi;
    Root {
        t: ssc(t),
        point: svec(point[0], point[1], point[2]),
        outward_normal: svec(normal[0], normal[1], normal[2]),
        incidence: ssc(sdot(direction, normal)),
        uv: (ssc(u), ssc(v)),
    }
}

fn sphere_hit(
    center: [f32; 3],
    radius: f32,
    origin: [f32; 3],
    direction: [f32; 3],
    t_min: f32,
    t_max: f32,
) -> Option<HitRecord> {
    let oc = [origin[0] - center[0], origin[1] - center[1], origin[2] - center[2]];
    let half_b = sdot(oc, direction);
    let c = sdot(oc, oc) - radius * radius;
    let discriminant = half_b * half_b - c;
    let root = discriminant.sqrt();
    let near = sphere_root(center, radius, origin, direction, -half_b - root);
    let far = sphere_root(center, radius, origin, direction, -half_b + root);
    Sphere::new(svec(center[0], center[1], center[2]), sdouble(radius as f64), 7).hit(
        sdouble(discriminant as f64),
        &near,
        &far,
        ssc(t_min),
        ssc(t_max),
    )
}

fn sdouble(x: f64) -> Double {
    Double::from_bits(x.to_bits())
}

#[test]
fn hit_on_the_front_keeps_the_outward_normal() {
    let hit = HitRecord::new_hit(
        ssc(2.5),
        svec(1.0, 2.0, 3.0),
        svec(0.0, 1.0, 0.0),
        ssc(-0.5),
        (ssc(0.25), ssc(0.75)),
        4,
    );
    assert_eq!(hit.t(), ssc(2.5));
    assert_eq!(hit.point(), svec(1.0, 2.0, 3.0));
    assert_eq!(hit.normal(), svec(0.0, 1.0, 0.0));
    assert!(hit.front_face());
    assert_eq!(hit.uv(), (ssc(0.25), ssc(0.75)));
    assert_eq!(hit.material(), 4);
    assert!(!hit.no_hit());
}

#[test]
fn hit_on_the_back_turns_the_normal() {
    let hit =
        HitRecord::new_hit(ssc(2.5), svec(1.0, 2.0, 3.0), svec(0.0, 1.0, 0.0), ssc(0.5), zero_uv(), 4);
    assert_eq!(hit.normal(), svec(-0.0, -1.0, -0.0));
    assert!(!hit.front_face());
}

#[test]
fn grazing_hit_counts_as_back() {
    let hit =
        HitRecord::new_hit(ssc(2.5), svec(1.0, 2.0, 3.0), svec(0.0, 1.0, 0.0), ssc(0.0), zero_uv(), 4);
    assert!(!hit.front_face());
    assert_eq!(hit.normal(), svec(-0.0, -1.0, -0.0));
}

#[test]
fn empty_record_lies_at_infinity() {
    let hit = HitRecord::new_hit_empty();
    assert_eq!(sfl(hit.t()), f32::INFINITY);
    assert_eq!(hit.point(), svec(0.0, 0.0, 0.0));
    assert_eq!(hit.normal(), svec(0.0, 0.0, 0.0));
    assert!(!hit.front_face());
    assert_eq!(hit.uv(), zero_uv());
    assert!(hit.no_hit());
}

#[test]
fn translate_moves_only_the_point() {
    let mut hit = record_at(3.0);
    let before = hit;
    hit.translate(svec(9.0, 8.0, 7.0));
    assert_eq!(hit.point(), svec(9.0, 8.0, 7.0));
    assert_eq!(hit.t(), before.t());
    assert_eq!(hit.normal(), before.normal());
    assert_eq!(hit.front_face(), before.front_face());
    assert_eq!(hit.material(), before.material());
}

#[test]
fn set_face_normal_turns_only_the_normal() {
    let mut hit = record_at(3.0);
    assert!(hit.front_face());
    hit.set_face_normal(ssc(0.25), svec(1.0, 0.0, 0.0));
    assert_eq!(hit.normal(), svec(-1.0, -0.0, -0.0));
    assert!(!hit.front_face());
    assert_eq!(hit.outward_normal(), svec(1.0, 0.0, 0.0));
    hit.set_face_normal(ssc(-0.25), svec(1.0, 0.0, 0.0));
    assert_eq!(hit.normal(), svec(1.0, 0.0, 0.0));
    assert!(hit.front_face());
    assert_eq!(hit.outward_normal(), svec(1.0, 0.0, 0.0));
    hit.set_face_normal(ssc(0.0), svec(0.0, 2.0, 0.0));
    assert!(!hit.front_face());
    assert_eq!(hit.outward_normal(), svec(0.0, 2.0, 0.0));
    assert_eq!(hit.t(), ssc(3.0));
    assert_eq!(hit.point(), svec(0.0, 0.0, 0.0));
    assert_eq!(hit.uv(), zero_uv());
    assert_eq!(hit.material(), 0);
}

#[test]
fn the_outward_normal_comes_back_from_normal_and_flag() {
    for &incidence in [-1.0, -0.0, 0.0, 0.5, f32::NAN].iter() {
        let hit = HitRecord::new_hit(ssc(1.0), svec(0.0, 0.0, 0.0), svec(0.6, -0.0, 0.8), ssc(incidence), zero_uv(), 0);
        assert_eq!(hit.front_face(), incidence < 0.0);
        assert_eq!(hit.outward_normal(), svec(0.6, -0.0, 0.8));
    }
}

#[test]
fn sphere_reports_the_near_root() {
    let hit = sphere_hit([0.0, 0.0, -5.0], 1.0, [0.0, 0.0, 0.0], [0.0, 0.0, -1.0], 0.001, f32::INFINITY)
        .unwrap();
    assert_eq!(sfl(hit.t()), 4.0);
    assert_eq!(sarr(hit.point()), [0.0, 0.0, -4.0]);
    assert_eq!(sarr(hit.normal()), [0.0, 0.0, 1.0]);
    assert!(hit.front_face());
    assert_eq!(hit.material(), 7);
}

#[test]
fn sphere_reports_the_far_root_from_inside() {
    let hit = sphere_hit([0.0, 0.0, 0.0], 2.0, [0.0, 0.0, 0.0], [1.0, 0.0, 0.0], 0.001, f32::INFINITY)
        .unwrap();
    assert_eq!(sfl(hit.t()), 2.0);
    assert!(!hit.front_face());
    assert_eq!(sarr(hit.normal()), [-1.0, -0.0, -0.0]);
}

#[test]
fn sphere_reports_the_far_root_when_the_near_is_cut_off() {
    let hit = sphere_hit([0.0, 0.0, -5.0], 1.0, [0.0, 0.0, 0.0], [0.0, 0.0, -1.0], 4.5, f32::INFINITY)
        .unwrap();
    assert_eq!(sfl(hit.t()), 6.0);
}

#[test]
fn sphere_bounds_are_exclusive() {
    let center = [0.0, 0.0, -5.0];
    let origin = [0.0, 0.0, 0.0];
    let direction = [0.0, 0.0, -1.0];
    assert_eq!(sfl(sphere_hit(center, 1.0, origin, direction, 4.0, 7.0).unwrap().t()), 6.0);
    assert_eq!(sphere_hit(center, 1.0, origin, direction, 4.0, 6.0), None);
    assert_eq!(sphere_hit(center, 1.0, origin, direction, 6.5, 100.0), None);
}

#[test]
fn sphere_is_missed_beside_and_behind() {
    assert_eq!(
        sphere_hit([0.0, 3.0, -5.0], 1.0, [0.0, 0.0, 0.0], [0.0, 0.0, -1.0], 0.001, f32::INFINITY),
        None
    );
    assert_eq!(
        sphere_hit([0.0, 0.0, 5.0], 1.0, [0.0, 0.0, 0.0], [0.0, 0.0, -1.0], 0.001, f32::INFINITY),
        None
    );
}

#[test]
fn sphere_tangent_ray_touches_at_its_one_root() {
    let hit = sphere_hit([0.0, 1.0, -5.0], 1.0, [0.0, 0.0, 0.0], [0.0, 0.0, -1.0], 0.001, f32::INFINITY)
        .unwrap();
    assert_eq!(sfl(hit.t()), 5.0);
    assert_eq!(sarr(hit.point()), [0.0, 0.0, -5.0]);
    assert_eq!(
        sphere_hit([0.0, 1.0, -5.0], 1.0, [0.0, 0.0, 0.0], [0.0, 0.0, -1.0], 5.0, f32::INFINITY),
        None
    );
    assert_eq!(sphere_hit([0.0, 1.0, -5.0], 1.0, [0.0, 0.0, 0.0], [0.0, 0.0, -1.0], 0.001, 5.0), None);
}

#[test]
fn sphere_with_a_negative_discriminant_is_missed_whatever_the_roots() {
    let root = sphere_root([0.0, 0.0, -5.0], 1.0, [0.0, 0.0, 0.0], [0.0, 0.0, -1.0], 4.0);
    let ball = Sphere::new(svec(0.0, 0.0, -5.0), sdouble(1.0), 1);
    assert!(ball.hit(sdouble(0.0), &root, &root, ssc(0.001), ssc(100.0)).is_some());
    assert!(ball.hit(sdouble(-0.0), &root, &root, ssc(0.001), ssc(100.0)).is_some());
    assert_eq!(ball.hit(sdouble(-2.0), &root, &root, ssc(0.001), ssc(100.0)), None);
    assert_eq!(ball.hit(sdouble(-1.0e-320), &root, &root, ssc(0.001), ssc(100.0)), None);
    assert_eq!(ball.hit(sdouble(f64::NAN), &root, &root, ssc(0.001), ssc(100.0)), None);
    assert_eq!(ball.hit(sdouble(-f64::NAN), &root, &root, ssc(0.001), ssc(100.0)), None);
    assert_eq!(ball.hit(sdouble(f64::NEG_INFINITY), &root, &root, ssc(0.001), ssc(100.0)), None);
    assert!(ball.hit(sdouble(1.0e-300), &root, &root, ssc(0.001), ssc(100.0)).is_some());
    assert!(ball.hit(sdouble(f64::MIN_POSITIVE / 4.0), &root, &root, ssc(0.001), ssc(100.0)).is_some());
    assert!(ball.hit(sdouble(f64::INFINITY), &root, &root, ssc(0.001), ssc(100.0)).is_some());
}

#[test]
fn positive_doubles_are_the_numbers_above_zero() {
    let samples =
        [f64::NEG_INFINITY, -1.0e300, -1.0, -1.0e-320, -0.0, 0.0, 1.0e-320, 1.0, 1.0e300, f64::INFINITY, f64::NAN];
    for &x in samples.iter() {
        assert_eq!(sdouble(x).is_positive(), x > 0.0);
        assert_eq!(sdouble(x).is_not_negative(), x >= 0.0);
        assert_eq!(sdouble(x).to_bits(), x.to_bits());
    }
}

#[test]
fn sphere_keeps_centre_radius_and_material() {
    let ball = Sphere::new(svec(1.0, 2.0, 3.0), sdouble(0.2), 5);
    assert_eq!(ball.center, svec(1.0, 2.0, 3.0));
    assert_eq!(f64::from_bits(ball.radius.to_bits()), 0.2);
    assert_eq!(ball.material, 5);
}

#[test]
fn ray_through_a_surface_point_recovers_it() {
    let centers = [[0.0, 0.0, 0.0], [3.0, -2.0, 7.5], [-10.0, 4.0, 0.25]];
    let radii = [1.0, 0.2, 25.0];
    let normals = [
        [1.0, 0.0, 0.0],
        [0.0, -1.0, 0.0],
        [0.6, 0.0, 0.8],
        [0.267_261_24, 0.534_522_5, 0.801_783_7],
    ];
    for &center in centers.iter() {
        for &radius in radii.iter() {
            for &n in normals.iter() {
                let surface =
                    [center[0] + radius * n[0], center[1] + radius * n[1], center[2] + radius * n[2]];
                let origin = [
                    center[0] + 3.0 * radius * n[0],
                    center[1] + 3.0 * radius * n[1],
                    center[2] + 3.0 * radius * n[2],
                ];
                let direction = [-n[0], -n[1], -n[2]];
                let hit = sphere_hit(center, radius, origin, direction, 0.001, f32::INFINITY).unwrap();
                let tolerance = 1.0e-3 * radius.max(1.0);
                let p = sarr(hit.point());
                for a in 0..3 {
                    assert!((p[a] - surface[a]).abs() <= tolerance);
                }
                let normal = sarr(hit.normal());
                assert!((sdot(normal, normal).sqrt() - 1.0).abs() <= 1.0e-3);
                assert!(sdot(normal, n) > 0.999);
                assert!(hit.front_face());
            }
        }
    }
}

#[test]
fn rectangles_take_their_axes_from_their_plane() {
    let xy = AxisRectangle::new_xy(ssc(1.0), ssc(2.0), ssc(3.0), ssc(4.0), ssc(5.0), 9);
    assert_eq!((xy.axis_u, xy.axis_v, xy.axis_normal), (0, 1, 2));
    assert_eq!(xy.c0, [ssc(1.0), ssc(3.0)]);
    assert_eq!(xy.c1, [ssc(2.0), ssc(4.0)]);
    assert_eq!(xy.k, ssc(5.0));
    assert_eq!(xy.material, 9);
    let xz = AxisRectangle::new_xz(ssc(1.0), ssc(2.0), ssc(3.0), ssc(4.0), ssc(5.0), 9);
    assert_eq!((xz.axis_u, xz.axis_v, xz.axis_normal), (0, 2, 1));
    assert_eq!(xz.c0, [ssc(1.0), ssc(3.0)]);
    let yz = AxisRectangle::new_yz(ssc(1.0), ssc(2.0), ssc(3.0), ssc(4.0), ssc(5.0), 9);
    assert_eq!((yz.axis_u, yz.axis_v, yz.axis_normal), (1, 2, 0));
    assert_eq!(yz.c1, [ssc(2.0), ssc(4.0)]);
    assert_eq!(Axis::X.index(), 0);
    assert_eq!(Axis::Y.index(), 1);
    assert_eq!(Axis::Z.index(), 2);
}

#[test]
fn rectangle_normals_are_unit_vectors() {
    let xy = AxisRectangle::new_xy(ssc(0.0), ssc(1.0), ssc(0.0), ssc(1.0), ssc(0.0), 0);
    let xz = AxisRectangle::new_xz(ssc(0.0), ssc(1.0), ssc(0.0), ssc(1.0), ssc(0.0), 0);
    let yz = AxisRectangle::new_yz(ssc(0.0), ssc(1.0), ssc(0.0), ssc(1.0), ssc(0.0), 0);
    assert_eq!(xy.outward_normal(), svec(0.0, 0.0, 1.0));
    assert_eq!(xz.outward_normal(), svec(0.0, 1.0, 0.0));
    assert_eq!(yz.outward_normal(), svec(1.0, 0.0, 0.0));
}

#[test]
fn rectangle_box_is_padded_across_its_plane() {
    let xz = AxisRectangle::new_xz(ssc(113.0), ssc(443.0), ssc(127.0), ssc(432.0), ssc(554.0), 0);
    let aabb = xz.bounding_box(ssc(554.0 - 0.0001), ssc(554.0 + 0.0001));
    assert_eq!(
        aabb,
        AABB::new(svec(113.0, 554.0 - 0.0001, 127.0), svec(443.0, 554.0 + 0.0001, 432.0))
    );
    let yz = AxisRectangle::new_yz(ssc(1.0), ssc(2.0), ssc(3.0), ssc(4.0), ssc(5.0), 0);
    assert_eq!(
        yz.bounding_box(ssc(4.5), ssc(5.5)),
        AABB::new(svec(4.5, 1.0, 3.0), svec(5.5, 2.0, 4.0))
    );
    let xy = AxisRectangle::new_xy(ssc(1.0), ssc(2.0), ssc(3.0), ssc(4.0), ssc(5.0), 0);
    assert_eq!(
        xy.bounding_box(ssc(4.5), ssc(5.5)),
        AABB::new(svec(1.0, 3.0, 4.5), svec(2.0, 4.0, 5.5))
    );
}

fn rectangle_probe(rect: &AxisRectangle, t: f32, along_u: f32, along_v: f32, t_min: f32, t_max: f32) -> Option<HitRecord> {
    rect.hit(
        ssc(t),
        ssc(along_u),
        ssc(along_v),
        svec(along_u, along_v, 5.0),
        ssc(-1.0),
        (ssc(0.5), ssc(0.5)),
        ssc(t_min),
        ssc(t_max),
    )
}

#[test]
fn rectangle_is_hit_inside_and_on_its_edges() {
    let rect = AxisRectangle::new_xy(ssc(0.0), ssc(2.0), ssc(10.0), ssc(12.0), ssc(5.0), 3);
    let hit = rectangle_probe(&rect, 4.0, 1.0, 11.0, 0.001, 100.0).unwrap();
    assert_eq!(hit.t(), ssc(4.0));
    assert_eq!(hit.normal(), svec(0.0, 0.0, 1.0));
    assert!(hit.front_face());
    assert_eq!(hit.material(), 3);
    assert_eq!(hit.uv(), (ssc(0.5), ssc(0.5)));
    assert!(rectangle_probe(&rect, 4.0, 0.0, 10.0, 0.001, 100.0).is_some());
    assert!(rectangle_probe(&rect, 4.0, 2.0, 12.0, 0.001, 100.0).is_some());
}

#[test]
fn rectangle_is_missed_outside_its_extent() {
    let rect = AxisRectangle::new_xy(ssc(0.0), ssc(2.0), ssc(10.0), ssc(12.0), ssc(5.0), 3);
    assert_eq!(rectangle_probe(&rect, 4.0, -0.001, 11.0, 0.001, 100.0), None);
    assert_eq!(rectangle_probe(&rect, 4.0, 2.001, 11.0, 0.001, 100.0), None);
    assert_eq!(rectangle_probe(&rect, 4.0, 1.0, 9.999, 0.001, 100.0), None);
    assert_eq!(rectangle_probe(&rect, 4.0, 1.0, 12.001, 0.001, 100.0), None);
}

#[test]
fn rectangle_interval_includes_its_bounds() {
    let rect = AxisRectangle::new_xy(ssc(0.0), ssc(2.0), ssc(10.0), ssc(12.0), ssc(5.0), 3);
    assert!(rectangle_probe(&rect, 4.0, 1.0, 11.0, 4.0, 100.0).is_some());
    assert!(rectangle_probe(&rect, 4.0, 1.0, 11.0, 0.001, 4.0).is_some());
    assert_eq!(rectangle_probe(&rect, 4.0, 1.0, 11.0, 4.001, 100.0), None);
    assert_eq!(rectangle_probe(&rect, 4.0, 1.0, 11.0, 0.001, 3.999), None);
    assert_eq!(rectangle_probe(&rect, -4.0, 1.0, 11.0, 0.001, 100.0), None);
}

#[test]
fn ray_within_the_plane_of_a_rectangle_misses() {
    let rect = AxisRectangle::new_xy(ssc(-1.0), ssc(1.0), ssc(-1.0), ssc(1.0), ssc(0.0), 3);
    assert!(rect.is_well_formed());
    assert_eq!(side_hit(&rect, [0.0, 0.0, 0.0], [1.0, 0.0, 0.0]), None);
    assert_eq!(side_hit(&rect, [0.5, -3.0, 0.0], [0.0, 1.0, 0.0]), None);
    assert_eq!(side_hit(&rect, [0.0, 0.0, 1.0], [1.0, 0.0, 0.0]), None);
    assert!(side_hit(&rect, [0.0, 0.0, 1.0], [0.0, 0.0, -1.0]).is_some());
}

#[test]
fn rectangle_crossing_at_no_number_misses() {
    let rect = AxisRectangle::new_xy(ssc(0.0), ssc(2.0), ssc(10.0), ssc(12.0), ssc(5.0), 3);
    let nan = ssc(f32::NAN);
    let ok = (ssc(0.5), ssc(0.5));
    let point = svec(1.0, 11.0, 5.0);
    let hit = |t: Scalar, u: Scalar, v: Scalar, uv: (Scalar, Scalar)| {
        rect.hit(t, u, v, point, ssc(-1.0), uv, ssc(f32::NEG_INFINITY), ssc(f32::INFINITY))
    };
    assert!(hit(ssc(4.0), ssc(1.0), ssc(11.0), ok).is_some());
    assert_eq!(hit(nan, ssc(1.0), ssc(11.0), ok), None);
    assert_eq!(hit(ssc(4.0), nan, ssc(11.0), ok), None);
    assert_eq!(hit(ssc(4.0), ssc(1.0), nan, ok), None);
    assert_eq!(hit(ssc(4.0), ssc(1.0), ssc(11.0), (nan, ssc(0.5))), None);
    assert_eq!(hit(ssc(4.0), ssc(1.0), ssc(11.0), (ssc(0.5), nan)), None);
}

#[test]
fn rectangle_without_extent_misses() {
    let line = AxisRectangle::new_xy(ssc(1.0), ssc(1.0), ssc(-1.0), ssc(1.0), ssc(0.0), 3);
    assert_eq!(side_hit(&line, [1.0, 0.0, 1.0], [0.0, 0.0, -1.0]), None);
}

#[test]
fn malformed_rectangle_is_told() {
    let mut rect = AxisRectangle::new_xy(ssc(0.0), ssc(2.0), ssc(10.0), ssc(12.0), ssc(5.0), 3);
    rect.axis_v = 2;
    assert!(!rect.is_well_formed());
    rect.axis_v = 3;
    assert!(!rect.is_well_formed());
}

#[test]
fn cuboid_has_six_sides_in_order() {
    let cuboid = Cuboid::new(svec(1.0, 2.0, 3.0), svec(4.0, 5.0, 6.0), 8);
    let expected = vec![
        AxisRectangle::new_xy(ssc(1.0), ssc(4.0), ssc(2.0), ssc(5.0), ssc(6.0), 8),
        AxisRectangle::new_xy(ssc(1.0), ssc(4.0), ssc(2.0), ssc(5.0), ssc(3.0), 8),
        AxisRectangle::new_xz(ssc(1.0), ssc(4.0), ssc(3.0), ssc(6.0), ssc(5.0), 8),
        AxisRectangle::new_xz(ssc(1.0), ssc(4.0), ssc(3.0), ssc(6.0), ssc(2.0), 8),
        AxisRectangle::new_yz(ssc(2.0), ssc(5.0), ssc(3.0), ssc(6.0), ssc(4.0), 8),
        AxisRectangle::new_yz(ssc(2.0), ssc(5.0), ssc(3.0), ssc(6.0), ssc(1.0), 8),
    ];
    assert_eq!(cuboid.sides.list, expected);
    assert_eq!(cuboid.bounding_box(), AABB::new(svec(1.0, 2.0, 3.0), svec(4.0, 5.0, 6.0)));
}

fn side_hit(rect: &AxisRectangle, origin: [f32; 3], direction: [f32; 3]) -> Option<HitRecord> {
    let n = rect.axis_normal;
    let t = (sfl(rect.k) - origin[n]) / direction[n];
    let along_u = origin[rect.axis_u] + t * direction[rect.axis_u];
    let along_v = origin[rect.axis_v] + t * direction[rect.axis_v];
    let point = svec(origin[0] + t * direction[0], origin[1] + t * direction[1], origin[2] + t * direction[2]);
    let u = (along_u - sfl(rect.c0[0])) / (sfl(rect.c1[0]) - sfl(rect.c0[0]));
    let v = (along_v - sfl(rect.c0[1])) / (sfl(rect.c1[1]) - sfl(rect.c0[1]));
    rect.hit(ssc(t), ssc(along_u), ssc(along_v), point, ssc(direction[n]), (ssc(u), ssc(v)), ssc(0.001), ssc(f32::INFINITY))
}

#[test]
fn cuboid_is_hit_on_its_nearest_side() {
    let cuboid = Cuboid::new(svec(-1.0, -1.0, -1.0), svec(1.0, 1.0, 1.0), 8);
    let origin = [0.25, 0.5, 5.0];
    let direction = [0.0, 0.0, -1.0];
    let hit = cuboid.hit(&|side: &AxisRectangle| side_hit(side, origin, direction)).unwrap();
    assert_eq!(sfl(hit.t()), 4.0);
    assert_eq!(sarr(hit.point()), [0.25, 0.5, 1.0]);
    assert_eq!(sarr(hit.normal()), [0.0, 0.0, 1.0]);
    let beside = [3.0, 0.5, 5.0];
    assert_eq!(cuboid.hit(&|side: &AxisRectangle| side_hit(side, beside, direction)), None);
}

#[test]
fn fog_span_needs_both_crossings() {
    assert_eq!(span(None, None, ssc(0.001), ssc(100.0)), None);
    assert_eq!(span(Some(record_at(1.0)), None, ssc(0.001), ssc(100.0)), None);
    assert_eq!(span(None, Some(record_at(2.0)), ssc(0.001), ssc(100.0)), None);
}

#[test]
fn fog_span_is_clamped_to_the_interval() {
    let entry = Some(record_at(1.0));
    let exit = Some(record_at(5.0));
    assert_eq!(span(entry, exit, ssc(0.001), ssc(100.0)), Some((ssc(1.0), ssc(5.0))));
    assert_eq!(span(entry, exit, ssc(2.0), ssc(100.0)), Some((ssc(2.0), ssc(5.0))));
    assert_eq!(span(entry, exit, ssc(0.001), ssc(3.0)), Some((ssc(1.0), ssc(3.0))));
    assert_eq!(span(entry, exit, ssc(2.0), ssc(3.0)), Some((ssc(2.0), ssc(3.0))));
}

#[test]
fn fog_span_that_is_empty_is_none() {
    let entry = Some(record_at(1.0));
    let exit = Some(record_at(5.0));
    assert_eq!(span(entry, exit, ssc(5.0), ssc(100.0)), None);
    assert_eq!(span(entry, exit, ssc(6.0), ssc(100.0)), None);
    assert_eq!(span(entry, exit, ssc(0.001), ssc(1.0)), None);
    assert_eq!(span(entry, exit, ssc(0.001), ssc(0.5)), None);
}

#[test]
fn fog_span_needs_crossings_at_numbers() {
    let nan = Some(record_at(f32::NAN));
    assert_eq!(span(nan, Some(record_at(5.0)), ssc(0.001), ssc(100.0)), None);
    assert_eq!(span(Some(record_at(1.0)), nan, ssc(0.001), ssc(100.0)), None);
    assert_eq!(span(nan, nan, ssc(0.001), ssc(100.0)), None);
}

#[test]
fn fog_scatters_only_at_numbers() {
    let point = svec(1.0, 2.0, 3.0);
    let nan = ssc(f32::NAN);
    assert_eq!(scatter_within(nan, ssc(1.5), ssc(2.5), point, ssc(0.0), 6), None);
    assert_eq!(scatter_within(ssc(4.0), nan, ssc(2.5), point, ssc(0.0), 6), None);
    assert_eq!(scatter_within(ssc(4.0), ssc(1.5), nan, point, ssc(0.0), 6), None);
}

#[test]
fn fog_span_starts_no_earlier_than_the_origin() {
    let entry = Some(record_at(-3.0));
    let exit = Some(record_at(5.0));
    assert_eq!(
        span(entry, exit, ssc(f32::NEG_INFINITY), ssc(f32::INFINITY)),
        Some((ssc(0.0), ssc(5.0)))
    );
}

#[test]
fn fog_scatters_only_within_the_span() {
    let point = svec(1.0, 2.0, 3.0);
    assert_eq!(scatter_within(ssc(4.0), ssc(4.5), ssc(5.5), point, ssc(0.0), 6), None);
    let hit = scatter_within(ssc(4.0), ssc(1.5), ssc(2.5), point, ssc(0.0), 6).unwrap();
    assert_eq!(hit.t(), ssc(2.5));
    assert_eq!(hit.point(), point);
    assert_eq!(hit.material(), 6);
    assert_eq!(hit.uv(), zero_uv());
    assert_eq!(sarr(hit.normal()), [0.0, 0.0, 0.0]);
    assert!(!hit.front_face());
    assert!(scatter_within(ssc(4.0), ssc(4.0), ssc(5.0), point, ssc(0.0), 6).is_some());
}
