use rust_tracing::constant_medium::Isotropic;
use rust_tracing::material::Dielectric;
use rust_tracing::material::DiffuseLight;
use rust_tracing::material::Lambertian;
use rust_tracing::material::Metal;
use rust_tracing::perlin::Perlin;
use rust_tracing::perlin::POINT_COUNT;
use rust_tracing::ray::Ray;
use rust_tracing::ray::ScatteredRay;
use rust_tracing::scalar::Scalar;
use rust_tracing::texture::CheckerTexture;
use rust_tracing::texture::NoiseTexture;
use rust_tracing::texture::SolidColor;
use rust_tracing::vec3::Vec3;

fn msc(x: f32) -> Scalar {
    Scalar::from_bits(x.to_bits())
}

fn mfl(s: Scalar) -> f32 {
    f32::from_bits(s.to_bits())
}

fn mvec(x: f32, y: f32, z: f32) -> Vec3 {
    Vec3::new(msc(x), msc(y), msc(z))
}

fn marr(v: Vec3) -> [f32; 3] {
    [mfl(v.x()), mfl(v.y()), mfl(v.z())]
}

fn ray_a() -> Ray {
    Ray::new(mvec(1.0, 2.0, 3.0), mvec(0.0, 1.0, 0.0))
}

fn ray_b() -> Ray {
    Ray::new(mvec(1.0, 2.0, 3.0), mvec(0.0, 0.0, -1.0))
}

fn solid_sample(texture: &SolidColor) -> Vec3 {
    texture.color((msc(0.0), msc(0.0)), &mvec(0.0, 0.0, 0.0))
}

fn numbered_vectors() -> [Vec3; 256] {
    let mut v = [mvec(0.0, 0.0, 0.0); 256];
    for i in 0..256 {
        v[i] = mvec(i as f32, 0.0, 0.0);
    }
    v
}

#[test]
fn ray_keeps_origin_and_direction() {
    let ray = Ray::new(mvec(1.0, 2.0, 3.0), mvec(0.0, 0.6, 0.8));
    assert_eq!(ray.origin(), mvec(1.0, 2.0, 3.0));
    assert_eq!(ray.unit_direction(), mvec(0.0, 0.6, 0.8));
}

#[test]
fn solid_color_is_the_same_everywhere() {
    let texture = SolidColor::new(mvec(0.2, 0.3, 0.1));
    assert_eq!(texture.color((msc(0.0), msc(0.0)), &mvec(0.0, 0.0, 0.0)), mvec(0.2, 0.3, 0.1));
    assert_eq!(texture.color((msc(0.7), msc(0.1)), &mvec(5.0, -3.0, 9.0)), mvec(0.2, 0.3, 0.1));
}

#[test]
fn checker_shows_odd_where_the_sines_are_negative() {
    let checker = CheckerTexture::new_from_colors(mvec(0.2, 0.3, 0.1), mvec(0.9, 0.9, 0.9), msc(10.0));
    assert_eq!(checker.square_size, msc(10.0));
    assert_eq!(checker.color(msc(-0.25), &solid_sample), mvec(0.2, 0.3, 0.1));
    assert_eq!(checker.color(msc(0.25), &solid_sample), mvec(0.9, 0.9, 0.9));
    assert_eq!(checker.color(msc(0.0), &solid_sample), mvec(0.9, 0.9, 0.9));
    assert_eq!(checker.color(msc(-0.0), &solid_sample), mvec(0.9, 0.9, 0.9));
}

#[test]
fn checker_follows_the_sines_of_the_point() {
    let checker = CheckerTexture::new(1usize, 2usize, msc(10.0));
    let product = |p: [f32; 3]| (10.0 * p[0]).sin() * (10.0 * p[1]).sin() * (10.0 * p[2]).sin();
    let pick = |p: [f32; 3]| checker.color(msc(product(p)), &|t: &usize| mvec(*t as f32, 0.0, 0.0));
    assert_eq!(pick([0.1, 0.1, 0.1]), mvec(2.0, 0.0, 0.0));
    assert_eq!(pick([0.1, 0.1, 0.4]), mvec(1.0, 0.0, 0.0));
    assert_eq!(pick([0.4, 0.1, 0.4]), mvec(2.0, 0.0, 0.0));
}

#[test]
fn lambertian_always_scatters_with_its_albedo() {
    let material = Lambertian::new_from_color(mvec(0.5, 0.25, 0.75));
    let scattered = material.scatter(ray_a(), &solid_sample).unwrap();
    assert_eq!(scattered.ray, ray_a());
    assert_eq!(scattered.attenuation, mvec(0.5, 0.25, 0.75));
    assert_eq!(material.emitted(), mvec(0.0, 0.0, 0.0));
}

#[test]
fn lambertian_never_amplifies() {
    let albedos =
        [[0.0, 0.0, 0.0], [1.0, 1.0, 1.0], [0.5, 0.5, 0.5], [0.65, 0.05, 0.05], [0.12, 0.45, 0.15]];
    for &a in albedos.iter() {
        let material = Lambertian::new_from_color(mvec(a[0], a[1], a[2]));
        let attenuation = marr(material.scatter(ray_b(), &solid_sample).unwrap().attenuation);
        for c in 0..3 {
            assert!(0.0 <= attenuation[c] && attenuation[c] <= 1.0);
            assert_eq!(attenuation[c], a[c]);
        }
    }
    let checked = Lambertian::new(CheckerTexture::new_from_colors(
        mvec(0.2, 0.3, 0.1),
        mvec(0.9, 0.9, 0.9),
        msc(10.0),
    ));
    for &sines in [-1.0, -0.001, 0.0, 0.5].iter() {
        let sample = |t: &CheckerTexture<SolidColor>| t.color(msc(sines), &solid_sample);
        let attenuation = marr(checked.scatter(ray_b(), &sample).unwrap().attenuation);
        for c in 0..3 {
            assert!(0.0 <= attenuation[c] && attenuation[c] <= 1.0);
        }
    }
}

#[test]
fn metal_reflects_outward_and_absorbs_inward() {
    let material = Metal::new(mvec(0.7, 0.6, 0.5), msc(0.25));
    assert_eq!(material.fuzz, msc(0.25));
    assert_eq!(
        material.scatter(msc(0.5), ray_a()),
        Some(ScatteredRay { ray: ray_a(), attenuation: mvec(0.7, 0.6, 0.5) })
    );
    assert_eq!(material.scatter(msc(-0.5), ray_a()), None);
    assert_eq!(material.scatter(msc(0.0), ray_a()), None);
    assert_eq!(material.scatter(msc(f32::NAN), ray_a()), None);
    assert_eq!(material.emitted(), mvec(0.0, 0.0, 0.0));
}

#[test]
fn dielectric_ratio_depends_on_the_face() {
    let glass = Dielectric::new(msc(1.5));
    assert_eq!(glass.ratio(true, msc(1.0 / 1.5)), msc(1.0 / 1.5));
    assert_eq!(glass.ratio(false, msc(1.0 / 1.5)), msc(1.5));
}

#[test]
fn dielectric_mirrors_a_grazing_ray() {
    let glass = Dielectric::new(msc(1.5));
    let out = glass.scatter(msc(1.2), msc(0.0), msc(0.99), ray_a(), ray_b()).unwrap();
    assert_eq!(out.ray, ray_a());
    assert_eq!(out.attenuation, mvec(1.0, 1.0, 1.0));
}

#[test]
fn dielectric_mirrors_by_chance() {
    let glass = Dielectric::new(msc(1.5));
    let out = glass.scatter(msc(0.3), msc(0.4), msc(0.39), ray_a(), ray_b()).unwrap();
    assert_eq!(out.ray, ray_a());
    assert_eq!(out.attenuation, mvec(1.0, 1.0, 1.0));
}

#[test]
fn dielectric_bends_otherwise() {
    let glass = Dielectric::new(msc(1.5));
    let out = glass.scatter(msc(0.3), msc(0.4), msc(0.4), ray_a(), ray_b()).unwrap();
    assert_eq!(out.ray, ray_b());
    assert_eq!(out.attenuation, mvec(1.0, 1.0, 1.0));
    let edge = glass.scatter(msc(1.0), msc(0.4), msc(0.9), ray_a(), ray_b()).unwrap();
    assert_eq!(edge.ray, ray_b());
    assert_eq!(glass.emitted(), mvec(0.0, 0.0, 0.0));
}

fn reflect(v: [f32; 3], n: [f32; 3]) -> [f32; 3] {
    let d = v[0] * n[0] + v[1] * n[1] + v[2] * n[2];
    [v[0] - 2.0 * d * n[0], v[1] - 2.0 * d * n[1], v[2] - 2.0 * d * n[2]]
}

fn refract(v: [f32; 3], n: [f32; 3], ratio: f32) -> [f32; 3] {
    let cos_theta = -(v[0] * n[0] + v[1] * n[1] + v[2] * n[2]);
    let perp = [
        ratio * (v[0] + cos_theta * n[0]),
        ratio * (v[1] + cos_theta * n[1]),
        ratio * (v[2] + cos_theta * n[2]),
    ];
    let parallel = -(1.0 - (perp[0] * perp[0] + perp[1] * perp[1] + perp[2] * perp[2])).abs().sqrt();
    [perp[0] + parallel * n[0], perp[1] + parallel * n[1], perp[2] + parallel * n[2]]
}

fn schlick(cosine: f32, ratio: f32) -> f32 {
    let mut r0 = (1.0 - ratio) / (1.0 + ratio);
    r0 = r0 * r0;
    r0 + (1.0 - r0) * (1.0 - cosine).powi(5)
}

#[test]
fn matched_media_do_not_deflect_a_head_on_ray() {
    let matched = Dielectric::new(msc(1.0));
    let incoming: [f32; 3] = [0.0, -1.0, 0.0];
    let normal: [f32; 3] = [0.0, 1.0, 0.0];
    for &front_face in [true, false].iter() {
        let ratio = mfl(matched.ratio(front_face, msc(1.0 / 1.0)));
        let cos_theta = (-(incoming[0] * normal[0] + incoming[1] * normal[1] + incoming[2] * normal[2]))
            .min(1.0);
        let sin_theta = (1.0 - cos_theta * cos_theta).sqrt();
        let reflected = reflect(incoming, normal);
        let refracted = refract(incoming, normal, ratio);
        for &sample in [0.0, 0.3, 0.999_999].iter() {
            let out = matched
                .scatter(
                    msc(ratio * sin_theta),
                    msc(schlick(cos_theta, ratio)),
                    msc(sample),
                    Ray::new(mvec(0.0, 0.0, 0.0), mvec(reflected[0], reflected[1], reflected[2])),
                    Ray::new(mvec(0.0, 0.0, 0.0), mvec(refracted[0], refracted[1], refracted[2])),
                )
                .unwrap();
            assert_eq!(marr(out.ray.unit_direction()), incoming);
            assert_eq!(marr(out.attenuation), [1.0, 1.0, 1.0]);
        }
    }
}

#[test]
fn light_never_scatters_and_gives_off_its_colour() {
    let light = DiffuseLight::new_from_color(mvec(15.0, 15.0, 15.0));
    assert_eq!(light.scatter(), None);
    assert_eq!(light.emitted(&solid_sample), mvec(15.0, 15.0, 15.0));
    let textured = DiffuseLight::new(3usize);
    assert_eq!(textured.emitted(&|t: &usize| mvec(*t as f32, 0.0, 0.0)), mvec(3.0, 0.0, 0.0));
}

#[test]
fn fog_scatters_every_ray_with_its_albedo() {
    let phase = Isotropic::new_from_color(mvec(1.0, 1.0, 1.0));
    let out = phase.scatter(ray_b(), &solid_sample).unwrap();
    assert_eq!(out.ray, ray_b());
    assert_eq!(out.attenuation, mvec(1.0, 1.0, 1.0));
    assert_eq!(phase.emitted(), mvec(0.0, 0.0, 0.0));
    let textured = Isotropic::new(SolidColor::new(mvec(0.0, 0.0, 0.0)));
    assert_eq!(textured.scatter(ray_a(), &solid_sample).unwrap().attenuation, mvec(0.0, 0.0, 0.0));
}

#[test]
fn index_tables_map_every_index_to_itself() {
    let noise = Perlin::new(numbered_vectors());
    assert_eq!(POINT_COUNT, 256);
    for i in 0..256 {
        assert_eq!(noise.perm_x[i], i as i32);
        assert_eq!(noise.perm_y[i], i as i32);
        assert_eq!(noise.perm_z[i], i as i32);
    }
    assert_eq!(noise.ranvec, numbered_vectors());
}

#[test]
fn cell_corners_mix_their_coordinates() {
    let noise = Perlin::new(numbered_vectors());
    let c = noise.corners(3, 5, 9);
    for di in 0..2usize {
        for dj in 0..2usize {
            for dk in 0..2usize {
                let expected = (3 + di) ^ (5 + dj) ^ (9 + dk);
                assert_eq!(c[di][dj][dk], mvec(expected as f32, 0.0, 0.0));
            }
        }
    }
    assert_eq!(c[0][0][0], mvec(15.0, 0.0, 0.0));
}

#[test]
fn cell_corners_wrap_around_the_tables() {
    let noise = Perlin::new(numbered_vectors());
    let c = noise.corners(255, -1, 256);
    assert_eq!(c[0][0][0], mvec((255 ^ 255 ^ 0) as f32, 0.0, 0.0));
    assert_eq!(c[1][0][0], mvec((0 ^ 255 ^ 0) as f32, 0.0, 0.0));
    assert_eq!(c[0][1][0], mvec((255 ^ 0 ^ 0) as f32, 0.0, 0.0));
    assert_eq!(c[0][0][1], mvec((255 ^ 255 ^ 1) as f32, 0.0, 0.0));
    let far = noise.corners(i32::MAX, i32::MIN, -257);
    assert_eq!(far[0][0][0], mvec((255 ^ 0 ^ 255) as f32, 0.0, 0.0));
    assert_eq!(far[1][1][1], mvec((0 ^ 1 ^ 0) as f32, 0.0, 0.0));
}

#[test]
fn cell_corners_match_the_masked_lookup() {
    let noise = Perlin::new(numbered_vectors());
    for &(i, j, k) in [(0, 0, 0), (-7, 300, 12), (1000, -1000, 77), (-256, 255, -1)].iter() {
        let c = noise.corners(i, j, k);
        for di in 0..2 {
            for dj in 0..2 {
                for dk in 0..2 {
                    let index = noise.perm_x[((i + di as i32) & 255) as usize]
                        ^ noise.perm_x[((j + dj as i32) & 255) as usize]
                        ^ noise.perm_x[((k + dk as i32) & 255) as usize];
                    assert_eq!(c[di][dj][dk], noise.ranvec[index as usize]);
                }
            }
        }
    }
}

#[test]
fn noise_texture_keeps_scale_and_vectors() {
    let texture = NoiseTexture::new(msc(4.0), numbered_vectors());
    assert_eq!(texture.scale, msc(4.0));
    assert_eq!(texture.noise, Perlin::new(numbered_vectors()));
}
