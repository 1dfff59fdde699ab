use pathtracer::{
    Camera, Color, Config, HitRecord, Material, Ray, Sphere, Vec3, World, SCALE, is_campled,
    ray, ray_color, render, vec3,
};
use pathtracer::material::{
    dielectric_scatter_with, lambertian_scatter_with, metal_scatter_with,
};

const S: i64 = SCALE;

fn unit_y_record(mat: Material) -> HitRecord {
    HitRecord {
        point: vec3(0, 0, -S),
        normal: vec3(0, S, 0),
        t: S,
        front_face: true,
        mat,
    }
}

#[test]
fn vector_arithmetic_exact() {
    let a = vec3(S, 2 * S, -3 * S);
    let b = vec3(S / 2, S / 4, S);
    assert_eq!(a.add(b), vec3(S + S / 2, 2 * S + S / 4, -2 * S));
    assert_eq!(a.sub(b), vec3(S / 2, 2 * S - S / 4, -4 * S));
    assert_eq!(a.neg(), vec3(-S, -2 * S, 3 * S));
    assert_eq!(a.scale(2 * S), vec3(2 * S, 4 * S, -6 * S));
    assert_eq!(a.div(2 * S), vec3(S / 2, S, -3 * S / 2));
    assert_eq!(a.mul(b), vec3(S / 2, S / 2, -3 * S));
    assert_eq!(a.dot(b), -2 * S);
}

#[test]
fn cross_abs_clamp_exact() {
    let x = vec3(S, 0, 0);
    let y = vec3(0, S, 0);
    assert_eq!(x.cross(y), vec3(0, 0, S));
    assert_eq!(y.cross(x), vec3(0, 0, -S));
    assert_eq!(vec3(-S, S, -2 * S).abs(), vec3(S, S, 2 * S));
    assert_eq!(vec3(-2 * S, S / 2, 3 * S).clamp(-S, S), vec3(-S, S / 2, S));
}

#[test]
fn reflect_preserves_squared_norm_on_axis_normal() {
    let v = vec3(3 * S, -4 * S, 0);
    let n = vec3(0, S, 0);
    let r = v.reflect(n);
    assert_eq!(r, vec3(3 * S, 4 * S, 0));
    assert_eq!(r.squared_norm(), v.squared_norm());
}

#[test]
fn ray_at_is_origin_plus_dir_times_t() {
    let r = ray(vec3(S, 0, 0), vec3(0, S, 0));
    let t = 2 * S;
    assert_eq!(r.at(t), r.origin.add(r.dir.scale(t)));
    assert_eq!(r.at(t), vec3(S, 2 * S, 0));
    let skew = Ray::new(vec3(5, 7, -9), vec3(13, -70000, 12345));
    let tt = -3 * S + 11;
    assert_eq!(skew.at(tt), skew.origin.add(skew.dir.scale(tt)));
}

#[test]
fn normalize_yields_near_unit_norm() {
    let v = vec3(3 * S, 4 * S, 0);
    assert_eq!(v.norm(), 5 * S);
    let u = v.normalize();
    let sn = u.squared_norm();
    assert!(S - 64 <= sn && sn <= S + 64, "squared norm was {sn}");
    let w = vec3(-12345, 98765, 4242).normalize();
    let wsn = w.squared_norm();
    assert!(S - 64 <= wsn && wsn <= S + 64, "squared norm was {wsn}");
    // An axis vector a whole number of units long normalizes exactly.
    assert_eq!(vec3(7 * S, 0, 0).normalize(), vec3(S, 0, 0));
}

#[test]
fn normalized_rescales_in_place() {
    let mut v = vec3(3 * S, 0, 0);
    v.normalized();
    assert_eq!(v, vec3(S, 0, 0));
}

#[test]
fn is_near_tolerates_only_tiny_differences() {
    let a = vec3(S, -S, 0);
    assert!(a.is_near(vec3(S + 7, -S - 7, 7)));
    assert!(!a.is_near(vec3(S + 8, -S, 0)));
    assert!(!a.is_near(vec3(0, -S, 0)));
}

#[test]
fn empty_world_always_misses() {
    let world = World::new();
    let r = ray(vec3(0, 0, 0), vec3(0, 0, -S));
    assert!(world.hit(&r, 66, i64::MAX).is_none());
    let r2 = ray(vec3(123, -456, 789), vec3(S, S, S));
    assert!(world.hit(&r2, 0, i64::MAX).is_none());
}

#[test]
fn two_spheres_nearest_hit_wins() {
    let near_mat = Material::Lambertian { albedo: vec3(S / 2, S / 4, S / 8) };
    let far_mat = Material::Lambertian { albedo: vec3(S / 8, S / 4, S / 2) };
    let near = Sphere { center: vec3(0, 0, -2 * S), radius: S / 2, mat: near_mat };
    let far = Sphere { center: vec3(0, 0, -4 * S), radius: S / 2, mat: far_mat };
    let r = ray(vec3(0, 0, 0), vec3(0, 0, -S));

    let mut world = World::new();
    world.push(near);
    world.push(far);
    let rec = world.hit(&r, 66, i64::MAX).unwrap();
    assert_eq!(rec.t, 98304);
    assert_eq!(rec.mat, near_mat);

    let mut swapped = World::new();
    swapped.push(far);
    swapped.push(near);
    let rec2 = swapped.hit(&r, 66, i64::MAX).unwrap();
    assert_eq!(rec2.t, 98304);
    assert_eq!(rec2.mat, near_mat);
}

#[test]
fn ray_color_depth_zero_is_black() {
    let mut world = World::new();
    world.push(Sphere {
        center: vec3(0, 0, -2 * S),
        radius: S,
        mat: Material::Lambertian { albedo: vec3(S, S, S) },
    });
    let r = ray(vec3(0, 0, 0), vec3(0, 0, -S));
    assert_eq!(ray_color(&r, &world, 0), vec3(0, 0, 0));
}

#[test]
fn ray_color_miss_is_background_gradient() {
    let world = World::new();
    let up = ray(vec3(0, 0, 0), vec3(0, S, 0));
    assert_eq!(ray_color(&up, &world, 8), vec3(32768, 45875, 65536));
    let down = ray(vec3(0, 0, 0), vec3(0, -S, 0));
    assert_eq!(ray_color(&down, &world, 8), vec3(S, S, S));
}

#[test]
fn lambertian_attenuation_is_albedo() {
    let albedo = vec3(S / 2, S / 3, S / 4);
    let rec = unit_y_record(Material::Lambertian { albedo });
    let sample = vec3(S / 5, S / 7, -S / 9);
    let (att, scattered) = lambertian_scatter_with(albedo, &rec, sample);
    assert_eq!(att, albedo);
    assert_eq!(scattered.origin, rec.point);
    assert_eq!(scattered.dir, rec.normal.add(sample));

    let through = rec.mat.scatter(&ray(vec3(0, 0, 0), vec3(0, -S, 0)), &rec);
    let (att2, _) = through.expect("a Lambertian surface always scatters");
    assert_eq!(att2, albedo);
}

#[test]
fn lambertian_degenerate_sample_falls_back_to_normal() {
    let albedo = vec3(S / 2, S / 2, S / 2);
    let rec = unit_y_record(Material::Lambertian { albedo });
    let (att, scattered) = lambertian_scatter_with(albedo, &rec, vec3(0, -S, 0));
    assert_eq!(att, albedo);
    assert_eq!(scattered.dir, rec.normal);
}

#[test]
fn metal_absorbs_when_reflection_points_inward() {
    let albedo = vec3(S, S / 2, S / 2);
    let rec = unit_y_record(Material::Metal { albedo, fuzz: 0 });
    let occluded = ray(vec3(0, 0, 0), vec3(0, S, 0));
    let r = metal_scatter_with(albedo, 0, &occluded, &rec, vec3(0, 0, 0));
    assert!(r.is_none());
}

#[test]
fn metal_reflects_and_tints_by_albedo() {
    let albedo = vec3(S, S / 2, S / 2);
    let rec = unit_y_record(Material::Metal { albedo, fuzz: 0 });
    let incoming = ray(vec3(0, 2 * S, 0), vec3(0, -S, 0));
    let (att, scattered) =
        metal_scatter_with(albedo, 0, &incoming, &rec, vec3(0, 0, 0)).unwrap();
    assert_eq!(att, albedo);
    assert_eq!(scattered.dir, vec3(0, S, 0));
    assert_eq!(scattered.origin, rec.point);
}

#[test]
fn dielectric_never_tints() {
    let ir = 98304; // 1.5
    let rec = unit_y_record(Material::Dielectric { refractive_index: ir });
    let incoming = ray(vec3(0, 2 * S, 0), vec3(0, -S, 0));
    let (att, _) = dielectric_scatter_with(ir, &incoming, &rec, 0);
    assert_eq!(att, Vec3::one());
    let (att2, _) = dielectric_scatter_with(ir, &incoming, &rec, S - 1);
    assert_eq!(att2, Vec3::one());
}

#[test]
fn dielectric_reflects_on_low_draw_and_refracts_on_high() {
    let ir = 98304; // 1.5
    let rec = unit_y_record(Material::Dielectric { refractive_index: ir });
    let incoming = ray(vec3(0, 2 * S, 0), vec3(0, -S, 0));
    // Schlick reflectance at normal incidence is 0.04; a draw of zero loses.
    let (_, reflected) = dielectric_scatter_with(ir, &incoming, &rec, 0);
    assert_eq!(reflected.dir, vec3(0, S, 0));
    // A draw just below one wins, and head-on the ray passes straight through.
    let (_, refracted) = dielectric_scatter_with(ir, &incoming, &rec, S - 1);
    assert_eq!(refracted.dir, vec3(0, -S, 0));
}

#[test]
fn quantize_averages_gamma_corrects_and_clamps() {
    let c = Color::from_vec(vec3(S, S / 4, 0), 1);
    assert_eq!((c.r, c.g, c.b, c.a), (255, 127, 0, 255));
    // Two samples of full white average back to full white.
    let c2 = Color::from_vec(vec3(2 * S, 2 * S, 2 * S), 2);
    assert_eq!((c2.r, c2.g, c2.b, c2.a), (255, 255, 255, 255));
    // Out-of-range radiance clamps instead of wrapping.
    let c3 = Color::from_vec(vec3(100 * S, -5 * S, S / 2), 1);
    assert_eq!((c3.r, c3.g, c3.b), (255, 0, 180));
}

#[test]
fn camera_corner_ray_points_at_lower_left() {
    let cam = Camera::new(S);
    let r = cam.get_ray(0, 0);
    assert_eq!(r.origin, vec3(0, 0, 0));
    assert_eq!(r.dir, vec3(-S, -S, -S));
    let center = cam.get_ray(S / 2, S / 2);
    assert_eq!(center.dir, vec3(0, 0, -S));
}

#[test]
fn random_vectors_respect_their_bounds() {
    for _ in 0..32 {
        let v = Vec3::random(-3 * S, 3 * S);
        assert!(-3 * S <= v.x && v.x < 3 * S);
        assert!(-3 * S <= v.y && v.y < 3 * S);
        assert!(-3 * S <= v.z && v.z < 3 * S);
        let u = Vec3::random_unit_sphere();
        let sn = u.squared_norm();
        assert!(S - 64 <= sn && sn <= S + 64, "squared norm was {sn}");
        let d = Vec3::random_unit_disk();
        assert!(d.norm() <= S);
        assert_eq!(d.z, 0);
    }
}

#[test]
fn is_campled_checks_the_closed_interval() {
    assert!(is_campled(5, 0, 10));
    assert!(is_campled(0, 0, 10));
    assert!(is_campled(10, 0, 10));
    assert!(!is_campled(-1, 0, 10));
    assert!(!is_campled(11, 0, 10));
}

#[test]
fn render_single_sphere_black_center_background_corner() {
    // A 9x9 render of one Lambertian sphere dead ahead: at depth one every
    // path that hits is absorbed to black before reaching the sky, so the
    // sphere's pixels are exactly black and the corners exactly background.
    let mut world = World::new();
    world.push(Sphere {
        center: vec3(0, 0, -S),
        radius: S / 2,
        mat: Material::Lambertian { albedo: vec3(S / 2, S / 2, S / 2) },
    });
    let config = Config { width: 9, height: 9, aspect_ratio: S, samples: 1, depth: 1 };
    let cam = Camera::new(config.aspect_ratio);
    let buf = render(&world, &cam, &config);
    assert_eq!(buf.len(), 81);
    let center = buf[4 * 9 + 4];
    assert_eq!((center.r, center.g, center.b), (0, 0, 0));
    let corner = buf[0];
    assert!(corner.b > 100, "corner should show sky, got {}", corner.b);
    assert!(corner.r > 100 && corner.g > 100);
    for c in buf.iter() {
        assert_eq!(c.a, 255);
    }
}
