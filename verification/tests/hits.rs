//! Primitive intersections and the tree against the brute-force scan.

use raytracer::bvh::BVH;
use raytracer::fixed::{fp_from_int, fp_sqrt, FP_HALF, FP_ONE};
use raytracer::material::{Lambertian, Material};
use raytracer::primitive::{HittableList, Primitive};
use raytracer::quad::Quad;
use raytracer::ray::{Ray, TRange};
use raytracer::sphere::Sphere;
use raytracer::vec3::Vec3;

fn to_f64(v: i64) -> f64 {
    v as f64 / FP_ONE as f64
}

fn len_f64(v: Vec3) -> f64 {
    let (x, y, z) = (to_f64(v.x), to_f64(v.y), to_f64(v.z));
    (x * x + y * y + z * z).sqrt()
}

fn grey() -> Material {
    Material::Lambertian(Lambertian::new(Vec3::zero()))
}

#[test]
fn test_sphere_hit() {
    let sphere = Sphere::new(Vec3::new(0, 0, fp_from_int(-1)), FP_HALF, grey());
    let full = TRange { start: 0, end: i64::MAX };

    let ray = Ray::new(Vec3::new(0, 0, 0), Vec3::new(0, 0, fp_from_int(-1)));
    if let Some(hit_record) = sphere.hit(ray, full) {
        assert_eq!(hit_record.t, FP_HALF);
        assert_eq!(hit_record.point, Vec3::new(0, 0, -FP_HALF));
        assert_eq!(hit_record.normal, Vec3::new(0, 0, FP_ONE));
    } else {
        assert!(false, "Expected hit, but got None");
    }

    // Test ray that is not parallel with axis
    let ray = Ray::new(
        Vec3::new(0, 0, 0),
        Vec3::new(0, fp_sqrt(fp_from_int(3)), fp_from_int(-3)),
    );
    if let Some(hit_record) = sphere.hit(ray, full) {
        assert!(to_f64(hit_record.t) - (3f64).sqrt() / 2.0 < 1e-2);
        let expected_point = Vec3::new(0, fp_sqrt(fp_from_int(3)) / 4, fp_from_int(-3) / 4);
        assert!(len_f64(hit_record.point.sub(expected_point)) < 1e-2);
        let expected_normal = Vec3::new(0, fp_sqrt(fp_from_int(3)), fp_from_int(1)).normalized();
        assert!(len_f64(hit_record.normal.sub(expected_normal)) < 1e-2);
    } else {
        assert!(false, "Expected hit, but got None");
    }

    // Test ray that does not hit the sphere
    let ray = Ray::new(Vec3::new(0, 0, 0), Vec3::new(0, fp_from_int(-1), fp_from_int(-1)));
    let hit = sphere.hit(ray, full);
    assert!(hit.is_none());
}

#[test]
fn test_quad_hit() {
    let quad = Quad::new(
        Vec3::zero(),
        Vec3::new(fp_from_int(1), 0, 0),
        Vec3::new(0, 0, fp_from_int(3)),
        grey(),
    );
    let full = TRange { start: 0, end: i64::MAX };

    let ray = Ray::new(Vec3::new(0, fp_from_int(1), 0), Vec3::new(0, fp_from_int(-1), 0));
    if let Some(hit_rec) = quad.hit(ray, full) {
        assert_eq!(hit_rec.t, fp_from_int(1));
        assert_eq!(hit_rec.point, Vec3::new(0, 0, 0));
        assert_eq!(hit_rec.normal, Vec3::new(0, fp_from_int(1), 0));
    } else {
        assert!(false, "Expected hit, but got None");
    }

    let ray = Ray::new(
        Vec3::new(0, fp_from_int(1), fp_from_int(1)),
        Vec3::new(0, fp_from_int(-1), fp_from_int(-1)),
    );
    if let Some(hit_rec) = quad.hit(ray, full) {
        assert!(to_f64(hit_rec.t) - (2f64).sqrt() < 1e-6);
        assert!(len_f64(hit_rec.point) < 1e-7);
        assert_eq!(hit_rec.normal, Vec3::new(0, fp_from_int(1), 0));
    } else {
        assert!(false, "Expected hit, but got None");
    }

    let ray = Ray::new(
        Vec3::new(0, fp_from_int(1), fp_from_int(1)),
        Vec3::new(0, fp_from_int(-1), -18454938),
    );
    assert!(quad.hit(ray, full).is_none());
}

fn cluttered_scene() -> HittableList {
    let mut list = HittableList::new();
    // a deterministic scatter of spheres and quads
    let mut seed: i64 = 12345;
    let mut next = move || {
        seed = (seed.wrapping_mul(1103515245).wrapping_add(12345)) % 2048;
        if seed < 0 {
            seed += 2048;
        }
        (seed - 1024) * (FP_ONE / 256)
    };
    for i in 0..12 {
        let c = Vec3::new(next(), next(), next());
        if i % 3 == 0 {
            list.push(Primitive::Quad(Quad::new(
                c,
                Vec3::new(fp_from_int(1), 0, next() / 8),
                Vec3::new(0, fp_from_int(1), next() / 8),
                grey(),
            )));
        } else {
            list.push(Primitive::Sphere(Sphere::new(c, FP_HALF + (i as i64) * 1000, grey())));
        }
    }
    list
}

#[test]
fn bvh_matches_brute_force() {
    let list = cluttered_scene();
    let bvh = BVH::new(&list);
    let full = TRange { start: 1000, end: i64::MAX };
    let mut seed: i64 = 777;
    let mut next = move || {
        seed = (seed.wrapping_mul(1103515245).wrapping_add(12345)) % 2048;
        if seed < 0 {
            seed += 2048;
        }
        (seed - 1024) * (FP_ONE / 256)
    };
    let mut hits = 0;
    for _ in 0..200 {
        let origin = Vec3::new(next(), next(), next());
        let dir = Vec3::new(next(), next(), next());
        if dir.squared_length() == 0 {
            continue;
        }
        let ray = Ray::new(origin, dir);
        let brute = list.hit(ray, full);
        let tree = bvh.hit(ray, full);
        assert_eq!(brute.is_some(), tree.is_some());
        if let (Some(b), Some(t)) = (brute, tree) {
            assert_eq!(b.t, t.t);
            hits += 1;
        }
    }
    assert!(hits > 0, "the scene should produce some hits");
}

#[test]
fn bvh_query_idempotent() {
    let list = cluttered_scene();
    let bvh = BVH::new(&list);
    let full = TRange { start: 0, end: i64::MAX };
    let ray = Ray::new(
        Vec3::new(0, 0, fp_from_int(-8)),
        Vec3::new(100, 200, fp_from_int(1)),
    );
    let first = bvh.hit(ray, full);
    let second = bvh.hit(ray, full);
    assert_eq!(first.is_some(), second.is_some());
    if let (Some(a), Some(b)) = (first, second) {
        assert_eq!(a.t, b.t);
        assert_eq!(a.point, b.point);
        assert_eq!(a.normal, b.normal);
        assert_eq!(a.front_face, b.front_face);
    }
}
