//! The pipeline stages: generation, sampling, accumulation, and the
//! whole render, plus the scene and world bookkeeping around them.

use raytracer::bvh::BVH;
use raytracer::camera::Camera;
use raytracer::colorsampler::{background, Background, ColorSampler, GeneralSampler, NormalSampler};
use raytracer::descriptor::{ImageDescriptor, InstanceDescriptor, SamplePointGeneratorDescriptor,
    SamplerDescriptor};
use raytracer::dto::{SamplePoint, SampledColor, SamplerInput};
use raytracer::fixed::{fp_add, fp_div, fp_from_int, fp_mul, FP_HALF, FP_ONE};
use raytracer::image::Color;
use raytracer::imager::Imager;
use raytracer::instance::Instance;
use raytracer::masks::MetalGeometryMasks;
use raytracer::material::{Dielectric, Lambertian, Light, Material, Metal, ScatterRng};
use raytracer::pointgen::{band_bounds, generate_band};
use raytracer::primitive::{HittableList, Primitive};
use raytracer::ray::Ray;
use raytracer::renderer::{BruteForceRenderer, ImageOptions, Renderer};
use raytracer::sampler::{next_action, Sampler, SamplingOutput, StageAction};
use raytracer::scene::{build_world, new_box};
use raytracer::shader::ModuleSourceBuilder;
use raytracer::sphere::Sphere;
use raytracer::vec3::Vec3;
use raytracer::world::{World, WorldError};

fn down_camera(width: usize, height: usize) -> Camera {
    Camera::new(
        fp_from_int(1),
        0,
        Vec3::new(0, fp_from_int(5), fp_from_int(-1)),
        Vec3::new(0, 0, fp_from_int(-1)),
        Vec3::new(0, 0, FP_ONE),
        fp_from_int(4),
        width,
        height,
    )
}

fn two_sphere_world() -> World {
    let mut world = World::new();
    world
        .add_material("grey", Material::Lambertian(Lambertian::new(Vec3::new_diagonal(FP_HALF))))
        .unwrap();
    let grey = world.get_material("grey").unwrap();
    world.add_geometry(Primitive::Sphere(Sphere::new(Vec3::new(0, 0, fp_from_int(-1)), FP_HALF, grey)));
    world.add_geometry(Primitive::Sphere(Sphere::new(
        Vec3::new(0, -1686110208, fp_from_int(-1)),
        fp_from_int(100),
        grey,
    )));
    world
}

#[test]
fn duplicate_material_is_refused() {
    let mut world = World::new();
    let m = Material::Lambertian(Lambertian::new(Vec3::zero()));
    assert!(world.add_material("ground", m).is_ok());
    assert_eq!(world.add_material("ground", m), Err(WorldError::DuplicateMaterial));
    assert!(world.get_material("ground").is_some());
    assert!(world.get_material("missing").is_none());
}

#[test]
fn empty_scene_is_refused() {
    let world = World::new();
    match world.get_bvh() {
        Err(WorldError::EmptyScene) => {},
        _ => assert!(false, "an empty scene must be refused"),
    }
}

#[test]
fn imager_test_dummy_imaging() {
    let width = 100usize;
    let height = 100usize;
    let samples_per_pixel = 3usize;
    let imager = Imager::new(ImageDescriptor { width, height, samples_per_pixel });

    let mut samples: Vec<SampledColor> = Vec::new();
    for y in 0..height {
        for x in 0..width {
            for _ in 0..samples_per_pixel {
                let color_x = fp_div(
                    fp_from_int(((x + 1) * (y + 1)) as i64),
                    fp_from_int((width * height) as i64),
                );
                samples.push(SampledColor { x, y, color: Vec3::new(color_x, 0, 0) });
            }
        }
    }
    let image = imager.collect(&samples);
    let divisor = fp_div(FP_ONE, fp_from_int(samples_per_pixel as i64));
    for y in 0..height {
        for x in 0..width {
            let color_x = fp_div(
                fp_from_int(((x + 1) * (y + 1)) as i64),
                fp_from_int((width * height) as i64),
            );
            let contrib = fp_mul(color_x, divisor);
            let sum = fp_add(fp_add(contrib, contrib), contrib);
            let expected = Color::new(sum, 0, 0).gamma_correction();
            let got = image.get_pixel(x, y);
            assert!((got.r as f64 - expected.r as f64).abs() / FP_ONE as f64 <= 1e-5);
            assert_eq!(got.g, 0);
            assert_eq!(got.b, 0);
        }
    }
}

#[test]
fn attenuation_product_over_a_path() {
    let world = two_sphere_world();
    let bvh: BVH = world.get_bvh().unwrap();
    let rng = ScatterRng { unit: Vec3::new(0, 0, FP_ONE), in_sphere: Vec3::zero(), uniform: 0 };

    // first bounce: hits the half-albedo sphere and continues
    let input = SamplerInput {
        x: 3,
        y: 4,
        ray: Ray::new(Vec3::new(0, 0, fp_from_int(2)), Vec3::new(0, 0, -FP_ONE)),
        remain_bounces: 2,
        attenuation: Vec3::one(),
    };
    let next = match Sampler::sample_with(&bvh, Background::Sky, input, rng) {
        SamplingOutput::Continue(next) => next,
        SamplingOutput::Done(_) => panic!("expected a bounce"),
    };
    assert_eq!(next.attenuation, Vec3::new_diagonal(FP_HALF));
    assert_eq!(next.remain_bounces, 1);
    assert_eq!((next.x, next.y), (3, 4));

    // second step: the scattered ray escapes, so the contribution is the
    // product of the albedos so far times the background radiance
    let done = match Sampler::sample_with(&bvh, Background::Sky, next, rng) {
        SamplingOutput::Done(c) => c,
        SamplingOutput::Continue(_) => panic!("expected escape"),
    };
    let expected = next.attenuation.mul(background(next.ray.direction()));
    assert_eq!(done.color, expected);
    assert_eq!((done.x, done.y), (3, 4));
}

#[test]
fn bounce_budget_exhaustion_is_black() {
    let world = two_sphere_world();
    let bvh: BVH = world.get_bvh().unwrap();
    let input = SamplerInput {
        x: 0,
        y: 0,
        ray: Ray::new(Vec3::zero(), Vec3::new(0, 0, -FP_ONE)),
        remain_bounces: 0,
        attenuation: Vec3::one(),
    };
    match Sampler::sample(&bvh, Background::Sky, input) {
        SamplingOutput::Done(c) => assert_eq!(c.color, Vec3::zero()),
        SamplingOutput::Continue(_) => panic!("an exhausted budget must terminate"),
    }
}

#[test]
fn light_emission_is_attenuated() {
    let mut world = World::new();
    world
        .add_material("lamp", Material::Light(Light::new(Vec3::new_diagonal(fp_from_int(2)))))
        .unwrap();
    let lamp = world.get_material("lamp").unwrap();
    world.add_geometry(Primitive::Sphere(Sphere::new(Vec3::new(0, 0, fp_from_int(-2)), FP_ONE, lamp)));
    let bvh: BVH = world.get_bvh().unwrap();
    let input = SamplerInput {
        x: 0,
        y: 0,
        ray: Ray::new(Vec3::zero(), Vec3::new(0, 0, -FP_ONE)),
        remain_bounces: 3,
        attenuation: Vec3::new_diagonal(FP_HALF),
    };
    match Sampler::sample(&bvh, Background::Sky, input) {
        SamplingOutput::Done(c) => {
            assert_eq!(c.color, Vec3::new_diagonal(FP_HALF).mul(Vec3::new_diagonal(fp_from_int(2))))
        },
        SamplingOutput::Continue(_) => panic!("a light does not scatter"),
    }
}

#[test]
fn end_to_end_two_tone_scene() {
    // One large ground sphere and one small sphere, the camera looking
    // straight down, colored by surface normals: known pixels resolve to
    // the small sphere, the ground, and the sky gradient.
    let world = two_sphere_world();
    let bvh: BVH = world.get_bvh().unwrap();
    let camera = down_camera(16, 16);
    let sampler = NormalSampler::new();
    let zero_disk = Vec3::zero();

    // pixel ray straight down the axis: the top of the small sphere
    let center = sampler.sample(camera.ray_for(FP_HALF, FP_HALF, zero_disk), &bvh, 1);
    assert_eq!(center, Vec3::new(FP_HALF, FP_ONE, FP_HALF));

    // an off-axis ray that reaches the ground sphere
    let ground = sampler.sample(camera.ray_for(3 * FP_ONE / 8, FP_HALF, zero_disk), &bvh, 1);
    assert_eq!(ground, Vec3::new(8863430, 16763766, 8388608));

    // a corner ray that escapes to the sky gradient
    let sky = sampler.sample(camera.ray_for(0, 0, zero_disk), &bvh, 1);
    assert_eq!(sky, Vec3::new(13313046, 14698714, FP_ONE));
}

#[test]
fn bands_cover_all_rows() {
    for (height, threads) in [(60usize, 2usize), (7, 3), (5, 8), (1, 1), (100, 7)] {
        let mut covered = vec![0usize; height];
        for i in 0..threads {
            let (lo, hi) = band_bounds(height, threads, i);
            assert!(lo <= hi && hi <= height);
            for y in lo..hi {
                covered[y] += 1;
            }
        }
        for y in 0..height {
            assert_eq!(covered[y], 1, "row {} of height {} with {} bands", y, height, threads);
        }
    }
}

#[test]
fn generator_emits_quota_per_pixel() {
    let width = 10usize;
    let height = 5usize;
    let samples_per_pixel = 3usize;
    let camera = down_camera(width, height);
    let points = generate_band(&camera, width, height, samples_per_pixel, 0, height);
    let mut cnt = vec![vec![0usize; height]; width];
    for p in &points {
        cnt[p.x][p.y] += 1;
    }
    for x in 0..width {
        for y in 0..height {
            assert_eq!(cnt[x][y], samples_per_pixel);
        }
    }
}

#[test]
fn convert_starts_with_unit_attenuation() {
    let p = SamplePoint { x: 7, y: 9, ray: Ray::new(Vec3::zero(), Vec3::new(0, 0, FP_ONE)) };
    let input = Sampler::convert(p, 20);
    assert_eq!(input.x, 7);
    assert_eq!(input.y, 9);
    assert_eq!(input.remain_bounces, 20);
    assert_eq!(input.attenuation, Vec3::one());
}

#[test]
fn serial_render_finishes_every_pixel() {
    let world = two_sphere_world();
    let descriptor = InstanceDescriptor {
        point_generator_descriptor: SamplePointGeneratorDescriptor {
            num_threads: 1,
            buffer_size: 64,
            image: ImageDescriptor { width: 4, height: 4, samples_per_pixel: 2 },
            camera: down_camera(4, 4),
        },
        sampler_descriptor: SamplerDescriptor {
            num_threads: 1,
            in_buffer_size: 64,
            feedback_buffer_size: 64,
            out_buffer_size: 64,
            max_bounces: 3,
        },
        progressbar: false,
    };
    let instance = Instance::new(descriptor);
    let image = instance.render_blocking(&world, Background::Sky).unwrap();
    assert_eq!(image.size(), (4, 4));

    let empty = World::new();
    match instance.render_blocking(&empty, Background::Sky) {
        Err(WorldError::EmptyScene) => {},
        _ => panic!("an empty scene must be refused"),
    }
}

#[test]
fn brute_force_render_covers_the_image() {
    let world = two_sphere_world();
    let bvh: BVH = world.get_bvh().unwrap();
    let renderer = BruteForceRenderer::new(ColorSampler::Normal(NormalSampler::new()), 2, 3);
    let image = renderer.render(&down_camera(8, 6), &bvh, ImageOptions::new(8, 6));
    assert_eq!(image.width(), 8);
    assert_eq!(image.height(), 6);
    let general = BruteForceRenderer::new(ColorSampler::General(GeneralSampler::new()), 1, 2);
    let image2 = general.render(&down_camera(4, 4), &bvh, ImageOptions::new(4, 4));
    assert_eq!(image2.size(), (4, 4));
}

#[test]
fn renderer_configuration_defaults() {
    let r = Renderer::new(1000, 8, 20, true, None);
    assert_eq!(r.samples_per_pixel, 1000);
    assert_eq!(r.num_sampler_threads, 8);
    assert_eq!(r.max_bounces, 20);
    assert!(r.progressbar);
    assert_eq!(r.background_color, Vec3::zero());
    let r2 = Renderer::new(3, 4, 10, false, Some(Vec3::new(1, 2, 3)));
    assert_eq!(r2.background_color, Vec3::new(1, 2, 3));
}

#[test]
fn demo_scene_builds() {
    let world = build_world();
    assert_eq!(world.get_geometries().len(), 18);
    assert!(world.get_material("red").is_some());
    assert!(world.get_material("white").is_some());
    assert!(world.get_material("green").is_some());
    assert!(world.get_material("light").is_some());
    assert!(world.get_material("blue").is_none());
    assert!(world.get_bvh().is_ok());
}

#[test]
fn box_has_six_faces() {
    let list: HittableList = new_box(
        Vec3::zero(),
        Vec3::new(fp_from_int(1), fp_from_int(2), fp_from_int(3)),
        Material::Lambertian(Lambertian::new(Vec3::zero())),
    );
    assert_eq!(list.objects.len(), 6);
}

#[test]
fn geometry_masks() {
    assert_eq!(MetalGeometryMasks::Quad.mask(), 1);
    assert_eq!(MetalGeometryMasks::Sphere.mask(), 2);
}

#[test]
fn module_source_builder_concatenates() {
    let mut b = ModuleSourceBuilder::new();
    assert_eq!(b.source(), "");
    b.add("struct Ray {");
    b.add(" origin: vec3f }");
    assert_eq!(b.source(), "struct Ray { origin: vec3f }");
}

#[test]
fn metal_fuzz_is_clamped() {
    let m = Metal::new(Vec3::one(), fp_from_int(7));
    assert_eq!(m.fuzz, FP_ONE);
    let m2 = Metal::new(Vec3::one(), -5);
    assert_eq!(m2.fuzz, 0);
    let m3 = Metal::new(Vec3::one(), FP_HALF);
    assert_eq!(m3.fuzz, FP_HALF);
}

#[test]
fn schlick_reflectance_at_normal_incidence() {
    // cos = 1: the approximation reduces to ((1 - n) / (1 + n))^2
    let ri = FP_HALF + FP_ONE;  // 1.5
    let r = Dielectric::reflectance(FP_ONE, ri);
    let sqrt_r0 = fp_div(FP_ONE - ri, fp_add(FP_ONE, ri));
    assert_eq!(r, fp_mul(sqrt_r0, sqrt_r0));
}

#[test]
fn random_draws_stay_in_range() {
    let mut distinct = false;
    let first = raytracer::random::random_float();
    for _ in 0..200 {
        let v = raytracer::random::random_float();
        assert!(0 <= v && v < FP_ONE);
        if v != first {
            distinct = true;
        }
        let w = raytracer::random::random_float_range(-FP_ONE, FP_ONE);
        assert!(-FP_ONE <= w && w < FP_ONE);
    }
    assert!(distinct, "two hundred uniform draws must not all collide");
    for _ in 0..50 {
        let p = Vec3::new_random_in_unit_disk();
        assert_eq!(p.z, 0);
        assert!(p.squared_length() < FP_ONE);
        let q = Vec3::new_random_in_unit_sphere();
        assert!(q.squared_length() < FP_ONE);
    }
}

#[test]
fn gamma_correction_is_square_root() {
    let c = Color::new(FP_ONE / 4, FP_ONE, 0).gamma_correction();
    assert_eq!(c.r, FP_HALF);
    assert_eq!(c.g, FP_ONE);
    assert_eq!(c.b, 0);
    let d = Color::new(-5, 0, 0).gamma_correction();
    assert_eq!(d.r, 0);
}

#[test]
fn iterative_sampler_keeps_the_pixel() {
    let world = two_sphere_world();
    let bvh: BVH = world.get_bvh().unwrap();
    let sampler = raytracer::cpusampler::CpuSampler::new(1, 2, Vec3::zero());
    let point = SamplePoint {
        x: 5,
        y: 1,
        ray: Ray::new(Vec3::new(0, 0, fp_from_int(2)), Vec3::new(0, 0, -FP_ONE)),
    };
    let out = sampler.single_point_sampling(&bvh, point);
    assert_eq!((out.x, out.y), (5, 1));

    // a path that escapes immediately delivers the background color
    let up = SamplePoint {
        x: 2,
        y: 3,
        ray: Ray::new(Vec3::new(0, fp_from_int(10), 0), Vec3::new(0, FP_ONE, 0)),
    };
    let solid = raytracer::cpusampler::CpuSampler::new(1, 4, Vec3::new(1, 2, 3));
    let out2 = solid.single_point_sampling(&bvh, up);
    assert_eq!(out2.color, Vec3::one().mul(Vec3::new(1, 2, 3)));
}

#[test]
fn stage_scheduling_rule() {
    assert_eq!(next_action(false, false, false), StageAction::DrainFeedback);
    assert_eq!(next_action(false, true, true), StageAction::DrainFeedback);
    assert_eq!(next_action(true, false, false), StageAction::DrainPrimary);
    assert_eq!(next_action(true, true, false), StageAction::Wait);
    assert_eq!(next_action(true, true, true), StageAction::Finish);
}

#[test]
fn metal_reflection_is_exact_for_axis_rays() {
    let mut world = World::new();
    let albedo = Vec3::new(6710886, 6710886, FP_ONE);
    world
        .add_material("mirror", Material::Metal(Metal::new(albedo, 0)))
        .unwrap();
    let mirror = world.get_material("mirror").unwrap();
    world.add_geometry(Primitive::Sphere(Sphere::new(Vec3::new(0, 0, fp_from_int(-2)), FP_ONE, mirror)));
    let bvh: BVH = world.get_bvh().unwrap();
    let rng = ScatterRng { unit: Vec3::zero(), in_sphere: Vec3::zero(), uniform: 0 };
    let input = SamplerInput {
        x: 0,
        y: 0,
        ray: Ray::new(Vec3::zero(), Vec3::new(0, 0, -FP_ONE)),
        remain_bounces: 2,
        attenuation: Vec3::one(),
    };
    match Sampler::sample_with(&bvh, Background::Sky, input, rng) {
        SamplingOutput::Continue(next) => {
            // a head-on ray reflects straight back, and the attenuation
            // picks up exactly the albedo
            assert_eq!(next.ray.direction(), Vec3::new(0, 0, FP_ONE));
            assert_eq!(next.attenuation, albedo);
        },
        SamplingOutput::Done(_) => panic!("a metal surface scatters"),
    }
}

#[test]
fn dielectric_scatter_reports_albedo() {
    let mut world = World::new();
    let glass = Material::Dielectric(Dielectric::new(Vec3::one(), FP_ONE + FP_HALF));
    world.add_material("glass", glass).unwrap();
    let glass = world.get_material("glass").unwrap();
    world.add_geometry(Primitive::Sphere(Sphere::new(Vec3::new(0, 0, fp_from_int(-2)), FP_ONE, glass)));
    let bvh: BVH = world.get_bvh().unwrap();
    let rng = ScatterRng { unit: Vec3::zero(), in_sphere: Vec3::zero(), uniform: FP_ONE - 1 };
    let input = SamplerInput {
        x: 0,
        y: 0,
        ray: Ray::new(Vec3::zero(), Vec3::new(0, 0, -FP_ONE)),
        remain_bounces: 2,
        attenuation: Vec3::one(),
    };
    match Sampler::sample_with(&bvh, Background::Sky, input, rng) {
        SamplingOutput::Continue(next) => {
            // a dielectric never absorbs: the attenuation is the albedo
            assert_eq!(next.attenuation, Vec3::one());
            // a head-on ray enters the glass without bending
            assert!(next.ray.direction().z < 0);
        },
        SamplingOutput::Done(_) => panic!("a dielectric scatters"),
    }
}

#[test]
fn recursive_sampler_collects_emission() {
    let mut world = World::new();
    let glow = Vec3::new_diagonal(fp_from_int(3));
    world.add_material("lamp", Material::Light(Light::new(glow))).unwrap();
    let lamp = world.get_material("lamp").unwrap();
    world.add_geometry(Primitive::Sphere(Sphere::new(Vec3::new(0, 0, fp_from_int(-2)), FP_ONE, lamp)));
    let bvh: BVH = world.get_bvh().unwrap();
    let ray = Ray::new(Vec3::zero(), Vec3::new(0, 0, -FP_ONE));

    // a light does not scatter, so the estimate is exactly its emission
    let sampler = GeneralSampler::new();
    assert_eq!(sampler.sample(ray, &bvh, 4), glow);

    // the iterative sampler collects the same attenuated emission
    let cpu = raytracer::cpusampler::CpuSampler::new(1, 4, Vec3::zero());
    let point = SamplePoint { x: 0, y: 0, ray };
    assert_eq!(cpu.single_point_sampling(&bvh, point).color, Vec3::one().mul(glow));
}
