//! A ready-made scene: an enclosed box room of quads with a light panel
//! and two blocks, the one the program renders.

use vstd::prelude::*;
use crate::fixed::fp_from_int;
use crate::material::{Lambertian, Light, Material};
use crate::primitive::{HittableList, Primitive};
use crate::quad::Quad;
use crate::vec3::Vec3;
use crate::world::{spec_lookup, World};

verus! {

/// The six faces of an axis-aligned box spanning the two corners.
pub fn new_box(a: Vec3, b: Vec3, mat: Material) -> (r: HittableList)
    ensures
        r.objects@.len() == 6,
        forall|k: int| 0 <= k < r.objects@.len() ==> (#[trigger] r.objects@[k]).spec_bbox().wf(),
{
    let mut instance: HittableList = HittableList::new();

    let min: Vec3 = Vec3::new_min(a, b);
    let max: Vec3 = Vec3::new_max(a, b);

    let dx: Vec3 = Vec3::new(crate::fixed::fp_sub(max.x, min.x), 0, 0);
    let dy: Vec3 = Vec3::new(0, crate::fixed::fp_sub(max.y, min.y), 0);
    let dz: Vec3 = Vec3::new(0, 0, crate::fixed::fp_sub(max.z, min.z));

    instance.push(Primitive::Quad(Quad::new(Vec3::new(min.x, min.y, max.z), dx, dy, mat)));
    instance.push(Primitive::Quad(Quad::new(Vec3::new(max.x, min.y, max.z), dz.neg(), dy, mat)));
    instance.push(Primitive::Quad(Quad::new(Vec3::new(max.x, min.y, min.z), dx.neg(), dy, mat)));
    instance.push(Primitive::Quad(Quad::new(Vec3::new(min.x, min.y, min.z), dz, dy, mat)));
    instance.push(Primitive::Quad(Quad::new(Vec3::new(min.x, max.y, max.z), dx, dz.neg(), mat)));
    instance.push(Primitive::Quad(Quad::new(Vec3::new(min.x, min.y, min.z), dx, dz, mat)));

    instance
}

/// Register the four materials of the scene in an empty world.
pub fn build_materials(world: World) -> (r: World)
    requires
        world.wf(),
        world.materials@.len() == 0,
    ensures
        r.wf(),
        r.geometries@ == world.geometries@,
        spec_lookup(r.materials@, "red"@) is Some,
        spec_lookup(r.materials@, "white"@) is Some,
        spec_lookup(r.materials@, "green"@) is Some,
        spec_lookup(r.materials@, "light"@) is Some,
{
    let mut world = world;
    proof {
        reveal_strlit("red");
        reveal_strlit("white");
        reveal_strlit("green");
        reveal_strlit("light");
        assert("red"@.len() == 3);
        assert("white"@.len() == 5);
        assert("green"@.len() == 5);
        assert("light"@.len() == 5);
        assert(("white"@)[0] == 'w');
        assert(("green"@)[0] == 'g');
        assert(("light"@)[0] == 'l');
    }
    let red: Material = Material::Lambertian(Lambertian::new(Vec3::new(10905190, 838861, 838861)));
    let white: Material = Material::Lambertian(
        Lambertian::new(Vec3::new(12247436, 12247436, 12247436)),
    );
    let green: Material = Material::Lambertian(Lambertian::new(Vec3::new(2013266, 7549747, 2516582)));
    let light: Material = Material::Light(Light::new(Vec3::new_diagonal(fp_from_int(15))));
    match world.add_material("red", red) {
        Ok(()) => {},
        Err(_) => {},
    }
    match world.add_material("white", white) {
        Ok(()) => {},
        Err(_) => {},
    }
    match world.add_material("green", green) {
        Ok(()) => {},
        Err(_) => {},
    }
    match world.add_material("light", light) {
        Ok(()) => {},
        Err(_) => {},
    }
    proof {
        reveal_with_fuel(spec_lookup, 5);
        let ms = world.materials@;
        assert(ms.len() == 4);
        assert(ms[0].0@ == "red"@);
        assert(ms[1].0@ == "white"@);
        assert(ms[2].0@ == "green"@);
        assert(ms[3].0@ == "light"@);
        assert(ms.drop_first()[0] == ms[1]);
        assert(ms.drop_first().drop_first()[0] == ms[2]);
        assert(ms.drop_first().drop_first().drop_first()[0] == ms[3]);
    }
    world
}

/// The registered material of a name, or black where the name is absent.
fn material_or_black(m: Option<Material>) -> (r: Material)
    ensures
        m is Some ==> r == m->0,
{
    match m {
        Some(x) => x,
        None => Material::Lambertian(Lambertian { albedo: Vec3 { x: 0, y: 0, z: 0 } }),
    }
}

/// Place the walls, the light panel and the two blocks.
pub fn build_objects(world: World) -> (r: World)
    requires
        world.wf(),
        spec_lookup(world.materials@, "red"@) is Some,
        spec_lookup(world.materials@, "white"@) is Some,
        spec_lookup(world.materials@, "green"@) is Some,
        spec_lookup(world.materials@, "light"@) is Some,
    ensures
        r.wf(),
        r.materials@ == world.materials@,
        r.geometries@.len() == world.geometries@.len() + 18,
{
    let mut world = world;
    let green: Material = material_or_black(world.get_material("green"));
    let red: Material = material_or_black(world.get_material("red"));
    let light: Material = material_or_black(world.get_material("light"));
    let white: Material = material_or_black(world.get_material("white"));

    let c0: i64 = 0;
    let c100: i64 = fp_from_int(100);

    world.add_geometry(
        Primitive::Quad(
            Quad::new(
                Vec3::new(c100, c0, c0),
                Vec3::new(c0, c100, c0),
                Vec3::new(c0, c0, c100),
                green,
            ),
        ),
    );
    world.add_geometry(
        Primitive::Quad(
            Quad::new(
                Vec3::new(c0, c0, c0),
                Vec3::new(c0, c100, c0),
                Vec3::new(c0, c0, c100),
                red,
            ),
        ),
    );
    world.add_geometry(
        Primitive::Quad(
            Quad::new(
                Vec3::new(fp_from_int(65), c100, fp_from_int(60)),
                Vec3::new(fp_from_int(-30), c0, c0),
                Vec3::new(c0, c0, fp_from_int(-20)),
                light,
            ),
        ),
    );
    world.add_geometry(
        Primitive::Quad(
            Quad::new(
                Vec3::new(c0, c0, c0),
                Vec3::new(c100, c0, c0),
                Vec3::new(c0, c0, c100),
                white,
            ),
        ),
    );
    world.add_geometry(
        Primitive::Quad(
            Quad::new(
                Vec3::new(c100, c100, c100),
                Vec3::new(fp_from_int(-100), c0, c0),
                Vec3::new(c0, c0, fp_from_int(-100)),
                white,
            ),
        ),
    );
    world.add_geometry(
        Primitive::Quad(
            Quad::new(
                Vec3::new(c0, c0, c100),
                Vec3::new(c100, c0, c0),
                Vec3::new(c0, c100, c0),
                white,
            ),
        ),
    );

    let box1: HittableList = new_box(
        Vec3::new(fp_from_int(25), c0, fp_from_int(50)),
        Vec3::new(fp_from_int(55), fp_from_int(60), fp_from_int(80)),
        white,
    );
    let ghost mats: Seq<(String, crate::material::Material)> = world.materials@;
    let ghost base1: int = world.geometries@.len() as int;
    let mut k: usize = 0;
    while k < box1.objects.len()
        invariant
            k <= box1.objects@.len(),
            world.wf(),
            world.materials@ == mats,
            forall|j: int|
                0 <= j < box1.objects@.len() ==> (#[trigger] box1.objects@[j]).spec_bbox().wf(),
            world.geometries@.len() == base1 + k,
        decreases box1.objects@.len() - k,
    {
        world.add_geometry(box1.objects[k]);
        k = k + 1;
    }

    let box2: HittableList = new_box(
        Vec3::new(fp_from_int(45), c0, fp_from_int(10)),
        Vec3::new(fp_from_int(75), fp_from_int(30), fp_from_int(40)),
        white,
    );
    let ghost base2: int = world.geometries@.len() as int;
    let mut k2: usize = 0;
    while k2 < box2.objects.len()
        invariant
            k2 <= box2.objects@.len(),
            world.wf(),
            world.materials@ == mats,
            forall|j: int|
                0 <= j < box2.objects@.len() ==> (#[trigger] box2.objects@[j]).spec_bbox().wf(),
            world.geometries@.len() == base2 + k2,
        decreases box2.objects@.len() - k2,
    {
        world.add_geometry(box2.objects[k2]);
        k2 = k2 + 1;
    }

    world
}

/// The whole demonstration scene.
pub fn build_world() -> (r: World)
    ensures
        r.wf(),
        r.geometries@.len() == 18,
{
    let world: World = World::new();
    let world: World = build_materials(world);
    build_objects(world)
}

} // verus!
