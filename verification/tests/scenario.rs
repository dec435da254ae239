use rayt::aabb::{Aabb, Slab};
use rayt::bvh::BvhNode;
use rayt::hittable::{HitRecord, Primitive, Shape};
use rayt::hittable_list::HittableList;
use rayt::integrator::{event_at_surface, ray_color, Event, Step};
use rayt::material::{Dielectric, Material, MaterialType};
use rayt::onb::ONB;
use rayt::pdf::{HitablePDF, MixturePDF, PDF};
use rayt::scalar::{clamp, fmin, INFINITY, ONE, ZERO};
use rayt::sphere::{crosses, select_root};
use rayt::texture::Surface;
use rayt::vec3::Vec3;
use std::cell::Cell;

fn key(x: f64) -> i64 {
    rayt::scalar::from_bits(x.to_bits()).expect("a number")
}

fn num(k: i64) -> f64 {
    f64::from_bits(rayt::scalar::to_bits(k))
}

type V = [f64; 3];

fn keys(v: V) -> Vec3 {
    Vec3::new(key(v[0]), key(v[1]), key(v[2]))
}

fn nums(v: Vec3) -> V {
    [num(v.x), num(v.y), num(v.z)]
}

fn add(a: V, b: V) -> V {
    [a[0] + b[0], a[1] + b[1], a[2] + b[2]]
}

fn sub(a: V, b: V) -> V {
    [a[0] - b[0], a[1] - b[1], a[2] - b[2]]
}

fn mul(a: V, b: V) -> V {
    [a[0] * b[0], a[1] * b[1], a[2] * b[2]]
}

fn scale(a: V, s: f64) -> V {
    [a[0] * s, a[1] * s, a[2] * s]
}

fn dot(a: V, b: V) -> f64 {
    a[0] * b[0] + a[1] * b[1] + a[2] * b[2]
}

fn cross(u: V, v: V) -> V {
    [u[1] * v[2] - u[2] * v[1], u[2] * v[0] - u[0] * v[2], u[0] * v[1] - u[1] * v[0]]
}

fn unit(a: V) -> V {
    scale(a, 1.0 / dot(a, a).sqrt())
}

struct Dice {
    state: Cell<u64>,
}

impl Dice {
    fn new(seed: u64) -> Self {
        Dice { state: Cell::new(seed) }
    }

    fn draw(&self) -> f64 {
        let mut x = self.state.get();
        x ^= x >> 12;
        x ^= x << 25;
        x ^= x >> 27;
        self.state.set(x);
        (x.wrapping_mul(0x2545_F491_4F6C_DD1D) >> 11) as f64 / (1u64 << 53) as f64
    }
}

struct Ball {
    center: V,
    radius: f64,
    material: Material,
}

impl Ball {
    fn bounds(&self) -> Aabb {
        let r = [self.radius; 3];
        Aabb::new(keys(sub(self.center, r)), keys(add(self.center, r)))
    }

    fn hit(&self, origin: V, direction: V, t_min: f64, t_max: f64) -> Option<HitRecord> {
        let oc = sub(origin, self.center);
        let a = dot(direction, direction);
        let half_b = dot(oc, direction);
        let c = dot(oc, oc) - self.radius * self.radius;
        let discriminant = half_b * half_b - a * c;
        if !crosses(key(discriminant)) {
            return None;
        }
        let root = discriminant.sqrt();
        let t = num(select_root(key((-half_b - root) / a), key((-half_b + root) / a), key(t_min), key(t_max))?);
        let p = add(origin, scale(direction, t));
        let outward = scale(sub(p, self.center), 1.0 / self.radius);
        let mut rec = HitRecord::new(self.material.clone());
        rec.t = key(t);
        rec.p = keys(p);
        rec.set_face_normal(key(dot(direction, outward)), &keys(outward), &keys(scale(outward, -1.0)));
        Some(rec)
    }
}

fn slabs(b: Aabb, origin: V, direction: V) -> [Slab; 3] {
    let (lo, hi) = (nums(b.min()), nums(b.max()));
    let slab = |a: usize| Slab {
        a: key((lo[a] - origin[a]) / direction[a]),
        b: key((hi[a] - origin[a]) / direction[a]),
    };
    [slab(0), slab(1), slab(2)]
}

fn search(world: &Shape, balls: &[Ball], origin: V, direction: V) -> Option<HitRecord> {
    let slabs_of = |b: Aabb| slabs(b, origin, direction);
    let leaf = |p: Primitive, lo: i64, hi: i64| balls[p.id].hit(origin, direction, num(lo), num(hi));
    world.hit(&slabs_of, &leaf, key(0.001), INFINITY)
}

fn shapes_of(balls: &[Ball]) -> Vec<Shape> {
    balls.iter().enumerate().map(|(i, b)| Shape::new_primitive(i, b.bounds())).collect()
}

#[test]
fn a_hierarchy_and_a_scan_agree_on_a_thousand_rays() {
    let dice = Dice::new(0x9E37_79B9_7F4A_7C15);
    let balls: Vec<Ball> = (0..60)
        .map(|_| Ball {
            center: [20.0 * dice.draw() - 10.0, 20.0 * dice.draw() - 10.0, 20.0 * dice.draw() - 10.0],
            radius: 0.2 + 1.3 * dice.draw(),
            material: Material::new_dielectric(key(1.5)),
        })
        .collect();
    let mut objects = shapes_of(&balls);
    let mut list = HittableList::default();
    for o in objects.iter() {
        list.add(o.clone());
    }
    let scan = Shape::HittableList(Box::new(list));
    let tree = BvhNode::new(&mut objects, 0, balls.len());
    let mut hits = 0;
    for _ in 0..1000 {
        let origin = [30.0 * dice.draw() - 15.0, 30.0 * dice.draw() - 15.0, 30.0 * dice.draw() - 15.0];
        let direction = [2.0 * dice.draw() - 1.0, 2.0 * dice.draw() - 1.0, 2.0 * dice.draw() - 1.0];
        let by_tree = search(&tree, &balls, origin, direction).map(|r| num(r.t));
        let by_scan = search(&scan, &balls, origin, direction).map(|r| num(r.t));
        match (by_tree, by_scan) {
            (Some(a), Some(b)) => {
                assert!((a - b).abs() <= 1.0e-9);
                hits += 1;
            }
            (None, None) => {}
            other => panic!("the searches disagree: {:?}", other),
        }
    }
    assert!(hits > 50);
}

fn basis(normal: V) -> (V, V, V) {
    let w = unit(normal);
    let a = nums(ONB::helper_axis(key(w[0].abs())));
    let v = unit(cross(w, a));
    (cross(w, v), v, w)
}

fn albedo(material: &Material) -> V {
    match material {
        Material::Lambertian(m) => match &m.albedo {
            Surface::SolidColor(c) => nums(c.value()),
            _ => panic!("the scene has solid colours only"),
        },
        _ => [1.0; 3],
    }
}

fn schlick(cosine: f64, ref_idx: f64) -> f64 {
    let r0 = ((1.0 - ref_idx) / (1.0 + ref_idx)).powi(2);
    r0 + (1.0 - r0) * (1.0 - cosine).powi(5)
}

fn density(pdf: &PDF, direction: V) -> f64 {
    match pdf {
        PDF::CosinePDF(p) => {
            let cosine = dot(unit(direction), nums(p.uvw.w));
            num(p.value(key(cosine), key(cosine / std::f64::consts::PI)))
        }
        PDF::HitablePDF(p) => num(p.hitable.pdf_value(&|_prim: Primitive| ZERO)),
        PDF::MixturePDF(m) => 0.5 * density(&m.pdf1, direction) + 0.5 * density(&m.pdf2, direction),
        PDF::ZeroPDF(z) => num(z.value()),
    }
}

fn sample(pdf: &PDF, dice: &Dice) -> V {
    match pdf {
        PDF::CosinePDF(p) => {
            let (r1, r2) = (dice.draw(), dice.draw());
            let phi = 2.0 * std::f64::consts::PI * r1;
            let local = [phi.cos() * r2.sqrt(), phi.sin() * r2.sqrt(), (1.0 - r2).sqrt()];
            add(add(scale(nums(p.uvw.u), local[0]), scale(nums(p.uvw.v), local[1])), scale(nums(p.uvw.w), local[2]))
        }
        PDF::HitablePDF(p) => nums(p.hitable.random(&|_prim: Primitive| Vec3::zero())),
        PDF::MixturePDF(m) => sample(m.generate(key(dice.draw())), dice),
        PDF::ZeroPDF(z) => nums(z.generate()),
    }
}

fn radiance(world: &Shape, light: &Shape, balls: &[Ball], origin: V, direction: V, depth: usize, dice: &Dice) -> V {
    let mut total = [0.0; 3];
    let mut weight = [1.0; 3];
    let (mut origin, mut direction, mut depth) = (origin, direction, depth);
    loop {
        let hit = if depth == 0 { None } else { search(world, balls, origin, direction) };
        let mut next = (origin, direction, [0.0; 3]);
        let event = match &hit {
            None => Event::Miss,
            Some(rec) => {
                let (p, n) = (nums(rec.p), nums(rec.normal));
                match &rec.material {
                    Material::Lambertian(m) => {
                        let (u, v, w) = basis(n);
                        let srec = m.scatter(keys(albedo(&rec.material)), ONB { u: keys(u), v: keys(v), w: keys(w) });
                        let mix = MixturePDF::new(HitablePDF::new(light, rec.p), srec.pdf_ptr);
                        let drawn = sample(&mix, dice);
                        let d = density(&mix, drawn);
                        let cosine = dot(n, unit(drawn));
                        let own = num(rec.material.scatter_pdf(key(cosine), key(cosine / std::f64::consts::PI)));
                        next = (p, drawn, scale(nums(srec.attenuation), own / d));
                        event_at_surface(Some(srec.material_type), key(d))
                    }
                    Material::Dielectric(m) => {
                        let ratio = num(m.index_ratio(rec.front_face, key(1.0 / num(m.ref_idx))));
                        let ud = unit(direction);
                        let cos_theta = num(fmin(key(dot(scale(ud, -1.0), n)), ONE));
                        let sin_theta = (1.0 - cos_theta * cos_theta).sqrt();
                        let mirror = Dielectric::reflects(key(ratio * sin_theta), key(dice.draw()), key(schlick(cos_theta, ratio)));
                        let out = if mirror {
                            sub(ud, scale(n, 2.0 * dot(ud, n)))
                        } else {
                            let parallel = scale(add(ud, scale(n, cos_theta)), ratio);
                            add(parallel, scale(n, -(1.0 - dot(parallel, parallel)).abs().sqrt()))
                        };
                        let srec = m.scatter(rayt::ray::Ray::new(rec.p, keys(out), ZERO));
                        next = (p, nums(srec.specular_ray.direction()), nums(srec.attenuation));
                        event_at_surface(Some(srec.material_type), ZERO)
                    }
                    _ => event_at_surface(None, ZERO),
                }
            }
        };
        let (step, left) = ray_color(depth, event);
        match step {
            Step::Exhausted | Step::Emitted => return total,
            Step::Background => {
                let t = 0.5 * (unit(direction)[1] + 1.0);
                let sky = add(scale([1.0; 3], 1.0 - t), scale([0.5, 0.7, 1.0], t));
                return add(total, mul(weight, sky));
            }
            Step::FollowSpecular | Step::FollowSample => {}
        }
        weight = mul(weight, next.2);
        origin = next.0;
        direction = next.1;
        depth = left;
    }
}

struct View {
    origin: V,
    corner: V,
    across: V,
    up: V,
}

fn view() -> View {
    let (lookfrom, lookat) = ([13.0, 2.0, 3.0], [0.0, 0.0, 0.0]);
    let h = (20.0f64.to_radians() / 2.0).tan();
    let (height, width) = (2.0 * h, 16.0 / 9.0 * 2.0 * h);
    let w = unit(sub(lookfrom, lookat));
    let u = unit(cross([0.0, 1.0, 0.0], w));
    let v = cross(w, u);
    let across = scale(u, 10.0 * width);
    let up = scale(v, 10.0 * height);
    let corner = sub(sub(sub(lookfrom, scale(across, 0.5)), scale(up, 0.5)), scale(w, 10.0));
    View { origin: lookfrom, corner, across, up }
}

fn two_spheres() -> Vec<Ball> {
    vec![
        Ball { center: [0.0, -1000.0, 0.0], radius: 1000.0, material: Material::new_lambertian(keys([0.5, 0.5, 0.5])) },
        Ball { center: [0.0, 1.0, 0.0], radius: 1.0, material: Material::new_dielectric(key(1.5)) },
    ]
}

fn image(balls: &[Ball], depth: usize, seed: u64) -> (Vec<[u32; 3]>, f64) {
    let (width, height) = (32u32, 18u32);
    let dice = Dice::new(seed);
    let mut objects = shapes_of(balls);
    let world = BvhNode::new(&mut objects, 0, balls.len());
    let light = Shape::new_hittable_list();
    let cam = view();
    let mut pixels = Vec::new();
    let mut sum = 0.0;
    for row in (0..height).rev() {
        for col in 0..width {
            let u = (col as f64 + dice.draw()) / (width - 1) as f64;
            let v = (row as f64 + dice.draw()) / (height - 1) as f64;
            let direction = sub(add(add(cam.corner, scale(cam.across, u)), scale(cam.up, v)), cam.origin);
            let c = radiance(&world, &light, balls, cam.origin, direction, depth, &dice);
            sum += (c[0] + c[1] + c[2]) / 3.0;
            let channel = |x: f64| (255.999 * num(clamp(key(x.sqrt()), ZERO, key(0.999)))) as u32;
            pixels.push([channel(c[0]), channel(c[1]), channel(c[2])]);
        }
    }
    (pixels, sum / (width * height) as f64)
}

#[test]
fn two_spheres_render_to_the_same_image_for_the_same_seed() {
    let balls = two_spheres();
    let (first, _) = image(&balls, 50, 42);
    let (second, _) = image(&balls, 50, 42);
    assert_eq!(first.len(), 32 * 18);
    assert_eq!(first, second);
    assert!(first.iter().all(|p| p.iter().all(|c| *c <= 255)));
    assert!(first.iter().any(|p| p.iter().any(|c| *c > 0)));
    assert!(first[0][2] >= first[0][0]);
}

#[test]
fn a_matte_scene_under_the_sky_never_gains_light() {
    let balls = vec![Ball {
        center: [0.0, 0.0, 0.0],
        radius: 1.5,
        material: Material::new_lambertian(keys([0.5, 0.5, 0.5])),
    }];
    let (black, none) = image(&balls, 0, 7);
    assert!(black.iter().all(|p| *p == [0, 0, 0]));
    assert_eq!(none, 0.0);
    for depth in [1usize, 5, 50] {
        let (_, mean) = image(&balls, depth, 7);
        assert!(mean.is_finite());
        assert!(mean > 0.0 && mean <= 1.0);
    }
}

#[test]
fn a_glancing_ray_inside_glass_is_mirrored() {
    let glass = Dielectric::new(key(1.5));
    let ratio = num(glass.index_ratio(false, key(1.0 / 1.5)));
    assert_eq!(ratio, 1.5);
    let n = [0.0, 1.0, 0.0];
    let ud = unit([1.0, -0.5, 0.0]);
    let cos_theta = num(fmin(key(dot(scale(ud, -1.0), n)), ONE));
    let sin_theta = (1.0 - cos_theta * cos_theta).sqrt();
    assert!(ratio * sin_theta > 1.0);
    for draw in [0.0, 0.5, 0.999] {
        assert!(Dielectric::reflects(key(ratio * sin_theta), key(draw), key(schlick(cos_theta, ratio))));
    }
    let mirrored = sub(ud, scale(n, 2.0 * dot(ud, n)));
    let srec = glass.scatter(rayt::ray::Ray::new(Vec3::zero(), keys(mirrored), ZERO));
    assert_eq!(srec.material_type, MaterialType::Specular);
    assert_eq!(nums(srec.attenuation), [1.0, 1.0, 1.0]);
    let out = nums(srec.specular_ray.direction());
    assert!((out[0] - ud[0]).abs() < 1.0e-12 && (out[1] + ud[1]).abs() < 1.0e-12 && out[2] == 0.0);
}
