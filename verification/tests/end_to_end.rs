//! Whole pictures, traced in single precision around the library's decisions.

use nalgebra_glm::Vec3;
use raytracer::color::Color;
use raytracer::framebuffer::Framebuffer;
use raytracer::geometry::{texture_axes, Axis, AxisSlab, BoxSlabs, Side, SlabHit};
use raytracer::material::{Material, DIFFUSE, REFLECTIVITY, SPECULAR, TRANSPARENCY};
use raytracer::render::{pixel_position, render};
use raytracer::scalar::Scalar;
use raytracer::scene::{first_occluder, nearest_hit};
use raytracer::texture::Texture;
use raytracer::tracer::{Action, Event, Role, Tracer, STEP_BOUND};

const ORIGIN_BIAS: f32 = 1e-4;

fn scalar(x: f32) -> Scalar {
    Scalar::from_bits(x.to_bits())
}

fn number(s: Scalar) -> f32 {
    f32::from_bits(s.to_bits())
}

#[derive(Clone, Copy, Debug, PartialEq)]
struct Radiance {
    r: f32,
    g: f32,
    b: f32,
}

impl Radiance {
    fn black() -> Radiance {
        Radiance { r: 0.0, g: 0.0, b: 0.0 }
    }

    fn of(color: Color) -> Radiance {
        Radiance { r: color.red() as f32, g: color.green() as f32, b: color.blue() as f32 }
    }

    fn plus(self, other: Radiance) -> Radiance {
        Radiance { r: self.r + other.r, g: self.g + other.g, b: self.b + other.b }
    }

    fn times(self, k: f32) -> Radiance {
        Radiance { r: self.r * k, g: self.g * k, b: self.b * k }
    }

    fn to_color(self) -> Color {
        Color::from_radiance(scalar(self.r), scalar(self.g), scalar(self.b))
    }
}

struct Cube {
    min: Vec3,
    max: Vec3,
    material: Material,
}

impl Cube {
    fn slabs(&self, origin: &Vec3, direction: &Vec3) -> BoxSlabs {
        let axis = |i: usize| AxisSlab {
            origin: scalar(origin[i]),
            direction: scalar(direction[i]),
            min: scalar(self.min[i]),
            max: scalar(self.max[i]),
            to_min: scalar((self.min[i] - origin[i]) / direction[i]),
            to_max: scalar((self.max[i] - origin[i]) / direction[i]),
        };
        BoxSlabs { axes: [axis(0), axis(1), axis(2)] }
    }
}

struct Light {
    position: Vec3,
    color: Color,
    intensity: f32,
}

#[derive(Clone, Copy)]
struct Intersect {
    point: Vec3,
    normal: Vec3,
    distance: f32,
    axis: Axis,
    object: usize,
}

fn normal_of(hit: &SlabHit) -> Vec3 {
    let sign = match hit.side {
        Side::Min => -1.0,
        Side::Max => 1.0,
    };
    match hit.axis {
        Axis::X => Vec3::new(sign, 0.0, 0.0),
        Axis::Y => Vec3::new(0.0, sign, 0.0),
        Axis::Z => Vec3::new(0.0, 0.0, sign),
    }
}

fn all_slabs(objects: &[Cube], origin: &Vec3, direction: &Vec3) -> Vec<BoxSlabs> {
    objects.iter().map(|cube| cube.slabs(origin, direction)).collect()
}

fn nearest(objects: &[Cube], origin: &Vec3, direction: &Vec3) -> Option<Intersect> {
    let (object, hit) = nearest_hit(&all_slabs(objects, origin, direction))?;
    let distance = number(hit.distance);
    Some(Intersect {
        point: origin + direction * distance,
        normal: normal_of(&hit),
        distance,
        axis: hit.axis,
        object,
    })
}

fn offset_origin(intersect: &Intersect, direction: &Vec3) -> Vec3 {
    let offset = intersect.normal * ORIGIN_BIAS;
    if direction.dot(&intersect.normal) < 0.0 {
        intersect.point - offset
    } else {
        intersect.point + offset
    }
}

fn reflect(incident: &Vec3, normal: &Vec3) -> Vec3 {
    incident - 2.0 * incident.dot(normal) * normal
}

fn refract(incident: &Vec3, normal: &Vec3, refractive_index: f32) -> Vec3 {
    let along = incident.dot(normal).max(-1.0).min(1.0);
    let (cos_i, eta, facing) = if along < 0.0 {
        (-along, 1.0 / refractive_index, *normal)
    } else {
        (along, refractive_index, -normal)
    };
    let k = 1.0 - eta * eta * (1.0 - cos_i * cos_i);
    if k < 0.0 {
        reflect(incident, &facing)
    } else {
        eta * incident + (eta * cos_i - k.sqrt()) * facing
    }
}

fn cast_shadow(intersect: &Intersect, light: &Light, objects: &[Cube]) -> f32 {
    let to_light = light.position - intersect.point;
    let light_dir = to_light.normalize();
    let light_distance = to_light.magnitude();
    let origin = offset_origin(intersect, &light_dir);
    match first_occluder(&all_slabs(objects, &origin, &light_dir), scalar(light_distance)) {
        None => 0.0,
        Some((_, hit)) => {
            let ratio = number(hit.distance) / light_distance;
            1.0 - ratio.powf(2.0).min(1.0)
        }
    }
}

fn coordinate(point: &Vec3, axis: Axis) -> f32 {
    match axis {
        Axis::X => point.x,
        Axis::Y => point.y,
        Axis::Z => point.z,
    }
}

fn texture_color(texture: &Texture, intersect: &Intersect) -> Color {
    let (across, down) = texture_axes(intersect.axis);
    let u = coordinate(&intersect.point, across).abs() % 1.0;
    let v = coordinate(&intersect.point, down).abs() % 1.0;
    let x = ((u % 1.0) * texture.width() as f32) as u32;
    let y = ((1.0 - (v % 1.0)) * texture.height() as f32) as u32;
    texture.sample(x, y).expect("a texture has at least one pixel")
}

/// A ray that struck a surface, with what has been gathered for it so far.
struct Surface {
    intersect: Intersect,
    base: Radiance,
    reflected: Radiance,
    refracted: Radiance,
}

struct Pending {
    origin: Vec3,
    direction: Vec3,
    surface: Option<Surface>,
}

fn shade(intersect: &Intersect, ray_origin: &Vec3, objects: &[Cube], light: &Light) -> Radiance {
    let material = &objects[intersect.object].material;
    let emission = Radiance::of(material.emission);
    match &material.texture {
        Some(texture) => Radiance::of(texture_color(texture, intersect)).plus(emission),
        None => {
            let light_dir = (light.position - intersect.point).normalize();
            let view_dir = (ray_origin - intersect.point).normalize();
            let reflect_dir = reflect(&-light_dir, &intersect.normal).normalize();
            let shadow = cast_shadow(intersect, light, objects);
            let light_intensity = light.intensity * (1.0 - shadow);
            let diffuse_intensity = intersect.normal.dot(&light_dir).max(0.0);
            let diffuse = Radiance::of(material.color)
                .times(number(material.properties[DIFFUSE]) * diffuse_intensity * light_intensity);
            let specular_intensity =
                view_dir.dot(&reflect_dir).max(0.0).powf(number(material.shininess));
            let specular = Radiance::of(light.color)
                .times(number(material.properties[SPECULAR]) * specular_intensity * light_intensity);
            diffuse.plus(specular).plus(emission)
        }
    }
}

fn compose(surface: &Surface, material: &Material) -> Radiance {
    let reflectivity = number(material.properties[REFLECTIVITY]);
    let transparency = number(material.properties[TRANSPARENCY]);
    let base = if material.texture.is_some() {
        surface.base.times(1.0 - reflectivity - transparency)
    } else {
        surface.base
    };
    base.plus(surface.reflected.times(reflectivity)).plus(surface.refracted.times(transparency))
}

fn deliver(rays: &mut Vec<Pending>, primary: &mut Radiance, role: Role, color: Radiance) {
    match rays.last_mut().and_then(|parent| parent.surface.as_mut()) {
        None => *primary = color,
        Some(surface) => match role {
            Role::Refraction => surface.refracted = color,
            _ => surface.reflected = color,
        },
    }
}

/// Traces one ray to its colour; also says how many reports the tracer took.
fn cast_ray(
    origin: &Vec3,
    direction: &Vec3,
    objects: &[Cube],
    light: &Light,
    sky: Radiance,
) -> (Radiance, u32) {
    let mut tracer = Tracer::new();
    let mut rays = vec![Pending { origin: *origin, direction: *direction, surface: None }];
    let mut primary = sky;
    let mut reports = 0;
    loop {
        let action = tracer.action();
        let role = tracer.current().map(|frame| frame.role).unwrap_or(Role::Primary);
        let event = match action {
            Action::Finish => return (primary, reports),
            Action::Background => {
                rays.pop();
                deliver(&mut rays, &mut primary, role, sky);
                Event::Done
            }
            Action::Intersect => {
                let ray = rays.last_mut().expect("a ray is under way");
                match nearest(objects, &ray.origin, &ray.direction) {
                    None => {
                        rays.pop();
                        deliver(&mut rays, &mut primary, role, sky);
                        Event::Missed
                    }
                    Some(intersect) => {
                        let material = &objects[intersect.object].material;
                        ray.surface = Some(Surface {
                            intersect,
                            base: shade(&intersect, &ray.origin, objects, light),
                            reflected: Radiance::black(),
                            refracted: Radiance::black(),
                        });
                        Event::Struck {
                            reflectivity: material.properties[REFLECTIVITY],
                            transparency: material.properties[TRANSPARENCY],
                        }
                    }
                }
            }
            Action::SpawnReflection => {
                let ray = rays.last().expect("a ray is under way");
                let intersect = ray.surface.as_ref().expect("the ray struck a surface").intersect;
                let direction = reflect(&ray.direction, &intersect.normal).normalize();
                let origin = offset_origin(&intersect, &direction);
                rays.push(Pending { origin, direction, surface: None });
                Event::Done
            }
            Action::SpawnRefraction => {
                let ray = rays.last().expect("a ray is under way");
                let intersect = ray.surface.as_ref().expect("the ray struck a surface").intersect;
                let index = number(objects[intersect.object].material.refractive_index);
                let direction = refract(&ray.direction, &intersect.normal, index);
                let origin = offset_origin(&intersect, &direction);
                rays.push(Pending { origin, direction, surface: None });
                Event::Done
            }
            Action::Compose => {
                let ray = rays.pop().expect("a ray is under way");
                let surface = ray.surface.expect("the ray struck a surface");
                let color = compose(&surface, &objects[surface.intersect.object].material);
                deliver(&mut rays, &mut primary, role, color);
                Event::Done
            }
        };
        tracer.step(event);
        reports += 1;
    }
}

struct Camera {
    eye: Vec3,
    center: Vec3,
    up: Vec3,
}

impl Camera {
    fn basis_change(&self, vector: &Vec3) -> Vec3 {
        let forward = (self.center - self.eye).normalize();
        let right = forward.cross(&self.up).normalize();
        let up = right.cross(&forward).normalize();
        (vector.x * right + vector.y * up - vector.z * forward).normalize()
    }
}

fn render_frame(
    framebuffer: &mut Framebuffer,
    objects: &[Cube],
    camera: &Camera,
    light: &Light,
    sky: Color,
) {
    let width = framebuffer.width as f32;
    let height = framebuffer.height as f32;
    let aspect_ratio = width / height;
    let fov = std::f32::consts::PI / 3.0;
    let perspective_scale = (fov * 0.5).tan();
    let count = framebuffer.width * framebuffer.height;
    let pixels: Vec<Color> = (0..count)
        .map(|index| {
            let (x, y) = pixel_position(index, framebuffer.width);
            let screen_x = ((2.0 * x as f32) / width - 1.0) * aspect_ratio * perspective_scale;
            let screen_y = (-(2.0 * y as f32) / height + 1.0) * perspective_scale;
            let direction = camera.basis_change(&Vec3::new(screen_x, screen_y, -1.0).normalize());
            cast_ray(&camera.eye, &direction, objects, light, Radiance::of(sky)).0.to_color()
        })
        .collect();
    render(framebuffer, &pixels);
}

fn flat(color: Color, properties: [f32; 4], refractive_index: f32) -> Material {
    Material::new(
        color,
        scalar(10.0),
        [
            scalar(properties[0]),
            scalar(properties[1]),
            scalar(properties[2]),
            scalar(properties[3]),
        ],
        scalar(refractive_index),
    )
}

fn unit_box(center: Vec3, half: f32, material: Material) -> Cube {
    let reach = Vec3::new(half, half, half);
    Cube { min: center - reach, max: center + reach, material }
}

const SKY: Color = Color { r: 68, g: 142, b: 228 };

fn light_above() -> Light {
    Light { position: Vec3::new(0.0, 4.0, 0.0), color: Color::new(255, 255, 255), intensity: 1.5 }
}

#[test]
fn ray_aimed_at_the_center_strikes_the_facing_side() {
    let cube = unit_box(Vec3::new(1.0, -2.0, 3.0), 0.5, Material::black());
    let center = Vec3::new(1.0, -2.0, 3.0);
    let cases = [
        (Vec3::new(4.0, 0.0, 0.0), Axis::X, Side::Max),
        (Vec3::new(-4.0, 0.0, 0.0), Axis::X, Side::Min),
        (Vec3::new(0.0, 4.0, 0.0), Axis::Y, Side::Max),
        (Vec3::new(0.0, -4.0, 0.0), Axis::Y, Side::Min),
        (Vec3::new(0.0, 0.0, 4.0), Axis::Z, Side::Max),
        (Vec3::new(0.0, 0.0, -4.0), Axis::Z, Side::Min),
    ];
    for (away, axis, side) in cases {
        let origin = center + away;
        let direction = (center - origin).normalize();
        let hit = cube.slabs(&origin, &direction).ray_intersect().expect("the ray meets the box");
        assert_eq!(hit.axis, axis);
        assert_eq!(hit.side, side);
        assert_eq!(number(hit.distance), 3.5);
        let normal = normal_of(&hit);
        assert_eq!(normal.dot(&direction), -1.0);
    }
}

#[test]
fn ray_offset_beyond_the_box_misses() {
    let cube = unit_box(Vec3::new(0.0, 0.0, 0.0), 0.5, Material::black());
    let direction = Vec3::new(0.0, 0.0, -1.0);
    assert!(cube.slabs(&Vec3::new(0.6, 0.0, 5.0), &direction).ray_intersect().is_none());
    assert!(cube.slabs(&Vec3::new(0.0, -0.6, 5.0), &direction).ray_intersect().is_none());
    assert!(cube.slabs(&Vec3::new(0.4, 0.4, 5.0), &direction).ray_intersect().is_some());
    let slanted = Vec3::new(1.0, 0.0, -1.0).normalize();
    assert!(cube.slabs(&Vec3::new(0.0, 0.0, 5.0), &slanted).ray_intersect().is_none());
    let away = Vec3::new(0.0, 0.0, 1.0);
    assert!(cube.slabs(&Vec3::new(0.0, 0.0, 5.0), &away).ray_intersect().is_none());
}

#[test]
fn ray_from_inside_strikes_the_far_side() {
    let cube = unit_box(Vec3::new(0.0, 0.0, 0.0), 1.0, Material::black());
    let hit = cube
        .slabs(&Vec3::new(0.0, 0.0, 0.0), &Vec3::new(0.0, 1.0, 0.0))
        .ray_intersect()
        .expect("the ray leaves the box");
    assert_eq!(hit.axis, Axis::Y);
    assert_eq!(hit.side, Side::Max);
    assert_eq!(number(hit.distance), 1.0);
}

#[test]
fn mirror_corridor_ends_in_the_background() {
    let mirror = || flat(Color::new(0, 0, 0), [0.0, 0.0, 1.0, 0.0], 1.0);
    let objects = [
        Cube { min: Vec3::new(-5.0, -5.0, -3.0), max: Vec3::new(5.0, 5.0, -2.0), material: mirror() },
        Cube { min: Vec3::new(-5.0, -5.0, 2.0), max: Vec3::new(5.0, 5.0, 3.0), material: mirror() },
    ];
    let light = light_above();
    let (color, reports) = cast_ray(
        &Vec3::new(0.0, 0.0, 0.0),
        &Vec3::new(0.0, 0.0, -1.0),
        &objects,
        &light,
        Radiance::of(SKY),
    );
    assert_eq!(color.to_color(), SKY);
    assert!(reports <= STEP_BOUND);
    // Four mirror images, each cast, struck, spawned and composed, and one
    // ray too deep to be cast.
    assert_eq!(reports, 4 * 3 + 1);
}

#[test]
fn glass_corridor_stays_within_the_bound() {
    let glass = || flat(Color::new(20, 20, 20), [0.2, 0.3, 0.5, 0.5], 1.5);
    let objects = [
        Cube { min: Vec3::new(-5.0, -5.0, -3.0), max: Vec3::new(5.0, 5.0, -2.0), material: glass() },
        Cube { min: Vec3::new(-5.0, -5.0, 2.0), max: Vec3::new(5.0, 5.0, 3.0), material: glass() },
        Cube { min: Vec3::new(-5.0, -5.0, -6.0), max: Vec3::new(5.0, 5.0, -4.0), material: glass() },
    ];
    let light = light_above();
    for step in 0..20 {
        let tilt = step as f32 * 0.05;
        let direction = Vec3::new(tilt, 0.1, -1.0).normalize();
        let (color, reports) =
            cast_ray(&Vec3::new(0.0, 0.0, 0.0), &direction, &objects, &light, Radiance::of(SKY));
        assert!(reports <= STEP_BOUND);
        assert!(color.r.is_finite() && color.g.is_finite() && color.b.is_finite());
    }
}

#[test]
fn no_occluder_casts_no_shadow() {
    let floor = Cube {
        min: Vec3::new(-2.0, -1.0, -2.0),
        max: Vec3::new(2.0, 0.0, 2.0),
        material: flat(Color::new(200, 200, 200), [1.0, 0.0, 0.0, 0.0], 1.0),
    };
    let aside = unit_box(Vec3::new(5.0, 1.0, 5.0), 0.25, Material::black());
    let objects = [floor, aside];
    let light = light_above();
    let origin = Vec3::new(0.0, 3.0, 0.0);
    let direction = Vec3::new(0.0, -1.0, 0.0);
    let intersect = nearest(&objects, &origin, &direction).expect("the floor is struck");
    assert_eq!(intersect.object, 0);
    assert_eq!(cast_shadow(&intersect, &light, &objects), 0.0);
}

#[test]
fn nearer_occluder_casts_stronger_shadow() {
    let light = light_above();
    let origin = Vec3::new(0.0, 3.0, 2.0);
    let direction = (Vec3::new(0.0, 0.0, 0.0) - origin).normalize();
    let mut last = 0.0;
    for height in [3.0_f32, 2.5, 2.0, 1.5, 1.0, 0.5] {
        let floor = Cube {
            min: Vec3::new(-2.0, -1.0, -2.0),
            max: Vec3::new(2.0, 0.0, 2.0),
            material: flat(Color::new(200, 200, 200), [1.0, 0.0, 0.0, 0.0], 1.0),
        };
        let occluder = Cube {
            min: Vec3::new(-0.25, height, -0.25),
            max: Vec3::new(0.25, height + 0.1, 0.25),
            material: Material::black(),
        };
        let objects = [floor, occluder];
        let intersect = nearest(&objects, &origin, &direction).expect("the floor is struck");
        assert_eq!(intersect.object, 0);
        let shadow = cast_shadow(&intersect, &light, &objects);
        assert!(shadow > last, "shadow {} at height {} after {}", shadow, height, last);
        assert!(shadow <= 1.0);
        last = shadow;
    }
}

#[test]
fn shadow_takes_the_first_occluder_in_the_list() {
    let light = light_above();
    let floor = || Cube {
        min: Vec3::new(-2.0, -1.0, -2.0),
        max: Vec3::new(2.0, 0.0, 2.0),
        material: flat(Color::new(200, 200, 200), [1.0, 0.0, 0.0, 0.0], 1.0),
    };
    let slab = |height: f32| Cube {
        min: Vec3::new(-0.25, height, -0.25),
        max: Vec3::new(0.25, height + 0.1, 0.25),
        material: Material::black(),
    };
    let origin = Vec3::new(0.0, 3.0, 2.0);
    let direction = (Vec3::new(0.0, 0.0, 0.0) - origin).normalize();
    let high_first = [floor(), slab(3.0), slab(1.0)];
    let low_first = [floor(), slab(1.0), slab(3.0)];
    let only_high = [floor(), slab(3.0)];
    let only_low = [floor(), slab(1.0)];
    let at = |objects: &[Cube]| {
        let intersect = nearest(objects, &origin, &direction).expect("the floor is struck");
        cast_shadow(&intersect, &light, objects)
    };
    assert_eq!(at(&high_first), at(&only_high));
    assert_eq!(at(&low_first), at(&only_low));
    assert!(at(&low_first) > at(&high_first));
}

#[test]
fn refraction_through_a_slab_comes_out_parallel() {
    let normal = Vec3::new(0.0, 0.0, 1.0);
    for index in [1.0_f32, 1.33, 1.5, 2.4] {
        for tilt in [0.0_f32, 0.2, 0.5, 1.0, 2.0] {
            let incident = Vec3::new(tilt, 0.3 * tilt, -1.0).normalize();
            let inside = refract(&incident, &normal, index).normalize();
            let out = refract(&inside, &-normal, index).normalize();
            assert!((out - incident).magnitude() < 1e-5, "index {} tilt {}", index, tilt);
        }
    }
}

#[test]
fn green_box_from_above() {
    let green = Color::new(0, 255, 0);
    let objects = [unit_box(
        Vec3::new(0.0, 0.0, 0.0),
        0.5,
        flat(green, [1.0, 0.0, 0.0, 0.0], 1.0),
    )];
    let light = light_above();
    let camera = Camera {
        eye: Vec3::new(0.0, 5.0, 0.0),
        center: Vec3::new(0.0, 0.0, 0.0),
        up: Vec3::new(0.0, 0.0, -1.0),
    };
    let mut framebuffer = Framebuffer::new(41, 31).expect("the grid fits");
    render_frame(&mut framebuffer, &objects, &camera, &light, SKY);
    let at = |x: usize, y: usize| Color::from_hex(framebuffer.buffer[y * 41 + x]);
    let distance = |c: Color| {
        let dr = c.red() as i32 - green.red() as i32;
        let dg = c.green() as i32 - green.green() as i32;
        let db = c.blue() as i32 - green.blue() as i32;
        dr * dr + dg * dg + db * db
    };
    let center = at(20, 15);
    assert_eq!(center, green);
    for (x, y) in [(0, 0), (40, 0), (0, 30), (40, 30), (20, 0), (20, 30), (0, 15), (40, 15)] {
        assert_eq!(at(x, y), SKY);
        assert!(distance(center) < distance(at(x, y)));
    }
}

#[test]
fn clear_box_shows_what_lies_behind() {
    let behind = || unit_box(
        Vec3::new(0.0, 0.0, -4.0),
        1.0,
        flat(Color::new(200, 60, 30), [0.9, 0.0, 0.0, 0.0], 1.0),
    );
    let clear = unit_box(
        Vec3::new(0.0, 0.0, 0.0),
        0.5,
        flat(Color::new(0, 0, 0), [0.0, 0.0, 0.0, 1.0], 1.0),
    );
    let with_box = [behind(), clear];
    let without_box = [behind()];
    let light = Light {
        position: Vec3::new(0.0, 2.0, 4.0),
        color: Color::new(255, 255, 255),
        intensity: 1.0,
    };
    let camera = Camera {
        eye: Vec3::new(0.0, 0.0, 5.0),
        center: Vec3::new(0.0, 0.0, 0.0),
        up: Vec3::new(0.0, 1.0, 0.0),
    };
    let mut seen = Framebuffer::new(21, 21).expect("the grid fits");
    let mut bare = Framebuffer::new(21, 21).expect("the grid fits");
    render_frame(&mut seen, &with_box, &camera, &light, SKY);
    render_frame(&mut bare, &without_box, &camera, &light, SKY);
    let mut through = 0;
    for index in 0..21 * 21 {
        let a = Color::from_hex(seen.buffer[index]);
        let b = Color::from_hex(bare.buffer[index]);
        let near = |p: u8, q: u8| (p as i32 - q as i32).abs() <= 2;
        if near(a.red(), b.red()) && near(a.green(), b.green()) && near(a.blue(), b.blue()) {
            through += 1;
        }
    }
    // Rays that graze an edge of the clear box may leave it displaced by the
    // origin bias; everywhere else the picture is that of the scene without it.
    assert!(through >= 21 * 21 - 8, "{} of {} pixels agree", through, 21 * 21);
    let middle = Color::from_hex(seen.buffer[10 * 21 + 10]);
    assert_eq!(middle, Color::from_hex(bare.buffer[10 * 21 + 10]));
    assert!(middle != SKY);
}

#[test]
fn textured_box_takes_its_colour_from_the_image() {
    let image = image::RgbImage::from_fn(4, 4, |x, y| image::Rgb([(x * 60) as u8, (y * 60) as u8, 9]));
    let texture = Texture::new(image::DynamicImage::ImageRgb8(image));
    let material = Material::with_texture(
        texture,
        scalar(0.0),
        [scalar(0.5), scalar(0.5), scalar(0.0), scalar(0.0)],
        scalar(1.0),
    );
    let objects = [Cube { min: Vec3::new(0.0, 0.0, 0.0), max: Vec3::new(1.0, 1.0, 1.0), material }];
    let light = light_above();
    // Down onto the top face at x = 0.6, z = 0.3: column 2, row 2.
    let (color, _) = cast_ray(
        &Vec3::new(0.6, 3.0, 0.3),
        &Vec3::new(0.0, -1.0, 0.0),
        &objects,
        &light,
        Radiance::of(SKY),
    );
    assert_eq!(color.to_color(), Color::new(120, 120, 9));
}
