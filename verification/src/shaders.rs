//! The vertex shader and the per-body fragment shaders.

use vstd::prelude::*;
use crate::color::{blend_colors, Color};
use crate::fixed::{
    clamped, div_floor, fits, floor_div, is_root, isqrt, lemma_floor_div_between,
    lemma_product_bound, root, saturate, saturated,
};
use crate::fragment::Fragment;
use crate::noise::Noise;
use crate::uniforms::Uniforms;
use crate::vector::{in_range, product, Mat4, Vec3, Vec4};
use crate::vertex::Vertex;

verus! {

/// The spatial frequency at which the relief of a surface is sampled.
pub const RELIEF_ZOOM: i64 = 5;

/// `position` moved along `normal` by half of `displacement`; `None` when the
/// moved point cannot be stored.
pub open spec fn displaced(position: Vec3, normal: Vec3, displacement: int) -> Option<Vec3> {
    let x = position.x + floor_div(normal.x * displacement, 131072);
    let y = position.y + floor_div(normal.y * displacement, 131072);
    let z = position.z + floor_div(normal.z * displacement, 131072);
    if fits(x) && fits(y) && fits(z) {
        Some(Vec3 { x: x as i32, y: y as i32, z: z as i32 })
    } else {
        None
    }
}

/// Clip coordinates divided by their fourth coordinate; `None` when that is
/// zero or a quotient cannot be stored.
pub open spec fn perspective(clip: Vec4) -> Option<Vec3> {
    let x = floor_div(clip.x * 65536, clip.w as int);
    let y = floor_div(clip.y * 65536, clip.w as int);
    let z = floor_div(clip.z * 65536, clip.w as int);
    if clip.w != 0 && fits(x) && fits(y) && fits(z) {
        Some(Vec3 { x: x as i32, y: y as i32, z: z as i32 })
    } else {
        None
    }
}

/// The screen-space x, y and depth of an object-space point: the point taken
/// through the model, view and projection matrices, divided by its fourth
/// coordinate and mapped through the viewport matrix. `None` when a step has
/// no result.
pub open spec fn projected(
    point: Vec3,
    model: Mat4,
    view: Mat4,
    projection: Mat4,
    viewport: Mat4,
) -> Option<Vec3> {
    match model.image(point.as_point()) {
        None => None,
        Some(world) => match view.image(world) {
            None => None,
            Some(eye) => match projection.image(eye) {
                None => None,
                Some(clip) => match perspective(clip) {
                    None => None,
                    Some(ndc) => match viewport.image(ndc.as_point()) {
                        None => None,
                        Some(screen) => Some(screen.xyz()),
                    },
                },
            },
        },
    }
}

/// The vertex as it leaves the vertex shader, given the relief sampled at
/// it: the given attributes unchanged, the screen position of the displaced
/// point, and the normal taken through the inverse transpose of the model
/// matrix, not renormalized.
pub open spec fn shaded_vertex(
    vertex: Vertex,
    displacement: int,
    model: Mat4,
    view: Mat4,
    projection: Mat4,
    viewport: Mat4,
) -> Vertex {
    Vertex {
        position: vertex.position,
        normal: vertex.normal,
        tex_coords: vertex.tex_coords,
        color: vertex.color,
        transformed_position: match displaced(vertex.position, vertex.normal, displacement) {
            None => None,
            Some(point) => projected(point, model, view, projection, viewport),
        },
        transformed_normal: model.normal_image(vertex.normal),
    }
}

/// The vertex as the vertex shader leaves it under the given uniforms.
pub open spec fn vertex_image<N: Noise>(vertex: Vertex, uniforms: Uniforms<N>) -> Vertex {
    shaded_vertex(
        vertex,
        uniforms.noise.value_3d(
            vertex.position.x * RELIEF_ZOOM,
            vertex.position.y * RELIEF_ZOOM,
            vertex.position.z * RELIEF_ZOOM,
        ),
        uniforms.model_matrix,
        uniforms.view_matrix,
        uniforms.projection_matrix,
        uniforms.viewport_matrix,
    )
}

fn displace(position: &Vec3, normal: &Vec3, displacement: i32) -> (r: Option<Vec3>)
    ensures
        r == displaced(*position, *normal, displacement as int),
{
    let x: i128 = position.x as i128 + div_floor(product(normal.x, displacement), 131072);
    let y: i128 = position.y as i128 + div_floor(product(normal.y, displacement), 131072);
    let z: i128 = position.z as i128 + div_floor(product(normal.z, displacement), 131072);
    if in_range(x) && in_range(y) && in_range(z) {
        Some(Vec3 { x: x as i32, y: y as i32, z: z as i32 })
    } else {
        None
    }
}

fn perspective_divide(clip: &Vec4) -> (r: Option<Vec3>)
    ensures
        r == perspective(*clip),
{
    if clip.w == 0 {
        return None;
    }
    let w: i128 = clip.w as i128;
    let x: i128 = div_floor((clip.x as i128) * 65536, w);
    let y: i128 = div_floor((clip.y as i128) * 65536, w);
    let z: i128 = div_floor((clip.z as i128) * 65536, w);
    if in_range(x) && in_range(y) && in_range(z) {
        Some(Vec3 { x: x as i32, y: y as i32, z: z as i32 })
    } else {
        None
    }
}

fn project(point: &Vec3, model: &Mat4, view: &Mat4, projection: &Mat4, viewport: &Mat4) -> (r:
    Option<Vec3>)
    ensures
        r == projected(*point, *model, *view, *projection, *viewport),
{
    let world = match model.transform(&Vec4 { x: point.x, y: point.y, z: point.z, w: 65536 }) {
        None => { return None; },
        Some(v) => v,
    };
    let eye = match view.transform(&world) {
        None => { return None; },
        Some(v) => v,
    };
    let clip = match projection.transform(&eye) {
        None => { return None; },
        Some(v) => v,
    };
    let ndc = match perspective_divide(&clip) {
        None => { return None; },
        Some(v) => v,
    };
    match viewport.transform(&Vec4 { x: ndc.x, y: ndc.y, z: ndc.z, w: 65536 }) {
        None => None,
        Some(screen) => Some(Vec3 { x: screen.x, y: screen.y, z: screen.z }),
    }
}

/// Shades one vertex, given the relief already sampled at it.
pub fn transform_vertex(
    vertex: &Vertex,
    displacement: i32,
    model: &Mat4,
    view: &Mat4,
    projection: &Mat4,
    viewport: &Mat4,
) -> (r: Vertex)
    ensures
        r == shaded_vertex(*vertex, displacement as int, *model, *view, *projection, *viewport),
{
    let transformed_position = match displace(&vertex.position, &vertex.normal, displacement) {
        None => None,
        Some(point) => project(&point, model, view, projection, viewport),
    };
    Vertex {
        position: vertex.position,
        normal: vertex.normal,
        tex_coords: vertex.tex_coords,
        color: vertex.color,
        transformed_position,
        transformed_normal: model.transform_normal(&vertex.normal),
    }
}

/// Shades one vertex: samples the relief at its position, moves it along its
/// normal by half of that, and takes it to the screen. A vertex that cannot
/// be projected comes back without a screen position.
pub fn vertex_shader<N: Noise>(vertex: &Vertex, uniforms: &Uniforms<N>) -> (r: Vertex)
    ensures
        r == vertex_image(*vertex, *uniforms),
{
    let displacement: i32 = uniforms.noise.get_noise_3d(
        (vertex.position.x as i64) * RELIEF_ZOOM,
        (vertex.position.y as i64) * RELIEF_ZOOM,
        (vertex.position.z as i64) * RELIEF_ZOOM,
    );
    transform_vertex(
        vertex,
        displacement,
        &uniforms.model_matrix,
        &uniforms.view_matrix,
        &uniforms.projection_matrix,
        &uniforms.viewport_matrix,
    )
}

/// The fixed-point numbers behind the thresholds and shares of the body
/// shaders.
pub const THREE_TENTHS: i32 = 19661;

pub const SEVEN_TENTHS: i32 = 45875;

pub const TWO_TENTHS: i32 = 13107;

pub const FOUR_TENTHS: i32 = 26214;

pub const HALF: i32 = 32768;

/// How much the central body emits.
pub const SUN_EMISSION: u32 = 100;

/// The body that an unknown identifier is drawn as.
pub const DEFAULT_BODY: usize = 0;

/// `sample` taken from the range minus one to one into the range zero to
/// one.
pub open spec fn unit_share(sample: int) -> int {
    floor_div(sample, 2) + 32768
}

/// A sample scaled by a fixed-point share.
pub open spec fn drift(sample: int, share: int) -> int {
    floor_div(sample * share, 65536)
}

/// The planar sample a body takes at a position, at a spatial frequency.
pub open spec fn plane_sample<N: Noise>(noise: N, p: Vec3, zoom: int) -> int {
    noise.value_2d(p.x * zoom, p.y * zoom)
}

/// The spatial sample a body takes at a position, at a spatial frequency.
pub open spec fn space_sample<N: Noise>(noise: N, p: Vec3, zoom: int) -> int {
    noise.value_3d(p.x * zoom, p.y * zoom, p.z * zoom)
}

/// The sample of a moving cloud layer: a spatial sample whose x and z are
/// shifted by two planar samples, each scaled by `share`.
pub open spec fn cloud_sample<N: Noise>(noise: N, p: Vec3, zoom: int, share: int) -> int {
    noise.value_3d(
        p.x * zoom + drift(noise.value_2d(p.x * zoom, p.y * zoom), share),
        p.y * zoom,
        p.z * zoom + drift(noise.value_2d(p.z * zoom, p.y * zoom), share),
    )
}

/// The distance of the point `(a, b)` from the origin, rounded down.
pub open spec fn radius(a: int, b: int) -> int {
    root(a * a + b * b)
}

fn scaled_coordinate(v: i32, zoom: i64) -> (c: i64)
    requires
        0 <= zoom <= 64,
    ensures
        c == v * zoom,
        -0x20_0000_0000 <= c <= 0x20_0000_0000,
{
    proof {
        lemma_product_bound(v as int, zoom as int, 0x8000_0000, 64);
    }
    (v as i64) * zoom
}

fn sample_plane<N: Noise>(noise: &N, p: &Vec3, zoom: i64) -> (v: i32)
    requires
        0 <= zoom <= 64,
    ensures
        v == plane_sample(*noise, *p, zoom as int),
{
    noise.get_noise_2d(scaled_coordinate(p.x, zoom), scaled_coordinate(p.y, zoom))
}

fn sample_space<N: Noise>(noise: &N, p: &Vec3, zoom: i64) -> (v: i32)
    requires
        0 <= zoom <= 64,
    ensures
        v == space_sample(*noise, *p, zoom as int),
{
    noise.get_noise_3d(
        scaled_coordinate(p.x, zoom),
        scaled_coordinate(p.y, zoom),
        scaled_coordinate(p.z, zoom),
    )
}

fn drifted(sample: i32, share: i32) -> (d: i64)
    ensures
        d == drift(sample as int, share as int),
        -0x4000_0000_0000 <= d <= 0x4000_0000_0000,
{
    let wide: i128 = product(sample, share);
    proof {
        lemma_floor_div_between(wide as int, 65536, -0x4000_0000_0000int, 0x4000_0000_0000int);
    }
    div_floor(wide, 65536) as i64
}

fn sample_cloud<N: Noise>(noise: &N, p: &Vec3, zoom: i64, share: i32) -> (v: i32)
    requires
        0 <= zoom <= 64,
    ensures
        v == cloud_sample(*noise, *p, zoom as int, share as int),
{
    let x: i64 = scaled_coordinate(p.x, zoom);
    let y: i64 = scaled_coordinate(p.y, zoom);
    let z: i64 = scaled_coordinate(p.z, zoom);
    let shift_x: i64 = drifted(noise.get_noise_2d(x, y), share);
    let shift_z: i64 = drifted(noise.get_noise_2d(z, y), share);
    noise.get_noise_3d(x + shift_x, y, z + shift_z)
}

fn to_unit_share(sample: i32) -> (s: i32)
    ensures
        s == unit_share(sample as int),
{
    (div_floor(sample as i128, 2) + 32768) as i32
}

fn ratio(numerator: i64, denominator: i32) -> (t: i32)
    requires
        denominator > 0,
    ensures
        t == saturated(floor_div(numerator * 65536, denominator as int)),
{
    saturate(div_floor((numerator as i128) * 65536, denominator as i128))
}

fn distance(a: i32, b: i32) -> (d: u64)
    ensures
        d == radius(a as int, b as int),
        d <= 0x1_0000_0000,
{
    let aa: i128 = product(a, a);
    let bb: i128 = product(b, b);
    assert(aa >= 0 && bb >= 0) by (nonlinear_arith)
        requires
            aa == a * a,
            bb == b * b,
    ;
    let r: u64 = isqrt((aa + bb) as u128);
    assert(r <= 0x1_0000_0000) by (nonlinear_arith)
        requires
            is_root(r as int, aa + bb),
            aa + bb <= 0x8000_0000_0000_0000,
    ;
    r
}

// ---------------------------------------------------------------------
// The central body and the rings: emissive, returned as they are.
// ---------------------------------------------------------------------

pub open spec fn sun_color() -> Color {
    Color::of_levels(65536, 58982, 32768)
}

/// The colour of the central body and how much it emits.
pub fn sun_shader() -> (r: (Color, u32))
    ensures
        r == (sun_color(), SUN_EMISSION),
{
    (Color::from_normalized(65536, 58982, 32768), SUN_EMISSION)
}

/// The colour of band number `band` of the rings, counted from the centre.
pub open spec fn ring_band(band: int) -> Color {
    if band % 4 == 0 {
        Color { r: 0xB0, g: 0xC4, b: 0xDE }
    } else if band % 4 == 1 {
        Color { r: 0x70, g: 0x80, b: 0x90 }
    } else if band % 4 == 2 {
        Color { r: 0xA9, g: 0xA9, b: 0xA9 }
    } else {
        Color { r: 0xF5, g: 0xF5, b: 0xDC }
    }
}

/// The ring colour at a distance from the axis: four bands to the unit of
/// distance, repeating, each fading linearly from its inner to its outer
/// edge.
pub open spec fn ring_colored(distance: int) -> Color {
    ring_band(distance / 16384).dimmed(65536 - (distance % 16384) * 4)
}

/// The colour of the rings at a distance from the axis.
pub fn ring_color(distance: u64) -> (c: Color)
    ensures
        c == ring_colored(distance as int),
{
    let band: u64 = (distance / 16384) % 4;
    let color = if band == 0 {
        Color::from_hex(0xB0C4DE)
    } else if band == 1 {
        Color::from_hex(0x708090)
    } else if band == 2 {
        Color::from_hex(0xA9A9A9)
    } else {
        Color::from_hex(0xF5F5DC)
    };
    let edge: u64 = (distance % 16384) * 4;
    color.scale((65536 - edge) as i32)
}

pub open spec fn ring_shaded(fragment: Fragment) -> Color {
    ring_colored(radius(fragment.vertex_position.x as int, fragment.vertex_position.z as int))
}

/// The rings: banded by the distance from the vertical axis. They emit
/// nothing.
pub fn ring_shader(fragment: &Fragment) -> (r: (Color, u32))
    ensures
        r == (ring_shaded(*fragment), 0u32),
{
    let d: u64 = distance(fragment.vertex_position.x, fragment.vertex_position.z);
    (ring_color(d), 0)
}

// ---------------------------------------------------------------------
// Earth
// ---------------------------------------------------------------------

/// The surface of Earth at a biome sample: ocean below minus three tenths,
/// land fading into snow above seven tenths, ocean fading into land between.
pub open spec fn earth_surface(sample: int) -> Color {
    let ocean = Color { r: 30, g: 144, b: 255 };
    let land = Color { r: 34, g: 139, b: 34 };
    if sample < -19661 {
        ocean.lerped(Color { r: 25, g: 105, b: 210 }, floor_div((sample + 19661) * 65536, 19661))
    } else if sample > 45875 {
        land.lerped(Color { r: 255, g: 250, b: 250 }, floor_div((sample - 45875) * 65536, 19661))
    } else {
        ocean.lerped(land, sample + 19661)
    }
}

/// How opaque a cloud layer is at a cloud sample.
pub open spec fn cloud_opacity(sample: int) -> int {
    clamped(unit_share(sample), 0, 65536)
}

/// Earth at a biome sample under two cloud layers: the surface mixed half
/// and half with the sum of the two layers.
pub open spec fn earth_colored(surface: int, cloud1: int, cloud2: int) -> Color {
    let white = Color { r: 255, g: 255, b: 255 };
    earth_surface(surface).lerped(
        white.dimmed(cloud_opacity(cloud1)).added(white.dimmed(cloud_opacity(cloud2))),
        32768,
    )
}

/// The colour of Earth, given its three samples.
pub fn earth_color(surface: i32, cloud1: i32, cloud2: i32) -> (c: Color)
    ensures
        c == earth_colored(surface as int, cloud1 as int, cloud2 as int),
{
    let land = Color::new(34, 139, 34);
    let ocean = Color::new(30, 144, 255);
    let snow = Color::new(255, 250, 250);
    let cloud = Color::new(255, 255, 255);
    let base = if surface < -THREE_TENTHS {
        ocean.lerp(&Color::new(25, 105, 210), ratio(surface as i64 + 19661, THREE_TENTHS))
    } else if surface > SEVEN_TENTHS {
        land.lerp(&snow, ratio(surface as i64 - 45875, THREE_TENTHS))
    } else {
        ocean.lerp(&land, surface + THREE_TENTHS)
    };
    let opacity1: i32 = to_unit_share(cloud1);
    let opacity2: i32 = to_unit_share(cloud2);
    let opacity1: i32 = if opacity1 < 0 { 0 } else if opacity1 > 65536 { 65536 } else { opacity1 };
    let opacity2: i32 = if opacity2 < 0 { 0 } else if opacity2 > 65536 { 65536 } else { opacity2 };
    let clouds = cloud.scale(opacity1).saturating_add(&cloud.scale(opacity2));
    base.lerp(&clouds, HALF)
}

pub open spec fn earth_shaded<N: Noise>(fragment: Fragment, uniforms: Uniforms<N>) -> Color {
    earth_colored(
        space_sample(uniforms.noise, fragment.vertex_position, 15),
        cloud_sample(uniforms.noise, fragment.vertex_position, 10, 19661),
        cloud_sample(uniforms.noise, fragment.vertex_position, 8, 26214),
    )
}

/// Earth: biomes from one spatial sample, under two drifting cloud layers.
pub fn earth_shader<N: Noise>(fragment: &Fragment, uniforms: &Uniforms<N>) -> (c: Color)
    ensures
        c == earth_shaded(*fragment, *uniforms),
{
    let surface: i32 = sample_space(&uniforms.noise, &fragment.vertex_position, 15);
    let cloud1: i32 = sample_cloud(&uniforms.noise, &fragment.vertex_position, 10, THREE_TENTHS);
    let cloud2: i32 = sample_cloud(&uniforms.noise, &fragment.vertex_position, 8, FOUR_TENTHS);
    earth_color(surface, cloud1, cloud2)
}

// ---------------------------------------------------------------------
// Mars
// ---------------------------------------------------------------------

/// Mars at a rock sample and a crater sample: brown fading into a lighter
/// rock colour, darkened where the crater sample falls below minus three
/// tenths.
pub open spec fn mars_colored(rock: int, crater: int) -> Color {
    let layer = (Color { r: 139, g: 69, b: 19 }).lerped(
        Color { r: 169, g: 86, b: 30 },
        unit_share(rock),
    );
    if crater < -19661 {
        layer.lerped(Color { r: 105, g: 54, b: 30 }, floor_div((-crater - 19661) * 65536, 45875))
    } else {
        layer
    }
}

/// The colour of Mars, given its two samples.
pub fn mars_color(rock: i32, crater: i32) -> (c: Color)
    ensures
        c == mars_colored(rock as int, crater as int),
{
    let base_color = Color::new(139, 69, 19);
    let crater_color = Color::new(105, 54, 30);
    let rocky_color = Color::new(169, 86, 30);
    let base_layer = base_color.lerp(&rocky_color, to_unit_share(rock));
    if crater < -THREE_TENTHS {
        base_layer.lerp(&crater_color, ratio(-(crater as i64) - 19661, SEVEN_TENTHS))
    } else {
        base_layer
    }
}

pub open spec fn mars_shaded<N: Noise>(fragment: Fragment, uniforms: Uniforms<N>) -> Color {
    mars_colored(
        plane_sample(uniforms.noise, fragment.vertex_position, 20),
        plane_sample(uniforms.noise, fragment.vertex_position, 8),
    )
}

/// Mars: a rocky base with craters from a second, coarser sample.
pub fn mars_shader<N: Noise>(fragment: &Fragment, uniforms: &Uniforms<N>) -> (c: Color)
    ensures
        c == mars_shaded(*fragment, *uniforms),
{
    let rock: i32 = sample_plane(&uniforms.noise, &fragment.vertex_position, 20);
    let crater: i32 = sample_plane(&uniforms.noise, &fragment.vertex_position, 8);
    mars_color(rock, crater)
}

// ---------------------------------------------------------------------
// Jupiter and Saturn
// ---------------------------------------------------------------------

pub open spec fn jupiter_color() -> Color {
    Color { r: 255, g: 200, b: 0 }
}

/// Jupiter: one colour all over.
pub fn jupiter_shader<N: Noise>(fragment: &Fragment, uniforms: &Uniforms<N>) -> (c: Color)
    ensures
        c == jupiter_color(),
{
    Color::new(255, 200, 0)
}

/// Jupiter as a gas at a sample: a soft yellow whose strength follows the
/// sample, three tenths of it mixed under a pale overlay.
pub open spec fn gas_colored(sample: int) -> Color {
    crate::color::blend(
        (Color { r: 255, g: 223, b: 128 }).dimmed(32768 + floor_div(unit_share(sample), 2)),
        Color { r: 255, g: 250, b: 210 },
        19661,
    )
}

/// The colour of gaseous Jupiter, given its sample.
pub fn gas_color(sample: i32) -> (c: Color)
    ensures
        c == gas_colored(sample as int),
{
    let base_gas_color = Color::new(255, 223, 128);
    let share: i32 = to_unit_share(sample);
    let intensity: i32 = (32768 + div_floor(share as i128, 2)) as i32;
    let gas_color = base_gas_color.scale(intensity);
    let overlay_color = Color::new(255, 250, 210);
    blend_colors(gas_color, overlay_color, THREE_TENTHS)
}

pub open spec fn jupiter_gaseous_shaded<N: Noise>(
    fragment: Fragment,
    uniforms: Uniforms<N>,
) -> Color {
    gas_colored(plane_sample(uniforms.noise, fragment.vertex_position, 1))
}

/// Jupiter as a diffuse gas, from one planar sample at the position itself.
pub fn jupiter_gaseous_shader<N: Noise>(fragment: &Fragment, uniforms: &Uniforms<N>) -> (c: Color)
    ensures
        c == jupiter_gaseous_shaded(*fragment, *uniforms),
{
    let sample: i32 = sample_plane(&uniforms.noise, &fragment.vertex_position, 1);
    gas_color(sample)
}

/// Saturn at a distance from its axis: beyond ten units, the first unit of
/// every five is ring; the rest is planet.
pub open spec fn saturn_colored(distance: int) -> Color {
    if distance > 655360 && distance % 327680 < 65536 {
        Color { r: 220, g: 220, b: 220 }
    } else {
        Color { r: 255, g: 225, b: 180 }
    }
}

/// The colour of Saturn at a distance from its axis.
pub fn saturn_color(distance: u64) -> (c: Color)
    ensures
        c == saturn_colored(distance as int),
{
    let in_rings = distance > 655360 && distance % 327680 < 65536;
    if in_rings {
        Color::new(220, 220, 220)
    } else {
        Color::new(255, 225, 180)
    }
}

pub open spec fn saturn_shaded(fragment: Fragment) -> Color {
    saturn_colored(radius(fragment.vertex_position.x as int, fragment.vertex_position.y as int))
}

/// Saturn: planet and rings told apart by the distance from the axis.
pub fn saturn_shader<N: Noise>(fragment: &Fragment, uniforms: &Uniforms<N>) -> (c: Color)
    ensures
        c == saturn_shaded(*fragment),
{
    saturn_color(distance(fragment.vertex_position.x, fragment.vertex_position.y))
}

// ---------------------------------------------------------------------
// Mercury, Venus, Uranus, Neptune
// ---------------------------------------------------------------------

/// Mercury at a sample under a light intensity: grey, darker in the craters
/// where the sample falls below minus two tenths, scaled by the intensity.
pub open spec fn mercury_colored(sample: int, intensity: int) -> Color {
    if sample < -13107 {
        (Color { r: 105, g: 105, b: 105 }).dimmed(intensity)
    } else {
        (Color { r: 169, g: 169, b: 169 }).dimmed(intensity)
    }
}

/// The colour of Mercury, given its sample and the light that reaches it.
pub fn mercury_color(sample: i32, intensity: i32) -> (c: Color)
    ensures
        c == mercury_colored(sample as int, intensity as int),
{
    let base_color = Color::new(169, 169, 169);
    let crater_color = Color::new(105, 105, 105);
    let is_crater = sample < -TWO_TENTHS;
    let color = if is_crater { crater_color } else { base_color };
    color.scale(intensity)
}

pub open spec fn mercury_shaded<N: Noise>(fragment: Fragment, uniforms: Uniforms<N>) -> Color {
    mercury_colored(
        plane_sample(uniforms.noise, fragment.vertex_position, 20),
        fragment.intensity as int,
    )
}

/// Mercury: a lit body, cratered by one planar sample.
pub fn mercury_shader<N: Noise>(fragment: &Fragment, uniforms: &Uniforms<N>) -> (c: Color)
    ensures
        c == mercury_shaded(*fragment, *uniforms),
{
    let sample: i32 = sample_plane(&uniforms.noise, &fragment.vertex_position, 20);
    mercury_color(sample, fragment.intensity)
}

/// Venus at a sample: a warm surface fading into cream clouds with the
/// magnitude of the sample.
pub open spec fn venus_colored(sample: int) -> Color {
    (Color { r: 218, g: 165, b: 32 }).lerped(
        Color { r: 255, g: 228, b: 181 },
        if sample < 0 { -sample } else { sample },
    )
}

/// The colour of Venus, given its sample.
pub fn venus_color(sample: i32) -> (c: Color)
    ensures
        c == venus_colored(sample as int),
{
    let base_color = Color::new(218, 165, 32);
    let cloud_color = Color::new(255, 228, 181);
    let magnitude: i128 = if sample < 0 { -(sample as i128) } else { sample as i128 };
    base_color.lerp(&cloud_color, saturate(magnitude))
}

pub open spec fn venus_shaded<N: Noise>(fragment: Fragment, uniforms: Uniforms<N>) -> Color {
    venus_colored(plane_sample(uniforms.noise, fragment.vertex_position, 8))
}

/// Venus: surface and clouds mixed by one planar sample.
pub fn venus_shader<N: Noise>(fragment: &Fragment, uniforms: &Uniforms<N>) -> (c: Color)
    ensures
        c == venus_shaded(*fragment, *uniforms),
{
    venus_color(sample_plane(&uniforms.noise, &fragment.vertex_position, 8))
}

/// Uranus at a sample: light blue fading into a pale highlight.
pub open spec fn uranus_colored(sample: int) -> Color {
    (Color { r: 173, g: 216, b: 230 }).lerped(Color { r: 224, g: 255, b: 255 }, sample)
}

/// The colour of Uranus, given its sample.
pub fn uranus_color(sample: i32) -> (c: Color)
    ensures
        c == uranus_colored(sample as int),
{
    let base_color = Color::new(173, 216, 230);
    let highlight_color = Color::new(224, 255, 255);
    base_color.lerp(&highlight_color, sample)
}

pub open spec fn uranus_shaded<N: Noise>(fragment: Fragment, uniforms: Uniforms<N>) -> Color {
    uranus_colored(plane_sample(uniforms.noise, fragment.vertex_position, 5))
}

/// Uranus: two blues mixed by one planar sample.
pub fn uranus_shader<N: Noise>(fragment: &Fragment, uniforms: &Uniforms<N>) -> (c: Color)
    ensures
        c == uranus_shaded(*fragment, *uniforms),
{
    uranus_color(sample_plane(&uniforms.noise, &fragment.vertex_position, 5))
}

/// Neptune at a sample: deep blue fading into sky blue.
pub open spec fn neptune_colored(sample: int) -> Color {
    (Color { r: 0, g: 0, b: 128 }).lerped(Color { r: 70, g: 130, b: 180 }, sample)
}

/// The colour of Neptune, given its sample.
pub fn neptune_color(sample: i32) -> (c: Color)
    ensures
        c == neptune_colored(sample as int),
{
    let base_color = Color::new(0, 0, 128);
    let highlight_color = Color::new(70, 130, 180);
    base_color.lerp(&highlight_color, sample)
}

pub open spec fn neptune_shaded<N: Noise>(fragment: Fragment, uniforms: Uniforms<N>) -> Color {
    neptune_colored(plane_sample(uniforms.noise, fragment.vertex_position, 5))
}

/// Neptune: two blues mixed by one planar sample.
pub fn neptune_shader<N: Noise>(fragment: &Fragment, uniforms: &Uniforms<N>) -> (c: Color)
    ensures
        c == neptune_shaded(*fragment, *uniforms),
{
    neptune_color(sample_plane(&uniforms.noise, &fragment.vertex_position, 5))
}

// ---------------------------------------------------------------------
// Dispatch
// ---------------------------------------------------------------------

/// The colour of a fragment of the body with the given identifier. Every
/// identifier has a colour: one that names no body is drawn as the default
/// body, the central one.
pub open spec fn shaded<N: Noise>(index: int, fragment: Fragment, uniforms: Uniforms<N>) -> Color {
    if index == 1 {
        mercury_shaded(fragment, uniforms)
    } else if index == 2 {
        venus_shaded(fragment, uniforms)
    } else if index == 3 {
        earth_shaded(fragment, uniforms)
    } else if index == 4 {
        mars_shaded(fragment, uniforms)
    } else if index == 5 {
        jupiter_color()
    } else if index == 6 {
        saturn_shaded(fragment)
    } else if index == 7 {
        uranus_shaded(fragment, uniforms)
    } else if index == 8 {
        ring_shaded(fragment)
    } else {
        sun_color()
    }
}

/// Shades a fragment as the body `index`: 0 the central body, 1 Mercury, 2
/// Venus, 3 Earth, 4 Mars, 5 Jupiter, 6 Saturn, 7 Uranus, 8 the rings. Any
/// other identifier is shaded as the default body.
pub fn select_shader<N: Noise>(index: usize, fragment: &Fragment, uniforms: &Uniforms<N>) -> (c:
    Color)
    ensures
        c == shaded(index as int, *fragment, *uniforms),
        index > 8 ==> c == shaded(DEFAULT_BODY as int, *fragment, *uniforms),
{
    match index {
        0 => sun_shader().0,
        1 => mercury_shader(fragment, uniforms),
        2 => venus_shader(fragment, uniforms),
        3 => earth_shader(fragment, uniforms),
        4 => mars_shader(fragment, uniforms),
        5 => jupiter_shader(fragment, uniforms),
        6 => saturn_shader(fragment, uniforms),
        7 => uranus_shader(fragment, uniforms),
        8 => ring_shader(fragment).0,
        _ => sun_shader().0,
    }
}

/// An identifier that names no body is shaded exactly as the default body,
/// whatever the fragment and the uniforms.
pub proof fn lemma_unknown_body_is_default<N: Noise>(
    index: int,
    fragment: Fragment,
    uniforms: Uniforms<N>,
)
    requires
        index < 0 || index > 8,
    ensures
        shaded(index, fragment, uniforms) == shaded(DEFAULT_BODY as int, fragment, uniforms),
{
}

} // verus!
