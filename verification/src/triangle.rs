//! The triangle rasterizer: from three shaded vertices to the fragments of
//! the pixels they cover.

use vstd::prelude::*;
use crate::color::Color;
use crate::fixed::{div_floor, floor_div, lemma_floor_div_between, lemma_product_bound};
use crate::fragment::Fragment;
use crate::light::Light;
use crate::vector::Vec3;
use crate::vertex::Vertex;

verus! {

/// The edge function of the directed edge from `a` to `b` at the point
/// `(px, py)`: twice the signed area of the triangle that the three span on
/// the screen. Its sign tells on which side of the edge the point lies.
pub open spec fn edge(a: Vec3, b: Vec3, px: int, py: int) -> int {
    (px - a.x) * (b.y - a.y) - (py - a.y) * (b.x - a.x)
}

/// Twice the signed area of the triangle on the screen.
pub open spec fn signed_area(a: Vec3, b: Vec3, c: Vec3) -> int {
    edge(a, b, c.x as int, c.y as int)
}

/// The three barycentric weights of a point, before the division by the
/// area: the weight of a corner is the edge function of the opposite edge.
pub ghost struct Weights {
    pub w1: int,
    pub w2: int,
    pub w3: int,
    pub area: int,
}

impl Weights {
    /// The point lies in the triangle or on its border: the triangle has an
    /// area, and no weight has the sign opposite to it.
    pub open spec fn inside(self) -> bool {
        if self.area > 0 {
            self.w1 >= 0 && self.w2 >= 0 && self.w3 >= 0
        } else if self.area < 0 {
            self.w1 <= 0 && self.w2 <= 0 && self.w3 <= 0
        } else {
            false
        }
    }

    /// The attribute with the values `a1`, `a2`, `a3` at the three corners,
    /// interpolated linearly on the screen and rounded down.
    pub open spec fn interpolated(self, a1: int, a2: int, a3: int) -> int {
        floor_div(self.w1 * a1 + self.w2 * a2 + self.w3 * a3, self.area)
    }

    pub open spec fn interpolated_vector(self, a1: Vec3, a2: Vec3, a3: Vec3) -> Vec3 {
        Vec3 {
            x: self.interpolated(a1.x as int, a2.x as int, a3.x as int) as i32,
            y: self.interpolated(a1.y as int, a2.y as int, a3.y as int) as i32,
            z: self.interpolated(a1.z as int, a2.z as int, a3.z as int) as i32,
        }
    }

    pub open spec fn interpolated_color(self, a1: Color, a2: Color, a3: Color) -> Color {
        Color {
            r: self.interpolated(a1.r as int, a2.r as int, a3.r as int) as u8,
            g: self.interpolated(a1.g as int, a2.g as int, a3.g as int) as u8,
            b: self.interpolated(a1.b as int, a2.b as int, a3.b as int) as u8,
        }
    }
}

/// The weights of the centre of pixel `(px, py)` in the triangle `a`, `b`,
/// `c`.
pub open spec fn weights_at(a: Vec3, b: Vec3, c: Vec3, px: int, py: int) -> Weights {
    Weights {
        w1: edge(b, c, px * 65536, py * 65536),
        w2: edge(c, a, px * 65536, py * 65536),
        w3: edge(a, b, px * 65536, py * 65536),
        area: signed_area(a, b, c),
    }
}

/// Whether the triangle covers pixel `(px, py)`.
pub open spec fn covers(a: Vec3, b: Vec3, c: Vec3, px: int, py: int) -> bool {
    weights_at(a, b, c, px, py).inside()
}

pub open spec fn least(a: int, b: int, c: int) -> int {
    if a <= b && a <= c {
        a
    } else if b <= c {
        b
    } else {
        c
    }
}

pub open spec fn greatest(a: int, b: int, c: int) -> int {
    if a >= b && a >= c {
        a
    } else if b >= c {
        b
    } else {
        c
    }
}

/// A rectangle of pixels, its bounds included.
pub ghost struct PixelBox {
    pub min_x: int,
    pub max_x: int,
    pub min_y: int,
    pub max_y: int,
}

impl PixelBox {
    pub open spec fn width(self) -> int {
        self.max_x - self.min_x + 1
    }

    pub open spec fn height(self) -> int {
        self.max_y - self.min_y + 1
    }

    /// The pixels of the rectangle, row by row from the top, each row from
    /// the left.
    pub open spec fn pixels(self) -> Seq<(int, int)> {
        Seq::new(
            (self.width() * self.height()) as nat,
            |i: int| (self.min_x + i % self.width(), self.min_y + i / self.width()),
        )
    }
}

/// The smallest rectangle of pixels that holds the three corners: each
/// bound is a corner coordinate rounded outward to a whole pixel.
pub open spec fn bounding_box(a: Vec3, b: Vec3, c: Vec3) -> PixelBox {
    PixelBox {
        min_x: least(a.x as int, b.x as int, c.x as int) / 65536,
        max_x: -((-greatest(a.x as int, b.x as int, c.x as int)) / 65536),
        min_y: least(a.y as int, b.y as int, c.y as int) / 65536,
        max_y: -((-greatest(a.y as int, b.y as int, c.y as int)) / 65536),
    }
}

/// The screen position of a shaded vertex.
pub open spec fn screen(v: Vertex) -> Vec3 {
    match v.transformed_position {
        Some(p) => p,
        None => Vec3 { x: 0, y: 0, z: 0 },
    }
}

/// The fragment of pixel `(px, py)`: depth, object-space position, normal
/// and colour interpolated between the three vertices, and the diffuse term
/// of the light at the interpolated position and normal.
pub open spec fn fragment_at(
    v1: Vertex,
    v2: Vertex,
    v3: Vertex,
    light: Light,
    px: int,
    py: int,
) -> Fragment {
    let w = weights_at(screen(v1), screen(v2), screen(v3), px, py);
    let position = w.interpolated_vector(v1.position, v2.position, v3.position);
    let normal = w.interpolated_vector(
        v1.transformed_normal,
        v2.transformed_normal,
        v3.transformed_normal,
    );
    Fragment {
        x: px as i32,
        y: py as i32,
        depth: w.interpolated(screen(v1).z as int, screen(v2).z as int, screen(v3).z as int) as i32,
        vertex_position: position,
        normal,
        color: w.interpolated_color(v1.color, v2.color, v3.color),
        intensity: light.diffuse(normal, position) as i32,
    }
}

/// The test that keeps the covered pixels of a triangle.
pub open spec fn covering(a: Vec3, b: Vec3, c: Vec3) -> spec_fn((int, int)) -> bool {
    |p: (int, int)| covers(a, b, c, p.0, p.1)
}

/// The map from a pixel to its fragment.
pub open spec fn shading(v1: Vertex, v2: Vertex, v3: Vertex, light: Light) -> spec_fn(
    (int, int),
) -> Fragment {
    |p: (int, int)| fragment_at(v1, v2, v3, light, p.0, p.1)
}

/// Whether a triangle gives no fragment at all: a vertex has no screen
/// position, or the triangle has no area on the screen.
pub open spec fn degenerate(v1: Vertex, v2: Vertex, v3: Vertex) -> bool {
    v1.transformed_position is None || v2.transformed_position is None
        || v3.transformed_position is None || signed_area(screen(v1), screen(v2), screen(v3))
        == 0
}

/// The fragments of a triangle: none if it is degenerate; else one for each
/// pixel of its bounding box that it covers, in the order of the box.
pub open spec fn rasterized(v1: Vertex, v2: Vertex, v3: Vertex, light: Light) -> Seq<Fragment> {
    if degenerate(v1, v2, v3) {
        Seq::empty()
    } else {
        bounding_box(screen(v1), screen(v2), screen(v3)).pixels().filter(
            covering(screen(v1), screen(v2), screen(v3)),
        ).map_values(shading(v1, v2, v3, light))
    }
}

/// The edge function, written from the point: with `u` and `v` the vectors
/// from the point to the two ends of the edge, it is `u.y * v.x - u.x * v.y`.
proof fn lemma_edge_from_point(a: Vec3, b: Vec3, px: int, py: int)
    ensures
        edge(a, b, px, py) == (a.y - py) * (b.x - px) - (a.x - px) * (b.y - py),
{
    let ux = a.x - px;
    let uy = a.y - py;
    let vx = b.x - px;
    let vy = b.y - py;
    assert((-ux) * (vy - uy) - (-uy) * (vx - ux) == uy * vx - ux * vy) by (nonlinear_arith);
    assert(px - a.x == -ux && b.y - a.y == vy - uy && py - a.y == -uy && b.x - a.x == vx - ux);
}

proof fn lemma_area_from_point(ax: int, ay: int, bx: int, by: int, cx: int, cy: int)
    ensures
        (cx - ax) * (by - ay) - (cy - ay) * (bx - ax) == (by * cx - bx * cy) + (cy * ax - cx * ay)
            + (ay * bx - ax * by),
{
    assert((cx - ax) * (by - ay) == cx * by - cx * ay - ax * by + ax * ay) by (nonlinear_arith);
    assert((cy - ay) * (bx - ax) == cy * bx - cy * ax - ay * bx + ay * ax) by (nonlinear_arith);
    assert(cx * by == by * cx) by (nonlinear_arith);
    assert(cy * bx == bx * cy) by (nonlinear_arith);
    assert(ay * ax == ax * ay) by (nonlinear_arith);
}

proof fn lemma_moments_cancel(ax: int, ay: int, bx: int, by: int, cx: int, cy: int)
    ensures
        (by * cx - bx * cy) * ax + (cy * ax - cx * ay) * bx + (ay * bx - ax * by) * cx == 0,
        (by * cx - bx * cy) * ay + (cy * ax - cx * ay) * by + (ay * bx - ax * by) * cy == 0,
{
    assert((by * cx - bx * cy) * ax == (by * cx) * ax - (bx * cy) * ax) by (nonlinear_arith);
    assert((cy * ax - cx * ay) * bx == (cy * ax) * bx - (cx * ay) * bx) by (nonlinear_arith);
    assert((ay * bx - ax * by) * cx == (ay * bx) * cx - (ax * by) * cx) by (nonlinear_arith);
    assert((by * cx) * ax == (ax * by) * cx) by (nonlinear_arith);
    assert((bx * cy) * ax == (cy * ax) * bx) by (nonlinear_arith);
    assert((cx * ay) * bx == (ay * bx) * cx) by (nonlinear_arith);
    assert((by * cx - bx * cy) * ay == (by * cx) * ay - (bx * cy) * ay) by (nonlinear_arith);
    assert((cy * ax - cx * ay) * by == (cy * ax) * by - (cx * ay) * by) by (nonlinear_arith);
    assert((ay * bx - ax * by) * cy == (ay * bx) * cy - (ax * by) * cy) by (nonlinear_arith);
    assert((by * cx) * ay == (cx * ay) * by) by (nonlinear_arith);
    assert((bx * cy) * ay == (ay * bx) * cy) by (nonlinear_arith);
    assert((cy * ax) * by == (ax * by) * cy) by (nonlinear_arith);
}

/// The three weights of a point add up to twice the area of the triangle.
pub proof fn lemma_weights_sum(a: Vec3, b: Vec3, c: Vec3, px: int, py: int)
    ensures
        edge(b, c, px, py) + edge(c, a, px, py) + edge(a, b, px, py) == signed_area(a, b, c),
{
    lemma_edge_from_point(b, c, px, py);
    lemma_edge_from_point(c, a, px, py);
    lemma_edge_from_point(a, b, px, py);
    lemma_area_from_point(a.x - px, a.y - py, b.x - px, b.y - py, c.x - px, c.y - py);
    assert((c.x - px) - (a.x - px) == c.x - a.x);
    assert((b.y - py) - (a.y - py) == b.y - a.y);
    assert((c.y - py) - (a.y - py) == c.y - a.y);
    assert((b.x - px) - (a.x - px) == b.x - a.x);
}

/// A point is the mean of the three corners taken with its weights: the
/// weighted sum of the corner coordinates is the point's coordinate times
/// twice the area.
pub proof fn lemma_weights_mean(a: Vec3, b: Vec3, c: Vec3, px: int, py: int)
    ensures
        edge(b, c, px, py) * a.x + edge(c, a, px, py) * b.x + edge(a, b, px, py) * c.x
            == signed_area(a, b, c) * px,
        edge(b, c, px, py) * a.y + edge(c, a, px, py) * b.y + edge(a, b, px, py) * c.y
            == signed_area(a, b, c) * py,
{
    lemma_edge_from_point(b, c, px, py);
    lemma_edge_from_point(c, a, px, py);
    lemma_edge_from_point(a, b, px, py);
    lemma_weights_sum(a, b, c, px, py);
    lemma_moments_cancel(a.x - px, a.y - py, b.x - px, b.y - py, c.x - px, c.y - py);
    let w1 = edge(b, c, px, py);
    let w2 = edge(c, a, px, py);
    let w3 = edge(a, b, px, py);
    let area = signed_area(a, b, c);
    assert(w1 * a.x == w1 * (a.x - px) + w1 * px) by (nonlinear_arith);
    assert(w2 * b.x == w2 * (b.x - px) + w2 * px) by (nonlinear_arith);
    assert(w3 * c.x == w3 * (c.x - px) + w3 * px) by (nonlinear_arith);
    assert(w1 * px + w2 * px + w3 * px == area * px) by (nonlinear_arith)
        requires
            w1 + w2 + w3 == area,
    ;
    assert(w1 * a.y == w1 * (a.y - py) + w1 * py) by (nonlinear_arith);
    assert(w2 * b.y == w2 * (b.y - py) + w2 * py) by (nonlinear_arith);
    assert(w3 * c.y == w3 * (c.y - py) + w3 * py) by (nonlinear_arith);
    assert(w1 * py + w2 * py + w3 * py == area * py) by (nonlinear_arith)
        requires
            w1 + w2 + w3 == area,
    ;
}

/// A mean with weights of one sign lies between the least and the greatest
/// of the values.
pub proof fn lemma_weighted_mean_between(
    w1: int,
    w2: int,
    w3: int,
    a1: int,
    a2: int,
    a3: int,
    lo: int,
    hi: int,
)
    requires
        w1 >= 0,
        w2 >= 0,
        w3 >= 0,
        lo <= a1 <= hi,
        lo <= a2 <= hi,
        lo <= a3 <= hi,
    ensures
        lo * (w1 + w2 + w3) <= w1 * a1 + w2 * a2 + w3 * a3 <= hi * (w1 + w2 + w3),
{
    assert(lo * w1 <= w1 * a1 <= hi * w1) by (nonlinear_arith)
        requires
            w1 >= 0,
            lo <= a1 <= hi,
    ;
    assert(lo * w2 <= w2 * a2 <= hi * w2) by (nonlinear_arith)
        requires
            w2 >= 0,
            lo <= a2 <= hi,
    ;
    assert(lo * w3 <= w3 * a3 <= hi * w3) by (nonlinear_arith)
        requires
            w3 >= 0,
            lo <= a3 <= hi,
    ;
    assert(lo * (w1 + w2 + w3) == lo * w1 + lo * w2 + lo * w3) by (nonlinear_arith);
    assert(hi * (w1 + w2 + w3) == hi * w1 + hi * w2 + hi * w3) by (nonlinear_arith);
}

/// An interpolated attribute of a covered point lies between the least and
/// the greatest of the three corner values.
pub proof fn lemma_interpolated_between(w: Weights, a1: int, a2: int, a3: int)
    requires
        w.inside(),
        w.w1 + w.w2 + w.w3 == w.area,
    ensures
        least(a1, a2, a3) <= w.interpolated(a1, a2, a3) <= greatest(a1, a2, a3),
{
    let lo = least(a1, a2, a3);
    let hi = greatest(a1, a2, a3);
    let n = w.w1 * a1 + w.w2 * a2 + w.w3 * a3;
    if w.area > 0 {
        lemma_weighted_mean_between(w.w1, w.w2, w.w3, a1, a2, a3, lo, hi);
        lemma_floor_div_between(n, w.area, lo, hi);
    } else {
        lemma_weighted_mean_between(-w.w1, -w.w2, -w.w3, a1, a2, a3, lo, hi);
        assert((-w.w1) * a1 + (-w.w2) * a2 + (-w.w3) * a3 == -n) by (nonlinear_arith)
            requires
                n == w.w1 * a1 + w.w2 * a2 + w.w3 * a3,
        ;
        lemma_floor_div_between(-n, -w.area, lo, hi);
    }
}

/// With all the weight on one corner, the interpolated attribute is that
/// corner's value, exactly.
pub proof fn lemma_interpolated_at_corner(area: int, a1: int, a2: int, a3: int)
    requires
        area != 0,
    ensures
        (Weights { w1: area, w2: 0, w3: 0, area }).interpolated(a1, a2, a3) == a1,
        (Weights { w1: 0, w2: area, w3: 0, area }).interpolated(a1, a2, a3) == a2,
        (Weights { w1: 0, w2: 0, w3: area, area }).interpolated(a1, a2, a3) == a3,
{
    lemma_exact_quotient(area, a1);
    lemma_exact_quotient(area, a2);
    lemma_exact_quotient(area, a3);
    assert(area * a1 + 0 * a2 + 0 * a3 == area * a1) by (nonlinear_arith);
    assert(0 * a1 + area * a2 + 0 * a3 == area * a2) by (nonlinear_arith);
    assert(0 * a1 + 0 * a2 + area * a3 == area * a3) by (nonlinear_arith);
}

proof fn lemma_exact_quotient(d: int, q: int)
    requires
        d != 0,
    ensures
        floor_div(d * q, d) == q,
{
    if d > 0 {
        vstd::arithmetic::div_mod::lemma_fundamental_div_mod_converse_div(d * q, d, q, 0);
    } else {
        assert(-(d * q) == q * (-d)) by (nonlinear_arith);
        vstd::arithmetic::div_mod::lemma_fundamental_div_mod_converse_div(-(d * q), -d, q, 0);
    }
}

/// At a corner of the triangle all the weight is on that corner.
pub proof fn lemma_weights_at_corner(a: Vec3, b: Vec3, c: Vec3)
    ensures
        edge(b, c, a.x as int, a.y as int) == signed_area(a, b, c),
        edge(c, a, a.x as int, a.y as int) == 0,
        edge(a, b, a.x as int, a.y as int) == 0,
        edge(b, c, b.x as int, b.y as int) == 0,
        edge(c, a, b.x as int, b.y as int) == signed_area(a, b, c),
        edge(a, b, b.x as int, b.y as int) == 0,
        edge(b, c, c.x as int, c.y as int) == 0,
        edge(c, a, c.x as int, c.y as int) == 0,
        edge(a, b, c.x as int, c.y as int) == signed_area(a, b, c),
{
    lemma_weights_sum(a, b, c, a.x as int, a.y as int);
    lemma_weights_sum(a, b, c, b.x as int, b.y as int);
    lemma_weights_sum(a, b, c, c.x as int, c.y as int);
    assert(edge(c, a, a.x as int, a.y as int) == 0) by (nonlinear_arith)
        requires
            edge(c, a, a.x as int, a.y as int) == (a.x - c.x) * (a.y - c.y) - (a.y - c.y) * (a.x
                - c.x),
    ;
    assert(edge(a, b, b.x as int, b.y as int) == 0) by (nonlinear_arith)
        requires
            edge(a, b, b.x as int, b.y as int) == (b.x - a.x) * (b.y - a.y) - (b.y - a.y) * (b.x
                - a.x),
    ;
    assert(edge(b, c, c.x as int, c.y as int) == 0) by (nonlinear_arith)
        requires
            edge(b, c, c.x as int, c.y as int) == (c.x - b.x) * (c.y - b.y) - (c.y - b.y) * (c.x
                - b.x),
    ;
    assert(edge(a, b, a.x as int, a.y as int) == 0) by (nonlinear_arith)
        requires
            edge(a, b, a.x as int, a.y as int) == (a.x - a.x) * (b.y - a.y) - (a.y - a.y) * (b.x
                - a.x),
    ;
    assert(edge(b, c, b.x as int, b.y as int) == 0) by (nonlinear_arith)
        requires
            edge(b, c, b.x as int, b.y as int) == (b.x - b.x) * (c.y - b.y) - (b.y - b.y) * (c.x
                - b.x),
    ;
    assert(edge(c, a, c.x as int, c.y as int) == 0) by (nonlinear_arith)
        requires
            edge(c, a, c.x as int, c.y as int) == (c.x - c.x) * (a.y - c.y) - (c.y - c.y) * (a.x
                - c.x),
    ;
}

/// A covered pixel lies within the span of the three corners, in x and in
/// y: the rasterizer puts no fragment outside the hull of its triangle.
pub proof fn lemma_covered_within_corners(a: Vec3, b: Vec3, c: Vec3, px: int, py: int)
    requires
        covers(a, b, c, px, py),
    ensures
        least(a.x as int, b.x as int, c.x as int) <= px * 65536 <= greatest(
            a.x as int,
            b.x as int,
            c.x as int,
        ),
        least(a.y as int, b.y as int, c.y as int) <= py * 65536 <= greatest(
            a.y as int,
            b.y as int,
            c.y as int,
        ),
{
    let w = weights_at(a, b, c, px, py);
    lemma_weights_sum(a, b, c, px * 65536, py * 65536);
    lemma_weights_mean(a, b, c, px * 65536, py * 65536);
    lemma_interpolated_between(w, a.x as int, b.x as int, c.x as int);
    lemma_interpolated_between(w, a.y as int, b.y as int, c.y as int);
    lemma_exact_quotient(w.area, px * 65536);
    lemma_exact_quotient(w.area, py * 65536);
}

/// A fragment of a triangle is the fragment of a pixel that the triangle
/// covers.
pub proof fn lemma_rasterized_member(v1: Vertex, v2: Vertex, v3: Vertex, light: Light, i: int)
    requires
        0 <= i < rasterized(v1, v2, v3, light).len(),
    ensures
        !degenerate(v1, v2, v3),
        exists|px: int, py: int|
            covers(screen(v1), screen(v2), screen(v3), px, py) && -32768 <= px <= 32768 && -32768
                <= py <= 32768 && rasterized(v1, v2, v3, light)[i] == #[trigger] fragment_at(
                v1,
                v2,
                v3,
                light,
                px,
                py,
            ),
{
    let (a, b, c) = (screen(v1), screen(v2), screen(v3));
    let bounds = bounding_box(a, b, c);
    let kept = bounds.pixels().filter(covering(a, b, c));
    let p = kept[i];
    bounds.pixels().lemma_filter_pred(covering(a, b, c), i);
    assert(covers(a, b, c, p.0, p.1));
    lemma_covered_within_corners(a, b, c, p.0, p.1);
    assert(rasterized(v1, v2, v3, light)[i] == fragment_at(v1, v2, v3, light, p.0, p.1));
}

/// Whether the three corners lie beyond one and the same edge of a viewport
/// of the given size: all to the left of it, all above it, all to the right
/// of its last column, or all below its last row.
pub open spec fn beyond_one_edge(a: Vec3, b: Vec3, c: Vec3, width: int, height: int) -> bool {
    ||| greatest(a.x as int, b.x as int, c.x as int) < 0
    ||| greatest(a.y as int, b.y as int, c.y as int) < 0
    ||| least(a.x as int, b.x as int, c.x as int) > (width - 1) * 65536
    ||| least(a.y as int, b.y as int, c.y as int) > (height - 1) * 65536
}

/// A triangle whose three corners lie beyond one and the same edge of a
/// viewport gives no fragment inside it.
pub proof fn lemma_offscreen_triangle(
    v1: Vertex,
    v2: Vertex,
    v3: Vertex,
    light: Light,
    width: int,
    height: int,
    i: int,
)
    requires
        0 <= i < rasterized(v1, v2, v3, light).len(),
        beyond_one_edge(screen(v1), screen(v2), screen(v3), width, height),
    ensures
        ({
            let f = rasterized(v1, v2, v3, light)[i];
            !(0 <= f.x < width && 0 <= f.y < height)
        }),
{
    lemma_rasterized_member(v1, v2, v3, light, i);
    let (px, py) = choose|px: int, py: int|
        covers(screen(v1), screen(v2), screen(v3), px, py) && -32768 <= px <= 32768 && -32768
            <= py <= 32768 && rasterized(v1, v2, v3, light)[i] == #[trigger] fragment_at(
            v1,
            v2,
            v3,
            light,
            px,
            py,
        );
    lemma_covered_within_corners(screen(v1), screen(v2), screen(v3), px, py);
}

/// At a corner that sits on the centre of a pixel, the triangle covers the
/// pixel and the fragment carries the attributes of that corner's vertex,
/// exactly.
pub proof fn lemma_fragment_at_corner(
    v1: Vertex,
    v2: Vertex,
    v3: Vertex,
    light: Light,
    px: int,
    py: int,
)
    requires
        !degenerate(v1, v2, v3),
        -32768 <= px < 32768,
        -32768 <= py < 32768,
    ensures
        screen(v1).x == px * 65536 && screen(v1).y == py * 65536 ==> {
            let f = fragment_at(v1, v2, v3, light, px, py);
            &&& covers(screen(v1), screen(v2), screen(v3), px, py)
            &&& f.depth == screen(v1).z
            &&& f.vertex_position == v1.position
            &&& f.normal == v1.transformed_normal
            &&& f.color == v1.color
        },
        screen(v2).x == px * 65536 && screen(v2).y == py * 65536 ==> {
            let f = fragment_at(v1, v2, v3, light, px, py);
            &&& covers(screen(v1), screen(v2), screen(v3), px, py)
            &&& f.depth == screen(v2).z
            &&& f.vertex_position == v2.position
            &&& f.normal == v2.transformed_normal
            &&& f.color == v2.color
        },
        screen(v3).x == px * 65536 && screen(v3).y == py * 65536 ==> {
            let f = fragment_at(v1, v2, v3, light, px, py);
            &&& covers(screen(v1), screen(v2), screen(v3), px, py)
            &&& f.depth == screen(v3).z
            &&& f.vertex_position == v3.position
            &&& f.normal == v3.transformed_normal
            &&& f.color == v3.color
        },
{
    let (a, b, c) = (screen(v1), screen(v2), screen(v3));
    let area = signed_area(a, b, c);
    lemma_weights_at_corner(a, b, c);
    lemma_corner_attributes(area, v1, v2, v3);
}

/// With all the weight on one vertex, every interpolated attribute is that
/// vertex's attribute.
proof fn lemma_corner_attributes(area: int, v1: Vertex, v2: Vertex, v3: Vertex)
    requires
        area != 0,
    ensures
        ({
            let w = Weights { w1: area, w2: 0, w3: 0, area };
            &&& w.interpolated(screen(v1).z as int, screen(v2).z as int, screen(v3).z as int)
                == screen(v1).z
            &&& w.interpolated_vector(v1.position, v2.position, v3.position) == v1.position
            &&& w.interpolated_vector(
                v1.transformed_normal,
                v2.transformed_normal,
                v3.transformed_normal,
            ) == v1.transformed_normal
            &&& w.interpolated_color(v1.color, v2.color, v3.color) == v1.color
        }),
        ({
            let w = Weights { w1: 0, w2: area, w3: 0, area };
            &&& w.interpolated(screen(v1).z as int, screen(v2).z as int, screen(v3).z as int)
                == screen(v2).z
            &&& w.interpolated_vector(v1.position, v2.position, v3.position) == v2.position
            &&& w.interpolated_vector(
                v1.transformed_normal,
                v2.transformed_normal,
                v3.transformed_normal,
            ) == v2.transformed_normal
            &&& w.interpolated_color(v1.color, v2.color, v3.color) == v2.color
        }),
        ({
            let w = Weights { w1: 0, w2: 0, w3: area, area };
            &&& w.interpolated(screen(v1).z as int, screen(v2).z as int, screen(v3).z as int)
                == screen(v3).z
            &&& w.interpolated_vector(v1.position, v2.position, v3.position) == v3.position
            &&& w.interpolated_vector(
                v1.transformed_normal,
                v2.transformed_normal,
                v3.transformed_normal,
            ) == v3.transformed_normal
            &&& w.interpolated_color(v1.color, v2.color, v3.color) == v3.color
        }),
{
    lemma_interpolated_at_corner(area, screen(v1).z as int, screen(v2).z as int, screen(v3).z as int);
    lemma_vector_at_corner(area, v1.position, v2.position, v3.position);
    lemma_vector_at_corner(
        area,
        v1.transformed_normal,
        v2.transformed_normal,
        v3.transformed_normal,
    );
    lemma_interpolated_at_corner(area, v1.color.r as int, v2.color.r as int, v3.color.r as int);
    lemma_interpolated_at_corner(area, v1.color.g as int, v2.color.g as int, v3.color.g as int);
    lemma_interpolated_at_corner(area, v1.color.b as int, v2.color.b as int, v3.color.b as int);
}

proof fn lemma_vector_at_corner(area: int, a1: Vec3, a2: Vec3, a3: Vec3)
    requires
        area != 0,
    ensures
        (Weights { w1: area, w2: 0, w3: 0, area }).interpolated_vector(a1, a2, a3) == a1,
        (Weights { w1: 0, w2: area, w3: 0, area }).interpolated_vector(a1, a2, a3) == a2,
        (Weights { w1: 0, w2: 0, w3: area, area }).interpolated_vector(a1, a2, a3) == a3,
{
    lemma_interpolated_at_corner(area, a1.x as int, a2.x as int, a3.x as int);
    lemma_interpolated_at_corner(area, a1.y as int, a2.y as int, a3.y as int);
    lemma_interpolated_at_corner(area, a1.z as int, a2.z as int, a3.z as int);
}

/// The place of the pixel in column `i` and row `j` of a rectangle `w`
/// wide, counted row by row, gives the column and the row back.
proof fn lemma_cell(i: int, j: int, w: int, h: int)
    requires
        0 <= i < w,
        0 <= j < h,
    ensures
        0 <= j * w + i < w * h,
        (j * w + i) % w == i,
        (j * w + i) / w == j,
{
    assert(0 <= j * w + i < w * h) by (nonlinear_arith)
        requires
            0 <= i < w,
            0 <= j < h,
    ;
    vstd::arithmetic::div_mod::lemma_fundamental_div_mod_converse(j * w + i, w, j, i);
}

struct Barycentric {
    w1: i128,
    w2: i128,
    w3: i128,
    area: i128,
}

impl Barycentric {
    spec fn weights(&self) -> Weights {
        Weights {
            w1: self.w1 as int,
            w2: self.w2 as int,
            w3: self.w3 as int,
            area: self.area as int,
        }
    }

    spec fn bounded(&self) -> bool {
        &&& -0x2_0000_0000_0000_0000 <= self.w1 <= 0x2_0000_0000_0000_0000
        &&& -0x2_0000_0000_0000_0000 <= self.w2 <= 0x2_0000_0000_0000_0000
        &&& -0x2_0000_0000_0000_0000 <= self.w3 <= 0x2_0000_0000_0000_0000
        &&& -0x2_0000_0000_0000_0000 <= self.area <= 0x2_0000_0000_0000_0000
        &&& self.w1 + self.w2 + self.w3 == self.area
    }

    fn is_inside(&self) -> (b: bool)
        ensures
            b == self.weights().inside(),
    {
        if self.area > 0 {
            self.w1 >= 0 && self.w2 >= 0 && self.w3 >= 0
        } else if self.area < 0 {
            self.w1 <= 0 && self.w2 <= 0 && self.w3 <= 0
        } else {
            false
        }
    }

    fn interpolate(&self, a1: i32, a2: i32, a3: i32) -> (r: i32)
        requires
            self.bounded(),
            self.weights().inside(),
        ensures
            r == self.weights().interpolated(a1 as int, a2 as int, a3 as int),
            least(a1 as int, a2 as int, a3 as int) <= r <= greatest(
                a1 as int,
                a2 as int,
                a3 as int,
            ),
    {
        proof {
            lemma_product_bound(self.w1 as int, a1 as int, 0x2_0000_0000_0000_0000, 0x8000_0000);
            lemma_product_bound(self.w2 as int, a2 as int, 0x2_0000_0000_0000_0000, 0x8000_0000);
            lemma_product_bound(self.w3 as int, a3 as int, 0x2_0000_0000_0000_0000, 0x8000_0000);
            lemma_interpolated_between(self.weights(), a1 as int, a2 as int, a3 as int);
        }
        let total: i128 = self.w1 * (a1 as i128) + self.w2 * (a2 as i128) + self.w3 * (a3 as i128);
        div_floor(total, self.area) as i32
    }

    fn interpolate_vector(&self, a1: &Vec3, a2: &Vec3, a3: &Vec3) -> (r: Vec3)
        requires
            self.bounded(),
            self.weights().inside(),
        ensures
            r == self.weights().interpolated_vector(*a1, *a2, *a3),
    {
        Vec3 {
            x: self.interpolate(a1.x, a2.x, a3.x),
            y: self.interpolate(a1.y, a2.y, a3.y),
            z: self.interpolate(a1.z, a2.z, a3.z),
        }
    }

    fn interpolate_color(&self, a1: &Color, a2: &Color, a3: &Color) -> (r: Color)
        requires
            self.bounded(),
            self.weights().inside(),
        ensures
            r == self.weights().interpolated_color(*a1, *a2, *a3),
    {
        Color {
            r: self.interpolate(a1.r as i32, a2.r as i32, a3.r as i32) as u8,
            g: self.interpolate(a1.g as i32, a2.g as i32, a3.g as i32) as u8,
            b: self.interpolate(a1.b as i32, a2.b as i32, a3.b as i32) as u8,
        }
    }
}

fn edge_function(a: &Vec3, b: &Vec3, px: i64, py: i64) -> (e: i128)
    requires
        -0x8000_0000 <= px <= 0x8000_0000,
        -0x8000_0000 <= py <= 0x8000_0000,
    ensures
        e == edge(*a, *b, px as int, py as int),
        -0x2_0000_0000_0000_0000 <= e <= 0x2_0000_0000_0000_0000,
{
    let dx: i128 = px as i128 - a.x as i128;
    let dy: i128 = py as i128 - a.y as i128;
    let ex: i128 = b.x as i128 - a.x as i128;
    let ey: i128 = b.y as i128 - a.y as i128;
    proof {
        lemma_product_bound(dx as int, ey as int, 0x1_0000_0000, 0x1_0000_0000);
        lemma_product_bound(dy as int, ex as int, 0x1_0000_0000, 0x1_0000_0000);
        assert(0x1_0000_0000int * 0x1_0000_0000int == 0x1_0000_0000_0000_0000int);
    }
    dx * ey - dy * ex
}

fn smallest(a: i32, b: i32, c: i32) -> (m: i32)
    ensures
        m == least(a as int, b as int, c as int),
{
    if a <= b && a <= c {
        a
    } else if b <= c {
        b
    } else {
        c
    }
}

fn largest(a: i32, b: i32, c: i32) -> (m: i32)
    ensures
        m == greatest(a as int, b as int, c as int),
{
    if a >= b && a >= c {
        a
    } else if b >= c {
        b
    } else {
        c
    }
}

/// The first whole pixel at or below a coordinate.
fn pixel_below(v: i32) -> (p: i64)
    ensures
        p == v as int / 65536,
        -32768 <= p <= 32767,
        p * 65536 <= v,
{
    div_floor(v as i128, 65536) as i64
}

/// The first whole pixel at or above a coordinate.
fn pixel_above(v: i32) -> (p: i64)
    ensures
        p == -((-(v as int)) / 65536),
        -32768 <= p <= 32768,
        p * 65536 >= v,
{
    (-div_floor(-(v as i128), 65536)) as i64
}

fn weigh(a: &Vec3, b: &Vec3, c: &Vec3, area: i128, x: i64, y: i64) -> (w: Barycentric)
    requires
        -32768 <= x <= 32768,
        -32768 <= y <= 32768,
        area == signed_area(*a, *b, *c),
        -0x2_0000_0000_0000_0000 <= area <= 0x2_0000_0000_0000_0000,
    ensures
        w.weights() == weights_at(*a, *b, *c, x as int, y as int),
        w.bounded(),
{
    let px: i64 = x * 65536;
    let py: i64 = y * 65536;
    proof {
        lemma_weights_sum(*a, *b, *c, px as int, py as int);
        lemma_weights_sum(*a, *b, *c, c.x as int, c.y as int);
    }
    Barycentric {
        w1: edge_function(b, c, px, py),
        w2: edge_function(c, a, px, py),
        w3: edge_function(a, b, px, py),
        area,
    }
}

fn make_fragment(
    v1: &Vertex,
    v2: &Vertex,
    v3: &Vertex,
    light: &Light,
    w: &Barycentric,
    x: i64,
    y: i64,
) -> (f: Fragment)
    requires
        -32768 <= x <= 32768,
        -32768 <= y <= 32768,
        w.bounded(),
        w.weights().inside(),
        w.weights() == weights_at(screen(*v1), screen(*v2), screen(*v3), x as int, y as int),
        v1.transformed_position is Some,
        v2.transformed_position is Some,
        v3.transformed_position is Some,
    ensures
        f == fragment_at(*v1, *v2, *v3, *light, x as int, y as int),
{
    let a: Vec3 = v1.transformed_position.unwrap();
    let b: Vec3 = v2.transformed_position.unwrap();
    let c: Vec3 = v3.transformed_position.unwrap();
    let position = w.interpolate_vector(&v1.position, &v2.position, &v3.position);
    let normal = w.interpolate_vector(
        &v1.transformed_normal,
        &v2.transformed_normal,
        &v3.transformed_normal,
    );
    Fragment {
        x: x as i32,
        y: y as i32,
        depth: w.interpolate(a.z, b.z, c.z),
        vertex_position: position,
        normal,
        color: w.interpolate_color(&v1.color, &v2.color, &v3.color),
        intensity: light.intensity_at(&normal, &position),
    }
}

/// Rasterizes one triangle of shaded vertices.
///
/// A triangle with a vertex that has no screen position, or without area on
/// the screen, gives nothing. Any other gives one fragment for each pixel of
/// its bounding box whose centre lies in it or on its border, row by row.
/// The fragments are not clipped to any framebuffer.
pub fn triangle(v1: &Vertex, v2: &Vertex, v3: &Vertex, light: &Light) -> (fragments: Vec<Fragment>)
    ensures
        fragments@ == rasterized(*v1, *v2, *v3, *light),
{
    let mut fragments: Vec<Fragment> = Vec::new();
    if v1.transformed_position.is_none() || v2.transformed_position.is_none()
        || v3.transformed_position.is_none() {
        return fragments;
    }
    let a: Vec3 = v1.transformed_position.unwrap();
    let b: Vec3 = v2.transformed_position.unwrap();
    let c: Vec3 = v3.transformed_position.unwrap();
    let area: i128 = edge_function(&a, &b, c.x as i64, c.y as i64);
    if area == 0 {
        return fragments;
    }
    let min_x: i64 = pixel_below(smallest(a.x, b.x, c.x));
    let max_x: i64 = pixel_above(largest(a.x, b.x, c.x));
    let min_y: i64 = pixel_below(smallest(a.y, b.y, c.y));
    let max_y: i64 = pixel_above(largest(a.y, b.y, c.y));
    let ghost bounds = bounding_box(a, b, c);
    let ghost pixels = bounds.pixels();
    let ghost keep = covering(a, b, c);
    let ghost shade = shading(*v1, *v2, *v3, *light);
    let ghost w = bounds.width();
    let ghost h = bounds.height();
    let ghost mut k: int = 0;
    assert(bounds.min_x == min_x && bounds.max_x == max_x && bounds.min_y == min_y && bounds.max_y
        == max_y);
    assert(w >= 1 && h >= 1);
    assert(w * h >= 0) by (nonlinear_arith)
        requires
            w >= 1,
            h >= 1,
    ;
    assert(pixels.take(0).filter(keep).map_values(shade) =~= Seq::<Fragment>::empty());
    let mut y: i64 = min_y;
    while y <= max_y
        invariant
            min_y <= y <= max_y + 1,
            -32768 <= min_x <= max_x <= 32768,
            -32768 <= min_y <= max_y <= 32768,
            bounds == bounding_box(a, b, c),
            bounds.min_x == min_x && bounds.max_x == max_x && bounds.min_y == min_y
                && bounds.max_y == max_y,
            pixels == bounds.pixels(),
            keep == covering(a, b, c),
            shade == shading(*v1, *v2, *v3, *light),
            w == bounds.width(),
            h == bounds.height(),
            k == (y - min_y) * w,
            0 <= k <= w * h,
            area == signed_area(a, b, c),
            area != 0,
            -0x2_0000_0000_0000_0000 <= area <= 0x2_0000_0000_0000_0000,
            v1.transformed_position == Some(a),
            v2.transformed_position == Some(b),
            v3.transformed_position == Some(c),
            fragments@ == pixels.take(k).filter(keep).map_values(shade),
        decreases max_y + 1 - y,
    {
        let mut x: i64 = min_x;
        while x <= max_x
            invariant
                min_x <= x <= max_x + 1,
                min_y <= y <= max_y,
                -32768 <= min_x <= max_x <= 32768,
                -32768 <= min_y <= max_y <= 32768,
                bounds == bounding_box(a, b, c),
                bounds.min_x == min_x && bounds.max_x == max_x && bounds.min_y == min_y
                    && bounds.max_y == max_y,
                pixels == bounds.pixels(),
                keep == covering(a, b, c),
                shade == shading(*v1, *v2, *v3, *light),
                w == bounds.width(),
                h == bounds.height(),
                k == (y - min_y) * w + (x - min_x),
                0 <= k <= w * h,
                area == signed_area(a, b, c),
                area != 0,
                -0x2_0000_0000_0000_0000 <= area <= 0x2_0000_0000_0000_0000,
                v1.transformed_position == Some(a),
                v2.transformed_position == Some(b),
                v3.transformed_position == Some(c),
                fragments@ == pixels.take(k).filter(keep).map_values(shade),
            decreases max_x + 1 - x,
        {
            let weights = weigh(&a, &b, &c, area, x, y);
            proof {
                lemma_cell(x - min_x, y - min_y, w, h);
                assert(pixels[k] == (x as int, y as int));
                assert(pixels.take(k + 1) =~= pixels.take(k).push(pixels[k]));
                pixels.take(k).lemma_filter_push(pixels[k], keep);
                assert(keep(pixels[k]) == weights.weights().inside());
            }
            if weights.is_inside() {
                let fragment = make_fragment(v1, v2, v3, light, &weights, x, y);
                fragments.push(fragment);
                proof {
                    pixels.take(k).filter(keep).lemma_push_map_commute(shade, pixels[k]);
                    assert(shade(pixels[k]) == fragment);
                }
            }
            proof {
                k = k + 1;
            }
            x = x + 1;
        }
        proof {
            assert((y - min_y) * w + w == (y + 1 - min_y) * w) by (nonlinear_arith);
            assert((y + 1 - min_y) * w <= w * h) by (nonlinear_arith)
                requires
                    y + 1 - min_y <= h,
                    w >= 1,
            ;
        }
        y = y + 1;
    }
    proof {
        assert(k == w * h) by (nonlinear_arith)
            requires
                k == (y - min_y) * w,
                y - min_y == h,
        ;
        assert(pixels.take(k) =~= pixels);
    }
    fragments
}

} // verus!
