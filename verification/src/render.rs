//! One object drawn into the framebuffer: vertex stage, primitive assembly,
//! rasterization, and the depth-tested shading of every fragment.

use vstd::prelude::*;
use crate::fragment::Fragment;
use crate::framebuffer::{
    lemma_order_independent, lemma_stamped_concat, lemma_stamped_outside, tie_free, Canvas,
    Framebuffer, Write,
};
use crate::light::Light;
use crate::noise::Noise;
use crate::shaders::{select_shader, shaded, vertex_image, vertex_shader};
use crate::triangle::{
    beyond_one_edge, lemma_offscreen_triangle, rasterized, screen, triangle,
};
use crate::uniforms::Uniforms;
use crate::vertex::Vertex;

verus! {

/// The vertex stage as a map on vertices.
pub open spec fn vertex_stage<N: Noise>(uniforms: Uniforms<N>) -> spec_fn(Vertex) -> Vertex {
    |v: Vertex| vertex_image(v, uniforms)
}

/// The triangles of a flat vertex sequence: every three consecutive
/// vertices make one; a trailing group of fewer than three is dropped.
pub open spec fn assembled(vertices: Seq<Vertex>) -> Seq<(Vertex, Vertex, Vertex)> {
    Seq::new(
        vertices.len() / 3,
        |k: int| (vertices[3 * k], vertices[3 * k + 1], vertices[3 * k + 2]),
    )
}

/// The rasterizer as a map on triangles.
pub open spec fn raster_stage(light: Light) -> spec_fn((Vertex, Vertex, Vertex)) -> Seq<Fragment> {
    |t: (Vertex, Vertex, Vertex)| rasterized(t.0, t.1, t.2, light)
}

/// The fragments of an object, triangle after triangle.
pub open spec fn object_fragments<N: Noise>(
    vertices: Seq<Vertex>,
    uniforms: Uniforms<N>,
) -> Seq<Fragment> {
    assembled(vertices.map_values(vertex_stage(uniforms))).flat_map(raster_stage(uniforms.light))
}

/// The write that a fragment of body `index` makes: at its pixel, at its
/// depth, in the colour that the body's shader gives it.
pub open spec fn write_of<N: Noise>(fragment: Fragment, index: int, uniforms: Uniforms<N>) -> Write {
    Write {
        x: fragment.x as int,
        y: fragment.y as int,
        depth: fragment.depth,
        color: shaded(index, fragment, uniforms).packed() as u32,
    }
}

/// The shading stage as a map on fragments.
pub open spec fn shading_stage<N: Noise>(index: int, uniforms: Uniforms<N>) -> spec_fn(
    Fragment,
) -> Write {
    |f: Fragment| write_of(f, index, uniforms)
}

/// The canvas after the fragments are shaded as body `index` and written in
/// their order. A fragment outside the canvas leaves it as it is.
pub open spec fn painted<N: Noise>(
    canvas: Canvas,
    fragments: Seq<Fragment>,
    index: int,
    uniforms: Uniforms<N>,
) -> Canvas {
    canvas.stamped_all(fragments.map_values(shading_stage(index, uniforms)))
}

/// Draws one object as body `index`: shades every vertex, assembles the
/// triangles, rasterizes them, and writes every fragment that falls inside
/// the framebuffer, in the colour the body's shader gives it, through the
/// depth test.
pub fn render<N: Noise>(
    framebuffer: &mut Framebuffer,
    uniforms: &Uniforms<N>,
    vertex_array: &[Vertex],
    index: usize,
)
    ensures
        final(framebuffer)@ == painted(
            old(framebuffer)@,
            object_fragments(vertex_array@, *uniforms),
            index as int,
            *uniforms,
        ),
{
    let ghost stage = vertex_stage(*uniforms);
    let mut transformed_vertices: Vec<Vertex> = Vec::new();
    let mut i: usize = 0;
    while i < vertex_array.len()
        invariant
            i <= vertex_array@.len(),
            stage == vertex_stage(*uniforms),
            transformed_vertices@ == vertex_array@.take(i as int).map_values(stage),
        decreases vertex_array@.len() - i,
    {
        let transformed = vertex_shader(&vertex_array[i], uniforms);
        transformed_vertices.push(transformed);
        proof {
            vertex_array@.lemma_map_take_succ(stage, i as int);
        }
        i = i + 1;
    }
    assert(vertex_array@.take(i as int) =~= vertex_array@);

    let ghost all = assembled(transformed_vertices@);
    let mut triangles: Vec<(Vertex, Vertex, Vertex)> = Vec::new();
    let mut i: usize = 0;
    while i < transformed_vertices.len() && transformed_vertices.len() - i >= 3
        invariant
            i <= transformed_vertices@.len(),
            i == 3 * triangles@.len(),
            all == assembled(transformed_vertices@),
            triangles@ == all.take(triangles@.len() as int),
        decreases transformed_vertices@.len() - i,
    {
        triangles.push(
            (transformed_vertices[i], transformed_vertices[i + 1], transformed_vertices[i + 2]),
        );
        i = i + 3;
        assert(triangles@ =~= all.take(triangles@.len() as int));
    }
    assert(triangles@ =~= all);

    let ghost raster = raster_stage(uniforms.light);
    let mut fragments: Vec<Fragment> = Vec::new();
    let mut t: usize = 0;
    while t < triangles.len()
        invariant
            t <= triangles@.len(),
            raster == raster_stage(uniforms.light),
            fragments@ == triangles@.take(t as int).flat_map(raster),
        decreases triangles@.len() - t,
    {
        let tri = &triangles[t];
        let mut more = triangle(&tri.0, &tri.1, &tri.2, &uniforms.light);
        proof {
            triangles@.lemma_flat_map_take_append(raster, t as int);
        }
        fragments.append(&mut more);
        t = t + 1;
    }
    assert(triangles@.take(t as int) =~= triangles@);

    let ghost shade = shading_stage(index as int, *uniforms);
    let mut j: usize = 0;
    while j < fragments.len()
        invariant
            j <= fragments@.len(),
            shade == shading_stage(index as int, *uniforms),
            framebuffer@ == old(framebuffer)@.stamped_all(
                fragments@.take(j as int).map_values(shade),
            ),
        decreases fragments@.len() - j,
    {
        let fragment = &fragments[j];
        proof {
            fragments@.lemma_map_take_succ(shade, j as int);
            let done = fragments@.take(j as int).map_values(shade);
            assert(done.push(shade(fragments@[j as int])).drop_last() =~= done);
        }
        let on_screen = fragment.x >= 0 && fragment.y >= 0 && (fragment.x as usize)
            < framebuffer.width() && (fragment.y as usize) < framebuffer.height();
        if on_screen {
            let shaded_color = select_shader(index, fragment, uniforms);
            let color: u32 = shaded_color.to_hex();
            framebuffer.set_current_color(color);
            framebuffer.point(fragment.x as usize, fragment.y as usize, fragment.depth);
        }
        j = j + 1;
    }
    assert(fragments@.take(j as int) =~= fragments@);
}

/// A triangle whose three corners lie beyond one and the same edge of the
/// canvas changes nothing on it.
pub proof fn lemma_offscreen_triangle_unseen<N: Noise>(
    canvas: Canvas,
    v1: Vertex,
    v2: Vertex,
    v3: Vertex,
    index: int,
    uniforms: Uniforms<N>,
)
    requires
        beyond_one_edge(
            screen(v1),
            screen(v2),
            screen(v3),
            canvas.width as int,
            canvas.height as int,
        ),
    ensures
        painted(canvas, rasterized(v1, v2, v3, uniforms.light), index, uniforms) == canvas,
{
    let fragments = rasterized(v1, v2, v3, uniforms.light);
    let writes = fragments.map_values(shading_stage(index, uniforms));
    assert forall|i: int| 0 <= i < writes.len() implies !canvas.contains(
        (#[trigger] writes[i]).x,
        writes[i].y,
    ) by {
        lemma_offscreen_triangle(
            v1,
            v2,
            v3,
            uniforms.light,
            canvas.width as int,
            canvas.height as int,
            i,
        );
    }
    lemma_stamped_outside(canvas, writes);
}

/// An object all of whose triangles lie beyond an edge of the canvas, each
/// beyond one of its own, changes nothing on it.
pub proof fn lemma_offscreen_object_unseen<N: Noise>(
    canvas: Canvas,
    triangles: Seq<(Vertex, Vertex, Vertex)>,
    index: int,
    uniforms: Uniforms<N>,
)
    requires
        forall|k: int|
            0 <= k < triangles.len() ==> beyond_one_edge(
                screen((#[trigger] triangles[k]).0),
                screen(triangles[k].1),
                screen(triangles[k].2),
                canvas.width as int,
                canvas.height as int,
            ),
    ensures
        painted(canvas, triangles.flat_map(raster_stage(uniforms.light)), index, uniforms)
            == canvas,
    decreases triangles.len(),
{
    let raster = raster_stage(uniforms.light);
    let shade = shading_stage(index, uniforms);
    if triangles.len() == 0 {
        assert(triangles.flat_map(raster) =~= Seq::<Fragment>::empty());
    } else {
        let rest = triangles.drop_last();
        let t = triangles.last();
        lemma_offscreen_object_unseen(canvas, rest, index, uniforms);
        lemma_offscreen_triangle_unseen(canvas, t.0, t.1, t.2, index, uniforms);
        rest.lemma_flat_map_push(raster, t);
        assert(rest.push(t) =~= triangles);
        assert((rest.flat_map(raster) + raster(t)).map_values(shade) =~= rest.flat_map(
            raster,
        ).map_values(shade) + raster(t).map_values(shade));
        lemma_stamped_concat(
            canvas,
            rest.flat_map(raster).map_values(shade),
            raster(t).map_values(shade),
        );
    }
}

/// The order in which two objects are drawn does not matter to the picture:
/// drawn either way round, each as a body and under uniforms of its own,
/// they leave the same colours and the same depths, as long as no tie has to
/// be broken between differently coloured fragments.
pub proof fn lemma_draw_order_independent<N: Noise, M: Noise>(
    canvas: Canvas,
    one: Seq<Fragment>,
    index_one: int,
    uniforms_one: Uniforms<N>,
    other: Seq<Fragment>,
    index_other: int,
    uniforms_other: Uniforms<M>,
)
    requires
        canvas.wf(),
        tie_free(
            one.map_values(shading_stage(index_one, uniforms_one)) + other.map_values(
                shading_stage(index_other, uniforms_other),
            ),
        ),
    ensures
        painted(
            painted(canvas, one, index_one, uniforms_one),
            other,
            index_other,
            uniforms_other,
        ).colors == painted(
            painted(canvas, other, index_other, uniforms_other),
            one,
            index_one,
            uniforms_one,
        ).colors,
        painted(
            painted(canvas, one, index_one, uniforms_one),
            other,
            index_other,
            uniforms_other,
        ).depths == painted(
            painted(canvas, other, index_other, uniforms_other),
            one,
            index_one,
            uniforms_one,
        ).depths,
{
    let a = one.map_values(shading_stage(index_one, uniforms_one));
    let b = other.map_values(shading_stage(index_other, uniforms_other));
    lemma_stamped_concat(canvas, a, b);
    lemma_stamped_concat(canvas, b, a);
    assert forall|w: Write| (a + b).contains(w) <==> (b + a).contains(w) by {
        if (a + b).contains(w) {
            let i = choose|i: int| 0 <= i < (a + b).len() && (a + b)[i] == w;
            if i < a.len() {
                assert((b + a)[b.len() + i] == w);
            } else {
                assert((b + a)[i - a.len()] == w);
            }
        }
        if (b + a).contains(w) {
            let i = choose|i: int| 0 <= i < (b + a).len() && (b + a)[i] == w;
            if i < b.len() {
                assert((a + b)[a.len() + i] == w);
            } else {
                assert((a + b)[i - b.len()] == w);
            }
        }
    }
    lemma_order_independent(canvas, a + b, b + a);
}

} // verus!
