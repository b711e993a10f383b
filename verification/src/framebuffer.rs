//! The colour and depth buffers of one frame, and the depth-tested write.

use vstd::prelude::*;

verus! {

/// The depth that a cleared cell holds. No write is farther, and a write at
/// this depth is never nearer than what a cell holds, so it changes nothing.
pub const FAR: i32 = i32::MAX;

/// What a framebuffer holds, as mathematics: two row-major sequences of
/// `width * height` cells and two colour registers.
pub ghost struct Canvas {
    pub width: nat,
    pub height: nat,
    pub colors: Seq<u32>,
    pub depths: Seq<i32>,
    pub background: u32,
    pub current: u32,
}

impl Canvas {
    /// Both buffers have one cell for each pixel.
    pub open spec fn wf(self) -> bool {
        self.colors.len() == self.width * self.height && self.depths.len() == self.width
            * self.height
    }

    pub open spec fn contains(self, x: int, y: int) -> bool {
        0 <= x < self.width && 0 <= y < self.height
    }

    /// The place of pixel `(x, y)` in the buffers.
    pub open spec fn index(self, x: int, y: int) -> int {
        y * self.width + x
    }

    pub open spec fn color_at(self, x: int, y: int) -> u32 {
        self.colors[self.index(x, y)]
    }

    pub open spec fn depth_at(self, x: int, y: int) -> i32 {
        self.depths[self.index(x, y)]
    }

    /// Every colour cell at the background colour, every depth cell far.
    pub open spec fn cleared(self) -> Canvas {
        Canvas {
            colors: Seq::new(self.width * self.height, |i: int| self.background),
            depths: Seq::new(self.width * self.height, |i: int| FAR),
            ..self
        }
    }

    /// Whether a write at `(x, y)` passes: the pixel exists and `depth` is
    /// strictly nearer than what its cell holds. At equal depth the cell
    /// keeps what it has: the first writer wins.
    pub open spec fn accepts(self, x: int, y: int, depth: i32) -> bool {
        self.contains(x, y) && depth < self.depth_at(x, y)
    }

    /// The canvas after a write of `depth` at `(x, y)` in the current colour.
    pub open spec fn written(self, x: int, y: int, depth: i32) -> Canvas {
        if self.accepts(x, y, depth) {
            Canvas {
                colors: self.colors.update(self.index(x, y), self.current),
                depths: self.depths.update(self.index(x, y), depth),
                ..self
            }
        } else {
            self
        }
    }

    pub open spec fn with_current(self, color: u32) -> Canvas {
        Canvas { current: color, ..self }
    }

    pub open spec fn with_background(self, color: u32) -> Canvas {
        Canvas { background: color, ..self }
    }

    /// The canvas after `color` is made current and `depth` is written at
    /// `(x, y)`.
    pub open spec fn drawn(self, x: int, y: int, depth: i32, color: u32) -> Canvas {
        self.with_current(color).written(x, y, depth)
    }

    /// The canvas after one write in a colour of its own. A write outside
    /// the canvas leaves all of it as it is, the current colour too.
    pub open spec fn stamped(self, write: Write) -> Canvas {
        if self.contains(write.x, write.y) {
            self.drawn(write.x, write.y, write.depth, write.color)
        } else {
            self
        }
    }

    /// The canvas after the writes are made in their order.
    pub open spec fn stamped_all(self, writes: Seq<Write>) -> Canvas
        decreases writes.len(),
    {
        if writes.len() == 0 {
            self
        } else {
            self.stamped_all(writes.drop_last()).stamped(writes.last())
        }
    }
}

/// One write: a pixel, a depth and the colour that comes with it.
pub ghost struct Write {
    pub x: int,
    pub y: int,
    pub depth: i32,
    pub color: u32,
}

/// Whether no tie has to be broken between colours: writes that fall on one
/// pixel at one depth bring one colour.
pub open spec fn tie_free(writes: Seq<Write>) -> bool {
    forall|i: int, j: int|
        0 <= i < writes.len() && 0 <= j < writes.len() && (#[trigger] writes[i]).x == (
        #[trigger] writes[j]).x && writes[i].y == writes[j].y && writes[i].depth
            == writes[j].depth ==> writes[i].color == writes[j].color
}

/// The place of a pixel lies inside the buffers, and two pixels share a
/// place only if they are one pixel.
pub proof fn lemma_index(c: Canvas, x: int, y: int)
    requires
        c.contains(x, y),
    ensures
        0 <= c.index(x, y) < c.width * c.height,
        forall|u: int, v: int|
            c.contains(u, v) && (u != x || v != y) ==> #[trigger] c.index(u, v) != c.index(x, y),
{
    let w = c.width as int;
    assert(0 <= y * w + x < w * c.height) by (nonlinear_arith)
        requires
            0 <= x < w,
            0 <= y < c.height,
    ;
    assert forall|u: int, v: int| c.contains(u, v) && (u != x || v != y) implies #[trigger] c.index(
        u,
        v,
    ) != c.index(x, y) by {
        assert(v * w + u != y * w + x) by (nonlinear_arith)
            requires
                0 <= x < w,
                0 <= u < w,
                u != x || v != y,
        ;
    }
}

pub struct Framebuffer {
    width: usize,
    height: usize,
    buffer: Vec<u32>,
    zbuffer: Vec<i32>,
    background_color: u32,
    current_color: u32,
}

impl View for Framebuffer {
    type V = Canvas;

    closed spec fn view(&self) -> Canvas {
        Canvas {
            width: self.width as nat,
            height: self.height as nat,
            colors: self.buffer@,
            depths: self.zbuffer@,
            background: self.background_color,
            current: self.current_color,
        }
    }
}

impl Framebuffer {
    #[verifier::type_invariant]
    spec fn inv(&self) -> bool {
        self.buffer@.len() == self.width * self.height && self.zbuffer@.len() == self.width
            * self.height
    }

    /// A cleared framebuffer of the given size, with a black background and
    /// white as the current colour.
    pub fn new(width: usize, height: usize) -> (fb: Framebuffer)
        requires
            width * height <= usize::MAX,
        ensures
            fb@.wf(),
            fb@.width == width,
            fb@.height == height,
            fb@.background == 0x000000,
            fb@.current == 0xFFFFFF,
            fb@ == fb@.cleared(),
    {
        let cells: usize = width * height;
        let mut buffer: Vec<u32> = Vec::new();
        let mut zbuffer: Vec<i32> = Vec::new();
        let mut i: usize = 0;
        while i < cells
            invariant
                i <= cells,
                buffer@ == Seq::new(i as nat, |k: int| 0x000000u32),
                zbuffer@ == Seq::new(i as nat, |k: int| FAR),
            decreases cells - i,
        {
            buffer.push(0x000000);
            zbuffer.push(FAR);
            i = i + 1;
            assert(buffer@ =~= Seq::new(i as nat, |k: int| 0x000000u32));
            assert(zbuffer@ =~= Seq::new(i as nat, |k: int| FAR));
        }
        let fb = Framebuffer {
            width,
            height,
            buffer,
            zbuffer,
            background_color: 0x000000,
            current_color: 0xFFFFFF,
        };
        assert(fb@.colors =~= fb@.cleared().colors);
        assert(fb@.depths =~= fb@.cleared().depths);
        fb
    }

    /// The place of an existing pixel in the buffers.
    fn cell(&self, x: usize, y: usize) -> (index: usize)
        requires
            self@.contains(x as int, y as int),
        ensures
            index == self@.index(x as int, y as int),
            index < self.buffer@.len(),
            index < self.zbuffer@.len(),
    {
        let cells: usize = self.buffer.len();
        proof {
            use_type_invariant(self);
            assert(0 <= y * self.width && y * self.width + x < self.width * self.height)
                by (nonlinear_arith)
                requires
                    x < self.width,
                    y < self.height,
            ;
            assert(cells == self.width * self.height);
        }
        y * self.width + x
    }

    pub fn width(&self) -> (w: usize)
        ensures
            w == self@.width,
            self@.wf(),
    {
        proof {
            use_type_invariant(self);
        }
        self.width
    }

    pub fn height(&self) -> (h: usize)
        ensures
            h == self@.height,
            self@.wf(),
    {
        proof {
            use_type_invariant(self);
        }
        self.height
    }

    /// The colour buffer, row by row, for the display.
    pub fn buffer(&self) -> (colors: &Vec<u32>)
        ensures
            colors@ == self@.colors,
            colors@.len() == self@.width * self@.height,
    {
        proof {
            use_type_invariant(self);
        }
        &self.buffer
    }

    /// The colour of a pixel; `None` outside the framebuffer.
    pub fn get_pixel(&self, x: usize, y: usize) -> (color: Option<u32>)
        ensures
            self@.wf(),
            color == if self@.contains(x as int, y as int) {
                Some(self@.color_at(x as int, y as int))
            } else {
                None
            },
    {
        proof {
            use_type_invariant(self);
        }
        if x < self.width && y < self.height {
            Some(self.buffer[self.cell(x, y)])
        } else {
            None
        }
    }

    /// The depth of a pixel; `None` outside the framebuffer.
    pub fn get_depth(&self, x: usize, y: usize) -> (depth: Option<i32>)
        ensures
            self@.wf(),
            depth == if self@.contains(x as int, y as int) {
                Some(self@.depth_at(x as int, y as int))
            } else {
                None
            },
    {
        proof {
            use_type_invariant(self);
        }
        if x < self.width && y < self.height {
            Some(self.zbuffer[self.cell(x, y)])
        } else {
            None
        }
    }

    /// Resets every pixel: its colour to the background colour, its depth to
    /// far.
    pub fn clear(&mut self)
        ensures
            final(self)@ == old(self)@.cleared(),
            final(self)@.wf(),
            forall|x: int, y: int|
                final(self)@.contains(x, y) ==> final(self)@.color_at(x, y) == old(
                    self,
                )@.background && final(self)@.depth_at(x, y) == FAR,
    {
        proof {
            use_type_invariant(&*self);
        }
        let cells: usize = self.buffer.len();
        let mut i: usize = 0;
        while i < cells
            invariant
                i <= cells,
                cells == self.width * self.height,
                self.buffer@.len() == cells,
                self.zbuffer@.len() == cells,
                self.width == old(self).width,
                self.height == old(self).height,
                self.background_color == old(self).background_color,
                self.current_color == old(self).current_color,
                forall|k: int| 0 <= k < i ==> self.buffer@[k] == self.background_color,
                forall|k: int| 0 <= k < i ==> self.zbuffer@[k] == FAR,
            decreases cells - i,
        {
            self.buffer[i] = self.background_color;
            self.zbuffer[i] = FAR;
            i = i + 1;
        }
        assert(self@.colors =~= old(self)@.cleared().colors);
        assert(self@.depths =~= old(self)@.cleared().depths);
        proof {
            assert forall|x: int, y: int| self@.contains(x, y) implies self@.color_at(x, y) == old(
                self,
            )@.background && self@.depth_at(x, y) == FAR by {
                lemma_index(self@, x, y);
            }
        }
    }

    pub fn set_background_color(&mut self, color: u32)
        ensures
            final(self)@ == old(self)@.with_background(color),
            final(self)@.wf(),
    {
        proof {
            use_type_invariant(&*self);
        }
        self.background_color = color;
    }

    pub fn set_current_color(&mut self, color: u32)
        ensures
            final(self)@ == old(self)@.with_current(color),
            final(self)@.wf(),
    {
        proof {
            use_type_invariant(&*self);
        }
        self.current_color = color;
    }

    /// The depth-tested write. Outside the framebuffer nothing happens.
    /// Inside, the pixel takes `depth` and the current colour if `depth` is
    /// strictly nearer than the depth it holds, and keeps what it has
    /// otherwise. Returns whether the pixel was written.
    pub fn point(&mut self, x: usize, y: usize, depth: i32) -> (wrote: bool)
        ensures
            final(self)@ == old(self)@.written(x as int, y as int, depth),
            wrote == old(self)@.accepts(x as int, y as int, depth),
            final(self)@.wf(),
    {
        proof {
            use_type_invariant(&*self);
        }
        if x >= self.width || y >= self.height {
            return false;
        }
        let index: usize = self.cell(x, y);
        if depth < self.zbuffer[index] {
            self.buffer[index] = self.current_color;
            self.zbuffer[index] = depth;
            true
        } else {
            false
        }
    }
}

/// Occlusion does not depend on the order of the writes. Of two writes at
/// one pixel with different depths, made in either order and each in its
/// own colour, the buffers end up the same; and where the nearer one is
/// nearer than what the pixel held, the pixel ends with its depth and its
/// colour.
pub proof fn lemma_nearer_write_wins(
    c: Canvas,
    x: int,
    y: int,
    d1: i32,
    color1: u32,
    d2: i32,
    color2: u32,
)
    requires
        c.wf(),
        d1 < d2,
    ensures
        c.drawn(x, y, d1, color1).drawn(x, y, d2, color2).colors == c.drawn(
            x,
            y,
            d2,
            color2,
        ).drawn(x, y, d1, color1).colors,
        c.drawn(x, y, d1, color1).drawn(x, y, d2, color2).depths == c.drawn(
            x,
            y,
            d2,
            color2,
        ).drawn(x, y, d1, color1).depths,
        c.accepts(x, y, d1) ==> c.drawn(x, y, d1, color1).drawn(x, y, d2, color2).color_at(x, y)
            == color1 && c.drawn(x, y, d1, color1).drawn(x, y, d2, color2).depth_at(x, y) == d1,
        !c.accepts(x, y, d1) ==> c.drawn(x, y, d1, color1).drawn(x, y, d2, color2).colors
            == c.colors && c.drawn(x, y, d1, color1).drawn(x, y, d2, color2).depths == c.depths,
{
    if c.contains(x, y) {
        lemma_index(c, x, y);
        let first = c.drawn(x, y, d1, color1).drawn(x, y, d2, color2);
        let second = c.drawn(x, y, d2, color2).drawn(x, y, d1, color1);
        assert(first.colors =~= second.colors);
        assert(first.depths =~= second.depths);
    }
}

/// A write never moves a pixel farther, and changes no other pixel.
pub proof fn lemma_write_only_nearer(c: Canvas, x: int, y: int, depth: i32, u: int, v: int)
    requires
        c.wf(),
        c.contains(u, v),
    ensures
        c.written(x, y, depth).depth_at(u, v) <= c.depth_at(u, v),
        (u != x || v != y) ==> c.written(x, y, depth).depth_at(u, v) == c.depth_at(u, v)
            && c.written(x, y, depth).color_at(u, v) == c.color_at(u, v),
        (u == x && v == y) ==> c.written(x, y, depth).depth_at(u, v) == if depth < c.depth_at(
            u,
            v,
        ) {
            depth
        } else {
            c.depth_at(u, v)
        },
{
    lemma_index(c, u, v);
    if c.contains(x, y) {
        lemma_index(c, x, y);
    }
}

/// A run of writes keeps the size of the canvas and its background.
pub proof fn lemma_stamped_shape(c: Canvas, writes: Seq<Write>)
    requires
        c.wf(),
    ensures
        c.stamped_all(writes).wf(),
        c.stamped_all(writes).width == c.width,
        c.stamped_all(writes).height == c.height,
        c.stamped_all(writes).background == c.background,
    decreases writes.len(),
{
    if writes.len() > 0 {
        lemma_stamped_shape(c, writes.drop_last());
        let before = c.stamped_all(writes.drop_last());
        let w = writes.last();
        if before.contains(w.x, w.y) {
            lemma_index(before, w.x, w.y);
        }
    }
}

/// Writes that all fall outside the canvas leave it as it is.
pub proof fn lemma_stamped_outside(c: Canvas, writes: Seq<Write>)
    requires
        forall|i: int| 0 <= i < writes.len() ==> !c.contains((#[trigger] writes[i]).x, writes[i].y),
    ensures
        c.stamped_all(writes) == c,
    decreases writes.len(),
{
    if writes.len() > 0 {
        lemma_stamped_outside(c, writes.drop_last());
        assert(!c.contains(writes[writes.len() - 1].x, writes[writes.len() - 1].y));
    }
}

/// Two runs of writes, one after the other, are one run.
pub proof fn lemma_stamped_concat(c: Canvas, first: Seq<Write>, second: Seq<Write>)
    ensures
        c.stamped_all(first + second) == c.stamped_all(first).stamped_all(second),
    decreases second.len(),
{
    if second.len() == 0 {
        assert(first + second =~= first);
    } else {
        lemma_stamped_concat(c, first, second.drop_last());
        assert((first + second).drop_last() =~= first + second.drop_last());
        assert((first + second).last() == second.last());
    }
}

/// The depth buffer holds, for every pixel, the least depth written to it so
/// far, and the colour buffer the colour that came with that depth. After a
/// run of writes a pixel is no farther than it was and no farther than any
/// write that fell on it; and it holds either what it held before, or the
/// depth and the colour of one of those writes, which was nearer than what it
/// held before.
pub proof fn lemma_stamped_keeps_nearest(c: Canvas, writes: Seq<Write>, x: int, y: int)
    requires
        c.wf(),
        c.contains(x, y),
    ensures
        c.stamped_all(writes).depth_at(x, y) <= c.depth_at(x, y),
        forall|i: int|
            0 <= i < writes.len() && (#[trigger] writes[i]).x == x && writes[i].y == y
                ==> c.stamped_all(writes).depth_at(x, y) <= writes[i].depth,
        ({
            let after = c.stamped_all(writes);
            ||| after.depth_at(x, y) == c.depth_at(x, y) && after.color_at(x, y) == c.color_at(
                x,
                y,
            )
            ||| exists|i: int|
                0 <= i < writes.len() && (#[trigger] writes[i]).x == x && writes[i].y == y
                    && writes[i].depth < c.depth_at(x, y) && after.depth_at(x, y)
                    == writes[i].depth && after.color_at(x, y) == writes[i].color
        }),
    decreases writes.len(),
{
    if writes.len() > 0 {
        let rest = writes.drop_last();
        let w = writes.last();
        let before = c.stamped_all(rest);
        let after = c.stamped_all(writes);
        lemma_stamped_keeps_nearest(c, rest, x, y);
        lemma_stamped_shape(c, rest);
        lemma_write_only_nearer(before.with_current(w.color), w.x, w.y, w.depth, x, y);
        assert forall|i: int|
            0 <= i < writes.len() && (#[trigger] writes[i]).x == x && writes[i].y
                == y implies after.depth_at(x, y) <= writes[i].depth by {
            if i < rest.len() {
                assert(rest[i] == writes[i]);
            }
        }
        if after.depth_at(x, y) == before.depth_at(x, y) && after.color_at(x, y)
            == before.color_at(x, y) {
            if !(before.depth_at(x, y) == c.depth_at(x, y) && before.color_at(x, y) == c.color_at(
                x,
                y,
            )) {
                let i = choose|i: int|
                    0 <= i < rest.len() && (#[trigger] rest[i]).x == x && rest[i].y == y
                        && rest[i].depth < c.depth_at(x, y) && before.depth_at(x, y)
                        == rest[i].depth && before.color_at(x, y) == rest[i].color;
                assert(writes[i] == rest[i]);
            }
        } else {
            lemma_index(before, x, y);
            assert(writes[writes.len() - 1] == w);
            assert(w.x == x && w.y == y);
        }
    }
}

/// Occlusion does not depend on the order of the writes. Two runs of the
/// same writes, in any two orders, leave the same colours and the same
/// depths, as long as no tie has to be broken between colours.
pub proof fn lemma_order_independent(c: Canvas, first: Seq<Write>, second: Seq<Write>)
    requires
        c.wf(),
        forall|w: Write| first.contains(w) <==> second.contains(w),
        tie_free(first),
    ensures
        c.stamped_all(first).colors == c.stamped_all(second).colors,
        c.stamped_all(first).depths == c.stamped_all(second).depths,
{
    let a = c.stamped_all(first);
    let b = c.stamped_all(second);
    lemma_stamped_shape(c, first);
    lemma_stamped_shape(c, second);
    let w = c.width as int;
    assert forall|k: int| 0 <= k < a.colors.len() implies a.colors[k] == b.colors[k] && a.depths[k]
        == b.depths[k] by {
        assert(w > 0) by (nonlinear_arith)
            requires
                0 <= k < w * c.height,
                w >= 0,
        ;
        let x = k % w;
        let y = k / w;
        vstd::arithmetic::div_mod::lemma_fundamental_div_mod(k, w);
        vstd::arithmetic::div_mod::lemma_mod_bound(k, w);
        assert(0 <= y < c.height) by (nonlinear_arith)
            requires
                k == w * y + x,
                0 <= x < w,
                0 <= k < w * c.height,
        ;
        assert(y * w + x == k) by (nonlinear_arith)
            requires
                k == w * y + x,
        ;
        lemma_same_pixel(c, first, second, x, y);
    }
    assert(a.colors =~= b.colors);
    assert(a.depths =~= b.depths);
}

/// One pixel of the law above.
proof fn lemma_same_pixel(c: Canvas, first: Seq<Write>, second: Seq<Write>, x: int, y: int)
    requires
        c.wf(),
        c.contains(x, y),
        forall|w: Write| first.contains(w) <==> second.contains(w),
        tie_free(first),
    ensures
        c.stamped_all(first).color_at(x, y) == c.stamped_all(second).color_at(x, y),
        c.stamped_all(first).depth_at(x, y) == c.stamped_all(second).depth_at(x, y),
{
    let a = c.stamped_all(first);
    let b = c.stamped_all(second);
    lemma_stamped_keeps_nearest(c, first, x, y);
    lemma_stamped_keeps_nearest(c, second, x, y);
    let from_first = exists|i: int|
        0 <= i < first.len() && (#[trigger] first[i]).x == x && first[i].y == y && first[i].depth
            < c.depth_at(x, y) && a.depth_at(x, y) == first[i].depth && a.color_at(x, y)
            == first[i].color;
    let from_second = exists|j: int|
        0 <= j < second.len() && (#[trigger] second[j]).x == x && second[j].y == y
            && second[j].depth < c.depth_at(x, y) && b.depth_at(x, y) == second[j].depth
            && b.color_at(x, y) == second[j].color;
    if from_first {
        let i = choose|i: int|
            0 <= i < first.len() && (#[trigger] first[i]).x == x && first[i].y == y
                && first[i].depth < c.depth_at(x, y) && a.depth_at(x, y) == first[i].depth
                && a.color_at(x, y) == first[i].color;
        assert(first.contains(first[i]));
        assert(second.contains(first[i]));
        let j = choose|j: int| 0 <= j < second.len() && second[j] == first[i];
        assert(second[j].x == x && second[j].y == y);
        assert(b.depth_at(x, y) <= a.depth_at(x, y));
    }
    if from_second {
        let j = choose|j: int|
            0 <= j < second.len() && (#[trigger] second[j]).x == x && second[j].y == y
                && second[j].depth < c.depth_at(x, y) && b.depth_at(x, y) == second[j].depth
                && b.color_at(x, y) == second[j].color;
        assert(second.contains(second[j]));
        assert(first.contains(second[j]));
        let i = choose|i: int| 0 <= i < first.len() && first[i] == second[j];
        assert(first[i].x == x && first[i].y == y);
        assert(a.depth_at(x, y) <= b.depth_at(x, y));
        if from_first {
            let k = choose|k: int|
                0 <= k < first.len() && (#[trigger] first[k]).x == x && first[k].y == y
                    && first[k].depth < c.depth_at(x, y) && a.depth_at(x, y) == first[k].depth
                    && a.color_at(x, y) == first[k].color;
            assert(first[k].depth == first[i].depth);
        }
    }
}

} // verus!
