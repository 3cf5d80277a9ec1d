//! Bookkeeping of the GPU buffers: quads, layers, growth, and the retries round
//! textures and shaders.
use crate::json::opt_str;
use crate::text::{
    concat2, concat4, concat5, decimal, decimal_of, join, joined, same, trim, trimmed, views,
};
use vstd::prelude::*;
use vstd::string::*;

verus! {

pub const VERTICES_PER_CELL: usize = 4;

pub const INDICES_PER_CELL: usize = 6;

pub const V_TOP_LEFT: u32 = 0;

pub const V_TOP_RIGHT: u32 = 1;

pub const V_BOT_LEFT: u32 = 2;

pub const V_BOT_RIGHT: u32 = 3;

/// Buffers grow by multiples of this many quads.
pub const QUAD_STEP: usize = 128;

/// How many passes are made at resizing the texture atlas.
pub const ATLAS_ATTEMPTS: u32 = 10;

/// The buffers of a layer.
pub const BUFFERS_PER_LAYER: usize = 3;

// ---------------------------------------------------------------------------
// Buffers
// ---------------------------------------------------------------------------

/// What draws.
#[derive(Clone, Copy, Debug, PartialEq, Eq, Structural)]
pub enum RenderContext {
    Glium,
    WebGpu,
}

pub open spec fn lesser(a: usize, b: usize) -> usize {
    if a <= b {
        a
    } else {
        b
    }
}

impl RenderContext {
    /// How many vertices a new vertex buffer is filled with.
    pub fn initializer_len(self, num_quads: usize) -> (r: usize)
        requires
            num_quads * VERTICES_PER_CELL <= usize::MAX,
        ensures
            r == (if self == RenderContext::Glium {
                num_quads * VERTICES_PER_CELL
            } else {
                0
            }),
    {
        match self {
            RenderContext::Glium => num_quads * VERTICES_PER_CELL,
            RenderContext::WebGpu => 0,
        }
    }

    /// Whether a texture atlas can have a size. You'd hope that allocating a
    /// texture would include this check, but it doesn't, and instead the texture
    /// silently fails to bind when attempting to render into it later.
    pub fn check_atlas_size(self, size: usize, max_texture_size: usize) -> (r: Result<(), String>)
        ensures
            (match r {
                Ok(_) => Ok(()),
                Err(e) => Err(e@),
            }) == (if self == RenderContext::Glium && size > max_texture_size {
                Err(
                    "Cannot use a texture of size "@ + decimal(size as nat)
                        + " as it is larger than the max "@ + decimal(max_texture_size as nat)
                        + " supported by your GPU"@,
                )
            } else {
                Ok(())
            }),
    {
        if self == RenderContext::Glium && size > max_texture_size {
            let have = decimal_of(size as u128);
            let max = decimal_of(max_texture_size as u128);
            Err(
                concat5(
                    "Cannot use a texture of size ",
                    have.as_str(),
                    " as it is larger than the max ",
                    max.as_str(),
                    " supported by your GPU",
                ),
            )
        } else {
            Ok(())
        }
    }

    /// What is said of the renderer.
    pub fn renderer_info(self, renderer: &str, version: &str) -> (r: String)
        ensures
            r@ == (match self {
                RenderContext::Glium => "OpenGL: "@ + renderer@ + " "@ + version@,
                RenderContext::WebGpu => "WebGPU: "@ + renderer@,
            }),
    {
        match self {
            RenderContext::Glium => concat4("OpenGL: ", renderer, " ", version),
            RenderContext::WebGpu => concat2("WebGPU: ", renderer),
        }
    }
}

/// Three GPU buffers that take turns, so that one can be filled while another is
/// drawn.
#[derive(Clone, Copy, Debug, PartialEq, Eq, Structural)]
pub struct TripleVertexBuffer {
    /// The buffer whose turn it is.
    pub index: usize,
    /// How many quads fit.
    pub capacity: usize,
    /// How many quads the frame wants so far.
    pub next_quad: usize,
}

/// The indices of the quads of a buffer.
pub open spec fn quad_indices(num_quads: nat) -> Seq<u32> {
    Seq::new(
        num_quads * INDICES_PER_CELL as nat,
        |i: int|
            {
                let base = (i / INDICES_PER_CELL as int) * VERTICES_PER_CELL;
                let corner = i % INDICES_PER_CELL as int;
                (base + (if corner == 0 {
                    V_TOP_LEFT
                } else if corner == 1 || corner == 3 {
                    V_TOP_RIGHT
                } else if corner == 2 || corner == 4 {
                    V_BOT_LEFT
                } else {
                    V_BOT_RIGHT
                })) as u32
            },
    )
}

/// A buffer with nothing in it.
pub open spec fn empty_buffer(num_quads: usize) -> TripleVertexBuffer {
    TripleVertexBuffer { index: 0, capacity: num_quads, next_quad: 0 }
}

impl TripleVertexBuffer {
    /// It can be drawn: the turn is that of one of the three, and the vertices and
    /// indices can be counted.
    pub open spec fn wf(self) -> bool {
        self.index < 3 && self.capacity * INDICES_PER_CELL <= usize::MAX
    }

    pub fn new(num_quads: usize) -> (r: TripleVertexBuffer)
        requires
            num_quads * INDICES_PER_CELL <= usize::MAX,
        ensures
            r == empty_buffer(num_quads),
            r.wf(),
    {
        TripleVertexBuffer { index: 0, capacity: num_quads, next_quad: 0 }
    }

    pub fn clear_quad_allocation(&mut self)
        ensures
            *final(self) == (TripleVertexBuffer { next_quad: 0, ..*old(self) }),
    {
        self.next_quad = 0;
    }

    /// How many quads the frame wants, where they do not fit.
    pub fn need_more_quads(&self) -> (r: Option<usize>)
        ensures
            r == (if self.next_quad > self.capacity {
                Some(self.next_quad)
            } else {
                None
            }),
    {
        if self.next_quad > self.capacity {
            Some(self.next_quad)
        } else {
            None
        }
    }

    /// Number of vertices/indices to draw for this buffer.
    ///
    /// `next_quad` deliberately keeps counting past `capacity` so that
    /// `need_more_quads()` can report the shortfall and grow the GPU
    /// buffers. The staging layer only ever writes `capacity` quads worth
    /// of vertices, and the index buffer only contains `capacity` quads
    /// worth of indices, so the draw call must be clamped to the capacity.
    pub fn vertex_index_count(&self) -> (r: (usize, usize))
        requires
            self.wf(),
        ensures
            r.0 == lesser(self.next_quad, self.capacity) * VERTICES_PER_CELL,
            r.1 == lesser(self.next_quad, self.capacity) * INDICES_PER_CELL,
            r.0 <= self.capacity * VERTICES_PER_CELL,
            r.1 <= self.capacity * INDICES_PER_CELL,
    {
        let num_quads: usize = if self.next_quad <= self.capacity {
            self.next_quad
        } else {
            self.capacity
        };
        (num_quads * VERTICES_PER_CELL, num_quads * INDICES_PER_CELL)
    }

    /// Hands the turn to the next buffer.
    pub fn next_index(&mut self)
        requires
            old(self).wf(),
        ensures
            final(self).wf(),
            *final(self) == (TripleVertexBuffer {
                index: ((old(self).index + 1) % 3) as usize,
                ..*old(self)
            }),
    {
        self.index = self.index + 1;
        if self.index >= 3 {
            self.index = 0;
        }
    }

    /// Takes the count of a staging layer. Returns how many of its vertices go to
    /// the GPU.
    pub fn apply_staging<V: Copy>(&mut self, layer: &StagingLayer<V>) -> (r: usize)
        requires
            old(self).wf(),
            layer.wf(),
        ensures
            *final(self) == (TripleVertexBuffer { next_quad: layer.next_quad, ..*old(self) }),
            final(self).wf(),
            r == lesser(
                layer.vertices@.len() as usize,
                (layer.capacity * VERTICES_PER_CELL) as usize,
            ),
    {
        self.next_quad = layer.next_quad;
        layer.copy_len()
    }
}

/// Three turns come back to the same buffer.
pub proof fn three_turns_come_back(index: usize)
    requires
        index < 3,
    ensures
        (((index + 1) % 3 + 1) % 3 + 1) % 3 == index,
{
}

/// The indices of a buffer's quads: two triangles form each.
pub fn compute_indices(num_quads: usize) -> (r: Vec<u32>)
    requires
        num_quads * VERTICES_PER_CELL <= u32::MAX,
        num_quads * INDICES_PER_CELL <= usize::MAX,
    ensures
        r@ == quad_indices(num_quads as nat),
{
    let mut indices: Vec<u32> = Vec::new();
    let mut q: usize = 0;
    while q < num_quads
        invariant
            q <= num_quads,
            num_quads * VERTICES_PER_CELL <= u32::MAX,
            indices@ == quad_indices(q as nat),
        decreases num_quads - q,
    {
        let ghost before = indices@;
        assert((q + 1) * VERTICES_PER_CELL <= num_quads * VERTICES_PER_CELL) by (nonlinear_arith)
            requires
                q + 1 <= num_quads,
        ;
        let idx: u32 = (q * VERTICES_PER_CELL) as u32;
        // Emit two triangles to form the glyph quad
        indices.push(idx + V_TOP_LEFT);
        indices.push(idx + V_TOP_RIGHT);
        indices.push(idx + V_BOT_LEFT);
        indices.push(idx + V_TOP_RIGHT);
        indices.push(idx + V_BOT_LEFT);
        indices.push(idx + V_BOT_RIGHT);
        proof {
            let target = quad_indices((q + 1) as nat);
            assert(indices@.len() == target.len());
            assert forall|i: int| 0 <= i < target.len() implies indices@[i] == #[trigger] target[i] by {
                if i < q * 6 {
                    assert(indices@[i] == before[i]);
                    assert(before[i] == quad_indices(q as nat)[i]);
                } else {
                    let c = i - q * 6;
                    assert(0 <= c < 6);
                    assert(i / 6 == q && i % 6 == c) by (nonlinear_arith)
                        requires
                            i == q * 6 + c,
                            0 <= c < 6,
                    ;
                }
            }
            assert(indices@ =~= target);
        }
        q += 1;
    }
    indices
}

/// Every index of a buffer is that of one of its vertices.
pub proof fn indices_stay_in_the_buffer(num_quads: nat, i: int)
    requires
        num_quads * VERTICES_PER_CELL <= u32::MAX,
        0 <= i < quad_indices(num_quads).len(),
    ensures
        quad_indices(num_quads)[i] < num_quads * VERTICES_PER_CELL,
{
    let q = i / 6;
    assert(0 <= q < num_quads) by (nonlinear_arith)
        requires
            q == i / 6,
            0 <= i < num_quads * 6,
    ;
    assert((q + 1) * 4 <= num_quads * 4) by (nonlinear_arith)
        requires
            q + 1 <= num_quads,
    ;
}

// ---------------------------------------------------------------------------
// Staging
// ---------------------------------------------------------------------------

/// The vertices of a frame before they go to the GPU.
#[derive(Debug)]
pub struct StagingLayer<V> {
    pub vertices: Vec<V>,
    pub next_quad: usize,
    pub capacity: usize,
}

/// The vertices, filled up with blank ones to a length.
pub open spec fn filled<V>(list: Seq<V>, len: int, blank: V) -> Seq<V> {
    if list.len() >= len {
        list
    } else {
        Seq::new(
            len as nat,
            |i: int|
                if i < list.len() {
                    list[i]
                } else {
                    blank
                },
        )
    }
}

/// The vertices with some of them replaced.
pub open spec fn overwritten<V>(list: Seq<V>, start: int, with: Seq<V>) -> Seq<V> {
    Seq::new(
        list.len(),
        |i: int|
            if start <= i < start + with.len() {
                with[i - start]
            } else {
                list[i]
            },
    )
}

/// The quad that is written next: the first one, where none is left.
pub open spec fn quad_at(next_quad: usize, capacity: usize) -> int {
    if next_quad >= capacity {
        0
    } else {
        next_quad as int
    }
}

fn fill<V: Copy>(list: &mut Vec<V>, len: usize, blank: V)
    ensures
        final(list)@ == filled(old(list)@, len as int, blank),
{
    let ghost before = list@;
    while list.len() < len
        invariant
            before.len() <= list.len(),
            list.len() <= len || list.len() == before.len(),
            forall|i: int| 0 <= i < before.len() ==> list@[i] == before[i],
            forall|i: int| before.len() <= i < list.len() ==> list@[i] == blank,
        decreases len - list.len(),
    {
        list.push(blank);
    }
    assert(list@ =~= filled(before, len as int, blank));
}

impl<V: Copy> StagingLayer<V> {
    /// The vertices can be counted.
    pub open spec fn wf(self) -> bool {
        self.capacity * VERTICES_PER_CELL <= usize::MAX
    }

    /// A layer that goes on where a buffer is. `mapped` is what the buffer holds.
    pub fn from_vertex_buffer(vb: &TripleVertexBuffer, mapped: &Vec<V>) -> (r: StagingLayer<V>)
        requires
            vb.wf(),
            mapped.len() == vb.capacity * VERTICES_PER_CELL,
        ensures
            r.wf(),
            r.next_quad == vb.next_quad,
            r.capacity == vb.capacity,
            r.vertices@ == mapped@.take(lesser(vb.next_quad, vb.capacity) * VERTICES_PER_CELL),
    {
        let num_quads: usize = if vb.next_quad <= vb.capacity {
            vb.next_quad
        } else {
            vb.capacity
        };
        let copy_len: usize = num_quads * VERTICES_PER_CELL;
        let mut vertices: Vec<V> = Vec::new();
        let mut i: usize = 0;
        while i < copy_len
            invariant
                i <= copy_len <= mapped.len(),
                vertices@ == mapped@.take(i as int),
            decreases copy_len - i,
        {
            vertices.push(mapped[i]);
            i += 1;
            assert(vertices@ =~= mapped@.take(i as int));
        }
        StagingLayer { vertices, next_quad: vb.next_quad, capacity: vb.capacity }
    }

    /// How many vertices go to the GPU.
    pub fn copy_len(&self) -> (r: usize)
        requires
            self.wf(),
        ensures
            r == lesser(
                self.vertices@.len() as usize,
                (self.capacity * VERTICES_PER_CELL) as usize,
            ),
    {
        let max: usize = self.capacity * VERTICES_PER_CELL;
        if self.vertices.len() <= max {
            self.vertices.len()
        } else {
            max
        }
    }

    /// Takes a quad: the range of its vertices. Where none is left, rendering goes
    /// on in the first one while the overflow is tracked. A later pass will detect
    /// the shortfall and grow the GPU buffers.
    pub fn allocate(&mut self, blank: V) -> (r: (usize, usize))
        requires
            old(self).wf(),
            old(self).next_quad < usize::MAX,
        ensures
            final(self).wf(),
            final(self).next_quad == old(self).next_quad + 1,
            final(self).capacity == old(self).capacity,
            r.0 == quad_at(old(self).next_quad, old(self).capacity) * VERTICES_PER_CELL,
            r.1 == r.0 + VERTICES_PER_CELL,
            final(self).vertices@ == filled(old(self).vertices@, r.1 as int, blank),
            r.1 <= final(self).vertices@.len(),
    {
        let next: usize = self.next_quad;
        self.next_quad = next + 1;
        let idx: usize = if next >= self.capacity {
            0
        } else {
            next
        };
        assert(idx == 0 || (idx + 1) * VERTICES_PER_CELL <= self.capacity * VERTICES_PER_CELL)
            by (nonlinear_arith)
            requires
                idx == 0 || idx + 1 <= self.capacity,
        ;
        let start: usize = idx * VERTICES_PER_CELL;
        let end: usize = start + VERTICES_PER_CELL;
        fill(&mut self.vertices, end, blank);
        (start, end)
    }

    /// Takes the vertices of some quads at once. Those that do not fit are only
    /// counted.
    pub fn extend_with(&mut self, more: &Vec<V>, blank: V)
        requires
            old(self).wf(),
            old(self).next_quad * VERTICES_PER_CELL + more.len() <= usize::MAX,
        ensures
            final(self).wf(),
            final(self).capacity == old(self).capacity,
            final(self).next_quad == old(self).next_quad + more.len() / VERTICES_PER_CELL,
            ({
                let start = old(self).next_quad * VERTICES_PER_CELL;
                let end = start + more.len();
                final(self).vertices@ == (if end <= old(self).capacity * VERTICES_PER_CELL {
                    overwritten(filled(old(self).vertices@, end, blank), start, more@)
                } else {
                    old(self).vertices@
                })
            }),
    {
        let idx: usize = self.next_quad;
        let len: usize = more.len();
        let start: usize = idx * VERTICES_PER_CELL;
        self.next_quad = idx + len / VERTICES_PER_CELL;
        let max: usize = self.capacity * VERTICES_PER_CELL;
        if start + len <= max {
            let end: usize = start + len;
            fill(&mut self.vertices, end, blank);
            let ghost full = self.vertices@;
            let ghost target = overwritten(full, start as int, more@);
            let mut i: usize = 0;
            while i < len
                invariant
                    i <= len == more.len(),
                    start + len == end,
                    end <= self.vertices.len(),
                    self.vertices@.len() == full.len(),
                    target == overwritten(full, start as int, more@),
                    self.capacity == old(self).capacity,
                    self.next_quad == idx + len / VERTICES_PER_CELL,
                    forall|k: int| start <= k < start + i ==> self.vertices@[k] == target[k],
                    forall|k: int|
                        0 <= k < full.len() && !(start <= k < start + i) ==> self.vertices@[k]
                            == full[k],
                decreases len - i,
            {
                self.vertices.set(start + i, more[i]);
                i += 1;
            }
            assert(self.vertices@ =~= target);
        }
    }
}

// ---------------------------------------------------------------------------
// Layers
// ---------------------------------------------------------------------------

/// The buffers of one level of the picture.
#[derive(Debug)]
pub struct RenderLayer {
    pub vb: Vec<TripleVertexBuffer>,
    pub zindex: i8,
}

/// How much room a layer's buffers have.
pub open spec fn layer_capacity(index: int, num_quads: usize) -> usize {
    if index == 1 {
        num_quads
    } else {
        32
    }
}

impl RenderLayer {
    pub open spec fn wf(self) -> bool {
        self.vb@.len() == BUFFERS_PER_LAYER && forall|i: int|
            0 <= i < self.vb@.len() ==> (#[trigger] self.vb@[i]).wf()
    }

    pub fn new(num_quads: usize, zindex: i8) -> (r: RenderLayer)
        requires
            num_quads * INDICES_PER_CELL <= usize::MAX,
        ensures
            r.wf(),
            r.zindex == zindex,
            forall|i: int|
                0 <= i < 3 ==> #[trigger] r.vb@[i] == empty_buffer(layer_capacity(i, num_quads)),
    {
        let mut vb: Vec<TripleVertexBuffer> = Vec::new();
        vb.push(TripleVertexBuffer::new(32));
        vb.push(TripleVertexBuffer::new(num_quads));
        vb.push(TripleVertexBuffer::new(32));
        RenderLayer { vb, zindex }
    }

    pub fn clear_quad_allocation(&mut self)
        requires
            old(self).wf(),
        ensures
            final(self).wf(),
            final(self).zindex == old(self).zindex,
            forall|i: int|
                0 <= i < 3 ==> #[trigger] final(self).vb@[i] == (TripleVertexBuffer {
                    next_quad: 0,
                    ..old(self).vb@[i]
                }),
    {
        let mut i: usize = 0;
        while i < self.vb.len()
            invariant
                i <= self.vb.len() == 3,
                self.zindex == old(self).zindex,
                old(self).wf(),
                forall|k: int|
                    0 <= k < i ==> #[trigger] self.vb@[k] == (TripleVertexBuffer {
                        next_quad: 0,
                        ..old(self).vb@[k]
                    }),
                forall|k: int| i <= k < 3 ==> #[trigger] self.vb@[k] == old(self).vb@[k],
            decreases self.vb.len() - i,
        {
            let mut b = self.vb[i];
            b.clear_quad_allocation();
            self.vb.set(i, b);
            i += 1;
        }
        assert forall|k: int| 0 <= k < self.vb@.len() implies (#[trigger] self.vb@[k]).wf() by {
            assert(old(self).vb@[k].wf());
        }
    }

    pub fn need_more_quads(&self, vb_idx: usize) -> (r: Option<usize>)
        requires
            self.wf(),
            vb_idx < 3,
        ensures
            r == (if self.vb@[vb_idx as int].next_quad > self.vb@[vb_idx as int].capacity {
                Some(self.vb@[vb_idx as int].next_quad)
            } else {
                None
            }),
    {
        self.vb[vb_idx].need_more_quads()
    }

    pub fn reallocate_quads(&mut self, idx: usize, num_quads: usize)
        requires
            old(self).wf(),
            idx < 3,
            num_quads * INDICES_PER_CELL <= usize::MAX,
        ensures
            final(self).wf(),
            final(self).zindex == old(self).zindex,
            final(self).vb@ == old(self).vb@.update(idx as int, empty_buffer(num_quads)),
    {
        self.vb.set(idx, TripleVertexBuffer::new(num_quads));
        assert forall|k: int| 0 <= k < self.vb@.len() implies (#[trigger] self.vb@[k]).wf() by {
            if k != idx {
                assert(old(self).vb@[k].wf());
            }
        }
    }
}

/// The next multiple of the step that has room for some quads.
pub open spec fn rounded_up(quads: usize) -> int {
    (quads + (QUAD_STEP - 1)) / (QUAD_STEP as int) * QUAD_STEP
}

/// Rounds up to the next multiple of the step that is at least the number of
/// needed quads.
pub fn round_up_quads(need_quads: usize) -> (r: usize)
    requires
        need_quads + (QUAD_STEP - 1) <= usize::MAX,
    ensures
        r == rounded_up(need_quads),
        r % QUAD_STEP == 0,
        need_quads <= r < need_quads + QUAD_STEP,
{
    let steps: usize = (need_quads + (QUAD_STEP - 1)) / QUAD_STEP;
    assert(steps * 128 <= need_quads + 127 < steps * 128 + 128) by (nonlinear_arith)
        requires
            steps == (need_quads + 127) / 128,
    ;
    assert((steps * 128) % 128 == 0) by (nonlinear_arith);
    steps * QUAD_STEP
}

/// A buffer that was made larger.
#[derive(Clone, Copy, Debug, PartialEq, Eq, Structural)]
pub struct Growth {
    pub layer: usize,
    pub buffer: usize,
    pub needed: usize,
    pub quads: usize,
}

/// What is said of a buffer that could not be made larger.
pub fn growth_error(growth: &Growth) -> (r: String)
    ensures
        r@ == "Failed to allocate "@ + decimal(growth.quads as nat) + " quads (needed "@ + decimal(
            growth.needed as nat,
        ) + ")"@,
{
    let quads = decimal_of(growth.quads as u128);
    let needed = decimal_of(growth.needed as u128);
    concat5("Failed to allocate ", quads.as_str(), " quads (needed ", needed.as_str(), ")")
}

/// The layers of the picture, from back to front.
#[derive(Debug)]
pub struct RenderState {
    pub layers: Vec<RenderLayer>,
}

/// The layers are rendered in the order of their z-index, and no two share one.
pub open spec fn back_to_front(list: Seq<RenderLayer>) -> bool {
    forall|i: int, j: int|
        0 <= i < j < list.len() ==> (#[trigger] list[i]).zindex < (#[trigger] list[j]).zindex
}

/// The growth of a buffer, where it needs any.
pub open spec fn grown_buffer(b: TripleVertexBuffer) -> TripleVertexBuffer {
    if b.next_quad > b.capacity {
        empty_buffer(rounded_up(b.next_quad) as usize)
    } else {
        b
    }
}

/// The frame's wants can be met: no buffer wants more quads than can be counted.
pub open spec fn can_grow(list: Seq<RenderLayer>) -> bool {
    forall|i: int, b: int|
        0 <= i < list.len() && 0 <= b < 3 ==> ((#[trigger] list[i].vb@[b]).next_quad
            + QUAD_STEP) * INDICES_PER_CELL <= usize::MAX
}

/// How a buffer grows, where it needs to.
pub open spec fn buffer_growth(layer: int, buffer: int, b: TripleVertexBuffer) -> Seq<Growth> {
    if b.next_quad > b.capacity {
        seq![
            Growth {
                layer: layer as usize,
                buffer: buffer as usize,
                needed: b.next_quad,
                quads: rounded_up(b.next_quad) as usize,
            },
        ]
    } else {
        seq![]
    }
}

/// How the first buffers of a layer grow.
pub open spec fn layer_growths(layer: int, vb: Seq<TripleVertexBuffer>, n: nat) -> Seq<Growth>
    decreases n,
{
    if n == 0 {
        seq![]
    } else {
        layer_growths(layer, vb, (n - 1) as nat) + buffer_growth(layer, n - 1, vb[n - 1])
    }
}

/// How the buffers of the first layers grow.
pub open spec fn growths(list: Seq<RenderLayer>, n: nat) -> Seq<Growth>
    decreases n,
{
    if n == 0 {
        seq![]
    } else {
        growths(list, (n - 1) as nat) + layer_growths(n - 1, list[n - 1].vb@, 3)
    }
}

impl RenderState {
    pub open spec fn wf(self) -> bool {
        back_to_front(self.layers@) && forall|i: int|
            0 <= i < self.layers@.len() ==> (#[trigger] self.layers@[i]).wf()
    }

    pub fn new() -> (r: RenderState)
        ensures
            r.wf(),
            r.layers@.len() == 1,
            r.layers@[0].zindex == 0,
            forall|i: int|
                0 <= i < 3 ==> #[trigger] r.layers@[0].vb@[i] == empty_buffer(
                    layer_capacity(i, 1024),
                ),
    {
        let mut layers: Vec<RenderLayer> = Vec::new();
        layers.push(RenderLayer::new(1024, 0));
        RenderState { layers }
    }

    /// The place of the layer with a z-index, which is made where there is none.
    /// The layers stay sorted by z-index so that they are rendered in the correct
    /// order when the list is iterated.
    pub fn layer_for_zindex(&mut self, zindex: i8) -> (r: usize)
        requires
            old(self).wf(),
        ensures
            final(self).wf(),
            r < final(self).layers@.len(),
            final(self).layers@[r as int].zindex == zindex,
            (exists|i: int|
                0 <= i < old(self).layers@.len() && (#[trigger] old(self).layers@[i]).zindex
                    == zindex) ==> final(self).layers@ == old(self).layers@,
            !(exists|i: int|
                0 <= i < old(self).layers@.len() && (#[trigger] old(self).layers@[i]).zindex
                    == zindex) ==> (final(self).layers@ == old(self).layers@.insert(
                r as int,
                final(self).layers@[r as int],
            ) && forall|i: int|
                0 <= i < 3 ==> #[trigger] final(self).layers@[r as int].vb@[i] == empty_buffer(
                    layer_capacity(i, 128),
                )),
    {
        let ghost before = self.layers@;
        let mut i: usize = 0;
        while i < self.layers.len() && self.layers[i].zindex < zindex
            invariant
                i <= self.layers.len(),
                self.layers@ == before,
                forall|k: int| 0 <= k < i ==> (#[trigger] before[k]).zindex < zindex,
            decreases self.layers.len() - i,
        {
            i += 1;
        }
        if i < self.layers.len() && self.layers[i].zindex == zindex {
            return i;
        }
        proof {
            assert forall|k: int| 0 <= k < before.len() implies (#[trigger] before[k]).zindex
                != zindex by {
                if k > i {
                    assert(before[i as int].zindex < before[k].zindex);
                }
            }
        }
        self.layers.insert(i, RenderLayer::new(128, zindex));
        proof {
            let after = self.layers@;
            assert forall|a: int, b: int| 0 <= a < b < after.len() implies (
            #[trigger] after[a]).zindex < (#[trigger] after[b]).zindex by {
                let pa: int = if a < i { a } else { a - 1 };
                let pb: int = if b < i { b } else { b - 1 };
                if a != i && b != i {
                    assert(after[a] == before[pa] && after[b] == before[pb]);
                } else if a == i {
                    assert(after[b] == before[pb]);
                    assert(before[i as int].zindex <= before[pb].zindex);
                } else {
                    assert(after[a] == before[pa]);
                }
            }
            assert forall|k: int| 0 <= k < after.len() implies (#[trigger] after[k]).wf() by {
                if k != i {
                    let p: int = if k < i { k } else { k - 1 };
                    assert(after[k] == before[p]);
                }
            }
        }
        i
    }

    /// Makes every buffer larger that needs more quads than it has. Returns which
    /// were: none where the quads were sufficient.
    pub fn allocated_more_quads(&mut self) -> (r: Vec<Growth>)
        requires
            old(self).wf(),
            can_grow(old(self).layers@),
        ensures
            final(self).wf(),
            final(self).layers@.len() == old(self).layers@.len(),
            forall|i: int|
                0 <= i < old(self).layers@.len() ==> (#[trigger] final(self).layers@[i]).zindex
                    == old(self).layers@[i].zindex,
            forall|i: int, b: int|
                0 <= i < old(self).layers@.len() && 0 <= b < 3 ==> (
                    #[trigger] final(self).layers@[i].vb@[b]
                ) == grown_buffer(old(self).layers@[i].vb@[b]),
            r@ == growths(old(self).layers@, old(self).layers@.len()),
            r@.len() == 0 <==> forall|i: int, b: int|
                0 <= i < old(self).layers@.len() && 0 <= b < 3 ==> (
                    #[trigger] old(self).layers@[i].vb@[b]
                ).next_quad <= old(self).layers@[i].vb@[b].capacity,
    {
        let ghost before = self.layers@;
        let mut grown: Vec<Growth> = Vec::new();
        let mut layers: Vec<RenderLayer> = Vec::new();
        let mut i: usize = 0;
        while i < self.layers.len()
            invariant
                i <= self.layers.len(),
                self.layers@ == before,
                can_grow(before),
                back_to_front(before),
                forall|k: int| 0 <= k < before.len() ==> (#[trigger] before[k]).wf(),
                layers@.len() == i,
                forall|k: int|
                    0 <= k < i ==> (#[trigger] layers@[k]).wf() && layers@[k].zindex
                        == before[k].zindex,
                forall|k: int, b: int|
                    0 <= k < i && 0 <= b < 3 ==> (#[trigger] layers@[k].vb@[b]) == grown_buffer(
                        before[k].vb@[b],
                    ),
                grown@ == growths(before, i as nat),
                grown@.len() == 0 ==> forall|k: int, b: int|
                    0 <= k < i && 0 <= b < 3 ==> (#[trigger] before[k].vb@[b]).next_quad
                        <= before[k].vb@[b].capacity,
                grown@.len() > 0 ==> (exists|k: int, b: int|
                    0 <= k < before.len() && 0 <= b < 3 && (
                    #[trigger] before[k].vb@[b]).next_quad > before[k].vb@[b].capacity),
            decreases self.layers.len() - i,
        {
            let ghost source = before[i as int];
            let mut vb: Vec<TripleVertexBuffer> = Vec::new();
            let mut j: usize = 0;
            let ghost count = grown@.len();
            assert(grown@ + layer_growths(i as int, source.vb@, 0) =~= grown@);
            while j < 3
                invariant
                    j <= 3,
                    i < self.layers.len(),
                    self.layers@ == before,
                    source == before[i as int],
                    source.wf(),
                    can_grow(before),
                    vb@.len() == j,
                    grown@.len() >= count,
                    count == 0 ==> forall|k: int, b: int|
                        0 <= k < i && 0 <= b < 3 ==> (#[trigger] before[k].vb@[b]).next_quad
                            <= before[k].vb@[b].capacity,
                    forall|b: int|
                        0 <= b < j ==> (#[trigger] vb@[b]) == grown_buffer(source.vb@[b])
                            && vb@[b].wf(),
                    grown@ == growths(before, i as nat) + layer_growths(
                        i as int,
                        source.vb@,
                        j as nat,
                    ),
                    grown@.len() > 0 ==> (exists|k: int, b: int|
                        0 <= k < before.len() && 0 <= b < 3 && (
                        #[trigger] before[k].vb@[b]).next_quad > before[k].vb@[b].capacity),
                    grown@.len() == 0 ==> forall|b: int|
                        0 <= b < j ==> (#[trigger] source.vb@[b]).next_quad
                            <= source.vb@[b].capacity,
                decreases 3 - j,
            {
                let b = self.layers[i].vb[j];
                assert(source.vb@[j as int] == b);
                assert(b.wf());
                assert((before[i as int].vb@[j as int].next_quad + QUAD_STEP) * INDICES_PER_CELL
                    <= usize::MAX);
                let ghost so_far = grown@;
                let ghost head = growths(before, i as nat);
                let ghost part = layer_growths(i as int, source.vb@, j as nat);
                match self.layers[i].need_more_quads(j) {
                    Some(needed) => {
                        let quads: usize = round_up_quads(needed);
                        assert(quads * 6 <= (needed + 128) * 6) by (nonlinear_arith)
                            requires
                                quads <= needed + 128,
                        ;
                        vb.push(TripleVertexBuffer::new(quads));
                        grown.push(Growth { layer: i, buffer: j, needed, quads });
                        assert(before[i as int].vb@[j as int].next_quad
                            > before[i as int].vb@[j as int].capacity);
                    },
                    None => {
                        vb.push(b);
                    },
                }
                assert(grown@ =~= head + (part + buffer_growth(i as int, j as int, b)));
                j += 1;
            }
            layers.push(RenderLayer { vb, zindex: self.layers[i].zindex });
            proof {
                assert(layers@[i as int].wf());
                assert forall|k: int, b: int| 0 <= k < i + 1 && 0 <= b < 3 implies (
                #[trigger] layers@[k].vb@[b]) == grown_buffer(before[k].vb@[b]) by {
                    if k == i {
                        assert(vb@[b] == grown_buffer(source.vb@[b]));
                    }
                }
            }
            i += 1;
        }
        self.layers = layers;
        proof {
            let after = self.layers@;
            assert forall|a: int, b: int| 0 <= a < b < after.len() implies (
            #[trigger] after[a]).zindex < (#[trigger] after[b]).zindex by {
                assert(after[a].zindex == before[a].zindex && after[b].zindex == before[b].zindex);
            }
        }
        grown
    }
}

/// After a buffer is made larger, the frame that wanted more fits: the same
/// wants need no further growth.
pub proof fn grown_buffers_suffice(b: TripleVertexBuffer)
    requires
        b.wf(),
        b.next_quad + QUAD_STEP <= usize::MAX,
    ensures
        grown_buffer(b).capacity >= b.next_quad,
        grown_buffer(b).capacity >= b.capacity,
{
    let n = b.next_quad as int;
    assert(n <= (n + 127) / 128 * 128 < n + 128) by (nonlinear_arith)
        requires
            n >= 0,
    ;
}

/// Once every buffer was made as large as it needed to be, none needs more:
/// growing a second time changes nothing and reports nothing.
pub proof fn growing_twice_grows_nothing(before: Seq<RenderLayer>, after: Seq<RenderLayer>)
    requires
        can_grow(before),
        after.len() == before.len(),
        forall|i: int, b: int|
            0 <= i < before.len() && 0 <= b < 3 ==> (#[trigger] after[i].vb@[b]) == grown_buffer(
                before[i].vb@[b],
            ),
    ensures
        can_grow(after),
        growths(after, after.len()) == Seq::<Growth>::empty(),
        forall|i: int, b: int|
            0 <= i < after.len() && 0 <= b < 3 ==> grown_buffer(#[trigger] after[i].vb@[b])
                == after[i].vb@[b],
{
    assert forall|i: int, b: int| 0 <= i < after.len() && 0 <= b < 3 implies (
    #[trigger] after[i].vb@[b]).next_quad <= after[i].vb@[b].capacity && (
    after[i].vb@[b].next_quad + QUAD_STEP) * INDICES_PER_CELL <= usize::MAX by {
        assert(after[i].vb@[b] == grown_buffer(before[i].vb@[b]));
        assert((before[i].vb@[b].next_quad + QUAD_STEP) * INDICES_PER_CELL <= usize::MAX);
    }
    lemma_no_growths(after, after.len());
}

proof fn lemma_no_growths(list: Seq<RenderLayer>, n: nat)
    requires
        n <= list.len(),
        forall|i: int, b: int|
            0 <= i < list.len() && 0 <= b < 3 ==> (#[trigger] list[i].vb@[b]).next_quad
                <= list[i].vb@[b].capacity,
    ensures
        growths(list, n) == Seq::<Growth>::empty(),
    decreases n,
{
    if n > 0 {
        lemma_no_growths(list, (n - 1) as nat);
        let vb = list[n - 1].vb@;
        reveal_with_fuel(layer_growths, 4);
        assert(list[n - 1].vb@[0].next_quad <= list[n - 1].vb@[0].capacity);
        assert(list[n - 1].vb@[1].next_quad <= list[n - 1].vb@[1].capacity);
        assert(list[n - 1].vb@[2].next_quad <= list[n - 1].vb@[2].capacity);
        assert(layer_growths(n - 1, vb, 3) =~= Seq::<Growth>::empty());
        assert(growths(list, n) =~= Seq::<Growth>::empty());
    }
}

// ---------------------------------------------------------------------------
// The texture atlas
// ---------------------------------------------------------------------------

/// Why the texture atlas could not be filled.
#[derive(Clone, Copy, Debug, PartialEq, Eq, Structural)]
pub enum AtlasError {
    /// It is too small; this size would do.
    NeedsSize(usize),
    /// No size would do.
    Impossible,
    Other,
}

/// What is done about a new atlas that could not be filled.
#[derive(Clone, Copy, Debug, PartialEq, Eq, Structural)]
pub enum AtlasStep {
    TryAgain(usize),
    GiveUp,
}

/// What is done where the first atlas could not be filled.
pub fn retry_first_atlas(error: AtlasError) -> (r: AtlasStep)
    ensures
        r == (match error {
            AtlasError::NeedsSize(size) => AtlasStep::TryAgain(size),
            _ => AtlasStep::GiveUp,
        }),
{
    match error {
        AtlasError::NeedsSize(size) => AtlasStep::TryAgain(size),
        _ => AtlasStep::GiveUp,
    }
}

/// What is said where no size of the atlas would do.
pub const IMPOSSIBLE_ATLAS: &'static str = "requested texture size is impossible!?";

/// Passes at making another texture atlas. If the user has selected a large font
/// size (or a large scaling factor) then the first pass will not be able to fit
/// the initial utility glyphs; rather than make every caller know how to deal
/// with that, it is absorbed here.
#[derive(Clone, Copy, Debug, PartialEq, Eq, Structural)]
pub struct AtlasRetry {
    pub size: Option<usize>,
    pub attempts: u32,
}

impl AtlasRetry {
    pub fn new(size: Option<usize>) -> (r: AtlasRetry)
        ensures
            r == (AtlasRetry { size, attempts: ATLAS_ATTEMPTS }),
    {
        AtlasRetry { size, attempts: ATLAS_ATTEMPTS }
    }

    /// The size of this pass.
    pub fn size_or(&self, current: usize) -> (r: usize)
        ensures
            r == (match self.size {
                Some(size) => size,
                None => current,
            }),
    {
        match self.size {
            Some(size) => size,
            None => current,
        }
    }

    /// Takes the error of a pass. Returns whether there is another one.
    pub fn failed(&mut self, error: AtlasError) -> (r: bool)
        requires
            old(self).attempts > 0,
        ensures
            r == (old(self).attempts > 1 && error is NeedsSize),
            final(self).attempts == old(self).attempts - 1,
            final(self).size == (match error {
                AtlasError::NeedsSize(size) => if r {
                    Some(size)
                } else {
                    old(self).size
                },
                _ => old(self).size,
            }),
    {
        self.attempts = self.attempts - 1;
        if self.attempts == 0 {
            return false;
        }
        match error {
            AtlasError::NeedsSize(size) => {
                self.size = Some(size);
                true
            },
            _ => false,
        }
    }
}

// ---------------------------------------------------------------------------
// Shaders
// ---------------------------------------------------------------------------

pub open spec fn all_glsl_versions() -> Seq<Seq<char>> {
    seq!["330 core"@, "330"@, "320 es"@, "300 es"@]
}

/// The versions with one of them first.
pub open spec fn versions_after(first: Seq<char>, n: nat) -> Seq<Seq<char>>
    decreases n,
{
    if n == 0 {
        seq![first]
    } else {
        let before = versions_after(first, (n - 1) as nat);
        if all_glsl_versions()[n - 1] != first {
            before.push(all_glsl_versions()[n - 1])
        } else {
            before
        }
    }
}

/// The order in which shader versions are tried: what worked last time first.
pub open spec fn version_order(cached: Option<Seq<char>>) -> Seq<Seq<char>> {
    match cached {
        Some(c) => if all_glsl_versions().contains(trimmed(c)) {
            versions_after(trimmed(c), 4)
        } else {
            all_glsl_versions()
        },
        None => all_glsl_versions(),
    }
}

fn glsl_version_list() -> (r: Vec<String>)
    ensures
        views(r@) == all_glsl_versions(),
{
    let mut all: Vec<String> = Vec::new();
    all.push("330 core".to_owned());
    all.push("330".to_owned());
    all.push("320 es".to_owned());
    all.push("300 es".to_owned());
    assert(views(all@) =~= all_glsl_versions());
    all
}

/// The order in which shader versions are tried: what worked last time first.
pub fn glsl_versions(cached: Option<&str>) -> (r: Vec<String>)
    ensures
        views(r@) == version_order(opt_str(cached)),
{
    let all = glsl_version_list();
    if let Some(text) = cached {
        let first = trim(text);
        if crate::text::contains_string(&all, first.as_str()) {
            let mut out: Vec<String> = Vec::new();
            out.push(first.clone());
            assert(views(out@) =~= versions_after(first@, 0));
            let mut i: usize = 0;
            while i < all.len()
                invariant
                    i <= all.len() == 4,
                    views(all@) == all_glsl_versions(),
                    views(out@) == versions_after(first@, i as nat),
                decreases all.len() - i,
            {
                assert(all_glsl_versions()[i as int] == all@[i as int]@);
                if !same(all[i].as_str(), first.as_str()) {
                    let ghost before = views(out@);
                    out.push(all[i].clone());
                    assert(views(out@) =~= before.push(all@[i as int]@));
                }
                i += 1;
            }
            return out;
        }
    }
    all
}

/// Every version is tried once, whatever worked last time.
pub proof fn every_shader_version_is_tried(cached: Option<Seq<char>>)
    ensures
        version_order(cached).len() == 4,
        version_order(cached).no_duplicates(),
        forall|v: Seq<char>|
            all_glsl_versions().contains(v) ==> #[trigger] version_order(cached).contains(v),
{
    reveal_strlit("330 core");
    reveal_strlit("330");
    reveal_strlit("320 es");
    reveal_strlit("300 es");
    let all = all_glsl_versions();
    assert(all[0].len() == 8 && all[1].len() == 3);
    assert(all[2][1] == '2' && all[3][1] == '0');
    let order = version_order(cached);
    if cached is Some && all.contains(trimmed(cached->0)) {
        let first = trimmed(cached->0);
        let k = choose|k: int| 0 <= k < all.len() && all[k] == first;
        reveal_with_fuel(versions_after, 5);
        let target = if k == 0 {
            seq![all[0], all[1], all[2], all[3]]
        } else if k == 1 {
            seq![all[1], all[0], all[2], all[3]]
        } else if k == 2 {
            seq![all[2], all[0], all[1], all[3]]
        } else {
            seq![all[3], all[0], all[1], all[2]]
        };
        assert(order =~= target);
        assert forall|v: Seq<char>| all.contains(v) implies #[trigger] order.contains(v) by {
            let i = choose|i: int| 0 <= i < all.len() && all[i] == v;
            assert(order[0] == v || order[1] == v || order[2] == v || order[3] == v);
        }
    }
}

/// A shader's source for a version.
pub fn shader_source(version: &str, body: &str) -> (r: String)
    ensures
        r@ == "#version "@ + version@ + "\n"@ + body@,
{
    concat4("#version ", version, "\n", body)
}

/// What is said of a version that did not compile.
pub fn shader_error(version: &str, error: &str) -> (r: String)
    ensures
        r@ == "shader version: "@ + version@ + ": "@ + error@,
{
    concat4("shader version: ", version, ": ", error)
}

/// What is said where no version compiles.
pub fn shaders_failed(errors: &Vec<String>) -> (r: String)
    ensures
        r@ == "Failed to compile shaders: "@ + joined(views(errors@), "\n"@),
{
    let list = join(errors, "\n");
    concat2("Failed to compile shaders: ", list.as_str())
}

} // verus!
