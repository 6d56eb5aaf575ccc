//! Chunk buffers and the generated-chunk registry.
//!
//! A chunk is a rectangular tile buffer keyed by an integer chunk
//! coordinate; each cell holds the tile id (biome index) the
//! sampler-classifier-picker pipeline assigns to its world coordinate. The
//! registry tracks which chunks exist, plans which coordinates to generate
//! around a viewer, and tears down chunks beyond the unload radius
//! (`unload_radius > load_radius` gives hysteresis against boundary
//! thrashing).

use vstd::prelude::*;

use crate::biome::biome_index_spec;
use crate::climate::Point;
use crate::climate::RawClimate;
use crate::climate::point_spec;
use crate::picker::pick_biome;
use crate::picker::pick_biome_spec;

verus! {

/// World tile coordinate of a local chunk cell on one axis.
pub open spec fn world_coord_spec(c: int, dim: int, local: int) -> int {
    c * dim + local
}

/// World tile coordinate of a local chunk cell on one axis.
pub fn world_coord(c: i32, dim: u32, local: u32) -> (w: i32)
    requires
        local < dim,
        i32::MIN <= c * dim,
        c * dim + dim - 1 <= i32::MAX,
    ensures
        w == world_coord_spec(c as int, dim as int, local as int),
{
    ((c as i64) * (dim as i64) + (local as i64)) as i32
}

/// The tile id of cell `k` (row-major) of a chunk at `(cx, cy)` with the
/// given per-cell raw climate samples.
pub open spec fn chunk_tile_spec(
    cx: int,
    cy: int,
    w: int,
    h: int,
    samples: Seq<RawClimate>,
    k: int,
) -> u32 {
    biome_index_spec(
        pick_biome_spec(
            point_spec(
                world_coord_spec(cx, w, k % w),
                world_coord_spec(cy, h, k / w),
                samples[k],
            ),
        ),
    ) as u32
}

/// The whole tile buffer of a chunk, row-major.
pub open spec fn chunk_tiles_spec(
    cx: int,
    cy: int,
    w: int,
    h: int,
    samples: Seq<RawClimate>,
) -> Seq<u32> {
    Seq::new((w * h) as nat, |k: int| chunk_tile_spec(cx, cy, w, h, samples, k))
}

/// Regenerating a chunk from the same coordinate, dimensions and samples
/// yields an identical tile buffer: the buffer is a function of those
/// inputs alone, never of when or how often it is built.
pub proof fn lemma_chunk_regeneration_deterministic(
    a: Chunk,
    b: Chunk,
    cx: int,
    cy: int,
    w: int,
    h: int,
    samples: Seq<RawClimate>,
)
    requires
        a.tiles@ == chunk_tiles_spec(cx, cy, w, h, samples),
        b.tiles@ == chunk_tiles_spec(cx, cy, w, h, samples),
    ensures
        a.tiles@ == b.tiles@,
{
}

/// Both offsets lie within Chebyshev radius `r` of the origin.
pub open spec fn in_square(a: int, b: int, r: int) -> bool {
    -r <= a <= r && -r <= b <= r
}

/// No offset occurs twice.
pub open spec fn distinct_offsets(s: Seq<(i32, i32)>) -> bool {
    forall|i: int, j: int| 0 <= i < j < s.len() ==> s[i] != s[j]
}

/// Appending an unseen offset keeps a sequence free of repeats.
proof fn lemma_distinct_push(s: Seq<(i32, i32)>, p: (i32, i32))
    requires
        distinct_offsets(s),
        !s.contains(p),
    ensures
        distinct_offsets(s.push(p)),
{
    assert forall|i: int, j: int| 0 <= i < j < s.push(p).len() implies s.push(p)[i] != s.push(p)[j]
    by {
        if j < s.len() {
            assert(s[i] != s[j]);
        } else {
            assert(s.push(p)[j] == p);
            if s[i] == p {
                assert(s.contains(p));
            }
        }
    }
}

/// The offsets of the square neighborhood of Chebyshev radius `radius`
/// around the origin: the center first, then each ring outward, so nearer
/// chunks come earlier. Every offset of the square appears exactly once.
pub fn spiral_offsets(radius: i32) -> (v: Vec<(i32, i32)>)
    requires
        0 <= radius <= 10000,
    ensures
        v@.len() == (2 * radius + 1) * (2 * radius + 1),
        distinct_offsets(v@),
        forall|q: (i32, i32)| #[trigger]
            v@.contains(q) <==> in_square(q.0 as int, q.1 as int, radius as int),
        v@[0] == (0i32, 0i32),
        forall|i: int, j: int|
            0 <= i <= j < v@.len() ==> cheb_dist((#[trigger] v@[i]).0 as int, v@[i].1 as int, 0, 0)
                <= cheb_dist((#[trigger] v@[j]).0 as int, v@[j].1 as int, 0, 0),
{
    let mut out: Vec<(i32, i32)> = Vec::new();
    let ghost pre0 = out@;
    out.push((0, 0));
    proof {
        lemma_distinct_push(pre0, (0i32, 0i32));
        assert forall|q: (i32, i32)| #[trigger]
            out@.contains(q) <==> in_square(q.0 as int, q.1 as int, 0) by {
            vstd::seq_lib::lemma_seq_contains_after_push(pre0, (0i32, 0i32), q);
        }
        assert((2 * (1 - 1) + 1) * (2 * (1 - 1) + 1) == 1int) by (nonlinear_arith);
    }
    let mut r: i32 = 1;
    while r <= radius
        invariant
            1 <= r <= radius + 1,
            radius <= 10000,
            out@.len() == (2 * (r - 1) + 1) * (2 * (r - 1) + 1),
            distinct_offsets(out@),
            forall|q: (i32, i32)| #[trigger]
                out@.contains(q) <==> in_square(q.0 as int, q.1 as int, r - 1),
            out@[0] == (0i32, 0i32),
            forall|i: int|
                0 <= i < out@.len() ==> cheb_dist(
                    (#[trigger] out@[i]).0 as int,
                    out@[i].1 as int,
                    0,
                    0,
                ) <= r - 1,
            forall|i: int, j: int|
                0 <= i <= j < out@.len() ==> cheb_dist(
                    (#[trigger] out@[i]).0 as int,
                    out@[i].1 as int,
                    0,
                    0,
                ) <= cheb_dist((#[trigger] out@[j]).0 as int, out@[j].1 as int, 0, 0),
        decreases radius + 1 - r,
    {
        let ghost ring_base = out@.len();
        proof {
            assert(ring_base >= 1) by (nonlinear_arith)
                requires
                    ring_base == (2 * (r - 1) + 1) * (2 * (r - 1) + 1),
                    r >= 1,
            ;
        }
        // bottom edge: left to right along y == -r
        let mut x: i32 = -r;
        while x <= r
            invariant
                1 <= r <= radius <= 10000,
                -r <= x <= r + 1,
                out@.len() == ring_base + (x + r),
                ring_base == (2 * (r - 1) + 1) * (2 * (r - 1) + 1),
                ring_base >= 1,
                distinct_offsets(out@),
                forall|i: int|
                    0 <= i < out@.len() ==> cheb_dist(
                        (#[trigger] out@[i]).0 as int,
                        out@[i].1 as int,
                        0,
                        0,
                    ) <= r,
                forall|i: int, j: int|
                    0 <= i <= j < out@.len() ==> cheb_dist(
                        (#[trigger] out@[i]).0 as int,
                        out@[i].1 as int,
                        0,
                        0,
                    ) <= cheb_dist((#[trigger] out@[j]).0 as int, out@[j].1 as int, 0, 0),
                forall|q: (i32, i32)| #[trigger]
                    out@.contains(q) <==> (in_square(q.0 as int, q.1 as int, r - 1) || (q.1 == -r
                        && -r <= q.0 < x)),
                out@[0] == (0i32, 0i32),
            decreases r + 1 - x,
        {
            let p = (x, -r);
            let ghost pre = out@;
            proof {
                assert(!pre.contains(p));
                lemma_distinct_push(pre, p);
            }
            out.push(p);
            proof {
                assert forall|q: (i32, i32)| #[trigger]
                    out@.contains(q) <==> (in_square(q.0 as int, q.1 as int, r - 1) || (q.1 == -r
                        && -r <= q.0 < x + 1)) by {
                    vstd::seq_lib::lemma_seq_contains_after_push(pre, p, q);
                }
            }
            x += 1;
        }
        // right edge: bottom to top along x == r
        let mut y: i32 = -r + 1;
        while y <= r
            invariant
                1 <= r <= radius <= 10000,
                -r + 1 <= y <= r + 1,
                out@.len() == ring_base + (2 * r + 1) + (y + r - 1),
                ring_base == (2 * (r - 1) + 1) * (2 * (r - 1) + 1),
                ring_base >= 1,
                distinct_offsets(out@),
                forall|i: int|
                    0 <= i < out@.len() ==> cheb_dist(
                        (#[trigger] out@[i]).0 as int,
                        out@[i].1 as int,
                        0,
                        0,
                    ) <= r,
                forall|i: int, j: int|
                    0 <= i <= j < out@.len() ==> cheb_dist(
                        (#[trigger] out@[i]).0 as int,
                        out@[i].1 as int,
                        0,
                        0,
                    ) <= cheb_dist((#[trigger] out@[j]).0 as int, out@[j].1 as int, 0, 0),
                forall|q: (i32, i32)| #[trigger]
                    out@.contains(q) <==> (in_square(q.0 as int, q.1 as int, r - 1) || (q.1 == -r
                        && -r <= q.0 <= r) || (q.0 == r && -r < q.1 < y)),
                out@[0] == (0i32, 0i32),
            decreases r + 1 - y,
        {
            let p = (r, y);
            let ghost pre = out@;
            proof {
                assert(!pre.contains(p));
                lemma_distinct_push(pre, p);
            }
            out.push(p);
            proof {
                assert forall|q: (i32, i32)| #[trigger]
                    out@.contains(q) <==> (in_square(q.0 as int, q.1 as int, r - 1) || (q.1 == -r
                        && -r <= q.0 <= r) || (q.0 == r && -r < q.1 < y + 1)) by {
                    vstd::seq_lib::lemma_seq_contains_after_push(pre, p, q);
                }
            }
            y += 1;
        }
        // top edge: right to left along y == r
        let mut x2: i32 = r - 1;
        while x2 >= -r
            invariant
                1 <= r <= radius <= 10000,
                -r - 1 <= x2 <= r - 1,
                out@.len() == ring_base + (4 * r + 1) + (r - 1 - x2),
                ring_base == (2 * (r - 1) + 1) * (2 * (r - 1) + 1),
                ring_base >= 1,
                distinct_offsets(out@),
                forall|i: int|
                    0 <= i < out@.len() ==> cheb_dist(
                        (#[trigger] out@[i]).0 as int,
                        out@[i].1 as int,
                        0,
                        0,
                    ) <= r,
                forall|i: int, j: int|
                    0 <= i <= j < out@.len() ==> cheb_dist(
                        (#[trigger] out@[i]).0 as int,
                        out@[i].1 as int,
                        0,
                        0,
                    ) <= cheb_dist((#[trigger] out@[j]).0 as int, out@[j].1 as int, 0, 0),
                forall|q: (i32, i32)| #[trigger]
                    out@.contains(q) <==> (in_square(q.0 as int, q.1 as int, r - 1) || (q.1 == -r
                        && -r <= q.0 <= r) || (q.0 == r && -r < q.1 <= r) || (q.1 == r && x2 < q.0
                        < r)),
                out@[0] == (0i32, 0i32),
            decreases x2 + r + 1,
        {
            let p = (x2, r);
            let ghost pre = out@;
            proof {
                assert(!pre.contains(p));
                lemma_distinct_push(pre, p);
            }
            out.push(p);
            proof {
                assert forall|q: (i32, i32)| #[trigger]
                    out@.contains(q) <==> (in_square(q.0 as int, q.1 as int, r - 1) || (q.1 == -r
                        && -r <= q.0 <= r) || (q.0 == r && -r < q.1 <= r) || (q.1 == r && x2 - 1
                        < q.0 < r)) by {
                    vstd::seq_lib::lemma_seq_contains_after_push(pre, p, q);
                }
            }
            x2 -= 1;
        }
        // left edge: top to bottom along x == -r
        let mut y2: i32 = r - 1;
        while y2 >= -r + 1
            invariant
                1 <= r <= radius <= 10000,
                -r <= y2 <= r - 1,
                out@.len() == ring_base + (6 * r + 1) + (r - 1 - y2),
                ring_base == (2 * (r - 1) + 1) * (2 * (r - 1) + 1),
                ring_base >= 1,
                distinct_offsets(out@),
                forall|i: int|
                    0 <= i < out@.len() ==> cheb_dist(
                        (#[trigger] out@[i]).0 as int,
                        out@[i].1 as int,
                        0,
                        0,
                    ) <= r,
                forall|i: int, j: int|
                    0 <= i <= j < out@.len() ==> cheb_dist(
                        (#[trigger] out@[i]).0 as int,
                        out@[i].1 as int,
                        0,
                        0,
                    ) <= cheb_dist((#[trigger] out@[j]).0 as int, out@[j].1 as int, 0, 0),
                forall|q: (i32, i32)| #[trigger]
                    out@.contains(q) <==> (in_square(q.0 as int, q.1 as int, r - 1) || (q.1 == -r
                        && -r <= q.0 <= r) || (q.0 == r && -r < q.1 <= r) || (q.1 == r && -r
                        <= q.0 < r) || (q.0 == -r && y2 < q.1 < r)),
                out@[0] == (0i32, 0i32),
            decreases y2 + r,
        {
            let p = (-r, y2);
            let ghost pre = out@;
            proof {
                assert(!pre.contains(p));
                lemma_distinct_push(pre, p);
            }
            out.push(p);
            proof {
                assert forall|q: (i32, i32)| #[trigger]
                    out@.contains(q) <==> (in_square(q.0 as int, q.1 as int, r - 1) || (q.1 == -r
                        && -r <= q.0 <= r) || (q.0 == r && -r < q.1 <= r) || (q.1 == r && -r
                        <= q.0 < r) || (q.0 == -r && y2 - 1 < q.1 < r)) by {
                    vstd::seq_lib::lemma_seq_contains_after_push(pre, p, q);
                }
            }
            y2 -= 1;
        }
        proof {
            assert(out@.len() == (2 * r + 1) * (2 * r + 1)) by (nonlinear_arith)
                requires
                    out@.len() == ring_base + (6 * r + 1) + (r - 1 - y2),
                    y2 == -r,
                    ring_base == (2 * (r - 1) + 1) * (2 * (r - 1) + 1),
            ;
        }
        r += 1;
    }
    out
}

/// A generated chunk: its coordinate, its declared dimensions, and its
/// row-major tile buffer.
#[derive(Debug)]
pub struct Chunk {
    pub x: i32,
    pub y: i32,
    pub width: u32,
    pub height: u32,
    pub tiles: Vec<u32>,
}

impl Chunk {
    /// The tile buffer size always equals the declared width times height.
    pub open spec fn wf(self) -> bool {
        self.tiles@.len() == self.width * self.height
    }

    /// Materialize the chunk at `(cx, cy)` from the raw climate samples of
    /// its cells, row-major. The buffer is a pure function of the inputs:
    /// regenerating with the same samples yields an identical buffer.
    pub fn from_samples(cx: i32, cy: i32, width: u32, height: u32, samples: &Vec<RawClimate>) -> (c:
        Chunk)
        requires
            samples@.len() == width * height,
            width * height <= usize::MAX,
            i32::MIN <= cx * width,
            cx * width + width - 1 <= i32::MAX,
            i32::MIN <= cy * height,
            cy * height + height - 1 <= i32::MAX,
        ensures
            c.x == cx,
            c.y == cy,
            c.width == width,
            c.height == height,
            c.tiles@ == chunk_tiles_spec(
                cx as int,
                cy as int,
                width as int,
                height as int,
                samples@,
            ),
            c.wf(),
    {
        let total: usize = (width as usize) * (height as usize);
        let mut tiles: Vec<u32> = Vec::new();
        for k in 0..total
            invariant
                total == width * height,
                samples@.len() == total,
                i32::MIN <= cx * width,
                cx * width + width - 1 <= i32::MAX,
                i32::MIN <= cy * height,
                cy * height + height - 1 <= i32::MAX,
                tiles@.len() == k,
                forall|j: int|
                    0 <= j < k ==> tiles@[j] == chunk_tile_spec(
                        cx as int,
                        cy as int,
                        width as int,
                        height as int,
                        samples@,
                        j,
                    ),
        {
            assert(width > 0) by {
                assert(k < width * height);
            }
            let lx = k % (width as usize);
            let ly = k / (width as usize);
            assert(ly < height) by {
                vstd::arithmetic::div_mod::lemma_fundamental_div_mod(k as int, width as int);
                assert(k < width * height);
                assert(ly * width < height * width) by {
                    assert(k == width * (ly as int) + (k as int) % (width as int));
                    vstd::arithmetic::mul::lemma_mul_is_commutative(width as int, ly as int);
                    vstd::arithmetic::mul::lemma_mul_is_commutative(width as int, height as int);
                }
                vstd::arithmetic::mul::lemma_mul_strict_inequality_converse(
                    ly as int,
                    height as int,
                    width as int,
                );
            }
            let wx = world_coord(cx, width, lx as u32);
            let wy = world_coord(cy, height, ly as u32);
            let p = Point::new(wx, wy, samples[k]);
            let b = pick_biome(&p);
            tiles.push(b.index());
        }
        let c = Chunk { x: cx, y: cy, width, height, tiles };
        proof {
            assert(c.tiles@ =~= chunk_tiles_spec(
                cx as int,
                cy as int,
                width as int,
                height as int,
                samples@,
            ));
        }
        c
    }
}

} // verus!

use vstd::prelude::*;

verus! {

/// Chebyshev distance between two chunk coordinates.
pub open spec fn cheb_dist(ax: int, ay: int, bx: int, by: int) -> int {
    let dx = vstd::math::abs(ax - bx) as int;
    let dy = vstd::math::abs(ay - by) as int;
    if dx >= dy {
        dx
    } else {
        dy
    }
}

/// Chebyshev distance between two chunk coordinates.
pub fn chebyshev_distance(ax: i32, ay: i32, bx: i32, by: i32) -> (d: i64)
    ensures
        d == cheb_dist(ax as int, ay as int, bx as int, by as int),
{
    let dxr: i64 = ax as i64 - bx as i64;
    let dx: i64 = if dxr < 0 {
        -dxr
    } else {
        dxr
    };
    let dyr: i64 = ay as i64 - by as i64;
    let dy: i64 = if dyr < 0 {
        -dyr
    } else {
        dyr
    };
    if dx >= dy {
        dx
    } else {
        dy
    }
}

/// The chunks of `s` whose coordinate lies within Chebyshev distance
/// `radius` of the viewer chunk `(vx, vy)`, in their original order.
pub open spec fn chunks_within(s: Seq<Chunk>, vx: int, vy: int, radius: int) -> Seq<Chunk> {
    s.filter(|c: Chunk| cheb_dist(c.x as int, c.y as int, vx, vy) <= radius)
}

/// The generated-chunk registry: which chunk coordinates currently exist,
/// and their tile buffers. Only the maintenance step mutates it.
pub struct ChunkManager {
    entries: Vec<Chunk>,
}

impl View for ChunkManager {
    type V = Seq<Chunk>;

    closed spec fn view(&self) -> Seq<Chunk> {
        self.entries@
    }
}

/// No two chunks of the sequence share a coordinate.
pub open spec fn distinct_coords(s: Seq<Chunk>) -> bool {
    forall|i: int, j: int|
        0 <= i < j < s.len() ==> !((#[trigger] s[i]).x == (#[trigger] s[j]).x && s[i].y == s[j].y)
}

impl ChunkManager {
    /// A coordinate is registered at most once.
    pub open spec fn wf(self) -> bool {
        distinct_coords(self@)
    }

    /// Every registered chunk's buffer matches its declared dimensions.
    pub open spec fn all_wf(self) -> bool {
        forall|i: int| 0 <= i < self@.len() ==> (#[trigger] self@[i]).wf()
    }

    /// A chunk at `(x, y)` is registered.
    pub open spec fn has_coord(self, x: int, y: int) -> bool {
        exists|i: int|
            0 <= i < self@.len() && (#[trigger] self@[i]).x == x && self@[i].y == y
    }

    /// An empty registry.
    pub fn new() -> (m: ChunkManager)
        ensures
            m@.len() == 0,
            m.wf(),
            m.all_wf(),
    {
        ChunkManager { entries: Vec::new() }
    }

    /// How many chunks are registered.
    pub fn len(&self) -> (n: usize)
        ensures
            n == self@.len(),
    {
        self.entries.len()
    }

    /// The registered chunk at a registry position.
    pub fn entry_at(&self, i: usize) -> (c: &Chunk)
        requires
            i < self@.len(),
        ensures
            *c == self@[i as int],
    {
        &self.entries[i]
    }

    /// Whether the chunk at `(x, y)` has been generated.
    pub fn is_generated(&self, x: i32, y: i32) -> (b: bool)
        ensures
            b == self.has_coord(x as int, y as int),
    {
        let n = self.entries.len();
        for i in 0..n
            invariant
                n == self@.len(),
                forall|j: int| 0 <= j < i ==> !((#[trigger] self@[j]).x == x && self@[j].y == y),
        {
            if self.entries[i].x == x && self.entries[i].y == y {
                return true;
            }
        }
        false
    }

    /// The registered chunk at `(x, y)`, if any.
    pub fn get(&self, x: i32, y: i32) -> (r: Option<&Chunk>)
        ensures
            r is Some <==> self.has_coord(x as int, y as int),
            r matches Some(c) ==> c.x == x && c.y == y && self@.contains(*c),
    {
        let n = self.entries.len();
        for i in 0..n
            invariant
                n == self@.len(),
                forall|j: int| 0 <= j < i ==> !((#[trigger] self@[j]).x == x && self@[j].y == y),
        {
            if self.entries[i].x == x && self.entries[i].y == y {
                return Some(&self.entries[i]);
            }
        }
        None
    }

    /// Plan the load half of a maintenance tick: every coordinate within
    /// Chebyshev `load_radius` of the viewer chunk that is not yet
    /// registered, nearest rings first, each exactly once. The viewer bound
    /// only keeps the coordinate arithmetic inside `i32`.
    #[verifier::loop_isolation(false)]
    pub fn plan_loads(&self, viewer_x: i32, viewer_y: i32, load_radius: i32) -> (out: Vec<
        (i32, i32),
    >)
        requires
            0 <= load_radius <= 10000,
            -1_000_000 <= viewer_x <= 1_000_000,
            -1_000_000 <= viewer_y <= 1_000_000,
        ensures
            distinct_offsets(out@),
            forall|q: (i32, i32)| #[trigger]
                out@.contains(q) <==> (in_square(
                    q.0 - viewer_x,
                    q.1 - viewer_y,
                    load_radius as int,
                ) && !self.has_coord(q.0 as int, q.1 as int)),
            self@.len() == 0 ==> out@.len() == (2 * load_radius + 1) * (2 * load_radius + 1),
    {
        let offs = spiral_offsets(load_radius);
        let n = offs.len();
        let mut out: Vec<(i32, i32)> = Vec::new();
        for i in 0..n
            invariant
                distinct_offsets(out@),
                forall|q: (i32, i32)| #[trigger]
                    out@.contains(q) ==> exists|k: int|
                        0 <= k < i && q.0 == #[trigger] offs@[k].0 + viewer_x && q.1 == offs@[k].1
                            + viewer_y && !self.has_coord(q.0 as int, q.1 as int),
                forall|k: int|
                    0 <= k < i ==> self.has_coord(
                        #[trigger] offs@[k].0 + viewer_x,
                        offs@[k].1 + viewer_y,
                    ) || out@.contains(((offs@[k].0 + viewer_x) as i32, (offs@[k].1 + viewer_y) as i32)),
                self@.len() == 0 ==> out@.len() == i,
        {
            let off = offs[i];
            proof {
                assert(offs@.contains(offs@[i as int]));
            }
            let cx = viewer_x + off.0;
            let cy = viewer_y + off.1;
            if !self.is_generated(cx, cy) {
                let ghost pre = out@;
                proof {
                    if pre.contains((cx, cy)) {
                        let k = choose|k: int|
                            0 <= k < i && cx == #[trigger] offs@[k].0 + viewer_x && cy == offs@[k].1
                                + viewer_y && !self.has_coord(cx as int, cy as int);
                        assert(offs@[k] == offs@[i as int]);
                        assert(false);
                    }
                    lemma_distinct_push(pre, (cx, cy));
                }
                out.push((cx, cy));
                proof {
                    assert forall|q: (i32, i32)| #[trigger] out@.contains(q) implies pre.contains(q)
                        || q == (cx, cy) by {
                        vstd::seq_lib::lemma_seq_contains_after_push(pre, (cx, cy), q);
                    }
                    assert(out@.contains((cx, cy))) by {
                        vstd::seq_lib::lemma_seq_contains_after_push(pre, (cx, cy), (cx, cy));
                    }
                    assert forall|q: (i32, i32)| pre.contains(q) implies #[trigger] out@.contains(
                        q,
                    ) by {
                        vstd::seq_lib::lemma_seq_contains_after_push(pre, (cx, cy), q);
                    }
                }
            }
        }
        proof {
            assert forall|q: (i32, i32)| #[trigger]
                out@.contains(q) <==> (in_square(q.0 - viewer_x, q.1 - viewer_y, load_radius as int)
                && !self.has_coord(q.0 as int, q.1 as int)) by {
                if in_square(q.0 - viewer_x, q.1 - viewer_y, load_radius as int) && !self.has_coord(
                    q.0 as int,
                    q.1 as int,
                ) {
                    let o = (((q.0 - viewer_x) as i32), ((q.1 - viewer_y) as i32));
                    assert(offs@.contains(o));
                    let k = choose|k: int| 0 <= k < offs@.len() && offs@[k] == o;
                    assert(offs@[k].0 + viewer_x == q.0 && offs@[k].1 + viewer_y == q.1);
                }
                if out@.contains(q) {
                    let k = choose|k: int|
                        0 <= k < n && q.0 == #[trigger] offs@[k].0 + viewer_x && q.1 == offs@[k].1
                            + viewer_y && !self.has_coord(q.0 as int, q.1 as int);
                    assert(offs@.contains(offs@[k]));
                }
            }
        }
        out
    }

    /// The unload half of a maintenance tick: deregister every chunk whose
    /// coordinate lies beyond Chebyshev `unload_radius` of the viewer
    /// chunk; the rest stay, in order. With `unload_radius` above the load
    /// radius this gives hysteresis at the boundary.
    #[verifier::loop_isolation(false)]
    pub fn unload_far(&mut self, viewer_x: i32, viewer_y: i32, unload_radius: i32)
        requires
            old(self).wf(),
            unload_radius >= 0,
        ensures
            final(self).wf(),
            final(self)@ == chunks_within(
                old(self)@,
                viewer_x as int,
                viewer_y as int,
                unload_radius as int,
            ),
            forall|x: int, y: int|
                #[trigger] final(self).has_coord(x, y) <==> (old(self).has_coord(x, y)
                    && cheb_dist(x, y, viewer_x as int, viewer_y as int) <= unload_radius),
            old(self).all_wf() ==> final(self).all_wf(),
    {
        let ghost orig = self.entries@;
        let ghost pred = |c: Chunk|
            cheb_dist(c.x as int, c.y as int, viewer_x as int, viewer_y as int)
                <= unload_radius as int;
        let mut kept: Vec<Chunk> = Vec::new();
        let n = self.entries.len();
        proof {
            assert(orig.take(0).filter(pred) =~= Seq::<Chunk>::empty());
        }
        for i in 0..n
            invariant
                self.entries@ == orig.skip(i as int),
                kept@ == orig.take(i as int).filter(pred),
                distinct_coords(kept@),
                forall|j: int|
                    0 <= j < kept@.len() ==> exists|k: int|
                        0 <= k < i && #[trigger] kept@[j] == orig[k],
        {
            let c = self.entries.remove(0);
            proof {
                assert(c == orig[i as int]);
                assert(self.entries@ =~= orig.skip(i + 1));
                assert(orig.take(i + 1).drop_last() =~= orig.take(i as int));
                assert(orig.take(i + 1) == orig.take(i as int).push(orig[i as int]));
                orig.take(i as int).lemma_filter_push(orig[i as int], pred);
            }
            let keep = chebyshev_distance(c.x, c.y, viewer_x, viewer_y) <= unload_radius as i64;
            if keep {
                let ghost prek = kept@;
                proof {
                    assert(pred(c));
                    assert forall|j: int| 0 <= j < prek.len() implies !((#[trigger] prek[j]).x
                        == c.x && prek[j].y == c.y) by {
                        let k = choose|k: int| 0 <= k < i && #[trigger] prek[j] == orig[k];
                        assert(!(orig[k].x == orig[i as int].x && orig[k].y == orig[i as int].y));
                    }
                }
                kept.push(c);
                proof {
                    assert forall|j: int| 0 <= j < kept@.len() implies exists|k: int|
                        0 <= k < i + 1 && #[trigger] kept@[j] == orig[k] by {
                        if j < prek.len() {
                            let k = choose|k: int| 0 <= k < i && #[trigger] prek[j] == orig[k];
                            assert(kept@[j] == orig[k]);
                        } else {
                            assert(kept@[j] == orig[i as int]);
                        }
                    }
                }
            } else {
                proof {
                    assert(!pred(c));
                }
            }
        }
        proof {
            assert(orig.take(n as int) =~= orig);
        }
        self.entries = kept;
        proof {
            if old(self).all_wf() {
                assert forall|i: int| 0 <= i < self@.len() implies (#[trigger] self@[i]).wf() by {
                    orig.lemma_filter_pred(pred, i);
                    orig.lemma_filter_contains_rev(pred, self@[i]);
                    let k = choose|k: int| 0 <= k < orig.len() && orig[k] == self@[i];
                    assert(orig[k].wf());
                }
            }
            assert forall|x: int, y: int|
                #[trigger] self.has_coord(x, y) <==> (old(self).has_coord(x, y) && cheb_dist(
                    x,
                    y,
                    viewer_x as int,
                    viewer_y as int,
                ) <= unload_radius) by {
                if self.has_coord(x, y) {
                    let i = choose|i: int|
                        0 <= i < self@.len() && (#[trigger] self@[i]).x == x && self@[i].y == y;
                    orig.lemma_filter_pred(pred, i);
                    let e = self@[i];
                    orig.lemma_filter_contains_rev(pred, e);
                    let k = choose|k: int| 0 <= k < orig.len() && orig[k] == e;
                    assert(old(self)@[k].x == x && old(self)@[k].y == y);
                }
                if old(self).has_coord(x, y) && cheb_dist(x, y, viewer_x as int, viewer_y as int)
                    <= unload_radius {
                    let i = choose|i: int|
                        0 <= i < orig.len() && (#[trigger] orig[i]).x == x && orig[i].y == y;
                    orig.lemma_filter_contains(pred, i);
                    let e = orig[i];
                    let k = choose|k: int| 0 <= k < self@.len() && self@[k] == e;
                    assert(self@[k].x == x && self@[k].y == y);
                }
            }
        }
    }

    /// The load plan of a maintenance tick when a viewer may not exist
    /// yet: without one, maintenance is deferred work, not an error, and
    /// nothing is planned.
    pub fn plan_loads_for_viewer(&self, viewer: Option<(i32, i32)>, load_radius: i32) -> (out: Vec<
        (i32, i32),
    >)
        requires
            0 <= load_radius <= 10000,
            viewer matches Some(v) ==> -1_000_000 <= v.0 <= 1_000_000 && -1_000_000 <= v.1
                <= 1_000_000,
        ensures
            viewer is None ==> out@.len() == 0,
            viewer matches Some(v) ==> distinct_offsets(out@) && (forall|q: (i32, i32)| #[trigger]
                out@.contains(q) <==> (in_square(
                    q.0 - v.0,
                    q.1 - v.1,
                    load_radius as int,
                ) && !self.has_coord(q.0 as int, q.1 as int))),
    {
        match viewer {
            None => Vec::new(),
            Some((vx, vy)) => self.plan_loads(vx, vy, load_radius),
        }
    }

    /// The unload half of a maintenance tick when a viewer may not exist
    /// yet: without one, nothing is torn down.
    pub fn unload_far_for_viewer(&mut self, viewer: Option<(i32, i32)>, unload_radius: i32)
        requires
            old(self).wf(),
            unload_radius >= 0,
        ensures
            final(self).wf(),
            viewer is None ==> final(self)@ == old(self)@,
            viewer matches Some(v) ==> final(self)@ == chunks_within(
                old(self)@,
                v.0 as int,
                v.1 as int,
                unload_radius as int,
            ),
            old(self).all_wf() ==> final(self).all_wf(),
    {
        match viewer {
            None => {
            },
            Some((vx, vy)) => self.unload_far(vx, vy, unload_radius),
        }
    }

    /// Register a newly generated chunk; the coordinate must not be
    /// registered yet.
    pub fn insert(&mut self, chunk: Chunk)
        requires
            old(self).wf(),
            !old(self).has_coord(chunk.x as int, chunk.y as int),
        ensures
            final(self).wf(),
            final(self)@ == old(self)@.push(chunk),
            old(self).all_wf() && chunk.wf() ==> final(self).all_wf(),
    {
        proof {
            assert forall|i: int| 0 <= i < self@.len() implies !((#[trigger] self@[i]).x == chunk.x
                && self@[i].y == chunk.y) by {
                if self@[i].x == chunk.x && self@[i].y == chunk.y {
                    assert(old(self).has_coord(chunk.x as int, chunk.y as int));
                }
            }
        }
        self.entries.push(chunk);
    }
}

} // verus!
