//! The tile constraint solver: arc-consistency propagation with
//! minimum-remaining-values observation over a declared tile alphabet.
//!
//! Each grid cell holds a domain, the set of variant indices still
//! possible. Priors narrow cells before solving; propagation removes from a
//! neighbor's domain every variant without a compatible counterpart in the
//! current cell's domain, failing with the neighbor's coordinate the moment
//! a domain empties; observation repeatedly collapses the cell with the
//! fewest (more than one) remaining candidates to one of them, drawn
//! uniformly from a seeded generator, and re-propagates. Socket weights are
//! declared data that this selection step deliberately does not sample by:
//! the draw is uniform, and weighted sampling remains an open product
//! decision. The solver never backtracks: callers retry with a new seed.

use vstd::prelude::*;

use std::collections::VecDeque;

use crate::tileset::CompatibilityMatrix;
use crate::tileset::Direction;
use crate::tileset::dx_spec;
use crate::tileset::dy_spec;

verus! {

/// An unsatisfiable local configuration: the domain of the cell at `at`
/// became empty during propagation.
#[derive(Clone, Copy, Debug, PartialEq, Eq)]
pub struct Contradiction {
    pub at: (usize, usize),
}

/// Declares rand's `StdRng` so a solver run can hold its own seeded
/// random stream; the value is opaque here.
#[verifier::external_type_specification]
#[verifier::external_body]
pub struct ExStdRng(rand::rngs::StdRng);

/// Relies on rand's `SeedableRng::seed_from_u64` for `StdRng`: builds a
/// generator whose stream is determined by the seed.
#[verifier::external_body]
fn rng_from_seed(seed: u64) -> rand::rngs::StdRng {
    rand::SeedableRng::seed_from_u64(seed)
}

/// Relies on rand's `Rng::gen_range` over the half-open range below `n`:
/// returns a uniform draw below the bound. An empty range would panic, so
/// the bound must be positive.
#[verifier::external_body]
fn rng_below(rng: &mut rand::rngs::StdRng, n: usize) -> (r: usize)
    requires
        n > 0,
    ensures
        r < n,
{
    rand::Rng::gen_range(rng, 0..n)
}

/// Row-major cell index of a grid coordinate.
pub open spec fn cell_of(w: int, x: int, y: int) -> int {
    y * w + x
}

pub open spec fn in_grid(w: int, h: int, x: int, y: int) -> bool {
    0 <= x < w && 0 <= y < h
}

/// Distinct in-grid coordinates occupy distinct cells.
proof fn lemma_cell_of_injective(w: int, h: int, x1: int, y1: int, x2: int, y2: int)
    requires
        in_grid(w, h, x1, y1),
        in_grid(w, h, x2, y2),
        cell_of(w, x1, y1) == cell_of(w, x2, y2),
    ensures
        x1 == x2 && y1 == y2,
{
    assert(x1 == x2 && y1 == y2) by (nonlinear_arith)
        requires
            0 <= x1 < w,
            0 <= x2 < w,
            y1 >= 0,
            y2 >= 0,
            y1 * w + x1 == y2 * w + x2,
    ;
}

/// A cell index is in range of the grid.
proof fn lemma_cell_of_in_range(w: int, h: int, x: int, y: int)
    requires
        in_grid(w, h, x, y),
    ensures
        0 <= cell_of(w, x, y) < w * h,
{
    assert(0 <= y * w + x < w * h) by (nonlinear_arith)
        requires
            0 <= x < w,
            0 <= y < h,
    ;
}

/// One domain vector per cell, each over the whole alphabet.
pub open spec fn dom_wf(dom: Seq<Vec<bool>>, w: int, h: int, n: int) -> bool {
    dom.len() == w * h && forall|k: int| 0 <= k < dom.len() ==> (#[trigger] dom[k])@.len() == n
}

pub open spec fn row_nonempty(row: Seq<bool>) -> bool {
    exists|t: int| 0 <= t < row.len() && row[t]
}

/// No cell's domain is empty.
pub open spec fn doms_nonempty(dom: Seq<Vec<bool>>) -> bool {
    forall|k: int| 0 <= k < dom.len() ==> row_nonempty((#[trigger] dom[k])@)
}

/// Every domain of `cur` is a subset of the one in `pre`: solving only
/// narrows.
pub open spec fn dom_shrunk(cur: Seq<Vec<bool>>, pre: Seq<Vec<bool>>) -> bool {
    &&& cur.len() == pre.len()
    &&& forall|k: int, t: int|
        #![trigger cur[k]@[t]]
        0 <= k < cur.len() && 0 <= t < cur[k]@.len() && cur[k]@[t] ==> pre[k]@[t]
}

/// Variant `j` has a compatible counterpart in the source row for
/// direction `d`.
pub open spec fn supports(cm: CompatibilityMatrix, src: Seq<bool>, d: Direction, j: int) -> bool {
    exists|i: int| 0 <= i < src.len() && src[i] && #[trigger] cm.compat(d, i, j)
}

/// The arc from `(x, y)` toward `d` is consistent: every variant still in
/// the neighbor's domain has a supporting variant in this cell's domain.
pub open spec fn arc_ok(
    cm: CompatibilityMatrix,
    dom: Seq<Vec<bool>>,
    w: int,
    h: int,
    x: int,
    y: int,
    d: Direction,
) -> bool {
    let nx = x + dx_spec(d);
    let ny = y + dy_spec(d);
    in_grid(w, h, nx, ny) ==> forall|j: int|
        0 <= j < dom[cell_of(w, nx, ny)]@.len() && (#[trigger] dom[cell_of(w, nx, ny)]@[j])
            ==> supports(cm, dom[cell_of(w, x, y)]@, d, j)
}

/// Every arc whose source cell is not pending in the work queue is
/// consistent.
pub open spec fn arcs_ok_except(
    cm: CompatibilityMatrix,
    dom: Seq<Vec<bool>>,
    w: int,
    h: int,
    q: Seq<(usize, usize)>,
) -> bool {
    forall|x: usize, y: usize, d: Direction|
        x < w && y < h && !q.contains((x, y)) ==> #[trigger] arc_ok(
            cm,
            dom,
            w,
            h,
            x as int,
            y as int,
            d,
        )
}

/// All queued cells lie in the grid.
pub open spec fn queue_wf(q: Seq<(usize, usize)>, w: int, h: int) -> bool {
    forall|i: int| 0 <= i < q.len() ==> (#[trigger] q[i]).0 < w && q[i].1 < h
}

/// Every ordered pair of variants is compatible in every direction.
pub open spec fn all_compatible(cm: CompatibilityMatrix) -> bool {
    forall|d: Direction, i: int, j: int|
        0 <= i < cm.n && 0 <= j < cm.n ==> #[trigger] cm.compat(d, i, j)
}

/// No ordered pair of variants is compatible in any direction.
pub open spec fn all_incompatible(cm: CompatibilityMatrix) -> bool {
    forall|d: Direction, i: int, j: int|
        0 <= i < cm.n && 0 <= j < cm.n ==> !(#[trigger] cm.compat(d, i, j))
}

/// Every variant has, for every direction, some variant that supports it;
/// a full domain then supports anything, which makes the untouched parts
/// of a fresh grid arc-consistent from the start.
pub open spec fn supported_in(cm: CompatibilityMatrix, d: Direction, j: int) -> bool {
    exists|i: int| 0 <= i < cm.n && #[trigger] cm.compat(d, i, j)
}

pub open spec fn fully_supported(cm: CompatibilityMatrix) -> bool {
    forall|d: Direction, j: int| 0 <= j < cm.n ==> #[trigger] supported_in(cm, d, j)
}

/// How many variants a domain row still allows.
pub open spec fn count_trues(s: Seq<bool>) -> nat
    decreases s.len(),
{
    if s.len() == 0 {
        0
    } else {
        count_trues(s.drop_last()) + if s.last() {
            1nat
        } else {
            0nat
        }
    }
}

proof fn lemma_count_pos(s: Seq<bool>, a: int)
    requires
        0 <= a < s.len(),
        s[a],
    ensures
        count_trues(s) >= 1,
    decreases s.len(),
{
    if a == s.len() - 1 {
    } else {
        lemma_count_pos(s.drop_last(), a);
    }
}

proof fn lemma_count_two(s: Seq<bool>, a: int, b: int)
    requires
        0 <= a < b < s.len(),
        s[a],
        s[b],
    ensures
        count_trues(s) >= 2,
    decreases s.len(),
{
    if b == s.len() - 1 {
        lemma_count_pos(s.drop_last(), a);
    } else {
        lemma_count_two(s.drop_last(), a, b);
    }
}

/// A row with at most one variant left names it uniquely.
proof fn lemma_count_le_one_unique(s: Seq<bool>, a: int, b: int)
    requires
        count_trues(s) <= 1,
        0 <= a < s.len() && s[a],
        0 <= b < s.len() && s[b],
    ensures
        a == b,
{
    if a < b {
        lemma_count_two(s, a, b);
    } else if b < a {
        lemma_count_two(s, b, a);
    }
}

proof fn lemma_count_pos_exists(s: Seq<bool>)
    requires
        count_trues(s) > 0,
    ensures
        row_nonempty(s),
    decreases s.len(),
{
    if s.len() > 0 {
        if s.last() {
            assert(s[s.len() - 1]);
        } else {
            lemma_count_pos_exists(s.drop_last());
            let t = choose|t: int| 0 <= t < s.drop_last().len() && s.drop_last()[t];
            assert(s[t]);
        }
    }
}

/// Total number of variants left across all cells; propagation and
/// observation only ever lower it, which bounds the solver's work.
pub open spec fn total_trues(dom: Seq<Vec<bool>>) -> nat
    decreases dom.len(),
{
    if dom.len() == 0 {
        0
    } else {
        total_trues(dom.drop_last()) + count_trues(dom.last()@)
    }
}

proof fn lemma_count_subset(a: Seq<bool>, b: Seq<bool>)
    requires
        a.len() == b.len(),
        forall|j: int| 0 <= j < a.len() && (#[trigger] a[j]) ==> b[j],
    ensures
        count_trues(a) <= count_trues(b),
        row_changed(b, a) ==> count_trues(a) < count_trues(b),
    decreases a.len(),
{
    if a.len() > 0 {
        assert forall|j: int|
            0 <= j < a.drop_last().len() && (#[trigger] a.drop_last()[j]) implies b.drop_last()[j]
        by {
            assert(a[j]);
        }
        lemma_count_subset(a.drop_last(), b.drop_last());
        if row_changed(b, a) {
            let j = choose|j: int| 0 <= j < b.len() && b[j] && !(#[trigger] a[j]);
            if j == a.len() - 1 {
                assert(b.last() && !a.last());
            } else {
                assert(b.drop_last()[j] && !a.drop_last()[j]);
                assert(row_changed(b.drop_last(), a.drop_last()));
            }
        }
    }
}

proof fn lemma_total_pointwise(a: Seq<Vec<bool>>, b: Seq<Vec<bool>>)
    requires
        a.len() == b.len(),
        forall|k: int|
            0 <= k < a.len() ==> count_trues((#[trigger] a[k])@) <= count_trues(b[k]@),
    ensures
        total_trues(a) <= total_trues(b),
        (exists|k: int|
            0 <= k < a.len() && count_trues((#[trigger] a[k])@) < count_trues(b[k]@))
            ==> total_trues(a) < total_trues(b),
    decreases a.len(),
{
    if a.len() > 0 {
        assert forall|k: int|
            0 <= k < a.drop_last().len() implies count_trues(
            (#[trigger] a.drop_last()[k])@,
        ) <= count_trues(b.drop_last()[k]@) by {
            assert(a.drop_last()[k] == a[k]);
            assert(b.drop_last()[k] == b[k]);
        }
        lemma_total_pointwise(a.drop_last(), b.drop_last());
        assert(count_trues(a.last()@) <= count_trues(b.last()@)) by {
            assert(a.last() == a[a.len() - 1]);
        }
        if exists|k: int|
            0 <= k < a.len() && count_trues((#[trigger] a[k])@) < count_trues(b[k]@) {
            let k = choose|k: int|
                0 <= k < a.len() && count_trues((#[trigger] a[k])@) < count_trues(b[k]@);
            if k == a.len() - 1 {
                assert(count_trues(a.last()@) < count_trues(b.last()@));
            } else {
                assert(a.drop_last()[k] == a[k] && b.drop_last()[k] == b[k]);
                assert(total_trues(a.drop_last()) < total_trues(b.drop_last()));
            }
        }
    }
}

proof fn lemma_total_equal(a: Seq<Vec<bool>>, b: Seq<Vec<bool>>)
    requires
        a.len() == b.len(),
        forall|k: int| 0 <= k < a.len() ==> (#[trigger] a[k])@ == b[k]@,
    ensures
        total_trues(a) == total_trues(b),
{
    lemma_total_pointwise(a, b);
    lemma_total_pointwise(b, a);
}

/// How many variants the row still allows.
fn count_choices(row: &Vec<bool>) -> (c: usize)
    ensures
        c == count_trues(row@),
{
    let n = row.len();
    let mut c: usize = 0;
    for j in 0..n
        invariant
            n == row@.len(),
            c == count_trues(row@.take(j as int)),
            c <= j,
    {
        proof {
            assert(row@.take(j + 1).drop_last() =~= row@.take(j as int));
            assert(row@.take(j + 1).last() == row@[j as int]);
        }
        if row[j] {
            c += 1;
        }
    }
    proof {
        assert(row@.take(n as int) =~= row@);
    }
    c
}

/// The variants the row still allows, in ascending index order.
fn allowed_tiles(row: &Vec<bool>) -> (out: Vec<usize>)
    ensures
        forall|i: int| 0 <= i < out@.len() ==> (#[trigger] out@[i]) < row@.len() && row@[out@[i] as int],
        out@.len() > 0 <==> row_nonempty(row@),
{
    let n = row.len();
    let mut out: Vec<usize> = Vec::new();
    for j in 0..n
        invariant
            n == row@.len(),
            forall|i: int|
                0 <= i < out@.len() ==> (#[trigger] out@[i]) < n && row@[out@[i] as int],
            out@.len() > 0 <==> exists|t: int| 0 <= t < j && row@[t],
    {
        if row[j] {
            out.push(j);
        }
    }
    out
}

/// The first variant the row still allows, if any.
fn first_true(row: &Vec<bool>) -> (r: Option<usize>)
    ensures
        r matches Some(t) ==> t < row@.len() && row@[t as int],
        r is None ==> !row_nonempty(row@),
{
    let n = row.len();
    for j in 0..n
        invariant
            n == row@.len(),
            forall|t: int| 0 <= t < j ==> !row@[t],
    {
        if row[j] {
            return Some(j);
        }
    }
    None
}

/// Whether the row still allows anything.
fn row_any(row: &Vec<bool>) -> (r: bool)
    ensures
        r == row_nonempty(row@),
{
    let n = row.len();
    for j in 0..n
        invariant
            n == row@.len(),
            forall|t: int| 0 <= t < j ==> !row@[t],
    {
        if row[j] {
            return true;
        }
    }
    false
}

/// Whether variant `j` still has a supporting variant in `src` for
/// direction `d`.
fn support_check(cm: &CompatibilityMatrix, src: &Vec<bool>, d: Direction, j: usize) -> (r: bool)
    requires
        cm.wf(),
        src@.len() == cm.n,
        j < cm.n,
    ensures
        r == supports(*cm, src@, d, j as int),
{
    let n = src.len();
    let di = d.index();
    for i in 0..n
        invariant
            n == src@.len() == cm.n,
            cm.wf(),
            j < cm.n,
            di == crate::tileset::dir_index_spec(d),
            forall|i0: int| 0 <= i0 < i ==> !(src@[i0] && #[trigger] cm.compat(d, i0, j as int)),
    {
        if src[i] && cm.tables[di][i][j] {
            proof {
                assert(cm.compat(d, i as int, j as int));
            }
            return true;
        }
    }
    false
}

/// The neighbor of `(x, y)` toward `d` lies in the grid.
pub open spec fn nbr_in(w: int, h: int, x: int, y: int, d: Direction) -> bool {
    in_grid(w, h, x + dx_spec(d), y + dy_spec(d))
}

/// Cell index of the neighbor of `(x, y)` toward `d`.
pub open spec fn nbr_cell(w: int, x: int, y: int, d: Direction) -> int {
    cell_of(w, x + dx_spec(d), y + dy_spec(d))
}

/// Some variant of the old row is gone from the new one.
pub open spec fn row_changed(pre: Seq<bool>, post: Seq<bool>) -> bool {
    exists|j: int| 0 <= j < pre.len() && pre[j] && !(#[trigger] post[j])
}

/// The domains of `a` and `b` agree cell by cell.
pub open spec fn doms_equal(a: Seq<Vec<bool>>, b: Seq<Vec<bool>>) -> bool {
    a.len() == b.len() && forall|k: int| 0 <= k < a.len() ==> (#[trigger] a[k])@ == b[k]@
}

/// An arc stays consistent when the only cell that changed is neither its
/// source nor anything but a shrinking of its target.
proof fn lemma_arc_frame(
    cm: CompatibilityMatrix,
    pre: Seq<Vec<bool>>,
    post: Seq<Vec<bool>>,
    w: int,
    h: int,
    a: int,
    b: int,
    dd: Direction,
    m: int,
)
    requires
        dom_wf(pre, w, h, cm.n as int),
        dom_wf(post, w, h, cm.n as int),
        in_grid(w, h, a, b),
        arc_ok(cm, pre, w, h, a, b, dd),
        post.len() == pre.len(),
        forall|k: int| 0 <= k < post.len() && k != m ==> (#[trigger] post[k])@ == pre[k]@,
        forall|j: int| 0 <= j < post[m]@.len() && (#[trigger] post[m]@[j]) ==> pre[m]@[j],
        0 <= m < post.len(),
        cell_of(w, a, b) != m,
    ensures
        arc_ok(cm, post, w, h, a, b, dd),
{
    let nx = a + dx_spec(dd);
    let ny = b + dy_spec(dd);
    if in_grid(w, h, nx, ny) {
        lemma_cell_of_in_range(w, h, nx, ny);
        lemma_cell_of_in_range(w, h, a, b);
        let t = cell_of(w, nx, ny);
        let sc = cell_of(w, a, b);
        assert(post[sc]@ == pre[sc]@);
        assert forall|j: int|
            0 <= j < post[t]@.len() && (#[trigger] post[t]@[j]) implies supports(
            cm,
            post[sc]@,
            dd,
            j,
        ) by {
            assert(pre[t]@[j]);
            assert(supports(cm, pre[sc]@, dd, j));
        }
    }
}

/// One revision step of arc consistency: drop from the domain of the
/// neighbor of `(x, y)` toward `d` every variant without support in this
/// cell's domain. Reports the neighbor's coordinate for re-enqueueing when
/// its domain shrank, and fails with that coordinate when it emptied.
#[verifier::rlimit(100)]
fn filter_neighbor(
    cm: &CompatibilityMatrix,
    dom: &mut Vec<Vec<bool>>,
    w: usize,
    h: usize,
    x: usize,
    y: usize,
    d: Direction,
) -> (r: Result<Option<(usize, usize)>, Contradiction>)
    requires
        cm.wf(),
        dom_wf(old(dom)@, w as int, h as int, cm.n as int),
        w * h <= usize::MAX,
        x < w,
        y < h,
    ensures
        dom_wf(final(dom)@, w as int, h as int, cm.n as int),
        dom_shrunk(final(dom)@, old(dom)@),
        !nbr_in(w as int, h as int, x as int, y as int, d) ==> final(dom)@ == old(dom)@ && (
        r matches Ok(o) && o is None),
        nbr_in(w as int, h as int, x as int, y as int, d) ==> forall|k: int|
            0 <= k < final(dom)@.len() && k != nbr_cell(w as int, x as int, y as int, d)
                ==> final(dom)@[k] == old(dom)@[k],
        nbr_in(w as int, h as int, x as int, y as int, d) ==> forall|j: int|
            0 <= j < cm.n ==> final(dom)@[nbr_cell(w as int, x as int, y as int, d)]@[j] == (old(
                dom,
            )@[nbr_cell(w as int, x as int, y as int, d)]@[j] && supports(
                *cm,
                old(dom)@[cell_of(w as int, x as int, y as int)]@,
                d,
                j,
            )),
        r is Err <==> (nbr_in(w as int, h as int, x as int, y as int, d) && row_nonempty(
            old(dom)@[nbr_cell(w as int, x as int, y as int, d)]@,
        ) && !row_nonempty(final(dom)@[nbr_cell(w as int, x as int, y as int, d)]@)),
        r matches Err(e) ==> e.at.0 == x + dx_spec(d) && e.at.1 == y + dy_spec(d) && e.at.0 < w
            && e.at.1 < h,
        r matches Ok(o) ==> ((o is Some) <==> (nbr_in(w as int, h as int, x as int, y as int, d)
            && row_changed(
            old(dom)@[nbr_cell(w as int, x as int, y as int, d)]@,
            final(dom)@[nbr_cell(w as int, x as int, y as int, d)]@,
        ))),
        r matches Ok(Some(p)) ==> p.0 == x + dx_spec(d) && p.1 == y + dy_spec(d) && p.0 < w
            && p.1 < h,
        arc_ok(*cm, final(dom)@, w as int, h as int, x as int, y as int, d),
        doms_nonempty(old(dom)@) && r is Ok ==> doms_nonempty(final(dom)@),
        all_compatible(*cm) && doms_nonempty(old(dom)@) ==> (r matches Ok(o) && o is None),
        all_incompatible(*cm) && nbr_in(w as int, h as int, x as int, y as int, d)
            && doms_nonempty(old(dom)@) ==> r is Err,
        r matches Ok(o) && o is None ==> doms_equal(final(dom)@, old(dom)@),
        total_trues(final(dom)@) <= total_trues(old(dom)@),
        r matches Ok(Some(p)) ==> total_trues(final(dom)@) < total_trues(old(dom)@),
{
    let ghost pre0 = dom@;
    let nbr: Option<(usize, usize)> = match d {
        Direction::North => if y == 0 {
            None
        } else {
            Some((x, y - 1))
        },
        Direction::South => if y + 1 >= h {
            None
        } else {
            Some((x, y + 1))
        },
        Direction::East => if x + 1 >= w {
            None
        } else {
            Some((x + 1, y))
        },
        Direction::West => if x == 0 {
            None
        } else {
            Some((x - 1, y))
        },
    };
    match nbr {
        None => {
            proof {
                assert(!nbr_in(w as int, h as int, x as int, y as int, d));
                assert(doms_equal(dom@, pre0));
                lemma_total_equal(dom@, pre0);
            }
            Ok(None)
        },
        Some((nx, ny)) => {
            proof {
                assert(nx == x + dx_spec(d) && ny == y + dy_spec(d));
                assert(in_grid(w as int, h as int, nx as int, ny as int));
                lemma_cell_of_in_range(w as int, h as int, nx as int, ny as int);
                lemma_cell_of_in_range(w as int, h as int, x as int, y as int);
                assert(nx != x || ny != y);
                if cell_of(w as int, nx as int, ny as int) == cell_of(
                    w as int,
                    x as int,
                    y as int,
                ) {
                    lemma_cell_of_injective(
                        w as int,
                        h as int,
                        nx as int,
                        ny as int,
                        x as int,
                        y as int,
                    );
                }
            }
            let m = ny * w + nx;
            let c = y * w + x;
            let n = cm.n;
            let ghost pre = dom@;
            let mut newrow: Vec<bool> = Vec::new();
            let mut changed = false;
            for j in 0..n
                invariant
                    cm.wf(),
                    n == cm.n,
                    dom@ == pre,
                    dom_wf(pre, w as int, h as int, n as int),
                    x < w,
                    y < h,
                    m == nbr_cell(w as int, x as int, y as int, d),
                    c == cell_of(w as int, x as int, y as int),
                    m < dom@.len(),
                    c < dom@.len(),
                    m != c,
                    newrow@.len() == j,
                    forall|j0: int|
                        0 <= j0 < j ==> (#[trigger] newrow@[j0]) == (pre[m as int]@[j0] && supports(
                            *cm,
                            pre[c as int]@,
                            d,
                            j0,
                        )),
                    changed <==> row_changed(pre[m as int]@.take(j as int), newrow@),
            {
                proof {
                    assert(pre[m as int]@.take(j + 1).drop_last() =~= pre[m as int]@.take(j as int));
                }
                let cur = dom[m][j];
                let keep = cur && support_check(cm, &dom[c], d, j);
                if cur && !keep {
                    changed = true;
                }
                let ghost prerow = newrow@;
                newrow.push(keep);
                proof {
                    if changed {
                        assert(row_changed(pre[m as int]@.take(j + 1), newrow@)) by {
                            if row_changed(pre[m as int]@.take(j as int), prerow) {
                                let j0 = choose|j0: int|
                                    0 <= j0 < j && pre[m as int]@.take(j as int)[j0] && !(#[trigger] prerow[j0]);
                                assert(pre[m as int]@.take(j + 1)[j0] && !newrow@[j0]);
                            } else {
                                assert(pre[m as int]@.take(j + 1)[j as int] && !newrow@[j as int]);
                            }
                        }
                    } else {
                        if row_changed(pre[m as int]@.take(j + 1), newrow@) {
                            let j0 = choose|j0: int|
                                0 <= j0 < j + 1 && pre[m as int]@.take(j + 1)[j0] && !(#[trigger] newrow@[j0]);
                            if j0 < j {
                                assert(pre[m as int]@.take(j as int)[j0] && !prerow[j0]);
                            }
                            assert(false);
                        }
                    }
                }
            }
            proof {
                assert(pre[m as int]@.take(n as int) =~= pre[m as int]@);
            }
            dom.set(m, newrow);
            let any = row_any(&dom[m]);
            proof {
                assert(dom@ == pre.update(m as int, dom@[m as int]));
                assert forall|k: int|
                    0 <= k < dom@.len() && k != m as int implies dom@[k] == pre[k] by {}
                assert(dom_shrunk(dom@, pre));
                // the revised arc is consistent
                assert(dom@[c as int]@ == pre[c as int]@);
                assert forall|j: int|
                    0 <= j < dom@[m as int]@.len() && (#[trigger] dom@[m as int]@[j]) implies
                    supports(*cm, dom@[c as int]@, d, j) by {
                    assert(supports(*cm, pre[c as int]@, d, j));
                }
                // the measure only drops
                assert forall|k: int|
                    0 <= k < dom@.len() implies count_trues((#[trigger] dom@[k])@) <= count_trues(
                    pre[k]@,
                ) by {
                    if k == m as int {
                        lemma_count_subset(dom@[k]@, pre[k]@);
                    } else {
                        assert(dom@[k] == pre[k]);
                    }
                }
                lemma_total_pointwise(dom@, pre);
                if changed {
                    lemma_count_subset(dom@[m as int]@, pre[m as int]@);
                } else {
                    assert forall|j: int|
                        0 <= j < cm.n implies #[trigger] dom@[m as int]@[j] == pre[m as int]@[j]
                    by {
                        if pre[m as int]@[j] && !dom@[m as int]@[j] {
                            assert(row_changed(pre[m as int]@, dom@[m as int]@));
                        }
                    }
                    assert(dom@[m as int]@ =~= pre[m as int]@);
                    assert(doms_equal(dom@, pre));
                    lemma_total_equal(dom@, pre);
                }
                // with every pair compatible nothing is removed
                if all_compatible(*cm) && doms_nonempty(pre) {
                    assert(row_nonempty(pre[c as int]@));
                    let i0 = choose|i0: int| 0 <= i0 < pre[c as int]@.len() && pre[c as int]@[i0];
                    assert forall|j: int|
                        0 <= j < cm.n && (#[trigger] pre[m as int]@[j]) implies dom@[m as int]@[j]
                    by {
                        assert(cm.compat(d, i0, j));
                        assert(supports(*cm, pre[c as int]@, d, j));
                    }
                    assert(!changed) by {
                        if row_changed(pre[m as int]@, dom@[m as int]@) {
                            let j0 = choose|j0: int|
                                0 <= j0 < pre[m as int]@.len() && pre[m as int]@[j0] && !(#[trigger] dom@[m as int]@[j0]);
                            assert(false);
                        }
                    }
                }
                // with every pair incompatible everything is removed
                if all_incompatible(*cm) && doms_nonempty(pre) {
                    assert forall|j: int|
                        0 <= j < cm.n implies !(#[trigger] dom@[m as int]@[j]) by {
                        if dom@[m as int]@[j] {
                            assert(supports(*cm, pre[c as int]@, d, j));
                            let i0 = choose|i0: int|
                                0 <= i0 < pre[c as int]@.len() && pre[c as int]@[i0]
                                    && #[trigger] cm.compat(d, i0, j);
                            assert(false);
                        }
                    }
                    assert(row_nonempty(pre[m as int]@));
                    assert(!row_nonempty(dom@[m as int]@)) by {
                        if row_nonempty(dom@[m as int]@) {
                            let j0 = choose|j0: int|
                                0 <= j0 < dom@[m as int]@.len() && dom@[m as int]@[j0];
                            assert(false);
                        }
                    }
                    assert(changed) by {
                        let j0 = choose|j0: int|
                            0 <= j0 < pre[m as int]@.len() && (#[trigger] pre[m as int]@[j0]);
                        assert(!dom@[m as int]@[j0]);
                        assert(row_changed(pre[m as int]@, dom@[m as int]@));
                    }
                }
                // nonemptiness is preserved unless this very row emptied
                if doms_nonempty(pre) && (any || !changed) {
                    assert forall|k: int| 0 <= k < dom@.len() implies row_nonempty(
                        (#[trigger] dom@[k])@,
                    ) by {
                        if k == m as int {
                            if !changed {
                                assert(dom@[k]@ == pre[k]@);
                            }
                            assert(row_nonempty(dom@[k]@));
                        } else {
                            assert(dom@[k] == pre[k]);
                        }
                    }
                }
            }
            if changed {
                if any {
                    Ok(Some((nx, ny)))
                } else {
                    proof {
                        let j0 = choose|j0: int|
                            0 <= j0 < pre[m as int]@.len() && pre[m as int]@[j0] && !(#[trigger] dom@[m as int]@[j0]);
                        assert(row_nonempty(pre[m as int]@));
                    }
                    Err(Contradiction { at: (nx, ny) })
                }
            } else {
                proof {
                    if row_nonempty(pre[m as int]@) && !row_nonempty(dom@[m as int]@) {
                        let j0 = choose|j0: int|
                            0 <= j0 < pre[m as int]@.len() && (#[trigger] pre[m as int]@[j0]);
                        assert(!dom@[m as int]@[j0]);
                        assert(row_changed(pre[m as int]@, dom@[m as int]@));
                        assert(false);
                    }
                }
                Ok(None)
            }
        },
    }
}

/// After one revision step out of `(x, y)`, every arc that held before
/// still holds, except those whose source cell shrank, which is queued.
proof fn lemma_arcs_except_step(
    cm: CompatibilityMatrix,
    pre: Seq<Vec<bool>>,
    post: Seq<Vec<bool>>,
    w: int,
    h: int,
    x: usize,
    y: usize,
    d: Direction,
    qpre: Seq<(usize, usize)>,
    qpost: Seq<(usize, usize)>,
    k: int,
)
    requires
        dom_wf(pre, w, h, cm.n as int),
        dom_wf(post, w, h, cm.n as int),
        x < w,
        y < h,
        nbr_in(w, h, x as int, y as int, d) ==> forall|k0: int|
            0 <= k0 < post.len() && k0 != nbr_cell(w, x as int, y as int, d) ==> (
            #[trigger] post[k0])@ == pre[k0]@,
        nbr_in(w, h, x as int, y as int, d) ==> forall|j: int|
            0 <= j < post[nbr_cell(w, x as int, y as int, d)]@.len() && (#[trigger] post[nbr_cell(
                w,
                x as int,
                y as int,
                d,
            )]@[j]) ==> pre[nbr_cell(w, x as int, y as int, d)]@[j],
        nbr_in(w, h, x as int, y as int, d) && row_changed(
            pre[nbr_cell(w, x as int, y as int, d)]@,
            post[nbr_cell(w, x as int, y as int, d)]@,
        ) ==> exists|p: (usize, usize)|
            #[trigger] qpost.contains(p) && p.0 == x + dx_spec(d) && p.1 == y + dy_spec(d),
        !nbr_in(w, h, x as int, y as int, d) ==> doms_equal(post, pre),
        forall|p: (usize, usize)| qpre.contains(p) ==> qpost.contains(p),
        forall|a: usize, b: usize, dd: Direction|
            a < w && b < h && !qpre.contains((a, b)) && !(a == x && b == y) ==> #[trigger] arc_ok(
                cm,
                pre,
                w,
                h,
                a as int,
                b as int,
                dd,
            ),
        forall|dd: Direction|
            dir_index_done(dd, k) ==> #[trigger] arc_ok(cm, pre, w, h, x as int, y as int, dd),
        arc_ok(cm, post, w, h, x as int, y as int, d),
        crate::tileset::dir_index_spec(d) == k,
    ensures
        forall|a: usize, b: usize, dd: Direction|
            a < w && b < h && !qpost.contains((a, b)) && !(a == x && b == y) ==> #[trigger] arc_ok(
                cm,
                post,
                w,
                h,
                a as int,
                b as int,
                dd,
            ),
        forall|dd: Direction|
            dir_index_done(dd, k + 1) ==> #[trigger] arc_ok(cm, post, w, h, x as int, y as int, dd),
{
    let inb = nbr_in(w, h, x as int, y as int, d);
    let m = nbr_cell(w, x as int, y as int, d);
    if inb {
        lemma_cell_of_in_range(w, h, x as int + dx_spec(d), y as int + dy_spec(d));
    }
    assert forall|a: usize, b: usize, dd: Direction|
        a < w && b < h && !qpost.contains((a, b)) && !(a == x && b == y) implies #[trigger] arc_ok(
        cm,
        post,
        w,
        h,
        a as int,
        b as int,
        dd,
    ) by {
        assert(!qpre.contains((a, b)));
        assert(arc_ok(cm, pre, w, h, a as int, b as int, dd));
        if inb {
            if cell_of(w, a as int, b as int) == m {
                lemma_cell_of_injective(
                    w,
                    h,
                    a as int,
                    b as int,
                    x as int + dx_spec(d),
                    y as int + dy_spec(d),
                );
                if row_changed(pre[m]@, post[m]@) {
                    let p = choose|p: (usize, usize)|
                        #[trigger] qpost.contains(p) && p.0 == x + dx_spec(d) && p.1 == y
                            + dy_spec(d);
                    assert(p.0 == a && p.1 == b);
                    assert(qpost.contains((a, b)));
                    assert(false);
                } else {
                    assert forall|j: int|
                        0 <= j < cm.n implies #[trigger] post[m]@[j] == pre[m]@[j] by {
                        if pre[m]@[j] && !post[m]@[j] {
                            assert(row_changed(pre[m]@, post[m]@));
                        }
                    }
                    assert(post[m]@ =~= pre[m]@);
                    assert forall|k0: int|
                        0 <= k0 < post.len() implies (#[trigger] post[k0])@ == pre[k0]@ by {
                        if k0 != m {
                        }
                    }
                    lemma_arc_preserved_equal(cm, pre, post, w, h, a as int, b as int, dd);
                }
            } else {
                lemma_arc_frame(cm, pre, post, w, h, a as int, b as int, dd, m);
            }
        } else {
            lemma_arc_preserved_equal(cm, pre, post, w, h, a as int, b as int, dd);
        }
    }
    assert forall|dd: Direction|
        dir_index_done(dd, k + 1) implies #[trigger] arc_ok(cm, post, w, h, x as int, y as int, dd)
    by {
        if dd == d {
        } else {
            assert(dir_index_done(dd, k));
            assert(arc_ok(cm, pre, w, h, x as int, y as int, dd));
            if inb {
                if cell_of(w, x as int, y as int) == m {
                    lemma_cell_of_injective(
                        w,
                        h,
                        x as int,
                        y as int,
                        x as int + dx_spec(d),
                        y as int + dy_spec(d),
                    );
                    assert(false);
                }
                lemma_arc_frame(cm, pre, post, w, h, x as int, y as int, dd, m);
            } else {
                lemma_arc_preserved_equal(cm, pre, post, w, h, x as int, y as int, dd);
            }
        }
    }
}

/// An arc is insensitive to replacing the domains by cell-wise equal ones.
proof fn lemma_arc_preserved_equal(
    cm: CompatibilityMatrix,
    pre: Seq<Vec<bool>>,
    post: Seq<Vec<bool>>,
    w: int,
    h: int,
    a: int,
    b: int,
    dd: Direction,
)
    requires
        dom_wf(pre, w, h, cm.n as int),
        dom_wf(post, w, h, cm.n as int),
        in_grid(w, h, a, b),
        doms_equal(post, pre),
        arc_ok(cm, pre, w, h, a, b, dd),
    ensures
        arc_ok(cm, post, w, h, a, b, dd),
{
    let nx = a + dx_spec(dd);
    let ny = b + dy_spec(dd);
    if in_grid(w, h, nx, ny) {
        lemma_cell_of_in_range(w, h, nx, ny);
        lemma_cell_of_in_range(w, h, a, b);
        let t = cell_of(w, nx, ny);
        let sc = cell_of(w, a, b);
        assert(post[t]@ == pre[t]@);
        assert(post[sc]@ == pre[sc]@);
    }
}

/// The directions at table positions below `k`.
pub open spec fn dir_index_done(d: Direction, k: int) -> bool {
    crate::tileset::dir_index_spec(d) < k
}

/// Propagate arc consistency from every queued cell until the queue
/// drains, failing with the first coordinate whose domain empties.
#[verifier::loop_isolation(false)]
#[verifier::rlimit(100)]
fn propagate(
    cm: &CompatibilityMatrix,
    dom: &mut Vec<Vec<bool>>,
    w: usize,
    h: usize,
    queue: &mut VecDeque<(usize, usize)>,
) -> (r: Result<(), Contradiction>)
    requires
        cm.wf(),
        dom_wf(old(dom)@, w as int, h as int, cm.n as int),
        w * h <= usize::MAX,
        queue_wf(old(queue)@, w as int, h as int),
        fully_supported(*cm) ==> arcs_ok_except(*cm, old(dom)@, w as int, h as int, old(queue)@),
    ensures
        dom_wf(final(dom)@, w as int, h as int, cm.n as int),
        dom_shrunk(final(dom)@, old(dom)@),
        r is Ok ==> final(queue)@.len() == 0,
        old(queue)@.len() == 0 ==> doms_equal(final(dom)@, old(dom)@),
        fully_supported(*cm) && r is Ok ==> arcs_ok_except(
            *cm,
            final(dom)@,
            w as int,
            h as int,
            Seq::empty(),
        ),
        doms_nonempty(old(dom)@) && r is Ok ==> doms_nonempty(final(dom)@),
        all_compatible(*cm) && doms_nonempty(old(dom)@) ==> r is Ok && doms_equal(
            final(dom)@,
            old(dom)@,
        ),
        all_incompatible(*cm) && w * h >= 2 && doms_nonempty(old(dom)@) && old(queue)@.len() > 0
            ==> r is Err,
        w == 1 && h == 1 ==> r is Ok && doms_equal(final(dom)@, old(dom)@),
        r matches Err(e) ==> e.at.0 < w && e.at.1 < h,
{
    while queue.len() != 0
        invariant
            dom_wf(dom@, w as int, h as int, cm.n as int),
            dom_shrunk(dom@, old(dom)@),
            queue_wf(queue@, w as int, h as int),
            fully_supported(*cm) ==> arcs_ok_except(*cm, dom@, w as int, h as int, queue@),
            doms_nonempty(old(dom)@) ==> doms_nonempty(dom@),
            all_compatible(*cm) && doms_nonempty(old(dom)@) ==> doms_equal(dom@, old(dom)@),
            all_incompatible(*cm) && w * h >= 2 && doms_nonempty(old(dom)@) ==> queue@ == old(
                queue,
            )@,
            old(queue)@.len() == 0 ==> doms_equal(dom@, old(dom)@) && queue@ == old(queue)@,
            w == 1 && h == 1 ==> doms_equal(dom@, old(dom)@),
        decreases total_trues(dom@), queue@.len(),
    {
        let ghost qpre = queue@;
        let ghost dom0 = dom@;
        let ghost mut changed_any = false;
        let popped = queue.pop_front();
        let (x, y) = popped.unwrap();
        proof {
            assert((x, y) == qpre[0]);
            assert(x < w && y < h);
            assert forall|i: int| 0 <= i < queue@.len() implies qpre.contains(#[trigger] queue@[i])
            by {
                assert(queue@[i] == qpre[i + 1]);
            }
        }
        let ghost q1 = queue@;
        proof {
            if fully_supported(*cm) {
                assert forall|a: usize, b: usize, dd: Direction|
                    a < w && b < h && !q1.contains((a, b)) && !(a == x && b == y) implies
                    #[trigger] arc_ok(*cm, dom@, w as int, h as int, a as int, b as int, dd) by {
                    assert(!qpre.contains((a, b))) by {
                        if qpre.contains((a, b)) {
                            let i = choose|i: int| 0 <= i < qpre.len() && qpre[i] == (a, b);
                            assert(i >= 1);
                            assert(q1[i - 1] == (a, b));
                        }
                    }
                }
            }
        }
        let mut di: usize = 0;
        while di < 4
            invariant
                x < w,
                y < h,
                di <= 4,
                dom_wf(dom@, w as int, h as int, cm.n as int),
                dom_shrunk(dom@, dom0),
                dom_shrunk(dom@, old(dom)@),
                queue_wf(queue@, w as int, h as int),
                q1.len() <= queue@.len(),
                forall|i: int| 0 <= i < q1.len() ==> #[trigger] queue@[i] == q1[i],
                fully_supported(*cm) ==> forall|dd: Direction|
                    dir_index_done(dd, di as int) ==> #[trigger] arc_ok(
                        *cm,
                        dom@,
                        w as int,
                        h as int,
                        x as int,
                        y as int,
                        dd,
                    ),
                fully_supported(*cm) ==> forall|a: usize, b: usize, dd: Direction|
                    a < w && b < h && !queue@.contains((a, b)) && !(a == x && b == y)
                        ==> #[trigger] arc_ok(
                        *cm,
                        dom@,
                        w as int,
                        h as int,
                        a as int,
                        b as int,
                        dd,
                    ),
                doms_nonempty(old(dom)@) ==> doms_nonempty(dom@),
                all_compatible(*cm) && doms_nonempty(old(dom)@) ==> doms_equal(dom@, old(dom)@),
                all_incompatible(*cm) && w * h >= 2 && doms_nonempty(old(dom)@) ==> forall|
                    dd: Direction,
                |
                    dir_index_done(dd, di as int) ==> !(#[trigger] nbr_in(
                        w as int,
                        h as int,
                        x as int,
                        y as int,
                        dd,
                    )),
                w == 1 && h == 1 ==> doms_equal(dom@, old(dom)@),
                !changed_any ==> doms_equal(dom@, dom0) && queue@ == q1,
                changed_any ==> total_trues(dom@) < total_trues(dom0),
            decreases 4 - di,
        {
            let d = if di == 0 {
                Direction::North
            } else if di == 1 {
                Direction::South
            } else if di == 2 {
                Direction::East
            } else {
                Direction::West
            };
            let ghost domk = dom@;
            let ghost qk = queue@;
            let res = filter_neighbor(cm, dom, w, h, x, y, d);
            match res {
                Err(e) => {
                    proof {
                        if w == 1 && h == 1 {
                            assert(!nbr_in(w as int, h as int, x as int, y as int, d));
                            assert(false);
                        }
                        if all_compatible(*cm) && doms_nonempty(old(dom)@) {
                            assert(false);
                        }
                        if changed_any {
                        } else {
                            lemma_total_equal(domk, dom0);
                        }
                    }
                    return Err(e);
                },
                Ok(Some(p)) => {
                    queue.push_back(p);
                    proof {
                        assert(queue@ == qk.push(p));
                        assert(queue@[queue@.len() - 1] == p);
                        assert(queue@.contains(p));
                        assert forall|i: int| 0 <= i < q1.len() implies #[trigger] queue@[i]
                            == q1[i] by {}
                        assert forall|pp: (usize, usize)| qk.contains(pp) implies queue@.contains(
                            pp,
                        ) by {
                            let i = choose|i: int| 0 <= i < qk.len() && qk[i] == pp;
                            assert(queue@[i] == pp);
                        }
                    }
                },
                Ok(None) => {},
            }
            proof {
                let inb = nbr_in(w as int, h as int, x as int, y as int, d);
                let m = nbr_cell(w as int, x as int, y as int, d);
                // the measure
                if res matches Ok(Some(pz)) {
                    if !changed_any {
                        lemma_total_equal(domk, dom0);
                    }
                    changed_any = true;
                    assert(total_trues(dom@) < total_trues(dom0));
                } else {
                    assert(doms_equal(dom@, domk));
                    if changed_any {
                        lemma_total_equal(dom@, domk);
                    } else {
                        assert forall|k0: int|
                            0 <= k0 < dom@.len() implies (#[trigger] dom@[k0])@ == dom0[k0]@ by {
                            assert(dom@[k0]@ == domk[k0]@);
                        }
                    }
                }
                // nonemptiness
                if doms_nonempty(old(dom)@) {
                    assert(doms_nonempty(dom@));
                }
                // with everything compatible nothing changes
                if all_compatible(*cm) && doms_nonempty(old(dom)@) {
                    assert(res matches Ok(o) && o is None);
                    assert forall|k0: int|
                        0 <= k0 < dom@.len() implies (#[trigger] dom@[k0])@ == old(dom)@[k0]@ by {
                        assert(dom@[k0]@ == domk[k0]@);
                    }
                }
                // with everything incompatible an in-grid neighbor errs
                if all_incompatible(*cm) && w * h >= 2 && doms_nonempty(old(dom)@) {
                    assert(!inb);
                }
                if w == 1 && h == 1 {
                    assert(!inb);
                    assert forall|k0: int|
                        0 <= k0 < dom@.len() implies (#[trigger] dom@[k0])@ == old(dom)@[k0]@ by {
                        assert(dom@[k0]@ == domk[k0]@);
                    }
                }
                // the arc bookkeeping
                if fully_supported(*cm) {
                    if inb {
                        lemma_cell_of_in_range(
                            w as int,
                            h as int,
                            x as int + dx_spec(d),
                            y as int + dy_spec(d),
                        );
                        assert forall|j: int|
                            0 <= j < dom@[m]@.len() && (#[trigger] dom@[m]@[j]) implies
                            domk[m]@[j] by {
                            assert(0 <= j < cm.n);
                        }
                        if row_changed(domk[m]@, dom@[m]@) {
                            assert(res matches Ok(Some(pw)) && pw.0 == x + dx_spec(d) && pw.1 == y
                                + dy_spec(d) && queue@.contains(pw));
                        }
                    }
                    lemma_arcs_except_step(
                        *cm,
                        domk,
                        dom@,
                        w as int,
                        h as int,
                        x,
                        y,
                        d,
                        qk,
                        queue@,
                        di as int,
                    );
                }
            }
            di += 1;
        }
        proof {
            if all_incompatible(*cm) && w * h >= 2 && doms_nonempty(old(dom)@) {
                assert(!nbr_in(w as int, h as int, x as int, y as int, Direction::North));
                assert(!nbr_in(w as int, h as int, x as int, y as int, Direction::South));
                assert(!nbr_in(w as int, h as int, x as int, y as int, Direction::East));
                assert(!nbr_in(w as int, h as int, x as int, y as int, Direction::West));
                assert(w == 1 && h == 1) by (nonlinear_arith)
                    requires
                        x < w,
                        y < h,
                        !in_grid(w as int, h as int, x as int, (y as int) - 1),
                        !in_grid(w as int, h as int, x as int, (y as int) + 1),
                        !in_grid(w as int, h as int, (x as int) + 1, y as int),
                        !in_grid(w as int, h as int, (x as int) - 1, y as int),
                ;
                assert(w * h == 1) by (nonlinear_arith)
                    requires
                        w == 1usize,
                        h == 1usize,
                ;
                assert(false);
            }
            if old(queue)@.len() == 0 {
                assert(false);
            }
            if fully_supported(*cm) {
                assert forall|a: usize, b: usize, dd: Direction|
                    a < w && b < h && !queue@.contains((a, b)) implies #[trigger] arc_ok(
                    *cm,
                    dom@,
                    w as int,
                    h as int,
                    a as int,
                    b as int,
                    dd,
                ) by {
                    if a == x && b == y {
                        assert(dir_index_done(dd, 4));
                    }
                }
            }
            if !changed_any {
                lemma_total_equal(dom@, dom0);
                assert(queue@.len() < qpre.len());
            }
        }
    }
    Ok(())
}

/// Mod and floor-div of a row-major cell index give its coordinates.
proof fn lemma_cell_coords(w: int, h: int, k: int)
    requires
        w > 0,
        h > 0,
        0 <= k < w * h,
    ensures
        0 <= k % w < w,
        0 <= k / w < h,
        cell_of(w, k % w, k / w) == k,
{
    vstd::arithmetic::div_mod::lemma_fundamental_div_mod(k, w);
    assert((k / w) * w == w * (k / w)) by (nonlinear_arith);
    assert(k / w < h) by (nonlinear_arith)
        requires
            w > 0,
            h > 0,
            0 <= k < w * h,
            k == w * (k / w) + k % w,
            0 <= k % w < w,
    ;
    assert(k / w >= 0) by (nonlinear_arith)
        requires
            w > 0,
            0 <= k,
            k == w * (k / w) + k % w,
            0 <= k % w < w,
    ;
}

proof fn lemma_count_none(s: Seq<bool>)
    requires
        forall|t: int| 0 <= t < s.len() ==> !s[t],
    ensures
        count_trues(s) == 0,
    decreases s.len(),
{
    if s.len() > 0 {
        assert forall|t: int| 0 <= t < s.drop_last().len() implies !s.drop_last()[t] by {
            assert(!s[t]);
        }
        lemma_count_none(s.drop_last());
        assert(!s.last());
    }
}

proof fn lemma_count_singleton(s: Seq<bool>, pick: int)
    requires
        0 <= pick < s.len(),
        forall|t: int| 0 <= t < s.len() ==> (s[t] <==> t == pick),
    ensures
        count_trues(s) == 1,
    decreases s.len(),
{
    if pick == s.len() - 1 {
        assert forall|t: int| 0 <= t < s.drop_last().len() implies !s.drop_last()[t] by {
            assert(!s[t]);
        }
        lemma_count_none(s.drop_last());
        assert(s.last());
    } else {
        assert forall|t: int|
            0 <= t < s.drop_last().len() implies (s.drop_last()[t] <==> t == pick) by {
            assert(s[t] <==> t == pick);
        }
        lemma_count_singleton(s.drop_last(), pick);
        assert(!s.last());
    }
}

/// Every prior is kept: any variant still in a cell's domain agrees with
/// the cell's prior, if it has one.
pub open spec fn priors_respected(dom: Seq<Vec<bool>>, priors: Seq<Option<usize>>) -> bool {
    forall|k: int, t: int|
        #![trigger dom[k]@[t]]
        0 <= k < dom.len() && k < priors.len() && 0 <= t < dom[k]@.len() && dom[k]@[t] && priors[k]
            is Some ==> priors[k] == Some(t as usize)
}

/// The assigned variants of the cell at position `k` and of its neighbor
/// toward `d` are compatible (when that neighbor exists).
pub open spec fn adjacent_pair_ok(
    cm: CompatibilityMatrix,
    out: Seq<((usize, usize), usize)>,
    w: int,
    h: int,
    k: int,
    d: Direction,
) -> bool {
    in_grid(w, h, out[k].0.0 + dx_spec(d), out[k].0.1 + dy_spec(d)) ==> cm.compat(
        d,
        out[k].1 as int,
        out[cell_of(w, out[k].0.0 + dx_spec(d), out[k].0.1 + dy_spec(d))].1 as int,
    )
}

/// Every adjacent pair of the assignment is compatible.
pub open spec fn solution_adjacent_ok(
    cm: CompatibilityMatrix,
    out: Seq<((usize, usize), usize)>,
    w: int,
    h: int,
) -> bool {
    forall|k: int, d: Direction|
        0 <= k < out.len() ==> #[trigger] adjacent_pair_ok(cm, out, w, h, k, d)
}

/// All domain rows are full.
pub open spec fn doms_full(dom: Seq<Vec<bool>>) -> bool {
    forall|k: int, t: int|
        #![trigger dom[k]@[t]]
        0 <= k < dom.len() && 0 <= t < dom[k]@.len() ==> dom[k]@[t]
}

/// The row-major cell with the fewest (but more than one) remaining
/// candidates, ties to the earliest cell in scan order.
fn find_min_multi(dom: &Vec<Vec<bool>>) -> (r: Option<usize>)
    ensures
        r matches Some(k) ==> k < dom@.len() && count_trues(dom@[k as int]@) > 1,
        r is None ==> forall|k: int| 0 <= k < dom@.len() ==> count_trues((#[trigger] dom@[k])@) <= 1,
{
    let total = dom.len();
    let mut best: Option<usize> = None;
    let mut best_choices: usize = 0;
    for k in 0..total
        invariant
            total == dom@.len(),
            best matches Some(b) ==> b < k && count_trues(dom@[b as int]@) == best_choices
                && best_choices > 1,
            best is None ==> forall|k0: int|
                0 <= k0 < k ==> count_trues((#[trigger] dom@[k0])@) <= 1,
    {
        let choices = count_choices(&dom[k]);
        if choices > 1 {
            match best {
                None => {
                    best = Some(k);
                    best_choices = choices;
                },
                Some(_) => {
                    if choices < best_choices {
                        best = Some(k);
                        best_choices = choices;
                    }
                },
            }
        }
    }
    best
}

/// Collapse the domain of cell `k` to exactly `pick`.
fn set_singleton(dom: &mut Vec<Vec<bool>>, k: usize, pick: usize)
    requires
        k < old(dom)@.len(),
        pick < old(dom)@[k as int]@.len(),
    ensures
        final(dom)@.len() == old(dom)@.len(),
        forall|k0: int|
            0 <= k0 < final(dom)@.len() && k0 != k ==> final(dom)@[k0] == old(dom)@[k0],
        final(dom)@[k as int]@.len() == old(dom)@[k as int]@.len(),
        forall|t: int|
            0 <= t < final(dom)@[k as int]@.len() ==> ((#[trigger] final(dom)@[k as int]@[t])
                <==> t == pick),
{
    let n = dom[k].len();
    let mut row: Vec<bool> = Vec::new();
    for t in 0..n
        invariant
            row@.len() == t,
            pick < n,
            forall|t0: int| 0 <= t0 < t ==> ((#[trigger] row@[t0]) <==> t0 == pick),
    {
        row.push(t == pick);
    }
    dom.set(k, row);
}

/// A solver run: the grid dimensions, the seeded random stream, and the
/// prior assignments to respect.
pub struct WaveFunction {
    w: usize,
    h: usize,
    rng: rand::rngs::StdRng,
    priors: Vec<Option<usize>>,
}

impl WaveFunction {
    /// Grid width in cells.
    pub closed spec fn grid_w(self) -> int {
        self.w as int
    }

    /// Grid height in cells.
    pub closed spec fn grid_h(self) -> int {
        self.h as int
    }

    /// The prior assignment of each cell, row-major.
    pub closed spec fn priors_view(self) -> Seq<Option<usize>> {
        self.priors@
    }

    /// One prior slot per grid cell.
    pub closed spec fn wf(self) -> bool {
        self.priors@.len() == self.w * self.h
    }

    /// A fresh solver run over a `size[0]` by `size[1]` grid whose random
    /// stream is determined by `seed`, with no priors.
    pub fn new(size: [usize; 2], seed: u64) -> (wave: WaveFunction)
        requires
            size[0] * size[1] <= usize::MAX,
        ensures
            wave.wf(),
            wave.grid_w() == size[0],
            wave.grid_h() == size[1],
            wave.priors_view().len() == size[0] * size[1],
            forall|k: int| 0 <= k < wave.priors_view().len() ==> wave.priors_view()[k] is None,
    {
        let w = size[0];
        let h = size[1];
        let total = w * h;
        let mut priors: Vec<Option<usize>> = Vec::new();
        for k in 0..total
            invariant
                priors@.len() == k,
                forall|k0: int| 0 <= k0 < k ==> priors@[k0] is None,
        {
            priors.push(None);
        }
        WaveFunction { w, h, rng: rng_from_seed(seed), priors }
    }

    /// Fix a tile at `pos` prior to collapsing.
    pub fn set(&mut self, pos: (usize, usize), tile: usize)
        requires
            old(self).wf(),
            pos.0 < old(self).grid_w(),
            pos.1 < old(self).grid_h(),
        ensures
            final(self).wf(),
            final(self).grid_w() == old(self).grid_w(),
            final(self).grid_h() == old(self).grid_h(),
            final(self).priors_view() == old(self).priors_view().update(
                cell_of(old(self).grid_w(), pos.0 as int, pos.1 as int),
                Some(tile),
            ),
    {
        let total = self.priors.len();
        proof {
            lemma_cell_of_in_range(
                self.w as int,
                self.h as int,
                pos.0 as int,
                pos.1 as int,
            );
        }
        let i = pos.1 * self.w + pos.0;
        self.priors.set(i, Some(tile));
    }
}

impl WaveFunction {
    /// Run the solve: propagate the priors, then repeatedly collapse the
    /// cell with the fewest (more than one) remaining candidates to a
    /// uniformly drawn one and re-propagate, until every cell is decided
    /// or some domain empties. On success the result lists every cell in
    /// row-major order with its chosen variant; on failure it names the
    /// cell whose domain emptied, and the caller may retry with a new
    /// seed. No backtracking happens.
    #[verifier::loop_isolation(false)]
    #[verifier::rlimit(100)]
    pub fn collapse(&mut self, cm: &CompatibilityMatrix) -> (r: Result<
        Vec<((usize, usize), usize)>,
        Contradiction,
    >)
        requires
            old(self).wf(),
            cm.wf(),
            forall|k: int|
                0 <= k < old(self).priors_view().len() ==> ((#[trigger] old(
                    self,
                ).priors_view()[k]) matches Some(t) ==> t < cm.n),
        ensures
            final(self).wf(),
            final(self).grid_w() == old(self).grid_w(),
            final(self).grid_h() == old(self).grid_h(),
            final(self).priors_view() == old(self).priors_view(),
            r matches Ok(out) ==> out@.len() == old(self).grid_w() * old(self).grid_h(),
            r matches Ok(out) ==> forall|k: int|
                0 <= k < out@.len() ==> (#[trigger] out@[k]).0.0 == k % old(self).grid_w()
                    && out@[k].0.1 == k / old(self).grid_w() && out@[k].1 < cm.n,
            r matches Ok(out) ==> forall|k: int|
                0 <= k < out@.len() ==> ((#[trigger] old(self).priors_view()[k]) matches Some(t)
                    ==> out@[k].1 == t),
            fully_supported(*cm) ==> (r matches Ok(out) ==> solution_adjacent_ok(
                *cm,
                out@,
                old(self).grid_w(),
                old(self).grid_h(),
            )),
            all_compatible(*cm) && cm.n >= 1 ==> r is Ok,
            all_incompatible(*cm) && cm.n >= 2 && old(self).grid_w() * old(self).grid_h() >= 2
                ==> r is Err,
            old(self).grid_w() == 1 && old(self).grid_h() == 1 && cm.n >= 1 ==> r is Ok,
            r matches Err(e) ==> e.at.0 < old(self).grid_w() && e.at.1 < old(self).grid_h(),
    {
        let w = self.w;
        let h = self.h;
        let n = cm.n;
        let total = self.priors.len();
        let ghost priors = self.priors@;
        // initial domains: a prior narrows its cell to a single variant
        // and seeds the work queue; every other cell starts full
        let mut dom: Vec<Vec<bool>> = Vec::new();
        let mut queue: VecDeque<(usize, usize)> = VecDeque::new();
        for k in 0..total
            invariant
                dom@.len() == k,
                forall|k0: int| 0 <= k0 < k ==> (#[trigger] dom@[k0])@.len() == n,
                forall|k0: int, t: int|
                    #![trigger dom@[k0]@[t]]
                    0 <= k0 < k && 0 <= t < n ==> (dom@[k0]@[t] <==> (priors[k0] is None
                        || priors[k0] == Some(t as usize))),
                queue_wf(queue@, w as int, h as int),
                forall|k0: int|
                    0 <= k0 < k && (#[trigger] priors[k0]) is Some ==> queue@.contains(
                        (((k0 % (w as int)) as usize), ((k0 / (w as int)) as usize)),
                    ),
                queue@.len() == 0 ==> forall|k0: int| 0 <= k0 < k ==> !((#[trigger] priors[k0]) is Some),
        {
            proof {
                assert(w > 0 && h > 0) by {
                    assert(k < w * h);
                    if w == 0 || h == 0 {
                        assert(w * h == 0) by (nonlinear_arith)
                            requires
                                w == 0usize || h == 0usize,
                        ;
                    }
                }
                lemma_cell_coords(w as int, h as int, k as int);
            }
            let mut row: Vec<bool> = Vec::new();
            match self.priors[k] {
                Some(t) => {
                    for ti in 0..n
                        invariant
                            row@.len() == ti,
                            t < n,
                            forall|t0: int| 0 <= t0 < ti ==> ((#[trigger] row@[t0]) <==> t0 == t),
                    {
                        row.push(ti == t);
                    }
                    dom.push(row);
                    let x = k % w;
                    let y = k / w;
                    let ghost qb = queue@;
                    queue.push_back((x, y));
                    proof {
                        assert(queue@[queue@.len() - 1] == (x, y));
                        assert forall|k0: int|
                            0 <= k0 < k + 1 && (#[trigger] priors[k0]) is Some implies
                            queue@.contains(
                            (((k0 % (w as int)) as usize), ((k0 / (w as int)) as usize)),
                        ) by {
                            if k0 < k {
                                let p = (((k0 % (w as int)) as usize), ((k0 / (w as int)) as usize));
                                assert(qb.contains(p));
                                let i = choose|i: int| 0 <= i < qb.len() && qb[i] == p;
                                assert(queue@[i] == p);
                            } else {
                                assert(queue@.contains((x, y)));
                            }
                        }
                    }
                },
                None => {
                    for ti in 0..n
                        invariant
                            row@.len() == ti,
                            forall|t0: int| 0 <= t0 < ti ==> (#[trigger] row@[t0]),
                    {
                        row.push(true);
                    }
                    dom.push(row);
                },
            }
        }
        proof {
            assert(dom_wf(dom@, w as int, h as int, n as int));
            assert(priors_respected(dom@, priors));
            if n >= 1 {
                assert forall|k0: int| 0 <= k0 < dom@.len() implies row_nonempty(
                    (#[trigger] dom@[k0])@,
                ) by {
                    if priors[k0] is None {
                        assert(dom@[k0]@[0]);
                    } else {
                        let t = priors[k0]->0;
                        assert(dom@[k0]@[t as int]);
                    }
                }
            }
            // with full domains everywhere else, full support makes every
            // arc out of an unqueued cell consistent
            if fully_supported(*cm) {
                assert forall|a: usize, b: usize, dd: Direction|
                    a < w && b < h && !queue@.contains((a, b)) implies #[trigger] arc_ok(
                    *cm,
                    dom@,
                    w as int,
                    h as int,
                    a as int,
                    b as int,
                    dd,
                ) by {
                    let nx = a + dx_spec(dd);
                    let ny = b + dy_spec(dd);
                    if in_grid(w as int, h as int, nx, ny) {
                        lemma_cell_of_in_range(w as int, h as int, nx, ny);
                        lemma_cell_of_in_range(w as int, h as int, a as int, b as int);
                        let sc = cell_of(w as int, a as int, b as int);
                        lemma_cell_coords(w as int, h as int, sc);
                        assert((sc % (w as int)) == a && (sc / (w as int)) == b) by {
                            lemma_cell_of_injective(
                                w as int,
                                h as int,
                                sc % (w as int),
                                sc / (w as int),
                                a as int,
                                b as int,
                            );
                        }
                        assert(priors[sc] is None) by {
                            if priors[sc] is Some {
                                assert(queue@.contains((a, b)));
                            }
                        }
                        let mc = cell_of(w as int, nx, ny);
                        assert forall|j: int|
                            0 <= j < dom@[mc]@.len() && (#[trigger] dom@[mc]@[j]) implies supports(
                            *cm,
                            dom@[sc]@,
                            dd,
                            j,
                        ) by {
                            assert(supported_in(*cm, dd, j));
                            let i0 = choose|i0: int|
                                0 <= i0 < cm.n && #[trigger] cm.compat(dd, i0, j);
                            assert(dom@[sc]@[i0]);
                        }
                    }
                }
            }
        }
        match propagate(cm, &mut dom, w, h, &mut queue) {
            Err(e) => {
                proof {
                    if all_compatible(*cm) && n >= 1 {
                        assert(false);
                    }
                    if w == 1 && h == 1 {
                        assert(false);
                    }
                }
                return Err(e);
            },
            Ok(()) => {},
        }
        let ghost dom_after_setup = dom@;
        proof {
            // under total incompatibility with room for an observation,
            // the setup queue must have been empty, so every domain is
            // still full
            if all_incompatible(*cm) && n >= 2 && w * h >= 2 {
                assert(doms_full(dom@)) by {
                    assert forall|k0: int, t: int|
                        #![trigger dom@[k0]@[t]]
                        0 <= k0 < dom@.len() && 0 <= t < dom@[k0]@.len() implies dom@[k0]@[t] by {
                        assert(!(priors[k0] is Some));
                    }
                }
            }
        }
        // observation: collapse the tightest undecided cell and re-propagate
        loop
            invariant
                dom_wf(dom@, w as int, h as int, n as int),
                queue@.len() == 0,
                priors_respected(dom@, priors),
                n >= 1 ==> doms_nonempty(dom@),
                fully_supported(*cm) ==> arcs_ok_except(
                    *cm,
                    dom@,
                    w as int,
                    h as int,
                    Seq::empty(),
                ),
                all_incompatible(*cm) && n >= 2 && w * h >= 2 ==> doms_full(dom@),
                self.w == w,
                self.h == h,
                self.priors@ == priors,
            decreases total_trues(dom@),
        {
            let best = find_min_multi(&dom);
            match best {
                None => {
                    break ;
                },
                Some(bk) => {
                    let ghost dom_pre_pick = dom@;
                    let allowed = allowed_tiles(&dom[bk]);
                    proof {
                        assert(count_trues(dom@[bk as int]@) > 1);
                        lemma_count_pos_exists(dom@[bk as int]@);
                        assert(allowed@.len() > 0);
                    }
                    let pick_i = rng_below(&mut self.rng, allowed.len());
                    let pick = allowed[pick_i];
                    set_singleton(&mut dom, bk, pick);
                    proof {
                        // the collapsed row keeps its prior, if any
                        assert forall|k0: int, t: int|
                            #![trigger dom@[k0]@[t]]
                            0 <= k0 < dom@.len() && k0 < priors.len() && 0 <= t < dom@[k0]@.len()
                                && dom@[k0]@[t] && priors[k0] is Some implies priors[k0] == Some(
                            t as usize,
                        ) by {
                            if k0 == bk {
                                assert(t == pick);
                                assert(dom_pre_pick[bk as int]@[pick as int]);
                            } else {
                                assert(dom@[k0] == dom_pre_pick[k0]);
                            }
                        }
                        if n >= 1 {
                            assert forall|k0: int| 0 <= k0 < dom@.len() implies row_nonempty(
                                (#[trigger] dom@[k0])@,
                            ) by {
                                if k0 == bk {
                                    assert(dom@[k0]@[pick as int]);
                                } else {
                                    assert(dom@[k0] == dom_pre_pick[k0]);
                                }
                            }
                        }
                        // the measure strictly drops at the observed cell
                        lemma_count_singleton(dom@[bk as int]@, pick as int);
                        assert forall|k0: int|
                            0 <= k0 < dom@.len() implies count_trues((#[trigger] dom@[k0])@)
                            <= count_trues(dom_pre_pick[k0]@) by {
                            if k0 == bk {
                            } else {
                                assert(dom@[k0] == dom_pre_pick[k0]);
                            }
                        }
                        lemma_total_pointwise(dom@, dom_pre_pick);
                        assert(total_trues(dom@) < total_trues(dom_pre_pick));
                        // the collapsed cell goes back on the queue with
                        // every arc from other cells still consistent
                        lemma_cell_coords(w as int, h as int, bk as int);
                    }
                    let bx = bk % w;
                    let by = bk / w;
                    let ghost qpre = queue@;
                    queue.push_back((bx, by));
                    let ghost dom_pre_prop = dom@;
                    proof {
                        assert(queue@ == qpre.push((bx, by)));
                        assert(queue@.len() == 1);
                        assert(queue@[0] == (bx, by));
                        if fully_supported(*cm) {
                            assert forall|a: usize, b: usize, dd: Direction|
                                a < w && b < h && !queue@.contains((a, b)) implies #[trigger] arc_ok(
                                *cm,
                                dom@,
                                w as int,
                                h as int,
                                a as int,
                                b as int,
                                dd,
                            ) by {
                                assert(arc_ok(
                                    *cm,
                                    dom_pre_pick,
                                    w as int,
                                    h as int,
                                    a as int,
                                    b as int,
                                    dd,
                                )) by {
                                    assert(!Seq::<(usize, usize)>::empty().contains((a, b)));
                                }
                                assert(!(a == bx && b == by)) by {
                                    if a == bx && b == by {
                                        assert(queue@[0] == (a, b));
                                    }
                                }
                                assert(cell_of(w as int, a as int, b as int) != bk) by {
                                    if cell_of(w as int, a as int, b as int) == bk {
                                        lemma_cell_of_injective(
                                            w as int,
                                            h as int,
                                            a as int,
                                            b as int,
                                            bk as int % (w as int),
                                            bk as int / (w as int),
                                        );
                                    }
                                }
                                lemma_arc_frame(
                                    *cm,
                                    dom_pre_pick,
                                    dom@,
                                    w as int,
                                    h as int,
                                    a as int,
                                    b as int,
                                    dd,
                                    bk as int,
                                );
                            }
                        }
                    }
                    match propagate(cm, &mut dom, w, h, &mut queue) {
                        Err(e) => {
                            proof {
                                if all_compatible(*cm) && n >= 1 {
                                    assert(doms_nonempty(dom_pre_prop));
                                    assert(false);
                                }
                                if w == 1 && h == 1 {
                                    assert(false);
                                }
                            }
                            return Err(e);
                        },
                        Ok(()) => {},
                    }
                    proof {
                        // the measure also never grows through propagation
                        assert forall|k0: int|
                            0 <= k0 < dom@.len() implies count_trues((#[trigger] dom@[k0])@)
                            <= count_trues(dom_pre_prop[k0]@) by {
                            lemma_count_subset(dom@[k0]@, dom_pre_prop[k0]@);
                        }
                        lemma_total_pointwise(dom@, dom_pre_prop);
                        if all_incompatible(*cm) && n >= 2 && w * h >= 2 {
                            assert(doms_nonempty(dom_pre_prop));
                            assert(false);
                        }
                    }
                },
            }
        }
        // every cell now holds at most one candidate; read the assignment
        proof {
            if all_incompatible(*cm) && n >= 2 && w * h >= 2 {
                lemma_cell_of_in_range(w as int, h as int, 0, 0);
                assert(dom@[0]@[0] && dom@[0]@[1]);
                lemma_count_two(dom@[0]@, 0, 1);
                assert(false);
            }
        }
        let mut out: Vec<((usize, usize), usize)> = Vec::new();
        for k in 0..total
            invariant
                out@.len() == k,
                forall|k0: int|
                    0 <= k0 < k ==> (#[trigger] out@[k0]).0.0 == k0 % (w as int) && out@[k0].0.1
                        == k0 / (w as int) && out@[k0].1 < n,
                forall|k0: int|
                    0 <= k0 < k ==> dom@[k0]@[(#[trigger] out@[k0]).1 as int],
        {
            proof {
                assert(w > 0 && h > 0) by {
                    assert(k < w * h);
                    if w == 0 || h == 0 {
                        assert(w * h == 0) by (nonlinear_arith)
                            requires
                                w == 0usize || h == 0usize,
                        ;
                    }
                }
                lemma_cell_coords(w as int, h as int, k as int);
            }
            let x = k % w;
            let y = k / w;
            match first_true(&dom[k]) {
                Some(t) => {
                    out.push(((x, y), t));
                },
                None => {
                    proof {
                        if n >= 1 {
                            assert(row_nonempty(dom@[k as int]@));
                            assert(false);
                        }
                        if all_compatible(*cm) && n >= 1 {
                            assert(false);
                        }
                    }
                    return Err(Contradiction { at: (x, y) });
                },
            }
        }
        proof {
            // adjacent assigned variants are compatible: each kept variant
            // is supported by its neighbor's sole remaining variant
            if fully_supported(*cm) {
                assert forall|k: int, d: Direction|
                    0 <= k < out@.len() implies #[trigger] adjacent_pair_ok(
                    *cm,
                    out@,
                    w as int,
                    h as int,
                    k,
                    d,
                ) by {
                    let x = out@[k].0.0;
                    let y = out@[k].0.1;
                    let nx = x + dx_spec(d);
                    let ny = y + dy_spec(d);
                    if in_grid(w as int, h as int, nx, ny) {
                        lemma_cell_coords(w as int, h as int, k);
                        lemma_cell_of_in_range(w as int, h as int, nx, ny);
                        assert(cell_of(w as int, x as int, y as int) == k);
                        let mcell = cell_of(w as int, nx, ny);
                        assert(arc_ok(*cm, dom@, w as int, h as int, x as int, y as int, d)) by {
                            assert(!Seq::<(usize, usize)>::empty().contains(
                                (x as usize, y as usize),
                            ));
                        }
                        let tm = out@[mcell].1;
                        assert(dom@[mcell]@[tm as int]);
                        assert(supports(*cm, dom@[k]@, d, tm as int));
                        let i0 = choose|i0: int|
                            0 <= i0 < dom@[k]@.len() && dom@[k]@[i0] && #[trigger] cm.compat(
                                d,
                                i0,
                                tm as int,
                            );
                        assert(count_trues(dom@[k]@) <= 1);
                        lemma_count_le_one_unique(dom@[k]@, i0, out@[k].1 as int);
                        assert(cm.compat(d, out@[k].1 as int, tm as int));
                    }
                }
            }
        }
        Ok(out)
    }
}

} // verus!
