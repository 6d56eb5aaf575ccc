//! Nearest-prototype selection in discrete level space.
//!
//! A prototype's score against a point is `sqrt(d2) + pen/2`, where `d2` is
//! the squared Euclidean distance across the five level dimensions
//! (wildcards contribute zero) and `pen` is 1 when the prototype's
//! weirdness-sign requirement disagrees with the point's sign, else 0.
//! Scores are never materialized as reals: the strict order between two
//! scores is decided exactly over the integers `d2` and `pen` alone, by
//! squaring away the roots (see `score_lt_spec`).

use vstd::prelude::*;

use crate::biome::BIOME_COUNT;
use crate::biome::Biome;
use crate::biome::BiomeReq;
use crate::biome::WeirdnessSign;
use crate::biome::biome_index_spec;
use crate::biome::biome_of_index_spec;
use crate::biome::requirements_spec;
use crate::climate::Point;

verus! {

pub open spec fn sq(x: int) -> int {
    x * x
}

pub proof fn lemma_sq_bound(x: int, b: int)
    requires
        -b <= x <= b,
        0 <= b,
    ensures
        0 <= sq(x) <= b * b,
{
    assert(0 <= x * x <= b * b) by (nonlinear_arith)
        requires
            -b <= x <= b,
            0 <= b,
    ;
}

/// The level a prototype asks for in one dimension: its own target, or the
/// query's level where the prototype holds a wildcard.
pub open spec fn req_level_or(r: Option<u32>, own: u32) -> u32 {
    match r {
        Some(v) => v,
        None => own,
    }
}

/// Squared Euclidean distance between a prototype and a point across the
/// five level dimensions; a wildcard dimension contributes zero.
pub open spec fn score_d2_spec(r: BiomeReq, p: Point) -> int {
    sq(req_level_or(r.temp_level, p.temperature_level) - p.temperature_level) + sq(
        req_level_or(r.humidity_level, p.humidity_level) - p.humidity_level,
    ) + sq(
        req_level_or(r.continentalness_level, p.continentalness_level) - p.continentalness_level,
    ) + sq(req_level_or(r.erosion_level, p.erosion_level) - p.erosion_level) + sq(
        req_level_or(r.pv_level, p.peaks_and_valleys_level) - p.peaks_and_valleys_level,
    )
}

/// Weirdness penalty in half units: 1 iff the prototype requires a sign the
/// point does not have.
pub open spec fn score_pen_spec(r: BiomeReq, p: Point) -> int {
    match r.weirdness {
        WeirdnessSign::Any => 0,
        WeirdnessSign::Positive => if p.is_weird {
            0
        } else {
            1
        },
        WeirdnessSign::Negative => if p.is_weird {
            1
        } else {
            0
        },
    }
}

/// Exactly when `sqrt(a2) + ap/2 < sqrt(b2) + bp/2`, for `a2, b2 >= 0` and
/// penalties `ap, bp` in `{0, 1}` (half units). With equal penalties the
/// roots compare as their radicands. Otherwise multiply by 2 and square:
/// `2*sqrt(a2) < 2*sqrt(b2) + 1` iff `4*a2 - 4*b2 - 1 < 4*sqrt(b2)`, which
/// holds iff the left side is negative or its square is below `16*b2`; the
/// opposite penalty case is symmetric.
pub open spec fn score_lt_spec(a2: int, ap: int, b2: int, bp: int) -> bool {
    if ap == bp {
        a2 < b2
    } else if ap < bp {
        let l = 4 * a2 - 4 * b2 - 1;
        l < 0 || l * l < 16 * b2
    } else {
        let m = 4 * b2 - 4 * a2 - 1;
        m > 0 && m * m > 16 * a2
    }
}

/// Decides `score_lt_spec` at run time.
fn score_lt(a2: i64, ap: i64, b2: i64, bp: i64) -> (r: bool)
    requires
        0 <= a2 <= 0x2000_0000,
        0 <= b2 <= 0x2000_0000,
        0 <= ap <= 1,
        0 <= bp <= 1,
    ensures
        r == score_lt_spec(a2 as int, ap as int, b2 as int, bp as int),
{
    if ap == bp {
        a2 < b2
    } else if ap < bp {
        let l = 4 * a2 - 4 * b2 - 1;
        proof {
            lemma_sq_bound(l as int, 0x8000_0001);
        }
        l < 0 || l * l < 16 * b2
    } else {
        let m = 4 * b2 - 4 * a2 - 1;
        proof {
            lemma_sq_bound(m as int, 0x8000_0001);
        }
        m > 0 && m * m > 16 * a2
    }
}

impl BiomeReq {
    /// Every declared target level is small enough for exact score
    /// arithmetic in 64 bits.
    pub open spec fn bounded(self) -> bool {
        &&& (self.temp_level matches Some(v) ==> v <= 1000)
        &&& (self.humidity_level matches Some(v) ==> v <= 1000)
        &&& (self.continentalness_level matches Some(v) ==> v <= 1000)
        &&& (self.erosion_level matches Some(v) ==> v <= 1000)
        &&& (self.pv_level matches Some(v) ==> v <= 1000)
    }
}

fn level_diff(r: Option<u32>, own: u32) -> (d: i64)
    requires
        (r matches Some(v) ==> v <= 1000),
        own <= 1000,
    ensures
        d == req_level_or(r, own) - own,
        -1000 <= d <= 1000,
{
    match r {
        Some(v) => v as i64 - own as i64,
        None => 0,
    }
}

/// Squared level-space distance, computed exactly.
fn score_d2(r: &BiomeReq, p: &Point) -> (d2: i64)
    requires
        r.bounded(),
        p.wf(),
    ensures
        d2 == score_d2_spec(*r, *p),
        0 <= d2 <= 5_000_000,
{
    let dt = level_diff(r.temp_level, p.temperature_level);
    let dh = level_diff(r.humidity_level, p.humidity_level);
    let dc = level_diff(r.continentalness_level, p.continentalness_level);
    let de = level_diff(r.erosion_level, p.erosion_level);
    let dp = level_diff(r.pv_level, p.peaks_and_valleys_level);
    proof {
        lemma_sq_bound(dt as int, 1000);
        lemma_sq_bound(dh as int, 1000);
        lemma_sq_bound(dc as int, 1000);
        lemma_sq_bound(de as int, 1000);
        lemma_sq_bound(dp as int, 1000);
    }
    dt * dt + dh * dh + dc * dc + de * de + dp * dp
}

/// Weirdness penalty in half units.
fn score_pen(r: &BiomeReq, p: &Point) -> (pen: i64)
    ensures
        pen == score_pen_spec(*r, *p),
        0 <= pen <= 1,
{
    match r.weirdness {
        WeirdnessSign::Any => 0,
        WeirdnessSign::Positive => if p.is_weird {
            0
        } else {
            1
        },
        WeirdnessSign::Negative => if p.is_weird {
            1
        } else {
            0
        },
    }
}

/// Index of the prototype of minimum score, scanning left to right and
/// replacing the incumbent only on a strict improvement, so that ties keep
/// the earliest prototype.
pub open spec fn argmin_reqs_spec(reqs: Seq<BiomeReq>, p: Point) -> int
    decreases reqs.len(),
{
    if reqs.len() <= 1 {
        0
    } else {
        let r = argmin_reqs_spec(reqs.drop_last(), p);
        let last = reqs.len() - 1;
        if score_lt_spec(
            score_d2_spec(reqs[last], p),
            score_pen_spec(reqs[last], p),
            score_d2_spec(reqs[r], p),
            score_pen_spec(reqs[r], p),
        ) {
            last
        } else {
            r
        }
    }
}

/// The score order is transitive: since `score_lt_spec` encodes the
/// strict order of `sqrt(d2) + pen/2` exactly, two chained comparisons
/// chain.
pub proof fn lemma_score_lt_trans(a2: int, ap: int, b2: int, bp: int, c2: int, cp: int)
    requires
        a2 >= 0 && b2 >= 0 && c2 >= 0,
        0 <= ap <= 1 && 0 <= bp <= 1 && 0 <= cp <= 1,
        score_lt_spec(a2, ap, b2, bp),
        score_lt_spec(b2, bp, c2, cp),
    ensures
        score_lt_spec(a2, ap, c2, cp),
{
    if ap == bp && bp == cp {
    } else if ap == bp && bp < cp {
        // a < b and sqrt(b) < sqrt(c) + 1/2
        let lb = 4 * b2 - 4 * c2 - 1;
        let la = 4 * a2 - 4 * c2 - 1;
        assert(la < lb);
        if la >= 0 {
            assert(lb * lb < 16 * c2);
            assert(la * la < 16 * c2) by (nonlinear_arith)
                requires
                    0 <= la < lb,
                    lb * lb < 16 * c2,
            ;
        }
    } else if ap == bp && bp > cp {
        let mb = 4 * c2 - 4 * b2 - 1;
        let ma = 4 * c2 - 4 * a2 - 1;
        assert(ma > mb);
        assert(ma * ma > 16 * a2) by (nonlinear_arith)
            requires
                ma > mb > 0,
                mb * mb > 16 * b2,
                a2 < b2,
                a2 >= 0,
        ;
    } else if ap < bp && bp == cp {
        // sqrt(a) < sqrt(b) + 1/2 and b < c
        let lb = 4 * a2 - 4 * b2 - 1;
        let lc = 4 * a2 - 4 * c2 - 1;
        assert(lc < lb);
        if lc >= 0 {
            assert(lc * lc < 16 * c2) by (nonlinear_arith)
                requires
                    0 <= lc < lb,
                    lb * lb < 16 * b2,
                    b2 < c2,
            ;
        }
    } else if ap > bp && bp == cp {
        let ma = 4 * b2 - 4 * a2 - 1;
        let mc = 4 * c2 - 4 * a2 - 1;
        assert(mc > ma);
        assert(mc * mc > 16 * a2) by (nonlinear_arith)
            requires
                mc > ma > 0,
                ma * ma > 16 * a2,
        ;
    } else if ap < bp && bp > cp {
        // ap == cp: sqrt(a) < sqrt(b) + 1/2 and sqrt(b) + 1/2 < sqrt(c)
        let l = 4 * a2 - 4 * b2 - 1;
        let m = 4 * c2 - 4 * b2 - 1;
        // sqrt(a) < sqrt(b) + 1/2 < sqrt(c) - ... gives a < c
        assert(a2 < c2) by (nonlinear_arith)
            requires
                a2 >= 0 && b2 >= 0 && c2 >= 0,
                l == 4 * a2 - 4 * b2 - 1,
                m == 4 * c2 - 4 * b2 - 1,
                l < 0 || l * l < 16 * b2,
                m > 0 && m * m > 16 * b2,
        ;
    } else {
        // ap > bp && bp < cp, so ap == cp == 1, bp == 0:
        // sqrt(a) + 1/2 < sqrt(b) and sqrt(b) < sqrt(c) + 1/2 gives a < c
        let m = 4 * b2 - 4 * a2 - 1;
        let l = 4 * b2 - 4 * c2 - 1;
        assert(a2 < c2) by (nonlinear_arith)
            requires
                a2 >= 0 && b2 >= 0 && c2 >= 0,
                m == 4 * b2 - 4 * a2 - 1,
                l == 4 * b2 - 4 * c2 - 1,
                m > 0 && m * m > 16 * a2,
                l < 0 || l * l < 16 * c2,
        ;
    }
}

pub proof fn lemma_argmin_in_range(reqs: Seq<BiomeReq>, p: Point)
    requires
        reqs.len() > 0,
    ensures
        0 <= argmin_reqs_spec(reqs, p) < reqs.len(),
    decreases reqs.len(),
{
    if reqs.len() > 1 {
        lemma_argmin_in_range(reqs.drop_last(), p);
    }
}

/// Select the minimum-score prototype of a non-empty table, earliest first
/// on ties: no entry scores strictly below the selected one.
pub fn pick_min_req(reqs: &Vec<BiomeReq>, p: &Point) -> (idx: usize)
    requires
        reqs@.len() > 0,
        p.wf(),
        forall|i: int| 0 <= i < reqs@.len() ==> (#[trigger] reqs@[i]).bounded(),
    ensures
        idx < reqs@.len(),
        idx == argmin_reqs_spec(reqs@, *p),
        forall|j: int|
            0 <= j < reqs@.len() ==> !score_lt_spec(
                score_d2_spec(#[trigger] reqs@[j], *p),
                score_pen_spec(reqs@[j], *p),
                score_d2_spec(reqs@[idx as int], *p),
                score_pen_spec(reqs@[idx as int], *p),
            ),
{
    proof {
        lemma_argmin_minimal(reqs@, *p);
    }
    let mut best: usize = 0;
    let mut best_d2: i64 = score_d2(&reqs[0], p);
    let mut best_pen: i64 = score_pen(&reqs[0], p);
    let n = reqs.len();
    assert(reqs@.take(1).drop_last() =~= reqs@.take(0));
    for j in 1..n
        invariant
            n == reqs@.len(),
            0 <= best < j <= n,
            p.wf(),
            forall|i: int| 0 <= i < reqs@.len() ==> (#[trigger] reqs@[i]).bounded(),
            best == argmin_reqs_spec(reqs@.take(j as int), *p),
            best_d2 == score_d2_spec(reqs@[best as int], *p),
            best_pen == score_pen_spec(reqs@[best as int], *p),
            0 <= best_d2 <= 5_000_000,
            0 <= best_pen <= 1,
    {
        let d2 = score_d2(&reqs[j], p);
        let pen = score_pen(&reqs[j], p);
        proof {
            assert(reqs@.take(j + 1).drop_last() =~= reqs@.take(j as int));
            assert(reqs@.take(j + 1)[j as int] == reqs@[j as int]);
            assert(reqs@.take(j + 1)[best as int] == reqs@[best as int]);
        }
        if score_lt(d2, pen, best_d2, best_pen) {
            best = j;
            best_d2 = d2;
            best_pen = pen;
        }
    }
    proof {
        assert(reqs@.take(n as int) =~= reqs@);
    }
    best
}

pub proof fn lemma_sq_nonneg(x: int)
    ensures
        sq(x) >= 0,
{
    assert(x * x >= 0) by (nonlinear_arith);
}

pub proof fn lemma_score_nonneg(r: BiomeReq, p: Point)
    ensures
        score_d2_spec(r, p) >= 0,
        0 <= score_pen_spec(r, p) <= 1,
{
    lemma_sq_nonneg(req_level_or(r.temp_level, p.temperature_level) - p.temperature_level);
    lemma_sq_nonneg(req_level_or(r.humidity_level, p.humidity_level) - p.humidity_level);
    lemma_sq_nonneg(
        req_level_or(r.continentalness_level, p.continentalness_level) - p.continentalness_level,
    );
    lemma_sq_nonneg(req_level_or(r.erosion_level, p.erosion_level) - p.erosion_level);
    lemma_sq_nonneg(
        req_level_or(r.pv_level, p.peaks_and_valleys_level) - p.peaks_and_valleys_level,
    );
}

/// A zero score is strictly below every other score: `sqrt(0) + 0` against
/// `sqrt(b2) + bp/2`.
pub proof fn lemma_zero_score_strict_min(b2: int, bp: int)
    requires
        b2 >= 0,
        0 <= bp <= 1,
    ensures
        score_lt_spec(0, 0, b2, bp) <==> !(b2 == 0 && bp == 0),
        !score_lt_spec(b2, bp, 0, 0),
{
    lemma_sq_nonneg(4 * 0 - 4 * b2 - 1);
    lemma_sq_nonneg(4 * b2 - 4 * 0 - 1);
    lemma_sq_nonneg(4 * 0 - 4 * 0 - 1);
}

/// A prototype whose score against a point is exactly zero wins the scan,
/// provided no earlier prototype also scores zero.
pub proof fn lemma_argmin_zero_score(reqs: Seq<BiomeReq>, p: Point, k: int)
    requires
        0 <= k < reqs.len(),
        score_d2_spec(reqs[k], p) == 0,
        score_pen_spec(reqs[k], p) == 0,
        forall|j: int|
            0 <= j < k ==> !(score_d2_spec(#[trigger] reqs[j], p) == 0 && score_pen_spec(
                reqs[j],
                p,
            ) == 0),
    ensures
        argmin_reqs_spec(reqs, p) == k,
    decreases reqs.len(),
{
    let n = reqs.len() as int;
    if k == n - 1 {
        if n > 1 {
            lemma_argmin_in_range(reqs.drop_last(), p);
            let r = argmin_reqs_spec(reqs.drop_last(), p);
            assert(reqs.drop_last()[r] == reqs[r]);
            lemma_score_nonneg(reqs[r], p);
            lemma_zero_score_strict_min(score_d2_spec(reqs[r], p), score_pen_spec(reqs[r], p));
        }
    } else {
        assert(reqs.drop_last()[k] == reqs[k]);
        assert(forall|j: int| 0 <= j < k ==> reqs.drop_last()[j] == reqs[j]);
        lemma_argmin_zero_score(reqs.drop_last(), p, k);
        lemma_score_nonneg(reqs[n - 1], p);
        lemma_zero_score_strict_min(score_d2_spec(reqs[n - 1], p), score_pen_spec(reqs[n - 1], p));
    }
}

/// The scan really selects a minimum: no prototype of the table scores
/// strictly below the selected one.
pub proof fn lemma_argmin_minimal(reqs: Seq<BiomeReq>, p: Point)
    requires
        reqs.len() > 0,
    ensures
        forall|j: int|
            0 <= j < reqs.len() ==> !score_lt_spec(
                score_d2_spec(#[trigger] reqs[j], p),
                score_pen_spec(reqs[j], p),
                score_d2_spec(reqs[argmin_reqs_spec(reqs, p)], p),
                score_pen_spec(reqs[argmin_reqs_spec(reqs, p)], p),
            ),
    decreases reqs.len(),
{
    lemma_argmin_in_range(reqs, p);
    if reqs.len() > 1 {
        let pre = reqs.drop_last();
        lemma_argmin_minimal(pre, p);
        lemma_argmin_in_range(pre, p);
        let r = argmin_reqs_spec(pre, p);
        let last = reqs.len() - 1;
        let rr = argmin_reqs_spec(reqs, p);
        assert forall|j: int|
            0 <= j < reqs.len() implies !score_lt_spec(
            score_d2_spec(#[trigger] reqs[j], p),
            score_pen_spec(reqs[j], p),
            score_d2_spec(reqs[rr], p),
            score_pen_spec(reqs[rr], p),
        ) by {
            lemma_score_nonneg(reqs[j], p);
            lemma_score_nonneg(reqs[r], p);
            lemma_score_nonneg(reqs[last], p);
            assert(pre[r] == reqs[r]);
            if score_lt_spec(
                score_d2_spec(reqs[last], p),
                score_pen_spec(reqs[last], p),
                score_d2_spec(reqs[r], p),
                score_pen_spec(reqs[r], p),
            ) {
                assert(rr == last);
                if j < last {
                    assert(pre[j] == reqs[j]);
                    if score_lt_spec(
                        score_d2_spec(reqs[j], p),
                        score_pen_spec(reqs[j], p),
                        score_d2_spec(reqs[last], p),
                        score_pen_spec(reqs[last], p),
                    ) {
                        lemma_score_lt_trans(
                            score_d2_spec(reqs[j], p),
                            score_pen_spec(reqs[j], p),
                            score_d2_spec(reqs[last], p),
                            score_pen_spec(reqs[last], p),
                            score_d2_spec(reqs[r], p),
                            score_pen_spec(reqs[r], p),
                        );
                    }
                }
            } else {
                assert(rr == r);
                if j < last {
                    assert(pre[j] == reqs[j]);
                }
            }
        }
    }
}

/// The biome prototype table in enumeration order.
pub open spec fn biome_req_table() -> Seq<BiomeReq> {
    Seq::new(BIOME_COUNT as nat, |i: int| requirements_spec(biome_of_index_spec(i)))
}

/// The biome a point selects: minimum score against the prototype table,
/// first in enumeration order among ties.
pub open spec fn pick_biome_spec(p: Point) -> Biome {
    biome_of_index_spec(argmin_reqs_spec(biome_req_table(), p))
}

/// Pick the biome for a classified point. Total: every well-formed point
/// selects exactly one biome, and none of the alphabet scores strictly
/// below it.
pub fn pick_biome(p: &Point) -> (b: Biome)
    requires
        p.wf(),
    ensures
        b == pick_biome_spec(*p),
        forall|c: Biome|
            !score_lt_spec(
                score_d2_spec(#[trigger] requirements_spec(c), *p),
                score_pen_spec(requirements_spec(c), *p),
                score_d2_spec(requirements_spec(b), *p),
                score_pen_spec(requirements_spec(b), *p),
            ),
{
    proof {
        lemma_pick_biome_minimal(*p);
    }
    let mut reqs: Vec<BiomeReq> = Vec::new();
    for i in 0..BIOME_COUNT
        invariant
            reqs@.len() == i,
            forall|j: int| 0 <= j < i ==> reqs@[j] == biome_req_table()[j],
            forall|j: int| 0 <= j < i ==> (#[trigger] reqs@[j]).bounded(),
    {
        let b = Biome::from_index(i);
        let r = b.requirements();
        reqs.push(r);
    }
    proof {
        assert(reqs@ =~= biome_req_table());
        lemma_argmin_in_range(biome_req_table(), *p);
    }
    let idx = pick_min_req(&reqs, p);
    Biome::from_index(idx as u32)
}

/// A point whose levels equal a prototype's declared levels, with a
/// weirdness sign the prototype accepts, scores zero against it and
/// therefore selects that biome — unless an earlier biome of the
/// enumeration order also ties at score zero, in which case the earlier one
/// wins (and this lemma's last premise fails).
pub proof fn lemma_pick_exact_match(p: Point, b: Biome)
    requires
        score_d2_spec(requirements_spec(b), p) == 0,
        score_pen_spec(requirements_spec(b), p) == 0,
        forall|c: Biome|
            biome_index_spec(c) < biome_index_spec(b) ==> !(score_d2_spec(
                #[trigger] requirements_spec(c),
                p,
            ) == 0 && score_pen_spec(requirements_spec(c), p) == 0),
    ensures
        pick_biome_spec(p) == b,
{
    let table = biome_req_table();
    let k = biome_index_spec(b);
    Biome::lemma_index_roundtrip(b);
    assert(table[k] == requirements_spec(b));
    assert forall|j: int| 0 <= j < k implies !(score_d2_spec(#[trigger] table[j], p) == 0
        && score_pen_spec(table[j], p) == 0) by {
        Biome::lemma_of_index_roundtrip(j);
        let c = biome_of_index_spec(j);
        assert(table[j] == requirements_spec(c));
        assert(biome_index_spec(c) < biome_index_spec(b));
    }
    lemma_argmin_zero_score(table, p, k);
}

/// The picker selects a prototype of minimum score: no biome of the
/// alphabet scores strictly below the picked one against the same point.
pub proof fn lemma_pick_biome_minimal(p: Point)
    ensures
        forall|b: Biome|
            !score_lt_spec(
                score_d2_spec(#[trigger] requirements_spec(b), p),
                score_pen_spec(requirements_spec(b), p),
                score_d2_spec(requirements_spec(pick_biome_spec(p)), p),
                score_pen_spec(requirements_spec(pick_biome_spec(p)), p),
            ),
{
    let table = biome_req_table();
    lemma_argmin_minimal(table, p);
    lemma_argmin_in_range(table, p);
    let r = argmin_reqs_spec(table, p);
    assert(table[r] == requirements_spec(biome_of_index_spec(r)));
    assert forall|b: Biome|
        !score_lt_spec(
            score_d2_spec(#[trigger] requirements_spec(b), p),
            score_pen_spec(requirements_spec(b), p),
            score_d2_spec(requirements_spec(pick_biome_spec(p)), p),
            score_pen_spec(requirements_spec(pick_biome_spec(p)), p),
        ) by {
        Biome::lemma_index_roundtrip(b);
        let j = biome_index_spec(b);
        assert(table[j] == requirements_spec(b));
    }
}

impl Point {
    /// The biome this classified point selects.
    pub fn get_biome(&self) -> (b: Biome)
        requires
            self.wf(),
        ensures
            b == pick_biome_spec(*self),
    {
        pick_biome(self)
    }
}

} // verus!
