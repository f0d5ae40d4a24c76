use vstd::prelude::*;

use crate::view::UNIT;

verus! {

/// Widest raster a row may be computed for; keeps the fixed-point column
/// arithmetic inside `u128`.
pub const MAX_WIDTH: usize = 65536;

/// One step of a path: the packed handle of the node the step visits (node
/// identifier in the upper bits, orientation in the lowest bit) and the
/// cumulative position of the step along the path.
#[derive(Clone, Copy, PartialEq, Eq, Structural, Debug)]
pub struct PathStep {
    pub handle: u64,
    pub pos: u64,
}

/// The node identifier packed into a handle.
pub open spec fn handle_node(h: u64) -> int {
    (h as int) / 2
}

/// The steps are sorted ascending by cumulative position.
pub open spec fn sorted_by_pos(s: Seq<PathStep>) -> bool {
    forall|i: int, j: int| 0 <= i <= j < s.len() ==> s[i].pos <= s[j].pos
}

/// A step table the row computation accepts: non-empty, sorted by position,
/// and every node identifier nonzero and small enough for a raster cell.
pub open spec fn steps_wf(s: Seq<PathStep>) -> bool {
    &&& s.len() > 0
    &&& sorted_by_pos(s)
    &&& forall|i: int|
        0 <= i < s.len() ==> 1 <= handle_node(#[trigger] s[i].handle) <= u32::MAX
}

/// How many steps lie strictly before position `p`: for a sorted table, the
/// lower insertion point of `p`.
pub open spec fn step_index(s: Seq<PathStep>, p: int) -> int
    decreases s.len(),
{
    if s.len() == 0 {
        0
    } else if (s.last().pos as int) < p {
        s.len() as int
    } else {
        step_index(s.drop_last(), p)
    }
}

/// The target coordinate of output column `x`: the visible window
/// `[left, right]` (in units of [`UNIT`]) mapped onto a path of total length
/// `plen`, with the column offset never less than one.
pub open spec fn col_target(left: u64, right: u64, plen: u64, width: int, x: int) -> int {
    let start = (left * plen) / (UNIT as int);
    let off = (x * (right - left) * plen) / ((UNIT as int) * width);
    start + if off < 1 {
        1
    } else {
        off
    }
}

/// The node identifier that output column `x` resolves to: the lower insertion
/// point of the column's target coordinate in the step table, clamped to the
/// last step.
pub open spec fn row_cell(s: Seq<PathStep>, left: u64, right: u64, width: int, x: int) -> u32
    recommends
        s.len() > 0,
{
    let p = col_target(left, right, s.last().pos, width, x);
    let si = step_index(s, p);
    let ix = if si > s.len() - 1 {
        s.len() - 1
    } else {
        si
    };
    (s[ix].handle / 2) as u32
}

pub(crate) proof fn lemma_mul_bound(a: int, b: int, amax: int, bmax: int)
    requires
        0 <= a <= amax,
        0 <= b <= bmax,
    ensures
        0 <= a * b <= amax * bmax,
{
    assert(0 <= a * b <= amax * bmax) by (nonlinear_arith)
        requires
            0 <= a <= amax,
            0 <= b <= bmax,
    ;
}

proof fn lemma_pos_le(s: Seq<PathStep>, i: int, j: int)
    requires
        forall|k: int| 0 <= k < s.len() - 1 ==> #[trigger] s[k].pos <= s[k + 1].pos,
        0 <= i <= j < s.len(),
    ensures
        s[i].pos <= s[j].pos,
    decreases j - i,
{
    if i < j {
        lemma_pos_le(s, i, j - 1);
        assert(s[j - 1].pos <= s[j].pos);
    }
}

/// A table whose adjacent steps are ordered is sorted.
pub proof fn lemma_sorted_from_adjacent(s: Seq<PathStep>)
    requires
        forall|k: int| 0 <= k < s.len() - 1 ==> #[trigger] s[k].pos <= s[k + 1].pos,
    ensures
        sorted_by_pos(s),
{
    assert forall|i: int, j: int| 0 <= i <= j < s.len() implies s[i].pos <= s[j].pos by {
        lemma_pos_le(s, i, j);
    }
}

/// For a sorted table, [`step_index`] splits the steps into those strictly
/// before `p` and those at or past it.
pub proof fn lemma_step_index_props(s: Seq<PathStep>, p: int)
    requires
        sorted_by_pos(s),
    ensures
        0 <= step_index(s, p) <= s.len(),
        forall|k: int| 0 <= k < step_index(s, p) ==> (s[k].pos as int) < p,
        forall|k: int| step_index(s, p) <= k < s.len() ==> (s[k].pos as int) >= p,
    decreases s.len(),
{
    if s.len() > 0 {
        if (s.last().pos as int) < p {
            assert forall|k: int| 0 <= k < s.len() implies (s[k].pos as int) < p by {
                assert(s[k].pos <= s[s.len() - 1].pos);
            }
        } else {
            let d = s.drop_last();
            assert(sorted_by_pos(d)) by {
                assert forall|i: int, j: int| 0 <= i <= j < d.len() implies d[i].pos <= d[j].pos by {
                    assert(s[i].pos <= s[j].pos);
                }
            }
            lemma_step_index_props(d, p);
            assert forall|k: int| 0 <= k < step_index(s, p) implies (s[k].pos as int) < p by {
                assert(d[k] == s[k]);
            }
            assert forall|k: int| step_index(s, p) <= k < s.len() implies (s[k].pos as int) >= p by {
                if k < s.len() - 1 {
                    assert(d[k] == s[k]);
                }
            }
        }
    }
}

/// The lower insertion point of position `p` in a sorted step table: every
/// step before the result lies strictly before `p`, every step from the result
/// on lies at or past it.
pub fn lower_bound(steps: &Vec<PathStep>, p: u128) -> (ix: usize)
    requires
        sorted_by_pos(steps@),
    ensures
        ix == step_index(steps@, p as int),
{
    let n: usize = steps.len();
    let mut lo: usize = 0;
    let mut hi: usize = n;
    while lo < hi
        invariant
            lo <= hi <= n,
            n == steps@.len(),
            sorted_by_pos(steps@),
            forall|k: int| 0 <= k < lo ==> (steps@[k].pos as int) < p as int,
            forall|k: int| hi <= k < n ==> (steps@[k].pos as int) >= p as int,
        decreases hi - lo,
    {
        let mid: usize = lo + (hi - lo) / 2;
        if (steps[mid].pos as u128) < p {
            proof {
                assert forall|k: int| 0 <= k < mid + 1 implies (steps@[k].pos as int) < p as int by {
                    assert(steps@[k].pos <= steps@[mid as int].pos);
                }
            }
            lo = mid + 1;
        } else {
            proof {
                assert forall|k: int| mid <= k < n implies (steps@[k].pos as int) >= p as int by {
                    assert(steps@[mid as int].pos <= steps@[k].pos);
                }
            }
            hi = mid;
        }
    }
    proof {
        lemma_step_index_props(steps@, p as int);
        let si: int = step_index(steps@, p as int);
        if (lo as int) < si {
            assert((steps@[lo as int].pos as int) < p as int);
            assert((steps@[lo as int].pos as int) >= p as int);
        }
        if si < lo as int {
            assert((steps@[si].pos as int) >= p as int);
            assert((steps@[si].pos as int) < p as int);
        }
    }
    lo
}

/// Whether a step table is one the row computation accepts; rejects the empty
/// table, unsorted positions, and node identifiers outside the raster range.
pub fn steps_valid(steps: &Vec<PathStep>) -> (ok: bool)
    ensures
        ok == steps_wf(steps@),
{
    let n: usize = steps.len();
    if n == 0 {
        return false;
    }
    let mut i: usize = 0;
    while i < n
        invariant
            i <= n,
            n == steps@.len(),
            forall|k: int| 0 <= k < i ==> 1 <= handle_node(#[trigger] steps@[k].handle) <= u32::MAX,
            forall|k: int|
                0 <= k < i && k + 1 < n ==> #[trigger] steps@[k].pos <= steps@[k + 1].pos,
        decreases n - i,
    {
        let id: u64 = steps[i].handle / 2;
        if id < 1 || id > u32::MAX as u64 {
            return false;
        }
        if i + 1 < n {
            if steps[i].pos > steps[i + 1].pos {
                return false;
            }
        }
        i += 1;
    }
    proof {
        lemma_sorted_from_adjacent(steps@);
    }
    true
}

/// Compute one row of the raster: for each of `width` output columns, the node
/// identifier of the step covering that column's target coordinate, by lower
/// insertion point against the cumulative positions, clamped to the last step.
pub fn compute_row(steps: &Vec<PathStep>, left: u64, right: u64, width: usize) -> (row: Vec<u32>)
    requires
        steps_wf(steps@),
        left <= right,
        right <= UNIT,
        1 <= width <= MAX_WIDTH,
    ensures
        row@.len() == width,
        forall|x: int|
            0 <= x < width ==> row@[x] == row_cell(steps@, left, right, width as int, x),
        forall|x: int| 0 <= x < width ==> row@[x] >= 1,
{
    let n: usize = steps.len();
    let plen: u64 = steps[n - 1].pos;
    proof {
        lemma_mul_bound(left as int, plen as int, UNIT as int, u64::MAX as int);
    }
    let start: u128 = ((left as u128) * (plen as u128)) / (UNIT as u128);
    proof {
        vstd::arithmetic::div_mod::lemma_div_nonincreasing(
            (left as int) * (plen as int),
            UNIT as int,
        );
    }
    let span: u64 = right - left;
    let denom: u128 = (UNIT as u128) * (width as u128);
    let mut row: Vec<u32> = Vec::new();
    let mut x: usize = 0;
    while x < width
        invariant
            x <= width,
            1 <= width <= MAX_WIDTH,
            steps_wf(steps@),
            left <= right <= UNIT,
            n == steps@.len(),
            plen == steps@.last().pos,
            span == right - left,
            start == (left * plen) / (UNIT as int),
            start <= (UNIT as int) * (u64::MAX as int),
            denom == (UNIT as int) * (width as int),
            row@.len() == x,
            forall|k: int|
                0 <= k < x ==> row@[k] == row_cell(steps@, left, right, width as int, k),
            forall|k: int| 0 <= k < x ==> row@[k] >= 1,
        decreases width - x,
    {
        proof {
            lemma_mul_bound(x as int, span as int, MAX_WIDTH as int, UNIT as int);
            lemma_mul_bound(
                (x as int) * (span as int),
                plen as int,
                (MAX_WIDTH as int) * (UNIT as int),
                u64::MAX as int,
            );
        }
        let num: u128 = ((x as u128) * (span as u128)) * (plen as u128);
        let off: u128 = num / denom;
        proof {
            vstd::arithmetic::div_mod::lemma_div_nonincreasing(num as int, denom as int);
        }
        let p: u128 = start + (if off < 1 {
            1
        } else {
            off
        });
        let found: usize = lower_bound(steps, p);
        let ix: usize = if found > n - 1 {
            n - 1
        } else {
            found
        };
        let id: u64 = steps[ix].handle / 2;
        row.push(id as u32);
        proof {
            assert(p as int == col_target(left, right, plen, width as int, x as int));
        }
        x += 1;
    }
    row
}

} // verus!
