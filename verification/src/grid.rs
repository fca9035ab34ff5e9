//! The uniform grid that bounds the search for neighbours.

use std::collections::HashMap;
use vstd::prelude::*;

verus! {

broadcast use vstd::std_specs::hash::group_hash_axioms;

/// The number under which the buckets are kept for the cell `(cx, cy)`.
/// Different cells have different numbers.
pub open spec fn cell_key(cx: isize, cy: isize) -> int {
    cx * 0x1_0000_0000_0000_0000 + (cy + 0x8000_0000_0000_0000)
}

/// The cell coordinate `c` brought onto a ring of `n` cells: the remainder of
/// the division of `c` by `n` that is not negative. A ring of no cells does not
/// wrap: the coordinate stays as it is, or becomes the nearest machine integer.
pub open spec fn wrap_cell(c: int, n: isize) -> isize {
    if n == 0 {
        if c < isize::MIN {
            isize::MIN
        } else if c > isize::MAX {
            isize::MAX
        } else {
            c as isize
        }
    } else {
        (c % (n as int)) as isize
    }
}

/// The `k`-th cell of the three-by-three block of cells around `(cx, cy)`, on
/// a torus of `cols` by `rows` cells. The block is counted column by column,
/// from the cell at `(-1, -1)`, which is the 0-th, to the one at `(1, 1)`.
pub open spec fn block_cell(cx: isize, cy: isize, cols: isize, rows: isize, k: int) -> (
    isize,
    isize,
) {
    (wrap_cell(cx + k / 3 - 1, cols), wrap_cell(cy + k % 3 - 1, rows))
}

/// A uniform grid over the plane: for each cell, the indices of the particles
/// that were put into it, in the order in which they were put.
pub struct SpatialGrid {
    buckets: HashMap<i128, Vec<usize>>,
}

fn key_of(cx: isize, cy: isize) -> (k: i128)
    ensures
        k == cell_key(cx, cy),
{
    let high: i128 = cx as i128 * 0x1_0000_0000_0000_0000i128;
    let low: i128 = cy as i128 + 0x8000_0000_0000_0000i128;
    high + low
}

/// The coordinate `c + d` brought onto a ring of `n` cells.
pub fn wrapped(c: isize, d: isize, n: isize) -> (r: isize)
    requires
        -1 <= d <= 1,
    ensures
        r == wrap_cell(c + d, n),
        n != 0 ==> 0 <= r,
        n > 0 ==> r < n,
        n < 0 ==> r < -n,
{
    let sum: i128 = c as i128 + d as i128;
    if n == 0 {
        if sum < isize::MIN as i128 {
            isize::MIN
        } else if sum > isize::MAX as i128 {
            isize::MAX
        } else {
            sum as isize
        }
    } else {
        match sum.checked_rem_euclid(n as i128) {
            Some(r) => r as isize,
            None => 0,
        }
    }
}

impl SpatialGrid {
    /// The indices in the cell `(cx, cy)`, in the order in which they were put
    /// there. A cell into which nothing was put is empty.
    pub closed spec fn bucket(&self, cx: isize, cy: isize) -> Seq<usize> {
        let k = cell_key(cx, cy) as i128;
        if self.buckets@.contains_key(k) {
            self.buckets@[k]@
        } else {
            Seq::empty()
        }
    }

    /// The indices in the first `n` cells of the three-by-three block around
    /// `(cx, cy)`, on the torus of `cols` by `rows` cells.
    pub open spec fn block(&self, cx: isize, cy: isize, cols: isize, rows: isize, n: int) -> Seq<
        usize,
    >
        decreases n,
    {
        if n <= 0 {
            Seq::empty()
        } else {
            self.block(cx, cy, cols, rows, n - 1) + self.bucket(
                block_cell(cx, cy, cols, rows, n - 1).0,
                block_cell(cx, cy, cols, rows, n - 1).1,
            )
        }
    }

    /// The indices in the cell `(cx, cy)` and in the eight cells around it.
    pub open spec fn neighborhood(&self, cx: isize, cy: isize, cols: isize, rows: isize) -> Seq<
        usize,
    > {
        self.block(cx, cy, cols, rows, 9)
    }

    /// Whether every index in the grid is below `n`.
    pub open spec fn below(&self, n: nat) -> bool {
        forall|cx: isize, cy: isize, k: int|
            0 <= k < self.bucket(cx, cy).len() ==> (#[trigger] self.bucket(cx, cy)[k]) < n
    }

    /// Where every index in the grid is below `n`, so is every index in a
    /// block of its cells.
    pub proof fn lemma_block_below(
        &self,
        cx: isize,
        cy: isize,
        cols: isize,
        rows: isize,
        count: int,
        n: nat,
    )
        requires
            self.below(n),
        ensures
            forall|k: int|
                0 <= k < self.block(cx, cy, cols, rows, count).len() ==> (#[trigger] self.block(
                    cx,
                    cy,
                    cols,
                    rows,
                    count,
                )[k]) < n,
        decreases count,
    {
        if count > 0 {
            self.lemma_block_below(cx, cy, cols, rows, count - 1, n);
            let cell = block_cell(cx, cy, cols, rows, count - 1);
            let head = self.block(cx, cy, cols, rows, count - 1);
            let tail = self.bucket(cell.0, cell.1);
            assert forall|k: int| 0 <= k < (head + tail).len() implies (#[trigger] (head + tail)[k])
                < n by {
                if k < head.len() {
                    assert((head + tail)[k] == head[k]);
                } else {
                    assert((head + tail)[k] == tail[k - head.len()]);
                    assert(self.bucket(cell.0, cell.1)[k - head.len()] < n);
                }
            }
        }
    }

    /// A grid with nothing in it.
    pub fn new() -> (grid: Self)
        ensures
            forall|cx: isize, cy: isize| (#[trigger] grid.bucket(cx, cy)).len() == 0,
    {
        SpatialGrid { buckets: HashMap::new() }
    }

    /// Empties every cell.
    pub fn clear(&mut self)
        ensures
            forall|cx: isize, cy: isize| (#[trigger] final(self).bucket(cx, cy)).len() == 0,
    {
        self.buckets.clear();
    }

    /// Puts the index `idx` at the end of the cell `(cx, cy)`. Every other cell
    /// stays as it is.
    pub fn insert(&mut self, cx: isize, cy: isize, idx: usize)
        ensures
            final(self).bucket(cx, cy) == old(self).bucket(cx, cy).push(idx),
            forall|x: isize, y: isize|
                x != cx || y != cy ==> (#[trigger] final(self).bucket(x, y)) == old(self).bucket(
                    x,
                    y,
                ),
    {
        let key: i128 = key_of(cx, cy);
        let mut bucket: Vec<usize> = match self.buckets.remove(&key) {
            Some(found) => found,
            None => Vec::new(),
        };
        bucket.push(idx);
        self.buckets.insert(key, bucket);
        assert(final(self).bucket(cx, cy) =~= old(self).bucket(cx, cy).push(idx));
    }

    /// The indices in the cell `(cx, cy)`; `None` only where the cell is empty.
    pub fn get(&self, cx: isize, cy: isize) -> (found: Option<&Vec<usize>>)
        ensures
            match found {
                Some(bucket) => bucket@ == self.bucket(cx, cy),
                None => self.bucket(cx, cy).len() == 0,
            },
    {
        let key: i128 = key_of(cx, cy);
        self.buckets.get(&key)
    }

    /// The indices in the cell `(cx, cy)` and in the eight cells around it, on
    /// the torus of `cols` by `rows` cells. Along an axis with no cells the
    /// block does not wrap.
    pub fn neighbors(&self, cx: isize, cy: isize, cols: isize, rows: isize) -> (found: Vec<usize>)
        ensures
            found@ == self.neighborhood(cx, cy, cols, rows),
    {
        let mut found: Vec<usize> = Vec::new();
        let mut dx: isize = -1;
        while dx <= 1
            invariant
                -1 <= dx <= 2,
                found@ == self.block(cx, cy, cols, rows, 3 * (dx + 1)),
            decreases 2 - dx,
        {
            let mut dy: isize = -1;
            while dy <= 1
                invariant
                    -1 <= dx <= 1,
                    -1 <= dy <= 2,
                    found@ == self.block(cx, cy, cols, rows, 3 * (dx + 1) + (dy + 1)),
                decreases 2 - dy,
            {
                let nx: isize = wrapped(cx, dx, cols);
                let ny: isize = wrapped(cy, dy, rows);
                let ghost before = found@;
                match self.get(nx, ny) {
                    Some(bucket) => {
                        let mut k: usize = 0;
                        while k < bucket.len()
                            invariant
                                k <= bucket.len(),
                                found@ == before + bucket@.subrange(0, k as int),
                            decreases bucket.len() - k,
                        {
                            found.push(bucket[k]);
                            k += 1;
                            assert(bucket@.subrange(0, k as int) == bucket@.subrange(
                                0,
                                k - 1,
                            ).push(bucket@[k - 1]));
                            assert(found@ =~= before + bucket@.subrange(0, k as int));
                        }
                        assert(bucket@.subrange(0, k as int) =~= bucket@);
                    },
                    None => {
                        assert(found@ =~= before + self.bucket(nx, ny));
                    },
                }
                dy += 1;
            }
            dx += 1;
        }
        found
    }
}

} // verus!
