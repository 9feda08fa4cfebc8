//! A cyclic cellular automaton on a toroidal 2D grid.
//!
//! The grid is two-dimensional but stored as a flat vector: the cell at
//! `(x, y)` lives at linear index `x + y * width`. Every cell holds a state
//! in `[0, num_states)`. Each generation, a cell whose 8 Moore neighbours
//! hold its successor state `(s + 1) % num_states` at least `threshold`
//! times is consumed and advances to that successor; otherwise it keeps its
//! state. All cells step synchronously from the same frozen snapshot.

use rand::Rng;
use rand::SeedableRng;
use rayon::iter::IntoParallelIterator;
use rayon::iter::ParallelIterator;
use vstd::prelude::*;

verus! {

/// The sequence of `count` uniform draws over `[0, num_states)` that a
/// pseudo-random generator seeded with `seed` produces. The generator is a
/// pure function of the seed, so the sequence is fully determined by the
/// three arguments; what it is on given values is not stated here.
pub uninterp spec fn random_states(seed: u64, count: usize, num_states: u8) -> Seq<u8>;

/// Relies on rand's `StdRng::seed_from_u64`, `Uniform::from(0..num_states)`
/// and `Rng::sample_iter`: a seeded `StdRng` is deterministic, so the draws
/// are a function of `(seed, count, num_states)` alone; each draw falls in
/// `[0, num_states)` (the range must be non-empty, or `Uniform::new`
/// panics, hence the `requires`); and `take(count)` of the endless sample
/// iterator yields exactly `count` draws.
#[verifier::external_body]
fn sample_states(seed: u64, count: usize, num_states: u8) -> (r: Vec<u8>)
    requires
        num_states >= 1,
    ensures
        r@ == random_states(seed, count, num_states),
        r@.len() == count,
        forall|i: int| 0 <= i < r@.len() ==> r@[i] < num_states,
{
    let rng = rand::rngs::StdRng::seed_from_u64(seed);
    let dist = rand::distributions::Uniform::from(0..num_states);
    rng.sample_iter(&dist).take(count).collect()
}

/// Relies on rayon's `into_par_iter`, `map` and `collect` on a range:
/// collecting a mapped range into a `Vec` keeps the items in index order
/// (`ParallelIterator::collect` documents a collected range equal to the
/// sequential one), so entry `i` holds the result of the verified
/// `update_cell(i)`, whose contract gives `transition_at(i)`. The closure
/// only calls `update_cell`; the `requires` here guarantees its
/// precondition for every index in the range.
#[verifier::external_body]
fn par_next_grid(a: &CyclicAutomaton) -> (r: Vec<u8>)
    requires
        a.wf(),
    ensures
        r@.len() == a.grid@.len(),
        forall|i: int| 0 <= i < r@.len() ==> r@[i] == a.transition_at(i),
        forall|i: int| 0 <= i < r@.len() ==> r@[i] < a.num_states,
{
    (0..a.grid.len()).into_par_iter().map(|index| a.update_cell(index)).collect()
}

/// The x-offset of the k-th Moore-neighbourhood direction, in the fixed
/// enumeration order (-1,-1), (-1,0), (-1,1), (0,-1), (0,1), (1,-1), (1,0), (1,1).
pub open spec fn off_x(k: int) -> int {
    if k < 3 {
        -1
    } else if k < 5 {
        0
    } else {
        1
    }
}

/// The y-offset of the k-th Moore-neighbourhood direction.
pub open spec fn off_y(k: int) -> int {
    if k == 0 || k == 3 || k == 5 {
        -1
    } else if k == 1 || k == 6 {
        0
    } else {
        1
    }
}

/// One toroidal step of a coordinate `v` in `[0, m)` by an offset `d` in
/// {-1, 0, 1}: the edges wrap to the opposite edge.
pub open spec fn wrap(v: int, d: int, m: int) -> int {
    if d == -1 {
        if v == 0 {
            m - 1
        } else {
            v - 1
        }
    } else if d == 0 {
        v
    } else {
        if v == m - 1 {
            0
        } else {
            v + 1
        }
    }
}

/// The linear index of the k-th Moore neighbour of the cell at linear
/// index `index`, on a `width` by `height` torus.
pub open spec fn neighbour_index(index: int, width: int, height: int, k: int) -> int {
    let x = index % width;
    let y = index / width;
    wrap(x, off_x(k), width) + wrap(y, off_y(k), height) * width
}

/// A cell position `(nx, ny)` inside the grid has a linear index below the
/// cell count.
proof fn lemma_linear_index_bound(nx: int, ny: int, width: int, height: int)
    by (nonlinear_arith)
    requires
        0 <= nx < width,
        0 <= ny < height,
    ensures
        0 <= nx + ny * width < width * height,
{
}

/// A linear index below the cell count decomposes into coordinates inside
/// the grid.
proof fn lemma_coords_in_range(index: int, width: int, height: int)
    by (nonlinear_arith)
    requires
        0 <= index < width * height,
        width >= 1,
    ensures
        0 <= index % width < width,
        0 <= index / width < height,
{
}

/// The grid dimensions that admit a cell are both positive.
proof fn lemma_positive_dims(index: int, width: int, height: int)
    by (nonlinear_arith)
    requires
        0 <= index < width * height,
        width >= 0,
        height >= 0,
    ensures
        width >= 1,
        height >= 1,
{
}

/// Toroidal wrapping is modular arithmetic: for a coordinate inside its
/// dimension, one wrapped step equals addition of the offset modulo the
/// dimension.
pub proof fn lemma_wrap_is_mod(v: int, d: int, m: int)
    by (nonlinear_arith)
    requires
        0 <= v < m,
        -1 <= d <= 1,
    ensures
        wrap(v, d, m) == (v + d) % m,
{
}

/// The k-th neighbour of the cell at `(x, y)` is the cell at
/// `((x + dx) mod width, (y + dy) mod height)`, where `(dx, dy)` is the k-th
/// of the eight Moore offsets.
pub proof fn lemma_neighbour_is_torus_mod(index: int, width: int, height: int, k: int)
    requires
        0 <= index < width * height,
        width >= 1,
        height >= 1,
        0 <= k < 8,
    ensures
        neighbour_index(index, width, height, k) == (index % width + off_x(k)) % width + ((index
            / width + off_y(k)) % height) * width,
{
    lemma_coords_in_range(index, width, height);
    lemma_wrap_is_mod(index % width, off_x(k), width);
    lemma_wrap_is_mod(index / width, off_y(k), height);
}

/// The number of positions in `neigh` whose cell in `grid` holds state `v`.
pub open spec fn count_eq(grid: Seq<u8>, neigh: Seq<usize>, v: u8) -> nat
    decreases neigh.len(),
{
    if neigh.len() == 0 {
        0nat
    } else {
        count_eq(grid, neigh.drop_last(), v) + (if grid[neigh.last() as int] == v {
            1nat
        } else {
            0nat
        })
    }
}

/// The successor of state `s` in the cyclic state space: states advance by
/// one and wrap back to zero at `num_states`.
pub open spec fn next_state(s: u8, num_states: u8) -> u8 {
    (((s as int) + 1) % (num_states as int)) as u8
}

/// The transition rule on one cell: the cell advances to its successor state
/// when at least `threshold` of its neighbours already hold that successor,
/// and otherwise keeps its state.
pub open spec fn transition(
    grid: Seq<u8>,
    neigh: Seq<usize>,
    s: u8,
    num_states: u8,
    threshold: usize,
) -> u8 {
    let next = next_state(s, num_states);
    if count_eq(grid, neigh, next) >= threshold {
        next
    } else {
        s
    }
}

/// Holds the grid and its metadata. `grid[i]` is the state of the cell at
/// `(i % width, i / width)`; `neighbours[i]` caches the 8 toroidal Moore
/// neighbours of that cell, precomputed once at construction.
#[derive(Debug)]
pub struct CyclicAutomaton {
    pub grid: Vec<u8>,
    pub width: usize,
    pub height: usize,
    pub num_states: u8,
    pub threshold: usize,
    pub neighbours: Vec<[usize; 8]>,
}

/// Rejected configurations: a state space with no states at all, or a grid
/// whose cell count does not fit in the address space.
#[derive(Debug, Clone, Copy, PartialEq, Eq, Structural)]
pub enum ConfigError {
    ZeroStates,
    GridTooLarge,
}

impl CyclicAutomaton {
    /// Well-formedness: positive state count, a grid of exactly
    /// `width * height` cells each below `num_states`, and a neighbour table
    /// with the true toroidal topology. Established at construction and
    /// preserved by `randomize` and `next_generation`.
    pub open spec fn wf(&self) -> bool {
        &&& 1 <= self.num_states
        &&& self.grid@.len() == self.width * self.height
        &&& forall|i: int| 0 <= i < self.grid@.len() ==> self.grid@[i] < self.num_states
        &&& self.neighbours@.len() == self.width * self.height
        &&& forall|i: int, k: int|
            0 <= i < self.neighbours@.len() && 0 <= k < 8 ==> #[trigger] self.neighbours@[i]@[k]
                == neighbour_index(i, self.width as int, self.height as int, k)
        &&& forall|i: int, k: int|
            0 <= i < self.neighbours@.len() && 0 <= k < 8 ==> #[trigger] self.neighbours@[i]@[k]
                < self.grid@.len()
    }

    /// The transition rule applied to the cell at linear index `i`, read
    /// entirely from the current (frozen) grid.
    pub open spec fn transition_at(&self, i: int) -> u8 {
        transition(
            self.grid@,
            self.neighbours@[i]@,
            self.grid@[i],
            self.num_states,
            self.threshold,
        )
    }

    /// Create a new automaton with every cell in state 0 and the neighbour
    /// table precomputed. Rejects an empty state space and a cell count that
    /// does not fit in `usize`.
    pub fn new(width: usize, height: usize, num_states: u8, threshold: usize) -> (r: Result<
        CyclicAutomaton,
        ConfigError,
    >)
        ensures
            num_states == 0 ==> r == Result::<CyclicAutomaton, ConfigError>::Err(
                ConfigError::ZeroStates,
            ),
            num_states >= 1 && width * height > usize::MAX ==> r == Result::<
                CyclicAutomaton,
                ConfigError,
            >::Err(ConfigError::GridTooLarge),
            num_states >= 1 && width * height <= usize::MAX ==> {
                &&& r is Ok
                &&& r->Ok_0.wf()
                &&& r->Ok_0.width == width
                &&& r->Ok_0.height == height
                &&& r->Ok_0.num_states == num_states
                &&& r->Ok_0.threshold == threshold
                &&& forall|i: int| 0 <= i < r->Ok_0.grid@.len() ==> r->Ok_0.grid@[i] == 0u8
            },
    {
        if num_states == 0 {
            return Err(ConfigError::ZeroStates);
        }
        let size = match width.checked_mul(height) {
            Some(s) => s,
            None => {
                return Err(ConfigError::GridTooLarge);
            },
        };
        let mut grid: Vec<u8> = Vec::new();
        while grid.len() < size
            invariant
                grid@.len() <= size,
                forall|i: int| 0 <= i < grid@.len() ==> grid@[i] == 0u8,
            decreases size - grid.len(),
        {
            grid.push(0);
        }
        let mut neighbours: Vec<[usize; 8]> = Vec::new();
        while neighbours.len() < size
            invariant
                size == width * height,
                neighbours@.len() <= size,
                forall|i: int, k: int|
                    0 <= i < neighbours@.len() && 0 <= k < 8 ==> #[trigger] neighbours@[i]@[k]
                        == neighbour_index(i, width as int, height as int, k),
                forall|i: int, k: int|
                    0 <= i < neighbours@.len() && 0 <= k < 8 ==> #[trigger] neighbours@[i]@[k]
                        < size,
            decreases size - neighbours.len(),
        {
            let index = neighbours.len();
            let nb = Self::get_neighbours(index, width, height);
            neighbours.push(nb);
        }
        Ok(CyclicAutomaton { grid, width, height, num_states, threshold, neighbours })
    }

    /// Compute the next state of the cell at `index` under the transition
    /// rule, reading only the current grid.
    pub fn update_cell(&self, index: usize) -> (r: u8)
        requires
            self.wf(),
            index < self.grid@.len(),
        ensures
            r == self.transition_at(index as int),
            r < self.num_states,
    {
        let curr_state = self.grid[index];
        let next = (curr_state + 1) % self.num_states;
        let neigh = self.neighbours[index];
        let ghost g = self.grid@;
        let mut count: usize = 0;
        let mut k: usize = 0;
        while k < 8
            invariant
                k <= 8,
                count <= k,
                self.wf(),
                index < self.grid@.len(),
                g == self.grid@,
                neigh@ == self.neighbours@[index as int]@,
                next == next_state(self.grid@[index as int], self.num_states),
                count == count_eq(g, neigh@.take(k as int), next),
            decreases 8 - k,
        {
            proof {
                assert(neigh@.take(k as int + 1).drop_last() =~= neigh@.take(k as int));
                assert(neigh@.take(k as int + 1).last() == neigh@[k as int]);
            }
            if self.grid[neigh[k]] == next {
                count = count + 1;
            }
            k = k + 1;
        }
        proof {
            assert(neigh@.take(8) =~= neigh@);
        }
        if count >= self.threshold {
            return next;
        }
        curr_state
    }

    /// Deterministically overwrite every cell with an independent uniform
    /// draw over `[0, num_states)`; the seed fully determines the result.
    pub fn randomize(&mut self, seed: u64)
        requires
            old(self).wf(),
        ensures
            final(self).wf(),
            final(self).width == old(self).width,
            final(self).height == old(self).height,
            final(self).num_states == old(self).num_states,
            final(self).threshold == old(self).threshold,
            final(self).neighbours == old(self).neighbours,
            final(self).grid@ == random_states(
                seed,
                (old(self).width * old(self).height) as usize,
                old(self).num_states,
            ),
    {
        let size = self.grid.len();
        self.grid = sample_states(seed, size, self.num_states);
    }

    /// Advance the automaton one generation: every cell is replaced by the
    /// transition rule applied to the frozen previous grid, so no cell's
    /// update can see another cell's update from the same step.
    pub fn next_generation(&mut self)
        requires
            old(self).wf(),
        ensures
            final(self).wf(),
            final(self).width == old(self).width,
            final(self).height == old(self).height,
            final(self).num_states == old(self).num_states,
            final(self).threshold == old(self).threshold,
            final(self).neighbours == old(self).neighbours,
            final(self).grid@.len() == old(self).grid@.len(),
            forall|i: int|
                0 <= i < final(self).grid@.len() ==> final(self).grid@[i] == old(
                    self,
                ).transition_at(i),
    {
        let new_grid = par_next_grid(self);
        self.grid = new_grid;
    }

    /// Return all 8 neighbours of the cell located at `index`, in the fixed
    /// enumeration order of the offsets.
    #[verifier::rlimit(50)]
    pub fn get_neighbours(index: usize, width: usize, height: usize) -> (r: [usize; 8])
        requires
            index < width * height,
            width * height <= usize::MAX,
        ensures
            forall|k: int|
                0 <= k < 8 ==> r@[k] == neighbour_index(
                    index as int,
                    width as int,
                    height as int,
                    k,
                ),
            forall|k: int| 0 <= k < 8 ==> r@[k] < width * height,
    {
        proof {
            lemma_positive_dims(index as int, width as int, height as int);
            lemma_coords_in_range(index as int, width as int, height as int);
        }
        let x = index % width;
        let y = index / width;
        let xm = if x == 0 { width - 1 } else { x - 1 };
        let xp = if x + 1 == width { 0 } else { x + 1 };
        let ym = if y == 0 { height - 1 } else { y - 1 };
        let yp = if y + 1 == height { 0 } else { y + 1 };
        proof {
            lemma_linear_index_bound(xm as int, ym as int, width as int, height as int);
            lemma_linear_index_bound(xm as int, y as int, width as int, height as int);
            lemma_linear_index_bound(xm as int, yp as int, width as int, height as int);
            lemma_linear_index_bound(x as int, ym as int, width as int, height as int);
            lemma_linear_index_bound(x as int, yp as int, width as int, height as int);
            lemma_linear_index_bound(xp as int, ym as int, width as int, height as int);
            lemma_linear_index_bound(xp as int, y as int, width as int, height as int);
            lemma_linear_index_bound(xp as int, yp as int, width as int, height as int);
        }
        [
            xm + ym * width,
            xm + y * width,
            xm + yp * width,
            x + ym * width,
            x + yp * width,
            xp + ym * width,
            xp + y * width,
            xp + yp * width,
        ]
    }
}

/// No more neighbours can match a state than there are neighbours.
pub proof fn lemma_count_le_len(grid: Seq<u8>, neigh: Seq<usize>, v: u8)
    ensures
        count_eq(grid, neigh, v) <= neigh.len(),
    decreases neigh.len(),
{
    if neigh.len() > 0 {
        lemma_count_le_len(grid, neigh.drop_last(), v);
    }
}

/// With a threshold above the neighbour count of 8, no cell can ever gather
/// enough matching neighbours: the transition leaves every cell unchanged,
/// so the grid is a fixed point of stepping.
pub proof fn lemma_fixed_point(a: &CyclicAutomaton)
    requires
        a.wf(),
        a.threshold > 8,
    ensures
        forall|i: int| 0 <= i < a.grid@.len() ==> a.transition_at(i) == a.grid@[i],
{
    assert forall|i: int| 0 <= i < a.grid@.len() implies a.transition_at(i) == a.grid@[i] by {
        lemma_count_le_len(a.grid@, a.neighbours@[i]@, next_state(a.grid@[i], a.num_states));
        assert(a.neighbours@[i]@.len() == 8);
    }
}

/// With threshold 0 the transition condition always holds: every cell
/// advances to its successor state every generation.
pub proof fn lemma_zero_threshold_advances(a: &CyclicAutomaton)
    requires
        a.wf(),
        a.threshold == 0,
    ensures
        forall|i: int|
            0 <= i < a.grid@.len() ==> a.transition_at(i) == next_state(
                a.grid@[i],
                a.num_states,
            ),
{
}

/// Seeded initialization is deterministic: two automata of identical
/// dimensions and state count, both filled from the same seed, hold
/// identical cells.
pub proof fn lemma_randomize_deterministic(a: &CyclicAutomaton, b: &CyclicAutomaton, seed: u64)
    requires
        a.width == b.width,
        a.height == b.height,
        a.num_states == b.num_states,
        a.grid@ == random_states(seed, (a.width * a.height) as usize, a.num_states),
        b.grid@ == random_states(seed, (b.width * b.height) as usize, b.num_states),
    ensures
        a.grid@ == b.grid@,
{
}

} // verus!
