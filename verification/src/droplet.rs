//! The path of one droplet over the mesh.
//!
//! A droplet's position, speed, volume and load are the caller's: they sit
//! in a value that this module only hands on. The caller also supplies, as
//! a `DropletKernel`, the functions that compute with them. What is
//! decided here is which stored vertices each of these functions is given,
//! whether a move keeps the droplet on the terrain, which vertices are
//! lowered, and when the path ends.
//!
//! A position enters rounded down to whole cell coordinates.

use vstd::prelude::*;
use crate::grid::Grid;
use crate::mesh::changed_at_corner;
use crate::mesh::seamless;
use crate::mesh::HeightfieldMesh;

verus! {

/// The four vertices that are read for the slope under a droplet: the origins
/// of the cells one step away in each direction, each limited to the grid.
#[derive(Clone, Copy, Debug, PartialEq, Eq)]
pub struct GradientSlots {
    /// Slot read for the height one cell further in x.
    pub right: usize,
    /// Slot read for the height one cell back in x.
    pub left: usize,
    /// Slot read for the height one cell further in z.
    pub up: usize,
    /// Slot read for the height one cell back in z.
    pub down: usize,
}

/// What a droplet's move amounts to on the grid.
#[derive(Clone, Copy, Debug, PartialEq, Eq)]
pub enum DropletStep {
    /// The droplet has left the terrain: its path ends and nothing is eroded.
    Left,
    /// The droplet is now in `cell`. The height it came from is read at slot
    /// `from`, the height it arrived at is read at slot `to`.
    Moved { cell: (u32, u32), from: usize, to: usize },
}

/// The five functions that make up a droplet of type `D` over vertices of
/// type `P`, taking amounts of type `E` from the terrain.
pub struct DropletKernel<Sp, A, Fl, Se, Lo> {
    /// `spawn()`: a fresh droplet and its position, rounded down.
    pub spawn: Sp,
    /// `alive(&droplet)`: whether the droplet goes on.
    pub alive: A,
    /// `flow(droplet, &right, &left, &up, &down)`: the droplet after one
    /// move, and its new position rounded down. The four vertices are the
    /// ones read for the slope at the droplet's cell.
    pub flow: Fl,
    /// `settle(droplet, &from, &to)`: the droplet for the next step and the
    /// amount to take from the terrain. `from` is the vertex at the origin of
    /// the cell the droplet came from, `to` the one at the origin of the cell
    /// it is in now.
    pub settle: Se,
    /// `lower(&vertex, &amount)`: the vertex lowered by the amount.
    pub lower: Lo,
}

impl Grid {
    /// The slot at which the terrain height at `(x, z)` is read: the origin
    /// of the nearest cell.
    pub open spec fn height_slot_of(self, x: int, z: int) -> int {
        self.slot_of(self.nearest_cell(x, z).0, self.nearest_cell(x, z).1, 0)
    }

    /// The slot at which the terrain height at `(x, z)` is read. A point off
    /// the grid reads the height of the nearest cell.
    pub fn height_slot(&self, x: i64, z: i64) -> (slot: usize)
        ensures
            slot == self.height_slot_of(x as int, z as int),
            self.has_slot(slot as int),
    {
        let cell = self.clamp_cell(x, z);
        self.cell_slot(cell.0, cell.1)
    }

    /// The slots read for the slope at `(x, z)`, by central differences: one
    /// cell to either side in x and in z. At the rim of the grid the missing
    /// neighbour is replaced by the rim cell itself.
    pub fn gradient_slots(&self, x: i32, z: i32) -> (slots: GradientSlots)
        ensures
            slots.right == self.height_slot_of(x + 1, z as int),
            slots.left == self.height_slot_of(x - 1, z as int),
            slots.up == self.height_slot_of(x as int, z + 1),
            slots.down == self.height_slot_of(x as int, z - 1),
            self.has_slot(slots.right as int),
            self.has_slot(slots.left as int),
            self.has_slot(slots.up as int),
            self.has_slot(slots.down as int),
    {
        let x = x as i64;
        let z = z as i64;
        GradientSlots {
            right: self.height_slot(x + 1, z),
            left: self.height_slot(x - 1, z),
            up: self.height_slot(x, z + 1),
            down: self.height_slot(x, z - 1),
        }
    }

    /// What the move of a droplet from cell `previous` to the point whose
    /// coordinates round down to `(x, z)` amounts to. The droplet has left
    /// the terrain exactly if the point lies off the grid.
    pub fn droplet_step(&self, previous: (u32, u32), x: i64, z: i64) -> (step: DropletStep)
        requires
            self.has_cell(previous.0 as int, previous.1 as int),
        ensures
            step is Left <==> !self.has_cell(x as int, z as int),
            step matches DropletStep::Moved { cell, from, to } ==> {
                &&& cell.0 == x
                &&& cell.1 == z
                &&& from == self.slot_of(previous.0 as int, previous.1 as int, 0)
                &&& to == self.slot_of(x as int, z as int, 0)
                &&& self.has_slot(from as int)
                &&& self.has_slot(to as int)
            },
    {
        match self.locate(x, z) {
            None => DropletStep::Left,
            Some(cell) => DropletStep::Moved {
                cell,
                from: self.cell_slot(previous.0, previous.1),
                to: self.cell_slot(cell.0, cell.1),
            },
        }
    }
}

/// `after` is `before` with every vertex that sits at corner `(cx, cz)`
/// lowered by `amount`, and no other vertex touched.
pub open spec fn lowered_at_corner<P, E, Lo: Fn(&P, &E) -> P>(
    grid: Grid,
    before: Seq<P>,
    after: Seq<P>,
    cx: int,
    cz: int,
    amount: E,
    lower: Lo,
) -> bool {
    &&& after.len() == before.len()
    &&& forall|slot: int|
        #![trigger after[slot]]
        0 <= slot < before.len() ==> if grid.has_slot(slot) && grid.corner_of(slot) == (cx, cz) {
            lower.ensures((&before[slot], &amount), after[slot])
        } else {
            after[slot] == before[slot]
        }
}

/// `lower` makes at most one vertex from any vertex and amount.
pub open spec fn single_valued_lower<P, E, Lo: Fn(&P, &E) -> P>(lower: Lo) -> bool {
    forall|p: P, amount: E, q: P, r: P|
        #![trigger lower.ensures((&p, &amount), q), lower.ensures((&p, &amount), r)]
        lower.ensures((&p, &amount), q) && lower.ensures((&p, &amount), r) ==> q == r
}

/// Every function of the kernel may be called on every argument.
pub open spec fn kernel_total<
    P,
    D,
    E,
    Sp: Fn() -> (D, i64, i64),
    A: Fn(&D) -> bool,
    Fl: Fn(D, &P, &P, &P, &P) -> (D, i64, i64),
    Se: Fn(D, &P, &P) -> (D, E),
    Lo: Fn(&P, &E) -> P,
>(kernel: DropletKernel<Sp, A, Fl, Se, Lo>) -> bool {
    &&& kernel.spawn.requires(())
    &&& forall|d: D| kernel.alive.requires((&d,))
    &&& forall|d: D, a: P, b: P, c: P, e: P| kernel.flow.requires((d, &a, &b, &c, &e))
    &&& forall|d: D, a: P, b: P| kernel.settle.requires((d, &a, &b))
    &&& forall|p: P, amount: E| kernel.lower.requires((&p, &amount))
}

/// `flow` can turn `droplet`, standing in `cell`, into `moved` at a point
/// that rounds down to `(x, z)`. It is given the vertices read for the slope
/// at `cell`: right, left, up, down.
pub open spec fn flows_to<P, D, Fl: Fn(D, &P, &P, &P, &P) -> (D, i64, i64)>(
    grid: Grid,
    positions: Seq<P>,
    droplet: D,
    cell: (u32, u32),
    flow: Fl,
    moved: D,
    x: i64,
    z: i64,
) -> bool {
    flow.ensures(
        (
            droplet,
            &positions[grid.height_slot_of(cell.0 + 1, cell.1 as int)],
            &positions[grid.height_slot_of(cell.0 - 1, cell.1 as int)],
            &positions[grid.height_slot_of(cell.0 as int, cell.1 + 1)],
            &positions[grid.height_slot_of(cell.0 as int, cell.1 - 1)],
        ),
        (moved, x, z),
    )
}

/// The path of `droplet` can end in `cell` without a further change to the
/// mesh: the droplet is spent, or its next move takes it off the terrain.
pub open spec fn path_ends<
    P,
    D,
    E,
    Sp: Fn() -> (D, i64, i64),
    A: Fn(&D) -> bool,
    Fl: Fn(D, &P, &P, &P, &P) -> (D, i64, i64),
    Se: Fn(D, &P, &P) -> (D, E),
    Lo: Fn(&P, &E) -> P,
>(
    grid: Grid,
    positions: Seq<P>,
    droplet: D,
    cell: (u32, u32),
    kernel: DropletKernel<Sp, A, Fl, Se, Lo>,
) -> bool {
    ||| kernel.alive.ensures((&droplet,), false)
    ||| kernel.alive.ensures((&droplet,), true) && exists|moved: D, x: i64, z: i64|
        #[trigger] flows_to(grid, positions, droplet, cell, kernel.flow, moved, x, z)
            && !grid.has_cell(x as int, z as int)
}

/// One step of a path: a droplet that is not spent moves from `cell` to
/// `next_cell` on the terrain, settles there, and the vertices at the origin
/// of the cell it came from are lowered by what it took.
pub open spec fn path_step<
    P,
    D,
    E,
    Sp: Fn() -> (D, i64, i64),
    A: Fn(&D) -> bool,
    Fl: Fn(D, &P, &P, &P, &P) -> (D, i64, i64),
    Se: Fn(D, &P, &P) -> (D, E),
    Lo: Fn(&P, &E) -> P,
>(
    grid: Grid,
    positions: Seq<P>,
    droplet: D,
    cell: (u32, u32),
    next_positions: Seq<P>,
    next_droplet: D,
    next_cell: (u32, u32),
    kernel: DropletKernel<Sp, A, Fl, Se, Lo>,
) -> bool {
    &&& kernel.alive.ensures((&droplet,), true)
    &&& grid.has_cell(next_cell.0 as int, next_cell.1 as int)
    &&& exists|moved: D, amount: E|
        {
            &&& flows_to(
                grid,
                positions,
                droplet,
                cell,
                kernel.flow,
                moved,
                next_cell.0 as i64,
                next_cell.1 as i64,
            )
            &&& #[trigger] kernel.settle.ensures(
                (
                    moved,
                    &positions[grid.slot_of(cell.0 as int, cell.1 as int, 0)],
                    &positions[grid.slot_of(next_cell.0 as int, next_cell.1 as int, 0)],
                ),
                (next_droplet, amount),
            )
            &&& lowered_at_corner(
                grid,
                positions,
                next_positions,
                cell.0 as int,
                cell.1 as int,
                amount,
                kernel.lower,
            )
        }
}

/// `worn` is what a path of at most `steps` steps can make of `positions`,
/// for a droplet that starts as `droplet` in `cell`. A path that has not
/// ended after `steps` steps is cut off there.
pub open spec fn droplet_path<
    P,
    D,
    E,
    Sp: Fn() -> (D, i64, i64),
    A: Fn(&D) -> bool,
    Fl: Fn(D, &P, &P, &P, &P) -> (D, i64, i64),
    Se: Fn(D, &P, &P) -> (D, E),
    Lo: Fn(&P, &E) -> P,
>(
    grid: Grid,
    positions: Seq<P>,
    droplet: D,
    cell: (u32, u32),
    steps: nat,
    worn: Seq<P>,
    kernel: DropletKernel<Sp, A, Fl, Se, Lo>,
) -> bool
    decreases steps,
{
    if steps == 0 {
        worn == positions
    } else {
        ||| path_ends(grid, positions, droplet, cell, kernel) && worn == positions
        ||| exists|next_positions: Seq<P>, next_droplet: D, next_cell: (u32, u32)|
            #[trigger] path_step(
                grid,
                positions,
                droplet,
                cell,
                next_positions,
                next_droplet,
                next_cell,
                kernel,
            ) && droplet_path(
                grid,
                next_positions,
                next_droplet,
                next_cell,
                (steps - 1) as nat,
                worn,
                kernel,
            )
    }
}

/// `after` is what the path of `droplet`, started at the point that rounds
/// down to `(x, z)`, can make of `before`. Only vertices change, and none
/// if the start is off the grid.
pub open spec fn run_outcome<
    P,
    N,
    D,
    E,
    Sp: Fn() -> (D, i64, i64),
    A: Fn(&D) -> bool,
    Fl: Fn(D, &P, &P, &P, &P) -> (D, i64, i64),
    Se: Fn(D, &P, &P) -> (D, E),
    Lo: Fn(&P, &E) -> P,
>(
    before: HeightfieldMesh<P, N>,
    after: HeightfieldMesh<P, N>,
    droplet: D,
    x: i64,
    z: i64,
    max_steps: u64,
    kernel: DropletKernel<Sp, A, Fl, Se, Lo>,
) -> bool {
    &&& after@.grid == before@.grid
    &&& after@.normals == before@.normals
    &&& after@.indices == before@.indices
    &&& match before@.grid.locate_spec(x as int, z as int) {
        None => after@.positions == before@.positions,
        Some(cell) => droplet_path(
            before@.grid,
            before@.positions,
            droplet,
            cell,
            max_steps as nat,
            after@.positions,
            kernel,
        ),
    }
}

/// `after` is what one droplet, spawned by the kernel, can make of `before`.
pub open spec fn spawned_run<
    P,
    N,
    D,
    E,
    Sp: Fn() -> (D, i64, i64),
    A: Fn(&D) -> bool,
    Fl: Fn(D, &P, &P, &P, &P) -> (D, i64, i64),
    Se: Fn(D, &P, &P) -> (D, E),
    Lo: Fn(&P, &E) -> P,
>(
    before: HeightfieldMesh<P, N>,
    after: HeightfieldMesh<P, N>,
    max_steps: u64,
    kernel: DropletKernel<Sp, A, Fl, Se, Lo>,
) -> bool {
    exists|droplet: D, x: i64, z: i64| #[trigger]
        kernel.spawn.ensures((), (droplet, x, z)) && run_outcome(
            before,
            after,
            droplet,
            x,
            z,
            max_steps,
            kernel,
        )
}

/// What `droplet_path` says, with its first step laid open: a path of no
/// steps changes nothing; a longer one ends where it stands or takes one
/// step and goes on from there with one step less.
pub proof fn lemma_path_cases<
    P,
    D,
    E,
    Sp: Fn() -> (D, i64, i64),
    A: Fn(&D) -> bool,
    Fl: Fn(D, &P, &P, &P, &P) -> (D, i64, i64),
    Se: Fn(D, &P, &P) -> (D, E),
    Lo: Fn(&P, &E) -> P,
>(
    grid: Grid,
    positions: Seq<P>,
    droplet: D,
    cell: (u32, u32),
    steps: nat,
    worn: Seq<P>,
    kernel: DropletKernel<Sp, A, Fl, Se, Lo>,
)
    ensures
        steps == 0 ==> (droplet_path(grid, positions, droplet, cell, steps, worn, kernel) <==> worn
            == positions),
        steps > 0 ==> (droplet_path(grid, positions, droplet, cell, steps, worn, kernel) <==> {
            ||| path_ends(grid, positions, droplet, cell, kernel) && worn == positions
            ||| exists|next_positions: Seq<P>, next_droplet: D, next_cell: (u32, u32)|
                #[trigger] path_step(
                    grid,
                    positions,
                    droplet,
                    cell,
                    next_positions,
                    next_droplet,
                    next_cell,
                    kernel,
                ) && droplet_path(
                    grid,
                    next_positions,
                    next_droplet,
                    next_cell,
                    (steps - 1) as nat,
                    worn,
                    kernel,
                )
        }),
{
}

/// Lowering the vertices at one corner, all by the same amount, keeps
/// seamless vertices seamless.
pub proof fn lemma_lowering_keeps_seamless<P, E, Lo: Fn(&P, &E) -> P>(
    grid: Grid,
    before: Seq<P>,
    after: Seq<P>,
    cx: int,
    cz: int,
    amount: E,
    lower: Lo,
)
    requires
        grid.wf(),
        before.len() == grid.vertices(),
        single_valued_lower(lower),
        seamless(grid, before),
        lowered_at_corner(grid, before, after, cx, cz, amount, lower),
    ensures
        seamless(grid, after),
        after.len() == before.len(),
{
    assert forall|a: int, b: int|
        grid.has_slot(a) && grid.has_slot(b) && grid.corner_of(a) == grid.corner_of(
            b,
        ) implies #[trigger] after[a] == #[trigger] after[b] by {
        assert(before[a] == before[b]);
    }
}

/// A droplet's path keeps seamless vertices seamless: wherever the droplet
/// takes material, it takes the same amount from every stored copy of the
/// corner, so the cells around each corner still meet when the path is over.
pub proof fn lemma_path_keeps_seamless<
    P,
    D,
    E,
    Sp: Fn() -> (D, i64, i64),
    A: Fn(&D) -> bool,
    Fl: Fn(D, &P, &P, &P, &P) -> (D, i64, i64),
    Se: Fn(D, &P, &P) -> (D, E),
    Lo: Fn(&P, &E) -> P,
>(
    grid: Grid,
    positions: Seq<P>,
    droplet: D,
    cell: (u32, u32),
    steps: nat,
    worn: Seq<P>,
    kernel: DropletKernel<Sp, A, Fl, Se, Lo>,
)
    requires
        grid.wf(),
        positions.len() == grid.vertices(),
        single_valued_lower(kernel.lower),
        seamless(grid, positions),
        droplet_path(grid, positions, droplet, cell, steps, worn, kernel),
    ensures
        seamless(grid, worn),
        worn.len() == positions.len(),
    decreases steps,
{
    if steps > 0 && worn != positions {
        let (next_positions, next_droplet, next_cell) = choose|
            next_positions: Seq<P>,
            next_droplet: D,
            next_cell: (u32, u32),
        |
            #[trigger] path_step(
                grid,
                positions,
                droplet,
                cell,
                next_positions,
                next_droplet,
                next_cell,
                kernel,
            ) && droplet_path(
                grid,
                next_positions,
                next_droplet,
                next_cell,
                (steps - 1) as nat,
                worn,
                kernel,
            );
        let (moved, amount) = choose|moved: D, amount: E|
            {
                &&& flows_to(
                    grid,
                    positions,
                    droplet,
                    cell,
                    kernel.flow,
                    moved,
                    next_cell.0 as i64,
                    next_cell.1 as i64,
                )
                &&& #[trigger] kernel.settle.ensures(
                    (
                        moved,
                        &positions[grid.slot_of(cell.0 as int, cell.1 as int, 0)],
                        &positions[grid.slot_of(next_cell.0 as int, next_cell.1 as int, 0)],
                    ),
                    (next_droplet, amount),
                )
                &&& lowered_at_corner(
                    grid,
                    positions,
                    next_positions,
                    cell.0 as int,
                    cell.1 as int,
                    amount,
                    kernel.lower,
                )
            };
        lemma_lowering_keeps_seamless(
            grid,
            positions,
            next_positions,
            cell.0 as int,
            cell.1 as int,
            amount,
            kernel.lower,
        );
        lemma_path_keeps_seamless(
            grid,
            next_positions,
            next_droplet,
            next_cell,
            (steps - 1) as nat,
            worn,
            kernel,
        );
    }
}

/// A droplet's path keeps the number of vertices.
pub proof fn lemma_path_keeps_length<
    P,
    D,
    E,
    Sp: Fn() -> (D, i64, i64),
    A: Fn(&D) -> bool,
    Fl: Fn(D, &P, &P, &P, &P) -> (D, i64, i64),
    Se: Fn(D, &P, &P) -> (D, E),
    Lo: Fn(&P, &E) -> P,
>(
    grid: Grid,
    positions: Seq<P>,
    droplet: D,
    cell: (u32, u32),
    steps: nat,
    worn: Seq<P>,
    kernel: DropletKernel<Sp, A, Fl, Se, Lo>,
)
    requires
        droplet_path(grid, positions, droplet, cell, steps, worn, kernel),
    ensures
        worn.len() == positions.len(),
    decreases steps,
{
    if steps > 0 && worn != positions {
        let (next_positions, next_droplet, next_cell) = choose|
            next_positions: Seq<P>,
            next_droplet: D,
            next_cell: (u32, u32),
        |
            #[trigger] path_step(
                grid,
                positions,
                droplet,
                cell,
                next_positions,
                next_droplet,
                next_cell,
                kernel,
            ) && droplet_path(
                grid,
                next_positions,
                next_droplet,
                next_cell,
                (steps - 1) as nat,
                worn,
                kernel,
            );
        lemma_path_keeps_length(
            grid,
            next_positions,
            next_droplet,
            next_cell,
            (steps - 1) as nat,
            worn,
            kernel,
        );
    }
}

/// A path of no steps changes nothing, and neither does the path of a
/// droplet that is spent from the start.
pub proof fn lemma_spent_droplet_changes_nothing<
    P,
    D,
    E,
    Sp: Fn() -> (D, i64, i64),
    A: Fn(&D) -> bool,
    Fl: Fn(D, &P, &P, &P, &P) -> (D, i64, i64),
    Se: Fn(D, &P, &P) -> (D, E),
    Lo: Fn(&P, &E) -> P,
>(
    grid: Grid,
    positions: Seq<P>,
    droplet: D,
    cell: (u32, u32),
    steps: nat,
    worn: Seq<P>,
    kernel: DropletKernel<Sp, A, Fl, Se, Lo>,
)
    requires
        droplet_path(grid, positions, droplet, cell, steps, worn, kernel),
        steps == 0 || !kernel.alive.ensures((&droplet,), true),
    ensures
        worn == positions,
{
}

/// Runs one droplet over the mesh.
///
/// The droplet starts in the cell that holds the point which rounds down to
/// `(x, z)`; a droplet that starts off the grid does nothing. Then, step by
/// step and for at most `max_steps` steps:
///
/// 1. `alive` says whether the droplet goes on. If not, the path ends.
/// 2. `flow` moves the droplet. It is given the four vertices read for the
///    slope at the droplet's cell, and returns the moved droplet and its new
///    position, rounded down.
/// 3. If the new position is off the grid the path ends, and this step
///    changes nothing.
/// 4. `settle` is given the vertex at the origin of the cell the droplet came
///    from and the one at the origin of the cell it is in now. It returns the
///    droplet for the next step and the amount to take from the terrain.
/// 5. `lower` is applied, with that amount, to every vertex that sits at the
///    origin of the cell the droplet came from, in whichever cell it is
///    stored, so that the cells around that corner still meet.
///
/// Normals are not touched: they are out of step with the vertices until
/// they are computed again.
pub fn run_droplet<
    P,
    N,
    D,
    E,
    Sp: Fn() -> (D, i64, i64),
    A: Fn(&D) -> bool,
    Fl: Fn(D, &P, &P, &P, &P) -> (D, i64, i64),
    Se: Fn(D, &P, &P) -> (D, E),
    Lo: Fn(&P, &E) -> P,
>(
    mesh: HeightfieldMesh<P, N>,
    droplet: D,
    x: i64,
    z: i64,
    max_steps: u64,
    kernel: &DropletKernel<Sp, A, Fl, Se, Lo>,
) -> (worn: HeightfieldMesh<P, N>)
    requires
        kernel_total::<P, D, E, Sp, A, Fl, Se, Lo>(*kernel),
    ensures
        worn@.wf(),
        run_outcome(mesh, worn, droplet, x, z, max_steps, *kernel),
{
    proof {
        use_type_invariant(&mesh);
    }
    let grid = mesh.grid();
    let first_cell = match grid.locate(x, z) {
        None => {
            return mesh;
        },
        Some(cell) => cell,
    };
    let ghost first_positions = mesh@.positions;
    let ghost first_droplet = droplet;
    let mut worn = mesh;
    let mut droplet = droplet;
    let mut cell = first_cell;
    let mut steps: u64 = 0;
    loop
        invariant_except_break
            forall|out: Seq<P>| #[trigger]
                droplet_path(
                    grid,
                    worn@.positions,
                    droplet,
                    cell,
                    (max_steps - steps) as nat,
                    out,
                    *kernel,
                ) ==> droplet_path(
                    grid,
                    first_positions,
                    first_droplet,
                    first_cell,
                    max_steps as nat,
                    out,
                    *kernel,
                ),
        invariant
            grid.wf(),
            worn@.wf(),
            worn@.grid == grid,
            worn@.normals == mesh@.normals,
            worn@.indices == mesh@.indices,
            grid.has_cell(cell.0 as int, cell.1 as int),
            steps <= max_steps,
            kernel_total::<P, D, E, Sp, A, Fl, Se, Lo>(*kernel),
        ensures
            droplet_path(
                grid,
                first_positions,
                first_droplet,
                first_cell,
                max_steps as nat,
                worn@.positions,
                *kernel,
            ),
        decreases max_steps - steps,
    {
        let ghost here = worn@.positions;
        let ghost before = droplet;
        let ghost left = (max_steps - steps) as nat;
        if steps >= max_steps {
            proof {
                assert(droplet_path(grid, here, before, cell, left, here, *kernel));
            }
            break;
        }
        if !(kernel.alive)(&droplet) {
            proof {
                assert(path_ends(grid, here, before, cell, *kernel));
                assert(droplet_path(grid, here, before, cell, left, here, *kernel));
            }
            break;
        }
        proof {
            grid.lemma_sides_fit(cell.0 as int, cell.1 as int);
        }
        let slots = grid.gradient_slots(cell.0 as i32, cell.1 as i32);
        let positions = worn.positions();
        let (moved, nx, nz) = (kernel.flow)(
            droplet,
            &positions[slots.right],
            &positions[slots.left],
            &positions[slots.up],
            &positions[slots.down],
        );
        assert(flows_to(grid, here, before, cell, kernel.flow, moved, nx, nz));
        match grid.droplet_step(cell, nx, nz) {
            DropletStep::Left => {
                proof {
                    assert(path_ends(grid, here, before, cell, *kernel));
                    assert(droplet_path(grid, here, before, cell, left, here, *kernel));
                }
                break;
            },
            DropletStep::Moved { cell: next_cell, from, to } => {
                let ghost carried = moved;
                let (next_droplet, amount) = (kernel.settle)(
                    moved,
                    &positions[from],
                    &positions[to],
                );
                let lower = &kernel.lower;
                let change = |p: &P| -> (q: P)
                    requires
                        lower.requires((p, &amount)),
                    ensures
                        lower.ensures((p, &amount), q),
                    { lower(p, &amount) };
                worn.change_corner(cell.0, cell.1, &change);
                proof {
                    let there = worn@.positions;
                    assert(changed_at_corner(
                        grid,
                        here,
                        there,
                        cell.0 as int,
                        cell.1 as int,
                        change,
                    ));
                    assert forall|slot: int| 0 <= slot < here.len() implies if grid.has_slot(slot)
                        && grid.corner_of(slot) == (cell.0 as int, cell.1 as int) {
                        kernel.lower.ensures((&here[slot], &amount), #[trigger] there[slot])
                    } else {
                        there[slot] == here[slot]
                    } by {
                        if grid.has_slot(slot) && grid.corner_of(slot) == (
                            cell.0 as int,
                            cell.1 as int,
                        ) {
                            assert(change.ensures((&here[slot],), there[slot]));
                        }
                    }
                    assert(lowered_at_corner(
                        grid,
                        here,
                        there,
                        cell.0 as int,
                        cell.1 as int,
                        amount,
                        kernel.lower,
                    ));
                    assert(nx == next_cell.0 as i64 && nz == next_cell.1 as i64);
                    assert(kernel.settle.ensures(
                        (
                            carried,
                            &here[grid.slot_of(cell.0 as int, cell.1 as int, 0)],
                            &here[grid.slot_of(next_cell.0 as int, next_cell.1 as int, 0)],
                        ),
                        (next_droplet, amount),
                    ));
                    assert(path_step(
                        grid,
                        here,
                        before,
                        cell,
                        there,
                        next_droplet,
                        next_cell,
                        *kernel,
                    ));
                    assert forall|out: Seq<P>| #[trigger]
                        droplet_path(
                            grid,
                            there,
                            next_droplet,
                            next_cell,
                            (left - 1) as nat,
                            out,
                            *kernel,
                        ) implies droplet_path(
                        grid,
                        first_positions,
                        first_droplet,
                        first_cell,
                        max_steps as nat,
                        out,
                        *kernel,
                    ) by {
                        assert(droplet_path(grid, here, before, cell, left, out, *kernel));
                    }
                }
                droplet = next_droplet;
                cell = next_cell;
                steps += 1;
            },
        }
    }
    worn
}

/// Spawns one droplet and runs it over the mesh.
pub fn run_spawned_droplet<
    P,
    N,
    D,
    E,
    Sp: Fn() -> (D, i64, i64),
    A: Fn(&D) -> bool,
    Fl: Fn(D, &P, &P, &P, &P) -> (D, i64, i64),
    Se: Fn(D, &P, &P) -> (D, E),
    Lo: Fn(&P, &E) -> P,
>(mesh: HeightfieldMesh<P, N>, max_steps: u64, kernel: &DropletKernel<Sp, A, Fl, Se, Lo>) -> (worn: HeightfieldMesh<P, N>)
    requires
        kernel_total::<P, D, E, Sp, A, Fl, Se, Lo>(*kernel),
    ensures
        worn@.wf(),
        spawned_run(mesh, worn, max_steps, *kernel),
{
    let (droplet, x, z) = (kernel.spawn)();
    let ghost spawned = droplet;
    let worn = run_droplet(mesh, droplet, x, z, max_steps, kernel);
    assert(kernel.spawn.ensures((), (spawned, x, z)) && run_outcome(
        mesh,
        worn,
        spawned,
        x,
        z,
        max_steps,
        *kernel,
    ));
    worn
}

} // verus!
