//! Where the six vertex slots of each cell sit.
//!
//! Cell `(x, y)` owns slots `6 * (x + y * width) ..= 6 * (x + y * width) + 5`.
//! Slots 0, 1, 2 are the first triangle and slots 3, 4, 5 the second:
//!
//! ```text
//!   z+1   1 ---- 2,4
//!         |    /  |
//!         |  /    |
//!   z    0,3 ---- 5
//!         x      x+1
//! ```
//!
//! No vertex is shared between triangles or cells, so a lattice corner in the
//! middle of the grid is stored six times, in four cells.

use vstd::prelude::*;
use crate::grid::Grid;
use crate::grid::lemma_cell_index_in_range;
use crate::grid::lemma_cell_index_inverse;

verus! {

/// Step in x from a cell's origin to the corner of its slot `k`.
pub open spec fn corner_dx(k: int) -> int {
    if k == 2 || k == 4 || k == 5 {
        1
    } else {
        0
    }
}

/// Step in z from a cell's origin to the corner of its slot `k`.
pub open spec fn corner_dz(k: int) -> int {
    if k == 1 || k == 2 || k == 4 {
        1
    } else {
        0
    }
}

/// Steps in x and z from a cell's origin to the corner of its slot `k`.
pub fn corner_offset(k: usize) -> (offset: (u32, u32))
    requires
        k < 6,
    ensures
        offset.0 == corner_dx(k as int),
        offset.1 == corner_dz(k as int),
{
    let dx: u32 = if k == 2 || k == 4 || k == 5 {
        1
    } else {
        0
    };
    let dz: u32 = if k == 1 || k == 2 || k == 4 {
        1
    } else {
        0
    };
    (dx, dz)
}

impl Grid {
    /// Whether `slot` numbers a vertex slot of the grid.
    pub open spec fn has_slot(self, slot: int) -> bool {
        0 <= slot < self.vertices()
    }

    /// Whether `(cx, cz)` is a corner of the lattice that bounds the cells.
    pub open spec fn has_corner(self, cx: int, cz: int) -> bool {
        0 <= cx <= self.width() && 0 <= cz <= self.height()
    }

    /// Slot `k` of cell `(x, y)`.
    pub open spec fn slot_of(self, x: int, y: int, k: int) -> int {
        6 * self.index_of(x, y) + k
    }

    /// The cell that owns `slot`.
    pub open spec fn cell_of_slot(self, slot: int) -> (int, int) {
        ((slot / 6) % (self.width() as int), (slot / 6) / (self.width() as int))
    }

    /// The lattice corner at which the vertex in `slot` sits.
    pub open spec fn corner_of(self, slot: int) -> (int, int) {
        (
            self.cell_of_slot(slot).0 + corner_dx(slot % 6),
            self.cell_of_slot(slot).1 + corner_dz(slot % 6),
        )
    }

    /// The slots of cell `(cx, cz)` that sit at its origin.
    pub open spec fn own_slots(self, cx: int, cz: int) -> Seq<usize> {
        if self.has_cell(cx, cz) {
            seq![self.slot_of(cx, cz, 0) as usize, self.slot_of(cx, cz, 3) as usize]
        } else {
            Seq::empty()
        }
    }

    /// The slot of the cell to the left of `(cx, cz)` that sits at `(cx, cz)`.
    pub open spec fn left_slots(self, cx: int, cz: int) -> Seq<usize> {
        if self.has_cell(cx - 1, cz) {
            seq![self.slot_of(cx - 1, cz, 5) as usize]
        } else {
            Seq::empty()
        }
    }

    /// The slot of the cell below `(cx, cz)` that sits at `(cx, cz)`.
    pub open spec fn lower_slots(self, cx: int, cz: int) -> Seq<usize> {
        if self.has_cell(cx, cz - 1) {
            seq![self.slot_of(cx, cz - 1, 1) as usize]
        } else {
            Seq::empty()
        }
    }

    /// The slots of the cell diagonally below `(cx, cz)` that sit at `(cx, cz)`.
    pub open spec fn diagonal_slots(self, cx: int, cz: int) -> Seq<usize> {
        if self.has_cell(cx - 1, cz - 1) {
            seq![
                self.slot_of(cx - 1, cz - 1, 2) as usize,
                self.slot_of(cx - 1, cz - 1, 4) as usize,
            ]
        } else {
            Seq::empty()
        }
    }

    /// Every slot whose vertex sits at lattice corner `(cx, cz)`: those of
    /// the cell with that origin, then of the cell to its left, of the cell
    /// below it, and of the cell diagonally below it, as far as they exist.
    pub open spec fn slots_at_corner(self, cx: int, cz: int) -> Seq<usize> {
        self.own_slots(cx, cz) + self.left_slots(cx, cz) + self.lower_slots(cx, cz)
            + self.diagonal_slots(cx, cz)
    }

    /// A slot number of an existing cell is a slot of the grid, and splits
    /// back into the cell and the place in the cell it was made from.
    pub proof fn lemma_slot_of(self, x: int, y: int, k: int)
        requires
            self.wf(),
            self.has_cell(x, y),
            0 <= k < 6,
        ensures
            self.has_slot(self.slot_of(x, y, k)),
            self.slot_of(x, y, k) <= 0xFFFF_FFFF,
            self.slot_of(x, y, k) / 6 == self.index_of(x, y),
            self.slot_of(x, y, k) % 6 == k,
            self.cell_of_slot(self.slot_of(x, y, k)) == (x, y),
            self.corner_of(self.slot_of(x, y, k)) == (x + corner_dx(k), y + corner_dz(k)),
    {
        let w = self.width() as int;
        lemma_cell_index_in_range(w, self.height() as int, x, y);
        lemma_cell_index_inverse(w, x, y);
        let i = self.index_of(x, y);
        vstd::arithmetic::div_mod::lemma_fundamental_div_mod_converse(6 * i + k, 6, i, k);
    }

    /// A slot of the grid is the slot of an existing cell.
    pub proof fn lemma_cell_of_slot(self, slot: int)
        requires
            self.wf(),
            self.has_slot(slot),
        ensures
            self.has_cell(self.cell_of_slot(slot).0, self.cell_of_slot(slot).1),
            0 <= slot % 6 < 6,
            self.slot_of(self.cell_of_slot(slot).0, self.cell_of_slot(slot).1, slot % 6) == slot,
            self.has_corner(self.corner_of(slot).0, self.corner_of(slot).1),
    {
        let w = self.width() as int;
        let c = slot / 6;
        vstd::arithmetic::div_mod::lemma_fundamental_div_mod(slot, 6);
        assert(0 <= c < self.cells());
        vstd::arithmetic::div_mod::lemma_fundamental_div_mod(c, w);
        vstd::arithmetic::div_mod::lemma_div_pos_is_pos(c, w);
        assert(c / w < self.height()) by (nonlinear_arith)
            requires
                c == w * (c / w) + c % w,
                0 <= c % w,
                c < w * self.height(),
                0 < w,
        ;
        assert((c / w) * w == w * (c / w)) by (nonlinear_arith);
    }

    /// The slots listed for a corner are exactly the slots of the grid whose
    /// vertex sits at that corner, each listed once.
    pub proof fn lemma_slots_at_corner(self, cx: int, cz: int)
        requires
            self.wf(),
        ensures
            forall|s: usize|
                #[trigger] self.slots_at_corner(cx, cz).contains(s) <==> self.has_slot(s as int)
                    && self.corner_of(s as int) == (cx, cz),
            self.slots_at_corner(cx, cz).no_duplicates(),
    {
        let listed = self.slots_at_corner(cx, cz);
        let own = self.own_slots(cx, cz);
        let left = self.left_slots(cx, cz);
        let lower = self.lower_slots(cx, cz);
        let diagonal = self.diagonal_slots(cx, cz);
        if self.has_cell(cx, cz) {
            self.lemma_slot_of(cx, cz, 0);
            self.lemma_slot_of(cx, cz, 3);
        }
        if self.has_cell(cx - 1, cz) {
            self.lemma_slot_of(cx - 1, cz, 5);
        }
        if self.has_cell(cx, cz - 1) {
            self.lemma_slot_of(cx, cz - 1, 1);
        }
        if self.has_cell(cx - 1, cz - 1) {
            self.lemma_slot_of(cx - 1, cz - 1, 2);
            self.lemma_slot_of(cx - 1, cz - 1, 4);
        }
        assert forall|s: usize| listed.contains(s) implies self.has_slot(s as int)
            && self.corner_of(s as int) == (cx, cz) by {
            let i = choose|i: int| 0 <= i < listed.len() && listed[i] == s;
            assert(listed[i] == s);
        }
        assert forall|s: usize|
            self.has_slot(s as int) && self.corner_of(s as int) == (cx, cz) implies listed.contains(
            s,
        ) by {
            self.lemma_cell_of_slot(s as int);
            let cell = self.cell_of_slot(s as int);
            let k = (s as int) % 6;
            assert(self.slot_of(cell.0, cell.1, k) == s);
            if k == 0 || k == 3 {
                assert(cell == (cx, cz));
                assert(own[if k == 0 { 0int } else { 1int }] == s);
                assert(listed[if k == 0 { 0int } else { 1int }] == s);
            } else if k == 5 {
                assert(cell == (cx - 1, cz));
                assert(left[0] == s);
                assert(listed[own.len() as int] == s);
            } else if k == 1 {
                assert(cell == (cx, cz - 1));
                assert(lower[0] == s);
                assert(listed[(own.len() + left.len()) as int] == s);
            } else {
                assert(k == 2 || k == 4);
                assert(cell == (cx - 1, cz - 1));
                let j = if k == 2 { 0int } else { 1int };
                assert(diagonal[j] == s);
                assert(listed[(own.len() + left.len() + lower.len()) as int + j] == s);
            }
        }
        assert forall|i: int, j: int|
            0 <= i < listed.len() && 0 <= j < listed.len() && i != j implies listed[i]
            != listed[j] by {
            let a = listed[i];
            let b = listed[j];
            assert(self.has_slot(a as int) && self.has_slot(b as int));
            if a == b {
                assert((a as int) % 6 == (b as int) % 6);
                assert(self.cell_of_slot(a as int) == self.cell_of_slot(b as int));
            }
        }
    }

    /// Slot `k` of cell `(x, y)`.
    pub fn slot(&self, x: u32, y: u32, k: usize) -> (slot: usize)
        requires
            self.has_cell(x as int, y as int),
            k < 6,
        ensures
            slot == self.slot_of(x as int, y as int, k as int),
            self.has_slot(slot as int),
    {
        proof {
            use_type_invariant(self);
            self.lemma_slot_of(x as int, y as int, k as int);
        }
        6 * self.cell_index(x, y) + k
    }

    /// The first slot of cell `(x, y)`: the vertex at the cell's origin. The
    /// height of a cell is read here.
    pub fn cell_slot(&self, x: u32, y: u32) -> (slot: usize)
        requires
            self.has_cell(x as int, y as int),
        ensures
            slot == self.slot_of(x as int, y as int, 0),
            self.has_slot(slot as int),
            self.corner_of(slot as int) == (x as int, y as int),
    {
        proof {
            use_type_invariant(self);
            self.lemma_slot_of(x as int, y as int, 0);
        }
        self.slot(x, y, 0)
    }

    /// The lattice corner at which the vertex in `slot` sits.
    pub fn slot_corner(&self, slot: usize) -> (corner: (u32, u32))
        requires
            self.has_slot(slot as int),
        ensures
            (corner.0 as int, corner.1 as int) == self.corner_of(slot as int),
            self.has_corner(corner.0 as int, corner.1 as int),
    {
        proof {
            use_type_invariant(self);
            self.lemma_cell_of_slot(slot as int);
        }
        let cell = self.cell_coords(slot / 6);
        let offset = corner_offset(slot % 6);
        (cell.0 + offset.0, cell.1 + offset.1)
    }

    /// Every slot whose vertex sits at lattice corner `(cx, cz)`, in an array
    /// of which the first `count` entries are used. These are the slots to
    /// change together when the terrain at that corner changes, so that the
    /// cells around the corner still meet there.
    pub fn corner_slots_fixed(&self, cx: u32, cz: u32) -> (listed: ([usize; 6], usize))
        ensures
            listed.1 <= 6,
            listed.0@.take(listed.1 as int) == self.slots_at_corner(cx as int, cz as int),
    {
        proof {
            use_type_invariant(self);
        }
        let w = self.width();
        let h = self.height();
        let mut slots: [usize; 6] = [0, 0, 0, 0, 0, 0];
        let mut count: usize = 0;
        if cx < w && cz < h {
            slots[0] = self.slot(cx, cz, 0);
            slots[1] = self.slot(cx, cz, 3);
            count = 2;
        }
        assert(slots@.take(count as int) =~= self.own_slots(cx as int, cz as int));
        if 0 < cx && cx <= w && cz < h {
            slots[count] = self.slot(cx - 1, cz, 5);
            count += 1;
        }
        assert(slots@.take(count as int) =~= self.own_slots(cx as int, cz as int)
            + self.left_slots(cx as int, cz as int));
        if cx < w && 0 < cz && cz <= h {
            slots[count] = self.slot(cx, cz - 1, 1);
            count += 1;
        }
        assert(slots@.take(count as int) =~= self.own_slots(cx as int, cz as int)
            + self.left_slots(cx as int, cz as int) + self.lower_slots(cx as int, cz as int));
        if 0 < cx && cx <= w && 0 < cz && cz <= h {
            slots[count] = self.slot(cx - 1, cz - 1, 2);
            slots[count + 1] = self.slot(cx - 1, cz - 1, 4);
            count += 2;
        }
        assert(slots@.take(count as int) =~= self.slots_at_corner(cx as int, cz as int));
        (slots, count)
    }

    /// Every slot whose vertex sits at lattice corner `(cx, cz)`: exactly
    /// those, each once. A corner off the lattice has none.
    pub fn corner_slots(&self, cx: u32, cz: u32) -> (slots: Vec<usize>)
        ensures
            slots@ == self.slots_at_corner(cx as int, cz as int),
            forall|s: usize|
                #[trigger] slots@.contains(s) <==> self.has_slot(s as int) && self.corner_of(
                    s as int,
                ) == (cx as int, cz as int),
            slots@.no_duplicates(),
    {
        proof {
            use_type_invariant(self);
            self.lemma_slots_at_corner(cx as int, cz as int);
        }
        let (listed, count) = self.corner_slots_fixed(cx, cz);
        let mut slots: Vec<usize> = Vec::new();
        let mut i: usize = 0;
        while i < count
            invariant
                i <= count <= 6,
                slots@ == listed@.take(i as int),
            decreases count - i,
        {
            slots.push(listed[i]);
            assert(slots@ =~= listed@.take(i + 1));
            i += 1;
        }
        slots
    }
}

} // verus!
