//! A flat-shaded triangle mesh over a grid.
//!
//! The mesh keeps one position and one normal per vertex slot and an index
//! buffer that names every slot once, in order. It never looks inside a
//! position or a normal: the caller supplies the function that makes a
//! vertex for a lattice corner and the function that makes the normal of a
//! triangle, and the mesh decides where each of them is applied.

use vstd::prelude::*;
use crate::grid::Grid;

verus! {

/// A triangle-list mesh of `6 * width * height` unshared vertices.
pub struct HeightfieldMesh<P, N> {
    grid: Grid,
    positions: Vec<P>,
    normals: Vec<N>,
    indices: Vec<u32>,
}

/// What a `HeightfieldMesh` holds.
pub struct MeshView<P, N> {
    pub grid: Grid,
    pub positions: Seq<P>,
    pub normals: Seq<N>,
    pub indices: Seq<u32>,
}

/// Why per-vertex arrays cannot be taken as a mesh over a grid.
#[derive(Clone, Copy, Debug, PartialEq, Eq)]
pub enum MeshError {
    /// The position array does not have one entry per vertex slot.
    PositionCount { expected: usize, found: usize },
    /// The normal array does not have one entry per vertex slot.
    NormalCount { expected: usize, found: usize },
}

/// The index buffer of `len` unshared vertices: entry `i` is `i`.
pub open spec fn identity_indices(len: int) -> Seq<u32> {
    Seq::new(len as nat, |i: int| i as u32)
}

/// The vertex in slot `slot` is one that `vertex_at` makes for the lattice
/// corner at which the slot sits.
pub open spec fn vertex_placed<P, S: Fn(u32, u32) -> P>(
    grid: Grid,
    positions: Seq<P>,
    vertex_at: S,
    slot: int,
) -> bool {
    vertex_at.ensures(
        (grid.corner_of(slot).0 as u32, grid.corner_of(slot).1 as u32),
        positions[slot],
    )
}

/// `positions` has one vertex per slot of `grid`, each made by `vertex_at`
/// for the slot's corner.
pub open spec fn laid_out<P, S: Fn(u32, u32) -> P>(
    grid: Grid,
    positions: Seq<P>,
    vertex_at: S,
) -> bool {
    &&& positions.len() == grid.vertices()
    &&& forall|slot: int|
        0 <= slot < positions.len() ==> #[trigger] vertex_placed(grid, positions, vertex_at, slot)
}

/// The three slots of triangle `t` hold one normal, and it is one that
/// `face_normal` makes for the triangle's three vertices, taken in slot order.
pub open spec fn face_shaded<P, N, F: Fn(&P, &P, &P) -> N>(
    positions: Seq<P>,
    normals: Seq<N>,
    face_normal: F,
    t: int,
) -> bool {
    &&& face_normal.ensures(
        (&positions[3 * t], &positions[3 * t + 1], &positions[3 * t + 2]),
        normals[3 * t],
    )
    &&& normals[3 * t + 1] == normals[3 * t]
    &&& normals[3 * t + 2] == normals[3 * t]
}

/// `face_normal` may be called on the three vertices of triangle `t`.
pub open spec fn face_accepted<P, N, F: Fn(&P, &P, &P) -> N>(
    positions: Seq<P>,
    face_normal: F,
    t: int,
) -> bool {
    face_normal.requires((&positions[3 * t], &positions[3 * t + 1], &positions[3 * t + 2]))
}

/// `face_normal` may be called on every triangle of `positions`.
pub open spec fn faces_accepted<P, N, F: Fn(&P, &P, &P) -> N>(
    positions: Seq<P>,
    face_normal: F,
) -> bool {
    forall|t: int|
        0 <= t && 3 * t + 2 < positions.len() ==> #[trigger] face_accepted(
            positions,
            face_normal,
            t,
        )
}

/// `normals` is in step with `positions`: there is one normal per vertex and
/// every triangle is shaded flat by `face_normal`.
pub open spec fn flat_shaded<P, N, F: Fn(&P, &P, &P) -> N>(
    positions: Seq<P>,
    normals: Seq<N>,
    face_normal: F,
) -> bool {
    &&& normals.len() == positions.len()
    &&& forall|t: int|
        0 <= t && 3 * t + 2 < positions.len() ==> #[trigger] face_shaded(
            positions,
            normals,
            face_normal,
            t,
        )
}

/// `face_normal` makes at most one normal for any three vertices.
pub open spec fn single_valued_normal<P, N, F: Fn(&P, &P, &P) -> N>(face_normal: F) -> bool {
    forall|a: P, b: P, c: P, m: N, n: N|
        #![trigger face_normal.ensures((&a, &b, &c), m), face_normal.ensures((&a, &b, &c), n)]
        face_normal.ensures((&a, &b, &c), m) && face_normal.ensures((&a, &b, &c), n) ==> m == n
}

/// `vertex_at` makes at most one vertex for any corner.
pub open spec fn single_valued_vertex<P, S: Fn(u32, u32) -> P>(vertex_at: S) -> bool {
    forall|cx: u32, cz: u32, p: P, q: P|
        #![trigger vertex_at.ensures((cx, cz), p), vertex_at.ensures((cx, cz), q)]
        vertex_at.ensures((cx, cz), p) && vertex_at.ensures((cx, cz), q) ==> p == q
}

/// `change` makes at most one vertex from any vertex.
pub open spec fn single_valued_change<P, L: Fn(&P) -> P>(change: L) -> bool {
    forall|p: P, q: P, r: P|
        #![trigger change.ensures((&p,), q), change.ensures((&p,), r)]
        change.ensures((&p,), q) && change.ensures((&p,), r) ==> q == r
}

/// Slots that sit at the same lattice corner hold the same vertex, so the
/// cells around every corner meet there.
pub open spec fn seamless<P>(grid: Grid, positions: Seq<P>) -> bool {
    forall|a: int, b: int|
        #![trigger positions[a], positions[b]]
        grid.has_slot(a) && grid.has_slot(b) && grid.corner_of(a) == grid.corner_of(b)
            ==> positions[a] == positions[b]
}

/// `after` is `before` with `change` applied to the vertex in every slot
/// that sits at corner `(cx, cz)`, each once, and to no other.
pub open spec fn changed_at_corner<P, L: Fn(&P) -> P>(
    grid: Grid,
    before: Seq<P>,
    after: Seq<P>,
    cx: int,
    cz: int,
    change: L,
) -> bool {
    &&& after.len() == before.len()
    &&& forall|slot: int|
        #![trigger after[slot]]
        0 <= slot < before.len() ==> if grid.has_slot(slot) && grid.corner_of(slot) == (cx, cz) {
            change.ensures((&before[slot],), after[slot])
        } else {
            after[slot] == before[slot]
        }
}

impl<P, N> MeshView<P, N> {
    /// Every per-vertex array has one entry per vertex slot of the grid, and
    /// the index buffer names each slot once, in order.
    pub open spec fn wf(self) -> bool {
        &&& self.grid.wf()
        &&& self.positions.len() == self.grid.vertices()
        &&& self.normals.len() == self.grid.vertices()
        &&& self.indices == identity_indices(self.grid.vertices())
    }
}

impl<P, N> View for HeightfieldMesh<P, N> {
    type V = MeshView<P, N>;

    closed spec fn view(&self) -> MeshView<P, N> {
        MeshView {
            grid: self.grid,
            positions: self.positions@,
            normals: self.normals@,
            indices: self.indices@,
        }
    }
}

/// Two normal arrays that are both in step with the same vertices are equal,
/// as long as `face_normal` makes one normal for one triangle. So computing
/// the normals again without a change of the vertices gives the same normals.
pub proof fn lemma_normals_determined<P, N, F: Fn(&P, &P, &P) -> N>(
    positions: Seq<P>,
    first: Seq<N>,
    second: Seq<N>,
    face_normal: F,
)
    requires
        positions.len() % 3 == 0,
        single_valued_normal(face_normal),
        flat_shaded(positions, first, face_normal),
        flat_shaded(positions, second, face_normal),
    ensures
        first == second,
{
    assert forall|i: int| 0 <= i < first.len() implies first[i] == second[i] by {
        let t = i / 3;
        assert(face_shaded(positions, first, face_normal, t));
        assert(face_shaded(positions, second, face_normal, t));
    }
    assert(first =~= second);
}

/// Vertices laid out by a function that makes one vertex per corner are
/// seamless.
pub proof fn lemma_laid_out_seamless<P, S: Fn(u32, u32) -> P>(
    grid: Grid,
    positions: Seq<P>,
    vertex_at: S,
)
    requires
        grid.wf(),
        single_valued_vertex(vertex_at),
        laid_out(grid, positions, vertex_at),
    ensures
        seamless(grid, positions),
{
    assert forall|a: int, b: int|
        grid.has_slot(a) && grid.has_slot(b) && grid.corner_of(a) == grid.corner_of(
            b,
        ) implies #[trigger] positions[a] == #[trigger] positions[b] by {
        assert(vertex_placed(grid, positions, vertex_at, a));
        assert(vertex_placed(grid, positions, vertex_at, b));
    }
}

/// Changing the vertices at one corner, all in the same way, keeps seamless
/// vertices seamless.
pub proof fn lemma_change_keeps_seamless<P, L: Fn(&P) -> P>(
    grid: Grid,
    before: Seq<P>,
    after: Seq<P>,
    cx: int,
    cz: int,
    change: L,
)
    requires
        grid.wf(),
        before.len() == grid.vertices(),
        single_valued_change(change),
        seamless(grid, before),
        changed_at_corner(grid, before, after, cx, cz, change),
    ensures
        seamless(grid, after),
{
    assert forall|a: int, b: int|
        grid.has_slot(a) && grid.has_slot(b) && grid.corner_of(a) == grid.corner_of(
            b,
        ) implies #[trigger] after[a] == #[trigger] after[b] by {
        assert(before[a] == before[b]);
    }
}

/// Computes the normal of every triangle from the triangle's own three
/// vertices and stores it for each of them. What `normals` held before is
/// dropped.
pub fn recalculate_normals<P, N: Copy, F: Fn(&P, &P, &P) -> N>(
    positions: &Vec<P>,
    normals: &mut Vec<N>,
    face_normal: &F,
)
    requires
        positions.len() % 3 == 0,
        faces_accepted(positions@, *face_normal),
    ensures
        flat_shaded(positions@, final(normals)@, *face_normal),
{
    normals.clear();
    let len = positions.len();
    let mut base: usize = 0;
    while base < len
        invariant
            len == positions.len(),
            len % 3 == 0,
            base % 3 == 0,
            base <= len,
            normals.len() == base,
            faces_accepted(positions@, *face_normal),
            forall|t: int|
                0 <= t && 3 * t + 2 < base ==> #[trigger] face_shaded(
                    positions@,
                    normals@,
                    *face_normal,
                    t,
                ),
        decreases len - base,
    {
        assert(face_accepted(positions@, *face_normal, base as int / 3));
        let normal = face_normal(&positions[base], &positions[base + 1], &positions[base + 2]);
        let ghost earlier = normals@;
        normals.push(normal);
        normals.push(normal);
        normals.push(normal);
        proof {
            assert forall|t: int| 0 <= t && 3 * t + 2 < base + 3 implies #[trigger] face_shaded(
                positions@,
                normals@,
                *face_normal,
                t,
            ) by {
                if 3 * t + 2 < base {
                    assert(face_shaded(positions@, earlier, *face_normal, t));
                } else {
                    assert(3 * t == base);
                }
            }
        }
        base += 3;
    }
}

/// Builds the mesh over `grid`: the vertex of every slot is made by
/// `vertex_at` for the lattice corner at which the slot sits, the index
/// buffer names every slot once, in order, and the normals are computed from
/// the finished vertices.
pub fn build_mesh_data<P, N: Copy, S: Fn(u32, u32) -> P, F: Fn(&P, &P, &P) -> N>(
    grid: Grid,
    vertex_at: &S,
    face_normal: &F,
) -> (mesh: HeightfieldMesh<P, N>)
    requires
        forall|cx: u32, cz: u32|
            grid.has_corner(cx as int, cz as int) ==> vertex_at.requires((cx, cz)),
        forall|a: P, b: P, c: P| face_normal.requires((&a, &b, &c)),
    ensures
        mesh@.wf(),
        mesh@.grid == grid,
        mesh@.positions.len() == 6 * (grid.width() * grid.height()),
        mesh@.normals.len() == 6 * (grid.width() * grid.height()),
        mesh@.indices.len() == 6 * (grid.width() * grid.height()),
        forall|i: int| 0 <= i < mesh@.indices.len() ==> mesh@.indices[i] == i,
        laid_out(grid, mesh@.positions, *vertex_at),
        flat_shaded(mesh@.positions, mesh@.normals, *face_normal),
{
    proof {
        use_type_invariant(&grid);
    }
    let len = grid.vertex_count();
    let mut positions: Vec<P> = Vec::new();
    let mut indices: Vec<u32> = Vec::new();
    let mut slot: usize = 0;
    while slot < len
        invariant
            grid.wf(),
            len == grid.vertices(),
            len <= 0xFFFF_FFFF,
            slot <= len,
            positions.len() == slot,
            indices.len() == slot,
            forall|cx: u32, cz: u32|
                grid.has_corner(cx as int, cz as int) ==> vertex_at.requires((cx, cz)),
            forall|s: int|
                0 <= s < slot ==> #[trigger] vertex_placed(grid, positions@, *vertex_at, s),
            forall|i: int| 0 <= i < slot ==> indices@[i] == i,
        decreases len - slot,
    {
        let corner = grid.slot_corner(slot);
        let vertex = vertex_at(corner.0, corner.1);
        let ghost earlier = positions@;
        positions.push(vertex);
        indices.push(slot as u32);
        proof {
            assert forall|s: int| 0 <= s < slot + 1 implies #[trigger] vertex_placed(
                grid,
                positions@,
                *vertex_at,
                s,
            ) by {
                if s < slot {
                    assert(vertex_placed(grid, earlier, *vertex_at, s));
                }
            }
        }
        slot += 1;
    }
    let mut normals: Vec<N> = Vec::new();
    assert(faces_accepted(positions@, *face_normal)) by {
        assert forall|t: int| 0 <= t && 3 * t + 2 < positions@.len() implies #[trigger] face_accepted(
            positions@,
            *face_normal,
            t,
        ) by {}
    }
    recalculate_normals(&positions, &mut normals, face_normal);
    assert(indices@ =~= identity_indices(grid.vertices()));
    HeightfieldMesh { grid, positions, normals, indices }
}

impl<P, N> HeightfieldMesh<P, N> {
    /// Holds of every mesh that exists at run time.
    #[verifier::type_invariant]
    pub open spec fn wf(self) -> bool {
        self@.wf()
    }

    /// Takes per-vertex arrays that were made elsewhere as the mesh over
    /// `grid`, with a fresh index buffer. Arrays that do not have one entry
    /// per vertex slot are refused, positions first.
    pub fn from_parts(grid: Grid, positions: Vec<P>, normals: Vec<N>) -> (mesh: Result<
        HeightfieldMesh<P, N>,
        MeshError,
    >)
        ensures
            match mesh {
                Ok(m) => {
                    &&& m@.wf()
                    &&& m@.grid == grid
                    &&& m@.positions == positions@
                    &&& m@.normals == normals@
                    &&& positions.len() == grid.vertices()
                    &&& normals.len() == grid.vertices()
                },
                Err(MeshError::PositionCount { expected, found }) => {
                    &&& expected == grid.vertices()
                    &&& found == positions.len()
                    &&& found != expected
                },
                Err(MeshError::NormalCount { expected, found }) => {
                    &&& expected == grid.vertices()
                    &&& found == normals.len()
                    &&& found != expected
                    &&& positions.len() == expected
                },
            },
    {
        proof {
            use_type_invariant(&grid);
        }
        let len = grid.vertex_count();
        if positions.len() != len {
            return Err(MeshError::PositionCount { expected: len, found: positions.len() });
        }
        if normals.len() != len {
            return Err(MeshError::NormalCount { expected: len, found: normals.len() });
        }
        let mut indices: Vec<u32> = Vec::new();
        let mut slot: usize = 0;
        while slot < len
            invariant
                len <= 0xFFFF_FFFF,
                slot <= len,
                indices.len() == slot,
                forall|i: int| 0 <= i < slot ==> indices@[i] == i,
            decreases len - slot,
        {
            indices.push(slot as u32);
            slot += 1;
        }
        assert(indices@ =~= identity_indices(grid.vertices()));
        Ok(HeightfieldMesh { grid, positions, normals, indices })
    }

    /// Gives the arrays up: positions, normals and the index buffer.
    pub fn into_parts(self) -> (parts: (Vec<P>, Vec<N>, Vec<u32>))
        ensures
            parts.0@ == self@.positions,
            parts.1@ == self@.normals,
            parts.2@ == self@.indices,
            self@.wf(),
    {
        proof {
            use_type_invariant(&self);
        }
        (self.positions, self.normals, self.indices)
    }

    /// The grid under the mesh.
    pub fn grid(&self) -> (grid: Grid)
        ensures
            grid == self@.grid,
            grid.wf(),
    {
        proof {
            use_type_invariant(self);
        }
        self.grid
    }

    /// One position per vertex slot.
    pub fn positions(&self) -> (positions: &Vec<P>)
        ensures
            positions@ == self@.positions,
            positions.len() == self@.grid.vertices(),
    {
        proof {
            use_type_invariant(self);
        }
        &self.positions
    }

    /// One normal per vertex slot.
    pub fn normals(&self) -> (normals: &Vec<N>)
        ensures
            normals@ == self@.normals,
            normals.len() == self@.grid.vertices(),
    {
        proof {
            use_type_invariant(self);
        }
        &self.normals
    }

    /// The index buffer: every slot once, in order.
    pub fn indices(&self) -> (indices: &Vec<u32>)
        ensures
            indices@ == self@.indices,
            indices.len() == self@.grid.vertices(),
            forall|i: int| 0 <= i < indices.len() ==> indices[i] == i,
    {
        proof {
            use_type_invariant(self);
        }
        &self.indices
    }

    /// One texture coordinate per vertex slot, all of them `placeholder`: the
    /// mesh carries no texture of its own.
    pub fn placeholder_uvs<U: Copy>(&self, placeholder: U) -> (uvs: Vec<U>)
        ensures
            uvs.len() == self@.grid.vertices(),
            forall|i: int| 0 <= i < uvs.len() ==> uvs[i] == placeholder,
    {
        proof {
            use_type_invariant(self);
        }
        let len = self.positions.len();
        let mut uvs: Vec<U> = Vec::new();
        let mut slot: usize = 0;
        while slot < len
            invariant
                slot <= len,
                uvs.len() == slot,
                forall|i: int| 0 <= i < slot ==> uvs[i] == placeholder,
            decreases len - slot,
        {
            uvs.push(placeholder);
            slot += 1;
        }
        uvs
    }

    /// Applies `change` to the vertex in every slot that sits at lattice
    /// corner `(cx, cz)`, and to no other vertex. Normals are left as they
    /// are, so they are out of step with the vertices until they are
    /// computed again.
    pub fn change_corner<L: Fn(&P) -> P>(&mut self, cx: u32, cz: u32, change: &L)
        requires
            forall|slot: int|
                old(self)@.grid.has_slot(slot) && old(self)@.grid.corner_of(slot) == (
                    cx as int,
                    cz as int,
                ) ==> change.requires((&#[trigger] old(self)@.positions[slot],)),
        ensures
            final(self)@.wf(),
            final(self)@.grid == old(self)@.grid,
            final(self)@.normals == old(self)@.normals,
            final(self)@.indices == old(self)@.indices,
            changed_at_corner(
                old(self)@.grid,
                old(self)@.positions,
                final(self)@.positions,
                cx as int,
                cz as int,
                *change,
            ),
    {
        proof {
            use_type_invariant(&*self);
        }
        let ghost grid = self.grid;
        let ghost before = self.positions@;
        let (listed, count) = self.grid.corner_slots_fixed(cx, cz);
        let ghost slots = listed@.take(count as int);
        proof {
            grid.lemma_slots_at_corner(cx as int, cz as int);
            assert forall|i: int| 0 <= i < slots.len() implies (#[trigger] slots[i])
                < before.len() && change.requires((&before[slots[i] as int],)) by {
                assert(slots.contains(slots[i]));
            }
        }
        let mut j: usize = 0;
        while j < count
            invariant
                grid.wf(),
                self.grid == grid,
                self@.wf(),
                self@.normals == old(self)@.normals,
                self@.indices == old(self)@.indices,
                before == old(self)@.positions,
                before.len() == grid.vertices(),
                self.positions@.len() == before.len(),
                j <= count <= 6,
                slots == listed@.take(count as int),
                slots.no_duplicates(),
                forall|i: int| 0 <= i < slots.len() ==> (#[trigger] slots[i]) < before.len(),
                forall|i: int|
                    0 <= i < slots.len() ==> change.requires((&#[trigger] before[slots[i] as int],)),
                forall|i: int|
                    0 <= i < j ==> change.ensures(
                        (&before[slots[i] as int],),
                        #[trigger] self.positions@[slots[i] as int],
                    ),
                forall|s: int|
                    0 <= s < before.len() && !slots.take(j as int).contains(s as usize)
                        ==> #[trigger] self.positions@[s] == before[s],
            decreases count - j,
        {
            let slot = listed[j];
            assert(slot == slots[j as int]);
            assert(!slots.take(j as int).contains(slot)) by {
                if slots.take(j as int).contains(slot) {
                    let i = choose|i: int| 0 <= i < j && slots.take(j as int)[i] == slot;
                    assert(slots[i] == slots[j as int]);
                }
            }
            assert(self.positions@[slot as int] == before[slots[j as int] as int]);
            let changed = change(&self.positions[slot]);
            let ghost earlier = self.positions@;
            self.positions[slot] = changed;
            proof {
                assert forall|i: int| 0 <= i < j + 1 implies change.ensures(
                    (&before[slots[i] as int],),
                    #[trigger] self.positions@[slots[i] as int],
                ) by {
                    if i < j {
                        assert(slots[i] != slots[j as int]);
                        assert(earlier[slots[i] as int] == self.positions@[slots[i] as int]);
                    }
                }
                assert forall|s: int|
                    0 <= s < before.len() && !slots.take(j + 1).contains(
                        s as usize,
                    ) implies #[trigger] self.positions@[s] == before[s] by {
                    assert(slots.take(j + 1)[j as int] == slot);
                    assert(s != slot);
                    if slots.take(j as int).contains(s as usize) {
                        let i = choose|i: int| 0 <= i < j && slots.take(j as int)[i] == s as usize;
                        assert(slots.take(j + 1)[i] == s as usize);
                    }
                }
            }
            j += 1;
        }
        proof {
            assert(slots.take(count as int) =~= slots);
            assert forall|s: int| 0 <= s < before.len() implies if grid.has_slot(s)
                && grid.corner_of(s) == (cx as int, cz as int) {
                change.ensures((&before[s],), #[trigger] self.positions@[s])
            } else {
                self.positions@[s] == before[s]
            } by {
                if grid.has_slot(s) && grid.corner_of(s) == (cx as int, cz as int) {
                    assert(slots.contains(s as usize));
                    let i = choose|i: int| 0 <= i < slots.len() && slots[i] == s as usize;
                    assert(change.ensures(
                        (&before[slots[i] as int],),
                        self.positions@[slots[i] as int],
                    ));
                } else {
                    assert(!slots.contains(s as usize));
                }
            }
        }
    }

    /// Computes every normal again from the vertices as they are now.
    pub fn recalculate<F: Fn(&P, &P, &P) -> N>(self, face_normal: &F) -> (mesh: Self) where N: Copy
        requires
            faces_accepted(self@.positions, *face_normal),
        ensures
            mesh@.wf(),
            mesh@.grid == self@.grid,
            mesh@.positions == self@.positions,
            mesh@.indices == self@.indices,
            flat_shaded(mesh@.positions, mesh@.normals, *face_normal),
    {
        proof {
            use_type_invariant(&self);
        }
        let HeightfieldMesh { grid, positions, mut normals, indices } = self;
        recalculate_normals(&positions, &mut normals, face_normal);
        HeightfieldMesh { grid, positions, normals, indices }
    }
}

} // verus!
