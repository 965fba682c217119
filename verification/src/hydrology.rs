//! The erosion pass: a budget check, a batch of droplets run one after the
//! other on the same mesh, and the normals computed again at the end.
//!
//! The mesh goes into a pass by value and comes out by value, so nobody can
//! look at it between the first droplet and the new normals.

use vstd::prelude::*;
use crate::budget::BudgetView;
use crate::budget::DropBudget;
use crate::droplet::kernel_total;
use crate::droplet::lemma_path_keeps_length;
use crate::droplet::lemma_path_keeps_seamless;
use crate::droplet::run_outcome;
use crate::droplet::run_spawned_droplet;
use crate::droplet::spawned_run;
use crate::droplet::single_valued_lower;
use crate::droplet::DropletKernel;
use crate::mesh::face_accepted;
use crate::mesh::faces_accepted;
use crate::mesh::flat_shaded;
use crate::mesh::lemma_normals_determined;
use crate::mesh::seamless;
use crate::mesh::single_valued_normal;
use crate::mesh::HeightfieldMesh;

verus! {

/// `end` is what `count` runs of `droplet` can make of `start`, each run
/// working on what the run before it left.
pub open spec fn reached_by<M, Dr: Fn(M) -> M>(droplet: Dr, start: M, end: M, count: nat) -> bool
    decreases count,
{
    if count == 0 {
        end == start
    } else {
        exists|mid: M|
            reached_by(droplet, start, mid, (count - 1) as nat) && #[trigger] droplet.ensures(
                (mid,),
                end,
            )
    }
}

/// `after` is `before` worn by `count` runs of `droplet`, with normals that
/// are in step with the worn vertices.
pub open spec fn eroded_by<
    P,
    N,
    Dr: Fn(HeightfieldMesh<P, N>) -> HeightfieldMesh<P, N>,
    F: Fn(&P, &P, &P) -> N,
>(
    before: HeightfieldMesh<P, N>,
    after: HeightfieldMesh<P, N>,
    count: nat,
    droplet: Dr,
    face_normal: F,
) -> bool {
    exists|worn: HeightfieldMesh<P, N>|
        {
            &&& #[trigger] reached_by(droplet, before, worn, count)
            &&& after@.grid == worn@.grid
            &&& after@.positions == worn@.positions
            &&& after@.indices == worn@.indices
            &&& flat_shaded(after@.positions, after@.normals, face_normal)
        }
}

/// What `reached_by` says, with its last run laid open: no run changes
/// nothing; `count` runs are `count - 1` runs and one more.
pub proof fn lemma_reached_by_cases<M, Dr: Fn(M) -> M>(droplet: Dr, start: M, end: M, count: nat)
    ensures
        count == 0 ==> (reached_by(droplet, start, end, count) <==> end == start),
        count > 0 ==> (reached_by(droplet, start, end, count) <==> exists|mid: M|
            reached_by(droplet, start, mid, (count - 1) as nat) && #[trigger] droplet.ensures(
                (mid,),
                end,
            )),
{
}

/// Whatever holds at the start of a batch and is kept by every run of
/// `droplet` holds at the end of the batch.
pub proof fn lemma_batch_keeps<M, Dr: Fn(M) -> M>(
    droplet: Dr,
    start: M,
    end: M,
    count: nat,
    kept: spec_fn(M) -> bool,
)
    requires
        kept(start),
        forall|m: M, r: M| kept(m) && #[trigger] droplet.ensures((m,), r) ==> kept(r),
        reached_by(droplet, start, end, count),
    ensures
        kept(end),
    decreases count,
{
    if count > 0 {
        let mid = choose|mid: M|
            reached_by(droplet, start, mid, (count - 1) as nat) && #[trigger] droplet.ensures(
                (mid,),
                end,
            );
        lemma_batch_keeps(droplet, start, mid, (count - 1) as nat, kept);
    }
}

/// Runs `droplet` on the mesh `count` times, each run on what the run before
/// it left, and then computes the normals again.
pub fn run_batch<
    P,
    N: Copy,
    Dr: Fn(HeightfieldMesh<P, N>) -> HeightfieldMesh<P, N>,
    F: Fn(&P, &P, &P) -> N,
>(mesh: HeightfieldMesh<P, N>, count: u32, droplet: &Dr, face_normal: &F) -> (eroded:
    HeightfieldMesh<P, N>)
    requires
        forall|m: HeightfieldMesh<P, N>| m@.wf() ==> droplet.requires((m,)),
        forall|a: P, b: P, c: P| face_normal.requires((&a, &b, &c)),
    ensures
        eroded@.wf(),
        eroded_by(mesh, eroded, count as nat, *droplet, *face_normal),
        count == 0 ==> eroded@.grid == mesh@.grid && eroded@.positions == mesh@.positions
            && eroded@.indices == mesh@.indices,
{
    let ghost start = mesh;
    let mut worn = mesh;
    let mut issued: u32 = 0;
    while issued < count
        invariant
            issued <= count,
            reached_by(*droplet, start, worn, issued as nat),
            forall|m: HeightfieldMesh<P, N>| m@.wf() ==> droplet.requires((m,)),
        decreases count - issued,
    {
        proof {
            use_type_invariant(&worn);
        }
        let ghost previous = worn;
        worn = droplet(worn);
        assert(reached_by(*droplet, start, previous, issued as nat) && droplet.ensures(
            (previous,),
            worn,
        ));
        issued += 1;
    }
    let ghost last = worn;
    assert(faces_accepted(worn@.positions, *face_normal)) by {
        assert forall|t: int|
            0 <= t && 3 * t + 2 < worn@.positions.len() implies #[trigger] face_accepted(
            worn@.positions,
            *face_normal,
            t,
        ) by {}
    }
    let eroded = worn.recalculate(face_normal);
    assert(reached_by(*droplet, start, last, count as nat));
    eroded
}

/// `end` is what `count` droplets, spawned and run one after the other, can
/// make of `start`.
pub open spec fn worn_by<
    P,
    N,
    D,
    E,
    Sp: Fn() -> (D, i64, i64),
    A: Fn(&D) -> bool,
    Fl: Fn(D, &P, &P, &P, &P) -> (D, i64, i64),
    Se: Fn(D, &P, &P) -> (D, E),
    Lo: Fn(&P, &E) -> P,
>(
    start: HeightfieldMesh<P, N>,
    end: HeightfieldMesh<P, N>,
    count: nat,
    max_steps: u64,
    kernel: DropletKernel<Sp, A, Fl, Se, Lo>,
) -> bool
    decreases count,
{
    if count == 0 {
        end == start
    } else {
        exists|mid: HeightfieldMesh<P, N>|
            worn_by(start, mid, (count - 1) as nat, max_steps, kernel) && #[trigger] spawned_run(
                mid,
                end,
                max_steps,
                kernel,
            )
    }
}

/// What `worn_by` says, with its last droplet laid open: no droplet changes
/// nothing; `count` droplets are `count - 1` droplets and one more.
pub proof fn lemma_worn_by_cases<
    P,
    N,
    D,
    E,
    Sp: Fn() -> (D, i64, i64),
    A: Fn(&D) -> bool,
    Fl: Fn(D, &P, &P, &P, &P) -> (D, i64, i64),
    Se: Fn(D, &P, &P) -> (D, E),
    Lo: Fn(&P, &E) -> P,
>(
    start: HeightfieldMesh<P, N>,
    end: HeightfieldMesh<P, N>,
    count: nat,
    max_steps: u64,
    kernel: DropletKernel<Sp, A, Fl, Se, Lo>,
)
    ensures
        count == 0 ==> (worn_by(start, end, count, max_steps, kernel) <==> end == start),
        count > 0 ==> (worn_by(start, end, count, max_steps, kernel) <==> exists|
            mid: HeightfieldMesh<P, N>,
        |
            worn_by(start, mid, (count - 1) as nat, max_steps, kernel) && #[trigger] spawned_run(
                mid,
                end,
                max_steps,
                kernel,
            )),
{
}

/// `after` is `before` worn by `count` droplets of the kernel, with normals
/// that are in step with the worn vertices.
pub open spec fn eroded_through<
    P,
    N,
    D,
    E,
    Sp: Fn() -> (D, i64, i64),
    A: Fn(&D) -> bool,
    Fl: Fn(D, &P, &P, &P, &P) -> (D, i64, i64),
    Se: Fn(D, &P, &P) -> (D, E),
    Lo: Fn(&P, &E) -> P,
    F: Fn(&P, &P, &P) -> N,
>(
    before: HeightfieldMesh<P, N>,
    after: HeightfieldMesh<P, N>,
    count: nat,
    max_steps: u64,
    kernel: DropletKernel<Sp, A, Fl, Se, Lo>,
    face_normal: F,
) -> bool {
    exists|worn: HeightfieldMesh<P, N>|
        {
            &&& #[trigger] worn_by(before, worn, count, max_steps, kernel)
            &&& after@.grid == worn@.grid
            &&& after@.positions == worn@.positions
            &&& after@.indices == worn@.indices
            &&& flat_shaded(after@.positions, after@.normals, face_normal)
        }
}

/// What one request for an erosion pass does to a mesh and a budget. With
/// an exhausted budget: nothing. Otherwise the batch is counted and the mesh
/// is worn by that many droplets.
pub open spec fn pass_outcome<
    P,
    N,
    D,
    E,
    Sp: Fn() -> (D, i64, i64),
    A: Fn(&D) -> bool,
    Fl: Fn(D, &P, &P, &P, &P) -> (D, i64, i64),
    Se: Fn(D, &P, &P) -> (D, E),
    Lo: Fn(&P, &E) -> P,
    F: Fn(&P, &P, &P) -> N,
>(
    before: HeightfieldMesh<P, N>,
    budget_before: BudgetView,
    after: HeightfieldMesh<P, N>,
    budget_after: BudgetView,
    max_steps: u64,
    kernel: DropletKernel<Sp, A, Fl, Se, Lo>,
    face_normal: F,
) -> bool {
    &&& budget_after == budget_before.after_request()
    &&& if budget_before.exhausted() {
        after == before
    } else {
        eroded_through(
            before,
            after,
            budget_before.drops_per_cycle as nat,
            max_steps,
            kernel,
            face_normal,
        )
    }
}

/// A batch of runs, each of which is the run of one spawned droplet, wears
/// the mesh as that many spawned droplets do.
pub proof fn lemma_batch_of_spawned_runs<
    P,
    N,
    D,
    E,
    Sp: Fn() -> (D, i64, i64),
    A: Fn(&D) -> bool,
    Fl: Fn(D, &P, &P, &P, &P) -> (D, i64, i64),
    Se: Fn(D, &P, &P) -> (D, E),
    Lo: Fn(&P, &E) -> P,
    Dr: Fn(HeightfieldMesh<P, N>) -> HeightfieldMesh<P, N>,
>(
    droplet: Dr,
    start: HeightfieldMesh<P, N>,
    end: HeightfieldMesh<P, N>,
    count: nat,
    max_steps: u64,
    kernel: DropletKernel<Sp, A, Fl, Se, Lo>,
)
    requires
        forall|m: HeightfieldMesh<P, N>, r: HeightfieldMesh<P, N>| #[trigger]
            droplet.ensures((m,), r) ==> spawned_run(m, r, max_steps, kernel),
        reached_by(droplet, start, end, count),
    ensures
        worn_by(start, end, count, max_steps, kernel),
    decreases count,
{
    if count > 0 {
        let mid = choose|mid: HeightfieldMesh<P, N>|
            reached_by(droplet, start, mid, (count - 1) as nat) && #[trigger] droplet.ensures(
                (mid,),
                end,
            );
        lemma_batch_of_spawned_runs(droplet, start, mid, (count - 1) as nat, max_steps, kernel);
        assert(spawned_run(mid, end, max_steps, kernel));
    }
}

/// Droplets change vertices only: the grid, the index buffer and the number
/// of vertices stay, and vertices that were seamless stay seamless as long
/// as the kernel lowers a vertex by an amount in one way only.
pub proof fn lemma_droplets_keep_mesh_shape<
    P,
    N,
    D,
    E,
    Sp: Fn() -> (D, i64, i64),
    A: Fn(&D) -> bool,
    Fl: Fn(D, &P, &P, &P, &P) -> (D, i64, i64),
    Se: Fn(D, &P, &P) -> (D, E),
    Lo: Fn(&P, &E) -> P,
>(
    start: HeightfieldMesh<P, N>,
    end: HeightfieldMesh<P, N>,
    count: nat,
    max_steps: u64,
    kernel: DropletKernel<Sp, A, Fl, Se, Lo>,
)
    requires
        start@.wf(),
        worn_by(start, end, count, max_steps, kernel),
    ensures
        end@.grid == start@.grid,
        end@.indices == start@.indices,
        end@.normals == start@.normals,
        end@.positions.len() == start@.positions.len(),
        single_valued_lower(kernel.lower) && seamless(start@.grid, start@.positions) ==> seamless(
            end@.grid,
            end@.positions,
        ),
    decreases count,
{
    if count > 0 {
        let mid = choose|mid: HeightfieldMesh<P, N>|
            worn_by(start, mid, (count - 1) as nat, max_steps, kernel) && #[trigger] spawned_run(
                mid,
                end,
                max_steps,
                kernel,
            );
        lemma_droplets_keep_mesh_shape(start, mid, (count - 1) as nat, max_steps, kernel);
        let (droplet, x, z) = choose|droplet: D, x: i64, z: i64| #[trigger]
            kernel.spawn.ensures((), (droplet, x, z)) && run_outcome(
                mid,
                end,
                droplet,
                x,
                z,
                max_steps,
                kernel,
            );
        match mid@.grid.locate_spec(x as int, z as int) {
            None => {},
            Some(cell) => {
                lemma_path_keeps_length(
                    mid@.grid,
                    mid@.positions,
                    droplet,
                    cell,
                    max_steps as nat,
                    end@.positions,
                    kernel,
                );
                if single_valued_lower(kernel.lower) && seamless(start@.grid, start@.positions) {
                    lemma_path_keeps_seamless(
                        mid@.grid,
                        mid@.positions,
                        droplet,
                        cell,
                        max_steps as nat,
                        end@.positions,
                        kernel,
                    );
                }
            },
        }
    }
}

/// A pass on a budget whose ceiling is zero changes neither mesh nor budget,
/// whatever the batch size.
pub proof fn lemma_zero_ceiling_pass_is_noop<
    P,
    N,
    D,
    E,
    Sp: Fn() -> (D, i64, i64),
    A: Fn(&D) -> bool,
    Fl: Fn(D, &P, &P, &P, &P) -> (D, i64, i64),
    Se: Fn(D, &P, &P) -> (D, E),
    Lo: Fn(&P, &E) -> P,
    F: Fn(&P, &P, &P) -> N,
>(
    before: HeightfieldMesh<P, N>,
    budget_before: BudgetView,
    after: HeightfieldMesh<P, N>,
    budget_after: BudgetView,
    max_steps: u64,
    kernel: DropletKernel<Sp, A, Fl, Se, Lo>,
    face_normal: F,
)
    requires
        budget_before.max_drops == 0,
        pass_outcome(before, budget_before, after, budget_after, max_steps, kernel, face_normal),
    ensures
        after == before,
        budget_after == budget_before,
{
}

/// A pass with a batch size of zero leaves every vertex and every normal as
/// it was, given that the normals were in step with the vertices before and
/// that `face_normal` makes one normal for one triangle.
pub proof fn lemma_empty_batch_changes_nothing<
    P,
    N,
    D,
    E,
    Sp: Fn() -> (D, i64, i64),
    A: Fn(&D) -> bool,
    Fl: Fn(D, &P, &P, &P, &P) -> (D, i64, i64),
    Se: Fn(D, &P, &P) -> (D, E),
    Lo: Fn(&P, &E) -> P,
    F: Fn(&P, &P, &P) -> N,
>(
    before: HeightfieldMesh<P, N>,
    budget_before: BudgetView,
    after: HeightfieldMesh<P, N>,
    budget_after: BudgetView,
    max_steps: u64,
    kernel: DropletKernel<Sp, A, Fl, Se, Lo>,
    face_normal: F,
)
    requires
        before@.wf(),
        budget_before.drops_per_cycle == 0,
        single_valued_normal(face_normal),
        flat_shaded(before@.positions, before@.normals, face_normal),
        pass_outcome(before, budget_before, after, budget_after, max_steps, kernel, face_normal),
    ensures
        after@ == before@,
        budget_after == budget_before,
{
    if !budget_before.exhausted() {
        let worn = choose|worn: HeightfieldMesh<P, N>|
            {
                &&& #[trigger] worn_by(before, worn, 0, max_steps, kernel)
                &&& after@.grid == worn@.grid
                &&& after@.positions == worn@.positions
                &&& after@.indices == worn@.indices
                &&& flat_shaded(after@.positions, after@.normals, face_normal)
            };
        assert(worn == before);
        assert(before@.grid.vertices() % 3 == 0);
        lemma_normals_determined(
            before@.positions,
            before@.normals,
            after@.normals,
            face_normal,
        );
    }
}

/// With nothing issued yet, a batch size above zero and a ceiling equal to
/// the batch size, the first pass wears the mesh by exactly the batch and a
/// second pass changes neither the mesh nor the budget.
pub proof fn lemma_second_pass_is_noop<
    P,
    N,
    D,
    E,
    Sp: Fn() -> (D, i64, i64),
    A: Fn(&D) -> bool,
    Fl: Fn(D, &P, &P, &P, &P) -> (D, i64, i64),
    Se: Fn(D, &P, &P) -> (D, E),
    Lo: Fn(&P, &E) -> P,
    F: Fn(&P, &P, &P) -> N,
>(
    start: HeightfieldMesh<P, N>,
    budget_start: BudgetView,
    first: HeightfieldMesh<P, N>,
    budget_first: BudgetView,
    second: HeightfieldMesh<P, N>,
    budget_second: BudgetView,
    max_steps: u64,
    kernel: DropletKernel<Sp, A, Fl, Se, Lo>,
    face_normal: F,
)
    requires
        budget_start.wf(),
        budget_start.drop_count == 0,
        budget_start.drops_per_cycle > 0,
        budget_start.max_drops == budget_start.drops_per_cycle,
        pass_outcome(start, budget_start, first, budget_first, max_steps, kernel, face_normal),
        pass_outcome(first, budget_first, second, budget_second, max_steps, kernel, face_normal),
    ensures
        eroded_through(
            start,
            first,
            budget_start.drops_per_cycle as nat,
            max_steps,
            kernel,
            face_normal,
        ),
        budget_first.drop_count == budget_start.drops_per_cycle,
        second == first,
        budget_second == budget_first,
{
}

/// `spawned_run` for a kernel behind a reference.
spec fn spawned_run_of<
    P,
    N,
    D,
    E,
    Sp: Fn() -> (D, i64, i64),
    A: Fn(&D) -> bool,
    Fl: Fn(D, &P, &P, &P, &P) -> (D, i64, i64),
    Se: Fn(D, &P, &P) -> (D, E),
    Lo: Fn(&P, &E) -> P,
>(
    before: HeightfieldMesh<P, N>,
    after: HeightfieldMesh<P, N>,
    max_steps: u64,
    kernel: &DropletKernel<Sp, A, Fl, Se, Lo>,
) -> bool {
    spawned_run(before, after, max_steps, *kernel)
}

/// Runs one batch of droplets and computes the normals again.
///
/// The batch is counted before the first droplet runs. Every droplet is
/// spawned by the kernel, runs for at most `max_steps` steps, and works on
/// the mesh as the droplet before it left it.
pub fn erode<
    P,
    N: Copy,
    D,
    E,
    Sp: Fn() -> (D, i64, i64),
    A: Fn(&D) -> bool,
    Fl: Fn(D, &P, &P, &P, &P) -> (D, i64, i64),
    Se: Fn(D, &P, &P) -> (D, E),
    Lo: Fn(&P, &E) -> P,
    F: Fn(&P, &P, &P) -> N,
>(
    mesh: HeightfieldMesh<P, N>,
    budget: &mut DropBudget,
    max_steps: u64,
    kernel: &DropletKernel<Sp, A, Fl, Se, Lo>,
    face_normal: &F,
) -> (eroded: HeightfieldMesh<P, N>)
    requires
        !old(budget)@.exhausted(),
        kernel_total::<P, D, E, Sp, A, Fl, Se, Lo>(*kernel),
        forall|a: P, b: P, c: P| face_normal.requires((&a, &b, &c)),
    ensures
        final(budget)@ == old(budget)@.after_pass(),
        eroded@.wf(),
        eroded@.grid == mesh@.grid,
        eroded@.indices == mesh@.indices,
        eroded_through(
            mesh,
            eroded,
            old(budget)@.drops_per_cycle as nat,
            max_steps,
            *kernel,
            *face_normal,
        ),
        old(budget)@.drops_per_cycle == 0 ==> eroded@.positions == mesh@.positions,
{
    proof {
        use_type_invariant(&mesh);
    }
    let granted = budget.begin_pass();
    let batch: u32 = match granted {
        Some(batch) => batch,
        None => 0,
    };
    let droplet = |m: HeightfieldMesh<P, N>| -> (r: HeightfieldMesh<P, N>)
        ensures
            spawned_run_of(m, r, max_steps, kernel),
        { run_spawned_droplet(m, max_steps, kernel) };
    let eroded = run_batch(mesh, batch, &droplet, face_normal);
    proof {
        let worn = choose|worn: HeightfieldMesh<P, N>|
            {
                &&& #[trigger] reached_by(droplet, mesh, worn, batch as nat)
                &&& eroded@.grid == worn@.grid
                &&& eroded@.positions == worn@.positions
                &&& eroded@.indices == worn@.indices
                &&& flat_shaded(eroded@.positions, eroded@.normals, *face_normal)
            };
        lemma_batch_of_spawned_runs(droplet, mesh, worn, batch as nat, max_steps, *kernel);
        lemma_droplets_keep_mesh_shape(mesh, worn, batch as nat, max_steps, *kernel);
    }
    eroded
}

/// One request for an erosion pass. With an exhausted budget nothing
/// happens: the mesh comes back as it went in and the budget is untouched.
/// Otherwise a batch is run as `erode` does.
pub fn apply_hydrology<
    P,
    N: Copy,
    D,
    E,
    Sp: Fn() -> (D, i64, i64),
    A: Fn(&D) -> bool,
    Fl: Fn(D, &P, &P, &P, &P) -> (D, i64, i64),
    Se: Fn(D, &P, &P) -> (D, E),
    Lo: Fn(&P, &E) -> P,
    F: Fn(&P, &P, &P) -> N,
>(
    mesh: HeightfieldMesh<P, N>,
    budget: &mut DropBudget,
    max_steps: u64,
    kernel: &DropletKernel<Sp, A, Fl, Se, Lo>,
    face_normal: &F,
) -> (after: HeightfieldMesh<P, N>)
    requires
        kernel_total::<P, D, E, Sp, A, Fl, Se, Lo>(*kernel),
        forall|a: P, b: P, c: P| face_normal.requires((&a, &b, &c)),
    ensures
        after@.wf(),
        after@.grid == mesh@.grid,
        after@.indices == mesh@.indices,
        pass_outcome(mesh, old(budget)@, after, final(budget)@, max_steps, *kernel, *face_normal),
        old(budget)@.exhausted() ==> after == mesh && final(budget)@ == old(budget)@,
        !old(budget)@.exhausted() ==> final(budget)@.drop_count == old(budget)@.drop_count + old(
            budget,
        )@.drops_per_cycle,
        !old(budget)@.exhausted() && old(budget)@.drops_per_cycle == 0 ==> after@.positions
            == mesh@.positions,
{
    proof {
        use_type_invariant(&mesh);
        use_type_invariant(&*budget);
    }
    if budget.exhausted() {
        mesh
    } else {
        erode(mesh, budget, max_steps, kernel, face_normal)
    }
}

} // verus!
