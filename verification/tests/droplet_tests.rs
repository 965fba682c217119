use terrain_erosion::droplet::run_droplet;
use terrain_erosion::droplet::DropletKernel;
use terrain_erosion::droplet::DropletStep;
use terrain_erosion::droplet::GradientSlots;
use terrain_erosion::grid::Grid;
use terrain_erosion::mesh::build_mesh_data;
use terrain_erosion::mesh::HeightfieldMesh;

// A terrain of whole-number heights and a droplet that walks a fixed way:
// everything that the path decides can be checked exactly.

type Height = i64;

#[derive(Clone, Copy, Debug, PartialEq)]
struct Walker {
    x: i64,
    z: i64,
    dx: i64,
    dz: i64,
    fuel: u32,
}

fn no_normal(_: &Height, _: &Height, _: &Height) {}

fn slope(cx: u32, cz: u32) -> Height {
    100 * cx as i64 + 10 * cz as i64
}

fn walker_alive(w: &Walker) -> bool {
    w.fuel > 0
}

fn walker_flow(w: Walker, _: &Height, _: &Height, _: &Height, _: &Height) -> (Walker, i64, i64) {
    let moved = Walker { x: w.x + w.dx, z: w.z + w.dz, ..w };
    (moved, moved.x, moved.z)
}

fn walker_settle(w: Walker, from: &Height, to: &Height) -> (Walker, Height) {
    (Walker { fuel: w.fuel - 1, ..w }, from - to)
}

fn lower(height: &Height, amount: &Height) -> Height {
    height - amount
}

fn walker_spawn() -> (Walker, i64, i64) {
    (Walker { x: 0, z: 0, dx: 1, dz: 0, fuel: 2 }, 0, 0)
}

type WalkerKernel = DropletKernel<
    fn() -> (Walker, i64, i64),
    fn(&Walker) -> bool,
    fn(Walker, &Height, &Height, &Height, &Height) -> (Walker, i64, i64),
    fn(Walker, &Height, &Height) -> (Walker, Height),
    fn(&Height, &Height) -> Height,
>;

fn walker_kernel() -> WalkerKernel {
    DropletKernel { spawn: walker_spawn, alive: walker_alive, flow: walker_flow, settle: walker_settle, lower }
}

fn slope_mesh(w: u32, h: u32) -> HeightfieldMesh<Height, ()> {
    build_mesh_data(Grid::new(w, h).unwrap(), &slope, &no_normal)
}

#[test]
fn height_is_read_at_the_nearest_cell_origin() {
    let grid = Grid::new(4, 3).unwrap();
    assert_eq!(grid.height_slot(0, 0), 0);
    assert_eq!(grid.height_slot(2, 1), 36);
    assert_eq!(grid.height_slot(-1, 1), 24);
    assert_eq!(grid.height_slot(4, 1), 42);
    assert_eq!(grid.height_slot(2, -1), 12);
    assert_eq!(grid.height_slot(2, 3), 60);
    assert_eq!(grid.height_slot(9, 9), 66);
}

#[test]
fn gradient_reads_the_four_neighbours() {
    let grid = Grid::new(4, 3).unwrap();
    assert_eq!(
        grid.gradient_slots(1, 1),
        GradientSlots { right: 36, left: 24, up: 54, down: 6 }
    );
}

#[test]
fn gradient_at_the_rim_reads_the_rim_cell() {
    let grid = Grid::new(4, 3).unwrap();
    assert_eq!(
        grid.gradient_slots(0, 0),
        GradientSlots { right: 6, left: 0, up: 24, down: 0 }
    );
    assert_eq!(
        grid.gradient_slots(3, 2),
        GradientSlots { right: 66, left: 60, up: 66, down: 42 }
    );
    assert_eq!(
        grid.gradient_slots(i32::MAX, i32::MIN),
        GradientSlots { right: 18, left: 18, up: 18, down: 18 }
    );
}

#[test]
fn step_off_the_grid_ends_the_path() {
    let grid = Grid::new(4, 3).unwrap();
    assert_eq!(grid.droplet_step((3, 1), 4, 1), DropletStep::Left);
    assert_eq!(grid.droplet_step((0, 0), -1, 0), DropletStep::Left);
    assert_eq!(grid.droplet_step((0, 0), 0, -1), DropletStep::Left);
    assert_eq!(grid.droplet_step((0, 2), 0, 3), DropletStep::Left);
}

#[test]
fn step_on_the_grid_names_both_heights() {
    let grid = Grid::new(4, 3).unwrap();
    assert_eq!(
        grid.droplet_step((1, 1), 2, 1),
        DropletStep::Moved { cell: (2, 1), from: 30, to: 36 }
    );
    assert_eq!(
        grid.droplet_step((1, 1), 1, 1),
        DropletStep::Moved { cell: (1, 1), from: 30, to: 30 }
    );
}

#[test]
fn droplet_lowers_the_corner_it_leaves() {
    let mesh = slope_mesh(3, 3);
    let grid = mesh.grid();
    let start = Walker { x: 1, z: 1, dx: -1, dz: 0, fuel: 1 };
    let worn = run_droplet(mesh, start, 1, 1, 10, &walker_kernel());
    // One step from (1, 1) at height 110 to (0, 1) at height 10: corner
    // (1, 1) loses 100, in all six places where it is stored.
    for slot in 0..grid.vertex_count() {
        let (cx, cz) = grid.slot_corner(slot);
        let expected = if (cx, cz) == (1, 1) { 10 } else { slope(cx, cz) };
        assert_eq!(worn.positions()[slot], expected, "slot {}", slot);
    }
}

#[test]
fn droplet_works_on_what_its_last_step_left() {
    let mesh = slope_mesh(4, 1);
    let grid = mesh.grid();
    let start = Walker { x: 2, z: 0, dx: -1, dz: 0, fuel: 5 };
    let worn = run_droplet(mesh, start, 2, 0, 10, &walker_kernel());
    // (2, 0) -> (1, 0): corner (2, 0) goes from 200 to 100.
    // (1, 0) -> (0, 0): corner (1, 0) goes from 100 to 0.
    // (0, 0) -> off the grid: nothing.
    let height = |cx: u32| worn.positions()[grid.corner_slots(cx, 0)[0]];
    assert_eq!(height(0), 0);
    assert_eq!(height(1), 0);
    assert_eq!(height(2), 100);
    assert_eq!(height(3), 300);
    assert_eq!(worn.positions()[grid.slot(1, 0, 5)], 100);
    assert_eq!(worn.positions()[grid.slot(2, 0, 5)], 300);
}

#[test]
fn spent_droplet_changes_nothing() {
    let mesh = slope_mesh(3, 3);
    let before = mesh.positions().clone();
    let start = Walker { x: 1, z: 1, dx: 1, dz: 0, fuel: 0 };
    let worn = run_droplet(mesh, start, 1, 1, 10, &walker_kernel());
    assert_eq!(*worn.positions(), before);
}

#[test]
fn droplet_off_the_grid_changes_nothing() {
    let mesh = slope_mesh(3, 3);
    let before = mesh.positions().clone();
    let start = Walker { x: 3, z: 1, dx: -1, dz: 0, fuel: 3 };
    let worn = run_droplet(mesh, start, 3, 1, 10, &walker_kernel());
    assert_eq!(*worn.positions(), before);
    let worn = run_droplet(worn, start, -1, -1, 10, &walker_kernel());
    assert_eq!(*worn.positions(), before);
}

#[test]
fn path_is_cut_off_after_max_steps() {
    let mesh = slope_mesh(4, 1);
    let grid = mesh.grid();
    let before = mesh.positions().clone();
    let start = Walker { x: 3, z: 0, dx: -1, dz: 0, fuel: 100 };
    let worn = run_droplet(mesh, start, 3, 0, 0, &walker_kernel());
    assert_eq!(*worn.positions(), before);
    let worn = run_droplet(worn, start, 3, 0, 1, &walker_kernel());
    assert_eq!(worn.positions()[grid.cell_slot(3, 0)], 200);
    assert_eq!(worn.positions()[grid.cell_slot(2, 0)], 200);
    assert_eq!(worn.positions()[grid.cell_slot(1, 0)], 100);
}

#[test]
fn droplet_that_stays_in_its_cell_keeps_running() {
    let mesh = slope_mesh(2, 2);
    let grid = mesh.grid();
    let before = mesh.positions().clone();
    let start = Walker { x: 1, z: 1, dx: 0, dz: 0, fuel: 7 };
    let steps = std::cell::Cell::new(0u32);
    let settle = |w: Walker, from: &Height, to: &Height| {
        steps.set(steps.get() + 1);
        assert_eq!(from, to);
        (Walker { fuel: w.fuel - 1, ..w }, 1i64)
    };
    let kernel = DropletKernel { spawn: walker_spawn, alive: walker_alive, flow: walker_flow, settle, lower };
    let worn = run_droplet(mesh, start, 1, 1, 100, &kernel);
    assert_eq!(steps.get(), 7);
    assert_eq!(worn.positions()[grid.cell_slot(1, 1)], before[grid.cell_slot(1, 1)] - 7);
    assert_eq!(worn.positions()[grid.cell_slot(0, 0)], before[grid.cell_slot(0, 0)]);
}

#[test]
fn flow_is_given_the_gradient_vertices() {
    let mesh = slope_mesh(3, 3);
    let seen = std::cell::Cell::new((0i64, 0i64, 0i64, 0i64));
    let flow = |w: Walker, right: &Height, left: &Height, up: &Height, down: &Height| {
        seen.set((*right, *left, *up, *down));
        (w, -1i64, -1i64)
    };
    let start = Walker { x: 1, z: 1, dx: 0, dz: 0, fuel: 1 };
    let kernel = DropletKernel { spawn: walker_spawn, alive: walker_alive, flow, settle: walker_settle, lower };
    let worn = run_droplet(mesh, start, 1, 1, 5, &kernel);
    assert_eq!(seen.get(), (210, 10, 120, 100));
    let worn = run_droplet(worn, start, 2, 0, 5, &kernel);
    assert_eq!(seen.get(), (200, 100, 210, 200));
    assert_eq!(worn.normals().len(), 54);
}

#[test]
fn droplet_leaves_normals_and_indices_alone() {
    let grid = Grid::new(3, 3).unwrap();
    let tag = |a: &Height, _: &Height, _: &Height| *a;
    let mesh: HeightfieldMesh<Height, Height> = build_mesh_data(grid, &slope, &tag);
    let normals = mesh.normals().clone();
    let indices = mesh.indices().clone();
    let start = Walker { x: 2, z: 2, dx: -1, dz: -1, fuel: 9 };
    let worn = run_droplet(mesh, start, 2, 2, 10, &walker_kernel());
    assert_eq!(*worn.normals(), normals);
    assert_eq!(*worn.indices(), indices);
    assert_eq!(worn.positions()[grid.cell_slot(2, 2)], 110);
    assert_eq!(worn.positions()[grid.cell_slot(1, 1)], 0);
    assert_eq!(worn.positions()[grid.cell_slot(0, 0)], 0);
}
