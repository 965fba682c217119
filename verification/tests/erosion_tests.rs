use rand::Rng;
use terrain_erosion::budget::DropBudget;
use terrain_erosion::droplet::run_spawned_droplet;
use terrain_erosion::droplet::DropletKernel;
use terrain_erosion::grid::Grid;
use terrain_erosion::hydrology::apply_hydrology;
use terrain_erosion::hydrology::erode;
use terrain_erosion::hydrology::run_batch;
use terrain_erosion::mesh::build_mesh_data;
use terrain_erosion::mesh::HeightfieldMesh;

type Position = [f32; 3];
type Normal = [f32; 3];
type Mesh = HeightfieldMesh<Position, Normal>;

#[derive(Clone, Copy)]
struct Params {
    dt: f32,
    density: f32,
    evap_rate: f32,
    deposition_rate: f32,
    min_volume: f32,
    friction: f32,
}

#[derive(Clone, Copy)]
struct Drop {
    pos: [f32; 2],
    speed: [f32; 2],
    volume: f32,
    sediment: f32,
}

fn scenario_params() -> Params {
    Params {
        dt: 0.25,
        density: 1.0,
        evap_rate: 0.001,
        deposition_rate: 0.1,
        min_volume: 0.05,
        friction: 0.05,
    }
}

fn face_normal(a: &Position, b: &Position, c: &Position) -> Normal {
    let u = [b[0] - a[0], b[1] - a[1], b[2] - a[2]];
    let v = [c[0] - a[0], c[1] - a[1], c[2] - a[2]];
    let n = [
        u[1] * v[2] - u[2] * v[1],
        u[2] * v[0] - u[0] * v[2],
        u[0] * v[1] - u[1] * v[0],
    ];
    let len = (n[0] * n[0] + n[1] * n[1] + n[2] * n[2]).sqrt();
    [n[0] / len, n[1] / len, n[2] / len]
}

fn flat(cx: u32, cz: u32) -> Position {
    [cx as f32, 0.0, cz as f32]
}

fn hill(cx: u32, cz: u32) -> Position {
    let (x, z) = (cx as f32 - 4.0, cz as f32 - 4.0);
    [cx as f32, 8.0 - 0.25 * (x * x + z * z), cz as f32]
}

fn max_steps(p: &Params) -> u64 {
    (p.min_volume.ln() / (1.0 - p.dt * p.evap_rate).ln()).ceil() as u64 + 1
}

fn alive(d: &Drop, p: &Params) -> bool {
    d.volume > p.min_volume
}

fn flow(mut d: Drop, right: &Position, left: &Position, up: &Position, down: &Position, p: &Params) -> (Drop, i64, i64) {
    let g = [(right[1] - left[1]) / 2.0, (up[1] - down[1]) / 2.0];
    let len = (g[0] * g[0] + 1.0 + g[1] * g[1]).sqrt();
    let n = [-g[0] / len, 1.0 / len, -g[1] / len];
    d.speed[0] += p.dt * n[0] / (d.volume * p.density);
    d.speed[1] += p.dt * n[2] / (d.volume * p.density);
    d.pos[0] += p.dt * d.speed[0];
    d.pos[1] += p.dt * d.speed[1];
    d.speed[0] *= 1.0 - p.dt * p.friction;
    d.speed[1] *= 1.0 - p.dt * p.friction;
    (d, d.pos[0].floor() as i64, d.pos[1].floor() as i64)
}

fn settle(mut d: Drop, from: &Position, to: &Position, p: &Params) -> (Drop, f32) {
    let speed = (d.speed[0] * d.speed[0] + d.speed[1] * d.speed[1]).sqrt();
    let max_sediment = d.volume * speed * (from[1] - to[1]);
    let diff = max_sediment.max(0.0) - d.sediment;
    let amount = p.dt * d.volume * p.deposition_rate * diff;
    d.sediment += p.dt * p.deposition_rate * diff;
    d.volume *= 1.0 - p.dt * p.evap_rate;
    (d, amount)
}

fn lower(v: &Position, amount: &f32) -> Position {
    [v[0], v[1] - *amount, v[2]]
}

fn fresh(x: f32, z: f32) -> (Drop, i64, i64) {
    let drop = Drop { pos: [x, z], speed: [0.0, 0.0], volume: 1.0, sediment: 0.0 };
    (drop, x.floor() as i64, z.floor() as i64)
}

fn random_spawn(grid: &Grid) -> (Drop, i64, i64) {
    let mut rng = rand::thread_rng();
    fresh(rng.gen_range(0.0..grid.width() as f32), rng.gen_range(0.0..grid.height() as f32))
}

fn run_one(mesh: Mesh, p: Params, x: f32, z: f32) -> Mesh {
    let kernel = DropletKernel {
        spawn: || fresh(x, z),
        alive: |d: &Drop| alive(d, &p),
        flow: |d: Drop, r: &Position, l: &Position, u: &Position, dn: &Position| flow(d, r, l, u, dn, &p),
        settle: |d: Drop, from: &Position, to: &Position| settle(d, from, to, &p),
        lower,
    };
    run_spawned_droplet(mesh, max_steps(&p), &kernel)
}

fn pass(mesh: Mesh, budget: &mut DropBudget, p: Params, issued: &std::cell::Cell<u32>) -> Mesh {
    let grid = mesh.grid();
    let kernel = DropletKernel {
        spawn: || {
            issued.set(issued.get() + 1);
            random_spawn(&grid)
        },
        alive: |d: &Drop| alive(d, &p),
        flow: |d: Drop, r: &Position, l: &Position, u: &Position, dn: &Position| flow(d, r, l, u, dn, &p),
        settle: |d: Drop, from: &Position, to: &Position| settle(d, from, to, &p),
        lower,
    };
    apply_hydrology(mesh, budget, max_steps(&p), &kernel, &face_normal)
}

fn heights(mesh: &Mesh) -> Vec<f32> {
    mesh.positions().iter().map(|p| p[1]).collect()
}

#[test]
fn flat_terrain_scenario() {
    let grid = Grid::new(4, 4).unwrap();
    let mesh: Mesh = build_mesh_data(grid, &flat, &face_normal);
    let before = heights(&mesh);
    let p = scenario_params();
    let mut budget = DropBudget::new(50, 400_000);
    let issued = std::cell::Cell::new(0u32);
    let mesh = pass(mesh, &mut budget, p, &issued);
    assert_eq!(issued.get(), 50);
    assert_eq!(budget.drop_count(), 50);
    let after = heights(&mesh);
    assert_eq!(after.len(), 96);
    let mut total = 0.0f64;
    for (a, b) in after.iter().zip(before.iter()) {
        assert!(a.is_finite());
        total += (*a - *b) as f64;
    }
    assert!(total <= 0.0);
    for n in mesh.normals() {
        assert!(n[0].is_finite() && n[1].is_finite() && n[2].is_finite());
    }
    for p in mesh.positions() {
        assert!(p[0].is_finite() && p[2].is_finite());
    }
}

#[test]
fn flat_terrain_is_left_flat() {
    let grid = Grid::new(4, 4).unwrap();
    let mesh: Mesh = build_mesh_data(grid, &flat, &face_normal);
    let p = scenario_params();
    let mut budget = DropBudget::new(50, 50);
    let issued = std::cell::Cell::new(0u32);
    let mesh = pass(mesh, &mut budget, p, &issued);
    for h in heights(&mesh) {
        assert_eq!(h, 0.0);
    }
    for n in mesh.normals() {
        assert_eq!(*n, [0.0, 1.0, 0.0]);
    }
}

#[test]
fn droplet_on_a_hill_takes_material_downhill() {
    let grid = Grid::new(8, 8).unwrap();
    let mesh: Mesh = build_mesh_data(grid, &hill, &face_normal);
    let before = heights(&mesh);
    let p = scenario_params();
    let mesh = run_one(mesh, p, 5.5, 4.5);
    let after = heights(&mesh);
    let mut lowered = 0;
    let mut total = 0.0f64;
    for (a, b) in after.iter().zip(before.iter()) {
        assert!(a.is_finite());
        if a < b {
            lowered += 1;
        }
        total += (*a - *b) as f64;
    }
    assert!(lowered > 0);
    assert!(total < 0.0);
    // Cells still meet at every corner.
    for a in 0..after.len() {
        for b in 0..after.len() {
            if grid.slot_corner(a) == grid.slot_corner(b) {
                assert_eq!(after[a], after[b]);
            }
        }
    }
}

#[test]
fn pass_with_empty_batch_changes_nothing() {
    let grid = Grid::new(8, 8).unwrap();
    let mesh: Mesh = build_mesh_data(grid, &hill, &face_normal);
    let positions = mesh.positions().clone();
    let normals = mesh.normals().clone();
    let p = scenario_params();
    let mut budget = DropBudget::new(0, 1000);
    let issued = std::cell::Cell::new(0u32);
    let mesh = pass(mesh, &mut budget, p, &issued);
    assert_eq!(*mesh.positions(), positions);
    assert_eq!(*mesh.normals(), normals);
    assert_eq!(budget.drop_count(), 0);
    assert_eq!(issued.get(), 0);
    let kernel = DropletKernel {
        spawn: || fresh(1.5, 1.5),
        alive: |d: &Drop| alive(d, &p),
        flow: |d: Drop, r: &Position, l: &Position, u: &Position, dn: &Position| flow(d, r, l, u, dn, &p),
        settle: |d: Drop, from: &Position, to: &Position| settle(d, from, to, &p),
        lower,
    };
    let mesh = erode(mesh, &mut budget, max_steps(&p), &kernel, &face_normal);
    assert_eq!(*mesh.positions(), positions);
    assert_eq!(*mesh.normals(), normals);
}

#[test]
fn second_pass_on_a_spent_budget_is_a_noop() {
    let grid = Grid::new(8, 8).unwrap();
    let mesh: Mesh = build_mesh_data(grid, &hill, &face_normal);
    let start = mesh.positions().clone();
    let p = scenario_params();
    let issued = std::cell::Cell::new(0u32);
    let mut budget = DropBudget::new(20, 20);
    let mesh = pass(mesh, &mut budget, p, &issued);
    assert_eq!(issued.get(), 20);
    assert_eq!(budget.drop_count(), 20);
    let first = mesh.positions().clone();
    let first_normals = mesh.normals().clone();
    assert!(first != start);
    let mesh = pass(mesh, &mut budget, p, &issued);
    assert_eq!(issued.get(), 20);
    assert_eq!(budget.drop_count(), 20);
    assert_eq!(*mesh.positions(), first);
    assert_eq!(*mesh.normals(), first_normals);
}

#[test]
fn zero_ceiling_makes_every_pass_a_noop() {
    let grid = Grid::new(8, 8).unwrap();
    let p = scenario_params();
    for drops in [0u32, 1, 50, 2048] {
        let mesh: Mesh = build_mesh_data(grid, &hill, &face_normal);
        let positions = mesh.positions().clone();
        let normals = mesh.normals().clone();
        let issued = std::cell::Cell::new(0u32);
        let mut budget = DropBudget::new(drops, 0);
        let mesh = pass(mesh, &mut budget, p, &issued);
        let mesh = pass(mesh, &mut budget, p, &issued);
        assert_eq!(issued.get(), 0);
        assert_eq!(budget.drop_count(), 0);
        assert_eq!(*mesh.positions(), positions);
        assert_eq!(*mesh.normals(), normals);
    }
}

#[test]
fn droplets_run_one_after_the_other() {
    let grid = Grid::new(2, 2).unwrap();
    let tag = |a: &u32, _: &u32, _: &u32| *a;
    let mesh: HeightfieldMesh<u32, u32> = build_mesh_data(grid, &|_, _| 1u32, &tag);
    let droplet = |mut m: HeightfieldMesh<u32, u32>| {
        m.change_corner(1, 1, &|v: &u32| 2 * *v + 1);
        m
    };
    let mesh = run_batch(mesh, 5, &droplet, &tag);
    // 1 -> 3 -> 7 -> 15 -> 31 -> 63, in every copy of the corner.
    let slot = grid.cell_slot(1, 1);
    assert_eq!(mesh.positions()[slot], 63);
    assert_eq!(mesh.positions()[2], 63);
    assert_eq!(mesh.positions()[0], 1);
    // Normals are computed after the last droplet: slot 18 starts the
    // first triangle of cell (1, 1).
    assert_eq!(mesh.normals()[slot], 63);
    assert_eq!(mesh.normals()[slot + 1], 63);
    assert_eq!(mesh.normals()[slot + 2], 63);
    assert_eq!(mesh.normals()[0], 1);
}

#[test]
fn volume_shrinks_until_the_droplet_is_spent() {
    let p = scenario_params();
    let bound = max_steps(&p);
    let mut volume = 1.0f32;
    let mut steps = 0u64;
    while volume > p.min_volume {
        let next = volume * (1.0 - p.dt * p.evap_rate);
        assert!(next < volume);
        volume = next;
        steps += 1;
        assert!(steps <= bound);
    }
    assert!(steps > 0);
}
