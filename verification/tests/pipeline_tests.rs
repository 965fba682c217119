use terrain_erosion::grid::Grid;
use terrain_erosion::pipeline::Dispatch;
use terrain_erosion::pipeline::HydrologyNode;
use terrain_erosion::pipeline::HydrologyState;
use terrain_erosion::pipeline::PipelineStage;
use terrain_erosion::pipeline::UPDATE_WORKGROUPS;
use terrain_erosion::pipeline::WORKGROUP_SIZE;

#[test]
fn node_starts_loading() {
    assert_eq!(HydrologyNode::new().state(), HydrologyState::Loading);
    assert_eq!(HydrologyNode::default().state(), HydrologyState::Loading);
}

#[test]
fn node_waits_for_each_pipeline_in_turn() {
    assert_eq!(HydrologyState::Loading.poll_target(), Some(PipelineStage::Init));
    assert_eq!(HydrologyState::Init.poll_target(), Some(PipelineStage::Update));
    assert_eq!(HydrologyState::Update.poll_target(), None);
}

#[test]
fn node_moves_only_when_the_pipeline_is_ready() {
    let mut node = HydrologyNode::new();
    node.update(false);
    assert_eq!(node.state(), HydrologyState::Loading);
    node.update(true);
    assert_eq!(node.state(), HydrologyState::Init);
    node.update(false);
    assert_eq!(node.state(), HydrologyState::Init);
    node.update(true);
    assert_eq!(node.state(), HydrologyState::Update);
    node.update(false);
    assert_eq!(node.state(), HydrologyState::Update);
    node.update(true);
    assert_eq!(node.state(), HydrologyState::Update);
}

#[test]
fn advance_table() {
    assert_eq!(HydrologyState::Loading.advance(false), HydrologyState::Loading);
    assert_eq!(HydrologyState::Loading.advance(true), HydrologyState::Init);
    assert_eq!(HydrologyState::Init.advance(false), HydrologyState::Init);
    assert_eq!(HydrologyState::Init.advance(true), HydrologyState::Update);
    assert_eq!(HydrologyState::Update.advance(false), HydrologyState::Update);
    assert_eq!(HydrologyState::Update.advance(true), HydrologyState::Update);
}

#[test]
fn loading_dispatches_nothing() {
    let grid = Grid::new(256, 256).unwrap();
    assert_eq!(HydrologyNode::new().run(&grid), None);
}

#[test]
fn init_covers_the_grid() {
    assert_eq!(WORKGROUP_SIZE, 8);
    let grid = Grid::new(256, 256).unwrap();
    let mut node = HydrologyNode::new();
    node.update(true);
    assert_eq!(
        node.run(&grid),
        Some(Dispatch { stage: PipelineStage::Init, x: 32, y: 32, z: 1 })
    );
    let grid = Grid::new(64, 16).unwrap();
    assert_eq!(
        node.run(&grid),
        Some(Dispatch { stage: PipelineStage::Init, x: 8, y: 2, z: 1 })
    );
}

#[test]
fn init_rounds_down_on_sides_that_are_no_multiple() {
    let grid = Grid::new(20, 7).unwrap();
    let mut node = HydrologyNode::new();
    node.update(true);
    assert_eq!(
        node.run(&grid),
        Some(Dispatch { stage: PipelineStage::Init, x: 2, y: 0, z: 1 })
    );
}

#[test]
fn update_runs_a_fixed_batch() {
    assert_eq!(UPDATE_WORKGROUPS, 4);
    let mut node = HydrologyNode::new();
    node.update(true);
    node.update(true);
    for side in [8u32, 256, 1000] {
        let grid = Grid::new(side, side).unwrap();
        assert_eq!(
            node.run(&grid),
            Some(Dispatch { stage: PipelineStage::Update, x: 4, y: 4, z: 1 })
        );
    }
}
