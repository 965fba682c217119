//! The erosion compute node: when it may dispatch work, and how much.
//!
//! The node starts in `Loading`. It dispatches nothing until the `Init`
//! pipeline is ready, then seeds the textures with a dispatch that covers
//! the grid, and once the `Update` pipeline is ready it runs one small batch
//! of erosion on every tick. The node never goes back to an earlier state,
//! and it moves at most one state per tick.

use vstd::prelude::*;
use crate::grid::Grid;

verus! {

/// Threads along each side of a workgroup.
pub const WORKGROUP_SIZE: u32 = 8;

/// Workgroups along each side of the erosion batch that runs on every tick.
pub const UPDATE_WORKGROUPS: u32 = 4;

/// The two compute pipelines of the node.
#[derive(Clone, Copy, Debug, PartialEq, Eq, Structural)]
pub enum PipelineStage {
    /// Seeds the height and normal textures.
    Init,
    /// Runs one batch of erosion.
    Update,
}

/// Where the node stands.
#[derive(Clone, Copy, Debug, PartialEq, Eq, Structural)]
pub enum HydrologyState {
    /// No pipeline is known to be ready.
    Loading,
    /// The `Init` pipeline is ready.
    Init,
    /// The `Update` pipeline is ready.
    Update,
}

/// One dispatch of compute work: a pipeline and a workgroup count per axis.
#[derive(Clone, Copy, Debug, PartialEq, Eq, Structural)]
pub struct Dispatch {
    pub stage: PipelineStage,
    pub x: u32,
    pub y: u32,
    pub z: u32,
}

/// The node of the render graph that runs the erosion.
#[derive(Clone, Copy, Debug)]
pub struct HydrologyNode {
    state: HydrologyState,
}

impl HydrologyState {
    /// Position of the state in the order `Loading`, `Init`, `Update`.
    pub open spec fn rank(self) -> nat {
        match self {
            HydrologyState::Loading => 0,
            HydrologyState::Init => 1,
            HydrologyState::Update => 2,
        }
    }

    /// The pipeline whose readiness moves the node on, if there is one.
    pub open spec fn awaited(self) -> Option<PipelineStage> {
        match self {
            HydrologyState::Loading => Some(PipelineStage::Init),
            HydrologyState::Init => Some(PipelineStage::Update),
            HydrologyState::Update => None,
        }
    }

    /// The state after a tick on which the awaited pipeline was found
    /// `ready` or not.
    pub open spec fn advanced(self, ready: bool) -> HydrologyState {
        match self {
            HydrologyState::Loading => if ready {
                HydrologyState::Init
            } else {
                HydrologyState::Loading
            },
            HydrologyState::Init => if ready {
                HydrologyState::Update
            } else {
                HydrologyState::Init
            },
            HydrologyState::Update => HydrologyState::Update,
        }
    }

    /// The work that a node in this state dispatches on a tick.
    pub open spec fn work(self, grid: Grid) -> Option<Dispatch> {
        match self {
            HydrologyState::Loading => None,
            HydrologyState::Init => Some(
                Dispatch {
                    stage: PipelineStage::Init,
                    x: (grid.width() / WORKGROUP_SIZE) as u32,
                    y: (grid.height() / WORKGROUP_SIZE) as u32,
                    z: 1,
                },
            ),
            HydrologyState::Update => Some(
                Dispatch {
                    stage: PipelineStage::Update,
                    x: UPDATE_WORKGROUPS,
                    y: UPDATE_WORKGROUPS,
                    z: 1,
                },
            ),
        }
    }

    /// The pipeline to ask about on this tick, or `None` in the last state,
    /// in which nothing is awaited any more.
    pub fn poll_target(self) -> (stage: Option<PipelineStage>)
        ensures
            stage == self.awaited(),
    {
        match self {
            HydrologyState::Loading => Some(PipelineStage::Init),
            HydrologyState::Init => Some(PipelineStage::Update),
            HydrologyState::Update => None,
        }
    }

    /// The state after this tick. `ready` says whether the awaited pipeline
    /// was found ready; in the last state it is not looked at.
    pub fn advance(self, ready: bool) -> (next: HydrologyState)
        ensures
            next == self.advanced(ready),
    {
        match self {
            HydrologyState::Loading => if ready {
                HydrologyState::Init
            } else {
                HydrologyState::Loading
            },
            HydrologyState::Init => if ready {
                HydrologyState::Update
            } else {
                HydrologyState::Init
            },
            HydrologyState::Update => HydrologyState::Update,
        }
    }
}

/// A tick never moves the node back, and moves it on by at most one state,
/// and only if the awaited pipeline is ready.
pub proof fn lemma_state_moves_forward(state: HydrologyState, ready: bool)
    ensures
        state.rank() <= state.advanced(ready).rank() <= state.rank() + 1,
        !ready ==> state.advanced(ready) == state,
        ready && state.awaited() is Some ==> state.advanced(ready).rank() == state.rank() + 1,
{
}

/// `Update` is the last state: no tick leaves it, and in it nothing is
/// awaited.
pub proof fn lemma_update_is_final(ready: bool)
    ensures
        HydrologyState::Update.advanced(ready) == HydrologyState::Update,
        HydrologyState::Update.awaited() is None,
{
}

/// The seeding dispatch covers a grid whose sides are multiples of the
/// workgroup size exactly: one thread per cell.
pub proof fn lemma_init_covers_grid(grid: Grid)
    requires
        grid.wf(),
        grid.width() % WORKGROUP_SIZE == 0,
        grid.height() % WORKGROUP_SIZE == 0,
    ensures
        HydrologyState::Init.work(grid) matches Some(d) && d.x * WORKGROUP_SIZE == grid.width()
            && d.y * WORKGROUP_SIZE == grid.height() && d.z == 1,
{
}

impl View for HydrologyNode {
    type V = HydrologyState;

    closed spec fn view(&self) -> HydrologyState {
        self.state
    }
}

impl HydrologyNode {
    /// A node that waits for its first pipeline.
    pub fn new() -> (node: HydrologyNode)
        ensures
            node@ == HydrologyState::Loading,
    {
        HydrologyNode { state: HydrologyState::Loading }
    }

    /// Where the node stands.
    pub fn state(&self) -> (state: HydrologyState)
        ensures
            state == self@,
    {
        self.state
    }

    /// One tick of the state machine. `ready` says whether the pipeline that
    /// `state().poll_target()` names was found ready.
    pub fn update(&mut self, ready: bool)
        ensures
            final(self)@ == old(self)@.advanced(ready),
    {
        self.state = self.state.advance(ready);
    }

    /// The work to dispatch on this tick over a terrain of the size of
    /// `grid`, if any: nothing while loading, a grid-covering seeding
    /// dispatch in `Init`, one erosion batch in `Update`.
    pub fn run(&self, grid: &Grid) -> (work: Option<Dispatch>)
        ensures
            work == self@.work(*grid),
    {
        match self.state {
            HydrologyState::Loading => None,
            HydrologyState::Init => Some(
                Dispatch {
                    stage: PipelineStage::Init,
                    x: grid.width() / WORKGROUP_SIZE,
                    y: grid.height() / WORKGROUP_SIZE,
                    z: 1,
                },
            ),
            HydrologyState::Update => Some(
                Dispatch {
                    stage: PipelineStage::Update,
                    x: UPDATE_WORKGROUPS,
                    y: UPDATE_WORKGROUPS,
                    z: 1,
                },
            ),
        }
    }
}

impl Default for HydrologyNode {
    /// A node that waits for its first pipeline.
    fn default() -> (node: HydrologyNode)
        ensures
            node@ == HydrologyState::Loading,
    {
        HydrologyNode::new()
    }
}

} // verus!
