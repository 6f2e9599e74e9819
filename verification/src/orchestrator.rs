//! The per-frame orchestration decisions: polling the exchange and
//! rebuilding the scene on change, the presentation-error recovery policy,
//! the render loop's phase machine, and the seeded demo chunk shown before
//! the first host update. The device work these decisions drive (surface
//! configuration, draw submission) happens outside the library.

use vstd::prelude::*;

use crate::chunk::{CHUNK_SIZE, CHUNK_VOLUME, spec_cell, spec_chunk_index, spec_in_bounds};
use crate::chunk_renderer::{ChunkRenderer, lemma_chunk_index_decode, scene_matches_chunk};
use crate::exchange::{ChunkExchange, check_and_clear_update_flag, get_chunk_data, spec_take_dirty};
use crate::scene::Scene;

verus! {

/// One render-loop step: consume the dirty flag and, when an update was
/// pending, rebuild the scene wholesale from the latest snapshot; the
/// camera channel is untouched either way.
pub fn poll_chunk_update(renderer: &ChunkRenderer, ex: &mut ChunkExchange, scene: &mut Scene) -> (rebuilt:
    bool)
    requires
        old(ex).wf(),
    ensures
        rebuilt == old(ex)@.dirty,
        final(ex)@ == spec_take_dirty(old(ex)@).1,
        final(ex).wf(),
        rebuilt ==> scene_matches_chunk(
            renderer.block_manager,
            old(ex)@.chunk,
            final(scene)@,
        ),
        !rebuilt ==> *final(scene) == *old(scene),
{
    if check_and_clear_update_flag(ex) {
        let data = get_chunk_data(ex);
        renderer.rebuild_scene(&data, scene);
        true
    } else {
        false
    }
}

/// How a presentation attempt ended, as reported by the device layer.
#[derive(Clone, Copy, Debug, PartialEq, Eq, Structural)]
pub enum SurfaceStatus {
    /// The surface was lost and must be rebuilt.
    Lost,
    /// The surface no longer matches the window and must be rebuilt.
    Outdated,
    /// The frame timed out waiting for the surface.
    Timeout,
    /// The device ran out of memory presenting.
    OutOfMemory,
    /// Any other presentation failure.
    Other,
}

/// What the render loop does about a failed presentation.
#[derive(Clone, Copy, Debug, PartialEq, Eq, Structural)]
pub enum FrameAction {
    /// Reconfigure the surface at the current window size, then go on.
    Reconfigure,
    /// Report the failure and skip this frame; the next frame retries.
    SkipFrame,
}

/// The recovery policy: a lost or outdated surface is reconfigured; every
/// other failure only skips the frame. Nothing is fatal, nothing is
/// retried within the same frame.
pub open spec fn spec_recovery_action(status: SurfaceStatus) -> FrameAction {
    match status {
        SurfaceStatus::Lost => FrameAction::Reconfigure,
        SurfaceStatus::Outdated => FrameAction::Reconfigure,
        _ => FrameAction::SkipFrame,
    }
}

/// Decide how to handle a failed presentation.
pub fn plan_surface_recovery(status: SurfaceStatus) -> (r: FrameAction)
    ensures
        r == spec_recovery_action(status),
{
    match status {
        SurfaceStatus::Lost => FrameAction::Reconfigure,
        SurfaceStatus::Outdated => FrameAction::Reconfigure,
        _ => FrameAction::SkipFrame,
    }
}

/// Where the render loop stands.
#[derive(Clone, Copy, Debug, PartialEq, Eq, Structural)]
pub enum Phase {
    /// No device yet; nothing can be drawn.
    Uninitialized,
    /// Device and scene stand ready for the next frame.
    Ready,
    /// A frame's update-and-draw sequence is running.
    Rendering,
    /// The surface is being reconfigured after a loss.
    Recovering,
    /// The external shutdown signal arrived; the loop is over.
    Terminated,
}

/// What happened that may move the render loop to another phase.
#[derive(Clone, Copy, Debug, PartialEq, Eq, Structural)]
pub enum PhaseEvent {
    /// Device setup finished.
    DeviceReady,
    /// A frame's update-and-draw sequence begins.
    FrameBegun,
    /// The frame was presented.
    FramePresented,
    /// Presentation reported a lost or outdated surface.
    SurfaceLost,
    /// The surface was reconfigured.
    SurfaceRecovered,
    /// The external shutdown signal.
    ShutdownRequested,
}

/// The loop's phase machine: Uninitialized to Ready once the device is up,
/// Ready and Rendering alternate per frame, Rendering falls back through
/// Recovering to Ready on surface loss, and shutdown ends the loop from
/// anywhere. Events that do not apply to the current phase change nothing.
pub open spec fn spec_next_phase(phase: Phase, event: PhaseEvent) -> Phase {
    match event {
        PhaseEvent::ShutdownRequested => Phase::Terminated,
        PhaseEvent::DeviceReady => if phase is Uninitialized {
            Phase::Ready
        } else {
            phase
        },
        PhaseEvent::FrameBegun => if phase is Ready {
            Phase::Rendering
        } else {
            phase
        },
        PhaseEvent::FramePresented => if phase is Rendering {
            Phase::Ready
        } else {
            phase
        },
        PhaseEvent::SurfaceLost => if phase is Rendering {
            Phase::Recovering
        } else {
            phase
        },
        PhaseEvent::SurfaceRecovered => if phase is Recovering {
            Phase::Ready
        } else {
            phase
        },
    }
}

/// Advance the render loop's phase machine by one event.
pub fn next_phase(phase: Phase, event: PhaseEvent) -> (r: Phase)
    ensures
        r == spec_next_phase(phase, event),
{
    match event {
        PhaseEvent::ShutdownRequested => Phase::Terminated,
        PhaseEvent::DeviceReady => if matches!(phase, Phase::Uninitialized) {
            Phase::Ready
        } else {
            phase
        },
        PhaseEvent::FrameBegun => if matches!(phase, Phase::Ready) {
            Phase::Rendering
        } else {
            phase
        },
        PhaseEvent::FramePresented => if matches!(phase, Phase::Rendering) {
            Phase::Ready
        } else {
            phase
        },
        PhaseEvent::SurfaceLost => if matches!(phase, Phase::Rendering) {
            Phase::Recovering
        } else {
            phase
        },
        PhaseEvent::SurfaceRecovered => if matches!(phase, Phase::Recovering) {
            Phase::Ready
        } else {
            phase
        },
    }
}

/// The block type seeded at (x, y, z) in the demo chunk: a ten-by-ten
/// stone floor with dirt blocks on every other cell above it.
pub open spec fn spec_demo_cell(x: int, y: int, z: int) -> u32 {
    if y == 0 && x < 10 && z < 10 {
        2
    } else if y == 1 && x < 10 && z < 10 && x % 2 == 0 && z % 2 == 0 {
        1
    } else {
        0
    }
}

/// The demo chunk shown at startup, before the host's first update.
pub fn demo_chunk() -> (r: Vec<u32>)
    ensures
        r@.len() == CHUNK_VOLUME,
        forall|x: int, y: int, z: int|
            spec_in_bounds(x, y, z) ==> #[trigger] spec_cell(r@, x, y, z) == spec_demo_cell(
                x,
                y,
                z,
            ),
{
    let mut chunk: Vec<u32> = Vec::new();
    let mut i: usize = 0;
    while i < CHUNK_VOLUME
        invariant
            i <= CHUNK_VOLUME,
            chunk@.len() == i,
            forall|j: int|
                0 <= j < i ==> #[trigger] chunk@[j] == spec_demo_cell(
                    j % (CHUNK_SIZE as int),
                    (j / (CHUNK_SIZE as int)) / (CHUNK_SIZE as int),
                    (j / (CHUNK_SIZE as int)) % (CHUNK_SIZE as int),
                ),
        decreases CHUNK_VOLUME - i,
    {
        let x = i % CHUNK_SIZE;
        let z = (i / CHUNK_SIZE) % CHUNK_SIZE;
        let y = (i / CHUNK_SIZE) / CHUNK_SIZE;
        let value: u32 = if y == 0 && x < 10 && z < 10 {
            2
        } else if y == 1 && x < 10 && z < 10 && x % 2 == 0 && z % 2 == 0 {
            1
        } else {
            0
        };
        chunk.push(value);
        i += 1;
    }
    proof {
        assert forall|x: int, y: int, z: int| spec_in_bounds(x, y, z) implies #[trigger] spec_cell(
            chunk@,
            x,
            y,
            z,
        ) == spec_demo_cell(x, y, z) by {
            lemma_chunk_index_decode(x, y, z);
            assert(0 <= spec_chunk_index(x, y, z) < CHUNK_VOLUME);
        }
    }
    chunk
}

} // verus!
