//! The cross-boundary chunk exchange: a single-slot "latest chunk" snapshot
//! plus a dirty flag, with last-write-wins semantics. A host-side writer
//! calls `submit` (through the boundary entry `update_chunk`); the render
//! loop polls `take_dirty` and reads `snapshot`.

use vstd::prelude::*;

use crate::chunk::CHUNK_VOLUME;

verus! {

/// The mathematical state of an exchange: the stored chunk and the
/// pending-update flag.
pub struct ExchangeState {
    pub chunk: Seq<u32>,
    pub dirty: bool,
}

/// Effect of `submit`: the slot is overwritten and the flag is raised.
pub open spec fn spec_submit(s: ExchangeState, new_chunk: Seq<u32>) -> ExchangeState {
    ExchangeState { chunk: new_chunk, dirty: true }
}

/// Effect of `take_dirty`: the flag is read and cleared; the chunk stays.
pub open spec fn spec_take_dirty(s: ExchangeState) -> (bool, ExchangeState) {
    (s.dirty, ExchangeState { chunk: s.chunk, dirty: false })
}

/// Effect of `snapshot`: the stored chunk, unchanged.
pub open spec fn spec_snapshot(s: ExchangeState) -> Seq<u32> {
    s.chunk
}

/// Single-slot shared state between the host-callback side and the render
/// loop. Locking lives outside this type: whoever holds the `&mut` is the
/// writer of the instant.
pub struct ChunkExchange {
    chunk: Vec<u32>,
    dirty: bool,
}

/// Why a boundary update was rejected; the previous chunk then remains
/// authoritative.
#[derive(Clone, Copy, Debug, PartialEq, Eq, Structural)]
pub enum BoundaryError {
    /// The submitted buffer did not hold exactly one chunk's worth of cells.
    WrongLength,
}

impl View for ChunkExchange {
    type V = ExchangeState;

    closed spec fn view(&self) -> ExchangeState {
        ExchangeState { chunk: self.chunk@, dirty: self.dirty }
    }
}

impl ChunkExchange {
    /// The stored buffer always holds exactly one chunk.
    pub open spec fn wf(&self) -> bool {
        self@.chunk.len() == CHUNK_VOLUME
    }

    /// A fresh exchange: an all-empty chunk, nothing pending.
    pub fn new() -> (ex: ChunkExchange)
        ensures
            ex.wf(),
            ex@.chunk =~= Seq::new(CHUNK_VOLUME as nat, |i: int| 0u32),
            !ex@.dirty,
    {
        let chunk: Vec<u32> = vec![0u32; CHUNK_VOLUME];
        assert forall|i: int| 0 <= i < chunk@.len() implies chunk@[i] == 0u32 by {
            assert(vstd::prelude::cloned::<u32>(0u32, chunk@[i]));
        }
        ChunkExchange { chunk, dirty: false }
    }

    /// Replace the stored snapshot and raise the dirty flag.
    pub fn submit(&mut self, new_chunk: Vec<u32>)
        requires
            new_chunk@.len() == CHUNK_VOLUME,
        ensures
            final(self).wf(),
            final(self)@ == spec_submit(old(self)@, new_chunk@),
    {
        self.chunk = new_chunk;
        self.dirty = true;
    }

    /// Clone the current snapshot. The caller gets an independent copy; the
    /// exchange itself is untouched.
    pub fn snapshot(&self) -> (r: Vec<u32>)
        ensures
            r@ == spec_snapshot(self@),
    {
        let r = self.chunk.clone();
        assert(r@ =~= self.chunk@);
        r
    }

    /// Read and clear the dirty flag: at-most-once delivery of "a newer
    /// chunk is available".
    pub fn take_dirty(&mut self) -> (was_dirty: bool)
        ensures
            (was_dirty, final(self)@) == spec_take_dirty(old(self)@),
            final(self).wf() == old(self).wf(),
    {
        let was_dirty = self.dirty;
        self.dirty = false;
        was_dirty
    }

    /// The dirty flag as it stands, without consuming it.
    fn is_dirty(&self) -> (r: bool)
        ensures
            r == self@.dirty,
    {
        self.dirty
    }
}

/// Boundary entry for a host-issued chunk update: accept the buffer only if
/// it holds exactly one chunk; otherwise leave the exchange untouched.
pub fn update_chunk(ex: &mut ChunkExchange, data: Vec<u32>) -> (r: Result<usize, BoundaryError>)
    ensures
        data@.len() == CHUNK_VOLUME ==> r == Ok::<usize, BoundaryError>(CHUNK_VOLUME)
            && final(ex)@ == spec_submit(old(ex)@, data@) && final(ex).wf(),
        data@.len() != CHUNK_VOLUME ==> r == Err::<usize, BoundaryError>(
            BoundaryError::WrongLength,
        ) && final(ex)@ == old(ex)@,
{
    if data.len() == CHUNK_VOLUME {
        ex.submit(data);
        Ok(CHUNK_VOLUME)
    } else {
        Err(BoundaryError::WrongLength)
    }
}

/// Read the current snapshot; the render loop's view of the world.
pub fn get_chunk_data(ex: &ChunkExchange) -> (r: Vec<u32>)
    ensures
        r@ == spec_snapshot(ex@),
{
    ex.snapshot()
}

/// The pending-update flag as it stands, without consuming it.
pub fn get_update_flag(ex: &ChunkExchange) -> (r: bool)
    ensures
        r == ex@.dirty,
{
    ex.is_dirty()
}

/// Poll for a pending update, consuming the flag.
pub fn check_and_clear_update_flag(ex: &mut ChunkExchange) -> (r: bool)
    ensures
        (r, final(ex)@) == spec_take_dirty(old(ex)@),
        final(ex).wf() == old(ex).wf(),
{
    ex.take_dirty()
}

/// Law: a submission followed by one poll and one read hands back exactly
/// the submitted buffer, and the poll observes the update.
pub proof fn lemma_submit_take_snapshot(s: ExchangeState, c: Seq<u32>)
    ensures
        spec_take_dirty(spec_submit(s, c)).0,
        spec_snapshot(spec_take_dirty(spec_submit(s, c)).1) == c,
{
}

/// Law: two back-to-back submissions with no poll in between collapse to a
/// single dirty observation, and the slot reflects only the second buffer.
pub proof fn lemma_back_to_back_submits(s: ExchangeState, c1: Seq<u32>, c2: Seq<u32>)
    ensures
        spec_take_dirty(spec_submit(spec_submit(s, c1), c2)).0,
        spec_snapshot(spec_take_dirty(spec_submit(spec_submit(s, c1), c2)).1) == c2,
        !spec_take_dirty(spec_take_dirty(spec_submit(spec_submit(s, c1), c2)).1).0,
{
}

} // verus!
