use vstd::prelude::*;

verus! {

/// The state of the debug chunk display.
#[derive(Debug, Clone, Copy, PartialEq, Eq, Structural)]
pub enum DebugChunkState {
    /// No debug information are displayed.
    Hidden,
    /// Draw the chunk that the camera is currently in.
    ShowCurrentChunk,
    /// Draw the chunk grid.
    ShowAllChunks,
}

/// The state that follows `s` in the cycle Hidden → ShowCurrentChunk → ShowAllChunks → Hidden.
pub open spec fn next_state_spec(s: DebugChunkState) -> DebugChunkState {
    match s {
        DebugChunkState::Hidden => DebugChunkState::ShowCurrentChunk,
        DebugChunkState::ShowCurrentChunk => DebugChunkState::ShowAllChunks,
        DebugChunkState::ShowAllChunks => DebugChunkState::Hidden,
    }
}

impl DebugChunkState {
    /// Returns a string representation of the debug chunk state.
    pub fn name(self) -> (r: &'static str)
        ensures
            self == DebugChunkState::Hidden ==> r@ == "hidden"@,
            self == DebugChunkState::ShowCurrentChunk ==> r@ == "show current chunk"@,
            self == DebugChunkState::ShowAllChunks ==> r@ == "show all chunks"@,
    {
        match self {
            DebugChunkState::Hidden => "hidden",
            DebugChunkState::ShowCurrentChunk => "show current chunk",
            DebugChunkState::ShowAllChunks => "show all chunks",
        }
    }

    /// Returns the next state in the cycle.
    pub fn next_state(self) -> (r: DebugChunkState)
        ensures
            r == next_state_spec(self),
    {
        match self {
            DebugChunkState::Hidden => DebugChunkState::ShowCurrentChunk,
            DebugChunkState::ShowCurrentChunk => DebugChunkState::ShowAllChunks,
            DebugChunkState::ShowAllChunks => DebugChunkState::Hidden,
        }
    }
}

/// Three steps of the cycle come back to the starting state, and no fewer do.
pub proof fn lemma_next_state_cycle(s: DebugChunkState)
    ensures
        next_state_spec(next_state_spec(next_state_spec(s))) == s,
        next_state_spec(s) != s,
        next_state_spec(next_state_spec(s)) != s,
{
}

/// The minimum time, in nanoseconds, that must pass before the average frame time is computed
/// (500 ms).
pub const FRAME_TIME_THRESHOLD_NANOS: u64 = 500_000_000;

/// The debugging state that changes from tick to tick: the overlay toggle, the chunk display
/// and the frame time average.
pub struct DebugState {
    /// Whether the debug overlay is currently enabled.
    pub overlay: bool,
    /// The current state of the debug chunk display.
    pub chunk_state: DebugChunkState,
    /// The time accumulated since the average frame time was last computed, in nanoseconds.
    pub accumulated_frame_nanos: u64,
    /// The number of frames accumulated since the average frame time was last computed.
    pub accumulated_frame_count: u32,
    /// The last average frame time computed, in nanoseconds.
    pub average_frame_nanos: u64,
}

impl DebugState {
    /// Creates a new state: overlay hidden, chunks hidden, no frame time yet.
    pub fn new() -> (r: DebugState)
        ensures
            !r.overlay,
            r.chunk_state == DebugChunkState::Hidden,
            r.accumulated_frame_nanos == 0,
            r.accumulated_frame_count == 0,
            r.average_frame_nanos == 0,
    {
        DebugState {
            overlay: false,
            chunk_state: DebugChunkState::Hidden,
            accumulated_frame_nanos: 0,
            accumulated_frame_count: 0,
            average_frame_nanos: 0,
        }
    }

    /// Advances the state by one tick: `toggle_overlay` flips the overlay (F3), `cycle_chunks`
    /// moves the chunk display to its next state (F4), and the frame that lasted
    /// `since_last_tick_nanos` is added to the frame time average, which is computed once at
    /// least [`FRAME_TIME_THRESHOLD_NANOS`] have accumulated.
    pub fn tick(&mut self, toggle_overlay: bool, cycle_chunks: bool, since_last_tick_nanos: u64)
        requires
            old(self).accumulated_frame_nanos + since_last_tick_nanos <= u64::MAX,
            old(self).accumulated_frame_count < u32::MAX,
        ensures
            final(self).overlay == (old(self).overlay != toggle_overlay),
            final(self).chunk_state == if cycle_chunks {
                next_state_spec(old(self).chunk_state)
            } else {
                old(self).chunk_state
            },
            ({
                let acc = old(self).accumulated_frame_nanos + since_last_tick_nanos;
                let count = old(self).accumulated_frame_count + 1;
                if acc >= FRAME_TIME_THRESHOLD_NANOS {
                    &&& final(self).average_frame_nanos == acc / count
                    &&& final(self).accumulated_frame_nanos == 0
                    &&& final(self).accumulated_frame_count == 0
                } else {
                    &&& final(self).average_frame_nanos == old(self).average_frame_nanos
                    &&& final(self).accumulated_frame_nanos == acc
                    &&& final(self).accumulated_frame_count == count
                }
            }),
    {
        if toggle_overlay {
            self.overlay = !self.overlay;
        }
        if cycle_chunks {
            self.chunk_state = self.chunk_state.next_state();
        }
        self.accumulated_frame_nanos = self.accumulated_frame_nanos + since_last_tick_nanos;
        self.accumulated_frame_count = self.accumulated_frame_count + 1;
        if self.accumulated_frame_nanos >= FRAME_TIME_THRESHOLD_NANOS {
            self.average_frame_nanos = self.accumulated_frame_nanos / (self.accumulated_frame_count as u64);
            self.accumulated_frame_nanos = 0;
            self.accumulated_frame_count = 0;
        }
    }
}

} // verus!
