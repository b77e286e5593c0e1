//! What the sessions on one core share.
use vstd::prelude::*;

verus! {

/// One more holder; the count wraps around at the end of its range.
pub open spec fn incremented(count: usize) -> usize {
    if count == usize::MAX {
        0
    } else {
        (count + 1) as usize
    }
}

/// One holder less; a count of zero stays as it is.
pub open spec fn decremented(count: usize) -> usize {
    if count == 0 {
        0
    } else {
        (count - 1) as usize
    }
}

/// State shared between bootloader and companion app
/// RTT sessions on the same core.
/// It's all single threaded, these act as counting semaphores.
#[derive(Debug, PartialEq, Eq, Structural)]
pub struct SharedState {
    pub clear_vector_catch_and_breakpoints: usize,
    pub vector_catch_enabled: usize,
}

impl SharedState {
    /// The counts before anybody holds anything.
    pub open spec fn zero() -> SharedState {
        SharedState { clear_vector_catch_and_breakpoints: 0, vector_catch_enabled: 0 }
    }

    /// One session more has cleared the vector catches and breakpoints.
    pub open spec fn cleared(self) -> SharedState {
        SharedState {
            clear_vector_catch_and_breakpoints: incremented(
                self.clear_vector_catch_and_breakpoints,
            ),
            ..self
        }
    }

    /// One session more has the vector catch enabled.
    pub open spec fn caught(self) -> SharedState {
        SharedState { vector_catch_enabled: incremented(self.vector_catch_enabled), ..self }
    }

    /// A session that stops gives up what it has counted itself in for.
    pub open spec fn released(self, cleared: bool, caught: bool) -> SharedState {
        SharedState {
            clear_vector_catch_and_breakpoints: if cleared {
                decremented(self.clear_vector_catch_and_breakpoints)
            } else {
                self.clear_vector_catch_and_breakpoints
            },
            vector_catch_enabled: if caught {
                decremented(self.vector_catch_enabled)
            } else {
                self.vector_catch_enabled
            },
        }
    }

    /// A new record of reference counts, all zero.
    pub fn new_rc() -> (state: SharedState)
        ensures
            state == SharedState::zero(),
    {
        SharedState { clear_vector_catch_and_breakpoints: 0, vector_catch_enabled: 0 }
    }

    /// Forgets all holders.
    pub fn reset(&mut self)
        ensures
            *final(self) == SharedState::zero(),
    {
        self.clear_vector_catch_and_breakpoints = 0;
        self.vector_catch_enabled = 0;
    }

    /// Returns true if this is the first to call
    pub fn inc_clear_vector_catch_and_breakpoints(&mut self) -> (first: bool)
        ensures
            first == (old(self).clear_vector_catch_and_breakpoints == 0),
            *final(self) == old(self).cleared(),
    {
        incr_is_first(&mut self.clear_vector_catch_and_breakpoints)
    }

    /// Returns true if this is the last to call, or if enable was never called
    pub fn dec_clear_vector_catch_and_breakpoints(&mut self) -> (last: bool)
        ensures
            last == (old(self).clear_vector_catch_and_breakpoints <= 1),
            *final(self) == (SharedState {
                clear_vector_catch_and_breakpoints: decremented(
                    old(self).clear_vector_catch_and_breakpoints,
                ),
                vector_catch_enabled: old(self).vector_catch_enabled,
            }),
    {
        dec_is_last(&mut self.clear_vector_catch_and_breakpoints)
    }

    /// Returns true if this is the first to call
    pub fn inc_vector_catch_enabled(&mut self) -> (first: bool)
        ensures
            first == (old(self).vector_catch_enabled == 0),
            *final(self) == old(self).caught(),
    {
        incr_is_first(&mut self.vector_catch_enabled)
    }

    /// Returns true if this is the last to call, or if enable was never called
    pub fn dec_vector_catch_enabled(&mut self) -> (last: bool)
        ensures
            last == (old(self).vector_catch_enabled <= 1),
            *final(self) == (SharedState {
                clear_vector_catch_and_breakpoints: old(self).clear_vector_catch_and_breakpoints,
                vector_catch_enabled: decremented(old(self).vector_catch_enabled),
            }),
    {
        dec_is_last(&mut self.vector_catch_enabled)
    }
}

/// Counts one holder more and tells whether it is the first.
pub fn incr_is_first(count: &mut usize) -> (first: bool)
    ensures
        first == (*old(count) == 0),
        *final(count) == incremented(*old(count)),
{
    let previous: usize = *count;
    *count = if previous == usize::MAX { 0 } else { previous + 1 };
    previous == 0
}

/// Counts one holder less and tells whether none is left.
pub fn dec_is_last(count: &mut usize) -> (last: bool)
    ensures
        last == (*old(count) <= 1),
        *final(count) == decremented(*old(count)),
{
    let previous: usize = *count;
    // Nobody ever held it: the count stays where it is
    *count = if previous == 0 { 0 } else { previous - 1 };
    previous == 1 || previous == 0
}

/// The count after `n` holders more.
pub open spec fn incremented_by(count: usize, n: nat) -> usize
    decreases n,
{
    if n == 0 {
        count
    } else {
        incremented(incremented_by(count, (n - 1) as nat))
    }
}

/// The count after `n` holders less.
pub open spec fn decremented_by(count: usize, n: nat) -> usize
    decreases n,
{
    if n == 0 {
        count
    } else {
        decremented(decremented_by(count, (n - 1) as nat))
    }
}

/// Counting from zero, the count is the number of holders as long as it fits,
/// so only the first of them finds it at zero.
pub proof fn holders_are_counted(n: nat)
    requires
        n <= usize::MAX,
    ensures
        incremented_by(0, n) == n,
    decreases n,
{
    if n > 0 {
        holders_are_counted((n - 1) as nat);
    }
}

/// Of `n` holders that leave one after the other, the last one is the first to
/// find a count of at most one, and it leaves zero behind.
pub proof fn only_the_last_holder_is_last(n: usize, left: nat)
    requires
        left <= n,
    ensures
        decremented_by(n, left) == n - left,
        decremented_by(n, left) <= 1 <==> left + 1 >= n,
    decreases left,
{
    if left > 0 {
        only_the_last_holder_is_last(n, (left - 1) as nat);
    }
}

/// A holder that comes and goes leaves the count as it was, short of a count
/// that is at the end of its range.
pub proof fn decrement_undoes_increment(count: usize)
    requires
        count < usize::MAX,
    ensures
        decremented(incremented(count)) == count,
{
}

/// The two counts have nothing to do with each other, and each goes up by one for a holder
/// that comes and down by one for a holder that leaves.
pub proof fn counts_are_kept_apart(state: SharedState, clear: bool, catch: bool)
    requires
        state.clear_vector_catch_and_breakpoints < usize::MAX,
        state.vector_catch_enabled < usize::MAX,
    ensures
        state.cleared().clear_vector_catch_and_breakpoints
            == state.clear_vector_catch_and_breakpoints + 1,
        state.cleared().vector_catch_enabled == state.vector_catch_enabled,
        state.caught().vector_catch_enabled == state.vector_catch_enabled + 1,
        state.caught().clear_vector_catch_and_breakpoints
            == state.clear_vector_catch_and_breakpoints,
        state.cleared().released(true, false) == state,
        state.caught().released(false, true) == state,
        state.cleared().caught().released(true, true) == state,
        state.released(false, false) == state,
        ({
            let left = state.released(clear, catch);
            &&& left.clear_vector_catch_and_breakpoints == 0
                || state.clear_vector_catch_and_breakpoints
                == left.clear_vector_catch_and_breakpoints + if clear { 1int } else { 0 }
            &&& left.vector_catch_enabled == 0 || state.vector_catch_enabled
                == left.vector_catch_enabled + if catch { 1int } else { 0 }
        }),
{
}

/// A new record has no holders, and one that nobody holds stays so when one leaves.
pub proof fn nobody_holds_a_new_record(clear: bool, catch: bool)
    ensures
        SharedState::zero().clear_vector_catch_and_breakpoints == 0,
        SharedState::zero().vector_catch_enabled == 0,
        SharedState::zero().released(clear, catch) == SharedState::zero(),
{
}

} // verus!
