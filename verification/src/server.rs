//! The dedicated server's simulation clock.

use vstd::prelude::*;

verus! {

/// The server's current simulation tick.
pub struct ServerTick(pub u64);

impl Default for ServerTick {
    fn default() -> (t: ServerTick)
        ensures
            t.0 == 0,
    {
        ServerTick(0)
    }
}

/// Marks a process running as a dedicated server, which skips rendering
/// and input.
pub struct IsDedicatedServer;

/// Advances the simulation by one tick.
pub fn advance_tick(tick: &mut ServerTick)
    requires
        old(tick).0 < u64::MAX,
    ensures
        final(tick).0 == old(tick).0 + 1,
{
    tick.0 = tick.0 + 1;
}

} // verus!
