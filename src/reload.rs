use vstd::prelude::*;

verus! {

/// Seconds between two reloads of the served manifest.
pub const RELOAD_INTERVAL_SECS: u64 = 60;

/// What wakes the reload loop.
#[derive(PartialEq, Eq, Structural, Clone, Copy, Debug)]
pub enum ReloadEvent {
    /// The interval elapsed.
    Tick,
    /// The server asked the loop to stop.
    Stop,
}

/// What the reload loop does next.
#[derive(PartialEq, Eq, Structural, Clone, Copy, Debug)]
pub enum ReloadAction {
    /// Fetch the manifest again and wait for the next event.
    Reload,
    /// Leave the loop.
    Exit,
}

/// The loop runs only where the store does not keep readers fresh itself.
pub fn reload_loop_enabled(store_is_strongly_consistent: bool) -> (r: bool)
    ensures
        r == !store_is_strongly_consistent,
{
    !store_is_strongly_consistent
}

/// A tick reloads, a stop request ends the loop; nothing else ends it.
pub fn on_reload_event(e: ReloadEvent) -> (r: ReloadAction)
    ensures
        r == ReloadAction::Exit <==> e == ReloadEvent::Stop,
{
    match e {
        ReloadEvent::Tick => ReloadAction::Reload,
        ReloadEvent::Stop => ReloadAction::Exit,
    }
}

/// The snapshot served after a reload: the fetched one where the fetch
/// succeeded, else the one served before, so a failed reload never takes
/// the server down or empties what it serves.
pub fn after_reload<S>(served: S, fetched: Option<S>) -> (r: S)
    ensures
        fetched is Some ==> r == fetched->Some_0,
        fetched is None ==> r == served,
{
    match fetched {
        Some(m) => m,
        None => served,
    }
}

} // verus!
