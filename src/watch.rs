use vstd::prelude::*;

verus! {

/// Where the refresh loop of watch mode stands.
#[derive(Clone, Copy, Debug, PartialEq, Eq, Structural)]
pub enum WatchState {
    /// Waiting for the next tick of the timer.
    Waiting,
    /// A snapshot is being composed.
    Composing,
    /// A snapshot is on screen; the keyboard is to be polled.
    Rendered,
    /// The user asked to quit.
    UserQuit,
    /// Nothing is outstanding any more.
    AllComplete,
    /// Composing a snapshot failed.
    Failed,
    /// An interrupt signal arrived.
    Interrupted,
}

/// What happened since the last step.
#[derive(Clone, Copy, Debug, PartialEq, Eq, Structural)]
pub enum WatchEvent {
    /// The timer ticked.
    Tick,
    /// A snapshot was composed.
    Composed,
    /// Composing a snapshot failed.
    ComposeFailed,
    /// An interrupt signal arrived.
    Interrupt,
    /// The keyboard was polled once, after rendering, giving the key pressed if
    /// any; `complete` tells whether the snapshot on screen is all complete.
    Polled { key: Option<char>, complete: bool },
}

/// What the driver of the loop is to do next.
#[derive(Clone, Copy, Debug, PartialEq, Eq, Structural)]
pub enum WatchAction {
    /// Compose a fresh snapshot.
    Compose,
    /// Clear the screen and show the snapshot.
    Render,
    /// Wait for the next tick.
    AwaitTick,
    /// Show the completion notice and leave the loop.
    Finish,
    /// Leave the loop.
    Stop,
}

/// The key that quits watch mode.
pub open spec fn quit_key() -> char {
    'q'
}

/// The key that asks for a refresh without waiting for the timer.
pub open spec fn refresh_key() -> char {
    'r'
}

/// Whether `e` is a poll of the keyboard that found `k` pressed.
pub open spec fn pressed(e: WatchEvent, k: char) -> bool {
    match e {
        WatchEvent::Polled { key, .. } => key == Some(k),
        _ => false,
    }
}

/// Whether the loop has ended in `s`.
pub open spec fn is_final(s: WatchState) -> bool {
    s == WatchState::UserQuit || s == WatchState::AllComplete || s == WatchState::Failed || s
        == WatchState::Interrupted
}

/// One transition of the refresh loop, and the action that comes with it.
pub open spec fn watch_next(s: WatchState, e: WatchEvent) -> (WatchState, WatchAction) {
    if is_final(s) {
        (s, WatchAction::Stop)
    } else if e == WatchEvent::Interrupt {
        (WatchState::Interrupted, WatchAction::Stop)
    } else {
        match (s, e) {
            (WatchState::Waiting, WatchEvent::Tick) => (WatchState::Composing, WatchAction::Compose),
            (WatchState::Composing, WatchEvent::Composed) => (
                WatchState::Rendered,
                WatchAction::Render,
            ),
            (WatchState::Composing, WatchEvent::ComposeFailed) => (
                WatchState::Failed,
                WatchAction::Stop,
            ),
            (WatchState::Rendered, WatchEvent::Polled { key, complete }) => {
                if key == Some(quit_key()) {
                    (WatchState::UserQuit, WatchAction::Stop)
                } else if key == Some(refresh_key()) {
                    (WatchState::Composing, WatchAction::Compose)
                } else if complete {
                    (WatchState::AllComplete, WatchAction::Finish)
                } else {
                    (WatchState::Waiting, WatchAction::AwaitTick)
                }
            },
            (WatchState::Waiting, _) => (WatchState::Waiting, WatchAction::AwaitTick),
            (WatchState::Composing, _) => (WatchState::Composing, WatchAction::Compose),
            _ => (WatchState::Rendered, WatchAction::Render),
        }
    }
}

impl WatchState {
    /// Whether the loop has ended.
    pub fn is_done(&self) -> (r: bool)
        ensures
            r == is_final(*self),
    {
        match self {
            WatchState::UserQuit
            | WatchState::AllComplete
            | WatchState::Failed
            | WatchState::Interrupted => true,
            _ => false,
        }
    }
}

/// Steps the refresh loop: a tick starts a composition; a composed snapshot is
/// rendered; after rendering, the quit key ends the loop, the refresh key starts
/// a composition at once, and otherwise a complete snapshot ends the loop with a
/// notice while an incomplete one waits for the next tick. A failed composition
/// ends the loop, and so does an interrupt, in any state. An event that does not
/// fit the state repeats the state's action; an ended loop stays ended.
pub fn watch_step(s: WatchState, e: WatchEvent) -> (r: (WatchState, WatchAction))
    ensures
        r == watch_next(s, e),
{
    if s.is_done() {
        return (s, WatchAction::Stop);
    }
    if e == WatchEvent::Interrupt {
        return (WatchState::Interrupted, WatchAction::Stop);
    }
    match (s, e) {
        (WatchState::Waiting, WatchEvent::Tick) => (WatchState::Composing, WatchAction::Compose),
        (WatchState::Composing, WatchEvent::Composed) => (WatchState::Rendered, WatchAction::Render),
        (WatchState::Composing, WatchEvent::ComposeFailed) => (WatchState::Failed, WatchAction::Stop),
        (WatchState::Rendered, WatchEvent::Polled { key, complete }) => {
            if key == Some('q') {
                (WatchState::UserQuit, WatchAction::Stop)
            } else if key == Some('r') {
                (WatchState::Composing, WatchAction::Compose)
            } else if complete {
                (WatchState::AllComplete, WatchAction::Finish)
            } else {
                (WatchState::Waiting, WatchAction::AwaitTick)
            }
        },
        (WatchState::Waiting, _) => (WatchState::Waiting, WatchAction::AwaitTick),
        (WatchState::Composing, _) => (WatchState::Composing, WatchAction::Compose),
        _ => (WatchState::Rendered, WatchAction::Render),
    }
}

/// The loop never leaves an end state, and every step into one tells the driver
/// to leave the loop.
pub proof fn lemma_final_states_absorb(s: WatchState, e: WatchEvent)
    ensures
        is_final(s) ==> watch_next(s, e) == (s, WatchAction::Stop),
        is_final(watch_next(s, e).0) ==> (watch_next(s, e).1 == WatchAction::Stop
            || watch_next(s, e).1 == WatchAction::Finish),
{
}

/// A composition only ever starts on a tick, on the refresh key, or while one is
/// already under way: no two run side by side.
pub proof fn lemma_single_flight(s: WatchState, e: WatchEvent)
    ensures
        watch_next(s, e).1 == WatchAction::Compose ==> (s == WatchState::Composing || (s
            == WatchState::Waiting && e == WatchEvent::Tick) || (s == WatchState::Rendered
            && pressed(e, refresh_key()))),
{
}

/// An interrupt ends the loop from every state that has not ended yet.
pub proof fn lemma_interrupt_ends(s: WatchState)
    requires
        !is_final(s),
    ensures
        watch_next(s, WatchEvent::Interrupt) == (WatchState::Interrupted, WatchAction::Stop),
{
}

/// The poll of the keyboard comes first: the quit key ends the loop even when the
/// snapshot is complete.
pub proof fn lemma_quit_first(complete: bool)
    ensures
        watch_next(
            WatchState::Rendered,
            WatchEvent::Polled { key: Some(quit_key()), complete },
        ) == (WatchState::UserQuit, WatchAction::Stop),
{
}

} // verus!
