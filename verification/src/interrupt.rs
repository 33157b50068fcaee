//! Ctrl-C handling for both backends, as a state the signal handler and
//! the wait loops share. A capture in progress cannot be abandoned from a
//! signal handler, so the first Ctrl-C only raises a flag, which the wait
//! loops poll with [`InterruptState::check`]; the handler kills a launched
//! RetroArch at once, and a second Ctrl-C exits the process with status
//! 130.
use crate::backend::Interrupted;
use vstd::prelude::*;

verus! {

/// What the signal handler must do for one Ctrl-C.
#[derive(Debug, Clone, Copy, PartialEq, Eq, Structural)]
pub enum SignalAction {
    /// The first Ctrl-C with no child registered: only the flag is raised.
    Nothing,
    /// The first Ctrl-C: SIGKILL the registered RetroArch with this pid.
    Kill(u32),
    /// A second Ctrl-C: exit the process with this status.
    Exit(i32),
}

/// Whether Ctrl-C has been pressed, and the launched RetroArch's pid (0
/// when there is none to kill).
#[derive(Debug, Clone, Copy, PartialEq, Eq, Structural)]
pub struct InterruptState {
    pub interrupted: bool,
    pub child: u32,
}

impl InterruptState {
    /// No Ctrl-C yet, and no child.
    pub fn new() -> (s: InterruptState)
        ensures
            !s.interrupted,
            s.child == 0,
    {
        InterruptState { interrupted: false, child: 0 }
    }

    /// `Err(Interrupted)` once Ctrl-C has been pressed.
    pub fn check(&self) -> (r: Result<(), Interrupted>)
        ensures
            r is Err <==> self.interrupted,
    {
        if self.interrupted {
            Err(Interrupted)
        } else {
            Ok(())
        }
    }

    /// The child the handler kills on Ctrl-C; call once RetroArch is spawned.
    pub fn register_child(&mut self, pid: u32)
        ensures
            final(self).child == pid,
            final(self).interrupted == old(self).interrupted,
            *final(self) == after_event(*old(self), Event::Register(pid)),
    {
        self.child = pid;
    }

    /// Forget the registered child, once it has exited or been handed over
    /// to the user with `--keep-running`.
    pub fn clear_child(&mut self)
        ensures
            final(self).child == 0,
            final(self).interrupted == old(self).interrupted,
            *final(self) == after_event(*old(self), Event::Clear),
    {
        self.child = 0;
    }

    /// One Ctrl-C: the first raises the flag and kills the registered
    /// child, if any; a second exits with status 130.
    pub fn on_signal(&mut self) -> (a: SignalAction)
        ensures
            final(self).interrupted,
            final(self).child == old(self).child,
            *final(self) == after_event(*old(self), Event::Signal),
            a == signal_action(*old(self)),
            a == if old(self).interrupted {
                SignalAction::Exit(130)
            } else if old(self).child != 0 {
                SignalAction::Kill(old(self).child)
            } else {
                SignalAction::Nothing
            },
    {
        if self.interrupted {
            return SignalAction::Exit(130);
        }
        self.interrupted = true;
        if self.child != 0 {
            SignalAction::Kill(self.child)
        } else {
            SignalAction::Nothing
        }
    }
}

/// What happens to an [`InterruptState`]: a child registered or
/// cleared, or a Ctrl-C.
pub enum Event {
    Register(u32),
    Clear,
    Signal,
}

/// The state after `e`, as `register_child`, `clear_child` and
/// `on_signal` leave it.
pub open spec fn after_event(s: InterruptState, e: Event) -> InterruptState {
    match e {
        Event::Register(pid) => InterruptState { child: pid, ..s },
        Event::Clear => InterruptState { child: 0, ..s },
        Event::Signal => InterruptState { interrupted: true, ..s },
    }
}

/// The state after the events `es`, in order.
pub open spec fn after_events(s: InterruptState, es: Seq<Event>) -> InterruptState
    decreases es.len(),
{
    if es.len() == 0 {
        s
    } else {
        after_events(after_event(s, es[0]), es.drop_first())
    }
}

/// What the handler does for a Ctrl-C that finds the state `s`.
pub open spec fn signal_action(s: InterruptState) -> SignalAction {
    if s.interrupted {
        SignalAction::Exit(130)
    } else if s.child != 0 {
        SignalAction::Kill(s.child)
    } else {
        SignalAction::Nothing
    }
}

/// Once Ctrl-C has been pressed, every later check reports it, whatever
/// children are registered or cleared in between, and any further Ctrl-C
/// exits with status 130.
pub proof fn lemma_interrupt_is_sticky(s: InterruptState, es: Seq<Event>)
    requires
        s.interrupted,
    ensures
        after_events(s, es).interrupted,
        signal_action(after_events(s, es)) == SignalAction::Exit(130),
    decreases es.len(),
{
    if es.len() > 0 {
        lemma_interrupt_is_sticky(after_event(s, es[0]), es.drop_first());
    }
}

/// A second Ctrl-C exits with status 130, whatever happened between the
/// two.
pub proof fn lemma_second_signal_exits(s: InterruptState, es: Seq<Event>)
    ensures
        signal_action(after_events(after_event(s, Event::Signal), es)) == SignalAction::Exit(130),
{
    lemma_interrupt_is_sticky(after_event(s, Event::Signal), es);
}

} // verus!
