//! The shutdown channel: what turns an interrupt into something the flow
//! loop can wait on.
//!
//! A watcher thread is the only one to see the interrupt. What it does with
//! it depends on a switch: while a session runs, it puts one byte into a pipe
//! whose read end the flow loop waits on, so that the session can end
//! cleanly; while none runs, there is nothing to drain and the process
//! ends at once. The watcher is started once per process.
//!
//! This module holds the channel's two flags and every decision taken on
//! them. The pipe, the watcher and the signal mask belong to the program.
use vstd::prelude::*;

verus! {

/// The byte that stands for one interrupt in the pipe.
pub const NOTIFICATION: u8 = 1;

/// Why the watcher could not be started.
#[derive(Debug, Clone, Copy, PartialEq, Eq, Structural)]
pub enum SignalError {
    /// It has been started before.
    AlreadyStarted,
}

/// What the watcher does with an interrupt.
#[derive(Debug, Clone, Copy, PartialEq, Eq, Structural)]
pub enum InterruptAction {
    /// Write `NOTIFICATION` into the pipe: a session runs and is to end
    /// cleanly.
    Notify,
    /// End the process at once, with a non-zero status: no session runs.
    Abort,
}

/// The two flags of the shutdown channel.
#[derive(Debug, Clone, Copy, PartialEq, Eq, Structural)]
pub struct ShutdownChannel {
    /// Whether the watcher has been started.
    pub started: bool,
    /// Whether an interrupt is passed on to the flow loop.
    pub handling: bool,
}

impl ShutdownChannel {
    /// The channel of a process in which nothing has happened yet.
    pub open spec fn initial() -> ShutdownChannel {
        ShutdownChannel { started: false, handling: false }
    }

    /// The channel after an attempt to start the watcher, and whether the
    /// attempt is let through. The first attempt is, and turns the switch on;
    /// every later one is refused and changes nothing.
    pub open spec fn spawn(self) -> (ShutdownChannel, Result<(), SignalError>) {
        if self.started {
            (self, Err(SignalError::AlreadyStarted))
        } else {
            (ShutdownChannel { started: true, handling: true }, Ok(()))
        }
    }

    /// The channel after the switch has been set to `flag`.
    pub open spec fn switch(self, flag: bool) -> ShutdownChannel {
        ShutdownChannel { handling: flag, ..self }
    }

    /// The channel after the switch has been set to each of `flags` in turn.
    pub open spec fn switch_all(self, flags: Seq<bool>) -> ShutdownChannel
        decreases flags.len(),
    {
        if flags.len() == 0 {
            self
        } else {
            self.switch(flags[0]).switch_all(flags.drop_first())
        }
    }

    /// What becomes of an interrupt.
    pub open spec fn interrupt(self) -> InterruptAction {
        if self.handling {
            InterruptAction::Notify
        } else {
            InterruptAction::Abort
        }
    }

    /// A channel on which nothing has happened yet: the watcher is not
    /// started, and an interrupt ends the process.
    pub fn new() -> (channel: ShutdownChannel)
        ensures
            channel == ShutdownChannel::initial(),
    {
        ShutdownChannel { started: false, handling: false }
    }

    /// Decides what the watcher does with an interrupt that has just come.
    pub fn on_interrupt(&self) -> (action: InterruptAction)
        ensures
            action == self.interrupt(),
    {
        if self.handling {
            InterruptAction::Notify
        } else {
            InterruptAction::Abort
        }
    }
}

/// Sets the switch: with `true` an interrupt is passed on to the flow loop,
/// with `false` it ends the process.
pub fn handle_interrupt(channel: &mut ShutdownChannel, flag: bool)
    ensures
        *final(channel) == old(channel).switch(flag),
{
    channel.handling = flag;
}

/// Claims the one start of the watcher. The first call succeeds and turns
/// the switch on; every later call is refused and changes nothing.
pub fn spawn_sig_handler(channel: &mut ShutdownChannel) -> (r: Result<(), SignalError>)
    ensures
        *final(channel) == old(channel).spawn().0,
        r == old(channel).spawn().1,
{
    if channel.started {
        return Err(SignalError::AlreadyStarted);
    }
    channel.started = true;
    handle_interrupt(channel, true);
    Ok(())
}

/// Setting the switch never gives the start back.
pub proof fn lemma_switch_keeps_started(channel: ShutdownChannel, flags: Seq<bool>)
    ensures
        channel.switch_all(flags).started == channel.started,
        flags.len() > 0 ==> channel.switch_all(flags).handling == flags.last(),
        flags.len() == 0 ==> channel.switch_all(flags) == channel,
    decreases flags.len(),
{
    if flags.len() > 0 {
        lemma_switch_keeps_started(channel.switch(flags[0]), flags.drop_first());
        if flags.len() > 1 {
            assert(flags.drop_first().last() == flags.last());
        }
    }
}

/// The watcher starts at most once: after an attempt to start it, whether
/// let through or not, and after any setting of the switch since, every
/// further attempt is refused and changes nothing.
pub proof fn lemma_spawn_at_most_once(channel: ShutdownChannel, flags: Seq<bool>)
    ensures
        ({
            let later = channel.spawn().0.switch_all(flags);
            later.spawn() == (later, Err::<(), SignalError>(SignalError::AlreadyStarted))
        }),
{
    lemma_switch_keeps_started(channel.spawn().0, flags);
}

/// An interrupt is passed on exactly while the switch is on: after the
/// watcher's first start and after the switch was last set to `true`; it ends
/// the process before any start and after the switch was last set to `false`.
pub proof fn lemma_interrupt_follows_switch(channel: ShutdownChannel, flags: Seq<bool>)
    ensures
        ShutdownChannel::initial().interrupt() == InterruptAction::Abort,
        ShutdownChannel::initial().spawn().0.interrupt() == InterruptAction::Notify,
        flags.len() > 0 ==> channel.switch_all(flags).interrupt() == if flags.last() {
            InterruptAction::Notify
        } else {
            InterruptAction::Abort
        },
{
    lemma_switch_keeps_started(channel, flags);
}

} // verus!
