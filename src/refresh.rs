//! The refresh-protocol state machine. It decides what the panel is told and
//! when; the caller performs each returned action on the hardware and
//! reports the busy line back.

use vstd::prelude::*;

verus! {

/// Waveform profile: trades refresh speed against ghosting and contrast.
#[derive(Clone, Copy, Debug, PartialEq, Eq, Structural)]
pub enum Profile {
    Normal,
    Fast,
    Ultrafast,
}

#[derive(Clone, Copy, Debug, PartialEq, Eq, Structural)]
pub enum State {
    Disabled,
    Enabled,
    /// Configuration sent; waiting for the panel to acknowledge it.
    Configuring(Profile),
    Configured(Profile),
    /// Frame sent; waiting for the panel to finish the refresh.
    Updating(Profile),
}

#[derive(Clone, Copy, Debug, PartialEq, Eq, Structural)]
pub enum RefreshError {
    /// The busy line stayed asserted past the timeout.
    HardwareTimeout,
    /// The operation is not allowed in the current state.
    InvalidStateTransition,
}

/// What the caller must do on the hardware next.
#[derive(Clone, Copy, Debug, PartialEq, Eq, Structural)]
pub enum Action {
    /// Nothing to send.
    Nothing,
    /// Run the panel's power and reset sequence.
    Reset,
    /// Send the configuration for the profile, then report the busy line.
    Configure(Profile),
    /// Send the framebuffer's transmit buffer and start a refresh, then
    /// report the busy line.
    TransmitFrame,
    /// Wait this many milliseconds, then report the busy line again.
    Wait(u32),
    /// The panel is idle again.
    Finished,
}

/// Next state and result of `enable` from `s`.
pub open spec fn enable_step(s: State) -> (State, Result<Action, RefreshError>) {
    match s {
        State::Disabled => (State::Enabled, Ok(Action::Reset)),
        State::Enabled | State::Configured(_) => (s, Ok(Action::Nothing)),
        _ => (s, Err(RefreshError::InvalidStateTransition)),
    }
}

/// Next state and result of `setup(p)` from `s`.
pub open spec fn setup_step(s: State, p: Profile) -> (State, Result<Action, RefreshError>) {
    match s {
        State::Enabled | State::Configured(_) => (State::Configuring(p), Ok(Action::Configure(p))),
        _ => (s, Err(RefreshError::InvalidStateTransition)),
    }
}

/// Next state and result of `update` from `s`.
pub open spec fn update_step(s: State) -> (State, Result<Action, RefreshError>) {
    match s {
        State::Configured(p) => (State::Updating(p), Ok(Action::TransmitFrame)),
        _ => (s, Err(RefreshError::InvalidStateTransition)),
    }
}

/// Next state, time waited so far and result when the busy line reads
/// `busy` in state `s`, having waited `waited` ms of a `timeout` ms window
/// polled every `interval` ms.
pub open spec fn poll_step(s: State, waited: nat, timeout: nat, interval: nat, busy: bool) -> (
    State,
    nat,
    Result<Action, RefreshError>,
) {
    match s {
        State::Configuring(p) | State::Updating(p) => if !busy {
            (State::Configured(p), 0, Ok(Action::Finished))
        } else if waited + interval > timeout {
            (State::Disabled, 0, Err(RefreshError::HardwareTimeout))
        } else {
            (s, waited + interval, Ok(Action::Wait(interval as u32)))
        },
        _ => (s, waited, Err(RefreshError::InvalidStateTransition)),
    }
}

/// The controller: its state, and the busy-wait budget of the operation
/// in progress.
pub struct RefreshController {
    state: State,
    waited_ms: u32,
    timeout_ms: u32,
    poll_interval_ms: u32,
}

impl RefreshController {
    pub closed spec fn state(&self) -> State {
        self.state
    }

    /// Milliseconds waited so far on the busy line.
    pub closed spec fn waited(&self) -> nat {
        self.waited_ms as nat
    }

    pub closed spec fn timeout(&self) -> nat {
        self.timeout_ms as nat
    }

    pub closed spec fn interval(&self) -> nat {
        self.poll_interval_ms as nat
    }

    pub closed spec fn wf(&self) -> bool {
        self.waited_ms <= self.timeout_ms
    }

    /// A controller for a disabled panel that gives up on the busy line
    /// after `timeout_ms`, polling it every `poll_interval_ms`.
    pub fn new(timeout_ms: u32, poll_interval_ms: u32) -> (r: RefreshController)
        ensures
            r.wf(),
            r.state() == State::Disabled,
            r.waited() == 0,
            r.timeout() == timeout_ms,
            r.interval() == poll_interval_ms,
    {
        RefreshController { state: State::Disabled, waited_ms: 0, timeout_ms, poll_interval_ms }
    }

    pub fn get_state(&self) -> (r: State)
        ensures
            r == self.state(),
    {
        self.state
    }

    /// Powers the panel up; a no-op when it is already enabled.
    pub fn enable(&mut self) -> (r: Result<Action, RefreshError>)
        requires
            old(self).wf(),
        ensures
            final(self).wf(),
            (final(self).state(), r) == enable_step(old(self).state()),
            final(self).waited() == old(self).waited(),
            final(self).timeout() == old(self).timeout(),
            final(self).interval() == old(self).interval(),
    {
        match self.state {
            State::Disabled => {
                self.state = State::Enabled;
                Ok(Action::Reset)
            },
            State::Enabled | State::Configured(_) => Ok(Action::Nothing),
            _ => Err(RefreshError::InvalidStateTransition),
        }
    }

    /// Selects the waveform profile `p` and sends the configuration, from
    /// an enabled or already configured panel.
    pub fn setup(&mut self, p: Profile) -> (r: Result<Action, RefreshError>)
        requires
            old(self).wf(),
        ensures
            final(self).wf(),
            (final(self).state(), r) == setup_step(old(self).state(), p),
            r is Ok ==> final(self).waited() == 0,
            r is Err ==> final(self).waited() == old(self).waited(),
            final(self).timeout() == old(self).timeout(),
            final(self).interval() == old(self).interval(),
    {
        match self.state {
            State::Enabled | State::Configured(_) => {
                self.state = State::Configuring(p);
                self.waited_ms = 0;
                Ok(Action::Configure(p))
            },
            _ => Err(RefreshError::InvalidStateTransition),
        }
    }

    /// Starts committing the framebuffer to the panel; only a configured
    /// panel can be updated.
    pub fn update(&mut self) -> (r: Result<Action, RefreshError>)
        requires
            old(self).wf(),
        ensures
            final(self).wf(),
            (final(self).state(), r) == update_step(old(self).state()),
            r is Ok ==> final(self).waited() == 0,
            r is Err ==> final(self).waited() == old(self).waited(),
            final(self).timeout() == old(self).timeout(),
            final(self).interval() == old(self).interval(),
    {
        match self.state {
            State::Configured(p) => {
                self.state = State::Updating(p);
                self.waited_ms = 0;
                Ok(Action::TransmitFrame)
            },
            _ => Err(RefreshError::InvalidStateTransition),
        }
    }

    /// Reports the busy line while configuring or updating: finished when
    /// it is released, a wait while it is asserted within the timeout, and
    /// `HardwareTimeout` (the panel is then treated as disabled) past it.
    pub fn busy_sample(&mut self, busy: bool) -> (r: Result<Action, RefreshError>)
        requires
            old(self).wf(),
        ensures
            final(self).wf(),
            (final(self).state(), final(self).waited(), r) == poll_step(
                old(self).state(),
                old(self).waited(),
                old(self).timeout(),
                old(self).interval(),
                busy,
            ),
            final(self).timeout() == old(self).timeout(),
            final(self).interval() == old(self).interval(),
    {
        match self.state {
            State::Configuring(p) | State::Updating(p) => {
                if !busy {
                    self.state = State::Configured(p);
                    self.waited_ms = 0;
                    Ok(Action::Finished)
                } else if self.poll_interval_ms > self.timeout_ms - self.waited_ms {
                    self.state = State::Disabled;
                    self.waited_ms = 0;
                    Err(RefreshError::HardwareTimeout)
                } else {
                    self.waited_ms = self.waited_ms + self.poll_interval_ms;
                    Ok(Action::Wait(self.poll_interval_ms))
                }
            },
            _ => Err(RefreshError::InvalidStateTransition),
        }
    }
}

/// Fill values for a ghosting-recovery sequence of `passes` full-screen
/// refreshes: all ink first, then alternating with all clear.
pub fn ghosting_recovery_fills(passes: u32) -> (r: Vec<bool>)
    ensures
        r@.len() == passes,
        forall|i: int| 0 <= i < passes ==> #[trigger] r@[i] == (i % 2 == 0),
{
    let mut fills: Vec<bool> = Vec::new();
    let mut i: u32 = 0;
    while i < passes
        invariant
            i <= passes,
            fills@.len() == i,
            forall|k: int| 0 <= k < i ==> #[trigger] fills@[k] == (k % 2 == 0),
        decreases passes - i,
    {
        fills.push(i % 2 == 0);
        i = i + 1;
    }
    fills
}

/// `update` is refused unless the panel is configured; from a configured
/// panel it is accepted, and once the busy line is released the panel is
/// configured again with the same profile.
pub proof fn lemma_update_only_when_configured(s: State, waited: nat, timeout: nat, interval: nat)
    ensures
        (s == State::Disabled || s == State::Enabled) ==> update_step(s) == (
            s,
            Err::<Action, RefreshError>(RefreshError::InvalidStateTransition),
        ),
        s is Configured ==> update_step(s).1 is Ok && poll_step(
            update_step(s).0,
            waited,
            timeout,
            interval,
            false,
        ).0 == s,
{
}

/// A second `setup` with another profile, with no `update` between, sends
/// the new configuration again and leaves the panel configured with the new
/// profile once the busy line is released.
pub proof fn lemma_setup_reconfigures(s: State, p: Profile, q: Profile, waited: nat, timeout: nat, interval: nat)
    requires
        s == State::Enabled || s is Configured,
    ensures
        setup_step(poll_step(setup_step(s, p).0, waited, timeout, interval, false).0, q) == (
            State::Configuring(q),
            Ok::<Action, RefreshError>(Action::Configure(q)),
        ),
        poll_step(
            setup_step(poll_step(setup_step(s, p).0, waited, timeout, interval, false).0, q).0,
            0,
            timeout,
            interval,
            false,
        ).0 == State::Configured(q),
{
}

} // verus!
