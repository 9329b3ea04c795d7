//! Per-backend connection lifecycle. A backend is linked through a
//! handshake that produces a pairing artifact for the operator; once
//! linked, a background sync stream runs and the job queue is unblocked;
//! when that stream terminates the backend counts as disconnected until
//! the operator relinks.

use vstd::prelude::*;

verus! {

/// Connection state of one backend.
#[derive(Debug, Clone, Copy, PartialEq, Eq, Structural)]
pub enum LinkState {
    Unlinked,
    Linking,
    Linked,
    Disconnected,
}

impl Default for LinkState {
    fn default() -> (r: LinkState)
        ensures
            r == LinkState::Unlinked,
    {
        LinkState::Unlinked
    }
}

/// What happened at the backend boundary.
#[derive(Debug, Clone, Copy, PartialEq, Eq, Structural)]
pub enum LinkEvent {
    /// Application start; says whether a prior session exists on disk.
    Startup { prior_session: bool },
    /// The operator asked to link.
    LinkRequested,
    /// The operator aborted an ongoing link attempt.
    CancelLink,
    /// The backend produced the pairing artifact (deep-link or QR payload).
    PairingReady,
    /// The handshake completed and a session is registered.
    HandshakeCompleted,
    /// The handshake failed or the session could not be restored.
    HandshakeFailed,
    /// The sync stream terminated (stream end, not merely drained).
    StreamEnded,
}

/// What the surrounding worker must do after a transition.
#[derive(Debug, Clone, Copy, PartialEq, Eq, Structural)]
pub enum LinkEffect {
    Nothing,
    /// Open the store and begin the link handshake.
    BeginHandshake,
    /// Show the pairing artifact to the operator.
    ShowPairing,
    /// Start the background sync task and unblock the job queue.
    StartSyncAndResume,
    /// Abort the in-flight job and let the queue go dormant.
    PauseQueue,
}

/// The lifecycle state machine of one backend: its link state plus
/// whether this process ever reached `Linked` (a failure after that
/// surfaces as `Disconnected` rather than `Unlinked`).
#[derive(Debug, Clone, Copy, PartialEq, Eq, Structural)]
pub struct LinkLifecycle {
    pub state: LinkState,
    pub ever_linked: bool,
}

impl LinkLifecycle {
    /// The full transition table.
    pub open spec fn step_spec(self, event: LinkEvent) -> (LinkLifecycle, LinkEffect) {
        match event {
            LinkEvent::Startup { prior_session } => {
                if self.state == LinkState::Unlinked && prior_session {
                    (LinkLifecycle { state: LinkState::Linking, ..self }, LinkEffect::BeginHandshake)
                } else {
                    (self, LinkEffect::Nothing)
                }
            },
            LinkEvent::LinkRequested => {
                if self.state == LinkState::Unlinked || self.state == LinkState::Disconnected {
                    (LinkLifecycle { state: LinkState::Linking, ..self }, LinkEffect::BeginHandshake)
                } else {
                    (self, LinkEffect::Nothing)
                }
            },
            LinkEvent::CancelLink => {
                if self.state == LinkState::Linking {
                    (LinkLifecycle { state: LinkState::Unlinked, ..self }, LinkEffect::Nothing)
                } else {
                    (self, LinkEffect::Nothing)
                }
            },
            LinkEvent::PairingReady => {
                if self.state == LinkState::Linking {
                    (self, LinkEffect::ShowPairing)
                } else {
                    (self, LinkEffect::Nothing)
                }
            },
            LinkEvent::HandshakeCompleted => {
                if self.state == LinkState::Linking {
                    (
                        LinkLifecycle { state: LinkState::Linked, ever_linked: true },
                        LinkEffect::StartSyncAndResume,
                    )
                } else {
                    (self, LinkEffect::Nothing)
                }
            },
            LinkEvent::HandshakeFailed => {
                if self.state == LinkState::Linking {
                    if self.ever_linked {
                        (
                            LinkLifecycle { state: LinkState::Disconnected, ..self },
                            LinkEffect::Nothing,
                        )
                    } else {
                        (LinkLifecycle { state: LinkState::Unlinked, ..self }, LinkEffect::Nothing)
                    }
                } else {
                    (self, LinkEffect::Nothing)
                }
            },
            LinkEvent::StreamEnded => {
                if self.state == LinkState::Linked {
                    (
                        LinkLifecycle { state: LinkState::Disconnected, ..self },
                        LinkEffect::PauseQueue,
                    )
                } else {
                    (self, LinkEffect::Nothing)
                }
            },
        }
    }

    pub fn new() -> (r: LinkLifecycle)
        ensures
            r.state == LinkState::Unlinked,
            !r.ever_linked,
    {
        LinkLifecycle { state: LinkState::Unlinked, ever_linked: false }
    }

    /// Apply one event; returns the effect the worker must perform.
    pub fn step(&mut self, event: LinkEvent) -> (r: LinkEffect)
        ensures
            *final(self) == old(self).step_spec(event).0,
            r == old(self).step_spec(event).1,
    {
        let (next, effect) = match event {
            LinkEvent::Startup { prior_session } => {
                if matches!(self.state, LinkState::Unlinked) && prior_session {
                    (
                        LinkLifecycle { state: LinkState::Linking, ever_linked: self.ever_linked },
                        LinkEffect::BeginHandshake,
                    )
                } else {
                    (*self, LinkEffect::Nothing)
                }
            },
            LinkEvent::LinkRequested => {
                if matches!(self.state, LinkState::Unlinked | LinkState::Disconnected) {
                    (
                        LinkLifecycle { state: LinkState::Linking, ever_linked: self.ever_linked },
                        LinkEffect::BeginHandshake,
                    )
                } else {
                    (*self, LinkEffect::Nothing)
                }
            },
            LinkEvent::CancelLink => {
                if matches!(self.state, LinkState::Linking) {
                    (
                        LinkLifecycle { state: LinkState::Unlinked, ever_linked: self.ever_linked },
                        LinkEffect::Nothing,
                    )
                } else {
                    (*self, LinkEffect::Nothing)
                }
            },
            LinkEvent::PairingReady => {
                if matches!(self.state, LinkState::Linking) {
                    (*self, LinkEffect::ShowPairing)
                } else {
                    (*self, LinkEffect::Nothing)
                }
            },
            LinkEvent::HandshakeCompleted => {
                if matches!(self.state, LinkState::Linking) {
                    (
                        LinkLifecycle { state: LinkState::Linked, ever_linked: true },
                        LinkEffect::StartSyncAndResume,
                    )
                } else {
                    (*self, LinkEffect::Nothing)
                }
            },
            LinkEvent::HandshakeFailed => {
                if matches!(self.state, LinkState::Linking) {
                    if self.ever_linked {
                        (
                            LinkLifecycle {
                                state: LinkState::Disconnected,
                                ever_linked: self.ever_linked,
                            },
                            LinkEffect::Nothing,
                        )
                    } else {
                        (
                            LinkLifecycle {
                                state: LinkState::Unlinked,
                                ever_linked: self.ever_linked,
                            },
                            LinkEffect::Nothing,
                        )
                    }
                } else {
                    (*self, LinkEffect::Nothing)
                }
            },
            LinkEvent::StreamEnded => {
                if matches!(self.state, LinkState::Linked) {
                    (
                        LinkLifecycle {
                            state: LinkState::Disconnected,
                            ever_linked: self.ever_linked,
                        },
                        LinkEffect::PauseQueue,
                    )
                } else {
                    (*self, LinkEffect::Nothing)
                }
            },
        };
        *self = next;
        effect
    }
}

/// `Linked` is only ever entered through a completed handshake, and the
/// queue is unblocked exactly then: the effect is `StartSyncAndResume`
/// if and only if the machine moved into `Linked`.
pub proof fn lemma_linked_only_by_handshake(m: LinkLifecycle, event: LinkEvent)
    requires
        m.state != LinkState::Linked,
    ensures
        m.step_spec(event).0.state == LinkState::Linked <==> (m.state == LinkState::Linking
            && event == LinkEvent::HandshakeCompleted),
        m.step_spec(event).1 == LinkEffect::StartSyncAndResume <==> m.step_spec(
            event,
        ).0.state == LinkState::Linked,
{
}

} // verus!
