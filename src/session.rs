//! The per-output state machine: when to redraw, when only to acknowledge,
//! and when the output is gone.

use vstd::prelude::*;

verus! {

/// The debounce window used for outputs, in milliseconds.
pub const DEBOUNCE_MS: u64 = 300;

/// Where an output's surface stands.
#[derive(PartialEq, Eq, Structural, Clone, Copy)]
pub enum Phase {
    /// Nothing has been drawn yet.
    Unconfigured,
    /// A frame has been asked for and is being drawn.
    AwaitingAck,
    /// A frame has been drawn and submitted.
    Rendered,
    /// The surface is gone; every later signal is ignored.
    Closed,
}

/// What reaches a session.
#[derive(PartialEq, Eq, Structural, Clone, Copy)]
pub enum Signal {
    /// The surface must be `width` by `height`; `token` is to be acknowledged.
    /// `now_ms` is the time of arrival on a monotonic clock.
    Configure { token: u32, width: u32, height: u32, now_ms: u64 },
    /// The compositor revoked the surface.
    Closed,
    /// The frame asked for was drawn, submitted and acknowledged.
    Drawn,
    /// The buffer pool could not be sized for the frame asked for.
    ResizeFailed,
}

/// What the session asks of the code around it.
#[derive(PartialEq, Eq, Structural, Clone, Copy)]
pub enum Action {
    /// Acknowledge `token`, size the pool to `width * height * 4` bytes, draw the
    /// frame, submit it and damage the whole surface; then report `Drawn`, or
    /// `ResizeFailed` where the pool could not be sized.
    Redraw { token: u32, width: u32, height: u32 },
    /// Acknowledge `token` without drawing.
    Acknowledge { token: u32 },
    /// Release the buffer pool and the surface.
    Release,
    /// Nothing to do.
    Ignore,
}

/// The state of one output's surface.
#[derive(PartialEq, Eq, Structural, Clone, Copy)]
pub struct Session {
    pub phase: Phase,
    /// When the last redraw was asked for, in milliseconds on the signals' clock.
    pub last_redraw: Option<u64>,
    /// Configure signals closer than this to the last redraw are only acknowledged.
    pub debounce_ms: u64,
}

/// A configure signal arriving at `now` falls within the debounce window of the last redraw.
pub open spec fn debounced(s: Session, now: u64) -> bool {
    match s.last_redraw {
        Some(t) => (now as int) < t + s.debounce_ms,
        None => false,
    }
}

/// The next state of `s` and the action it asks for, on `signal`.
pub open spec fn transition(s: Session, signal: Signal) -> (Session, Action) {
    if s.phase == Phase::Closed {
        (s, Action::Ignore)
    } else {
        match signal {
            Signal::Configure { token, width, height, now_ms } => if debounced(s, now_ms) {
                (s, Action::Acknowledge { token })
            } else {
                (
                    Session { phase: Phase::AwaitingAck, last_redraw: Some(now_ms), ..s },
                    Action::Redraw { token, width, height },
                )
            },
            Signal::Closed => (Session { phase: Phase::Closed, ..s }, Action::Release),
            Signal::Drawn => if s.phase == Phase::AwaitingAck {
                (Session { phase: Phase::Rendered, ..s }, Action::Ignore)
            } else {
                (s, Action::Ignore)
            },
            Signal::ResizeFailed => if s.phase == Phase::AwaitingAck {
                (Session { phase: Phase::Closed, ..s }, Action::Release)
            } else {
                (s, Action::Ignore)
            },
        }
    }
}

impl Session {
    /// A session that has drawn nothing, with the given debounce window.
    pub fn new(debounce_ms: u64) -> (r: Session)
        ensures
            r.phase == Phase::Unconfigured,
            r.last_redraw is None,
            r.debounce_ms == debounce_ms,
    {
        Session { phase: Phase::Unconfigured, last_redraw: None, debounce_ms }
    }

    /// Whether a configure signal arriving at `now_ms` falls within the debounce window.
    pub fn is_debounced(&self, now_ms: u64) -> (r: bool)
        ensures
            r == debounced(*self, now_ms),
    {
        match self.last_redraw {
            Some(t) => now_ms < t || now_ms - t < self.debounce_ms,
            None => false,
        }
    }

    /// Advances the session on `signal` and returns what it asks for.
    pub fn handle(&mut self, signal: Signal) -> (r: Action)
        ensures
            (*final(self), r) == transition(*old(self), signal),
            final(self).debounce_ms == old(self).debounce_ms,
            old(self).phase == Phase::Closed ==> r == Action::Ignore && *final(self) == *old(self),
    {
        if self.phase == Phase::Closed {
            return Action::Ignore;
        }
        match signal {
            Signal::Configure { token, width, height, now_ms } => {
                if self.is_debounced(now_ms) {
                    Action::Acknowledge { token }
                } else {
                    self.phase = Phase::AwaitingAck;
                    self.last_redraw = Some(now_ms);
                    Action::Redraw { token, width, height }
                }
            },
            Signal::Closed => {
                self.phase = Phase::Closed;
                Action::Release
            },
            Signal::Drawn => {
                if self.phase == Phase::AwaitingAck {
                    self.phase = Phase::Rendered;
                }
                Action::Ignore
            },
            Signal::ResizeFailed => {
                if self.phase == Phase::AwaitingAck {
                    self.phase = Phase::Closed;
                    Action::Release
                } else {
                    Action::Ignore
                }
            },
        }
    }
}

/// Two configure signals for one output, the second arriving within the debounce
/// window of the first, make exactly one redraw and two acknowledgments: the first
/// redraws and acknowledges its token, the second only acknowledges, whether or not
/// the frame was reported drawn in between.
pub proof fn lemma_configure_storm(
    s: Session,
    first: Signal,
    second: Signal,
    reported_drawn: bool,
)
    requires
        s.phase != Phase::Closed,
        s.last_redraw is None,
        first matches Signal::Configure { .. },
        second matches Signal::Configure { .. },
        first->now_ms <= second->now_ms,
        second->now_ms < first->now_ms + s.debounce_ms,
    ensures
        ({
            let (s1, a1) = transition(s, first);
            let s2 = if reported_drawn {
                transition(s1, Signal::Drawn).0
            } else {
                s1
            };
            let (s3, a2) = transition(s2, second);
            &&& a1 == Action::Redraw {
                token: first->token,
                width: first->width,
                height: first->height,
            }
            &&& a2 == Action::Acknowledge { token: second->token }
            &&& s3.phase != Phase::Closed
        }),
{
}

} // verus!
