//! The value model of bound behaviors.
//!
//! The dispatch core never runs user code itself: a bound behavior is plain
//! data.  A `Callback` names the user handler by an opaque token and records
//! which notifications reach it; an `Action` bundles a callback with its
//! event-suppression policy and its concurrency mode.  The embedding that
//! owns the handlers receives `Invocation` values (see `crate::details`) and
//! runs the named handler accordingly.

use vstd::prelude::*;

use crate::keyboard::Keyboard;
use crate::mouse::Mouse;

verus! {

/// Whether a notification reports a press or a release.
#[derive(Copy, Clone, PartialEq, Eq, Structural, Debug, Hash)]
pub enum State {
    Pressed,
    Released,
}

/// A single key or button identity, independent of press direction.
#[derive(Copy, Clone, PartialEq, Eq, Structural, Debug, Hash)]
pub enum Event {
    Keyboard(Keyboard),
    Mouse(Mouse),
}

/// Whether the originating hook should suppress the event for the rest of
/// the system.  `Maybe` names, by an opaque token, a zero-argument evaluator
/// owned by the embedding; it is re-evaluated on every press and never
/// cached.
#[derive(Copy, Clone, PartialEq, Eq, Structural, Debug)]
pub enum InhibitEvent {
    Yes,
    Maybe(u64),
    No,
}

impl InhibitEvent {
    /// A decision deferred to the evaluator named by `evaluator`.
    pub fn maybe(evaluator: u64) -> (r: InhibitEvent)
        ensures
            r == InhibitEvent::Maybe(evaluator),
    {
        InhibitEvent::Maybe(evaluator)
    }

    /// Resolve this decision to a final verdict.  For a `Maybe` decision the
    /// caller first runs the named evaluator and passes its fresh answer as
    /// `evaluated`; for `Yes` and `No` the answer is ignored.
    pub fn should_inhibit(&self, evaluated: InhibitEvent) -> (r: bool)
        ensures
            r == self.resolved(evaluated),
    {
        match self {
            InhibitEvent::Yes => true,
            InhibitEvent::Maybe(_) => matches!(evaluated, InhibitEvent::Yes),
            InhibitEvent::No => false,
        }
    }

    /// What `should_inhibit` answers given the evaluator's verdict.
    pub open spec fn resolved(self, evaluated: InhibitEvent) -> bool {
        match self {
            InhibitEvent::Yes => true,
            InhibitEvent::Maybe(_) => evaluated is Yes,
            InhibitEvent::No => false,
        }
    }
}

/// Which notifications reach a user handler, and what the handler is handed.
///
/// The `u64` is the opaque token under which the embedding knows the
/// handler.  The three `On*Press` forms react to presses only, as the
/// `Action` factories build them; `Raw` reacts to every notification.
#[derive(Copy, Clone, PartialEq, Eq, Structural, Debug)]
pub enum Callback {
    /// Handed the key; reacts only to presses of keyboard keys.
    OnKeyPress(u64),
    /// Handed the button; reacts only to presses of mouse buttons.
    OnButtonPress(u64),
    /// Handed the event; reacts only to presses.
    OnPress(u64),
    /// Handed the event and the transition; reacts to everything.
    Raw(u64),
}

impl Callback {
    /// Whether this callback reacts to the given notification.
    pub open spec fn fires_on(self, event: Event, state: State) -> bool {
        match self {
            Callback::OnKeyPress(_) => state is Pressed && event is Keyboard,
            Callback::OnButtonPress(_) => state is Pressed && event is Mouse,
            Callback::OnPress(_) => state is Pressed,
            Callback::Raw(_) => true,
        }
    }

    /// Runtime test of `fires_on`.
    pub fn fires(&self, event: Event, state: State) -> (r: bool)
        ensures
            r == self.fires_on(event, state),
    {
        match self {
            Callback::OnKeyPress(_) => state == State::Pressed && matches!(event, Event::Keyboard(_)),
            Callback::OnButtonPress(_) => state == State::Pressed && matches!(event, Event::Mouse(_)),
            Callback::OnPress(_) => state == State::Pressed,
            Callback::Raw(_) => true,
        }
    }
}

/// A bound behavior: the callback, the suppression policy, and the
/// concurrency mode under which the embedding must run the handler.
///
/// At most one of `defer` and `sequencer` is meant to be set.  `defer` asks
/// for a fresh worker per invocation (the safe default for handlers that
/// synthesize input); `sequencer` asks for the single ordered worker; with
/// neither, the handler runs synchronously on the hook thread.
#[derive(Copy, Clone, PartialEq, Eq, Structural, Debug)]
pub struct Action {
    /// Which notifications reach the handler, and under which token.
    pub callback: Callback,
    /// Whether the originating press is suppressed for the rest of the
    /// system.  Releases are never suppressed.
    pub inhibit: InhibitEvent,
    /// Run the handler on a fresh worker, one per invocation.
    pub defer: bool,
    /// Run the handler on the single ordered worker.
    pub sequencer: bool,
}

impl Action {
    /// The value `handle_kb` builds.
    pub open spec fn handle_kb_spec(handler: u64) -> Action {
        Action {
            callback: Callback::OnKeyPress(handler),
            inhibit: InhibitEvent::No,
            defer: true,
            sequencer: false,
        }
    }

    /// The value `handle_mouse` builds.
    pub open spec fn handle_mouse_spec(handler: u64) -> Action {
        Action {
            callback: Callback::OnButtonPress(handler),
            inhibit: InhibitEvent::No,
            defer: true,
            sequencer: false,
        }
    }

    /// The most common key bind: reacts to key presses only, runs on a fresh
    /// worker, never inhibits.
    pub fn handle_kb(handler: u64) -> (r: Action)
        ensures
            r == (Action {
                callback: Callback::OnKeyPress(handler),
                inhibit: InhibitEvent::No,
                defer: true,
                sequencer: false,
            }),
    {
        Action {
            callback: Callback::OnKeyPress(handler),
            inhibit: InhibitEvent::No,
            defer: true,
            sequencer: false,
        }
    }

    /// Version of `handle_kb` for mouse buttons.
    pub fn handle_mouse(handler: u64) -> (r: Action)
        ensures
            r == (Action {
                callback: Callback::OnButtonPress(handler),
                inhibit: InhibitEvent::No,
                defer: true,
                sequencer: false,
            }),
    {
        Action {
            callback: Callback::OnButtonPress(handler),
            inhibit: InhibitEvent::No,
            defer: true,
            sequencer: false,
        }
    }

    /// General version of `handle_kb` for both keys and buttons.
    pub fn handle(handler: u64) -> (r: Action)
        ensures
            r == (Action {
                callback: Callback::OnPress(handler),
                inhibit: InhibitEvent::No,
                defer: true,
                sequencer: false,
            }),
    {
        Action {
            callback: Callback::OnPress(handler),
            inhibit: InhibitEvent::No,
            defer: true,
            sequencer: false,
        }
    }

    /// A key bind whose handler runs synchronously on the hook thread;
    /// reacts to key presses only, never inhibits.
    pub fn callback_kb(handler: u64) -> (r: Action)
        ensures
            r == (Action {
                callback: Callback::OnKeyPress(handler),
                inhibit: InhibitEvent::No,
                defer: false,
                sequencer: false,
            }),
    {
        Action {
            callback: Callback::OnKeyPress(handler),
            inhibit: InhibitEvent::No,
            defer: false,
            sequencer: false,
        }
    }

    /// Version of `callback_kb` for mouse buttons.
    pub fn callback_mouse(handler: u64) -> (r: Action)
        ensures
            r == (Action {
                callback: Callback::OnButtonPress(handler),
                inhibit: InhibitEvent::No,
                defer: false,
                sequencer: false,
            }),
    {
        Action {
            callback: Callback::OnButtonPress(handler),
            inhibit: InhibitEvent::No,
            defer: false,
            sequencer: false,
        }
    }

    /// General version of `callback_kb` for both keys and buttons.
    pub fn callback(handler: u64) -> (r: Action)
        ensures
            r == (Action {
                callback: Callback::OnPress(handler),
                inhibit: InhibitEvent::No,
                defer: false,
                sequencer: false,
            }),
    {
        Action {
            callback: Callback::OnPress(handler),
            inhibit: InhibitEvent::No,
            defer: false,
            sequencer: false,
        }
    }

    /// A key bind whose handler runs on the single ordered worker, so that
    /// slow handlers never overlap; reacts to key presses only, never
    /// inhibits.
    pub fn sequencing_kb(handler: u64) -> (r: Action)
        ensures
            r == (Action {
                callback: Callback::OnKeyPress(handler),
                inhibit: InhibitEvent::No,
                defer: false,
                sequencer: true,
            }),
    {
        Action {
            callback: Callback::OnKeyPress(handler),
            inhibit: InhibitEvent::No,
            defer: false,
            sequencer: true,
        }
    }

    /// Version of `sequencing_kb` for mouse buttons.
    pub fn sequencing_mouse(handler: u64) -> (r: Action)
        ensures
            r == (Action {
                callback: Callback::OnButtonPress(handler),
                inhibit: InhibitEvent::No,
                defer: false,
                sequencer: true,
            }),
    {
        Action {
            callback: Callback::OnButtonPress(handler),
            inhibit: InhibitEvent::No,
            defer: false,
            sequencer: true,
        }
    }

    /// General version of `sequencing_kb` for both keys and buttons.
    pub fn sequencing(handler: u64) -> (r: Action)
        ensures
            r == (Action {
                callback: Callback::OnPress(handler),
                inhibit: InhibitEvent::No,
                defer: false,
                sequencer: true,
            }),
    {
        Action {
            callback: Callback::OnPress(handler),
            inhibit: InhibitEvent::No,
            defer: false,
            sequencer: true,
        }
    }
}

} // verus!
