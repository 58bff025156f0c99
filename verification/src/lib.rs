//! A process-wide input-event dispatch core.
//!
//! The library receives normalized key and button press/release
//! notifications, decides which registered behaviors fire, tracks the
//! ordered set of currently pressed inputs, matches multi-key hotkey
//! sequences, and interprets a small declarative automation language over
//! these primitives.
//!
//! Everything the core decides is data: user handlers are named by opaque
//! tokens, and the dispatch entry points return plans saying which handlers
//! to run and how.  The embedding (the OS hook, the worker threads, the
//! input synthesis) lives outside and runs those plans.

pub mod action;
pub mod buttons;
pub mod details;
pub mod dsl;
pub mod interp;
pub mod keyboard;
pub mod mouse;
pub mod sequence;

pub use action::Action;
pub use action::Callback;
pub use action::Event;
pub use action::InhibitEvent;
pub use action::State;
pub use buttons::MouseButton;
pub use keyboard::Keyboard;
pub use mouse::Mouse;
pub use sequence::Sequence;

use vstd::prelude::*;

use crate::details::key_id;
use crate::details::button_id;
use crate::details::hotkey_id;
use crate::details::remove_by;
use crate::details::set_by;
use crate::details::Registry;

verus! {

impl Keyboard {
    /// Bind a press handler on this key: it reacts to presses only and
    /// runs on a fresh worker.  A later bind on the same key replaces
    /// this one.
    pub fn bind(&self, registry: &mut Registry, handler: u64)
        ensures
            forall|probe: Keyboard| #[trigger] final(registry).key_action_of(probe) == if probe
                == *self {
                Some(Action::handle_kb_spec(handler))
            } else {
                old(registry).key_action_of(probe)
            },
            old(registry).wf() ==> final(registry).wf(),
            final(registry).button_bindings() == old(registry).button_bindings(),
            final(registry).any_key_binding() == old(registry).any_key_binding(),
            final(registry).any_button_binding() == old(registry).any_button_binding(),
            Registry::hotkeys_unchanged(*old(registry), *final(registry)),
            Registry::state_unchanged(*old(registry), *final(registry)),
            Registry::pressed_unchanged(*old(registry), *final(registry)),
            Registry::queue_unchanged(*old(registry), *final(registry)),
            Registry::settings_unchanged(*old(registry), *final(registry)),
    {
        bind_key(registry, *self, Action::handle_kb(handler))
    }

    /// Remove the binding of this key, if any.
    pub fn clear_bind(&self, registry: &mut Registry)
        ensures
            forall|probe: Keyboard| #[trigger] final(registry).key_action_of(probe) == if probe
                == *self {
                None::<Action>
            } else {
                old(registry).key_action_of(probe)
            },
            old(registry).wf() ==> final(registry).wf(),
            final(registry).button_bindings() == old(registry).button_bindings(),
            final(registry).any_key_binding() == old(registry).any_key_binding(),
            final(registry).any_button_binding() == old(registry).any_button_binding(),
            Registry::hotkeys_unchanged(*old(registry), *final(registry)),
            Registry::state_unchanged(*old(registry), *final(registry)),
            Registry::pressed_unchanged(*old(registry), *final(registry)),
            Registry::queue_unchanged(*old(registry), *final(registry)),
            Registry::settings_unchanged(*old(registry), *final(registry)),
    {
        remove_key_bind(registry, *self)
    }

    /// Bind `action` on this key: a version of `bind` that can do more.
    pub fn act_on(&self, registry: &mut Registry, action: Action)
        ensures
            forall|probe: Keyboard| #[trigger] final(registry).key_action_of(probe) == if probe
                == *self {
                Some(action)
            } else {
                old(registry).key_action_of(probe)
            },
            old(registry).wf() ==> final(registry).wf(),
            final(registry).button_bindings() == old(registry).button_bindings(),
            final(registry).any_key_binding() == old(registry).any_key_binding(),
            final(registry).any_button_binding() == old(registry).any_button_binding(),
            Registry::hotkeys_unchanged(*old(registry), *final(registry)),
            Registry::state_unchanged(*old(registry), *final(registry)),
            Registry::pressed_unchanged(*old(registry), *final(registry)),
            Registry::queue_unchanged(*old(registry), *final(registry)),
            Registry::settings_unchanged(*old(registry), *final(registry)),
    {
        bind_key(registry, *self, action)
    }

    /// Whether this key is currently pressed.
    pub fn is_pressed(&self, registry: &Registry) -> (r: bool)
        ensures
            r == registry.pressed_events().contains(Event::Keyboard(*self)),
    {
        registry.is_pressed(Event::Keyboard(*self))
    }
}

impl Mouse {
    /// Bind a press handler on this button: it reacts to presses only and
    /// runs on a fresh worker.  A later bind on the same button replaces
    /// this one.
    pub fn bind(&self, registry: &mut Registry, handler: u64)
        ensures
            forall|probe: Mouse| #[trigger] final(registry).button_action_of(probe) == if probe
                == *self {
                Some(Action::handle_mouse_spec(handler))
            } else {
                old(registry).button_action_of(probe)
            },
            old(registry).wf() ==> final(registry).wf(),
            final(registry).key_bindings() == old(registry).key_bindings(),
            final(registry).any_key_binding() == old(registry).any_key_binding(),
            final(registry).any_button_binding() == old(registry).any_button_binding(),
            Registry::hotkeys_unchanged(*old(registry), *final(registry)),
            Registry::state_unchanged(*old(registry), *final(registry)),
            Registry::pressed_unchanged(*old(registry), *final(registry)),
            Registry::queue_unchanged(*old(registry), *final(registry)),
            Registry::settings_unchanged(*old(registry), *final(registry)),
    {
        bind_button(registry, *self, Action::handle_mouse(handler))
    }

    /// Remove the binding of this button, if any.
    pub fn clear_bind(&self, registry: &mut Registry)
        ensures
            forall|probe: Mouse| #[trigger] final(registry).button_action_of(probe) == if probe
                == *self {
                None::<Action>
            } else {
                old(registry).button_action_of(probe)
            },
            old(registry).wf() ==> final(registry).wf(),
            final(registry).key_bindings() == old(registry).key_bindings(),
            final(registry).any_key_binding() == old(registry).any_key_binding(),
            final(registry).any_button_binding() == old(registry).any_button_binding(),
            Registry::hotkeys_unchanged(*old(registry), *final(registry)),
            Registry::state_unchanged(*old(registry), *final(registry)),
            Registry::pressed_unchanged(*old(registry), *final(registry)),
            Registry::queue_unchanged(*old(registry), *final(registry)),
            Registry::settings_unchanged(*old(registry), *final(registry)),
    {
        remove_button_bind(registry, *self)
    }

    /// Bind `action` on this button: a version of `bind` that can do more.
    pub fn act_on(&self, registry: &mut Registry, action: Action)
        ensures
            forall|probe: Mouse| #[trigger] final(registry).button_action_of(probe) == if probe
                == *self {
                Some(action)
            } else {
                old(registry).button_action_of(probe)
            },
            old(registry).wf() ==> final(registry).wf(),
            final(registry).key_bindings() == old(registry).key_bindings(),
            final(registry).any_key_binding() == old(registry).any_key_binding(),
            final(registry).any_button_binding() == old(registry).any_button_binding(),
            Registry::hotkeys_unchanged(*old(registry), *final(registry)),
            Registry::state_unchanged(*old(registry), *final(registry)),
            Registry::pressed_unchanged(*old(registry), *final(registry)),
            Registry::queue_unchanged(*old(registry), *final(registry)),
            Registry::settings_unchanged(*old(registry), *final(registry)),
    {
        bind_button(registry, *self, action)
    }

    /// Whether this button is currently pressed.
    pub fn is_pressed(&self, registry: &Registry) -> (r: bool)
        ensures
            r == registry.pressed_events().contains(Event::Mouse(*self)),
    {
        registry.is_pressed(Event::Mouse(*self))
    }
}

/// Install the any-key fallback handler, invoked in addition to any
/// exact-match binding on every key notification its callback reacts to.
pub fn bind_any_key(registry: &mut Registry, action: Action)
    ensures
        final(registry).any_key_binding() == Some(action),
        final(registry).any_button_binding() == old(registry).any_button_binding(),
        final(registry).key_bindings() == old(registry).key_bindings(),
        final(registry).button_bindings() == old(registry).button_bindings(),
        old(registry).wf() ==> final(registry).wf(),
        Registry::hotkeys_unchanged(*old(registry), *final(registry)),
        Registry::state_unchanged(*old(registry), *final(registry)),
        Registry::pressed_unchanged(*old(registry), *final(registry)),
        Registry::queue_unchanged(*old(registry), *final(registry)),
        Registry::settings_unchanged(*old(registry), *final(registry)),
{
    registry.bind_any_key(action)
}

/// Bind `action` exactly to `key`; a later bind on the same key replaces
/// it.
pub fn bind_key(registry: &mut Registry, key: Keyboard, action: Action)
    ensures
        final(registry).key_bindings() == set_by(
            old(registry).key_bindings(),
            key_id(),
            (key, action),
        ),
        forall|probe: Keyboard| #[trigger] final(registry).key_action_of(probe) == if probe == key {
            Some(action)
        } else {
            old(registry).key_action_of(probe)
        },
        final(registry).button_bindings() == old(registry).button_bindings(),
        final(registry).any_key_binding() == old(registry).any_key_binding(),
        final(registry).any_button_binding() == old(registry).any_button_binding(),
        old(registry).wf() ==> final(registry).wf(),
        Registry::hotkeys_unchanged(*old(registry), *final(registry)),
        Registry::state_unchanged(*old(registry), *final(registry)),
        Registry::pressed_unchanged(*old(registry), *final(registry)),
        Registry::queue_unchanged(*old(registry), *final(registry)),
        Registry::settings_unchanged(*old(registry), *final(registry)),
{
    registry.bind_key(key, action)
}

/// Remove the any-key fallback handler.
pub fn remove_any_key_bind(registry: &mut Registry)
    ensures
        final(registry).any_key_binding() is None,
        final(registry).any_button_binding() == old(registry).any_button_binding(),
        final(registry).key_bindings() == old(registry).key_bindings(),
        final(registry).button_bindings() == old(registry).button_bindings(),
        old(registry).wf() ==> final(registry).wf(),
        Registry::hotkeys_unchanged(*old(registry), *final(registry)),
        Registry::state_unchanged(*old(registry), *final(registry)),
        Registry::pressed_unchanged(*old(registry), *final(registry)),
        Registry::queue_unchanged(*old(registry), *final(registry)),
        Registry::settings_unchanged(*old(registry), *final(registry)),
{
    registry.remove_any_key_bind()
}

/// Remove the exact-match binding of `key`.
pub fn remove_key_bind(registry: &mut Registry, key: Keyboard)
    ensures
        final(registry).key_bindings() == remove_by(old(registry).key_bindings(), key_id(), key),
        forall|probe: Keyboard| #[trigger] final(registry).key_action_of(probe) == if probe == key {
            None::<Action>
        } else {
            old(registry).key_action_of(probe)
        },
        final(registry).button_bindings() == old(registry).button_bindings(),
        final(registry).any_key_binding() == old(registry).any_key_binding(),
        final(registry).any_button_binding() == old(registry).any_button_binding(),
        old(registry).wf() ==> final(registry).wf(),
        Registry::hotkeys_unchanged(*old(registry), *final(registry)),
        Registry::state_unchanged(*old(registry), *final(registry)),
        Registry::pressed_unchanged(*old(registry), *final(registry)),
        Registry::queue_unchanged(*old(registry), *final(registry)),
        Registry::settings_unchanged(*old(registry), *final(registry)),
{
    registry.remove_key_bind(key)
}

/// Install the any-button fallback handler.
pub fn bind_any_button(registry: &mut Registry, action: Action)
    ensures
        final(registry).any_button_binding() == Some(action),
        final(registry).any_key_binding() == old(registry).any_key_binding(),
        final(registry).key_bindings() == old(registry).key_bindings(),
        final(registry).button_bindings() == old(registry).button_bindings(),
        old(registry).wf() ==> final(registry).wf(),
        Registry::hotkeys_unchanged(*old(registry), *final(registry)),
        Registry::state_unchanged(*old(registry), *final(registry)),
        Registry::pressed_unchanged(*old(registry), *final(registry)),
        Registry::queue_unchanged(*old(registry), *final(registry)),
        Registry::settings_unchanged(*old(registry), *final(registry)),
{
    registry.bind_any_button(action)
}

/// Bind `action` exactly to `button`; a later bind on the same button
/// replaces it.
pub fn bind_button(registry: &mut Registry, button: Mouse, action: Action)
    ensures
        final(registry).button_bindings() == set_by(
            old(registry).button_bindings(),
            button_id(),
            (button, action),
        ),
        forall|probe: Mouse| #[trigger] final(registry).button_action_of(probe) == if probe
            == button {
            Some(action)
        } else {
            old(registry).button_action_of(probe)
        },
        final(registry).key_bindings() == old(registry).key_bindings(),
        final(registry).any_key_binding() == old(registry).any_key_binding(),
        final(registry).any_button_binding() == old(registry).any_button_binding(),
        old(registry).wf() ==> final(registry).wf(),
        Registry::hotkeys_unchanged(*old(registry), *final(registry)),
        Registry::state_unchanged(*old(registry), *final(registry)),
        Registry::pressed_unchanged(*old(registry), *final(registry)),
        Registry::queue_unchanged(*old(registry), *final(registry)),
        Registry::settings_unchanged(*old(registry), *final(registry)),
{
    registry.bind_button(button, action)
}

/// Remove the any-button fallback handler.
pub fn remove_any_button_bind(registry: &mut Registry)
    ensures
        final(registry).any_button_binding() is None,
        final(registry).any_key_binding() == old(registry).any_key_binding(),
        final(registry).key_bindings() == old(registry).key_bindings(),
        final(registry).button_bindings() == old(registry).button_bindings(),
        old(registry).wf() ==> final(registry).wf(),
        Registry::hotkeys_unchanged(*old(registry), *final(registry)),
        Registry::state_unchanged(*old(registry), *final(registry)),
        Registry::pressed_unchanged(*old(registry), *final(registry)),
        Registry::queue_unchanged(*old(registry), *final(registry)),
        Registry::settings_unchanged(*old(registry), *final(registry)),
{
    registry.remove_any_button_bind()
}

/// Remove the exact-match binding of `button`.
pub fn remove_button_bind(registry: &mut Registry, button: Mouse)
    ensures
        final(registry).button_bindings() == remove_by(
            old(registry).button_bindings(),
            button_id(),
            button,
        ),
        forall|probe: Mouse| #[trigger] final(registry).button_action_of(probe) == if probe
            == button {
            None::<Action>
        } else {
            old(registry).button_action_of(probe)
        },
        final(registry).key_bindings() == old(registry).key_bindings(),
        final(registry).any_key_binding() == old(registry).any_key_binding(),
        final(registry).any_button_binding() == old(registry).any_button_binding(),
        old(registry).wf() ==> final(registry).wf(),
        Registry::hotkeys_unchanged(*old(registry), *final(registry)),
        Registry::state_unchanged(*old(registry), *final(registry)),
        Registry::pressed_unchanged(*old(registry), *final(registry)),
        Registry::queue_unchanged(*old(registry), *final(registry)),
        Registry::settings_unchanged(*old(registry), *final(registry)),
{
    registry.remove_button_bind(button)
}

/// Register `token` as the callback of the hotkey `sequence`: it fires
/// once per press of the sequence's last key while the whole sequence is
/// pressed in order.  Registering the same sequence again replaces the
/// callback.
pub fn register_hotkey(registry: &mut Registry, sequence: Vec<Keyboard>, token: u64)
    requires
        sequence@.len() > 0,
    ensures
        final(registry).hotkey_bindings() == set_by(
            old(registry).hotkey_bindings(),
            hotkey_id(),
            (sequence, token),
        ),
        forall|probe: Seq<Keyboard>| #[trigger] final(registry).hotkey_of(probe) == if probe
            == sequence@ {
            Some(token)
        } else {
            old(registry).hotkey_of(probe)
        },
        old(registry).wf() ==> final(registry).wf(),
        Registry::bindings_unchanged(*old(registry), *final(registry)),
        Registry::state_unchanged(*old(registry), *final(registry)),
        Registry::pressed_unchanged(*old(registry), *final(registry)),
        Registry::queue_unchanged(*old(registry), *final(registry)),
        Registry::settings_unchanged(*old(registry), *final(registry)),
{
    registry.register_hotkey(sequence, token)
}

/// Whether the given key sequence is exactly what is pressed right now,
/// in press order; this may be a single key.
pub fn are_pressed(registry: &Registry, sequence: &Vec<Keyboard>) -> (r: bool)
    requires
        registry.wf(),
    ensures
        r == (registry.pressed_keys() == sequence@),
{
    registry.are_pressed(sequence)
}

/// Store `value` under `key` in the named-state table; the automation
/// language reads and writes the same table.
pub fn set_state(registry: &mut Registry, key: &str, value: &str)
    ensures
        final(registry).state_of(key@) == Some(value@),
        forall|probe: Seq<char>| probe != key@ ==> #[trigger] final(registry).state_entry(probe)
            == old(registry).state_entry(probe),
        old(registry).wf() ==> final(registry).wf(),
        Registry::bindings_unchanged(*old(registry), *final(registry)),
        Registry::hotkeys_unchanged(*old(registry), *final(registry)),
        Registry::pressed_unchanged(*old(registry), *final(registry)),
        Registry::queue_unchanged(*old(registry), *final(registry)),
        Registry::settings_unchanged(*old(registry), *final(registry)),
{
    registry.set_state(key, value)
}

/// The value stored under `key`, or nothing if it was never set.
pub fn get_state(registry: &Registry, key: &str) -> (r: Option<String>)
    ensures
        r == registry.state_entry(key@),
{
    registry.get_state(key)
}

/// Remove the registration of the hotkey `sequence`; the same sequence
/// that was registered has to be passed.
pub fn unregister_hotkey(registry: &mut Registry, sequence: &Vec<Keyboard>)
    ensures
        final(registry).hotkey_bindings() == remove_by(
            old(registry).hotkey_bindings(),
            hotkey_id(),
            sequence@,
        ),
        forall|probe: Seq<Keyboard>| #[trigger] final(registry).hotkey_of(probe) == if probe
            == sequence@ {
            None::<u64>
        } else {
            old(registry).hotkey_of(probe)
        },
        old(registry).wf() ==> final(registry).wf(),
        Registry::bindings_unchanged(*old(registry), *final(registry)),
        Registry::state_unchanged(*old(registry), *final(registry)),
        Registry::pressed_unchanged(*old(registry), *final(registry)),
        Registry::queue_unchanged(*old(registry), *final(registry)),
        Registry::settings_unchanged(*old(registry), *final(registry)),
{
    registry.unregister_hotkey(sequence)
}

/// Install or remove the pointer-tracking callback; while one is
/// installed the platform layer forwards every pointer move to it.
pub fn set_mouse_tracker(registry: &mut Registry, tracker: Option<u64>)
    ensures
        final(registry).tracker() == tracker,
        final(registry).debug() == old(registry).debug(),
        old(registry).wf() ==> final(registry).wf(),
        Registry::bindings_unchanged(*old(registry), *final(registry)),
        Registry::hotkeys_unchanged(*old(registry), *final(registry)),
        Registry::state_unchanged(*old(registry), *final(registry)),
        Registry::pressed_unchanged(*old(registry), *final(registry)),
        Registry::queue_unchanged(*old(registry), *final(registry)),
{
    registry.set_mouse_tracker(tracker)
}

} // verus!
