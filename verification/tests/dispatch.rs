use mki::details::Registry;
use mki::Action;
use mki::Callback;
use mki::Event;
use mki::InhibitEvent;
use mki::Keyboard;
use mki::Mouse;

#[test]
fn pressed_reflects_latest_notification() {
    let mut reg = Registry::new();
    let a = Event::Keyboard(Keyboard::A);
    let b = Event::Keyboard(Keyboard::B);
    assert!(!reg.is_pressed(a));
    reg.event_down(a);
    assert!(reg.is_pressed(a));
    assert!(!reg.is_pressed(b));
    reg.event_down(b);
    reg.event_up(a);
    assert!(!reg.is_pressed(a));
    assert!(reg.is_pressed(b));
    reg.event_up(b);
    assert!(!reg.is_pressed(b));
}

#[test]
fn duplicate_down_is_absorbed() {
    let mut reg = Registry::new();
    let a = Event::Keyboard(Keyboard::A);
    reg.event_down(a);
    reg.event_down(a);
    assert!(reg.is_pressed(a));
    reg.event_up(a);
    assert!(!reg.is_pressed(a));
}

#[test]
fn stray_release_heals_to_no_op() {
    let mut reg = Registry::new();
    let a = Event::Keyboard(Keyboard::A);
    let b = Event::Keyboard(Keyboard::B);
    reg.event_down(a);
    reg.event_up(b);
    assert!(reg.is_pressed(a));
    assert!(!reg.is_pressed(b));
}

#[test]
fn are_pressed_is_order_sensitive() {
    let mut reg = Registry::new();
    reg.event_down(Event::Keyboard(Keyboard::A));
    reg.event_down(Event::Keyboard(Keyboard::B));
    assert!(reg.are_pressed(&vec![Keyboard::A, Keyboard::B]));
    assert!(!reg.are_pressed(&vec![Keyboard::B, Keyboard::A]));
    assert!(!reg.are_pressed(&vec![Keyboard::A]));
}

#[test]
fn hotkey_fires_only_on_exact_order() {
    let mut reg = Registry::new();
    reg.register_hotkey(vec![Keyboard::A, Keyboard::B], 42);

    let plan = reg.event_down(Event::Keyboard(Keyboard::A));
    assert!(plan.fired_hotkeys.is_empty());
    let plan = reg.event_down(Event::Keyboard(Keyboard::B));
    assert_eq!(plan.fired_hotkeys, vec![42]);
    reg.event_up(Event::Keyboard(Keyboard::A));
    reg.event_up(Event::Keyboard(Keyboard::B));

    // The reverse press order never triggers it.
    let plan = reg.event_down(Event::Keyboard(Keyboard::B));
    assert!(plan.fired_hotkeys.is_empty());
    let plan = reg.event_down(Event::Keyboard(Keyboard::A));
    assert!(plan.fired_hotkeys.is_empty());
}

#[test]
fn hotkey_does_not_fire_while_extra_key_is_down() {
    let mut reg = Registry::new();
    reg.register_hotkey(vec![Keyboard::A, Keyboard::B], 7);
    reg.event_down(Event::Keyboard(Keyboard::C));
    reg.event_down(Event::Keyboard(Keyboard::A));
    let plan = reg.event_down(Event::Keyboard(Keyboard::B));
    assert!(plan.fired_hotkeys.is_empty());
}

#[test]
fn unregister_hotkey_stops_firing() {
    let mut reg = Registry::new();
    reg.register_hotkey(vec![Keyboard::A], 9);
    let plan = reg.event_down(Event::Keyboard(Keyboard::A));
    assert_eq!(plan.fired_hotkeys, vec![9]);
    reg.event_up(Event::Keyboard(Keyboard::A));
    reg.unregister_hotkey(&vec![Keyboard::A]);
    let plan = reg.event_down(Event::Keyboard(Keyboard::A));
    assert!(plan.fired_hotkeys.is_empty());
}

#[test]
fn rebinding_replaces_the_old_handler() {
    let mut reg = Registry::new();
    mki::bind_key(&mut reg, Keyboard::B, Action::handle_kb(1));
    mki::bind_key(&mut reg, Keyboard::B, Action::handle_kb(2));
    let plan = reg.event_down(Event::Keyboard(Keyboard::B));
    assert_eq!(plan.runs.len(), 1);
    assert_eq!(plan.runs[0].invocation.callback, Callback::OnKeyPress(2));
    assert!(plan.runs[0].deferred);
}

#[test]
fn fallback_and_exact_both_fire_in_order() {
    let mut reg = Registry::new();
    mki::bind_any_key(&mut reg, Action::handle_kb(10));
    mki::bind_key(&mut reg, Keyboard::B, Action::handle_kb(20));
    let plan = reg.event_down(Event::Keyboard(Keyboard::B));
    assert_eq!(plan.runs.len(), 2);
    assert_eq!(plan.runs[0].invocation.callback, Callback::OnKeyPress(10));
    assert_eq!(plan.runs[1].invocation.callback, Callback::OnKeyPress(20));
}

#[test]
fn clear_bind_removes_the_handler() {
    let mut reg = Registry::new();
    Keyboard::B.bind(&mut reg, 1);
    Keyboard::B.clear_bind(&mut reg);
    let plan = reg.event_down(Event::Keyboard(Keyboard::B));
    assert!(plan.runs.is_empty());
}

#[test]
fn press_only_callbacks_ignore_releases() {
    let mut reg = Registry::new();
    mki::bind_key(&mut reg, Keyboard::B, Action::handle_kb(1));
    reg.event_down(Event::Keyboard(Keyboard::B));
    let plan = reg.event_up(Event::Keyboard(Keyboard::B));
    assert!(plan.runs.is_empty());
}

#[test]
fn raw_callbacks_see_releases() {
    let mut reg = Registry::new();
    let action = Action {
        callback: Callback::Raw(5),
        inhibit: InhibitEvent::No,
        defer: false,
        sequencer: false,
    };
    mki::bind_key(&mut reg, Keyboard::B, action);
    reg.event_down(Event::Keyboard(Keyboard::B));
    let plan = reg.event_up(Event::Keyboard(Keyboard::B));
    assert_eq!(plan.runs.len(), 1);
    assert_eq!(plan.runs[0].invocation.callback, Callback::Raw(5));
    assert_eq!(plan.inhibit, InhibitEvent::No);
}

#[test]
fn keyboard_callbacks_ignore_mouse_events() {
    let mut reg = Registry::new();
    mki::bind_any_key(&mut reg, Action::handle_kb(1));
    let plan = reg.event_down(Event::Mouse(Mouse::Left));
    assert!(plan.runs.is_empty());
}

#[test]
fn mouse_bindings_fire_on_buttons() {
    let mut reg = Registry::new();
    Mouse::Left.bind(&mut reg, 3);
    let plan = reg.event_down(Event::Mouse(Mouse::Left));
    assert_eq!(plan.runs.len(), 1);
    assert_eq!(plan.runs[0].invocation.callback, Callback::OnButtonPress(3));
    assert!(Mouse::Left.is_pressed(&reg));
    reg.event_up(Event::Mouse(Mouse::Left));
    assert!(!Mouse::Left.is_pressed(&reg));
}

#[test]
fn exact_match_inhibit_overrides_fallback() {
    let mut reg = Registry::new();
    let yes = Action {
        callback: Callback::OnPress(1),
        inhibit: InhibitEvent::Yes,
        defer: false,
        sequencer: false,
    };
    let no = Action {
        callback: Callback::OnPress(2),
        inhibit: InhibitEvent::No,
        defer: false,
        sequencer: false,
    };
    mki::bind_any_key(&mut reg, yes);
    mki::bind_key(&mut reg, Keyboard::B, no);
    let plan = reg.event_down(Event::Keyboard(Keyboard::B));
    assert_eq!(plan.inhibit, InhibitEvent::No);
    // With only the fallback bound, its decision stands.
    let plan = reg.event_down(Event::Keyboard(Keyboard::C));
    assert_eq!(plan.inhibit, InhibitEvent::Yes);
}

#[test]
fn deferred_inhibit_is_reevaluated_every_press() {
    let mut reg = Registry::new();
    let action = Action {
        callback: Callback::OnKeyPress(1),
        inhibit: InhibitEvent::maybe(9),
        defer: false,
        sequencer: false,
    };
    Keyboard::B.act_on(&mut reg, action);

    // First press: the embedding's evaluator answers Yes.
    let plan = reg.event_down(Event::Keyboard(Keyboard::B));
    assert_eq!(plan.inhibit, InhibitEvent::Maybe(9));
    assert!(plan.inhibit.should_inhibit(InhibitEvent::Yes));
    reg.event_up(Event::Keyboard(Keyboard::B));

    // Second press: the evaluator's answer changed; so does the outcome,
    // without rebinding.
    let plan = reg.event_down(Event::Keyboard(Keyboard::B));
    assert_eq!(plan.inhibit, InhibitEvent::Maybe(9));
    assert!(!plan.inhibit.should_inhibit(InhibitEvent::No));
}

#[test]
fn releases_are_never_inhibited() {
    let mut reg = Registry::new();
    let action = Action {
        callback: Callback::Raw(1),
        inhibit: InhibitEvent::Yes,
        defer: false,
        sequencer: false,
    };
    mki::bind_key(&mut reg, Keyboard::B, action);
    reg.event_down(Event::Keyboard(Keyboard::B));
    let plan = reg.event_up(Event::Keyboard(Keyboard::B));
    assert_eq!(plan.inhibit, InhibitEvent::No);
}

#[test]
fn sequenced_runs_complete_in_submission_order() {
    let mut reg = Registry::new();
    mki::bind_key(&mut reg, Keyboard::A, Action::sequencing_kb(1));
    mki::bind_key(&mut reg, Keyboard::B, Action::sequencing_kb(2));
    mki::bind_key(&mut reg, Keyboard::C, Action::sequencing_kb(3));

    let plan = reg.event_down(Event::Keyboard(Keyboard::A));
    assert!(plan.runs.is_empty());
    reg.event_down(Event::Keyboard(Keyboard::B));
    reg.event_down(Event::Keyboard(Keyboard::C));

    let first = reg.pop_sequenced().expect("queued");
    let second = reg.pop_sequenced().expect("queued");
    let third = reg.pop_sequenced().expect("queued");
    assert_eq!(first.callback, Callback::OnKeyPress(1));
    assert_eq!(second.callback, Callback::OnKeyPress(2));
    assert_eq!(third.callback, Callback::OnKeyPress(3));
    assert!(reg.pop_sequenced().is_none());
}

#[test]
fn deferred_and_immediate_runs_are_marked() {
    let mut reg = Registry::new();
    mki::bind_key(&mut reg, Keyboard::A, Action::handle_kb(1));
    mki::bind_key(&mut reg, Keyboard::B, Action::callback_kb(2));
    let plan = reg.event_down(Event::Keyboard(Keyboard::A));
    assert!(plan.runs[0].deferred);
    let plan = reg.event_down(Event::Keyboard(Keyboard::B));
    assert!(!plan.runs[0].deferred);
}

#[test]
fn event_click_presses_then_releases() {
    let mut reg = Registry::new();
    let action = Action {
        callback: Callback::Raw(4),
        inhibit: InhibitEvent::Yes,
        defer: false,
        sequencer: false,
    };
    mki::bind_key(&mut reg, Keyboard::B, action);
    let plan = reg.event_click(Event::Keyboard(Keyboard::B));
    assert_eq!(plan.runs.len(), 2);
    assert_eq!(plan.runs[0].invocation.state, mki::State::Pressed);
    assert_eq!(plan.runs[1].invocation.state, mki::State::Released);
    assert_eq!(plan.inhibit, InhibitEvent::Yes);
    assert!(!reg.is_pressed(Event::Keyboard(Keyboard::B)));
}

#[test]
fn named_state_is_set_and_read() {
    let mut reg = Registry::new();
    assert_eq!(mki::get_state(&reg, "test"), None);
    mki::set_state(&mut reg, "test", "1");
    assert_eq!(mki::get_state(&reg, "test"), Some("1".to_owned()));
    mki::set_state(&mut reg, "test", "0");
    assert_eq!(mki::get_state(&reg, "test"), Some("0".to_owned()));
    assert_eq!(mki::get_state(&reg, "other"), None);
}

#[test]
fn mouse_tracker_toggles_tracking() {
    let mut reg = Registry::new();
    assert!(!reg.is_tracking_enabled());
    assert_eq!(reg.update_mouse_position(3, 4), None);
    mki::set_mouse_tracker(&mut reg, Some(8));
    assert!(reg.is_tracking_enabled());
    assert_eq!(reg.update_mouse_position(3, 4), Some((8, 3, 4)));
    mki::set_mouse_tracker(&mut reg, None);
    assert!(!reg.is_tracking_enabled());
}

#[test]
fn empty_sequence_matches_only_nothing_pressed() {
    let mut reg = Registry::new();
    assert!(reg.are_pressed(&vec![]));
    reg.event_down(Event::Keyboard(Keyboard::A));
    assert!(!reg.are_pressed(&vec![]));
}

#[test]
fn hotkey_with_repeated_key_never_fires() {
    // The pressed record absorbs a second press of the same key, so the
    // order [A, A] can never be what is pressed.
    let mut reg = Registry::new();
    reg.register_hotkey(vec![Keyboard::A, Keyboard::A], 5);
    reg.event_down(Event::Keyboard(Keyboard::A));
    let plan = reg.event_down(Event::Keyboard(Keyboard::A));
    assert!(plan.fired_hotkeys.is_empty());
}

#[test]
fn factories_fix_the_execution_mode() {
    let handle = Action::handle(1);
    assert!(handle.defer && !handle.sequencer);
    assert_eq!(handle.callback, Callback::OnPress(1));
    assert_eq!(handle.inhibit, InhibitEvent::No);

    let callback = Action::callback(2);
    assert!(!callback.defer && !callback.sequencer);

    let sequencing = Action::sequencing(3);
    assert!(!sequencing.defer && sequencing.sequencer);

    assert_eq!(Action::handle_mouse(4).callback, Callback::OnButtonPress(4));
    assert_eq!(Action::callback_mouse(5).callback, Callback::OnButtonPress(5));
    assert_eq!(Action::sequencing_mouse(6).callback, Callback::OnButtonPress(6));
    assert_eq!(Action::callback_kb(7).callback, Callback::OnKeyPress(7));
    assert_eq!(Action::sequencing_kb(8).callback, Callback::OnKeyPress(8));
}

#[test]
fn should_inhibit_resolves_every_policy() {
    assert!(InhibitEvent::Yes.should_inhibit(InhibitEvent::No));
    assert!(!InhibitEvent::No.should_inhibit(InhibitEvent::Yes));
    let deferred = InhibitEvent::maybe(1);
    assert!(deferred.should_inhibit(InhibitEvent::Yes));
    assert!(!deferred.should_inhibit(InhibitEvent::No));
    assert!(!deferred.should_inhibit(InhibitEvent::Maybe(2)));
}

#[test]
fn any_button_fallback_fires_with_exact_binding() {
    let mut reg = Registry::new();
    mki::bind_any_button(&mut reg, Action::handle_mouse(1));
    mki::bind_button(&mut reg, Mouse::Right, Action::handle_mouse(2));
    let plan = reg.event_down(Event::Mouse(Mouse::Right));
    assert_eq!(plan.runs.len(), 2);
    mki::remove_any_button_bind(&mut reg);
    mki::remove_button_bind(&mut reg, Mouse::Right);
    reg.event_up(Event::Mouse(Mouse::Right));
    let plan = reg.event_down(Event::Mouse(Mouse::Right));
    assert!(plan.runs.is_empty());
}

#[test]
fn remove_any_key_bind_silences_the_fallback() {
    let mut reg = Registry::new();
    mki::bind_any_key(&mut reg, Action::handle_kb(1));
    mki::remove_any_key_bind(&mut reg);
    let plan = reg.event_down(Event::Keyboard(Keyboard::A));
    assert!(plan.runs.is_empty());
}

#[test]
fn sequence_queues_one_invocation() {
    let mut reg = Registry::new();
    reg.sequence(
        Event::Keyboard(Keyboard::A),
        mki::State::Pressed,
        Action::sequencing_kb(4),
    );
    let inv = reg.pop_sequenced().expect("queued");
    assert_eq!(inv.callback, Callback::OnKeyPress(4));
    assert_eq!(inv.event, Event::Keyboard(Keyboard::A));
    assert_eq!(inv.state, mki::State::Pressed);
}
