use mki::details::Registry;
use mki::dsl;
use mki::dsl::LoadError;
use mki::interp::Effect;
use mki::interp::Interp;
use mki::Event;
use mki::Keyboard;
use mki::Mouse;

/// Drive a machine until it finishes, collecting every effect; panics if
/// it runs longer than `limit` steps.
fn run_to_end(m: &mut Interp, reg: &mut Registry, limit: usize) -> Vec<Effect> {
    let mut effects = Vec::new();
    let mut steps = 0;
    while !m.done() {
        assert!(steps < limit, "automation ran too long");
        effects.extend(m.step(reg));
        steps += 1;
    }
    effects
}

#[test]
fn input_without_keys_or_buttons_is_rejected() {
    let input = dsl::Input { key: None, button: None };
    assert_eq!(input.validate(), Err(LoadError::NoInput));
}

#[test]
fn input_with_both_keys_and_buttons_is_rejected() {
    let input = dsl::Input { key: Some(vec![Keyboard::A]), button: Some(vec![Mouse::Left]) };
    assert_eq!(input.validate(), Err(LoadError::BothInputs));
}

#[test]
fn empty_key_list_is_rejected() {
    let input = dsl::Input { key: Some(vec![]), button: None };
    assert_eq!(input.validate(), Err(LoadError::EmptyKeys));
    assert_eq!(input.validate().unwrap_err().describe(), "Bind had empty keys");
}

#[test]
fn empty_button_list_is_rejected() {
    let input = dsl::Input { key: None, button: Some(vec![]) };
    assert_eq!(input.validate(), Err(LoadError::EmptyButtons));
}

#[test]
fn pressed_check_on_buttons_is_rejected() {
    let action = dsl::Action::Pressed(dsl::Pressed {
        input: dsl::Input { key: None, button: Some(vec![Mouse::Left]) },
        action: vec![],
    });
    assert_eq!(dsl::validate_action(&action), Err(LoadError::PressedOnButtons));
}

#[test]
fn nested_invalid_input_fails_the_whole_tree() {
    let action = dsl::Action::Multi(vec![
        dsl::Action::Sleep(1),
        dsl::Action::Click(dsl::Input { key: None, button: None }),
    ]);
    assert_eq!(dsl::validate_action(&action), Err(LoadError::NoInput));
}

#[test]
fn invalid_config_registers_nothing() {
    let mut reg = Registry::new();
    let config = dsl::Config {
        bind: vec![
            dsl::Bind {
                description: None,
                input: dsl::Input::key(Keyboard::S),
                action: dsl::Action::Sleep(1),
            },
            dsl::Bind {
                description: None,
                input: dsl::Input { key: None, button: None },
                action: dsl::Action::Sleep(1),
            },
        ],
    };
    let r = dsl::load_config(&mut reg, config, 0);
    assert_eq!(r.unwrap_err(), LoadError::NoInput);
    // Not even the valid first bind was registered.
    let plan = reg.event_down(Event::Keyboard(Keyboard::S));
    assert!(plan.fired_hotkeys.is_empty());
}

#[test]
fn config_click_round_trip() {
    // A config binding Click([K]) under the hotkey [LeftControl, L].
    let mut reg = Registry::new();
    let config = dsl::Config {
        bind: vec![dsl::Bind {
            description: Some("Whenever Ctrl+L is clicked click K as well".to_owned()),
            input: dsl::Input { key: Some(vec![Keyboard::LeftControl, Keyboard::L]), button: None },
            action: dsl::Action::Click(dsl::Input::key(Keyboard::K)),
        }],
    };
    let scripts = dsl::load_config(&mut reg, config, 0).expect("valid config");
    assert_eq!(scripts.len(), 1);

    // Pressing LeftControl alone fires nothing and synthesizes nothing.
    let plan = reg.event_down(Event::Keyboard(Keyboard::LeftControl));
    assert!(plan.fired_hotkeys.is_empty());

    // Pressing L afterwards fires the bind exactly once…
    let plan = reg.event_down(Event::Keyboard(Keyboard::L));
    assert_eq!(plan.fired_hotkeys, vec![0]);

    // …and running its script synthesizes exactly one click of K.
    let mut m = Interp::new(&scripts[0]);
    let effects = run_to_end(&mut m, &mut reg, 100);
    assert_eq!(effects, vec![Effect::KeyClick(Keyboard::K)]);
}

#[test]
fn multi_runs_children_in_order() {
    let mut reg = Registry::new();
    let action = dsl::Action::Multi(vec![
        dsl::Action::Println("first".to_owned()),
        dsl::Action::Press(dsl::Input::key(Keyboard::A)),
        dsl::Action::Release(dsl::Input::key(Keyboard::A)),
        dsl::Action::Println("last".to_owned()),
    ]);
    let mut m = Interp::new(&action);
    let effects = run_to_end(&mut m, &mut reg, 100);
    assert_eq!(
        effects,
        vec![
            Effect::Println("first".to_owned()),
            Effect::KeyPress(Keyboard::A),
            Effect::KeyRelease(Keyboard::A),
            Effect::Println("last".to_owned()),
        ]
    );
}

#[test]
fn press_lists_every_named_input() {
    let mut reg = Registry::new();
    let action = dsl::Action::Press(dsl::Input {
        key: Some(vec![Keyboard::A, Keyboard::B]),
        button: None,
    });
    let mut m = Interp::new(&action);
    let effects = run_to_end(&mut m, &mut reg, 10);
    assert_eq!(effects, vec![Effect::KeyPress(Keyboard::A), Effect::KeyPress(Keyboard::B)]);
}

#[test]
fn state_matches_guards_its_branch() {
    let mut reg = Registry::new();
    let action = dsl::Action::Multi(vec![
        dsl::Action::StateMatches(dsl::StateMatches {
            name: "test".to_owned(),
            value: "1".to_owned(),
            action: vec![dsl::Action::Click(dsl::Input::key(Keyboard::Number1))],
        }),
        dsl::Action::StateMatches(dsl::StateMatches {
            name: "test".to_owned(),
            value: "0".to_owned(),
            action: vec![dsl::Action::Click(dsl::Input::key(Keyboard::Number0))],
        }),
    ]);
    mki::set_state(&mut reg, "test", "1");
    let mut m = Interp::new(&action);
    let effects = run_to_end(&mut m, &mut reg, 100);
    assert_eq!(effects, vec![Effect::KeyClick(Keyboard::Number1)]);

    mki::set_state(&mut reg, "test", "0");
    let mut m = Interp::new(&action);
    let effects = run_to_end(&mut m, &mut reg, 100);
    assert_eq!(effects, vec![Effect::KeyClick(Keyboard::Number0)]);
}

#[test]
fn state_matches_on_unset_name_is_false_not_an_error() {
    let mut reg = Registry::new();
    let action = dsl::Action::StateMatches(dsl::StateMatches {
        name: "never-set".to_owned(),
        value: "1".to_owned(),
        action: vec![dsl::Action::Click(dsl::Input::key(Keyboard::W))],
    });
    let mut m = Interp::new(&action);
    let effects = run_to_end(&mut m, &mut reg, 10);
    assert!(effects.is_empty());
}

#[test]
fn set_state_action_updates_the_registry() {
    let mut reg = Registry::new();
    let action = dsl::Action::Multi(vec![
        dsl::Action::SetState(dsl::SetState { name: "test".to_owned(), value: "1".to_owned() }),
        dsl::Action::PrintState("test".to_owned()),
    ]);
    let mut m = Interp::new(&action);
    let effects = run_to_end(&mut m, &mut reg, 10);
    assert_eq!(mki::get_state(&reg, "test"), Some("1".to_owned()));
    assert_eq!(
        effects,
        vec![Effect::PrintState("test".to_owned(), Some("1".to_owned()))]
    );
}

#[test]
fn pressed_check_requires_exact_order() {
    let mut reg = Registry::new();
    let action = dsl::Action::Pressed(dsl::Pressed {
        input: dsl::Input { key: Some(vec![Keyboard::A, Keyboard::B]), button: None },
        action: vec![dsl::Action::Println("combo".to_owned())],
    });
    let mut m = Interp::new(&action);
    assert!(run_to_end(&mut m, &mut reg, 10).is_empty());

    reg.event_down(Event::Keyboard(Keyboard::A));
    reg.event_down(Event::Keyboard(Keyboard::B));
    let mut m = Interp::new(&action);
    assert_eq!(
        run_to_end(&mut m, &mut reg, 10),
        vec![Effect::Println("combo".to_owned())]
    );
}

#[test]
fn while_state_loops_at_its_cadence_and_stops_on_change() {
    // WhileStateMatches("flag", "1", [Click([W]), Sleep(100)]).
    let mut reg = Registry::new();
    let action = dsl::Action::WhileStateMatches(dsl::StateMatches {
        name: "flag".to_owned(),
        value: "1".to_owned(),
        action: vec![
            dsl::Action::Click(dsl::Input::key(Keyboard::W)),
            dsl::Action::Sleep(100),
        ],
    });
    mki::set_state(&mut reg, "flag", "1");
    let mut m = Interp::new(&action);
    let mut effects = Vec::new();

    // Two full rounds while the flag matches: each is one click of W
    // followed by the 100 ms pause.
    while effects.len() < 4 {
        assert!(!m.done());
        effects.extend(m.step(&mut reg));
    }
    assert_eq!(
        effects,
        vec![
            Effect::KeyClick(Keyboard::W),
            Effect::Sleep(100),
            Effect::KeyClick(Keyboard::W),
            Effect::Sleep(100),
        ]
    );

    // The flag changes away from "1" (as another thread would do): the
    // loop stops at its next recheck, with no further effects.
    mki::set_state(&mut reg, "flag", "0");
    let rest = run_to_end(&mut m, &mut reg, 10);
    assert!(rest.is_empty());
}

#[test]
fn while_state_on_unset_name_never_runs() {
    let mut reg = Registry::new();
    let action = dsl::Action::WhileStateMatches(dsl::StateMatches {
        name: "flag".to_owned(),
        value: "1".to_owned(),
        action: vec![dsl::Action::Click(dsl::Input::key(Keyboard::W))],
    });
    let mut m = Interp::new(&action);
    assert!(run_to_end(&mut m, &mut reg, 10).is_empty());
}

#[test]
fn load_config_numbers_tokens_by_bind_order() {
    let mut reg = Registry::new();
    let config = dsl::Config {
        bind: vec![
            dsl::Bind {
                description: None,
                input: dsl::Input::key(Keyboard::S),
                action: dsl::Action::SetState(dsl::SetState {
                    name: "test".to_owned(),
                    value: "1".to_owned(),
                }),
            },
            dsl::Bind {
                description: None,
                input: dsl::Input::key(Keyboard::R),
                action: dsl::Action::SetState(dsl::SetState {
                    name: "test".to_owned(),
                    value: "0".to_owned(),
                }),
            },
        ],
    };
    let scripts = dsl::load_config(&mut reg, config, 10).expect("valid config");
    assert_eq!(scripts.len(), 2);
    let plan = reg.event_down(Event::Keyboard(Keyboard::S));
    assert_eq!(plan.fired_hotkeys, vec![10]);
    reg.event_up(Event::Keyboard(Keyboard::S));
    let plan = reg.event_down(Event::Keyboard(Keyboard::R));
    assert_eq!(plan.fired_hotkeys, vec![11]);
}

#[test]
fn rebound_hotkey_sequence_uses_the_later_token() {
    let mut reg = Registry::new();
    reg.register_hotkey(vec![Keyboard::A], 1);
    reg.register_hotkey(vec![Keyboard::A], 2);
    let plan = reg.event_down(Event::Keyboard(Keyboard::A));
    assert_eq!(plan.fired_hotkeys, vec![2]);
}

#[test]
fn a_machine_for_a_list_runs_each_action_in_order() {
    let mut reg = Registry::new();
    let actions = vec![
        dsl::Action::Println("one".to_owned()),
        dsl::Action::Println("two".to_owned()),
    ];
    let mut m = Interp::for_actions(&actions);
    let effects = run_to_end(&mut m, &mut reg, 10);
    assert_eq!(
        effects,
        vec![Effect::Println("one".to_owned()), Effect::Println("two".to_owned())]
    );
}
