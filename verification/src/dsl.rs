//! The automation language: a tree of typed actions over the dispatch
//! core's primitives, and the loader that turns a parsed config into
//! hotkey registrations.
//!
//! The text format itself is read by the embedding; this module consumes
//! the already-parsed tree, validates it, and registers one hotkey per
//! config entry.  `crate::interp` evaluates the trees.

use vstd::prelude::*;

use crate::details::hotkey_id;
use crate::details::set_by;
use crate::details::Registry;
use crate::keyboard::Keyboard;
use crate::mouse::Mouse;

verus! {

/// The inputs a config entry refers to: a non-empty list of keys or a
/// non-empty list of buttons, never both.
#[derive(Debug)]
pub struct Input {
    pub key: Option<Vec<Keyboard>>,
    pub button: Option<Vec<Mouse>>,
}

/// Why a config is structurally invalid.
#[derive(Copy, Clone, PartialEq, Eq, Structural, Debug)]
pub enum LoadError {
    /// An input named neither keys nor buttons.
    NoInput,
    /// An input named both keys and buttons.
    BothInputs,
    /// An input named an empty key list.
    EmptyKeys,
    /// An input named an empty button list.
    EmptyButtons,
    /// A pressed-state check referred to buttons.
    PressedOnButtons,
}

impl LoadError {
    /// The human-readable cause.
    pub fn describe(&self) -> (r: &'static str)
        ensures
            r@ == match *self {
                LoadError::NoInput => "Bind had neither key nor button"@,
                LoadError::BothInputs => "Bind had both key and button"@,
                LoadError::EmptyKeys => "Bind had empty keys"@,
                LoadError::EmptyButtons => "Bind had empty buttons"@,
                LoadError::PressedOnButtons => "Pressed can only check keys."@,
            },
    {
        match self {
            LoadError::NoInput => "Bind had neither key nor button",
            LoadError::BothInputs => "Bind had both key and button",
            LoadError::EmptyKeys => "Bind had empty keys",
            LoadError::EmptyButtons => "Bind had empty buttons",
            LoadError::PressedOnButtons => "Pressed can only check keys.",
        }
    }
}

impl Input {
    /// Exactly one of the two lists is given, and it is non-empty.
    pub open spec fn valid(self) -> bool {
        match (self.key, self.button) {
            (Some(ks), None) => ks@.len() > 0,
            (None, Some(bs)) => bs@.len() > 0,
            _ => false,
        }
    }

    /// Check this input's shape, reporting the exact violation.
    pub fn validate(&self) -> (r: Result<(), LoadError>)
        ensures
            r is Ok <==> self.valid(),
            self.key is None && self.button is None ==> r == Err::<(), LoadError>(
                LoadError::NoInput,
            ),
            self.key is Some && self.button is Some ==> r == Err::<(), LoadError>(
                LoadError::BothInputs,
            ),
            (self.key matches Some(ks) && ks@.len() == 0 && self.button is None) ==> r == Err::<
                (),
                LoadError,
            >(LoadError::EmptyKeys),
            (self.button matches Some(bs) && bs@.len() == 0 && self.key is None) ==> r == Err::<
                (),
                LoadError,
            >(LoadError::EmptyButtons),
    {
        match (&self.key, &self.button) {
            (None, None) => Err(LoadError::NoInput),
            (Some(_), Some(_)) => Err(LoadError::BothInputs),
            (Some(ks), None) => {
                if ks.len() == 0 {
                    Err(LoadError::EmptyKeys)
                } else {
                    Ok(())
                }
            },
            (None, Some(bs)) => {
                if bs.len() == 0 {
                    Err(LoadError::EmptyButtons)
                } else {
                    Ok(())
                }
            },
        }
    }

    /// An input naming a single key.
    pub fn key(key: Keyboard) -> (r: Input)
        ensures
            r.key matches Some(ks) && ks@ == seq![key],
            r.button is None,
    {
        Input { button: None, key: Some(vec![key]) }
    }
}

/// One name/value pair for the named-state table.
#[derive(Debug)]
pub struct SetState {
    pub name: String,
    pub value: String,
}

/// A condition on the named-state table, with the actions it guards.
#[derive(Debug)]
pub struct StateMatches {
    pub name: String,
    pub value: String,
    pub action: Vec<Action>,
}

/// A condition on the currently pressed keys, with the actions it guards.
#[derive(Debug)]
pub struct Pressed {
    pub input: Input,
    pub action: Vec<Action>,
}

/// One step of the automation language.
#[derive(Debug)]
pub enum Action {
    /// Evaluate each child in order.
    Multi(Vec<Action>),
    /// Evaluate the children while the named keys are exactly what is
    /// pressed; keys only.
    Pressed(Pressed),
    /// Evaluate the children if the named state holds the given value.
    StateMatches(StateMatches),
    /// Re-evaluate the children as long as the named state holds the
    /// given value, rechecking before every round.
    WhileStateMatches(StateMatches),
    /// Synthesize a press of each named input.
    Press(Input),
    /// Synthesize a release of each named input.
    Release(Input),
    /// Synthesize a click of each named input.
    Click(Input),
    /// Pause for the given number of milliseconds.
    Sleep(u64),
    /// Store a value in the named-state table.
    SetState(SetState),
    /// Print a message.
    Println(String),
    /// Print a named state entry.
    PrintState(String),
}

/// Whether one action tree is structurally valid: every input names
/// exactly one non-empty list, and pressed-state checks refer to keys
/// only.
pub open spec fn action_valid(a: Action) -> bool
    decreases a,
{
    match a {
        Action::Multi(list) => actions_valid(list@),
        Action::Pressed(p) => p.input.valid() && p.input.key is Some && actions_valid(p.action@),
        Action::StateMatches(sm) => actions_valid(sm.action@),
        Action::WhileStateMatches(sm) => actions_valid(sm.action@),
        Action::Press(i) => i.valid(),
        Action::Release(i) => i.valid(),
        Action::Click(i) => i.valid(),
        Action::Sleep(_) => true,
        Action::SetState(_) => true,
        Action::Println(_) => true,
        Action::PrintState(_) => true,
    }
}

/// Whether each action in a list is valid.
pub open spec fn actions_valid(list: Seq<Action>) -> bool
    decreases list,
{
    if list.len() == 0 {
        true
    } else {
        action_valid(list[0]) && actions_valid(list.drop_first())
    }
}

/// Check one action tree; `Ok` exactly on valid trees.
pub fn validate_action(action: &Action) -> (r: Result<(), LoadError>)
    ensures
        r is Ok <==> action_valid(*action),
    decreases *action,
{
    match action {
        Action::Multi(list) => validate_actions(list),
        Action::Pressed(p) => {
            match p.input.validate() {
                Err(e) => Err(e),
                Ok(()) => {
                    if matches!(p.input.key, None) {
                        Err(LoadError::PressedOnButtons)
                    } else {
                        validate_actions(&p.action)
                    }
                },
            }
        },
        Action::StateMatches(sm) => validate_actions(&sm.action),
        Action::WhileStateMatches(sm) => validate_actions(&sm.action),
        Action::Press(i) => i.validate(),
        Action::Release(i) => i.validate(),
        Action::Click(i) => i.validate(),
        Action::Sleep(_) => Ok(()),
        Action::SetState(_) => Ok(()),
        Action::Println(_) => Ok(()),
        Action::PrintState(_) => Ok(()),
    }
}

/// Check each action in a list; `Ok` exactly when all are valid.
#[verifier::loop_isolation(false)]
pub fn validate_actions(list: &Vec<Action>) -> (r: Result<(), LoadError>)
    ensures
        r is Ok <==> actions_valid(list@),
    decreases list@,
{
    let mut i: usize = 0;
    while i < list.len()
        invariant
            0 <= i <= list@.len(),
            forall|j: int| 0 <= j < i ==> action_valid(#[trigger] list@[j]),
        decreases list@.len() - i,
    {
        let r = validate_action(&list[i]);
        if let Err(e) = r {
            proof {
                lemma_actions_valid_index(list@, i as int);
            }
            return Err(e);
        }
        i = i + 1;
    }
    proof {
        lemma_actions_valid_all(list@);
    }
    Ok(())
}

/// If every element of `list` is valid, the list is valid.
proof fn lemma_actions_valid_all(list: Seq<Action>)
    requires
        forall|j: int| 0 <= j < list.len() ==> action_valid(#[trigger] list[j]),
    ensures
        actions_valid(list),
    decreases list.len(),
{
    if list.len() > 0 {
        assert(forall|j: int| 0 <= j < list.drop_first().len() ==> list.drop_first()[j] == list[
            j + 1
        ]);
        lemma_actions_valid_all(list.drop_first());
    }
}

/// If some element of `list` is invalid, the list is invalid.
proof fn lemma_actions_valid_index(list: Seq<Action>, i: int)
    requires
        0 <= i < list.len(),
        !action_valid(list[i]),
    ensures
        !actions_valid(list),
    decreases i,
{
    if i > 0 {
        assert(list.drop_first()[i - 1] == list[i]);
        lemma_actions_valid_index(list.drop_first(), i - 1);
    }
}

} // verus!

verus! {

/// One config entry: the hotkey input it is bound under, an optional
/// description, and the action tree to run when the hotkey fires.
#[derive(Debug)]
pub struct Bind {
    pub description: Option<String>,
    pub input: Input,
    pub action: Action,
}

/// A parsed config: a list of binds.
#[derive(Debug)]
pub struct Config {
    pub bind: Vec<Bind>,
}

/// Whether every bind of the config has a valid input and a valid action
/// tree.
pub open spec fn config_valid(c: Config) -> bool {
    forall|i: int| 0 <= i < c.bind@.len() ==> (#[trigger] c.bind@[i]).input.valid() && action_valid(
        c.bind@[i].action,
    )
}

/// The hotkey table after registering the binds in order: the `i`-th
/// key-list bind is registered under token `first_token + i`; button-only
/// binds are accepted by the schema but register no hotkey, since only key
/// sequences can fire one.
pub open spec fn hotkeys_after(
    hks: Seq<(Vec<Keyboard>, u64)>,
    binds: Seq<Bind>,
    first_token: u64,
) -> Seq<(Vec<Keyboard>, u64)>
    decreases binds.len(),
{
    if binds.len() == 0 {
        hks
    } else {
        let prev = hotkeys_after(hks, binds.drop_last(), first_token);
        match binds.last().input.key {
            Some(ks) => set_by(prev, hotkey_id(), (ks, (first_token + binds.len() - 1) as u64)),
            None => prev,
        }
    }
}

/// Load a parsed config: validate every bind first, then register one
/// hotkey per key-list bind, the `i`-th bind under token
/// `first_token + i`.  On a validation error nothing is registered.  The
/// returned list holds each bind's action tree, in bind order, so the
/// embedding can run tree `i` when the hotkey with token
/// `first_token + i` fires.
#[verifier::loop_isolation(false)]
pub fn load_config(registry: &mut Registry, config: Config, first_token: u64) -> (r: Result<
    Vec<Action>,
    LoadError,
>)
    requires
        old(registry).wf(),
        first_token + config.bind@.len() <= u64::MAX,
    ensures
        final(registry).wf(),
        r is Ok <==> config_valid(config),
        r matches Ok(scripts) ==> scripts@.len() == config.bind@.len() && (forall|i: int|
            0 <= i < config.bind@.len() ==> scripts@[i] == (#[trigger] config.bind@[i]).action)
            && final(registry).hotkey_bindings() == hotkeys_after(
            old(registry).hotkey_bindings(),
            config.bind@,
            first_token,
        ),
        r is Err ==> Registry::hotkeys_unchanged(*old(registry), *final(registry)),
        Registry::bindings_unchanged(*old(registry), *final(registry)),
        Registry::state_unchanged(*old(registry), *final(registry)),
        Registry::pressed_unchanged(*old(registry), *final(registry)),
        Registry::queue_unchanged(*old(registry), *final(registry)),
        Registry::settings_unchanged(*old(registry), *final(registry)),
{
    let mut i: usize = 0;
    while i < config.bind.len()
        invariant
            0 <= i <= config.bind@.len(),
            forall|j: int| 0 <= j < i ==> (#[trigger] config.bind@[j]).input.valid()
                && action_valid(config.bind@[j].action),
        decreases config.bind@.len() - i,
    {
        if let Err(e) = config.bind[i].input.validate() {
            return Err(e);
        }
        if let Err(e) = validate_action(&config.bind[i].action) {
            return Err(e);
        }
        i = i + 1;
    }
    let ghost binds = config.bind@;
    let mut remaining = config.bind;
    let mut scripts: Vec<Action> = Vec::new();
    while remaining.len() > 0
        invariant
            scripts@.len() + remaining@.len() == binds.len(),
            remaining@ == binds.subrange(scripts@.len() as int, binds.len() as int),
            forall|m: int| 0 <= m < scripts@.len() ==> scripts@[m] == (#[trigger] binds[m]).action,
            registry.wf(),
            registry.hotkey_bindings() == hotkeys_after(
                old(registry).hotkey_bindings(),
                binds.subrange(0, scripts@.len() as int),
                first_token,
            ),
            Registry::bindings_unchanged(*old(registry), *registry),
            Registry::state_unchanged(*old(registry), *registry),
            Registry::pressed_unchanged(*old(registry), *registry),
            Registry::queue_unchanged(*old(registry), *registry),
            Registry::settings_unchanged(*old(registry), *registry),
        decreases remaining@.len(),
    {
        let ghost n = scripts@.len() as int;
        proof {
            assert(remaining@[0] == binds[n]);
            assert(binds.subrange(0, n + 1).drop_last() =~= binds.subrange(0, n));
            assert(binds.subrange(0, n + 1).last() == binds[n]);
        }
        let b = remaining.remove(0);
        proof {
            assert(remaining@ =~= binds.subrange(n + 1, binds.len() as int));
        }
        match b.input.key {
            Some(ks) => {
                let token = first_token + (scripts.len() as u64);
                registry.register_hotkey(ks, token);
            },
            None => {},
        }
        scripts.push(b.action);
    }
    proof {
        assert(binds.subrange(0, binds.len() as int) =~= binds);
    }
    Ok(scripts)
}

} // verus!
