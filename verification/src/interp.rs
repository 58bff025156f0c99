//! The automation interpreter.
//!
//! Evaluation is a small-step machine over a work stack of borrowed
//! subtrees.  Each `step` consumes the top entry, re-reads whatever
//! conditions it guards against the registry as it is *now*, and returns
//! the outward effects (input synthesis, pauses, printing) for the
//! embedding to perform before the next step.  Looping constructs re-push
//! themselves, so a loop whose condition another thread falsifies between
//! steps stops at its next recheck.

use vstd::prelude::*;

use crate::details::keys_of;
use crate::details::Registry;
use crate::dsl::Action;
use crate::dsl::Input;
use crate::keyboard::Keyboard;
use crate::mouse::Mouse;

verus! {

/// One outward effect of an automation step, for the embedding to
/// perform.
#[derive(Clone, PartialEq, Eq, Debug)]
pub enum Effect {
    /// Synthesize a press of this key.
    KeyPress(Keyboard),
    /// Synthesize a release of this key.
    KeyRelease(Keyboard),
    /// Synthesize a click of this key.
    KeyClick(Keyboard),
    /// Synthesize a press of this button.
    ButtonPress(Mouse),
    /// Synthesize a release of this button.
    ButtonRelease(Mouse),
    /// Synthesize a click of this button.
    ButtonClick(Mouse),
    /// Pause the evaluating thread for this many milliseconds.
    Sleep(u64),
    /// Print the message.
    Println(String),
    /// Print the named state entry, which held the given value.
    PrintState(String, Option<String>),
}

/// The effects of synthesizing a press of an input: its keys in order,
/// then its buttons in order.
pub open spec fn press_effects(input: Input) -> Seq<Effect> {
    (match input.key {
        Some(ks) => ks@.map_values(|k: Keyboard| Effect::KeyPress(k)),
        None => Seq::<Effect>::empty(),
    }) + (match input.button {
        Some(bs) => bs@.map_values(|b: Mouse| Effect::ButtonPress(b)),
        None => Seq::<Effect>::empty(),
    })
}

/// The effects of synthesizing a release of an input.
pub open spec fn release_effects(input: Input) -> Seq<Effect> {
    (match input.key {
        Some(ks) => ks@.map_values(|k: Keyboard| Effect::KeyRelease(k)),
        None => Seq::<Effect>::empty(),
    }) + (match input.button {
        Some(bs) => bs@.map_values(|b: Mouse| Effect::ButtonRelease(b)),
        None => Seq::<Effect>::empty(),
    })
}

/// The effects of synthesizing a click of an input.
pub open spec fn click_effects(input: Input) -> Seq<Effect> {
    (match input.key {
        Some(ks) => ks@.map_values(|k: Keyboard| Effect::KeyClick(k)),
        None => Seq::<Effect>::empty(),
    }) + (match input.button {
        Some(bs) => bs@.map_values(|b: Mouse| Effect::ButtonClick(b)),
        None => Seq::<Effect>::empty(),
    })
}

/// Nothing but the named-state table may differ between `a` and `b`.
pub open spec fn only_state_touched(a: Registry, b: Registry) -> bool {
    &&& Registry::bindings_unchanged(a, b)
    &&& Registry::hotkeys_unchanged(a, b)
    &&& Registry::pressed_unchanged(a, b)
    &&& Registry::queue_unchanged(a, b)
    &&& Registry::settings_unchanged(a, b)
}

/// What one step does, given the stack and registry before it: how the
/// stack, the registry and the emitted effects relate.
pub open spec fn step_spec(
    pre_stack: Seq<Action>,
    pre: Registry,
    post_stack: Seq<Action>,
    post: Registry,
    effects: Seq<Effect>,
) -> bool {
    pre_stack.len() > 0 && {
        let top = pre_stack.last();
        let rest = pre_stack.drop_last();
        match top {
            Action::Multi(list) => {
                &&& post_stack == rest + list@.reverse()
                &&& effects.len() == 0
                &&& post == pre
            },
            Action::Pressed(p) => {
                &&& post_stack == if p.input.key matches Some(ks) && keys_of(pre.pressed_events())
                    == ks@ {
                    rest + p.action@.reverse()
                } else {
                    rest
                }
                &&& effects.len() == 0
                &&& post == pre
            },
            Action::StateMatches(sm) => {
                &&& post_stack == if pre.state_of(sm.name@) == Some(sm.value@) {
                    rest + sm.action@.reverse()
                } else {
                    rest
                }
                &&& effects.len() == 0
                &&& post == pre
            },
            Action::WhileStateMatches(sm) => {
                &&& post_stack == if pre.state_of(sm.name@) == Some(sm.value@) {
                    rest + seq![top] + sm.action@.reverse()
                } else {
                    rest
                }
                &&& effects.len() == 0
                &&& post == pre
            },
            Action::Press(input) => {
                &&& post_stack == rest
                &&& effects == press_effects(input)
                &&& post == pre
            },
            Action::Release(input) => {
                &&& post_stack == rest
                &&& effects == release_effects(input)
                &&& post == pre
            },
            Action::Click(input) => {
                &&& post_stack == rest
                &&& effects == click_effects(input)
                &&& post == pre
            },
            Action::Sleep(ms) => {
                &&& post_stack == rest
                &&& effects == seq![Effect::Sleep(ms)]
                &&& post == pre
            },
            Action::SetState(st) => {
                &&& post_stack == rest
                &&& effects.len() == 0
                &&& post.state_of(st.name@) == Some(st.value@)
                &&& forall|probe: Seq<char>| probe != st.name@ ==> #[trigger] post.state_entry(
                    probe,
                ) == pre.state_entry(probe)
                &&& only_state_touched(pre, post)
            },
            Action::Println(msg) => {
                &&& post_stack == rest
                &&& effects == seq![Effect::Println(msg)]
                &&& post == pre
            },
            Action::PrintState(name) => {
                &&& post_stack == rest
                &&& effects == seq![Effect::PrintState(name, pre.state_entry(name@))]
                &&& post == pre
            },
        }
    }
}

/// The automation machine: a stack of pending subtrees, topmost next.
pub struct Interp<'a> {
    stack: Vec<&'a Action>,
}

impl<'a> View for Interp<'a> {
    type V = Seq<Action>;

    closed spec fn view(&self) -> Seq<Action> {
        Seq::new(self.stack@.len(), |i: int| *self.stack@[i])
    }
}

impl<'a> Interp<'a> {
    /// A machine that will evaluate one action tree.
    pub fn new(root: &'a Action) -> (r: Interp<'a>)
        ensures
            r@ == seq![*root],
    {
        let mut stack: Vec<&'a Action> = Vec::new();
        stack.push(root);
        let r = Interp { stack };
        proof {
            assert(r@ =~= seq![*root]);
        }
        r
    }

    /// A machine that will evaluate each action of a list, in order.
    pub fn for_actions(actions: &'a Vec<Action>) -> (r: Interp<'a>)
        ensures
            r@ == actions@.reverse(),
    {
        let mut m = Interp { stack: Vec::new() };
        proof {
            assert(m@ =~= Seq::<Action>::empty());
            assert(Seq::<Action>::empty() + actions@.reverse() =~= actions@.reverse());
        }
        m.push_list(actions);
        m
    }

    /// Whether evaluation is finished.
    pub fn done(&self) -> (r: bool)
        ensures
            r == (self@.len() == 0),
    {
        self.stack.len() == 0
    }

    /// Push the actions of `list` so that `list[0]` is evaluated first.
    #[verifier::loop_isolation(false)]
    fn push_list(&mut self, list: &'a Vec<Action>)
        ensures
            final(self)@ == old(self)@ + list@.reverse(),
    {
        let ghost base = old(self)@;
        let mut i: usize = list.len();
        while i > 0
            invariant
                0 <= i <= list@.len(),
                self@.len() == base.len() + (list@.len() - i),
                forall|m: int| 0 <= m < base.len() ==> self@[m] == base[m],
                forall|m: int| base.len() <= m < self@.len() ==> self@[m] == list@[
                    list@.len() - 1 - (m - base.len())
                ],
            decreases i,
        {
            i = i - 1;
            let ghost before = self@;
            self.stack.push(&list[i]);
            proof {
                assert(self@ =~= before.push(list@[i as int]));
            }
        }
        proof {
            assert(final(self)@ =~= base + list@.reverse());
        }
    }

    /// Evaluate the topmost pending subtree by one step, re-reading any
    /// condition against the registry as it is now, and return the
    /// outward effects for the embedding to perform.
    pub fn step(&mut self, registry: &mut Registry) -> (effects: Vec<Effect>)
        requires
            old(self)@.len() > 0,
            old(registry).wf(),
        ensures
            final(registry).wf(),
            step_spec(old(self)@, *old(registry), final(self)@, *final(registry), effects@),
    {
        let ghost pre_stack = self@;
        let top: &'a Action = match self.stack.pop() {
            Some(t) => t,
            None => unreached(),
        };
        proof {
            assert(self@ =~= pre_stack.drop_last());
            assert(*top == pre_stack.last());
        }
        match top {
            Action::Multi(list) => {
                self.push_list(list);
                Vec::new()
            },
            Action::Pressed(p) => {
                if let Some(ks) = &p.input.key {
                    if registry.are_pressed(ks) {
                        self.push_list(&p.action);
                    }
                }
                Vec::new()
            },
            Action::StateMatches(sm) => {
                if state_holds(registry, &sm.name, &sm.value) {
                    self.push_list(&sm.action);
                }
                Vec::new()
            },
            Action::WhileStateMatches(sm) => {
                if state_holds(registry, &sm.name, &sm.value) {
                    let ghost before = self@;
                    self.stack.push(top);
                    proof {
                        assert(self@ =~= before.push(*top));
                        assert(before.push(*top) =~= before + seq![*top]);
                    }
                    self.push_list(&sm.action);
                }
                Vec::new()
            },
            Action::Press(input) => synthesize_press(input),
            Action::Release(input) => synthesize_release(input),
            Action::Click(input) => synthesize_click(input),
            Action::Sleep(ms) => {
                let mut effects: Vec<Effect> = Vec::new();
                effects.push(Effect::Sleep(*ms));
                proof {
                    assert(effects@ =~= seq![Effect::Sleep(*ms)]);
                }
                effects
            },
            Action::SetState(st) => {
                registry.set_state(st.name.as_str(), st.value.as_str());
                Vec::new()
            },
            Action::Println(msg) => {
                let mut effects: Vec<Effect> = Vec::new();
                effects.push(Effect::Println(msg.clone()));
                proof {
                    assert(effects@ =~= seq![Effect::Println(*msg)]);
                }
                effects
            },
            Action::PrintState(name) => {
                let value = registry.get_state(name.as_str());
                let mut effects: Vec<Effect> = Vec::new();
                effects.push(Effect::PrintState(name.clone(), value));
                proof {
                    assert(effects@ =~= seq![
                        Effect::PrintState(*name, registry.state_entry(name@)),
                    ]);
                }
                effects
            },
        }
    }
}

/// Whether the named state currently holds `value`.
fn state_holds(registry: &Registry, name: &String, value: &String) -> (r: bool)
    ensures
        r == (registry.state_of(name@) == Some(value@)),
{
    match registry.get_state(name.as_str()) {
        Some(current) => current == *value,
        None => false,
    }
}

/// The synthesis effects of a press of one input: its keys in order,
/// then its buttons in order.
#[verifier::loop_isolation(false)]
fn synthesize_press(input: &Input) -> (effects: Vec<Effect>)
    ensures
        effects@ == press_effects(*input),
{
    let mut effects: Vec<Effect> = Vec::new();
    if let Some(ks) = &input.key {
        let mut i: usize = 0;
        while i < ks.len()
            invariant
                0 <= i <= ks@.len(),
                effects@.len() == i,
                forall|m: int| 0 <= m < i ==> effects@[m] == Effect::KeyPress(ks@[m]),
            decreases ks@.len() - i,
        {
            effects.push(Effect::KeyPress(ks[i]));
            i = i + 1;
        }
        proof {
            assert(effects@ =~= ks@.map_values(|k: Keyboard| Effect::KeyPress(k)));
        }
    }
    let ghost after_keys = effects@;
    if let Some(bs) = &input.button {
        let mut i: usize = 0;
        while i < bs.len()
            invariant
                0 <= i <= bs@.len(),
                effects@.len() == after_keys.len() + i,
                forall|m: int| 0 <= m < after_keys.len() ==> effects@[m] == after_keys[m],
                forall|m: int| after_keys.len() <= m < effects@.len() ==> effects@[m]
                    == Effect::ButtonPress(bs@[m - after_keys.len()]),
            decreases bs@.len() - i,
        {
            effects.push(Effect::ButtonPress(bs[i]));
            i = i + 1;
        }
        proof {
            assert(effects@ =~= after_keys + bs@.map_values(|b: Mouse| Effect::ButtonPress(b)));
        }
    } else {
        proof {
            assert(after_keys + Seq::<Effect>::empty() =~= after_keys);
        }
    }
    proof {
        assert(effects@ =~= press_effects(*input));
    }
    effects
}

/// The synthesis effects of a release of one input: its keys in order,
/// then its buttons in order.
#[verifier::loop_isolation(false)]
fn synthesize_release(input: &Input) -> (effects: Vec<Effect>)
    ensures
        effects@ == release_effects(*input),
{
    let mut effects: Vec<Effect> = Vec::new();
    if let Some(ks) = &input.key {
        let mut i: usize = 0;
        while i < ks.len()
            invariant
                0 <= i <= ks@.len(),
                effects@.len() == i,
                forall|m: int| 0 <= m < i ==> effects@[m] == Effect::KeyRelease(ks@[m]),
            decreases ks@.len() - i,
        {
            effects.push(Effect::KeyRelease(ks[i]));
            i = i + 1;
        }
        proof {
            assert(effects@ =~= ks@.map_values(|k: Keyboard| Effect::KeyRelease(k)));
        }
    }
    let ghost after_keys = effects@;
    if let Some(bs) = &input.button {
        let mut i: usize = 0;
        while i < bs.len()
            invariant
                0 <= i <= bs@.len(),
                effects@.len() == after_keys.len() + i,
                forall|m: int| 0 <= m < after_keys.len() ==> effects@[m] == after_keys[m],
                forall|m: int| after_keys.len() <= m < effects@.len() ==> effects@[m]
                    == Effect::ButtonRelease(bs@[m - after_keys.len()]),
            decreases bs@.len() - i,
        {
            effects.push(Effect::ButtonRelease(bs[i]));
            i = i + 1;
        }
        proof {
            assert(effects@ =~= after_keys + bs@.map_values(|b: Mouse| Effect::ButtonRelease(b)));
        }
    } else {
        proof {
            assert(after_keys + Seq::<Effect>::empty() =~= after_keys);
        }
    }
    proof {
        assert(effects@ =~= release_effects(*input));
    }
    effects
}

/// The synthesis effects of a click of one input: its keys in order,
/// then its buttons in order.
#[verifier::loop_isolation(false)]
fn synthesize_click(input: &Input) -> (effects: Vec<Effect>)
    ensures
        effects@ == click_effects(*input),
{
    let mut effects: Vec<Effect> = Vec::new();
    if let Some(ks) = &input.key {
        let mut i: usize = 0;
        while i < ks.len()
            invariant
                0 <= i <= ks@.len(),
                effects@.len() == i,
                forall|m: int| 0 <= m < i ==> effects@[m] == Effect::KeyClick(ks@[m]),
            decreases ks@.len() - i,
        {
            effects.push(Effect::KeyClick(ks[i]));
            i = i + 1;
        }
        proof {
            assert(effects@ =~= ks@.map_values(|k: Keyboard| Effect::KeyClick(k)));
        }
    }
    let ghost after_keys = effects@;
    if let Some(bs) = &input.button {
        let mut i: usize = 0;
        while i < bs.len()
            invariant
                0 <= i <= bs@.len(),
                effects@.len() == after_keys.len() + i,
                forall|m: int| 0 <= m < after_keys.len() ==> effects@[m] == after_keys[m],
                forall|m: int| after_keys.len() <= m < effects@.len() ==> effects@[m]
                    == Effect::ButtonClick(bs@[m - after_keys.len()]),
            decreases bs@.len() - i,
        {
            effects.push(Effect::ButtonClick(bs[i]));
            i = i + 1;
        }
        proof {
            assert(effects@ =~= after_keys + bs@.map_values(|b: Mouse| Effect::ButtonClick(b)));
        }
    } else {
        proof {
            assert(after_keys + Seq::<Effect>::empty() =~= after_keys);
        }
    }
    proof {
        assert(effects@ =~= click_effects(*input));
    }
    effects
}

} // verus!

verus! {

/// A running state loop keeps its cadence: while the named state still
/// matches, one step re-queues the loop itself beneath its body, so the
/// body runs once and the condition is re-read before every further
/// round.
pub proof fn lemma_while_runs_once_per_check(
    pre_stack: Seq<Action>,
    pre: Registry,
    post_stack: Seq<Action>,
    post: Registry,
    effects: Seq<Effect>,
)
    requires
        step_spec(pre_stack, pre, post_stack, post, effects),
        pre_stack.last() matches Action::WhileStateMatches(sm) && pre.state_of(sm.name@) == Some(
            sm.value@,
        ),
    ensures
        pre_stack.last() matches Action::WhileStateMatches(sm) ==> post_stack
            == pre_stack.drop_last() + seq![pre_stack.last()] + sm.action@.reverse(),
        effects.len() == 0,
        post == pre,
{
}

/// A state loop stops within one recheck of its condition failing: once
/// the named state no longer matches — whoever changed it, and however
/// long the body ran — the next step drops the loop and emits nothing
/// further.
pub proof fn lemma_while_stops_on_mismatch(
    pre_stack: Seq<Action>,
    pre: Registry,
    post_stack: Seq<Action>,
    post: Registry,
    effects: Seq<Effect>,
)
    requires
        step_spec(pre_stack, pre, post_stack, post, effects),
        pre_stack.last() matches Action::WhileStateMatches(sm) && pre.state_of(sm.name@) != Some(
            sm.value@,
        ),
    ensures
        post_stack == pre_stack.drop_last(),
        effects.len() == 0,
        post == pre,
{
}

/// A state check against a name that was never set evaluates its branch
/// as false, never as an error: the machine drops the guarded actions,
/// emits nothing, and leaves the registry untouched.
pub proof fn lemma_state_matches_unset(
    pre_stack: Seq<Action>,
    pre: Registry,
    post_stack: Seq<Action>,
    post: Registry,
    effects: Seq<Effect>,
)
    requires
        step_spec(pre_stack, pre, post_stack, post, effects),
        pre_stack.last() matches Action::StateMatches(sm) && pre.state_of(sm.name@) is None,
    ensures
        post_stack == pre_stack.drop_last(),
        effects.len() == 0,
        post == pre,
{
}

} // verus!
