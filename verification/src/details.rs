//! The dispatch core's shared state.
//!
//! `Pressed` is the ordered record of currently-down inputs; `Registry`
//! aggregates it with the binding tables, the hotkey table, the named
//! string state, and the queue of the ordered worker.

use vstd::prelude::*;

use crate::action::Event;
use crate::keyboard::Keyboard;

verus! {

/// The keys among a sequence of events, in order.
pub open spec fn keys_of(s: Seq<Event>) -> Seq<Keyboard>
    decreases s.len(),
{
    if s.len() == 0 {
        Seq::<Keyboard>::empty()
    } else {
        let rest = keys_of(s.drop_first());
        match s[0] {
            Event::Keyboard(k) => seq![k] + rest,
            Event::Mouse(_) => rest,
        }
    }
}

/// `s` with its first occurrence of `x` removed; `s` itself if `x` does not
/// occur.
pub open spec fn remove_first<A>(s: Seq<A>, x: A) -> Seq<A>
    decreases s.len(),
{
    if s.len() == 0 {
        s
    } else if s[0] == x {
        s.drop_first()
    } else {
        seq![s[0]] + remove_first(s.drop_first(), x)
    }
}

/// `s` extended by `e` at the end, unless `e` is already present.
pub open spec fn down_insert(s: Seq<Event>, e: Event) -> Seq<Event> {
    if s.contains(e) {
        s
    } else {
        s.push(e)
    }
}

/// The keys of a one-event sequence.
pub proof fn lemma_keys_of_singleton(e: Event)
    ensures
        keys_of(seq![e]) == match e {
            Event::Keyboard(k) => seq![k],
            Event::Mouse(_) => Seq::<Keyboard>::empty(),
        },
{
    let s = seq![e];
    assert(s.len() == 1);
    assert(s[0] == e);
    assert(s.drop_first() =~= Seq::<Event>::empty());
    assert(keys_of(s.drop_first()) == Seq::<Keyboard>::empty());
    match e {
        Event::Keyboard(k) => {
            assert(keys_of(s) == seq![k] + Seq::<Keyboard>::empty());
            assert(seq![k] + Seq::<Keyboard>::empty() =~= seq![k]);
        },
        Event::Mouse(_) => {},
    }
}

/// `keys_of` distributes over concatenation.
pub proof fn lemma_keys_of_concat(a: Seq<Event>, b: Seq<Event>)
    ensures
        keys_of(a + b) == keys_of(a) + keys_of(b),
    decreases a.len(),
{
    if a.len() == 0 {
        assert(a + b =~= b);
        assert(keys_of(a) + keys_of(b) =~= keys_of(b));
    } else {
        lemma_keys_of_concat(a.drop_first(), b);
        assert((a + b).drop_first() =~= a.drop_first() + b);
        assert((a + b)[0] == a[0]);
        match a[0] {
            Event::Keyboard(k) => {
                assert(seq![k] + (keys_of(a.drop_first()) + keys_of(b)) =~= (seq![k]
                    + keys_of(a.drop_first())) + keys_of(b));
            },
            Event::Mouse(_) => {},
        }
    }
}

/// A key occurs among `keys_of(s)` exactly when its press event occurs in
/// `s`.
pub proof fn lemma_keys_of_contains(s: Seq<Event>, k: Keyboard)
    ensures
        keys_of(s).contains(k) <==> s.contains(Event::Keyboard(k)),
    decreases s.len(),
{
    if s.len() > 0 {
        let rest = s.drop_first();
        lemma_keys_of_contains(rest, k);
        if s.contains(Event::Keyboard(k)) {
            let i = choose|i: int| 0 <= i < s.len() && s[i] == Event::Keyboard(k);
            if i > 0 {
                assert(rest[i - 1] == Event::Keyboard(k));
                assert(rest.contains(Event::Keyboard(k)));
            }
        }
        if rest.contains(Event::Keyboard(k)) {
            let i = choose|i: int| 0 <= i < rest.len() && rest[i] == Event::Keyboard(k);
            assert(s[i + 1] == Event::Keyboard(k));
            assert(s.contains(Event::Keyboard(k)));
        }
        if s[0] == Event::Keyboard(k) {
            assert(s.contains(Event::Keyboard(k)));
        }
        match s[0] {
            Event::Keyboard(k0) => {
                let ks = keys_of(s);
                assert(ks == seq![k0] + keys_of(rest));
                assert(ks[0] == k0);
                if ks.contains(k) {
                    let i = choose|i: int| 0 <= i < ks.len() && ks[i] == k;
                    if i > 0 {
                        assert(keys_of(rest)[i - 1] == k);
                        assert(keys_of(rest).contains(k));
                    }
                }
                if keys_of(rest).contains(k) {
                    let i = choose|i: int| 0 <= i < keys_of(rest).len() && keys_of(rest)[i] == k;
                    assert(ks[i + 1] == k);
                    assert(ks.contains(k));
                }
                if k0 == k {
                    assert(ks.contains(k));
                }
            },
            Event::Mouse(_) => {},
        }
    }
}

/// Removing an event that does not occur leaves the sequence unchanged.
pub proof fn lemma_remove_first_absent<A>(s: Seq<A>, x: A)
    requires
        !s.contains(x),
    ensures
        remove_first(s, x) == s,
    decreases s.len(),
{
    if s.len() > 0 {
        assert(s[0] != x);
        assert(forall|i: int| 0 <= i < s.drop_first().len() ==> s.drop_first()[i] == s[i + 1]);
        lemma_remove_first_absent(s.drop_first(), x);
        assert(seq![s[0]] + s.drop_first() =~= s);
    }
}

/// If the first occurrence of `x` in `s` is at `i`, then `remove_first`
/// removes exactly the element at `i`.
pub proof fn lemma_remove_first_at<A>(s: Seq<A>, x: A, i: int)
    requires
        0 <= i < s.len(),
        s[i] == x,
        forall|j: int| 0 <= j < i ==> s[j] != x,
    ensures
        remove_first(s, x) == s.remove(i),
    decreases i,
{
    if i == 0 {
        assert(remove_first(s, x) == s.drop_first());
        assert(s.drop_first() =~= s.remove(0));
    } else {
        assert(s[0] != x);
        assert(forall|j: int| 0 <= j < i - 1 ==> s.drop_first()[j] == s[j + 1]);
        assert(s.drop_first()[i - 1] == s[i]);
        lemma_remove_first_at(s.drop_first(), x, i - 1);
        assert(seq![s[0]] + s.drop_first().remove(i - 1) =~= s.remove(i));
    }
}

/// Removing one element preserves distinctness.
pub proof fn lemma_remove_no_duplicates<A>(s: Seq<A>, i: int)
    requires
        s.no_duplicates(),
        0 <= i < s.len(),
    ensures
        s.remove(i).no_duplicates(),
{
    let r = s.remove(i);
    assert forall|p: int, q: int| 0 <= p < q < r.len() implies r[p] != r[q] by {
        let sp: int = if p < i { p } else { p + 1 };
        let sq: int = if q < i { q } else { q + 1 };
        assert(r[p] == s[sp]);
        assert(r[q] == s[sq]);
    }
}

/// Removing a key press keeps `keys_of` in step: the first occurrence of
/// the key leaves the key list, and removing a button leaves it untouched.
pub proof fn lemma_keys_of_remove_first(s: Seq<Event>, e: Event)
    ensures
        keys_of(remove_first(s, e)) == match e {
            Event::Keyboard(k) => remove_first(keys_of(s), k),
            Event::Mouse(_) => keys_of(s),
        },
    decreases s.len(),
{
    if s.len() == 0 {
        return;
    }
    let rest = s.drop_first();
    if s[0] == e {
        match e {
            Event::Keyboard(k) => {
                assert(keys_of(s) == seq![k] + keys_of(rest));
                assert((seq![k] + keys_of(rest))[0] == k);
                assert((seq![k] + keys_of(rest)).drop_first() =~= keys_of(rest));
            },
            Event::Mouse(_) => {},
        }
    } else {
        lemma_keys_of_remove_first(rest, e);
        lemma_keys_of_concat(seq![s[0]], remove_first(rest, e));
        lemma_keys_of_singleton(s[0]);
        match s[0] {
            Event::Keyboard(k0) => {
                match e {
                    Event::Keyboard(k) => {
                        assert(k0 != k);
                        assert(keys_of(s) == seq![k0] + keys_of(rest));
                        assert((seq![k0] + keys_of(rest))[0] == k0);
                        assert((seq![k0] + keys_of(rest)).drop_first() =~= keys_of(rest));
                    },
                    Event::Mouse(_) => {
                        assert(keys_of(s) == seq![k0] + keys_of(rest));
                    },
                }
            },
            Event::Mouse(_) => {
                assert(Seq::<Keyboard>::empty() + keys_of(remove_first(rest, e)) =~= keys_of(
                    remove_first(rest, e),
                ));
            },
        }
    }
}

/// The ordered record of currently-down inputs.
///
/// Events appear at most once, in the order their presses arrived; the key
/// list mirrors the keyboard events among them, in the same order, so that
/// hotkey sequences can be compared against it directly.
pub struct Pressed {
    pressed: Vec<Event>,
    pressed_keys: Vec<Keyboard>,
}

impl View for Pressed {
    type V = Seq<Event>;

    closed spec fn view(&self) -> Seq<Event> {
        self.pressed@
    }
}

impl Pressed {
    /// The currently-down keys, in press order.
    pub open spec fn keys(self) -> Seq<Keyboard> {
        keys_of(self@)
    }

    /// The record never holds an event twice, and the key list mirrors the
    /// keyboard events.
    pub closed spec fn wf(self) -> bool {
        self.pressed@.no_duplicates() && self.pressed_keys@ == keys_of(self.pressed@)
    }

    /// An empty record.
    pub fn new() -> (r: Pressed)
        ensures
            r.wf(),
            r@ == Seq::<Event>::empty(),
    {
        Pressed { pressed: Vec::new(), pressed_keys: Vec::new() }
    }

    /// Whether `event` is currently recorded as down.
    #[verifier::loop_isolation(false)]
    pub fn is_pressed(&self, event: Event) -> (r: bool)
        ensures
            r == self@.contains(event),
    {
        let mut i: usize = 0;
        while i < self.pressed.len()
            invariant
                0 <= i <= self.pressed@.len(),
                forall|j: int| 0 <= j < i ==> self.pressed@[j] != event,
            decreases self.pressed@.len() - i,
        {
            if self.pressed[i] == event {
                return true;
            }
            i = i + 1;
        }
        false
    }

    /// Whether the currently-down keys are exactly `keys`, element for
    /// element in press order.  Order matters intentionally: pressing A
    /// then B is a different combination from B then A.
    #[verifier::loop_isolation(false)]
    pub fn are_pressed(&self, keys: &Vec<Keyboard>) -> (r: bool)
        requires
            self.wf(),
        ensures
            r == (self.keys() == keys@),
    {
        if self.pressed_keys.len() != keys.len() {
            return false;
        }
        let mut i: usize = 0;
        while i < keys.len()
            invariant
                0 <= i <= keys@.len(),
                forall|j: int| 0 <= j < i ==> self.pressed_keys@[j] == keys@[j],
            decreases keys@.len() - i,
        {
            if self.pressed_keys[i] != keys[i] {
                return false;
            }
            i = i + 1;
        }
        proof {
            assert(self.pressed_keys@ =~= keys@);
        }
        true
    }

    /// Record a press.  A duplicate press of an input that is already down
    /// (hardware auto-repeat, or a missed release) leaves the record
    /// unchanged.
    pub fn pressed(&mut self, event: Event)
        requires
            old(self).wf(),
        ensures
            final(self).wf(),
            final(self)@ == down_insert(old(self)@, event),
    {
        if !self.is_pressed(event) {
            proof {
                lemma_keys_of_concat(self.pressed@, seq![event]);
                lemma_keys_of_singleton(event);
                assert(self.pressed@ + seq![event] =~= self.pressed@.push(event));
            }
            self.pressed.push(event);
            match event {
                Event::Keyboard(key) => {
                    self.pressed_keys.push(key);
                    proof {
                        assert(self.pressed_keys@ =~= keys_of(self.pressed@));
                    }
                },
                Event::Mouse(_) => {
                    proof {
                        assert(keys_of(self.pressed@) =~= self.pressed_keys@);
                    }
                },
            }
        }
    }

    /// Record a release.  A release of an input that is not recorded as
    /// down signals that the hook and the record have desynchronized; the
    /// record self-heals by treating it as a no-op rather than failing.
    #[verifier::loop_isolation(false)]
    pub fn released(&mut self, event: Event)
        requires
            old(self).wf(),
        ensures
            final(self).wf(),
            final(self)@ == remove_first(old(self)@, event),
    {
        let ghost s = self.pressed@;
        let mut i: usize = 0;
        while i < self.pressed.len() && self.pressed[i] != event
            invariant
                0 <= i <= s.len(),
                self.pressed@ == s,
                forall|j: int| 0 <= j < i ==> s[j] != event,
            decreases s.len() - i,
        {
            i = i + 1;
        }
        if i >= self.pressed.len() {
            proof {
                assert(!s.contains(event));
                lemma_remove_first_absent(s, event);
            }
            return;
        }
        proof {
            lemma_remove_first_at(s, event, i as int);
            lemma_remove_no_duplicates(s, i as int);
            lemma_keys_of_remove_first(s, event);
        }
        self.pressed.remove(i);
        match event {
            Event::Keyboard(key) => {
                let ghost ks = self.pressed_keys@;
                proof {
                    lemma_keys_of_contains(s, key);
                    assert(s.contains(event)) by {
                        assert(s[i as int] == event);
                    }
                    assert(ks.contains(key));
                }
                let mut j: usize = 0;
                while j < self.pressed_keys.len() && self.pressed_keys[j] != key
                    invariant
                        0 <= j <= ks.len(),
                        self.pressed_keys@ == ks,
                        forall|m: int| 0 <= m < j ==> ks[m] != key,
                    decreases ks.len() - j,
                {
                    j = j + 1;
                }
                if j < self.pressed_keys.len() {
                    proof {
                        lemma_remove_first_at(ks, key, j as int);
                    }
                    self.pressed_keys.remove(j);
                } else {
                    proof {
                        let w = choose|w: int| 0 <= w < ks.len() && ks[w] == key;
                        assert(false);
                    }
                }
            },
            Event::Mouse(_) => {},
        }
    }
}

impl Default for Pressed {
    /// An empty record.
    fn default() -> (r: Pressed)
        ensures
            r.wf(),
            r@ == Seq::<Event>::empty(),
    {
        Pressed::new()
    }
}

} // verus!

use crate::action::Action;
use crate::action::Callback;
use crate::action::InhibitEvent;
use crate::action::State;
use crate::mouse::Mouse;

verus! {

/// The value bound under the key whose projection (`kf`) equals `key`;
/// the latest binding wins.
pub open spec fn find_by<K, V, SK>(s: Seq<(K, V)>, kf: spec_fn(K) -> SK, key: SK) -> Option<V>
    decreases s.len(),
{
    if s.len() == 0 {
        None
    } else if kf(s.last().0) == key {
        Some(s.last().1)
    } else {
        find_by(s.drop_last(), kf, key)
    }
}

/// `s` without every entry whose key projects to `key`.
pub open spec fn remove_by<K, V, SK>(s: Seq<(K, V)>, kf: spec_fn(K) -> SK, key: SK) -> Seq<(K, V)>
    decreases s.len(),
{
    if s.len() == 0 {
        s
    } else if kf(s.last().0) == key {
        remove_by(s.drop_last(), kf, key)
    } else {
        remove_by(s.drop_last(), kf, key).push(s.last())
    }
}

/// `s` with `p` bound instead of whatever its key was bound to.
pub open spec fn set_by<K, V, SK>(s: Seq<(K, V)>, kf: spec_fn(K) -> SK, p: (K, V)) -> Seq<(K, V)> {
    remove_by(s, kf, kf(p.0)).push(p)
}

/// Looking a key up after removing another key: removal of `key` erases
/// exactly the bindings of `key`.
pub proof fn lemma_find_remove_by<K, V, SK>(s: Seq<(K, V)>, kf: spec_fn(K) -> SK, key: SK, probe: SK)
    ensures
        find_by(remove_by(s, kf, key), kf, probe) == if probe == key {
            None::<V>
        } else {
            find_by(s, kf, probe)
        },
    decreases s.len(),
{
    if s.len() > 0 {
        lemma_find_remove_by(s.drop_last(), kf, key, probe);
        if kf(s.last().0) != key {
            let r = remove_by(s.drop_last(), kf, key).push(s.last());
            assert(r.last() == s.last());
            assert(r.drop_last() =~= remove_by(s.drop_last(), kf, key));
        }
    }
}

/// Looking a key up after binding `p`: the fresh binding wins, the rest is
/// untouched.
pub proof fn lemma_find_set_by<K, V, SK>(s: Seq<(K, V)>, kf: spec_fn(K) -> SK, p: (K, V), probe: SK)
    ensures
        find_by(set_by(s, kf, p), kf, probe) == if probe == kf(p.0) {
            Some(p.1)
        } else {
            find_by(s, kf, probe)
        },
{
    let r = remove_by(s, kf, kf(p.0)).push(p);
    assert(r.last() == p);
    assert(r.drop_last() =~= remove_by(s, kf, kf(p.0)));
    lemma_find_remove_by(s, kf, kf(p.0), probe);
}

} // verus!

verus! {

/// One notification for one user handler: which callback to run, and with
/// what.
#[derive(Copy, Clone, PartialEq, Eq, Structural, Debug)]
pub struct Invocation {
    pub callback: Callback,
    pub event: Event,
    pub state: State,
}

/// A handler run the embedding must perform: on the calling thread when
/// `deferred` is false, on a fresh worker when it is true.
#[derive(Copy, Clone, PartialEq, Eq, Structural, Debug)]
pub struct Dispatch {
    pub invocation: Invocation,
    pub deferred: bool,
}

/// Everything one notification asks the embedding to do.  Invocations of
/// sequenced actions are not listed here: they are placed on the ordered
/// worker's queue inside the registry instead.
#[derive(Clone, PartialEq, Eq, Debug)]
pub struct DispatchPlan {
    /// Tokens of the hotkey callbacks to fire, each on a fresh worker.
    pub fired_hotkeys: Vec<u64>,
    /// Handler runs for the fallback and the exact-match binding, in that
    /// order.
    pub runs: Vec<Dispatch>,
    /// Whether the hook should suppress the event; the exact-match binding
    /// overrides the fallback.
    pub inhibit: InhibitEvent,
}

/// The key projection of the key-binding table: the key itself.
pub open spec fn key_id() -> spec_fn(Keyboard) -> Keyboard {
    |k: Keyboard| k
}

/// The key projection for the button table.
pub open spec fn button_id() -> spec_fn(Mouse) -> Mouse {
    |b: Mouse| b
}

/// The key projection for the hotkey table: a sequence is addressed by its
/// keys.
pub open spec fn hotkey_id() -> spec_fn(Vec<Keyboard>) -> Seq<Keyboard> {
    |ks: Vec<Keyboard>| ks@
}

/// The key projection for the named-state table: a name is addressed by its
/// characters.
pub open spec fn state_id() -> spec_fn(String) -> Seq<char> {
    |s: String| s@
}

/// The central dispatch table: per-event bindings, the any-key and
/// any-button fallbacks, the hotkey sequences, the ordered record of
/// pressed inputs, the named string state, and the queue of the ordered
/// worker.
pub struct Registry {
    key_callbacks: Vec<(Keyboard, Action)>,
    button_callbacks: Vec<(Mouse, Action)>,
    any_key_callback: Option<Action>,
    any_button_callback: Option<Action>,
    hotkeys: Vec<(Vec<Keyboard>, u64)>,
    pressed: Pressed,
    sequenced: Vec<Invocation>,
    state: Vec<(String, String)>,
    mouse_tracking_callback: Option<u64>,
    debug_enabled: bool,
}

impl Registry {
    /// The per-key binding table.
    pub closed spec fn key_bindings(self) -> Seq<(Keyboard, Action)> {
        self.key_callbacks@
    }

    /// The per-button binding table.
    pub closed spec fn button_bindings(self) -> Seq<(Mouse, Action)> {
        self.button_callbacks@
    }

    /// The any-key fallback binding.
    pub closed spec fn any_key_binding(self) -> Option<Action> {
        self.any_key_callback
    }

    /// The any-button fallback binding.
    pub closed spec fn any_button_binding(self) -> Option<Action> {
        self.any_button_callback
    }

    /// The hotkey table.
    pub closed spec fn hotkey_bindings(self) -> Seq<(Vec<Keyboard>, u64)> {
        self.hotkeys@
    }

    /// The ordered record of currently-down events.
    pub closed spec fn pressed_events(self) -> Seq<Event> {
        self.pressed@
    }

    /// The currently-down keys, in press order.
    pub open spec fn pressed_keys(self) -> Seq<Keyboard> {
        keys_of(self.pressed_events())
    }

    /// The queue of the ordered worker, oldest first.
    pub closed spec fn queue(self) -> Seq<Invocation> {
        self.sequenced@
    }

    /// The named-state table.
    pub closed spec fn state_entries(self) -> Seq<(String, String)> {
        self.state@
    }

    /// The pointer-tracking callback token, when tracking is enabled.
    pub closed spec fn tracker(self) -> Option<u64> {
        self.mouse_tracking_callback
    }

    /// Whether verbose diagnostics were requested.
    pub closed spec fn debug(self) -> bool {
        self.debug_enabled
    }

    /// The action bound exactly to key `k`.
    pub open spec fn key_action_of(self, k: Keyboard) -> Option<Action> {
        find_by(self.key_bindings(), key_id(), k)
    }

    /// The action bound exactly to button `b`.
    pub open spec fn button_action_of(self, b: Mouse) -> Option<Action> {
        find_by(self.button_bindings(), button_id(), b)
    }

    /// The callback token registered for the hotkey sequence `ks`.
    pub open spec fn hotkey_of(self, ks: Seq<Keyboard>) -> Option<u64> {
        find_by(self.hotkey_bindings(), hotkey_id(), ks)
    }

    /// The stored value of state entry `name`.
    pub open spec fn state_entry(self, name: Seq<char>) -> Option<String> {
        find_by(self.state_entries(), state_id(), name)
    }

    /// The characters of state entry `name`.
    pub open spec fn state_of(self, name: Seq<char>) -> Option<Seq<char>> {
        match self.state_entry(name) {
            Some(v) => Some(v@),
            None => None,
        }
    }

    /// The pressed record is well formed, and each table holds at most
    /// one entry per key, as a map does.
    pub closed spec fn wf(self) -> bool {
        &&& self.pressed.wf()
        &&& distinct_by(self.key_callbacks@, key_id())
        &&& distinct_by(self.button_callbacks@, button_id())
        &&& distinct_by(self.hotkeys@, hotkey_id())
        &&& distinct_by(self.state@, state_id())
    }

    /// The exact-match and fallback binding tables of `a` and `b` agree.
    pub open spec fn bindings_unchanged(a: Registry, b: Registry) -> bool {
        &&& a.key_bindings() == b.key_bindings()
        &&& a.button_bindings() == b.button_bindings()
        &&& a.any_key_binding() == b.any_key_binding()
        &&& a.any_button_binding() == b.any_button_binding()
    }

    /// The hotkey tables of `a` and `b` agree.
    pub open spec fn hotkeys_unchanged(a: Registry, b: Registry) -> bool {
        a.hotkey_bindings() == b.hotkey_bindings()
    }

    /// The named-state tables of `a` and `b` agree.
    pub open spec fn state_unchanged(a: Registry, b: Registry) -> bool {
        a.state_entries() == b.state_entries()
    }

    /// The pressed records of `a` and `b` agree.
    pub open spec fn pressed_unchanged(a: Registry, b: Registry) -> bool {
        a.pressed_events() == b.pressed_events()
    }

    /// The worker queues of `a` and `b` agree.
    pub open spec fn queue_unchanged(a: Registry, b: Registry) -> bool {
        a.queue() == b.queue()
    }

    /// The tracking and diagnostic settings of `a` and `b` agree.
    pub open spec fn settings_unchanged(a: Registry, b: Registry) -> bool {
        a.tracker() == b.tracker() && a.debug() == b.debug()
    }

    /// A fresh registry: nothing bound, nothing pressed, nothing queued.
    pub fn new() -> (r: Registry)
        ensures
            r.wf(),
            r.key_bindings() == Seq::<(Keyboard, Action)>::empty(),
            r.button_bindings() == Seq::<(Mouse, Action)>::empty(),
            r.any_key_binding() is None,
            r.any_button_binding() is None,
            r.hotkey_bindings() == Seq::<(Vec<Keyboard>, u64)>::empty(),
            r.pressed_events() == Seq::<Event>::empty(),
            r.queue() == Seq::<Invocation>::empty(),
            r.state_entries() == Seq::<(String, String)>::empty(),
            r.tracker() is None,
            !r.debug(),
    {
        Registry {
            key_callbacks: Vec::new(),
            button_callbacks: Vec::new(),
            any_key_callback: None,
            any_button_callback: None,
            hotkeys: Vec::new(),
            pressed: Pressed::new(),
            sequenced: Vec::new(),
            state: Vec::new(),
            mouse_tracking_callback: None,
            debug_enabled: false,
        }
    }

    /// Whether `event` is currently recorded as down.
    pub fn is_pressed(&self, event: Event) -> (r: bool)
        ensures
            r == self.pressed_events().contains(event),
    {
        self.pressed.is_pressed(event)
    }

    /// Whether the currently-down keys are exactly `keys`, in press order.
    pub fn are_pressed(&self, keys: &Vec<Keyboard>) -> (r: bool)
        requires
            self.wf(),
        ensures
            r == (self.pressed_keys() == keys@),
    {
        self.pressed.are_pressed(keys)
    }

    /// Whether pointer tracking is enabled.
    pub fn is_tracking_enabled(&self) -> (r: bool)
        ensures
            r == (self.tracker() is Some),
    {
        matches!(self.mouse_tracking_callback, Some(_))
    }

    /// Install or remove the pointer-tracking callback.
    pub fn set_mouse_tracker(&mut self, action: Option<u64>)
        ensures
            final(self).tracker() == action,
            final(self).debug() == old(self).debug(),
            old(self).wf() ==> final(self).wf(),
            Self::bindings_unchanged(*old(self), *final(self)),
            Self::hotkeys_unchanged(*old(self), *final(self)),
            Self::state_unchanged(*old(self), *final(self)),
            Self::pressed_unchanged(*old(self), *final(self)),
            Self::queue_unchanged(*old(self), *final(self)),
    {
        self.mouse_tracking_callback = action;
    }

    /// The tracking call the embedding must make for a pointer move, if
    /// tracking is enabled: the callback token and the coordinates.
    pub fn update_mouse_position(&self, x: i32, y: i32) -> (r: Option<(u64, i32, i32)>)
        ensures
            r == match self.tracker() {
                Some(t) => Some((t, x, y)),
                None => None::<(u64, i32, i32)>,
            },
    {
        match self.mouse_tracking_callback {
            Some(t) => Some((t, x, y)),
            None => None,
        }
    }

    /// Request verbose diagnostics.
    pub fn enable_debug(&mut self)
        ensures
            final(self).debug(),
            final(self).tracker() == old(self).tracker(),
            old(self).wf() ==> final(self).wf(),
            Self::bindings_unchanged(*old(self), *final(self)),
            Self::hotkeys_unchanged(*old(self), *final(self)),
            Self::state_unchanged(*old(self), *final(self)),
            Self::pressed_unchanged(*old(self), *final(self)),
            Self::queue_unchanged(*old(self), *final(self)),
    {
        self.debug_enabled = true;
    }
}

} // verus!

verus! {

/// Whether two key sequences hold the same keys in the same order.
fn keys_equal(a: &Vec<Keyboard>, b: &Vec<Keyboard>) -> (r: bool)
    ensures
        r == (a@ == b@),
{
    if a.len() != b.len() {
        return false;
    }
    let mut i: usize = 0;
    while i < a.len()
        invariant
            0 <= i <= a@.len(),
            a@.len() == b@.len(),
            forall|j: int| 0 <= j < i ==> a@[j] == b@[j],
        decreases a@.len() - i,
    {
        if a[i] != b[i] {
            return false;
        }
        i = i + 1;
    }
    proof {
        assert(a@ =~= b@);
    }
    true
}

impl Registry {
    /// Bind `action` exactly to `key`, replacing any earlier binding.
    #[verifier::loop_isolation(false)]
    pub fn bind_key(&mut self, key: Keyboard, action: Action)
        ensures
            final(self).key_bindings() == set_by(old(self).key_bindings(), key_id(), (key, action)),
            forall|probe: Keyboard| #[trigger] final(self).key_action_of(probe) == if probe == key {
                Some(action)
            } else {
                old(self).key_action_of(probe)
            },
            final(self).button_bindings() == old(self).button_bindings(),
            final(self).any_key_binding() == old(self).any_key_binding(),
            final(self).any_button_binding() == old(self).any_button_binding(),
            old(self).wf() ==> final(self).wf(),
            Self::hotkeys_unchanged(*old(self), *final(self)),
            Self::state_unchanged(*old(self), *final(self)),
            Self::pressed_unchanged(*old(self), *final(self)),
            Self::queue_unchanged(*old(self), *final(self)),
            Self::settings_unchanged(*old(self), *final(self)),
    {
        let ghost orig = self.key_callbacks@;
        let mut kept: Vec<(Keyboard, Action)> = Vec::new();
        let mut i: usize = 0;
        while i < self.key_callbacks.len()
            invariant
                0 <= i <= orig.len(),
                self.key_callbacks@ == orig,
                kept@ == remove_by(orig.subrange(0, i as int), key_id(), key),
            decreases orig.len() - i,
        {
            proof {
                assert(orig.subrange(0, i + 1).drop_last() =~= orig.subrange(0, i as int));
                assert(orig.subrange(0, i + 1).last() == orig[i as int]);
            }
            let p = self.key_callbacks[i];
            if p.0 != key {
                kept.push(p);
            }
            i = i + 1;
        }
        proof {
            assert(orig.subrange(0, orig.len() as int) =~= orig);
        }
        kept.push((key, action));
        self.key_callbacks = kept;
        proof {
            assert forall|probe: Keyboard| #[trigger] self.key_action_of(probe) == (if probe == key {
                Some(action)
            } else {
                old(self).key_action_of(probe)
            }) by {
                lemma_find_set_by(orig, key_id(), (key, action), probe);
            }
            if old(self).wf() {
                lemma_set_by_distinct(orig, key_id(), (key, action));
            }
        }
    }

    /// Remove the exact-match binding of `key`, if any.
    #[verifier::loop_isolation(false)]
    pub fn remove_key_bind(&mut self, key: Keyboard)
        ensures
            final(self).key_bindings() == remove_by(old(self).key_bindings(), key_id(), key),
            forall|probe: Keyboard| #[trigger] final(self).key_action_of(probe) == if probe == key {
                None::<Action>
            } else {
                old(self).key_action_of(probe)
            },
            final(self).button_bindings() == old(self).button_bindings(),
            final(self).any_key_binding() == old(self).any_key_binding(),
            final(self).any_button_binding() == old(self).any_button_binding(),
            old(self).wf() ==> final(self).wf(),
            Self::hotkeys_unchanged(*old(self), *final(self)),
            Self::state_unchanged(*old(self), *final(self)),
            Self::pressed_unchanged(*old(self), *final(self)),
            Self::queue_unchanged(*old(self), *final(self)),
            Self::settings_unchanged(*old(self), *final(self)),
    {
        let ghost orig = self.key_callbacks@;
        let mut kept: Vec<(Keyboard, Action)> = Vec::new();
        let mut i: usize = 0;
        while i < self.key_callbacks.len()
            invariant
                0 <= i <= orig.len(),
                self.key_callbacks@ == orig,
                kept@ == remove_by(orig.subrange(0, i as int), key_id(), key),
            decreases orig.len() - i,
        {
            proof {
                assert(orig.subrange(0, i + 1).drop_last() =~= orig.subrange(0, i as int));
                assert(orig.subrange(0, i + 1).last() == orig[i as int]);
            }
            let p = self.key_callbacks[i];
            if p.0 != key {
                kept.push(p);
            }
            i = i + 1;
        }
        proof {
            assert(orig.subrange(0, orig.len() as int) =~= orig);
        }
        self.key_callbacks = kept;
        proof {
            assert forall|probe: Keyboard| #[trigger] self.key_action_of(probe) == (if probe == key {
                None::<Action>
            } else {
                old(self).key_action_of(probe)
            }) by {
                lemma_find_remove_by(orig, key_id(), key, probe);
            }
            if old(self).wf() {
                lemma_remove_by_distinct(orig, key_id(), key);
            }
        }
    }

    /// Bind `action` exactly to `button`, replacing any earlier binding.
    #[verifier::loop_isolation(false)]
    pub fn bind_button(&mut self, button: Mouse, action: Action)
        ensures
            final(self).button_bindings() == set_by(
                old(self).button_bindings(),
                button_id(),
                (button, action),
            ),
            forall|probe: Mouse| #[trigger] final(self).button_action_of(probe) == if probe == button {
                Some(action)
            } else {
                old(self).button_action_of(probe)
            },
            final(self).key_bindings() == old(self).key_bindings(),
            final(self).any_key_binding() == old(self).any_key_binding(),
            final(self).any_button_binding() == old(self).any_button_binding(),
            old(self).wf() ==> final(self).wf(),
            Self::hotkeys_unchanged(*old(self), *final(self)),
            Self::state_unchanged(*old(self), *final(self)),
            Self::pressed_unchanged(*old(self), *final(self)),
            Self::queue_unchanged(*old(self), *final(self)),
            Self::settings_unchanged(*old(self), *final(self)),
    {
        let ghost orig = self.button_callbacks@;
        let mut kept: Vec<(Mouse, Action)> = Vec::new();
        let mut i: usize = 0;
        while i < self.button_callbacks.len()
            invariant
                0 <= i <= orig.len(),
                self.button_callbacks@ == orig,
                kept@ == remove_by(orig.subrange(0, i as int), button_id(), button),
            decreases orig.len() - i,
        {
            proof {
                assert(orig.subrange(0, i + 1).drop_last() =~= orig.subrange(0, i as int));
                assert(orig.subrange(0, i + 1).last() == orig[i as int]);
            }
            let p = self.button_callbacks[i];
            if p.0 != button {
                kept.push(p);
            }
            i = i + 1;
        }
        proof {
            assert(orig.subrange(0, orig.len() as int) =~= orig);
        }
        kept.push((button, action));
        self.button_callbacks = kept;
        proof {
            assert forall|probe: Mouse| #[trigger] self.button_action_of(probe) == (if probe == button {
                Some(action)
            } else {
                old(self).button_action_of(probe)
            }) by {
                lemma_find_set_by(orig, button_id(), (button, action), probe);
            }
            if old(self).wf() {
                lemma_set_by_distinct(orig, button_id(), (button, action));
            }
        }
    }

    /// Remove the exact-match binding of `button`, if any.
    #[verifier::loop_isolation(false)]
    pub fn remove_button_bind(&mut self, button: Mouse)
        ensures
            final(self).button_bindings() == remove_by(
                old(self).button_bindings(),
                button_id(),
                button,
            ),
            forall|probe: Mouse| #[trigger] final(self).button_action_of(probe) == if probe == button {
                None::<Action>
            } else {
                old(self).button_action_of(probe)
            },
            final(self).key_bindings() == old(self).key_bindings(),
            final(self).any_key_binding() == old(self).any_key_binding(),
            final(self).any_button_binding() == old(self).any_button_binding(),
            old(self).wf() ==> final(self).wf(),
            Self::hotkeys_unchanged(*old(self), *final(self)),
            Self::state_unchanged(*old(self), *final(self)),
            Self::pressed_unchanged(*old(self), *final(self)),
            Self::queue_unchanged(*old(self), *final(self)),
            Self::settings_unchanged(*old(self), *final(self)),
    {
        let ghost orig = self.button_callbacks@;
        let mut kept: Vec<(Mouse, Action)> = Vec::new();
        let mut i: usize = 0;
        while i < self.button_callbacks.len()
            invariant
                0 <= i <= orig.len(),
                self.button_callbacks@ == orig,
                kept@ == remove_by(orig.subrange(0, i as int), button_id(), button),
            decreases orig.len() - i,
        {
            proof {
                assert(orig.subrange(0, i + 1).drop_last() =~= orig.subrange(0, i as int));
                assert(orig.subrange(0, i + 1).last() == orig[i as int]);
            }
            let p = self.button_callbacks[i];
            if p.0 != button {
                kept.push(p);
            }
            i = i + 1;
        }
        proof {
            assert(orig.subrange(0, orig.len() as int) =~= orig);
        }
        self.button_callbacks = kept;
        proof {
            assert forall|probe: Mouse| #[trigger] self.button_action_of(probe) == (if probe == button {
                None::<Action>
            } else {
                old(self).button_action_of(probe)
            }) by {
                lemma_find_remove_by(orig, button_id(), button, probe);
            }
            if old(self).wf() {
                lemma_remove_by_distinct(orig, button_id(), button);
            }
        }
    }

    /// Install the any-key fallback, replacing any earlier one.
    pub fn bind_any_key(&mut self, action: Action)
        ensures
            final(self).any_key_binding() == Some(action),
            final(self).any_button_binding() == old(self).any_button_binding(),
            final(self).key_bindings() == old(self).key_bindings(),
            final(self).button_bindings() == old(self).button_bindings(),
            old(self).wf() ==> final(self).wf(),
            Self::hotkeys_unchanged(*old(self), *final(self)),
            Self::state_unchanged(*old(self), *final(self)),
            Self::pressed_unchanged(*old(self), *final(self)),
            Self::queue_unchanged(*old(self), *final(self)),
            Self::settings_unchanged(*old(self), *final(self)),
    {
        self.any_key_callback = Some(action);
    }

    /// Remove the any-key fallback.
    pub fn remove_any_key_bind(&mut self)
        ensures
            final(self).any_key_binding() is None,
            final(self).any_button_binding() == old(self).any_button_binding(),
            final(self).key_bindings() == old(self).key_bindings(),
            final(self).button_bindings() == old(self).button_bindings(),
            old(self).wf() ==> final(self).wf(),
            Self::hotkeys_unchanged(*old(self), *final(self)),
            Self::state_unchanged(*old(self), *final(self)),
            Self::pressed_unchanged(*old(self), *final(self)),
            Self::queue_unchanged(*old(self), *final(self)),
            Self::settings_unchanged(*old(self), *final(self)),
    {
        self.any_key_callback = None;
    }

    /// Install the any-button fallback, replacing any earlier one.
    pub fn bind_any_button(&mut self, action: Action)
        ensures
            final(self).any_button_binding() == Some(action),
            final(self).any_key_binding() == old(self).any_key_binding(),
            final(self).key_bindings() == old(self).key_bindings(),
            final(self).button_bindings() == old(self).button_bindings(),
            old(self).wf() ==> final(self).wf(),
            Self::hotkeys_unchanged(*old(self), *final(self)),
            Self::state_unchanged(*old(self), *final(self)),
            Self::pressed_unchanged(*old(self), *final(self)),
            Self::queue_unchanged(*old(self), *final(self)),
            Self::settings_unchanged(*old(self), *final(self)),
    {
        self.any_button_callback = Some(action);
    }

    /// Remove the any-button fallback.
    pub fn remove_any_button_bind(&mut self)
        ensures
            final(self).any_button_binding() is None,
            final(self).any_key_binding() == old(self).any_key_binding(),
            final(self).key_bindings() == old(self).key_bindings(),
            final(self).button_bindings() == old(self).button_bindings(),
            old(self).wf() ==> final(self).wf(),
            Self::hotkeys_unchanged(*old(self), *final(self)),
            Self::state_unchanged(*old(self), *final(self)),
            Self::pressed_unchanged(*old(self), *final(self)),
            Self::queue_unchanged(*old(self), *final(self)),
            Self::settings_unchanged(*old(self), *final(self)),
    {
        self.any_button_callback = None;
    }
}

} // verus!

verus! {

impl Registry {
    /// Register `token` as the callback of the hotkey `sequence`,
    /// replacing any earlier registration of the same sequence.  The
    /// callback fires once per press of the sequence's last key while the
    /// whole sequence is pressed in order.
    #[verifier::loop_isolation(false)]
    pub fn register_hotkey(&mut self, sequence: Vec<Keyboard>, token: u64)
        requires
            sequence@.len() > 0,
        ensures
            final(self).hotkey_bindings() == set_by(
                old(self).hotkey_bindings(),
                hotkey_id(),
                (sequence, token),
            ),
            forall|probe: Seq<Keyboard>| #[trigger] final(self).hotkey_of(probe) == if probe
                == sequence@ {
                Some(token)
            } else {
                old(self).hotkey_of(probe)
            },
            old(self).wf() ==> final(self).wf(),
            Self::bindings_unchanged(*old(self), *final(self)),
            Self::state_unchanged(*old(self), *final(self)),
            Self::pressed_unchanged(*old(self), *final(self)),
            Self::queue_unchanged(*old(self), *final(self)),
            Self::settings_unchanged(*old(self), *final(self)),
    {
        let ghost orig = self.hotkeys@;
        self.drop_hotkey_entries(&sequence);
        self.hotkeys.push((sequence, token));
        proof {
            let sv = self.hotkeys@.last().0@;
            assert forall|probe: Seq<Keyboard>| #[trigger] self.hotkey_of(probe) == (if probe == sv {
                Some(token)
            } else {
                find_by(orig, hotkey_id(), probe)
            }) by {
                assert(self.hotkeys@.drop_last() =~= remove_by(orig, hotkey_id(), sv));
                lemma_find_remove_by(orig, hotkey_id(), sv, probe);
            }
            if old(self).wf() {
                lemma_set_by_distinct(orig, hotkey_id(), (self.hotkeys@.last().0, token));
                assert(self.hotkeys@ =~= set_by(orig, hotkey_id(), (self.hotkeys@.last().0, token)));
            }
        }
    }

    /// Remove the registration of the hotkey `sequence`, if any.
    pub fn unregister_hotkey(&mut self, sequence: &Vec<Keyboard>)
        ensures
            final(self).hotkey_bindings() == remove_by(
                old(self).hotkey_bindings(),
                hotkey_id(),
                sequence@,
            ),
            forall|probe: Seq<Keyboard>| #[trigger] final(self).hotkey_of(probe) == if probe
                == sequence@ {
                None::<u64>
            } else {
                old(self).hotkey_of(probe)
            },
            old(self).wf() ==> final(self).wf(),
            Self::bindings_unchanged(*old(self), *final(self)),
            Self::state_unchanged(*old(self), *final(self)),
            Self::pressed_unchanged(*old(self), *final(self)),
            Self::queue_unchanged(*old(self), *final(self)),
            Self::settings_unchanged(*old(self), *final(self)),
    {
        let ghost orig = self.hotkeys@;
        self.drop_hotkey_entries(sequence);
        proof {
            assert forall|probe: Seq<Keyboard>| #[trigger] self.hotkey_of(probe) == (if probe
                == sequence@ {
                None::<u64>
            } else {
                find_by(orig, hotkey_id(), probe)
            }) by {
                lemma_find_remove_by(orig, hotkey_id(), sequence@, probe);
            }
            if old(self).wf() {
                lemma_remove_by_distinct(orig, hotkey_id(), sequence@);
            }
        }
    }

    /// Remove every hotkey entry registered under `sequence`, in place.
    #[verifier::loop_isolation(false)]
    fn drop_hotkey_entries(&mut self, sequence: &Vec<Keyboard>)
        ensures
            final(self).hotkeys@ == remove_by(old(self).hotkeys@, hotkey_id(), sequence@),
            final(self).key_callbacks == old(self).key_callbacks,
            final(self).button_callbacks == old(self).button_callbacks,
            final(self).any_key_callback == old(self).any_key_callback,
            final(self).any_button_callback == old(self).any_button_callback,
            final(self).pressed == old(self).pressed,
            final(self).sequenced == old(self).sequenced,
            final(self).state == old(self).state,
            final(self).mouse_tracking_callback == old(self).mouse_tracking_callback,
            final(self).debug_enabled == old(self).debug_enabled,
    {
        let ghost orig = self.hotkeys@;
        let ghost target = sequence@;
        let mut i: usize = 0;
        let ghost mut j: int = 0;
        while i < self.hotkeys.len()
            invariant
                0 <= j <= orig.len(),
                i as int == remove_by(orig.subrange(0, j), hotkey_id(), target).len(),
                self.hotkeys@ == remove_by(orig.subrange(0, j), hotkey_id(), target)
                    + orig.subrange(j, orig.len() as int),
                self.key_callbacks == old(self).key_callbacks,
                self.button_callbacks == old(self).button_callbacks,
                self.any_key_callback == old(self).any_key_callback,
                self.any_button_callback == old(self).any_button_callback,
                self.pressed == old(self).pressed,
                self.sequenced == old(self).sequenced,
                self.state == old(self).state,
                self.mouse_tracking_callback == old(self).mouse_tracking_callback,
                self.debug_enabled == old(self).debug_enabled,
            decreases self.hotkeys@.len() - i,
        {
            proof {
                assert(orig.subrange(0, j + 1).drop_last() =~= orig.subrange(0, j));
                assert(orig.subrange(0, j + 1).last() == orig[j]);
                assert(self.hotkeys@[i as int] == orig[j]);
            }
            let ghost removed_prefix = remove_by(orig.subrange(0, j), hotkey_id(), target);
            if keys_equal(&self.hotkeys[i].0, sequence) {
                self.hotkeys.remove(i);
                proof {
                    assert(self.hotkeys@ =~= removed_prefix + orig.subrange(j + 1, orig.len() as int));
                    j = j + 1;
                }
            } else {
                i = i + 1;
                proof {
                    assert(removed_prefix.push(orig[j]) + orig.subrange(j + 1, orig.len() as int)
                        =~= removed_prefix + orig.subrange(j, orig.len() as int));
                    j = j + 1;
                }
            }
        }
        proof {
            assert(orig.subrange(j, orig.len() as int).len() == 0);
            assert(j == orig.len());
            assert(orig.subrange(0, j) =~= orig);
        }
    }

    /// Store `value` under `key` in the named-state table, replacing any
    /// earlier value.
    #[verifier::loop_isolation(false)]
    pub fn set_state(&mut self, key: &str, value: &str)
        ensures
            final(self).state_of(key@) == Some(value@),
            forall|probe: Seq<char>| probe != key@ ==> #[trigger] final(self).state_entry(probe)
                == old(self).state_entry(probe),
            old(self).wf() ==> final(self).wf(),
            Self::bindings_unchanged(*old(self), *final(self)),
            Self::hotkeys_unchanged(*old(self), *final(self)),
            Self::pressed_unchanged(*old(self), *final(self)),
            Self::queue_unchanged(*old(self), *final(self)),
            Self::settings_unchanged(*old(self), *final(self)),
    {
        let k: String = key.to_owned();
        let v: String = value.to_owned();
        let ghost orig = self.state@;
        let mut kept: Vec<(String, String)> = Vec::new();
        let mut i: usize = 0;
        while i < self.state.len()
            invariant
                0 <= i <= orig.len(),
                self.state@ == orig,
                k@ == key@,
                kept@ == remove_by(orig.subrange(0, i as int), state_id(), key@),
            decreases orig.len() - i,
        {
            proof {
                assert(orig.subrange(0, i + 1).drop_last() =~= orig.subrange(0, i as int));
                assert(orig.subrange(0, i + 1).last() == orig[i as int]);
            }
            if !(self.state[i].0 == k) {
                let name = self.state[i].0.clone();
                let val = self.state[i].1.clone();
                proof {
                    assert((name, val) == orig[i as int]);
                }
                kept.push((name, val));
            }
            i = i + 1;
        }
        proof {
            assert(orig.subrange(0, orig.len() as int) =~= orig);
        }
        kept.push((k, v));
        self.state = kept;
        proof {
            let p = self.state@.last();
            assert forall|probe: Seq<char>| probe != key@ implies #[trigger] find_by(
                self.state@,
                state_id(),
                probe,
            ) == find_by(orig, state_id(), probe) by {
                assert(self.state@.drop_last() =~= remove_by(orig, state_id(), key@));
                lemma_find_remove_by(orig, state_id(), key@, probe);
            }
            if old(self).wf() {
                lemma_set_by_distinct(orig, state_id(), (self.state@.last().0, self.state@.last().1));
                assert(self.state@ =~= set_by(
                    orig,
                    state_id(),
                    (self.state@.last().0, self.state@.last().1),
                ));
            }
        }
    }

    /// The value stored under `key`, or nothing if the key was never set.
    #[verifier::loop_isolation(false)]
    pub fn get_state(&self, key: &str) -> (r: Option<String>)
        ensures
            r == self.state_entry(key@),
    {
        let k: String = key.to_owned();
        let mut found: Option<&String> = None;
        let mut i: usize = 0;
        while i < self.state.len()
            invariant
                0 <= i <= self.state@.len(),
                k@ == key@,
                match found {
                    Some(f) => find_by(self.state@.subrange(0, i as int), state_id(), key@)
                        == Some(*f),
                    None => find_by(self.state@.subrange(0, i as int), state_id(), key@)
                        is None,
                },
            decreases self.state@.len() - i,
        {
            proof {
                assert(self.state@.subrange(0, i + 1).drop_last() =~= self.state@.subrange(
                    0,
                    i as int,
                ));
                assert(self.state@.subrange(0, i + 1).last() == self.state@[i as int]);
            }
            if self.state[i].0 == k {
                found = Some(&self.state[i].1);
            }
            i = i + 1;
        }
        proof {
            assert(self.state@.subrange(0, self.state@.len() as int) =~= self.state@);
        }
        match found {
            Some(s) => Some(s.clone()),
            None => None,
        }
    }
}

} // verus!

verus! {

/// Whether a hotkey entry fires on a press of `key` while the pressed keys
/// are exactly `pk`: its sequence ends in `key` and equals `pk` in order.
pub open spec fn hotkey_fires(entry: (Vec<Keyboard>, u64), key: Keyboard, pk: Seq<Keyboard>) -> bool {
    entry.0@.len() > 0 && entry.0@.last() == key && entry.0@ == pk
}

/// The callback tokens of the hotkey entries that fire, in table order.
pub open spec fn fired_tokens(
    hks: Seq<(Vec<Keyboard>, u64)>,
    key: Keyboard,
    pk: Seq<Keyboard>,
) -> Seq<u64>
    decreases hks.len(),
{
    if hks.len() == 0 {
        Seq::<u64>::empty()
    } else {
        let rest = fired_tokens(hks.drop_last(), key, pk);
        if hotkey_fires(hks.last(), key, pk) {
            rest.push(hks.last().1)
        } else {
            rest
        }
    }
}

/// The notification an action's handler receives.
pub open spec fn invocation_of(a: Action, event: Event, state: State) -> Invocation {
    Invocation { callback: a.callback, event, state }
}

/// The handler runs a resolved binding asks of the embedding: one run, on
/// the calling thread or a fresh worker, when its callback reacts and it is
/// not sequenced.
pub open spec fn action_dispatches(a: Option<Action>, event: Event, state: State) -> Seq<Dispatch> {
    match a {
        Some(act) => if act.callback.fires_on(event, state) && (act.defer || !act.sequencer) {
            seq![Dispatch { invocation: invocation_of(act, event, state), deferred: act.defer }]
        } else {
            Seq::<Dispatch>::empty()
        },
        None => Seq::<Dispatch>::empty(),
    }
}

/// The queue entries a resolved binding adds: one, when its callback reacts
/// and it is sequenced (and not deferred).
pub open spec fn action_enqueues(a: Option<Action>, event: Event, state: State) -> Seq<Invocation> {
    match a {
        Some(act) => if act.callback.fires_on(event, state) && !act.defer && act.sequencer {
            seq![invocation_of(act, event, state)]
        } else {
            Seq::<Invocation>::empty()
        },
        None => Seq::<Invocation>::empty(),
    }
}

/// Handler runs for one notification: the fallback binding first, then the
/// exact-match binding.
pub open spec fn dispatches_of(
    any: Option<Action>,
    exact: Option<Action>,
    event: Event,
    state: State,
) -> Seq<Dispatch> {
    action_dispatches(any, event, state) + action_dispatches(exact, event, state)
}

/// Queue entries for one notification, in the same order.
pub open spec fn enqueued_of(
    any: Option<Action>,
    exact: Option<Action>,
    event: Event,
    state: State,
) -> Seq<Invocation> {
    action_enqueues(any, event, state) + action_enqueues(exact, event, state)
}

/// The suppression decision of one press: the exact-match binding
/// overrides the fallback; with nothing bound the event passes through.
pub open spec fn inhibit_of(any: Option<Action>, exact: Option<Action>) -> InhibitEvent {
    match exact {
        Some(a) => a.inhibit,
        None => match any {
            Some(a) => a.inhibit,
            None => InhibitEvent::No,
        },
    }
}

/// The fallback and exact-match bindings that resolve for an event.
pub open spec fn actions_for(r: Registry, event: Event) -> (Option<Action>, Option<Action>) {
    match event {
        Event::Keyboard(k) => (r.any_key_binding(), r.key_action_of(k)),
        Event::Mouse(b) => (r.any_button_binding(), r.button_action_of(b)),
    }
}

impl Registry {
    /// The action bound exactly to `k`, resolved against the table.
    #[verifier::loop_isolation(false)]
    fn lookup_key_action(&self, k: Keyboard) -> (r: Option<Action>)
        ensures
            r == self.key_action_of(k),
    {
        let mut found: Option<Action> = None;
        let mut i: usize = 0;
        while i < self.key_callbacks.len()
            invariant
                0 <= i <= self.key_callbacks@.len(),
                found == find_by(self.key_callbacks@.subrange(0, i as int), key_id(), k),
            decreases self.key_callbacks@.len() - i,
        {
            proof {
                assert(self.key_callbacks@.subrange(0, i + 1).drop_last() =~= self
                    .key_callbacks@
                    .subrange(0, i as int));
                assert(self.key_callbacks@.subrange(0, i + 1).last() == self.key_callbacks@[
                    i as int
                ]);
            }
            let p = self.key_callbacks[i];
            if p.0 == k {
                found = Some(p.1);
            }
            i = i + 1;
        }
        proof {
            assert(self.key_callbacks@.subrange(0, self.key_callbacks@.len() as int) =~= self
                .key_callbacks@);
        }
        found
    }

    /// The action bound exactly to `b`, resolved against the table.
    #[verifier::loop_isolation(false)]
    fn lookup_button_action(&self, b: Mouse) -> (r: Option<Action>)
        ensures
            r == self.button_action_of(b),
    {
        let mut found: Option<Action> = None;
        let mut i: usize = 0;
        while i < self.button_callbacks.len()
            invariant
                0 <= i <= self.button_callbacks@.len(),
                found == find_by(self.button_callbacks@.subrange(0, i as int), button_id(), b),
            decreases self.button_callbacks@.len() - i,
        {
            proof {
                assert(self.button_callbacks@.subrange(0, i + 1).drop_last() =~= self
                    .button_callbacks@
                    .subrange(0, i as int));
                assert(self.button_callbacks@.subrange(0, i + 1).last() == self.button_callbacks@[
                    i as int
                ]);
            }
            let p = self.button_callbacks[i];
            if p.0 == b {
                found = Some(p.1);
            }
            i = i + 1;
        }
        proof {
            assert(self.button_callbacks@.subrange(0, self.button_callbacks@.len() as int) =~= self
                .button_callbacks@);
        }
        found
    }

    /// The fallback and the exact-match binding for `event`, in that order.
    pub fn map_event_to_actions(&self, event: Event) -> (r: (Option<Action>, Option<Action>))
        ensures
            r == actions_for(*self, event),
    {
        match event {
            Event::Keyboard(k) => (self.any_key_callback, self.lookup_key_action(k)),
            Event::Mouse(b) => (self.any_button_callback, self.lookup_button_action(b)),
        }
    }

    /// Hand one handler run to the ordered worker by queueing it.
    pub fn sequence(&mut self, event: Event, state: State, action: Action)
        ensures
            final(self).queue() == old(self).queue().push(invocation_of(action, event, state)),
            old(self).wf() ==> final(self).wf(),
            Self::bindings_unchanged(*old(self), *final(self)),
            Self::hotkeys_unchanged(*old(self), *final(self)),
            Self::state_unchanged(*old(self), *final(self)),
            Self::pressed_unchanged(*old(self), *final(self)),
            Self::settings_unchanged(*old(self), *final(self)),
    {
        self.sequenced.push(Invocation { callback: action.callback, event, state });
    }

    /// Apply the execution-mode policy to one resolved binding: nothing if
    /// its callback ignores this notification; a deferred or immediate run
    /// for the embedding; or an entry on the ordered worker's queue.
    pub fn invoke_action(&mut self, action: Action, event: Event, state: State) -> (r: Option<
        Dispatch,
    >)
        ensures
            action_dispatches(Some(action), event, state) == match r {
                Some(d) => seq![d],
                None => Seq::<Dispatch>::empty(),
            },
            final(self).queue() == old(self).queue() + action_enqueues(Some(action), event, state),
            old(self).wf() ==> final(self).wf(),
            Self::bindings_unchanged(*old(self), *final(self)),
            Self::hotkeys_unchanged(*old(self), *final(self)),
            Self::state_unchanged(*old(self), *final(self)),
            Self::pressed_unchanged(*old(self), *final(self)),
            Self::settings_unchanged(*old(self), *final(self)),
    {
        proof {
            assert(old(self).queue() + Seq::<Invocation>::empty() =~= old(self).queue());
            assert(old(self).queue() + seq![invocation_of(action, event, state)] =~= old(
                self,
            ).queue().push(invocation_of(action, event, state)));
        }
        if action.callback.fires(event, state) {
            if action.defer {
                Some(Dispatch { invocation: Invocation { callback: action.callback, event, state }, deferred: true })
            } else if action.sequencer {
                self.sequence(event, state, action);
                None
            } else {
                Some(Dispatch { invocation: Invocation { callback: action.callback, event, state }, deferred: false })
            }
        } else {
            None
        }
    }

    /// Ingest a press notification.
    ///
    /// The press is recorded; every hotkey whose sequence ends in this key
    /// and equals the keys now down (in order) fires; the any-event
    /// fallback and the exact-match binding each get a handler run under
    /// their execution mode; and the plan reports the suppression decision,
    /// the exact-match binding overriding the fallback.
    #[verifier::loop_isolation(false)]
    pub fn event_down(&mut self, event: Event) -> (plan: DispatchPlan)
        requires
            old(self).wf(),
        ensures
            final(self).wf(),
            final(self).pressed_events() == down_insert(old(self).pressed_events(), event),
            Self::bindings_unchanged(*old(self), *final(self)),
            Self::hotkeys_unchanged(*old(self), *final(self)),
            Self::state_unchanged(*old(self), *final(self)),
            Self::settings_unchanged(*old(self), *final(self)),
            plan.fired_hotkeys@ == match event {
                Event::Keyboard(k) => fired_tokens(
                    old(self).hotkey_bindings(),
                    k,
                    keys_of(down_insert(old(self).pressed_events(), event)),
                ),
                Event::Mouse(_) => Seq::<u64>::empty(),
            },
            plan.runs@ == dispatches_of(
                actions_for(*old(self), event).0,
                actions_for(*old(self), event).1,
                event,
                State::Pressed,
            ),
            final(self).queue() == old(self).queue() + enqueued_of(
                actions_for(*old(self), event).0,
                actions_for(*old(self), event).1,
                event,
                State::Pressed,
            ),
            plan.inhibit == inhibit_of(
                actions_for(*old(self), event).0,
                actions_for(*old(self), event).1,
            ),
    {
        self.pressed.pressed(event);
        let mut fired: Vec<u64> = Vec::new();
        if let Event::Keyboard(key) = event {
            let ghost pk = self.pressed.keys();
            let mut i: usize = 0;
            while i < self.hotkeys.len()
                invariant
                    0 <= i <= self.hotkeys@.len(),
                    fired@ == fired_tokens(self.hotkeys@.subrange(0, i as int), key, pk),
                decreases self.hotkeys@.len() - i,
            {
                proof {
                    assert(self.hotkeys@.subrange(0, i + 1).drop_last() =~= self.hotkeys@.subrange(
                        0,
                        i as int,
                    ));
                    assert(self.hotkeys@.subrange(0, i + 1).last() == self.hotkeys@[i as int]);
                }
                let sequence_len = self.hotkeys[i].0.len();
                if sequence_len > 0 {
                    let last = self.hotkeys[i].0[sequence_len - 1];
                    if last == key && self.pressed.are_pressed(&self.hotkeys[i].0) {
                        let token = self.hotkeys[i].1;
                        fired.push(token);
                    }
                }
                i = i + 1;
            }
            proof {
                assert(self.hotkeys@.subrange(0, self.hotkeys@.len() as int) =~= self.hotkeys@);
            }
        }
        let (global_action, key_action) = self.map_event_to_actions(event);
        let mut runs: Vec<Dispatch> = Vec::new();
        let mut inhibit = InhibitEvent::No;
        if let Some(action) = global_action {
            inhibit = action.inhibit;
            if let Some(d) = self.invoke_action(action, event, State::Pressed) {
                runs.push(d);
            }
        }
        if let Some(action) = key_action {
            inhibit = action.inhibit;
            if let Some(d) = self.invoke_action(action, event, State::Pressed) {
                runs.push(d);
            }
        }
        proof {
            let any = actions_for(*old(self), event).0;
            let exact = actions_for(*old(self), event).1;
            assert(runs@ =~= dispatches_of(any, exact, event, State::Pressed));
            assert(final(self).queue() =~= old(self).queue() + enqueued_of(
                any,
                exact,
                event,
                State::Pressed,
            ));
        }
        DispatchPlan { fired_hotkeys: fired, runs, inhibit }
    }

    /// Ingest a release notification.
    ///
    /// The press record is released; the fallback and exact-match bindings
    /// each get a handler run under their execution mode; hotkeys never
    /// fire on releases, and releases are never suppressed.
    pub fn event_up(&mut self, event: Event) -> (plan: DispatchPlan)
        requires
            old(self).wf(),
        ensures
            final(self).wf(),
            final(self).pressed_events() == remove_first(old(self).pressed_events(), event),
            Self::bindings_unchanged(*old(self), *final(self)),
            Self::hotkeys_unchanged(*old(self), *final(self)),
            Self::state_unchanged(*old(self), *final(self)),
            Self::settings_unchanged(*old(self), *final(self)),
            plan.fired_hotkeys@ == Seq::<u64>::empty(),
            plan.runs@ == dispatches_of(
                actions_for(*old(self), event).0,
                actions_for(*old(self), event).1,
                event,
                State::Released,
            ),
            final(self).queue() == old(self).queue() + enqueued_of(
                actions_for(*old(self), event).0,
                actions_for(*old(self), event).1,
                event,
                State::Released,
            ),
            plan.inhibit == InhibitEvent::No,
    {
        self.pressed.released(event);
        let (global_action, key_action) = self.map_event_to_actions(event);
        let mut runs: Vec<Dispatch> = Vec::new();
        if let Some(action) = global_action {
            if let Some(d) = self.invoke_action(action, event, State::Released) {
                runs.push(d);
            }
        }
        if let Some(action) = key_action {
            if let Some(d) = self.invoke_action(action, event, State::Released) {
                runs.push(d);
            }
        }
        proof {
            let any = actions_for(*old(self), event).0;
            let exact = actions_for(*old(self), event).1;
            assert(runs@ =~= dispatches_of(any, exact, event, State::Released));
            assert(final(self).queue() =~= old(self).queue() + enqueued_of(
                any,
                exact,
                event,
                State::Released,
            ));
        }
        DispatchPlan { fired_hotkeys: Vec::new(), runs, inhibit: InhibitEvent::No }
    }

    /// Ingest a synthetic click: a press immediately followed by a
    /// release.  The plan combines both, reporting the press's suppression
    /// decision.
    pub fn event_click(&mut self, event: Event) -> (plan: DispatchPlan)
        requires
            old(self).wf(),
        ensures
            final(self).wf(),
            final(self).pressed_events() == remove_first(
                down_insert(old(self).pressed_events(), event),
                event,
            ),
            Self::bindings_unchanged(*old(self), *final(self)),
            Self::hotkeys_unchanged(*old(self), *final(self)),
            Self::state_unchanged(*old(self), *final(self)),
            Self::settings_unchanged(*old(self), *final(self)),
            plan.fired_hotkeys@ == match event {
                Event::Keyboard(k) => fired_tokens(
                    old(self).hotkey_bindings(),
                    k,
                    keys_of(down_insert(old(self).pressed_events(), event)),
                ),
                Event::Mouse(_) => Seq::<u64>::empty(),
            },
            plan.runs@ == dispatches_of(
                actions_for(*old(self), event).0,
                actions_for(*old(self), event).1,
                event,
                State::Pressed,
            ) + dispatches_of(
                actions_for(*old(self), event).0,
                actions_for(*old(self), event).1,
                event,
                State::Released,
            ),
            final(self).queue() == old(self).queue() + enqueued_of(
                actions_for(*old(self), event).0,
                actions_for(*old(self), event).1,
                event,
                State::Pressed,
            ) + enqueued_of(
                actions_for(*old(self), event).0,
                actions_for(*old(self), event).1,
                event,
                State::Released,
            ),
            plan.inhibit == inhibit_of(
                actions_for(*old(self), event).0,
                actions_for(*old(self), event).1,
            ),
    {
        let down = self.event_down(event);
        let mut up = self.event_up(event);
        let mut runs = down.runs;
        runs.append(&mut up.runs);
        DispatchPlan { fired_hotkeys: down.fired_hotkeys, runs, inhibit: down.inhibit }
    }

    /// Take the oldest entry off the ordered worker's queue.
    pub fn pop_sequenced(&mut self) -> (r: Option<Invocation>)
        ensures
            old(self).queue().len() == 0 ==> r is None && final(self).queue() == old(self).queue(),
            old(self).queue().len() > 0 ==> r == Some(old(self).queue()[0]) && final(self).queue()
                == old(self).queue().drop_first(),
            old(self).wf() ==> final(self).wf(),
            Self::bindings_unchanged(*old(self), *final(self)),
            Self::hotkeys_unchanged(*old(self), *final(self)),
            Self::state_unchanged(*old(self), *final(self)),
            Self::pressed_unchanged(*old(self), *final(self)),
            Self::settings_unchanged(*old(self), *final(self)),
    {
        if self.sequenced.len() == 0 {
            None
        } else {
            let inv = self.sequenced.remove(0);
            proof {
                assert(final(self).queue() =~= old(self).queue().drop_first());
            }
            Some(inv)
        }
    }
}

} // verus!

verus! {

/// The pressed record after a whole trace of notifications, each a press
/// (`State::Pressed`) or a release: exactly the fold of what `event_down`
/// and `event_up` do to the record.
pub open spec fn pressed_after(trace: Seq<(Event, State)>) -> Seq<Event>
    decreases trace.len(),
{
    if trace.len() == 0 {
        Seq::<Event>::empty()
    } else {
        let prev = pressed_after(trace.drop_last());
        match trace.last().1 {
            State::Pressed => down_insert(prev, trace.last().0),
            State::Released => remove_first(prev, trace.last().0),
        }
    }
}

/// Whether the most recent notification for `e` in the trace is a press;
/// false if the trace never mentions `e`.
pub open spec fn latest_is_down(trace: Seq<(Event, State)>, e: Event) -> bool
    decreases trace.len(),
{
    if trace.len() == 0 {
        false
    } else if trace.last().0 == e {
        trace.last().1 is Pressed
    } else {
        latest_is_down(trace.drop_last(), e)
    }
}

/// Removing an element never removes any other: membership of the rest is
/// kept.
pub proof fn lemma_remove_first_keeps_others<A>(s: Seq<A>, x: A, e: A)
    requires
        e != x,
    ensures
        remove_first(s, x).contains(e) == s.contains(e),
    decreases s.len(),
{
    if s.len() > 0 {
        let rest = s.drop_first();
        lemma_remove_first_keeps_others(rest, x, e);
        assert(s.contains(e) <==> (s[0] == e || rest.contains(e))) by {
            if s.contains(e) {
                let i = choose|i: int| 0 <= i < s.len() && s[i] == e;
                if i > 0 {
                    assert(rest[i - 1] == e);
                }
            }
            if rest.contains(e) {
                let i = choose|i: int| 0 <= i < rest.len() && rest[i] == e;
                assert(s[i + 1] == e);
            }
        }
        if s[0] == x {
            assert(remove_first(s, x) == rest);
        } else {
            let r = seq![s[0]] + remove_first(rest, x);
            assert(remove_first(s, x) == r);
            assert(r.contains(e) <==> (s[0] == e || remove_first(rest, x).contains(e))) by {
                if r.contains(e) {
                    let i = choose|i: int| 0 <= i < r.len() && r[i] == e;
                    if i > 0 {
                        assert(remove_first(rest, x)[i - 1] == e);
                    }
                }
                if remove_first(rest, x).contains(e) {
                    let i = choose|i: int|
                        0 <= i < remove_first(rest, x).len() && remove_first(rest, x)[i] == e;
                    assert(r[i + 1] == e);
                }
                if s[0] == e {
                    assert(r[0] == e);
                }
            }
        }
    }
}

/// In a duplicate-free sequence, removing an element removes it for good.
pub proof fn lemma_remove_first_gone<A>(s: Seq<A>, x: A)
    requires
        s.no_duplicates(),
    ensures
        !remove_first(s, x).contains(x),
    decreases s.len(),
{
    if s.len() > 0 {
        let rest = s.drop_first();
        assert(rest.no_duplicates());
        if s[0] == x {
            assert(remove_first(s, x) == rest);
            if rest.contains(x) {
                let i = choose|i: int| 0 <= i < rest.len() && rest[i] == x;
                assert(s[i + 1] == x && s[0] == x);
                assert(false);
            }
        } else {
            lemma_remove_first_gone(rest, x);
            let r = seq![s[0]] + remove_first(rest, x);
            if r.contains(x) {
                let i = choose|i: int| 0 <= i < r.len() && r[i] == x;
                assert(i > 0);
                assert(remove_first(rest, x)[i - 1] == x);
                assert(false);
            }
        }
    }
}

/// `remove_first` keeps a duplicate-free sequence duplicate-free.
pub proof fn lemma_remove_first_keeps_no_duplicates<A>(s: Seq<A>, x: A)
    requires
        s.no_duplicates(),
    ensures
        remove_first(s, x).no_duplicates(),
{
    if s.contains(x) {
        let i = choose|i: int| 0 <= i < s.len() && s[i] == x;
        let first = choose|j: int|
            0 <= j <= i && s[j] == x && forall|m: int| 0 <= m < j ==> s[m] != x;
        assert(exists|j: int|
            0 <= j <= i && s[j] == x && (forall|m: int| 0 <= m < j ==> s[m] != x)) by {
            if forall|m: int| 0 <= m < i ==> s[m] != x {
                assert(0 <= i <= i && s[i] == x && forall|m: int| 0 <= m < i ==> s[m] != x);
            } else {
                let w = choose|w: int| 0 <= w < i && s[w] == x;
                assert(s[w] == x && s[i] == x && w < i);
                assert(false);
            }
        }
        lemma_remove_first_at(s, x, first);
        lemma_remove_no_duplicates(s, first);
    } else {
        lemma_remove_first_absent(s, x);
    }
}

/// The pressed record reflects exactly the most recent notification for
/// each input: after any trace of presses and releases, an input is
/// recorded as down precisely when its latest notification was a press
/// (duplicate presses of an input that is already down are absorbed, and
/// stray releases heal to no-ops).  The record also never holds an input
/// twice.
pub proof fn lemma_pressed_reflects_latest(trace: Seq<(Event, State)>, e: Event)
    ensures
        pressed_after(trace).no_duplicates(),
        pressed_after(trace).contains(e) == latest_is_down(trace, e),
    decreases trace.len(),
{
    if trace.len() > 0 {
        let prev = pressed_after(trace.drop_last());
        let x = trace.last().0;
        lemma_pressed_reflects_latest(trace.drop_last(), e);
        lemma_pressed_reflects_latest(trace.drop_last(), x);
        match trace.last().1 {
            State::Pressed => {
                if !prev.contains(x) {
                    assert(down_insert(prev, x) == prev.push(x));
                    assert(prev.push(x).no_duplicates());
                    assert(prev.push(x).contains(e) <==> (prev.contains(e) || x == e)) by {
                        if prev.push(x).contains(e) {
                            let i = choose|i: int|
                                0 <= i < prev.push(x).len() && prev.push(x)[i] == e;
                            if i < prev.len() {
                                assert(prev[i] == e);
                            }
                        }
                        if prev.contains(e) {
                            let i = choose|i: int| 0 <= i < prev.len() && prev[i] == e;
                            assert(prev.push(x)[i] == e);
                        }
                        assert(prev.push(x)[prev.len() as int] == x);
                    }
                }
            },
            State::Released => {
                lemma_remove_first_keeps_no_duplicates(prev, x);
                if e == x {
                    lemma_remove_first_gone(prev, x);
                } else {
                    lemma_remove_first_keeps_others(prev, x, e);
                }
            },
        }
    }
}

/// A hotkey callback is among the fired tokens exactly when some table
/// entry carries it and that entry's sequence ends in the pressed key and
/// equals the pressed keys in order.  Pressing a prefix of a sequence, or
/// its keys in another order, never fires it.
pub proof fn lemma_fired_token_membership(
    hks: Seq<(Vec<Keyboard>, u64)>,
    key: Keyboard,
    pk: Seq<Keyboard>,
    t: u64,
)
    ensures
        fired_tokens(hks, key, pk).contains(t) <==> exists|i: int|
            0 <= i < hks.len() && hotkey_fires(#[trigger] hks[i], key, pk) && hks[i].1 == t,
    decreases hks.len(),
{
    if hks.len() > 0 {
        let rest = hks.drop_last();
        let prev = fired_tokens(rest, key, pk);
        lemma_fired_token_membership(rest, key, pk, t);
        if hotkey_fires(hks.last(), key, pk) {
            assert(prev.push(hks.last().1).contains(t) <==> (prev.contains(t) || hks.last().1
                == t)) by {
                if prev.push(hks.last().1).contains(t) {
                    let i = choose|i: int|
                        0 <= i < prev.push(hks.last().1).len() && prev.push(hks.last().1)[i] == t;
                    if i < prev.len() {
                        assert(prev[i] == t);
                    }
                }
                if prev.contains(t) {
                    let i = choose|i: int| 0 <= i < prev.len() && prev[i] == t;
                    assert(prev.push(hks.last().1)[i] == t);
                }
                assert(prev.push(hks.last().1)[prev.len() as int] == hks.last().1);
            }
        }
        assert(forall|i: int| 0 <= i < rest.len() ==> rest[i] == hks[i]);
        assert(hks.last() == hks[hks.len() - 1]);
    }
}

/// After removing a key from a table, no entry is addressed by it.
pub proof fn lemma_remove_by_clean<K, V, SK>(s: Seq<(K, V)>, kf: spec_fn(K) -> SK, key: SK)
    ensures
        forall|i: int| 0 <= i < remove_by(s, kf, key).len() ==> kf(
            (#[trigger] remove_by(s, kf, key)[i]).0,
        ) != key,
    decreases s.len(),
{
    if s.len() > 0 {
        lemma_remove_by_clean(s.drop_last(), kf, key);
        if kf(s.last().0) != key {
            let r = remove_by(s.drop_last(), kf, key).push(s.last());
            assert(forall|i: int| 0 <= i < r.len() - 1 ==> r[i] == remove_by(
                s.drop_last(),
                kf,
                key,
            )[i]);
            assert(r.last() == s.last());
        }
    }
}

/// Binding the same key twice replaces the earlier action for good: the
/// later binding answers every lookup, and no table entry carries the
/// earlier one any more, so its handler can never fire again.
pub proof fn lemma_rebind_replaces(
    table: Seq<(Keyboard, Action)>,
    key: Keyboard,
    first: Action,
    second: Action,
)
    ensures
        find_by(
            set_by(set_by(table, key_id(), (key, first)), key_id(), (key, second)),
            key_id(),
            key,
        ) == Some(second),
        forall|i: int|
            0 <= i < set_by(set_by(table, key_id(), (key, first)), key_id(), (key, second)).len()
                && (#[trigger] set_by(
                set_by(table, key_id(), (key, first)),
                key_id(),
                (key, second),
            )[i]).0 == key ==> set_by(
                set_by(table, key_id(), (key, first)),
                key_id(),
                (key, second),
            )[i].1 == second,
{
    let t1 = set_by(table, key_id(), (key, first));
    let t2 = set_by(t1, key_id(), (key, second));
    lemma_find_set_by(t1, key_id(), (key, second), key);
    lemma_remove_by_clean(t1, key_id(), key);
    let cleaned = remove_by(t1, key_id(), key);
    assert(t2 == cleaned.push((key, second)));
    assert(forall|i: int| 0 <= i < cleaned.len() ==> t2[i] == cleaned[i]);
    assert(t2[t2.len() - 1] == (key, second));
}

/// The suppression decision returned for a press is the bound action's
/// own, handed back fresh on every press and never cached: its resolution
/// depends only on the verdict the evaluator gives at that press, so
/// changing the evaluator's answer between two presses changes the
/// outcome between those presses without rebinding anything.
pub proof fn lemma_deferred_inhibit_fresh(
    any: Option<Action>,
    exact: Action,
    evaluator: u64,
    verdict_one: InhibitEvent,
    verdict_two: InhibitEvent,
)
    requires
        exact.inhibit == InhibitEvent::Maybe(evaluator),
    ensures
        inhibit_of(any, Some(exact)) == InhibitEvent::Maybe(evaluator),
        inhibit_of(any, Some(exact)).resolved(verdict_one) == (verdict_one is Yes),
        inhibit_of(any, Some(exact)).resolved(verdict_two) == (verdict_two is Yes),
{
}

/// Sequenced submissions stand behind one another in submission order,
/// whatever events they came from: two batches added to the worker's
/// queue keep their order, and the worker drains from the front, so their
/// side effects complete in submission order regardless of how long each
/// one runs.
pub proof fn lemma_sequenced_in_order(
    before: Seq<Invocation>,
    first_batch: Seq<Invocation>,
    second_batch: Seq<Invocation>,
)
    ensures
        (before + first_batch) + second_batch == before + (first_batch + second_batch),
        forall|i: int| 0 <= i < first_batch.len() ==> ((before + first_batch) + second_batch)[
            before.len() + i
        ] == first_batch[i],
        forall|i: int| 0 <= i < second_batch.len() ==> ((before + first_batch) + second_batch)[
            before.len() + first_batch.len() + i
        ] == second_batch[i],
{
    assert((before + first_batch) + second_batch =~= before + (first_batch + second_batch));
}

} // verus!

verus! {

/// No two entries of the table are addressed by the same key.
pub open spec fn distinct_by<K, V, SK>(s: Seq<(K, V)>, kf: spec_fn(K) -> SK) -> bool {
    forall|i: int, j: int| 0 <= i < j < s.len() ==> kf((#[trigger] s[i]).0) != kf(
        (#[trigger] s[j]).0,
    )
}

/// Every entry that survives a removal was an entry before it.
pub proof fn lemma_remove_by_keeps_entries<K, V, SK>(s: Seq<(K, V)>, kf: spec_fn(K) -> SK, key: SK)
    ensures
        forall|i: int| 0 <= i < remove_by(s, kf, key).len() ==> exists|j: int|
            0 <= j < s.len() && #[trigger] remove_by(s, kf, key)[i] == s[j],
    decreases s.len(),
{
    if s.len() > 0 {
        lemma_remove_by_keeps_entries(s.drop_last(), kf, key);
        let dl = s.drop_last();
        assert(forall|j: int| 0 <= j < dl.len() ==> dl[j] == s[j]);
        if kf(s.last().0) != key {
            let r = remove_by(dl, kf, key).push(s.last());
            assert(remove_by(s, kf, key) == r);
            assert forall|i: int| 0 <= i < r.len() implies exists|j: int|
                0 <= j < s.len() && #[trigger] r[i] == s[j] by {
                if i < r.len() - 1 {
                    assert(r[i] == remove_by(dl, kf, key)[i]);
                    let j = choose|j: int| 0 <= j < dl.len() && remove_by(dl, kf, key)[i] == dl[j];
                    assert(r[i] == s[j]);
                } else {
                    assert(r[i] == s[s.len() - 1]);
                }
            }
        } else {
            assert forall|i: int| 0 <= i < remove_by(s, kf, key).len() implies exists|j: int|
                0 <= j < s.len() && #[trigger] remove_by(s, kf, key)[i] == s[j] by {
                assert(remove_by(s, kf, key)[i] == remove_by(dl, kf, key)[i]);
                let j = choose|j: int| 0 <= j < dl.len() && remove_by(dl, kf, key)[i] == dl[j];
                assert(remove_by(s, kf, key)[i] == s[j]);
            }
        }
    }
}

/// Removal keeps a table duplicate-free.
pub proof fn lemma_remove_by_distinct<K, V, SK>(s: Seq<(K, V)>, kf: spec_fn(K) -> SK, key: SK)
    requires
        distinct_by(s, kf),
    ensures
        distinct_by(remove_by(s, kf, key), kf),
    decreases s.len(),
{
    if s.len() > 0 {
        let dl = s.drop_last();
        assert(forall|j: int| 0 <= j < dl.len() ==> dl[j] == s[j]);
        lemma_remove_by_distinct(dl, kf, key);
        if kf(s.last().0) != key {
            let prev = remove_by(dl, kf, key);
            let r = prev.push(s.last());
            lemma_remove_by_keeps_entries(dl, kf, key);
            assert forall|i: int, j: int| 0 <= i < j < r.len() implies kf((#[trigger] r[i]).0)
                != kf((#[trigger] r[j]).0) by {
                if j == r.len() - 1 {
                    assert(r[i] == prev[i]);
                    assert(r[j] == s[s.len() - 1]);
                    let w = choose|w: int| 0 <= w < dl.len() && prev[i] == dl[w];
                    assert(prev[i] == s[w] && w < s.len() - 1);
                } else {
                    assert(r[i] == prev[i] && r[j] == prev[j]);
                }
            }
        }
    }
}

/// Binding a key keeps a table duplicate-free.
pub proof fn lemma_set_by_distinct<K, V, SK>(s: Seq<(K, V)>, kf: spec_fn(K) -> SK, p: (K, V))
    requires
        distinct_by(s, kf),
    ensures
        distinct_by(set_by(s, kf, p), kf),
{
    let cleaned = remove_by(s, kf, kf(p.0));
    lemma_remove_by_distinct(s, kf, kf(p.0));
    lemma_remove_by_clean(s, kf, kf(p.0));
    let r = cleaned.push(p);
    assert forall|i: int, j: int| 0 <= i < j < r.len() implies kf((#[trigger] r[i]).0) != kf(
        (#[trigger] r[j]).0,
    ) by {
        if j == r.len() - 1 {
            assert(r[i] == cleaned[i]);
            assert(r[j] == p);
        } else {
            assert(r[i] == cleaned[i] && r[j] == cleaned[j]);
        }
    }
}

/// In a table whose sequences never repeat, nothing fires when no entry's
/// sequence is the pressed order.
pub proof fn lemma_fired_tokens_none(hks: Seq<(Vec<Keyboard>, u64)>, key: Keyboard, pk: Seq<Keyboard>)
    requires
        forall|i: int| 0 <= i < hks.len() ==> !hotkey_fires(#[trigger] hks[i], key, pk),
    ensures
        fired_tokens(hks, key, pk).len() == 0,
    decreases hks.len(),
{
    if hks.len() > 0 {
        assert(forall|j: int| 0 <= j < hks.drop_last().len() ==> hks.drop_last()[j] == hks[j]);
        lemma_fired_tokens_none(hks.drop_last(), key, pk);
        assert(hks.last() == hks[hks.len() - 1]);
    }
}

/// In a duplicate-free hotkey table, at most one hotkey fires per
/// key-down: the pressed order can equal at most one registered sequence.
pub proof fn lemma_fired_tokens_at_most_one(
    hks: Seq<(Vec<Keyboard>, u64)>,
    key: Keyboard,
    pk: Seq<Keyboard>,
)
    requires
        distinct_by(hks, hotkey_id()),
    ensures
        fired_tokens(hks, key, pk).len() <= 1,
    decreases hks.len(),
{
    if hks.len() > 0 {
        let dl = hks.drop_last();
        assert(forall|j: int| 0 <= j < dl.len() ==> dl[j] == hks[j]);
        lemma_fired_tokens_at_most_one(dl, key, pk);
        if hotkey_fires(hks.last(), key, pk) {
            assert(hks.last() == hks[hks.len() - 1]);
            assert forall|i: int| 0 <= i < dl.len() implies !hotkey_fires(
                #[trigger] dl[i],
                key,
                pk,
            ) by {
                if hotkey_fires(dl[i], key, pk) {
                    assert(hotkey_id()(dl[i].0) == pk);
                    assert(hotkey_id()(hks[hks.len() - 1].0) == pk);
                    assert(false);
                }
            }
            lemma_fired_tokens_none(dl, key, pk);
        }
    }
}

impl Registry {
    /// In a well-formed registry, at most one hotkey fires per key-down.
    pub proof fn lemma_at_most_one_hotkey_fires(self, key: Keyboard, pk: Seq<Keyboard>)
        requires
            self.wf(),
        ensures
            fired_tokens(self.hotkey_bindings(), key, pk).len() <= 1,
    {
        lemma_fired_tokens_at_most_one(self.hotkey_bindings(), key, pk);
    }
}

} // verus!
