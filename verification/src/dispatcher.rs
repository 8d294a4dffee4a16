//! The dispatcher side of the pipeline: turns the raw, possibly noisy,
//! multi-device stroke stream into a clean logical event stream, gated by
//! the activation toggle, and decides per stroke whether the system should
//! still see it.
//!
//! The surrounding program owns the capture loop; it hands each stroke to
//! [`EventDispatcher::process_stroke`] and then re-injects the stroke when
//! `pass_through` is set, sends the returned events down the channel, and
//! re-injects the returned synthetic releases.

use vstd::prelude::*;
use crate::state_table::StateTable;
use crate::types::{
    Event, KeyState, MouseButton, OutputStroke, RawEvent, key_state_of_flags_spec,
    key_state_of_flags, SCAN_GRAVE, SCAN_J, SCAN_L, SCAN_LEFT_ALT, SCAN_LEFT_SHIFT, SCAN_TAB,
    SCAN_X, SCAN_Z,
};

verus! {

/// Dispatcher settings: the activation toggle key and the codes that are
/// always passed through untouched.
pub struct Settings {
    pub toggle_key: u16,
    pub excluded_keys: Vec<u16>,
}

impl Default for Settings {
    /// Grave toggles; a handful of commonly chorded keys stay untouched.
    fn default() -> (s: Settings)
        ensures
            s.toggle_key == SCAN_GRAVE,
            s.excluded_keys@ == seq![
                SCAN_X,
                SCAN_J,
                SCAN_L,
                SCAN_Z,
                SCAN_LEFT_ALT,
                SCAN_LEFT_SHIFT,
                SCAN_TAB,
            ],
    {
        let excluded_keys = vec![
            SCAN_X,
            SCAN_J,
            SCAN_L,
            SCAN_Z,
            SCAN_LEFT_ALT,
            SCAN_LEFT_SHIFT,
            SCAN_TAB,
        ];
        proof {
            assert(excluded_keys@ =~= seq![
                SCAN_X,
                SCAN_J,
                SCAN_L,
                SCAN_Z,
                SCAN_LEFT_ALT,
                SCAN_LEFT_SHIFT,
                SCAN_TAB,
            ]);
        }
        Settings { toggle_key: SCAN_GRAVE, excluded_keys }
    }
}

impl Settings {
    pub fn is_excluded(&self, code: u16) -> (r: bool)
        ensures
            r == self.excluded_keys@.contains(code),
    {
        let n = self.excluded_keys.len();
        let mut i: usize = 0;
        while i < n
            invariant
                n == self.excluded_keys.len(),
                i <= n,
                forall|j: int| 0 <= j < i ==> self.excluded_keys@[j] != code,
            decreases n - i,
        {
            if self.excluded_keys[i] == code {
                return true;
            }
            i = i + 1;
        }
        false
    }
}

/// The dispatcher's abstract state: whether remapping is active, and the
/// per-device key press-states.
pub struct DispState {
    pub active: bool,
    pub keys: Map<(u32, u16), KeyState>,
}

/// What one key stroke does to the abstract state, and what it emits.
pub struct KeyStep {
    pub state: DispState,
    pub pass_through: bool,
    pub events: Seq<Event>,
}

/// The recorded state differs from what this stroke reports; a first
/// observation counts as changed.
pub open spec fn key_changed_spec(
    keys: Map<(u32, u16), KeyState>,
    device: u32,
    code: u16,
    st: KeyState,
) -> bool {
    !(keys.contains_key((device, code)) && keys[(device, code)] == st)
}

/// The dispatcher's key state machine, one stroke at a time: excluded codes
/// pass through untouched, a changed press of the toggle key flips the
/// activation (emitting `Reset` on deactivation), and any other key is
/// forwarded on a state change while active, or passed through while
/// inactive. The press-state table always records the stroke.
pub open spec fn key_step(
    toggle_key: u16,
    excluded: Seq<u16>,
    s: DispState,
    device: u32,
    code: u16,
    st: KeyState,
) -> KeyStep {
    let keys2 = s.keys.insert((device, code), st);
    let changed = key_changed_spec(s.keys, device, code, st);
    if excluded.contains(code) {
        KeyStep {
            state: DispState { active: s.active, keys: keys2 },
            pass_through: true,
            events: Seq::empty(),
        }
    } else if code == toggle_key {
        if changed && st is Down {
            if s.active {
                KeyStep {
                    state: DispState { active: false, keys: keys2 },
                    pass_through: false,
                    events: seq![Event::Reset],
                }
            } else {
                KeyStep {
                    state: DispState { active: true, keys: keys2 },
                    pass_through: false,
                    events: Seq::empty(),
                }
            }
        } else {
            KeyStep {
                state: DispState { active: s.active, keys: keys2 },
                pass_through: false,
                events: Seq::empty(),
            }
        }
    } else if s.active {
        KeyStep {
            state: DispState { active: true, keys: keys2 },
            pass_through: false,
            events: if changed {
                seq![Event::Keyboard(code, st)]
            } else {
                Seq::empty()
            },
        }
    } else {
        KeyStep {
            state: DispState { active: false, keys: keys2 },
            pass_through: true,
            events: Seq::empty(),
        }
    }
}

/// The synthetic releases owed on deactivation: one for every key latched
/// Down other than the toggle key, one for every button latched Down, each
/// exactly once.
pub open spec fn ups_complete(
    ups: Seq<OutputStroke>,
    keys: Map<(u32, u16), KeyState>,
    buttons: Map<(u32, u16), KeyState>,
    toggle_key: u16,
) -> bool {
    &&& forall|d: u32, c: u16|
        #![trigger ups.contains(OutputStroke::KeyUp(d, c))]
        #![trigger keys.contains_key((d, c))]
        ups.contains(OutputStroke::KeyUp(d, c)) <==> (keys.contains_key((d, c)) && keys[(d, c)]
            == KeyState::Down && c != toggle_key)
    &&& forall|d: u32, b: MouseButton|
        #![trigger ups.contains(OutputStroke::ButtonUp(d, b))]
        ups.contains(OutputStroke::ButtonUp(d, b)) <==> (buttons.contains_key((
            d,
            b.index_spec(),
        )) && buttons[(d, b.index_spec())] == KeyState::Down)
    &&& ups.no_duplicates()
}

/// Down and up flag of each button in the driver's mouse state word.
pub open spec fn down_flag_spec(b: MouseButton) -> u16 {
    match b {
        MouseButton::Left => 0x001,
        MouseButton::Right => 0x004,
        MouseButton::Middle => 0x010,
        MouseButton::Button4 => 0x040,
        MouseButton::Button5 => 0x100,
    }
}

pub open spec fn up_flag_spec(b: MouseButton) -> u16 {
    match b {
        MouseButton::Left => 0x002,
        MouseButton::Right => 0x008,
        MouseButton::Middle => 0x020,
        MouseButton::Button4 => 0x080,
        MouseButton::Button5 => 0x200,
    }
}

/// The transition a state word reports for one button. A word with both or
/// neither of the paired flags set reports none.
pub open spec fn button_transition(word: u16, b: MouseButton) -> Option<KeyState> {
    let has_down = word & down_flag_spec(b) != 0;
    let has_up = word & up_flag_spec(b) != 0;
    if has_down && has_up {
        None
    } else if !has_down && !has_up {
        None
    } else if has_down {
        Some(KeyState::Down)
    } else {
        Some(KeyState::Up)
    }
}

/// The logical event one button contributes: only a recognized transition,
/// and only while active.
pub open spec fn transition_event(word: u16, active: bool, b: MouseButton) -> Seq<Event> {
    if active {
        match button_transition(word, b) {
            Some(t) => seq![Event::MouseButton(b, t)],
            None => Seq::empty(),
        }
    } else {
        Seq::empty()
    }
}

/// All button events of one state word, in the fixed button order.
pub open spec fn transition_events(word: u16, active: bool) -> Seq<Event> {
    transition_event(word, active, MouseButton::Left) + transition_event(
        word,
        active,
        MouseButton::Right,
    ) + transition_event(word, active, MouseButton::Middle) + transition_event(
        word,
        active,
        MouseButton::Button4,
    ) + transition_event(word, active, MouseButton::Button5)
}

pub open spec fn apply_transition(
    m: Map<(u32, u16), KeyState>,
    device: u32,
    word: u16,
    b: MouseButton,
) -> Map<(u32, u16), KeyState> {
    match button_transition(word, b) {
        Some(t) => m.insert((device, b.index_spec()), t),
        None => m,
    }
}

/// The button press-state table after one state word.
pub open spec fn apply_transitions(m: Map<(u32, u16), KeyState>, device: u32, word: u16) -> Map<
    (u32, u16),
    KeyState,
> {
    apply_transition(
        apply_transition(
            apply_transition(
                apply_transition(
                    apply_transition(m, device, word, MouseButton::Left),
                    device,
                    word,
                    MouseButton::Right,
                ),
                device,
                word,
                MouseButton::Middle,
            ),
            device,
            word,
            MouseButton::Button4,
        ),
        device,
        word,
        MouseButton::Button5,
    )
}

/// Law: a raw key event that repeats the state already recorded for that
/// key changes nothing and emits nothing; only a transition emits.
pub proof fn lemma_repeated_key_is_silent(
    toggle_key: u16,
    excluded: Seq<u16>,
    s: DispState,
    device: u32,
    code: u16,
    st: KeyState,
)
    requires
        s.keys.contains_key((device, code)),
        s.keys[(device, code)] == st,
    ensures
        key_step(toggle_key, excluded, s, device, code, st).state == s,
        key_step(toggle_key, excluded, s, device, code, st).events == Seq::<Event>::empty(),
{
    assert(s.keys.insert((device, code), st) =~= s.keys);
    assert(DispState { active: s.active, keys: s.keys } == s);
}

/// Law: an excluded code is always passed through, emits nothing, and never
/// affects the activation state, active or not.
pub proof fn lemma_excluded_key_passes_through(
    toggle_key: u16,
    excluded: Seq<u16>,
    s: DispState,
    device: u32,
    code: u16,
    st: KeyState,
)
    requires
        excluded.contains(code),
    ensures
        key_step(toggle_key, excluded, s, device, code, st).pass_through,
        key_step(toggle_key, excluded, s, device, code, st).events == Seq::<Event>::empty(),
        key_step(toggle_key, excluded, s, device, code, st).state.active == s.active,
{
}

/// Law: a changed press of the toggle key while active deactivates and
/// emits exactly one `Reset`. The matching synthetic releases are owed by
/// [`EventDispatcher::toggle_active`], whose contract demands them through
/// [`ups_complete`].
pub proof fn lemma_deactivation_emits_reset(
    toggle_key: u16,
    excluded: Seq<u16>,
    s: DispState,
    device: u32,
)
    requires
        s.active,
        !excluded.contains(toggle_key),
        !(s.keys.contains_key((device, toggle_key)) && s.keys[(device, toggle_key)]
            == KeyState::Down),
    ensures
        !key_step(toggle_key, excluded, s, device, toggle_key, KeyState::Down).state.active,
        key_step(toggle_key, excluded, s, device, toggle_key, KeyState::Down).events == seq![
            Event::Reset,
        ],
{
}

proof fn lemma_transition_events_only_transitions(
    word: u16,
    active: bool,
    b: MouseButton,
    st: KeyState,
)
    requires
        transition_events(word, active).contains(Event::MouseButton(b, st)),
    ensures
        button_transition(word, b) == Some(st),
        active,
{
    let e = Event::MouseButton(b, st);
    let s1 = transition_event(word, active, MouseButton::Left);
    let s2 = transition_event(word, active, MouseButton::Right);
    let s3 = transition_event(word, active, MouseButton::Middle);
    let s4 = transition_event(word, active, MouseButton::Button4);
    let s5 = transition_event(word, active, MouseButton::Button5);
    let s = transition_events(word, active);
    let i = choose|i: int| 0 <= i < s.len() && s[i] == e;
    let p4 = s1 + s2 + s3 + s4;
    let p3 = s1 + s2 + s3;
    let p2 = s1 + s2;
    assert(s == p4 + s5);
    if i < p4.len() {
        assert(p4[i] == e);
        if i < p3.len() {
            assert(p3[i] == e);
            if i < p2.len() {
                assert(p2[i] == e);
                if i < s1.len() {
                    assert(s1[i] == e);
                } else {
                    assert(s2[i - s1.len()] == e);
                }
            } else {
                assert(s3[i - p2.len()] == e);
            }
        } else {
            assert(s4[i - p3.len()] == e);
        }
    } else {
        assert(s5[i - p4.len()] == e);
    }
}

/// Law: a state word with both the down and the up flag of a button set is
/// a no-op for that button, for all five buttons: no transition is
/// recognized, no event mentions the button, and its recorded state is
/// untouched.
pub proof fn lemma_ambiguous_flags_are_ignored(
    m: Map<(u32, u16), KeyState>,
    device: u32,
    word: u16,
    active: bool,
    b: MouseButton,
)
    requires
        word & down_flag_spec(b) != 0,
        word & up_flag_spec(b) != 0,
    ensures
        button_transition(word, b) is None,
        forall|st: KeyState|
            !transition_events(word, active).contains(Event::MouseButton(b, st)),
        apply_transitions(m, device, word).contains_key((device, b.index_spec()))
            == m.contains_key((device, b.index_spec())),
        m.contains_key((device, b.index_spec())) ==> apply_transitions(m, device, word)[(
            device,
            b.index_spec(),
        )] == m[(device, b.index_spec())],
{
    assert forall|st: KeyState|
        !transition_events(word, active).contains(Event::MouseButton(b, st)) by {
        if transition_events(word, active).contains(Event::MouseButton(b, st)) {
            lemma_transition_events_only_transitions(word, active, b, st);
        }
    }
    let k = (device, b.index_spec());
    let m1 = apply_transition(m, device, word, MouseButton::Left);
    let m2 = apply_transition(m1, device, word, MouseButton::Right);
    let m3 = apply_transition(m2, device, word, MouseButton::Middle);
    let m4 = apply_transition(m3, device, word, MouseButton::Button4);
    assert(m1.contains_key(k) == m.contains_key(k) && (m.contains_key(k) ==> m1[k] == m[k]));
    assert(m2.contains_key(k) == m1.contains_key(k) && (m1.contains_key(k) ==> m2[k] == m1[k]));
    assert(m3.contains_key(k) == m2.contains_key(k) && (m2.contains_key(k) ==> m3[k] == m2[k]));
    assert(m4.contains_key(k) == m3.contains_key(k) && (m3.contains_key(k) ==> m4[k] == m3[k]));
}

/// The decision for one stroke: whether the system should still see the raw
/// stroke, the logical events to send down the channel (in order), and the
/// synthetic releases to re-inject.
pub struct DispatchOutput {
    pub pass_through: bool,
    pub events: Vec<Event>,
    pub ups: Vec<OutputStroke>,
}

/// What a toggle flip emits.
pub struct ToggleOutput {
    pub events: Vec<Event>,
    pub ups: Vec<OutputStroke>,
}

/// The press-state table as a map from (device, code) keys.
pub open spec fn map_of(t: StateTable) -> Map<(u32, u16), KeyState> {
    Map::new(
        |k: (u32, u16)| t.spec_get(k.0, k.1) is Some,
        |k: (u32, u16)|
            match t.spec_get(k.0, k.1) {
                Some(v) => v,
                None => KeyState::Up,
            },
    )
}

proof fn lemma_map_after_insert(
    pre: StateTable,
    post: StateTable,
    device: u32,
    code: u16,
    st: KeyState,
)
    requires
        post.spec_get(device, code) == Some(st),
        forall|d: u32, c: u16|
            !(d == device && c == code) ==> post.spec_get(d, c) == pre.spec_get(d, c),
    ensures
        map_of(post) == map_of(pre).insert((device, code), st),
{
    let m1 = map_of(post);
    let m2 = map_of(pre).insert((device, code), st);
    assert forall|k: (u32, u16)| m1.contains_key(k) == m2.contains_key(k) by {
        if !(k.0 == device && k.1 == code) {
            assert(post.spec_get(k.0, k.1) == pre.spec_get(k.0, k.1));
        }
    }
    assert forall|k: (u32, u16)| m1.contains_key(k) implies m1[k] == m2[k] by {
        if !(k.0 == device && k.1 == code) {
            assert(post.spec_get(k.0, k.1) == pre.spec_get(k.0, k.1));
        }
    }
    assert(m1 =~= m2);
}

/// Owns the activation toggle and the per-device press states, and decides
/// suppress-versus-pass-through for every raw stroke.
pub struct EventDispatcher {
    settings: Settings,
    active: bool,
    key_states: StateTable,
    mouse_button_states: StateTable,
}

impl EventDispatcher {
    pub closed spec fn wf(self) -> bool {
        &&& self.key_states.wf()
        &&& self.mouse_button_states.wf()
        &&& forall|d: u32, c: u16| self.mouse_button_states.spec_get(d, c) is Some ==> c <= 4
    }

    pub closed spec fn settings_spec(self) -> Settings {
        self.settings
    }

    pub closed spec fn active_spec(self) -> bool {
        self.active
    }

    pub closed spec fn key_map(self) -> Map<(u32, u16), KeyState> {
        map_of(self.key_states)
    }

    pub closed spec fn button_map(self) -> Map<(u32, u16), KeyState> {
        map_of(self.mouse_button_states)
    }

    pub open spec fn disp_state(self) -> DispState {
        DispState { active: self.active_spec(), keys: self.key_map() }
    }

    /// A dispatcher that starts inactive with empty press-state tables.
    pub fn new(settings: Settings) -> (dsp: EventDispatcher)
        ensures
            dsp.wf(),
            !dsp.active_spec(),
            dsp.settings_spec() == settings,
            dsp.key_map() == Map::<(u32, u16), KeyState>::empty(),
            dsp.button_map() == Map::<(u32, u16), KeyState>::empty(),
    {
        let dsp = EventDispatcher {
            settings,
            active: false,
            key_states: StateTable::new(),
            mouse_button_states: StateTable::new(),
        };
        proof {
            assert(dsp.key_map() =~= Map::<(u32, u16), KeyState>::empty());
            assert(dsp.button_map() =~= Map::<(u32, u16), KeyState>::empty());
        }
        dsp
    }

    /// Whether remapping is currently active.
    pub fn is_active(&self) -> (b: bool)
        ensures
            b == self.active_spec(),
    {
        self.active
    }

    /// The synthetic releases owed right now: every key latched Down other
    /// than the toggle key, and every button latched Down.
    fn collect_ups(&self) -> (ups: Vec<OutputStroke>)
        requires
            self.wf(),
        ensures
            ups_complete(
                ups@,
                self.key_map(),
                self.button_map(),
                self.settings_spec().toggle_key,
            ),
    {
        let toggle_key = self.settings.toggle_key;
        let mut ups: Vec<OutputStroke> = Vec::new();
        let down = self.key_states.down_keys();
        let kn = down.len();
        let mut i: usize = 0;
        while i < kn
            invariant
                kn == down.len(),
                i <= kn,
                forall|d: u32, c: u16|
                    #[trigger] ups@.contains(OutputStroke::KeyUp(d, c)) <==> (down@.take(
                        i as int,
                    ).contains((d, c)) && c != toggle_key),
                forall|d: u32, b: MouseButton| !ups@.contains(OutputStroke::ButtonUp(d, b)),
                ups@.no_duplicates(),
                down@.no_duplicates(),
            decreases kn - i,
        {
            let (d0, c0) = down[i];
            if c0 != toggle_key {
                proof {
                    if ups@.contains(OutputStroke::KeyUp(d0, c0)) {
                        assert(down@.take(i as int).contains((d0, c0)));
                        let j = choose|j: int| 0 <= j < i && down@[j] == (d0, c0);
                        assert(down@[j] == down@[i as int]);
                        assert(false);
                    }
                }
                let ghost ups_old = ups@;
                ups.push(OutputStroke::KeyUp(d0, c0));
                proof {
                    assert forall|d: u32, c: u16|
                        #[trigger] ups@.contains(OutputStroke::KeyUp(d, c)) <==> (down@.take(
                            i as int + 1,
                        ).contains((d, c)) && c != toggle_key) by {
                        if ups@.contains(OutputStroke::KeyUp(d, c)) {
                            let k = choose|k: int|
                                0 <= k < ups@.len() && ups@[k] == OutputStroke::KeyUp(d, c);
                            if k < ups_old.len() {
                                assert(ups_old[k] == OutputStroke::KeyUp(d, c));
                                assert(ups_old.contains(OutputStroke::KeyUp(d, c)));
                                let j = choose|j: int| 0 <= j < i && down@[j] == (d, c);
                                assert(down@.take(i as int + 1)[j] == (d, c));
                            } else {
                                assert(ups@[k] == OutputStroke::KeyUp(d0, c0));
                                assert(down@.take(i as int + 1)[i as int] == (d, c));
                            }
                        }
                        if down@.take(i as int + 1).contains((d, c)) && c != toggle_key {
                            let j = choose|j: int|
                                0 <= j < i + 1 && (#[trigger] down@.take(i as int + 1)[j]) == (
                                d,
                                c,
                                );
                            if j < i {
                                assert(down@.take(i as int)[j] == (d, c));
                                assert(ups_old.contains(OutputStroke::KeyUp(d, c)));
                                let k = choose|k: int|
                                    0 <= k < ups_old.len() && ups_old[k] == OutputStroke::KeyUp(
                                        d,
                                        c,
                                    );
                                assert(ups@[k] == OutputStroke::KeyUp(d, c));
                            } else {
                                assert((d, c) == (d0, c0));
                                assert(ups@[ups@.len() - 1] == OutputStroke::KeyUp(d, c));
                            }
                        }
                    }
                    assert forall|d: u32, b: MouseButton|
                        !ups@.contains(OutputStroke::ButtonUp(d, b)) by {
                        if ups@.contains(OutputStroke::ButtonUp(d, b)) {
                            let k = choose|k: int|
                                0 <= k < ups@.len() && ups@[k] == OutputStroke::ButtonUp(d, b);
                            if k < ups_old.len() {
                                assert(ups_old[k] == OutputStroke::ButtonUp(d, b));
                                assert(ups_old.contains(OutputStroke::ButtonUp(d, b)));
                            }
                        }
                    }
                    assert(ups@.no_duplicates()) by {
                        assert(forall|k: int| 0 <= k < ups_old.len() ==> ups@[k] == ups_old[k]);
                        assert(!ups_old.contains(OutputStroke::KeyUp(d0, c0)));
                        assert(forall|p: int, q: int|
                            0 <= p < q < ups@.len() && q < ups@.len() - 1 ==> ups@[p] != ups@[q]);
                        assert(forall|p: int|
                            0 <= p < ups@.len() - 1 ==> #[trigger] ups@[p] != ups@[ups@.len()
                                - 1]);
                    }
                }
            } else {
                proof {
                    assert forall|d: u32, c: u16|
                        #[trigger] ups@.contains(OutputStroke::KeyUp(d, c)) <==> (down@.take(
                            i as int + 1,
                        ).contains((d, c)) && c != toggle_key) by {
                        if down@.take(i as int + 1).contains((d, c)) && c != toggle_key {
                            let j = choose|j: int|
                                0 <= j < i + 1 && (#[trigger] down@.take(i as int + 1)[j]) == (
                                d,
                                c,
                                );
                            assert(j < i || c == toggle_key);
                            if j < i {
                                assert(down@.take(i as int)[j] == (d, c));
                            }
                        }
                        if ups@.contains(OutputStroke::KeyUp(d, c)) {
                            assert(down@.take(i as int).contains((d, c)) && c != toggle_key);
                            let j = choose|j: int|
                                0 <= j < i && (#[trigger] down@.take(i as int)[j]) == (d, c);
                            assert(down@.take(i as int + 1)[j] == (d, c));
                        }
                    }
                }
            }
            i = i + 1;
        }
        proof {
            assert(down@.take(kn as int) =~= down@);
        }
        let btns = self.mouse_button_states.down_keys();
        let bn = btns.len();
        let mut i2: usize = 0;
        while i2 < bn
            invariant
                self.wf(),
                bn == btns.len(),
                i2 <= bn,
                forall|d: u32, c: u16|
                    #[trigger] btns@.contains((d, c)) <==> self.mouse_button_states.spec_get(d, c)
                        == Some(KeyState::Down),
                forall|d: u32, c: u16|
                    #[trigger] ups@.contains(OutputStroke::KeyUp(d, c)) <==> (down@.contains((
                        d,
                        c,
                    )) && c != toggle_key),
                forall|d: u32, b: MouseButton|
                    #[trigger] ups@.contains(OutputStroke::ButtonUp(d, b)) <==> btns@.take(
                        i2 as int,
                    ).contains((d, b.index_spec())),
                ups@.no_duplicates(),
                btns@.no_duplicates(),
            decreases bn - i2,
        {
            let (d0, c0) = btns[i2];
            proof {
                assert(btns@.contains((d0, c0)));
                assert(self.mouse_button_states.spec_get(d0, c0) == Some(KeyState::Down));
                assert(c0 <= 4);
            }
            let b0 = match MouseButton::from_index(c0) {
                Some(b0) => b0,
                None => {
                    proof {
                        assert(false);
                    }
                    MouseButton::Left
                },
            };
            proof {
                assert(b0.index_spec() == c0);
                if ups@.contains(OutputStroke::ButtonUp(d0, b0)) {
                    assert(btns@.take(i2 as int).contains((d0, c0)));
                    let j = choose|j: int| 0 <= j < i2 && btns@[j] == (d0, c0);
                    assert(btns@[j] == btns@[i2 as int]);
                    assert(false);
                }
            }
            let ghost ups_old = ups@;
            ups.push(OutputStroke::ButtonUp(d0, b0));
            proof {
                assert forall|d: u32, c: u16|
                    #[trigger] ups@.contains(OutputStroke::KeyUp(d, c)) <==> (down@.contains((
                        d,
                        c,
                    )) && c != toggle_key) by {
                    if ups@.contains(OutputStroke::KeyUp(d, c)) {
                        let k = choose|k: int|
                            0 <= k < ups@.len() && ups@[k] == OutputStroke::KeyUp(d, c);
                        assert(k < ups_old.len());
                        assert(ups_old[k] == OutputStroke::KeyUp(d, c));
                        assert(ups_old.contains(OutputStroke::KeyUp(d, c)));
                    }
                    if down@.contains((d, c)) && c != toggle_key {
                        assert(ups_old.contains(OutputStroke::KeyUp(d, c)));
                        let k = choose|k: int|
                            0 <= k < ups_old.len() && ups_old[k] == OutputStroke::KeyUp(d, c);
                        assert(ups@[k] == OutputStroke::KeyUp(d, c));
                    }
                }
                assert forall|d: u32, b: MouseButton|
                    #[trigger] ups@.contains(OutputStroke::ButtonUp(d, b)) <==> btns@.take(
                        i2 as int + 1,
                    ).contains((d, b.index_spec())) by {
                    if ups@.contains(OutputStroke::ButtonUp(d, b)) {
                        let k = choose|k: int|
                            0 <= k < ups@.len() && ups@[k] == OutputStroke::ButtonUp(d, b);
                        if k < ups_old.len() {
                            assert(ups_old[k] == OutputStroke::ButtonUp(d, b));
                            assert(ups_old.contains(OutputStroke::ButtonUp(d, b)));
                            let j = choose|j: int|
                                0 <= j < i2 && (#[trigger] btns@.take(i2 as int)[j]) == (
                                d,
                                b.index_spec(),
                                );
                            assert(btns@.take(i2 as int + 1)[j] == (d, b.index_spec()));
                        } else {
                            assert(ups@[k] == OutputStroke::ButtonUp(d0, b0));
                            assert(btns@.take(i2 as int + 1)[i2 as int] == (d, b.index_spec()));
                        }
                    }
                    if btns@.take(i2 as int + 1).contains((d, b.index_spec())) {
                        let j = choose|j: int|
                            0 <= j < i2 + 1 && (#[trigger] btns@.take(i2 as int + 1)[j]) == (
                            d,
                            b.index_spec(),
                            );
                        if j < i2 {
                            assert(btns@.take(i2 as int)[j] == (d, b.index_spec()));
                            assert(ups_old.contains(OutputStroke::ButtonUp(d, b)));
                            let k = choose|k: int|
                                0 <= k < ups_old.len() && ups_old[k] == OutputStroke::ButtonUp(
                                    d,
                                    b,
                                );
                            assert(ups@[k] == OutputStroke::ButtonUp(d, b));
                        } else {
                            assert((d, b.index_spec()) == (d0, c0));
                            assert(b.index_spec() == b0.index_spec());
                            assert(b == b0) by {
                                crate::types::lemma_button_index_roundtrip(b);
                                crate::types::lemma_button_index_roundtrip(b0);
                            }
                            assert(ups@[ups@.len() - 1] == OutputStroke::ButtonUp(d, b));
                        }
                    }
                }
                assert(ups@.no_duplicates()) by {
                    assert(forall|k: int| 0 <= k < ups_old.len() ==> ups@[k] == ups_old[k]);
                    assert(!ups_old.contains(OutputStroke::ButtonUp(d0, b0)));
                    assert(forall|p: int, q: int|
                        0 <= p < q < ups@.len() && q < ups@.len() - 1 ==> ups@[p] != ups@[q]);
                    assert(forall|p: int|
                        0 <= p < ups@.len() - 1 ==> #[trigger] ups@[p] != ups@[ups@.len() - 1]);
                }
            }
            i2 = i2 + 1;
        }
        proof {
            assert(btns@.take(bn as int) =~= btns@);
            assert forall|d: u32, c: u16|
                #![trigger ups@.contains(OutputStroke::KeyUp(d, c))]
                #![trigger self.key_map().contains_key((d, c))]
                ups@.contains(OutputStroke::KeyUp(d, c)) <==> (self.key_map().contains_key((
                    d,
                    c,
                )) && self.key_map()[(d, c)] == KeyState::Down && c != toggle_key) by {
                assert(down@.contains((d, c)) <==> self.key_states.spec_get(d, c) == Some(
                    KeyState::Down,
                ));
            }
            assert forall|d: u32, b: MouseButton|
                #![trigger ups@.contains(OutputStroke::ButtonUp(d, b))]
                ups@.contains(OutputStroke::ButtonUp(d, b)) <==> (self.button_map().contains_key(
                    (d, b.index_spec()),
                ) && self.button_map()[(d, b.index_spec())] == KeyState::Down) by {
                assert(btns@.contains((d, b.index_spec()))
                    <==> self.mouse_button_states.spec_get(d, b.index_spec()) == Some(
                    KeyState::Down,
                ));
            }
        }
        ups
    }

    /// Flip the activation state. Deactivation emits one `Reset` and the
    /// synthetic releases for everything still latched Down.
    pub fn toggle_active(&mut self) -> (out: ToggleOutput)
        requires
            old(self).wf(),
        ensures
            final(self).wf(),
            final(self).settings_spec() == old(self).settings_spec(),
            final(self).active_spec() == !old(self).active_spec(),
            final(self).key_map() == old(self).key_map(),
            final(self).button_map() == old(self).button_map(),
            old(self).active_spec() ==> out.events@ == seq![Event::Reset] && ups_complete(
                out.ups@,
                old(self).key_map(),
                old(self).button_map(),
                old(self).settings_spec().toggle_key,
            ),
            !old(self).active_spec() ==> out.events@ == Seq::<Event>::empty() && out.ups@
                == Seq::<OutputStroke>::empty(),
    {
        self.active = !self.active;
        let mut events: Vec<Event> = Vec::new();
        let mut ups: Vec<OutputStroke> = Vec::new();
        proof {
            assert(events@ =~= Seq::<Event>::empty());
            assert(ups@ =~= Seq::<OutputStroke>::empty());
        }
        if !self.active {
            events.push(Event::Reset);
            proof {
                assert(events@ =~= seq![Event::Reset]);
            }
            ups = self.collect_ups();
        }
        ToggleOutput { events, ups }
    }

    /// Decide one keyboard stroke, as [`key_step`] describes, and update
    /// the press-state table.
    pub fn process_key(&mut self, device: u32, code: u16, state: KeyState) -> (out: DispatchOutput)
        requires
            old(self).wf(),
        ensures
            final(self).wf(),
            final(self).settings_spec() == old(self).settings_spec(),
            final(self).button_map() == old(self).button_map(),
            ({
                let step = key_step(
                    old(self).settings_spec().toggle_key,
                    old(self).settings_spec().excluded_keys@,
                    old(self).disp_state(),
                    device,
                    code,
                    state,
                );
                &&& final(self).disp_state() == step.state
                &&& out.pass_through == step.pass_through
                &&& out.events@ == step.events
            }),
            old(self).active_spec() && !final(self).active_spec() ==> ups_complete(
                out.ups@,
                final(self).key_map(),
                old(self).button_map(),
                old(self).settings_spec().toggle_key,
            ),
            !(old(self).active_spec() && !final(self).active_spec()) ==> out.ups@
                == Seq::<OutputStroke>::empty(),
    {
        let ghost pre = self.key_states;
        let changed = self.key_states.insert(device, code, state);
        proof {
            lemma_map_after_insert(pre, self.key_states, device, code, state);
            assert(changed == key_changed_spec(old(self).key_map(), device, code, state)) by {
                if pre.spec_get(device, code) is Some {
                    assert(old(self).key_map().contains_key((device, code)));
                }
            }
        }
        if self.settings.is_excluded(code) {
            let out = DispatchOutput { pass_through: true, events: Vec::new(), ups: Vec::new() };
            proof {
                assert(out.events@ =~= Seq::<Event>::empty());
                assert(out.ups@ =~= Seq::<OutputStroke>::empty());
            }
            return out;
        }
        if code == self.settings.toggle_key {
            if changed && matches!(state, KeyState::Down) {
                let t = self.toggle_active();
                return DispatchOutput { pass_through: false, events: t.events, ups: t.ups };
            }
            let out = DispatchOutput { pass_through: false, events: Vec::new(), ups: Vec::new() };
            proof {
                assert(out.events@ =~= Seq::<Event>::empty());
                assert(out.ups@ =~= Seq::<OutputStroke>::empty());
            }
            return out;
        }
        if self.active {
            let mut events: Vec<Event> = Vec::new();
            if changed {
                events.push(Event::Keyboard(code, state));
                proof {
                    assert(events@ =~= seq![Event::Keyboard(code, state)]);
                }
            } else {
                proof {
                    assert(events@ =~= Seq::<Event>::empty());
                }
            }
            let out = DispatchOutput { pass_through: false, events, ups: Vec::new() };
            proof {
                assert(out.ups@ =~= Seq::<OutputStroke>::empty());
            }
            out
        } else {
            let out = DispatchOutput { pass_through: true, events: Vec::new(), ups: Vec::new() };
            proof {
                assert(out.events@ =~= Seq::<Event>::empty());
                assert(out.ups@ =~= Seq::<OutputStroke>::empty());
            }
            out
        }
    }

    /// Record the transitions one button reports and emit its event while
    /// active.
    fn apply_button(&mut self, device: u32, word: u16, b: MouseButton, events: &mut Vec<Event>)
        requires
            old(self).wf(),
        ensures
            final(self).wf(),
            final(self).settings_spec() == old(self).settings_spec(),
            final(self).active_spec() == old(self).active_spec(),
            final(self).key_map() == old(self).key_map(),
            final(self).button_map() == apply_transition(
                old(self).button_map(),
                device,
                word,
                b,
            ),
            final(events)@ == old(events)@ + transition_event(
                word,
                old(self).active_spec(),
                b,
            ),
    {
        let down_flag: u16 = match b {
            MouseButton::Left => 0x001,
            MouseButton::Right => 0x004,
            MouseButton::Middle => 0x010,
            MouseButton::Button4 => 0x040,
            MouseButton::Button5 => 0x100,
        };
        let up_flag: u16 = match b {
            MouseButton::Left => 0x002,
            MouseButton::Right => 0x008,
            MouseButton::Middle => 0x020,
            MouseButton::Button4 => 0x080,
            MouseButton::Button5 => 0x200,
        };
        let has_down = word & down_flag != 0;
        let has_up = word & up_flag != 0;
        if (has_down && has_up) || (!has_down && !has_up) {
            proof {
                assert(final(events)@ =~= old(events)@ + transition_event(
                    word,
                    old(self).active_spec(),
                    b,
                ));
            }
            return;
        }
        let t = if has_down {
            KeyState::Down
        } else {
            KeyState::Up
        };
        let ghost pre = self.mouse_button_states;
        let idx = b.index();
        self.mouse_button_states.insert(device, idx, t);
        proof {
            lemma_map_after_insert(pre, self.mouse_button_states, device, idx, t);
            assert forall|d: u32, c: u16|
                self.mouse_button_states.spec_get(d, c) is Some implies c <= 4 by {
                if !(d == device && c == idx) {
                    assert(pre.spec_get(d, c) == self.mouse_button_states.spec_get(d, c));
                }
            }
        }
        if self.active {
            events.push(Event::MouseButton(b, t));
            proof {
                assert(final(events)@ =~= old(events)@ + transition_event(
                    word,
                    old(self).active_spec(),
                    b,
                ));
            }
        } else {
            proof {
                assert(final(events)@ =~= old(events)@ + transition_event(
                    word,
                    old(self).active_spec(),
                    b,
                ));
            }
        }
    }

    /// Decode one mouse state word: recognize at most one transition per
    /// button, record it, and emit button events while active.
    pub fn process_mouse_state(&mut self, device: u32, word: u16) -> (events: Vec<Event>)
        requires
            old(self).wf(),
        ensures
            final(self).wf(),
            final(self).settings_spec() == old(self).settings_spec(),
            final(self).active_spec() == old(self).active_spec(),
            final(self).key_map() == old(self).key_map(),
            final(self).button_map() == apply_transitions(old(self).button_map(), device, word),
            events@ == transition_events(word, old(self).active_spec()),
    {
        let mut events: Vec<Event> = Vec::new();
        self.apply_button(device, word, MouseButton::Left, &mut events);
        self.apply_button(device, word, MouseButton::Right, &mut events);
        self.apply_button(device, word, MouseButton::Middle, &mut events);
        self.apply_button(device, word, MouseButton::Button4, &mut events);
        self.apply_button(device, word, MouseButton::Button5, &mut events);
        proof {
            assert(events@ =~= transition_events(word, old(self).active_spec()));
        }
        events
    }

    /// Decide one raw stroke: keyboard strokes go through [`key_step`];
    /// mouse strokes record button transitions, forward motion while
    /// active, and are suppressed exactly while active.
    pub fn process_stroke(&mut self, device: u32, stroke: RawEvent) -> (out: DispatchOutput)
        requires
            old(self).wf(),
        ensures
            final(self).wf(),
            final(self).settings_spec() == old(self).settings_spec(),
            stroke matches RawEvent::Keyboard { code, flags } ==> {
                let step = key_step(
                    old(self).settings_spec().toggle_key,
                    old(self).settings_spec().excluded_keys@,
                    old(self).disp_state(),
                    device,
                    code,
                    key_state_of_flags_spec(flags),
                );
                &&& final(self).disp_state() == step.state
                &&& final(self).button_map() == old(self).button_map()
                &&& out.pass_through == step.pass_through
                &&& out.events@ == step.events
                &&& (old(self).active_spec() && !final(self).active_spec() ==> ups_complete(
                    out.ups@,
                    final(self).key_map(),
                    old(self).button_map(),
                    old(self).settings_spec().toggle_key,
                ))
                &&& (!(old(self).active_spec() && !final(self).active_spec()) ==> out.ups@
                    == Seq::<OutputStroke>::empty())
            },
            stroke matches RawEvent::Mouse { buttons, dx, dy } ==> {
                &&& final(self).active_spec() == old(self).active_spec()
                &&& final(self).key_map() == old(self).key_map()
                &&& final(self).button_map() == apply_transitions(
                    old(self).button_map(),
                    device,
                    buttons,
                )
                &&& out.pass_through == !old(self).active_spec()
                &&& out.events@ == transition_events(buttons, old(self).active_spec()) + (if old(
                    self,
                ).active_spec() && (dx != 0 || dy != 0) {
                    seq![Event::MouseMove(dx, dy)]
                } else {
                    Seq::<Event>::empty()
                })
                &&& out.ups@ == Seq::<OutputStroke>::empty()
            },
    {
        match stroke {
            RawEvent::Keyboard { code, flags } => {
                let state = key_state_of_flags(flags);
                self.process_key(device, code, state)
            },
            RawEvent::Mouse { buttons, dx, dy } => {
                let ghost events_before = transition_events(buttons, old(self).active_spec());
                let mut events = self.process_mouse_state(device, buttons);
                let pass_through = !self.active;
                if self.active && (dx != 0 || dy != 0) {
                    events.push(Event::MouseMove(dx, dy));
                    proof {
                        assert(events@ =~= events_before + seq![Event::MouseMove(dx, dy)]);
                    }
                } else {
                    proof {
                        assert(events@ =~= events_before + Seq::<Event>::empty());
                    }
                }
                let out = DispatchOutput { pass_through, events, ups: Vec::new() };
                proof {
                    assert(out.ups@ =~= Seq::<OutputStroke>::empty());
                }
                out
            },
        }
    }
}

} // verus!
