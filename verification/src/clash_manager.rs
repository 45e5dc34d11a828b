//! An input handler that carries its own clash settings, and tells inputs bound once apart from
//! inputs that several bindings share.
use vstd::prelude::*;

use bevy::platform::collections::HashMap;

use crate::time::{Duration, Instant, span_between};
use crate::{BevyInputKind, InputValue};

verus! {

/// Current state of an input.
#[derive(Debug, Clone, Copy, PartialEq, Eq, Structural)]
pub enum InputStateKind {
    /// Exactly 1 binding has been made to this input. Clash checks can be ignored.
    NoClash,
    /// State is currently inactive.
    Inactive,
    /// At least 1 input wants to
    Clashing(usize),
    /// Input is being buffered and is being reported as inactive, shall become released with
    /// the same `usize` for at least 1 frame.
    Buffered(Instant, usize),
    /// State is currently active if you meet the priority stored.
    Active(usize),
}

impl Default for InputStateKind {
    fn default() -> (r: Self)
        ensures
            r == InputStateKind::NoClash,
    {
        InputStateKind::NoClash
    }
}

impl InputStateKind {
    pub fn inactive() -> (r: Self)
        ensures
            r == InputStateKind::Inactive,
    {
        InputStateKind::Inactive
    }

    pub fn clashing(len: usize) -> (r: Self)
        ensures
            r == InputStateKind::Clashing(len),
    {
        InputStateKind::Clashing(len)
    }

    /// A buffering for chords of `len` inputs that starts now.
    pub fn buffered(len: usize) -> (r: Self)
        ensures
            r is Buffered,
            r->Buffered_1 == len,
    {
        InputStateKind::Buffered(Instant::now(), len)
    }

    pub fn buffered_with_instant(len: usize, i: Instant) -> (r: Self)
        ensures
            r == InputStateKind::Buffered(i, len),
    {
        InputStateKind::Buffered(i, len)
    }

    pub fn active(len: usize) -> (r: Self)
        ensures
            r == InputStateKind::Active(len),
    {
        InputStateKind::Active(len)
    }

    pub fn replace(&mut self, new: Self)
        ensures
            *final(self) == new,
    {
        *self = new;
    }
}

/// The clash state of one input.
#[derive(Debug, Clone, Copy, PartialEq, Eq, Structural)]
pub struct InputState {
    /// The last frame this was updated by a poll call.
    pub frame: usize,
    /// The actual state.
    pub kind: InputStateKind,
    /// The last input feed into the state.
    pub value: InputValue,
}

/// The settings to use for resolving clashing inputs.
#[derive(Clone, Copy, Debug, PartialEq, Eq, Structural)]
pub enum ClashSettings {
    /// Does not buffer inputs, just detects clashes. Inputs that may clash will be re-checked after all inputs
    /// have had a chance to assert their priority.
    ///
    /// # Rules
    ///
    /// - If a high priority binding captures a button, that button must be released before a lower priority
    ///   binding can see it again.
    ///
    Unbuffered,
    /// Buffers inputs that can clash until a timer runs out or unpressed.
    ///
    /// # Rules
    ///
    /// - An input will NEVER be active/shown the first frame it is pressed. Unlike Unbuffered re-checks
    ///   are not necessary because every binding will have a chance to be prioritized for chords.
    /// - If a wait duration is provided the input will be inactive/hidden to all bindings until the button has been
    ///   active for at least that long.
    /// - If the timer runs out or the button is unpressed: the chord with the most active parts will be activated.
    /// - If a high priority binding captures a button, that button must be released before a lower priority
    ///   binding can see it again.
    /// - If a chord has multiple buffered inputs, all inputs start times will be set the the oldest.
    BufferClashing(Option<Duration>),
    /// Buffers all inputs until a timer runs out or unpressed.
    ///
    /// # Rules
    ///
    /// - An input will NEVER be active/shown the first frame it is pressed. Unlike Unbuffered re-checks
    ///   are not necessary because every binding will have a chance to be prioritized for chords.
    /// - If a wait duration is provided the input will be inactive/hidden to all bindings until the button has been
    ///   active for at least that long.
    /// - If the timer runs out or the button is unpressed: the chord with the most active parts will be activated.
    /// - If a high priority binding captures a button, that button must be released before a lower priority
    ///   binding can see it again.
    /// - If a chord has multiple buffered inputs, all inputs start times will be set the the oldest.
    BufferAll(Option<Duration>),
}

impl ClashSettings {
    /// Return new settings that use buffered clash resolution where `delay` is the amount of time to wait before
    /// resolving; if `delay` is `None` input will buffer for 1 frame.
    pub fn new_buffered(delay: Option<Duration>) -> (r: Self)
        ensures
            r == ClashSettings::BufferClashing(delay),
    {
        ClashSettings::BufferClashing(delay)
    }

    /// Returns new settings that use unbuffered clash resolution where inputs that might clash re-check after all
    /// bindings have been checked at least once.
    pub fn new_unbuffered() -> (r: Self)
        ensures
            r == ClashSettings::Unbuffered,
    {
        ClashSettings::Unbuffered
    }

    /// Whether every input is buffered, also those bound only once.
    fn buffer_all(&self) -> (r: bool)
        ensures
            r == (*self is BufferAll),
    {
        match self {
            ClashSettings::BufferAll(_) => true,
            _ => false,
        }
    }
}

impl Default for ClashSettings {
    fn default() -> (r: Self)
        ensures
            r == ClashSettings::Unbuffered,
    {
        ClashSettings::Unbuffered
    }
}

/// The states held by a map of inputs of an [`InputHandler`].
pub uninterp spec fn handler_states(m: HashMap<BevyInputKind, InputState>) -> Map<BevyInputKind, InputState>;

/// Calls `HashMap::new` of `bevy_platform`: the new map holds nothing.
#[verifier::external_body]
fn states_new() -> (r: HashMap<BevyInputKind, InputState>)
    ensures
        handler_states(r).dom().is_empty(),
{
    HashMap::new()
}

/// Calls `HashMap::get` of `bevy_platform` and copies the state found: the state stored under
/// `k`, if any.
#[verifier::external_body]
fn states_get(m: &HashMap<BevyInputKind, InputState>, k: &BevyInputKind) -> (r: Option<InputState>)
    ensures
        r == (if handler_states(*m).contains_key(*k) {
            Some(handler_states(*m)[*k])
        } else {
            None
        }),
{
    m.get(k).copied()
}

/// Calls `HashMap::insert` of `bevy_platform`: afterwards `k` maps to `v` and every other key
/// keeps its state.
#[verifier::external_body]
fn states_insert(m: &mut HashMap<BevyInputKind, InputState>, k: BevyInputKind, v: InputState)
    ensures
        handler_states(*final(m)) == handler_states(*old(m)).insert(k, v),
{
    m.insert(k, v);
}

/// Calls `HashMap::keys` of `bevy_platform` and collects the keys: each key of the map once, in
/// an order the map chooses.
#[verifier::external_body]
fn states_keys(m: &HashMap<BevyInputKind, InputState>) -> (r: Vec<BevyInputKind>)
    ensures
        r@.no_duplicates(),
        r@.to_set() == handler_states(*m).dom(),
{
    m.keys().copied().collect()
}

/// Calls `HashMap::clear` of `bevy_platform`: afterwards the map holds nothing.
#[verifier::external_body]
fn states_clear(m: &mut HashMap<BevyInputKind, InputState>)
    ensures
        handler_states(*final(m)).dom().is_empty(),
{
    m.clear();
}

/// Management of a players bindings and the states.
pub struct InputHandler {
    /// a counter that is increased when ever `Self::tick` is called.
    frame: usize,
    /// All known bindings and the state of the input.
    clashables: HashMap<BevyInputKind, InputState>,
    /// The settings used for the resolution of clashing bindings.
    settings: ClashSettings,
}

impl InputHandler {
    /// The frame counter.
    pub closed spec fn frame_spec(&self) -> usize {
        self.frame
    }

    /// The clash state of every registered input.
    pub closed spec fn states(&self) -> Map<BevyInputKind, InputState> {
        handler_states(self.clashables)
    }

    /// The settings used for the resolution of clashing bindings.
    pub closed spec fn settings_spec(&self) -> ClashSettings {
        self.settings
    }

    /// A handler with no registered inputs, at frame zero, that resolves clashes by `settings`.
    pub fn with_settings(settings: ClashSettings) -> (r: Self)
        ensures
            r.frame_spec() == 0,
            r.states() == Map::<BevyInputKind, InputState>::empty(),
            r.settings_spec() == settings,
    {
        InputHandler { frame: 0, clashables: states_new(), settings }
    }

    /// The settings used for clash handling.
    pub fn settings(&self) -> (r: &ClashSettings)
        ensures
            *r == self.settings_spec(),
    {
        &self.settings
    }

    /// Please update_list after using this, because some input may be in a state that will not
    /// allow the input to enter a state that is correct for the new settings.
    pub fn set_settings(&mut self, new: ClashSettings)
        ensures
            final(self).settings_spec() == new,
            final(self).frame_spec() == old(self).frame_spec(),
            final(self).states() == old(self).states(),
    {
        self.settings = new;
    }

    /// The frame counter.
    pub fn frame(&self) -> (r: usize)
        ensures
            r == self.frame_spec(),
    {
        self.frame
    }

    /// The clash state of `kind`, if it is registered.
    pub fn state_of(&self, kind: &BevyInputKind) -> (r: Option<InputState>)
        ensures
            r == (if self.states().contains_key(*kind) { Some(self.states()[*kind]) } else { None }),
    {
        states_get(&self.clashables, kind)
    }

    /// Every registered input, each once.
    pub fn input_kinds(&self) -> (r: Vec<BevyInputKind>)
        ensures
            r@.no_duplicates(),
            r@.to_set() == self.states().dom(),
    {
        states_keys(&self.clashables)
    }

    /// Stores the latest reading of `kind`; an unregistered input is ignored.
    pub fn set_value(&mut self, kind: &BevyInputKind, value: InputValue)
        ensures
            final(self).frame_spec() == old(self).frame_spec(),
            final(self).settings_spec() == old(self).settings_spec(),
            old(self).states().contains_key(*kind) ==> final(self).states() == old(self).states().insert(
                *kind,
                InputState { value, ..old(self).states()[*kind] },
            ),
            !old(self).states().contains_key(*kind) ==> final(self).states() == old(self).states(),
    {
        match states_get(&self.clashables, kind) {
            Some(state) => {
                states_insert(&mut self.clashables, *kind, InputState { value, ..state });
            },
            None => {},
        }
    }
}

impl From<ClashSettings> for InputHandler {
    fn from(value: ClashSettings) -> (r: Self)
        ensures
            r.frame_spec() == 0,
            r.states() == Map::<BevyInputKind, InputState>::empty(),
            r.settings_spec() == value,
    {
        InputHandler::with_settings(value)
    }
}

/// A handler holds a map that no spec value describes, so the conversion is stated by the
/// `ensures` of `from` alone.
impl vstd::std_specs::convert::FromSpecImpl<ClashSettings> for InputHandler {
    open spec fn obeys_from_spec() -> bool {
        false
    }

    open spec fn from_spec(value: ClashSettings) -> Self {
        vstd::pervasive::arbitrary()
    }
}

impl Default for InputHandler {
    fn default() -> (r: Self)
        ensures
            r.frame_spec() == 0,
            r.states() == Map::<BevyInputKind, InputState>::empty(),
            r.settings_spec() == ClashSettings::Unbuffered,
    {
        InputHandler::with_settings(ClashSettings::Unbuffered)
    }
}

/// The kind an input has after the end of a frame, under `settings`.
///
/// `polled` tells whether a pressed chord polled the input during the frame that ends, `elapsed`
/// how long the input has been buffered.
pub open spec fn ticked_kind(kind: InputStateKind, polled: bool, settings: ClashSettings, elapsed: nat) -> InputStateKind {
    if !polled {
        match kind {
            InputStateKind::NoClash => InputStateKind::NoClash,
            _ => InputStateKind::Inactive,
        }
    } else {
        match kind {
            InputStateKind::Buffered(_, len) => match settings {
                ClashSettings::BufferClashing(delay) => if delay is None || elapsed >= delay->0@ {
                    InputStateKind::Active(len)
                } else {
                    kind
                },
                ClashSettings::BufferAll(delay) => if delay is None || elapsed >= delay->0@ {
                    InputStateKind::Active(len)
                } else {
                    kind
                },
                ClashSettings::Unbuffered => kind,
            },
            InputStateKind::Clashing(priority) => InputStateKind::Active(priority),
            _ => kind,
        }
    }
}

/// How long an input in state `kind` has been buffered at the clock reading `now` (zero when it
/// is not buffered).
pub open spec fn buffered_for(kind: InputStateKind, now: Instant) -> nat {
    match kind {
        InputStateKind::Buffered(start, _) => span_between(start@, now@),
        _ => 0,
    }
}

/// `next` is what `tick` makes of `prev` at frame `frame`, with the clock reading `now`.
pub open spec fn ticked_at(prev: InputState, next: InputState, frame: usize, settings: ClashSettings, now: Instant) -> bool {
    next == InputState { kind: ticked_kind(prev.kind, prev.frame == frame, settings, buffered_for(prev.kind, now)), ..prev }
}

/// Every input of `after` is what `tick` makes of the same input of `before`, with one clock
/// reading `now` for all of them.
pub open spec fn ticked_all(
    before: Map<BevyInputKind, InputState>,
    after: Map<BevyInputKind, InputState>,
    frame: usize,
    settings: ClashSettings,
    now: Instant,
) -> bool {
    forall|k: BevyInputKind| #[trigger] after.contains_key(k) ==> ticked_at(before[k], after[k], frame, settings, now)
}

/// `kinds[..upto]` holds `k` at least twice.
pub open spec fn bound_twice(kinds: Seq<BevyInputKind>, k: BevyInputKind, upto: int) -> bool {
    exists|a: int, b: int| 0 <= a < b < upto && #[trigger] kinds[a] == k && #[trigger] kinds[b] == k
}

/// The state `update_list` gives an input of `kinds` at frame `frame`: an input listed more
/// than once may clash, an input listed once may not.
pub open spec fn listed_state(kinds: Seq<BevyInputKind>, k: BevyInputKind, frame: usize) -> InputState {
    InputState {
        frame,
        kind: if bound_twice(kinds, k, kinds.len() as int) {
            InputStateKind::Inactive
        } else {
            InputStateKind::NoClash
        },
        value: InputValue::Pressed(false),
    }
}

/// Whether the state of a registered input keeps a chord of `len` inputs from seeing it on a
/// second look.
pub open spec fn blocks_repoll(state: InputState, len: nat) -> bool {
    match state.kind {
        InputStateKind::NoClash => false,
        InputStateKind::Inactive => true,
        InputStateKind::Buffered(_, _) => true,
        InputStateKind::Clashing(chord_len) => len != chord_len,
        InputStateKind::Active(chord_len) => len != chord_len,
    }
}

/// What a second look at `chord` sees.
pub open spec fn repoll_value(states: Map<BevyInputKind, InputState>, chord: Seq<BevyInputKind>) -> InputValue {
    if chord.len() == 0 {
        InputValue::Pressed(false)
    } else if exists|i: int|
        0 <= i < chord.len() && states.contains_key(chord[i]) && blocks_repoll(
            #[trigger] states[chord[i]],
            chord.len(),
        ) {
        InputValue::Pressed(false)
    } else if states.contains_key(chord[0]) {
        states[chord[0]].value
    } else {
        InputValue::Pressed(false)
    }
}

/// The set of the first `i + 1` items of `s` is that of the first `i` with `s[i]` added.
proof fn lemma_prefix_set_push(s: Seq<BevyInputKind>, i: int)
    requires
        0 <= i < s.len(),
    ensures
        s.subrange(0, i + 1).to_set() == s.subrange(0, i).to_set().insert(s[i]),
{
    let prefix = s.subrange(0, i);
    let c = s[i];
    assert(s.subrange(0, i + 1) == prefix.push(c));
    assert forall|x: BevyInputKind| prefix.push(c).contains(x) <==> (prefix.contains(x) || x == c) by {
        if prefix.push(c).contains(x) {
            let j = choose|j: int| 0 <= j < prefix.push(c).len() && prefix.push(c)[j] == x;
            if j < prefix.len() {
                assert(prefix[j] == x);
            }
        }
        if x == c {
            assert(prefix.push(c)[prefix.len() as int] == c);
        }
        if prefix.contains(x) {
            let j = choose|j: int| 0 <= j < prefix.len() && prefix[j] == x;
            assert(prefix.push(c)[j] == x);
        }
    }
    assert(prefix.push(c).to_set() =~= prefix.to_set().insert(c));
}

impl InputHandler {
    /// Does some internal cleaning that is only possible between bindings checking for their inputs
    /// because we can assume that all (or none) of the inputs have been given a change to fight for priority.
    ///
    /// - if the input state has a frame not equal to the current frame: change to inactive.
    /// - else if the input state is buffered and the timer has expired: change to active.
    /// - else if the input state is clashing : change to active.
    /// - increases the internal counter for "frames" after all above steps.
    ///
    pub fn tick_at(&mut self, now: Instant)
        requires
            old(self).frame_spec() < usize::MAX,
        ensures
            final(self).frame_spec() == old(self).frame_spec() + 1,
            ticked_all(old(self).states(), final(self).states(), old(self).frame_spec(), old(self).settings_spec(), now),
            final(self).settings_spec() == old(self).settings_spec(),
            final(self).states().dom() == old(self).states().dom(),
    {
        let keys = states_keys(&self.clashables);
        let ghost old_states = handler_states(self.clashables);
        let mut i: usize = 0;
        while i < keys.len()
            invariant
                i <= keys@.len(),
                keys@.no_duplicates(),
                keys@.to_set() == old_states.dom(),
                self.frame == old(self).frame,
                self.settings == old(self).settings,
                old_states == old(self).states(),
                handler_states(self.clashables).dom() == old_states.dom(),
                forall|j: int|
                    0 <= j < i ==> ticked_at(
                        old_states[keys@[j]],
                        #[trigger] handler_states(self.clashables)[keys@[j]],
                        self.frame,
                        self.settings,
                        now,
                    ),
                forall|j: int|
                    i <= j < keys@.len() ==> #[trigger] handler_states(self.clashables)[keys@[j]]
                        == old_states[keys@[j]],
            decreases keys@.len() - i,
        {
            let k = keys[i];
            assert(keys@.to_set().contains(keys@[i as int]));
            let state = states_get(&self.clashables, &k).unwrap();
            assert(state == old_states[k]);
            let ghost buffered_span: nat = buffered_for(state.kind, now);
            let new = if state.frame != self.frame {
                match state.kind {
                    InputStateKind::Inactive => None,
                    InputStateKind::NoClash => None,
                    _ => Some(InputStateKind::inactive()),
                }
            } else {
                let delay = match self.settings {
                    ClashSettings::BufferClashing(d) => Some(d),
                    ClashSettings::BufferAll(d) => Some(d),
                    ClashSettings::Unbuffered => None,
                };
                match (delay, state.kind) {
                    (Some(d), InputStateKind::Buffered(start, len)) => match d {
                        Some(d) => {
                            let elapsed = now.duration_since(&start);
                            if elapsed.as_nanos() >= d.as_nanos() {
                                Some(InputStateKind::active(len))
                            } else {
                                None
                            }
                        },
                        None => Some(InputStateKind::active(len)),
                    },
                    (_, InputStateKind::Clashing(priority)) => Some(InputStateKind::active(priority)),
                    _ => None,
                }
            };
            let mut next = state;
            match new {
                Some(new) => next.kind.replace(new),
                None => {},
            }
            assert(next == InputState {
                kind: ticked_kind(state.kind, state.frame == self.frame, self.settings, buffered_span),
                ..state
            });
            states_insert(&mut self.clashables, k, next);
            proof {
                assert forall|j: int| 0 <= j < i + 1 implies ticked_at(
                    old_states[keys@[j]],
                    #[trigger] handler_states(self.clashables)[keys@[j]],
                    self.frame,
                    self.settings,
                    now,
                ) by {
                    if j == i {
                        assert(handler_states(self.clashables)[keys@[j]] == InputState {
                            kind: ticked_kind(old_states[keys@[j]].kind, old_states[keys@[j]].frame == self.frame, self.settings, buffered_span),
                            ..old_states[keys@[j]]
                        });
                    } else {
                        assert(keys@[j] != keys@[i as int]);
                    }
                }
                assert forall|j: int| i + 1 <= j < keys@.len() implies #[trigger] handler_states(self.clashables)[keys@[j]]
                    == old_states[keys@[j]] by {
                    assert(keys@[j] != keys@[i as int]);
                }
            }
            i = i + 1;
        }
        proof {
            assert forall|k: BevyInputKind| #[trigger] handler_states(self.clashables).contains_key(k) implies ticked_at(
                old_states[k],
                handler_states(self.clashables)[k],
                old(self).frame,
                old(self).settings,
                now,
            ) by {
                assert(keys@.to_set().contains(k));
                let j = choose|j: int| 0 <= j < keys@.len() && keys@[j] == k;
                assert(ticked_at(old_states[keys@[j]], handler_states(self.clashables)[keys@[j]], self.frame, self.settings, now));
            }
        }
        self.frame = self.frame + 1;
    }

    /// Ends a frame at the current point in time, as [`Self::tick_at`] does for that reading.
    pub fn tick(&mut self)
        requires
            old(self).frame_spec() < usize::MAX,
        ensures
            final(self).frame_spec() == old(self).frame_spec() + 1,
            final(self).settings_spec() == old(self).settings_spec(),
            final(self).states().dom() == old(self).states().dom(),
            exists|now: Instant| #[trigger] ticked_all(old(self).states(), final(self).states(), old(self).frame_spec(), old(self).settings_spec(), now),
    {
        let now = Instant::now();
        self.tick_at(now);
    }

    /// Replaces the registered inputs by `kinds` and resets all states: an input listed more than
    /// once may clash, an input listed once is left out of clash checks.
    pub fn update_list(&mut self, kinds: &[BevyInputKind])
        ensures
            final(self).frame_spec() == old(self).frame_spec(),
            final(self).settings_spec() == old(self).settings_spec(),
            final(self).states().dom() == kinds@.to_set(),
            forall|k: BevyInputKind|
                #[trigger] final(self).states().contains_key(k) ==> final(self).states()[k] == listed_state(
                    kinds@,
                    k,
                    old(self).frame_spec(),
                ),
    {
        states_clear(&mut self.clashables);
        let mut i: usize = 0;
        while i < kinds.len()
            invariant
                i <= kinds@.len(),
                self.frame == old(self).frame,
                self.settings == old(self).settings,
                handler_states(self.clashables).dom() == kinds@.subrange(0, i as int).to_set(),
                forall|k: BevyInputKind|
                    #[trigger] handler_states(self.clashables).contains_key(k) ==> handler_states(self.clashables)[k]
                        == (InputState {
                        frame: self.frame,
                        kind: if bound_twice(kinds@, k, i as int) {
                            InputStateKind::Inactive
                        } else {
                            InputStateKind::NoClash
                        },
                        value: InputValue::Pressed(false),
                    }),
            decreases kinds@.len() - i,
        {
            let c = kinds[i];
            let ghost before = handler_states(self.clashables);
            match states_get(&self.clashables, &c) {
                Some(state) => {
                    if state.kind == InputStateKind::NoClash {
                        states_insert(&mut self.clashables, c, InputState { kind: InputStateKind::Inactive, ..state });
                    }
                },
                None => {
                    states_insert(
                        &mut self.clashables,
                        c,
                        InputState { frame: self.frame, kind: InputStateKind::NoClash, value: InputValue::Pressed(false) },
                    );
                },
            }
            proof {
                lemma_prefix_set_push(kinds@, i as int);
                let prefix = kinds@.subrange(0, i as int);
                assert forall|k: BevyInputKind| bound_twice(kinds@, k, i + 1) <==> (bound_twice(kinds@, k, i as int) || (k
                    == c && prefix.to_set().contains(c))) by {
                    if bound_twice(kinds@, k, i + 1) && !bound_twice(kinds@, k, i as int) {
                        let (a, b) = choose|a: int, b: int|
                            0 <= a < b < i + 1 && #[trigger] kinds@[a] == k && #[trigger] kinds@[b] == k;
                        assert(b == i);
                        assert(prefix[a] == c);
                        assert(prefix.contains(c));
                    }
                    if k == c && prefix.to_set().contains(c) {
                        let a = choose|a: int| 0 <= a < prefix.len() && prefix[a] == c;
                        assert(kinds@[a] == k && kinds@[i as int] == k);
                        assert(bound_twice(kinds@, k, i + 1));
                    }
                    if bound_twice(kinds@, k, i as int) {
                        let (a, b) = choose|a: int, b: int|
                            0 <= a < b < i && #[trigger] kinds@[a] == k && #[trigger] kinds@[b] == k;
                        assert(bound_twice(kinds@, k, i + 1));
                    }
                }
                assert forall|k: BevyInputKind| #[trigger] handler_states(self.clashables).contains_key(k)
                    implies handler_states(self.clashables)[k] == (InputState {
                    frame: self.frame,
                    kind: if bound_twice(kinds@, k, i + 1) {
                        InputStateKind::Inactive
                    } else {
                        InputStateKind::NoClash
                    },
                    value: InputValue::Pressed(false),
                }) by {
                    if k == c {
                        if before.contains_key(c) {
                            assert(prefix.to_set().contains(c));
                        } else {
                            assert(!prefix.to_set().contains(c));
                            if bound_twice(kinds@, k, i as int) {
                                let (a, b) = choose|a: int, b: int|
                                    0 <= a < b < i && #[trigger] kinds@[a] == k && #[trigger] kinds@[b] == k;
                                assert(prefix[a] == c);
                                assert(prefix.to_set().contains(c));
                            }
                        }
                    } else {
                        assert(before.contains_key(k));
                    }
                }
            }
            i = i + 1;
        }
        assert(kinds@.subrange(0, kinds@.len() as int) == kinds@);
    }

    /// Only preforms a check of what input to use, does not preform any state changing.
    ///
    /// It is expected that this is only ever called on inputs that got a `None` from [`Self::poll`].
    pub fn repoll(&self, clashable: &[BevyInputKind]) -> (r: InputValue)
        ensures
            r == repoll_value(self.states(), clashable@),
    {
        if clashable.len() == 0 {
            return InputValue::Pressed(false);
        }
        let mut i: usize = 0;
        while i < clashable.len()
            invariant
                i <= clashable@.len(),
                clashable@.len() > 0,
                forall|j: int|
                    0 <= j < i ==> !(handler_states(self.clashables).contains_key(clashable@[j]) && blocks_repoll(
                        #[trigger] handler_states(self.clashables)[clashable@[j]],
                        clashable@.len(),
                    )),
            decreases clashable@.len() - i,
        {
            match states_get(&self.clashables, &clashable[i]) {
                Some(state) => {
                    let blocked = match state.kind {
                        InputStateKind::NoClash => false,
                        InputStateKind::Inactive => true,
                        InputStateKind::Buffered(_, _) => true,
                        InputStateKind::Clashing(len) => clashable.len() != len,
                        InputStateKind::Active(len) => clashable.len() != len,
                    };
                    if blocked {
                        assert(blocks_repoll(handler_states(self.clashables)[clashable@[i as int]], clashable@.len()));
                        return InputValue::Pressed(false);
                    }
                },
                None => {},
            }
            i = i + 1;
        }
        match states_get(&self.clashables, &clashable[0]) {
            Some(state) => state.value,
            None => InputValue::Pressed(false),
        }
    }
}

/// What a poll tells the binding that made it.
#[derive(Debug, Clone, Copy, PartialEq, Eq, Structural)]
pub enum PollVisibility {
    /// The chord does not see its inputs.
    Hide,
    /// The chord sees its inputs.
    Show,
    /// The chord must look again once every binding has polled.
    Repoll,
}

/// The state given to an input that a poll finds unregistered in frame `frame`.
pub open spec fn fresh_state(frame: usize) -> InputState {
    InputState { frame, kind: InputStateKind::Inactive, value: InputValue::Pressed(false) }
}

/// `oldest` if some buffered input started before `now`, else `now`.
pub open spec fn oldest_or(oldest: Option<Instant>, now: Instant) -> Instant {
    match oldest {
        Some(o) => o,
        None => now,
    }
}

/// The first look at the first `i` inputs of `chord`: unknown inputs are registered, the chord
/// counts as pressed unless a registered input is not, and the earliest start of a pressed,
/// buffered input that lies before `now` is kept.
pub open spec fn scan_chord(
    states: Map<BevyInputKind, InputState>,
    chord: Seq<BevyInputKind>,
    frame: usize,
    now: Instant,
    i: nat,
) -> (Map<BevyInputKind, InputState>, bool, Option<Instant>)
    decreases i,
{
    if i == 0 {
        (states, true, None)
    } else {
        let (m, pressed, oldest) = scan_chord(states, chord, frame, now, (i - 1) as nat);
        let c = chord[i - 1];
        if m.contains_key(c) {
            if m[c].value.pressed_spec() {
                let oldest2 = match m[c].kind {
                    InputStateKind::Buffered(start, _) => if start@ < oldest_or(oldest, now)@ {
                        Some(start)
                    } else {
                        oldest
                    },
                    _ => oldest,
                };
                (m, pressed, oldest2)
            } else {
                (m, false, oldest)
            }
        } else {
            (m.insert(c, fresh_state(frame)), pressed, oldest)
        }
    }
}

/// The kind of an input after a pressed chord of `len` inputs claims it under `settings`;
/// `fresh` is the start of a buffering that begins now.
pub open spec fn claimed_kind(
    kind: InputStateKind,
    len: usize,
    oldest: Option<Instant>,
    settings: ClashSettings,
    fresh: Instant,
) -> InputStateKind {
    match kind {
        InputStateKind::NoClash => if settings is BufferAll {
            InputStateKind::Buffered(fresh, len)
        } else {
            kind
        },
        InputStateKind::Inactive => match settings {
            ClashSettings::Unbuffered => InputStateKind::Clashing(len),
            _ => InputStateKind::Buffered(fresh, len),
        },
        InputStateKind::Clashing(l) => if len > l {
            InputStateKind::Clashing(len)
        } else {
            kind
        },
        InputStateKind::Buffered(start, l) => InputStateKind::Buffered(
            match oldest {
                Some(o) => if o@ < start@ {
                    o
                } else {
                    start
                },
                None => start,
            },
            if len > l {
                len
            } else {
                l
            },
        ),
        InputStateKind::Active(l) => if len > l {
            InputStateKind::Active(len)
        } else {
            kind
        },
    }
}

/// The state of an input after a chord of `len` inputs polls it in frame `frame`.
pub open spec fn claimed_state(
    s: InputState,
    len: usize,
    pressed: bool,
    oldest: Option<Instant>,
    settings: ClashSettings,
    frame: usize,
    fresh: Instant,
) -> InputState {
    if pressed {
        InputState { frame, kind: claimed_kind(s.kind, len, oldest, settings, fresh), value: s.value }
    } else {
        s
    }
}

/// How an input in state `kind` changes what a chord of `len` inputs is told.
pub open spec fn visibility_after(v: PollVisibility, kind: InputStateKind, len: usize) -> PollVisibility {
    match kind {
        InputStateKind::Clashing(_) => if v is Show {
            PollVisibility::Repoll
        } else {
            v
        },
        InputStateKind::Buffered(_, _) => PollVisibility::Hide,
        InputStateKind::Active(l) => if l != len {
            PollVisibility::Hide
        } else {
            v
        },
        _ => v,
    }
}

/// The second look at the first `fresh.len()` inputs of `chord`: each input is claimed in turn
/// (`fresh[i]` is the point in time a buffering of input `i` would start at) and the visibility
/// of the chord follows.
pub open spec fn claim_chord(
    states: Map<BevyInputKind, InputState>,
    chord: Seq<BevyInputKind>,
    frame: usize,
    settings: ClashSettings,
    pressed: bool,
    oldest: Option<Instant>,
    fresh: Seq<Instant>,
) -> (Map<BevyInputKind, InputState>, PollVisibility)
    decreases fresh.len(),
{
    if fresh.len() == 0 {
        (states, if pressed { PollVisibility::Show } else { PollVisibility::Hide })
    } else {
        let (m, v) = claim_chord(states, chord, frame, settings, pressed, oldest, fresh.drop_last());
        let c = chord[fresh.len() - 1];
        let s = claimed_state(m[c], chord.len() as usize, pressed, oldest, settings, frame, fresh.last());
        (m.insert(c, s), visibility_after(v, s.kind, chord.len() as usize))
    }
}

/// What a poll of `chord` returns once every input has been claimed.
pub open spec fn poll_result(v: PollVisibility, states: Map<BevyInputKind, InputState>, chord: Seq<BevyInputKind>) -> Option<InputValue> {
    match v {
        PollVisibility::Hide => Some(InputValue::Pressed(false)),
        PollVisibility::Show => Some(states[chord[0]].value),
        PollVisibility::Repoll => None,
    }
}

/// The states after a poll of a non-empty `chord` and what it returns, given the point in time
/// `now` the poll started at and the starts `fresh` of bufferings it begins.
pub open spec fn poll_effect(
    states: Map<BevyInputKind, InputState>,
    chord: Seq<BevyInputKind>,
    frame: usize,
    settings: ClashSettings,
    now: Instant,
    fresh: Seq<Instant>,
) -> (Map<BevyInputKind, InputState>, Option<InputValue>) {
    let (m1, pressed, oldest) = scan_chord(states, chord, frame, now, chord.len());
    let (m2, v) = claim_chord(m1, chord, frame, settings, pressed, oldest, fresh);
    (m2, poll_result(v, m2, chord))
}

impl InputHandler {
    /// Tries to return the newest value associated with the binding.
    ///
    /// If `None` is returned then you must [`Self::repoll`] after all inputs have been polled.
    ///
    /// `now` is the clock reading of the poll: inputs that start buffering start at it.
    pub fn poll_at(&mut self, clashable: &[BevyInputKind], now: Instant) -> (r: Option<InputValue>)
        ensures
            final(self).frame_spec() == old(self).frame_spec(),
            final(self).settings_spec() == old(self).settings_spec(),
            clashable@.len() == 0 ==> r == Some(InputValue::Pressed(false)) && final(self).states() == old(
                self,
            ).states(),
            clashable@.len() > 0 ==> (final(self).states(), r) == poll_effect(
                old(self).states(),
                clashable@,
                old(self).frame_spec(),
                old(self).settings_spec(),
                now,
                Seq::new(clashable@.len(), |j: int| now),
            ),
    {
        if clashable.len() == 0 {
            return Some(InputValue::Pressed(false));
        }
        let ghost old_states = handler_states(self.clashables);
        let ghost chord = clashable@;
        let n = clashable.len();
        let mut pressed = true;
        let mut oldest: Option<Instant> = None;
        let mut i: usize = 0;
        while i < n
            invariant
                n == chord.len(),
                chord == clashable@,
                i <= n,
                self.frame == old(self).frame,
                self.settings == old(self).settings,
                old_states == old(self).states(),
                (handler_states(self.clashables), pressed, oldest) == scan_chord(old_states, chord, self.frame, now, i as nat),
                forall|j: int| 0 <= j < i ==> handler_states(self.clashables).contains_key(#[trigger] chord[j]),
            decreases n - i,
        {
            let c = clashable[i];
            match states_get(&self.clashables, &c) {
                Some(state) => {
                    if state.value.is_pressed() {
                        match state.kind {
                            InputStateKind::Buffered(start, _) => {
                                let current = match oldest {
                                    Some(o) => o,
                                    None => now,
                                };
                                if start.is_before(&current) {
                                    oldest = Some(start);
                                }
                            },
                            _ => {},
                        }
                    } else {
                        pressed = false;
                    }
                },
                None => {
                    states_insert(
                        &mut self.clashables,
                        c,
                        InputState { frame: self.frame, kind: InputStateKind::Inactive, value: InputValue::Pressed(false) },
                    );
                },
            }
            i = i + 1;
        }
        let ghost scanned = handler_states(self.clashables);
        let settings = self.settings;
        let mut visibility = if pressed { PollVisibility::Show } else { PollVisibility::Hide };
        let ghost mut fresh: Seq<Instant> = Seq::empty();
        let mut i: usize = 0;
        while i < n
            invariant
                n == chord.len(),
                chord == clashable@,
                n > 0,
                i <= n,
                fresh.len() == i,
                forall|j: int| 0 <= j < i ==> #[trigger] fresh[j] == now,
                self.frame == old(self).frame,
                self.settings == old(self).settings,
                settings == self.settings,
                (handler_states(self.clashables), visibility) == claim_chord(scanned, chord, self.frame, settings, pressed, oldest, fresh),
                forall|j: int| 0 <= j < n ==> handler_states(self.clashables).contains_key(#[trigger] chord[j]),
            decreases n - i,
        {
            let c = clashable[i];
            assert(handler_states(self.clashables).contains_key(chord[i as int]));
            let state = states_get(&self.clashables, &c).unwrap();
            let ghost start_now: Instant = now;
            let kind = if pressed {
                match state.kind {
                    InputStateKind::NoClash => if settings.buffer_all() {
                        InputStateKind::buffered_with_instant(n, now)
                    } else {
                        state.kind
                    },
                    InputStateKind::Inactive => match settings {
                        ClashSettings::Unbuffered => InputStateKind::clashing(n),
                        _ => InputStateKind::buffered_with_instant(n, now),
                    },
                    InputStateKind::Clashing(len) => if n > len {
                        InputStateKind::clashing(n)
                    } else {
                        state.kind
                    },
                    InputStateKind::Buffered(start, len) => {
                        let new_start = match oldest {
                            Some(o) => if o.is_before(&start) {
                                o
                            } else {
                                start
                            },
                            None => start,
                        };
                        InputStateKind::buffered_with_instant(if n > len { n } else { len }, new_start)
                    },
                    InputStateKind::Active(len) => if n > len {
                        InputStateKind::active(n)
                    } else {
                        state.kind
                    },
                }
            } else {
                state.kind
            };
            let next = InputState { frame: if pressed { self.frame } else { state.frame }, kind, value: state.value };
            assert(next == claimed_state(state, n, pressed, oldest, settings, self.frame, start_now));
            states_insert(&mut self.clashables, c, next);
            visibility = match kind {
                InputStateKind::Clashing(_) => match visibility {
                    PollVisibility::Show => PollVisibility::Repoll,
                    _ => visibility,
                },
                InputStateKind::Buffered(_, _) => PollVisibility::Hide,
                InputStateKind::Active(len) => if len != n {
                    PollVisibility::Hide
                } else {
                    visibility
                },
                _ => visibility,
            };
            proof {
                let fresh2 = fresh.push(start_now);
                assert(fresh2.drop_last() == fresh);
                fresh = fresh2;
            }
            i = i + 1;
        }
        let r = match visibility {
            PollVisibility::Hide => Some(InputValue::Pressed(false)),
            PollVisibility::Show => {
                assert(handler_states(self.clashables).contains_key(chord[0]));
                let state = states_get(&self.clashables, &clashable[0]).unwrap();
                Some(state.value)
            },
            PollVisibility::Repoll => None,
        };
        assert((handler_states(self.clashables), r) == poll_effect(old_states, chord, self.frame, settings, now, fresh));
        assert(fresh =~= Seq::new(clashable@.len(), |j: int| now));
        r
    }

    /// Tries to return the newest value associated with the binding.
    ///
    /// If `None` is returned then you must [`Self::repoll`] after all inputs have been polled
    pub fn poll(&mut self, clashable: &[BevyInputKind]) -> (r: Option<InputValue>)
        ensures
            final(self).frame_spec() == old(self).frame_spec(),
            final(self).settings_spec() == old(self).settings_spec(),
            clashable@.len() == 0 ==> r == Some(InputValue::Pressed(false)) && final(self).states() == old(
                self,
            ).states(),
            clashable@.len() > 0 ==> exists|now: Instant, fresh: Seq<Instant>|
                fresh.len() == clashable@.len() && (final(self).states(), r) == #[trigger] poll_effect(
                    old(self).states(),
                    clashable@,
                    old(self).frame_spec(),
                    old(self).settings_spec(),
                    now,
                    fresh,
                ),
    {
        let now = Instant::now();
        self.poll_at(clashable, now)
    }
}

/// The first look leaves every registered input as it is.
proof fn lemma_scan_keeps_registered(
    states: Map<BevyInputKind, InputState>,
    chord: Seq<BevyInputKind>,
    frame: usize,
    now: Instant,
    i: nat,
    k: BevyInputKind,
)
    requires
        states.contains_key(k),
        i <= chord.len(),
    ensures
        scan_chord(states, chord, frame, now, i).0.contains_key(k),
        scan_chord(states, chord, frame, now, i).0[k] == states[k],
    decreases i,
{
    if i > 0 {
        lemma_scan_keeps_registered(states, chord, frame, now, (i - 1) as nat, k);
    }
}

/// When every input of the chord is registered the first look changes nothing, and the chord
/// counts as pressed exactly when each of its first `i` inputs is pressed.
proof fn lemma_scan_registered_chord(
    states: Map<BevyInputKind, InputState>,
    chord: Seq<BevyInputKind>,
    frame: usize,
    now: Instant,
    i: nat,
)
    requires
        i <= chord.len(),
        forall|j: int| 0 <= j < chord.len() ==> states.contains_key(#[trigger] chord[j]),
    ensures
        scan_chord(states, chord, frame, now, i).0 == states,
        scan_chord(states, chord, frame, now, i).1 == (forall|j: int|
            0 <= j < i ==> (#[trigger] states[chord[j]]).value.pressed_spec()),
    decreases i,
{
    if i > 0 {
        lemma_scan_registered_chord(states, chord, frame, now, (i - 1) as nat);
        let prev = scan_chord(states, chord, frame, now, (i - 1) as nat);
        assert(states.contains_key(chord[i - 1]));
        if !states[chord[i - 1]].value.pressed_spec() {
            assert(!(forall|j: int| 0 <= j < i ==> (#[trigger] states[chord[j]]).value.pressed_spec()));
        } else if prev.1 {
            assert forall|j: int| 0 <= j < i implies (#[trigger] states[chord[j]]).value.pressed_spec() by {
                if j < i - 1 {
                } else {
                    assert(j == i - 1);
                }
            }
        } else {
            let j = choose|j: int| 0 <= j < i - 1 && !(#[trigger] states[chord[j]]).value.pressed_spec();
            assert(!(forall|j: int| 0 <= j < i ==> (#[trigger] states[chord[j]]).value.pressed_spec()));
        }
    }
}

/// Once a chord is hidden, looking at more of its inputs keeps it hidden.
proof fn lemma_hidden_stays_hidden(
    states: Map<BevyInputKind, InputState>,
    chord: Seq<BevyInputKind>,
    frame: usize,
    settings: ClashSettings,
    pressed: bool,
    oldest: Option<Instant>,
    fresh: Seq<Instant>,
    t: int,
)
    requires
        0 <= t <= fresh.len(),
        claim_chord(states, chord, frame, settings, pressed, oldest, fresh.subrange(0, t)).1 == PollVisibility::Hide,
    ensures
        claim_chord(states, chord, frame, settings, pressed, oldest, fresh).1 == PollVisibility::Hide,
    decreases fresh.len(),
{
    if fresh.len() == t {
        assert(fresh.subrange(0, t) == fresh);
    } else {
        assert(fresh.drop_last().subrange(0, t) == fresh.subrange(0, t));
        lemma_hidden_stays_hidden(states, chord, frame, settings, pressed, oldest, fresh.drop_last(), t);
    }
}

/// Whether an input in state `kind` is held back from every chord the next time it is pressed
/// under `settings`.
pub open spec fn held_back(kind: InputStateKind, settings: ClashSettings) -> bool {
    ||| kind is Buffered
    ||| kind is Inactive && !(settings is Unbuffered)
    ||| kind is NoClash && settings is BufferAll
}

/// Claims keep an input that is held back held back.
proof fn lemma_claims_keep_held_back(
    states: Map<BevyInputKind, InputState>,
    chord: Seq<BevyInputKind>,
    frame: usize,
    settings: ClashSettings,
    pressed: bool,
    oldest: Option<Instant>,
    fresh: Seq<Instant>,
    k: BevyInputKind,
)
    requires
        states.contains_key(k),
        held_back(states[k].kind, settings),
        fresh.len() <= chord.len(),
    ensures
        claim_chord(states, chord, frame, settings, pressed, oldest, fresh).0.contains_key(k),
        held_back(claim_chord(states, chord, frame, settings, pressed, oldest, fresh).0[k].kind, settings),
    decreases fresh.len(),
{
    if fresh.len() > 0 {
        lemma_claims_keep_held_back(states, chord, frame, settings, pressed, oldest, fresh.drop_last(), k);
    }
}

/// Claims by a chord shorter than `len` keep an input captured by a chord of `len` inputs.
proof fn lemma_claims_keep_capture(
    states: Map<BevyInputKind, InputState>,
    chord: Seq<BevyInputKind>,
    frame: usize,
    settings: ClashSettings,
    pressed: bool,
    oldest: Option<Instant>,
    fresh: Seq<Instant>,
    k: BevyInputKind,
    len: usize,
)
    requires
        states.contains_key(k),
        states[k].kind == InputStateKind::Active(len),
        chord.len() < len,
        fresh.len() <= chord.len(),
    ensures
        claim_chord(states, chord, frame, settings, pressed, oldest, fresh).0.contains_key(k),
        claim_chord(states, chord, frame, settings, pressed, oldest, fresh).0[k].kind == InputStateKind::Active(len),
    decreases fresh.len(),
{
    if fresh.len() > 0 {
        lemma_claims_keep_capture(states, chord, frame, settings, pressed, oldest, fresh.drop_last(), k, len);
    }
}

/// With every input of the chord registered, a chord that is not pressed leaves every state as
/// it is and stays hidden.
proof fn lemma_unpressed_claims_change_nothing(
    states: Map<BevyInputKind, InputState>,
    chord: Seq<BevyInputKind>,
    frame: usize,
    settings: ClashSettings,
    oldest: Option<Instant>,
    fresh: Seq<Instant>,
)
    requires
        fresh.len() <= chord.len(),
        forall|j: int| 0 <= j < chord.len() ==> states.contains_key(#[trigger] chord[j]),
    ensures
        claim_chord(states, chord, frame, settings, false, oldest, fresh) == (states, PollVisibility::Hide),
    decreases fresh.len(),
{
    if fresh.len() > 0 {
        lemma_unpressed_claims_change_nothing(states, chord, frame, settings, oldest, fresh.drop_last());
        let c = chord[fresh.len() - 1];
        assert(states.contains_key(c));
        assert(states.insert(c, states[c]) =~= states);
    }
}

/// A pressed chord of inputs that are each bound once keeps them out of clash checks, and stays
/// shown, unless every input is buffered.
proof fn lemma_unclashed_claims_show(
    states: Map<BevyInputKind, InputState>,
    chord: Seq<BevyInputKind>,
    frame: usize,
    settings: ClashSettings,
    oldest: Option<Instant>,
    fresh: Seq<Instant>,
)
    requires
        !(settings is BufferAll),
        fresh.len() <= chord.len(),
        forall|j: int| 0 <= j < chord.len() ==> states.contains_key(#[trigger] chord[j]),
        forall|j: int| 0 <= j < chord.len() ==> (#[trigger] states[chord[j]]).kind is NoClash,
    ensures
        claim_chord(states, chord, frame, settings, true, oldest, fresh).1 == PollVisibility::Show,
        forall|j: int|
            0 <= j < chord.len() ==> claim_chord(states, chord, frame, settings, true, oldest, fresh).0.contains_key(
                #[trigger] chord[j],
            ),
        forall|j: int|
            0 <= j < chord.len() ==> {
                let m = claim_chord(states, chord, frame, settings, true, oldest, fresh).0;
                &&& m[#[trigger] chord[j]].kind is NoClash
                &&& m[chord[j]].value == states[chord[j]].value
            },
    decreases fresh.len(),
{
    if fresh.len() > 0 {
        lemma_unclashed_claims_show(states, chord, frame, settings, oldest, fresh.drop_last());
        let m = claim_chord(states, chord, frame, settings, true, oldest, fresh.drop_last()).0;
        let c = chord[fresh.len() - 1];
        assert(m.contains_key(c));
    }
}

/// A chord is never shown while one of its registered inputs is not pressed, and such a poll
/// changes no state.
pub proof fn lemma_unpressed_chord_is_hidden(
    states: Map<BevyInputKind, InputState>,
    chord: Seq<BevyInputKind>,
    frame: usize,
    settings: ClashSettings,
    now: Instant,
    fresh: Seq<Instant>,
    j: int,
)
    requires
        fresh.len() == chord.len(),
        0 <= j < chord.len(),
        forall|i: int| 0 <= i < chord.len() ==> states.contains_key(#[trigger] chord[i]),
        !states[chord[j]].value.pressed_spec(),
    ensures
        poll_effect(states, chord, frame, settings, now, fresh) == (states, Some(InputValue::Pressed(false))),
{
    lemma_scan_registered_chord(states, chord, frame, now, chord.len());
    let (m1, pressed, oldest) = scan_chord(states, chord, frame, now, chord.len());
    assert(!pressed);
    lemma_unpressed_claims_change_nothing(states, chord, frame, settings, oldest, fresh);
}

/// Under a buffering setting an input is never shown in the frame it is first pressed: a chord
/// that polls a registered input that may clash and is inactive (or, when every input is
/// buffered, one that is bound once) is hidden.
pub proof fn lemma_buffering_hides_first_press(
    states: Map<BevyInputKind, InputState>,
    chord: Seq<BevyInputKind>,
    frame: usize,
    settings: ClashSettings,
    now: Instant,
    fresh: Seq<Instant>,
    j: int,
)
    requires
        settings is BufferClashing || settings is BufferAll,
        fresh.len() == chord.len(),
        0 <= j < chord.len(),
        states.contains_key(chord[j]),
        states[chord[j]].kind is Inactive || (settings is BufferAll && states[chord[j]].kind is NoClash),
    ensures
        poll_effect(states, chord, frame, settings, now, fresh).1 == Some(InputValue::Pressed(false)),
{
    let k = chord[j];
    lemma_scan_keeps_registered(states, chord, frame, now, chord.len(), k);
    let (m1, pressed, oldest) = scan_chord(states, chord, frame, now, chord.len());
    if !pressed {
        assert(fresh.subrange(0, 0) =~= Seq::<Instant>::empty());
        lemma_hidden_stays_hidden(m1, chord, frame, settings, pressed, oldest, fresh, 0);
    } else {
        let before = fresh.subrange(0, j);
        lemma_claims_keep_held_back(m1, chord, frame, settings, pressed, oldest, before, k);
        let upto = fresh.subrange(0, j + 1);
        assert(upto.drop_last() == before);
        assert(claim_chord(m1, chord, frame, settings, pressed, oldest, upto).1 == PollVisibility::Hide);
        lemma_hidden_stays_hidden(m1, chord, frame, settings, pressed, oldest, fresh, j + 1);
    }
}

/// If a high priority binding captures a button, that button must be released before a lower
/// priority binding can see it again: a chord polling an input that a longer chord made active
/// is hidden.
pub proof fn lemma_captured_input_hides_shorter_chords(
    states: Map<BevyInputKind, InputState>,
    chord: Seq<BevyInputKind>,
    frame: usize,
    settings: ClashSettings,
    now: Instant,
    fresh: Seq<Instant>,
    j: int,
)
    requires
        fresh.len() == chord.len(),
        0 <= j < chord.len(),
        states.contains_key(chord[j]),
        states[chord[j]].kind is Active,
        chord.len() < states[chord[j]].kind->Active_0,
    ensures
        poll_effect(states, chord, frame, settings, now, fresh).1 == Some(InputValue::Pressed(false)),
{
    let k = chord[j];
    let len = states[k].kind->Active_0;
    lemma_scan_keeps_registered(states, chord, frame, now, chord.len(), k);
    let (m1, pressed, oldest) = scan_chord(states, chord, frame, now, chord.len());
    let before = fresh.subrange(0, j);
    lemma_claims_keep_capture(m1, chord, frame, settings, pressed, oldest, before, k, len);
    let upto = fresh.subrange(0, j + 1);
    assert(upto.drop_last() == before);
    assert(claim_chord(m1, chord, frame, settings, pressed, oldest, upto).1 == PollVisibility::Hide);
    lemma_hidden_stays_hidden(m1, chord, frame, settings, pressed, oldest, fresh, j + 1);
}

/// Clash checks are skipped for inputs bound once: a pressed chord of such inputs is shown at
/// once with the value of its first input, unless every input is buffered.
pub proof fn lemma_unclashed_chord_is_shown(
    states: Map<BevyInputKind, InputState>,
    chord: Seq<BevyInputKind>,
    frame: usize,
    settings: ClashSettings,
    now: Instant,
    fresh: Seq<Instant>,
)
    requires
        !(settings is BufferAll),
        fresh.len() == chord.len(),
        chord.len() > 0,
        forall|i: int| 0 <= i < chord.len() ==> states.contains_key(#[trigger] chord[i]),
        forall|i: int| 0 <= i < chord.len() ==> (#[trigger] states[chord[i]]).value.pressed_spec(),
        forall|i: int| 0 <= i < chord.len() ==> (#[trigger] states[chord[i]]).kind is NoClash,
    ensures
        poll_effect(states, chord, frame, settings, now, fresh).1 == Some(states[chord[0]].value),
{
    lemma_scan_registered_chord(states, chord, frame, now, chord.len());
    let (m1, pressed, oldest) = scan_chord(states, chord, frame, now, chord.len());
    assert(pressed);
    lemma_unclashed_claims_show(states, chord, frame, settings, oldest, fresh);
}

/// Once a chord is not shown, looking at more of its inputs never shows it.
proof fn lemma_unshown_stays_unshown(
    states: Map<BevyInputKind, InputState>,
    chord: Seq<BevyInputKind>,
    frame: usize,
    settings: ClashSettings,
    pressed: bool,
    oldest: Option<Instant>,
    fresh: Seq<Instant>,
    t: int,
)
    requires
        0 <= t <= fresh.len(),
        claim_chord(states, chord, frame, settings, pressed, oldest, fresh.subrange(0, t)).1 != PollVisibility::Show,
    ensures
        claim_chord(states, chord, frame, settings, pressed, oldest, fresh).1 != PollVisibility::Show,
    decreases fresh.len(),
{
    if fresh.len() == t {
        assert(fresh.subrange(0, t) == fresh);
    } else {
        assert(fresh.drop_last().subrange(0, t) == fresh.subrange(0, t));
        lemma_unshown_stays_unshown(states, chord, frame, settings, pressed, oldest, fresh.drop_last(), t);
    }
}

/// Without buffering, claims keep an inactive or clashing input inactive or clashing.
proof fn lemma_claims_keep_clashing(
    states: Map<BevyInputKind, InputState>,
    chord: Seq<BevyInputKind>,
    frame: usize,
    pressed: bool,
    oldest: Option<Instant>,
    fresh: Seq<Instant>,
    k: BevyInputKind,
)
    requires
        states.contains_key(k),
        states[k].kind is Inactive || states[k].kind is Clashing,
        fresh.len() <= chord.len(),
    ensures
        claim_chord(states, chord, frame, ClashSettings::Unbuffered, pressed, oldest, fresh).0.contains_key(k),
        claim_chord(states, chord, frame, ClashSettings::Unbuffered, pressed, oldest, fresh).0[k].kind is Inactive
            || claim_chord(states, chord, frame, ClashSettings::Unbuffered, pressed, oldest, fresh).0[k].kind is Clashing,
    decreases fresh.len(),
{
    if fresh.len() > 0 {
        lemma_claims_keep_clashing(states, chord, frame, pressed, oldest, fresh.drop_last(), k);
    }
}

/// Without buffering, inputs that may clash are re-checked after all inputs have had a chance
/// to assert their priority: a chord that polls an inactive or clashing input is never shown at
/// once; it is told to look again, or hidden.
pub proof fn lemma_unbuffered_clash_is_rechecked(
    states: Map<BevyInputKind, InputState>,
    chord: Seq<BevyInputKind>,
    frame: usize,
    now: Instant,
    fresh: Seq<Instant>,
    j: int,
)
    requires
        fresh.len() == chord.len(),
        0 <= j < chord.len(),
        states.contains_key(chord[j]),
        states[chord[j]].kind is Inactive || states[chord[j]].kind is Clashing,
    ensures
        poll_effect(states, chord, frame, ClashSettings::Unbuffered, now, fresh).1 is None || poll_effect(
            states,
            chord,
            frame,
            ClashSettings::Unbuffered,
            now,
            fresh,
        ).1 == Some(InputValue::Pressed(false)),
{
    let k = chord[j];
    let settings = ClashSettings::Unbuffered;
    lemma_scan_keeps_registered(states, chord, frame, now, chord.len(), k);
    let (m1, pressed, oldest) = scan_chord(states, chord, frame, now, chord.len());
    if !pressed {
        assert(fresh.subrange(0, 0) =~= Seq::<Instant>::empty());
        lemma_hidden_stays_hidden(m1, chord, frame, settings, pressed, oldest, fresh, 0);
    } else {
        let before = fresh.subrange(0, j);
        lemma_claims_keep_clashing(m1, chord, frame, pressed, oldest, before, k);
        let upto = fresh.subrange(0, j + 1);
        assert(upto.drop_last() == before);
        assert(claim_chord(m1, chord, frame, settings, pressed, oldest, upto).1 != PollVisibility::Show);
        lemma_unshown_stays_unshown(m1, chord, frame, settings, pressed, oldest, fresh, j + 1);
    }
}

/// An input that no chord pressed during the frame is inactive after `tick`, unless it is bound
/// once.
pub proof fn lemma_tick_unpolled_goes_inactive(prev: InputState, next: InputState, frame: usize, settings: ClashSettings, now: Instant)
    requires
        ticked_at(prev, next, frame, settings, now),
        prev.frame != frame,
    ensures
        next.kind == (if prev.kind is NoClash {
            InputStateKind::NoClash
        } else {
            InputStateKind::Inactive
        }),
        next.value == prev.value,
{
}

/// A clash of the frame resolves on `tick`: the clashing input becomes active for the longest
/// chord that polled it.
pub proof fn lemma_tick_resolves_clash(prev: InputState, next: InputState, frame: usize, settings: ClashSettings, now: Instant)
    requires
        ticked_at(prev, next, frame, settings, now),
        prev.frame == frame,
        prev.kind is Clashing,
    ensures
        next.kind == InputStateKind::Active(prev.kind->Clashing_0),
{
}

/// Without a delay a buffered input is buffered for one frame only: `tick` makes it active for
/// the longest chord that polled it.
pub proof fn lemma_tick_ends_undelayed_buffering(prev: InputState, next: InputState, frame: usize, settings: ClashSettings, now: Instant)
    requires
        ticked_at(prev, next, frame, settings, now),
        prev.frame == frame,
        prev.kind is Buffered,
        settings == ClashSettings::BufferClashing(None) || settings == ClashSettings::BufferAll(None),
    ensures
        next.kind == InputStateKind::Active(prev.kind->Buffered_1),
{
}


/// With a buffering delay, an input polled this frame becomes active for its chord on `tick`
/// exactly when the delay has passed since its buffering started, at the clock reading of the
/// tick; until then it stays buffered with the same start.
pub proof fn lemma_tick_ends_buffering_after_delay(
    prev: InputState,
    next: InputState,
    frame: usize,
    settings: ClashSettings,
    delay: Duration,
    now: Instant,
)
    requires
        ticked_at(prev, next, frame, settings, now),
        prev.frame == frame,
        prev.kind is Buffered,
        settings == ClashSettings::BufferClashing(Some(delay)) || settings == ClashSettings::BufferAll(Some(delay)),
    ensures
        span_between(prev.kind->Buffered_0@, now@) >= delay@ ==> next.kind == InputStateKind::Active(prev.kind->Buffered_1),
        span_between(prev.kind->Buffered_0@, now@) < delay@ ==> next.kind == prev.kind,
{
}


/// `chord[..upto]` holds `k`.
pub open spec fn polled_before(chord: Seq<BevyInputKind>, k: BevyInputKind, upto: int) -> bool {
    exists|i: int| 0 <= i < upto && chord[i] == k
}

/// The larger of two chord lengths.
pub open spec fn longer(a: usize, b: usize) -> usize {
    if a > b {
        a
    } else {
        b
    }
}

/// Claims of a pressed chord of `chord.len()` inputs: an input the chord reaches is stamped with
/// the frame and keeps its reading, and the chord length it records grows to the chord's length
/// if that is longer; an input the chord does not reach is left alone.
proof fn lemma_claims_take_longest(
    states: Map<BevyInputKind, InputState>,
    chord: Seq<BevyInputKind>,
    frame: usize,
    settings: ClashSettings,
    oldest: Option<Instant>,
    fresh: Seq<Instant>,
    k: BevyInputKind,
)
    requires
        states.contains_key(k),
        fresh.len() <= chord.len(),
        chord.len() <= usize::MAX,
    ensures
        ({
            let m = claim_chord(states, chord, frame, settings, true, oldest, fresh).0;
            let n = chord.len() as usize;
            let before = states[k];
            &&& m.contains_key(k)
            &&& !polled_before(chord, k, fresh.len() as int) ==> m[k] == before
            &&& polled_before(chord, k, fresh.len() as int) ==> {
                &&& m[k].frame == frame
                &&& m[k].value == before.value
                &&& before.kind matches InputStateKind::Active(l) ==> m[k].kind == InputStateKind::Active(longer(l, n))
                &&& before.kind matches InputStateKind::Clashing(l) ==> m[k].kind == InputStateKind::Clashing(longer(l, n))
                &&& before.kind matches InputStateKind::Buffered(_, l) ==> m[k].kind is Buffered && m[k].kind->Buffered_1
                    == longer(l, n)
                &&& before.kind is Inactive ==> if settings is Unbuffered {
                    m[k].kind == InputStateKind::Clashing(n)
                } else {
                    m[k].kind is Buffered && m[k].kind->Buffered_1 == n
                }
                &&& before.kind is NoClash ==> if settings is BufferAll {
                    m[k].kind is Buffered && m[k].kind->Buffered_1 == n
                } else {
                    m[k].kind is NoClash
                }
            }
        }),
    decreases fresh.len(),
{
    if fresh.len() > 0 {
        let i = fresh.len() - 1;
        lemma_claims_take_longest(states, chord, frame, settings, oldest, fresh.drop_last(), k);
        if chord[i] != k {
            if polled_before(chord, k, fresh.len() as int) {
                let w = choose|w: int| 0 <= w < fresh.len() && chord[w] == k;
                assert(w < i);
                assert(polled_before(chord, k, i));
            }
        } else {
            assert(polled_before(chord, k, fresh.len() as int));
        }
    }
}

/// A chord whose inputs are all registered and pressed claims each of them for the frame: an
/// input that was active, clashing or buffered records the longer of its chord length and this
/// chord's length (so a longer chord takes over an input a shorter one held, and a shorter chord
/// never lowers it), an inactive input starts clashing (unbuffered) or buffering, an input bound
/// once is buffered only when every input is; readings stay, and inputs outside the chord are
/// untouched.
pub proof fn lemma_pressed_chord_takes_its_inputs(
    states: Map<BevyInputKind, InputState>,
    chord: Seq<BevyInputKind>,
    frame: usize,
    settings: ClashSettings,
    now: Instant,
    fresh: Seq<Instant>,
    k: BevyInputKind,
)
    requires
        fresh.len() == chord.len(),
        chord.len() <= usize::MAX,
        forall|i: int| 0 <= i < chord.len() ==> states.contains_key(#[trigger] chord[i]),
        forall|i: int| 0 <= i < chord.len() ==> (#[trigger] states[chord[i]]).value.pressed_spec(),
        states.contains_key(k),
    ensures
        ({
            let after = poll_effect(states, chord, frame, settings, now, fresh).0;
            let n = chord.len() as usize;
            let before = states[k];
            &&& after.contains_key(k)
            &&& !chord.contains(k) ==> after[k] == before
            &&& chord.contains(k) ==> {
                &&& after[k].frame == frame
                &&& after[k].value == before.value
                &&& before.kind matches InputStateKind::Active(l) ==> after[k].kind == InputStateKind::Active(longer(l, n))
                &&& before.kind matches InputStateKind::Clashing(l) ==> after[k].kind == InputStateKind::Clashing(longer(l, n))
                &&& before.kind matches InputStateKind::Buffered(_, l) ==> after[k].kind is Buffered
                    && after[k].kind->Buffered_1 == longer(l, n)
                &&& before.kind is Inactive ==> if settings is Unbuffered {
                    after[k].kind == InputStateKind::Clashing(n)
                } else {
                    after[k].kind is Buffered && after[k].kind->Buffered_1 == n
                }
                &&& before.kind is NoClash ==> if settings is BufferAll {
                    after[k].kind is Buffered && after[k].kind->Buffered_1 == n
                } else {
                    after[k].kind is NoClash
                }
            }
        }),
{
    lemma_scan_registered_chord(states, chord, frame, now, chord.len());
    let (m1, pressed, oldest) = scan_chord(states, chord, frame, now, chord.len());
    assert(pressed);
    lemma_claims_take_longest(m1, chord, frame, settings, oldest, fresh, k);
    if chord.contains(k) {
        let w = choose|w: int| 0 <= w < chord.len() && chord[w] == k;
        assert(polled_before(chord, k, fresh.len() as int));
    } else {
        if polled_before(chord, k, fresh.len() as int) {
            let w = choose|w: int| 0 <= w < fresh.len() && chord[w] == k;
            assert(chord.contains(k));
        }
    }
}


/// `tick` changes only the kind of an input: an input bound once stays so, an active input
/// keeps its chord, and an inactive one stays inactive.
pub proof fn lemma_tick_keeps_settled_inputs(prev: InputState, next: InputState, frame: usize, settings: ClashSettings, now: Instant)
    requires
        ticked_at(prev, next, frame, settings, now),
    ensures
        next.frame == prev.frame,
        next.value == prev.value,
        prev.kind is NoClash ==> next.kind is NoClash,
        prev.kind is Inactive ==> next.kind is Inactive,
        prev.frame == frame && prev.kind is Active ==> next.kind == prev.kind,
        prev.frame != frame && prev.kind is Active ==> next.kind is Inactive,
{
}

} // verus!
