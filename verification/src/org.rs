//! An input handler that tells inputs that may clash from inputs that may not, and releases
//! buffered inputs to the longest chord that asked for them.
use vstd::prelude::*;

use bevy::platform::collections::HashMap;

use crate::time::{Duration, Instant, span_between};
use crate::{BevyInputKind, InputValue};

verus! {

pub struct Clash {}

/// Current state of an input.
#[derive(Debug, Clone, Copy, PartialEq, Eq, Structural)]
pub enum InputStateKind {
    /// The input is bound once and takes part in no clash.
    Unclashable,
    /// The input is shared by several bindings and no chord holds it.
    Clashable,
    /// Pressed by chords of which the longest has the given length.
    Clashing(usize),
    /// Held back from every chord since the given point in time; the longest chord so far has
    /// the given length.
    Buffered(Instant, usize),
    /// Released to chords of the given length.
    Released(usize),
}

impl Default for InputStateKind {
    fn default() -> (r: Self)
        ensures
            r == InputStateKind::Unclashable,
    {
        InputStateKind::Unclashable
    }
}

impl InputStateKind {
    /// Whether a chord that reaches an input in this state must look again.
    pub fn repoll(&self) -> (r: bool)
        ensures
            r == (*self is Clashing),
    {
        match self {
            InputStateKind::Unclashable => false,
            InputStateKind::Clashable => false,
            InputStateKind::Clashing(_) => true,
            InputStateKind::Buffered(_, _) => false,
            InputStateKind::Released(_) => false,
        }
    }

    pub fn is_clashable(&self) -> (r: bool)
        ensures
            r == (*self is Clashable),
    {
        match self {
            InputStateKind::Clashable => true,
            _ => false,
        }
    }

    pub fn clashable() -> (r: Self)
        ensures
            r == InputStateKind::Clashable,
    {
        InputStateKind::Clashable
    }

    pub fn clashing(len: usize) -> (r: Self)
        ensures
            r == InputStateKind::Clashing(len),
    {
        InputStateKind::Clashing(len)
    }

    /// A buffering that starts now.
    pub fn buffered(len: usize) -> (r: Self)
        ensures
            r is Buffered,
            r->Buffered_1 == len,
    {
        InputStateKind::Buffered(Instant::now(), len)
    }

    pub fn buffered_with_instant(len: usize, i: Instant) -> (r: Self)
        ensures
            r == InputStateKind::Buffered(i, len),
    {
        InputStateKind::Buffered(i, len)
    }

    pub fn released(len: usize) -> (r: Self)
        ensures
            r == InputStateKind::Released(len),
    {
        InputStateKind::Released(len)
    }

    pub fn replace(&mut self, new: Self)
        ensures
            *final(self) == new,
    {
        *self = new;
    }
}

/// The clash state of one input.
#[derive(Debug, Clone, Copy, PartialEq, Eq, Structural)]
pub struct InputState {
    /// The last frame this was updated.
    pub frame: usize,
    pub kind: InputStateKind,
    pub value: InputValue,
}

/// How clashing inputs are resolved.
#[derive(Debug, Clone, Copy, PartialEq, Eq, Structural)]
pub enum ClashSettings {
    /// This mode is a work in progress. Don't work correctly, you should use [`Self::Buffered`] until its fixed.
    ///
    /// Does not buffer inputs, just detects clashes.
    ///
    /// # Rules
    ///
    /// - If a high priority binding captures a button, that button must be released before a lower priority
    ///   binding can see it again.
    ///
    /// # Warning
    ///
    /// The sorting required for this to work is not done. So lower priority inputs may still get activated,
    /// when they shouldn't, for a single frame.
    Unbuffered,
    /// Buffers inputs that can clash until a timer runs out or unpressed.
    ///
    /// # Rules
    ///
    /// - An input will NEVER be active the first frame it is pressed. Because of this we don't need to sort
    /// the order input bindings should be checked like [`Self::Unbuffered`].
    /// - If a wait duration is provided the input will not be released to anyone until the button has been
    ///   active for that long.
    /// - If the timer runs out or the button is unpressed the binding will be released to all inputs with
    ///   the maximum chord length polled during the Press but inactive period. If the button was unpressed
    ///   to release the input it will stay active for 1 frame before going inactive.
    /// - If a high priority binding captures a button, that button must be released before a lower priority
    ///   binding can see it again.
    Buffered(Option<Duration>),
}

impl ClashSettings {
    pub fn needs_sorting(&self) -> (r: bool)
        ensures
            r == (*self is Unbuffered),
    {
        match self {
            ClashSettings::Unbuffered => true,
            ClashSettings::Buffered(_) => false,
        }
    }
}

/// What a poll tells the binding that made it.
#[derive(Debug, Clone, Copy, PartialEq, Eq, Structural)]
pub enum PollResult {
    /// Look again once every binding has polled.
    RePoll,
    /// Use the value.
    Use(InputValue),
    /// There is nothing to use.
    Nothing,
}

/// The states held by a map of inputs of an [`InputHandler`].
pub uninterp spec fn input_map_states(m: HashMap<BevyInputKind, InputState>) -> Map<BevyInputKind, InputState>;

/// Calls `HashMap::new` of `bevy_platform`: the new map holds nothing.
#[verifier::external_body]
fn input_map_new() -> (r: HashMap<BevyInputKind, InputState>)
    ensures
        input_map_states(r).dom().is_empty(),
{
    HashMap::new()
}

/// Calls `HashMap::get` of `bevy_platform` and copies the state found: the state stored under
/// `k`, if any.
#[verifier::external_body]
fn input_map_get(m: &HashMap<BevyInputKind, InputState>, k: &BevyInputKind) -> (r: Option<InputState>)
    ensures
        r == (if input_map_states(*m).contains_key(*k) {
            Some(input_map_states(*m)[*k])
        } else {
            None
        }),
{
    m.get(k).copied()
}

/// Calls `HashMap::insert` of `bevy_platform`: afterwards `k` maps to `v` and every other key
/// keeps its state.
#[verifier::external_body]
fn input_map_insert(m: &mut HashMap<BevyInputKind, InputState>, k: BevyInputKind, v: InputState)
    ensures
        input_map_states(*final(m)) == input_map_states(*old(m)).insert(k, v),
{
    m.insert(k, v);
}

/// Calls `HashMap::keys` of `bevy_platform` and collects the keys: each key of the map once, in
/// an order the map chooses.
#[verifier::external_body]
fn input_map_keys(m: &HashMap<BevyInputKind, InputState>) -> (r: Vec<BevyInputKind>)
    ensures
        r@.no_duplicates(),
        r@.to_set() == input_map_states(*m).dom(),
{
    m.keys().copied().collect()
}

/// Calls `HashMap::clear` of `bevy_platform`: afterwards the map holds nothing.
#[verifier::external_body]
fn input_map_clear(m: &mut HashMap<BevyInputKind, InputState>)
    ensures
        input_map_states(*final(m)).dom().is_empty(),
{
    m.clear();
}

pub struct InputHandler {
    frame: usize,
    clashables: HashMap<BevyInputKind, InputState>,
    settings: ClashSettings,
    /// Rescan bindings for clashes.
    should_rescan: bool,
}

impl InputHandler {
    /// The frame counter.
    pub closed spec fn frame_spec(&self) -> usize {
        self.frame
    }

    /// The clash state of every registered input.
    pub closed spec fn states(&self) -> Map<BevyInputKind, InputState> {
        input_map_states(self.clashables)
    }

    /// How clashes are resolved.
    pub closed spec fn settings_spec(&self) -> ClashSettings {
        self.settings
    }

    /// Whether the bindings must be scanned for clashes again.
    pub closed spec fn should_rescan_spec(&self) -> bool {
        self.should_rescan
    }

    pub fn should_rescan(&self) -> (r: bool)
        ensures
            r == self.should_rescan_spec(),
    {
        self.should_rescan
    }

    pub fn signal_rescan(&mut self)
        ensures
            final(self).should_rescan_spec(),
            final(self).frame_spec() == old(self).frame_spec(),
            final(self).states() == old(self).states(),
            final(self).settings_spec() == old(self).settings_spec(),
    {
        self.should_rescan = true;
    }

    pub fn settings(&self) -> (r: &ClashSettings)
        ensures
            *r == self.settings_spec(),
    {
        &self.settings
    }

    /// The frame counter.
    pub fn frame(&self) -> (r: usize)
        ensures
            r == self.frame_spec(),
    {
        self.frame
    }

    /// The clash state of `kind`, if it is registered.
    pub fn state_of(&self, kind: &BevyInputKind) -> (r: Option<InputState>)
        ensures
            r == (if self.states().contains_key(*kind) { Some(self.states()[*kind]) } else { None }),
    {
        input_map_get(&self.clashables, kind)
    }

    /// Every registered input, each once.
    pub fn input_kinds(&self) -> (r: Vec<BevyInputKind>)
        ensures
            r@.no_duplicates(),
            r@.to_set() == self.states().dom(),
    {
        input_map_keys(&self.clashables)
    }

    /// Stores the latest reading of `kind`; an unregistered input is ignored.
    pub fn set_value(&mut self, kind: &BevyInputKind, value: InputValue)
        ensures
            final(self).frame_spec() == old(self).frame_spec(),
            final(self).settings_spec() == old(self).settings_spec(),
            final(self).should_rescan_spec() == old(self).should_rescan_spec(),
            old(self).states().contains_key(*kind) ==> final(self).states() == old(self).states().insert(
                *kind,
                InputState { value, ..old(self).states()[*kind] },
            ),
            !old(self).states().contains_key(*kind) ==> final(self).states() == old(self).states(),
    {
        match input_map_get(&self.clashables, kind) {
            Some(state) => {
                input_map_insert(&mut self.clashables, *kind, InputState { value, ..state });
            },
            None => {},
        }
    }
}

impl Default for InputHandler {
    /// No registered input, frame zero, buffering for 10 milliseconds, and a scan for clashes
    /// asked for.
    fn default() -> (r: Self)
        ensures
            r.frame_spec() == 0,
            r.states() == Map::<BevyInputKind, InputState>::empty(),
            r.settings_spec() matches ClashSettings::Buffered(Some(d)) && d@ == 10_000_000,
            r.should_rescan_spec(),
    {
        InputHandler {
            frame: 0,
            clashables: input_map_new(),
            settings: ClashSettings::Buffered(Some(Duration::from_millis(10))),
            should_rescan: true,
        }
    }
}

/// The kind an input has after the end of a frame, under `settings`.
///
/// `polled` tells whether a pressed chord polled the input during the frame that ends, `elapsed`
/// how long the input has been buffered.
pub open spec fn ticked_kind(kind: InputStateKind, polled: bool, settings: ClashSettings, elapsed: nat) -> InputStateKind {
    if !polled {
        InputStateKind::Clashable
    } else {
        match (settings, kind) {
            (ClashSettings::Buffered(delay), InputStateKind::Buffered(_, len)) => if delay is None || elapsed
                >= delay->0@ {
                InputStateKind::Released(len)
            } else {
                kind
            },
            _ => kind,
        }
    }
}

/// How long an input in state `kind` has been buffered at the clock reading `now` (zero when it
/// is not buffered).
pub open spec fn buffered_for(kind: InputStateKind, now: Instant) -> nat {
    match kind {
        InputStateKind::Buffered(start, _) => span_between(start@, now@),
        _ => 0,
    }
}

/// `next` is what `tick` makes of `prev` at frame `frame`, with the clock reading `now`.
pub open spec fn ticked_at(prev: InputState, next: InputState, frame: usize, settings: ClashSettings, now: Instant) -> bool {
    next == InputState { kind: ticked_kind(prev.kind, prev.frame == frame, settings, buffered_for(prev.kind, now)), ..prev }
}

/// Every input of `after` is what `tick` makes of the same input of `before`, with one clock
/// reading `now` for all of them.
pub open spec fn ticked_all(
    before: Map<BevyInputKind, InputState>,
    after: Map<BevyInputKind, InputState>,
    frame: usize,
    settings: ClashSettings,
    now: Instant,
) -> bool {
    forall|k: BevyInputKind| #[trigger] after.contains_key(k) ==> ticked_at(before[k], after[k], frame, settings, now)
}

/// `kinds[..upto]` holds `k` at least twice.
pub open spec fn bound_twice(kinds: Seq<BevyInputKind>, k: BevyInputKind, upto: int) -> bool {
    exists|a: int, b: int| 0 <= a < b < upto && #[trigger] kinds[a] == k && #[trigger] kinds[b] == k
}

/// The state `update_list` gives an input of `kinds` at frame `frame`: an input listed more
/// than once may clash, an input listed once may not.
pub open spec fn listed_state(kinds: Seq<BevyInputKind>, k: BevyInputKind, frame: usize) -> InputState {
    InputState {
        frame,
        kind: if bound_twice(kinds, k, kinds.len() as int) {
            InputStateKind::Clashable
        } else {
            InputStateKind::Unclashable
        },
        value: InputValue::Pressed(false),
    }
}

/// Whether a registered input in state `state` keeps a chord of `len` inputs from seeing it on a
/// second look.
pub open spec fn blocks_repoll(state: InputState, len: nat) -> bool {
    match state.kind {
        InputStateKind::Buffered(_, _) => true,
        InputStateKind::Clashing(chord_len) => len < chord_len,
        InputStateKind::Released(chord_len) => len < chord_len,
        _ => false,
    }
}

/// The value of the first registered input among the first `i` inputs of `chord`.
pub open spec fn first_registered(states: Map<BevyInputKind, InputState>, chord: Seq<BevyInputKind>, i: nat) -> Option<InputValue>
    decreases i,
{
    if i == 0 {
        None
    } else {
        let before = first_registered(states, chord, (i - 1) as nat);
        if before is Some {
            before
        } else if states.contains_key(chord[i - 1]) {
            Some(states[chord[i - 1]].value)
        } else {
            None
        }
    }
}

/// What a second look at `chord` sees.
pub open spec fn repoll_value(states: Map<BevyInputKind, InputState>, chord: Seq<BevyInputKind>) -> InputValue {
    if exists|i: int|
        0 <= i < chord.len() && states.contains_key(chord[i]) && blocks_repoll(
            #[trigger] states[chord[i]],
            chord.len(),
        ) {
        InputValue::Pressed(false)
    } else {
        match first_registered(states, chord, chord.len()) {
            Some(v) => v,
            None => InputValue::Pressed(false),
        }
    }
}

/// The set of the first `i + 1` items of `s` is that of the first `i` with `s[i]` added.
proof fn lemma_prefix_set_push(s: Seq<BevyInputKind>, i: int)
    requires
        0 <= i < s.len(),
    ensures
        s.subrange(0, i + 1).to_set() == s.subrange(0, i).to_set().insert(s[i]),
{
    let prefix = s.subrange(0, i);
    let c = s[i];
    assert(s.subrange(0, i + 1) == prefix.push(c));
    assert forall|x: BevyInputKind| prefix.push(c).contains(x) <==> (prefix.contains(x) || x == c) by {
        if prefix.push(c).contains(x) {
            let j = choose|j: int| 0 <= j < prefix.push(c).len() && prefix.push(c)[j] == x;
            if j < prefix.len() {
                assert(prefix[j] == x);
            }
        }
        if x == c {
            assert(prefix.push(c)[prefix.len() as int] == c);
        }
        if prefix.contains(x) {
            let j = choose|j: int| 0 <= j < prefix.len() && prefix[j] == x;
            assert(prefix.push(c)[j] == x);
        }
    }
    assert(prefix.push(c).to_set() =~= prefix.to_set().insert(c));
}

impl InputHandler {
    /// Ends a frame: an input no chord pressed during the frame becomes clashable, a buffered
    /// input whose delay has passed is released, and the frame counter moves on.
    pub fn tick_at(&mut self, now: Instant)
        requires
            old(self).frame_spec() < usize::MAX,
        ensures
            final(self).frame_spec() == old(self).frame_spec() + 1,
            ticked_all(old(self).states(), final(self).states(), old(self).frame_spec(), old(self).settings_spec(), now),
            final(self).settings_spec() == old(self).settings_spec(),
            final(self).should_rescan_spec() == old(self).should_rescan_spec(),
            final(self).states().dom() == old(self).states().dom(),
    {
        let keys = input_map_keys(&self.clashables);
        let ghost old_states = input_map_states(self.clashables);
        let mut i: usize = 0;
        while i < keys.len()
            invariant
                i <= keys@.len(),
                keys@.no_duplicates(),
                keys@.to_set() == old_states.dom(),
                self.frame == old(self).frame,
                self.settings == old(self).settings,
                self.should_rescan == old(self).should_rescan,
                old_states == old(self).states(),
                input_map_states(self.clashables).dom() == old_states.dom(),
                forall|j: int|
                    0 <= j < i ==> ticked_at(
                        old_states[keys@[j]],
                        #[trigger] input_map_states(self.clashables)[keys@[j]],
                        self.frame,
                        self.settings,
                        now,
                    ),
                forall|j: int|
                    i <= j < keys@.len() ==> #[trigger] input_map_states(self.clashables)[keys@[j]]
                        == old_states[keys@[j]],
            decreases keys@.len() - i,
        {
            let k = keys[i];
            assert(keys@.to_set().contains(keys@[i as int]));
            let state = input_map_get(&self.clashables, &k).unwrap();
            assert(state == old_states[k]);
            let ghost buffered_span: nat = buffered_for(state.kind, now);
            let new = if state.frame != self.frame {
                if state.kind.is_clashable() {
                    None
                } else {
                    Some(InputStateKind::clashable())
                }
            } else {
                match (self.settings, state.kind) {
                    (ClashSettings::Buffered(duration), InputStateKind::Buffered(start, len)) => match duration {
                        Some(d) => {
                            let elapsed = now.duration_since(&start);
                            if elapsed.as_nanos() >= d.as_nanos() {
                                Some(InputStateKind::released(len))
                            } else {
                                None
                            }
                        },
                        None => Some(InputStateKind::released(len)),
                    },
                    _ => None,
                }
            };
            let mut next = state;
            match new {
                Some(new) => next.kind.replace(new),
                None => {},
            }
            assert(next == InputState {
                kind: ticked_kind(state.kind, state.frame == self.frame, self.settings, buffered_span),
                ..state
            });
            input_map_insert(&mut self.clashables, k, next);
            proof {
                assert forall|j: int| 0 <= j < i + 1 implies ticked_at(
                    old_states[keys@[j]],
                    #[trigger] input_map_states(self.clashables)[keys@[j]],
                    self.frame,
                    self.settings,
                    now,
                ) by {
                    if j == i {
                        assert(input_map_states(self.clashables)[keys@[j]] == InputState {
                            kind: ticked_kind(old_states[keys@[j]].kind, old_states[keys@[j]].frame == self.frame, self.settings, buffered_span),
                            ..old_states[keys@[j]]
                        });
                    } else {
                        assert(keys@[j] != keys@[i as int]);
                    }
                }
                assert forall|j: int| i + 1 <= j < keys@.len() implies #[trigger] input_map_states(self.clashables)[keys@[j]]
                    == old_states[keys@[j]] by {
                    assert(keys@[j] != keys@[i as int]);
                }
            }
            i = i + 1;
        }
        proof {
            assert forall|k: BevyInputKind| #[trigger] input_map_states(self.clashables).contains_key(k) implies ticked_at(
                old_states[k],
                input_map_states(self.clashables)[k],
                old(self).frame,
                old(self).settings,
                now,
            ) by {
                assert(keys@.to_set().contains(k));
                let j = choose|j: int| 0 <= j < keys@.len() && keys@[j] == k;
                assert(ticked_at(old_states[keys@[j]], input_map_states(self.clashables)[keys@[j]], self.frame, self.settings, now));
            }
        }
        self.frame = self.frame + 1;
    }

    /// Ends a frame at the current point in time, as [`Self::tick_at`] does for that reading.
    pub fn tick(&mut self)
        requires
            old(self).frame_spec() < usize::MAX,
        ensures
            final(self).frame_spec() == old(self).frame_spec() + 1,
            final(self).settings_spec() == old(self).settings_spec(),
            final(self).should_rescan_spec() == old(self).should_rescan_spec(),
            final(self).states().dom() == old(self).states().dom(),
            exists|now: Instant| #[trigger] ticked_all(old(self).states(), final(self).states(), old(self).frame_spec(), old(self).settings_spec(), now),
    {
        let now = Instant::now();
        self.tick_at(now);
    }

    /// Replaces the registered inputs by `kinds` and resets all states: an input listed more than
    /// once is clashable, an input listed once is not.
    pub fn update_list(&mut self, kinds: &[BevyInputKind])
        ensures
            final(self).frame_spec() == old(self).frame_spec(),
            final(self).settings_spec() == old(self).settings_spec(),
            final(self).should_rescan_spec() == old(self).should_rescan_spec(),
            final(self).states().dom() == kinds@.to_set(),
            forall|k: BevyInputKind|
                #[trigger] final(self).states().contains_key(k) ==> final(self).states()[k] == listed_state(
                    kinds@,
                    k,
                    old(self).frame_spec(),
                ),
    {
        input_map_clear(&mut self.clashables);
        let mut i: usize = 0;
        while i < kinds.len()
            invariant
                i <= kinds@.len(),
                self.frame == old(self).frame,
                self.settings == old(self).settings,
                self.should_rescan == old(self).should_rescan,
                input_map_states(self.clashables).dom() == kinds@.subrange(0, i as int).to_set(),
                forall|k: BevyInputKind|
                    #[trigger] input_map_states(self.clashables).contains_key(k) ==> input_map_states(self.clashables)[k]
                        == (InputState {
                        frame: self.frame,
                        kind: if bound_twice(kinds@, k, i as int) {
                            InputStateKind::Clashable
                        } else {
                            InputStateKind::Unclashable
                        },
                        value: InputValue::Pressed(false),
                    }),
            decreases kinds@.len() - i,
        {
            let c = kinds[i];
            let ghost before = input_map_states(self.clashables);
            match input_map_get(&self.clashables, &c) {
                Some(state) => {
                    if state.kind == InputStateKind::Unclashable {
                        input_map_insert(&mut self.clashables, c, InputState { kind: InputStateKind::Clashable, ..state });
                    }
                },
                None => {
                    input_map_insert(
                        &mut self.clashables,
                        c,
                        InputState { frame: self.frame, kind: InputStateKind::Unclashable, value: InputValue::Pressed(false) },
                    );
                },
            }
            proof {
                lemma_prefix_set_push(kinds@, i as int);
                let prefix = kinds@.subrange(0, i as int);
                assert forall|k: BevyInputKind| bound_twice(kinds@, k, i + 1) <==> (bound_twice(kinds@, k, i as int) || (k
                    == c && prefix.to_set().contains(c))) by {
                    if bound_twice(kinds@, k, i + 1) && !bound_twice(kinds@, k, i as int) {
                        let (a, b) = choose|a: int, b: int|
                            0 <= a < b < i + 1 && #[trigger] kinds@[a] == k && #[trigger] kinds@[b] == k;
                        assert(b == i);
                        assert(prefix[a] == c);
                        assert(prefix.contains(c));
                    }
                    if k == c && prefix.to_set().contains(c) {
                        let a = choose|a: int| 0 <= a < prefix.len() && prefix[a] == c;
                        assert(kinds@[a] == k && kinds@[i as int] == k);
                        assert(bound_twice(kinds@, k, i + 1));
                    }
                    if bound_twice(kinds@, k, i as int) {
                        let (a, b) = choose|a: int, b: int|
                            0 <= a < b < i && #[trigger] kinds@[a] == k && #[trigger] kinds@[b] == k;
                        assert(bound_twice(kinds@, k, i + 1));
                    }
                }
                assert forall|k: BevyInputKind| #[trigger] input_map_states(self.clashables).contains_key(k)
                    implies input_map_states(self.clashables)[k] == (InputState {
                    frame: self.frame,
                    kind: if bound_twice(kinds@, k, i + 1) {
                        InputStateKind::Clashable
                    } else {
                        InputStateKind::Unclashable
                    },
                    value: InputValue::Pressed(false),
                }) by {
                    if k == c {
                        if before.contains_key(c) {
                            assert(prefix.to_set().contains(c));
                        } else {
                            assert(!prefix.to_set().contains(c));
                            if bound_twice(kinds@, k, i as int) {
                                let (a, b) = choose|a: int, b: int|
                                    0 <= a < b < i && #[trigger] kinds@[a] == k && #[trigger] kinds@[b] == k;
                                assert(prefix[a] == c);
                                assert(prefix.to_set().contains(c));
                            }
                        }
                    } else {
                        assert(before.contains_key(k));
                    }
                }
            }
            i = i + 1;
        }
        assert(kinds@.subrange(0, kinds@.len() as int) == kinds@);
    }

    /// Only preforms a check of what input to use, does not preform any state changing.
    ///
    /// It is expected that this is only ever called on inputs that got a `None` from [`Self::poll`].
    pub fn repoll(&self, clashable: &[BevyInputKind]) -> (r: InputValue)
        ensures
            r == repoll_value(self.states(), clashable@),
    {
        let ghost states = input_map_states(self.clashables);
        let mut first = true;
        let mut out = InputValue::Pressed(false);
        let mut i: usize = 0;
        while i < clashable.len()
            invariant
                i <= clashable@.len(),
                states == input_map_states(self.clashables),
                first == (first_registered(states, clashable@, i as nat) is None),
                out == (match first_registered(states, clashable@, i as nat) {
                    Some(v) => v,
                    None => InputValue::Pressed(false),
                }),
                forall|j: int|
                    0 <= j < i ==> !(states.contains_key(clashable@[j]) && blocks_repoll(
                        #[trigger] states[clashable@[j]],
                        clashable@.len(),
                    )),
            decreases clashable@.len() - i,
        {
            match input_map_get(&self.clashables, &clashable[i]) {
                Some(state) => {
                    if first {
                        first = false;
                        out = state.value;
                    }
                    let blocked = match state.kind {
                        InputStateKind::Buffered(_, _) => true,
                        InputStateKind::Unclashable => false,
                        InputStateKind::Clashable => false,
                        InputStateKind::Clashing(len) => clashable.len() < len,
                        InputStateKind::Released(len) => clashable.len() < len,
                    };
                    if blocked {
                        assert(blocks_repoll(states[clashable@[i as int]], clashable@.len()));
                        return InputValue::Pressed(false);
                    }
                },
                None => {},
            }
            i = i + 1;
        }
        out
    }
}

/// How far a poll has come in deciding what to report.
#[derive(Debug, Clone, Copy, PartialEq, Eq, Structural)]
pub enum PollPhase {
    /// No registered input of the chord has been reached yet.
    Start,
    /// The value of the first registered input is kept.
    Value,
    /// The chord must look again once every binding has polled.
    Repoll,
}

/// How many of the first `i` inputs of `chord` are registered and pressed.
pub open spec fn pressed_count(states: Map<BevyInputKind, InputState>, chord: Seq<BevyInputKind>, i: nat) -> nat
    decreases i,
{
    if i == 0 {
        0
    } else {
        pressed_count(states, chord, (i - 1) as nat) + if states.contains_key(chord[i - 1])
            && states[chord[i - 1]].value.pressed_spec() {
            1nat
        } else {
            0nat
        }
    }
}

/// Whether a poll of `chord` goes on to claim its inputs: the registered, pressed inputs of the
/// chord, counted from one, must reach the length of the chord.
pub open spec fn claims_reached(states: Map<BevyInputKind, InputState>, chord: Seq<BevyInputKind>) -> bool {
    chord.len() > 0 && pressed_count(states, chord, chord.len()) + 1 == chord.len()
}

/// The kind of an input after a chord of `len` inputs claims it under `settings`; `pressed`
/// is the reading of the input and `fresh` the start of a buffering that begins now.
pub open spec fn claimed_kind(
    kind: InputStateKind,
    pressed: bool,
    len: usize,
    settings: ClashSettings,
    fresh: Instant,
) -> InputStateKind {
    if pressed {
        match kind {
            InputStateKind::Unclashable => kind,
            InputStateKind::Clashable => match settings {
                ClashSettings::Unbuffered => InputStateKind::Clashing(len),
                ClashSettings::Buffered(_) => InputStateKind::Buffered(fresh, len),
            },
            InputStateKind::Clashing(l) => if len > l {
                InputStateKind::Clashing(len)
            } else {
                kind
            },
            InputStateKind::Buffered(start, l) => if len > l {
                InputStateKind::Buffered(start, len)
            } else {
                kind
            },
            InputStateKind::Released(l) => if len > l {
                InputStateKind::Released(len)
            } else {
                kind
            },
        }
    } else {
        match kind {
            InputStateKind::Clashing(_) => InputStateKind::Clashable,
            InputStateKind::Buffered(_, l) => InputStateKind::Released(l),
            _ => kind,
        }
    }
}

/// The state of a registered input after a chord of `len` inputs claims it in frame `frame`.
pub open spec fn claimed_state(s: InputState, len: usize, settings: ClashSettings, frame: usize, fresh: Instant) -> InputState {
    let pressed = s.value.pressed_spec();
    InputState {
        frame: if pressed { frame } else { s.frame },
        kind: claimed_kind(s.kind, pressed, len, settings, fresh),
        value: s.value,
    }
}

/// The phase and the value of a poll of `len` inputs after it reaches a registered input that
/// it left in state `s`.
pub open spec fn phase_after(phase: PollPhase, out: InputValue, s: InputState, len: usize) -> (PollPhase, InputValue) {
    let (p, o) = if phase is Start { (PollPhase::Value, s.value) } else { (phase, out) };
    match s.kind {
        InputStateKind::Clashing(_) => (PollPhase::Repoll, o),
        InputStateKind::Buffered(_, _) => (p, InputValue::Pressed(false)),
        InputStateKind::Released(l) => if len < l {
            (p, InputValue::Pressed(false))
        } else {
            (p, o)
        },
        _ => (p, o),
    }
}

/// The claims of a poll on the first `fresh.len()` inputs of `chord` (`fresh[i]` is the point in
/// time a buffering of input `i` would start at), with the phase and value they lead to.
pub open spec fn claim_chord(
    states: Map<BevyInputKind, InputState>,
    chord: Seq<BevyInputKind>,
    frame: usize,
    settings: ClashSettings,
    fresh: Seq<Instant>,
) -> (Map<BevyInputKind, InputState>, PollPhase, InputValue)
    decreases fresh.len(),
{
    if fresh.len() == 0 {
        (states, PollPhase::Start, InputValue::Pressed(false))
    } else {
        let (m, p, o) = claim_chord(states, chord, frame, settings, fresh.drop_last());
        let c = chord[fresh.len() - 1];
        if m.contains_key(c) {
            let s = claimed_state(m[c], chord.len() as usize, settings, frame, fresh.last());
            let (p2, o2) = phase_after(p, o, s, chord.len() as usize);
            (m.insert(c, s), p2, o2)
        } else {
            (m, p, o)
        }
    }
}

/// The states after a poll of `chord` and what it returns, given the starts `fresh` of the
/// bufferings it begins.
pub open spec fn poll_effect(
    states: Map<BevyInputKind, InputState>,
    chord: Seq<BevyInputKind>,
    frame: usize,
    settings: ClashSettings,
    fresh: Seq<Instant>,
) -> (Map<BevyInputKind, InputState>, Option<InputValue>) {
    if !claims_reached(states, chord) {
        (states, Some(InputValue::Pressed(false)))
    } else {
        let (m, p, o) = claim_chord(states, chord, frame, settings, fresh);
        (m, if p is Repoll { None } else { Some(o) })
    }
}

/// Whether a claim leaves a registered input in state `s` in a state a poll can report on: a
/// pressed input must not be bound once, an input let go must be buffered or released.
pub open spec fn claim_safe(s: InputState) -> bool {
    if s.value.pressed_spec() {
        !(s.kind is Unclashable)
    } else {
        s.kind is Released || s.kind is Buffered
    }
}

/// Whether a poll of `chord` can report on every input it claims.
pub open spec fn poll_defined(states: Map<BevyInputKind, InputState>, chord: Seq<BevyInputKind>) -> bool {
    claims_reached(states, chord) ==> forall|j: int|
        0 <= j < chord.len() && states.contains_key(chord[j]) ==> claim_safe(#[trigger] states[chord[j]])
}

/// A claim keeps a state a poll can report on, and never leaves it unclashable or clashable.
proof fn lemma_claim_stays_safe(s: InputState, len: usize, settings: ClashSettings, frame: usize, fresh: Instant)
    requires
        claim_safe(s),
    ensures
        claim_safe(claimed_state(s, len, settings, frame, fresh)),
        !(claimed_state(s, len, settings, frame, fresh).kind is Unclashable),
        !(claimed_state(s, len, settings, frame, fresh).kind is Clashable),
{
}

impl InputHandler {
    /// Tries to return the newest value associated with the binding.
    ///
    /// If `None` is returned then you must [`Self::repoll`] after all inputs have been polled.
    ///
    /// `now` is the clock reading of the poll: inputs that start buffering start at it.
    pub fn poll_at(&mut self, clashable: &[BevyInputKind], now: Instant) -> (r: Option<InputValue>)
        requires
            poll_defined(old(self).states(), clashable@),
        ensures
            final(self).frame_spec() == old(self).frame_spec(),
            final(self).settings_spec() == old(self).settings_spec(),
            final(self).should_rescan_spec() == old(self).should_rescan_spec(),
            (final(self).states(), r) == poll_effect(
                old(self).states(),
                clashable@,
                old(self).frame_spec(),
                old(self).settings_spec(),
                Seq::new(clashable@.len(), |j: int| now),
            ),
    {
        let ghost states = input_map_states(self.clashables);
        let ghost chord = clashable@;
        let n = clashable.len();
        if n == 0 {
            let ghost fresh: Seq<Instant> = Seq::new(0, |j: int| now);
            assert(poll_effect(states, chord, self.frame, self.settings, fresh).1 == Some(InputValue::Pressed(false)));
            return Some(InputValue::Pressed(false));
        }
        let mut count: usize = 0;
        let mut i: usize = 0;
        while i < n
            invariant
                n == chord.len(),
                chord == clashable@,
                i <= n,
                states == input_map_states(self.clashables),
                count == pressed_count(states, chord, i as nat),
                count <= i,
            decreases n - i,
        {
            match input_map_get(&self.clashables, &clashable[i]) {
                Some(state) => {
                    if state.value.is_pressed() {
                        count = count + 1;
                    }
                },
                None => {},
            }
            i = i + 1;
        }
        if count != n - 1 {
            let ghost fresh = Seq::new(n as nat, |j: int| now);
            assert(!claims_reached(states, chord));
            assert(fresh.len() == clashable@.len() && (input_map_states(self.clashables), Some(InputValue::Pressed(false)))
                == poll_effect(old(self).states(), clashable@, old(self).frame_spec(), old(self).settings_spec(), fresh));
            return Some(InputValue::Pressed(false));
        }
        assert(claims_reached(states, chord));
        let settings = self.settings;
        let mut phase = PollPhase::Start;
        let mut out = InputValue::Pressed(false);
        let ghost mut fresh: Seq<Instant> = Seq::empty();
        let mut i: usize = 0;
        while i < n
            invariant
                n == chord.len(),
                chord == clashable@,
                n > 0,
                i <= n,
                fresh.len() == i,
                forall|j: int| 0 <= j < i ==> #[trigger] fresh[j] == now,
                self.frame == old(self).frame,
                self.settings == old(self).settings,
                self.should_rescan == old(self).should_rescan,
                settings == self.settings,
                states == old(self).states(),
                poll_defined(states, chord),
                claims_reached(states, chord),
                (input_map_states(self.clashables), phase, out) == claim_chord(states, chord, self.frame, settings, fresh),
                input_map_states(self.clashables).dom() == states.dom(),
                forall|j: int|
                    0 <= j < n && input_map_states(self.clashables).contains_key(chord[j]) ==> claim_safe(
                        #[trigger] input_map_states(self.clashables)[chord[j]],
                    ),
            decreases n - i,
        {
            let c = clashable[i];
            let ghost started: Instant = now;
            match input_map_get(&self.clashables, &c) {
                Some(state) => {
                    assert(claim_safe(input_map_states(self.clashables)[chord[i as int]]));
                    let pressed = state.value.is_pressed();
                    let new_state = if pressed {
                        match state.kind {
                            InputStateKind::Unclashable => None,
                            InputStateKind::Clashable => match settings {
                                ClashSettings::Unbuffered => Some(InputStateKind::clashing(n)),
                                ClashSettings::Buffered(_) => Some(InputStateKind::buffered_with_instant(n, now)),
                            },
                            InputStateKind::Clashing(len) => if n > len {
                                Some(InputStateKind::clashing(n))
                            } else {
                                None
                            },
                            InputStateKind::Buffered(instant, len) => if n > len {
                                Some(InputStateKind::buffered_with_instant(n, instant))
                            } else {
                                None
                            },
                            InputStateKind::Released(len) => if n > len {
                                Some(InputStateKind::released(n))
                            } else {
                                None
                            },
                        }
                    } else {
                        match state.kind {
                            InputStateKind::Clashing(_) => Some(InputStateKind::clashable()),
                            InputStateKind::Buffered(_, len) => Some(InputStateKind::released(len)),
                            _ => None,
                        }
                    };
                    let mut next = state;
                    match new_state {
                        Some(new) => next.kind.replace(new),
                        None => {},
                    }
                    if pressed && next.frame != self.frame {
                        next.frame = self.frame;
                    }
                    assert(next == claimed_state(state, n, settings, self.frame, started));
                    proof {
                        lemma_claim_stays_safe(state, n, settings, self.frame, started);
                    }
                    input_map_insert(&mut self.clashables, c, next);
                    match phase {
                        PollPhase::Start => {
                            phase = PollPhase::Value;
                            out = next.value;
                        },
                        _ => {},
                    }
                    match next.kind {
                        InputStateKind::Clashing(_) => {
                            phase = PollPhase::Repoll;
                        },
                        InputStateKind::Buffered(_, _) => {
                            out = InputValue::Pressed(false);
                        },
                        InputStateKind::Unclashable => vstd::pervasive::unreached(),
                        InputStateKind::Clashable => vstd::pervasive::unreached(),
                        InputStateKind::Released(len) => if n < len {
                            out = InputValue::Pressed(false);
                        },
                    }
                },
                None => {},
            }
            proof {
                let fresh2 = fresh.push(started);
                assert(fresh2.drop_last() == fresh);
                fresh = fresh2;
            }
            i = i + 1;
        }
        let r = match phase {
            PollPhase::Repoll => None,
            _ => Some(out),
        };
        assert(fresh =~= Seq::new(clashable@.len(), |j: int| now));
        r
    }

    /// Tries to return the newest value associated with the binding.
    ///
    /// If `None` is returned then you must [`Self::repoll`] after all inputs have been polled
    pub fn poll(&mut self, clashable: &[BevyInputKind]) -> (r: Option<InputValue>)
        requires
            poll_defined(old(self).states(), clashable@),
        ensures
            final(self).frame_spec() == old(self).frame_spec(),
            final(self).settings_spec() == old(self).settings_spec(),
            final(self).should_rescan_spec() == old(self).should_rescan_spec(),
            exists|fresh: Seq<Instant>|
                fresh.len() == clashable@.len() && (final(self).states(), r) == #[trigger] poll_effect(
                    old(self).states(),
                    clashable@,
                    old(self).frame_spec(),
                    old(self).settings_spec(),
                    fresh,
                ),
    {
        let now = Instant::now();
        self.poll_at(clashable, now)
    }
}

/// Once the value of a poll is the unpressed value and its first registered input is behind it,
/// the value stays unpressed, whatever the poll reaches next.
proof fn lemma_unpressed_value_stays(
    states: Map<BevyInputKind, InputState>,
    chord: Seq<BevyInputKind>,
    frame: usize,
    settings: ClashSettings,
    fresh: Seq<Instant>,
    t: int,
)
    requires
        0 <= t <= fresh.len(),
        claim_chord(states, chord, frame, settings, fresh.subrange(0, t)).2 == InputValue::Pressed(false),
        !(claim_chord(states, chord, frame, settings, fresh.subrange(0, t)).1 is Start),
    ensures
        claim_chord(states, chord, frame, settings, fresh).2 == InputValue::Pressed(false),
        !(claim_chord(states, chord, frame, settings, fresh).1 is Start),
    decreases fresh.len(),
{
    if fresh.len() == t {
        assert(fresh.subrange(0, t) == fresh);
    } else {
        assert(fresh.drop_last().subrange(0, t) == fresh.subrange(0, t));
        lemma_unpressed_value_stays(states, chord, frame, settings, fresh.drop_last(), t);
    }
}

/// Once a poll asks for a second look, it keeps asking, whatever it reaches next.
proof fn lemma_repoll_stays(
    states: Map<BevyInputKind, InputState>,
    chord: Seq<BevyInputKind>,
    frame: usize,
    settings: ClashSettings,
    fresh: Seq<Instant>,
    t: int,
)
    requires
        0 <= t <= fresh.len(),
        claim_chord(states, chord, frame, settings, fresh.subrange(0, t)).1 is Repoll,
    ensures
        claim_chord(states, chord, frame, settings, fresh).1 is Repoll,
    decreases fresh.len(),
{
    if fresh.len() == t {
        assert(fresh.subrange(0, t) == fresh);
    } else {
        assert(fresh.drop_last().subrange(0, t) == fresh.subrange(0, t));
        lemma_repoll_stays(states, chord, frame, settings, fresh.drop_last(), t);
    }
}

/// Under buffering, claims keep a pressed input that may clash either clashable or buffered.
proof fn lemma_claims_keep_buffering(
    states: Map<BevyInputKind, InputState>,
    chord: Seq<BevyInputKind>,
    frame: usize,
    settings: ClashSettings,
    fresh: Seq<Instant>,
    k: BevyInputKind,
)
    requires
        settings is Buffered,
        states.contains_key(k),
        states[k].value.pressed_spec(),
        states[k].kind is Clashable || states[k].kind is Buffered,
        fresh.len() <= chord.len(),
    ensures
        claim_chord(states, chord, frame, settings, fresh).0.contains_key(k),
        claim_chord(states, chord, frame, settings, fresh).0[k].value == states[k].value,
        claim_chord(states, chord, frame, settings, fresh).0[k].kind is Clashable || claim_chord(
            states,
            chord,
            frame,
            settings,
            fresh,
        ).0[k].kind is Buffered,
    decreases fresh.len(),
{
    if fresh.len() > 0 {
        lemma_claims_keep_buffering(states, chord, frame, settings, fresh.drop_last(), k);
    }
}

/// Without buffering, claims keep a pressed input that may clash either clashable or clashing.
proof fn lemma_claims_keep_clashing(
    states: Map<BevyInputKind, InputState>,
    chord: Seq<BevyInputKind>,
    frame: usize,
    settings: ClashSettings,
    fresh: Seq<Instant>,
    k: BevyInputKind,
)
    requires
        settings is Unbuffered,
        states.contains_key(k),
        states[k].value.pressed_spec(),
        states[k].kind is Clashable || states[k].kind is Clashing,
        fresh.len() <= chord.len(),
    ensures
        claim_chord(states, chord, frame, settings, fresh).0.contains_key(k),
        claim_chord(states, chord, frame, settings, fresh).0[k].value == states[k].value,
        claim_chord(states, chord, frame, settings, fresh).0[k].kind is Clashable || claim_chord(
            states,
            chord,
            frame,
            settings,
            fresh,
        ).0[k].kind is Clashing,
    decreases fresh.len(),
{
    if fresh.len() > 0 {
        lemma_claims_keep_clashing(states, chord, frame, settings, fresh.drop_last(), k);
    }
}

/// Claims by a chord shorter than `len` keep an input released to chords of `len` inputs.
proof fn lemma_claims_keep_release(
    states: Map<BevyInputKind, InputState>,
    chord: Seq<BevyInputKind>,
    frame: usize,
    settings: ClashSettings,
    fresh: Seq<Instant>,
    k: BevyInputKind,
    len: usize,
)
    requires
        states.contains_key(k),
        states[k].kind == InputStateKind::Released(len),
        chord.len() < len,
        fresh.len() <= chord.len(),
    ensures
        claim_chord(states, chord, frame, settings, fresh).0.contains_key(k),
        claim_chord(states, chord, frame, settings, fresh).0[k].kind == InputStateKind::Released(len),
    decreases fresh.len(),
{
    if fresh.len() > 0 {
        lemma_claims_keep_release(states, chord, frame, settings, fresh.drop_last(), k, len);
    }
}

/// With buffering an input is never active the first frame it is pressed: a poll that reaches a
/// pressed input that may clash is told the unpressed value, or to look again.
pub proof fn lemma_buffering_hides_first_press(
    states: Map<BevyInputKind, InputState>,
    chord: Seq<BevyInputKind>,
    frame: usize,
    settings: ClashSettings,
    fresh: Seq<Instant>,
    j: int,
)
    requires
        settings is Buffered,
        fresh.len() == chord.len(),
        0 <= j < chord.len(),
        states.contains_key(chord[j]),
        states[chord[j]].value.pressed_spec(),
        states[chord[j]].kind is Clashable,
    ensures
        poll_effect(states, chord, frame, settings, fresh).1 is None || poll_effect(states, chord, frame, settings, fresh).1
            == Some(InputValue::Pressed(false)),
{
    if claims_reached(states, chord) {
        let k = chord[j];
        let before = fresh.subrange(0, j);
        lemma_claims_keep_buffering(states, chord, frame, settings, before, k);
        let upto = fresh.subrange(0, j + 1);
        assert(upto.drop_last() == before);
        let r = claim_chord(states, chord, frame, settings, upto);
        assert(r.2 == InputValue::Pressed(false) && !(r.1 is Start));
        lemma_unpressed_value_stays(states, chord, frame, settings, fresh, j + 1);
    }
}

/// Without buffering, clashes are detected when they happen: a poll that goes on to claim a
/// pressed input that may clash must look again once every binding has polled.
pub proof fn lemma_clash_asks_for_repoll(
    states: Map<BevyInputKind, InputState>,
    chord: Seq<BevyInputKind>,
    frame: usize,
    settings: ClashSettings,
    fresh: Seq<Instant>,
    j: int,
)
    requires
        settings is Unbuffered,
        claims_reached(states, chord),
        fresh.len() == chord.len(),
        0 <= j < chord.len(),
        states.contains_key(chord[j]),
        states[chord[j]].value.pressed_spec(),
        states[chord[j]].kind is Clashable,
    ensures
        poll_effect(states, chord, frame, settings, fresh).1 is None,
{
    let k = chord[j];
    let before = fresh.subrange(0, j);
    lemma_claims_keep_clashing(states, chord, frame, settings, before, k);
    let upto = fresh.subrange(0, j + 1);
    assert(upto.drop_last() == before);
    assert(claim_chord(states, chord, frame, settings, upto).1 is Repoll);
    lemma_repoll_stays(states, chord, frame, settings, fresh, j + 1);
}

/// If a high priority binding captures a button, that button must be released before a lower
/// priority binding can see it again: a poll of a chord shorter than the chord an input was
/// released to is told the unpressed value, or to look again.
pub proof fn lemma_release_hides_shorter_chords(
    states: Map<BevyInputKind, InputState>,
    chord: Seq<BevyInputKind>,
    frame: usize,
    settings: ClashSettings,
    fresh: Seq<Instant>,
    j: int,
)
    requires
        fresh.len() == chord.len(),
        0 <= j < chord.len(),
        states.contains_key(chord[j]),
        states[chord[j]].kind is Released,
        chord.len() < states[chord[j]].kind->Released_0,
    ensures
        poll_effect(states, chord, frame, settings, fresh).1 is None || poll_effect(states, chord, frame, settings, fresh).1
            == Some(InputValue::Pressed(false)),
{
    if claims_reached(states, chord) {
        let k = chord[j];
        let len = states[k].kind->Released_0;
        let before = fresh.subrange(0, j);
        lemma_claims_keep_release(states, chord, frame, settings, before, k, len);
        let upto = fresh.subrange(0, j + 1);
        assert(upto.drop_last() == before);
        let r = claim_chord(states, chord, frame, settings, upto);
        assert(r.2 == InputValue::Pressed(false) && !(r.1 is Start));
        lemma_unpressed_value_stays(states, chord, frame, settings, fresh, j + 1);
    }
}

/// An input that no chord pressed during the frame becomes clashable on `tick`.
pub proof fn lemma_tick_unpolled_becomes_clashable(prev: InputState, next: InputState, frame: usize, settings: ClashSettings, now: Instant)
    requires
        ticked_at(prev, next, frame, settings, now),
        prev.frame != frame,
    ensures
        next.kind is Clashable,
        next.value == prev.value,
{
}

/// Without a delay a buffered input is held back for one frame only: `tick` releases it to the
/// longest chord that asked for it.
pub proof fn lemma_tick_releases_undelayed_buffering(prev: InputState, next: InputState, frame: usize, settings: ClashSettings, now: Instant)
    requires
        ticked_at(prev, next, frame, settings, now),
        prev.frame == frame,
        prev.kind is Buffered,
        settings == ClashSettings::Buffered(None),
    ensures
        next.kind == InputStateKind::Released(prev.kind->Buffered_1),
{
}


/// With a buffering delay, an input polled this frame is released for its chord on `tick`
/// exactly when the delay has passed since its buffering started, at the clock reading of the
/// tick; until then it stays buffered with the same start.
pub proof fn lemma_tick_releases_after_delay(
    prev: InputState,
    next: InputState,
    frame: usize,
    delay: Duration,
    now: Instant,
)
    requires
        ticked_at(prev, next, frame, ClashSettings::Buffered(Some(delay)), now),
        prev.frame == frame,
        prev.kind is Buffered,
    ensures
        span_between(prev.kind->Buffered_0@, now@) >= delay@ ==> next.kind == InputStateKind::Released(prev.kind->Buffered_1),
        span_between(prev.kind->Buffered_0@, now@) < delay@ ==> next.kind == prev.kind,
{
}


/// `chord[..upto]` holds `k`.
pub open spec fn polled_before(chord: Seq<BevyInputKind>, k: BevyInputKind, upto: int) -> bool {
    exists|i: int| 0 <= i < upto && chord[i] == k
}

/// The larger of two chord lengths.
pub open spec fn longer(a: usize, b: usize) -> usize {
    if a > b {
        a
    } else {
        b
    }
}

/// What the claims of a chord of `n` inputs leave of an input in state `before` that the chord
/// reaches: pressed, it is stamped with the frame and the chord length it records grows to the
/// longer of its own and `n`; let go, a clash ends and a buffering is released to its chord.
pub open spec fn claim_outcome(before: InputState, after: InputState, n: usize, settings: ClashSettings, frame: usize) -> bool {
    &&& after.value == before.value
    &&& before.value.pressed_spec() ==> {
        &&& after.frame == frame
        &&& before.kind matches InputStateKind::Clashing(l) ==> after.kind == InputStateKind::Clashing(longer(l, n))
        &&& before.kind matches InputStateKind::Released(l) ==> after.kind == InputStateKind::Released(longer(l, n))
        &&& before.kind matches InputStateKind::Buffered(start, l) ==> after.kind == InputStateKind::Buffered(
            start,
            longer(l, n),
        )
        &&& before.kind is Clashable ==> if settings is Unbuffered {
            after.kind == InputStateKind::Clashing(n)
        } else {
            after.kind is Buffered && after.kind->Buffered_1 == n
        }
        &&& before.kind is Unclashable ==> after.kind is Unclashable
    }
    &&& !before.value.pressed_spec() ==> {
        &&& after.frame == before.frame
        &&& before.kind is Clashing ==> after.kind is Clashable
        &&& before.kind matches InputStateKind::Buffered(_, l) ==> after.kind == InputStateKind::Released(l)
        &&& !(before.kind is Clashing || before.kind is Buffered) ==> after.kind == before.kind
    }
}

proof fn lemma_claims_take_longest(
    states: Map<BevyInputKind, InputState>,
    chord: Seq<BevyInputKind>,
    frame: usize,
    settings: ClashSettings,
    fresh: Seq<Instant>,
    k: BevyInputKind,
)
    requires
        states.contains_key(k),
        fresh.len() <= chord.len(),
        chord.len() <= usize::MAX,
    ensures
        claim_chord(states, chord, frame, settings, fresh).0.contains_key(k),
        !polled_before(chord, k, fresh.len() as int) ==> claim_chord(states, chord, frame, settings, fresh).0[k]
            == states[k],
        polled_before(chord, k, fresh.len() as int) ==> claim_outcome(
            states[k],
            claim_chord(states, chord, frame, settings, fresh).0[k],
            chord.len() as usize,
            settings,
            frame,
        ),
    decreases fresh.len(),
{
    if fresh.len() > 0 {
        let i = fresh.len() - 1;
        lemma_claims_take_longest(states, chord, frame, settings, fresh.drop_last(), k);
        if chord[i] != k {
            if polled_before(chord, k, fresh.len() as int) {
                let w = choose|w: int| 0 <= w < fresh.len() && chord[w] == k;
                assert(w < i);
                assert(polled_before(chord, k, i));
            }
        } else {
            assert(polled_before(chord, k, fresh.len() as int));
        }
    }
}

/// When a poll goes on to claim its inputs, each registered input of the chord ends as
/// [`claim_outcome`] says: a pressed input records the longer of its chord length and this
/// chord's (so a longer chord takes the input over, and a shorter chord never lowers it), an
/// input let go ends its clash or has its buffering released; readings stay, and inputs outside
/// the chord are untouched.
pub proof fn lemma_pressed_chord_takes_its_inputs(
    states: Map<BevyInputKind, InputState>,
    chord: Seq<BevyInputKind>,
    frame: usize,
    settings: ClashSettings,
    fresh: Seq<Instant>,
    k: BevyInputKind,
)
    requires
        claims_reached(states, chord),
        fresh.len() == chord.len(),
        chord.len() <= usize::MAX,
        states.contains_key(k),
    ensures
        poll_effect(states, chord, frame, settings, fresh).0.contains_key(k),
        !chord.contains(k) ==> poll_effect(states, chord, frame, settings, fresh).0[k] == states[k],
        chord.contains(k) ==> claim_outcome(
            states[k],
            poll_effect(states, chord, frame, settings, fresh).0[k],
            chord.len() as usize,
            settings,
            frame,
        ),
{
    lemma_claims_take_longest(states, chord, frame, settings, fresh, k);
    if chord.contains(k) {
        let w = choose|w: int| 0 <= w < chord.len() && chord[w] == k;
        assert(polled_before(chord, k, fresh.len() as int));
    } else {
        if polled_before(chord, k, fresh.len() as int) {
            let w = choose|w: int| 0 <= w < fresh.len() && chord[w] == k;
            assert(chord.contains(k));
        }
    }
}

} // verus!
