//! [`InputHandler`] related types: the per-input clash state and its settings.
use vstd::prelude::*;

use std::marker::PhantomData;

use bevy::platform::collections::HashMap;

use crate::time::{Duration, Instant, span_between};
use crate::{BevyInputKind, InputValue, contains_kind};

verus! {

/// Current state of an input.
#[derive(Debug, Clone, Copy, PartialEq, Eq, Structural)]
pub enum InputStateKind {
    /// State is currently inactive.
    Inactive,
    /// At least 1 input wants to
    Clashing(usize),
    /// Input is being buffered and is being reported as inactive, shall become released with
    /// the same `usize` for at least 1 frame.
    Buffered {
        /// When the buffered state was entered.
        start: Instant,
        /// Current largest chord trying to access the binding.
        chord_len: usize,
        /// Largest chord trying to access the binding in the previous frame.
        last_chord_len: usize,
        /// Amount of inputs trying to access this binding.
        count: usize,
    },
    /// State is currently active if you meet the priority stored.
    Active { chord_len: usize, last_chord_len: usize },
}

impl Default for InputStateKind {
    fn default() -> (r: Self)
        ensures
            r == InputStateKind::Inactive,
    {
        InputStateKind::Inactive
    }
}

impl InputStateKind {
    pub fn inactive() -> (r: Self)
        ensures
            r == InputStateKind::Inactive,
    {
        InputStateKind::Inactive
    }

    pub fn clashing(len: usize) -> (r: Self)
        ensures
            r == InputStateKind::Clashing(len),
    {
        InputStateKind::Clashing(len)
    }

    /// A buffering that starts now, asked for by one chord of `len` inputs.
    pub fn buffered(len: usize) -> (r: Self)
        ensures
            r matches InputStateKind::Buffered { chord_len, last_chord_len, count, .. } && chord_len == len
                && last_chord_len == len && count == 1,
    {
        InputStateKind::Buffered { start: Instant::now(), chord_len: len, last_chord_len: len, count: 1 }
    }

    /// Active for chords of `len` inputs, this frame and the last.
    pub fn active(len: usize) -> (r: Self)
        ensures
            r == (InputStateKind::Active { chord_len: len, last_chord_len: len }),
    {
        InputStateKind::Active { chord_len: len, last_chord_len: len }
    }

    pub fn replace(&mut self, new: Self)
        ensures
            *final(self) == new,
    {
        *self = new;
    }
}

/// The clash state of one input.
#[derive(Debug, Clone, Copy, PartialEq, Eq, Structural)]
pub struct InputState {
    /// The last frame this was updated by a poll call.
    pub frame: usize,
    /// The actual state.
    pub kind: InputStateKind,
    /// The last input feed into the state.
    pub value: InputValue,
}

/// The state given to an input when it is first registered in frame `frame`.
pub open spec fn fresh_state(frame: usize) -> InputState {
    InputState { frame, kind: InputStateKind::Inactive, value: InputValue::Pressed(false) }
}

/// The states held by a map of inputs.
pub uninterp spec fn input_states(m: HashMap<BevyInputKind, InputState>) -> Map<BevyInputKind, InputState>;

/// Calls `HashMap::new` of `bevy_platform`: the new map holds nothing.
#[verifier::external_body]
fn map_new() -> (r: HashMap<BevyInputKind, InputState>)
    ensures
        input_states(r).dom().is_empty(),
{
    HashMap::new()
}

/// Calls `HashMap::get` of `bevy_platform` and copies the state found: the state stored under
/// `k`, if any.
#[verifier::external_body]
fn map_get(m: &HashMap<BevyInputKind, InputState>, k: &BevyInputKind) -> (r: Option<InputState>)
    ensures
        r == (if input_states(*m).contains_key(*k) {
            Some(input_states(*m)[*k])
        } else {
            None
        }),
{
    m.get(k).copied()
}

/// Calls `HashMap::insert` of `bevy_platform`: afterwards `k` maps to `v` and every other key
/// keeps its state.
#[verifier::external_body]
fn map_insert(m: &mut HashMap<BevyInputKind, InputState>, k: BevyInputKind, v: InputState)
    ensures
        input_states(*final(m)) == input_states(*old(m)).insert(k, v),
{
    m.insert(k, v);
}

/// Calls `HashMap::keys` of `bevy_platform` and collects the keys: each key of the map once, in
/// an order the map chooses.
#[verifier::external_body]
fn map_keys(m: &HashMap<BevyInputKind, InputState>) -> (r: Vec<BevyInputKind>)
    ensures
        r@.no_duplicates(),
        r@.to_set() == input_states(*m).dom(),
{
    m.keys().copied().collect()
}

/// Calls `HashMap::clear` of `bevy_platform`: afterwards the map holds nothing.
#[verifier::external_body]
fn map_clear(m: &mut HashMap<BevyInputKind, InputState>)
    ensures
        input_states(*final(m)).dom().is_empty(),
{
    m.clear();
}

/// The set of the first `i + 1` items of `s` is that of the first `i` with `s[i]` added.
proof fn lemma_prefix_set_push(s: Seq<BevyInputKind>, i: int)
    requires
        0 <= i < s.len(),
    ensures
        s.subrange(0, i + 1).to_set() == s.subrange(0, i).to_set().insert(s[i]),
{
    let prefix = s.subrange(0, i);
    let c = s[i];
    assert(s.subrange(0, i + 1) == prefix.push(c));
    assert forall|x: BevyInputKind| prefix.push(c).contains(x) <==> (prefix.contains(x) || x == c) by {
        if prefix.push(c).contains(x) {
            let j = choose|j: int| 0 <= j < prefix.push(c).len() && prefix.push(c)[j] == x;
            if j < prefix.len() {
                assert(prefix[j] == x);
            }
        }
        if x == c {
            assert(prefix.push(c)[prefix.len() as int] == c);
        }
        if prefix.contains(x) {
            let j = choose|j: int| 0 <= j < prefix.len() && prefix[j] == x;
            assert(prefix.push(c)[j] == x);
        }
    }
    assert(prefix.push(c).to_set() =~= prefix.to_set().insert(c));
}

/// Defines default [`ClashSettings`] for newly created input handlers.
#[derive(Clone, Copy, Debug)]
pub struct DefaultClashSettings(pub ClashSettings);

impl core::ops::Deref for DefaultClashSettings {
    type Target = ClashSettings;

    fn deref(&self) -> (r: &ClashSettings)
        ensures
            *r == self.0,
    {
        &self.0
    }
}

/// The settings to use for resolving clashing inputs.
///
/// attach to an entity to override global clash settings.
#[derive(Clone, Copy, Debug, PartialEq, Eq, Structural)]
pub struct ClashSettings {
    pub(crate) strat: ClashStrategy,
    /// reset the chord length on tick so that smaller chords can become active
    /// after releasing a larger chord.
    pub(crate) chord_regretion: bool,
}

impl Default for ClashSettings {
    fn default() -> (r: Self)
        ensures
            r.strategy_spec() == ClashStrategy::Unbuffered,
            !r.chord_regretion_spec(),
    {
        ClashSettings { strat: ClashStrategy::Unbuffered, chord_regretion: false }
    }
}

impl ClashSettings {
    pub closed spec fn strategy_spec(&self) -> ClashStrategy {
        self.strat
    }

    pub closed spec fn chord_regretion_spec(&self) -> bool {
        self.chord_regretion
    }

    pub fn new(strat: ClashStrategy, chord_regretion: bool) -> (r: Self)
        ensures
            r.strategy_spec() == strat,
            r.chord_regretion_spec() == chord_regretion,
    {
        ClashSettings { strat, chord_regretion }
    }

    /// Whether to reset the chord length on tick so that smaller chords can become
    /// active after releasing a larger chord.
    pub fn chord_regretion(&self) -> (r: bool)
        ensures
            r == self.chord_regretion_spec(),
    {
        self.chord_regretion
    }

    /// Whether to reset the chord length on tick so that smaller chords can become
    /// active after releasing a larger chord.
    pub fn set_chord_regretion(&mut self, chord_regretion: bool)
        ensures
            final(self).chord_regretion_spec() == chord_regretion,
            final(self).strategy_spec() == old(self).strategy_spec(),
    {
        self.chord_regretion = chord_regretion;
    }

    pub fn with_chord_regretion(self, chord_regretion: bool) -> (r: Self)
        ensures
            r.chord_regretion_spec() == chord_regretion,
            r.strategy_spec() == self.strategy_spec(),
    {
        let mut s = self;
        s.chord_regretion = chord_regretion;
        s
    }

    pub fn clash_strategy(&self) -> (r: ClashStrategy)
        ensures
            r == self.strategy_spec(),
    {
        self.strat
    }

    pub fn set_clash_strategy(&mut self, strat: ClashStrategy)
        ensures
            final(self).strategy_spec() == strat,
            final(self).chord_regretion_spec() == old(self).chord_regretion_spec(),
    {
        self.strat = strat;
    }

    pub fn with_clash_strategy(self, strat: ClashStrategy) -> (r: Self)
        ensures
            r.strategy_spec() == strat,
            r.chord_regretion_spec() == self.chord_regretion_spec(),
    {
        let mut s = self;
        s.strat = strat;
        s
    }
}

/// Settings with the given strategy and without chord regression.
impl From<ClashStrategy> for ClashSettings {
    fn from(value: ClashStrategy) -> (r: Self)
        ensures
            r.strategy_spec() == value,
            !r.chord_regretion_spec(),
    {
        ClashSettings { strat: value, chord_regretion: false }
    }
}

impl vstd::std_specs::convert::FromSpecImpl<ClashStrategy> for ClashSettings {
    open spec fn obeys_from_spec() -> bool {
        true
    }

    closed spec fn from_spec(value: ClashStrategy) -> Self {
        ClashSettings { strat: value, chord_regretion: false }
    }
}

/// The settings to use for resolving clashing inputs.
#[derive(Clone, Copy, Debug, PartialEq, Eq, Structural)]
pub enum ClashStrategy {
    /// Does not buffer inputs, just detects clashes. Inputs that may clash will be re-checked after all inputs
    /// have had a chance to assert their priority.
    ///
    /// # Rules
    ///
    /// - If a high priority binding captures a button, that button must be released before a lower priority
    ///   binding can see it again.
    ///
    Unbuffered,
    /// Buffers inputs that can clash until a timer runs out or unpressed.
    ///
    /// # Rules
    ///
    /// - An input will NEVER be active/shown the first frame it is pressed. Unlike Unbuffered re-checks
    ///   are not necessary because every binding will have a chance to be prioritized for chords.
    /// - If a wait duration is provided the input will be inactive/hidden to all bindings until the button has been
    ///   active for at least that long.
    /// - If the timer runs out or the button is unpressed: the chord with the most active parts will be activated.
    /// - If a high priority binding captures a button, that button must be released before a lower priority
    ///   binding can see it again.
    /// - If a chord has multiple buffered inputs, all inputs start times will be set the the oldest.
    BufferClashing(Option<Duration>),
    /// Buffers all inputs until a timer runs out or unpressed.
    ///
    /// # Rules
    ///
    /// - An input will NEVER be active/shown the first frame it is pressed. Unlike Unbuffered re-checks
    ///   are not necessary because every binding will have a chance to be prioritized for chords.
    /// - If a wait duration is provided the input will be inactive/hidden to all bindings until the button has been
    ///   active for at least that long.
    /// - If the timer runs out or the button is unpressed: the chord with the most active parts will be activated.
    /// - If a high priority binding captures a button, that button must be released before a lower priority
    ///   binding can see it again.
    /// - If a chord has multiple buffered inputs, all inputs start times will be set the the oldest.
    BufferAll(Option<Duration>),
    /// Disables Clash Detection. All presses will become active immediatly.
    Disabled,
}

impl Default for ClashStrategy {
    fn default() -> (r: Self)
        ensures
            r == ClashStrategy::Unbuffered,
    {
        ClashStrategy::Unbuffered
    }
}

impl ClashStrategy {
    /// Return new settings that use buffered clash resolution where `delay` is the amount of time to wait before
    /// resolving; if `delay` is `None` input will buffer for 1 frame.
    pub fn new_buffered(delay: Option<Duration>) -> (r: Self)
        ensures
            r == ClashStrategy::BufferClashing(delay),
    {
        ClashStrategy::BufferClashing(delay)
    }

    /// Returns new settings that use unbuffered clash resolution where inputs that might clash re-check after all
    /// bindings have been checked at least once.
    pub fn new_unbuffered() -> (r: Self)
        ensures
            r == ClashStrategy::Unbuffered,
    {
        ClashStrategy::Unbuffered
    }

    pub fn is_disabled(&self) -> (r: bool)
        ensures
            r == (*self is Disabled),
    {
        match self {
            ClashStrategy::Disabled => true,
            _ => false,
        }
    }
}

/// Marks an entity whose bindings the input manager leaves alone.
pub struct DisableInputManager<K, T>(pub PhantomData<T>, pub PhantomData<K>);

impl<K, T> Default for DisableInputManager<K, T> {
    fn default() -> (r: Self) {
        DisableInputManager(PhantomData, PhantomData)
    }
}

/// Defines default combo settings for entities that don't specify.
#[derive(Clone, Copy, Debug)]
pub struct DefaultComboSettings(pub ComboSettings);

impl core::ops::Deref for DefaultComboSettings {
    type Target = ComboSettings;

    fn deref(&self) -> (r: &ComboSettings)
        ensures
            *r == self.0,
    {
        &self.0
    }
}

#[derive(Debug, Clone, Copy, PartialEq, Eq, Structural)]
pub struct ComboSettings {
    interupt: ComboInterputSettings,
    tolerence: Duration,
    progression: ComboProgressionSettings,
}

impl ComboSettings {
    pub closed spec fn interupt_spec(&self) -> ComboInterputSettings {
        self.interupt
    }

    pub closed spec fn tolerence_spec(&self) -> Duration {
        self.tolerence
    }

    pub closed spec fn progression_spec(&self) -> ComboProgressionSettings {
        self.progression
    }

    /// The default settings: combos break on wrong buttons, allow 250 milliseconds between presses
    /// and need the next button released.
    pub fn new_default() -> (r: Self)
        ensures
            r.interupt_spec() == ComboInterputSettings::ButtonsBreak,
            r.tolerence_spec()@ == 250_000_000,
            r.progression_spec() == ComboProgressionSettings::NextMustBeReleased,
    {
        ComboSettings {
            interupt: ComboInterputSettings::ButtonsBreak,
            tolerence: Duration::from_millis(250),
            progression: ComboProgressionSettings::NextMustBeReleased,
        }
    }

    pub fn interupt_settings(&self) -> (r: &ComboInterputSettings)
        ensures
            *r == self.interupt_spec(),
    {
        &self.interupt
    }

    pub fn with_interupt_settings(self, settings: ComboInterputSettings) -> (r: Self)
        ensures
            r.interupt_spec() == settings,
            r.tolerence_spec() == self.tolerence_spec(),
            r.progression_spec() == self.progression_spec(),
    {
        let mut s = self;
        s.interupt = settings;
        s
    }

    pub fn set_interupt_settings(&mut self, settings: ComboInterputSettings)
        ensures
            final(self).interupt_spec() == settings,
            final(self).tolerence_spec() == old(self).tolerence_spec(),
            final(self).progression_spec() == old(self).progression_spec(),
    {
        self.interupt = settings;
    }

    pub fn tolerence(&self) -> (r: &Duration)
        ensures
            *r == self.tolerence_spec(),
    {
        &self.tolerence
    }

    pub fn with_tolerence(self, settings: Duration) -> (r: Self)
        ensures
            r.tolerence_spec() == settings,
            r.interupt_spec() == self.interupt_spec(),
            r.progression_spec() == self.progression_spec(),
    {
        let mut s = self;
        s.tolerence = settings;
        s
    }

    pub fn set_tolerence(&mut self, settings: Duration)
        ensures
            final(self).tolerence_spec() == settings,
            final(self).interupt_spec() == old(self).interupt_spec(),
            final(self).progression_spec() == old(self).progression_spec(),
    {
        self.tolerence = settings;
    }

    pub fn progression_settings(&self) -> (r: &ComboProgressionSettings)
        ensures
            *r == self.progression_spec(),
    {
        &self.progression
    }

    pub fn with_progression_settings(self, settings: ComboProgressionSettings) -> (r: Self)
        ensures
            r.progression_spec() == settings,
            r.interupt_spec() == self.interupt_spec(),
            r.tolerence_spec() == self.tolerence_spec(),
    {
        let mut s = self;
        s.progression = settings;
        s
    }

    pub fn set_progression_settings(&mut self, settings: ComboProgressionSettings)
        ensures
            final(self).progression_spec() == settings,
            final(self).interupt_spec() == old(self).interupt_spec(),
            final(self).tolerence_spec() == old(self).tolerence_spec(),
    {
        self.progression = settings;
    }
}

impl Default for ComboSettings {
    fn default() -> (r: Self)
        ensures
            r.interupt_spec() == ComboInterputSettings::ButtonsBreak,
            r.tolerence_spec()@ == 250_000_000,
            r.progression_spec() == ComboProgressionSettings::NextMustBeReleased,
    {
        ComboSettings::new_default()
    }
}

#[derive(Debug, Clone, Copy, PartialEq, Eq, Structural)]
pub enum ComboInterputSettings {
    /// Combos don't get cancelled by incorrect inputs.
    NoBreak,
    /// Combos will cancel if a button that isn't the expected button is pressed.
    ButtonsBreak,
    /// Any incorrect input (buttons or axis) will cancel a combo.
    AnythingBreaks,
}

impl Default for ComboInterputSettings {
    fn default() -> (r: Self)
        ensures
            r == ComboInterputSettings::ButtonsBreak,
    {
        ComboInterputSettings::ButtonsBreak
    }
}

/// Rules for how to determine if a [`ButtonCombo`](crate::button::ButtonCombo) can progress.
#[derive(Debug, Clone, Copy, PartialEq, Eq, Structural)]
pub enum ComboProgressionSettings {
    NoRestriction,
    PreviousMustBeReleased,
    NextMustBeReleased,
}

impl Default for ComboProgressionSettings {
    fn default() -> (r: Self)
        ensures
            r == ComboProgressionSettings::NextMustBeReleased,
    {
        ComboProgressionSettings::NextMustBeReleased
    }
}

/// Management of a players bindings and the states.
pub struct InputHandler {
    /// a counter that is increased when ever `Self::tick` is called.
    frame: usize,
    /// All known bindings and the state of the input.
    clashables: HashMap<BevyInputKind, InputState>,
}

impl InputHandler {
    /// The current frame counter.
    pub closed spec fn frame_spec(&self) -> usize {
        self.frame
    }

    /// The clash state of every registered input.
    pub closed spec fn states(&self) -> Map<BevyInputKind, InputState> {
        input_states(self.clashables)
    }

    /// A handler with no registered inputs, at frame zero.
    pub fn new() -> (r: Self)
        ensures
            r.frame_spec() == 0,
            r.states() == Map::<BevyInputKind, InputState>::empty(),
    {
        InputHandler { frame: 0, clashables: map_new() }
    }

    /// The frame counter.
    pub fn frame(&self) -> (r: usize)
        ensures
            r == self.frame_spec(),
    {
        self.frame
    }

    /// The clash state of `kind`, if it is registered.
    pub fn state_of(&self, kind: &BevyInputKind) -> (r: Option<InputState>)
        ensures
            r == (if self.states().contains_key(*kind) { Some(self.states()[*kind]) } else { None }),
    {
        map_get(&self.clashables, kind)
    }

    /// Every registered input, each once.
    pub fn input_kinds(&self) -> (r: Vec<BevyInputKind>)
        ensures
            r@.no_duplicates(),
            r@.to_set() == self.states().dom(),
    {
        map_keys(&self.clashables)
    }

    /// Stores the latest reading of `kind`; an unregistered input is ignored.
    pub fn set_value(&mut self, kind: &BevyInputKind, value: InputValue)
        ensures
            final(self).frame_spec() == old(self).frame_spec(),
            old(self).states().contains_key(*kind) ==> final(self).states() == old(self).states().insert(
                *kind,
                InputState { value, ..old(self).states()[*kind] },
            ),
            !old(self).states().contains_key(*kind) ==> final(self).states() == old(self).states(),
    {
        match map_get(&self.clashables, kind) {
            Some(state) => {
                map_insert(&mut self.clashables, *kind, InputState { value, ..state });
            },
            None => {},
        }
    }
}

/// The kind an input has after the end of a frame.
///
/// `polled` tells whether the input was pressed in the frame that ends, `elapsed` how long the
/// input has been buffered.
pub open spec fn ticked_kind(kind: InputStateKind, polled: bool, settings: ClashSettings, elapsed: nat) -> InputStateKind {
    let strat = settings.strategy_spec();
    let cr = settings.chord_regretion_spec();
    if !polled {
        InputStateKind::Inactive
    } else {
        match kind {
            InputStateKind::Inactive => InputStateKind::Inactive,
            InputStateKind::Clashing(p) => InputStateKind::Active { chord_len: p, last_chord_len: p },
            InputStateKind::Buffered { start, chord_len, last_chord_len, count } => {
                let buffering = match strat {
                    ClashStrategy::BufferClashing(_) => true,
                    ClashStrategy::BufferAll(_) => true,
                    _ => false,
                };
                let delay = match strat {
                    ClashStrategy::BufferClashing(d) => d,
                    ClashStrategy::BufferAll(d) => d,
                    _ => None,
                };
                if buffering && (delay is None || elapsed >= delay->0@ || (strat is BufferClashing && count == 1)) {
                    InputStateKind::Active { chord_len, last_chord_len }
                } else {
                    InputStateKind::Buffered {
                        start,
                        chord_len: if cr { 0 } else { chord_len },
                        last_chord_len: chord_len,
                        count: if buffering { 0 } else { count },
                    }
                }
            },
            InputStateKind::Active { chord_len, last_chord_len } => InputStateKind::Active {
                chord_len: if cr { 0 } else { chord_len },
                last_chord_len: chord_len,
            },
        }
    }
}

/// How long an input in state `kind` has been buffered at the clock reading `now` (zero when it
/// is not buffered).
pub open spec fn buffered_for(kind: InputStateKind, now: Instant) -> nat {
    match kind {
        InputStateKind::Buffered { start, .. } => span_between(start@, now@),
        _ => 0,
    }
}

/// `next` is what `tick` makes of `prev` at frame `frame`, with the clock reading `now`.
pub open spec fn ticked_at(prev: InputState, next: InputState, frame: usize, settings: ClashSettings, now: Instant) -> bool {
    next == InputState { kind: ticked_kind(prev.kind, prev.frame == frame, settings, buffered_for(prev.kind, now)), ..prev }
}

/// Every input of `after` is what `tick` makes of the same input of `before`, with one clock
/// reading `now` for all of them.
pub open spec fn ticked_all(
    before: Map<BevyInputKind, InputState>,
    after: Map<BevyInputKind, InputState>,
    frame: usize,
    settings: ClashSettings,
    now: Instant,
) -> bool {
    forall|k: BevyInputKind| #[trigger] after.contains_key(k) ==> ticked_at(before[k], after[k], frame, settings, now)
}

impl InputHandler {
    /// Does some internal cleaning that is only possible between bindings checking for their inputs
    /// because we can assume that all (or none) of the inputs have been given a change to fight for priority.
    ///
    /// - if the input state has a frame not equal to the current frame: change to inactive.
    /// - else if the input state is buffered and the timer has expired: change to active.
    /// - else if the input state is clashing : change to active.
    /// - increases the internal counter for "frames" after all above steps.
    ///
    pub fn tick_at(&mut self, clash_settings: &ClashSettings, now: Instant)
        requires
            old(self).frame_spec() < usize::MAX,
        ensures
            final(self).frame_spec() == old(self).frame_spec() + 1,
            ticked_all(old(self).states(), final(self).states(), old(self).frame_spec(), *clash_settings, now),
            final(self).states().dom() == old(self).states().dom(),
    {
        let cr = clash_settings.chord_regretion();
        let keys = map_keys(&self.clashables);
        let ghost old_states = input_states(self.clashables);
        let mut i: usize = 0;
        while i < keys.len()
            invariant
                i <= keys@.len(),
                keys@.no_duplicates(),
                keys@.to_set() == old_states.dom(),
                self.frame == old(self).frame,
                old_states == old(self).states(),
                cr == clash_settings.chord_regretion_spec(),
                input_states(self.clashables).dom() == old_states.dom(),
                forall|j: int|
                    0 <= j < i ==> ticked_at(
                        old_states[keys@[j]],
                        #[trigger] input_states(self.clashables)[keys@[j]],
                        self.frame,
                        *clash_settings,
                        now,
                    ),
                forall|j: int|
                    i <= j < keys@.len() ==> #[trigger] input_states(self.clashables)[keys@[j]]
                        == old_states[keys@[j]],
            decreases keys@.len() - i,
        {
            let k = keys[i];
            assert(keys@.to_set().contains(keys@[i as int]));
            let state = map_get(&self.clashables, &k).unwrap();
            assert(state == old_states[k]);
            let polled = state.frame == self.frame;
            let ghost buffered_span: nat = buffered_for(state.kind, now);
            let kind = if !polled {
                InputStateKind::Inactive
            } else {
                match state.kind {
                    InputStateKind::Inactive => InputStateKind::Inactive,
                    InputStateKind::Clashing(priority) => InputStateKind::Active {
                        chord_len: priority,
                        last_chord_len: priority,
                    },
                    InputStateKind::Buffered { start, chord_len, last_chord_len, count } => {
                        let strat = clash_settings.clash_strategy();
                        let (buffering, delay, clashing_only) = match strat {
                            ClashStrategy::BufferClashing(d) => (true, d, true),
                            ClashStrategy::BufferAll(d) => (true, d, false),
                            _ => (false, None, false),
                        };
                        let expired = if buffering {
                            match delay {
                                Some(d) => {
                                    let elapsed = now.duration_since(&start);
                                    elapsed.as_nanos() >= d.as_nanos() || (clashing_only && count == 1)
                                },
                                None => true,
                            }
                        } else {
                            false
                        };
                        if expired {
                            InputStateKind::Active { chord_len, last_chord_len }
                        } else {
                            InputStateKind::Buffered {
                                start,
                                chord_len: if cr { 0 } else { chord_len },
                                last_chord_len: chord_len,
                                count: if buffering { 0 } else { count },
                            }
                        }
                    },
                    InputStateKind::Active { chord_len, last_chord_len: _ } => InputStateKind::Active {
                        chord_len: if cr { 0 } else { chord_len },
                        last_chord_len: chord_len,
                    },
                }
            };
            let next = InputState { kind, ..state };
            assert(next == InputState {
                kind: ticked_kind(state.kind, state.frame == self.frame, *clash_settings, buffered_span),
                ..state
            });
            map_insert(&mut self.clashables, k, next);
            proof {
                assert forall|j: int| 0 <= j < i + 1 implies ticked_at(
                    old_states[keys@[j]],
                    #[trigger] input_states(self.clashables)[keys@[j]],
                    self.frame,
                    *clash_settings,
                    now,
                ) by {
                    if j == i {
                        assert(input_states(self.clashables)[keys@[j]] == InputState {
                            kind: ticked_kind(old_states[keys@[j]].kind, old_states[keys@[j]].frame == self.frame, *clash_settings, buffered_span),
                            ..old_states[keys@[j]]
                        });
                    } else {
                        assert(keys@[j] != keys@[i as int]);
                    }
                }
                assert forall|j: int| i + 1 <= j < keys@.len() implies #[trigger] input_states(self.clashables)[keys@[j]]
                    == old_states[keys@[j]] by {
                    assert(keys@[j] != keys@[i as int]);
                }
            }
            i = i + 1;
        }
        proof {
            assert forall|k: BevyInputKind| #[trigger] input_states(self.clashables).contains_key(k) implies ticked_at(
                old_states[k],
                input_states(self.clashables)[k],
                old(self).frame,
                *clash_settings,
                now,
            ) by {
                assert(keys@.to_set().contains(k));
                let j = choose|j: int| 0 <= j < keys@.len() && keys@[j] == k;
                assert(ticked_at(old_states[keys@[j]], input_states(self.clashables)[keys@[j]], self.frame, *clash_settings, now));
            }
        }
        self.frame = self.frame + 1;
    }

    /// Ends a frame at the current point in time, as [`Self::tick_at`] does for that reading.
    pub fn tick(&mut self, clash_settings: &ClashSettings)
        requires
            old(self).frame_spec() < usize::MAX,
        ensures
            final(self).frame_spec() == old(self).frame_spec() + 1,
            final(self).states().dom() == old(self).states().dom(),
            exists|now: Instant| #[trigger] ticked_all(old(self).states(), final(self).states(), old(self).frame_spec(), *clash_settings, now),
    {
        let now = Instant::now();
        self.tick_at(clash_settings, now);
    }
}

/// Whether the state of a registered input keeps a chord of `len` inputs from seeing it on a
/// second look.
pub open spec fn blocks_repoll(state: InputState, len: nat) -> bool {
    match state.kind {
        InputStateKind::Inactive => true,
        InputStateKind::Buffered { .. } => true,
        InputStateKind::Clashing(chord_len) => len != chord_len,
        InputStateKind::Active { chord_len, .. } => len != chord_len,
    }
}

/// What a second look at `chord` sees.
pub open spec fn repoll_value(states: Map<BevyInputKind, InputState>, chord: Seq<BevyInputKind>) -> InputValue {
    if chord.len() == 0 {
        InputValue::Pressed(false)
    } else if exists|i: int|
        0 <= i < chord.len() && states.contains_key(chord[i]) && blocks_repoll(
            #[trigger] states[chord[i]],
            chord.len(),
        ) {
        InputValue::Pressed(false)
    } else if states.contains_key(chord[0]) {
        states[chord[0]].value
    } else {
        InputValue::Pressed(false)
    }
}

/// Whether some registered input outside `chord` was pressed in frame `frame` (only buttons
/// count unless `axis_interupts`).
pub open spec fn interrupted(
    states: Map<BevyInputKind, InputState>,
    chord: Seq<BevyInputKind>,
    frame: usize,
    axis_interupts: bool,
) -> bool {
    exists|k: BevyInputKind|
        #[trigger] states.contains_key(k) && !chord.contains(k) && states[k].frame == frame && (axis_interupts
            || states[k].value is Pressed)
}

impl InputHandler {
    /// Updates the internal binding map and resets all states: afterwards exactly the inputs
    /// of `kinds` are registered, each inactive and unpressed at the current frame.
    pub fn update_list(&mut self, kinds: &[BevyInputKind])
        ensures
            final(self).frame_spec() == old(self).frame_spec(),
            final(self).states().dom() == kinds@.to_set(),
            forall|k: BevyInputKind|
                #[trigger] final(self).states().contains_key(k) ==> final(self).states()[k] == fresh_state(
                    old(self).frame_spec(),
                ),
    {
        map_clear(&mut self.clashables);
        let mut i: usize = 0;
        while i < kinds.len()
            invariant
                i <= kinds@.len(),
                self.frame == old(self).frame,
                input_states(self.clashables).dom() == kinds@.subrange(0, i as int).to_set(),
                forall|k: BevyInputKind|
                    #[trigger] input_states(self.clashables).contains_key(k) ==> input_states(self.clashables)[k]
                        == fresh_state(self.frame),
            decreases kinds@.len() - i,
        {
            let c = kinds[i];
            map_insert(
                &mut self.clashables,
                c,
                InputState { frame: self.frame, kind: InputStateKind::Inactive, value: InputValue::Pressed(false) },
            );
            proof {
                lemma_prefix_set_push(kinds@, i as int);
            }
            i = i + 1;
        }
        assert(kinds@.subrange(0, kinds@.len() as int) == kinds@);
    }

    /// Starts the work of a frame at the clock reading `now`: when the bindings changed,
    /// registers exactly `kinds` afresh; otherwise ends the previous frame with [`Self::tick_at`].
    pub fn begin_frame(
        &mut self,
        kinds: &[BevyInputKind],
        bindings_changed: bool,
        clash_settings: &ClashSettings,
        now: Instant,
    )
        requires
            bindings_changed || old(self).frame_spec() < usize::MAX,
        ensures
            bindings_changed ==> {
                &&& final(self).frame_spec() == old(self).frame_spec()
                &&& final(self).states().dom() == kinds@.to_set()
                &&& forall|k: BevyInputKind|
                    #[trigger] final(self).states().contains_key(k) ==> final(self).states()[k] == fresh_state(
                        old(self).frame_spec(),
                    )
            },
            !bindings_changed ==> {
                &&& final(self).frame_spec() == old(self).frame_spec() + 1
                &&& final(self).states().dom() == old(self).states().dom()
                &&& ticked_all(old(self).states(), final(self).states(), old(self).frame_spec(), *clash_settings, now)
            },
    {
        if bindings_changed {
            self.update_list(kinds);
        } else {
            self.tick_at(clash_settings, now);
        }
    }

    /// Used to determine if a combo is broken. Returns `true` if a input that is not in `clashable` is updated this
    /// frame.
    pub fn poll_interupt(&mut self, clashable: &[BevyInputKind], axis_interupts: bool) -> (r: bool)
        ensures
            final(self).frame_spec() == old(self).frame_spec(),
            final(self).states() == old(self).states(),
            r == interrupted(old(self).states(), clashable@, old(self).frame_spec(), axis_interupts),
    {
        let keys = map_keys(&self.clashables);
        let ghost states = input_states(self.clashables);
        let mut i: usize = 0;
        while i < keys.len()
            invariant
                i <= keys@.len(),
                keys@.to_set() == states.dom(),
                states == input_states(self.clashables),
                forall|j: int|
                    0 <= j < i ==> {
                        let k = #[trigger] keys@[j];
                        !(!clashable@.contains(k) && states[k].frame == self.frame && (axis_interupts
                            || states[k].value is Pressed))
                    },
            decreases keys@.len() - i,
        {
            let binding = keys[i];
            assert(keys@.to_set().contains(binding));
            let state = map_get(&self.clashables, &binding).unwrap();
            if !contains_kind(clashable, &binding) {
                if state.frame == self.frame {
                    if axis_interupts || state.value.is_button() {
                        assert(states.contains_key(binding));
                        return true;
                    }
                }
            }
            i = i + 1;
        }
        proof {
            assert forall|k: BevyInputKind| #[trigger] states.contains_key(k) implies !(!clashable@.contains(k)
                && states[k].frame == self.frame && (axis_interupts || states[k].value is Pressed)) by {
                assert(keys@.to_set().contains(k));
                let j = choose|j: int| 0 <= j < keys@.len() && keys@[j] == k;
            }
        }
        false
    }

    /// Only preforms a check of what input to use, does not preform any state changing.
    ///
    /// It is expected that this is only ever called on inputs that got a `None` from [`Self::poll`].
    pub fn repoll(&self, clashable: &[BevyInputKind]) -> (r: InputValue)
        ensures
            r == repoll_value(self.states(), clashable@),
    {
        if clashable.len() == 0 {
            return InputValue::Pressed(false);
        }
        let mut i: usize = 0;
        while i < clashable.len()
            invariant
                i <= clashable@.len(),
                clashable@.len() > 0,
                forall|j: int|
                    0 <= j < i ==> !(input_states(self.clashables).contains_key(clashable@[j]) && blocks_repoll(
                        #[trigger] input_states(self.clashables)[clashable@[j]],
                        clashable@.len(),
                    )),
            decreases clashable@.len() - i,
        {
            match map_get(&self.clashables, &clashable[i]) {
                Some(state) => {
                    let blocked = match state.kind {
                        InputStateKind::Inactive => true,
                        InputStateKind::Buffered { .. } => true,
                        InputStateKind::Clashing(chord_len) => clashable.len() != chord_len,
                        InputStateKind::Active { chord_len, .. } => clashable.len() != chord_len,
                    };
                    if blocked {
                        assert(blocks_repoll(input_states(self.clashables)[clashable@[i as int]], clashable@.len()));
                        return InputValue::Pressed(false);
                    }
                },
                None => {},
            }
            i = i + 1;
        }
        match map_get(&self.clashables, &clashable[0]) {
            Some(state) => state.value,
            None => InputValue::Pressed(false),
        }
    }
}

/// What a poll tells the binding that made it.
#[derive(Debug, Clone, Copy, PartialEq, Eq, Structural)]
pub enum PollVisibility {
    /// The chord does not see its inputs.
    Hide,
    /// The chord sees its inputs.
    Show,
    /// The chord must look again once every binding has polled.
    Repoll,
}

/// `oldest` if some buffered input started before `now`, else `now`.
pub open spec fn oldest_or(oldest: Option<Instant>, now: Instant) -> Instant {
    match oldest {
        Some(o) => o,
        None => now,
    }
}

/// The first look at the first `i` inputs of `chord`: unknown inputs are registered, the chord
/// counts as pressed unless a registered input is not, and the earliest start of a pressed,
/// buffered input that lies before `now` is kept.
pub open spec fn scan_chord(
    states: Map<BevyInputKind, InputState>,
    chord: Seq<BevyInputKind>,
    frame: usize,
    now: Instant,
    i: nat,
) -> (Map<BevyInputKind, InputState>, bool, Option<Instant>)
    decreases i,
{
    if i == 0 {
        (states, true, None)
    } else {
        let (m, pressed, oldest) = scan_chord(states, chord, frame, now, (i - 1) as nat);
        let c = chord[i - 1];
        if m.contains_key(c) {
            if m[c].value.pressed_spec() {
                let oldest2 = match m[c].kind {
                    InputStateKind::Buffered { start, .. } => if start@ < oldest_or(oldest, now)@ {
                        Some(start)
                    } else {
                        oldest
                    },
                    _ => oldest,
                };
                (m, pressed, oldest2)
            } else {
                (m, false, oldest)
            }
        } else {
            (m.insert(c, fresh_state(frame)), pressed, oldest)
        }
    }
}

/// `count + 1`, staying at the largest `usize`.
pub open spec fn saturating_increment(count: usize) -> usize {
    if count < usize::MAX {
        (count + 1) as usize
    } else {
        count
    }
}

/// The kind of an input after a pressed chord of `len` inputs claims it; `fresh` is the start of
/// a buffering that begins now.
pub open spec fn claimed_kind(
    kind: InputStateKind,
    len: usize,
    oldest: Option<Instant>,
    strat: ClashStrategy,
    fresh: Instant,
) -> InputStateKind {
    match kind {
        InputStateKind::Inactive => match strat {
            ClashStrategy::Unbuffered => InputStateKind::Clashing(len),
            ClashStrategy::BufferAll(_) => InputStateKind::Buffered {
                start: fresh,
                chord_len: len,
                last_chord_len: len,
                count: 1,
            },
            ClashStrategy::BufferClashing(_) => InputStateKind::Buffered {
                start: fresh,
                chord_len: len,
                last_chord_len: len,
                count: 1,
            },
            ClashStrategy::Disabled => InputStateKind::Active { chord_len: len, last_chord_len: len },
        },
        InputStateKind::Clashing(l) => if len > l {
            InputStateKind::Clashing(len)
        } else {
            kind
        },
        InputStateKind::Buffered { start, chord_len, last_chord_len, count } => InputStateKind::Buffered {
            start: match oldest {
                Some(o) => if o@ < start@ {
                    o
                } else {
                    start
                },
                None => start,
            },
            chord_len: if len > chord_len {
                len
            } else {
                chord_len
            },
            last_chord_len,
            count: saturating_increment(count),
        },
        InputStateKind::Active { chord_len, last_chord_len } => if len > chord_len {
            InputStateKind::Active { chord_len: len, last_chord_len }
        } else {
            kind
        },
    }
}

/// The state of an input after a chord of `len` inputs polls it in frame `frame`.
pub open spec fn claimed_state(
    s: InputState,
    len: usize,
    pressed: bool,
    oldest: Option<Instant>,
    strat: ClashStrategy,
    frame: usize,
    fresh: Instant,
) -> InputState {
    if pressed {
        InputState { frame, kind: claimed_kind(s.kind, len, oldest, strat, fresh), value: s.value }
    } else {
        s
    }
}

/// How an input in state `kind` changes what a chord of `len` inputs is told.
pub open spec fn visibility_after(v: PollVisibility, kind: InputStateKind, len: usize, strat: ClashStrategy) -> PollVisibility {
    match kind {
        InputStateKind::Clashing(_) => if v is Show {
            PollVisibility::Repoll
        } else {
            v
        },
        InputStateKind::Buffered { .. } => PollVisibility::Hide,
        InputStateKind::Active { last_chord_len, .. } => if !(strat is Disabled) && last_chord_len != len {
            PollVisibility::Hide
        } else {
            v
        },
        InputStateKind::Inactive => v,
    }
}

/// The second look at the first `fresh.len()` inputs of `chord`: each input is claimed in turn
/// (`fresh[i]` is the point in time a buffering of input `i` would start at) and the visibility
/// of the chord follows.
pub open spec fn claim_chord(
    states: Map<BevyInputKind, InputState>,
    chord: Seq<BevyInputKind>,
    frame: usize,
    strat: ClashStrategy,
    pressed: bool,
    oldest: Option<Instant>,
    fresh: Seq<Instant>,
) -> (Map<BevyInputKind, InputState>, PollVisibility)
    decreases fresh.len(),
{
    if fresh.len() == 0 {
        (states, if pressed { PollVisibility::Show } else { PollVisibility::Hide })
    } else {
        let (m, v) = claim_chord(states, chord, frame, strat, pressed, oldest, fresh.drop_last());
        let i = fresh.len() - 1;
        let c = chord[i];
        let s = claimed_state(m[c], chord.len() as usize, pressed, oldest, strat, frame, fresh.last());
        (m.insert(c, s), visibility_after(v, s.kind, chord.len() as usize, strat))
    }
}

/// What a poll of `chord` returns once every input has been claimed.
pub open spec fn poll_result(v: PollVisibility, states: Map<BevyInputKind, InputState>, chord: Seq<BevyInputKind>) -> Option<InputValue> {
    match v {
        PollVisibility::Hide => Some(InputValue::Pressed(false)),
        PollVisibility::Show => Some(states[chord[0]].value),
        PollVisibility::Repoll => None,
    }
}

/// The states after a poll of a non-empty `chord` and what it returns, given the point in time
/// `now` the poll started at and the starts `fresh` of bufferings it begins.
pub open spec fn poll_effect(
    states: Map<BevyInputKind, InputState>,
    chord: Seq<BevyInputKind>,
    frame: usize,
    strat: ClashStrategy,
    now: Instant,
    fresh: Seq<Instant>,
) -> (Map<BevyInputKind, InputState>, Option<InputValue>) {
    let (m1, pressed, oldest) = scan_chord(states, chord, frame, now, chord.len());
    let (m2, v) = claim_chord(m1, chord, frame, strat, pressed, oldest, fresh);
    (m2, poll_result(v, m2, chord))
}

impl InputHandler {
    /// Tries to return the newest value associated with the binding.
    ///
    /// If `None` is returned then you must [`Self::repoll`] after all inputs have been polled.
    ///
    /// `now` is the clock reading of the poll: inputs that start buffering start at it.
    pub fn poll_at(&mut self, clashable: &[BevyInputKind], clash_settings: &ClashSettings, now: Instant) -> (r: Option<InputValue>)
        ensures
            final(self).frame_spec() == old(self).frame_spec(),
            clashable@.len() == 0 ==> r == Some(InputValue::Pressed(false)) && final(self).states() == old(
                self,
            ).states(),
            clashable@.len() > 0 ==> (final(self).states(), r) == poll_effect(
                old(self).states(),
                clashable@,
                old(self).frame_spec(),
                clash_settings.strategy_spec(),
                now,
                Seq::new(clashable@.len(), |j: int| now),
            ),
    {
        if clashable.len() == 0 {
            return Some(InputValue::Pressed(false));
        }
        let ghost old_states = input_states(self.clashables);
        let ghost chord = clashable@;
        let n = clashable.len();
        let mut pressed = true;
        let mut oldest: Option<Instant> = None;
        let mut i: usize = 0;
        while i < n
            invariant
                n == chord.len(),
                chord == clashable@,
                i <= n,
                self.frame == old(self).frame,
                old_states == old(self).states(),
                (input_states(self.clashables), pressed, oldest) == scan_chord(old_states, chord, self.frame, now, i as nat),
                forall|j: int| 0 <= j < i ==> input_states(self.clashables).contains_key(#[trigger] chord[j]),
            decreases n - i,
        {
            let c = clashable[i];
            match map_get(&self.clashables, &c) {
                Some(state) => {
                    if state.value.is_pressed() {
                        match state.kind {
                            InputStateKind::Buffered { start, .. } => {
                                let current = match oldest {
                                    Some(o) => o,
                                    None => now,
                                };
                                if start.is_before(&current) {
                                    oldest = Some(start);
                                }
                            },
                            _ => {},
                        }
                    } else {
                        pressed = false;
                    }
                },
                None => {
                    map_insert(
                        &mut self.clashables,
                        c,
                        InputState { frame: self.frame, kind: InputStateKind::Inactive, value: InputValue::Pressed(false) },
                    );
                },
            }
            i = i + 1;
        }
        let ghost scanned = input_states(self.clashables);
        let strat = clash_settings.clash_strategy();
        let buffering = match strat {
            ClashStrategy::BufferAll(_) => true,
            ClashStrategy::BufferClashing(_) => true,
            _ => false,
        };
        let mut visibility = if pressed { PollVisibility::Show } else { PollVisibility::Hide };
        let ghost mut fresh: Seq<Instant> = Seq::empty();
        let mut i: usize = 0;
        while i < n
            invariant
                n == chord.len(),
                chord == clashable@,
                n > 0,
                i <= n,
                fresh.len() == i,
                forall|j: int| 0 <= j < i ==> #[trigger] fresh[j] == now,
                self.frame == old(self).frame,
                strat == clash_settings.strategy_spec(),
                buffering == (strat is BufferAll || strat is BufferClashing),
                (input_states(self.clashables), visibility) == claim_chord(scanned, chord, self.frame, strat, pressed, oldest, fresh),
                forall|j: int| 0 <= j < n ==> input_states(self.clashables).contains_key(#[trigger] chord[j]),
            decreases n - i,
        {
            let c = clashable[i];
            assert(input_states(self.clashables).contains_key(chord[i as int]));
            let state = map_get(&self.clashables, &c).unwrap();
            let ghost start_now: Instant = now;
            let kind = if pressed {
                match state.kind {
                    InputStateKind::Inactive => if buffering {
                        InputStateKind::Buffered { start: now, chord_len: n, last_chord_len: n, count: 1 }
                    } else if strat.is_disabled() {
                        InputStateKind::active(n)
                    } else {
                        InputStateKind::clashing(n)
                    },
                    InputStateKind::Clashing(len) => if n > len {
                        InputStateKind::clashing(n)
                    } else {
                        state.kind
                    },
                    InputStateKind::Buffered { start, chord_len, last_chord_len, count } => {
                        let new_start = match oldest {
                            Some(o) => if o.is_before(&start) {
                                o
                            } else {
                                start
                            },
                            None => start,
                        };
                        InputStateKind::Buffered {
                            start: new_start,
                            chord_len: if n > chord_len { n } else { chord_len },
                            last_chord_len,
                            count: count.saturating_add(1),
                        }
                    },
                    InputStateKind::Active { chord_len, last_chord_len } => if n > chord_len {
                        InputStateKind::Active { chord_len: n, last_chord_len }
                    } else {
                        state.kind
                    },
                }
            } else {
                state.kind
            };
            let next = InputState { frame: if pressed { self.frame } else { state.frame }, kind, value: state.value };
            assert(next == claimed_state(state, n, pressed, oldest, strat, self.frame, start_now));
            map_insert(&mut self.clashables, c, next);
            visibility = match kind {
                InputStateKind::Clashing(_) => match visibility {
                    PollVisibility::Show => PollVisibility::Repoll,
                    _ => visibility,
                },
                InputStateKind::Buffered { .. } => PollVisibility::Hide,
                InputStateKind::Active { last_chord_len, .. } => if !strat.is_disabled() && last_chord_len != n {
                    PollVisibility::Hide
                } else {
                    visibility
                },
                InputStateKind::Inactive => visibility,
            };
            proof {
                let fresh2 = fresh.push(start_now);
                assert(fresh2.drop_last() == fresh);
                fresh = fresh2;
            }
            i = i + 1;
        }
        let r = match visibility {
            PollVisibility::Hide => Some(InputValue::Pressed(false)),
            PollVisibility::Show => {
                assert(input_states(self.clashables).contains_key(chord[0]));
                let state = map_get(&self.clashables, &clashable[0]).unwrap();
                Some(state.value)
            },
            PollVisibility::Repoll => None,
        };
        assert((input_states(self.clashables), r) == poll_effect(old_states, chord, self.frame, strat, now, fresh));
        assert(fresh =~= Seq::new(clashable@.len(), |j: int| now));
        r
    }

    /// Tries to return the newest value associated with the binding.
    ///
    /// If `None` is returned then you must [`Self::repoll`] after all inputs have been polled
    pub fn poll(&mut self, clashable: &[BevyInputKind], clash_settings: &ClashSettings) -> (r: Option<InputValue>)
        ensures
            final(self).frame_spec() == old(self).frame_spec(),
            clashable@.len() == 0 ==> r == Some(InputValue::Pressed(false)) && final(self).states() == old(
                self,
            ).states(),
            clashable@.len() > 0 ==> exists|now: Instant, fresh: Seq<Instant>|
                fresh.len() == clashable@.len() && (final(self).states(), r) == #[trigger] poll_effect(
                    old(self).states(),
                    clashable@,
                    old(self).frame_spec(),
                    clash_settings.strategy_spec(),
                    now,
                    fresh,
                ),
    {
        let now = Instant::now();
        self.poll_at(clashable, clash_settings, now)
    }
}

/// The first look leaves every registered input as it is.
proof fn lemma_scan_keeps_registered(
    states: Map<BevyInputKind, InputState>,
    chord: Seq<BevyInputKind>,
    frame: usize,
    now: Instant,
    i: nat,
    k: BevyInputKind,
)
    requires
        states.contains_key(k),
        i <= chord.len(),
    ensures
        scan_chord(states, chord, frame, now, i).0.contains_key(k),
        scan_chord(states, chord, frame, now, i).0[k] == states[k],
    decreases i,
{
    if i > 0 {
        lemma_scan_keeps_registered(states, chord, frame, now, (i - 1) as nat, k);
    }
}

/// When every input of the chord is registered the first look changes nothing, and the chord
/// counts as pressed exactly when each of its first `i` inputs is pressed.
proof fn lemma_scan_registered_chord(
    states: Map<BevyInputKind, InputState>,
    chord: Seq<BevyInputKind>,
    frame: usize,
    now: Instant,
    i: nat,
)
    requires
        i <= chord.len(),
        forall|j: int| 0 <= j < chord.len() ==> states.contains_key(#[trigger] chord[j]),
    ensures
        scan_chord(states, chord, frame, now, i).0 == states,
        scan_chord(states, chord, frame, now, i).1 == (forall|j: int|
            0 <= j < i ==> (#[trigger] states[chord[j]]).value.pressed_spec()),
    decreases i,
{
    if i > 0 {
        lemma_scan_registered_chord(states, chord, frame, now, (i - 1) as nat);
        let prev = scan_chord(states, chord, frame, now, (i - 1) as nat);
        assert(states.contains_key(chord[i - 1]));
        if !states[chord[i - 1]].value.pressed_spec() {
            assert(!(forall|j: int| 0 <= j < i ==> (#[trigger] states[chord[j]]).value.pressed_spec()));
        } else if prev.1 {
            assert forall|j: int| 0 <= j < i implies (#[trigger] states[chord[j]]).value.pressed_spec() by {
                if j < i - 1 {
                } else {
                    assert(j == i - 1);
                }
            }
        } else {
            let j = choose|j: int| 0 <= j < i - 1 && !(#[trigger] states[chord[j]]).value.pressed_spec();
            assert(!(forall|j: int| 0 <= j < i ==> (#[trigger] states[chord[j]]).value.pressed_spec()));
        }
    }
}

/// Once a chord is hidden, looking at more of its inputs keeps it hidden.
proof fn lemma_hidden_stays_hidden(
    states: Map<BevyInputKind, InputState>,
    chord: Seq<BevyInputKind>,
    frame: usize,
    strat: ClashStrategy,
    pressed: bool,
    oldest: Option<Instant>,
    fresh: Seq<Instant>,
    t: int,
)
    requires
        0 <= t <= fresh.len(),
        claim_chord(states, chord, frame, strat, pressed, oldest, fresh.subrange(0, t)).1 == PollVisibility::Hide,
    ensures
        claim_chord(states, chord, frame, strat, pressed, oldest, fresh).1 == PollVisibility::Hide,
    decreases fresh.len(),
{
    if fresh.len() == t {
        assert(fresh.subrange(0, t) == fresh);
    } else {
        assert(fresh.drop_last().subrange(0, t) == fresh.subrange(0, t));
        lemma_hidden_stays_hidden(states, chord, frame, strat, pressed, oldest, fresh.drop_last(), t);
    }
}

/// Claims by a chord keep an active input active with the same chord length of the last frame.
proof fn lemma_claims_keep_last_chord_len(
    states: Map<BevyInputKind, InputState>,
    chord: Seq<BevyInputKind>,
    frame: usize,
    strat: ClashStrategy,
    pressed: bool,
    oldest: Option<Instant>,
    fresh: Seq<Instant>,
    k: BevyInputKind,
)
    requires
        states.contains_key(k),
        states[k].kind is Active,
        fresh.len() <= chord.len(),
    ensures
        claim_chord(states, chord, frame, strat, pressed, oldest, fresh).0.contains_key(k),
        claim_chord(states, chord, frame, strat, pressed, oldest, fresh).0[k].kind is Active,
        claim_chord(states, chord, frame, strat, pressed, oldest, fresh).0[k].kind->Active_last_chord_len
            == states[k].kind->Active_last_chord_len,
    decreases fresh.len(),
{
    if fresh.len() > 0 {
        lemma_claims_keep_last_chord_len(states, chord, frame, strat, pressed, oldest, fresh.drop_last(), k);
    }
}

/// Under a buffering strategy, claims keep an inactive or buffered input inactive or buffered.
proof fn lemma_claims_keep_buffering(
    states: Map<BevyInputKind, InputState>,
    chord: Seq<BevyInputKind>,
    frame: usize,
    strat: ClashStrategy,
    pressed: bool,
    oldest: Option<Instant>,
    fresh: Seq<Instant>,
    k: BevyInputKind,
)
    requires
        states.contains_key(k),
        states[k].kind is Inactive || states[k].kind is Buffered,
        strat is BufferClashing || strat is BufferAll,
        fresh.len() <= chord.len(),
    ensures
        claim_chord(states, chord, frame, strat, pressed, oldest, fresh).0.contains_key(k),
        claim_chord(states, chord, frame, strat, pressed, oldest, fresh).0[k].kind is Inactive || claim_chord(
            states,
            chord,
            frame,
            strat,
            pressed,
            oldest,
            fresh,
        ).0[k].kind is Buffered,
    decreases fresh.len(),
{
    if fresh.len() > 0 {
        lemma_claims_keep_buffering(states, chord, frame, strat, pressed, oldest, fresh.drop_last(), k);
    }
}

/// With every input of the chord registered and unchanged state, a chord that is not pressed
/// leaves every state as it is and stays hidden.
proof fn lemma_unpressed_claims_change_nothing(
    states: Map<BevyInputKind, InputState>,
    chord: Seq<BevyInputKind>,
    frame: usize,
    strat: ClashStrategy,
    oldest: Option<Instant>,
    fresh: Seq<Instant>,
)
    requires
        fresh.len() <= chord.len(),
        forall|j: int| 0 <= j < chord.len() ==> states.contains_key(#[trigger] chord[j]),
    ensures
        claim_chord(states, chord, frame, strat, false, oldest, fresh) == (states, PollVisibility::Hide),
    decreases fresh.len(),
{
    if fresh.len() > 0 {
        lemma_unpressed_claims_change_nothing(states, chord, frame, strat, oldest, fresh.drop_last());
        let c = chord[fresh.len() - 1];
        assert(states.contains_key(c));
        assert(states.insert(c, states[c]) =~= states);
    }
}

/// A pressed chord claims each of its registered inputs when clash detection is disabled: they
/// all end active, and the chord stays shown.
proof fn lemma_disabled_claims_show(
    states: Map<BevyInputKind, InputState>,
    chord: Seq<BevyInputKind>,
    frame: usize,
    oldest: Option<Instant>,
    fresh: Seq<Instant>,
)
    requires
        fresh.len() <= chord.len(),
        forall|j: int| 0 <= j < chord.len() ==> states.contains_key(#[trigger] chord[j]),
        forall|j: int|
            0 <= j < chord.len() ==> (#[trigger] states[chord[j]]).kind is Inactive || states[chord[j]].kind is Active,
    ensures
        claim_chord(states, chord, frame, ClashStrategy::Disabled, true, oldest, fresh).1 == PollVisibility::Show,
        forall|j: int|
            0 <= j < chord.len() ==> claim_chord(states, chord, frame, ClashStrategy::Disabled, true, oldest, fresh).0.contains_key(
                #[trigger] chord[j],
            ),
        forall|j: int|
            0 <= j < chord.len() ==> {
                let m = claim_chord(states, chord, frame, ClashStrategy::Disabled, true, oldest, fresh).0;
                &&& (m[#[trigger] chord[j]].kind is Inactive || m[chord[j]].kind is Active)
                &&& m[chord[j]].value == states[chord[j]].value
            },
        forall|j: int|
            0 <= j < fresh.len() ==> (#[trigger] claim_chord(
                states,
                chord,
                frame,
                ClashStrategy::Disabled,
                true,
                oldest,
                fresh,
            ).0[chord[j]]).kind is Active,
    decreases fresh.len(),
{
    if fresh.len() > 0 {
        lemma_disabled_claims_show(states, chord, frame, oldest, fresh.drop_last());
        let m = claim_chord(states, chord, frame, ClashStrategy::Disabled, true, oldest, fresh.drop_last()).0;
        let c = chord[fresh.len() - 1];
        assert(m.contains_key(c));
        let m2 = claim_chord(states, chord, frame, ClashStrategy::Disabled, true, oldest, fresh).0;
        assert forall|j: int| 0 <= j < fresh.len() implies (#[trigger] m2[chord[j]]).kind is Active by {
            if chord[j] != c {
                assert(j < fresh.len() - 1);
            }
        }
    }
}

/// A chord is never shown while one of its registered inputs is not pressed, and such a poll
/// changes no state.
pub proof fn lemma_unpressed_chord_is_hidden(
    states: Map<BevyInputKind, InputState>,
    chord: Seq<BevyInputKind>,
    frame: usize,
    strat: ClashStrategy,
    now: Instant,
    fresh: Seq<Instant>,
    j: int,
)
    requires
        fresh.len() == chord.len(),
        0 <= j < chord.len(),
        forall|i: int| 0 <= i < chord.len() ==> states.contains_key(#[trigger] chord[i]),
        !states[chord[j]].value.pressed_spec(),
    ensures
        poll_effect(states, chord, frame, strat, now, fresh) == (states, Some(InputValue::Pressed(false))),
{
    lemma_scan_registered_chord(states, chord, frame, now, chord.len());
    let (m1, pressed, oldest) = scan_chord(states, chord, frame, now, chord.len());
    assert(!pressed);
    lemma_unpressed_claims_change_nothing(states, chord, frame, strat, oldest, fresh);
}

/// Under a buffering strategy an input is never shown to any chord in the frame it is first
/// pressed: a chord that polls a registered, inactive input is hidden.
pub proof fn lemma_buffering_hides_first_press(
    states: Map<BevyInputKind, InputState>,
    chord: Seq<BevyInputKind>,
    frame: usize,
    strat: ClashStrategy,
    now: Instant,
    fresh: Seq<Instant>,
    j: int,
)
    requires
        strat is BufferClashing || strat is BufferAll,
        fresh.len() == chord.len(),
        0 <= j < chord.len(),
        states.contains_key(chord[j]),
        states[chord[j]].kind is Inactive,
    ensures
        poll_effect(states, chord, frame, strat, now, fresh).1 == Some(InputValue::Pressed(false)),
{
    let k = chord[j];
    lemma_scan_keeps_registered(states, chord, frame, now, chord.len(), k);
    let (m1, pressed, oldest) = scan_chord(states, chord, frame, now, chord.len());
    if !pressed {
        assert(fresh.subrange(0, 0) =~= Seq::<Instant>::empty());
        lemma_hidden_stays_hidden(m1, chord, frame, strat, pressed, oldest, fresh, 0);
    } else {
        let before = fresh.subrange(0, j);
        lemma_claims_keep_buffering(m1, chord, frame, strat, pressed, oldest, before, k);
        let upto = fresh.subrange(0, j + 1);
        assert(upto.drop_last() == before);
        assert(claim_chord(m1, chord, frame, strat, pressed, oldest, upto).1 == PollVisibility::Hide);
        lemma_hidden_stays_hidden(m1, chord, frame, strat, pressed, oldest, fresh, j + 1);
    }
}

/// If a chord of another length captured an input, a chord polling that input is hidden, unless
/// clash detection is disabled: a captured input must be released before a lower priority
/// binding can see it again.
pub proof fn lemma_captured_input_hides_other_chords(
    states: Map<BevyInputKind, InputState>,
    chord: Seq<BevyInputKind>,
    frame: usize,
    strat: ClashStrategy,
    now: Instant,
    fresh: Seq<Instant>,
    j: int,
)
    requires
        !(strat is Disabled),
        fresh.len() == chord.len(),
        0 <= j < chord.len(),
        states.contains_key(chord[j]),
        states[chord[j]].kind is Active,
        states[chord[j]].kind->Active_last_chord_len != chord.len(),
        chord.len() <= usize::MAX,
    ensures
        poll_effect(states, chord, frame, strat, now, fresh).1 == Some(InputValue::Pressed(false)),
{
    let k = chord[j];
    lemma_scan_keeps_registered(states, chord, frame, now, chord.len(), k);
    let (m1, pressed, oldest) = scan_chord(states, chord, frame, now, chord.len());
    let before = fresh.subrange(0, j);
    lemma_claims_keep_last_chord_len(m1, chord, frame, strat, pressed, oldest, before, k);
    let upto = fresh.subrange(0, j + 1);
    assert(upto.drop_last() == before);
    assert(claim_chord(m1, chord, frame, strat, pressed, oldest, upto).1 == PollVisibility::Hide);
    lemma_hidden_stays_hidden(m1, chord, frame, strat, pressed, oldest, fresh, j + 1);
}

/// With clash detection disabled all presses become active immediately: a pressed chord whose
/// inputs are registered and neither clashing nor buffered is shown at once, with the value of
/// its first input, and each of its inputs becomes active.
pub proof fn lemma_disabled_shows_pressed_chord(
    states: Map<BevyInputKind, InputState>,
    chord: Seq<BevyInputKind>,
    frame: usize,
    now: Instant,
    fresh: Seq<Instant>,
)
    requires
        fresh.len() == chord.len(),
        chord.len() > 0,
        forall|i: int| 0 <= i < chord.len() ==> states.contains_key(#[trigger] chord[i]),
        forall|i: int| 0 <= i < chord.len() ==> (#[trigger] states[chord[i]]).value.pressed_spec(),
        forall|i: int|
            0 <= i < chord.len() ==> (#[trigger] states[chord[i]]).kind is Inactive || states[chord[i]].kind is Active,
    ensures
        poll_effect(states, chord, frame, ClashStrategy::Disabled, now, fresh).1 == Some(states[chord[0]].value),
        forall|i: int|
            0 <= i < chord.len() ==> (#[trigger] poll_effect(
                states,
                chord,
                frame,
                ClashStrategy::Disabled,
                now,
                fresh,
            ).0[chord[i]]).kind is Active,
{
    lemma_scan_registered_chord(states, chord, frame, now, chord.len());
    let (m1, pressed, oldest) = scan_chord(states, chord, frame, now, chord.len());
    assert(pressed);
    lemma_disabled_claims_show(states, chord, frame, oldest, fresh);
}

/// A pressed chord whose inputs were all active for a chord of its own length last frame keeps
/// them so, and stays shown.
proof fn lemma_held_claims_show(
    states: Map<BevyInputKind, InputState>,
    chord: Seq<BevyInputKind>,
    frame: usize,
    strat: ClashStrategy,
    oldest: Option<Instant>,
    fresh: Seq<Instant>,
)
    requires
        fresh.len() <= chord.len(),
        chord.len() <= usize::MAX,
        forall|j: int| 0 <= j < chord.len() ==> states.contains_key(#[trigger] chord[j]),
        forall|j: int|
            0 <= j < chord.len() ==> (#[trigger] states[chord[j]]).kind is Active && states[chord[j]].kind->Active_last_chord_len
                == chord.len(),
    ensures
        claim_chord(states, chord, frame, strat, true, oldest, fresh).1 == PollVisibility::Show,
        forall|j: int|
            0 <= j < chord.len() ==> {
                let m = claim_chord(states, chord, frame, strat, true, oldest, fresh).0;
                &&& m.contains_key(#[trigger] chord[j])
                &&& m[chord[j]].kind is Active
                &&& m[chord[j]].kind->Active_last_chord_len == chord.len()
                &&& m[chord[j]].value == states[chord[j]].value
            },
    decreases fresh.len(),
{
    if fresh.len() > 0 {
        lemma_held_claims_show(states, chord, frame, strat, oldest, fresh.drop_last());
        let m = claim_chord(states, chord, frame, strat, true, oldest, fresh.drop_last()).0;
        let c = chord[fresh.len() - 1];
        assert(m.contains_key(c));
        let m2 = claim_chord(states, chord, frame, strat, true, oldest, fresh).0;
        assert forall|j: int| 0 <= j < chord.len() implies {
            &&& m2.contains_key(#[trigger] chord[j])
            &&& m2[chord[j]].kind is Active
            &&& m2[chord[j]].kind->Active_last_chord_len == chord.len()
            &&& m2[chord[j]].value == states[chord[j]].value
        } by {
            assert(m.contains_key(chord[j]));
        }
    }
}

/// A chord that held its inputs last frame keeps seeing them: when every input of a pressed
/// chord is active and was last taken by a chord of this length, the poll shows the chord the
/// reading of its first input, under any strategy.
pub proof fn lemma_held_chord_is_shown(
    states: Map<BevyInputKind, InputState>,
    chord: Seq<BevyInputKind>,
    frame: usize,
    strat: ClashStrategy,
    now: Instant,
    fresh: Seq<Instant>,
)
    requires
        fresh.len() == chord.len(),
        chord.len() > 0,
        chord.len() <= usize::MAX,
        forall|i: int| 0 <= i < chord.len() ==> states.contains_key(#[trigger] chord[i]),
        forall|i: int| 0 <= i < chord.len() ==> (#[trigger] states[chord[i]]).value.pressed_spec(),
        forall|i: int|
            0 <= i < chord.len() ==> (#[trigger] states[chord[i]]).kind is Active && states[chord[i]].kind->Active_last_chord_len
                == chord.len(),
    ensures
        poll_effect(states, chord, frame, strat, now, fresh).1 == Some(states[chord[0]].value),
{
    lemma_scan_registered_chord(states, chord, frame, now, chord.len());
    let (m1, pressed, oldest) = scan_chord(states, chord, frame, now, chord.len());
    assert(pressed);
    lemma_held_claims_show(states, chord, frame, strat, oldest, fresh);
}

/// Once a chord is not shown, looking at more of its inputs never shows it.
proof fn lemma_unshown_stays_unshown(
    states: Map<BevyInputKind, InputState>,
    chord: Seq<BevyInputKind>,
    frame: usize,
    strat: ClashStrategy,
    pressed: bool,
    oldest: Option<Instant>,
    fresh: Seq<Instant>,
    t: int,
)
    requires
        0 <= t <= fresh.len(),
        claim_chord(states, chord, frame, strat, pressed, oldest, fresh.subrange(0, t)).1 != PollVisibility::Show,
    ensures
        claim_chord(states, chord, frame, strat, pressed, oldest, fresh).1 != PollVisibility::Show,
    decreases fresh.len(),
{
    if fresh.len() == t {
        assert(fresh.subrange(0, t) == fresh);
    } else {
        assert(fresh.drop_last().subrange(0, t) == fresh.subrange(0, t));
        lemma_unshown_stays_unshown(states, chord, frame, strat, pressed, oldest, fresh.drop_last(), t);
    }
}

/// Without buffering, claims keep an inactive or clashing input inactive or clashing.
proof fn lemma_claims_keep_clashing(
    states: Map<BevyInputKind, InputState>,
    chord: Seq<BevyInputKind>,
    frame: usize,
    pressed: bool,
    oldest: Option<Instant>,
    fresh: Seq<Instant>,
    k: BevyInputKind,
)
    requires
        states.contains_key(k),
        states[k].kind is Inactive || states[k].kind is Clashing,
        fresh.len() <= chord.len(),
    ensures
        claim_chord(states, chord, frame, ClashStrategy::Unbuffered, pressed, oldest, fresh).0.contains_key(k),
        claim_chord(states, chord, frame, ClashStrategy::Unbuffered, pressed, oldest, fresh).0[k].kind is Inactive
            || claim_chord(states, chord, frame, ClashStrategy::Unbuffered, pressed, oldest, fresh).0[k].kind is Clashing,
    decreases fresh.len(),
{
    if fresh.len() > 0 {
        lemma_claims_keep_clashing(states, chord, frame, pressed, oldest, fresh.drop_last(), k);
    }
}

/// Without buffering, inputs that may clash are re-checked after all inputs have had a chance
/// to assert their priority: a chord that polls an inactive or clashing input is never shown at
/// once; it is told to look again, or hidden.
pub proof fn lemma_unbuffered_clash_is_rechecked(
    states: Map<BevyInputKind, InputState>,
    chord: Seq<BevyInputKind>,
    frame: usize,
    now: Instant,
    fresh: Seq<Instant>,
    j: int,
)
    requires
        fresh.len() == chord.len(),
        0 <= j < chord.len(),
        states.contains_key(chord[j]),
        states[chord[j]].kind is Inactive || states[chord[j]].kind is Clashing,
    ensures
        poll_effect(states, chord, frame, ClashStrategy::Unbuffered, now, fresh).1 is None || poll_effect(
            states,
            chord,
            frame,
            ClashStrategy::Unbuffered,
            now,
            fresh,
        ).1 == Some(InputValue::Pressed(false)),
{
    let k = chord[j];
    let strat = ClashStrategy::Unbuffered;
    lemma_scan_keeps_registered(states, chord, frame, now, chord.len(), k);
    let (m1, pressed, oldest) = scan_chord(states, chord, frame, now, chord.len());
    if !pressed {
        assert(fresh.subrange(0, 0) =~= Seq::<Instant>::empty());
        lemma_hidden_stays_hidden(m1, chord, frame, strat, pressed, oldest, fresh, 0);
    } else {
        let before = fresh.subrange(0, j);
        lemma_claims_keep_clashing(m1, chord, frame, pressed, oldest, before, k);
        let upto = fresh.subrange(0, j + 1);
        assert(upto.drop_last() == before);
        assert(claim_chord(m1, chord, frame, strat, pressed, oldest, upto).1 != PollVisibility::Show);
        lemma_unshown_stays_unshown(m1, chord, frame, strat, pressed, oldest, fresh, j + 1);
    }
}

/// On a first look at a registered, pressed chord, the earliest start kept lies no later than
/// the start of any buffered input of the chord that started before the poll.
proof fn lemma_scan_finds_oldest(
    states: Map<BevyInputKind, InputState>,
    chord: Seq<BevyInputKind>,
    frame: usize,
    now: Instant,
    i: nat,
    j: int,
)
    requires
        i <= chord.len(),
        0 <= j < i,
        forall|x: int| 0 <= x < chord.len() ==> states.contains_key(#[trigger] chord[x]),
        forall|x: int| 0 <= x < chord.len() ==> (#[trigger] states[chord[x]]).value.pressed_spec(),
        states[chord[j]].kind is Buffered,
        states[chord[j]].kind->Buffered_start@ < now@,
    ensures
        scan_chord(states, chord, frame, now, i).2 is Some,
        scan_chord(states, chord, frame, now, i).2->0@ <= states[chord[j]].kind->Buffered_start@,
    decreases i,
{
    lemma_scan_registered_chord(states, chord, frame, now, i);
    lemma_scan_registered_chord(states, chord, frame, now, (i - 1) as nat);
    if j < i - 1 {
        lemma_scan_finds_oldest(states, chord, frame, now, (i - 1) as nat, j);
    }
}

/// Claims by a pressed chord keep a buffered input buffered, never move its start later, and
/// once they reach it its start lies no later than the earliest start of the chord.
proof fn lemma_claims_share_oldest(
    states: Map<BevyInputKind, InputState>,
    chord: Seq<BevyInputKind>,
    frame: usize,
    strat: ClashStrategy,
    oldest: Instant,
    fresh: Seq<Instant>,
    k: int,
)
    requires
        fresh.len() <= chord.len(),
        0 <= k < chord.len(),
        states.contains_key(chord[k]),
        states[chord[k]].kind is Buffered,
    ensures
        claim_chord(states, chord, frame, strat, true, Some(oldest), fresh).0.contains_key(chord[k]),
        claim_chord(states, chord, frame, strat, true, Some(oldest), fresh).0[chord[k]].kind is Buffered,
        claim_chord(states, chord, frame, strat, true, Some(oldest), fresh).0[chord[k]].kind->Buffered_start@
            <= states[chord[k]].kind->Buffered_start@,
        k < fresh.len() ==> claim_chord(states, chord, frame, strat, true, Some(oldest), fresh).0[chord[k]].kind->Buffered_start@
            <= oldest@,
    decreases fresh.len(),
{
    if fresh.len() > 0 {
        lemma_claims_share_oldest(states, chord, frame, strat, oldest, fresh.drop_last(), k);
    }
}

/// If a chord has multiple buffered inputs, all their start times are set to the oldest: after a
/// poll of a pressed chord whose inputs are registered, every input of the chord that was
/// buffered starts no later than any buffered input of the chord that started before the poll.
pub proof fn lemma_chord_buffers_share_oldest_start(
    states: Map<BevyInputKind, InputState>,
    chord: Seq<BevyInputKind>,
    frame: usize,
    strat: ClashStrategy,
    now: Instant,
    fresh: Seq<Instant>,
    j: int,
    k: int,
)
    requires
        fresh.len() == chord.len(),
        0 <= j < chord.len(),
        0 <= k < chord.len(),
        forall|x: int| 0 <= x < chord.len() ==> states.contains_key(#[trigger] chord[x]),
        forall|x: int| 0 <= x < chord.len() ==> (#[trigger] states[chord[x]]).value.pressed_spec(),
        states[chord[j]].kind is Buffered,
        states[chord[j]].kind->Buffered_start@ < now@,
        states[chord[k]].kind is Buffered,
    ensures
        poll_effect(states, chord, frame, strat, now, fresh).0[chord[k]].kind is Buffered,
        poll_effect(states, chord, frame, strat, now, fresh).0[chord[k]].kind->Buffered_start@
            <= states[chord[j]].kind->Buffered_start@,
{
    lemma_scan_registered_chord(states, chord, frame, now, chord.len());
    lemma_scan_finds_oldest(states, chord, frame, now, chord.len(), j);
    let (m1, pressed, oldest) = scan_chord(states, chord, frame, now, chord.len());
    assert(pressed);
    lemma_claims_share_oldest(m1, chord, frame, strat, oldest->0, fresh, k);
}

/// When the buffering of a contended input ends on `tick`, the input becomes active for the
/// longest chord that asked for it; until then it stays buffered.
pub proof fn lemma_tick_buffering_ends_for_longest_chord(
    prev: InputState,
    next: InputState,
    frame: usize,
    settings: ClashSettings,
    now: Instant,
)
    requires
        ticked_at(prev, next, frame, settings, now),
        prev.frame == frame,
        prev.kind is Buffered,
    ensures
        next.kind is Buffered || next.kind == (InputStateKind::Active {
            chord_len: prev.kind->Buffered_chord_len,
            last_chord_len: prev.kind->Buffered_last_chord_len,
        }),
{
}

/// A buffered input is released once its delay has passed since its start: at a clock reading
/// at least the delay after the start, `tick` makes it active for the longest chord that asked
/// for it.
pub proof fn lemma_tick_ends_buffering_after_delay(
    prev: InputState,
    next: InputState,
    frame: usize,
    settings: ClashSettings,
    now: Instant,
    delay: Duration,
)
    requires
        ticked_at(prev, next, frame, settings, now),
        prev.frame == frame,
        prev.kind is Buffered,
        settings.strategy_spec() == ClashStrategy::BufferClashing(Some(delay)) || settings.strategy_spec()
            == ClashStrategy::BufferAll(Some(delay)),
        span_between(prev.kind->Buffered_start@, now@) >= delay@,
    ensures
        next.kind == (InputStateKind::Active {
            chord_len: prev.kind->Buffered_chord_len,
            last_chord_len: prev.kind->Buffered_last_chord_len,
        }),
{
}

/// Until its delay has passed, an input that every input buffering holds back, or that more
/// than one chord contends for, stays buffered on `tick`.
pub proof fn lemma_tick_keeps_buffering_within_delay(
    prev: InputState,
    next: InputState,
    frame: usize,
    settings: ClashSettings,
    now: Instant,
    delay: Duration,
)
    requires
        ticked_at(prev, next, frame, settings, now),
        prev.frame == frame,
        prev.kind is Buffered,
        settings.strategy_spec() == ClashStrategy::BufferAll(Some(delay)) || (settings.strategy_spec()
            == ClashStrategy::BufferClashing(Some(delay)) && prev.kind->Buffered_count != 1),
        span_between(prev.kind->Buffered_start@, now@) < delay@,
    ensures
        next.kind is Buffered,
        next.kind->Buffered_start == prev.kind->Buffered_start,
        next.kind->Buffered_chord_len == if settings.chord_regretion_spec() { 0 } else { prev.kind->Buffered_chord_len },
        next.kind->Buffered_last_chord_len == prev.kind->Buffered_chord_len,
        next.kind->Buffered_count == 0,
{
}

/// An input that no chord pressed during the frame is inactive after `tick`.
pub proof fn lemma_tick_unpolled_goes_inactive(prev: InputState, next: InputState, frame: usize, settings: ClashSettings, now: Instant)
    requires
        ticked_at(prev, next, frame, settings, now),
        prev.frame != frame,
    ensures
        next.kind is Inactive,
        next.value == prev.value,
{
}

/// A clash of the frame resolves on `tick`: the clashing input becomes active for the longest
/// chord that polled it.
pub proof fn lemma_tick_resolves_clash(prev: InputState, next: InputState, frame: usize, settings: ClashSettings, now: Instant)
    requires
        ticked_at(prev, next, frame, settings, now),
        prev.frame == frame,
        prev.kind is Clashing,
    ensures
        next.kind == (InputStateKind::Active { chord_len: prev.kind->Clashing_0, last_chord_len: prev.kind->Clashing_0 }),
{
}

/// Without a delay a buffered input is buffered for one frame only: `tick` makes it active.
pub proof fn lemma_tick_ends_undelayed_buffering(prev: InputState, next: InputState, frame: usize, settings: ClashSettings, now: Instant)
    requires
        ticked_at(prev, next, frame, settings, now),
        prev.frame == frame,
        prev.kind is Buffered,
        settings.strategy_spec() == ClashStrategy::BufferClashing(None) || settings.strategy_spec()
            == ClashStrategy::BufferAll(None),
    ensures
        next.kind == (InputStateKind::Active {
            chord_len: prev.kind->Buffered_chord_len,
            last_chord_len: prev.kind->Buffered_last_chord_len,
        }),
{
}

/// On `tick` an active input remembers the longest chord of the frame as the chord of the last
/// frame; with chord regression the current length starts again from zero, so that a shorter
/// chord can take the input over once a longer one lets go.
pub proof fn lemma_tick_rolls_chord_len(prev: InputState, next: InputState, frame: usize, settings: ClashSettings, now: Instant)
    requires
        ticked_at(prev, next, frame, settings, now),
        prev.frame == frame,
        prev.kind is Active,
    ensures
        next.kind == (InputStateKind::Active {
            chord_len: if settings.chord_regretion_spec() { 0 } else { prev.kind->Active_chord_len },
            last_chord_len: prev.kind->Active_chord_len,
        }),
{
}

/// `chord[..upto]` holds `k`.
pub open spec fn polled_before(chord: Seq<BevyInputKind>, k: BevyInputKind, upto: int) -> bool {
    exists|i: int| 0 <= i < upto && chord[i] == k
}

/// The larger of two chord lengths.
pub open spec fn longer(a: usize, b: usize) -> usize {
    if a > b {
        a
    } else {
        b
    }
}

/// Claims of a pressed chord of `chord.len()` inputs: an input the chord reaches is stamped with
/// the frame and keeps its reading, and the chord length it records grows to the chord's length
/// if that is longer; an input the chord does not reach is left alone.
proof fn lemma_claims_take_longest(
    states: Map<BevyInputKind, InputState>,
    chord: Seq<BevyInputKind>,
    frame: usize,
    strat: ClashStrategy,
    oldest: Option<Instant>,
    fresh: Seq<Instant>,
    k: BevyInputKind,
)
    requires
        states.contains_key(k),
        fresh.len() <= chord.len(),
        chord.len() <= usize::MAX,
    ensures
        ({
            let m = claim_chord(states, chord, frame, strat, true, oldest, fresh).0;
            let n = chord.len() as usize;
            let before = states[k];
            &&& m.contains_key(k)
            &&& !polled_before(chord, k, fresh.len() as int) ==> m[k] == before
            &&& polled_before(chord, k, fresh.len() as int) ==> {
                &&& m[k].frame == frame
                &&& m[k].value == before.value
                &&& before.kind matches InputStateKind::Active { chord_len, last_chord_len } ==> m[k].kind
                    == (InputStateKind::Active { chord_len: longer(chord_len, n), last_chord_len })
                &&& before.kind matches InputStateKind::Clashing(l) ==> m[k].kind == InputStateKind::Clashing(longer(l, n))
                &&& before.kind matches InputStateKind::Buffered { chord_len, last_chord_len, .. } ==> {
                    &&& m[k].kind is Buffered
                    &&& m[k].kind->Buffered_chord_len == longer(chord_len, n)
                    &&& m[k].kind->Buffered_last_chord_len == last_chord_len
                }
                &&& before.kind is Inactive ==> match strat {
                    ClashStrategy::Unbuffered => m[k].kind == InputStateKind::Clashing(n),
                    ClashStrategy::Disabled => m[k].kind == (InputStateKind::Active { chord_len: n, last_chord_len: n }),
                    _ => {
                        &&& m[k].kind is Buffered
                        &&& m[k].kind->Buffered_chord_len == n
                        &&& m[k].kind->Buffered_last_chord_len == n
                    },
                }
            }
        }),
    decreases fresh.len(),
{
    if fresh.len() > 0 {
        let i = fresh.len() - 1;
        lemma_claims_take_longest(states, chord, frame, strat, oldest, fresh.drop_last(), k);
        if chord[i] != k {
            if polled_before(chord, k, fresh.len() as int) {
                let w = choose|w: int| 0 <= w < fresh.len() && chord[w] == k;
                assert(w < i);
                assert(polled_before(chord, k, i));
            }
        } else {
            assert(polled_before(chord, k, fresh.len() as int));
        }
    }
}

/// A chord whose inputs are all registered and pressed claims each of them for the frame: an
/// input that was active, clashing or buffered records the longer of its chord length and this
/// chord's length (so a longer chord takes over an input a shorter one held, and a shorter chord
/// never lowers it), an inactive input starts clashing, buffering or, with clash detection
/// disabled, is active for this chord; readings stay, and inputs outside the chord are untouched.
pub proof fn lemma_pressed_chord_takes_its_inputs(
    states: Map<BevyInputKind, InputState>,
    chord: Seq<BevyInputKind>,
    frame: usize,
    strat: ClashStrategy,
    now: Instant,
    fresh: Seq<Instant>,
    k: BevyInputKind,
)
    requires
        fresh.len() == chord.len(),
        chord.len() <= usize::MAX,
        forall|i: int| 0 <= i < chord.len() ==> states.contains_key(#[trigger] chord[i]),
        forall|i: int| 0 <= i < chord.len() ==> (#[trigger] states[chord[i]]).value.pressed_spec(),
        states.contains_key(k),
    ensures
        ({
            let after = poll_effect(states, chord, frame, strat, now, fresh).0;
            let n = chord.len() as usize;
            let before = states[k];
            &&& after.contains_key(k)
            &&& !chord.contains(k) ==> after[k] == before
            &&& chord.contains(k) ==> {
                &&& after[k].frame == frame
                &&& after[k].value == before.value
                &&& before.kind matches InputStateKind::Active { chord_len, last_chord_len } ==> after[k].kind
                    == (InputStateKind::Active { chord_len: longer(chord_len, n), last_chord_len })
                &&& before.kind matches InputStateKind::Clashing(l) ==> after[k].kind == InputStateKind::Clashing(longer(l, n))
                &&& before.kind matches InputStateKind::Buffered { chord_len, last_chord_len, .. } ==> {
                    &&& after[k].kind is Buffered
                    &&& after[k].kind->Buffered_chord_len == longer(chord_len, n)
                    &&& after[k].kind->Buffered_last_chord_len == last_chord_len
                }
                &&& before.kind is Inactive ==> match strat {
                    ClashStrategy::Unbuffered => after[k].kind == InputStateKind::Clashing(n),
                    ClashStrategy::Disabled => after[k].kind == (InputStateKind::Active { chord_len: n, last_chord_len: n }),
                    _ => {
                        &&& after[k].kind is Buffered
                        &&& after[k].kind->Buffered_chord_len == n
                        &&& after[k].kind->Buffered_last_chord_len == n
                    },
                }
            }
        }),
{
    lemma_scan_registered_chord(states, chord, frame, now, chord.len());
    let (m1, pressed, oldest) = scan_chord(states, chord, frame, now, chord.len());
    assert(pressed);
    lemma_claims_take_longest(m1, chord, frame, strat, oldest, fresh, k);
    if chord.contains(k) {
        let w = choose|w: int| 0 <= w < chord.len() && chord[w] == k;
        assert(polled_before(chord, k, fresh.len() as int));
    } else {
        if polled_before(chord, k, fresh.len() as int) {
            let w = choose|w: int| 0 <= w < fresh.len() && chord[w] == k;
            assert(chord.contains(k));
        }
    }
}

/// A second look at a chord sees the reading of its first input only when every registered
/// input of the chord is clashing or active for a chord of exactly this length; if one of them
/// is inactive, buffered, or taken by a chord of another length, the chord sees an unpressed
/// value. An empty chord sees an unpressed value.
pub proof fn lemma_repoll_sees_only_its_own_length(states: Map<BevyInputKind, InputState>, chord: Seq<BevyInputKind>)
    ensures
        chord.len() == 0 ==> repoll_value(states, chord) == InputValue::Pressed(false),
        chord.len() > 0 && (forall|i: int|
            0 <= i < chord.len() && #[trigger] states.contains_key(chord[i]) ==> match states[chord[i]].kind {
                InputStateKind::Clashing(l) => l == chord.len(),
                InputStateKind::Active { chord_len, .. } => chord_len == chord.len(),
                _ => false,
            }) ==> repoll_value(states, chord) == if states.contains_key(chord[0]) {
            states[chord[0]].value
        } else {
            InputValue::Pressed(false)
        },
        (exists|i: int|
            0 <= i < chord.len() && #[trigger] states.contains_key(chord[i]) && match states[chord[i]].kind {
                InputStateKind::Clashing(l) => l != chord.len(),
                InputStateKind::Active { chord_len, .. } => chord_len != chord.len(),
                _ => true,
            }) ==> repoll_value(states, chord) == InputValue::Pressed(false),
{
    if exists|i: int|
        0 <= i < chord.len() && #[trigger] states.contains_key(chord[i]) && match states[chord[i]].kind {
            InputStateKind::Clashing(l) => l != chord.len(),
            InputStateKind::Active { chord_len, .. } => chord_len != chord.len(),
            _ => true,
        } {
        let w = choose|i: int|
            0 <= i < chord.len() && #[trigger] states.contains_key(chord[i]) && match states[chord[i]].kind {
                InputStateKind::Clashing(l) => l != chord.len(),
                InputStateKind::Active { chord_len, .. } => chord_len != chord.len(),
                _ => true,
            };
        assert(blocks_repoll(states[chord[w]], chord.len()));
    }
    if chord.len() > 0 && (forall|i: int|
        0 <= i < chord.len() && #[trigger] states.contains_key(chord[i]) ==> match states[chord[i]].kind {
            InputStateKind::Clashing(l) => l == chord.len(),
            InputStateKind::Active { chord_len, .. } => chord_len == chord.len(),
            _ => false,
        }) {
        assert forall|i: int| 0 <= i < chord.len() && states.contains_key(chord[i]) implies !blocks_repoll(
            #[trigger] states[chord[i]],
            chord.len(),
        ) by {
            assert(states.contains_key(chord[i]));
        }
    }
}

/// Under [`ClashStrategy::BufferClashing`] only inputs that can clash are held back: an input
/// buffered for a single poll in the frame (no other chord contended for it) becomes active for
/// its chord on `tick`, however little time has passed.
pub proof fn lemma_tick_releases_uncontested_buffering(
    prev: InputState,
    next: InputState,
    frame: usize,
    settings: ClashSettings,
    now: Instant,
    delay: Option<Duration>,
)
    requires
        ticked_at(prev, next, frame, settings, now),
        prev.frame == frame,
        prev.kind is Buffered,
        prev.kind->Buffered_count == 1,
        settings.strategy_spec() == ClashStrategy::BufferClashing(delay),
    ensures
        next.kind == (InputStateKind::Active {
            chord_len: prev.kind->Buffered_chord_len,
            last_chord_len: prev.kind->Buffered_last_chord_len,
        }),
        next.frame == prev.frame,
        next.value == prev.value,
{
}

/// `tick` changes only the kind of an input: its reading and the frame it was last polled in
/// stay, and an inactive input stays inactive.
pub proof fn lemma_tick_changes_only_the_kind(prev: InputState, next: InputState, frame: usize, settings: ClashSettings, now: Instant)
    requires
        ticked_at(prev, next, frame, settings, now),
    ensures
        next.frame == prev.frame,
        next.value == prev.value,
        prev.kind is Inactive ==> next.kind is Inactive,
{
}

impl Default for InputHandler {
    fn default() -> (r: Self)
        ensures
            r.frame_spec() == 0,
            r.states() == Map::<BevyInputKind, InputState>::empty(),
    {
        InputHandler::new()
    }
}

} // verus!
