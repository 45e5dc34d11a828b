//! Clash detection between bindings that share an input, keyed by [`ClashableKind`].
use vstd::prelude::*;

use bevy::input::gamepad::{GamepadAxis, GamepadButton};
use bevy::input::keyboard::KeyCode;
use bevy::input::mouse::MouseButton;
use bevy::platform::collections::HashMap;

use crate::axis::MouseAxis;
use crate::bevy_types::{gamepad_axis_eq, gamepad_button_eq, key_code_eq, mouse_button_eq};
use crate::time::{Duration, Instant, span_between};
use crate::{BevyAxisKind, BevyButtonKind, BevyInputKind};

verus! {

#[derive(PartialEq, Eq, Hash, Clone, Copy, Debug)]
pub enum ClashableKind {
    MouseAxis(MouseAxis),
    GamepadAxis(GamepadAxis),
    GamepadButton(GamepadButton),
    Keyboard(KeyCode),
    MouseButton(MouseButton),
    Gamepad(GamepadButton),
}

impl ClashableKind {
    /// Compares two clashable inputs.
    pub fn same(&self, other: &Self) -> (r: bool)
        ensures
            r == (*self == *other),
    {
        match (self, other) {
            (ClashableKind::MouseAxis(a), ClashableKind::MouseAxis(b)) => *a == *b,
            (ClashableKind::GamepadAxis(a), ClashableKind::GamepadAxis(b)) => gamepad_axis_eq(a, b),
            (ClashableKind::GamepadButton(a), ClashableKind::GamepadButton(b)) => gamepad_button_eq(a, b),
            (ClashableKind::Keyboard(a), ClashableKind::Keyboard(b)) => key_code_eq(a, b),
            (ClashableKind::MouseButton(a), ClashableKind::MouseButton(b)) => mouse_button_eq(a, b),
            (ClashableKind::Gamepad(a), ClashableKind::Gamepad(b)) => gamepad_button_eq(a, b),
            _ => false,
        }
    }
}

/// The clashable input that stands for an input of `bevy_input`.
pub open spec fn clashable_of(kind: BevyInputKind) -> ClashableKind {
    match kind {
        BevyInputKind::Button(BevyButtonKind::KeyCode(k)) => ClashableKind::Keyboard(k),
        BevyInputKind::Button(BevyButtonKind::MouseButton(b)) => ClashableKind::MouseButton(b),
        BevyInputKind::Button(BevyButtonKind::GamepadButton(b)) => ClashableKind::Gamepad(b),
        BevyInputKind::Axis(BevyAxisKind::MouseAxis(a)) => ClashableKind::MouseAxis(a),
        BevyInputKind::Axis(BevyAxisKind::GamepadAxis(a)) => ClashableKind::GamepadAxis(a),
        BevyInputKind::Axis(BevyAxisKind::GamepadButton(b)) => ClashableKind::GamepadButton(b),
    }
}

impl ClashableKind {
    /// The clashable input that stands for `kind`.
    pub fn from_input_kind(kind: BevyInputKind) -> (r: Self)
        ensures
            r == clashable_of(kind),
    {
        match kind {
            BevyInputKind::Button(BevyButtonKind::KeyCode(k)) => ClashableKind::Keyboard(k),
            BevyInputKind::Button(BevyButtonKind::MouseButton(b)) => ClashableKind::MouseButton(b),
            BevyInputKind::Button(BevyButtonKind::GamepadButton(b)) => ClashableKind::Gamepad(b),
            BevyInputKind::Axis(BevyAxisKind::MouseAxis(a)) => ClashableKind::MouseAxis(a),
            BevyInputKind::Axis(BevyAxisKind::GamepadAxis(a)) => ClashableKind::GamepadAxis(a),
            BevyInputKind::Axis(BevyAxisKind::GamepadButton(b)) => ClashableKind::GamepadButton(b),
        }
    }
}

/// The clashable inputs that stand for `kinds`, in order.
pub fn clashables_of(kinds: &[BevyInputKind]) -> (r: Vec<ClashableKind>)
    ensures
        r@ == kinds@.map_values(|k: BevyInputKind| clashable_of(k)),
{
    let mut out: Vec<ClashableKind> = Vec::new();
    let mut i: usize = 0;
    while i < kinds.len()
        invariant
            i <= kinds@.len(),
            out@ == kinds@.subrange(0, i as int).map_values(|k: BevyInputKind| clashable_of(k)),
        decreases kinds@.len() - i,
    {
        out.push(ClashableKind::from_input_kind(kinds[i]));
        assert(kinds@.subrange(0, i + 1).map_values(|k: BevyInputKind| clashable_of(k)) =~= kinds@.subrange(
            0,
            i as int,
        ).map_values(|k: BevyInputKind| clashable_of(k)).push(clashable_of(kinds@[i as int])));
        i = i + 1;
    }
    assert(kinds@.subrange(0, kinds@.len() as int) == kinds@);
    out
}

pub struct Clash {}

/// The clash state of one input.
#[derive(Debug, Clone, Copy, PartialEq, Eq, Structural)]
pub enum ClashStateKind {
    /// Not pressed, or not clashing.
    Idle,
    /// Pressed by chords of which the longest has the given length.
    Clashing(usize),
    /// Held back from every chord since the given point in time; the longest chord so far has
    /// the given length.
    Buffered(Instant, usize),
    /// Released to chords of the given length.
    Released(usize),
}

impl ClashStateKind {
    /// Whether a chord of `chord_len` inputs may see an input in this state.
    pub open spec fn allows(self, chord_len: usize) -> bool {
        match self {
            ClashStateKind::Idle => true,
            ClashStateKind::Clashing(len) => chord_len == len,
            ClashStateKind::Buffered(_, _) => false,
            ClashStateKind::Released(len) => chord_len == len,
        }
    }

    pub fn allowed_to_take_input(&self, chord_len: usize) -> (r: bool)
        ensures
            r == self.allows(chord_len),
    {
        match self {
            ClashStateKind::Idle => true,
            ClashStateKind::Clashing(len) => chord_len == *len,
            ClashStateKind::Buffered(_, _) => false,
            ClashStateKind::Released(len) => chord_len == *len,
        }
    }

    pub fn is_none(&self) -> (r: bool)
        ensures
            r == (*self is Idle),
    {
        match self {
            ClashStateKind::Idle => true,
            _ => false,
        }
    }

    pub fn none() -> (r: Self)
        ensures
            r == ClashStateKind::Idle,
    {
        ClashStateKind::Idle
    }

    pub fn clashing(len: usize) -> (r: Self)
        ensures
            r == ClashStateKind::Clashing(len),
    {
        ClashStateKind::Clashing(len)
    }

    /// A buffering that starts now.
    pub fn buffered(len: usize) -> (r: Self)
        ensures
            r is Buffered,
            r->Buffered_1 == len,
    {
        ClashStateKind::Buffered(Instant::now(), len)
    }

    pub fn buffered_with_instant(len: usize, i: Instant) -> (r: Self)
        ensures
            r == ClashStateKind::Buffered(i, len),
    {
        ClashStateKind::Buffered(i, len)
    }

    pub fn released(len: usize) -> (r: Self)
        ensures
            r == ClashStateKind::Released(len),
    {
        ClashStateKind::Released(len)
    }

    pub fn replace(&mut self, new: Self)
        ensures
            *final(self) == new,
    {
        *self = new;
    }
}

/// The clash state of one input and the last frame it was pressed in.
#[derive(Debug, Clone, Copy, PartialEq, Eq, Structural)]
pub struct ClashState {
    /// The last frame this was updated.
    pub frame: usize,
    pub kind: ClashStateKind,
}

#[derive(Debug, Clone, Copy, PartialEq, Eq, Structural)]
pub enum ClashSettings {
    /// The highest-priority or longest chord will capture the input. This means any shorter chord can get
    /// the input during the previous frame if not all buttons were pressed in that frame. This will NOT
    /// buffer inputs meaning chords happen as they are pressed, but inputs with shorter chord lengths
    /// will be told to ignore.
    Sorted,
    /// Waits for the highest-priority or longest chord to capture the input within a Duration. This will
    /// always skip the "JustPressed" tick because it wants to wait for the longest input. If the Duration
    /// from the initial press of the clash passes or the input is released: inputs with a chord length that
    /// matches the longest chord length of inputs that tried to gather the input.
    Buffered(Option<Duration>),
}

impl ClashSettings {
    pub fn needs_sorting(&self) -> (r: bool)
        ensures
            r == (*self is Sorted),
    {
        match self {
            ClashSettings::Sorted => true,
            _ => false,
        }
    }
}

/// The states held by a map of clashable inputs.
pub uninterp spec fn clash_states(m: HashMap<ClashableKind, ClashState>) -> Map<ClashableKind, ClashState>;

/// Calls `HashMap::new` of `bevy_platform`: the new map holds nothing.
#[verifier::external_body]
fn clash_map_new() -> (r: HashMap<ClashableKind, ClashState>)
    ensures
        clash_states(r).dom().is_empty(),
{
    HashMap::new()
}

/// Calls `HashMap::get` of `bevy_platform` and copies the state found: the state stored under
/// `k`, if any.
#[verifier::external_body]
fn clash_map_get(m: &HashMap<ClashableKind, ClashState>, k: &ClashableKind) -> (r: Option<ClashState>)
    ensures
        r == (if clash_states(*m).contains_key(*k) {
            Some(clash_states(*m)[*k])
        } else {
            None
        }),
{
    m.get(k).copied()
}

/// Calls `HashMap::insert` of `bevy_platform`: afterwards `k` maps to `v` and every other key
/// keeps its state.
#[verifier::external_body]
fn clash_map_insert(m: &mut HashMap<ClashableKind, ClashState>, k: ClashableKind, v: ClashState)
    ensures
        clash_states(*final(m)) == clash_states(*old(m)).insert(k, v),
{
    m.insert(k, v);
}

/// Calls `HashMap::keys` of `bevy_platform` and collects the keys: each key of the map once, in
/// an order the map chooses.
#[verifier::external_body]
fn clash_map_keys(m: &HashMap<ClashableKind, ClashState>) -> (r: Vec<ClashableKind>)
    ensures
        r@.no_duplicates(),
        r@.to_set() == clash_states(*m).dom(),
{
    m.keys().copied().collect()
}

/// Calls `HashMap::clear` of `bevy_platform`: afterwards the map holds nothing.
#[verifier::external_body]
fn clash_map_clear(m: &mut HashMap<ClashableKind, ClashState>)
    ensures
        clash_states(*final(m)).dom().is_empty(),
{
    m.clear();
}

pub struct ClashHandler {
    frame: usize,
    clashables: HashMap<ClashableKind, ClashState>,
    settings: ClashSettings,
    /// Rescan bindings for clashes.
    should_rescan: bool,
}

/// The kind of an input after the end of a frame; `polled` tells whether it was pressed during
/// the frame, `elapsed` how long it has been buffered.
pub open spec fn clash_ticked_kind(kind: ClashStateKind, polled: bool, settings: ClashSettings, elapsed: nat) -> ClashStateKind {
    if !polled {
        ClashStateKind::Idle
    } else {
        match (settings, kind) {
            (ClashSettings::Buffered(Some(d)), ClashStateKind::Buffered(_, len)) => if elapsed >= d@ {
                ClashStateKind::Released(len)
            } else {
                kind
            },
            _ => kind,
        }
    }
}

/// How long an input in state `kind` has been buffered at the clock reading `now` (zero when it
/// is not buffered).
pub open spec fn buffered_for(kind: ClashStateKind, now: Instant) -> nat {
    match kind {
        ClashStateKind::Buffered(start, _) => span_between(start@, now@),
        _ => 0,
    }
}

/// `next` is what `tick` makes of `prev` at frame `frame`, with the clock reading `now`.
pub open spec fn clash_ticked_at(prev: ClashState, next: ClashState, frame: usize, settings: ClashSettings, now: Instant) -> bool {
    next == ClashState { kind: clash_ticked_kind(prev.kind, prev.frame == frame, settings, buffered_for(prev.kind, now)), ..prev }
}

/// Every input of `after` is what `tick` makes of the same input of `before`, with one clock
/// reading `now` for all of them.
pub open spec fn ticked_all(
    before: Map<ClashableKind, ClashState>,
    after: Map<ClashableKind, ClashState>,
    frame: usize,
    settings: ClashSettings,
    now: Instant,
) -> bool {
    forall|k: ClashableKind| #[trigger] after.contains_key(k) ==> clash_ticked_at(before[k], after[k], frame, settings, now)
}

/// The kind of an input after a chord of `chord_length` inputs polls it, `pressed` or not;
/// `fresh` is the start of a buffering that begins now.
pub open spec fn clash_polled_kind(
    kind: ClashStateKind,
    settings: ClashSettings,
    chord_length: usize,
    pressed: bool,
    fresh: Instant,
) -> ClashStateKind {
    if pressed {
        match kind {
            ClashStateKind::Idle => match settings {
                ClashSettings::Sorted => ClashStateKind::Clashing(chord_length),
                ClashSettings::Buffered(_) => ClashStateKind::Buffered(fresh, chord_length),
            },
            ClashStateKind::Clashing(len) => if chord_length > len {
                ClashStateKind::Clashing(chord_length)
            } else {
                kind
            },
            ClashStateKind::Buffered(start, len) => if chord_length > len {
                ClashStateKind::Buffered(start, chord_length)
            } else {
                kind
            },
            ClashStateKind::Released(len) => if chord_length > len {
                ClashStateKind::Released(chord_length)
            } else {
                kind
            },
        }
    } else {
        match kind {
            ClashStateKind::Idle => ClashStateKind::Idle,
            ClashStateKind::Clashing(_) => ClashStateKind::Idle,
            ClashStateKind::Buffered(_, len) => ClashStateKind::Released(len),
            ClashStateKind::Released(_) => kind,
        }
    }
}

/// The states after a chord of `chord_length` inputs polled the registered input `k`, and what
/// it was told, with `fresh` as the start of a buffering that begins now.
pub open spec fn clash_poll_outcome(
    before: Map<ClashableKind, ClashState>,
    after: Map<ClashableKind, ClashState>,
    k: ClashableKind,
    frame: usize,
    settings: ClashSettings,
    chord_length: usize,
    pressed: bool,
    allowed: bool,
    fresh: Instant,
) -> bool {
    let prev = before[k];
    let kind = clash_polled_kind(prev.kind, settings, chord_length, pressed, fresh);
    let next = ClashState { frame: if pressed { frame } else { prev.frame }, kind };
    &&& after == before.insert(k, next)
    &&& allowed == kind.allows(chord_length)
}

/// `c` occurs at two places of `list`, the first of them before `upto`.
pub open spec fn repeated_before(list: Seq<ClashableKind>, c: ClashableKind, upto: int) -> bool {
    exists|a: int, b: int| 0 <= a < upto && a < b < list.len() && #[trigger] list[a] == c && #[trigger] list[b] == c
}

/// `true` when `list[from..]` holds `c`.
fn contains_from(list: &[ClashableKind], from: usize, c: &ClashableKind) -> (r: bool)
    requires
        from <= list@.len(),
    ensures
        r == exists|b: int| from <= b < list@.len() && list@[b] == *c,
{
    let mut i = from;
    while i < list.len()
        invariant
            from <= i <= list@.len(),
            forall|b: int| from <= b < i ==> list@[b] != *c,
        decreases list@.len() - i,
    {
        if list[i].same(c) {
            return true;
        }
        i = i + 1;
    }
    false
}

impl ClashHandler {
    pub closed spec fn frame_spec(&self) -> usize {
        self.frame
    }

    pub closed spec fn states(&self) -> Map<ClashableKind, ClashState> {
        clash_states(self.clashables)
    }

    pub closed spec fn settings_spec(&self) -> ClashSettings {
        self.settings
    }

    pub closed spec fn should_rescan_spec(&self) -> bool {
        self.should_rescan
    }

    /// A handler with no clashing inputs that buffers clashes for ten milliseconds and asks for a
    /// scan of the bindings.
    pub fn new() -> (r: Self)
        ensures
            r.frame_spec() == 0,
            r.states().dom().is_empty(),
            r.settings_spec() == ClashSettings::Buffered(Some(Duration::from_millis_spec(10))),
            r.should_rescan_spec(),
    {
        ClashHandler {
            frame: 0,
            clashables: clash_map_new(),
            settings: ClashSettings::Buffered(Some(Duration::from_millis(10))),
            should_rescan: true,
        }
    }

    pub fn should_rescan(&self) -> (r: bool)
        ensures
            r == self.should_rescan_spec(),
    {
        self.should_rescan
    }

    pub fn signal_rescan(&mut self)
        ensures
            final(self).should_rescan_spec(),
            final(self).frame_spec() == old(self).frame_spec(),
            final(self).states() == old(self).states(),
            final(self).settings_spec() == old(self).settings_spec(),
    {
        self.should_rescan = true;
    }

    pub fn settings(&self) -> (r: &ClashSettings)
        ensures
            *r == self.settings_spec(),
    {
        &self.settings
    }

    /// Ends a frame: inputs not pressed during it go idle, buffered inputs whose delay has passed
    /// are released, and the frame counter moves on.
    pub fn tick_at(&mut self, now: Instant)
        requires
            old(self).frame_spec() < usize::MAX,
        ensures
            final(self).frame_spec() == old(self).frame_spec() + 1,
            ticked_all(old(self).states(), final(self).states(), old(self).frame_spec(), old(self).settings_spec(), now),
            final(self).settings_spec() == old(self).settings_spec(),
            final(self).should_rescan_spec() == old(self).should_rescan_spec(),
            final(self).states().dom() == old(self).states().dom(),
    {
        let keys = clash_map_keys(&self.clashables);
        let ghost old_states = clash_states(self.clashables);
        let mut i: usize = 0;
        while i < keys.len()
            invariant
                i <= keys@.len(),
                keys@.no_duplicates(),
                keys@.to_set() == old_states.dom(),
                self.frame == old(self).frame,
                self.settings == old(self).settings,
                self.should_rescan == old(self).should_rescan,
                old_states == old(self).states(),
                clash_states(self.clashables).dom() == old_states.dom(),
                forall|j: int|
                    0 <= j < i ==> clash_ticked_at(
                        old_states[keys@[j]],
                        #[trigger] clash_states(self.clashables)[keys@[j]],
                        self.frame,
                        self.settings,
                        now,
                    ),
                forall|j: int|
                    i <= j < keys@.len() ==> #[trigger] clash_states(self.clashables)[keys@[j]] == old_states[keys@[j]],
            decreases keys@.len() - i,
        {
            let k = keys[i];
            assert(keys@.to_set().contains(keys@[i as int]));
            let state = clash_map_get(&self.clashables, &k).unwrap();
            let ghost buffered_span: nat = buffered_for(state.kind, now);
            let kind = if state.frame != self.frame {
                ClashStateKind::Idle
            } else {
                match (self.settings, state.kind) {
                    (ClashSettings::Buffered(Some(d)), ClashStateKind::Buffered(start, len)) => {
                        let elapsed = now.duration_since(&start);
                        if elapsed.as_nanos() >= d.as_nanos() {
                            ClashStateKind::Released(len)
                        } else {
                            state.kind
                        }
                    },
                    _ => state.kind,
                }
            };
            let next = ClashState { kind, ..state };
            assert(next == ClashState {
                kind: clash_ticked_kind(state.kind, state.frame == self.frame, self.settings, buffered_span),
                ..state
            });
            clash_map_insert(&mut self.clashables, k, next);
            proof {
                assert forall|j: int| 0 <= j < i + 1 implies clash_ticked_at(
                    old_states[keys@[j]],
                    #[trigger] clash_states(self.clashables)[keys@[j]],
                    self.frame,
                    self.settings,
                    now,
                ) by {
                    if j == i {
                        assert(clash_states(self.clashables)[keys@[j]] == ClashState {
                            kind: clash_ticked_kind(old_states[keys@[j]].kind, old_states[keys@[j]].frame == self.frame, self.settings, buffered_span),
                            ..old_states[keys@[j]]
                        });
                    } else {
                        assert(keys@[j] != keys@[i as int]);
                    }
                }
                assert forall|j: int| i + 1 <= j < keys@.len() implies #[trigger] clash_states(self.clashables)[keys@[j]]
                    == old_states[keys@[j]] by {
                    assert(keys@[j] != keys@[i as int]);
                }
            }
            i = i + 1;
        }
        proof {
            assert forall|k: ClashableKind| #[trigger] clash_states(self.clashables).contains_key(k) implies clash_ticked_at(
                old_states[k],
                clash_states(self.clashables)[k],
                old(self).frame,
                old(self).settings,
                now,
            ) by {
                assert(keys@.to_set().contains(k));
                let j = choose|j: int| 0 <= j < keys@.len() && keys@[j] == k;
                assert(clash_ticked_at(old_states[keys@[j]], clash_states(self.clashables)[keys@[j]], self.frame, self.settings, now));
            }
        }
        self.frame = self.frame + 1;
    }

    /// Ends a frame at the current point in time, as [`Self::tick_at`] does for that reading.
    pub fn tick(&mut self)
        requires
            old(self).frame_spec() < usize::MAX,
        ensures
            final(self).frame_spec() == old(self).frame_spec() + 1,
            final(self).settings_spec() == old(self).settings_spec(),
            final(self).should_rescan_spec() == old(self).should_rescan_spec(),
            final(self).states().dom() == old(self).states().dom(),
            exists|now: Instant| #[trigger] ticked_all(old(self).states(), final(self).states(), old(self).frame_spec(), old(self).settings_spec(), now),
    {
        let now = Instant::now();
        self.tick_at(now);
    }

    /// Rebuilds the clash list from the inputs of all bindings: an input that two bindings
    /// share is clashable and starts idle, every other input is dropped.
    pub fn update_clash_list(&mut self, clashables: &[ClashableKind])
        ensures
            final(self).frame_spec() == old(self).frame_spec(),
            final(self).settings_spec() == old(self).settings_spec(),
            final(self).should_rescan_spec() == old(self).should_rescan_spec(),
            forall|c: ClashableKind|
                #[trigger] final(self).states().contains_key(c) <==> repeated_before(clashables@, c, clashables@.len() as int),
            forall|c: ClashableKind|
                #[trigger] final(self).states().contains_key(c) ==> final(self).states()[c] == (ClashState {
                    frame: old(self).frame_spec(),
                    kind: ClashStateKind::Idle,
                }),
    {
        clash_map_clear(&mut self.clashables);
        let len = clashables.len();
        let mut i: usize = 0;
        while i < len
            invariant
                len == clashables@.len(),
                i <= len,
                self.frame == old(self).frame,
                self.settings == old(self).settings,
                self.should_rescan == old(self).should_rescan,
                forall|c: ClashableKind|
                    #[trigger] clash_states(self.clashables).contains_key(c) <==> repeated_before(clashables@, c, i as int),
                forall|c: ClashableKind|
                    #[trigger] clash_states(self.clashables).contains_key(c) ==> clash_states(self.clashables)[c] == (ClashState {
                        frame: self.frame,
                        kind: ClashStateKind::Idle,
                    }),
            decreases len - i,
        {
            let c = clashables[i];
            let again = i + 1 < len && contains_from(clashables, i + 1, &c);
            if again {
                match clash_map_get(&self.clashables, &c) {
                    Some(_) => {},
                    None => {
                        clash_map_insert(&mut self.clashables, c, ClashState { frame: self.frame, kind: ClashStateKind::Idle });
                    },
                }
            }
            proof {
                assert forall|x: ClashableKind| #[trigger] clash_states(self.clashables).contains_key(x) <==> repeated_before(
                    clashables@,
                    x,
                    i + 1,
                ) by {
                    if repeated_before(clashables@, x, i + 1) && !repeated_before(clashables@, x, i as int) {
                        let (a, b) = choose|a: int, b: int|
                            0 <= a < i + 1 && a < b < clashables@.len() && #[trigger] clashables@[a] == x
                                && #[trigger] clashables@[b] == x;
                        assert(a == i);
                        assert(again);
                    }
                    if again && x == c {
                        let b = choose|b: int| i + 1 <= b < clashables@.len() && clashables@[b] == c;
                        assert(clashables@[i as int] == c);
                        assert(repeated_before(clashables@, x, i + 1));
                    }
                    if repeated_before(clashables@, x, i as int) {
                        let (a, b) = choose|a: int, b: int|
                            0 <= a < i && a < b < clashables@.len() && #[trigger] clashables@[a] == x
                                && #[trigger] clashables@[b] == x;
                        assert(repeated_before(clashables@, x, i + 1));
                    }
                }
            }
            i = i + 1;
        }
    }

    /// returns the new value to use for pressed.
    ///
    /// when dealing with axis `pressed` should be `false` when zero and `true` otherwise. and a return
    /// of `true` means use the value, `false` means use zero.
    ///
    /// `now` is the clock reading at which an idle input that is pressed starts buffering.
    pub fn poll_clash_at(&mut self, clashable: &ClashableKind, chord_length: usize, pressed: bool, now: Instant) -> (r: bool)
        ensures
            final(self).frame_spec() == old(self).frame_spec(),
            final(self).settings_spec() == old(self).settings_spec(),
            final(self).should_rescan_spec() == old(self).should_rescan_spec(),
            !old(self).states().contains_key(*clashable) ==> r == pressed && final(self).states() == old(self).states(),
            old(self).states().contains_key(*clashable) ==> clash_poll_outcome(
                old(self).states(),
                final(self).states(),
                *clashable,
                old(self).frame_spec(),
                old(self).settings_spec(),
                chord_length,
                pressed,
                r,
                now,
            ),
    {
        match clash_map_get(&self.clashables, clashable) {
            Some(state) => {
                let fresh = now;
                let kind = if pressed {
                    match state.kind {
                        ClashStateKind::Idle => match self.settings {
                            ClashSettings::Sorted => ClashStateKind::clashing(chord_length),
                            ClashSettings::Buffered(_) => ClashStateKind::buffered_with_instant(chord_length, fresh),
                        },
                        ClashStateKind::Clashing(len) => if chord_length > len {
                            ClashStateKind::clashing(chord_length)
                        } else {
                            state.kind
                        },
                        ClashStateKind::Buffered(instant, len) => if chord_length > len {
                            ClashStateKind::buffered_with_instant(chord_length, instant)
                        } else {
                            state.kind
                        },
                        ClashStateKind::Released(len) => if chord_length > len {
                            ClashStateKind::released(chord_length)
                        } else {
                            state.kind
                        },
                    }
                } else {
                    match state.kind {
                        ClashStateKind::Idle => state.kind,
                        ClashStateKind::Clashing(_) => ClashStateKind::none(),
                        ClashStateKind::Buffered(_, len) => ClashStateKind::released(len),
                        ClashStateKind::Released(_) => state.kind,
                    }
                };
                let next = ClashState { frame: if pressed { self.frame } else { state.frame }, kind };
                clash_map_insert(&mut self.clashables, *clashable, next);
                let r = kind.allowed_to_take_input(chord_length);
                assert(kind == clash_polled_kind(state.kind, self.settings, chord_length, pressed, fresh));
                assert(clash_poll_outcome(
                    old(self).states(),
                    self.states(),
                    *clashable,
                    old(self).frame_spec(),
                    old(self).settings_spec(),
                    chord_length,
                    pressed,
                    r,
                    fresh,
                ));
                r
            },
            None => pressed,
        }
    }

    /// returns the new value to use for pressed.
    ///
    /// when dealing with axis `pressed` should be `false` when zero and `true` otherwise. and a return
    /// of `true` means use the value, `false` means use zero.
    pub fn poll_clash(&mut self, clashable: &ClashableKind, chord_length: usize, pressed: bool) -> (r: bool)
        ensures
            final(self).frame_spec() == old(self).frame_spec(),
            final(self).settings_spec() == old(self).settings_spec(),
            final(self).should_rescan_spec() == old(self).should_rescan_spec(),
            !old(self).states().contains_key(*clashable) ==> r == pressed && final(self).states() == old(self).states(),
            old(self).states().contains_key(*clashable) ==> exists|now: Instant|
                #[trigger] clash_poll_outcome(
                    old(self).states(),
                    final(self).states(),
                    *clashable,
                    old(self).frame_spec(),
                    old(self).settings_spec(),
                    chord_length,
                    pressed,
                    r,
                    now,
                ),
    {
        let now = Instant::now();
        self.poll_clash_at(clashable, chord_length, pressed, now)
    }
}

impl Default for ClashHandler {
    fn default() -> (r: Self)
        ensures
            r.frame_spec() == 0,
            r.states().dom().is_empty(),
            r.settings_spec() == ClashSettings::Buffered(Some(Duration::from_millis_spec(10))),
            r.should_rescan_spec(),
    {
        ClashHandler::new()
    }
}

/// With buffered clash settings an idle input is held back from every chord in the poll that
/// first finds it pressed.
pub proof fn lemma_buffered_holds_back_first_press(delay: Option<Duration>, chord_length: usize, fresh: Instant)
    ensures
        !clash_polled_kind(ClashStateKind::Idle, ClashSettings::Buffered(delay), chord_length, true, fresh).allows(
            chord_length,
        ),
{
}

/// An input claimed by a longer chord is not shown to a shorter chord that polls it while it
/// stays pressed.
pub proof fn lemma_longer_chord_keeps_input(
    kind: ClashStateKind,
    settings: ClashSettings,
    chord_length: usize,
    fresh: Instant,
)
    requires
        kind is Clashing || kind is Released,
        kind is Clashing ==> chord_length < kind->Clashing_0,
        kind is Released ==> chord_length < kind->Released_0,
    ensures
        clash_polled_kind(kind, settings, chord_length, true, fresh) == kind,
        !kind.allows(chord_length),
{
}

/// A released press ends a clash: an input that is no longer pressed is open to every chord,
/// unless a buffering was cut short, which releases it to the longest chord seen.
pub proof fn lemma_release_ends_clash(kind: ClashStateKind, settings: ClashSettings, chord_length: usize, fresh: Instant)
    requires
        !(kind is Buffered),
        !(kind is Released),
    ensures
        clash_polled_kind(kind, settings, chord_length, false, fresh) == ClashStateKind::Idle,
{
}


/// With a buffering delay, an input polled this frame is released by `tick` exactly when the
/// delay has passed since its buffering started, at the clock reading of the tick; until then it
/// stays buffered with the same start.
pub proof fn lemma_tick_releases_after_delay(
    prev: ClashState,
    next: ClashState,
    frame: usize,
    delay: Duration,
    now: Instant,
)
    requires
        clash_ticked_at(prev, next, frame, ClashSettings::Buffered(Some(delay)), now),
        prev.frame == frame,
        prev.kind is Buffered,
    ensures
        span_between(prev.kind->Buffered_0@, now@) >= delay@ ==> next.kind == ClashStateKind::Released(prev.kind->Buffered_1),
        span_between(prev.kind->Buffered_0@, now@) < delay@ ==> next.kind == prev.kind,
{
}


/// A poll of a registered input by a chord of `chord_length` inputs. Pressed, the input records
/// the longer of its chord length and this chord's, so the longest chord that asked for it
/// during the frame is the one that sees it, whatever the order of the polls: a clashing or
/// released input is shown only to a chord of that longest length, a buffered input keeps its
/// start and is shown to nobody, and an idle input either starts clashing for this chord and is
/// shown to it (sorted) or starts buffering at `fresh` and is held back (buffered). Let go, a
/// buffered input is released to its chord, a clash ends, and the frame stays. Every other
/// input is untouched.
pub proof fn lemma_poll_keeps_longest_chord(
    before: Map<ClashableKind, ClashState>,
    after: Map<ClashableKind, ClashState>,
    k: ClashableKind,
    frame: usize,
    settings: ClashSettings,
    chord_length: usize,
    pressed: bool,
    allowed: bool,
    fresh: Instant,
)
    requires
        before.contains_key(k),
        clash_poll_outcome(before, after, k, frame, settings, chord_length, pressed, allowed, fresh),
    ensures
        after.dom() == before.dom(),
        forall|x: ClashableKind| x != k && #[trigger] before.contains_key(x) ==> after[x] == before[x],
        pressed ==> after[k].frame == frame,
        !pressed ==> after[k].frame == before[k].frame,
        pressed ==> match before[k].kind {
            ClashStateKind::Buffered(start, len) => {
                &&& after[k].kind == ClashStateKind::Buffered(start, if chord_length > len { chord_length } else { len })
                &&& !allowed
            },
            ClashStateKind::Clashing(len) => {
                let longest = if chord_length > len { chord_length } else { len };
                &&& after[k].kind == ClashStateKind::Clashing(longest)
                &&& allowed == (chord_length == longest)
            },
            ClashStateKind::Released(len) => {
                let longest = if chord_length > len { chord_length } else { len };
                &&& after[k].kind == ClashStateKind::Released(longest)
                &&& allowed == (chord_length == longest)
            },
            ClashStateKind::Idle => match settings {
                ClashSettings::Sorted => after[k].kind == ClashStateKind::Clashing(chord_length) && allowed,
                ClashSettings::Buffered(_) => after[k].kind == ClashStateKind::Buffered(fresh, chord_length) && !allowed,
            },
        },
        !pressed ==> match before[k].kind {
            ClashStateKind::Buffered(_, len) => after[k].kind == ClashStateKind::Released(len) && allowed == (chord_length == len),
            ClashStateKind::Clashing(_) => after[k].kind is Idle && allowed,
            _ => after[k].kind == before[k].kind,
        },
{
    assert(after.dom() =~= before.dom());
}


/// `tick` changes only the kind of an input: an input no chord pressed during the frame goes
/// idle, and a polled input that is not buffered, or buffered without a delay, keeps its kind.
pub proof fn lemma_tick_idles_unpolled(prev: ClashState, next: ClashState, frame: usize, settings: ClashSettings, now: Instant)
    requires
        clash_ticked_at(prev, next, frame, settings, now),
    ensures
        next.frame == prev.frame,
        prev.frame != frame ==> next.kind is Idle,
        prev.frame == frame && !(prev.kind is Buffered) ==> next.kind == prev.kind,
        prev.frame == frame && settings == ClashSettings::Buffered(None) ==> next.kind == prev.kind,
        prev.frame == frame && settings is Sorted ==> next.kind == prev.kind,
{
}

} // verus!
