//! The decisions of the system that gathers inputs for action bindings each frame: every button
//! binding of an action polls its inputs, and the bindings told to look again do so once every
//! binding has polled.
use vstd::prelude::*;

use crate::button::ButtonBinding;
use crate::manager::{poll_effect, repoll_value, ClashSettings, ClashStrategy, InputHandler, InputState};
use crate::time::Instant;
use crate::{BevyInputKind, InputValue};

verus! {

/// What `InputHandler::poll` does on `chord`, for the point in time `now` the poll starts at and
/// the starts `fresh` of the bufferings it begins.
pub open spec fn poll_step(
    states: Map<BevyInputKind, InputState>,
    chord: Seq<BevyInputKind>,
    frame: usize,
    strat: ClashStrategy,
    now: Instant,
    fresh: Seq<Instant>,
) -> (Map<BevyInputKind, InputState>, Option<InputValue>) {
    if chord.len() == 0 {
        (states, Some(InputValue::Pressed(false)))
    } else {
        poll_effect(states, chord, frame, strat, now, fresh)
    }
}

/// The polls of the first `i` bindings of an action, in turn, and what each returns.
pub open spec fn poll_bindings(
    states: Map<BevyInputKind, InputState>,
    bindings: Seq<ButtonBinding>,
    frame: usize,
    strat: ClashStrategy,
    nows: Seq<Instant>,
    freshes: Seq<Seq<Instant>>,
    i: nat,
) -> (Map<BevyInputKind, InputState>, Seq<Option<InputValue>>)
    decreases i,
{
    if i == 0 {
        (states, Seq::empty())
    } else {
        let (m, results) = poll_bindings(states, bindings, frame, strat, nows, freshes, (i - 1) as nat);
        let (m2, r) = poll_step(m, bindings[i - 1].kinds_spec(), frame, strat, nows[i - 1], freshes[i - 1]);
        (m2, results.push(r))
    }
}

/// The indexes of the polls that asked for a second look, in order.
pub open spec fn repoll_indexes(results: Seq<Option<InputValue>>) -> Seq<usize>
    decreases results.len(),
{
    if results.len() == 0 {
        Seq::empty()
    } else {
        let before = repoll_indexes(results.drop_last());
        if results.last() is None {
            before.push((results.len() - 1) as usize)
        } else {
            before
        }
    }
}

/// Whether a poll showed its binding pressed.
pub open spec fn shows_pressed(result: Option<InputValue>) -> bool {
    result matches Some(v) && v.pressed_spec()
}

/// Whether some poll showed its binding pressed.
pub open spec fn any_pressed(results: Seq<Option<InputValue>>) -> bool {
    exists|i: int| 0 <= i < results.len() && shows_pressed(#[trigger] results[i])
}

/// Whether polling `bindings` in turn, the poll of binding `i` starting at `nows[i]` and
/// beginning its bufferings at `freshes[i]`, takes the states `before` to `after`, and reports
/// `pressed` (the action is mocked or some binding sees its inputs pressed) and the bindings
/// `repoll` that must look again.
pub open spec fn action_polled_with(
    before: Map<BevyInputKind, InputState>,
    after: Map<BevyInputKind, InputState>,
    bindings: Seq<ButtonBinding>,
    frame: usize,
    strat: ClashStrategy,
    mocked: bool,
    pressed: bool,
    repoll: Seq<usize>,
    nows: Seq<Instant>,
    freshes: Seq<Seq<Instant>>,
) -> bool {
    let (m, results) = poll_bindings(before, bindings, frame, strat, nows, freshes, bindings.len());
    &&& nows.len() == bindings.len()
    &&& freshes.len() == bindings.len()
    &&& forall|i: int| 0 <= i < bindings.len() ==> (#[trigger] freshes[i]).len() == bindings[i].kinds_spec().len()
    &&& m == after
    &&& pressed == (mocked || any_pressed(results))
    &&& repoll == repoll_indexes(results)
}

/// Whether polling `bindings` in turn can take the states `before` to `after`, and report
/// `pressed` and `repoll`, for some clock readings of the polls.
pub open spec fn action_polled(
    before: Map<BevyInputKind, InputState>,
    after: Map<BevyInputKind, InputState>,
    bindings: Seq<ButtonBinding>,
    frame: usize,
    strat: ClashStrategy,
    mocked: bool,
    pressed: bool,
    repoll: Seq<usize>,
) -> bool {
    exists|nows: Seq<Instant>, freshes: Seq<Seq<Instant>>|
        #[trigger] action_polled_with(before, after, bindings, frame, strat, mocked, pressed, repoll, nows, freshes)
}

/// Whether polling `bindings` in turn, every poll at the one clock reading `now`, takes the
/// states `before` to `after`, and reports `pressed` and `repoll`.
pub open spec fn action_polled_at(
    before: Map<BevyInputKind, InputState>,
    after: Map<BevyInputKind, InputState>,
    bindings: Seq<ButtonBinding>,
    frame: usize,
    strat: ClashStrategy,
    mocked: bool,
    pressed: bool,
    repoll: Seq<usize>,
    now: Instant,
) -> bool {
    action_polled_with(
        before,
        after,
        bindings,
        frame,
        strat,
        mocked,
        pressed,
        repoll,
        Seq::new(bindings.len(), |i: int| now),
        Seq::new(bindings.len(), |i: int| Seq::new(bindings[i].kinds_spec().len(), |j: int| now)),
    )
}

/// Polls every button binding of an action on `handler`, in order: the action is pressed when
/// it is mocked or some binding sees its inputs pressed, and the bindings told to look again are
/// listed by index.
///
/// Every poll reads the clock reading `now`.
pub fn poll_action_bindings_at(
    handler: &mut InputHandler,
    bindings: &[ButtonBinding],
    mocked: bool,
    clash_settings: &ClashSettings,
    now: Instant,
) -> (r: (bool, Vec<usize>))
    ensures
        final(handler).frame_spec() == old(handler).frame_spec(),
        action_polled_at(
            old(handler).states(),
            final(handler).states(),
            bindings@,
            old(handler).frame_spec(),
            clash_settings.strategy_spec(),
            mocked,
            r.0,
            r.1@,
            now,
        ),
{
    let ghost strat = clash_settings.strategy_spec();
    let ghost frame = handler.frame_spec();
    let ghost before = handler.states();
    let ghost mut nows: Seq<Instant> = Seq::empty();
    let ghost mut freshes: Seq<Seq<Instant>> = Seq::empty();
    let ghost mut results: Seq<Option<InputValue>> = Seq::empty();
    let mut pressed = mocked;
    let mut repoll: Vec<usize> = Vec::new();
    let mut i: usize = 0;
    while i < bindings.len()
        invariant
            i <= bindings@.len(),
            handler.frame_spec() == frame,
            frame == old(handler).frame_spec(),
            before == old(handler).states(),
            strat == clash_settings.strategy_spec(),
            nows.len() == i,
            freshes.len() == i,
            forall|j: int| 0 <= j < i ==> (#[trigger] freshes[j]).len() == bindings@[j].kinds_spec().len(),
            forall|j: int| 0 <= j < i ==> #[trigger] nows[j] == now,
            forall|j: int|
                0 <= j < i ==> #[trigger] freshes[j] == Seq::new(bindings@[j].kinds_spec().len(), |k: int| now),
            (handler.states(), results) == poll_bindings(before, bindings@, frame, strat, nows, freshes, i as nat),
            pressed == (mocked || any_pressed(results)),
            repoll@ == repoll_indexes(results),
            results.len() == i,
        decreases bindings@.len() - i,
    {
        let kinds = bindings[i].input_kinds();
        let ghost mid = handler.states();
        let v = handler.poll_at(kinds.as_slice(), clash_settings, now);
        let ghost fresh = Seq::new(kinds@.len(), |k: int| now);
        match v {
            Some(p) => {
                if p.is_pressed() {
                    pressed = true;
                }
            },
            None => {
                repoll.push(i);
            },
        }
        proof {
            let nows2 = nows.push(now);
            let freshes2 = freshes.push(fresh);
            let results2 = results.push(v);
            assert(nows2.subrange(0, i as int) == nows);
            assert(poll_bindings(before, bindings@, frame, strat, nows2, freshes2, i as nat) == poll_bindings(
                before,
                bindings@,
                frame,
                strat,
                nows,
                freshes,
                i as nat,
            )) by {
                lemma_poll_bindings_prefix(before, bindings@, frame, strat, nows, freshes, nows2, freshes2, i as nat);
            }
            assert(results2.drop_last() == results);
            if shows_pressed(v) {
                assert(results2[i as int] == v);
            }
            if any_pressed(results) {
                let j = choose|j: int| 0 <= j < results.len() && shows_pressed(#[trigger] results[j]);
                assert(results2[j] == results[j]);
            }
            if any_pressed(results2) && !shows_pressed(v) {
                let j = choose|j: int| 0 <= j < results2.len() && shows_pressed(#[trigger] results2[j]);
                assert(j < i);
                assert(results[j] == results2[j]);
            }
            nows = nows2;
            freshes = freshes2;
            results = results2;
        }
        i = i + 1;
    }
    assert(nows =~= Seq::new(bindings@.len(), |j: int| now));
    assert(freshes =~= Seq::new(bindings@.len(), |j: int| Seq::new(bindings@[j].kinds_spec().len(), |k: int| now)));
    (pressed, repoll)
}

/// Polls every button binding of an action on `handler`, in order: the action is pressed when
/// it is mocked or some binding sees its inputs pressed, and the bindings told to look again are
/// listed by index.
pub fn poll_action_bindings(
    handler: &mut InputHandler,
    bindings: &[ButtonBinding],
    mocked: bool,
    clash_settings: &ClashSettings,
) -> (r: (bool, Vec<usize>))
    ensures
        final(handler).frame_spec() == old(handler).frame_spec(),
        action_polled(
            old(handler).states(),
            final(handler).states(),
            bindings@,
            old(handler).frame_spec(),
            clash_settings.strategy_spec(),
            mocked,
            r.0,
            r.1@,
        ),
{
    let now = Instant::now();
    poll_action_bindings_at(handler, bindings, mocked, clash_settings, now)
}

/// Polls of the first `i` bindings only read the first `i` points in time and buffering starts.
proof fn lemma_poll_bindings_prefix(
    states: Map<BevyInputKind, InputState>,
    bindings: Seq<ButtonBinding>,
    frame: usize,
    strat: ClashStrategy,
    nows: Seq<Instant>,
    freshes: Seq<Seq<Instant>>,
    nows2: Seq<Instant>,
    freshes2: Seq<Seq<Instant>>,
    i: nat,
)
    requires
        i <= nows.len(),
        i <= freshes.len(),
        i <= nows2.len(),
        i <= freshes2.len(),
        forall|j: int| 0 <= j < i ==> nows[j] == nows2[j],
        forall|j: int| 0 <= j < i ==> freshes[j] == freshes2[j],
    ensures
        poll_bindings(states, bindings, frame, strat, nows, freshes, i) == poll_bindings(
            states,
            bindings,
            frame,
            strat,
            nows2,
            freshes2,
            i,
        ),
    decreases i,
{
    if i > 0 {
        lemma_poll_bindings_prefix(states, bindings, frame, strat, nows, freshes, nows2, freshes2, (i - 1) as nat);
    }
}

/// Whether a second look at some of the bindings listed in `indexes` sees its inputs pressed.
pub open spec fn any_repolled_pressed(
    states: Map<BevyInputKind, InputState>,
    bindings: Seq<ButtonBinding>,
    indexes: Seq<usize>,
) -> bool {
    exists|i: int|
        0 <= i < indexes.len() && repoll_value(states, bindings[#[trigger] indexes[i] as int].kinds_spec()).pressed_spec()
}

/// Looks again at the bindings of an action listed in `indexes`, once every binding has
/// polled: the action is pressed when one of them sees its inputs pressed.
pub fn repoll_action_bindings(handler: &InputHandler, bindings: &[ButtonBinding], indexes: &[usize]) -> (r: bool)
    requires
        forall|i: int| 0 <= i < indexes@.len() ==> (#[trigger] indexes@[i]) < bindings@.len(),
    ensures
        r == any_repolled_pressed(handler.states(), bindings@, indexes@),
{
    let mut pressed = false;
    let mut i: usize = 0;
    while i < indexes.len()
        invariant
            i <= indexes@.len(),
            forall|j: int| 0 <= j < indexes@.len() ==> (#[trigger] indexes@[j]) < bindings@.len(),
            pressed == any_repolled_pressed(handler.states(), bindings@, indexes@.subrange(0, i as int)),
        decreases indexes@.len() - i,
    {
        let index = indexes[i];
        let kinds = bindings[index].input_kinds();
        let v = handler.repoll(kinds.as_slice());
        let p = v.is_pressed();
        proof {
            let before = indexes@.subrange(0, i as int);
            let after = indexes@.subrange(0, i + 1);
            assert(after[i as int] == index);
            if p {
                assert(repoll_value(handler.states(), bindings@[after[i as int] as int].kinds_spec()).pressed_spec());
            }
            if any_repolled_pressed(handler.states(), bindings@, before) {
                let j = choose|j: int|
                    0 <= j < before.len() && repoll_value(handler.states(), bindings@[#[trigger] before[j] as int].kinds_spec()).pressed_spec();
                assert(after[j] == before[j]);
            }
            if any_repolled_pressed(handler.states(), bindings@, after) && !p {
                let j = choose|j: int|
                    0 <= j < after.len() && repoll_value(handler.states(), bindings@[#[trigger] after[j] as int].kinds_spec()).pressed_spec();
                assert(j < i);
                assert(after[j] == before[j]);
            }
        }
        pressed = pressed || p;
        i = i + 1;
    }
    assert(indexes@.subrange(0, indexes@.len() as int) == indexes@);
    pressed
}


/// Polling the first `i` bindings gives one result per binding.
proof fn lemma_poll_bindings_len(
    states: Map<BevyInputKind, InputState>,
    bindings: Seq<ButtonBinding>,
    frame: usize,
    strat: ClashStrategy,
    nows: Seq<Instant>,
    freshes: Seq<Seq<Instant>>,
    i: nat,
)
    ensures
        poll_bindings(states, bindings, frame, strat, nows, freshes, i).1.len() == i,
    decreases i,
{
    if i > 0 {
        lemma_poll_bindings_len(states, bindings, frame, strat, nows, freshes, (i - 1) as nat);
    }
}

/// The indexes asked to look again are exactly those of the polls that returned `None`, in
/// increasing order.
proof fn lemma_repoll_indexes_are_the_unanswered(results: Seq<Option<InputValue>>)
    requires
        results.len() <= usize::MAX + 1,
    ensures
        forall|x: usize| #[trigger] repoll_indexes(results).contains(x) <==> (x < results.len() && results[x as int] is None),
        forall|a: int, b: int|
            0 <= a < b < repoll_indexes(results).len() ==> #[trigger] repoll_indexes(results)[a]
                < #[trigger] repoll_indexes(results)[b],
        forall|a: int| 0 <= a < repoll_indexes(results).len() ==> #[trigger] repoll_indexes(results)[a] < results.len(),
    decreases results.len(),
{
    if results.len() > 0 {
        let prev = results.drop_last();
        lemma_repoll_indexes_are_the_unanswered(prev);
        let r = repoll_indexes(results);
        let p = repoll_indexes(prev);
        assert forall|x: usize| #[trigger] r.contains(x) <==> (x < results.len() && results[x as int] is None) by {
            if results.last() is None {
                assert(r == p.push((results.len() - 1) as usize));
                if r.contains(x) {
                    let w = choose|w: int| 0 <= w < r.len() && r[w] == x;
                    if w < p.len() {
                        assert(p.contains(x));
                    }
                }
                if x < results.len() && results[x as int] is None {
                    if x == results.len() - 1 {
                        assert(r[p.len() as int] == x);
                    } else {
                        assert(prev[x as int] == results[x as int]);
                        assert(p.contains(x));
                        let w = choose|w: int| 0 <= w < p.len() && p[w] == x;
                        assert(r[w] == x);
                    }
                }
            } else {
                assert(r == p);
                if x < results.len() && results[x as int] is None {
                    assert(x != results.len() - 1);
                    assert(prev[x as int] == results[x as int]);
                }
                if p.contains(x) {
                    assert(prev[x as int] == results[x as int]);
                }
            }
        }
    }
}

/// The action is pressed exactly when it is mocked or the poll of some binding, any of them,
/// showed a pressed value; the bindings asked to look again are exactly those whose poll
/// returned `None`, each listed once, in increasing order.
pub proof fn lemma_action_pressed_when_any_binding_is(
    before: Map<BevyInputKind, InputState>,
    after: Map<BevyInputKind, InputState>,
    bindings: Seq<ButtonBinding>,
    frame: usize,
    strat: ClashStrategy,
    mocked: bool,
    pressed: bool,
    repoll: Seq<usize>,
    nows: Seq<Instant>,
    freshes: Seq<Seq<Instant>>,
)
    requires
        action_polled_with(before, after, bindings, frame, strat, mocked, pressed, repoll, nows, freshes),
        bindings.len() <= usize::MAX,
    ensures
        ({
            let results = poll_bindings(before, bindings, frame, strat, nows, freshes, bindings.len()).1;
            &&& results.len() == bindings.len()
            &&& pressed == (mocked || exists|i: int|
                0 <= i < bindings.len() && (#[trigger] results[i] matches Some(v) && v.pressed_spec()))
            &&& forall|x: usize| #[trigger] repoll.contains(x) <==> (x < bindings.len() && results[x as int] is None)
            &&& forall|a: int, b: int| 0 <= a < b < repoll.len() ==> #[trigger] repoll[a] < #[trigger] repoll[b]
        }),
{
    lemma_poll_bindings_len(before, bindings, frame, strat, nows, freshes, bindings.len());
    let results = poll_bindings(before, bindings, frame, strat, nows, freshes, bindings.len()).1;
    lemma_repoll_indexes_are_the_unanswered(results);
    if any_pressed(results) {
        let w = choose|w: int| 0 <= w < results.len() && shows_pressed(#[trigger] results[w]);
        assert(results[w] matches Some(v) && v.pressed_spec());
    }
    if exists|i: int| 0 <= i < bindings.len() && (#[trigger] results[i] matches Some(v) && v.pressed_spec()) {
        let w = choose|i: int| 0 <= i < bindings.len() && (#[trigger] results[i] matches Some(v) && v.pressed_spec());
        assert(shows_pressed(results[w]));
    }
}


/// Looking again at one more binding makes the action pressed when that binding sees its
/// inputs pressed, and keeps it pressed when an earlier one did: the second look is pressed
/// when any of the listed bindings is.
pub proof fn lemma_repoll_pressed_when_any_is(
    states: Map<BevyInputKind, InputState>,
    bindings: Seq<ButtonBinding>,
    indexes: Seq<usize>,
    x: usize,
)
    ensures
        any_repolled_pressed(states, bindings, indexes.push(x)) == (any_repolled_pressed(states, bindings, indexes)
            || repoll_value(states, bindings[x as int].kinds_spec()).pressed_spec()),
        any_repolled_pressed(states, bindings, Seq::empty()) == false,
{
    let ext = indexes.push(x);
    if any_repolled_pressed(states, bindings, indexes) {
        let w = choose|i: int|
            0 <= i < indexes.len() && repoll_value(states, bindings[#[trigger] indexes[i] as int].kinds_spec()).pressed_spec();
        assert(ext[w] == indexes[w]);
    }
    if repoll_value(states, bindings[x as int].kinds_spec()).pressed_spec() {
        assert(ext[indexes.len() as int] == x);
    }
    if any_repolled_pressed(states, bindings, ext) {
        let w = choose|i: int|
            0 <= i < ext.len() && repoll_value(states, bindings[#[trigger] ext[i] as int].kinds_spec()).pressed_spec();
        if w < indexes.len() {
            assert(ext[w] == indexes[w]);
        }
    }
}

} // verus!
