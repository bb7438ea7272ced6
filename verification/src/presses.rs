//! What the gesture classifier gives for whole presses: short presses,
//! runs of clicks and holds.
//!
//! Every statement here is about [`run`], which is what
//! [`Classifier::feed`](crate::classifier::Classifier::feed) computes.

use vstd::prelude::*;
use crate::button::ID;
use crate::classifier::{run, ClassifierState, Sample};
use crate::gesture::{Gesture, RawLevel};
use crate::timing::Timing;

verus! {

/// The samples were read in order of time.
pub open spec fn in_order(samples: Seq<Sample>) -> bool {
    forall|i: int, j: int| 0 <= i <= j < samples.len() ==> samples[i].at <= samples[j].at
}

/// Every sample reads the given level.
pub open spec fn all_read(samples: Seq<Sample>, level: RawLevel) -> bool {
    forall|i: int| 0 <= i < samples.len() ==> (#[trigger] samples[i]).level == level
}

/// A press: one or more pressed samples and then a released one, read in
/// order of time.
pub open spec fn is_press(samples: Seq<Sample>) -> bool {
    &&& samples.len() >= 2
    &&& all_read(samples.drop_last(), RawLevel::Pressed)
    &&& samples.last().level is Released
    &&& in_order(samples)
}

/// How long a press lasted: from its first pressed sample to its release.
pub open spec fn press_duration(samples: Seq<Sample>) -> int {
    samples.last().at - samples[0].at
}

/// The reports of a hold in progress: one for each of the samples read
/// `threshold` or more after `since`, with the time since then.
pub open spec fn holding_reports(id: ID, threshold: u64, since: u64, samples: Seq<Sample>) -> Seq<
    Gesture,
>
    decreases samples.len(),
{
    if samples.len() == 0 {
        Seq::empty()
    } else {
        let earlier = holding_reports(id, threshold, since, samples.drop_last());
        let at = samples.last().at;
        if at - since >= threshold {
            earlier.push(Gesture::Holding(id, (at - since) as u64))
        } else {
            earlier
        }
    }
}

/// The classifier run over two stretches of samples, one after the other, is
/// the run over the first followed by the run over the second from where
/// the first ended.
pub proof fn lemma_run_concat(
    state: ClassifierState,
    id: ID,
    timing: Timing,
    first: Seq<Sample>,
    second: Seq<Sample>,
)
    ensures
        run(state, id, timing, first + second) == (
            run(run(state, id, timing, first).0, id, timing, second).0,
            run(state, id, timing, first).1 + run(
                run(state, id, timing, first).0,
                id,
                timing,
                second,
            ).1,
        ),
    decreases second.len(),
{
    if second.len() > 0 {
        assert((first + second).drop_last() == first + second.drop_last());
        lemma_run_concat(state, id, timing, first, second.drop_last());
    }
}

/// A single sample run from a state is one step of the classifier.
pub proof fn lemma_run_one(state: ClassifierState, id: ID, timing: Timing, sample: Sample)
    ensures
        run(state, id, timing, seq![sample]) == (
            state.next(timing, sample.level, sample.at),
            match state.emits(id, timing, sample.level, sample.at) {
                Some(g) => seq![g],
                None => Seq::empty(),
            },
        ),
{
    reveal_with_fuel(run, 2);
}

/// The classifier keeps its states well formed.
pub proof fn lemma_run_keeps_wf(
    state: ClassifierState,
    id: ID,
    timing: Timing,
    samples: Seq<Sample>,
)
    requires
        state.wf(),
    ensures
        run(state, id, timing, samples).0.wf(),
    decreases samples.len(),
{
    if samples.len() > 0 {
        lemma_run_keeps_wf(state, id, timing, samples.drop_last());
    }
}

/// While a channel rests released and no pending clicks fall due, nothing
/// is given and nothing changes.
proof fn lemma_rest(state: ClassifierState, id: ID, timing: Timing, samples: Seq<Sample>)
    requires
        state.wf(),
        state.level is Released,
        all_read(samples, RawLevel::Released),
        state.pending_clicks == 0 || forall|i: int|
            0 <= i < samples.len() ==> state.elapsed((#[trigger] samples[i]).at)
                < timing.multi_click_window,
    ensures
        run(state, id, timing, samples) == (state, Seq::<Gesture>::empty()),
    decreases samples.len(),
{
    if samples.len() > 0 {
        let earlier = samples.drop_last();
        assert(all_read(earlier, RawLevel::Released));
        if state.pending_clicks != 0 {
            assert forall|i: int| 0 <= i < earlier.len() implies state.elapsed(
                (#[trigger] earlier[i]).at,
            ) < timing.multi_click_window by {}
        }
        lemma_rest(state, id, timing, earlier);
    }
}

/// While a press is in progress and has not lasted the hold threshold,
/// nothing is given; the classifier remembers when the press began.
proof fn lemma_pressing(state: ClassifierState, id: ID, timing: Timing, samples: Seq<Sample>)
    requires
        state.level is Released,
        samples.len() >= 1,
        all_read(samples, RawLevel::Pressed),
        in_order(samples),
        state.pending_clicks == 0 || state.elapsed(samples[0].at) < timing.multi_click_window,
        samples.last().at - samples[0].at < timing.hold_threshold,
    ensures
        run(state, id, timing, samples) == (
            ClassifierState {
                level: RawLevel::Pressed,
                pending_clicks: state.pending_clicks,
                last_transition_time: samples[0].at,
                hold_active: false,
            },
            Seq::<Gesture>::empty(),
        ),
    decreases samples.len(),
{
    if samples.len() == 1 {
        assert(samples =~= seq![samples[0]]);
        lemma_run_one(state, id, timing, samples[0]);
    } else {
        let earlier = samples.drop_last();
        assert(all_read(earlier, RawLevel::Pressed));
        lemma_pressing(state, id, timing, earlier);
    }
}

/// A press shorter than the debounce duration gives no gesture. From the
/// idle state, pressed samples followed by a release less than the debounce
/// duration after the first of them give nothing and leave the channel idle.
pub proof fn lemma_short_press_is_noise(
    state: ClassifierState,
    id: ID,
    timing: Timing,
    samples: Seq<Sample>,
)
    requires
        timing.valid(),
        state.wf(),
        state.is_idle(),
        is_press(samples),
        press_duration(samples) < timing.debounce_duration,
    ensures
        run(state, id, timing, samples).1 == Seq::<Gesture>::empty(),
        run(state, id, timing, samples).0.is_idle(),
        run(state, id, timing, samples).0.wf(),
{
    let down = samples.drop_last();
    assert(in_order(down));
    lemma_pressing(state, id, timing, down);
}

/// One press and release that counts as a click: it lasted the debounce
/// duration and stopped short of the hold threshold. Before it the channel
/// may have rested released.
pub struct Cycle {
    /// The released samples before the press.
    pub rest: Seq<Sample>,
    /// The press itself.
    pub press: Seq<Sample>,
}

impl Cycle {
    /// The samples of the cycle, in order.
    pub open spec fn samples(self) -> Seq<Sample> {
        self.rest + self.press
    }

    /// When the press was released.
    pub open spec fn released_at(self) -> u64 {
        self.press.last().at
    }

    /// The press is confirmed: it lasted the debounce duration and stopped
    /// short of the hold threshold.
    pub open spec fn confirmed(self, timing: Timing) -> bool {
        &&& all_read(self.rest, RawLevel::Released)
        &&& is_press(self.press)
        &&& timing.debounce_duration <= press_duration(self.press) < timing.hold_threshold
    }

    /// The press began within the multi-click window that opened at
    /// `since`, and no sample of the cycle was read before `since`.
    pub open spec fn within(self, timing: Timing, since: u64) -> bool {
        &&& forall|i: int| 0 <= i < self.rest.len() ==> since <= (#[trigger] self.rest[i]).at
        &&& forall|i: int|
            0 <= i < self.rest.len() ==> (#[trigger] self.rest[i]).at - since
                < timing.multi_click_window
        &&& since <= self.press[0].at
        &&& self.press[0].at - since < timing.multi_click_window
    }
}

/// The samples of several cycles, one after the other.
pub open spec fn train(cycles: Seq<Cycle>) -> Seq<Sample>
    decreases cycles.len(),
{
    if cycles.len() == 0 {
        Seq::empty()
    } else {
        train(cycles.drop_last()) + cycles.last().samples()
    }
}

/// A run of clicks: every cycle is a confirmed press, and every cycle but
/// the first began within the multi-click window of the release before it.
pub open spec fn is_click_run(timing: Timing, cycles: Seq<Cycle>) -> bool {
    &&& cycles.len() >= 1
    &&& forall|k: int| 0 <= k < cycles.len() ==> (#[trigger] cycles[k]).confirmed(timing)
    &&& forall|k: int|
        1 <= k < cycles.len() ==> (#[trigger] cycles[k]).within(timing, cycles[k - 1].released_at())
}

/// The count that the classifier keeps for `count` confirmed presses.
pub open spec fn kept(count: nat) -> u8 {
    if count >= 3 {
        3
    } else {
        count as u8
    }
}

/// A confirmed press adds one to the pending clicks and gives nothing.
proof fn lemma_cycle(state: ClassifierState, id: ID, timing: Timing, cycle: Cycle)
    requires
        timing.valid(),
        state.wf(),
        state.level is Released,
        cycle.confirmed(timing),
        state.pending_clicks == 0 || cycle.within(timing, state.last_transition_time),
    ensures
        run(state, id, timing, cycle.samples()) == (
            ClassifierState {
                level: RawLevel::Released,
                pending_clicks: state.one_more(),
                last_transition_time: cycle.released_at(),
                hold_active: false,
            },
            Seq::<Gesture>::empty(),
        ),
{
    let press = cycle.press;
    let down = press.drop_last();
    let up = press.last();
    assert(in_order(down));
    if state.pending_clicks != 0 {
        assert forall|i: int| 0 <= i < cycle.rest.len() implies state.elapsed(
            (#[trigger] cycle.rest[i]).at,
        ) < timing.multi_click_window by {}
    }
    lemma_rest(state, id, timing, cycle.rest);
    lemma_pressing(state, id, timing, down);
    let pressed = run(state, id, timing, down).0;
    lemma_run_one(pressed, id, timing, up);
    lemma_run_concat(state, id, timing, down, seq![up]);
    lemma_run_concat(state, id, timing, cycle.rest, press);
}

/// A run of clicks gives nothing while it lasts; the classifier counts the
/// presses, up to three, and remembers the last release.
proof fn lemma_train(state: ClassifierState, id: ID, timing: Timing, cycles: Seq<Cycle>)
    requires
        timing.valid(),
        state.wf(),
        state.is_idle(),
        is_click_run(timing, cycles),
    ensures
        run(state, id, timing, train(cycles)) == (
            ClassifierState {
                level: RawLevel::Released,
                pending_clicks: kept(cycles.len()),
                last_transition_time: cycles.last().released_at(),
                hold_active: false,
            },
            Seq::<Gesture>::empty(),
        ),
    decreases cycles.len(),
{
    let last = cycles.last();
    let earlier = cycles.drop_last();
    if cycles.len() == 1 {
        assert(train(earlier) == Seq::<Sample>::empty()) by {
            reveal_with_fuel(train, 2);
        }
        assert(train(cycles) =~= last.samples()) by {
            reveal_with_fuel(train, 2);
        }
        lemma_cycle(state, id, timing, last);
    } else {
        assert(is_click_run(timing, earlier));
        lemma_train(state, id, timing, earlier);
        let mid = run(state, id, timing, train(earlier)).0;
        lemma_cycle(mid, id, timing, last);
        lemma_run_concat(state, id, timing, train(earlier), last.samples());
    }
}

/// A run of clicks gives exactly one gesture, when its window expires. From
/// the idle state, `k` confirmed presses, each within the multi-click window
/// of the release before it, then released samples within the window of the
/// last release, then one sample at or after the end of that window, give
/// one gesture in all: a click for one press, a double click for two, a
/// triple click for three or more. The pending clicks are then gone.
pub proof fn lemma_clicks_on_expiry(
    state: ClassifierState,
    id: ID,
    timing: Timing,
    cycles: Seq<Cycle>,
    rest: Seq<Sample>,
    expiry: Sample,
)
    requires
        timing.valid(),
        state.wf(),
        state.is_idle(),
        is_click_run(timing, cycles),
        all_read(rest, RawLevel::Released),
        forall|i: int|
            0 <= i < rest.len() ==> cycles.last().released_at() <= (#[trigger] rest[i]).at,
        forall|i: int|
            0 <= i < rest.len() ==> (#[trigger] rest[i]).at - cycles.last().released_at()
                < timing.multi_click_window,
        expiry.at - cycles.last().released_at() >= timing.multi_click_window,
    ensures
        run(state, id, timing, train(cycles) + rest + seq![expiry]).1 == seq![
            Gesture::of_clicks(id, cycles.len()),
        ],
        run(state, id, timing, train(cycles) + rest + seq![expiry]).0.pending_clicks == 0,
{
    lemma_train(state, id, timing, cycles);
    let counting = run(state, id, timing, train(cycles)).0;
    assert forall|i: int| 0 <= i < rest.len() implies counting.elapsed((#[trigger] rest[i]).at)
        < timing.multi_click_window by {}
    lemma_rest(counting, id, timing, rest);
    lemma_run_one(counting, id, timing, expiry);
    lemma_run_concat(state, id, timing, train(cycles), rest);
    lemma_run_concat(state, id, timing, train(cycles) + rest, seq![expiry]);
    let one = seq![Gesture::of_clicks(id, cycles.len())];
}

/// Every report of a hold in progress is a holding gesture of the channel
/// with a duration of the threshold or more.
pub proof fn lemma_holding_reports(
    id: ID,
    threshold: u64,
    since: u64,
    samples: Seq<Sample>,
    i: int,
)
    requires
        0 <= i < holding_reports(id, threshold, since, samples).len(),
    ensures
        holding_reports(id, threshold, since, samples)[i] matches Gesture::Holding(channel, d)
            && channel == id && d >= threshold,
    decreases samples.len(),
{
    if samples.len() > 0 && i < holding_reports(id, threshold, since, samples.drop_last()).len() {
        lemma_holding_reports(id, threshold, since, samples.drop_last(), i);
    }
}

/// While a press from the idle state is in progress, the classifier gives a
/// holding report at every tick from the hold threshold on, and nothing
/// else.
proof fn lemma_pressing_into_hold(
    state: ClassifierState,
    id: ID,
    timing: Timing,
    samples: Seq<Sample>,
)
    requires
        state.is_idle(),
        samples.len() >= 1,
        all_read(samples, RawLevel::Pressed),
        in_order(samples),
    ensures
        run(state, id, timing, samples) == (
            ClassifierState {
                level: RawLevel::Pressed,
                pending_clicks: 0,
                last_transition_time: samples[0].at,
                hold_active: samples.len() >= 2 && samples.last().at - samples[0].at
                    >= timing.hold_threshold,
            },
            holding_reports(id, timing.hold_threshold, samples[0].at, samples.drop_first()),
        ),
    decreases samples.len(),
{
    if samples.len() == 1 {
        assert(samples =~= seq![samples[0]]);
        lemma_run_one(state, id, timing, samples[0]);
    } else {
        let earlier = samples.drop_last();
        assert(all_read(earlier, RawLevel::Pressed));
        lemma_pressing_into_hold(state, id, timing, earlier);
        assert(samples.drop_first().drop_last() =~= earlier.drop_first());
    }
}

/// A press held past the hold threshold gives holding reports and then one
/// held gesture, and never a click. From the idle state, a press that is
/// released the hold threshold or more after it began gives a holding
/// report at every tick of the press from the threshold on, then, at the
/// release, one held gesture with the whole duration of the press. The
/// channel is idle again.
pub proof fn lemma_hold(state: ClassifierState, id: ID, timing: Timing, samples: Seq<Sample>)
    requires
        timing.valid(),
        state.wf(),
        state.is_idle(),
        is_press(samples),
        press_duration(samples) >= timing.hold_threshold,
    ensures
        run(state, id, timing, samples).1 == holding_reports(
            id,
            timing.hold_threshold,
            samples[0].at,
            samples.drop_last().drop_first(),
        ).push(Gesture::Held(id, press_duration(samples) as u64)),
        forall|i: int|
            0 <= i < run(state, id, timing, samples).1.len() ==> !(#[trigger] run(
                state,
                id,
                timing,
                samples,
            ).1[i]).is_click_family(),
        run(state, id, timing, samples).0.is_idle(),
        run(state, id, timing, samples).0.wf(),
{
    let down = samples.drop_last();
    let up = samples.last();
    assert(in_order(down));
    lemma_pressing_into_hold(state, id, timing, down);
    let pressed = run(state, id, timing, down).0;
    lemma_run_one(pressed, id, timing, up);
    lemma_run_concat(state, id, timing, down, seq![up]);
    let reports = holding_reports(id, timing.hold_threshold, samples[0].at, down.drop_first());
    let gestures = run(state, id, timing, samples).1;
    assert forall|i: int| 0 <= i < gestures.len() implies !(
    #[trigger] gestures[i]).is_click_family() by {
        if i < reports.len() {
            lemma_holding_reports(id, timing.hold_threshold, samples[0].at, down.drop_first(), i);
        }
    }
}

} // verus!
