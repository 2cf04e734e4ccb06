//! What holds of every profile, whatever the target reports.

use crate::callstack::{CallstackProfileMethod, SampleModel, StackFrameInfo};
use crate::sampling::{profiled_cores, PhaseModel, ProfileState, SamplingAction};
use vstd::prelude::*;

verus! {

/// A report from the target.
pub ghost enum SamplingEvent {
    Halted,
    Walked(Seq<StackFrameInfo>),
    Resumed(u128),
    Elapsed(u128),
    Slept,
    Failed,
}

/// Whether `event` is what `state` waits for.
pub open spec fn is_awaited(state: ProfileState, event: SamplingEvent) -> bool {
    match event {
        SamplingEvent::Halted => state.action() is Halt,
        SamplingEvent::Walked(_) => state.action() is Walk,
        SamplingEvent::Resumed(_) => state.action() is Resume,
        SamplingEvent::Elapsed(_) => state.action() is ReadClock,
        SamplingEvent::Slept => state.action() is Sleep,
        SamplingEvent::Failed => state.is_fallible(),
    }
}

/// The profile after `event`.
pub open spec fn after_event(state: ProfileState, event: SamplingEvent) -> ProfileState {
    match event {
        SamplingEvent::Halted => state.halted(),
        SamplingEvent::Walked(callstack) => state.walked(callstack),
        SamplingEvent::Resumed(nanos) => state.resumed(nanos),
        SamplingEvent::Elapsed(nanos) => state.elapsed(nanos),
        SamplingEvent::Slept => state.slept(),
        SamplingEvent::Failed => state.failed(),
    }
}

/// The profile after `events`.
pub open spec fn after_events(state: ProfileState, events: Seq<SamplingEvent>) -> ProfileState
    decreases events.len(),
{
    if events.len() == 0 {
        state
    } else {
        after_event(after_events(state, events.drop_last()), events.last())
    }
}

/// Every one of `events` was awaited when it came.
pub open spec fn are_awaited(state: ProfileState, events: Seq<SamplingEvent>) -> bool
    decreases events.len(),
{
    events.len() == 0 || {
        &&& are_awaited(state, events.drop_last())
        &&& is_awaited(after_events(state, events.drop_last()), events.last())
    }
}

/// The core that is halted, if one is, as long as none has failed.
pub open spec fn halted_core(state: ProfileState) -> Option<usize> {
    match state.phase {
        PhaseModel::Walking | PhaseModel::Resuming(_) => Some(
            state.samples[state.current as int].core,
        ),
        _ => None,
    }
}

/// A core is being sampled, or was when it failed.
pub open spec fn in_round(state: ProfileState) -> bool {
    state.phase is Halting || state.phase is Walking || state.phase is Resuming
        || state.phase is Failed
}

/// The state is of `cores`, and all cores have been sampled equally often, but for those that have
/// been sampled in the present round.
pub open spec fn is_balanced(state: ProfileState, cores: Seq<usize>) -> bool {
    &&& state.samples.len() == cores.len()
    &&& forall|i: int| 0 <= i < cores.len() ==> (#[trigger] state.samples[i]).core == cores[i]
    &&& if in_round(state) {
        &&& state.current < cores.len()
        &&& forall|i: int|
            0 <= i < cores.len() ==> (#[trigger] state.samples[i]).callstacks.len()
                == state.samples.last().callstacks.len() + if i < state.current {
                1int
            } else {
                0int
            }
    } else {
        forall|i: int|
            0 <= i < cores.len() ==> (#[trigger] state.samples[i]).callstacks.len()
                == state.samples.last().callstacks.len() && state.samples[i].callstacks.len() > 0
    }
}

proof fn lemma_balance_is_kept(state: ProfileState, cores: Seq<usize>, event: SamplingEvent)
    requires
        is_balanced(state, cores),
        is_awaited(state, event),
    ensures
        is_balanced(after_event(state, event), cores),
{
    let next = after_event(state, event);
    if event is Resumed {
        let i = state.current as int;
        assert(next.samples[i].core == state.samples[i].core);
        assert forall|j: int| 0 <= j < cores.len() && j != i implies next.samples[j]
            == state.samples[j] by {}
        assert(next.samples[i].callstacks.len() == state.samples[i].callstacks.len() + 1);
    }
}

/// Profiling keeps to the cores that it started with, and samples them in turn: none is ever more
/// than one sample ahead, and between two rounds every core has the same number of samples, which
/// is at least one.
pub proof fn sampling_is_balanced(
    method: CallstackProfileMethod,
    duration: u64,
    interval_ns: u64,
    cores: Seq<usize>,
    events: Seq<SamplingEvent>,
)
    requires
        are_awaited(ProfileState::start(method, duration, interval_ns, cores), events),
    ensures
        is_balanced(
            after_events(ProfileState::start(method, duration, interval_ns, cores), events),
            cores,
        ),
    decreases events.len(),
{
    let start = ProfileState::start(method, duration, interval_ns, cores);
    if events.len() > 0 {
        sampling_is_balanced(method, duration, interval_ns, cores, events.drop_last());
        lemma_balance_is_kept(after_events(start, events.drop_last()), cores, events.last());
    }
}

proof fn lemma_settings_are_kept(start: ProfileState, events: Seq<SamplingEvent>)
    ensures
        after_events(start, events).method == start.method,
        after_events(start, events).duration == start.duration,
        after_events(start, events).interval_ns == start.interval_ns,
    decreases events.len(),
{
    if events.len() > 0 {
        lemma_settings_are_kept(start, events.drop_last());
    }
}

/// Profiling is over if and only if the clock has just been read and more than the duration has
/// passed.
pub proof fn sampling_ends_after_the_duration(
    method: CallstackProfileMethod,
    duration: u64,
    interval_ns: u64,
    cores: Seq<usize>,
    events: Seq<SamplingEvent>,
)
    requires
        are_awaited(ProfileState::start(method, duration, interval_ns, cores), events),
    ensures
        after_events(
            ProfileState::start(method, duration, interval_ns, cores),
            events,
        ).action() is Finish <==> (events.len() > 0 && (events.last() matches SamplingEvent::Elapsed(
            nanos,
        ) && nanos > duration * 1_000_000_000)),
{
    let start = ProfileState::start(method, duration, interval_ns, cores);
    if events.len() > 0 {
        lemma_settings_are_kept(start, events.drop_last());
    }
}

/// A core that is halted is the one that was to be halted, and it stays halted until it is let run
/// again; no other core is halted meanwhile, and none is halted when the clock is read, during the
/// wait or in the end. (A core that fails can be in either state.)
pub proof fn cores_are_halted_one_at_a_time(state: ProfileState, event: SamplingEvent)
    requires
        is_awaited(state, event),
    ensures
        !(event is Failed) ==> halted_core(after_event(state, event)) == match event {
            SamplingEvent::Halted => Some(state.action()->Halt_core),
            SamplingEvent::Walked(_) => halted_core(state),
            SamplingEvent::Resumed(_) => None,
            SamplingEvent::Elapsed(_) => None,
            SamplingEvent::Slept => None,
            SamplingEvent::Failed => None,
        },
        event is Halted ==> halted_core(state) is None,
        event matches SamplingEvent::Walked(_) ==> halted_core(state) == Some(
            state.action()->Walk_core,
        ),
        event matches SamplingEvent::Resumed(_) ==> halted_core(state) == Some(
            state.action()->Resume_core,
        ),
        event matches SamplingEvent::Elapsed(_) ==> halted_core(state) is None,
        event is Slept ==> halted_core(state) is None,
{
}

/// Once a core has failed, the profile is given up: that is the last thing that happens, so no core
/// is touched and no sample is taken after it, and profiling does not come to its end.
pub proof fn failure_is_final(
    method: CallstackProfileMethod,
    duration: u64,
    interval_ns: u64,
    cores: Seq<usize>,
    events: Seq<SamplingEvent>,
    i: int,
)
    requires
        are_awaited(ProfileState::start(method, duration, interval_ns, cores), events),
        0 <= i < events.len(),
        events[i] is Failed,
    ensures
        i == events.len() - 1,
        ({
            let start = ProfileState::start(method, duration, interval_ns, cores);
            let state = after_events(start, events);
            &&& state.action() is GiveUp
            &&& state.samples == after_events(start, events.drop_last()).samples
            &&& forall|event: SamplingEvent| !is_awaited(state, event)
        }),
    decreases events.len(),
{
    if i < events.len() - 1 {
        let earlier = events.drop_last();
        failure_is_final(method, duration, interval_ns, cores, earlier, i);
        let state = after_events(
            ProfileState::start(method, duration, interval_ns, cores),
            earlier,
        );
        assert(!is_awaited(state, events.last()));
    }
}

/// What was collected of a core is kept: later samples come behind it.
pub proof fn samples_are_kept(
    method: CallstackProfileMethod,
    duration: u64,
    interval_ns: u64,
    cores: Seq<usize>,
    events: Seq<SamplingEvent>,
    later: Seq<SamplingEvent>,
    i: int,
)
    requires
        are_awaited(ProfileState::start(method, duration, interval_ns, cores), events + later),
        0 <= i < cores.len(),
    ensures
        ({
            let start = ProfileState::start(method, duration, interval_ns, cores);
            after_events(start, events).samples[i].callstacks.is_prefix_of(
                after_events(start, events + later).samples[i].callstacks,
            )
        }),
    decreases later.len(),
{
    let start = ProfileState::start(method, duration, interval_ns, cores);
    if later.len() == 0 {
        assert(events + later == events);
    } else {
        let all = events + later;
        assert(all.drop_last() == events + later.drop_last());
        samples_are_kept(method, duration, interval_ns, cores, events, later.drop_last(), i);
        sampling_is_balanced(method, duration, interval_ns, cores, all.drop_last());
        let before = after_events(start, all.drop_last());
        let early = after_events(start, events).samples[i].callstacks;
        assert(before.samples[i].callstacks.is_prefix_of(
            after_event(before, all.last()).samples[i].callstacks,
        ));
        assert(early == before.samples[i].callstacks.subrange(0, early.len() as int));
        assert(early == after_event(before, all.last()).samples[i].callstacks.subrange(
            0,
            early.len() as int,
        ));
    }
}

/// How often the clock was read at the end of a round.
pub open spec fn clock_reads(events: Seq<SamplingEvent>) -> nat
    decreases events.len(),
{
    if events.len() == 0 {
        0
    } else {
        clock_reads(events.drop_last()) + if events.last() is Elapsed {
            1nat
        } else {
            0nat
        }
    }
}

/// Whether core `i` has been sampled since the clock was last read.
pub open spec fn is_sampled_since_read(state: ProfileState, i: int) -> bool {
    state.phase is Checking || (in_round(state) && i < state.current)
}

/// Every core has as many samples as the clock was read at the end of a round, and one more from
/// when it is sampled until the clock is read again. So it is exactly as many during the wait and
/// in the end.
pub proof fn samples_match_clock_reads(
    method: CallstackProfileMethod,
    duration: u64,
    interval_ns: u64,
    cores: Seq<usize>,
    events: Seq<SamplingEvent>,
)
    requires
        are_awaited(ProfileState::start(method, duration, interval_ns, cores), events),
    ensures
        ({
            let state = after_events(
                ProfileState::start(method, duration, interval_ns, cores),
                events,
            );
            &&& state.samples.len() == cores.len()
            &&& forall|i: int|
                0 <= i < cores.len() ==> (#[trigger] state.samples[i]).callstacks.len()
                    == clock_reads(events) + if is_sampled_since_read(state, i) {
                    1int
                } else {
                    0int
                }
        }),
    decreases events.len(),
{
    let start = ProfileState::start(method, duration, interval_ns, cores);
    sampling_is_balanced(method, duration, interval_ns, cores, events);
    if events.len() > 0 {
        let earlier = events.drop_last();
        samples_match_clock_reads(method, duration, interval_ns, cores, earlier);
        sampling_is_balanced(method, duration, interval_ns, cores, earlier);
        let before = after_events(start, earlier);
        let after = after_events(start, events);
        assert forall|i: int| 0 <= i < cores.len() implies (
        #[trigger] after.samples[i]).callstacks.len() == clock_reads(events)
            + if is_sampled_since_read(after, i) {
            1int
        } else {
            0int
        } by {
            assert(before.samples[i].callstacks.len() == clock_reads(earlier)
                + if is_sampled_since_read(before, i) {
                1int
            } else {
                0int
            });
        }
    }
}

/// The time that an event reports, if it reports one.
pub open spec fn reported_time(event: SamplingEvent) -> Option<u128> {
    match event {
        SamplingEvent::Resumed(nanos) => Some(nanos),
        SamplingEvent::Elapsed(nanos) => Some(nanos),
        _ => None,
    }
}

/// The clock does not go back: of two times, the later report is not the smaller.
pub open spec fn clock_goes_forward(events: Seq<SamplingEvent>) -> bool {
    forall|a: int, b: int|
        #![trigger events[a], events[b]]
        0 <= a <= b < events.len() && reported_time(events[a]) is Some && reported_time(
            events[b],
        ) is Some ==> reported_time(events[a])->0 <= reported_time(events[b])->0
}

/// Sample `j` of core `i` belongs to an earlier round than sample `l` of core `k`, or to the same
/// one, in which core `i` does not come after core `k`.
pub open spec fn is_not_after(i: int, j: int, k: int, l: int) -> bool {
    j < l || (j == l && i <= k)
}

/// The time of sample `j` of core `i`.
pub open spec fn sample_time(state: ProfileState, i: int, j: int) -> u128 {
    state.samples[i].callstacks[j].nanos
}

/// There is a sample `j` of core `i`.
pub open spec fn has_sample(state: ProfileState, i: int, j: int) -> bool {
    0 <= i < state.samples.len() && 0 <= j < state.samples[i].callstacks.len()
}

/// The time of every sample was reported with the event that recorded it.
spec fn times_are_reported(state: ProfileState, events: Seq<SamplingEvent>) -> bool {
    forall|i: int, j: int|
        #![trigger sample_time(state, i, j)]
        has_sample(state, i, j) ==> exists|a: int|
            0 <= a < events.len() && #[trigger] reported_time(events[a]) == Some(
                sample_time(state, i, j),
            )
}

proof fn lemma_times_are_reported(
    method: CallstackProfileMethod,
    duration: u64,
    interval_ns: u64,
    cores: Seq<usize>,
    events: Seq<SamplingEvent>,
)
    requires
        are_awaited(ProfileState::start(method, duration, interval_ns, cores), events),
    ensures
        times_are_reported(
            after_events(ProfileState::start(method, duration, interval_ns, cores), events),
            events,
        ),
    decreases events.len(),
{
    let start = ProfileState::start(method, duration, interval_ns, cores);
    let after = after_events(start, events);
    if events.len() > 0 {
        let earlier = events.drop_last();
        let before = after_events(start, earlier);
        lemma_times_are_reported(method, duration, interval_ns, cores, earlier);
        sampling_is_balanced(method, duration, interval_ns, cores, earlier);
        assert forall|i: int, j: int|
            #![trigger sample_time(after, i, j)]
            has_sample(after, i, j) implies exists|a: int|
            0 <= a < events.len() && #[trigger] reported_time(events[a]) == Some(
                sample_time(after, i, j),
            ) by {
            if has_sample(before, i, j) {
                assert(sample_time(after, i, j) == sample_time(before, i, j));
                let a = choose|a: int|
                    0 <= a < earlier.len() && #[trigger] reported_time(earlier[a]) == Some(
                        sample_time(before, i, j),
                    );
                assert(reported_time(events[a]) == Some(sample_time(after, i, j)));
            } else {
                assert(reported_time(events[events.len() - 1]) == Some(sample_time(after, i, j)));
            }
        }
    }
}

/// While the clock does not go back, sample times do not decrease: not within a core, not along a
/// round, and not from one round to the next.
pub proof fn sample_times_do_not_decrease(
    method: CallstackProfileMethod,
    duration: u64,
    interval_ns: u64,
    cores: Seq<usize>,
    events: Seq<SamplingEvent>,
)
    requires
        are_awaited(ProfileState::start(method, duration, interval_ns, cores), events),
        clock_goes_forward(events),
    ensures
        ({
            let state = after_events(
                ProfileState::start(method, duration, interval_ns, cores),
                events,
            );
            forall|i: int, j: int, k: int, l: int|
                #![trigger sample_time(state, i, j), sample_time(state, k, l)]
                has_sample(state, i, j) && has_sample(state, k, l) && is_not_after(i, j, k, l)
                    ==> sample_time(state, i, j) <= sample_time(state, k, l)
        }),
    decreases events.len(),
{
    let start = ProfileState::start(method, duration, interval_ns, cores);
    let after = after_events(start, events);
    if events.len() > 0 {
        let earlier = events.drop_last();
        let before = after_events(start, earlier);
        assert forall|a: int, b: int|
            #![trigger earlier[a], earlier[b]]
            0 <= a <= b < earlier.len() && reported_time(earlier[a]) is Some && reported_time(
                earlier[b],
            ) is Some implies reported_time(earlier[a])->0 <= reported_time(earlier[b])->0 by {
            assert(earlier[a] == events[a] && earlier[b] == events[b]);
        }
        sample_times_do_not_decrease(method, duration, interval_ns, cores, earlier);
        lemma_times_are_reported(method, duration, interval_ns, cores, events);
        sampling_is_balanced(method, duration, interval_ns, cores, earlier);
        assert forall|i: int, j: int, k: int, l: int|
            #![trigger sample_time(after, i, j), sample_time(after, k, l)]
            has_sample(after, i, j) && has_sample(after, k, l) && is_not_after(
                i,
                j,
                k,
                l,
            ) implies sample_time(after, i, j) <= sample_time(after, k, l) by {
            if has_sample(before, k, l) {
                // The sample that is new lies behind all others, so that this one is not new either.
                assert(before.samples[i].callstacks.len() >= before.samples[k].callstacks.len() - 1);
                assert(has_sample(before, i, j));
                assert(sample_time(after, i, j) == sample_time(before, i, j));
                assert(sample_time(after, k, l) == sample_time(before, k, l));
            } else {
                let last = events.len() - 1;
                assert(reported_time(events[last]) == Some(sample_time(after, k, l)));
                let a = choose|a: int|
                    0 <= a < events.len() && #[trigger] reported_time(events[a]) == Some(
                        sample_time(after, i, j),
                    );
                assert(reported_time(events[a])->0 <= reported_time(events[last])->0);
            }
        }
    }
}

/// How many cores have been let run again since the clock was last read.
pub open spec fn resumed_in_round(events: Seq<SamplingEvent>) -> nat
    decreases events.len(),
{
    if events.len() == 0 {
        0
    } else {
        match events.last() {
            SamplingEvent::Resumed(_) => resumed_in_round(events.drop_last()) + 1,
            SamplingEvent::Elapsed(_) => 0,
            _ => resumed_in_round(events.drop_last()),
        }
    }
}

proof fn lemma_phase_follows_events(
    method: CallstackProfileMethod,
    duration: u64,
    interval_ns: u64,
    cores: Seq<usize>,
    events: Seq<SamplingEvent>,
)
    requires
        are_awaited(ProfileState::start(method, duration, interval_ns, cores), events),
    ensures
        ({
            let state = after_events(
                ProfileState::start(method, duration, interval_ns, cores),
                events,
            );
            let next = resumed_in_round(events);
            let in_turn = if next < cores.len() {
                state.phase is Halting && state.current == next
            } else {
                state.phase is Checking && next == cores.len()
            };
            &&& state.phase is Halting || state.phase is Walking || state.phase is Resuming
                ==> state.current == next && next < cores.len()
            &&& state.phase is Sleeping || state.phase is Finished ==> next == 0
            &&& if events.len() == 0 {
                in_turn && next == 0
            } else {
                match events.last() {
                    SamplingEvent::Halted => state.phase is Walking,
                    SamplingEvent::Walked(callstack) => state.phase == PhaseModel::Resuming(
                        callstack,
                    ),
                    SamplingEvent::Resumed(_) => in_turn && next > 0,
                    SamplingEvent::Elapsed(nanos) => if nanos > duration * 1_000_000_000 {
                        state.phase is Finished
                    } else {
                        state.phase is Sleeping
                    },
                    SamplingEvent::Slept => in_turn && next == 0,
                    SamplingEvent::Failed => state.phase is Failed,
                }
            }
        }),
    decreases events.len(),
{
    let start = ProfileState::start(method, duration, interval_ns, cores);
    sampling_is_balanced(method, duration, interval_ns, cores, events);
    if events.len() > 0 {
        let earlier = events.drop_last();
        lemma_phase_follows_events(method, duration, interval_ns, cores, earlier);
        lemma_settings_are_kept(start, earlier);
        sampling_is_balanced(method, duration, interval_ns, cores, earlier);
    }
}

/// What is to be done next follows from what was reported: the cores are halted in the order in
/// which they were asked for, with 10 milliseconds for that; one that is halted is walked by the
/// method that was asked for, and then resumed; when all have been, the clock is read; and if no
/// more than the duration has passed, a wait of the interval follows, and another round. Profiling
/// is over when more than the duration has passed, and given up when a core fails.
pub proof fn actions_follow_reports(
    method: CallstackProfileMethod,
    duration: u64,
    interval_ns: u64,
    cores: Seq<usize>,
    events: Seq<SamplingEvent>,
)
    requires
        are_awaited(ProfileState::start(method, duration, interval_ns, cores), events),
    ensures
        ({
            let action = after_events(
                ProfileState::start(method, duration, interval_ns, cores),
                events,
            ).action();
            let next = resumed_in_round(events) as int;
            let in_turn = if next < cores.len() {
                SamplingAction::Halt { core: cores[next], timeout_ms: 10 }
            } else {
                SamplingAction::ReadClock
            };
            action == if events.len() == 0 {
                in_turn
            } else {
                match events.last() {
                    SamplingEvent::Halted => SamplingAction::Walk { core: cores[next], method },
                    SamplingEvent::Walked(_) => SamplingAction::Resume { core: cores[next] },
                    SamplingEvent::Resumed(_) => in_turn,
                    SamplingEvent::Elapsed(nanos) => if nanos > duration * 1_000_000_000 {
                        SamplingAction::Finish
                    } else {
                        SamplingAction::Sleep { nanos: interval_ns }
                    },
                    SamplingEvent::Slept => in_turn,
                    SamplingEvent::Failed => SamplingAction::GiveUp,
                }
            }
        }),
{
    let start = ProfileState::start(method, duration, interval_ns, cores);
    lemma_phase_follows_events(method, duration, interval_ns, cores, events);
    lemma_settings_are_kept(start, events);
    sampling_is_balanced(method, duration, interval_ns, cores, events);
    let state = after_events(start, events);
    let next = resumed_in_round(events) as int;
    if next < cores.len() {
        assert(state.samples[next].core == cores[next]);
    }
}

/// Sample `j` of core `i`, which is `sample`, was reported by event `a` and the one before it: the
/// core was walked, and these were its frames, and then it was let run again, and that was the
/// time. Before that, `i` cores had been let run again since the clock was last read, and the clock
/// had been read `j` times.
pub open spec fn is_reported_by(
    events: Seq<SamplingEvent>,
    a: int,
    i: int,
    j: int,
    sample: SampleModel,
) -> bool {
    &&& 0 < a < events.len()
    &&& events[a] == SamplingEvent::Resumed(sample.nanos)
    &&& events[a - 1] == SamplingEvent::Walked(sample.callstack)
    &&& resumed_in_round(events.take(a)) == i
    &&& clock_reads(events.take(a)) == j
}

/// Some event reported sample `j` of core `i`.
pub open spec fn is_reported(
    events: Seq<SamplingEvent>,
    i: int,
    j: int,
    sample: SampleModel,
) -> bool {
    exists|a: int| #[trigger] is_reported_by(events, a, i, j, sample)
}

/// Event `a` is kept: the sample that it reports is the one of that core and of that round.
pub open spec fn report_is_kept(
    events: Seq<SamplingEvent>,
    a: int,
    state: ProfileState,
) -> bool {
    let i = resumed_in_round(events.take(a)) as int;
    let j = clock_reads(events.take(a)) as int;
    has_sample(state, i, j) && is_reported_by(events, a, i, j, state.samples[i].callstacks[j])
}

/// Every sample holds exactly the frames that the walk of its core found and the time at which the
/// core was let run again, and every such report is kept, as the sample of the core that was up and
/// of the round that was on. The samples are those of the cores that were asked for, in that order.
pub proof fn samples_hold_what_was_reported(
    method: CallstackProfileMethod,
    duration: u64,
    interval_ns: u64,
    cores: Seq<usize>,
    events: Seq<SamplingEvent>,
)
    requires
        are_awaited(ProfileState::start(method, duration, interval_ns, cores), events),
    ensures
        ({
            let state = after_events(
                ProfileState::start(method, duration, interval_ns, cores),
                events,
            );
            &&& state.samples.len() == cores.len()
            &&& forall|i: int| 0 <= i < cores.len() ==> (#[trigger] state.samples[i]).core == cores[i]
            &&& forall|i: int, j: int|
                #![trigger state.samples[i].callstacks[j]]
                0 <= i < state.samples.len() && 0 <= j < state.samples[i].callstacks.len()
                    ==> is_reported(events, i, j, state.samples[i].callstacks[j])
            &&& forall|a: int|
                0 <= a < events.len() && (#[trigger] events[a]) is Resumed ==> report_is_kept(
                    events,
                    a,
                    state,
                )
        }),
    decreases events.len(),
{
    let start = ProfileState::start(method, duration, interval_ns, cores);
    let after = after_events(start, events);
    sampling_is_balanced(method, duration, interval_ns, cores, events);
    if events.len() == 0 {
        samples_match_clock_reads(method, duration, interval_ns, cores, events);
        lemma_phase_follows_events(method, duration, interval_ns, cores, events);
        assert forall|i: int, j: int|
            #![trigger after.samples[i].callstacks[j]]
            0 <= i < after.samples.len() && 0 <= j
                < after.samples[i].callstacks.len() implies is_reported(
            events,
            i,
            j,
            after.samples[i].callstacks[j],
        ) by {}
    } else {
        let earlier = events.drop_last();
        let last = events.len() - 1;
        let before = after_events(start, earlier);
        samples_hold_what_was_reported(method, duration, interval_ns, cores, earlier);
        sampling_is_balanced(method, duration, interval_ns, cores, earlier);
        samples_match_clock_reads(method, duration, interval_ns, cores, earlier);
        lemma_phase_follows_events(method, duration, interval_ns, cores, earlier);
        assert(events.take(last) =~= earlier);
        assert forall|a: int, i: int, j: int, sample: SampleModel| #[trigger]
            is_reported_by(earlier, a, i, j, sample) implies is_reported_by(
            events,
            a,
            i,
            j,
            sample,
        ) by {
            assert(events.take(a) =~= earlier.take(a));
        }
        let up = before.current as int;
        let round = clock_reads(earlier) as int;
        if events.last() is Resumed {
            assert(before.samples[up].callstacks.len() == round);
            assert(after.samples[up].callstacks.len() == round + 1);
            assert(is_reported_by(events, last, up, round, after.samples[up].callstacks[round]));
        }
        assert forall|i: int, j: int|
            #![trigger after.samples[i].callstacks[j]]
            0 <= i < after.samples.len() && 0 <= j
                < after.samples[i].callstacks.len() implies is_reported(
            events,
            i,
            j,
            after.samples[i].callstacks[j],
        ) by {
            if 0 <= j < before.samples[i].callstacks.len() {
                assert(after.samples[i].callstacks[j] == before.samples[i].callstacks[j]);
                assert(is_reported(earlier, i, j, before.samples[i].callstacks[j]));
                let a = choose|a: int| #[trigger]
                    is_reported_by(earlier, a, i, j, before.samples[i].callstacks[j]);
                assert(is_reported_by(events, a, i, j, after.samples[i].callstacks[j]));
            } else {
                assert(events.last() is Resumed && i == up && j == round);
            }
        }
        assert forall|a: int|
            0 <= a < events.len() && (#[trigger] events[a]) is Resumed implies report_is_kept(
            events,
            a,
            after,
        ) by {
            if a < last {
                assert(earlier[a] == events[a]);
                assert(report_is_kept(earlier, a, before));
                assert(events.take(a) =~= earlier.take(a));
                let i = resumed_in_round(events.take(a)) as int;
                let j = clock_reads(events.take(a)) as int;
                assert(after.samples[i].callstacks[j] == before.samples[i].callstacks[j]);
                assert(is_reported_by(events, a, i, j, after.samples[i].callstacks[j]));
            }
        }
    }
}

/// All cores of a target are profiled where none is asked for, and otherwise exactly those that are
/// asked for, each as often as it is.
pub proof fn cores_asked_for_are_profiled(requested: Seq<usize>, available: Seq<usize>)
    ensures
        requested.len() > 0 ==> profiled_cores(requested, available) == requested,
        profiled_cores(Seq::empty(), available) == available,
{
}

/// Only halting a core and letting it run again can fail.
pub proof fn only_halting_and_resuming_fail(state: ProfileState)
    ensures
        state.is_fallible() <==> (state.action() is Halt || state.action() is Resume),
{
}

} // verus!
