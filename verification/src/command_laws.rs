//! What holds of every run of the command, whatever the target reports.

use crate::command::{ProfileCmd, ProfileRequest, ProfileType, RunAction, RunPhase, RunState};
use vstd::prelude::*;

verus! {

/// What came of an action.
pub ghost enum RunEvent {
    Succeeded,
    Listed(Seq<usize>),
    CoreDisabled,
    Failed,
}

/// Whether `event` can come of the next action.
pub open spec fn can_come(state: RunState, event: RunEvent) -> bool {
    match event {
        RunEvent::Succeeded => state.is_fallible(),
        RunEvent::Listed(_) => state.action() is ListCores,
        RunEvent::CoreDisabled => state.action() is OpenCore,
        RunEvent::Failed => state.is_fallible(),
    }
}

/// The run after `event`.
pub open spec fn after_event(state: RunState, event: RunEvent) -> RunState {
    match event {
        RunEvent::Succeeded => state.succeeded(),
        RunEvent::Listed(cores) => state.listed(cores),
        RunEvent::CoreDisabled => state.core_disabled(),
        RunEvent::Failed => state.failed(),
    }
}

/// The run after `events`.
pub open spec fn after_events(state: RunState, events: Seq<RunEvent>) -> RunState
    decreases events.len(),
{
    if events.len() == 0 {
        state
    } else {
        after_event(after_events(state, events.drop_last()), events.last())
    }
}

/// Every one of `events` could come when it did.
pub open spec fn can_all_come(state: RunState, events: Seq<RunEvent>) -> bool
    decreases events.len(),
{
    events.len() == 0 || {
        &&& can_all_come(state, events.drop_last())
        &&& can_come(after_events(state, events.drop_last()), events.last())
    }
}

/// The actions that were done with success, in that order.
pub open spec fn actions_done(state: RunState, events: Seq<RunEvent>) -> Seq<RunAction>
    decreases events.len(),
{
    if events.len() == 0 {
        seq![]
    } else {
        let done = actions_done(state, events.drop_last());
        if events.last() is Succeeded || events.last() is Listed {
            done.push(after_events(state, events.drop_last()).action())
        } else {
            done
        }
    }
}

/// Getting ready for a reset of the first `next` of `cores`, where `disabled` says which of them
/// turned out to be disabled: the others are opened and reset.
pub open spec fn resets(cores: Seq<usize>, disabled: Seq<bool>, next: nat) -> Seq<RunAction>
    decreases next,
{
    if next == 0 {
        seq![]
    } else {
        let i = next - 1;
        let done = resets(cores, disabled, i as nat);
        if disabled[i] {
            done
        } else {
            done + seq![
                RunAction::OpenCore { core: cores[i] },
                RunAction::ResetCore { core: cores[i] },
            ]
        }
    }
}

/// The actions before any core is reset.
pub open spec fn preparations(flash: bool, reset: bool) -> Seq<RunAction> {
    let attach = seq![RunAction::Attach, RunAction::BuildLoader];
    let flashed = if flash {
        attach.push(RunAction::Flash { reset: false })
    } else {
        attach
    };
    if reset {
        flashed.push(RunAction::ListCores)
    } else {
        flashed
    }
}

/// For each core that was dealt with, whether it turned out to be disabled.
pub open spec fn disabled_cores(state: RunState, events: Seq<RunEvent>) -> Seq<bool>
    decreases events.len(),
{
    if events.len() == 0 {
        seq![]
    } else {
        let earlier = disabled_cores(state, events.drop_last());
        if events.last() is CoreDisabled {
            earlier.push(true)
        } else if events.last() is Succeeded && after_events(
            state,
            events.drop_last(),
        ).action() is ResetCore {
            earlier.push(false)
        } else {
            earlier
        }
    }
}

/// The cores that the target listed, if it did.
pub open spec fn listed_cores(events: Seq<RunEvent>) -> Seq<usize>
    decreases events.len(),
{
    if events.len() == 0 {
        seq![]
    } else if let RunEvent::Listed(cores) = events.last() {
        cores
    } else {
        listed_cores(events.drop_last())
    }
}

proof fn lemma_resets_of_earlier_cores(
    cores: Seq<usize>,
    disabled: Seq<bool>,
    last: bool,
    next: nat,
)
    requires
        next <= disabled.len(),
    ensures
        resets(cores, disabled.push(last), next) == resets(cores, disabled, next),
    decreases next,
{
    if next > 0 {
        lemma_resets_of_earlier_cores(cores, disabled, last, (next - 1) as nat);
    }
}

/// What has been done when a run is in `state`.
spec fn is_on_track(
    state: RunState,
    done: Seq<RunAction>,
    listed: Seq<usize>,
    disabled: Seq<bool>,
) -> bool {
    let prepared = preparations(state.flash, state.reset);
    match state.phase {
        RunPhase::Attaching => done == Seq::<RunAction>::empty() && disabled.len() == 0,
        RunPhase::Loading => done == seq![RunAction::Attach] && disabled.len() == 0,
        RunPhase::Flashing => done == preparations(false, false) && disabled.len() == 0
            && state.flash,
        RunPhase::Listing => done == preparations(state.flash, false) && disabled.len() == 0
            && state.reset,
        RunPhase::Opening { cores, next } => {
            &&& done == prepared + resets(cores, disabled, next)
            &&& disabled.len() == next
            &&& next < cores.len()
            &&& cores == listed
            &&& state.reset
        },
        RunPhase::Resetting { cores, next } => {
            &&& done == (prepared + resets(cores, disabled, next)).push(
                RunAction::OpenCore { core: cores[next as int] },
            )
            &&& disabled.len() == next
            &&& next < cores.len()
            &&& cores == listed
            &&& state.reset
        },
        RunPhase::Ready => if state.reset {
            &&& done == prepared + resets(listed, disabled, listed.len())
            &&& disabled.len() == listed.len()
        } else {
            done == prepared && disabled.len() == 0
        },
        RunPhase::GivenUp => true,
    }
}

proof fn lemma_run_is_on_track(flash: bool, reset: bool, events: Seq<RunEvent>)
    requires
        can_all_come(RunState::start(flash, reset), events),
    ensures
        ({
            let start = RunState::start(flash, reset);
            let state = after_events(start, events);
            &&& state.flash == flash
            &&& state.reset == reset
            &&& is_on_track(
                state,
                actions_done(start, events),
                listed_cores(events),
                disabled_cores(start, events),
            )
        }),
    decreases events.len(),
{
    let start = RunState::start(flash, reset);
    if events.len() > 0 {
        let earlier = events.drop_last();
        lemma_run_is_on_track(flash, reset, earlier);
        let state = after_events(start, earlier);
        let done = actions_done(start, earlier);
        let disabled = disabled_cores(start, earlier);
        let prepared = preparations(flash, reset);
        match state.phase {
            RunPhase::Attaching => {
                assert(done.push(RunAction::Attach) == seq![RunAction::Attach]);
            },
            RunPhase::Loading => {
                assert(done.push(RunAction::BuildLoader) == preparations(false, false));
            },
            RunPhase::Opening { cores, next } => {
                lemma_resets_of_earlier_cores(cores, disabled, true, next);
            },
            RunPhase::Resetting { cores, next } => {
                lemma_resets_of_earlier_cores(cores, disabled, false, next);
                assert(done.push(RunAction::ResetCore { core: cores[next as int] }) == prepared
                    + resets(cores, disabled.push(false), next + 1));
            },
            RunPhase::Listing => {
                let cores = events.last()->Listed_0;
                assert(done.push(RunAction::ListCores) == prepared + resets(
                    cores,
                    disabled,
                    0,
                ));
            },
            _ => {},
        }
    }
}

/// When the profile is made, what was asked for has been done, and nothing else: attach and load;
/// flash, without a reset, if that was asked for; and if a reset was asked for, every core that the
/// target lists has been reset once, in the order of the list, but for those that are disabled.
pub proof fn profile_follows_what_was_asked(flash: bool, reset: bool, events: Seq<RunEvent>)
    requires
        can_all_come(RunState::start(flash, reset), events),
        after_events(RunState::start(flash, reset), events).action() is MakeProfile,
    ensures
        ({
            let start = RunState::start(flash, reset);
            let disabled = disabled_cores(start, events);
            let listed = listed_cores(events);
            if reset {
                &&& actions_done(start, events) == preparations(flash, true) + resets(
                    listed,
                    disabled,
                    listed.len(),
                )
                &&& disabled.len() == listed.len()
            } else {
                actions_done(start, events) == preparations(flash, false)
            }
        }),
{
    lemma_run_is_on_track(flash, reset, events);
}

/// Once an action has failed, the run is given up: nothing further is done, and no profile is made.
pub proof fn failure_is_final(flash: bool, reset: bool, events: Seq<RunEvent>, i: int)
    requires
        can_all_come(RunState::start(flash, reset), events),
        0 <= i < events.len(),
        events[i] is Failed,
    ensures
        i == events.len() - 1,
        after_events(RunState::start(flash, reset), events).action() is GiveUp,
    decreases events.len(),
{
    if i < events.len() - 1 {
        failure_is_final(flash, reset, events.drop_last(), i);
        assert(events.drop_last().last() is Failed);
    }
}

/// Neither flashing nor a reset happens unless it was asked for.
pub proof fn nothing_is_done_unasked(flash: bool, reset: bool, events: Seq<RunEvent>)
    requires
        can_all_come(RunState::start(flash, reset), events),
    ensures
        ({
            let action = after_events(RunState::start(flash, reset), events).action();
            &&& action is Flash ==> flash && action == (RunAction::Flash { reset: false })
            &&& action is OpenCore || action is ResetCore ==> reset
        }),
{
    lemma_run_is_on_track(flash, reset, events);
}

/// How many cores have been dealt with by `events`, which followed the list of cores, and whether a
/// further one is open: a core is dealt with when it turns out to be disabled, and otherwise after
/// it was opened and then reset.
pub open spec fn dealt_with(events: Seq<RunEvent>) -> (nat, bool)
    decreases events.len(),
{
    if events.len() == 0 {
        (0, false)
    } else {
        let (cores, is_open) = dealt_with(events.drop_last());
        if events.last() is CoreDisabled || is_open {
            ((cores + 1) as nat, false)
        } else {
            (cores, true)
        }
    }
}

/// The number of actions before the cores are listed.
pub open spec fn first_actions(flash: bool) -> nat {
    if flash {
        3
    } else {
        2
    }
}

/// What a run that has not failed does next, after `events`: it attaches, loads, flashes if that was
/// asked for, without a reset, and then, if a reset was asked for, lists the cores, and opens and
/// resets each in turn, before the profile is made.
pub open spec fn expected_action(flash: bool, reset: bool, events: Seq<RunEvent>) -> RunAction {
    let first = first_actions(flash) as int;
    if events.len() < first {
        if events.len() == 0 {
            RunAction::Attach
        } else if events.len() == 1 {
            RunAction::BuildLoader
        } else {
            RunAction::Flash { reset: false }
        }
    } else if !reset {
        RunAction::MakeProfile
    } else if events.len() == first {
        RunAction::ListCores
    } else {
        let cores = events[first]->Listed_0;
        let (next, is_open) = dealt_with(events.skip(first + 1));
        if next >= cores.len() {
            RunAction::MakeProfile
        } else if is_open {
            RunAction::ResetCore { core: cores[next as int] }
        } else {
            RunAction::OpenCore { core: cores[next as int] }
        }
    }
}

/// How far a run is after `events`.
spec fn is_at(state: RunState, flash: bool, reset: bool, events: Seq<RunEvent>) -> bool {
    let first = first_actions(flash) as int;
    &&& state.flash == flash
    &&& state.reset == reset
    &&& if events.len() < first {
        state.phase == (if events.len() == 0 {
            RunPhase::Attaching
        } else if events.len() == 1 {
            RunPhase::Loading
        } else {
            RunPhase::Flashing
        })
    } else if !reset {
        state.phase is Ready && events.len() == first
    } else if events.len() == first {
        state.phase is Listing
    } else {
        let (next, is_open) = dealt_with(events.skip(first + 1));
        &&& events[first] is Listed
        &&& next <= events[first]->Listed_0.len()
        &&& is_open ==> next < events[first]->Listed_0.len()
        &&& state.phase == (if next >= events[first]->Listed_0.len() {
            RunPhase::Ready
        } else if is_open {
            RunPhase::Resetting { cores: events[first]->Listed_0, next }
        } else {
            RunPhase::Opening { cores: events[first]->Listed_0, next }
        })
    }
}

proof fn lemma_run_is_at(flash: bool, reset: bool, events: Seq<RunEvent>)
    requires
        can_all_come(RunState::start(flash, reset), events),
        forall|i: int| 0 <= i < events.len() ==> !((#[trigger] events[i]) is Failed),
    ensures
        is_at(after_events(RunState::start(flash, reset), events), flash, reset, events),
    decreases events.len(),
{
    if events.len() > 0 {
        let earlier = events.drop_last();
        assert forall|i: int| 0 <= i < earlier.len() implies !((
        #[trigger] earlier[i]) is Failed) by {
            assert(earlier[i] == events[i]);
        }
        lemma_run_is_at(flash, reset, earlier);
        assert(!(events[events.len() - 1] is Failed));
        let first = first_actions(flash) as int;
        if earlier.len() > first {
            assert(events.skip(first + 1).drop_last() =~= earlier.skip(first + 1));
            assert(events.skip(first + 1).last() == events.last());
            assert(earlier[first] == events[first]);
        } else if earlier.len() == first {
            assert(events.skip(first + 1) =~= seq![]);
        }
    }
}

/// As long as nothing fails, a run does what was asked for, one thing after the other, and comes to
/// its profile when all of it is done; it is never given up, and it skips nothing.
pub proof fn run_does_what_was_asked_in_turn(flash: bool, reset: bool, events: Seq<RunEvent>)
    requires
        can_all_come(RunState::start(flash, reset), events),
        forall|i: int| 0 <= i < events.len() ==> !((#[trigger] events[i]) is Failed),
    ensures
        after_events(RunState::start(flash, reset), events).action() == expected_action(
            flash,
            reset,
            events,
        ),
{
    lemma_run_is_at(flash, reset, events);
}

/// Attaching, loading, flashing, opening a core and resetting it can fail; listing the cores cannot.
pub proof fn what_can_fail(state: RunState)
    ensures
        state.is_fallible() <==> (state.action() is Attach || state.action() is BuildLoader
            || state.action() is Flash || state.action() is OpenCore
            || state.action() is ResetCore),
{
}

/// The profile of a run is the one that the command asks for, for as long as it asks: a flat profile
/// gets the arguments that were given, and a call stack profile the method, the interval, the cores
/// and the output format that were given.
pub proof fn profile_is_the_one_asked_for<F>(cmd: ProfileCmd<F>)
    ensures
        match cmd.profile_type {
            ProfileType::Flat(given) => cmd.request() matches ProfileRequest::Flat {
                args,
                duration,
            } && args == given && duration == cmd.duration,
            ProfileType::Callstack(given) => cmd.request() matches ProfileRequest::Callstack {
                args,
                duration,
            } && {
                &&& args.method == given.method
                &&& args.interval_ns == given.interval_ns
                &&& args.cores@ == given.cores@
                &&& args.output_format == given.output_format
                &&& duration == cmd.duration
            },
        },
{
}

} // verus!
