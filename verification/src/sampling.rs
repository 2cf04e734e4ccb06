//! The collection of call stacks from the cores of a target.
//!
//! Whoever talks to the target does what [`CallstackProfile::action`] says and reports back what
//! came of it. If a core cannot be halted or resumed, the profile is given up.

use crate::callstack::{CallstackProfileArgs, CallstackProfileMethod, CallstackSample};
use crate::callstack::{CoreModel, CoreSamples, SampleModel, StackFrameInfo};
use crate::duration::duration_nanos;
use std::time::Duration;
use vstd::prelude::*;

verus! {

/// How long a core may take to halt, in milliseconds.
pub const HALT_TIMEOUT_MS: u64 = 10;

/// What is to be done next.
#[derive(Clone, Copy, Debug, PartialEq, Eq, Structural)]
pub enum SamplingAction {
    /// Halt a core, and report with [`CallstackProfile::halted`].
    Halt { core: usize, timeout_ms: u64 },
    /// Find the call stack of a core, and report it with [`CallstackProfile::walked`].
    Walk { core: usize, method: CallstackProfileMethod },
    /// Let a core run again, and report the time since profiling started with
    /// [`CallstackProfile::resumed`].
    Resume { core: usize },
    /// Report the time since profiling started with [`CallstackProfile::elapsed`].
    ReadClock,
    /// Wait for a while, and report with [`CallstackProfile::slept`].
    Sleep { nanos: u64 },
    /// Nothing: profiling is over.
    Finish,
    /// Nothing: a core failed.
    GiveUp,
}

/// How far a round over the cores has got.
#[derive(Debug)]
enum Phase {
    Halting,
    Walking,
    Resuming(Vec<StackFrameInfo>),
    Checking,
    Sleeping,
    Finished,
    Failed,
}

/// How far a round over the cores has got.
pub ghost enum PhaseModel {
    /// The current core is to be halted.
    Halting,
    /// The call stack of the current core is to be found.
    Walking,
    /// The current core is to run again; this is its call stack.
    Resuming(Seq<StackFrameInfo>),
    /// All cores have been sampled, and the clock is to be read.
    Checking,
    /// The next round is to wait for a while.
    Sleeping,
    /// No further round is to follow.
    Finished,
    /// The current core could not be halted or resumed.
    Failed,
}

impl View for Phase {
    type V = PhaseModel;

    closed spec fn view(&self) -> PhaseModel {
        match self {
            Phase::Halting => PhaseModel::Halting,
            Phase::Walking => PhaseModel::Walking,
            Phase::Resuming(callstack) => PhaseModel::Resuming(callstack@),
            Phase::Checking => PhaseModel::Checking,
            Phase::Sleeping => PhaseModel::Sleeping,
            Phase::Finished => PhaseModel::Finished,
            Phase::Failed => PhaseModel::Failed,
        }
    }
}

/// What a [`CallstackProfile`] is: how it samples, and what it has collected.
pub ghost struct ProfileState {
    pub method: CallstackProfileMethod,
    /// How long profiling goes on, in seconds.
    pub duration: u64,
    /// The wait between two rounds, in nanoseconds.
    pub interval_ns: u64,
    pub samples: Seq<CoreModel>,
    /// The index in `samples` of the core that is being sampled.
    pub current: nat,
    pub phase: PhaseModel,
}

/// The cores that are profiled: those that were asked for, or all that there are.
pub open spec fn profiled_cores(requested: Seq<usize>, available: Seq<usize>) -> Seq<usize> {
    if requested.len() == 0 {
        available
    } else {
        requested
    }
}

/// No call stack of any core.
pub open spec fn no_samples(cores: Seq<usize>) -> Seq<CoreModel> {
    cores.map_values(|core: usize| CoreModel { core, callstacks: seq![] })
}

impl ProfileState {
    /// The start of a profile.
    pub open spec fn start(
        method: CallstackProfileMethod,
        duration: u64,
        interval_ns: u64,
        cores: Seq<usize>,
    ) -> Self {
        ProfileState {
            method,
            duration,
            interval_ns,
            samples: no_samples(cores),
            current: 0,
            phase: PhaseModel::Finished,
        }.next_round()
    }

    /// The start of a round over the cores.
    pub open spec fn next_round(self) -> Self {
        ProfileState {
            current: 0,
            phase: if self.samples.len() == 0 {
                PhaseModel::Checking
            } else {
                PhaseModel::Halting
            },
            ..self
        }
    }

    /// What is to be done next.
    pub open spec fn action(self) -> SamplingAction {
        let core = self.samples[self.current as int].core;
        match self.phase {
            PhaseModel::Halting => SamplingAction::Halt { core, timeout_ms: HALT_TIMEOUT_MS },
            PhaseModel::Walking => SamplingAction::Walk { core, method: self.method },
            PhaseModel::Resuming(_) => SamplingAction::Resume { core },
            PhaseModel::Checking => SamplingAction::ReadClock,
            PhaseModel::Sleeping => SamplingAction::Sleep { nanos: self.interval_ns },
            PhaseModel::Finished => SamplingAction::Finish,
            PhaseModel::Failed => SamplingAction::GiveUp,
        }
    }

    /// The profile after the current core was halted.
    pub open spec fn halted(self) -> Self {
        ProfileState { phase: PhaseModel::Walking, ..self }
    }

    /// The profile after the call stack of the current core was found.
    pub open spec fn walked(self, callstack: Seq<StackFrameInfo>) -> Self {
        ProfileState { phase: PhaseModel::Resuming(callstack), ..self }
    }

    /// The samples with one more of the current core.
    pub open spec fn samples_with(self, sample: SampleModel) -> Seq<CoreModel> {
        let i = self.current as int;
        self.samples.update(
            i,
            CoreModel {
                callstacks: self.samples[i].callstacks.push(sample),
                ..self.samples[i]
            },
        )
    }

    /// The profile after the current core was let run again, so many nanoseconds after the start:
    /// the sample is recorded, and the next core is up, if there is one.
    pub open spec fn resumed(self, nanos: u128) -> Self {
        let sample = SampleModel { callstack: self.phase->Resuming_0, nanos };
        let samples = self.samples_with(sample);
        if self.current + 1 < self.samples.len() {
            ProfileState {
                samples,
                current: self.current + 1,
                phase: PhaseModel::Halting,
                ..self
            }
        } else {
            ProfileState { samples, phase: PhaseModel::Checking, ..self }
        }
    }

    /// Whether more than the duration has passed.
    pub open spec fn is_over(self, nanos: u128) -> bool {
        nanos > self.duration * 1_000_000_000
    }

    /// The profile after the clock was read, so many nanoseconds after the start: it is finished if
    /// more than the duration has passed.
    pub open spec fn elapsed(self, nanos: u128) -> Self {
        if self.is_over(nanos) {
            ProfileState { phase: PhaseModel::Finished, ..self }
        } else {
            ProfileState { phase: PhaseModel::Sleeping, ..self }
        }
    }

    /// The next action can fail.
    pub open spec fn is_fallible(self) -> bool {
        self.action() is Halt || self.action() is Resume
    }

    /// The profile after the action failed: it is given up.
    pub open spec fn failed(self) -> Self {
        ProfileState { phase: PhaseModel::Failed, ..self }
    }

    /// The profile after the wait: the next round starts.
    pub open spec fn slept(self) -> Self {
        self.next_round()
    }
}

/// A profile for which call stacks are being collected.
#[derive(Debug)]
pub struct CallstackProfile {
    method: CallstackProfileMethod,
    duration: u64,
    interval_ns: u64,
    samples: Vec<CoreSamples>,
    current: usize,
    phase: Phase,
}

impl View for CallstackProfile {
    type V = ProfileState;

    closed spec fn view(&self) -> ProfileState {
        ProfileState {
            method: self.method,
            duration: self.duration,
            interval_ns: self.interval_ns,
            samples: self.samples@.map_values(|core: CoreSamples| core@),
            current: self.current as nat,
            phase: self.phase@,
        }
    }
}

impl CallstackProfile {
    #[verifier::type_invariant]
    spec fn well_formed(self) -> bool {
        match self.phase@ {
            PhaseModel::Halting | PhaseModel::Walking | PhaseModel::Resuming(_) => self.current
                < self.samples@.len(),
            _ => true,
        }
    }

    /// Starts a profile that takes `duration` seconds.
    pub fn start(
        args: &CallstackProfileArgs,
        duration: u64,
        available_cores: &Vec<usize>,
    ) -> (profile: Self)
        ensures
            profile@ == ProfileState::start(
                args.method,
                duration,
                args.interval_ns,
                profiled_cores(args.cores@, available_cores@),
            ),
    {
        let cores = if args.cores.len() == 0 {
            available_cores
        } else {
            &args.cores
        };
        let mut samples: Vec<CoreSamples> = Vec::new();
        for i in 0..cores.len()
            invariant
                samples@.len() == i,
                forall|j: int|
                    0 <= j < i ==> (#[trigger] samples@[j])@ == (CoreModel {
                        core: cores@[j],
                        callstacks: seq![],
                    }),
        {
            samples.push(CoreSamples::new(cores[i]));
        }
        assert(samples@.map_values(|core: CoreSamples| core@) == no_samples(cores@));
        Self::next_round(args.method, duration, args.interval_ns, samples)
    }

    /// The start of a round over the cores.
    fn next_round(
        method: CallstackProfileMethod,
        duration: u64,
        interval_ns: u64,
        samples: Vec<CoreSamples>,
    ) -> (profile: Self)
        ensures
            profile@ == (ProfileState {
                method,
                duration,
                interval_ns,
                samples: samples@.map_values(|core: CoreSamples| core@),
                current: 0,
                phase: PhaseModel::Finished,
            }).next_round(),
    {
        let phase = if samples.len() == 0 {
            Phase::Checking
        } else {
            Phase::Halting
        };
        CallstackProfile { method, duration, interval_ns, samples, current: 0, phase }
    }

    /// What is to be done next.
    pub fn action(&self) -> (action: SamplingAction)
        ensures
            action == self@.action(),
    {
        proof {
            use_type_invariant(self);
        }
        match &self.phase {
            Phase::Halting => SamplingAction::Halt {
                core: self.samples[self.current].core,
                timeout_ms: HALT_TIMEOUT_MS,
            },
            Phase::Walking => SamplingAction::Walk {
                core: self.samples[self.current].core,
                method: self.method,
            },
            Phase::Resuming(_) => SamplingAction::Resume { core: self.samples[self.current].core },
            Phase::Checking => SamplingAction::ReadClock,
            Phase::Sleeping => SamplingAction::Sleep { nanos: self.interval_ns },
            Phase::Finished => SamplingAction::Finish,
            Phase::Failed => SamplingAction::GiveUp,
        }
    }

    /// Takes note that the core was halted.
    pub fn halted(self) -> (next: Self)
        requires
            self@.action() is Halt,
        ensures
            next@ == self@.halted(),
    {
        proof {
            use_type_invariant(&self);
        }
        CallstackProfile {
            method: self.method,
            duration: self.duration,
            interval_ns: self.interval_ns,
            samples: self.samples,
            current: self.current,
            phase: Phase::Walking,
        }
    }

    /// Takes the call stack of the core.
    pub fn walked(self, callstack: Vec<StackFrameInfo>) -> (next: Self)
        requires
            self@.action() is Walk,
        ensures
            next@ == self@.walked(callstack@),
    {
        proof {
            use_type_invariant(&self);
        }
        CallstackProfile {
            method: self.method,
            duration: self.duration,
            interval_ns: self.interval_ns,
            samples: self.samples,
            current: self.current,
            phase: Phase::Resuming(callstack),
        }
    }

    /// Takes note that the core runs again, and of when that was.
    pub fn resumed(self, time: Duration) -> (next: Self)
        requires
            self@.action() is Resume,
        ensures
            next@ == self@.resumed(duration_nanos(time)),
    {
        proof {
            use_type_invariant(&self);
        }
        let mut samples = self.samples;
        let current: usize = self.current;
        let callstack = match self.phase {
            Phase::Resuming(callstack) => callstack,
            _ => Vec::new(),
        };
        let sample = CallstackSample { callstack, time };
        samples[current].callstacks.push(sample);
        proof {
            let i = current as int;
            assert(samples@[i]@.callstacks == self.samples@[i]@.callstacks.push(sample@));
            assert(samples@.map_values(|core: CoreSamples| core@) == self@.samples_with(sample@));
        }
        let core_count: usize = samples.len();
        if current + 1 < core_count {
            CallstackProfile {
                method: self.method,
                duration: self.duration,
                interval_ns: self.interval_ns,
                samples,
                current: current + 1,
                phase: Phase::Halting,
            }
        } else {
            CallstackProfile {
                method: self.method,
                duration: self.duration,
                interval_ns: self.interval_ns,
                samples,
                current,
                phase: Phase::Checking,
            }
        }
    }

    /// Takes the time since profiling started.
    pub fn elapsed(self, time: Duration) -> (next: Self)
        requires
            self@.action() is ReadClock,
        ensures
            next@ == self@.elapsed(duration_nanos(time)),
    {
        let phase = if time.as_nanos() > Duration::from_secs(self.duration).as_nanos() {
            Phase::Finished
        } else {
            Phase::Sleeping
        };
        CallstackProfile {
            method: self.method,
            duration: self.duration,
            interval_ns: self.interval_ns,
            samples: self.samples,
            current: self.current,
            phase,
        }
    }

    /// Takes note that the wait is over.
    pub fn slept(self) -> (next: Self)
        requires
            self@.action() is Sleep,
        ensures
            next@ == self@.slept(),
    {
        Self::next_round(self.method, self.duration, self.interval_ns, self.samples)
    }

    /// Takes note that the core could not be opened, halted or resumed.
    pub fn failed(self) -> (next: Self)
        requires
            self@.is_fallible(),
        ensures
            next@ == self@.failed(),
    {
        CallstackProfile {
            method: self.method,
            duration: self.duration,
            interval_ns: self.interval_ns,
            samples: self.samples,
            current: self.current,
            phase: Phase::Failed,
        }
    }

    /// The call stacks that were collected, once profiling is over. There are none of a profile that
    /// was given up.
    pub fn into_samples(self) -> (samples: Vec<CoreSamples>)
        requires
            self@.action() is Finish,
        ensures
            samples@.map_values(|core: CoreSamples| core@) == self@.samples,
    {
        self.samples
    }
}

} // verus!
