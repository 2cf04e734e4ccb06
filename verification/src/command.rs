//! The command that prepares a target and profiles it.
//!
//! Whoever talks to the target does what [`ProfileRun::action`] says and reports back what came of
//! it.

use crate::callstack::CallstackProfileArgs;
use vstd::prelude::*;

verus! {

/// What kind of profile is to be made. What a flat profile takes is up to the caller.
#[derive(Clone, Debug, PartialEq)]
#[non_exhaustive]
pub enum ProfileType<F> {
    /// Faster flat profiling that only records the function that is executed.
    Flat(F),
    /// Slower call stack profiling that records the function that is executed and all its callers.
    Callstack(CallstackProfileArgs),
}

/// A request to profile a target.
#[derive(Clone, Debug, PartialEq)]
pub struct ProfileCmd<F> {
    /// Flash the ELF file before profiling.
    pub flash: bool,
    /// Reset the cores before profiling.
    pub reset: bool,
    /// The duration of the profile in seconds.
    pub duration: u64,
    pub profile_type: ProfileType<F>,
}

/// The profile that is to be made, once the target is prepared.
#[derive(Clone, Debug, PartialEq)]
pub enum ProfileRequest<F> {
    /// A flat profile of so many seconds.
    Flat { args: F, duration: u64 },
    /// A call stack profile of so many seconds.
    Callstack { args: CallstackProfileArgs, duration: u64 },
}

impl<F> ProfileCmd<F> {
    /// The profile that is asked for.
    pub open spec fn request(self) -> ProfileRequest<F> {
        match self.profile_type {
            ProfileType::Flat(args) => ProfileRequest::Flat { args, duration: self.duration },
            ProfileType::Callstack(args) => ProfileRequest::Callstack {
                args,
                duration: self.duration,
            },
        }
    }
}

/// What is to be done next.
#[derive(Clone, Copy, Debug, PartialEq, Eq, Structural)]
pub enum RunAction {
    /// Attach to the target.
    Attach,
    /// Load the ELF file.
    BuildLoader,
    /// Flash the ELF file; `reset` says whether to reset the target along with that.
    Flash { reset: bool },
    /// List the cores of the target.
    ListCores,
    /// Get access to a core.
    OpenCore { core: usize },
    /// Reset a core.
    ResetCore { core: usize },
    /// Make the profile that [`ProfileRun::into_request`] returns.
    MakeProfile,
    /// Nothing: something failed.
    GiveUp,
}

#[derive(Debug)]
enum Phase {
    Attaching,
    Loading,
    Flashing,
    Listing,
    Opening { cores: Vec<usize>, next: usize },
    Resetting { cores: Vec<usize>, next: usize },
    Ready,
    GivenUp,
}

/// How far the preparations have got.
pub ghost enum RunPhase {
    Attaching,
    Loading,
    Flashing,
    Listing,
    /// The core at index `next` of `cores` is to be opened.
    Opening { cores: Seq<usize>, next: nat },
    /// The core at index `next` of `cores` is open, and to be reset.
    Resetting { cores: Seq<usize>, next: nat },
    /// The profile can be made.
    Ready,
    /// Something failed.
    GivenUp,
}

impl View for Phase {
    type V = RunPhase;

    closed spec fn view(&self) -> RunPhase {
        match self {
            Phase::Attaching => RunPhase::Attaching,
            Phase::Loading => RunPhase::Loading,
            Phase::Flashing => RunPhase::Flashing,
            Phase::Listing => RunPhase::Listing,
            Phase::Opening { cores, next } => RunPhase::Opening { cores: cores@, next: *next as nat },
            Phase::Resetting { cores, next } => RunPhase::Resetting {
                cores: cores@,
                next: *next as nat,
            },
            Phase::Ready => RunPhase::Ready,
            Phase::GivenUp => RunPhase::GivenUp,
        }
    }
}

/// What a [`ProfileRun`] is.
pub ghost struct RunState {
    pub flash: bool,
    pub reset: bool,
    pub phase: RunPhase,
}

impl RunState {
    /// The start of a run.
    pub open spec fn start(flash: bool, reset: bool) -> Self {
        RunState { flash, reset, phase: RunPhase::Attaching }
    }

    /// What is to be done next. Flashing does not reset the target: that comes later, so that it
    /// can be done without flashing too.
    pub open spec fn action(self) -> RunAction {
        match self.phase {
            RunPhase::Attaching => RunAction::Attach,
            RunPhase::Loading => RunAction::BuildLoader,
            RunPhase::Flashing => RunAction::Flash { reset: false },
            RunPhase::Listing => RunAction::ListCores,
            RunPhase::Opening { cores, next } => RunAction::OpenCore { core: cores[next as int] },
            RunPhase::Resetting { cores, next } => RunAction::ResetCore {
                core: cores[next as int],
            },
            RunPhase::Ready => RunAction::MakeProfile,
            RunPhase::GivenUp => RunAction::GiveUp,
        }
    }

    /// The next action can fail.
    pub open spec fn is_fallible(self) -> bool {
        match self.action() {
            RunAction::ListCores | RunAction::MakeProfile | RunAction::GiveUp => false,
            _ => true,
        }
    }

    pub open spec fn at(self, phase: RunPhase) -> Self {
        RunState { phase, ..self }
    }

    /// The run once the flash memory holds what it should.
    pub open spec fn flashed(self) -> Self {
        self.at(
            if self.reset {
                RunPhase::Listing
            } else {
                RunPhase::Ready
            },
        )
    }

    /// The run when the core at index `next` is up, if there is one.
    pub open spec fn open_next(self, cores: Seq<usize>, next: nat) -> Self {
        self.at(
            if next < cores.len() {
                RunPhase::Opening { cores, next }
            } else {
                RunPhase::Ready
            },
        )
    }

    /// The run after the action was done.
    pub open spec fn succeeded(self) -> Self {
        match self.phase {
            RunPhase::Attaching => self.at(RunPhase::Loading),
            RunPhase::Loading => if self.flash {
                self.at(RunPhase::Flashing)
            } else {
                self.flashed()
            },
            RunPhase::Flashing => self.flashed(),
            RunPhase::Opening { cores, next } => self.at(RunPhase::Resetting { cores, next }),
            RunPhase::Resetting { cores, next } => self.open_next(cores, next + 1),
            _ => self,
        }
    }

    /// The run after the cores were listed.
    pub open spec fn listed(self, cores: Seq<usize>) -> Self {
        self.open_next(cores, 0)
    }

    /// The run after the core turned out to be disabled: it is passed over.
    pub open spec fn core_disabled(self) -> Self {
        self.open_next(self.phase->Opening_cores, self.phase->Opening_next + 1)
    }

    /// The run after the action failed.
    pub open spec fn failed(self) -> Self {
        self.at(RunPhase::GivenUp)
    }
}

/// A request to profile a target that is being carried out.
#[derive(Debug)]
pub struct ProfileRun<F> {
    cmd: ProfileCmd<F>,
    phase: Phase,
}

impl<F> View for ProfileRun<F> {
    type V = RunState;

    closed spec fn view(&self) -> RunState {
        RunState { flash: self.cmd.flash, reset: self.cmd.reset, phase: self.phase@ }
    }
}

impl<F> ProfileCmd<F> {
    /// Starts to carry out the request.
    pub fn run(self) -> (run: ProfileRun<F>)
        ensures
            run@ == RunState::start(self.flash, self.reset),
            run.cmd() == self,
    {
        ProfileRun { cmd: self, phase: Phase::Attaching }
    }
}

impl<F> ProfileRun<F> {
    #[verifier::type_invariant]
    spec fn well_formed(self) -> bool {
        match self.phase {
            Phase::Opening { cores, next } => next < cores@.len(),
            Phase::Resetting { cores, next } => next < cores@.len(),
            _ => true,
        }
    }

    /// The request.
    pub closed spec fn cmd(self) -> ProfileCmd<F> {
        self.cmd
    }

    /// What is to be done next.
    pub fn action(&self) -> (action: RunAction)
        ensures
            action == self@.action(),
    {
        proof {
            use_type_invariant(self);
        }
        match &self.phase {
            Phase::Attaching => RunAction::Attach,
            Phase::Loading => RunAction::BuildLoader,
            Phase::Flashing => RunAction::Flash { reset: false },
            Phase::Listing => RunAction::ListCores,
            Phase::Opening { cores, next } => RunAction::OpenCore { core: cores[*next] },
            Phase::Resetting { cores, next } => RunAction::ResetCore { core: cores[*next] },
            Phase::Ready => RunAction::MakeProfile,
            Phase::GivenUp => RunAction::GiveUp,
        }
    }

    /// The phase that follows flashing.
    fn phase_after_flashing(reset: bool) -> (phase: Phase)
        ensures
            phase@ == (if reset {
                RunPhase::Listing
            } else {
                RunPhase::Ready
            }),
    {
        if reset {
            Phase::Listing
        } else {
            Phase::Ready
        }
    }

    /// The phase in which the core at index `next` is up, if there is one.
    fn phase_for_core(cores: Vec<usize>, next: usize) -> (phase: Phase)
        ensures
            phase@ == (if next < cores@.len() {
                RunPhase::Opening { cores: cores@, next: next as nat }
            } else {
                RunPhase::Ready
            }),
    {
        if next < cores.len() {
            Phase::Opening { cores, next }
        } else {
            Phase::Ready
        }
    }

    /// Takes note that the action was done.
    pub fn succeeded(self) -> (next: Self)
        requires
            self@.is_fallible(),
        ensures
            next@ == self@.succeeded(),
            next.cmd() == self.cmd(),
    {
        proof {
            use_type_invariant(&self);
        }
        let phase = match self.phase {
            Phase::Attaching => Phase::Loading,
            Phase::Loading => if self.cmd.flash {
                Phase::Flashing
            } else {
                Self::phase_after_flashing(self.cmd.reset)
            },
            Phase::Flashing => Self::phase_after_flashing(self.cmd.reset),
            Phase::Opening { cores, next } => Phase::Resetting { cores, next },
            Phase::Resetting { cores, next } => {
                let len: usize = cores.len();
                assert(next < len);
                Self::phase_for_core(cores, next + 1)
            },
            Phase::Listing => Phase::Listing,
            Phase::Ready => Phase::Ready,
            Phase::GivenUp => Phase::GivenUp,
        };
        ProfileRun { cmd: self.cmd, phase }
    }

    /// Takes the cores of the target.
    pub fn listed(self, cores: Vec<usize>) -> (next: Self)
        requires
            self@.action() is ListCores,
        ensures
            next@ == self@.listed(cores@),
            next.cmd() == self.cmd(),
    {
        ProfileRun { cmd: self.cmd, phase: Self::phase_for_core(cores, 0) }
    }

    /// Takes note that the core cannot be opened because it is disabled.
    pub fn core_disabled(self) -> (next: Self)
        requires
            self@.action() is OpenCore,
        ensures
            next@ == self@.core_disabled(),
            next.cmd() == self.cmd(),
    {
        proof {
            use_type_invariant(&self);
        }
        let phase = match self.phase {
            Phase::Opening { cores, next } => {
                let len: usize = cores.len();
                assert(next < len);
                Self::phase_for_core(cores, next + 1)
            },
            _ => Phase::GivenUp,
        };
        ProfileRun { cmd: self.cmd, phase }
    }

    /// Takes note that the action failed.
    pub fn failed(self) -> (next: Self)
        requires
            self@.is_fallible(),
        ensures
            next@ == self@.failed(),
            next.cmd() == self.cmd(),
    {
        ProfileRun { cmd: self.cmd, phase: Phase::GivenUp }
    }

    /// The profile that is to be made now.
    pub fn into_request(self) -> (request: ProfileRequest<F>)
        requires
            self@.action() is MakeProfile,
        ensures
            request == self.cmd().request(),
    {
        let duration: u64 = self.cmd.duration;
        match self.cmd.profile_type {
            ProfileType::Flat(args) => ProfileRequest::Flat { args, duration },
            ProfileType::Callstack(args) => ProfileRequest::Callstack { args, duration },
        }
    }
}

} // verus!
