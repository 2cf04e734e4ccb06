//! Call stacks, and what is to be known about how they are taken.

use crate::duration::duration_nanos;
use std::time::Duration;
use vstd::prelude::*;

verus! {

/// How the call stack of a halted core is found.
#[derive(Clone, Copy, Debug, PartialEq, Eq, Structural)]
pub enum CallstackProfileMethod {
    /// Naively (halt -> walk -> resume) unwind the call stack using DWARF debug information.
    NaiveDwarf,
    /// Naively (halt -> walk -> resume) unwind the call stack using frame pointers and the chain
    /// of frame records.
    NaiveFramePointer,
}

impl CallstackProfileMethod {
    /// The method's name in lower case.
    pub fn to_string(&self) -> (name: String)
        ensures
            name@ == match *self {
                CallstackProfileMethod::NaiveDwarf => "naivedwarf"@,
                CallstackProfileMethod::NaiveFramePointer => "naiveframepointer"@,
            },
    {
        match self {
            CallstackProfileMethod::NaiveDwarf => "naivedwarf".to_owned(),
            CallstackProfileMethod::NaiveFramePointer => "naiveframepointer".to_owned(),
        }
    }
}

/// The format in which a profile is written.
#[derive(Clone, Copy, Debug, PartialEq, Eq, Structural)]
pub enum OutputFormat {
    /// The format of the Firefox profiler, which `samply load probe-rs-profile.json.gz` opens.
    FirefoxProfiler,
}

/// The target interval between samples in nanoseconds, where none is asked for.
pub const DEFAULT_INTERVAL_NS: u64 = 500_000_000;

/// What a call stack profile is to be.
#[derive(Clone, Debug, PartialEq, Eq)]
pub struct CallstackProfileArgs {
    pub method: CallstackProfileMethod,
    /// The target interval between samples in nanoseconds.
    pub interval_ns: u64,
    /// The cores to profile, numbered from 0. If there are none, all cores are profiled.
    pub cores: Vec<usize>,
    pub output_format: OutputFormat,
}

/// A frame of a call stack.
#[derive(Clone, Copy, Debug, PartialEq, Eq, Structural)]
pub enum StackFrameInfo {
    /// The address of the instruction that is executed next.
    ProgramCounter(u64),
    /// The address at which a caller goes on.
    ReturnAddress(u64),
}

/// A single sample: a call stack, and when it was taken.
#[derive(Debug)]
pub struct CallstackSample {
    /// Element 0 is the root, element 1 the first callee, and so on.
    pub callstack: Vec<StackFrameInfo>,
    /// The time since profiling started.
    pub time: Duration,
}

/// What a [`CallstackSample`] says.
pub ghost struct SampleModel {
    pub callstack: Seq<StackFrameInfo>,
    pub nanos: u128,
}

impl View for CallstackSample {
    type V = SampleModel;

    open spec fn view(&self) -> SampleModel {
        SampleModel { callstack: self.callstack@, nanos: duration_nanos(self.time) }
    }
}

impl Clone for CallstackSample {
    fn clone(&self) -> (copy: Self)
        ensures
            copy@ == self@,
    {
        CallstackSample { callstack: self.callstack.clone(), time: self.time }
    }
}

/// The call stacks of one core, in the order in which they were taken.
#[derive(Clone, Debug)]
pub struct CoreSamples {
    pub core: usize,
    pub callstacks: Vec<CallstackSample>,
}

/// What [`CoreSamples`] say.
pub ghost struct CoreModel {
    pub core: usize,
    pub callstacks: Seq<SampleModel>,
}

impl View for CoreSamples {
    type V = CoreModel;

    open spec fn view(&self) -> CoreModel {
        CoreModel {
            core: self.core,
            callstacks: self.callstacks@.map_values(|sample: CallstackSample| sample@),
        }
    }
}

impl CoreSamples {
    /// A core of which no call stack has been taken.
    pub fn new(core: usize) -> (samples: Self)
        ensures
            samples@ == (CoreModel { core, callstacks: seq![] }),
    {
        let samples = CoreSamples { core, callstacks: Vec::new() };
        assert(samples@.callstacks == Seq::<SampleModel>::empty());
        samples
    }
}

/// A sample says the frames that it holds, all of them, and its time in nanoseconds.
pub proof fn samples_say_what_they_hold(sample: CallstackSample)
    ensures
        sample@.callstack.len() == sample.callstack@.len(),
        forall|k: int|
            0 <= k < sample.callstack@.len() ==> #[trigger] sample@.callstack[k]
                == sample.callstack@[k],
        sample@.nanos == duration_nanos(sample.time),
{
}

/// The samples of a core say its number, and every sample that they hold, in order.
pub proof fn cores_say_what_they_hold(samples: CoreSamples)
    ensures
        samples@.core == samples.core,
        samples@.callstacks.len() == samples.callstacks@.len(),
        forall|j: int|
            0 <= j < samples.callstacks@.len() ==> {
                let said = #[trigger] samples@.callstacks[j];
                let held = samples.callstacks@[j];
                said.callstack == held.callstack@ && said.nanos == duration_nanos(held.time)
            },
{
}

/// Where no interval is asked for, there are two samples in a second.
pub proof fn default_interval_is_half_a_second()
    ensures
        2 * DEFAULT_INTERVAL_NS == 1_000_000_000,
{
}

} // verus!
