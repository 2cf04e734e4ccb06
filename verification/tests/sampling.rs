use callstack_profile::sampling::{CallstackProfile, SamplingAction, HALT_TIMEOUT_MS};
use callstack_profile::StackFrameInfo::ProgramCounter;
use callstack_profile::{CallstackProfileArgs, CallstackProfileMethod, CoreSamples, OutputFormat};
use std::time::Duration;

fn args(cores: Vec<usize>) -> CallstackProfileArgs {
    CallstackProfileArgs {
        method: CallstackProfileMethod::NaiveFramePointer,
        interval_ns: 250,
        cores,
        output_format: OutputFormat::FirefoxProfiler,
    }
}

/// Runs a profile of a target whose clock goes on by `step` whenever it is read. The program
/// counter of a core is its number. Returns the samples and what was done.
fn run(mut profile: CallstackProfile, step: Duration) -> (Vec<CoreSamples>, Vec<SamplingAction>) {
    let mut now = Duration::ZERO;
    let mut actions = Vec::new();
    loop {
        let action = profile.action();
        actions.push(action);
        profile = match action {
            SamplingAction::Halt { .. } => profile.halted(),
            SamplingAction::Walk { core, .. } => {
                profile.walked(vec![ProgramCounter(core as u64)])
            }
            SamplingAction::Resume { .. } => {
                now += step;
                profile.resumed(now)
            }
            SamplingAction::ReadClock => {
                now += step;
                profile.elapsed(now)
            }
            SamplingAction::Sleep { .. } => profile.slept(),
            SamplingAction::Finish => return (profile.into_samples(), actions),
            SamplingAction::GiveUp => panic!("no core fails"),
        };
    }
}

fn times(core: &CoreSamples) -> Vec<u128> {
    core.callstacks.iter().map(|sample| sample.time.as_nanos()).collect()
}

#[test]
fn new_cores_have_no_samples() {
    let samples = CoreSamples::new(3);
    assert_eq!(samples.core, 3);
    assert!(samples.callstacks.is_empty());
}

#[test]
fn a_round_halts_walks_and_resumes_every_core() {
    let method = CallstackProfileMethod::NaiveFramePointer;
    let profile = CallstackProfile::start(&args(vec![4, 2]), 0, &vec![0, 1]);
    let (samples, actions) = run(profile, Duration::from_millis(1));
    assert_eq!(
        actions,
        vec![
            SamplingAction::Halt { core: 4, timeout_ms: 10 },
            SamplingAction::Walk { core: 4, method },
            SamplingAction::Resume { core: 4 },
            SamplingAction::Halt { core: 2, timeout_ms: 10 },
            SamplingAction::Walk { core: 2, method },
            SamplingAction::Resume { core: 2 },
            SamplingAction::ReadClock,
            SamplingAction::Finish,
        ]
    );
    assert_eq!(HALT_TIMEOUT_MS, 10);
    assert_eq!(samples.len(), 2);
    assert_eq!(samples[0].core, 4);
    assert_eq!(samples[0].callstacks[0].callstack, vec![ProgramCounter(4)]);
    assert_eq!(times(&samples[0]), vec![1_000_000]);
    assert_eq!(samples[1].core, 2);
    assert_eq!(samples[1].callstacks[0].callstack, vec![ProgramCounter(2)]);
    assert_eq!(times(&samples[1]), vec![2_000_000]);
}

#[test]
fn all_cores_are_profiled_if_none_is_asked_for() {
    let profile = CallstackProfile::start(&args(vec![]), 0, &vec![7, 8, 9]);
    let (samples, _) = run(profile, Duration::from_millis(1));
    let cores: Vec<usize> = samples.iter().map(|samples| samples.core).collect();
    assert_eq!(cores, vec![7, 8, 9]);
}

#[test]
fn rounds_go_on_until_more_than_the_duration_has_passed() {
    let profile = CallstackProfile::start(&args(vec![0]), 2, &vec![0]);
    // The clock shows 1 s in the first round, exactly 2 s in the second, and 3 s in the third.
    let (samples, actions) = run(profile, Duration::from_millis(500));
    assert_eq!(times(&samples[0]), vec![500_000_000, 1_500_000_000, 2_500_000_000]);
    let sleeps: Vec<&SamplingAction> = actions
        .iter()
        .filter(|action| matches!(action, SamplingAction::Sleep { .. }))
        .collect();
    assert_eq!(
        sleeps,
        vec![&SamplingAction::Sleep { nanos: 250 }, &SamplingAction::Sleep { nanos: 250 }]
    );
}

#[test]
fn every_core_gets_the_same_number_of_samples() {
    let profile = CallstackProfile::start(&args(vec![2, 0, 1]), 10, &vec![]);
    let (samples, _) = run(profile, Duration::from_millis(900));
    assert_eq!(samples.len(), 3);
    for core in &samples {
        assert_eq!(core.callstacks.len(), 3);
    }
}

#[test]
fn a_target_without_cores_only_waits() {
    let profile = CallstackProfile::start(&args(vec![]), 1, &vec![]);
    let (samples, actions) = run(profile, Duration::from_millis(600));
    assert!(samples.is_empty());
    assert_eq!(
        actions,
        vec![
            SamplingAction::ReadClock,
            SamplingAction::Sleep { nanos: 250 },
            SamplingAction::ReadClock,
            SamplingAction::Finish,
        ]
    );
}

#[test]
fn samples_can_be_copied() {
    let profile = CallstackProfile::start(&args(vec![5]), 0, &vec![]);
    let (samples, _) = run(profile, Duration::from_millis(1));
    let copy = samples[0].callstacks[0].clone();
    assert_eq!(copy.callstack, vec![ProgramCounter(5)]);
    assert_eq!(copy.time, Duration::from_millis(1));
}

#[test]
fn methods_have_lower_case_names() {
    assert_eq!(CallstackProfileMethod::NaiveDwarf.to_string(), "naivedwarf");
    assert_eq!(CallstackProfileMethod::NaiveFramePointer.to_string(), "naiveframepointer");
}

#[test]
fn samples_are_as_many_as_clock_reads() {
    let profile = CallstackProfile::start(&args(vec![0, 3]), 7, &vec![]);
    let (samples, actions) = run(profile, Duration::from_millis(700));
    let reads = actions.iter().filter(|action| **action == SamplingAction::ReadClock).count();
    assert_eq!(reads, 4);
    for core in &samples {
        assert_eq!(core.callstacks.len(), reads);
    }
}

#[test]
fn sample_times_go_forward() {
    let profile = CallstackProfile::start(&args(vec![5, 6]), 1, &vec![]);
    let (samples, _) = run(profile, Duration::from_millis(200));
    assert_eq!(times(&samples[0]), vec![200_000_000, 800_000_000]);
    assert_eq!(times(&samples[1]), vec![400_000_000, 1_000_000_000]);
}

#[test]
fn a_core_that_cannot_be_halted_ends_the_profile() {
    let profile = CallstackProfile::start(&args(vec![0, 1]), 5, &vec![]);
    let profile = profile.halted().walked(vec![]).resumed(Duration::from_millis(1));
    assert_eq!(profile.action(), SamplingAction::Halt { core: 1, timeout_ms: 10 });
    assert_eq!(profile.failed().action(), SamplingAction::GiveUp);
}

#[test]
fn a_core_that_cannot_be_resumed_ends_the_profile() {
    let profile = CallstackProfile::start(&args(vec![0, 1]), 5, &vec![]);
    let profile = profile.halted().walked(vec![ProgramCounter(1)]);
    assert_eq!(profile.action(), SamplingAction::Resume { core: 0 });
    assert_eq!(profile.failed().action(), SamplingAction::GiveUp);
}
