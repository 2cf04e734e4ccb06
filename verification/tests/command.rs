use callstack_profile::command::{
    ProfileCmd, ProfileRequest, ProfileRun, ProfileType, RunAction,
};
use callstack_profile::{CallstackProfileArgs, CallstackProfileMethod, OutputFormat};

fn cmd(flash: bool, reset: bool) -> ProfileCmd<u32> {
    ProfileCmd { flash, reset, duration: 5, profile_type: ProfileType::Flat(42) }
}

/// Runs a command on a target with these cores, of which some are disabled, and which fails at one
/// action. Returns what was done.
fn run(
    mut run: ProfileRun<u32>,
    cores: &[usize],
    disabled: &[usize],
    failing: Option<RunAction>,
) -> (ProfileRun<u32>, Vec<RunAction>) {
    let mut actions = Vec::new();
    loop {
        let action = run.action();
        actions.push(action);
        if Some(action) == failing {
            run = run.failed();
            continue;
        }
        run = match action {
            RunAction::ListCores => run.listed(cores.to_vec()),
            RunAction::OpenCore { core } if disabled.contains(&core) => run.core_disabled(),
            RunAction::MakeProfile | RunAction::GiveUp => return (run, actions),
            _ => run.succeeded(),
        };
    }
}

#[test]
fn profiling_alone_attaches_and_loads() {
    let (done, actions) = run(cmd(false, false).run(), &[0, 1], &[], None);
    assert_eq!(
        actions,
        vec![RunAction::Attach, RunAction::BuildLoader, RunAction::MakeProfile]
    );
    assert_eq!(done.into_request(), ProfileRequest::Flat { args: 42, duration: 5 });
}

#[test]
fn flashing_does_not_reset() {
    let (_, actions) = run(cmd(true, false).run(), &[0, 1], &[], None);
    assert_eq!(
        actions,
        vec![
            RunAction::Attach,
            RunAction::BuildLoader,
            RunAction::Flash { reset: false },
            RunAction::MakeProfile,
        ]
    );
}

#[test]
fn enabled_cores_are_reset_in_order() {
    let (_, actions) = run(cmd(true, true).run(), &[3, 1, 2], &[1], None);
    assert_eq!(
        actions,
        vec![
            RunAction::Attach,
            RunAction::BuildLoader,
            RunAction::Flash { reset: false },
            RunAction::ListCores,
            RunAction::OpenCore { core: 3 },
            RunAction::ResetCore { core: 3 },
            RunAction::OpenCore { core: 1 },
            RunAction::OpenCore { core: 2 },
            RunAction::ResetCore { core: 2 },
            RunAction::MakeProfile,
        ]
    );
}

#[test]
fn cores_can_be_reset_without_flashing() {
    let (_, actions) = run(cmd(false, true).run(), &[0], &[], None);
    assert_eq!(
        actions,
        vec![
            RunAction::Attach,
            RunAction::BuildLoader,
            RunAction::ListCores,
            RunAction::OpenCore { core: 0 },
            RunAction::ResetCore { core: 0 },
            RunAction::MakeProfile,
        ]
    );
}

#[test]
fn a_target_without_cores_has_nothing_to_reset() {
    let (_, actions) = run(cmd(false, true).run(), &[], &[], None);
    assert_eq!(actions.last(), Some(&RunAction::MakeProfile));
    assert_eq!(actions.len(), 4);
}

#[test]
fn a_last_core_that_is_disabled_is_passed_over() {
    let (_, actions) = run(cmd(false, true).run(), &[6], &[6], None);
    assert_eq!(
        actions[3..],
        [RunAction::OpenCore { core: 6 }, RunAction::MakeProfile]
    );
}

#[test]
fn failures_end_the_run() {
    let failing = [
        RunAction::Attach,
        RunAction::BuildLoader,
        RunAction::Flash { reset: false },
        RunAction::OpenCore { core: 1 },
        RunAction::ResetCore { core: 1 },
    ];
    for action in failing {
        let (done, actions) = run(cmd(true, true).run(), &[0, 1, 2], &[], Some(action));
        assert_eq!(done.action(), RunAction::GiveUp);
        assert_eq!(actions[actions.len() - 2], action);
        assert!(!actions.contains(&RunAction::MakeProfile));
        assert!(!actions.contains(&RunAction::OpenCore { core: 2 }));
    }
}

#[test]
fn callstack_profiles_are_passed_on() {
    let args = CallstackProfileArgs {
        method: CallstackProfileMethod::NaiveDwarf,
        interval_ns: 77,
        cores: vec![2, 1],
        output_format: OutputFormat::FirefoxProfiler,
    };
    let cmd: ProfileCmd<u32> = ProfileCmd {
        flash: true,
        reset: true,
        duration: 9,
        profile_type: ProfileType::Callstack(args.clone()),
    };
    let (done, _) = run(cmd.run(), &[0], &[], None);
    assert_eq!(done.into_request(), ProfileRequest::Callstack { args, duration: 9 });
}
