use callstack_profile::StackFrameInfo::{ProgramCounter, ReturnAddress};
use callstack_profile::{dwarf_unwind, program_counters_fit, UnwoundFrame};

fn frame(pc: u128, is_inlined: bool) -> UnwoundFrame {
    UnwoundFrame { pc, is_inlined }
}

#[test]
fn failed_unwinding_gives_an_empty_call_stack() {
    assert_eq!(dwarf_unwind(None), vec![]);
    assert_eq!(dwarf_unwind(Some(vec![])), vec![]);
}

#[test]
fn call_stacks_start_at_the_root() {
    let frames = vec![frame(0x100, false), frame(0x200, false), frame(0x300, false)];
    assert!(program_counters_fit(&frames));
    assert_eq!(
        dwarf_unwind(Some(frames)),
        vec![ReturnAddress(0x300), ReturnAddress(0x200), ProgramCounter(0x100)]
    );
}

#[test]
fn inlined_frames_are_left_out() {
    let frames = vec![
        frame(0x100, false),
        frame(0x100, true),
        frame(0x200, false),
        frame(0x200, true),
    ];
    assert_eq!(dwarf_unwind(Some(frames)), vec![ReturnAddress(0x200), ProgramCounter(0x100)]);
}

#[test]
fn innermost_frame_is_kept_though_it_is_inlined() {
    let frames = vec![frame(0x100, true), frame(0x200, true), frame(0x300, false)];
    assert_eq!(dwarf_unwind(Some(frames)), vec![ReturnAddress(0x300), ProgramCounter(0x100)]);
    assert_eq!(dwarf_unwind(Some(vec![frame(7, true)])), vec![ProgramCounter(7)]);
}

#[test]
fn program_counters_have_at_most_64_bits() {
    let widest = u64::MAX as u128;
    assert!(program_counters_fit(&vec![]));
    assert!(program_counters_fit(&vec![frame(widest, false), frame(widest, false)]));
    assert!(!program_counters_fit(&vec![frame(widest + 1, true)]));
    assert!(!program_counters_fit(&vec![frame(1, false), frame(widest + 1, false)]));
    assert!(program_counters_fit(&vec![frame(1, false), frame(widest + 1, true)]));
    assert_eq!(
        dwarf_unwind(Some(vec![frame(widest, false)])),
        vec![ProgramCounter(u64::MAX)]
    );
}
