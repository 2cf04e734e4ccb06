use callstack_profile::StackFrameInfo::{ProgramCounter, ReturnAddress};
use callstack_profile::{FramePointerWalk, MemoryWord, StackFrameInfo, WalkAction, WordSize};

/// Walks along the records in `memory`, and returns the call stack and the addresses that were read.
fn walk(
    is_64_bit: bool,
    frame_pointer: u64,
    program_counter: u64,
    memory: &[(u64, u64)],
) -> (Vec<StackFrameInfo>, Vec<u64>) {
    let mut walk = FramePointerWalk::start(is_64_bit, frame_pointer, program_counter);
    let mut reads = Vec::new();
    while let WalkAction::Read { addr, size } = walk.action() {
        reads.push(addr);
        let (_, value) = memory.iter().find(|(at, _)| *at == addr).unwrap();
        let word = match size {
            WordSize::Word32 => MemoryWord::Word32(*value as u32),
            WordSize::Word64 => MemoryWord::Word64(*value),
        };
        assert!(walk.accepts(word));
        walk = walk.supply(word);
    }
    (walk.into_callstack(), reads)
}

#[test]
fn walk_without_records_finds_the_program_counter() {
    let (callstack, reads) = walk(false, 0, 0x1234, &[]);
    assert_eq!(callstack, vec![ProgramCounter(0x1234)]);
    assert!(reads.is_empty());
}

#[test]
fn walk_follows_the_chain_of_records() {
    let memory = [
        (0x2000_0000, 0x2000_0010),
        (0x2000_0004, 0x0800_0101),
        (0x2000_0010, 0x2000_0020),
        (0x2000_0014, 0x0800_0201),
        (0x2000_0020, 0),
        (0x2000_0024, 0x0800_0301),
    ];
    let (callstack, reads) = walk(false, 0x2000_0000, 0x0800_0010, &memory);
    assert_eq!(
        callstack,
        vec![
            ReturnAddress(0x0800_0301),
            ReturnAddress(0x0800_0201),
            ReturnAddress(0x0800_0101),
            ProgramCounter(0x0800_0010),
        ]
    );
    assert_eq!(
        reads,
        vec![
            0x2000_0004, 0x2000_0000, 0x2000_0014, 0x2000_0010, 0x2000_0024, 0x2000_0020,
        ]
    );
}

#[test]
fn words_are_as_wide_as_the_core() {
    let memory = [(0x1000, 0), (0x1004, 0x1_2345_6789)];
    let (callstack, _) = walk(true, 0x1000, 1, &memory);
    assert_eq!(callstack, vec![ReturnAddress(0x1_2345_6789), ProgramCounter(1)]);
    let (callstack, _) = walk(false, 0x1000, 1, &memory);
    assert_eq!(callstack, vec![ReturnAddress(0x2345_6789), ProgramCounter(1)]);
    assert_eq!(WordSize::of_core(true), WordSize::Word64);
    assert_eq!(WordSize::of_core(false), WordSize::Word32);
    assert_eq!(MemoryWord::Word32(u32::MAX).value(), 0xffff_ffff);
    assert_eq!(MemoryWord::Word64(u64::MAX).value(), u64::MAX);
}

#[test]
fn records_have_to_end_inside_the_address_space() {
    let walk = FramePointerWalk::start(true, 0x1000, 1);
    assert!(walk.accepts(MemoryWord::Word64(u64::MAX)));
    let walk = walk.supply(MemoryWord::Word64(u64::MAX));
    assert_eq!(walk.action(), WalkAction::Read { addr: 0x1000, size: WordSize::Word64 });
    assert!(walk.accepts(MemoryWord::Word64(0)));
    assert!(walk.accepts(MemoryWord::Word64(u64::MAX - 4)));
    assert!(!walk.accepts(MemoryWord::Word64(u64::MAX - 3)));
    let walk = walk.supply(MemoryWord::Word64(u64::MAX - 4));
    assert_eq!(walk.action(), WalkAction::Read { addr: u64::MAX, size: WordSize::Word64 });
}
