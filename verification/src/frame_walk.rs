//! The walk along the chain of frame records of a halted core.
//!
//! A frame record holds the frame pointer of the caller, and 4 bytes behind its start the return
//! address. That is the layout of 32-bit ARM, where the two words lie next to each other, and the
//! one for which the walk is meant. On a 64-bit core, words of 64 bits are read at the same
//! distance, although they overlap there; and on RISC-V, which swaps the two words, the walk does
//! not find the callers.
//!
//! Whoever talks to the core reads the memory that [`FramePointerWalk::action`] asks for and hands
//! the words to [`FramePointerWalk::supply`].

use crate::callstack::StackFrameInfo;
use vstd::prelude::*;

verus! {

/// The size of a word of memory.
#[derive(Clone, Copy, Debug, PartialEq, Eq, Structural)]
pub enum WordSize {
    Word32,
    Word64,
}

impl WordSize {
    /// The size of the words that a core's frame records are read in.
    pub fn of_core(is_64_bit: bool) -> (size: Self)
        ensures
            size == (if is_64_bit {
                WordSize::Word64
            } else {
                WordSize::Word32
            }),
    {
        if is_64_bit {
            WordSize::Word64
        } else {
            WordSize::Word32
        }
    }
}

/// A word that was read from memory.
#[derive(Clone, Copy, Debug, PartialEq, Eq, Structural)]
pub enum MemoryWord {
    Word32(u32),
    Word64(u64),
}

impl MemoryWord {
    /// The number in the word.
    pub open spec fn number(self) -> u64 {
        match self {
            MemoryWord::Word32(word) => word as u64,
            MemoryWord::Word64(word) => word,
        }
    }

    /// The number in the word.
    pub fn value(&self) -> (value: u64)
        ensures
            value == self.number(),
    {
        match self {
            MemoryWord::Word32(word) => *word as u64,
            MemoryWord::Word64(word) => *word,
        }
    }
}

/// The distance in bytes from a frame record's start to its return address, on 32-bit ARM.
pub const RETURN_ADDRESS_OFFSET: u64 = 4;

/// What a walk needs next.
#[derive(Clone, Copy, Debug, PartialEq, Eq, Structural)]
pub enum WalkAction {
    /// A word of memory.
    Read { addr: u64, size: WordSize },
    /// Nothing: the end of the chain has been reached.
    Done,
}

/// How far a walk has got.
pub ghost struct WalkModel {
    pub size: WordSize,
    /// The frame record that is being read, or 0 behind the last one.
    pub frame_pointer: u64,
    /// Whether the return address of that record has been read.
    pub has_return_addr: bool,
    /// The frames found so far, the innermost first.
    pub frames: Seq<StackFrameInfo>,
}

/// A record at this address has its return address inside the address space, or it is the end of
/// the chain.
pub open spec fn is_walkable(frame_pointer: u64) -> bool {
    frame_pointer == 0 || frame_pointer + RETURN_ADDRESS_OFFSET <= u64::MAX
}

impl WalkModel {
    /// The start of a walk.
    pub open spec fn start(size: WordSize, frame_pointer: u64, program_counter: u64) -> Self {
        WalkModel {
            size,
            frame_pointer,
            has_return_addr: false,
            frames: seq![StackFrameInfo::ProgramCounter(program_counter)],
        }
    }

    /// What the walk needs next: the return address of the record that it is at, and then that
    /// record's frame pointer.
    pub open spec fn action(self) -> WalkAction {
        if self.frame_pointer == 0 {
            WalkAction::Done
        } else if self.has_return_addr {
            WalkAction::Read { addr: self.frame_pointer, size: self.size }
        } else {
            WalkAction::Read {
                addr: (self.frame_pointer + RETURN_ADDRESS_OFFSET) as u64,
                size: self.size,
            }
        }
    }

    /// Whether the walk can go on with `number`: it is a return address, or a frame pointer that is
    /// walkable.
    pub open spec fn accepts(self, number: u64) -> bool {
        self.has_return_addr ==> is_walkable(number)
    }

    /// The walk after the word that it asked for turned out to be `number`.
    pub open spec fn supplied(self, number: u64) -> Self {
        if self.has_return_addr {
            WalkModel { frame_pointer: number, has_return_addr: false, ..self }
        } else {
            WalkModel {
                has_return_addr: true,
                frames: self.frames.push(StackFrameInfo::ReturnAddress(number)),
                ..self
            }
        }
    }
}

/// A walk along a chain of frame records.
pub struct FramePointerWalk {
    size: WordSize,
    frame_pointer: u64,
    has_return_addr: bool,
    stack_frames: Vec<StackFrameInfo>,
}

impl View for FramePointerWalk {
    type V = WalkModel;

    closed spec fn view(&self) -> WalkModel {
        WalkModel {
            size: self.size,
            frame_pointer: self.frame_pointer,
            has_return_addr: self.has_return_addr,
            frames: self.stack_frames@,
        }
    }
}

impl FramePointerWalk {
    #[verifier::type_invariant]
    spec fn well_formed(self) -> bool {
        is_walkable(self.frame_pointer)
    }

    /// Starts a walk from the registers of a core.
    pub fn start(is_64_bit: bool, frame_pointer: u64, program_counter: u64) -> (walk: Self)
        requires
            is_walkable(frame_pointer),
        ensures
            walk@ == WalkModel::start(
                if is_64_bit {
                    WordSize::Word64
                } else {
                    WordSize::Word32
                },
                frame_pointer,
                program_counter,
            ),
    {
        let mut stack_frames: Vec<StackFrameInfo> = Vec::new();
        stack_frames.push(StackFrameInfo::ProgramCounter(program_counter));
        FramePointerWalk {
            size: WordSize::of_core(is_64_bit),
            frame_pointer,
            has_return_addr: false,
            stack_frames,
        }
    }

    /// What the walk needs next.
    pub fn action(&self) -> (action: WalkAction)
        ensures
            action == self@.action(),
    {
        proof {
            use_type_invariant(self);
        }
        if self.frame_pointer == 0 {
            WalkAction::Done
        } else if self.has_return_addr {
            WalkAction::Read { addr: self.frame_pointer, size: self.size }
        } else {
            WalkAction::Read { addr: self.frame_pointer + RETURN_ADDRESS_OFFSET, size: self.size }
        }
    }

    /// Whether the walk can go on with `word`.
    pub fn accepts(&self, word: MemoryWord) -> (accepts: bool)
        ensures
            accepts == self@.accepts(word.number()),
    {
        let number: u64 = word.value();
        !self.has_return_addr || number == 0 || number <= u64::MAX - RETURN_ADDRESS_OFFSET
    }

    /// The walk after the word that [`FramePointerWalk::action`] asked for.
    pub fn supply(self, word: MemoryWord) -> (next: Self)
        requires
            self@.action() is Read,
            self@.accepts(word.number()),
        ensures
            next@ == self@.supplied(word.number()),
    {
        proof {
            use_type_invariant(&self);
        }
        let number: u64 = word.value();
        let mut stack_frames = self.stack_frames;
        if self.has_return_addr {
            FramePointerWalk {
                size: self.size,
                frame_pointer: number,
                has_return_addr: false,
                stack_frames,
            }
        } else {
            stack_frames.push(StackFrameInfo::ReturnAddress(number));
            FramePointerWalk {
                size: self.size,
                frame_pointer: self.frame_pointer,
                has_return_addr: true,
                stack_frames,
            }
        }
    }

    /// The call stack that was found, the root first.
    pub fn into_callstack(self) -> (callstack: Vec<StackFrameInfo>)
        ensures
            callstack@ == self@.frames.reverse(),
    {
        let mut callstack: Vec<StackFrameInfo> = Vec::new();
        let mut i: usize = self.stack_frames.len();
        while i > 0
            invariant
                i <= self.stack_frames@.len(),
                callstack@.len() == self.stack_frames@.len() - i,
                forall|k: int|
                    0 <= k < callstack@.len() ==> callstack@[k] == self.stack_frames@.reverse()[k],
            decreases i,
        {
            i = i - 1;
            callstack.push(self.stack_frames[i]);
        }
        assert(callstack@ == self.stack_frames@.reverse());
        callstack
    }
}

/// The walk after `count` words that `memory` holds at the addresses that it asks for.
pub open spec fn walked(walk: WalkModel, memory: spec_fn(u64) -> u64, count: nat) -> WalkModel
    decreases count,
{
    match walk.action() {
        WalkAction::Read { addr, size: _ } if count > 0 => walked(
            walk.supplied(memory(addr)),
            memory,
            (count - 1) as nat,
        ),
        _ => walk,
    }
}

/// The chain of frame records in `memory` that starts at `frame_pointer` has `links` records, and
/// every one of them is walkable.
pub open spec fn is_chain(memory: spec_fn(u64) -> u64, frame_pointer: u64, links: nat) -> bool
    decreases links,
{
    &&& is_walkable(frame_pointer)
    &&& if links == 0 {
        frame_pointer == 0
    } else {
        frame_pointer != 0 && is_chain(memory, memory(frame_pointer), (links - 1) as nat)
    }
}

/// The return addresses in the first `links` records of a chain, the innermost first.
pub open spec fn return_addresses(
    memory: spec_fn(u64) -> u64,
    frame_pointer: u64,
    links: nat,
) -> Seq<StackFrameInfo>
    decreases links,
{
    if links == 0 {
        seq![]
    } else {
        seq![
            StackFrameInfo::ReturnAddress(memory((frame_pointer + RETURN_ADDRESS_OFFSET) as u64)),
        ] + return_addresses(memory, memory(frame_pointer), (links - 1) as nat)
    }
}

proof fn lemma_walk_from_record(walk: WalkModel, memory: spec_fn(u64) -> u64, links: nat)
    requires
        !walk.has_return_addr,
        is_chain(memory, walk.frame_pointer, links),
    ensures
        walked(walk, memory, 2 * links).action() is Done,
        walked(walk, memory, 2 * links).frames == walk.frames + return_addresses(
            memory,
            walk.frame_pointer,
            links,
        ),
    decreases links,
{
    if links > 0 {
        let addr = (walk.frame_pointer + RETURN_ADDRESS_OFFSET) as u64;
        let half = walk.supplied(memory(addr));
        let next = half.supplied(memory(walk.frame_pointer));
        assert(walked(walk, memory, 2 * links) == walked(half, memory, (2 * links - 1) as nat));
        assert(walked(half, memory, (2 * links - 1) as nat) == walked(
            next,
            memory,
            (2 * (links - 1)) as nat,
        ));
        lemma_walk_from_record(next, memory, (links - 1) as nat);
        assert(walk.frames.push(StackFrameInfo::ReturnAddress(memory(addr))) + return_addresses(
            memory,
            next.frame_pointer,
            (links - 1) as nat,
        ) == walk.frames + return_addresses(memory, walk.frame_pointer, links));
    } else {
        assert(walk.frames + return_addresses(memory, walk.frame_pointer, 0) == walk.frames);
    }
}

/// A walk along a chain that ends is done after two reads for every record, and finds the return
/// addresses of all records, from the outermost to the innermost, and then the program counter.
pub proof fn walk_finds_whole_chain(
    memory: spec_fn(u64) -> u64,
    size: WordSize,
    frame_pointer: u64,
    program_counter: u64,
    links: nat,
)
    requires
        is_chain(memory, frame_pointer, links),
    ensures
        ({
            let end = walked(
                WalkModel::start(size, frame_pointer, program_counter),
                memory,
                2 * links,
            );
            &&& end.action() is Done
            &&& end.frames.reverse() == return_addresses(memory, frame_pointer, links).reverse()
                + seq![StackFrameInfo::ProgramCounter(program_counter)]
        }),
{
    let walk = WalkModel::start(size, frame_pointer, program_counter);
    lemma_walk_from_record(walk, memory, links);
    assert((walk.frames + return_addresses(memory, frame_pointer, links)).reverse()
        == return_addresses(memory, frame_pointer, links).reverse() + walk.frames);
}

/// A word is the number that was read, all of it.
pub proof fn words_are_whole_numbers(narrow: u32, wide: u64)
    ensures
        MemoryWord::Word32(narrow).number() == narrow,
        MemoryWord::Word64(wide).number() == wide,
{
}

/// The walk after the words that it asked for turned out to be `numbers`.
pub open spec fn after_numbers(walk: WalkModel, numbers: Seq<u64>) -> WalkModel
    decreases numbers.len(),
{
    if numbers.len() == 0 {
        walk
    } else {
        after_numbers(walk, numbers.drop_last()).supplied(numbers.last())
    }
}

/// The walk asked for every one of `numbers`, and could go on with it.
pub open spec fn are_accepted(walk: WalkModel, numbers: Seq<u64>) -> bool
    decreases numbers.len(),
{
    numbers.len() == 0 || {
        let before = after_numbers(walk, numbers.drop_last());
        &&& are_accepted(walk, numbers.drop_last())
        &&& before.action() is Read
        &&& before.accepts(numbers.last())
    }
}

/// The start of the record that a walk from `frame_pointer` is at after `records` records, of which
/// it has read all of `numbers`: the second number of the record before it.
pub open spec fn record_start(frame_pointer: u64, numbers: Seq<u64>, records: int) -> u64 {
    if records == 0 {
        frame_pointer
    } else {
        numbers[2 * records - 1]
    }
}

proof fn lemma_walk_state(
    size: WordSize,
    frame_pointer: u64,
    program_counter: u64,
    numbers: Seq<u64>,
)
    requires
        are_accepted(WalkModel::start(size, frame_pointer, program_counter), numbers),
    ensures
        ({
            let walk = after_numbers(
                WalkModel::start(size, frame_pointer, program_counter),
                numbers,
            );
            let records = numbers.len() as int / 2;
            &&& walk.size == size
            &&& walk.has_return_addr == (numbers.len() % 2 == 1)
            &&& walk.frame_pointer == record_start(frame_pointer, numbers, records)
            &&& walk.frames.len() == 1 + (numbers.len() + 1) / 2
            &&& walk.frames[0] == StackFrameInfo::ProgramCounter(program_counter)
            &&& forall|k: int|
                0 <= k < (numbers.len() + 1) / 2 ==> #[trigger] walk.frames[k + 1]
                    == StackFrameInfo::ReturnAddress(numbers[2 * k])
        }),
    decreases numbers.len(),
{
    if numbers.len() > 0 {
        let earlier = numbers.drop_last();
        lemma_walk_state(size, frame_pointer, program_counter, earlier);
        let start = WalkModel::start(size, frame_pointer, program_counter);
        let before = after_numbers(start, earlier);
        let after = after_numbers(start, numbers);
        let n = numbers.len() as int;
        if earlier.len() % 2 == 0 {
            assert((n + 1) / 2 == n / 2 + 1);
            assert forall|k: int| 0 <= k < (n + 1) / 2 implies #[trigger] after.frames[k + 1]
                == StackFrameInfo::ReturnAddress(numbers[2 * k]) by {
                if k < n / 2 {
                    assert(before.frames[k + 1] == StackFrameInfo::ReturnAddress(earlier[2 * k]));
                }
            }
        } else {
            assert forall|k: int| 0 <= k < (n + 1) / 2 implies #[trigger] after.frames[k + 1]
                == StackFrameInfo::ReturnAddress(numbers[2 * k]) by {
                assert(before.frames[k + 1] == StackFrameInfo::ReturnAddress(earlier[2 * k]));
            }
        }
    }
}

/// A walk reads two words of every record: first the return address, 4 bytes behind the record's
/// start, and then, at its start, the start of the next record. It is done exactly when that is 0.
/// It goes on with any return address, and with the start of a record that does not end behind the
/// address space.
pub proof fn walk_reads_two_words_of_every_record(
    size: WordSize,
    frame_pointer: u64,
    program_counter: u64,
    numbers: Seq<u64>,
)
    requires
        are_accepted(WalkModel::start(size, frame_pointer, program_counter), numbers),
        frame_pointer == 0 || frame_pointer + 4 <= u64::MAX,
    ensures
        ({
            let walk = after_numbers(
                WalkModel::start(size, frame_pointer, program_counter),
                numbers,
            );
            let record = record_start(frame_pointer, numbers, numbers.len() as int / 2);
            &&& walk.action() is Done <==> record == 0
            &&& walk.action() matches WalkAction::Read { addr, size: word_size } ==> {
                &&& word_size == size
                &&& addr == record + if numbers.len() % 2 == 0 {
                    4int
                } else {
                    0int
                }
            }
            &&& forall|number: u64| #[trigger]
                walk.accepts(number) <==> (numbers.len() % 2 == 0 || number == 0 || number + 4
                    <= 0xffff_ffff_ffff_ffff)
        }),
{
    reveal_with_fuel(are_accepted, 3);
    lemma_walk_state(size, frame_pointer, program_counter, numbers);
    if numbers.len() >= 2 {
        let even = if numbers.len() % 2 == 0 {
            numbers
        } else {
            numbers.drop_last()
        };
        let last = even.drop_last();
        lemma_walk_state(size, frame_pointer, program_counter, last);
        assert(after_numbers(
            WalkModel::start(size, frame_pointer, program_counter),
            last,
        ).accepts(even.last()));
        assert(even.last() == record_start(frame_pointer, numbers, numbers.len() as int / 2));
    }
}

/// The call stack of a walk that has read whole records ends in the program counter that it was
/// started with, and before that stand all return addresses that it read, the last one first, just
/// as they were.
pub proof fn walk_keeps_every_address_that_it_reads(
    size: WordSize,
    frame_pointer: u64,
    program_counter: u64,
    numbers: Seq<u64>,
)
    requires
        are_accepted(WalkModel::start(size, frame_pointer, program_counter), numbers),
        numbers.len() % 2 == 0,
    ensures
        ({
            let callstack = after_numbers(
                WalkModel::start(size, frame_pointer, program_counter),
                numbers,
            ).frames.reverse();
            let records = numbers.len() as int / 2;
            &&& callstack.len() == records + 1
            &&& callstack[records] == StackFrameInfo::ProgramCounter(program_counter)
            &&& forall|k: int|
                0 <= k < records ==> #[trigger] callstack[records - 1 - k]
                    == StackFrameInfo::ReturnAddress(numbers[2 * k])
        }),
{
    lemma_walk_state(size, frame_pointer, program_counter, numbers);
    let frames = after_numbers(
        WalkModel::start(size, frame_pointer, program_counter),
        numbers,
    ).frames;
    let records = numbers.len() as int / 2;
    assert forall|k: int| 0 <= k < records implies #[trigger] frames.reverse()[records - 1 - k]
        == StackFrameInfo::ReturnAddress(numbers[2 * k]) by {
        assert(frames.reverse()[records - 1 - k] == frames[k + 1]);
    }
}

/// A walk can start at any record that does not end behind the address space, and where there is
/// none.
pub proof fn any_record_inside_the_address_space_is_walkable(frame_pointer: u64)
    ensures
        is_walkable(frame_pointer) <==> (frame_pointer == 0 || frame_pointer + 4
            <= 0xffff_ffff_ffff_ffff),
{
}

} // verus!
