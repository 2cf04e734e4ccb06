//! The call stack of a core whose frames were unwound with debug information.

use crate::callstack::StackFrameInfo;
use vstd::prelude::*;

verus! {

/// A frame as the unwinder reports it.
#[derive(Clone, Copy, Debug, PartialEq, Eq, Structural)]
pub struct UnwoundFrame {
    /// The program counter of the frame, as the register holds it.
    pub pc: u128,
    /// Whether the frame is that of a function that was inlined into its caller.
    pub is_inlined: bool,
}

/// Whether frame `i` is recorded: the innermost frame always is, and the others unless they were
/// inlined. (Inlined functions can be added when addresses are turned into symbols.)
pub open spec fn is_recorded(frames: Seq<UnwoundFrame>, i: int) -> bool {
    i == 0 || !frames[i].is_inlined
}

/// What is recorded of frame `i`.
pub open spec fn frame_info(frames: Seq<UnwoundFrame>, i: int) -> StackFrameInfo {
    if i == 0 {
        StackFrameInfo::ProgramCounter(frames[i].pc as u64)
    } else {
        StackFrameInfo::ReturnAddress(frames[i].pc as u64)
    }
}

/// The call stack that `frames`, which start at the innermost one, come to: what is recorded of
/// them, the root first.
pub open spec fn callstack_of(frames: Seq<UnwoundFrame>) -> Seq<StackFrameInfo>
    decreases frames.len(),
{
    if frames.len() == 0 {
        seq![]
    } else {
        let i = frames.len() - 1;
        let inner = callstack_of(frames.drop_last());
        if is_recorded(frames, i) {
            seq![frame_info(frames, i)] + inner
        } else {
            inner
        }
    }
}

/// The program counters that are recorded have no more than 64 bits.
pub open spec fn counters_fit(frames: Seq<UnwoundFrame>) -> bool {
    forall|i: int|
        0 <= i < frames.len() && is_recorded(frames, i) ==> (#[trigger] frames[i]).pc <= u64::MAX
}

/// Checks that the program counters that are recorded have no more than 64 bits.
pub fn program_counters_fit(frames: &Vec<UnwoundFrame>) -> (fit: bool)
    ensures
        fit == counters_fit(frames@),
{
    for i in 0..frames.len()
        invariant
            forall|j: int|
                0 <= j < i && is_recorded(frames@, j) ==> (#[trigger] frames@[j]).pc <= u64::MAX,
    {
        if (i == 0 || !frames[i].is_inlined) && frames[i].pc > u64::MAX as u128 {
            assert(frames@[i as int].pc > u64::MAX);
            return false;
        }
    }
    true
}

/// Makes a call stack of what the unwinder found, starting at the innermost frame. If it failed,
/// the call stack is empty.
pub fn dwarf_unwind(unwound: Option<Vec<UnwoundFrame>>) -> (callstack: Vec<StackFrameInfo>)
    requires
        unwound matches Some(frames) ==> counters_fit(frames@),
    ensures
        callstack@ == match unwound {
            Some(frames) => callstack_of(frames@),
            None => seq![],
        },
{
    let frames = match unwound {
        Some(frames) => frames,
        None => Vec::new(),
    };
    let mut callstack: Vec<StackFrameInfo> = Vec::new();
    let mut idx: usize = frames.len();
    assert(frames@.take(idx as int) == frames@);
    while idx > 0
        invariant
            idx <= frames@.len(),
            counters_fit(frames@),
            callstack@ + callstack_of(frames@.take(idx as int)) == callstack_of(frames@),
        decreases idx,
    {
        let ghost outer = frames@.take(idx as int);
        assert(outer.drop_last() == frames@.take(idx - 1));
        idx = idx - 1;
        let frame = frames[idx];
        if idx == 0 || !frame.is_inlined {
            let addr: u64 = frame.pc as u64;
            let info = if idx == 0 {
                StackFrameInfo::ProgramCounter(addr)
            } else {
                StackFrameInfo::ReturnAddress(addr)
            };
            assert(callstack@.push(info) + callstack_of(frames@.take(idx as int)) == callstack@ + (
            seq![info] + callstack_of(frames@.take(idx as int))));
            callstack.push(info);
        }
    }
    assert(callstack@ + callstack_of(frames@.take(0)) == callstack@);
    callstack
}

/// A call stack ends in the program counter of the innermost frame, and all before it are return
/// addresses.
pub proof fn only_the_innermost_frame_is_a_program_counter(frames: Seq<UnwoundFrame>)
    requires
        frames.len() > 0,
    ensures
        callstack_of(frames).len() > 0,
        callstack_of(frames).last() == StackFrameInfo::ProgramCounter(frames[0].pc as u64),
        forall|k: int|
            0 <= k < callstack_of(frames).len() - 1 ==> (
            #[trigger] callstack_of(frames)[k]) is ReturnAddress,
    decreases frames.len(),
{
    let inner = callstack_of(frames.drop_last());
    if frames.len() > 1 {
        only_the_innermost_frame_is_a_program_counter(frames.drop_last());
        assert(frames.drop_last()[0] == frames[0]);
        if is_recorded(frames, frames.len() - 1) {
            assert forall|k: int| 0 < k < callstack_of(frames).len() - 1 implies (
            #[trigger] callstack_of(frames)[k]) is ReturnAddress by {
                assert(callstack_of(frames)[k] == inner[k - 1]);
            }
        }
    } else {
        assert(inner == Seq::<StackFrameInfo>::empty());
    }
}

/// Leaving out an inlined frame that is not the innermost one does not change the call stack.
pub proof fn inlined_frames_leave_no_trace(frames: Seq<UnwoundFrame>, i: int)
    requires
        0 < i < frames.len(),
        frames[i].is_inlined,
    ensures
        callstack_of(frames.remove(i)) == callstack_of(frames),
    decreases frames.len(),
{
    if i == frames.len() - 1 {
        assert(frames.remove(i) == frames.drop_last());
    } else {
        inlined_frames_leave_no_trace(frames.drop_last(), i);
        assert(frames.remove(i).drop_last() == frames.drop_last().remove(i));
        assert(frames.remove(i).last() == frames.last());
    }
}

/// Where no frame was inlined, the call stack holds every frame, in reverse order.
pub proof fn frames_that_are_not_inlined_are_all_recorded(frames: Seq<UnwoundFrame>)
    requires
        forall|i: int| 0 < i < frames.len() ==> !(#[trigger] frames[i]).is_inlined,
    ensures
        callstack_of(frames) == Seq::new(
            frames.len(),
            |k: int| frame_info(frames, frames.len() - 1 - k),
        ),
    decreases frames.len(),
{
    if frames.len() > 0 {
        let rest = frames.drop_last();
        frames_that_are_not_inlined_are_all_recorded(rest);
        assert forall|k: int| 0 <= k < rest.len() implies frame_info(rest, k) == frame_info(
            frames,
            k,
        ) by {}
    }
}

/// The frames that call the innermost one, but for those that were inlined, from the inner to the
/// outer.
pub open spec fn callers(frames: Seq<UnwoundFrame>) -> Seq<UnwoundFrame> {
    frames.skip(1).filter(|frame: UnwoundFrame| !frame.is_inlined)
}

/// A call stack holds whole addresses: its last element is the program counter of the innermost
/// frame, and before it stand, from the outer to the inner, return addresses that are the program
/// counters of the callers that were not inlined, as numbers. There is nothing else in it, and
/// nothing at all where there are no frames.
pub proof fn callstacks_hold_the_addresses_of_the_frames(frames: Seq<UnwoundFrame>)
    requires
        forall|i: int|
            0 <= i < frames.len() && (i == 0 || !frames[i].is_inlined) ==> (
            #[trigger] frames[i]).pc <= u64::MAX,
    ensures
        frames.len() == 0 ==> callstack_of(frames).len() == 0,
        frames.len() > 0 ==> {
            &&& callstack_of(frames).len() == callers(frames).len() + 1
            &&& callstack_of(frames).last() matches StackFrameInfo::ProgramCounter(addr) && addr
                == frames[0].pc
        },
        frames.len() > 0 ==> forall|k: int|
            0 <= k < callers(frames).len() ==> ((#[trigger] callstack_of(frames)[callers(
                frames,
            ).len() - 1 - k]) matches StackFrameInfo::ReturnAddress(addr) && addr == callers(
                frames,
            )[k].pc),
    decreases frames.len(),
{
    let pred = |frame: UnwoundFrame| !frame.is_inlined;
    reveal(Seq::filter);
    if frames.len() == 1 {
        assert(frames.skip(1) =~= seq![]);
        assert(callstack_of(frames.drop_last()) == Seq::<StackFrameInfo>::empty());
        assert(frames[0].pc <= u64::MAX);
    } else if frames.len() > 1 {
        let rest = frames.drop_last();
        callstacks_hold_the_addresses_of_the_frames(rest);
        assert(frames.skip(1).drop_last() =~= rest.skip(1));
        assert(frames.skip(1).last() == frames.last());
        assert(frames[0] == rest[0]);
        let n = callers(frames).len();
        let m = callers(rest).len();
        assert forall|k: int| 0 <= k < n implies ((#[trigger] callstack_of(frames)[n - 1
            - k]) matches StackFrameInfo::ReturnAddress(addr) && addr == callers(frames)[k].pc) by {
            if k < m {
                assert(callers(frames)[k] == callers(rest)[k]);
                assert(callstack_of(frames)[n - 1 - k] == callstack_of(rest)[m - 1 - k]);
            } else {
                assert(callers(frames)[k] == frames.last());
                assert(frames[frames.len() - 1].pc <= u64::MAX);
            }
        }
    }
}

/// What [`dwarf_unwind`] asks for is that the program counters of the innermost frame and of those
/// that were not inlined have no more than 64 bits, and nothing else.
pub proof fn counters_fit_in_64_bits(frames: Seq<UnwoundFrame>)
    ensures
        counters_fit(frames) <==> forall|i: int|
            0 <= i < frames.len() && (i == 0 || !frames[i].is_inlined) ==> (
            #[trigger] frames[i]).pc <= 0xffff_ffff_ffff_ffff,
{
}

} // verus!
