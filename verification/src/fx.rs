//! Profiles of the Firefox profiler.
//!
//! `fxprof_processed_profile` holds the data of a profile. This module says what the parts of it
//! that are used here do, over a model of a profile's contents.

use crate::duration::duration_nanos;
use fxprof_processed_profile::debugid::DebugId;
use fxprof_processed_profile::{
    CategoryColor, CategoryHandle, CategoryPairHandle, CpuDelta, Frame, FrameFlags, FrameInfo,
    LibraryHandle, LibraryInfo, ProcessHandle, Profile, ReferenceTimestamp, SamplingInterval,
    StackHandle, ThreadHandle, Timestamp,
};
use std::time::Duration;
use vstd::prelude::*;

verus! {

/// A profile.
#[verifier::external_type_specification]
#[verifier::external_body]
pub struct ExProfile(Profile);

/// The absolute time to which the times in a profile are relative.
#[verifier::external_type_specification]
#[verifier::external_body]
pub struct ExReferenceTimestamp(ReferenceTimestamp);

/// The intended time between two samples.
#[verifier::external_type_specification]
#[verifier::external_body]
pub struct ExSamplingInterval(SamplingInterval);

/// A time, relative to the reference of a profile.
#[verifier::external_type_specification]
#[verifier::external_body]
pub struct ExTimestamp(Timestamp);

/// An amount of CPU time.
#[verifier::external_type_specification]
#[verifier::external_body]
pub struct ExCpuDelta(CpuDelta);

/// The color of a category.
#[verifier::external_type_specification]
#[verifier::external_body]
pub struct ExCategoryColor(CategoryColor);

/// A category of a profile.
#[verifier::external_type_specification]
#[verifier::external_body]
pub struct ExCategoryHandle(CategoryHandle);

/// A category of a profile, and possibly a subcategory.
#[verifier::external_type_specification]
#[verifier::external_body]
pub struct ExCategoryPairHandle(CategoryPairHandle);

/// A process of a profile.
#[verifier::external_type_specification]
#[verifier::external_body]
pub struct ExProcessHandle(ProcessHandle);

/// A thread of a profile.
#[verifier::external_type_specification]
#[verifier::external_body]
pub struct ExThreadHandle(ThreadHandle);

/// A library of a profile.
#[verifier::external_type_specification]
#[verifier::external_body]
pub struct ExLibraryHandle(LibraryHandle);

/// A stack of a thread of a profile.
#[verifier::external_type_specification]
#[verifier::external_body]
pub struct ExStackHandle(StackHandle);

/// Where a stack frame is.
#[verifier::external_type_specification]
#[verifier::external_body]
pub struct ExFrame(Frame);

/// The flags of a stack frame.
#[verifier::external_type_specification]
#[verifier::external_body]
pub struct ExFrameFlags(FrameFlags);

/// A stack frame.
#[verifier::external_type_specification]
#[verifier::external_body]
pub struct ExFrameInfo(FrameInfo);

/// What is known of a library.
#[verifier::external_type_specification]
#[verifier::external_body]
pub struct ExLibraryInfo(LibraryInfo);

/// Where a stack frame is.
pub ghost enum FrameModel {
    InstructionPointer(u64),
    ReturnAddress(u64),
    /// A frame that is given in another way.
    Other,
}

/// A stack frame as it is handed to a profile.
pub ghost struct FrameInfoModel {
    pub frame: FrameModel,
    /// The index of its category, and possibly that of a subcategory.
    pub category: (u16, Option<u8>),
    pub flags: u32,
}

/// Where a stack frame is, as a profile keeps it.
pub ghost enum FrameLocation {
    /// An address that is relative to the base of a library.
    InLibrary { lib: nat, relative: u32 },
    /// An address that is in no library.
    Unknown(u64),
}

/// A stack frame as a profile keeps it.
pub ghost struct StackFrame {
    pub location: FrameLocation,
    pub category: (u16, Option<u8>),
    pub flags: u32,
}

/// A sample of a thread.
pub ghost struct ThreadSample {
    pub nanos: u64,
    /// The stack, the root first. It can be empty.
    pub stack: Seq<StackFrame>,
    pub cpu_micros: u64,
    pub weight: i32,
}

/// A thread.
pub ghost struct ThreadModel {
    /// The index of its process.
    pub process: nat,
    /// The number that it was given.
    pub tid: u32,
    pub start_nanos: u64,
    pub is_main: bool,
    pub samples: Seq<ThreadSample>,
}

/// A range of addresses of a process that belongs to a library.
pub ghost struct LibMapping {
    pub start: u64,
    /// The first address behind the range.
    pub end: u64,
    pub relative_at_start: u32,
    /// The index of the library.
    pub lib: nat,
}

/// A process.
pub ghost struct ProcessModel {
    pub name: Seq<char>,
    /// The number that it was given.
    pub pid: u32,
    pub start_nanos: u64,
    /// Its mappings, by ascending start.
    pub mappings: Seq<LibMapping>,
}

/// What is known of a library.
pub ghost struct LibraryModel {
    pub name: Seq<char>,
    pub debug_name: Seq<char>,
    pub path: Seq<char>,
    pub debug_path: Seq<char>,
    pub debug_id: DebugId,
    pub code_id: Option<Seq<char>>,
    pub arch: Option<Seq<char>>,
    pub has_symbol_table: bool,
}

/// A category: its name, and the name of its color.
pub ghost struct CategoryModel {
    pub name: Seq<char>,
    pub color: Seq<char>,
}

/// What a profile holds.
pub ghost struct ProfileModel {
    pub product: Seq<char>,
    pub reference: ReferenceTimestamp,
    pub interval_nanos: u64,
    pub categories: Seq<CategoryModel>,
    pub libs: Seq<LibraryModel>,
    pub processes: Seq<ProcessModel>,
    /// The threads of all processes.
    pub threads: Seq<ThreadModel>,
    /// The libraries of the kernel that is common to the processes.
    pub kernel_mappings: Seq<LibMapping>,
    /// Whether every handle that its data use was given out by the profile itself: those of
    /// categories, processes, threads, stacks, libraries, marker types, and strings, also where
    /// they stand in the fields of markers.
    pub handles_known: bool,
}

/// What `profile` holds.
pub uninterp spec fn profile_model(profile: Profile) -> ProfileModel;

/// The frames of a stack of `profile`, the root first. There are none if it holds no such stack.
pub uninterp spec fn stack_frames(profile: Profile, stack: StackHandle) -> Seq<StackFrame>;

/// The index of the thread to which a stack belongs.
pub uninterp spec fn stack_thread(stack: StackHandle) -> nat;

/// The time so many nanoseconds after the start of 1970.
pub uninterp spec fn reference_timestamp(nanos: u128) -> ReferenceTimestamp;

/// The nanoseconds of an interval.
pub uninterp spec fn interval_nanos(interval: SamplingInterval) -> u64;

/// The nanoseconds from the reference of a profile on.
pub uninterp spec fn timestamp_nanos(timestamp: Timestamp) -> u64;

/// The microseconds of an amount of CPU time.
pub uninterp spec fn cpu_delta_micros(delta: CpuDelta) -> u64;

/// The name of a color.
pub uninterp spec fn color_name(color: CategoryColor) -> Seq<char>;

/// The index of a category in its profile.
pub uninterp spec fn category_index(category: CategoryHandle) -> u16;

/// The index of a category in its profile, and that of a subcategory, if there is one.
pub uninterp spec fn category_pair(pair: CategoryPairHandle) -> (u16, Option<u8>);

/// The index of a process in its profile.
pub uninterp spec fn process_index(process: ProcessHandle) -> nat;

/// The index of a thread in its profile.
pub uninterp spec fn thread_index(thread: ThreadHandle) -> nat;

/// The index of a library in its profile.
pub uninterp spec fn library_index(library: LibraryHandle) -> nat;

/// Where a frame is.
pub uninterp spec fn frame_model(frame: Frame) -> FrameModel;

/// The bits of the flags of a frame.
pub uninterp spec fn flag_bits(flags: FrameFlags) -> u32;

/// What a frame is.
pub uninterp spec fn frame_info_model(info: FrameInfo) -> FrameInfoModel;

/// What is known of a library.
pub uninterp spec fn library_model(info: LibraryInfo) -> LibraryModel;

/// The characters of a string, if there is one.
pub open spec fn text_of(text: Option<String>) -> Option<Seq<char>> {
    match text {
        Some(text) => Some(text@),
        None => None,
    }
}

/// The location of the code at `address`: it belongs to the last mapping that starts at or before
/// it, if it does not lie behind the end of that. Relative addresses have 32 bits.
pub open spec fn locate(mappings: Seq<LibMapping>, address: u64) -> FrameLocation
    decreases mappings.len(),
{
    if mappings.len() == 0 {
        FrameLocation::Unknown(address)
    } else {
        let mapping = mappings.last();
        if address < mapping.start {
            locate(mappings.drop_last(), address)
        } else if address < mapping.end {
            FrameLocation::InLibrary {
                lib: mapping.lib,
                relative: (mapping.relative_at_start + (address - mapping.start) % 0x1_0000_0000)
                    as u32,
            }
        } else {
            FrameLocation::Unknown(address)
        }
    }
}

/// The address that stands for the instruction of a frame: a return address lies behind the call,
/// so that the byte before it is taken.
pub open spec fn lookup_address(frame: FrameModel) -> u64 {
    match frame {
        FrameModel::InstructionPointer(address) => address,
        FrameModel::ReturnAddress(address) => if address == 0 {
            0
        } else {
            (address - 1) as u64
        },
        FrameModel::Other => 0,
    }
}

/// What a profile keeps of a frame.
pub open spec fn stack_frame(mappings: Seq<LibMapping>, info: FrameInfoModel) -> StackFrame {
    StackFrame {
        location: locate(mappings, lookup_address(info.frame)),
        category: info.category,
        flags: info.flags,
    }
}

/// `ReferenceTimestamp::from_duration_since_unix_epoch` makes a timestamp that depends on the
/// length of the duration alone.
pub assume_specification[ ReferenceTimestamp::from_duration_since_unix_epoch ](
    duration: Duration,
) -> (timestamp: ReferenceTimestamp)
    ensures
        timestamp == reference_timestamp(duration_nanos(duration)),
;

/// Calls `SamplingInterval::from` on a duration, which keeps the lower 64 bits of its number of
/// nanoseconds.
#[verifier::external_body]
pub(crate) fn sampling_interval(duration: Duration) -> (interval: SamplingInterval)
    ensures
        interval_nanos(interval) == duration_nanos(duration) % 0x1_0000_0000_0000_0000,
{
    SamplingInterval::from(duration)
}

/// `Timestamp::from_nanos_since_reference` keeps the number of nanoseconds.
pub assume_specification[ Timestamp::from_nanos_since_reference ](nanos: u64) -> (timestamp:
    Timestamp)
    ensures
        timestamp_nanos(timestamp) == nanos,
;

/// Reads `CpuDelta::ZERO`, which is no CPU time at all.
#[verifier::external_body]
pub(crate) fn zero_cpu_delta() -> (delta: CpuDelta)
    ensures
        cpu_delta_micros(delta) == 0,
{
    CpuDelta::ZERO
}

/// Makes a `CategoryColor::Yellow`, which a profile writes as `yellow`.
#[verifier::external_body]
pub(crate) fn yellow() -> (color: CategoryColor)
    ensures
        color_name(color) == "yellow"@,
{
    CategoryColor::Yellow
}

/// Makes a `Frame::InstructionPointer`.
#[verifier::external_body]
pub(crate) fn instruction_pointer(address: u64) -> (frame: Frame)
    ensures
        frame_model(frame) == FrameModel::InstructionPointer(address),
{
    Frame::InstructionPointer(address)
}

/// Makes a `Frame::ReturnAddress`.
#[verifier::external_body]
pub(crate) fn return_address(address: u64) -> (frame: Frame)
    ensures
        frame_model(frame) == FrameModel::ReturnAddress(address),
{
    Frame::ReturnAddress(address)
}

/// Calls `FrameFlags::empty`, which sets no flag.
#[verifier::external_body]
pub(crate) fn no_flags() -> (flags: FrameFlags)
    ensures
        flag_bits(flags) == 0,
{
    FrameFlags::empty()
}

/// Calls `CategoryPairHandle::from` on a category, which names no subcategory.
#[verifier::external_body]
pub(crate) fn whole_category(category: CategoryHandle) -> (pair: CategoryPairHandle)
    ensures
        category_pair(pair) == (category_index(category), None::<u8>),
{
    CategoryPairHandle::from(category)
}

/// Makes a `FrameInfo` of its three fields.
#[verifier::external_body]
pub(crate) fn frame_info(
    frame: Frame,
    category_pair: CategoryPairHandle,
    flags: FrameFlags,
) -> (info: FrameInfo)
    ensures
        frame_info_model(info) == (FrameInfoModel {
            frame: frame_model(frame),
            category: self::category_pair(category_pair),
            flags: flag_bits(flags),
        }),
{
    FrameInfo { frame, category_pair, flags }
}

/// Makes a `LibraryInfo` without a symbol table of its other fields.
#[verifier::external_body]
pub(crate) fn library_info(
    name: String,
    debug_name: String,
    path: String,
    debug_path: String,
    debug_id: DebugId,
    code_id: Option<String>,
    arch: Option<String>,
) -> (info: LibraryInfo)
    ensures
        library_model(info) == (LibraryModel {
            name: name@,
            debug_name: debug_name@,
            path: path@,
            debug_path: debug_path@,
            debug_id,
            code_id: text_of(code_id),
            arch: text_of(arch),
            has_symbol_table: false,
        }),
{
    let symbol_table = None;
    LibraryInfo { name, debug_name, path, debug_path, debug_id, code_id, arch, symbol_table }
}

/// `Profile::new` makes a profile that holds the default category and nothing else.
pub assume_specification[ Profile::new ](
    product: &str,
    reference: ReferenceTimestamp,
    interval: SamplingInterval,
) -> (profile: Profile)
    ensures
        profile_model(profile) == (ProfileModel {
            product: product@,
            reference,
            interval_nanos: interval_nanos(interval),
            categories: seq![CategoryModel { name: "Other"@, color: "grey"@ }],
            libs: seq![],
            processes: seq![],
            threads: seq![],
            kernel_mappings: seq![],
            handles_known: true,
        }),
;

/// `Profile::add_category` appends a category. Its index has 16 bits.
pub assume_specification[ Profile::add_category ](
    profile: &mut Profile,
    name: &str,
    color: CategoryColor,
) -> (category: CategoryHandle)
    requires
        profile_model(*old(profile)).categories.len() <= u16::MAX,
    ensures
        category_index(category) == profile_model(*old(profile)).categories.len(),
        profile_model(*final(profile)) == (ProfileModel {
            categories: profile_model(*old(profile)).categories.push(
                CategoryModel { name: name@, color: color_name(color) },
            ),
            ..profile_model(*old(profile))
        }),
;

/// `Profile::add_process` appends a process. (Processes with the same number are told apart by a
/// count of 32 bits.)
pub assume_specification[ Profile::add_process ](
    profile: &mut Profile,
    name: &str,
    pid: u32,
    start_time: Timestamp,
) -> (process: ProcessHandle)
    requires
        profile_model(*old(profile)).processes.len() < u32::MAX,
    ensures
        process_index(process) == profile_model(*old(profile)).processes.len(),
        profile_model(*final(profile)) == (ProfileModel {
            processes: profile_model(*old(profile)).processes.push(
                ProcessModel {
                    name: name@,
                    pid,
                    start_nanos: timestamp_nanos(start_time),
                    mappings: seq![],
                },
            ),
            ..profile_model(*old(profile))
        }),
;

/// `Profile::add_lib` appends a library, where there is none yet.
pub assume_specification[ Profile::add_lib ](profile: &mut Profile, library: LibraryInfo) -> (lib:
    LibraryHandle)
    requires
        profile_model(*old(profile)).libs.len() == 0,
    ensures
        library_index(lib) == 0,
        profile_model(*final(profile)) == (ProfileModel {
            libs: seq![library_model(library)],
            ..profile_model(*old(profile))
        }),
;

/// `Profile::add_lib_mapping` adds a mapping to a process, where there is none yet.
pub assume_specification[ Profile::add_lib_mapping ](
    profile: &mut Profile,
    process: ProcessHandle,
    lib: LibraryHandle,
    start_avma: u64,
    end_avma: u64,
    relative_address_at_start: u32,
)
    requires
        process_index(process) < profile_model(*old(profile)).processes.len(),
        profile_model(*old(profile)).processes[process_index(process) as int].mappings.len() == 0,
        library_index(lib) < profile_model(*old(profile)).libs.len(),
        start_avma <= end_avma,
    ensures
        ({
            let before = profile_model(*old(profile));
            let i = process_index(process) as int;
            profile_model(*final(profile)) == (ProfileModel {
                processes: before.processes.update(
                    i,
                    ProcessModel {
                        mappings: seq![
                            LibMapping {
                                start: start_avma,
                                end: end_avma,
                                relative_at_start: relative_address_at_start,
                                lib: library_index(lib),
                            },
                        ],
                        ..before.processes[i]
                    },
                ),
                ..before
            })
        }),
;

/// How many of `threads` were given the number `tid`.
pub open spec fn threads_with_tid(threads: Seq<ThreadModel>, tid: u32) -> nat
    decreases threads.len(),
{
    if threads.len() == 0 {
        0
    } else {
        threads_with_tid(threads.drop_last(), tid) + if threads.last().tid == tid {
            1nat
        } else {
            0nat
        }
    }
}

/// `Profile::add_thread` appends a thread without samples. (Threads with the same number are told
/// apart by a count of 32 bits, which must not overflow.)
pub assume_specification[ Profile::add_thread ](
    profile: &mut Profile,
    process: ProcessHandle,
    tid: u32,
    start_time: Timestamp,
    is_main: bool,
) -> (thread: ThreadHandle)
    requires
        process_index(process) < profile_model(*old(profile)).processes.len(),
        threads_with_tid(profile_model(*old(profile)).threads, tid) < u32::MAX,
    ensures
        thread_index(thread) == profile_model(*old(profile)).threads.len(),
        profile_model(*final(profile)) == (ProfileModel {
            threads: profile_model(*old(profile)).threads.push(
                ThreadModel {
                    process: process_index(process),
                    tid,
                    start_nanos: timestamp_nanos(start_time),
                    is_main,
                    samples: seq![],
                },
            ),
            ..profile_model(*old(profile))
        }),
;

/// The mappings of the process of a thread.
pub open spec fn thread_mappings(profile: ProfileModel, thread: nat) -> Seq<LibMapping> {
    profile.processes[profile.threads[thread as int].process as int].mappings
}

/// Calls `Profile::intern_stack_frames`, which looks up the libraries of the frames in the mappings
/// of the thread's process, and remembers the stack. There is no stack without frames. (A relative
/// address does not overflow where every mapping starts at that of 0.)
#[verifier::external_body]
pub(crate) fn intern_stack_frames(
    profile: &mut Profile,
    thread: ThreadHandle,
    frames: Vec<FrameInfo>,
) -> (stack: Option<StackHandle>)
    requires
        ({
            let model = profile_model(*old(profile));
            let i = thread_index(thread);
            let mappings = thread_mappings(model, i);
            &&& i < model.threads.len()
            &&& model.threads[i as int].process < model.processes.len()
            &&& model.kernel_mappings.len() == 0
            &&& forall|j: int|
                0 <= j < mappings.len() ==> (#[trigger] mappings[j]).relative_at_start == 0
                    && mappings[j].lib < model.libs.len()
            &&& forall|j: int|
                0 <= j < frames@.len() ==> {
                    let info = frame_info_model(#[trigger] frames@[j]);
                    !(info.frame is Other) && info.category.0 < model.categories.len()
                        && info.category.1 is None
                }
        }),
    ensures
        profile_model(*final(profile)) == profile_model(*old(profile)),
        match stack {
            None => frames@.len() == 0,
            Some(stack) => {
                let mappings = thread_mappings(profile_model(*old(profile)), thread_index(thread));
                &&& frames@.len() > 0
                &&& stack_thread(stack) == thread_index(thread)
                &&& stack_frames(*final(profile), stack) == frames@.map_values(
                    |info: FrameInfo| stack_frame(mappings, frame_info_model(info)),
                )
            },
        },
{
    profile.intern_stack_frames(thread, frames.into_iter())
}

/// The frames of a stack of `profile`; none where there is no stack.
pub open spec fn frames_or_none(profile: Profile, stack: Option<StackHandle>) -> Seq<StackFrame> {
    match stack {
        Some(stack) => stack_frames(profile, stack),
        None => seq![],
    }
}

/// `Profile::add_sample` appends a sample to a thread. The stack has to be one of that thread.
pub assume_specification[ Profile::add_sample ](
    profile: &mut Profile,
    thread: ThreadHandle,
    timestamp: Timestamp,
    stack: Option<StackHandle>,
    cpu_delta: CpuDelta,
    weight: i32,
)
    requires
        thread_index(thread) < profile_model(*old(profile)).threads.len(),
        stack matches Some(stack) ==> stack_thread(stack) == thread_index(thread) && stack_frames(
            *old(profile),
            stack,
        ).len() > 0,
    ensures
        ({
            let before = profile_model(*old(profile));
            let i = thread_index(thread) as int;
            let sample = ThreadSample {
                nanos: timestamp_nanos(timestamp),
                stack: frames_or_none(*old(profile), stack),
                cpu_micros: cpu_delta_micros(cpu_delta),
                weight,
            };
            profile_model(*final(profile)) == (ProfileModel {
                threads: before.threads.update(
                    i,
                    ThreadModel {
                        samples: before.threads[i].samples.push(sample),
                        ..before.threads[i]
                    },
                ),
                ..before
            })
        }),
;

} // verus!
