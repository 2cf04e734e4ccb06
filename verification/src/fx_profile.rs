//! The profile that is made of collected call stacks.

use crate::binary::{code_id_for_object, debug_id_for_object, parse_object, relative_address_base};
use crate::binary::{code_id_text, object_address_base, object_build_id, object_debug_id};
use crate::binary::{object_error, object_mach_uuid};
use crate::callstack::{CallstackSample, CoreModel, CoreSamples, SampleModel, StackFrameInfo};
use crate::duration::duration_nanos;
use crate::fx::{
    category_index, frame_info, frame_info_model, instruction_pointer, intern_stack_frames,
    library_info, no_flags, process_index, profile_model, reference_timestamp, return_address,
    sampling_interval, stack_frame, text_of, thread_mappings, threads_with_tid, whole_category, yellow,
    zero_cpu_delta, CategoryModel, FrameInfoModel, FrameModel, LibMapping, LibraryModel,
    ProcessModel, ProfileModel, ThreadModel, ThreadSample,
};
use fxprof_processed_profile::debugid::DebugId;
use fxprof_processed_profile::{
    CategoryHandle, FrameInfo, ProcessHandle, Profile, ReferenceTimestamp, Timestamp,
};
use std::time::Duration;
use vstd::prelude::*;

verus! {

/// An error of input or output.
#[verifier::external_type_specification]
#[verifier::external_body]
pub struct ExIoError(std::io::Error);

/// The category of every frame: that of addresses without symbols.
pub const RAW_CATEGORY: u16 = 1;

/// What a profile is told of a frame.
pub open spec fn fx_frame_info(frame: StackFrameInfo, category: u16) -> FrameInfoModel {
    FrameInfoModel {
        frame: match frame {
            StackFrameInfo::ProgramCounter(addr) => FrameModel::InstructionPointer(addr),
            StackFrameInfo::ReturnAddress(addr) => FrameModel::ReturnAddress(addr),
        },
        category: (category, None),
        flags: 0,
    }
}

impl StackFrameInfo {
    /// The frame as a profile takes it, in a category.
    pub fn to_fxprofpp_with_category(&self, category: CategoryHandle) -> (info: FrameInfo)
        ensures
            frame_info_model(info) == fx_frame_info(*self, category_index(category)),
    {
        let frame = match self {
            StackFrameInfo::ProgramCounter(addr) => instruction_pointer(*addr),
            StackFrameInfo::ReturnAddress(addr) => return_address(*addr),
        };
        frame_info(frame, whole_category(category), no_flags())
    }
}

/// What is known of the profiled binary.
pub struct BinaryInfo {
    /// The name of the file, without its extension.
    pub name: String,
    /// The absolute path of the file.
    pub path: String,
    pub debug_id: DebugId,
    pub code_id: Option<String>,
    /// The address to which relative addresses refer.
    pub base_address: u64,
}

/// What [`BinaryInfo`] says.
pub ghost struct BinaryModel {
    pub name: Seq<char>,
    pub path: Seq<char>,
    pub debug_id: DebugId,
    pub code_id: Option<Seq<char>>,
    pub base_address: u64,
}

impl View for BinaryInfo {
    type V = BinaryModel;

    open spec fn view(&self) -> BinaryModel {
        BinaryModel {
            name: self.name@,
            path: self.path@,
            debug_id: self.debug_id,
            code_id: text_of(self.code_id),
            base_address: self.base_address,
        }
    }
}

/// The binary takes up all addresses from its base on, but for the very last.
pub open spec fn binary_mapping(base_address: u64) -> LibMapping {
    LibMapping { start: base_address, end: u64::MAX, relative_at_start: 0, lib: 0 }
}

/// The sample of a thread that a sample becomes. Times have 64 bits.
pub open spec fn thread_sample(base_address: u64, sample: SampleModel) -> ThreadSample {
    ThreadSample {
        nanos: (sample.nanos % 0x1_0000_0000_0000_0000) as u64,
        stack: sample.callstack.map_values(
            |frame: StackFrameInfo|
                stack_frame(
                    seq![binary_mapping(base_address)],
                    fx_frame_info(frame, RAW_CATEGORY),
                ),
        ),
        cpu_micros: 0,
        weight: 1,
    }
}

/// The number of the thread that a core becomes: the lower 32 bits of the core's.
pub open spec fn core_tid(core: usize) -> u32 {
    (core as int % 0x1_0000_0000) as u32
}

/// How many of `cores` become threads with the number `tid`.
pub open spec fn cores_with_tid(cores: Seq<CoreModel>, tid: u32) -> nat
    decreases cores.len(),
{
    if cores.len() == 0 {
        0
    } else {
        cores_with_tid(cores.drop_last(), tid) + if core_tid(cores.last().core) == tid {
            1nat
        } else {
            0nat
        }
    }
}

/// The threads with the same number can be counted in 32 bits, as they are in a profile.
pub open spec fn tids_fit(cores: Seq<CoreModel>) -> bool {
    forall|tid: u32| #[trigger] cores_with_tid(cores, tid) <= u32::MAX
}

/// The thread that a core becomes, with its first `count` samples.
pub open spec fn partial_thread(base_address: u64, core: CoreModel, count: nat) -> ThreadModel {
    ThreadModel {
        process: 0,
        tid: core_tid(core.core),
        start_nanos: 0,
        is_main: false,
        samples: core.callstacks.take(count as int).map_values(
            |sample: SampleModel| thread_sample(base_address, sample),
        ),
    }
}

/// The thread that a core becomes.
pub open spec fn core_thread(base_address: u64, core: CoreModel) -> ThreadModel {
    partial_thread(base_address, core, core.callstacks.len())
}

/// The threads that cores become.
pub open spec fn core_threads(base_address: u64, cores: Seq<CoreModel>) -> Seq<ThreadModel> {
    cores.map_values(|core: CoreModel| core_thread(base_address, core))
}

/// The profile of a binary, with these threads.
pub open spec fn binary_profile(
    start_nanos: u128,
    interval_nanos: u128,
    binary: BinaryModel,
    threads: Seq<ThreadModel>,
) -> ProfileModel {
    ProfileModel {
        product: binary.name,
        reference: reference_timestamp(start_nanos),
        interval_nanos: (interval_nanos % 0x1_0000_0000_0000_0000) as u64,
        categories: seq![
            CategoryModel { name: "Other"@, color: "grey"@ },
            CategoryModel { name: "raw"@, color: "yellow"@ },
        ],
        libs: seq![
            LibraryModel {
                name: binary.name,
                debug_name: binary.name,
                path: binary.path,
                debug_path: binary.path,
                debug_id: binary.debug_id,
                code_id: binary.code_id,
                arch: None,
                has_symbol_table: false,
            },
        ],
        processes: seq![
            ProcessModel {
                name: "process"@,
                pid: 0,
                start_nanos: 0,
                mappings: seq![binary_mapping(binary.base_address)],
            },
        ],
        threads,
        kernel_mappings: seq![],
        handles_known: true,
    }
}

/// The samples of the cores, by what they say.
pub open spec fn core_models(core_callstacks: Seq<CoreSamples>) -> Seq<CoreModel> {
    core_callstacks.map_values(|core: CoreSamples| core@)
}

/// Makes the frames of a call stack.
fn fx_frames(callstack: &Vec<StackFrameInfo>, category: CategoryHandle) -> (frames: Vec<FrameInfo>)
    ensures
        frames@.len() == callstack@.len(),
        forall|i: int|
            0 <= i < frames@.len() ==> frame_info_model(#[trigger] frames@[i]) == fx_frame_info(
                callstack@[i],
                category_index(category),
            ),
{
    let mut frames: Vec<FrameInfo> = Vec::new();
    for i in 0..callstack.len()
        invariant
            frames@.len() == i,
            forall|j: int|
                0 <= j < i ==> frame_info_model(#[trigger] frames@[j]) == fx_frame_info(
                    callstack@[j],
                    category_index(category),
                ),
    {
        frames.push(callstack[i].to_fxprofpp_with_category(category));
    }
    frames
}

/// The number of the thread that a core becomes.
fn thread_number(core: usize) -> (tid: u32)
    ensures
        tid == core_tid(core),
{
    let wide: u64 = core as u64;
    assert(wide as u32 == wide % 0x1_0000_0000) by (bit_vector);
    wide as u32
}

/// The time of a sample: the lower 64 bits of its number of nanoseconds.
fn sample_timestamp(time: Duration) -> (nanos: u64)
    ensures
        nanos == duration_nanos(time) % 0x1_0000_0000_0000_0000,
{
    let wide: u128 = time.as_nanos();
    assert(wide as u64 == wide % 0x1_0000_0000_0000_0000) by (bit_vector);
    wide as u64
}

/// Adds the thread of a core to the profile of a binary.
fn add_core(
    profile: &mut Profile,
    process: ProcessHandle,
    category: CategoryHandle,
    core: &CoreSamples,
    start_nanos: Ghost<u128>,
    interval_nanos: Ghost<u128>,
    binary: Ghost<BinaryModel>,
    threads: Ghost<Seq<ThreadModel>>,
)
    requires
        process_index(process) == 0,
        category_index(category) == RAW_CATEGORY,
        threads_with_tid(threads@, core_tid(core.core)) < u32::MAX,
        profile_model(*old(profile)) == binary_profile(
            start_nanos@,
            interval_nanos@,
            binary@,
            threads@,
        ),
    ensures
        profile_model(*final(profile)) == binary_profile(
            start_nanos@,
            interval_nanos@,
            binary@,
            threads@.push(core_thread(binary@.base_address, core@)),
        ),
{
    let thread = profile.add_thread(
        process,
        thread_number(core.core),
        Timestamp::from_nanos_since_reference(0),
        false,
    );
    let ghost base = binary@.base_address;
    proof {
        assert(partial_thread(base, core@, 0).samples == Seq::<ThreadSample>::empty());
    }
    for i in 0..core.callstacks.len()
        invariant
            category_index(category) == RAW_CATEGORY,
            base == binary@.base_address,
            crate::fx::thread_index(thread) == threads@.len(),
            profile_model(*profile) == binary_profile(
                start_nanos@,
                interval_nanos@,
                binary@,
                threads@.push(partial_thread(base, core@, i as nat)),
            ),
    {
        let sample: &CallstackSample = &core.callstacks[i];
        let ghost before = profile_model(*profile);
        assert(thread_mappings(before, threads@.len()) == seq![binary_mapping(base)]);
        let frames = fx_frames(&sample.callstack, category);
        let ghost infos = frames@;
        let stack = intern_stack_frames(profile, thread, frames);
        proof {
            assert(infos.map_values(
                |info: FrameInfo|
                    stack_frame(seq![binary_mapping(base)], frame_info_model(info)),
            ) == thread_sample(base, sample@).stack);
            assert(crate::fx::frames_or_none(*profile, stack) == thread_sample(base, sample@).stack);
        }
        profile.add_sample(
            thread,
            Timestamp::from_nanos_since_reference(sample_timestamp(sample.time)),
            stack,
            zero_cpu_delta(),
            1,
        );
        proof {
            let all = core@.callstacks;
            assert(all[i as int] == sample@);
            assert(partial_thread(base, core@, i as nat).samples.push(thread_sample(base, sample@))
                == partial_thread(base, core@, (i + 1) as nat).samples);
            let last = threads@.len() as int;
            assert(before.threads.update(last, partial_thread(base, core@, (i + 1) as nat))
                == threads@.push(partial_thread(base, core@, (i + 1) as nat)));
        }
    }
}

proof fn lemma_some_are_not_more(cores: Seq<CoreModel>, count: int, tid: u32)
    requires
        0 <= count <= cores.len(),
    ensures
        cores_with_tid(cores.take(count), tid) <= cores_with_tid(cores, tid) <= cores.len(),
    decreases cores.len(),
{
    if count == cores.len() {
        assert(cores.take(count) == cores);
    }
    if cores.len() > 0 {
        let rest = cores.drop_last();
        if count < cores.len() {
            assert(rest.take(count) == cores.take(count));
            lemma_some_are_not_more(rest, count, tid);
        } else {
            lemma_some_are_not_more(rest, 0, tid);
        }
    }
}

proof fn lemma_threads_as_many_as_cores(base_address: u64, cores: Seq<CoreModel>, tid: u32)
    ensures
        threads_with_tid(core_threads(base_address, cores), tid) == cores_with_tid(cores, tid),
    decreases cores.len(),
{
    if cores.len() > 0 {
        lemma_threads_as_many_as_cores(base_address, cores.drop_last(), tid);
        assert(core_threads(base_address, cores).drop_last() == core_threads(
            base_address,
            cores.drop_last(),
        ));
    }
}

/// Counts the cores that become threads with the number `tid`.
fn count_cores_with_tid(core_callstacks: &Vec<CoreSamples>, tid: u32) -> (count: usize)
    ensures
        count == cores_with_tid(core_models(core_callstacks@), tid),
{
    let mut count: usize = 0;
    let ghost cores = core_models(core_callstacks@);
    for i in 0..core_callstacks.len()
        invariant
            cores == core_models(core_callstacks@),
            count <= i,
            count == cores_with_tid(cores.take(i as int), tid),
    {
        assert(cores.take(i + 1).drop_last() == cores.take(i as int));
        if thread_number(core_callstacks[i].core) == tid {
            count = count + 1;
        }
    }
    assert(cores.take(cores.len() as int) == cores);
    count
}

proof fn lemma_counted_core_exists(cores: Seq<CoreModel>, tid: u32)
    requires
        cores_with_tid(cores, tid) > 0,
    ensures
        exists|i: int| 0 <= i < cores.len() && core_tid((#[trigger] cores[i]).core) == tid,
    decreases cores.len(),
{
    if core_tid(cores.last().core) == tid {
        assert(core_tid(cores[cores.len() - 1].core) == tid);
    } else {
        let rest = cores.drop_last();
        lemma_counted_core_exists(rest, tid);
        let i = choose|i: int| 0 <= i < rest.len() && core_tid((#[trigger] rest[i]).core) == tid;
        assert(core_tid(cores[i].core) == tid);
    }
}

/// Checks that the threads with the same number can be counted in 32 bits.
pub fn thread_numbers_fit(core_callstacks: &Vec<CoreSamples>) -> (fit: bool)
    ensures
        fit == tids_fit(core_models(core_callstacks@)),
{
    let ghost cores = core_models(core_callstacks@);
    if core_callstacks.len() as u64 <= u32::MAX as u64 {
        proof {
            assert forall|tid: u32| #[trigger] cores_with_tid(cores, tid) <= u32::MAX by {
                lemma_some_are_not_more(cores, 0, tid);
            }
        }
        return true;
    }
    for i in 0..core_callstacks.len()
        invariant
            cores == core_models(core_callstacks@),
            forall|j: int|
                0 <= j < i ==> cores_with_tid(cores, core_tid((#[trigger] cores[j]).core))
                    <= u32::MAX,
    {
        let tid: u32 = thread_number(core_callstacks[i].core);
        assert(cores[i as int].core == core_callstacks@[i as int].core);
        if count_cores_with_tid(core_callstacks, tid) as u64 > u32::MAX as u64 {
            return false;
        }
    }
    proof {
        assert forall|tid: u32| #[trigger] cores_with_tid(cores, tid) <= u32::MAX by {
            if cores_with_tid(cores, tid) > 0 {
                lemma_counted_core_exists(cores, tid);
            }
        }
    }
    true
}

/// Makes the profile of a binary from the call stacks of its cores. `start_time` is the time from
/// the start of 1970 to the start of profiling.
pub fn build_fx_profile(
    core_callstacks: &Vec<CoreSamples>,
    start_time: Duration,
    sampling_interval: Duration,
    binary: BinaryInfo,
) -> (profile: Profile)
    requires
        tids_fit(core_models(core_callstacks@)),
    ensures
        profile_model(profile) == binary_profile(
            duration_nanos(start_time),
            duration_nanos(sampling_interval),
            binary@,
            core_threads(binary@.base_address, core_models(core_callstacks@)),
        ),
{
    let mut profile = Profile::new(
        binary.name.as_str(),
        ReferenceTimestamp::from_duration_since_unix_epoch(start_time),
        crate::fx::sampling_interval(sampling_interval),
    );
    let category = profile.add_category("raw", yellow());
    let process = profile.add_process("process", 0, Timestamp::from_nanos_since_reference(0));
    let library = profile.add_lib(
        library_info(
            binary.name.clone(),
            binary.name.clone(),
            binary.path.clone(),
            binary.path.clone(),
            binary.debug_id,
            binary.code_id,
            None,
        ),
    );
    profile.add_lib_mapping(process, library, binary.base_address, u64::MAX, 0);
    let ghost start_nanos = duration_nanos(start_time);
    let ghost interval_nanos = duration_nanos(sampling_interval);
    let ghost cores = core_models(core_callstacks@);
    proof {
        let expected = binary_profile(
            start_nanos,
            interval_nanos,
            binary@,
            core_threads(binary@.base_address, cores.take(0)),
        );
        let model = profile_model(profile);
        assert(model.categories == expected.categories);
        assert(model.processes == expected.processes);
        assert(model.threads == expected.threads);
    }
    for i in 0..core_callstacks.len()
        invariant
            tids_fit(cores),
            cores == core_models(core_callstacks@),
            process_index(process) == 0,
            category_index(category) == RAW_CATEGORY,
            profile_model(profile) == binary_profile(
                start_nanos,
                interval_nanos,
                binary@,
                core_threads(binary@.base_address, cores.take(i as int)),
            ),
    {
        proof {
            let tid = core_tid(cores[i as int].core);
            lemma_threads_as_many_as_cores(binary@.base_address, cores.take(i as int), tid);
            lemma_some_are_not_more(cores, i + 1, tid);
            assert(cores.take(i + 1).drop_last() == cores.take(i as int));
        }
        add_core(
            &mut profile,
            process,
            category,
            &core_callstacks[i],
            Ghost(start_nanos),
            Ghost(interval_nanos),
            Ghost(binary@),
            Ghost(core_threads(binary@.base_address, cores.take(i as int))),
        );
        proof {
            let base = binary@.base_address;
            assert(core_threads(base, cores.take(i as int)).push(
                core_thread(base, core_callstacks@[i as int]@),
            ) == core_threads(base, cores.take(i + 1)));
        }
    }
    assert(cores.take(cores.len() as int) == cores);
    profile
}

/// Why no profile could be made.
#[derive(Debug)]
pub enum MakeFxProfileError {
    /// The absolute path of the ELF file could not be found.
    Canonicalize(std::io::Error),
    /// The absolute path of the ELF file is not UTF-8.
    InvalidUtf8,
    /// The path of the ELF file has no file name.
    NoFileStem,
    /// The ELF file could not be parsed.
    ParseElf(object::Error),
    /// The ELF file has no debug ID, and none could be made up.
    DebugId,
}

impl MakeFxProfileError {
    /// The error in words.
    pub fn to_string(&self) -> (text: String)
        ensures
            text@ == match *self {
                MakeFxProfileError::Canonicalize(_) => "Could not canonicalize ELF file path"@,
                MakeFxProfileError::InvalidUtf8 => "Invalid UTF-8 in ELF absolute file path"@,
                MakeFxProfileError::NoFileStem => "File name not found for ELF file"@,
                MakeFxProfileError::ParseElf(_) => "Could not parse ELF file"@,
                MakeFxProfileError::DebugId => "Could not generate debug ID for ELF"@,
            },
    {
        match self {
            MakeFxProfileError::Canonicalize(_) => {
                "Could not canonicalize ELF file path".to_owned()
            },
            MakeFxProfileError::InvalidUtf8 => {
                "Invalid UTF-8 in ELF absolute file path".to_owned()
            },
            MakeFxProfileError::NoFileStem => "File name not found for ELF file".to_owned(),
            MakeFxProfileError::ParseElf(_) => "Could not parse ELF file".to_owned(),
            MakeFxProfileError::DebugId => "Could not generate debug ID for ELF".to_owned(),
        }
    }
}

/// The error that caused a [`MakeFxProfileError`].
#[derive(Debug)]
pub enum MakeFxProfileErrorSource<'a> {
    Io(&'a std::io::Error),
    Object(&'a object::Error),
}

impl MakeFxProfileError {
    /// The error that caused this one, if there is one.
    pub fn source(&self) -> (source: Option<MakeFxProfileErrorSource<'_>>)
        ensures
            source == match self {
                MakeFxProfileError::Canonicalize(e) => Some(MakeFxProfileErrorSource::Io(e)),
                MakeFxProfileError::ParseElf(e) => Some(MakeFxProfileErrorSource::Object(e)),
                _ => None,
            },
    {
        match self {
            MakeFxProfileError::Canonicalize(e) => Some(MakeFxProfileErrorSource::Io(e)),
            MakeFxProfileError::ParseElf(e) => Some(MakeFxProfileErrorSource::Object(e)),
            _ => None,
        }
    }
}

/// A path, or a part of one.
#[derive(Debug)]
pub enum PathText {
    Utf8(String),
    /// Bytes that are not UTF-8.
    NotUtf8,
}

/// What a file that holds `elf_bytes` tells of the binary.
pub open spec fn binary_of_file(
    name: Seq<char>,
    path: Seq<char>,
    elf_bytes: Seq<u8>,
    debug_id: DebugId,
) -> BinaryModel {
    BinaryModel {
        name,
        path,
        debug_id,
        code_id: code_id_text(object_build_id(elf_bytes), object_mach_uuid(elf_bytes)),
        base_address: object_address_base(elf_bytes),
    }
}

/// The stem of a file name is UTF-8 if the absolute path is.
pub open spec fn is_stem_readable(
    abs_binary_path: Result<PathText, std::io::Error>,
    file_stem: Option<PathText>,
) -> bool {
    abs_binary_path is Ok && abs_binary_path->Ok_0 is Utf8 && file_stem is Some
        ==> file_stem->0 is Utf8
}

/// What the path and the bytes of an ELF file tell of the binary, or the first reason for which no
/// profile can be made of it.
pub open spec fn identify_binary(
    abs_binary_path: Result<PathText, std::io::Error>,
    file_stem: Option<PathText>,
    elf_bytes: Seq<u8>,
) -> Result<BinaryModel, MakeFxProfileError>
    recommends
        is_stem_readable(abs_binary_path, file_stem),
{
    match (abs_binary_path, file_stem) {
        (Err(e), _) => Err(MakeFxProfileError::Canonicalize(e)),
        (Ok(PathText::NotUtf8), _) => Err(MakeFxProfileError::InvalidUtf8),
        (Ok(PathText::Utf8(_)), None) => Err(MakeFxProfileError::NoFileStem),
        (Ok(PathText::Utf8(path)), Some(stem)) => match (
            object_error(elf_bytes),
            object_debug_id(elf_bytes),
        ) {
            (Some(e), _) => Err(MakeFxProfileError::ParseElf(e)),
            (None, None) => Err(MakeFxProfileError::DebugId),
            (None, Some(debug_id)) => Ok(
                binary_of_file(stem->Utf8_0@, path@, elf_bytes, debug_id),
            ),
        },
    }
}

/// `result` is the profile of the binary with a thread for each core, or else the reason for which
/// there is none.
pub open spec fn is_profile_of(
    binary: Result<BinaryModel, MakeFxProfileError>,
    cores: Seq<CoreModel>,
    start_nanos: u128,
    interval_nanos: u128,
    result: Result<Profile, MakeFxProfileError>,
) -> bool {
    match binary {
        Err(e) => result == Err::<Profile, _>(e),
        Ok(binary) => result matches Ok(profile) && profile_model(profile) == binary_profile(
            start_nanos,
            interval_nanos,
            binary,
            core_threads(binary.base_address, cores),
        ),
    }
}

/// Makes the profile of an ELF file from the call stacks of its cores. `start_time` is the time
/// from the start of 1970 to the start of profiling. `abs_binary_path` is the absolute path of the
/// file, or the error that came of looking for it, and `file_stem` the file name without its
/// extension in the path by which the file was given, if that has one. There are as many threads as
/// cores; only where more than 4 billion of them have the same number would their count overflow.
pub fn make_fx_profile(
    core_callstacks: &Vec<CoreSamples>,
    start_time: Duration,
    sampling_interval: Duration,
    abs_binary_path: Result<PathText, std::io::Error>,
    file_stem: Option<PathText>,
    elf_bytes: &[u8],
) -> (result: Result<Profile, MakeFxProfileError>)
    requires
        tids_fit(core_models(core_callstacks@)),
        is_stem_readable(abs_binary_path, file_stem),
    ensures
        is_profile_of(
            identify_binary(abs_binary_path, file_stem, elf_bytes@),
            core_models(core_callstacks@),
            duration_nanos(start_time),
            duration_nanos(sampling_interval),
            result,
        ),
{
    let path = match abs_binary_path {
        Ok(PathText::Utf8(path)) => path,
        Ok(PathText::NotUtf8) => {
            return Err(MakeFxProfileError::InvalidUtf8);
        },
        Err(e) => {
            return Err(MakeFxProfileError::Canonicalize(e));
        },
    };
    let name = match file_stem {
        Some(PathText::Utf8(name)) => name,
        Some(PathText::NotUtf8) => vstd::pervasive::unreached(),
        None => {
            return Err(MakeFxProfileError::NoFileStem);
        },
    };
    if let Err(e) = parse_object(elf_bytes) {
        return Err(MakeFxProfileError::ParseElf(e));
    }
    let debug_id = match debug_id_for_object(elf_bytes) {
        Some(debug_id) => debug_id,
        None => {
            return Err(MakeFxProfileError::DebugId);
        },
    };
    let code_id = code_id_for_object(elf_bytes);
    let base_address: u64 = relative_address_base(elf_bytes);
    let binary = BinaryInfo { name, path, debug_id, code_id, base_address };
    Ok(build_fx_profile(core_callstacks, start_time, sampling_interval, binary))
}

} // verus!
