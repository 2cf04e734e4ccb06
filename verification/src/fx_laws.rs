//! What holds of every profile that is made of call stacks.

use crate::binary::{code_ids_write_every_byte, object_address_base, object_build_id};
use crate::binary::{object_debug_id, object_error, object_mach_uuid, writes_bytes};
use crate::callstack::{CoreModel, CoreSamples, SampleModel, StackFrameInfo};
use crate::duration::duration_nanos;
use crate::fx::{locate, profile_model, reference_timestamp, stack_frame, FrameLocation};
use crate::fx::{FrameModel, StackFrame, ThreadModel, ThreadSample};
use crate::fx_profile::{
    binary_mapping, binary_profile, core_models, core_threads, cores_with_tid, fx_frame_info,
    identify_binary, is_profile_of, is_stem_readable, thread_sample, tids_fit, BinaryInfo,
    BinaryModel, MakeFxProfileError, PathText, RAW_CATEGORY,
};
use fxprof_processed_profile::Profile;
use vstd::prelude::*;

verus! {

/// What a profile keeps of a frame of the binary.
pub open spec fn kept_frame(base_address: u64, frame: StackFrameInfo) -> StackFrame {
    stack_frame(seq![binary_mapping(base_address)], fx_frame_info(frame, RAW_CATEGORY))
}

/// A program counter from the base of the binary on, but for the very last address, is kept
/// relative to the base. It can be told from the relative address if it lies less than 4 GiB behind
/// the base. Any other is kept as it is.
pub proof fn program_counters_are_relative_to_the_base(base_address: u64, address: u64)
    ensures
        match kept_frame(base_address, StackFrameInfo::ProgramCounter(address)).location {
            FrameLocation::InLibrary { lib, relative } => {
                &&& base_address <= address < u64::MAX
                &&& lib == 0
                &&& address - base_address < 0x1_0000_0000 ==> base_address + relative == address
                &&& (address - base_address - relative) % 0x1_0000_0000 == 0
            },
            FrameLocation::Unknown(kept) => {
                &&& address < base_address || address == u64::MAX
                &&& kept == address
            },
        },
{
    reveal_with_fuel(locate, 2);
    if base_address <= address < u64::MAX {
        let distance = address - base_address;
        assert(distance % 0x1_0000_0000 <= u32::MAX);
        assert((distance - distance % 0x1_0000_0000) % 0x1_0000_0000 == 0);
    }
}

/// A return address is kept as the program counter one byte before it would be: that byte belongs
/// to the call.
pub proof fn return_addresses_stand_for_the_call(base_address: u64, address: u64)
    requires
        address > 0,
    ensures
        kept_frame(base_address, StackFrameInfo::ReturnAddress(address)) == kept_frame(
            base_address,
            StackFrameInfo::ProgramCounter((address - 1) as u64),
        ),
{
}

/// A profile has a thread for every core, with a sample for every call stack, with a frame for
/// every frame, all in the same order.
pub proof fn profiles_keep_every_frame(base_address: u64, cores: Seq<CoreModel>)
    ensures
        ({
            let threads = core_threads(base_address, cores);
            &&& threads.len() == cores.len()
            &&& forall|i: int|
                0 <= i < cores.len() ==> (#[trigger] threads[i]).samples.len()
                    == cores[i].callstacks.len()
            &&& forall|i: int, j: int|
                #![trigger threads[i].samples[j]]
                0 <= i < cores.len() && 0 <= j < cores[i].callstacks.len()
                    ==> threads[i].samples[j].stack == Seq::new(
                    cores[i].callstacks[j].callstack.len(),
                    |k: int| kept_frame(base_address, cores[i].callstacks[j].callstack[k]),
                )
        }),
{
    let threads = core_threads(base_address, cores);
    assert forall|i: int, j: int|
        #![trigger threads[i].samples[j]]
        0 <= i < cores.len() && 0 <= j
            < cores[i].callstacks.len() implies threads[i].samples[j].stack == Seq::new(
        cores[i].callstacks[j].callstack.len(),
        |k: int| kept_frame(base_address, cores[i].callstacks[j].callstack[k]),
    ) by {
        let all = cores[i].callstacks;
        assert(all.take(all.len() as int) == all);
    }
}

/// Whether a profile can be made of a file is decided by its path and its bytes alone: whatever the
/// samples, the start and the interval are, either both of two attempts succeed or both fail with
/// the same error.
pub proof fn samples_and_times_do_not_decide_success(
    abs_binary_path: Result<PathText, std::io::Error>,
    file_stem: Option<PathText>,
    elf_bytes: Seq<u8>,
    cores: Seq<CoreModel>,
    start_nanos: u128,
    interval_nanos: u128,
    result: Result<Profile, MakeFxProfileError>,
    other_cores: Seq<CoreModel>,
    other_start_nanos: u128,
    other_interval_nanos: u128,
    other_result: Result<Profile, MakeFxProfileError>,
)
    requires
        is_stem_readable(abs_binary_path, file_stem),
        is_profile_of(
            identify_binary(abs_binary_path, file_stem, elf_bytes),
            cores,
            start_nanos,
            interval_nanos,
            result,
        ),
        is_profile_of(
            identify_binary(abs_binary_path, file_stem, elf_bytes),
            other_cores,
            other_start_nanos,
            other_interval_nanos,
            other_result,
        ),
    ensures
        match (result, other_result) {
            (Ok(_), Ok(_)) => true,
            (Err(e), Err(other)) => e == other,
            _ => false,
        },
{
}

/// Without cores, a file of which a profile can be made has one without threads.
pub proof fn no_cores_give_no_threads(
    abs_binary_path: Result<PathText, std::io::Error>,
    file_stem: Option<PathText>,
    elf_bytes: Seq<u8>,
    start_nanos: u128,
    interval_nanos: u128,
    result: Result<Profile, MakeFxProfileError>,
)
    requires
        is_stem_readable(abs_binary_path, file_stem),
        identify_binary(abs_binary_path, file_stem, elf_bytes) is Ok,
        is_profile_of(
            identify_binary(abs_binary_path, file_stem, elf_bytes),
            seq![],
            start_nanos,
            interval_nanos,
            result,
        ),
    ensures
        result matches Ok(profile) && profile_model(profile).threads.len() == 0,
{
}

/// The address of the code that a frame stands for: a program counter itself, and the byte before a
/// return address, which belongs to the call.
pub open spec fn code_address(frame: StackFrameInfo) -> int {
    match frame {
        StackFrameInfo::ProgramCounter(address) => address as int,
        StackFrameInfo::ReturnAddress(address) => if address == 0 {
            0
        } else {
            address - 1
        },
    }
}

/// `kept` is what a profile of a binary with this base is to keep of `frame`: the distance of its
/// code from the base, in 32 bits, in the only library; or the address of its code where that lies
/// before the base or is the very last one. It is in the category of raw addresses, which is the
/// second one, and has no flags.
pub open spec fn keeps_frame(base_address: u64, frame: StackFrameInfo, kept: StackFrame) -> bool {
    let address = code_address(frame);
    &&& kept.category.0 == 1
    &&& kept.category.1 is None
    &&& kept.flags == 0
    &&& match kept.location {
        FrameLocation::InLibrary { lib, relative } => {
            &&& base_address <= address < 0xffff_ffff_ffff_ffff
            &&& lib == 0
            &&& address - base_address < 0x1_0000_0000 ==> relative == address - base_address
            &&& (address - base_address - relative) % 0x1_0000_0000 == 0
        },
        FrameLocation::Unknown(unknown) => {
            &&& address < base_address || address == 0xffff_ffff_ffff_ffff
            &&& unknown == address
        },
    }
}

/// `kept` is what a profile is to keep of `sample`: its time in nanoseconds, which is exact where it
/// has no more than 64 bits, and every frame, the root first. It counts once, and takes no CPU time.
pub open spec fn keeps_sample(base_address: u64, sample: SampleModel, kept: ThreadSample) -> bool {
    &&& sample.nanos < 0x1_0000_0000_0000_0000 ==> kept.nanos == sample.nanos
    &&& (sample.nanos - kept.nanos) % 0x1_0000_0000_0000_0000 == 0
    &&& kept.stack.len() == sample.callstack.len()
    &&& forall|k: int|
        0 <= k < sample.callstack.len() ==> keeps_frame(
            base_address,
            sample.callstack[k],
            #[trigger] kept.stack[k],
        )
    &&& kept.cpu_micros == 0
    &&& kept.weight == 1
}

/// `thread` is what a profile is to keep of a core: it has the core's number, which is exact where
/// that has no more than 32 bits, and every sample, in order. It belongs to the only process, and
/// starts with it, and is not its main thread.
pub open spec fn keeps_core(base_address: u64, core: CoreModel, thread: ThreadModel) -> bool {
    &&& core.core < 0x1_0000_0000 ==> thread.tid == core.core
    &&& (core.core - thread.tid) % 0x1_0000_0000 == 0
    &&& thread.samples.len() == core.callstacks.len()
    &&& forall|j: int|
        0 <= j < core.callstacks.len() ==> keeps_sample(
            base_address,
            core.callstacks[j],
            #[trigger] thread.samples[j],
        )
    &&& thread.process == 0
    &&& thread.start_nanos == 0
    &&& !thread.is_main
}

proof fn lemma_frame_is_kept(base_address: u64, frame: StackFrameInfo)
    ensures
        keeps_frame(base_address, frame, kept_frame(base_address, frame)),
{
    reveal_with_fuel(locate, 2);
    let address = code_address(frame);
    if base_address <= address < u64::MAX {
        let distance = address - base_address;
        assert(distance % 0x1_0000_0000 <= u32::MAX);
        assert((distance - distance % 0x1_0000_0000) % 0x1_0000_0000 == 0);
    }
}

proof fn lemma_sample_is_kept(base_address: u64, sample: SampleModel)
    ensures
        keeps_sample(base_address, sample, thread_sample(base_address, sample)),
{
    let kept = thread_sample(base_address, sample);
    assert forall|k: int| 0 <= k < sample.callstack.len() implies keeps_frame(
        base_address,
        sample.callstack[k],
        #[trigger] kept.stack[k],
    ) by {
        lemma_frame_is_kept(base_address, sample.callstack[k]);
        assert(kept.stack[k] == kept_frame(base_address, sample.callstack[k]));
    }
    let nanos = sample.nanos as int;
    assert((nanos - nanos % 0x1_0000_0000_0000_0000) % 0x1_0000_0000_0000_0000 == 0);
}

/// A profile has one thread for every core, in the same order, and nothing that was sampled is lost
/// or changed in it.
pub proof fn threads_keep_what_was_sampled(base_address: u64, cores: Seq<CoreModel>)
    ensures
        core_threads(base_address, cores).len() == cores.len(),
        forall|i: int|
            0 <= i < cores.len() ==> keeps_core(
                base_address,
                cores[i],
                #[trigger] core_threads(base_address, cores)[i],
            ),
{
    let threads = core_threads(base_address, cores);
    assert forall|i: int| 0 <= i < cores.len() implies keeps_core(
        base_address,
        cores[i],
        #[trigger] threads[i],
    ) by {
        let all = cores[i].callstacks;
        assert(all.take(all.len() as int) =~= all);
        assert forall|j: int| 0 <= j < all.len() implies keeps_sample(
            base_address,
            all[j],
            #[trigger] threads[i].samples[j],
        ) by {
            lemma_sample_is_kept(base_address, all[j]);
            assert(threads[i].samples[j] == thread_sample(base_address, all[j]));
        }
        let core = cores[i].core as int;
        assert((core - core % 0x1_0000_0000) % 0x1_0000_0000 == 0);
    }
}

/// The differences between the times of samples are kept, as long as these have no more than 64
/// bits.
pub proof fn times_keep_their_differences(
    base_address: u64,
    cores: Seq<CoreModel>,
    i: int,
    j: int,
    k: int,
    l: int,
)
    requires
        0 <= i < cores.len(),
        0 <= j < cores[i].callstacks.len(),
        0 <= k < cores.len(),
        0 <= l < cores[k].callstacks.len(),
        cores[i].callstacks[j].nanos < 0x1_0000_0000_0000_0000,
        cores[k].callstacks[l].nanos < 0x1_0000_0000_0000_0000,
    ensures
        ({
            let threads = core_threads(base_address, cores);
            threads[i].samples[j].nanos - threads[k].samples[l].nanos
                == cores[i].callstacks[j].nanos - cores[k].callstacks[l].nanos
        }),
{
    let threads = core_threads(base_address, cores);
    threads_keep_what_was_sampled(base_address, cores);
    assert(keeps_core(base_address, cores[i], threads[i]));
    assert(keeps_core(base_address, cores[k], threads[k]));
    assert(keeps_sample(base_address, cores[i].callstacks[j], threads[i].samples[j]));
    assert(keeps_sample(base_address, cores[k].callstacks[l], threads[k].samples[l]));
}

/// The models of the cores are those of the samples that were handed in, one for one.
pub proof fn models_say_what_was_handed_in(core_callstacks: Seq<CoreSamples>)
    ensures
        core_models(core_callstacks).len() == core_callstacks.len(),
        forall|i: int|
            0 <= i < core_callstacks.len() ==> {
                let model = #[trigger] core_models(core_callstacks)[i];
                &&& model.core == core_callstacks[i].core
                &&& model.callstacks.len() == core_callstacks[i].callstacks@.len()
            },
        forall|i: int, j: int|
            #![trigger core_models(core_callstacks)[i].callstacks[j]]
            0 <= i < core_callstacks.len() && 0 <= j < core_callstacks[i].callstacks@.len() ==> {
                let model = core_models(core_callstacks)[i].callstacks[j];
                let sample = core_callstacks[i].callstacks@[j];
                &&& model.callstack == sample.callstack@
                &&& model.nanos == duration_nanos(sample.time)
            },
{
}

/// A binary says its name, its path, its IDs and its base.
pub proof fn binaries_say_what_they_hold(binary: BinaryInfo)
    ensures
        binary@.name == binary.name@,
        binary@.path == binary.path@,
        binary@.debug_id == binary.debug_id,
        binary@.base_address == binary.base_address,
        match binary.code_id {
            Some(code_id) => binary@.code_id == Some(code_id@),
            None => binary@.code_id is None,
        },
{
}

/// A profile is that of its binary: it bears its name, it starts when profiling started, its
/// interval is the one that was asked for, it knows the binary as its only library, by its name, its
/// path and its IDs, and its only process has that mapped from the base on. It has the default
/// category and that of raw addresses, and the threads that it was given.
pub proof fn profile_tells_of_its_binary(
    start_nanos: u128,
    interval_nanos: u128,
    binary: BinaryModel,
    threads: Seq<ThreadModel>,
)
    ensures
        ({
            let profile = binary_profile(start_nanos, interval_nanos, binary, threads);
            &&& profile.product == binary.name
            &&& profile.reference == reference_timestamp(start_nanos)
            &&& interval_nanos < 0x1_0000_0000_0000_0000 ==> profile.interval_nanos
                == interval_nanos
            &&& (interval_nanos - profile.interval_nanos) % 0x1_0000_0000_0000_0000 == 0
            &&& profile.categories.len() == 2
            &&& profile.categories[1].name == "raw"@
            &&& profile.categories[1].color == "yellow"@
            &&& profile.libs.len() == 1
            &&& profile.libs[0].name == binary.name
            &&& profile.libs[0].debug_name == binary.name
            &&& profile.libs[0].path == binary.path
            &&& profile.libs[0].debug_path == binary.path
            &&& profile.libs[0].debug_id == binary.debug_id
            &&& profile.libs[0].code_id == binary.code_id
            &&& profile.libs[0].arch is None
            &&& !profile.libs[0].has_symbol_table
            &&& profile.processes.len() == 1
            &&& profile.processes[0].name == "process"@
            &&& profile.processes[0].pid == 0
            &&& profile.processes[0].start_nanos == 0
            &&& profile.processes[0].mappings.len() == 1
            &&& profile.processes[0].mappings[0].start == binary.base_address
            &&& profile.processes[0].mappings[0].end == 0xffff_ffff_ffff_ffff
            &&& profile.processes[0].mappings[0].relative_at_start == 0
            &&& profile.processes[0].mappings[0].lib == 0
            &&& profile.kernel_mappings.len() == 0
            &&& profile.handles_known
            &&& profile.threads == threads
        }),
{
    let nanos = interval_nanos as int;
    assert((nanos - nanos % 0x1_0000_0000_0000_0000) % 0x1_0000_0000_0000_0000 == 0);
}

/// What becomes of a file: no profile where its absolute path cannot be found, where that is not
/// UTF-8, where the file has no name, where it cannot be parsed or where it has no debug ID, and the
/// first of these is the error. Otherwise there is a profile, of a binary with the name and the path
/// that were given and with the IDs and the base that the file has, and with a thread for each core.
pub proof fn files_become_profiles(
    abs_binary_path: Result<PathText, std::io::Error>,
    file_stem: Option<PathText>,
    elf_bytes: Seq<u8>,
    cores: Seq<CoreModel>,
    start_nanos: u128,
    interval_nanos: u128,
    result: Result<Profile, MakeFxProfileError>,
)
    requires
        is_profile_of(
            identify_binary(abs_binary_path, file_stem, elf_bytes),
            cores,
            start_nanos,
            interval_nanos,
            result,
        ),
    ensures
        match (abs_binary_path, file_stem, object_error(elf_bytes), object_debug_id(elf_bytes)) {
            (Err(e), _, _, _) => result == Err::<Profile, _>(MakeFxProfileError::Canonicalize(e)),
            (Ok(PathText::NotUtf8), _, _, _) => result == Err::<Profile, _>(
                MakeFxProfileError::InvalidUtf8,
            ),
            (Ok(PathText::Utf8(_)), None, _, _) => result == Err::<Profile, _>(
                MakeFxProfileError::NoFileStem,
            ),
            (Ok(PathText::Utf8(_)), Some(PathText::Utf8(_)), Some(e), _) => result == Err::<
                Profile,
                _,
            >(MakeFxProfileError::ParseElf(e)),
            (Ok(PathText::Utf8(_)), Some(PathText::Utf8(_)), None, None) => result == Err::<
                Profile,
                _,
            >(MakeFxProfileError::DebugId),
            (
                Ok(PathText::Utf8(path)),
                Some(PathText::Utf8(name)),
                None,
                Some(debug_id),
            ) => result is Ok && {
                let profile = profile_model(result->Ok_0);
                let base = object_address_base(elf_bytes);
                let code_id = profile.libs[0].code_id;
                &&& profile.product == name@
                &&& profile.reference == reference_timestamp(start_nanos)
                &&& interval_nanos < 0x1_0000_0000_0000_0000 ==> profile.interval_nanos
                    == interval_nanos
                &&& profile.libs.len() == 1
                &&& profile.libs[0].name == name@
                &&& profile.libs[0].debug_name == name@
                &&& profile.libs[0].path == path@
                &&& profile.libs[0].debug_path == path@
                &&& profile.libs[0].debug_id == debug_id
                &&& match (object_build_id(elf_bytes), object_mach_uuid(elf_bytes)) {
                    (Some(bytes), _) => code_id is Some && writes_bytes(code_id->0, bytes, false),
                    (None, Some(bytes)) => code_id is Some && writes_bytes(
                        code_id->0,
                        bytes,
                        true,
                    ),
                    (None, None) => code_id is None,
                }
                &&& profile.processes.len() == 1
                &&& profile.processes[0].mappings.len() == 1
                &&& profile.processes[0].mappings[0].start == base
                &&& profile.threads.len() == cores.len()
                &&& forall|i: int|
                    0 <= i < cores.len() ==> keeps_core(
                        base,
                        cores[i],
                        #[trigger] profile.threads[i],
                    )
            },
            (Ok(PathText::Utf8(_)), Some(PathText::NotUtf8), _, _) => true,
        },
{
    threads_keep_what_was_sampled(object_address_base(elf_bytes), cores);
    code_ids_write_every_byte(object_build_id(elf_bytes), object_mach_uuid(elf_bytes));
}

/// A file name that is not UTF-8 is left out only where the absolute path is UTF-8.
pub proof fn stems_are_readable_unless_only_they_are_not_utf8(
    abs_binary_path: Result<PathText, std::io::Error>,
    file_stem: Option<PathText>,
)
    ensures
        is_stem_readable(abs_binary_path, file_stem) <==> !(match (abs_binary_path, file_stem) {
            (Ok(PathText::Utf8(_)), Some(PathText::NotUtf8)) => true,
            _ => false,
        }),
{
}

/// What a profile is told of a frame is its whole address, whether that is a program counter or a
/// return address, and the category, without a subcategory and without flags.
pub proof fn frames_are_told_as_they_are(frame: StackFrameInfo, category: u16)
    ensures
        ({
            let told = fx_frame_info(frame, category);
            &&& told.category.0 == category
            &&& told.category.1 is None
            &&& told.flags == 0
            &&& match frame {
                StackFrameInfo::ProgramCounter(address) => told.frame
                    == FrameModel::InstructionPointer(address),
                StackFrameInfo::ReturnAddress(address) => told.frame
                    == FrameModel::ReturnAddress(address),
            }
        }),
{
}

/// Whether the number of a core is `tid` in its lower 32 bits.
pub open spec fn is_numbered(tid: u32) -> spec_fn(CoreModel) -> bool {
    |core: CoreModel| core.core as int % 0x1_0000_0000 == tid
}

proof fn lemma_cores_are_counted(cores: Seq<CoreModel>, tid: u32)
    ensures
        cores_with_tid(cores, tid) == cores.filter(is_numbered(tid)).len(),
        cores_with_tid(cores, tid) <= cores.len(),
    decreases cores.len(),
{
    reveal(Seq::filter);
    if cores.len() > 0 {
        lemma_cores_are_counted(cores.drop_last(), tid);
    }
}

/// A profile can be made of any cores of which no more than `u32::MAX` have the same number in its
/// lower 32 bits, and so of any that are not more than that altogether.
pub proof fn any_cores_that_can_be_counted_fit(cores: Seq<CoreModel>)
    ensures
        tids_fit(cores) <==> forall|tid: u32|
            (#[trigger] cores.filter(is_numbered(tid))).len() <= 0xffff_ffff,
        cores.len() <= 0xffff_ffff ==> tids_fit(cores),
{
    assert forall|tid: u32| #[trigger]
        cores_with_tid(cores, tid) == cores.filter(is_numbered(tid)).len() && cores_with_tid(
            cores,
            tid,
        ) <= cores.len() by {
        lemma_cores_are_counted(cores, tid);
    }
    assert forall|tid: u32|
        cores_with_tid(cores, tid) == (#[trigger] cores.filter(is_numbered(tid))).len() by {
        lemma_cores_are_counted(cores, tid);
    }
}

} // verus!
