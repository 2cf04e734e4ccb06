//! Call stack profiling of embedded targets: an index of call frame information for unwinding,
//! the collection of call stacks from the cores of a target, and the profile that is made of them.

pub mod binary;
pub mod callstack;
pub mod cfi_index;
pub mod cfi_laws;
pub mod cfi_section;
pub mod command;
pub mod command_laws;
pub mod duration;
pub mod encode;
pub mod frame_walk;
pub mod fx;
pub mod fx_laws;
pub mod fx_profile;
pub mod sampling;
pub mod sampling_laws;
pub mod unwind;

pub use callstack::{
    CallstackProfileArgs, CallstackProfileMethod, CallstackSample, CoreSamples, OutputFormat,
    StackFrameInfo,
};
pub use cfi_index::{DwarfCfiIndex, DwarfCfiIndexError};
pub use cfi_section::{CfiSection, CfiSectionKind};
pub use command::{ProfileCmd, ProfileRequest, ProfileRun, ProfileType, RunAction};
pub use encode::{encode_fx_profile, output_file_name, EncodeFxProfileError, PROFILE_NAME};
pub use frame_walk::{FramePointerWalk, MemoryWord, WalkAction, WordSize};
pub use fx_profile::{
    build_fx_profile, make_fx_profile, thread_numbers_fit, BinaryInfo, MakeFxProfileError,
    MakeFxProfileErrorSource, PathText,
};
pub use sampling::{CallstackProfile, SamplingAction};
pub use unwind::{dwarf_unwind, program_counters_fit, UnwoundFrame};
