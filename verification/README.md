# callstack_profile

Call stack profiling of embedded targets, verified with Verus.

The library never talks to a target itself. It says what is to be done next, and takes what came of
it; whoever drives the debug probe does the rest. `app/` is such a driver.

| Module | What it holds |
| --- | --- |
| `cfi_section`, `cfi_index`, `cfi_laws` | the entries of `.debug_frame` and `.eh_frame`, and a search table over them |
| `unwind` | the call stack of a core whose frames were unwound with debug information |
| `frame_walk` | the walk along the frame records of a core |
| `callstack`, `sampling`, `sampling_laws` | the rounds in which cores are halted, walked and resumed |
| `command`, `command_laws` | attaching, flashing and resetting before a profile is made |
| `binary` | debug ID, code ID and base address of the ELF file |
| `fx`, `fx_profile`, `fx_laws` | the profile for the Firefox profiler |
| `encode` | the compressed file that the profile is saved in |
| `duration` | the length of a `std::time::Duration` |

Decoding call frame information, parsing ELF files, the data structure of a profile, JSON and gzip
come from `gimli`, `object`, `samply-symbols`, `fxprof-processed-profile`, `serde_json` and
`flate2`. What the library relies on of each is written down next to the calls.

The debug ID and the base address of an ELF file have to be those that samply works out, because
`samply load` opens the profile. samply's crate `samply-object` has the functions for that, but it is
not in the registry; `samply-symbols`, of the same project, is, and has them too. It does not export
the one that finds the code ID. That is the build ID or the UUID in hexadecimal, which `binary`
writes itself.
