use callstack_profile::binary::code_id;
use callstack_profile::encode::{
    compress_json, encode_fx_profile, output_file_name, GZIP_COMPRESSION_LEVEL, PROFILE_NAME,
};
use callstack_profile::fx_profile::{
    build_fx_profile, make_fx_profile, thread_numbers_fit, BinaryInfo, MakeFxProfileError,
    MakeFxProfileErrorSource, PathText,
};
use callstack_profile::StackFrameInfo::{ProgramCounter, ReturnAddress};
use callstack_profile::{CallstackSample, CoreSamples, StackFrameInfo};
use fxprof_processed_profile::debugid::DebugId;
use fxprof_processed_profile::Profile;
use serde_json::Value;
use std::io::Read;
use std::str::FromStr;
use std::time::Duration;

const DEBUG_ID: &str = "03020100-0504-0706-0809-0a0b0c0d0e0f";

fn sample(callstack: Vec<StackFrameInfo>, nanos: u64) -> CallstackSample {
    CallstackSample { callstack, time: Duration::from_nanos(nanos) }
}

fn core_samples(core: usize, callstacks: Vec<CallstackSample>) -> CoreSamples {
    CoreSamples { core, callstacks }
}

fn binary(base_address: u64) -> BinaryInfo {
    BinaryInfo {
        name: "firmware".to_string(),
        path: "/work/firmware.elf".to_string(),
        debug_id: DebugId::from_str(DEBUG_ID).unwrap(),
        code_id: Some("0abc".to_string()),
        base_address,
    }
}

fn build(cores: Vec<CoreSamples>, base_address: u64) -> Profile {
    build_fx_profile(
        &cores,
        Duration::from_millis(1_700_000_000_250),
        Duration::from_micros(1_500),
        binary(base_address),
    )
}

fn json(profile: &Profile) -> Value {
    serde_json::to_value(profile).unwrap()
}

fn numbers(value: &Value) -> Vec<i64> {
    value.as_array().unwrap().iter().map(|number| number.as_i64().unwrap()).collect()
}

/// The frames of every sample of a thread: the relative address, or the name of the function where
/// there is none.
fn stacks(thread: &Value) -> Vec<Vec<String>> {
    let mut stacks = Vec::new();
    for stack in thread["samples"]["stack"].as_array().unwrap() {
        let mut frames = Vec::new();
        let mut next = stack.as_u64();
        while let Some(index) = next {
            let frame = thread["stackTable"]["frame"][index as usize].as_u64().unwrap() as usize;
            let address = thread["frameTable"]["address"][frame].as_i64().unwrap();
            let func = thread["frameTable"]["func"][frame].as_u64().unwrap() as usize;
            let name = thread["funcTable"]["name"][func].as_u64().unwrap() as usize;
            let name = thread["stringArray"][name].as_str().unwrap();
            if address >= 0 {
                assert_eq!(format!("0x{address:x}"), name);
                frames.push(format!("+{address:#x}"));
            } else {
                frames.push(name.to_string());
            }
            next = thread["stackTable"]["prefix"][index as usize].as_u64();
        }
        frames.reverse();
        stacks.push(frames);
    }
    stacks
}

#[test]
fn profile_tells_of_the_binary() {
    let samples = vec![core_samples(0, vec![sample(vec![ProgramCounter(0x0800_0104)], 5)])];
    let profile = json(&build(samples, 0x0800_0000));
    assert_eq!(profile["meta"]["product"], "firmware");
    assert_eq!(profile["meta"]["startTime"], 1_700_000_000_250.0);
    assert_eq!(profile["meta"]["interval"], 1.5);
    assert_eq!(profile["meta"]["symbolicated"], false);
    let categories = profile["meta"]["categories"].as_array().unwrap();
    assert_eq!(categories.len(), 2);
    assert_eq!(categories[0]["name"], "Other");
    assert_eq!(categories[0]["color"], "grey");
    assert_eq!(categories[1]["name"], "raw");
    assert_eq!(categories[1]["color"], "yellow");
    let libs = profile["libs"].as_array().unwrap();
    assert_eq!(libs.len(), 1);
    assert_eq!(libs[0]["name"], "firmware");
    assert_eq!(libs[0]["debugName"], "firmware");
    assert_eq!(libs[0]["path"], "/work/firmware.elf");
    assert_eq!(libs[0]["debugPath"], "/work/firmware.elf");
    assert_eq!(libs[0]["breakpadId"], "030201000504070608090A0B0C0D0E0F0");
    assert_eq!(libs[0]["codeId"], "0abc");
    assert_eq!(libs[0]["arch"], Value::Null);
}

#[test]
fn every_core_becomes_a_thread() {
    let profile = json(&build(vec![core_samples(1, vec![]), core_samples(0, vec![]), core_samples(1, vec![])], 0));
    let threads = profile["threads"].as_array().unwrap();
    let tids: Vec<&str> = threads.iter().map(|thread| thread["tid"].as_str().unwrap()).collect();
    assert_eq!(tids, vec!["0", "1", "1.1"]);
    for thread in threads {
        assert_eq!(thread["pid"], "0");
        assert_eq!(thread["processName"], "process");
        assert_eq!(thread["processStartupTime"], 0.0);
        assert_eq!(thread["registerTime"], 0.0);
        assert_eq!(thread["isMainThread"], false);
        assert_eq!(thread["samples"]["length"], 0);
    }
}

#[test]
fn thread_numbers_have_32_bits() {
    let profile = json(&build(vec![core_samples(0x7_0000_0003, vec![])], 0));
    assert_eq!(profile["threads"][0]["tid"], "3");
}

#[test]
fn every_call_stack_becomes_a_sample() {
    let stack = vec![
        ReturnAddress(0x0800_0301),
        ReturnAddress(0x0800_0201),
        ProgramCounter(0x0800_0104),
    ];
    let samples = vec![core_samples(
        0,
        vec![sample(stack.clone(), 1_000_000), sample(vec![], 2_500_000), sample(stack, 4_000_000)],
    )];
    let profile = json(&build(samples, 0x0800_0000));
    let thread = &profile["threads"][0];
    assert_eq!(
        stacks(thread),
        vec![
            vec!["+0x300", "+0x200", "+0x104"],
            Vec::<&str>::new(),
            vec!["+0x300", "+0x200", "+0x104"],
        ]
    );
    let times: Vec<f64> = thread["samples"]["time"]
        .as_array()
        .unwrap()
        .iter()
        .map(|time| time.as_f64().unwrap())
        .collect();
    assert_eq!(times, vec![1.0, 2.5, 4.0]);
    assert_eq!(numbers(&thread["samples"]["weight"]), vec![1, 1, 1]);
    assert_eq!(numbers(&thread["samples"]["threadCPUDelta"]), vec![0, 0, 0]);
    assert_eq!(numbers(&thread["frameTable"]["category"]), vec![1, 1, 1]);
    assert_eq!(numbers(&thread["frameTable"]["subcategory"]), vec![0, 0, 0]);
    for is_js in thread["funcTable"]["isJS"].as_array().unwrap() {
        assert_eq!(is_js, false);
    }
}

#[test]
fn addresses_outside_of_the_binary_are_kept_as_they_are() {
    let stack = vec![
        ReturnAddress(0),
        ReturnAddress(0x0800_0000),
        ProgramCounter(0x0800_0000),
        ProgramCounter(u64::MAX),
        ReturnAddress(u64::MAX),
    ];
    let profile = json(&build(vec![core_samples(0, vec![sample(stack, 1)])], 0x0800_0000));
    assert_eq!(
        stacks(&profile["threads"][0]),
        vec![vec!["0x0", "0x7ffffff", "+0x0", "0xffffffffffffffff", "+0xf7fffffe"]]
    );
}

#[test]
fn times_have_64_bits() {
    let time = Duration::new(18_446_744_073, 709_551_616 + 3_000_000);
    let samples = vec![core_samples(0, vec![CallstackSample { callstack: vec![], time }])];
    let profile = json(&build(samples, 0));
    assert_eq!(profile["threads"][0]["samples"]["time"][0], 3.0);
}

#[test]
fn code_ids_are_hexadecimal() {
    assert_eq!(code_id(None, None), None);
    assert_eq!(code_id(Some(vec![]), None), Some("".to_string()));
    assert_eq!(code_id(Some(vec![0x00, 0x0a, 0xbc, 0xff]), None), Some("000abcff".to_string()));
    assert_eq!(code_id(None, Some(vec![0x1d, 0xef])), Some("1DEF".to_string()));
    assert_eq!(code_id(Some(vec![0xab]), Some(vec![0xcd])), Some("ab".to_string()));
}

fn push_words(data: &mut Vec<u8>, words: &[u32]) {
    for word in words {
        data.extend_from_slice(&word.to_le_bytes());
    }
}

/// The header of a 32-bit ARM executable with these numbers of program and section headers.
fn elf_header(phnum: u16, shoff: u32, shnum: u16, shstrndx: u16) -> Vec<u8> {
    let mut data = vec![0x7f, b'E', b'L', b'F', 1, 1, 1, 0, 0, 0, 0, 0, 0, 0, 0, 0];
    data.extend_from_slice(&[2, 0, 40, 0]);
    push_words(&mut data, &[1, 0x0800_0001, 52, shoff, 0x0500_0000]);
    for half in [52, 32, phnum, 40, shnum, shstrndx] {
        data.extend_from_slice(&half.to_le_bytes());
    }
    data
}

/// An ELF file with a build ID of 20 bytes and a segment at `0x0800_0000`.
fn elf_with_build_id() -> Vec<u8> {
    let mut data = elf_header(2, 0, 0, 0);
    push_words(&mut data, &[4, 116, 0, 0, 36, 36, 4, 4]);
    push_words(&mut data, &[1, 0, 0x0800_0000, 0x0800_0000, 152, 152, 5, 4]);
    push_words(&mut data, &[4, 20, 3]);
    data.extend_from_slice(b"GNU\0");
    data.extend(1..=20);
    data
}

/// An ELF file without a build ID, with a text section and a segment at `0x2000`.
fn elf_with_text() -> Vec<u8> {
    let mut data = elf_header(1, 120, 3, 2);
    push_words(&mut data, &[1, 0, 0x2000, 0x2000, 100, 100, 5, 4]);
    data.extend(0..16);
    data.extend_from_slice(b"\0.text\0.shstrtab\0\0\0\0");
    push_words(&mut data, &[0; 10]);
    push_words(&mut data, &[1, 1, 6, 0x2054, 84, 16, 0, 0, 4, 0]);
    push_words(&mut data, &[7, 3, 0, 0, 100, 17, 0, 0, 1, 0]);
    data
}

/// A Mach-O file with a UUID.
fn mach_o_with_uuid() -> Vec<u8> {
    let mut data = Vec::new();
    push_words(&mut data, &[0xfeed_facf, 0x0100_000c, 0, 2, 1, 24, 0, 0, 0x1b, 24]);
    data.extend(0xa0..0xb0);
    data
}

fn utf8(text: &str) -> PathText {
    PathText::Utf8(text.to_string())
}

fn make(elf_bytes: &[u8], program_counter: u64) -> Result<Profile, MakeFxProfileError> {
    let samples = vec![core_samples(0, vec![sample(vec![ProgramCounter(program_counter)], 1)])];
    make_fx_profile(
        &samples,
        Duration::from_secs(1),
        Duration::from_millis(10),
        Ok(utf8("/abs/blinky.elf")),
        Some(utf8("blinky")),
        elf_bytes,
    )
}

#[test]
fn build_id_becomes_debug_id_and_code_id() {
    let profile = json(&make(&elf_with_build_id(), 0x0800_0010).unwrap());
    assert_eq!(profile["meta"]["product"], "blinky");
    assert_eq!(profile["meta"]["startTime"], 1000.0);
    assert_eq!(profile["meta"]["interval"], 10.0);
    let lib = &profile["libs"][0];
    assert_eq!(lib["name"], "blinky");
    assert_eq!(lib["debugName"], "blinky");
    assert_eq!(lib["path"], "/abs/blinky.elf");
    assert_eq!(lib["debugPath"], "/abs/blinky.elf");
    assert_eq!(lib["breakpadId"], "0403020106050807090A0B0C0D0E0F100");
    assert_eq!(lib["codeId"], "0102030405060708090a0b0c0d0e0f1011121314");
    assert_eq!(stacks(&profile["threads"][0]), vec![vec!["+0x10"]]);
}

#[test]
fn debug_id_is_made_of_the_text_without_a_build_id() {
    let profile = json(&make(&elf_with_text(), 0x2054).unwrap());
    let lib = &profile["libs"][0];
    assert_eq!(lib["breakpadId"], "030201000504070608090A0B0C0D0E0F0");
    assert_eq!(lib["codeId"], Value::Null);
    assert_eq!(stacks(&profile["threads"][0]), vec![vec!["+0x54"]]);
}

#[test]
fn uuid_becomes_debug_id_and_code_id() {
    let profile = json(&make(&mach_o_with_uuid(), 0x10).unwrap());
    let lib = &profile["libs"][0];
    assert_eq!(lib["breakpadId"], "A0A1A2A3A4A5A6A7A8A9AAABACADAEAF0");
    assert_eq!(lib["codeId"], "A0A1A2A3A4A5A6A7A8A9AAABACADAEAF");
    assert_eq!(stacks(&profile["threads"][0]), vec![vec!["+0x10"]]);
}

#[test]
fn files_without_a_debug_id_are_refused() {
    let error = make(&elf_header(0, 0, 0, 0), 0).unwrap_err();
    assert!(matches!(error, MakeFxProfileError::DebugId));
    assert_eq!(error.to_string(), "Could not generate debug ID for ELF");
}

#[test]
fn files_that_cannot_be_parsed_are_refused() {
    let error = make(b"not an ELF file", 0).unwrap_err();
    assert_eq!(error.to_string(), "Could not parse ELF file");
    let expected = object::File::parse(&b"not an ELF file"[..]).unwrap_err();
    match error {
        MakeFxProfileError::ParseElf(e) => assert_eq!(e, expected),
        other => panic!("unexpected error: {}", other.to_string()),
    }
}

#[test]
fn paths_are_looked_at_before_the_file() {
    let second = Duration::from_secs(1);
    let missing = || std::io::Error::from(std::io::ErrorKind::NotFound);
    let error = make_fx_profile(&vec![], second, second, Err(missing()), None, b"").unwrap_err();
    assert_eq!(error.to_string(), "Could not canonicalize ELF file path");
    match error {
        MakeFxProfileError::Canonicalize(e) => assert_eq!(e.kind(), std::io::ErrorKind::NotFound),
        other => panic!("unexpected error: {}", other.to_string()),
    }
    let error = make_fx_profile(&vec![], second, second, Ok(PathText::NotUtf8), None, b"");
    let error = error.unwrap_err();
    assert!(matches!(error, MakeFxProfileError::InvalidUtf8));
    assert_eq!(error.to_string(), "Invalid UTF-8 in ELF absolute file path");
    let error = make_fx_profile(&vec![], second, second, Ok(utf8("/")), None, b"").unwrap_err();
    assert!(matches!(error, MakeFxProfileError::NoFileStem));
    assert_eq!(error.to_string(), "File name not found for ELF file");
}

#[test]
fn samples_and_times_do_not_decide_success() {
    let attempt = |samples: Vec<CoreSamples>, millis: u64, elf_bytes: &[u8]| {
        make_fx_profile(
            &samples,
            Duration::from_millis(millis),
            Duration::from_millis(millis),
            Ok(utf8("/abs/blinky.elf")),
            Some(utf8("blinky")),
            elf_bytes,
        )
    };
    let samples = vec![core_samples(0, vec![sample(vec![ProgramCounter(1)], 1)])];
    assert!(attempt(samples.clone(), 5, &elf_with_build_id()).is_ok());
    let profile = json(&attempt(vec![], 0, &elf_with_build_id()).unwrap());
    assert_eq!(profile["threads"].as_array().unwrap().len(), 0);
    let without_id = elf_header(0, 0, 0, 0);
    for error in [attempt(samples, 5, &without_id).err(), attempt(vec![], 0, &without_id).err()] {
        assert!(matches!(error, Some(MakeFxProfileError::DebugId)));
    }
}

fn gunzip(bytes: &[u8]) -> (Vec<u8>, Vec<u8>) {
    let mut decoder = flate2::read::GzDecoder::new(bytes);
    let mut contents = Vec::new();
    decoder.read_to_end(&mut contents).unwrap();
    let name = decoder.header().unwrap().filename().unwrap().to_vec();
    (name, contents)
}

#[test]
fn profiles_are_saved_as_compressed_json() {
    let samples = vec![core_samples(0, vec![sample(vec![ProgramCounter(0x0800_0104)], 5)])];
    let profile = build(samples, 0x0800_0000);
    let file = encode_fx_profile(&profile, "probe-rs-profile").unwrap();
    let (name, contents) = gunzip(&file);
    assert_eq!(name, b"probe-rs-profile");
    assert_eq!(contents, serde_json::to_vec(&profile).unwrap());
    let value: Value = serde_json::from_slice(&contents).unwrap();
    assert_eq!(value["meta"]["product"], "firmware");
    assert!(file.len() < contents.len());
}

#[test]
fn compression_keeps_the_text() {
    assert_eq!(GZIP_COMPRESSION_LEVEL, 2);
    let text = b"{\"stacks\": [1, 1, 1, 1, 1, 1, 1, 1, 1, 1, 1, 1, 1, 1, 1, 1, 1, 1, 1]}";
    let (name, contents) = gunzip(&compress_json("profile", text).unwrap());
    assert_eq!(name, b"profile");
    assert_eq!(contents, text);
    let (_, contents) = gunzip(&compress_json("profile", b"").unwrap());
    assert!(contents.is_empty());
}

#[test]
fn profiles_are_saved_with_the_extension_json_gz() {
    assert_eq!(output_file_name(PROFILE_NAME), "probe-rs-profile.json.gz");
    for name in ["a", "a.b", "a.b.c", ".a", ".a.b", "a.", "a..", "...", "..a.b", "\u{e9}.\u{fc}"] {
        let expected = std::path::Path::new("dir").join(name).with_extension("json.gz");
        assert_eq!(std::path::Path::new("dir").join(output_file_name(name)), expected);
    }
}

#[test]
fn errors_tell_their_source() {
    let missing = std::io::Error::from(std::io::ErrorKind::NotFound);
    match MakeFxProfileError::Canonicalize(missing).source() {
        Some(MakeFxProfileErrorSource::Io(e)) => {
            assert_eq!(e.kind(), std::io::ErrorKind::NotFound)
        }
        _ => panic!("an error of input or output is the source"),
    }
    let expected = object::File::parse(&b"not an ELF file"[..]).unwrap_err();
    match make(b"not an ELF file", 0).unwrap_err().source() {
        Some(MakeFxProfileErrorSource::Object(e)) => assert_eq!(*e, expected),
        _ => panic!("an error of the parser is the source"),
    }
    assert!(MakeFxProfileError::InvalidUtf8.source().is_none());
    assert!(MakeFxProfileError::NoFileStem.source().is_none());
    assert!(MakeFxProfileError::DebugId.source().is_none());
}

#[test]
fn few_cores_can_always_be_numbered() {
    assert!(thread_numbers_fit(&vec![]));
    assert!(thread_numbers_fit(&vec![core_samples(1, vec![]), core_samples(1, vec![])]));
}
