//! The compressed file that a profile is written to.

use crate::fx::profile_model;
use fxprof_processed_profile::Profile;
use std::io::Write;
use vstd::prelude::*;
use vstd::string::{StrSliceExecFns, StringExecFns};

verus! {

/// An error of `serde_json`.
#[verifier::external_type_specification]
#[verifier::external_body]
pub struct ExJsonError(serde_json::Error);

/// The name of the profile that is saved.
pub const PROFILE_NAME: &'static str = "probe-rs-profile";

/// The extension of `name` starts at the dot at `i`: the last one, unless that is where the name
/// starts.
pub open spec fn is_extension_dot(name: Seq<char>, i: int) -> bool {
    &&& 0 < i < name.len()
    &&& name[i] == '.'
    &&& forall|j: int| i < j < name.len() ==> name[j] != '.'
}

/// `name` without its extension, if it has one.
pub open spec fn stem_of(name: Seq<char>) -> Seq<char> {
    if exists|i: int| is_extension_dot(name, i) {
        name.take(choose|i: int| is_extension_dot(name, i))
    } else {
        name
    }
}

/// `name` can be the name of a file: it is not empty, nothing in it separates directories, and
/// without its extension it is not `.`, so that it is neither `.` nor `..` itself.
pub open spec fn is_file_name(name: Seq<char>) -> bool {
    &&& name.len() > 0
    &&& !name.contains('/')
    &&& !name.contains('\\')
    &&& stem_of(name) != "."@
}

/// The name of the file that a profile of this name is saved in: the extension `json.gz` is added,
/// or takes the place of the one that there is.
pub fn output_file_name(profile_name: &str) -> (file_name: String)
    requires
        is_file_name(profile_name@),
    ensures
        file_name@ == stem_of(profile_name@) + ".json.gz"@,
{
    let ghost name = profile_name@;
    let len: usize = profile_name.unicode_len();
    let mut i: usize = len;
    while i > 1
        invariant
            i <= len == name.len(),
            name == profile_name@,
            forall|j: int| i <= j < name.len() ==> name[j] != '.',
        decreases i,
    {
        i = i - 1;
        if profile_name.get_char(i) == '.' {
            let mut file_name = profile_name.substring_char(0, i).to_owned();
            file_name.append(".json.gz");
            proof {
                assert(is_extension_dot(name, i as int));
                let dot = choose|dot: int| is_extension_dot(name, dot);
                assert(dot == i);
                assert(name.subrange(0, i as int) == name.take(i as int));
            }
            return file_name;
        }
    }
    let mut file_name = profile_name.to_owned();
    file_name.append(".json.gz");
    file_name
}

/// The compression level of the file.
pub const GZIP_COMPRESSION_LEVEL: u32 = 2;

/// The JSON text that `serde_json::to_vec` writes for `profile`, or the error with which it fails.
pub uninterp spec fn profile_json(profile: Profile) -> Result<Seq<u8>, serde_json::Error>;

/// The gzip file that `flate2` makes of `data` at a compression level, with a file name in its
/// header, or the error with which it fails.
pub uninterp spec fn gzip_file(
    file_name: Seq<char>,
    level: u32,
    data: Seq<u8>,
) -> Result<Seq<u8>, std::io::Error>;

/// Calls `serde_json::to_vec` on a profile. Both the text and the error depend on the profile alone:
/// it is written to memory, which does not fail.
#[verifier::external_body]
fn to_json(profile: &Profile) -> (result: Result<Vec<u8>, serde_json::Error>)
    requires
        profile_model(*profile).handles_known,
    ensures
        match result {
            Ok(json) => profile_json(*profile) == Ok::<_, serde_json::Error>(json@),
            Err(e) => profile_json(*profile) == Err::<Seq<u8>, _>(e),
        },
{
    serde_json::to_vec(profile)
}

/// Calls `flate2::GzBuilder::write`, and `write_all` and `finish` on the encoder that it returns.
/// The file name cannot hold a zero, which ends it. Both the bytes and the error depend on the
/// arguments alone: they are written to memory, and no time goes into the header.
#[verifier::external_body]
fn gzip(file_name: &str, level: u32, data: &[u8]) -> (result: Result<Vec<u8>, std::io::Error>)
    requires
        !file_name@.contains('\0'),
        level <= 9,
    ensures
        match result {
            Ok(bytes) => gzip_file(file_name@, level, data@) == Ok::<_, std::io::Error>(bytes@),
            Err(e) => gzip_file(file_name@, level, data@) == Err::<Seq<u8>, _>(e),
        },
{
    let builder = flate2::GzBuilder::new().filename(file_name.as_bytes());
    let mut encoder = builder.write(Vec::new(), flate2::Compression::new(level));
    encoder.write_all(data)?;
    encoder.finish()
}

/// Why a profile could not be written down.
#[derive(Debug)]
pub enum EncodeFxProfileError {
    /// The profile could not be turned into JSON.
    Json(serde_json::Error),
    /// The JSON text could not be compressed.
    Gzip(std::io::Error),
}

/// Compresses the JSON text of a profile, with the name of the profile in the header.
pub fn compress_json(profile_name: &str, json: &[u8]) -> (result: Result<
    Vec<u8>,
    EncodeFxProfileError,
>)
    requires
        !profile_name@.contains('\0'),
    ensures
        match gzip_file(profile_name@, GZIP_COMPRESSION_LEVEL, json@) {
            Ok(bytes) => result matches Ok(file) && file@ == bytes,
            Err(e) => result == Err::<Vec<u8>, _>(EncodeFxProfileError::Gzip(e)),
        },
{
    match gzip(profile_name, GZIP_COMPRESSION_LEVEL, json) {
        Ok(file) => Ok(file),
        Err(e) => Err(EncodeFxProfileError::Gzip(e)),
    }
}

/// The contents of the file that a profile of this name is saved in: its JSON text, compressed.
pub fn encode_fx_profile(profile: &Profile, profile_name: &str) -> (result: Result<
    Vec<u8>,
    EncodeFxProfileError,
>)
    requires
        profile_model(*profile).handles_known,
        !profile_name@.contains('\0'),
    ensures
        match profile_json(*profile) {
            Ok(json) => match gzip_file(profile_name@, GZIP_COMPRESSION_LEVEL, json) {
                Ok(bytes) => result matches Ok(file) && file@ == bytes,
                Err(e) => result == Err::<Vec<u8>, _>(EncodeFxProfileError::Gzip(e)),
            },
            Err(e) => result == Err::<Vec<u8>, _>(EncodeFxProfileError::Json(e)),
        },
{
    match to_json(profile) {
        Ok(json) => compress_json(profile_name, json.as_slice()),
        Err(e) => Err(EncodeFxProfileError::Json(e)),
    }
}

/// A name loses what follows its last dot, and that dot, unless it starts with it; nothing else is
/// taken from it. So what stands before an extension is kept as it is, dots and all.
pub proof fn stems_lose_the_extension_alone(stem: Seq<char>, extension: Seq<char>)
    requires
        stem.len() > 0,
        !extension.contains('.'),
    ensures
        stem_of(stem + seq!['.'] + extension) == stem,
{
    let name = stem + seq!['.'] + extension;
    let i = stem.len() as int;
    assert(name[i] == '.');
    assert forall|j: int| i < j < name.len() implies name[j] != '.' by {
        assert(name[j] == extension[j - i - 1]);
        assert(extension.contains(extension[j - i - 1]));
    }
    assert(is_extension_dot(name, i));
    let dot = choose|dot: int| is_extension_dot(name, dot);
    assert(dot == i);
    assert(name.take(i) =~= stem);
}

/// A name without a dot, but for one that it starts with, is kept whole.
pub proof fn names_without_an_extension_are_kept(name: Seq<char>)
    requires
        forall|j: int| 0 < j < name.len() ==> name[j] != '.',
    ensures
        stem_of(name) == name,
{
}

/// Every name that holds no separator can be that of a file, unless it is empty, or all that stands
/// before its last dot is a single dot, or it is a single dot.
pub proof fn most_names_are_file_names(name: Seq<char>)
    requires
        name.len() > 0,
        forall|j: int| 0 <= j < name.len() ==> name[j] != '/' && name[j] != '\\',
        name[0] != '.' || (name.len() > 1 && name[1] != '.'),
    ensures
        is_file_name(name),
{
    reveal_strlit(".");
    if exists|i: int| is_extension_dot(name, i) {
        let dot = choose|i: int| is_extension_dot(name, i);
        let stem = name.take(dot);
        assert(stem_of(name) == stem);
        assert(stem[0] == name[0]);
        if dot > 1 {
            assert(stem.len() > 1);
        }
    }
}

} // verus!
