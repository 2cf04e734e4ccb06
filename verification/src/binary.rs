//! What a profile tells of the ELF file that was profiled.
//!
//! The file is parsed by `object`, and its debug ID and its base address are found by
//! `samply_symbols`. This module holds the calls into them, each of which starts from the bytes of
//! the file, and the text of the code ID.

use fxprof_processed_profile::debugid::DebugId;
use object::Object;
use vstd::prelude::*;
use vstd::string::{StrSliceExecFns, StringExecFns};

verus! {

/// An error of `object`.
#[verifier::external_type_specification]
#[verifier::external_body]
pub struct ExObjectError(object::Error);

/// The debug ID of a binary.
#[verifier::external_type_specification]
#[verifier::external_body]
pub struct ExDebugId(DebugId);

/// The error with which `object::File::parse` refuses a file that holds `data`, or `None` where it
/// accepts it.
pub uninterp spec fn object_error(data: Seq<u8>) -> Option<object::Error>;

/// The debug ID that `samply_symbols::debug_id_for_object` finds in a file that holds `data`, if it
/// finds one.
pub uninterp spec fn object_debug_id(data: Seq<u8>) -> Option<DebugId>;

/// The build ID that `object::Object::build_id` finds in a file that holds `data`, or `None` where
/// there is none or it cannot be read.
pub uninterp spec fn object_build_id(data: Seq<u8>) -> Option<Seq<u8>>;

/// The UUID that `object::Object::mach_uuid` finds in a file that holds `data`, or `None` where
/// there is none or it cannot be read.
pub uninterp spec fn object_mach_uuid(data: Seq<u8>) -> Option<Seq<u8>>;

/// The address that `samply_symbols::relative_address_base` takes as the base of a file that holds
/// `data`.
pub uninterp spec fn object_address_base(data: Seq<u8>) -> u64;

/// Calls `object::File::parse`, which fails with an error that depends on the bytes alone.
#[verifier::external_body]
pub(crate) fn parse_object(data: &[u8]) -> (result: Result<(), object::Error>)
    ensures
        match result {
            Ok(()) => object_error(data@) is None,
            Err(e) => object_error(data@) == Some(e),
        },
{
    object::File::parse(data).map(|_| ())
}

/// Calls `samply_symbols::debug_id_for_object` on the parsed file.
#[verifier::external_body]
pub(crate) fn debug_id_for_object(data: &[u8]) -> (debug_id: Option<DebugId>)
    requires
        object_error(data@) is None,
    ensures
        debug_id == object_debug_id(data@),
{
    samply_symbols::debug_id_for_object(&object::File::parse(data).ok()?)
}

/// Calls `object::Object::build_id` on the parsed file.
#[verifier::external_body]
fn build_id(data: &[u8]) -> (build_id: Option<Vec<u8>>)
    requires
        object_error(data@) is None,
    ensures
        match build_id {
            Some(bytes) => object_build_id(data@) == Some(bytes@),
            None => object_build_id(data@) is None,
        },
{
    let bytes = object::File::parse(data).ok()?.build_id().ok()??;
    Some(bytes.to_vec())
}

/// Calls `object::Object::mach_uuid` on the parsed file.
#[verifier::external_body]
fn mach_uuid(data: &[u8]) -> (mach_uuid: Option<Vec<u8>>)
    requires
        object_error(data@) is None,
    ensures
        match mach_uuid {
            Some(bytes) => object_mach_uuid(data@) == Some(bytes@),
            None => object_mach_uuid(data@) is None,
        },
{
    let bytes = object::File::parse(data).ok()?.mach_uuid().ok()??;
    Some(bytes.to_vec())
}

/// Calls `samply_symbols::relative_address_base` on the parsed file.
#[verifier::external_body]
pub(crate) fn relative_address_base(data: &[u8]) -> (base: u64)
    requires
        object_error(data@) is None,
    ensures
        base == object_address_base(data@),
{
    samply_symbols::relative_address_base(&object::File::parse(data).unwrap())
}

/// The hexadecimal digits.
pub open spec fn hex_digits(uppercase: bool) -> Seq<char> {
    if uppercase {
        "0123456789ABCDEF"@
    } else {
        "0123456789abcdef"@
    }
}

/// `bytes` in hexadecimal, two digits each.
pub open spec fn hex(bytes: Seq<u8>, uppercase: bool) -> Seq<char>
    decreases bytes.len(),
{
    if bytes.len() == 0 {
        seq![]
    } else {
        hex(bytes.drop_last(), uppercase) + seq![
            hex_digits(uppercase)[bytes.last() as int / 16],
            hex_digits(uppercase)[bytes.last() as int % 16],
        ]
    }
}

/// Writes `bytes` in hexadecimal.
fn hex_text(bytes: &Vec<u8>, uppercase: bool) -> (text: String)
    ensures
        text@ == hex(bytes@, uppercase),
{
    proof {
        reveal_strlit("0123456789ABCDEF");
        reveal_strlit("0123456789abcdef");
    }
    let digits = if uppercase {
        "0123456789ABCDEF"
    } else {
        "0123456789abcdef"
    };
    let mut text = String::new();
    assert(text@ == hex(bytes@.take(0), uppercase));
    for i in 0..bytes.len()
        invariant
            digits@ == hex_digits(uppercase),
            digits@.len() == 16,
            digits.is_ascii(),
            text@ == hex(bytes@.take(i as int), uppercase),
    {
        let high: usize = (bytes[i] / 16) as usize;
        let low: usize = (bytes[i] % 16) as usize;
        let ghost before = text@;
        text.append(digits.substring_ascii(high, high + 1));
        text.append(digits.substring_ascii(low, low + 1));
        proof {
            assert(bytes@.take(i + 1).drop_last() == bytes@.take(i as int));
            assert(text@ == before + seq![digits@[high as int], digits@[low as int]]);
        }
    }
    assert(bytes@.take(bytes@.len() as int) == bytes@);
    text
}

/// The text of a code ID: the build ID of an ELF file, and otherwise the UUID of a Mach-O file.
pub open spec fn code_id_text(
    build_id: Option<Seq<u8>>,
    mach_uuid: Option<Seq<u8>>,
) -> Option<Seq<char>> {
    match (build_id, mach_uuid) {
        (Some(bytes), _) => Some(hex(bytes, false)),
        (None, Some(bytes)) => Some(hex(bytes, true)),
        (None, None) => None,
    }
}

/// The bytes that a vector holds, if there is one.
pub open spec fn bytes_of(bytes: Option<Vec<u8>>) -> Option<Seq<u8>> {
    match bytes {
        Some(bytes) => Some(bytes@),
        None => None,
    }
}

/// Writes the code ID of a file with this build ID and this UUID.
pub fn code_id(build_id: Option<Vec<u8>>, mach_uuid: Option<Vec<u8>>) -> (code_id: Option<String>)
    ensures
        match code_id {
            Some(text) => code_id_text(bytes_of(build_id), bytes_of(mach_uuid)) == Some(text@),
            None => code_id_text(bytes_of(build_id), bytes_of(mach_uuid)) is None,
        },
{
    if let Some(bytes) = build_id {
        return Some(hex_text(&bytes, false));
    }
    if let Some(bytes) = mach_uuid {
        return Some(hex_text(&bytes, true));
    }
    None
}

/// The code ID of a file.
pub(crate) fn code_id_for_object(data: &[u8]) -> (result: Option<String>)
    requires
        object_error(data@) is None,
    ensures
        match result {
            Some(text) => code_id_text(object_build_id(data@), object_mach_uuid(data@)) == Some(
                text@,
            ),
            None => code_id_text(object_build_id(data@), object_mach_uuid(data@)) is None,
        },
{
    code_id(build_id(data), mach_uuid(data))
}

/// The value of a hexadecimal digit, with letters of the one case or the other, or -1 where it is
/// none.
pub open spec fn digit_value(digit: char, uppercase: bool) -> int {
    let a = if uppercase {
        'A'
    } else {
        'a'
    };
    let code = digit as int;
    if '0' as int <= code <= '9' as int {
        code - '0' as int
    } else if a as int <= code <= a as int + 5 {
        code - a as int + 10
    } else {
        -1
    }
}

/// The pair `k` of characters of `text` are the two hexadecimal digits of `byte`, the higher one
/// first.
pub open spec fn writes_byte(text: Seq<char>, k: int, byte: u8, uppercase: bool) -> bool {
    let high = digit_value(text[2 * k], uppercase);
    let low = digit_value(text[2 * k + 1], uppercase);
    &&& 0 <= high < 16
    &&& 0 <= low < 16
    &&& 16 * high + low == byte
}

/// `text` writes `bytes`, in order, with two hexadecimal digits each.
pub open spec fn writes_bytes(text: Seq<char>, bytes: Seq<u8>, uppercase: bool) -> bool {
    &&& text.len() == 2 * bytes.len()
    &&& forall|k: int|
        0 <= k < bytes.len() ==> writes_byte(text, k, #[trigger] bytes[k], uppercase)
}

proof fn lemma_digits_have_their_values(uppercase: bool, value: int)
    requires
        0 <= value < 16,
    ensures
        digit_value(hex_digits(uppercase)[value], uppercase) == value,
{
    reveal_strlit("0123456789ABCDEF");
    reveal_strlit("0123456789abcdef");
    let digits = hex_digits(uppercase);
    assert(digit_value(digits[0], uppercase) == 0 && digit_value(digits[1], uppercase) == 1);
    assert(digit_value(digits[2], uppercase) == 2 && digit_value(digits[3], uppercase) == 3);
    assert(digit_value(digits[4], uppercase) == 4 && digit_value(digits[5], uppercase) == 5);
    assert(digit_value(digits[6], uppercase) == 6 && digit_value(digits[7], uppercase) == 7);
    assert(digit_value(digits[8], uppercase) == 8 && digit_value(digits[9], uppercase) == 9);
    assert(digit_value(digits[10], uppercase) == 10 && digit_value(digits[11], uppercase) == 11);
    assert(digit_value(digits[12], uppercase) == 12 && digit_value(digits[13], uppercase) == 13);
    assert(digit_value(digits[14], uppercase) == 14 && digit_value(digits[15], uppercase) == 15);
}

proof fn lemma_hex_writes_bytes(bytes: Seq<u8>, uppercase: bool)
    ensures
        writes_bytes(hex(bytes, uppercase), bytes, uppercase),
    decreases bytes.len(),
{
    if bytes.len() > 0 {
        let rest = bytes.drop_last();
        lemma_hex_writes_bytes(rest, uppercase);
        lemma_digits_have_their_values(uppercase, bytes.last() as int / 16);
        lemma_digits_have_their_values(uppercase, bytes.last() as int % 16);
        let text = hex(bytes, uppercase);
        let n = rest.len() as int;
        assert(text.len() == 2 * n + 2);
        assert(text[2 * n] == hex_digits(uppercase)[bytes.last() as int / 16]);
        assert(text[2 * n + 1] == hex_digits(uppercase)[bytes.last() as int % 16]);
        assert forall|k: int| 0 <= k < bytes.len() implies writes_byte(
            text,
            k,
            #[trigger] bytes[k],
            uppercase,
        ) by {
            if k < n {
                assert(writes_byte(hex(rest, uppercase), k, rest[k], uppercase));
                assert(text[2 * k] == hex(rest, uppercase)[2 * k]);
                assert(text[2 * k + 1] == hex(rest, uppercase)[2 * k + 1]);
            }
        }
    }
}

/// The code ID of a file with a build ID writes all bytes of it with small letters, whatever else
/// the file has. That of one with a UUID alone writes all bytes of that with capital letters. Other
/// files have no code ID.
pub proof fn code_ids_write_every_byte(build_id: Option<Seq<u8>>, mach_uuid: Option<Seq<u8>>)
    ensures
        match code_id_text(build_id, mach_uuid) {
            Some(text) => if build_id is Some {
                writes_bytes(text, build_id->0, false)
            } else {
                mach_uuid is Some && writes_bytes(text, mach_uuid->0, true)
            },
            None => build_id is None && mach_uuid is None,
        },
{
    if build_id is Some {
        lemma_hex_writes_bytes(build_id->0, false);
    } else if mach_uuid is Some {
        lemma_hex_writes_bytes(mach_uuid->0, true);
    }
}

/// Different bytes have different code IDs.
pub proof fn code_ids_tell_files_apart(build_id: Seq<u8>, other: Seq<u8>)
    requires
        code_id_text(Some(build_id), None) == code_id_text(Some(other), None),
    ensures
        build_id == other,
{
    lemma_hex_writes_bytes(build_id, false);
    lemma_hex_writes_bytes(other, false);
    assert forall|k: int| 0 <= k < build_id.len() implies build_id[k] == other[k] by {
        assert(build_id[k] == build_id[k] && other[k] == other[k]);
    }
    assert(build_id =~= other);
}

/// The bytes of a vector are all that it holds.
pub proof fn bytes_are_what_a_vector_holds(bytes: Vec<u8>)
    ensures
        bytes_of(Some(bytes)) == Some(bytes@),
        bytes_of(None) is None,
{
}

} // verus!
