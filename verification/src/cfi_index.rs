//! A search table from code addresses to frame description entries.

use crate::cfi_section::{default_bases, fde_from_offset, CfiEntries, CfiEntry, CfiSection, Cie};
use crate::cfi_section::{bases_unset, cache_matches, cfi_step, fde_error, fde_start};
use crate::cfi_section::{is_entry_error, CfiStep, SectionModel};
use vstd::prelude::*;
use vstd::string::StringExecFns;

verus! {

/// Why no index could be made of a section.
#[derive(Debug, Clone, Copy, PartialEq, Eq)]
pub enum DwarfCfiIndexError {
    /// The section could not be decoded.
    Gimli(gimli::Error),
    /// A frame description entry lies too far into the section.
    FdeOffsetTooBig,
}

impl From<gimli::Error> for DwarfCfiIndexError {
    fn from(e: gimli::Error) -> (result: Self) {
        DwarfCfiIndexError::Gimli(e)
    }
}

impl vstd::std_specs::convert::FromSpecImpl<gimli::Error> for DwarfCfiIndexError {
    open spec fn obeys_from_spec() -> bool {
        true
    }

    open spec fn from_spec(e: gimli::Error) -> Self {
        DwarfCfiIndexError::Gimli(e)
    }
}

/// The text of an error, which its `Display` writes.
pub uninterp spec fn gimli_error_text(error: gimli::Error) -> Seq<char>;

/// Calls `to_string` on a `gimli::Error`, whose `Display` writes a text that depends on the error
/// alone.
#[verifier::external_body]
fn describe_gimli_error(error: &gimli::Error) -> (text: String)
    ensures
        text@ == gimli_error_text(*error),
{
    error.to_string()
}

impl DwarfCfiIndexError {
    /// The error in words.
    pub fn to_string(&self) -> (text: String)
        ensures
            text@ == match *self {
                DwarfCfiIndexError::Gimli(error) => "EhFrame processing failed: "@
                    + gimli_error_text(error),
                DwarfCfiIndexError::FdeOffsetTooBig => "FDE offset did not fit into u32"@,
            },
    {
        match self {
            DwarfCfiIndexError::Gimli(error) => {
                let mut text = "EhFrame processing failed: ".to_owned();
                text.append(describe_gimli_error(error).as_str());
                text
            },
            DwarfCfiIndexError::FdeOffsetTooBig => "FDE offset did not fit into u32".to_owned(),
        }
    }

    /// The error that caused this one, if there is one.
    pub fn source(&self) -> (source: Option<&gimli::Error>)
        ensures
            source == match self {
                DwarfCfiIndexError::Gimli(error) => Some(error),
                DwarfCfiIndexError::FdeOffsetTooBig => None,
            },
    {
        match self {
            DwarfCfiIndexError::Gimli(error) => Some(error),
            DwarfCfiIndexError::FdeOffsetTooBig => None,
        }
    }
}

/// A binary search table for the frame description entries (FDEs) of a section without a search
/// table of its own.
pub struct DwarfCfiIndex {
    /// The initial address of every FDE, in ascending order.
    sorted_fde_pc_starts: Vec<u64>,
    /// The offset of every FDE. The FDE at offset `fde_offsets[i]` covers addresses from
    /// `sorted_fde_pc_starts[i]` on.
    fde_offsets: Vec<u32>,
}

/// The initial addresses of the entries ascend.
pub open spec fn sorted_by_start(entries: Seq<(u64, u32)>) -> bool {
    forall|i: int, j: int| 0 <= i <= j < entries.len() ==> entries[i].0 <= entries[j].0
}

/// Whether an entry starts at `pc`.
pub open spec fn starts_at(pc: u64) -> spec_fn((u64, u32)) -> bool {
    |entry: (u64, u32)| entry.0 == pc
}

/// The entries that start at `pc`, in the order in which they occur.
pub open spec fn starting_at(entries: Seq<(u64, u32)>, pc: u64) -> Seq<(u64, u32)> {
    entries.filter(starts_at(pc))
}

/// `sorted` holds the same entries as `entries`, by ascending initial address; those with the same
/// initial address keep their order.
pub open spec fn is_stable_sort(entries: Seq<(u64, u32)>, sorted: Seq<(u64, u32)>) -> bool {
    &&& sorted_by_start(sorted)
    &&& sorted.len() == entries.len()
    &&& forall|pc: u64| #[trigger] starting_at(sorted, pc) == starting_at(entries, pc)
}

/// Calls `slice::sort_by_key` with the initial address as the key: a stable sort, which changes
/// nothing but the order of the entries.
#[verifier::external_body]
fn sort_by_start(entries: &mut Vec<(u64, u32)>)
    ensures
        is_stable_sort(old(entries)@, final(entries)@),
{
    entries.sort_by_key(|entry| entry.0)
}

/// Makes an entry of the index of an FDE's initial address and offset.
pub fn index_entry(pc: u64, offset: usize) -> (result: Result<(u64, u32), DwarfCfiIndexError>)
    ensures
        result == if offset <= u32::MAX {
            Ok::<(u64, u32), DwarfCfiIndexError>((pc, offset as u32))
        } else {
            Err::<(u64, u32), DwarfCfiIndexError>(DwarfCfiIndexError::FdeOffsetTooBig)
        },
{
    if offset > u32::MAX as usize {
        Err(DwarfCfiIndexError::FdeOffsetTooBig)
    } else {
        Ok((pc, offset as u32))
    }
}

/// Where decoding a section fails.
pub ghost enum CfiFailure {
    /// What lies at `position` is not an entry.
    Entry { position: nat },
    /// The FDE at `offset`, or its CIE, cannot be decoded.
    Fde { offset: nat },
}

impl CfiFailure {
    /// `error` is one that comes of this failure.
    pub open spec fn is_told_by(self, section: SectionModel, error: gimli::Error) -> bool {
        match self {
            CfiFailure::Entry { position } => is_entry_error(section, position, error),
            CfiFailure::Fde { offset } => fde_error(section, offset, error),
        }
    }
}

/// What reading the entries of a section comes to.
pub ghost enum SectionContents {
    /// The initial address and the offset of every FDE, in the order of the section.
    Fdes(Seq<(u64, u32)>),
    /// An entry, or the CIE of an FDE, cannot be decoded. This is the first failure.
    Malformed(CfiFailure),
    /// An FDE can be decoded, but its offset does not fit into 32 bits.
    OffsetTooBig,
}

impl SectionContents {
    /// The contents with `fdes` in front.
    pub open spec fn after(self, fdes: Seq<(u64, u32)>) -> Self {
        match self {
            SectionContents::Fdes(rest) => SectionContents::Fdes(fdes + rest),
            _ => self,
        }
    }
}

/// What `section` holds from `position` on: its entries are read in turn, up to the first that
/// cannot be part of an index.
pub open spec fn contents_from(section: SectionModel, position: nat) -> SectionContents
    decreases section.data.len() - position, 1nat,
{
    match cfi_step(section, position) {
        CfiStep::End => SectionContents::Fdes(seq![]),
        CfiStep::Malformed => SectionContents::Malformed(CfiFailure::Entry { position }),
        CfiStep::Cie { offset: _, next } => rest_from(section, position, next),
        CfiStep::Fde { offset, next } => match fde_start(section, offset) {
            None => SectionContents::Malformed(CfiFailure::Fde { offset }),
            Some(pc) => if offset > u32::MAX {
                SectionContents::OffsetTooBig
            } else {
                rest_from(section, position, next).after(seq![(pc, offset as u32)])
            },
        },
    }
}

/// What `section` holds from `next` on, where `next` lies behind `position` and inside the section.
pub open spec fn rest_from(
    section: SectionModel,
    position: nat,
    next: nat,
) -> SectionContents
    decreases section.data.len() - position, 0nat,
{
    if position < next <= section.data.len() {
        contents_from(section, next)
    } else {
        SectionContents::Malformed(CfiFailure::Entry { position })
    }
}

/// The offsets of `fdes` ascend, and all lie below `end`.
pub open spec fn offsets_ascend(fdes: Seq<(u64, u32)>, end: nat) -> bool {
    &&& forall|i: int, j: int| 0 <= i < j < fdes.len() ==> fdes[i].1 < fdes[j].1
    &&& forall|i: int| 0 <= i < fdes.len() ==> (#[trigger] fdes[i]).1 < end
}

impl View for DwarfCfiIndex {
    type V = Seq<(u64, u32)>;

    /// The FDEs in the order of the table: initial address and offset.
    closed spec fn view(&self) -> Seq<(u64, u32)> {
        Seq::new(
            self.sorted_fde_pc_starts@.len(),
            |i: int| (self.sorted_fde_pc_starts@[i], self.fde_offsets@[i]),
        )
    }
}

impl DwarfCfiIndex {
    #[verifier::type_invariant]
    spec fn well_formed(self) -> bool {
        &&& self.sorted_fde_pc_starts@.len() == self.fde_offsets@.len()
        &&& sorted_by_start(self@)
    }

    /// Makes an index of the FDEs of a section. If it cannot be decoded, the error is the one with
    /// which the first entry that fails does so.
    pub fn try_new(unwind_section: &CfiSection) -> (result: Result<Self, DwarfCfiIndexError>)
        requires
            unwind_section@.is_addressable(),
        ensures
            match contents_from(unwind_section@, 0) {
                SectionContents::Fdes(fdes) => {
                    &&& result is Ok
                    &&& is_stable_sort(fdes, result->Ok_0@)
                    &&& offsets_ascend(fdes, unwind_section@.data.len())
                },
                SectionContents::Malformed(failure) => result matches Err(
                    DwarfCfiIndexError::Gimli(e),
                ) && failure.is_told_by(unwind_section@, e),
                SectionContents::OffsetTooBig => result matches Err(
                    DwarfCfiIndexError::FdeOffsetTooBig,
                ),
            },
            unwind_section@.data.len() == 0 ==> (result matches Ok(index) && index@.len() == 0),
    {
        let bases = default_bases();
        let mut fde_pc_and_offset: Vec<(u64, u32)> = Vec::new();
        let mut cur_cie: Option<Cie> = None;
        let mut entries = CfiEntries::new(unwind_section, &bases);
        loop
            invariant
                unwind_section@.is_addressable(),
                bases_unset(bases),
                cache_matches(unwind_section@, cur_cie),
                entries.cursor().section == unwind_section@,
                entries.cursor().position <= unwind_section@.data.len(),
                offsets_ascend(fde_pc_and_offset@, entries.cursor().position),
                contents_from(unwind_section@, 0) == contents_from(
                    unwind_section@,
                    entries.cursor().position,
                ).after(fde_pc_and_offset@),
            decreases unwind_section@.data.len() - entries.cursor().position,
        {
            let entry = match entries.next() {
                Ok(Some(entry)) => entry,
                Ok(None) => {
                    return Ok(Self::from_entries(fde_pc_and_offset));
                },
                Err(e) => {
                    return Err(DwarfCfiIndexError::from(e));
                },
            };
            let (pc, offset): (u64, usize) = match entry {
                CfiEntry::Cie(cie) => {
                    cur_cie = Some(cie);
                    continue;
                },
                CfiEntry::Fde(offset) => match fde_from_offset(
                    unwind_section,
                    &bases,
                    &mut cur_cie,
                    offset,
                ) {
                    Ok(fde) => fde,
                    Err(e) => {
                        return Err(DwarfCfiIndexError::from(e));
                    },
                },
            };
            let (pc, fde_offset): (u64, u32) = match index_entry(pc, offset) {
                Ok(entry) => entry,
                Err(e) => {
                    return Err(e);
                },
            };
            proof {
                let rest = contents_from(unwind_section@, entries.cursor().position);
                if let SectionContents::Fdes(fdes) = rest {
                    assert(fde_pc_and_offset@ + (seq![(pc, fde_offset)] + fdes)
                        == fde_pc_and_offset@.push((pc, fde_offset)) + fdes);
                }
            }
            fde_pc_and_offset.push((pc, fde_offset));
        }
    }

    /// Makes an index of FDEs that are given by their initial addresses and offsets.
    pub fn from_entries(fde_pc_and_offset: Vec<(u64, u32)>) -> (index: Self)
        ensures
            is_stable_sort(fde_pc_and_offset@, index@),
    {
        let mut fde_pc_and_offset = fde_pc_and_offset;
        sort_by_start(&mut fde_pc_and_offset);
        let mut sorted_fde_pc_starts: Vec<u64> = Vec::new();
        let mut fde_offsets: Vec<u32> = Vec::new();
        for i in 0..fde_pc_and_offset.len()
            invariant
                sorted_fde_pc_starts@.len() == i,
                fde_offsets@.len() == i,
                forall|j: int|
                    0 <= j < i ==> (#[trigger] sorted_fde_pc_starts@[j], fde_offsets@[j])
                        == fde_pc_and_offset@[j],
        {
            let (pc, fde_offset) = fde_pc_and_offset[i];
            sorted_fde_pc_starts.push(pc);
            fde_offsets.push(fde_offset);
        }
        proof {
            let view = Seq::new(
                sorted_fde_pc_starts@.len(),
                |i: int| (sorted_fde_pc_starts@[i], fde_offsets@[i]),
            );
            assert(view == fde_pc_and_offset@);
        }
        DwarfCfiIndex { sorted_fde_pc_starts, fde_offsets }
    }
}

/// Calls `slice::binary_search` on a slice in ascending order: the index of an element that equals
/// `x`, any one of them if there are several, or else the index at which `x` can be inserted.
#[verifier::external_body]
fn binary_search(sorted: &Vec<u64>, x: u64) -> (result: Result<usize, usize>)
    requires
        forall|i: int, j: int| 0 <= i <= j < sorted@.len() ==> sorted@[i] <= sorted@[j],
    ensures
        match result {
            Ok(i) => i < sorted@.len() && sorted@[i as int] == x,
            Err(i) => {
                &&& i <= sorted@.len()
                &&& forall|j: int| 0 <= j < i ==> sorted@[j] < x
                &&& forall|j: int| i <= j < sorted@.len() ==> sorted@[j] > x
            },
        },
{
    sorted.binary_search(&x)
}

/// Entry `i` is one that a lookup of `address` may find: no entry starts between its initial
/// address and `address`. Of several entries with that initial address it is the last, unless they
/// start at `address` itself: then it is any one of them.
pub open spec fn is_nearest(entries: Seq<(u64, u32)>, address: u64, i: int) -> bool {
    &&& 0 <= i < entries.len()
    &&& entries[i].0 <= address
    &&& forall|j: int|
        0 <= j < entries.len() && entries[j].0 <= address ==> #[trigger] entries[j].0
            <= entries[i].0
    &&& entries[i].0 < address ==> forall|j: int|
        i < j < entries.len() ==> (#[trigger] entries[j]).0 != entries[i].0
}

/// `found` is what a lookup of `address` may return: the offset of a nearest entry, or `None` where
/// every entry starts behind `address`.
pub open spec fn is_lookup(
    entries: Seq<(u64, u32)>,
    address: u64,
    found: Option<u32>,
) -> bool {
    match found {
        Some(offset) => exists|i: int| #[trigger]
            is_nearest(entries, address, i) && entries[i].1 == offset,
        None => forall|i: int| 0 <= i < entries.len() ==> (#[trigger] entries[i]).0 > address,
    }
}

impl DwarfCfiIndex {
    /// Looks up the offset of the FDE that covers `lookup_address`, if any does: the one with the
    /// greatest initial address that is not above it.
    pub fn fde_offset_for_relative_address(&self, lookup_address: u64) -> (offset: Option<u32>)
        ensures
            is_lookup(self@, lookup_address, offset),
    {
        proof {
            use_type_invariant(self);
            assert forall|i: int, j: int|
                0 <= i <= j < self.sorted_fde_pc_starts@.len() implies self.sorted_fde_pc_starts@[i]
                <= self.sorted_fde_pc_starts@[j] by {
                assert(self@[i].0 <= self@[j].0);
            }
        }
        let i: usize = match binary_search(&self.sorted_fde_pc_starts, lookup_address) {
            Err(0) => {
                return None;
            },
            Ok(i) => i,
            Err(i) => i - 1,
        };
        assert(is_nearest(self@, lookup_address, i as int));
        Some(self.fde_offsets[i])
    }
}

} // verus!
