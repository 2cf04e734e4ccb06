//! Reading the entries of a call frame information section.
//!
//! The entries are decoded by `gimli`. This module holds the calls into it, each behind a
//! function that says what `gimli` promises, and the cache of the common information entry that
//! was read last.

use vstd::prelude::*;

verus! {

/// An error of `gimli`.
#[verifier::external_type_specification]
#[verifier::external_body]
pub struct ExGimliError(gimli::Error);

/// A byte order that is chosen at run time.
#[verifier::external_type_specification]
#[verifier::external_body]
pub struct ExRunTimeEndian(gimli::RunTimeEndian);

/// The addresses to which encoded pointers can be relative.
#[verifier::external_type_specification]
#[verifier::external_body]
pub struct ExBaseAddresses(gimli::BaseAddresses);

/// The two section formats that hold call frame information.
#[derive(Clone, Copy, Debug, PartialEq, Eq, Structural)]
pub enum CfiSectionKind {
    /// `.debug_frame`
    DebugFrame,
    /// `.eh_frame`
    EhFrame,
}

/// The contents of a call frame information section, and what is needed to decode them.
#[derive(Clone, Copy, Debug)]
pub struct CfiSection<'a> {
    pub kind: CfiSectionKind,
    pub data: &'a [u8],
    pub endian: gimli::RunTimeEndian,
    /// The size of a target address in bytes, for entries that do not state their own.
    pub address_size: u8,
}

/// What a [`CfiSection`] is: the same values, with the bytes as a sequence.
pub ghost struct SectionModel {
    pub kind: CfiSectionKind,
    pub data: Seq<u8>,
    pub endian: gimli::RunTimeEndian,
    pub address_size: u8,
}

impl SectionModel {
    /// The size of an address is between 1 and 8 bytes. (`gimli` computes a mask of that many
    /// bytes.)
    pub open spec fn is_addressable(self) -> bool {
        1 <= self.address_size <= 8
    }
}

impl<'a> CfiSection<'a> {
    /// Checks that the size of an address is one that can be decoded.
    pub fn has_valid_address_size(&self) -> (valid: bool)
        ensures
            valid == self@.is_addressable(),
    {
        1 <= self.address_size && self.address_size <= 8
    }
}

impl<'a> View for CfiSection<'a> {
    type V = SectionModel;

    open spec fn view(&self) -> SectionModel {
        SectionModel {
            kind: self.kind,
            data: self.data@,
            endian: self.endian,
            address_size: self.address_size,
        }
    }
}

/// A parsed common information entry (CIE): a `gimli::CommonInformationEntry` that refers to the
/// bytes of its section.
#[verifier::external_body]
pub struct Cie<'a> {
    entry: gimli::CommonInformationEntry<gimli::EndianSlice<'a, gimli::RunTimeEndian>>,
}

/// The entries of a `.debug_frame` section that have not been read yet: the `gimli::CfiEntriesIter`
/// that walks over them.
#[verifier::external_body]
pub struct DebugFrameEntries<'a> {
    iter: gimli::CfiEntriesIter<
        'a,
        gimli::DebugFrame<gimli::EndianSlice<'a, gimli::RunTimeEndian>>,
        gimli::EndianSlice<'a, gimli::RunTimeEndian>,
    >,
}

/// The entries of an `.eh_frame` section that have not been read yet: the `gimli::CfiEntriesIter`
/// that walks over them.
#[verifier::external_body]
pub struct EhFrameEntries<'a> {
    iter: gimli::CfiEntriesIter<
        'a,
        gimli::EhFrame<gimli::EndianSlice<'a, gimli::RunTimeEndian>>,
        gimli::EndianSlice<'a, gimli::RunTimeEndian>,
    >,
}

/// An entry as the walk over a section hands it out.
pub enum CfiEntry<'a> {
    /// A common information entry.
    Cie(Cie<'a>),
    /// A frame description entry (FDE), by its offset in the section. Its CIE has to be looked up
    /// before it can be decoded.
    Fde(usize),
}

/// Where a walk over the entries of a section has got to.
pub ghost struct Cursor {
    pub section: SectionModel,
    /// The offset of the first byte that has not been read.
    pub position: nat,
}

/// What lies at a position of a section.
pub ghost enum CfiStep {
    /// No further entry.
    End,
    /// Bytes that are not an entry.
    Malformed,
    /// A CIE at `offset`; the walk goes on at `next`.
    Cie { offset: nat, next: nat },
    /// An FDE at `offset`; the walk goes on at `next`.
    Fde { offset: nat, next: nat },
}

/// No base address is set, so that every pointer relative to one is an error.
pub uninterp spec fn bases_unset(bases: gimli::BaseAddresses) -> bool;

/// Where the walk of `entries` stands.
pub uninterp spec fn debug_frame_cursor(entries: DebugFrameEntries<'static>) -> Cursor;

/// Where the walk of `entries` stands.
pub uninterp spec fn eh_frame_cursor(entries: EhFrameEntries<'static>) -> Cursor;

/// What `gimli::CfiEntriesIter::next` finds in `section` from `position` on, where no base address
/// is set.
pub uninterp spec fn cfi_step(section: SectionModel, position: nat) -> CfiStep;

/// Whether `error` is one that `gimli::CfiEntriesIter::next` can return at `position` of `section`,
/// where no base address is set. (Some errors hold the address of the bytes in memory, so that
/// several can come of the same bytes.)
pub uninterp spec fn cfi_step_error(
    section: SectionModel,
    position: nat,
    error: gimli::Error,
) -> bool;

/// Whether `error` is a `gimli::Error::UnexpectedEof`: the input ends too early.
pub uninterp spec fn is_unexpected_eof(error: gimli::Error) -> bool;

/// What `gimli::UnwindSection::cie_from_offset` finds at `offset`, where no base address is set:
/// the CIE, or `None` where it fails.
pub uninterp spec fn cie_at(section: SectionModel, offset: nat) -> Option<Cie<'static>>;

/// Whether `error` is one that `gimli::UnwindSection::cie_from_offset` can return at `offset`, where
/// no base address is set.
pub uninterp spec fn cie_error(section: SectionModel, offset: nat, error: gimli::Error) -> bool;

/// The offset of a CIE in its section, which `gimli::CommonInformationEntry::offset` returns.
pub uninterp spec fn cie_offset(cie: Cie<'static>) -> nat;

/// The first address that the FDE at `offset` covers, decoded with the CIE that it points to and
/// with no base address set, or `None` where the FDE or its CIE cannot be decoded.
pub uninterp spec fn fde_start(section: SectionModel, offset: nat) -> Option<u64>;

/// Whether `error` is one that `gimli::UnwindSection::fde_from_offset` can return at `offset`, where
/// the CIE is the one that the FDE points to and no base address is set. It is the error of the
/// CIE where that cannot be decoded.
pub uninterp spec fn fde_error(section: SectionModel, offset: nat, error: gimli::Error) -> bool;

/// The least number of bytes that the length at the start of an entry takes up.
pub const MIN_LENGTH_FIELD: usize = 4;

/// Calls `gimli::BaseAddresses::default`, which sets no base address.
#[verifier::external_body]
pub(crate) fn default_bases() -> (bases: gimli::BaseAddresses)
    ensures
        bases_unset(bases),
{
    gimli::BaseAddresses::default()
}

/// Calls `gimli::UnwindSection::entries` on a `.debug_frame` section: the walk starts at the
/// section's first byte.
#[verifier::external_body]
fn debug_frame_entries<'a>(
    section: &CfiSection<'a>,
    bases: &'a gimli::BaseAddresses,
) -> (entries: DebugFrameEntries<'a>)
    requires
        section.kind is DebugFrame,
        section@.is_addressable(),
        bases_unset(*bases),
    ensures
        debug_frame_cursor(entries) == (Cursor { section: section@, position: 0 }),
{
    let mut frame = gimli::DebugFrame::new(section.data, section.endian);
    frame.set_address_size(section.address_size);
    DebugFrameEntries { iter: gimli::UnwindSection::entries(&frame, bases) }
}

/// Calls `gimli::UnwindSection::entries` on an `.eh_frame` section: the walk starts at the
/// section's first byte.
#[verifier::external_body]
fn eh_frame_entries<'a>(
    section: &CfiSection<'a>,
    bases: &'a gimli::BaseAddresses,
) -> (entries: EhFrameEntries<'a>)
    requires
        section.kind is EhFrame,
        section@.is_addressable(),
        bases_unset(*bases),
    ensures
        eh_frame_cursor(entries) == (Cursor { section: section@, position: 0 }),
{
    let mut frame = gimli::EhFrame::new(section.data, section.endian);
    frame.set_address_size(section.address_size);
    EhFrameEntries { iter: gimli::UnwindSection::entries(&frame, bases) }
}

/// The bytes from `position` on are too few for the length of an entry, but there are some.
pub open spec fn is_cut_off(section: SectionModel, position: nat) -> bool {
    0 < section.data.len() - position < MIN_LENGTH_FIELD
}

/// `error` says why there is no entry at `position`. Where the length of an entry is cut off, it
/// says that the input ends too early.
pub open spec fn is_entry_error(
    section: SectionModel,
    position: nat,
    error: gimli::Error,
) -> bool {
    &&& cfi_step_error(section, position, error)
    &&& is_cut_off(section, position) ==> is_unexpected_eof(error)
}

/// `result` is what reading the next entry at `before` comes to, where `step` lies there, and it
/// leaves the walk at `after`: a CIE is the one that a lookup by offset finds, and the walk goes
/// forward, past the entry, and stays inside the section. A cut-off entry is an error, and where no
/// byte is left there is no further entry.
pub open spec fn is_next_entry(
    before: Cursor,
    after: Cursor,
    step: CfiStep,
    result: Result<Option<CfiEntry<'static>>, gimli::Error>,
) -> bool {
    &&& after.section == before.section
    &&& is_cut_off(before.section, before.position) ==> result is Err
    &&& before.position == before.section.data.len() ==> (result matches Ok(None))
    &&& match result {
        Err(_) => step is Malformed,
        Ok(None) => step is End,
        Ok(Some(CfiEntry::Cie(cie))) => {
            &&& step == (CfiStep::Cie { offset: cie_offset(cie), next: after.position })
            &&& cie_at(before.section, cie_offset(cie)) == Some(cie)
            &&& before.position <= cie_offset(cie) < after.position <= before.section.data.len()
        },
        Ok(Some(CfiEntry::Fde(offset))) => {
            &&& step == (CfiStep::Fde { offset: offset as nat, next: after.position })
            &&& before.position <= offset < after.position <= before.section.data.len()
        },
    }
}

/// Calls `gimli::CfiEntriesIter::next` on a `.debug_frame` section. What it finds is given the
/// name [`cfi_step`], and which errors can come of it the name [`cfi_step_error`]; the rest is what
/// [`is_next_entry`] says. The length of an entry is read first, so that one that is cut off is an
/// `UnexpectedEof`.
#[verifier::external_body]
fn next_debug_frame_entry<'a>(entries: &mut DebugFrameEntries<'a>) -> (result: Result<
    Option<CfiEntry<'a>>,
    gimli::Error,
>)
    requires
        debug_frame_cursor(*old(entries)).section.is_addressable(),
    ensures
        is_next_entry(
            debug_frame_cursor(*old(entries)),
            debug_frame_cursor(*final(entries)),
            cfi_step(
                debug_frame_cursor(*old(entries)).section,
                debug_frame_cursor(*old(entries)).position,
            ),
            result,
        ),
        ({
            let before = debug_frame_cursor(*old(entries));
            result matches Err(e) ==> {
                &&& cfi_step_error(before.section, before.position, e)
                &&& is_cut_off(before.section, before.position) ==> is_unexpected_eof(e)
            }
        }),
{
    let entry = entries.iter.next()?;
    Ok(entry.map(|entry| match entry {
        gimli::CieOrFde::Cie(entry) => CfiEntry::Cie(Cie { entry }),
        gimli::CieOrFde::Fde(partial) => CfiEntry::Fde(partial.offset()),
    }))
}

/// Calls `gimli::CfiEntriesIter::next` on an `.eh_frame` section. What it finds is given the
/// name [`cfi_step`], and which errors can come of it the name [`cfi_step_error`]; the rest is what
/// [`is_next_entry`] says. The length of an entry is read first, so that one that is cut off is an
/// `UnexpectedEof`.
#[verifier::external_body]
fn next_eh_frame_entry<'a>(entries: &mut EhFrameEntries<'a>) -> (result: Result<
    Option<CfiEntry<'a>>,
    gimli::Error,
>)
    requires
        eh_frame_cursor(*old(entries)).section.is_addressable(),
    ensures
        is_next_entry(
            eh_frame_cursor(*old(entries)),
            eh_frame_cursor(*final(entries)),
            cfi_step(
                eh_frame_cursor(*old(entries)).section,
                eh_frame_cursor(*old(entries)).position,
            ),
            result,
        ),
        ({
            let before = eh_frame_cursor(*old(entries));
            result matches Err(e) ==> {
                &&& cfi_step_error(before.section, before.position, e)
                &&& is_cut_off(before.section, before.position) ==> is_unexpected_eof(e)
            }
        }),
{
    let entry = entries.iter.next()?;
    Ok(entry.map(|entry| match entry {
        gimli::CieOrFde::Cie(entry) => CfiEntry::Cie(Cie { entry }),
        gimli::CieOrFde::Fde(partial) => CfiEntry::Fde(partial.offset()),
    }))
}

/// Calls `gimli::CommonInformationEntry::offset`, which returns the offset of the entry in its
/// section.
#[verifier::external_body]
fn offset_of_cie(cie: &Cie) -> (offset: usize)
    ensures
        offset == cie_offset(*cie),
{
    cie.entry.offset()
}

/// Calls the `clone` that `gimli::CommonInformationEntry` derives, which copies every field.
#[verifier::external_body]
fn clone_cie<'a>(cie: &Cie<'a>) -> (copy: Cie<'a>)
    ensures
        copy == *cie,
{
    Cie { entry: cie.entry.clone() }
}

/// Calls `gimli::UnwindSection::cie_from_offset` on a `.debug_frame` section. What it finds is
/// given the name [`cie_at`], and which errors can come of it the name [`cie_error`]; a CIE that it
/// returns knows the offset at which it was read.
#[verifier::external_body]
fn debug_frame_cie_from_offset<'a>(
    section: &CfiSection<'a>,
    bases: &gimli::BaseAddresses,
    offset: usize,
) -> (result: Result<Cie<'a>, gimli::Error>)
    requires
        section.kind is DebugFrame,
        section@.is_addressable(),
        bases_unset(*bases),
    ensures
        match result {
            Ok(cie) => cie_at(section@, offset as nat) == Some(cie) && cie_offset(cie) == offset,
            Err(e) => cie_at(section@, offset as nat) is None && cie_error(
                section@,
                offset as nat,
                e,
            ),
        },
{
    let mut frame = gimli::DebugFrame::new(section.data, section.endian);
    frame.set_address_size(section.address_size);
    let offset = gimli::DebugFrameOffset(offset);
    let entry = gimli::UnwindSection::cie_from_offset(&frame, bases, offset)?;
    Ok(Cie { entry })
}

/// Calls `gimli::UnwindSection::cie_from_offset` on an `.eh_frame` section. What it finds is given
/// the name [`cie_at`], and which errors can come of it the name [`cie_error`]; a CIE that it
/// returns knows the offset at which it was read.
#[verifier::external_body]
fn eh_frame_cie_from_offset<'a>(
    section: &CfiSection<'a>,
    bases: &gimli::BaseAddresses,
    offset: usize,
) -> (result: Result<Cie<'a>, gimli::Error>)
    requires
        section.kind is EhFrame,
        section@.is_addressable(),
        bases_unset(*bases),
    ensures
        match result {
            Ok(cie) => cie_at(section@, offset as nat) == Some(cie) && cie_offset(cie) == offset,
            Err(e) => cie_at(section@, offset as nat) is None && cie_error(
                section@,
                offset as nat,
                e,
            ),
        },
{
    let mut frame = gimli::EhFrame::new(section.data, section.endian);
    frame.set_address_size(section.address_size);
    let offset = gimli::EhFrameOffset(offset);
    let entry = gimli::UnwindSection::cie_from_offset(&frame, bases, offset)?;
    Ok(Cie { entry })
}

/// The CIE that is kept from the entries read so far belongs to `section`: it is the one that a
/// lookup at its offset finds.
pub open spec fn cache_matches(section: SectionModel, cur_cie: Option<Cie<'static>>) -> bool {
    cur_cie matches Some(cie) ==> cie_at(section, cie_offset(cie)) == Some(cie)
}

/// Finds the CIE at `cie_offset`: the one that was read last, if it lies there, and otherwise the
/// one that `gimli` decodes, which is then kept for the next lookup. Which of the two it is makes
/// no difference to what is returned.
fn resolve_cie<'a>(
    section: &CfiSection<'a>,
    bases: &gimli::BaseAddresses,
    cur_cie: &mut Option<Cie<'a>>,
    cie_offset: usize,
) -> (result: Result<Cie<'a>, gimli::Error>)
    requires
        section@.is_addressable(),
        bases_unset(*bases),
        cache_matches(section@, *old(cur_cie)),
    ensures
        cache_matches(section@, *final(cur_cie)),
        match result {
            Ok(cie) => cie_at(section@, cie_offset as nat) == Some(cie) && *final(cur_cie) == Some(
                cie,
            ),
            Err(e) => {
                &&& cie_at(section@, cie_offset as nat) is None
                &&& cie_error(section@, cie_offset as nat, e)
                &&& *final(cur_cie) == *old(cur_cie)
            },
        },
{
    if let Some(cie) = &*cur_cie {
        if offset_of_cie(cie) == cie_offset {
            return Ok(clone_cie(cie));
        }
    }
    let cie = match section.kind {
        CfiSectionKind::DebugFrame => debug_frame_cie_from_offset(section, bases, cie_offset),
        CfiSectionKind::EhFrame => eh_frame_cie_from_offset(section, bases, cie_offset),
    };
    if let Ok(cie) = &cie {
        *cur_cie = Some(clone_cie(cie));
    }
    cie
}

/// Calls `gimli::UnwindSection::fde_from_offset` on a `.debug_frame` section, and reads the
/// initial address and the offset of the FDE that it decodes. The CIE that it asks for comes from
/// [`resolve_cie`]. The initial address is given the name [`fde_start`], and which errors can come
/// of it the name [`fde_error`]; the FDE knows the offset at which it was read.
#[verifier::external_body]
fn debug_frame_fde_from_offset<'a>(
    section: &CfiSection<'a>,
    bases: &gimli::BaseAddresses,
    cur_cie: &mut Option<Cie<'a>>,
    offset: usize,
) -> (result: Result<(u64, usize), gimli::Error>)
    requires
        section.kind is DebugFrame,
        section@.is_addressable(),
        bases_unset(*bases),
        cache_matches(section@, *old(cur_cie)),
    ensures
        cache_matches(section@, *final(cur_cie)),
        match result {
            Ok(fde) => fde_start(section@, offset as nat) == Some(fde.0) && fde.1 == offset,
            Err(e) => fde_start(section@, offset as nat) is None && fde_error(
                section@,
                offset as nat,
                e,
            ),
        },
{
    let mut frame = gimli::DebugFrame::new(section.data, section.endian);
    frame.set_address_size(section.address_size);
    let offset = gimli::DebugFrameOffset(offset);
    let fde = gimli::UnwindSection::fde_from_offset(
        &frame,
        bases,
        offset,
        |_, bases, at| resolve_cie(section, bases, cur_cie, at.0).map(|cie| cie.entry),
    )?;
    Ok((fde.initial_address(), fde.offset()))
}

/// Calls `gimli::UnwindSection::fde_from_offset` on an `.eh_frame` section, and reads the initial
/// address and the offset of the FDE that it decodes. The CIE that it asks for comes from
/// [`resolve_cie`]. The initial address is given the name [`fde_start`], and which errors can come
/// of it the name [`fde_error`]; the FDE knows the offset at which it was read.
#[verifier::external_body]
fn eh_frame_fde_from_offset<'a>(
    section: &CfiSection<'a>,
    bases: &gimli::BaseAddresses,
    cur_cie: &mut Option<Cie<'a>>,
    offset: usize,
) -> (result: Result<(u64, usize), gimli::Error>)
    requires
        section.kind is EhFrame,
        section@.is_addressable(),
        bases_unset(*bases),
        cache_matches(section@, *old(cur_cie)),
    ensures
        cache_matches(section@, *final(cur_cie)),
        match result {
            Ok(fde) => fde_start(section@, offset as nat) == Some(fde.0) && fde.1 == offset,
            Err(e) => fde_start(section@, offset as nat) is None && fde_error(
                section@,
                offset as nat,
                e,
            ),
        },
{
    let mut frame = gimli::EhFrame::new(section.data, section.endian);
    frame.set_address_size(section.address_size);
    let offset = gimli::EhFrameOffset(offset);
    let fde = gimli::UnwindSection::fde_from_offset(
        &frame,
        bases,
        offset,
        |_, bases, at| resolve_cie(section, bases, cur_cie, at.0).map(|cie| cie.entry),
    )?;
    Ok((fde.initial_address(), fde.offset()))
}

/// The entries of a section that have not been read yet.
pub(crate) enum CfiEntries<'a> {
    DebugFrame(DebugFrameEntries<'a>),
    EhFrame(EhFrameEntries<'a>),
}

impl<'a> CfiEntries<'a> {
    /// Where the walk stands.
    pub(crate) open spec fn cursor(self) -> Cursor {
        match self {
            CfiEntries::DebugFrame(entries) => debug_frame_cursor(entries),
            CfiEntries::EhFrame(entries) => eh_frame_cursor(entries),
        }
    }

    /// Starts a walk over the entries of `section`, at its first byte.
    pub(crate) fn new(section: &CfiSection<'a>, bases: &'a gimli::BaseAddresses) -> (entries: Self)
        requires
            section@.is_addressable(),
            bases_unset(*bases),
        ensures
            entries.cursor() == (Cursor { section: section@, position: 0 }),
    {
        match section.kind {
            CfiSectionKind::DebugFrame => CfiEntries::DebugFrame(
                debug_frame_entries(section, bases),
            ),
            CfiSectionKind::EhFrame => CfiEntries::EhFrame(eh_frame_entries(section, bases)),
        }
    }

    /// Reads the next entry, and leaves the walk behind it.
    pub(crate) fn next(&mut self) -> (result: Result<Option<CfiEntry<'a>>, gimli::Error>)
        requires
            old(self).cursor().section.is_addressable(),
        ensures
            ({
                let before = old(self).cursor();
                let step = cfi_step(before.section, before.position);
                &&& is_next_entry(before, final(self).cursor(), step, result)
                &&& result matches Err(e) ==> is_entry_error(before.section, before.position, e)
            }),
    {
        match self {
            CfiEntries::DebugFrame(entries) => next_debug_frame_entry(entries),
            CfiEntries::EhFrame(entries) => next_eh_frame_entry(entries),
        }
    }
}

/// Decodes the FDE at `offset`: its initial address and its offset. The CIE that it needs is taken
/// from `cur_cie`, if that is the one, and is otherwise read and kept there.
pub(crate) fn fde_from_offset<'a>(
    section: &CfiSection<'a>,
    bases: &gimli::BaseAddresses,
    cur_cie: &mut Option<Cie<'a>>,
    offset: usize,
) -> (result: Result<(u64, usize), gimli::Error>)
    requires
        section@.is_addressable(),
        bases_unset(*bases),
        cache_matches(section@, *old(cur_cie)),
    ensures
        cache_matches(section@, *final(cur_cie)),
        match result {
            Ok(fde) => fde_start(section@, offset as nat) == Some(fde.0) && fde.1 == offset,
            Err(e) => fde_start(section@, offset as nat) is None && fde_error(
                section@,
                offset as nat,
                e,
            ),
        },
{
    match section.kind {
        CfiSectionKind::DebugFrame => debug_frame_fde_from_offset(section, bases, cur_cie, offset),
        CfiSectionKind::EhFrame => eh_frame_fde_from_offset(section, bases, cur_cie, offset),
    }
}

} // verus!
