//! What lookups in an index promise about the section that the index was made of.

use crate::cfi_index::{
    contents_from, is_lookup, is_nearest, is_stable_sort, offsets_ascend, starting_at, starts_at,
    SectionContents,
};
use crate::cfi_section::{
    cfi_step, cfi_step_error, fde_error, fde_start, is_unexpected_eof, CfiSection, CfiStep,
    SectionModel,
};
use vstd::prelude::*;

verus! {

/// `pc` is the greatest initial address among `fdes` that is not above `address`.
pub open spec fn is_greatest_start(fdes: Seq<(u64, u32)>, address: u64, pc: u64) -> bool {
    &&& pc <= address
    &&& exists|i: int| 0 <= i < fdes.len() && (#[trigger] fdes[i]).0 == pc
    &&& forall|i: int|
        0 <= i < fdes.len() && fdes[i].0 <= address ==> (#[trigger] fdes[i]).0 <= pc
}

proof fn lemma_last_filtered(fdes: Seq<(u64, u32)>, pred: spec_fn((u64, u32)) -> bool, i: int)
    requires
        0 <= i < fdes.len(),
        pred(fdes[i]),
        forall|j: int| i < j < fdes.len() ==> !pred(#[trigger] fdes[j]),
    ensures
        fdes.filter(pred).len() > 0,
        fdes.filter(pred).last() == fdes[i],
    decreases fdes.len(),
{
    reveal(Seq::filter);
    if i < fdes.len() - 1 {
        assert(!pred(fdes[fdes.len() - 1]));
        lemma_last_filtered(fdes.drop_last(), pred, i);
    }
}

proof fn lemma_filtered_count(
    fdes: Seq<(u64, u32)>,
    pred: spec_fn((u64, u32)) -> bool,
    entry: (u64, u32),
)
    requires
        pred(entry),
    ensures
        fdes.filter(pred).to_multiset().count(entry) == fdes.to_multiset().count(entry),
    decreases fdes.len(),
{
    broadcast use vstd::seq_lib::group_to_multiset_ensures;

    reveal(Seq::filter);
    if fdes.len() > 0 {
        let rest = fdes.drop_last();
        lemma_filtered_count(rest, pred, entry);
        assert(fdes == rest.push(fdes.last()));
        if pred(fdes.last()) {
            assert(fdes.filter(pred) == rest.filter(pred).push(fdes.last()));
        }
    } else {
        assert(fdes.filter(pred) == fdes);
    }
}

/// Sorting neither adds nor drops an entry: every one occurs as often as before.
pub proof fn sorting_keeps_entries(fdes: Seq<(u64, u32)>, sorted: Seq<(u64, u32)>)
    requires
        is_stable_sort(fdes, sorted),
    ensures
        sorted.to_multiset() == fdes.to_multiset(),
        forall|entry: (u64, u32)| #[trigger] sorted.contains(entry) <==> fdes.contains(entry),
{
    assert forall|entry: (u64, u32)|
        sorted.to_multiset().count(entry) == fdes.to_multiset().count(entry) by {
        assert(starting_at(sorted, entry.0) == starting_at(fdes, entry.0));
        lemma_filtered_count(sorted, starts_at(entry.0), entry);
        lemma_filtered_count(fdes, starts_at(entry.0), entry);
    }
    assert(sorted.to_multiset() =~= fdes.to_multiset());
    broadcast use vstd::seq_lib::group_to_multiset_ensures;

    assert forall|entry: (u64, u32)| #[trigger] sorted.contains(entry) <==> fdes.contains(entry) by {
        assert(sorted.contains(entry) <==> sorted.to_multiset().count(entry) > 0);
        assert(fdes.contains(entry) <==> fdes.to_multiset().count(entry) > 0);
    }
}

/// No two entries of an index have the same offset, where the offsets of the FDEs that it was made
/// of ascend, as they do in a section.
pub proof fn index_offsets_are_distinct(
    fdes: Seq<(u64, u32)>,
    sorted: Seq<(u64, u32)>,
    end: nat,
    i: int,
    j: int,
)
    requires
        is_stable_sort(fdes, sorted),
        offsets_ascend(fdes, end),
        0 <= i < j < sorted.len(),
    ensures
        sorted[i].1 != sorted[j].1,
        sorted[i].1 < end,
{
    sorting_keeps_entries(fdes, sorted);
    assert(fdes.no_duplicates());
    fdes.lemma_multiset_has_no_duplicates();
    sorted.lemma_multiset_has_no_duplicates_conv();
    assert(sorted.contains(sorted[i]) && sorted.contains(sorted[j]));
    let a = choose|a: int| 0 <= a < fdes.len() && fdes[a] == sorted[i];
    let b = choose|b: int| 0 <= b < fdes.len() && fdes[b] == sorted[j];
    assert(fdes[a].1 < end && fdes[b].1 < end);
}

/// A lookup finds nothing exactly where every FDE starts behind the address. Otherwise it finds an
/// FDE with the greatest initial address that is not above the address; and where that is below
/// the address, it is the last such FDE of the section.
pub proof fn lookup_finds_greatest_start(
    fdes: Seq<(u64, u32)>,
    sorted: Seq<(u64, u32)>,
    address: u64,
    found: Option<u32>,
)
    requires
        is_stable_sort(fdes, sorted),
        is_lookup(sorted, address, found),
    ensures
        found is None <==> forall|i: int|
            0 <= i < fdes.len() ==> (#[trigger] fdes[i]).0 > address,
        found matches Some(offset) ==> exists|pc: u64| #[trigger]
            is_greatest_start(fdes, address, pc) && fdes.contains((pc, offset)) && (pc < address
                ==> starting_at(fdes, pc).last() == (pc, offset)),
{
    sorting_keeps_entries(fdes, sorted);
    assert forall|i: int| 0 <= i < fdes.len() implies sorted.contains(#[trigger] fdes[i]) by {
        assert(fdes.contains(fdes[i]));
    }
    match found {
        None => {
            assert forall|i: int| 0 <= i < fdes.len() implies (#[trigger] fdes[i]).0 > address by {
                assert(sorted.contains(fdes[i]));
            }
        },
        Some(offset) => {
            let n = choose|i: int| #[trigger]
                is_nearest(sorted, address, i) && sorted[i].1 == offset;
            let pc = sorted[n].0;
            assert(sorted.contains((pc, offset)));
            let k = choose|k: int| 0 <= k < fdes.len() && fdes[k] == (pc, offset);
            assert(fdes[k].0 == pc);
            assert forall|i: int| 0 <= i < fdes.len() && fdes[i].0 <= address implies (
            #[trigger] fdes[i]).0 <= pc by {
                assert(sorted.contains(fdes[i]));
            }
            assert(is_greatest_start(fdes, address, pc));
            if pc < address {
                lemma_last_filtered(sorted, starts_at(pc), n);
                assert(starting_at(fdes, pc) == starting_at(sorted, pc));
            }
        },
    }
}

/// The initial address of an FDE is found: the lookup returns an FDE that starts right there.
pub proof fn lookup_finds_own_start(
    fdes: Seq<(u64, u32)>,
    sorted: Seq<(u64, u32)>,
    k: int,
    found: Option<u32>,
)
    requires
        is_stable_sort(fdes, sorted),
        0 <= k < fdes.len(),
        is_lookup(sorted, fdes[k].0, found),
    ensures
        found matches Some(offset) && fdes.contains((fdes[k].0, offset)),
{
    lookup_finds_greatest_start(fdes, sorted, fdes[k].0, found);
}

/// An address that is not below one for which something is found is found as well, and at no
/// smaller an initial address.
pub proof fn lookup_is_monotone(
    sorted: Seq<(u64, u32)>,
    low: u64,
    high: u64,
    found_low: Option<u32>,
    found_high: Option<u32>,
)
    requires
        low <= high,
        is_lookup(sorted, low, found_low),
        is_lookup(sorted, high, found_high),
        found_low is Some,
    ensures
        found_high is Some,
        forall|i: int, j: int|
            #![trigger is_nearest(sorted, low, i), is_nearest(sorted, high, j)]
            is_nearest(sorted, low, i) && is_nearest(sorted, high, j) ==> sorted[i].0
                <= sorted[j].0,
{
    let n = choose|i: int| #[trigger]
        is_nearest(sorted, low, i) && sorted[i].1 == found_low->Some_0;
    assert(sorted[n].0 <= high);
}

/// Two lookups of the same address agree, unless several FDEs start at that very address.
pub proof fn lookup_is_determined(
    sorted: Seq<(u64, u32)>,
    address: u64,
    found: Option<u32>,
    found_again: Option<u32>,
)
    requires
        is_lookup(sorted, address, found),
        is_lookup(sorted, address, found_again),
        forall|i: int, j: int|
            0 <= i < j < sorted.len() ==> !((#[trigger] sorted[i]).0 == address && (
            #[trigger] sorted[j]).0 == address),
    ensures
        found == found_again,
{
    if found is Some && found_again is Some {
        let i = choose|i: int| #[trigger]
            is_nearest(sorted, address, i) && sorted[i].1 == found->Some_0;
        let j = choose|j: int| #[trigger]
            is_nearest(sorted, address, j) && sorted[j].1 == found_again->Some_0;
        assert(sorted[i].0 == sorted[j].0);
        assert(i == j);
    }
}

/// An entry lies at `position`, and the walk over the entries goes on behind it, at `next`.
pub open spec fn leads_to(section: SectionModel, position: nat, next: nat) -> bool {
    &&& position < next <= section.data.len()
    &&& match cfi_step(section, position) {
        CfiStep::Cie { offset: _, next: behind } => behind == next,
        CfiStep::Fde { offset: _, next: behind } => behind == next,
        _ => false,
    }
}

/// The walk over the entries of `section` comes to `positions`, in that order, from its first byte
/// on.
pub open spec fn is_walk(section: SectionModel, positions: Seq<nat>) -> bool {
    &&& positions.len() > 0
    &&& positions[0] == 0
    &&& forall|i: int, j: int|
        #![trigger positions[i], positions[j]]
        0 <= i && j == i + 1 && j < positions.len() ==> leads_to(
            section,
            positions[i],
            positions[j],
        )
}

/// Whether an FDE lies at a position of `section`.
pub open spec fn holds_fde(section: SectionModel) -> spec_fn(nat) -> bool {
    |position: nat| cfi_step(section, position) is Fde
}

/// The initial address and the offset of the FDE that lies at a position of `section`.
pub open spec fn fde_lying_at(section: SectionModel) -> spec_fn(nat) -> (u64, u32) {
    |position: nat|
        {
            let offset = cfi_step(section, position)->Fde_offset;
            (fde_start(section, offset)->0, offset as u32)
        }
}

/// `entry` is the initial address and the offset of an FDE that lies at one of `positions`.
pub open spec fn lies_on_walk(
    section: SectionModel,
    positions: Seq<nat>,
    entry: (u64, u32),
) -> bool {
    exists|i: int|
        0 <= i < positions.len() && holds_fde(section)(#[trigger] positions[i]) && fde_lying_at(
            section,
        )(positions[i]) == entry
}

/// If an FDE lies at `position`, it can be decoded, and its offset fits into 32 bits.
pub open spec fn has_no_bad_fde(section: SectionModel, position: nat) -> bool {
    cfi_step(section, position) matches CfiStep::Fde { offset, next: _ } ==> fde_start(
        section,
        offset,
    ) is Some && offset <= 0xffff_ffff
}

/// The FDEs that lie at `positions`, in that order.
spec fn fdes_at(section: SectionModel, positions: Seq<nat>) -> Seq<(u64, u32)> {
    positions.filter(holds_fde(section)).map_values(fde_lying_at(section))
}

proof fn lemma_contents_along_walk(section: SectionModel, positions: Seq<nat>, count: int)
    requires
        is_walk(section, positions),
        0 <= count < positions.len(),
        forall|i: int| 0 <= i < count ==> has_no_bad_fde(section, #[trigger] positions[i]),
    ensures
        contents_from(section, 0) == contents_from(section, positions[count]).after(
            fdes_at(section, positions.take(count)),
        ),
    decreases count,
{
    reveal(Seq::filter);
    if count == 0 {
        assert(fdes_at(section, positions.take(0)) =~= seq![]);
        let contents = contents_from(section, 0);
        if let SectionContents::Fdes(fdes) = contents {
            assert(Seq::<(u64, u32)>::empty() + fdes =~= fdes);
        }
    } else {
        let last = count - 1;
        lemma_contents_along_walk(section, positions, last);
        assert(leads_to(section, positions[last], positions[count]));
        assert(has_no_bad_fde(section, positions[last]));
        assert(positions.take(count).drop_last() =~= positions.take(last));
        assert(positions.take(count).last() == positions[last]);
        let before = fdes_at(section, positions.take(last));
        let rest = contents_from(section, positions[count]);
        if cfi_step(section, positions[last]) is Fde {
            let entry = fde_lying_at(section)(positions[last]);
            assert(fdes_at(section, positions.take(count)) =~= before.push(entry));
            if let SectionContents::Fdes(fdes) = rest {
                assert(before + (seq![entry] + fdes) =~= before.push(entry) + fdes);
            }
        } else {
            assert(fdes_at(section, positions.take(count)) =~= before);
        }
    }
}

/// Where the walk over a section decodes to its end, the index holds every FDE on it, whatever
/// CIEs lie in between: as many as there are, in the order of the section before they are sorted,
/// each with its initial address and its offset.
pub proof fn every_fde_of_a_section_is_indexed(
    section: SectionModel,
    positions: Seq<nat>,
    index: Seq<(u64, u32)>,
)
    requires
        is_walk(section, positions),
        cfi_step(section, positions.last()) is End,
        forall|i: int|
            0 <= i < positions.len() ==> has_no_bad_fde(section, #[trigger] positions[i]),
        contents_from(section, 0) matches SectionContents::Fdes(fdes) ==> is_stable_sort(
            fdes,
            index,
        ),
    ensures
        contents_from(section, 0) is Fdes,
        contents_from(section, 0)->Fdes_0 == positions.filter(holds_fde(section)).map_values(
            fde_lying_at(section),
        ),
        index.len() == positions.filter(holds_fde(section)).len(),
        forall|i: int|
            0 <= i < positions.len() && holds_fde(section)(#[trigger] positions[i])
                ==> index.contains(fde_lying_at(section)(positions[i])),
        forall|k: int|
            0 <= k < index.len() ==> lies_on_walk(section, positions, #[trigger] index[k]),
{
    let last = positions.len() - 1;
    lemma_contents_along_walk(section, positions, last);
    reveal(Seq::filter);
    assert(positions.drop_last() =~= positions.take(last));
    assert(fdes_at(section, positions) =~= fdes_at(section, positions.take(last)));
    let fdes = fdes_at(section, positions);
    assert(fdes_at(section, positions.take(last)) + Seq::<(u64, u32)>::empty() =~= fdes);
    sorting_keeps_entries(fdes, index);
    let found = positions.filter(holds_fde(section));
    assert forall|i: int|
        0 <= i < positions.len() && holds_fde(section)(
            #[trigger] positions[i],
        ) implies index.contains(fde_lying_at(section)(positions[i])) by {
        positions.lemma_filter_contains(holds_fde(section), i);
        let k = choose|k: int| 0 <= k < found.len() && found[k] == positions[i];
        assert(fdes[k] == fde_lying_at(section)(positions[i]));
        assert(fdes.contains(fdes[k]));
    }
    assert forall|k: int| 0 <= k < index.len() implies lies_on_walk(
        section,
        positions,
        #[trigger] index[k],
    ) by {
        assert(index.contains(index[k]));
        let m = choose|m: int| 0 <= m < fdes.len() && fdes[m] == index[k];
        positions.lemma_filter_pred(holds_fde(section), m);
        lemma_filtered_position(positions, holds_fde(section), m);
        let i = choose|i: int| 0 <= i < positions.len() && positions[i] == found[m];
        assert(fde_lying_at(section)(positions[i]) == index[k]);
    }
}

proof fn lemma_filtered_position(positions: Seq<nat>, pred: spec_fn(nat) -> bool, k: int)
    requires
        0 <= k < positions.filter(pred).len(),
    ensures
        positions.contains(positions.filter(pred)[k]),
    decreases positions.len(),
{
    reveal(Seq::filter);
    if positions.len() > 0 {
        let rest = positions.drop_last();
        if k < rest.filter(pred).len() {
            lemma_filtered_position(rest, pred, k);
            let i = choose|i: int| 0 <= i < rest.len() && rest[i] == rest.filter(pred)[k];
            assert(positions[i] == positions.filter(pred)[k]);
        } else {
            assert(positions[positions.len() - 1] == positions.filter(pred)[k]);
        }
    }
}

/// Where the walk over a section comes to something that cannot be indexed, and to nothing of the
/// kind before, no index is made, and that is the reason: bytes that are no entry, an FDE that
/// cannot be decoded, or one that lies too far into the section.
pub proof fn first_bad_entry_is_the_reason(
    section: SectionModel,
    positions: Seq<nat>,
    error: gimli::Error,
)
    requires
        is_walk(section, positions),
        forall|i: int|
            0 <= i < positions.len() - 1 ==> has_no_bad_fde(section, #[trigger] positions[i]),
    ensures
        ({
            let contents = contents_from(section, 0);
            let last = positions.last();
            match cfi_step(section, last) {
                CfiStep::Malformed => {
                    &&& contents matches SectionContents::Malformed(failure)
                    &&& failure.is_told_by(section, error) ==> cfi_step_error(section, last, error)
                    &&& failure.is_told_by(section, error) && 0 < section.data.len() - last < 4
                        ==> is_unexpected_eof(error)
                },
                CfiStep::Fde { offset, next: _ } => match fde_start(section, offset) {
                    None => {
                        &&& contents matches SectionContents::Malformed(failure)
                        &&& failure.is_told_by(section, error) ==> fde_error(
                            section,
                            offset,
                            error,
                        )
                    },
                    Some(_) => offset > 0xffff_ffff ==> contents is OffsetTooBig,
                },
                _ => true,
            }
        }),
{
    lemma_contents_along_walk(section, positions, positions.len() - 1);
}

proof fn lemma_last_start(fdes: Seq<(u64, u32)>, pc: u64) -> (k: int)
    requires
        exists|i: int| 0 <= i < fdes.len() && (#[trigger] fdes[i]).0 == pc,
    ensures
        0 <= k < fdes.len(),
        fdes[k].0 == pc,
        forall|m: int| k < m < fdes.len() ==> (#[trigger] fdes[m]).0 != pc,
    decreases fdes.len(),
{
    if fdes.last().0 == pc {
        fdes.len() - 1
    } else {
        let i = choose|i: int| 0 <= i < fdes.len() && (#[trigger] fdes[i]).0 == pc;
        let rest = fdes.drop_last();
        assert(rest[i].0 == pc);
        let k = lemma_last_start(rest, pc);
        assert forall|m: int| k < m < fdes.len() implies (#[trigger] fdes[m]).0 != pc by {
            if m < rest.len() {
                assert(rest[m].0 != pc);
            }
        }
        k
    }
}

/// A lookup of `address` returns the offset of FDE `k` of the section: it starts at or before the
/// address, no other starts behind it and not behind the address; and of those with the same start
/// it is the last, unless they start at the address itself.
pub open spec fn is_found(fdes: Seq<(u64, u32)>, address: u64, offset: u32, k: int) -> bool {
    &&& 0 <= k < fdes.len()
    &&& fdes[k].1 == offset
    &&& fdes[k].0 <= address
    &&& forall|m: int|
        0 <= m < fdes.len() ==> !(fdes[k].0 < (#[trigger] fdes[m]).0 <= address)
    &&& fdes[k].0 < address ==> forall|m: int|
        k < m < fdes.len() ==> (#[trigger] fdes[m]).0 != fdes[k].0
}

/// A lookup returns the offset of the FDE of the section that starts nearest to the address without
/// lying behind it, and nothing exactly where all start behind it.
pub proof fn lookup_finds_the_nearest_fde_of_the_section(
    fdes: Seq<(u64, u32)>,
    index: Seq<(u64, u32)>,
    address: u64,
    found: Option<u32>,
)
    requires
        is_stable_sort(fdes, index),
        is_lookup(index, address, found),
    ensures
        match found {
            Some(offset) => exists|k: int| #[trigger] is_found(fdes, address, offset, k),
            None => forall|i: int| 0 <= i < fdes.len() ==> (#[trigger] fdes[i]).0 > address,
        },
        (exists|i: int| 0 <= i < fdes.len() && (#[trigger] fdes[i]).0 <= address) ==> found is Some,
{
    lookup_finds_greatest_start(fdes, index, address, found);
    if let Some(offset) = found {
        let pc = choose|pc: u64| #[trigger]
            is_greatest_start(fdes, address, pc) && fdes.contains((pc, offset)) && (pc < address
                ==> starting_at(fdes, pc).last() == (pc, offset));
        if pc < address {
            let k = lemma_last_start(fdes, pc);
            lemma_last_filtered(fdes, starts_at(pc), k);
            assert(is_found(fdes, address, offset, k));
        } else {
            let k = choose|k: int| 0 <= k < fdes.len() && fdes[k] == (pc, offset);
            assert(is_found(fdes, address, offset, k));
        }
    }
}

/// The entries of an index ascend by their initial addresses.
pub proof fn indexes_ascend(fdes: Seq<(u64, u32)>, index: Seq<(u64, u32)>, i: int, j: int)
    requires
        is_stable_sort(fdes, index),
        0 <= i <= j < index.len(),
    ensures
        index[i].0 <= index[j].0,
{
}

/// A section says its kind, its bytes, their order and the size of an address; and it can be
/// decoded if that size is one of 1 to 8 bytes.
pub proof fn sections_say_what_they_hold(section: CfiSection)
    ensures
        section@.kind == section.kind,
        section@.data == section.data@,
        section@.endian == section.endian,
        section@.address_size == section.address_size,
        section@.is_addressable() <==> 1 <= section.address_size <= 8,
{
}

} // verus!
