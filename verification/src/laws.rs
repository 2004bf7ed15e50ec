//! What holds of the layout and of parsing, proved over the model in
//! [`crate::layout`].
use vstd::prelude::*;
use crate::Error;
use crate::displayid::{use_case_of, DisplayId};
use crate::layout::{
    checksum, declared_sections, first_error, first_error_from, lemma_section_is_slice,
    lemma_starts_increase, parse, section_bytes, section_error, section_fits, section_start,
    sections_fit, sections_of, sections_pass, well_laid_out, BYTES_IN_SECTION, EXTENSION_COUNT,
    MANDATORY_BYTES, MAX_STRUCTURE_LEN, MAX_USE_CASE, PRIMARY_USE_CASE, STRUCTURE_VERSION,
    SUPPORTED_VERSION,
};

verus! {

/// The first section that has an error decides: if the sections from `from`
/// up to `k` pass and section `k` does not, its error is the one reported.
pub proof fn lemma_first_failing_section_decides(sections: Seq<Seq<u8>>, from: nat, k: nat)
    requires
        from <= k < sections.len(),
        forall|j: int| from <= j < k ==> section_error(#[trigger] sections[j]) is None,
        section_error(sections[k as int]) is Some,
    ensures
        first_error_from(sections, from) == section_error(sections[k as int]),
    decreases k - from,
{
    if from < k {
        lemma_first_failing_section_decides(sections, from + 1, k);
    }
}

/// No error is reported exactly when every section passes.
pub proof fn lemma_no_error_iff_all_pass(sections: Seq<Seq<u8>>, from: nat)
    ensures
        first_error_from(sections, from) is None <==> forall|j: int|
            from <= j < sections.len() ==> section_error(#[trigger] sections[j]) is None,
    decreases sections.len() - from,
{
    if from < sections.len() {
        lemma_no_error_iff_all_pass(sections, from + 1);
    }
}

/// A reported error is the error of some section, and the sections before
/// that one pass.
pub proof fn lemma_error_has_source(sections: Seq<Seq<u8>>, from: nat) -> (k: nat)
    requires
        first_error_from(sections, from) is Some,
    ensures
        from <= k < sections.len(),
        section_error(sections[k as int]) == first_error_from(sections, from),
        forall|j: int| from <= j < k ==> section_error(#[trigger] sections[j]) is None,
    decreases sections.len() - from,
{
    if section_error(sections[from as int]) is Some {
        from
    } else {
        lemma_error_has_source(sections, from + 1)
    }
}

/// In a well laid out buffer whose first `k` sections pass, an error in
/// section `k` is what parsing reports.
pub proof fn lemma_parse_reports_first_error(blob: Seq<u8>, k: nat)
    requires
        well_laid_out(blob),
        k < declared_sections(blob),
        sections_pass(blob, k),
        section_error(section_bytes(blob, k)) is Some,
    ensures
        parse(blob) == Err::<Seq<Seq<u8>>, Error>(section_error(section_bytes(blob, k))->Some_0),
{
    let sections = sections_of(blob, declared_sections(blob));
    assert forall|j: int| 0 <= j < k implies section_error(#[trigger] sections[j]) is None by {
        assert(sections[j] == section_bytes(blob, j as nat));
    }
    assert(sections[k as int] == section_bytes(blob, k));
    lemma_first_failing_section_decides(sections, 0, k);
}

/// A version byte other than 2.0 is reported as it stands: where the buffer
/// is well laid out and the sections before `k` pass, a section `k` with
/// another version byte makes parsing fail with `UnknownVersion` of that
/// byte.
pub proof fn lemma_unknown_version(blob: Seq<u8>, k: nat)
    requires
        well_laid_out(blob),
        k < declared_sections(blob),
        sections_pass(blob, k),
        blob[section_start(blob, k) + STRUCTURE_VERSION] != SUPPORTED_VERSION,
    ensures
        parse(blob) == Err::<Seq<Seq<u8>>, Error>(
            Error::UnknownVersion(blob[section_start(blob, k) + STRUCTURE_VERSION]),
        ),
{
    assert(section_fits(blob, k));
    lemma_section_is_slice(blob, k);
    assert(section_bytes(blob, k)[STRUCTURE_VERSION as int] == blob[section_start(blob, k)
        + STRUCTURE_VERSION]);
    lemma_parse_reports_first_error(blob, k);
}

/// A use case above 15 is reported as it stands: where the buffer is well
/// laid out, the sections before `k` pass and section `k` has version 2.0, a
/// use-case byte above 15 in it makes parsing fail with
/// `UnknownPrimaryUseCase` of that byte.
pub proof fn lemma_unknown_use_case(blob: Seq<u8>, k: nat)
    requires
        well_laid_out(blob),
        k < declared_sections(blob),
        sections_pass(blob, k),
        blob[section_start(blob, k) + STRUCTURE_VERSION] == SUPPORTED_VERSION,
        blob[section_start(blob, k) + PRIMARY_USE_CASE] > MAX_USE_CASE,
    ensures
        parse(blob) == Err::<Seq<Seq<u8>>, Error>(
            Error::UnknownPrimaryUseCase(blob[section_start(blob, k) + PRIMARY_USE_CASE]),
        ),
{
    assert(section_fits(blob, k));
    lemma_section_is_slice(blob, k);
    assert(section_bytes(blob, k)[STRUCTURE_VERSION as int] == blob[section_start(blob, k)
        + STRUCTURE_VERSION]);
    assert(section_bytes(blob, k)[PRIMARY_USE_CASE as int] == blob[section_start(blob, k)
        + PRIMARY_USE_CASE]);
    lemma_parse_reports_first_error(blob, k);
}

/// Every error names its cause. A reported length is the buffer's own and
/// below five; a reported version is not 2.0; a reported use case is above
/// 15, so that none from 0 to 15 is ever reported; the two checksums
/// reported differ; `TooLarge` and `Malformed` come for oversized and for
/// overrunning buffers only. And what parses is well laid out, with every
/// section passing.
pub proof fn lemma_error_names_cause(blob: Seq<u8>)
    ensures
        match parse(blob) {
            Err(Error::MandatoryFieldMissing(n)) => n == blob.len() && n < MANDATORY_BYTES,
            Err(Error::UnknownVersion(version)) => version != SUPPORTED_VERSION,
            Err(Error::UnknownPrimaryUseCase(code)) => code > MAX_USE_CASE,
            Err(Error::InvalidChecksum(actual, expected)) => actual != expected,
            Err(Error::TooLarge(n)) => blob.len() > MAX_STRUCTURE_LEN && n == blob.len() as usize,
            Err(Error::Malformed) => MANDATORY_BYTES <= blob.len() <= MAX_STRUCTURE_LEN
                && !sections_fit(blob, declared_sections(blob)),
            Ok(sections) => well_laid_out(blob) && sections == sections_of(
                blob,
                declared_sections(blob),
            ) && sections_pass(blob, declared_sections(blob)),
        },
{
    if well_laid_out(blob) {
        let sections = sections_of(blob, declared_sections(blob));
        if first_error(sections) is Some {
            let k = lemma_error_has_source(sections, 0);
            assert(sections[k as int] == section_bytes(blob, k));
            assert(section_fits(blob, k));
            lemma_section_is_slice(blob, k);
        } else {
            lemma_no_error_iff_all_pass(sections, 0);
            assert forall|j: nat| j < declared_sections(blob) implies section_error(
                #[trigger] section_bytes(blob, j),
            ) is None by {
                assert(sections[j as int] == section_bytes(blob, j));
            }
        }
    }
}

/// Writing `byte` at offset `at`, which is the length byte of none of the
/// first `n` sections, leaves the starts of the first `n + 1` sections where
/// they were.
proof fn lemma_starts_unchanged(blob: Seq<u8>, at: int, byte: u8, n: nat, j: nat)
    requires
        0 <= at < blob.len(),
        sections_fit(blob, n),
        j <= n,
        forall|i: nat| i < n ==> #[trigger] section_start(blob, i) + BYTES_IN_SECTION != at,
    ensures
        section_start(blob.update(at, byte), j) == section_start(blob, j),
    decreases j,
{
    if j > 0 {
        let i = (j - 1) as nat;
        lemma_starts_unchanged(blob, at, byte, n, i);
        assert(section_fits(blob, i));
        lemma_starts_increase(blob, 0, i);
    }
}

/// A wrong checksum byte is reported with the sum it should have been: in a
/// buffer that parses, writing another byte where section `k` has its
/// checksum makes parsing fail with `InvalidChecksum`, which carries the sum
/// of the section's other bytes and the byte that was written.
pub proof fn lemma_corrupt_checksum(blob: Seq<u8>, k: nat, byte: u8)
    requires
        parse(blob) is Ok,
        k < declared_sections(blob),
        byte != blob[section_start(blob, k + 1) - 1],
    ensures
        parse(blob.update(section_start(blob, k + 1) - 1, byte)) == Err::<Seq<Seq<u8>>, Error>(
            Error::InvalidChecksum(checksum(section_bytes(blob, k).drop_last()), byte),
        ),
{
    let n = declared_sections(blob);
    let at = section_start(blob, k + 1) - 1;
    let changed = blob.update(at, byte);
    lemma_error_names_cause(blob);
    assert(section_fits(blob, k));
    lemma_section_is_slice(blob, k);
    assert forall|i: nat| i < n implies #[trigger] section_start(blob, i) + BYTES_IN_SECTION
        != at by {
        if i <= k {
            lemma_starts_increase(blob, i, k);
        } else {
            lemma_starts_increase(blob, k + 1, i);
        }
    }
    lemma_starts_increase(blob, 0, k);
    assert(changed[EXTENSION_COUNT as int] == blob[EXTENSION_COUNT as int]);
    assert forall|j: nat| j < n implies #[trigger] section_fits(changed, j) by {
        assert(section_fits(blob, j));
        lemma_starts_unchanged(blob, at, byte, n, j);
        lemma_starts_increase(blob, 0, j);
    }
    assert forall|j: nat| j < k implies section_error(#[trigger] section_bytes(changed, j))
        is None by {
        assert(section_fits(blob, j));
        lemma_starts_unchanged(blob, at, byte, n, j);
        lemma_starts_unchanged(blob, at, byte, n, j + 1);
        lemma_starts_increase(blob, 0, j);
        lemma_starts_increase(blob, j + 1, k);
        assert(section_bytes(changed, j) =~= section_bytes(blob, j));
    }
    lemma_starts_unchanged(blob, at, byte, n, k);
    lemma_starts_unchanged(blob, at, byte, n, k + 1);
    let before = section_bytes(blob, k);
    let after = section_bytes(changed, k);
    assert(after =~= before.update(before.len() - 1, byte));
    assert(after.drop_last() =~= before.drop_last());
    assert(section_error(before) is None);
    lemma_parse_reports_first_error(changed, k);
}

/// A buffer that declares more sections than it has room for, at five bytes
/// a section, is malformed.
pub proof fn lemma_too_many_sections(blob: Seq<u8>)
    requires
        MANDATORY_BYTES <= blob.len() <= MAX_STRUCTURE_LEN,
        MANDATORY_BYTES * declared_sections(blob) > blob.len(),
    ensures
        parse(blob) == Err::<Seq<Seq<u8>>, Error>(Error::Malformed),
{
    let n = declared_sections(blob);
    if sections_fit(blob, n) {
        assert(section_fits(blob, (n - 1) as nat));
        lemma_section_is_slice(blob, (n - 1) as nat);
        lemma_starts_increase(blob, 0, n);
    }
}

/// A declared section that reaches past the end of the buffer makes parsing
/// fail with `Malformed`, whatever the sections hold.
pub proof fn lemma_overrun_is_malformed(blob: Seq<u8>, k: nat)
    requires
        MANDATORY_BYTES <= blob.len() <= MAX_STRUCTURE_LEN,
        k < declared_sections(blob),
        !section_fits(blob, k),
    ensures
        parse(blob) == Err::<Seq<Seq<u8>>, Error>(Error::Malformed),
{
}

/// The sections tile the front of the buffer: laid end to end in the order
/// in which they were found, the first `n` sections are the buffer's first
/// bytes, as many as the sections have together.
pub proof fn lemma_sections_tile_prefix(blob: Seq<u8>, n: nat)
    requires
        sections_fit(blob, n),
    ensures
        0 <= section_start(blob, n) <= blob.len(),
        sections_of(blob, n).flatten() == blob.subrange(0, section_start(blob, n)),
    decreases n,
{
    if n == 0 {
        assert(sections_of(blob, 0) =~= Seq::<Seq<u8>>::empty());
        assert(blob.subrange(0, 0) =~= Seq::<u8>::empty());
    } else {
        let m = (n - 1) as nat;
        assert(section_fits(blob, m));
        lemma_section_is_slice(blob, m);
        lemma_sections_tile_prefix(blob, m);
        assert(sections_of(blob, n) =~= sections_of(blob, m).push(section_bytes(blob, m)));
        sections_of(blob, m).lemma_flatten_push(section_bytes(blob, m));
        assert(blob.subrange(0, section_start(blob, m)) + section_bytes(blob, m)
            =~= blob.subrange(0, section_start(blob, n)));
    }
}

/// The sections of a structure, laid end to end, give back the front of its
/// buffer.
pub proof fn lemma_round_trip(display_id: DisplayId)
    requires
        display_id.wf(),
    ensures
        display_id@.flatten().len() <= display_id.buffer().len(),
        display_id@.flatten() == display_id.buffer().subrange(
            0,
            display_id@.flatten().len() as int,
        ),
{
    lemma_sections_tile_prefix(display_id.buffer(), declared_sections(display_id.buffer()));
}

/// Two structures over equal buffers have the same sections, byte for byte,
/// and so the same use case in each.
pub proof fn lemma_same_buffer_same_structure(a: DisplayId, b: DisplayId)
    requires
        a.wf(),
        b.wf(),
        a.buffer() == b.buffer(),
    ensures
        a@ == b@,
        a.is_valid() == b.is_valid(),
        forall|i: int|
            0 <= i < a@.len() ==> use_case_of(#[trigger] a@[i][PRIMARY_USE_CASE as int])
                == use_case_of(b@[i][PRIMARY_USE_CASE as int]),
{
}

/// Every section of a valid structure has its mandatory bytes, version 2.0,
/// a use case of at most 15 and the checksum of the bytes before its last.
pub proof fn lemma_valid_sections(display_id: DisplayId, i: int)
    requires
        display_id.is_valid(),
        0 <= i < display_id@.len(),
    ensures
        display_id@[i] == section_bytes(display_id.buffer(), i as nat),
        display_id@[i].len() >= MANDATORY_BYTES,
        display_id@[i][STRUCTURE_VERSION as int] == SUPPORTED_VERSION,
        display_id@[i][PRIMARY_USE_CASE as int] <= MAX_USE_CASE,
        display_id@[i].last() == checksum(display_id@[i].drop_last()),
{
    lemma_no_error_iff_all_pass(display_id@, 0);
}

} // verus!
