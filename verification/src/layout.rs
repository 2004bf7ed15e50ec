//! The byte layout of a DisplayID structure, as a mathematical model.
//!
//! A structure is a run of sections laid end to end from offset 0. The byte
//! at [`EXTENSION_COUNT`] says how many sections there are; each section says
//! at [`BYTES_IN_SECTION`] how many payload bytes it carries between its
//! mandatory bytes. Everything here is a function of the buffer alone.
use vstd::prelude::*;
use crate::Error;

verus! {

/// Offset of the structure version within a section.
pub const STRUCTURE_VERSION: usize = 0;

/// Offset, within a section, of the number of payload bytes.
pub const BYTES_IN_SECTION: usize = 1;

/// Offset of the primary use case within a section.
pub const PRIMARY_USE_CASE: usize = 2;

/// Offset of the extension count within the structure.
pub const EXTENSION_COUNT: usize = 3;

/// Number of bytes every section has besides its payload.
pub const MANDATORY_BYTES: usize = 5;

/// The only structure version that is understood: 2.0.
pub const SUPPORTED_VERSION: u8 = 0x20;

/// The largest primary use case a section may declare.
pub const MAX_USE_CASE: u8 = 0xf;

/// The largest buffer that can be a DisplayID structure: 256 sections of
/// 256 bytes.
pub const MAX_STRUCTURE_LEN: usize = 65536;

/// Sum of the bytes of `bytes`, as a natural number.
pub open spec fn byte_sum(bytes: Seq<u8>) -> nat
    decreases bytes.len(),
{
    if bytes.len() == 0 {
        0
    } else {
        byte_sum(bytes.drop_last()) + bytes.last() as nat
    }
}

/// The additive checksum of `bytes`: their sum modulo 256.
pub open spec fn checksum(bytes: Seq<u8>) -> u8 {
    (byte_sum(bytes) % 256) as u8
}

/// How many sections `blob` declares.
pub open spec fn declared_sections(blob: Seq<u8>) -> nat {
    blob[EXTENSION_COUNT as int] as nat
}

/// The offset at which section `k` of `blob` starts, which is where section
/// `k - 1` ends. It means something only while the sections before `k` fit
/// (see [`sections_fit`]).
pub open spec fn section_start(blob: Seq<u8>, k: nat) -> int
    decreases k,
{
    if k == 0 {
        0
    } else {
        let prev = section_start(blob, (k - 1) as nat);
        prev + section_len(blob, prev)
    }
}

/// The length of the section that starts at offset `start`: its declared
/// payload and the mandatory bytes.
pub open spec fn section_len(blob: Seq<u8>, start: int) -> int {
    blob[start + BYTES_IN_SECTION] as int + MANDATORY_BYTES
}

/// Section `k` lies within `blob`: its length byte can be read and the bytes
/// it declares are all there.
pub open spec fn section_fits(blob: Seq<u8>, k: nat) -> bool {
    let start = section_start(blob, k);
    &&& start + BYTES_IN_SECTION < blob.len()
    &&& start + section_len(blob, start) <= blob.len()
}

/// Each of the first `n` sections lies within `blob`.
pub open spec fn sections_fit(blob: Seq<u8>, n: nat) -> bool {
    forall|k: nat| k < n ==> #[trigger] section_fits(blob, k)
}

/// The buffer has a size that a structure can have, and every section it
/// declares lies within it.
pub open spec fn well_laid_out(blob: Seq<u8>) -> bool {
    &&& MANDATORY_BYTES <= blob.len() <= MAX_STRUCTURE_LEN
    &&& sections_fit(blob, declared_sections(blob))
}

/// The bytes of section `k`.
pub open spec fn section_bytes(blob: Seq<u8>, k: nat) -> Seq<u8> {
    blob.subrange(section_start(blob, k), section_start(blob, k + 1))
}

/// The first `n` sections of `blob`, in the order in which they lie in it.
pub open spec fn sections_of(blob: Seq<u8>, n: nat) -> Seq<Seq<u8>> {
    Seq::new(n, |k: int| section_bytes(blob, k as nat))
}

/// What is wrong with one section, if anything. The checks are made in this
/// order, and the first that fails is the one reported.
pub open spec fn section_error(section: Seq<u8>) -> Option<Error> {
    if section.len() < MANDATORY_BYTES {
        Some(Error::MandatoryFieldMissing(section.len() as usize))
    } else if section[STRUCTURE_VERSION as int] != SUPPORTED_VERSION {
        Some(Error::UnknownVersion(section[STRUCTURE_VERSION as int]))
    } else if section[PRIMARY_USE_CASE as int] > MAX_USE_CASE {
        Some(Error::UnknownPrimaryUseCase(section[PRIMARY_USE_CASE as int]))
    } else if checksum(section.drop_last()) != section.last() {
        Some(Error::InvalidChecksum(checksum(section.drop_last()), section.last()))
    } else {
        None
    }
}

/// Each of the first `n` sections of `blob` passes its checks.
pub open spec fn sections_pass(blob: Seq<u8>, n: nat) -> bool {
    forall|j: nat| j < n ==> section_error(#[trigger] section_bytes(blob, j)) is None
}

/// The error of the first section, from index `from` on, that has one.
pub open spec fn first_error_from(sections: Seq<Seq<u8>>, from: nat) -> Option<Error>
    decreases sections.len() - from,
{
    if from >= sections.len() {
        None
    } else if section_error(sections[from as int]) is Some {
        section_error(sections[from as int])
    } else {
        first_error_from(sections, from + 1)
    }
}

/// The error of the first section that has one.
pub open spec fn first_error(sections: Seq<Seq<u8>>) -> Option<Error> {
    first_error_from(sections, 0)
}

/// What validating `sections` one after the other gives.
pub open spec fn validation(sections: Seq<Seq<u8>>) -> Result<(), Error> {
    match first_error(sections) {
        Some(e) => Err(e),
        None => Ok(()),
    }
}

/// What parsing `blob` gives: its sections, or the reason why it is not a
/// DisplayID structure. The size of the buffer is judged first, then whether
/// the declared sections fit, then the sections themselves.
pub open spec fn parse(blob: Seq<u8>) -> Result<Seq<Seq<u8>>, Error> {
    if blob.len() > MAX_STRUCTURE_LEN {
        Err(Error::TooLarge(blob.len() as usize))
    } else if blob.len() < MANDATORY_BYTES {
        Err(Error::MandatoryFieldMissing(blob.len() as usize))
    } else if !sections_fit(blob, declared_sections(blob)) {
        Err(Error::Malformed)
    } else {
        let sections = sections_of(blob, declared_sections(blob));
        match first_error(sections) {
            Some(e) => Err(e),
            None => Ok(sections),
        }
    }
}

/// Sections do not overlap and none is shorter than the mandatory bytes:
/// section `j` starts at least five bytes after section `i` for each section
/// between them.
pub proof fn lemma_starts_increase(blob: Seq<u8>, i: nat, j: nat)
    requires
        i <= j,
    ensures
        section_start(blob, j) >= section_start(blob, i) + MANDATORY_BYTES * (j - i),
    decreases j,
{
    if i < j {
        lemma_starts_increase(blob, i, (j - 1) as nat);
    }
}

/// A section that fits is the bytes from its start to the start of the next
/// one, at least five of them, and they are the buffer's own.
pub proof fn lemma_section_is_slice(blob: Seq<u8>, k: nat)
    requires
        section_fits(blob, k),
    ensures
        0 <= section_start(blob, k) < section_start(blob, k + 1) <= blob.len(),
        section_bytes(blob, k).len() == section_len(blob, section_start(blob, k)),
        section_bytes(blob, k).len() >= MANDATORY_BYTES,
        forall|i: int|
            0 <= i < section_bytes(blob, k).len() ==> #[trigger] section_bytes(blob, k)[i]
                == blob[section_start(blob, k) + i],
{
    lemma_starts_increase(blob, 0, k);
}

} // verus!
