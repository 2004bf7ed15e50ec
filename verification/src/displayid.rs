//! The DisplayID parser.
//!
//! [`DisplayId::new`] takes a borrowed buffer, finds the sections it
//! declares and checks each of them. The sections it hands out are views
//! into that buffer: nothing is copied.
use vstd::prelude::*;
use vstd::slice::slice_subrange;
use vstd::std_specs::slice::into_iter_elts;
use crate::Error;
use crate::layout::{
    checksum, declared_sections, first_error, first_error_from, lemma_section_is_slice, parse,
    section_bytes, section_fits, section_start, sections_fit, sections_of, validation,
    well_laid_out, BYTES_IN_SECTION, EXTENSION_COUNT, MANDATORY_BYTES, MAX_STRUCTURE_LEN,
    MAX_USE_CASE, PRIMARY_USE_CASE, STRUCTURE_VERSION, SUPPORTED_VERSION,
};

verus! {

/// The primary use case for a DisplayID section.
#[derive(Debug, Clone, Copy, PartialEq, Eq)]
pub enum PrimaryUseCase {
    Extension,
    Test,
    Generic,
    Television,
    Productivity,
    Gaming,
    Presentation,
    VirtualReality,
    AugmentedReality,
    /// A code that DisplayID 2.0 assigns no use case to; carries the code.
    Reserved(u8),
}

/// The use case that a primary-use-case byte stands for.
pub open spec fn use_case_of(code: u8) -> PrimaryUseCase {
    if code == 0 {
        PrimaryUseCase::Extension
    } else if code == 1 {
        PrimaryUseCase::Test
    } else if code == 2 {
        PrimaryUseCase::Generic
    } else if code == 3 {
        PrimaryUseCase::Television
    } else if code == 4 {
        PrimaryUseCase::Productivity
    } else if code == 5 {
        PrimaryUseCase::Gaming
    } else if code == 6 {
        PrimaryUseCase::Presentation
    } else if code == 7 {
        PrimaryUseCase::VirtualReality
    } else if code == 8 {
        PrimaryUseCase::AugmentedReality
    } else {
        PrimaryUseCase::Reserved(code)
    }
}

/// The additive checksum of `bytes`: their sum, wrapping at 256.
pub fn checksum_of(bytes: &[u8]) -> (sum: u8)
    ensures
        sum == checksum(bytes@),
{
    let mut sum: u8 = 0;
    let mut i: usize = 0;
    while i < bytes.len()
        invariant
            i <= bytes.len(),
            sum == checksum(bytes@.take(i as int)),
        decreases bytes.len() - i,
    {
        proof {
            assert(bytes@.take(i + 1).drop_last() == bytes@.take(i as int));
        }
        sum = sum.wrapping_add(bytes[i]);
        i += 1;
    }
    proof {
        assert(bytes@.take(i as int) == bytes@);
    }
    sum
}

/// One section of a DisplayID structure: a view into the buffer that the
/// structure was made from.
#[derive(Debug)]
pub struct DisplayIdSection<'a> {
    section: &'a [u8],
}

impl<'a> View for DisplayIdSection<'a> {
    type V = Seq<u8>;

    /// The bytes of the section.
    closed spec fn view(&self) -> Seq<u8> {
        self.section@
    }
}

impl<'a> DisplayIdSection<'a> {
    /// No section is shorter than its mandatory bytes.
    #[verifier::type_invariant]
    spec fn has_mandatory_bytes(&self) -> bool {
        self.section@.len() >= MANDATORY_BYTES
    }

    /// The structure version byte of the section.
    pub fn structure_version(&self) -> (version: u8)
        ensures
            self@.len() >= MANDATORY_BYTES,
            version == self@[STRUCTURE_VERSION as int],
    {
        proof {
            use_type_invariant(self);
        }
        self.section[STRUCTURE_VERSION]
    }

    /// The primary use case that the section declares.
    pub fn primary_use_case(&self) -> (use_case: PrimaryUseCase)
        ensures
            self@.len() >= MANDATORY_BYTES,
            use_case == use_case_of(self@[PRIMARY_USE_CASE as int]),
    {
        proof {
            use_type_invariant(self);
        }
        let code: u8 = self.section[PRIMARY_USE_CASE];
        match code {
            0 => PrimaryUseCase::Extension,
            1 => PrimaryUseCase::Test,
            2 => PrimaryUseCase::Generic,
            3 => PrimaryUseCase::Television,
            4 => PrimaryUseCase::Productivity,
            5 => PrimaryUseCase::Gaming,
            6 => PrimaryUseCase::Presentation,
            7 => PrimaryUseCase::VirtualReality,
            8 => PrimaryUseCase::AugmentedReality,
            _ => PrimaryUseCase::Reserved(code),
        }
    }

    /// The bytes of the section, borrowed from the buffer.
    pub fn raw_bytes(&self) -> (bytes: &'a [u8])
        ensures
            bytes@ == self@,
            bytes@.len() >= MANDATORY_BYTES,
    {
        proof {
            use_type_invariant(self);
        }
        self.section
    }
}

/// The DisplayID structure.
///
/// A DisplayID is made up of up to 256 variable-length sections, each of which may be up to 256
/// bytes long.
#[derive(Debug)]
pub struct DisplayId<'a> {
    // The entire DisplayID structure
    blob: &'a [u8],
    sections: Vec<DisplayIdSection<'a>>,
}

impl<'a> View for DisplayId<'a> {
    type V = Seq<Seq<u8>>;

    /// The bytes of each section, in the order in which the sections lie in
    /// the buffer.
    closed spec fn view(&self) -> Seq<Seq<u8>> {
        Seq::new(self.sections@.len(), |i: int| self.sections@[i]@)
    }
}

impl<'a> std::ops::Index<usize> for DisplayId<'a> {
    type Output = DisplayIdSection<'a>;

    /// The section at `index`, which must be below the number of sections.
    fn index(&self, index: usize) -> (section: &DisplayIdSection<'a>)
        ensures
            section@ == self@[index as int],
    {
        &self.sections[index]
    }
}

impl<'a> IntoIterator for &'a DisplayId<'a> {
    type Item = &'a DisplayIdSection<'a>;

    type IntoIter = std::slice::Iter<'a, DisplayIdSection<'a>>;

    /// Walks the sections in the order in which they lie in the buffer.
    fn into_iter(self) -> (iter: std::slice::Iter<'a, DisplayIdSection<'a>>)
        ensures
            into_iter_elts(iter).len() == self@.len(),
            forall|i: int|
                0 <= i < self@.len() ==> (#[trigger] into_iter_elts(iter)[i])@ == self@[i],
    {
        self.sections.as_slice().iter()
    }
}

impl<'a> vstd::std_specs::core::IndexSpecImpl<usize> for DisplayId<'a> {
    open spec fn index_req(&self, index: &usize) -> bool {
        *index < self@.len()
    }
}

impl<'a> DisplayId<'a> {
    /// The bytes of the buffer that the structure was made from.
    pub closed spec fn buffer(&self) -> Seq<u8> {
        self.blob@
    }

    /// The sections are those that the buffer declares, and all of them lie
    /// within it. This holds of every structure there is.
    #[verifier::type_invariant]
    pub open spec fn wf(&self) -> bool {
        &&& well_laid_out(self.buffer())
        &&& self@ == sections_of(self.buffer(), declared_sections(self.buffer()))
    }

    /// The structure is well formed and every section passes its checks.
    pub open spec fn is_valid(&self) -> bool {
        &&& self.wf()
        &&& first_error(self@) is None
    }

    /// A well-formed structure has as many sections as its buffer declares.
    pub proof fn lemma_section_count(&self)
        requires
            self.wf(),
        ensures
            self@.len() == declared_sections(self.buffer()),
    {
        assert(self@.len() == sections_of(self.buffer(), declared_sections(self.buffer())).len());
    }

    /// Section `i` of a well-formed structure is the part of the buffer that
    /// the layout gives it, and has its mandatory bytes.
    pub proof fn lemma_section_in_buffer(&self, i: int)
        requires
            self.wf(),
            0 <= i < self@.len(),
        ensures
            self@[i] == section_bytes(self.buffer(), i as nat),
            self@[i].len() >= MANDATORY_BYTES,
    {
        self.lemma_section_count();
        assert(section_fits(self.buffer(), i as nat));
        lemma_section_is_slice(self.buffer(), i as nat);
    }

    /// Create and validate a new DisplayID structure.
    pub fn new(blob: &'a [u8]) -> (result: Result<DisplayId<'a>, Error>)
        ensures
            match result {
                Ok(display_id) => {
                    &&& parse(blob@) == Ok::<Seq<Seq<u8>>, Error>(display_id@)
                    &&& display_id.buffer() == blob@
                    &&& display_id.is_valid()
                },
                Err(e) => parse(blob@) == Err::<Seq<Seq<u8>>, Error>(e),
            },
            blob@.len() > MAX_STRUCTURE_LEN ==> (result matches Err(Error::TooLarge(n)) && n
                == blob@.len()),
            blob@.len() < MANDATORY_BYTES ==> (result matches Err(Error::MandatoryFieldMissing(n))
                && n == blob@.len()),
    {
        let display_id_len = blob.len();
        if display_id_len > MAX_STRUCTURE_LEN {
            return Err(Error::TooLarge(display_id_len));
        }
        if display_id_len < MANDATORY_BYTES {
            return Err(Error::MandatoryFieldMissing(display_id_len));
        }
        let count: u8 = blob[EXTENSION_COUNT];
        let mut start: usize = 0;
        let mut sections: Vec<DisplayIdSection<'a>> = Vec::new();
        let mut found: u8 = 0;
        while found < count
            invariant
                display_id_len == blob@.len(),
                MANDATORY_BYTES <= display_id_len <= MAX_STRUCTURE_LEN,
                count == declared_sections(blob@),
                found <= count,
                start == section_start(blob@, found as nat),
                start <= display_id_len,
                sections_fit(blob@, found as nat),
                sections@.len() == found,
                forall|k: int|
                    0 <= k < found ==> (#[trigger] sections@[k])@ == section_bytes(
                        blob@,
                        k as nat,
                    ),
            decreases count - found,
        {
            if start + BYTES_IN_SECTION >= display_id_len {
                proof {
                    assert(!section_fits(blob@, found as nat));
                }
                return Err(Error::Malformed);
            }
            let section_size: usize = blob[start + BYTES_IN_SECTION] as usize + MANDATORY_BYTES;
            if start + section_size > display_id_len {
                proof {
                    assert(!section_fits(blob@, found as nat));
                }
                return Err(Error::Malformed);
            }
            sections.push(
                DisplayIdSection { section: slice_subrange(blob, start, start + section_size) },
            );
            proof {
                assert(section_fits(blob@, found as nat));
                assert(section_start(blob@, (found + 1) as nat) == start + section_size);
            }
            start += section_size;
            found += 1;
        }

        proof {
            assert(Seq::new(sections@.len(), |i: int| sections@[i]@) =~= sections_of(
                blob@,
                count as nat,
            ));
        }
        let displayid = DisplayId { blob, sections };
        match displayid.validate() {
            Ok(()) => Ok(displayid),
            Err(e) => Err(e),
        }
    }

    /// Validate the DisplayID structure.
    ///
    /// DisplayID requires each section to contain 5 mandatory 1-byte fields, including a checksum.
    /// This asserts the require fields are present in each section, are within the allowable
    /// ranges, and computes the checksum.
    pub fn validate(&self) -> (result: Result<(), Error>)
        ensures
            result == validation(self@),
    {
        let mut i: usize = 0;
        while i < self.sections.len()
            invariant
                i <= self.sections.len(),
                self@.len() == self.sections.len(),
                first_error_from(self@, i as nat) == first_error(self@),
            decreases self.sections.len() - i,
        {
            let blob = self.sections[i].section;
            assert(blob@ == self@[i as int]);
            if blob.len() < MANDATORY_BYTES {
                return Err(Error::MandatoryFieldMissing(blob.len()));
            }
            // Only 2.0 is supported at the moment.
            if blob[STRUCTURE_VERSION] != SUPPORTED_VERSION {
                return Err(Error::UnknownVersion(blob[STRUCTURE_VERSION]));
            }
            // As of 2.0 only 15 primary use-cases are known
            if blob[PRIMARY_USE_CASE] > MAX_USE_CASE {
                return Err(Error::UnknownPrimaryUseCase(blob[PRIMARY_USE_CASE]));
            }
            let expected_checksum = blob[blob.len() - 1];
            let actual_checksum = checksum_of(slice_subrange(blob, 0, blob.len() - 1));
            if actual_checksum != expected_checksum {
                return Err(Error::InvalidChecksum(actual_checksum, expected_checksum));
            }
            i += 1;
        }

        Ok(())
    }

    /// The sections, in the order in which they lie in the buffer.
    pub fn sections(&self) -> (sections: &[DisplayIdSection<'a>])
        ensures
            sections@.len() == self@.len(),
            forall|i: int| 0 <= i < sections@.len() ==> (#[trigger] sections@[i])@ == self@[i],
    {
        self.sections.as_slice()
    }

    /// The section at `index`, if there is one.
    pub fn get(&self, index: usize) -> (section: Option<&DisplayIdSection<'a>>)
        ensures
            section is Some <==> index < self@.len(),
            section matches Some(found) ==> found@ == self@[index as int],
    {
        if index < self.sections.len() {
            Some(&self.sections[index])
        } else {
            None
        }
    }

    /// The buffer that the structure was made from.
    pub fn as_bytes(&self) -> (bytes: &'a [u8])
        ensures
            bytes@ == self.buffer(),
    {
        self.blob
    }

    /// Retrieve the number of extensions in the DisplayID.
    pub fn extension_count(&self) -> (count: usize)
        ensures
            count == self@.len(),
            count == declared_sections(self.buffer()),
    {
        proof {
            use_type_invariant(self);
            self.lemma_section_count();
        }
        self.sections.len()
    }
}

} // verus!
