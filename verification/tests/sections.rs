use displayid::displayid::{checksum_of, DisplayId, PrimaryUseCase};

/// A version 2.0 section with the given use case, extension count and
/// payload, closed with its checksum.
fn section_2_0(use_case: u8, count: u8, payload: &[u8]) -> Vec<u8> {
    let mut section: Vec<u8> = vec![0x20, payload.len() as u8, use_case, count];
    section.extend_from_slice(payload);
    let sum: u8 = checksum_of(&section);
    section.push(sum);
    section
}

#[test]
fn two_sections_exact_bytes() {
    // 0x20 + 2 + 3 + 2 + 0xaa + 0xbb = 396 = 256 + 0x8c; 0x20 + 5 = 0x25
    let blob: Vec<u8> = vec![0x20, 2, 3, 2, 0xaa, 0xbb, 0x8c, 0x20, 0, 5, 0, 0x25];
    let display_id = DisplayId::new(&blob).unwrap();
    assert_eq!(display_id.extension_count(), 2);
    assert_eq!(display_id[0].raw_bytes(), &[0x20, 2, 3, 2, 0xaa, 0xbb, 0x8c]);
    assert_eq!(display_id[1].raw_bytes(), &[0x20, 0, 5, 0, 0x25]);
    assert_eq!(display_id[0].primary_use_case(), PrimaryUseCase::Television);
    assert_eq!(display_id[1].primary_use_case(), PrimaryUseCase::Gaming);
    assert_eq!(display_id[0].structure_version(), 0x20);
    assert_eq!(display_id[1].structure_version(), 0x20);
}

#[test]
fn use_case_mapping() {
    let expected = [
        PrimaryUseCase::Extension,
        PrimaryUseCase::Test,
        PrimaryUseCase::Generic,
        PrimaryUseCase::Television,
        PrimaryUseCase::Productivity,
        PrimaryUseCase::Gaming,
        PrimaryUseCase::Presentation,
        PrimaryUseCase::VirtualReality,
        PrimaryUseCase::AugmentedReality,
    ];
    for code in 0..9u8 {
        let blob = section_2_0(code, 1, &[]);
        let display_id = DisplayId::new(&blob).unwrap();
        assert_eq!(display_id[0].primary_use_case(), expected[code as usize]);
    }
}

#[test]
fn unassigned_use_cases_are_reserved() {
    for code in 9..=15u8 {
        let blob = section_2_0(code, 1, &[]);
        let display_id = DisplayId::new(&blob).unwrap();
        assert_eq!(display_id[0].primary_use_case(), PrimaryUseCase::Reserved(code));
    }
}

#[test]
fn sections_laid_end_to_end_are_a_prefix_of_the_buffer() {
    let mut blob = section_2_0(0, 3, &[1, 2, 3, 4]);
    blob.extend_from_slice(&section_2_0(8, 0, &[]));
    blob.extend_from_slice(&section_2_0(6, 0, &[0xff; 255]));
    let covered = blob.len();
    assert_eq!(covered, 9 + 5 + 260);
    blob.extend_from_slice(&[1, 2, 3]);
    let display_id = DisplayId::new(&blob).unwrap();
    assert_eq!(display_id.extension_count(), 3);
    let mut joined: Vec<u8> = Vec::new();
    for section in &display_id {
        joined.extend_from_slice(section.raw_bytes());
    }
    assert_eq!(joined.len(), covered);
    assert_eq!(&joined[..], &blob[..covered]);
}

#[test]
fn iteration_can_be_repeated() {
    let mut blob = section_2_0(1, 2, &[]);
    blob.extend_from_slice(&section_2_0(2, 0, &[3]));
    let display_id = DisplayId::new(&blob).unwrap();
    let first: Vec<&[u8]> = display_id.into_iter().map(|s| s.raw_bytes()).collect();
    let second: Vec<&[u8]> = display_id.into_iter().map(|s| s.raw_bytes()).collect();
    assert_eq!(first, second);
    assert_eq!(first, vec![&blob[..5], &blob[5..]]);
    let by_slice: Vec<&[u8]> = display_id.sections().iter().map(|s| s.raw_bytes()).collect();
    assert_eq!(by_slice, first);
}

#[test]
fn get_is_bounds_checked() {
    let mut blob = section_2_0(1, 2, &[]);
    blob.extend_from_slice(&section_2_0(2, 0, &[3]));
    let display_id = DisplayId::new(&blob).unwrap();
    assert_eq!(display_id.get(0).unwrap().raw_bytes(), &blob[..5]);
    assert_eq!(display_id.get(1).unwrap().raw_bytes(), &blob[5..]);
    assert!(display_id.get(2).is_none());
    assert!(display_id.get(usize::MAX).is_none());
}

#[test]
fn same_buffer_same_structure() {
    let mut blob = section_2_0(5, 2, &[0x10, 0x20]);
    blob.extend_from_slice(&section_2_0(12, 0, &[]));
    let copy = blob.clone();
    let a = DisplayId::new(&blob).unwrap();
    let b = DisplayId::new(&copy).unwrap();
    assert_eq!(a.extension_count(), b.extension_count());
    for i in 0..a.extension_count() {
        assert_eq!(a[i].raw_bytes(), b[i].raw_bytes());
        assert_eq!(a[i].primary_use_case(), b[i].primary_use_case());
    }
    assert_eq!(a[0].primary_use_case(), PrimaryUseCase::Gaming);
    assert_eq!(a[1].primary_use_case(), PrimaryUseCase::Reserved(12));
}

#[test]
fn full_structure_of_255_sections() {
    let mut blob = section_2_0(2, 255, &[]);
    for k in 1..255u8 {
        blob.extend_from_slice(&section_2_0(k % 16, k, &[k]));
    }
    let display_id = DisplayId::new(&blob).unwrap();
    assert_eq!(display_id.extension_count(), 255);
    assert_eq!(display_id[254].raw_bytes(), &section_2_0(254 % 16, 254, &[254])[..]);
}

#[test]
fn sections_borrow_from_the_buffer() {
    let blob = section_2_0(0, 1, &[1]);
    let display_id = DisplayId::new(&blob).unwrap();
    let bytes: &[u8] = display_id[0].raw_bytes();
    assert!(std::ptr::eq(bytes.as_ptr(), blob.as_ptr()));
    assert!(std::ptr::eq(display_id.as_bytes().as_ptr(), blob.as_ptr()));
}
