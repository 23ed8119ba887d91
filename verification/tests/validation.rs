use pdfbrute::descriptor::EncryptionDescriptor;
use pdfbrute::validator::{legacy_validate, validate, validate_bytes, validate_prepared};

fn owner() -> Vec<u8> {
    (0..32u8).collect()
}

fn file_id() -> Vec<u8> {
    (100..116u8).collect()
}

fn descriptor(
    revision: u32,
    bits: u32,
    permissions: i32,
    user_entry: Vec<u8>,
    encrypt_metadata: bool,
) -> EncryptionDescriptor {
    EncryptionDescriptor {
        revision,
        key_length_bits: bits,
        owner_entry: owner(),
        user_entry,
        permissions,
        file_id: file_id(),
        encrypt_metadata,
    }
}

fn revision_3_for_correct() -> EncryptionDescriptor {
    descriptor(
        3,
        128,
        -44,
        vec![
            0x49, 0x9f, 0x79, 0x56, 0x30, 0xf4, 0x00, 0xe8, 0x19, 0xe2, 0xbf, 0x5c, 0x53, 0xd3,
            0xb5, 0xe1, 0x00, 0x00, 0x00, 0x00, 0x00, 0x00, 0x00, 0x00, 0x00, 0x00, 0x00, 0x00,
            0x00, 0x00, 0x00, 0x00,
        ],
        true,
    )
}

fn revision_2_for_secret() -> EncryptionDescriptor {
    descriptor(
        2,
        40,
        -64,
        vec![
            0x0b, 0x8e, 0x4d, 0x21, 0x6e, 0x87, 0x4c, 0x0c, 0x83, 0x9f, 0x7d, 0x6c, 0xf4, 0x7d,
            0xe0, 0xe3, 0xaa, 0x05, 0xf6, 0x2f, 0x53, 0xf5, 0xaf, 0x4e, 0xf7, 0x46, 0xe6, 0xf8,
            0xc2, 0x91, 0xe3, 0xd6,
        ],
        true,
    )
}

#[test]
fn revision_3_dictionary_of_three() {
    let d = revision_3_for_correct();
    assert!(!validate(&d, "wrong1"));
    assert!(validate(&d, "correct"));
    assert!(!validate(&d, "wrong2"));
}

#[test]
fn validate_twice_gives_the_same_answer() {
    let d = revision_3_for_correct();
    for candidate in ["", "wrong1", "correct", "Correct", "correct "] {
        assert_eq!(validate(&d, candidate), validate(&d, candidate));
        assert_eq!(validate(&d, candidate), validate(&d.clone(), candidate));
    }
}

#[test]
fn revision_3_ignores_the_arbitrary_half_of_the_user_entry() {
    let mut d = revision_3_for_correct();
    for i in 16..32 {
        d.user_entry[i] = 0xA5;
    }
    assert!(validate(&d, "correct"));
    d.user_entry[15] ^= 1;
    assert!(!validate(&d, "correct"));
}

#[test]
fn revision_2_compares_all_thirty_two_bytes() {
    let d = revision_2_for_secret();
    assert!(validate(&d, "secret"));
    assert!(!validate(&d, "Secret"));
    assert!(!validate(&d, ""));
    let mut e = revision_2_for_secret();
    e.user_entry[31] ^= 0x80;
    assert!(!validate(&e, "secret"));
}

#[test]
fn revision_4_depends_on_the_metadata_flag() {
    let without = vec![
        0x42, 0x53, 0x72, 0xe5, 0x91, 0xa9, 0xe4, 0x03, 0xfc, 0xbb, 0x69, 0xdc, 0x1e, 0xdc, 0xd3,
        0x5e, 0x00, 0x00, 0x00, 0x00, 0x00, 0x00, 0x00, 0x00, 0x00, 0x00, 0x00, 0x00, 0x00, 0x00,
        0x00, 0x00,
    ];
    let with = vec![
        0x89, 0x60, 0x34, 0x2f, 0xd9, 0xc1, 0x18, 0xb3, 0xa7, 0x6c, 0x3c, 0x38, 0x16, 0xf1, 0xdb,
        0xb8, 0x00, 0x00, 0x00, 0x00, 0x00, 0x00, 0x00, 0x00, 0x00, 0x00, 0x00, 0x00, 0x00, 0x00,
        0x00, 0x00,
    ];
    assert!(validate(&descriptor(4, 128, -1, without.clone(), false), "p\u{e4}ss"));
    assert!(!validate(&descriptor(4, 128, -1, without, true), "p\u{e4}ss"));
    assert!(validate(&descriptor(4, 128, -1, with.clone(), true), "p\u{e4}ss"));
    assert!(!validate(&descriptor(4, 128, -1, with, false), "p\u{e4}ss"));
}

#[test]
fn empty_password_with_a_forty_bit_key() {
    let d = descriptor(
        3,
        40,
        -44,
        vec![
            0x5d, 0x4f, 0x40, 0x9b, 0x47, 0x4d, 0xa6, 0x1d, 0xe9, 0xaf, 0xa3, 0x78, 0xbf, 0xe5,
            0x16, 0xb5, 0x00, 0x00, 0x00, 0x00, 0x00, 0x00, 0x00, 0x00, 0x00, 0x00, 0x00, 0x00,
            0x00, 0x00, 0x00, 0x00,
        ],
        true,
    );
    assert!(validate(&d, ""));
    assert!(!validate(&d, " "));
}

#[test]
fn a_long_candidate_is_cut_to_thirty_two_bytes() {
    let d = descriptor(
        3,
        128,
        -44,
        vec![
            0xf4, 0x48, 0x68, 0x94, 0x1b, 0x42, 0xe3, 0x5b, 0x19, 0xa0, 0x34, 0x8e, 0x3f, 0x96,
            0x8f, 0x92, 0x00, 0x00, 0x00, 0x00, 0x00, 0x00, 0x00, 0x00, 0x00, 0x00, 0x00, 0x00,
            0x00, 0x00, 0x00, 0x00,
        ],
        true,
    );
    assert!(validate(&d, "0123456789012345678901234567890123456789"));
    assert!(validate(&d, "01234567890123456789012345678901"));
    assert!(validate(&d, "01234567890123456789012345678901zzzz"));
    assert!(!validate(&d, "0123456789012345678901234567890"));
}

#[test]
fn unsupported_key_length_matches_nothing() {
    let mut d = revision_3_for_correct();
    d.key_length_bits = 136;
    assert!(!validate(&d, "correct"));
    d.key_length_bits = 100;
    assert!(!validate(&d, "correct"));
    d.key_length_bits = 32;
    assert!(!validate(&d, "correct"));
    let mut e = revision_2_for_secret();
    e.key_length_bits = 128;
    assert!(!validate(&e, "secret"));
}

#[test]
fn corrupt_entries_match_nothing() {
    let mut d = revision_3_for_correct();
    d.user_entry.truncate(16);
    assert!(!validate(&d, "correct"));
    let mut e = revision_3_for_correct();
    e.owner_entry.push(0);
    assert!(!validate(&e, "correct"));
    let mut f = revision_3_for_correct();
    f.file_id.push(0);
    assert!(!validate(&f, "correct"));
}

#[test]
fn unknown_revisions_match_nothing() {
    for revision in [0u32, 1, 7, 99] {
        let mut d = revision_3_for_correct();
        d.revision = revision;
        assert!(!validate(&d, "correct"));
    }
}

#[test]
fn bytes_and_text_agree() {
    let d = revision_3_for_correct();
    assert!(validate_bytes(&d, b"correct"));
    assert!(legacy_validate(&d, b"correct"));
    assert!(!validate_bytes(&d, b"correct\0"));
}

fn revision_5(user_entry: Vec<u8>) -> EncryptionDescriptor {
    EncryptionDescriptor {
        revision: 5,
        key_length_bits: 256,
        owner_entry: vec![0u8; 48],
        user_entry,
        permissions: -44,
        file_id: Vec::new(),
        encrypt_metadata: true,
    }
}

fn revision_5_for_correct() -> EncryptionDescriptor {
    revision_5(vec![
        0x9e, 0x5a, 0x59, 0xa6, 0xee, 0x87, 0xaf, 0xa5, 0x1a, 0xbb, 0x5f, 0x74, 0x3f, 0xbc, 0xab,
        0x92, 0x04, 0xb2, 0x86, 0x95, 0xc3, 0xc7, 0xf6, 0xa1, 0xa9, 0xbc, 0x28, 0x96, 0xe3, 0xb7,
        0x67, 0xd5, 0x30, 0x31, 0x32, 0x33, 0x34, 0x35, 0x36, 0x37, 0x40, 0x41, 0x42, 0x43, 0x44,
        0x45, 0x46, 0x47,
    ])
}

#[test]
fn revision_5_hashes_password_and_validation_salt() {
    let d = revision_5_for_correct();
    assert!(!validate(&d, "wrong1"));
    assert!(validate(&d, "correct"));
    assert!(!validate(&d, "wrong2"));
    assert!(!validate(&d, ""));
    let mut e = revision_5_for_correct();
    e.user_entry[35] ^= 1;
    assert!(!validate(&e, "correct"));
    let mut f = revision_5_for_correct();
    f.user_entry[31] ^= 1;
    assert!(!validate(&f, "correct"));
    let mut g = revision_5_for_correct();
    g.user_entry[44] ^= 1;
    assert!(validate(&g, "correct"));
}

#[test]
fn revision_5_cuts_the_password_to_127_bytes() {
    let d = revision_5(vec![
        0x94, 0x17, 0x1b, 0x01, 0xe6, 0xfd, 0xf6, 0xfe, 0xb0, 0xdb, 0xd0, 0x59, 0x5f, 0x8e, 0x97,
        0x0d, 0x50, 0x01, 0x7f, 0x7e, 0x51, 0x21, 0x5a, 0x8e, 0x2e, 0x05, 0x27, 0x46, 0x6b, 0xf4,
        0x09, 0x76, 0x30, 0x31, 0x32, 0x33, 0x34, 0x35, 0x36, 0x37, 0x40, 0x41, 0x42, 0x43, 0x44,
        0x45, 0x46, 0x47,
    ]);
    assert!(validate(&d, &"x".repeat(130)));
    assert!(validate(&d, &"x".repeat(127)));
    assert!(!validate(&d, &"x".repeat(126)));
}

#[test]
fn revision_5_with_a_corrupt_descriptor_matches_nothing() {
    let mut d = revision_5_for_correct();
    d.user_entry.truncate(47);
    assert!(!validate(&d, "correct"));
    let mut e = revision_5_for_correct();
    e.key_length_bits = 128;
    assert!(!validate(&e, "correct"));
    let mut f = revision_5_for_correct();
    f.revision = 6;
    assert!(!validate(&f, "correct"));
}

fn revision_6(user_entry: Vec<u8>) -> EncryptionDescriptor {
    EncryptionDescriptor {
        revision: 6,
        key_length_bits: 256,
        owner_entry: vec![0u8; 48],
        user_entry,
        permissions: -44,
        file_id: Vec::new(),
        encrypt_metadata: true,
    }
}

fn revision_6_for_correct() -> EncryptionDescriptor {
    revision_6(vec![
        0x1a, 0xfd, 0x5b, 0xe3, 0x98, 0x7a, 0xd9, 0x19, 0xea, 0x74, 0xbc, 0x61, 0x49, 0x72, 0x93,
        0xf7, 0x0b, 0x93, 0xb5, 0x57, 0x3f, 0x75, 0xaf, 0x72, 0x10, 0x01, 0xd1, 0x9c, 0x0c, 0xe0,
        0x6e, 0x6a, 0x30, 0x31, 0x32, 0x33, 0x34, 0x35, 0x36, 0x37, 0x40, 0x41, 0x42, 0x43, 0x44,
        0x45, 0x46, 0x47,
    ])
}

#[test]
fn revision_6_runs_the_hardened_hash() {
    let d = revision_6_for_correct();
    assert!(!validate(&d, "wrong1"));
    assert!(validate(&d, "correct"));
    assert!(!validate(&d, "wrong2"));
    let mut e = revision_6_for_correct();
    e.user_entry[33] ^= 1;
    assert!(!validate(&e, "correct"));
    let mut f = revision_6_for_correct();
    f.revision = 5;
    assert!(!validate(&f, "correct"));
    let mut g = revision_6_for_correct();
    g.key_length_bits = 128;
    assert!(!validate(&g, "correct"));
    let mut h = revision_6_for_correct();
    h.user_entry.truncate(40);
    assert!(!validate(&h, "correct"));
}

#[test]
fn revision_6_with_the_empty_and_with_a_long_password() {
    let empty = revision_6(vec![
        0xbc, 0xc3, 0xb3, 0xd1, 0x11, 0xaa, 0xc6, 0x35, 0x2a, 0x01, 0x16, 0x90, 0x78, 0xd5, 0x72,
        0xa6, 0x2d, 0xfd, 0x00, 0xc1, 0x83, 0x8e, 0x88, 0xfb, 0x96, 0xd6, 0x67, 0xed, 0xaf, 0xe5,
        0x75, 0xf1, 0x30, 0x31, 0x32, 0x33, 0x34, 0x35, 0x36, 0x37, 0x40, 0x41, 0x42, 0x43, 0x44,
        0x45, 0x46, 0x47,
    ]);
    assert!(validate(&empty, ""));
    assert!(!validate(&empty, "x"));
    let long = revision_6(vec![
        0x68, 0x8f, 0xf3, 0x5a, 0xce, 0x43, 0xc6, 0xb7, 0xc4, 0x25, 0xd0, 0x89, 0xee, 0x95, 0x3e,
        0xd9, 0x90, 0x2e, 0x17, 0xae, 0x19, 0xaa, 0x1c, 0xbe, 0x73, 0x35, 0x34, 0x86, 0xae, 0xf5,
        0xa8, 0xeb, 0x30, 0x31, 0x32, 0x33, 0x34, 0x35, 0x36, 0x37, 0x40, 0x41, 0x42, 0x43, 0x44,
        0x45, 0x46, 0x47,
    ]);
    assert!(validate(&long, &"x".repeat(130)));
    assert!(validate(&long, &"x".repeat(127)));
    assert!(!validate(&long, &"x".repeat(126)));
}

#[test]
fn revisions_5_and_6_prepare_the_candidate_text() {
    let five = revision_5(vec![
        0x76, 0x7d, 0xd1, 0xff, 0x58, 0x2e, 0xc6, 0x21, 0xef, 0xc0, 0x4f, 0x56, 0x8e, 0x1a, 0x83,
        0x5a, 0x20, 0x30, 0x5a, 0x21, 0xc4, 0x92, 0x0c, 0x08, 0x84, 0x13, 0x9f, 0x2c, 0x85, 0x0a,
        0x14, 0xcd, 0x30, 0x31, 0x32, 0x33, 0x34, 0x35, 0x36, 0x37, 0x40, 0x41, 0x42, 0x43, 0x44,
        0x45, 0x46, 0x47,
    ]);
    let six = revision_6(vec![
        0xe2, 0xba, 0xea, 0xc1, 0x54, 0x8a, 0xa8, 0x70, 0xf6, 0xad, 0xbd, 0x4a, 0xbd, 0x82, 0x83,
        0x06, 0x61, 0x44, 0x2d, 0xd9, 0x6e, 0xcb, 0x02, 0x0b, 0x50, 0x61, 0x0c, 0xae, 0xb4, 0xaf,
        0xd5, 0x8c, 0x30, 0x31, 0x32, 0x33, 0x34, 0x35, 0x36, 0x37, 0x40, 0x41, 0x42, 0x43, 0x44,
        0x45, 0x46, 0x47,
    ]);
    for d in [&five, &six] {
        assert!(validate(d, "IX"));
        assert!(validate(d, "I\u{ad}X"));
        assert!(validate(d, "\u{2168}"));
        assert!(!validate(d, "ix"));
        assert!(!validate(d, "IX\u{7}"));
        assert!(!validate(d, "\u{7}"));
        assert!(validate_bytes(d, b"IX"));
        assert!(!validate_bytes(d, "\u{2168}".as_bytes()));
        assert!(validate_prepared(d, &Some("IX".to_string())));
        assert!(!validate_prepared(d, &Some("\u{2168}".to_string())));
        assert!(!validate_prepared(d, &None));
    }
}

#[test]
fn revisions_2_to_4_take_the_candidate_text_as_it_is() {
    let d = revision_3_for_correct();
    assert!(validate(&d, "correct"));
    assert!(!validate(&d, "cor\u{ad}rect"));
}
