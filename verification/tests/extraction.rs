use pdfbrute::descriptor::ExtractError;
use pdfbrute::extract::{extract_from_bytes, extract_task};
use pdfbrute::pdf_string::read_string;
use pdfbrute::scan::{find_key, find_last_key, read_number, read_signed, skip_spaces};
use pdfbrute::search::{crack, process_document, CandidateSource, Outcome};
use pdfbrute::validator::validate;

const USER_HEX: &str = "499f795630f400e819e2bf5c53d3b5e100000000000000000000000000000000";
const OWNER_HEX: &str = "000102030405060708090a0b0c0d0e0f101112131415161718191a1b1c1d1e1f";
const ID_HEX: &str = "6465666768696a6b6c6d6e6f70717273";

fn pdf(body: &str, trailer: &str) -> Vec<u8> {
    let head = format!("%PDF-1.4\n{}\n", body);
    let offset = head.len();
    format!(
        "{}xref\n0 1\n0000000000 65535 f \ntrailer\n{}\nstartxref\n{}\n%%EOF\n",
        head, trailer, offset
    )
    .into_bytes()
}

fn document(encrypt_object: &str, trailer_extra: &str) -> Vec<u8> {
    pdf(
        &format!(
            "1 0 obj\n<< /Type /Catalog >>\nendobj\n15 0 obj\n<< /Filter /Wrong >>\nendobj\n{}",
            encrypt_object
        ),
        &format!("<< /Size 6 /Root 1 0 R {} /ID [<{}> <00ff>] >>", trailer_extra, ID_HEX),
    )
}

fn standard_document() -> Vec<u8> {
    document(
        &format!(
            "5 0 obj\n<< /Filter /Standard /V 2 /R 3 /Length 128 /O <{}> /U <{}> /P -44 >>\nendobj",
            OWNER_HEX, USER_HEX
        ),
        "/Encrypt 5 0 R",
    )
}

fn hex(bytes: &[u8]) -> String {
    let mut s = String::new();
    for b in bytes {
        s.push_str(&format!("{:02x}", b));
    }
    s
}

#[test]
fn descriptor_is_read_through_the_reference() {
    let d = extract_from_bytes(&standard_document()).unwrap();
    assert_eq!(d.revision, 3);
    assert_eq!(d.key_length_bits, 128);
    assert_eq!(hex(&d.owner_entry), OWNER_HEX);
    assert_eq!(hex(&d.user_entry), USER_HEX);
    assert_eq!(d.permissions, -44);
    assert_eq!(hex(&d.file_id), ID_HEX);
    assert!(d.encrypt_metadata);
}

#[test]
fn extracted_descriptor_is_cracked() {
    let lines: Vec<String> =
        ["wrong1", "correct", "wrong2"].iter().map(|s| s.to_string()).collect();
    let source = CandidateSource::from_lines(&lines);
    let d = extract_from_bytes(&standard_document()).unwrap();
    assert!(!validate(&d, "wrong1"));
    assert!(validate(&d, "correct"));
    assert!(!validate(&d, "wrong2"));
    match crack(&d, &source) {
        Outcome::Found { password, candidate_index } => {
            assert_eq!(password, "correct");
            assert_eq!(candidate_index, 1);
        }
        _ => panic!("the password is in the dictionary"),
    }
}

#[test]
fn document_without_encrypt_entry_is_not_encrypted() {
    let data = document("", "");
    assert_eq!(extract_from_bytes(&data).err(), Some(ExtractError::NotEncrypted));
    let lines = vec!["correct".to_string()];
    let source = CandidateSource::from_lines(&lines);
    let out = process_document(extract_from_bytes(&data), &source);
    assert!(matches!(out, Outcome::ExtractionFailed { reason: ExtractError::NotEncrypted }));
}

#[test]
fn encrypt_metadata_alone_is_no_encrypt_entry() {
    let data = document("", "/EncryptMetadata false");
    assert_eq!(extract_from_bytes(&data).err(), Some(ExtractError::NotEncrypted));
}

#[test]
fn other_security_handlers_are_unsupported() {
    let data = document(
        "5 0 obj\n<< /Filter /Adobe.PubSec /V 2 /R 3 /Recipients [] >>\nendobj",
        "/Encrypt 5 0 R",
    );
    assert_eq!(extract_from_bytes(&data).err(), Some(ExtractError::UnsupportedHandler));
    let data = document("5 0 obj\n<< /Filter /Standardized /R 3 >>\nendobj", "/Encrypt 5 0 R");
    assert_eq!(extract_from_bytes(&data).err(), Some(ExtractError::UnsupportedHandler));
}

#[test]
fn corrupt_documents_are_malformed() {
    assert_eq!(extract_from_bytes(b"").err(), Some(ExtractError::Malformed));
    assert_eq!(
        extract_from_bytes(b"hello /Encrypt 5 0 R").err(),
        Some(ExtractError::Malformed)
    );
    let missing_object = document("", "/Encrypt 5 0 R");
    assert_eq!(extract_from_bytes(&missing_object).err(), Some(ExtractError::Malformed));
    let mut cut = standard_document();
    cut.truncate(cut.len() - 25);
    assert_eq!(extract_from_bytes(&cut).err(), Some(ExtractError::Malformed));
    let mut beyond = standard_document();
    beyond.truncate(beyond.len() - 10);
    beyond.extend_from_slice(b"99999\n%%EOF\n");
    assert_eq!(extract_from_bytes(&beyond).err(), Some(ExtractError::Malformed));
    let no_user = document(
        &format!("5 0 obj\n<< /Filter /Standard /R 3 /O <{}> /P -44 >>\nendobj", OWNER_HEX),
        "/Encrypt 5 0 R",
    );
    assert_eq!(extract_from_bytes(&no_user).err(), Some(ExtractError::Malformed));
    let no_filter = document(
        &format!("5 0 obj\n<< /R 3 /O <{}> /U <{}> /P -44 >>\nendobj", OWNER_HEX, USER_HEX),
        "/Encrypt 5 0 R",
    );
    assert_eq!(extract_from_bytes(&no_filter).err(), Some(ExtractError::Malformed));
    let bad_reference = document("", "/Encrypt 5 zero R");
    assert_eq!(extract_from_bytes(&bad_reference).err(), Some(ExtractError::Malformed));
    assert_eq!(
        extract_from_bytes(b"%PDF-1.4 /Encrypt << /Filter /Standard /R 3 /O (a) /U (b").err(),
        Some(ExtractError::Malformed)
    );
}

#[test]
fn missing_file_identifier_is_malformed_below_revision_five() {
    let data = pdf(
        "",
        &format!(
            "<< /Encrypt << /Filter /Standard /R 3 /O <{}> /U <{}> /P -44 >> >>",
            OWNER_HEX, USER_HEX
        ),
    );
    assert_eq!(extract_from_bytes(&data).err(), Some(ExtractError::Malformed));
    let data = pdf(
        "",
        &format!(
            "<< /Encrypt << /Filter /Standard /R 5 /O <{}> /U <{}> /P -44 >> >>",
            OWNER_HEX, USER_HEX
        ),
    );
    let d = extract_from_bytes(&data).unwrap();
    assert_eq!(d.revision, 5);
    assert_eq!(d.key_length_bits, 256);
    assert!(d.file_id.is_empty());
}

#[test]
fn inline_dictionary_with_literal_strings_and_unsigned_permissions() {
    let data = pdf(
        "",
        "<</ID[(id\\(1\\))(x)]/Encrypt<</Filter/Standard/V 4/R 4/CF<</StdCF<</Length 16>>>>/Length 128/O(\\101B\\n(nested) \\\\ \\7z\\\nend)/U<4 1 4>/P 4294967252/EncryptMetadata false>>>>",
    );
    let d = extract_from_bytes(&data).unwrap();
    assert_eq!(d.revision, 4);
    assert_eq!(d.key_length_bits, 128);
    assert_eq!(d.owner_entry, b"AB\n(nested) \\ \x07zend".to_vec());
    assert_eq!(d.user_entry, vec![0x41, 0x40]);
    assert_eq!(d.permissions, -44);
    assert_eq!(d.file_id, b"id(1)".to_vec());
    assert!(!d.encrypt_metadata);
}

fn small(entries: &str) -> Result<pdfbrute::descriptor::EncryptionDescriptor, ExtractError> {
    extract_from_bytes(&pdf(
        "",
        &format!("<< /ID [<00>] /Encrypt << /Filter /Standard {} /O <00> /U <00> >> >>", entries),
    ))
}

#[test]
fn key_length_follows_the_revision() {
    let bits = |r: u32, length: &str| {
        small(&format!("/R {} {} /P 0", r, length)).unwrap().key_length_bits
    };
    assert_eq!(bits(2, ""), 40);
    assert_eq!(bits(2, "/Length 128"), 40);
    assert_eq!(bits(3, ""), 40);
    assert_eq!(bits(3, "/Length 56"), 56);
    assert_eq!(bits(4, "/Length 40"), 128);
    assert_eq!(bits(5, ""), 256);
    assert_eq!(bits(6, "/Length 128"), 256);
}

#[test]
fn permissions_out_of_range_are_malformed() {
    let make = |p: &str| small(&format!("/R 3 /P {}", p)).map(|d| d.permissions);
    assert_eq!(make("-1").ok(), Some(-1));
    assert_eq!(make("4294967295").ok(), Some(-1));
    assert_eq!(make("2147483647").ok(), Some(2147483647));
    assert_eq!(make("2147483648").ok(), Some(-2147483648));
    assert_eq!(make("-2147483648").ok(), Some(-2147483648));
    assert_eq!(make("4294967296").err(), Some(ExtractError::Malformed));
    assert_eq!(make("-2147483649").err(), Some(ExtractError::Malformed));
    assert_eq!(make("99999999999").err(), Some(ExtractError::Malformed));
    assert_eq!(make("none").err(), Some(ExtractError::Malformed));
}

#[test]
fn entries_are_looked_up_inside_their_dictionary_only() {
    let stream = "6 0 obj\n<< /Length 99 /R 9 >>\nstream\nxx\nendstream\nendobj";
    let object = format!(
        "5 0 obj\n<< /Filter /Standard /V 2 /R 3 /O <{}> /U <{}> /P -44 >>\nendobj\n{}",
        OWNER_HEX, USER_HEX, stream
    );
    let d = extract_from_bytes(&document(&object, "/Encrypt 5 0 R")).unwrap();
    assert_eq!(d.key_length_bits, 40);
    assert_eq!(d.revision, 3);
    let no_revision = format!(
        "5 0 obj\n<< /Filter /Standard /O <{}> /U <{}> /P -44 >>\nendobj\n{}",
        OWNER_HEX, USER_HEX, stream
    );
    assert_eq!(
        extract_from_bytes(&document(&no_revision, "/Encrypt 5 0 R")).err(),
        Some(ExtractError::Malformed)
    );
    let nested = small("/CF << /StdCF << /Length 16 /R 9 >> >> /R 3 /Length 56 /P 0").unwrap();
    assert_eq!(nested.revision, 3);
    assert_eq!(nested.key_length_bits, 56);
    let only_nested = small("/CF << /Length 16 >> /R 3 /P 0").unwrap();
    assert_eq!(only_nested.key_length_bits, 40);
}

#[test]
fn names_inside_strings_are_no_entries() {
    let data = pdf(
        "",
        "<< /ID [(/Encrypt)] /Encrypt << /Filter /Standard /O (/R 9 /P 1 >> ) /R 3 /U </U> /P -4 >> >>",
    );
    assert_eq!(extract_from_bytes(&data).err(), Some(ExtractError::Malformed));
    let data = pdf(
        "",
        "<< /ID [(/Encrypt)] /Encrypt << /Filter /Standard /O (/R 9 /P 1 >> ) /R 3 /U <41> /P -4 >> >>",
    );
    let d = extract_from_bytes(&data).unwrap();
    assert_eq!(d.revision, 3);
    assert_eq!(d.permissions, -4);
    assert_eq!(d.owner_entry, b"/R 9 /P 1 >> ".to_vec());
    assert_eq!(d.file_id, b"/Encrypt".to_vec());
}

#[test]
fn encrypt_outside_the_trailer_does_not_count() {
    let data = document("7 0 obj\n<< /Encrypt 5 0 R /ID [<ff>] >>\nendobj", "");
    assert_eq!(extract_from_bytes(&data).err(), Some(ExtractError::NotEncrypted));
    let data = pdf("(text /Encrypt << /Filter /Standard >>)", "<< /Size 1 >>");
    assert_eq!(extract_from_bytes(&data).err(), Some(ExtractError::NotEncrypted));
}

#[test]
fn the_newest_trailer_and_object_count() {
    let old = String::from_utf8(standard_document()).unwrap();
    let start = old.len();
    let update = format!(
        "{}5 0 obj\n<< /Filter /Standard /V 2 /R 3 /Length 64 /O <{}> /U <{}> /P -8 >>\nendobj\n",
        old, OWNER_HEX, USER_HEX
    );
    let offset = update.len();
    let data = format!(
        "{}xref\n0 1\n0000000000 65535 f \ntrailer\n<< /Size 6 /Prev {} /Encrypt 5 0 R /ID [<aabb> <00>] >>\nstartxref\n{}\n%%EOF\n",
        update, start, offset
    );
    let d = extract_from_bytes(data.as_bytes()).unwrap();
    assert_eq!(d.key_length_bits, 64);
    assert_eq!(d.permissions, -8);
    assert_eq!(d.file_id, vec![0xaa, 0xbb]);
    let first = extract_from_bytes(old.as_bytes()).unwrap();
    assert_eq!(first.key_length_bits, 128);
    assert_eq!(first.permissions, -44);
}

#[test]
fn trailer_in_a_cross_reference_stream() {
    let head = format!(
        "%PDF-1.5\n5 0 obj\n<< /Filter /Standard /V 2 /R 3 /Length 128 /O <{}> /U <{}> /P -44 >>\nendobj\n",
        OWNER_HEX, USER_HEX
    );
    let offset = head.len();
    let data = format!(
        "{}9 0 obj\n<< /Type /XRef /Size 10 /Encrypt 5 0 R /ID [<{}> <00>] /Length 4 >>\nstream\nabcd\nendstream\nendobj\nstartxref\n{}\n%%EOF\n",
        head, ID_HEX, offset
    );
    let d = extract_from_bytes(data.as_bytes()).unwrap();
    assert_eq!(d.revision, 3);
    assert_eq!(hex(&d.file_id), ID_HEX);
    assert_eq!(hex(&d.user_entry), USER_HEX);
}

#[test]
fn scanning_primitives() {
    let data = b"ab /Key1 /Key 12  -7 +3x";
    assert_eq!(find_key(data, b"/Key", 0), Some(9));
    assert_eq!(find_key(data, b"/Key1", 0), Some(3));
    assert_eq!(find_key(data, b"/Key", 10), None);
    assert_eq!(find_key(data, b"/Nope", 0), None);
    assert_eq!(find_last_key(b"a /K b /K1 /K c", b"/K"), Some(11));
    assert_eq!(find_last_key(b"a /K1 b", b"/K"), None);
    assert_eq!(skip_spaces(data, 13), 14);
    assert_eq!(skip_spaces(data, 16), 18);
    assert_eq!(skip_spaces(data, 0), 0);
    assert_eq!(read_number(data, 14), Some((12, 16)));
    assert_eq!(read_number(data, 13), None);
    assert_eq!(read_signed(data, 18), Some((-7, 20)));
    assert_eq!(read_signed(data, 21), Some((3, 23)));
    assert_eq!(read_number(b"9999999999", 0), Some((9999999999, 10)));
    assert_eq!(read_number(b"10000000000", 0), None);
    assert_eq!(read_number(b"0000000000000042", 0), Some((42, 16)));
}

#[test]
fn string_reading() {
    assert_eq!(read_string(b"(abc)", 0), Some((b"abc".to_vec(), 5)));
    assert_eq!(read_string(b"x(a(b)c)y", 1), Some((b"a(b)c".to_vec(), 8)));
    assert_eq!(read_string(b"(\\377\\0\\12\\1234)", 0), Some((vec![255, 0, 10, 83, b'4'], 16)));
    assert_eq!(read_string(b"(\\400)", 0), Some((vec![0], 6)));
    assert_eq!(read_string(b"(a\\\r\nb\\\rc)", 0), Some((b"abc".to_vec(), 10)));
    assert_eq!(read_string(b"(\\q\\)\\()", 0), Some((b"q)(".to_vec(), 8)));
    assert_eq!(read_string(b"(open", 0), None);
    assert_eq!(read_string(b"(open\\", 0), None);
    assert_eq!(read_string(b"<48 65 6C 6c 6F>", 0), Some((b"Hello".to_vec(), 16)));
    assert_eq!(read_string(b"<abc>", 0), Some((vec![0xab, 0xc0], 5)));
    assert_eq!(read_string(b"<>", 0), Some((vec![], 2)));
    assert_eq!(read_string(b"<4g>", 0), None);
    assert_eq!(read_string(b"<<", 0), None);
    assert_eq!(read_string(b"<41", 0), None);
    assert_eq!(read_string(b"abc", 0), None);
    assert_eq!(read_string(b"", 0), None);
}

#[test]
fn task_holds_path_and_descriptor() {
    let task = extract_task("dir/a.pdf".to_string(), &standard_document()).unwrap();
    assert_eq!(task.path, "dir/a.pdf");
    assert_eq!(task.descriptor.revision, 3);
    assert_eq!(hex(&task.descriptor.user_entry), USER_HEX);
    assert_eq!(
        extract_task("b.pdf".to_string(), &document("", "")).err(),
        Some(ExtractError::NotEncrypted)
    );
    assert_eq!(extract_task("c.pdf".to_string(), b"junk").err(), Some(ExtractError::Malformed));
}
