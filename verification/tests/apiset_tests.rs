use fdw::apiset::{
    find_dll, is_dll_from_apiset_schema, load_apisetschema_mapping, normalize_name, parse_apiset,
    parse_apiset_entry, read_utf16_text, utf16_units, APISet, APISetNamespace,
    APISetNamespaceEntry, APISetValueEntry,
};
use fdw::cursor::Cursor;
use fdw::pe::image::parse_image;
use fdw::pe::{FormatField, PEError};

fn as_put16(b: &mut Vec<u8>, at: usize, v: u16) {
    b[at..at + 2].copy_from_slice(&v.to_le_bytes());
}

fn as_put32(b: &mut Vec<u8>, at: usize, v: u32) {
    b[at..at + 4].copy_from_slice(&v.to_le_bytes());
}

fn as_utf16(units: &[u16]) -> Vec<u8> {
    let mut b = Vec::new();
    for u in units {
        b.extend_from_slice(&u.to_le_bytes());
    }
    b
}

fn as_text(s: &str) -> Vec<u8> {
    let units: Vec<u16> = s.encode_utf16().collect();
    as_utf16(&units)
}

/// The bytes of a schema section: each entry is a name and, where it has a
/// value, the name of its host, both as raw bytes.
fn as_section(entries: &[(Vec<u8>, Option<Vec<u8>>)]) -> Vec<u8> {
    let n = entries.len();
    let mut b = vec![0u8; 28 + 24 * n];
    as_put32(&mut b, 0, 6);
    as_put32(&mut b, 12, n as u32);
    as_put32(&mut b, 16, 28);
    as_put32(&mut b, 20, 0x7777);
    as_put32(&mut b, 24, 31);
    for (i, (name, host)) in entries.iter().enumerate() {
        let at = 28 + 24 * i;
        let name_at = b.len() as u32;
        as_put32(&mut b, at + 4, name_at);
        as_put32(&mut b, at + 8, name.len() as u32);
        as_put32(&mut b, at + 12, name.len() as u32);
        b.extend_from_slice(name);
        if let Some(host) = host {
            let value_at = b.len();
            as_put32(&mut b, at + 16, value_at as u32);
            as_put32(&mut b, at + 20, 1);
            b.extend_from_slice(&[0u8; 20]);
            let host_at = b.len();
            as_put32(&mut b, value_at + 12, host_at as u32);
            as_put32(&mut b, value_at + 16, host.len() as u32);
            b.extend_from_slice(host);
        }
    }
    b
}

/// A 64-bit image with an empty import directory and, where `schema` is
/// given, a section named `.apiset` that holds it.
fn as_image(schema: Option<Vec<u8>>) -> Vec<u8> {
    let lfanew = 0x40usize;
    let count = if schema.is_some() { 2 } else { 1 };
    let table = lfanew + 24 + 240;
    let idata_ptr = 0x200usize;
    let schema_ptr = 0x300usize;
    let schema_len = schema.as_ref().map(|s| s.len()).unwrap_or(0);
    let mut b = vec![0u8; schema_ptr + schema_len];
    as_put16(&mut b, 0, 0x5A4D);
    as_put32(&mut b, 0x3C, lfanew as u32);
    as_put32(&mut b, lfanew, 0x4550);
    as_put16(&mut b, lfanew + 4 + 2, count);
    as_put16(&mut b, lfanew + 4 + 16, 240);
    as_put16(&mut b, lfanew + 24, 0x20B);
    as_put32(&mut b, lfanew + 24 + 112 + 8, 0x1000);
    b[table..table + 6].copy_from_slice(b".idata");
    as_put32(&mut b, table + 8, 0x100);
    as_put32(&mut b, table + 12, 0x1000);
    as_put32(&mut b, table + 16, 0x14);
    as_put32(&mut b, table + 20, idata_ptr as u32);
    if let Some(schema) = schema {
        let at = table + 40;
        b[at..at + 7].copy_from_slice(b".apiset");
        as_put32(&mut b, at + 8, schema.len() as u32);
        as_put32(&mut b, at + 12, 0x2000);
        as_put32(&mut b, at + 16, schema.len() as u32);
        as_put32(&mut b, at + 20, schema_ptr as u32);
        b[schema_ptr..].copy_from_slice(&schema);
    }
    b
}

fn as_parse(entries: &[(Vec<u8>, Option<Vec<u8>>)]) -> Result<APISet, PEError> {
    let pe = parse_image(as_image(Some(as_section(entries)))).unwrap();
    parse_apiset(&pe)
}

#[test]
fn schema_maps_virtual_names_to_hosts() {
    let apiset = as_parse(&[
        (as_text("api-ms-win-core-synch-l1-2-0.dll"), Some(as_text("kernel32.dll"))),
        (as_text("api-ms-win-crt-heap-l1-1-0.dll"), Some(as_text("ucrtbase.dll"))),
    ])
    .unwrap();
    assert_eq!(
        apiset.map(&"api-ms-win-core-synch-l1-2-0.dll".to_string()),
        Some(&"kernel32.dll".to_string())
    );
    assert_eq!(
        apiset.map(&"api-ms-win-crt-heap-l1-1-0.dll".to_string()),
        Some(&"ucrtbase.dll".to_string())
    );
    assert_eq!(apiset.map(&"api-ms-win-none.dll".to_string()), None);
}

#[test]
fn schema_names_lose_trailing_nulls_and_upper_case() {
    let apiset = as_parse(&[(as_text("API-MS-Win-Core\0\0"), Some(as_text("KernelBase.DLL\0")))])
        .unwrap();
    assert_eq!(
        apiset.map(&"api-ms-win-core".to_string()),
        Some(&"kernelbase.dll".to_string())
    );
    assert_eq!(find_dll("api-ms-win-core\0", &apiset), None);
}

#[test]
fn schema_keeps_nulls_inside_a_name() {
    let apiset = as_parse(&[(as_text("a\0b\0"), Some(as_text("h")))]).unwrap();
    assert_eq!(find_dll("a\0b", &apiset), Some("h".to_string()));
}

#[test]
fn schema_entries_without_values_are_skipped() {
    let apiset = as_parse(&[
        (as_text("api-one"), None),
        (as_text("api-two"), Some(as_text("two.dll"))),
    ])
    .unwrap();
    assert_eq!(apiset.map(&"api-one".to_string()), None);
    assert_eq!(apiset.map(&"api-two".to_string()), Some(&"two.dll".to_string()));
}

#[test]
fn schema_later_entry_overrides_earlier_one() {
    let apiset = as_parse(&[
        (as_text("api-x"), Some(as_text("old.dll"))),
        (as_text("API-X"), Some(as_text("new.dll"))),
    ])
    .unwrap();
    assert_eq!(find_dll("api-x", &apiset), Some("new.dll".to_string()));
}

#[test]
fn schema_without_entries_is_empty() {
    let apiset = as_parse(&[]).unwrap();
    assert_eq!(apiset.map(&"api-x".to_string()), None);
}

#[test]
fn lookup_is_case_insensitive() {
    let mut apiset = APISet::new();
    apiset.insert("api-ms-win-core-file-l1-1-0.dll".to_string(), "kernel32.dll".to_string());
    let name = "Api-Ms-Win-Core-File-L1-1-0.dll";
    let upper = apiset.map(&name.to_ascii_uppercase()).cloned();
    let lower = apiset.map(&name.to_ascii_lowercase()).cloned();
    assert_eq!(upper, lower);
    assert_eq!(upper, Some("kernel32.dll".to_string()));
    assert_eq!(apiset.map(&name.to_string()).cloned(), lower);
    assert_eq!(find_dll(&name.to_ascii_uppercase(), &apiset), lower);
}

#[test]
fn lookup_leaves_other_characters_alone() {
    let mut apiset = APISet::new();
    apiset.insert("\u{e4}pi".to_string(), "h".to_string());
    assert_eq!(find_dll("\u{e4}PI", &apiset), Some("h".to_string()));
    assert_eq!(find_dll("\u{c4}pi", &apiset), None);
    assert_eq!(find_dll("[pi", &apiset), None);
    assert_eq!(find_dll("@pi", &apiset), None);
}

#[test]
fn insert_replaces_what_a_name_was_mapped_to() {
    let mut apiset = APISet::new();
    assert_eq!(apiset.map(&"a".to_string()), None);
    apiset.insert("a".to_string(), "one".to_string());
    apiset.insert("b".to_string(), "two".to_string());
    apiset.insert("a".to_string(), "three".to_string());
    assert_eq!(apiset.map(&"a".to_string()), Some(&"three".to_string()));
    assert_eq!(apiset.map(&"b".to_string()), Some(&"two".to_string()));
}

#[test]
fn schema_image_without_the_section_is_invalid() {
    let pe = parse_image(as_image(None)).unwrap();
    assert_eq!(
        parse_apiset(&pe).unwrap_err(),
        PEError::InvalidFormat(FormatField::ApiSetSection)
    );
}

#[test]
fn schema_name_with_unpaired_surrogate_is_invalid() {
    assert_eq!(
        as_parse(&[(as_utf16(&[0x61, 0xD800, 0x62]), Some(as_text("h")))]).unwrap_err(),
        PEError::InvalidFormat(FormatField::ApiSetName)
    );
    assert_eq!(
        as_parse(&[(as_text("api-a"), Some(as_utf16(&[0xDC00])))]).unwrap_err(),
        PEError::InvalidFormat(FormatField::ApiSetName)
    );
    assert_eq!(
        as_parse(&[(as_utf16(&[0xD800]), None)]).unwrap_err(),
        PEError::InvalidFormat(FormatField::ApiSetName)
    );
}

#[test]
fn schema_name_of_odd_length_is_invalid() {
    assert_eq!(
        as_parse(&[(vec![0x61, 0x00, 0x62], Some(as_text("h")))]).unwrap_err(),
        PEError::InvalidFormat(FormatField::ApiSetName)
    );
}

#[test]
fn schema_name_with_surrogate_pair_is_decoded() {
    let apiset = as_parse(&[(as_utf16(&[0xD83D, 0xDE00, 0x41]), Some(as_text("h")))]).unwrap();
    assert_eq!(find_dll("\u{1F600}a", &apiset), Some("h".to_string()));
}

#[test]
fn schema_cut_short_is_a_truncated_read() {
    let whole = as_section(&[(as_text("api-a"), Some(as_text("host.dll")))]);
    for keep in [0, 27, 28, 51, 60, 70, 80, whole.len() - 1] {
        let pe = parse_image(as_image(Some(whole[..keep].to_vec()))).unwrap();
        assert_eq!(parse_apiset(&pe).unwrap_err(), PEError::TruncatedRead);
    }
    let pe = parse_image(as_image(Some(whole))).unwrap();
    assert!(parse_apiset(&pe).is_ok());
}

#[test]
fn schema_that_declares_more_entries_than_it_holds_is_truncated() {
    let mut section = as_section(&[(as_text("api-a"), Some(as_text("host.dll")))]);
    section.truncate(28 + 24);
    section.extend_from_slice(&as_text("api-a"));
    as_put32(&mut section, 12, 2);
    as_put32(&mut section, 28 + 4, 52);
    as_put32(&mut section, 28 + 20, 0);
    let pe = parse_image(as_image(Some(section))).unwrap();
    assert_eq!(parse_apiset(&pe).unwrap_err(), PEError::TruncatedRead);
}

#[test]
fn load_reports_a_missing_schema_file() {
    assert_eq!(load_apisetschema_mapping(None).unwrap_err(), PEError::NotFound);
}

#[test]
fn load_reads_the_schema_from_the_file_bytes() {
    let bytes = as_image(Some(as_section(&[(as_text("api-q"), Some(as_text("Q.dll")))])));
    let apiset = load_apisetschema_mapping(Some(bytes)).unwrap();
    assert_eq!(find_dll("API-Q", &apiset), Some("q.dll".to_string()));
    assert_eq!(
        load_apisetschema_mapping(Some(vec![0; 10])).unwrap_err(),
        PEError::InvalidFormat(FormatField::DosMagic)
    );
}

#[test]
fn virtual_names_start_with_api_or_ext() {
    assert!(is_dll_from_apiset_schema("api-ms-win-core-synch-l1-2-0.dll"));
    assert!(is_dll_from_apiset_schema("API-MS-WIN-CORE-SYNCH-L1-2-0.DLL"));
    assert!(is_dll_from_apiset_schema("ext-ms-win-gdi-dc-l1-2-0.dll"));
    assert!(is_dll_from_apiset_schema("Ext-"));
    assert!(is_dll_from_apiset_schema("api-"));
    assert!(!is_dll_from_apiset_schema("kernel32.dll"));
    assert!(!is_dll_from_apiset_schema("api"));
    assert!(!is_dll_from_apiset_schema("apiary.dll"));
    assert!(!is_dll_from_apiset_schema("my-api-ms.dll"));
    assert!(!is_dll_from_apiset_schema(""));
}

#[test]
fn utf16_units_are_little_endian_pairs() {
    assert_eq!(utf16_units(vec![0x34, 0x12, 0x00, 0xD8]), vec![0x1234, 0xD800]);
    assert_eq!(utf16_units(Vec::new()), Vec::<u16>::new());
}

#[test]
fn utf16_text_is_read_at_its_offset() {
    let mut data = vec![0xFFu8; 4];
    data.extend_from_slice(&as_text("AbC\0"));
    let mut cursor = Cursor::new(data);
    assert_eq!(read_utf16_text(&mut cursor, 4, 8).unwrap(), "abc");
    assert_eq!(read_utf16_text(&mut cursor, 4, 4).unwrap(), "ab");
    assert_eq!(read_utf16_text(&mut cursor, 4, 0).unwrap(), "");
    assert_eq!(read_utf16_text(&mut cursor, 6, 8).unwrap_err(), PEError::TruncatedRead);
    assert_eq!(
        read_utf16_text(&mut cursor, 4, 3).unwrap_err(),
        PEError::InvalidFormat(FormatField::ApiSetName)
    );
    assert_eq!(read_utf16_text(&mut cursor, u32::MAX, u32::MAX).unwrap_err(), PEError::TruncatedRead);
}

#[test]
fn schema_entry_leaves_the_cursor_at_the_next_entry() {
    let section = as_section(&[
        (as_text("api-a"), Some(as_text("A.dll"))),
        (as_text("api-b"), None),
    ]);
    let mut cursor = Cursor::new(section);
    cursor.seek(28);
    assert_eq!(
        parse_apiset_entry(&mut cursor).unwrap(),
        Some(("api-a".to_string(), "a.dll".to_string()))
    );
    assert_eq!(cursor.position(), 52);
    assert_eq!(parse_apiset_entry(&mut cursor).unwrap(), None);
    assert_eq!(cursor.position(), 76);
}

#[test]
fn schema_structs_read_their_fields() {
    let mut b = Vec::new();
    for v in 1u32..=7 {
        b.extend_from_slice(&v.to_le_bytes());
    }
    let mut cursor = Cursor::new(b);
    assert_eq!(
        APISetNamespace::from_parser(&mut cursor).unwrap(),
        APISetNamespace {
            version: 1,
            size: 2,
            flags: 3,
            count: 4,
            entry_offset: 5,
            hash_offset: 6,
            hash_multiplier: 7,
        }
    );
    assert_eq!(cursor.position(), 28);
    cursor.seek(0);
    assert_eq!(
        APISetNamespaceEntry::from_parser(&mut cursor).unwrap(),
        APISetNamespaceEntry {
            flags: 1,
            name_offset: 2,
            name_length: 3,
            hashed_length: 4,
            value_offset: 5,
            value_count: 6,
        }
    );
    assert_eq!(cursor.position(), 24);
    cursor.seek(4);
    assert_eq!(
        APISetValueEntry::from_parser(&mut cursor).unwrap(),
        APISetValueEntry {
            flags: 2,
            name_offset: 3,
            name_length: 4,
            value_offset: 5,
            value_length: 6,
        }
    );
    assert_eq!(cursor.position(), 24);
    cursor.seek(9);
    assert_eq!(APISetValueEntry::from_parser(&mut cursor).unwrap_err(), PEError::TruncatedRead);
    assert_eq!(APISetNamespace::from_parser(&mut cursor).unwrap_err(), PEError::TruncatedRead);
    assert_eq!(
        APISetNamespaceEntry::from_parser(&mut cursor).unwrap_err(),
        PEError::TruncatedRead
    );
}

#[test]
fn schema_structs_start_at_zero() {
    assert_eq!(APISetNamespace::new().count, 0);
    assert_eq!(APISetNamespace::new().entry_offset, 0);
    assert_eq!(APISetNamespaceEntry::new().value_count, 0);
    assert_eq!(APISetValueEntry::new().value_length, 0);
}

#[test]
fn normalized_names_are_trimmed_and_in_lower_case() {
    assert_eq!(normalize_name("KERNEL32.DLL\0\0"), "kernel32.dll");
    assert_eq!(normalize_name("\0a\0B"), "\0a\0b");
    assert_eq!(normalize_name("\0\0"), "");
    assert_eq!(normalize_name(""), "");
    assert_eq!(normalize_name("Stra\u{df}e-\u{c9}Z"), "stra\u{df}e-\u{c9}z");
}

#[test]
fn insert_keeps_names_and_hosts_in_lower_case() {
    let mut apiset = APISet::new();
    apiset.insert("API-MS-Win-X.DLL".to_string(), "KernelBase.DLL".to_string());
    assert_eq!(
        apiset.map(&"api-ms-win-x.dll".to_string()),
        Some(&"kernelbase.dll".to_string())
    );
    apiset.insert("api-ms-win-x.dll".to_string(), "Other.dll".to_string());
    assert_eq!(find_dll("Api-Ms-Win-X.dll", &apiset), Some("other.dll".to_string()));
}
