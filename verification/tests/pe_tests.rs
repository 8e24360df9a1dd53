use fdw::cursor::Cursor;
use fdw::pe::image::{parse_image, parse_import_descriptors, parse_pe, MAX_IMPORT_DESCRIPTORS};
use fdw::pe::{
    COFFHeader, DOSHeader, FormatField, HintNameEntry, ImageDataDirectory, ImageImportDescriptor,
    ImportLookupEntry, NTHeader, OptionalHeader32, OptionalHeader64, PEArchitecture, PEError,
    PEHeader, Section, SectionHeader, PE,
};

const LFANEW: usize = 0x80;
const TEXT_VA: u32 = 0x1000;
const TEXT_PTR: u32 = 0x400;
const IDATA_VA: u32 = 0x2000;
const IDATA_PTR: u32 = 0x600;

fn pe_put16(b: &mut Vec<u8>, at: usize, v: u16) {
    b[at..at + 2].copy_from_slice(&v.to_le_bytes());
}

fn pe_put32(b: &mut Vec<u8>, at: usize, v: u32) {
    b[at..at + 4].copy_from_slice(&v.to_le_bytes());
}

fn pe_get16(b: &[u8], at: usize) -> u16 {
    u16::from_le_bytes([b[at], b[at + 1]])
}

fn pe_get32(b: &[u8], at: usize) -> u32 {
    u32::from_le_bytes([b[at], b[at + 1], b[at + 2], b[at + 3]])
}

fn pe_get64(b: &[u8], at: usize) -> u64 {
    let mut w = [0u8; 8];
    w.copy_from_slice(&b[at..at + 8]);
    u64::from_le_bytes(w)
}

fn pe_optional_size(is64: bool) -> usize {
    if is64 {
        240
    } else {
        224
    }
}

/// The bytes of an import section at `va`: one descriptor per name, the
/// closing zero descriptor, then the names.
fn pe_import_data(va: u32, names: &[&[u8]], with_zero: bool) -> Vec<u8> {
    let n = names.len() + if with_zero { 1 } else { 0 };
    let mut data = vec![0u8; 20 * n];
    for (i, name) in names.iter().enumerate() {
        let name_off = data.len() as u32;
        pe_put32(&mut data, 20 * i, 0x3000 + i as u32);
        pe_put32(&mut data, 20 * i + 4, 0x5000_0000 + i as u32);
        pe_put32(&mut data, 20 * i + 8, 0xFFFF_FFFF);
        pe_put32(&mut data, 20 * i + 12, va + name_off);
        pe_put32(&mut data, 20 * i + 16, 0x4000 + i as u32);
        data.extend_from_slice(name);
        data.push(0);
    }
    data
}

/// An image with the given sections, each as name bytes, virtual address,
/// virtual size, raw pointer and raw data. `extra` bytes of padding follow
/// the structural optional header and are declared in the COFF header.
fn pe_build(
    is64: bool,
    sections: &[([u8; 8], u32, u32, u32, Vec<u8>)],
    import_rva: u32,
    extra: usize,
) -> Vec<u8> {
    let mut total = LFANEW + 24 + pe_optional_size(is64) + extra + 40 * sections.len();
    for s in sections {
        total = total.max(s.3 as usize + s.4.len());
    }
    let mut b = vec![0u8; total];
    pe_put16(&mut b, 0, 0x5A4D);
    pe_put32(&mut b, 0x3C, LFANEW as u32);
    pe_put32(&mut b, LFANEW, 0x0000_4550);
    let coff = LFANEW + 4;
    pe_put16(&mut b, coff, if is64 { 0x8664 } else { 0x014C });
    pe_put16(&mut b, coff + 2, sections.len() as u16);
    pe_put32(&mut b, coff + 4, 0x6123_4567);
    pe_put32(&mut b, coff + 8, 0x0A0B_0C0D);
    pe_put32(&mut b, coff + 12, 77);
    pe_put16(&mut b, coff + 16, (pe_optional_size(is64) + extra) as u16);
    pe_put16(&mut b, coff + 18, 0x2102);
    let opt = LFANEW + 24;
    for k in 0..pe_optional_size(is64) {
        b[opt + k] = (k as u8).wrapping_mul(7).wrapping_add(3);
    }
    pe_put16(&mut b, opt, if is64 { 0x20B } else { 0x10B });
    let dirs = opt + if is64 { 112 } else { 96 };
    pe_put32(&mut b, dirs + 8, import_rva);
    pe_put32(&mut b, dirs + 12, 0x28);
    let table = opt + pe_optional_size(is64) + extra;
    for (i, s) in sections.iter().enumerate() {
        let at = table + 40 * i;
        b[at..at + 8].copy_from_slice(&s.0);
        pe_put32(&mut b, at + 8, s.2);
        pe_put32(&mut b, at + 12, s.1);
        pe_put32(&mut b, at + 16, s.4.len() as u32);
        pe_put32(&mut b, at + 20, s.3);
        pe_put32(&mut b, at + 24, 0x0101_0101 + i as u32);
        pe_put32(&mut b, at + 28, 0x0202_0202 + i as u32);
        pe_put16(&mut b, at + 32, 5 + i as u16);
        pe_put16(&mut b, at + 34, 9 + i as u16);
        pe_put32(&mut b, at + 36, 0x6000_0020);
        let p = s.3 as usize;
        b[p..p + s.4.len()].copy_from_slice(&s.4);
    }
    b
}

fn pe_name(name: &str) -> [u8; 8] {
    let mut n = [0u8; 8];
    n[..name.len()].copy_from_slice(name.as_bytes());
    n
}

/// An image with a `.text` and an `.idata` section that imports `names`.
fn pe_with_imports(is64: bool, names: &[&[u8]]) -> Vec<u8> {
    pe_build(
        is64,
        &[
            (pe_name(".text"), TEXT_VA, 0x100, TEXT_PTR, vec![0xCC; 0x100]),
            (
                pe_name(".idata"),
                IDATA_VA,
                0x8000,
                IDATA_PTR,
                pe_import_data(IDATA_VA, names, true),
            ),
        ],
        IDATA_VA,
        0,
    )
}

#[test]
fn parse_32_bit_image_keeps_header_fields() {
    let bytes = pe_with_imports(false, &[b"KERNEL32.dll"]);
    let pe = parse_image(bytes.clone()).unwrap();
    assert!(pe.is_32_bits());
    assert!(matches!(pe.get_architecture(), PEArchitecture::PE32));
    let h = match pe.header {
        PEHeader::PE32(h) => h,
        PEHeader::PE64(_) => panic!("a 32-bit image"),
    };
    assert_eq!(h.dos, DOSHeader { magic: 0x5A4D, lfanew: LFANEW as u32 });
    assert_eq!(h.nt.signature, 0x4550);
    assert_eq!(
        h.nt.coff_header,
        COFFHeader {
            machine: 0x014C,
            number_of_sections: 2,
            time_date_stamp: 0x6123_4567,
            pointer_to_symbol_table: 0x0A0B_0C0D,
            number_of_symbols: 77,
            size_of_optional_header: 224,
            characteristics: 0x2102,
        }
    );
    let o = LFANEW + 24;
    let opt = h.optional;
    assert_eq!(opt.magic, 0x10B);
    assert_eq!(opt.major_linker_version, bytes[o + 2]);
    assert_eq!(opt.minor_linker_version, bytes[o + 3]);
    assert_eq!(opt.size_of_code, pe_get32(&bytes, o + 4));
    assert_eq!(opt.size_of_initialized_data, pe_get32(&bytes, o + 8));
    assert_eq!(opt.size_of_uninitialized_data, pe_get32(&bytes, o + 12));
    assert_eq!(opt.address_of_entry_point, pe_get32(&bytes, o + 16));
    assert_eq!(opt.base_of_code, pe_get32(&bytes, o + 20));
    assert_eq!(opt.base_of_data, pe_get32(&bytes, o + 24));
    assert_eq!(opt.image_base, pe_get32(&bytes, o + 28));
    assert_eq!(opt.section_alignment, pe_get32(&bytes, o + 32));
    assert_eq!(opt.file_alignement, pe_get32(&bytes, o + 36));
    assert_eq!(opt.major_operating_system_version, pe_get16(&bytes, o + 40));
    assert_eq!(opt.minor_operating_system_version, pe_get16(&bytes, o + 42));
    assert_eq!(opt.major_image_version, pe_get16(&bytes, o + 44));
    assert_eq!(opt.minor_image_version, pe_get16(&bytes, o + 46));
    assert_eq!(opt.major_subsystem_version, pe_get16(&bytes, o + 48));
    assert_eq!(opt.minor_subsystem_version, pe_get16(&bytes, o + 50));
    assert_eq!(opt.win32_version_value, pe_get32(&bytes, o + 52));
    assert_eq!(opt.size_of_image, pe_get32(&bytes, o + 56));
    assert_eq!(opt.size_of_headers, pe_get32(&bytes, o + 60));
    assert_eq!(opt.checksum, pe_get32(&bytes, o + 64));
    assert_eq!(opt.subsystem, pe_get16(&bytes, o + 68));
    assert_eq!(opt.dll_characteristics, pe_get16(&bytes, o + 70));
    assert_eq!(opt.size_of_stack_reserve, pe_get32(&bytes, o + 72));
    assert_eq!(opt.size_of_stack_commit, pe_get32(&bytes, o + 76));
    assert_eq!(opt.size_of_heap_reserve, pe_get32(&bytes, o + 80));
    assert_eq!(opt.size_of_heap_commit, pe_get32(&bytes, o + 84));
    assert_eq!(opt.loader_flags, pe_get32(&bytes, o + 88));
    assert_eq!(opt.number_of_rva_and_sizes, pe_get32(&bytes, o + 92));
    let dirs = [
        opt.export_table,
        opt.import_table,
        opt.resource_table,
        opt.exception_table,
        opt.certificate_table,
        opt.base_relocation_table,
        opt.debug,
        opt.architecture,
        opt.global_ptr,
        opt.tls_table,
        opt.load_config_table,
        opt.bound_import,
        opt.import_address_table,
        opt.delay_import_descriptor,
        opt.clr_runtime_header,
        opt.zero,
    ];
    for (i, d) in dirs.iter().enumerate() {
        assert_eq!(d.virtual_address, pe_get32(&bytes, o + 96 + 8 * i));
        assert_eq!(d.size, pe_get32(&bytes, o + 96 + 8 * i + 4));
    }
    assert_eq!(opt.import_table, ImageDataDirectory { virtual_address: IDATA_VA, size: 0x28 });
    assert_eq!(pe.get_import_table_idd(), opt.import_table);
    assert_eq!(pe.get_size_of_optional_header(), 224);
    assert_eq!(pe.get_number_of_sections(), 2);
}

#[test]
fn parse_64_bit_image_keeps_header_fields() {
    let bytes = pe_with_imports(true, &[b"KERNEL32.dll"]);
    let pe = parse_image(bytes.clone()).unwrap();
    assert!(!pe.is_32_bits());
    assert!(matches!(pe.get_architecture(), PEArchitecture::PE64));
    let h = match pe.header {
        PEHeader::PE64(h) => h,
        PEHeader::PE32(_) => panic!("a 64-bit image"),
    };
    assert_eq!(h.dos, DOSHeader { magic: 0x5A4D, lfanew: LFANEW as u32 });
    assert_eq!(h.nt.signature, 0x4550);
    assert_eq!(h.nt.coff_header.machine, 0x8664);
    assert_eq!(h.nt.coff_header.size_of_optional_header, 240);
    let o = LFANEW + 24;
    let opt = h.optional;
    assert_eq!(opt.magic, 0x20B);
    assert_eq!(opt.major_linker_version, bytes[o + 2]);
    assert_eq!(opt.minor_linker_version, bytes[o + 3]);
    assert_eq!(opt.size_of_code, pe_get32(&bytes, o + 4));
    assert_eq!(opt.size_of_initialized_data, pe_get32(&bytes, o + 8));
    assert_eq!(opt.size_of_uninitialized_data, pe_get32(&bytes, o + 12));
    assert_eq!(opt.address_of_entry_point, pe_get32(&bytes, o + 16));
    assert_eq!(opt.base_of_code, pe_get32(&bytes, o + 20));
    assert_eq!(opt.image_base, pe_get64(&bytes, o + 24));
    assert_eq!(opt.section_alignment, pe_get32(&bytes, o + 32));
    assert_eq!(opt.file_alignement, pe_get32(&bytes, o + 36));
    assert_eq!(opt.major_operating_system_version, pe_get16(&bytes, o + 40));
    assert_eq!(opt.minor_operating_system_version, pe_get16(&bytes, o + 42));
    assert_eq!(opt.major_image_version, pe_get16(&bytes, o + 44));
    assert_eq!(opt.minor_image_version, pe_get16(&bytes, o + 46));
    assert_eq!(opt.major_subsystem_version, pe_get16(&bytes, o + 48));
    assert_eq!(opt.minor_subsystem_version, pe_get16(&bytes, o + 50));
    assert_eq!(opt.win32_version_value, pe_get32(&bytes, o + 52));
    assert_eq!(opt.size_of_image, pe_get32(&bytes, o + 56));
    assert_eq!(opt.size_of_headers, pe_get32(&bytes, o + 60));
    assert_eq!(opt.checksum, pe_get32(&bytes, o + 64));
    assert_eq!(opt.subsystem, pe_get16(&bytes, o + 68));
    assert_eq!(opt.dll_characteristics, pe_get16(&bytes, o + 70));
    assert_eq!(opt.size_of_stack_reserve, pe_get64(&bytes, o + 72));
    assert_eq!(opt.size_of_stack_commit, pe_get64(&bytes, o + 80));
    assert_eq!(opt.size_of_heap_reserve, pe_get64(&bytes, o + 88));
    assert_eq!(opt.size_of_heap_commit, pe_get64(&bytes, o + 96));
    assert_eq!(opt.loader_flags, pe_get32(&bytes, o + 104));
    assert_eq!(opt.number_of_rva_and_sizes, pe_get32(&bytes, o + 108));
    assert_eq!(opt.export_table.virtual_address, pe_get32(&bytes, o + 112));
    assert_eq!(opt.export_table.size, pe_get32(&bytes, o + 116));
    assert_eq!(opt.import_table, ImageDataDirectory { virtual_address: IDATA_VA, size: 0x28 });
    assert_eq!(opt.zero.virtual_address, pe_get32(&bytes, o + 112 + 8 * 15));
    assert_eq!(opt.zero.size, pe_get32(&bytes, o + 112 + 8 * 15 + 4));
    assert_eq!(pe.get_size_of_optional_header(), 240);
}

#[test]
fn parse_reads_sections_with_their_raw_data() {
    let bytes = pe_with_imports(false, &[b"a.dll"]);
    let pe = parse_image(bytes).unwrap();
    assert_eq!(pe.sections.len(), 2);
    let text = &pe.sections[0];
    assert_eq!(
        text.header,
        SectionHeader {
            name: ".text".to_string(),
            virtual_size: 0x100,
            virtual_address: TEXT_VA,
            size_of_raw_data: 0x100,
            ptr_to_raw_data: TEXT_PTR,
            pointer_to_relocations: 0x0101_0101,
            pointer_to_line_numbers: 0x0202_0202,
            number_of_relocations: 5,
            number_of_line_numbers: 9,
            characteristics: 0x6000_0020,
        }
    );
    assert_eq!(text.raw_data, vec![0xCC; 0x100]);
    assert_eq!(pe.sections[1].header.name, ".idata");
    assert_eq!(pe.sections[1].raw_data, pe_import_data(IDATA_VA, &[b"a.dll"], true));
}

#[test]
fn rva_inside_a_section_maps_to_its_raw_data() {
    let pe = parse_image(pe_with_imports(false, &[b"a.dll"])).unwrap();
    assert_eq!(pe.convert_rva_to_file_offset(TEXT_VA), Some(TEXT_PTR as u64));
    assert_eq!(pe.convert_rva_to_file_offset(TEXT_VA + 0x42), Some(TEXT_PTR as u64 + 0x42));
    assert_eq!(pe.convert_rva_to_file_offset(TEXT_VA + 0xFF), Some(TEXT_PTR as u64 + 0xFF));
    assert_eq!(pe.convert_rva_to_file_offset(IDATA_VA + 0x14), Some(IDATA_PTR as u64 + 0x14));
}

#[test]
fn rva_outside_every_section_has_no_offset() {
    let pe = parse_image(pe_with_imports(false, &[b"a.dll"])).unwrap();
    assert_eq!(pe.convert_rva_to_file_offset(0), None);
    assert_eq!(pe.convert_rva_to_file_offset(TEXT_VA - 1), None);
    assert_eq!(pe.convert_rva_to_file_offset(TEXT_VA + 0x100), None);
    assert_eq!(pe.convert_rva_to_file_offset(0xFFFF_FFFF), None);
    assert_eq!(PE::new().convert_rva_to_file_offset(TEXT_VA), None);
}

#[test]
fn rva_translation_does_not_overflow_on_large_sections() {
    let mut pe = PE::new();
    let mut header = SectionHeader::new();
    header.name = ".big".to_string();
    header.virtual_address = 0xFFFF_0000;
    header.virtual_size = 0xFFFF_FFFF;
    header.ptr_to_raw_data = 0xFFFF_FFFF;
    pe.sections.push(Section::new(header, Vec::new()));
    assert_eq!(
        pe.convert_rva_to_file_offset(0xFFFF_FFFF),
        Some(0xFFFF_FFFFu64 + 0xFFFF)
    );
    assert_eq!(pe.convert_rva_to_file_offset(0xFFFE_FFFF), None);
}

#[test]
fn rva_in_two_sections_maps_to_the_first() {
    let mut pe = PE::new();
    let mut one = SectionHeader::new();
    one.name = "one".to_string();
    one.virtual_address = 0x1000;
    one.virtual_size = 0x1000;
    one.ptr_to_raw_data = 0x200;
    let mut two = SectionHeader::new();
    two.name = "two".to_string();
    two.virtual_address = 0x1800;
    two.virtual_size = 0x1000;
    two.ptr_to_raw_data = 0x9000;
    pe.sections.push(Section::new(one, Vec::new()));
    pe.sections.push(Section::new(two, Vec::new()));
    assert_eq!(pe.convert_rva_to_file_offset(0x1900), Some(0x200 + 0x900));
    assert_eq!(pe.convert_rva_to_file_offset(0x2000), Some(0x9000 + 0x800));
}

#[test]
fn import_descriptors_stop_at_the_zero_descriptor() {
    let names: [&[u8]; 3] = [b"KERNEL32.dll", b"USER32.dll", b"ntdll.dll"];
    let pe = parse_image(pe_with_imports(true, &names)).unwrap();
    assert_eq!(pe.import_descriptors.len(), 3);
    for (i, d) in pe.import_descriptors.iter().enumerate() {
        assert_eq!(d.import_lookup_table_rva, 0x3000 + i as u32);
        assert_eq!(d.time_date_stamp, 0x5000_0000 + i as u32);
        assert_eq!(d.forwarder_chain, 0xFFFF_FFFF);
        assert_eq!(d.import_address_table_rva, 0x4000 + i as u32);
        assert!(!d.is_zeroed_out());
    }
    assert_eq!(pe.dll_names, vec!["KERNEL32.dll", "USER32.dll", "ntdll.dll"]);
}

#[test]
fn import_directory_with_only_the_zero_descriptor_is_empty() {
    let pe = parse_image(pe_with_imports(false, &[])).unwrap();
    assert_eq!(pe.import_descriptors.len(), 0);
    assert!(pe.dll_names.is_empty());
}

#[test]
fn import_descriptors_are_capped() {
    let owned: Vec<Vec<u8>> = (0..300).map(|i| format!("lib{i}.dll").into_bytes()).collect();
    let names: Vec<&[u8]> = owned.iter().map(|n| n.as_slice()).collect();
    let bytes = pe_build(
        false,
        &[(
            pe_name(".idata"),
            IDATA_VA,
            0x8000,
            IDATA_PTR,
            pe_import_data(IDATA_VA, &names, false),
        )],
        IDATA_VA,
        0,
    );
    let pe = parse_image(bytes).unwrap();
    assert_eq!(MAX_IMPORT_DESCRIPTORS, 256);
    assert_eq!(pe.import_descriptors.len(), 256);
    assert_eq!(pe.dll_names.len(), 256);
    assert_eq!(pe.dll_names[0], "lib0.dll");
    assert_eq!(pe.dll_names[255], "lib255.dll");
}

#[test]
fn import_descriptors_up_to_the_cap_are_all_returned() {
    let owned: Vec<Vec<u8>> = (0..256).map(|i| format!("l{i}.dll").into_bytes()).collect();
    let names: Vec<&[u8]> = owned.iter().map(|n| n.as_slice()).collect();
    let bytes = pe_build(
        false,
        &[(
            pe_name(".idata"),
            IDATA_VA,
            0x8000,
            IDATA_PTR,
            pe_import_data(IDATA_VA, &names, true),
        )],
        IDATA_VA,
        0,
    );
    let pe = parse_image(bytes).unwrap();
    assert_eq!(pe.import_descriptors.len(), 256);
}

#[test]
fn parse_import_descriptors_reads_from_the_import_table_offset() {
    let bytes = pe_with_imports(false, &[b"a.dll", b"b.dll"]);
    let mut pe = parse_image(bytes.clone()).unwrap();
    pe.import_descriptors.clear();
    let mut cursor = Cursor::new(bytes);
    let descriptors = parse_import_descriptors(&pe, &mut cursor).unwrap();
    assert_eq!(descriptors.len(), 2);
    assert_eq!(descriptors[1].import_lookup_table_rva, 0x3001);
}

#[test]
fn truncated_import_directory_is_a_truncated_read() {
    let mut data = pe_import_data(IDATA_VA, &[b"a.dll"], false);
    data.truncate(20);
    let bytes = pe_build(
        false,
        &[(pe_name(".idata"), IDATA_VA, 0x100, IDATA_PTR, data)],
        IDATA_VA,
        0,
    );
    assert_eq!(parse_image(bytes).unwrap_err(), PEError::TruncatedRead);
}

#[test]
fn missing_file_is_not_found() {
    assert_eq!(parse_pe("a.exe", None, true).unwrap_err(), PEError::NotFound);
    assert_eq!(parse_pe("a.txt", None, true).unwrap_err(), PEError::NotFound);
}

#[test]
fn extension_is_checked_only_on_demand() {
    let bytes = pe_with_imports(false, &[b"a.dll"]);
    assert_eq!(
        parse_pe("C:\\bin\\tool.dll", Some(bytes.clone()), true).unwrap_err(),
        PEError::InvalidFormat(FormatField::Extension)
    );
    assert_eq!(
        parse_pe("exe", Some(bytes.clone()), true).unwrap_err(),
        PEError::InvalidFormat(FormatField::Extension)
    );
    assert!(parse_pe("C:\\bin\\tool.dll", Some(bytes.clone()), false).is_ok());
    assert!(parse_pe("C:\\bin\\tool.exe", Some(bytes), true).is_ok());
}

#[test]
fn bad_dos_magic_is_invalid_format() {
    let mut bytes = pe_with_imports(false, &[b"a.dll"]);
    bytes[0] = b'Z';
    assert_eq!(
        parse_image(bytes).unwrap_err(),
        PEError::InvalidFormat(FormatField::DosMagic)
    );
}

#[test]
fn bad_nt_signature_is_invalid_format() {
    let mut bytes = pe_with_imports(false, &[b"a.dll"]);
    bytes[LFANEW + 2] = 1;
    assert_eq!(
        parse_image(bytes).unwrap_err(),
        PEError::InvalidFormat(FormatField::NtSignature)
    );
}

#[test]
fn bad_optional_magic_is_invalid_format() {
    let mut bytes = pe_with_imports(false, &[b"a.dll"]);
    pe_put16(&mut bytes, LFANEW + 24, 0x107);
    assert_eq!(
        parse_image(bytes).unwrap_err(),
        PEError::InvalidFormat(FormatField::OptionalMagic)
    );
}

#[test]
fn short_buffers_are_truncated_reads() {
    let bytes = pe_with_imports(false, &[b"a.dll"]);
    assert_eq!(parse_image(Vec::new()).unwrap_err(), PEError::TruncatedRead);
    assert_eq!(parse_image(vec![0x4D]).unwrap_err(), PEError::TruncatedRead);
    assert_eq!(parse_image(bytes[..0x3E].to_vec()).unwrap_err(), PEError::TruncatedRead);
    assert_eq!(parse_image(bytes[..LFANEW + 2].to_vec()).unwrap_err(), PEError::TruncatedRead);
    assert_eq!(parse_image(bytes[..LFANEW + 10].to_vec()).unwrap_err(), PEError::TruncatedRead);
    assert_eq!(parse_image(bytes[..LFANEW + 25].to_vec()).unwrap_err(), PEError::TruncatedRead);
    assert_eq!(parse_image(bytes[..LFANEW + 100].to_vec()).unwrap_err(), PEError::TruncatedRead);
    assert_eq!(
        parse_image(bytes[..LFANEW + 24 + 224 + 10].to_vec()).unwrap_err(),
        PEError::TruncatedRead
    );
}

#[test]
fn section_data_past_the_end_is_a_truncated_read() {
    let mut bytes = pe_with_imports(false, &[b"a.dll"]);
    let table = LFANEW + 24 + 224;
    pe_put32(&mut bytes, table + 16, 0x0010_0000);
    assert_eq!(parse_image(bytes).unwrap_err(), PEError::TruncatedRead);
}

#[test]
fn import_table_outside_every_section_is_unmapped() {
    let bytes = pe_build(
        false,
        &[(pe_name(".text"), TEXT_VA, 0x100, TEXT_PTR, vec![0; 0x100])],
        0x9000,
        0,
    );
    assert_eq!(parse_image(bytes).unwrap_err(), PEError::UnmappedRVA);
    let none = pe_build(false, &[], 0, 0);
    assert_eq!(parse_image(none).unwrap_err(), PEError::UnmappedRVA);
}

#[test]
fn library_name_outside_every_section_is_unmapped() {
    let mut data = pe_import_data(IDATA_VA, &[b"a.dll"], true);
    pe_put32(&mut data, 12, 0x0070_0000);
    let bytes = pe_build(
        false,
        &[(pe_name(".idata"), IDATA_VA, 0x100, IDATA_PTR, data)],
        IDATA_VA,
        0,
    );
    assert_eq!(parse_image(bytes).unwrap_err(), PEError::UnmappedRVA);
}

#[test]
fn library_name_without_terminator_is_a_truncated_read() {
    let mut data = pe_import_data(IDATA_VA, &[b"a.dll"], true);
    let last = data.len() - 1;
    data[last] = b'l';
    let bytes = pe_build(
        false,
        &[(pe_name(".idata"), IDATA_VA, 0x100, IDATA_PTR, data)],
        IDATA_VA,
        0,
    );
    assert_eq!(parse_image(bytes).unwrap_err(), PEError::TruncatedRead);
}

#[test]
fn library_name_that_is_not_utf8_is_invalid_format() {
    let bytes = pe_with_imports(false, &[&[0xFF, 0xFE, b'.', b'd', b'l', b'l']]);
    assert_eq!(
        parse_image(bytes).unwrap_err(),
        PEError::InvalidFormat(FormatField::LibraryName)
    );
}

#[test]
fn library_name_in_utf8_is_decoded() {
    let bytes = pe_with_imports(false, &["gr\u{00FC}n.dll".as_bytes()]);
    let pe = parse_image(bytes).unwrap();
    assert_eq!(pe.dll_names, vec!["gr\u{00FC}n.dll"]);
}

#[test]
fn section_name_in_the_string_table_is_unsupported() {
    let bytes = pe_build(
        false,
        &[(pe_name("/4"), TEXT_VA, 0x100, TEXT_PTR, vec![0; 0x10])],
        TEXT_VA,
        0,
    );
    assert_eq!(parse_image(bytes).unwrap_err(), PEError::Unsupported);
}

#[test]
fn section_name_that_is_not_utf8_is_invalid_format() {
    let mut name = pe_name(".t");
    name[2] = 0xC0;
    let bytes = pe_build(false, &[(name, TEXT_VA, 0x100, TEXT_PTR, vec![0; 0x10])], TEXT_VA, 0);
    assert_eq!(
        parse_image(bytes).unwrap_err(),
        PEError::InvalidFormat(FormatField::SectionName)
    );
}

#[test]
fn section_with_null_first_name_byte_is_named_empty() {
    let mut unused = [0u8; 8];
    unused[1] = b'x';
    let bytes = pe_build(
        false,
        &[
            (unused, 0x7000, 0x100, 0x300, vec![7; 0x10]),
            (pe_name(".idata"), IDATA_VA, 0x100, IDATA_PTR, pe_import_data(IDATA_VA, &[], true)),
        ],
        IDATA_VA,
        0,
    );
    let pe = parse_image(bytes).unwrap();
    assert_eq!(pe.sections.len(), 2);
    let mut expected = SectionHeader::new();
    expected.name = "empty".to_string();
    assert_eq!(pe.sections[0].header, expected);
    assert!(pe.sections[0].raw_data.is_empty());
    assert_eq!(pe.convert_rva_to_file_offset(0x7000), None);
}

#[test]
fn section_name_may_fill_all_eight_bytes() {
    let mut cursor = Cursor::new({
        let mut b = vec![0u8; 40];
        b[..8].copy_from_slice(b"_RDATA__");
        b
    });
    let h = SectionHeader::from_parser(&mut cursor).unwrap();
    assert_eq!(h.name, "_RDATA__");
    assert_eq!(cursor.position(), 40);
}

#[test]
fn section_name_padding_is_dropped() {
    let mut b = vec![0u8; 48];
    b[4..12].copy_from_slice(&[b'a', 0, b'b', 0, 0, b'c', 0, 0]);
    pe_put32(&mut b, 4 + 8, 0x11);
    pe_put32(&mut b, 4 + 12, 0x22);
    let mut cursor = Cursor::new(b);
    cursor.seek(4);
    let h = SectionHeader::from_parser(&mut cursor).unwrap();
    assert_eq!(h.name, "abc");
    assert_eq!(h.virtual_size, 0x11);
    assert_eq!(h.virtual_address, 0x22);
    assert_eq!(cursor.position(), 44);
}

#[test]
fn section_header_cut_short_is_a_truncated_read() {
    let mut b = vec![0u8; 39];
    b[..5].copy_from_slice(b".text");
    let mut cursor = Cursor::new(b);
    assert_eq!(
        SectionHeader::from_parser(&mut cursor).unwrap_err(),
        PEError::TruncatedRead
    );
    let mut cursor = Cursor::new(vec![b'.', b't']);
    assert_eq!(
        SectionHeader::from_parser(&mut cursor).unwrap_err(),
        PEError::TruncatedRead
    );
    let mut cursor = Cursor::new(Vec::new());
    assert_eq!(
        SectionHeader::from_parser(&mut cursor).unwrap_err(),
        PEError::TruncatedRead
    );
}

#[test]
fn later_section_of_the_same_name_takes_the_place_of_the_earlier() {
    let bytes = pe_build(
        false,
        &[
            (pe_name(".data"), 0x5000, 0x10, 0x300, vec![1; 0x10]),
            (pe_name(".idata"), IDATA_VA, 0x100, IDATA_PTR, pe_import_data(IDATA_VA, &[], true)),
            (pe_name(".data"), 0x6000, 0x10, 0x320, vec![2; 0x10]),
        ],
        IDATA_VA,
        0,
    );
    let pe = parse_image(bytes).unwrap();
    assert_eq!(pe.get_number_of_sections(), 3);
    assert_eq!(pe.sections.len(), 2);
    assert_eq!(pe.sections[0].header.name, ".data");
    assert_eq!(pe.sections[0].header.virtual_address, 0x6000);
    assert_eq!(pe.sections[0].raw_data, vec![2; 0x10]);
    assert_eq!(pe.sections[1].header.name, ".idata");
    assert_eq!(pe.convert_rva_to_file_offset(0x5000), None);
    assert_eq!(pe.convert_rva_to_file_offset(0x6004), Some(0x324));
}

#[test]
fn declared_optional_header_size_places_the_section_table() {
    let bytes = pe_build(
        true,
        &[(
            pe_name(".idata"),
            IDATA_VA,
            0x100,
            IDATA_PTR,
            pe_import_data(IDATA_VA, &[b"x.dll"], true),
        )],
        IDATA_VA,
        16,
    );
    let pe = parse_image(bytes).unwrap();
    assert_eq!(pe.get_size_of_optional_header(), 256);
    assert_eq!(pe.sections.len(), 1);
    assert_eq!(pe.sections[0].header.name, ".idata");
    assert_eq!(pe.dll_names, vec!["x.dll"]);
}

#[test]
fn new_values_are_zero() {
    assert_eq!(DOSHeader::new(), DOSHeader { magic: 0, lfanew: 0 });
    assert_eq!(COFFHeader::new().number_of_sections, 0);
    assert_eq!(NTHeader::new().signature, 0);
    assert_eq!(ImageDataDirectory::new(), ImageDataDirectory { virtual_address: 0, size: 0 });
    assert_eq!(OptionalHeader32::new().magic, 0);
    assert_eq!(OptionalHeader32::new().import_table, ImageDataDirectory::new());
    assert_eq!(OptionalHeader64::new().image_base, 0);
    assert_eq!(SectionHeader::new().name, "");
    assert!(ImageImportDescriptor::new().is_zeroed_out());
    assert_eq!(
        ImportLookupEntry::new(),
        ImportLookupEntry { by_ordinal: false, ordinal_number: 0, hint_name_table_rva: 0 }
    );
    assert_eq!(HintNameEntry::new(), HintNameEntry { hint: 0, name: String::new(), pad: false });
    let pe = PE::new();
    assert_eq!(pe.header, PEHeader::default());
    assert!(matches!(PEHeader::default(), PEHeader::PE32(h) if h.optional == OptionalHeader32::new()));
    assert!(pe.is_32_bits());
    assert_eq!(pe.get_number_of_sections(), 0);
    assert_eq!(pe.get_size_of_optional_header(), 0);
    assert!(pe.sections.is_empty() && pe.import_descriptors.is_empty() && pe.dll_names.is_empty());
}

#[test]
fn section_new_keeps_header_and_data() {
    let mut header = SectionHeader::new();
    header.name = ".x".to_string();
    let s = Section::new(header.clone(), vec![1, 2, 3]);
    assert_eq!(s.header, header);
    assert_eq!(s.raw_data, vec![1, 2, 3]);
}

#[test]
fn descriptor_is_zeroed_out_only_when_every_field_is_zero() {
    let zero = ImageImportDescriptor::new();
    assert!(zero.is_zeroed_out());
    assert!(!ImageImportDescriptor { import_lookup_table_rva: 1, ..zero }.is_zeroed_out());
    assert!(!ImageImportDescriptor { time_date_stamp: 1, ..zero }.is_zeroed_out());
    assert!(!ImageImportDescriptor { forwarder_chain: 1, ..zero }.is_zeroed_out());
    assert!(!ImageImportDescriptor { name_rva: 1, ..zero }.is_zeroed_out());
    assert!(!ImageImportDescriptor { import_address_table_rva: 1, ..zero }.is_zeroed_out());
}

#[test]
fn descriptor_from_parser_reads_twenty_bytes() {
    let mut b = Vec::new();
    for v in [1u32, 2, 3, 4, 5] {
        b.extend_from_slice(&v.to_le_bytes());
    }
    let mut cursor = Cursor::new(b);
    let d = ImageImportDescriptor::from_parser(&mut cursor).unwrap();
    assert_eq!(
        d,
        ImageImportDescriptor {
            import_lookup_table_rva: 1,
            time_date_stamp: 2,
            forwarder_chain: 3,
            name_rva: 4,
            import_address_table_rva: 5,
        }
    );
    assert_eq!(cursor.position(), 20);
    assert_eq!(
        ImageImportDescriptor::from_parser(&mut cursor).unwrap_err(),
        PEError::TruncatedRead
    );
}

#[test]
fn data_directory_from_parser_reads_eight_bytes() {
    let mut cursor = Cursor::new(vec![0x00, 0x20, 0, 0, 0x28, 0, 0, 0, 9]);
    assert_eq!(
        ImageDataDirectory::from_parser(&mut cursor).unwrap(),
        ImageDataDirectory { virtual_address: 0x2000, size: 0x28 }
    );
    assert_eq!(cursor.position(), 8);
    assert_eq!(
        ImageDataDirectory::from_parser(&mut cursor).unwrap_err(),
        PEError::TruncatedRead
    );
}

#[test]
fn lookup_entry_of_a_32_bit_image() {
    let mut cursor = Cursor::new(0x8000_1234u32.to_le_bytes().to_vec());
    assert_eq!(
        ImportLookupEntry::from_parser(&mut cursor, true).unwrap(),
        ImportLookupEntry { by_ordinal: true, ordinal_number: 0x1234, hint_name_table_rva: 0 }
    );
    assert_eq!(cursor.position(), 4);
    let mut cursor = Cursor::new(0x0001_2345u32.to_le_bytes().to_vec());
    assert_eq!(
        ImportLookupEntry::from_parser(&mut cursor, true).unwrap(),
        ImportLookupEntry { by_ordinal: false, ordinal_number: 0, hint_name_table_rva: 0x12345 }
    );
    let mut cursor = Cursor::new(vec![1, 2, 3]);
    assert_eq!(
        ImportLookupEntry::from_parser(&mut cursor, true).unwrap_err(),
        PEError::TruncatedRead
    );
}

#[test]
fn lookup_entry_of_a_64_bit_image() {
    let mut cursor = Cursor::new(0x8000_0000_0000_00FFu64.to_le_bytes().to_vec());
    assert_eq!(
        ImportLookupEntry::from_parser(&mut cursor, false).unwrap(),
        ImportLookupEntry { by_ordinal: true, ordinal_number: 0xFF, hint_name_table_rva: 0 }
    );
    assert_eq!(cursor.position(), 8);
    let mut cursor = Cursor::new(0x0000_0000_8000_4321u64.to_le_bytes().to_vec());
    assert_eq!(
        ImportLookupEntry::from_parser(&mut cursor, false).unwrap(),
        ImportLookupEntry { by_ordinal: false, ordinal_number: 0, hint_name_table_rva: 0x4321 }
    );
    let mut cursor = Cursor::new(vec![0; 7]);
    assert_eq!(
        ImportLookupEntry::from_parser(&mut cursor, false).unwrap_err(),
        PEError::TruncatedRead
    );
}

#[test]
fn hint_name_entry_with_and_without_padding() {
    let mut cursor = Cursor::new(vec![0x02, 0x01, b'a', b'b', b'c', 0, 0xEE, 0x07, 0, b'o', b'k', 0]);
    assert_eq!(
        HintNameEntry::from_parser(&mut cursor).unwrap(),
        HintNameEntry { hint: 0x0102, name: "abc".to_string(), pad: true }
    );
    assert_eq!(cursor.position(), 7);
    assert_eq!(
        HintNameEntry::from_parser(&mut cursor).unwrap(),
        HintNameEntry { hint: 7, name: "ok".to_string(), pad: false }
    );
    assert_eq!(cursor.position(), 12);
}

#[test]
fn hint_name_entry_errors() {
    let mut cursor = Cursor::new(vec![1]);
    assert_eq!(HintNameEntry::from_parser(&mut cursor).unwrap_err(), PEError::TruncatedRead);
    let mut cursor = Cursor::new(vec![1, 0, b'a', b'b']);
    assert_eq!(HintNameEntry::from_parser(&mut cursor).unwrap_err(), PEError::TruncatedRead);
    let mut cursor = Cursor::new(vec![1, 0, b'a', 0]);
    assert_eq!(HintNameEntry::from_parser(&mut cursor).unwrap_err(), PEError::TruncatedRead);
    let mut cursor = Cursor::new(vec![1, 0, 0xFF, 0xFF, 0]);
    assert_eq!(
        HintNameEntry::from_parser(&mut cursor).unwrap_err(),
        PEError::InvalidFormat(FormatField::SymbolName)
    );
}

#[test]
fn headers_from_parser_read_their_fields() {
    let bytes = pe_with_imports(false, &[b"a.dll"]);
    let mut cursor = Cursor::new(bytes.clone());
    assert_eq!(
        DOSHeader::from_parser(&mut cursor).unwrap(),
        DOSHeader { magic: 0x5A4D, lfanew: LFANEW as u32 }
    );
    assert_eq!(cursor.position(), 0x40);
    cursor.seek(LFANEW as u64);
    let nt = NTHeader::from_parser(&mut cursor).unwrap();
    assert_eq!(nt.coff_header.time_date_stamp, 0x6123_4567);
    assert_eq!(cursor.position(), LFANEW as u64 + 24);
    cursor.seek(LFANEW as u64 + 4);
    assert_eq!(COFFHeader::from_parser(&mut cursor).unwrap(), nt.coff_header);
    assert_eq!(cursor.position(), LFANEW as u64 + 24);
    assert_eq!(OptionalHeader32::from_parser(&mut cursor).unwrap().magic, 0x10B);
    assert_eq!(cursor.position(), LFANEW as u64 + 24 + 224);
    cursor.seek(LFANEW as u64 + 24);
    assert_eq!(
        OptionalHeader64::from_parser(&mut cursor).unwrap().image_base,
        pe_get64(&bytes, LFANEW + 24 + 24)
    );
    assert_eq!(cursor.position(), LFANEW as u64 + 24 + 240);
}

#[test]
fn error_messages_name_the_field() {
    assert_eq!(PEError::NotFound.message(), "File does not exist");
    assert_eq!(
        PEError::InvalidFormat(FormatField::DosMagic).message(),
        "Invalid DOS magic number"
    );
    assert_eq!(
        PEError::InvalidFormat(FormatField::NtSignature).message(),
        "Invalid PE signature in NT Header"
    );
    assert_eq!(
        PEError::InvalidFormat(FormatField::OptionalMagic).message(),
        "Invalid PE optional header magic"
    );
    assert_eq!(
        PEError::InvalidFormat(FormatField::Extension).message(),
        "File is not an executable (.exe)"
    );
    assert_eq!(PEError::UnmappedRVA.message(), "RVA does not map to any section");
    assert_eq!(PEError::TruncatedRead.message(), "Unexpected end of file");
}
