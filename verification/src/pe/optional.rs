//! The optional header in its two widths.
//!
//! The 32-bit form carries a base-of-data field and four-byte image base,
//! stack and heap sizes; the 64-bit form drops the first and widens the
//! others to eight bytes. Both end in sixteen data-directory slots.

use crate::cursor::{spec_in_bounds, Cursor};
use crate::pe::error::PEError;
use crate::pe::headers::{
    spec_data_directory, spec_u16_at, spec_u32_at, spec_u64_at, take_u16, take_u32, take_u64,
    take_u8, ImageDataDirectory,
};
use vstd::prelude::*;

verus! {

/// The optional-header magic of a 32-bit image.
pub const PE_FORMAT_32_MAGIC: u16 = 0x10b;

/// The optional-header magic of a 64-bit image.
pub const PE_FORMAT_64_MAGIC: u16 = 0x20b;

/// The number of bytes that the 32-bit optional header takes.
pub const OPTIONAL_HEADER_32_SIZE: u64 = 224;

/// The number of bytes that the 64-bit optional header takes.
pub const OPTIONAL_HEADER_64_SIZE: u64 = 240;

/// The data-directory slot with both fields zero.
pub open spec fn spec_directory_zero() -> ImageDataDirectory {
    ImageDataDirectory { virtual_address: 0, size: 0 }
}

/// The optional header of a 32-bit image.
#[derive(Clone, Copy, Debug, PartialEq, Eq, Structural)]
pub struct OptionalHeader32 {
    /// The magic that selects the width of the header.
    pub magic: u16,
    pub major_linker_version: u8,
    pub minor_linker_version: u8,
    pub size_of_code: u32,
    pub size_of_initialized_data: u32,
    pub size_of_uninitialized_data: u32,
    /// The relative virtual address of the entry point.
    pub address_of_entry_point: u32,
    pub base_of_code: u32,
    pub base_of_data: u32,
    /// The preferred load address of the image.
    pub image_base: u32,
    pub section_alignment: u32,
    pub file_alignement: u32,
    pub major_operating_system_version: u16,
    pub minor_operating_system_version: u16,
    pub major_image_version: u16,
    pub minor_image_version: u16,
    pub major_subsystem_version: u16,
    pub minor_subsystem_version: u16,
    /// Reserved.
    pub win32_version_value: u32,
    pub size_of_image: u32,
    pub size_of_headers: u32,
    pub checksum: u32,
    /// The subsystem that runs the image.
    pub subsystem: u16,
    pub dll_characteristics: u16,
    pub size_of_stack_reserve: u32,
    pub size_of_stack_commit: u32,
    pub size_of_heap_reserve: u32,
    pub size_of_heap_commit: u32,
    /// Reserved.
    pub loader_flags: u32,
    /// The number of data-directory slots that the image declares.
    pub number_of_rva_and_sizes: u32,
    pub export_table: ImageDataDirectory,
    /// Where the import directory lies.
    pub import_table: ImageDataDirectory,
    pub resource_table: ImageDataDirectory,
    pub exception_table: ImageDataDirectory,
    pub certificate_table: ImageDataDirectory,
    pub base_relocation_table: ImageDataDirectory,
    pub debug: ImageDataDirectory,
    /// Reserved.
    pub architecture: ImageDataDirectory,
    pub global_ptr: ImageDataDirectory,
    pub tls_table: ImageDataDirectory,
    pub load_config_table: ImageDataDirectory,
    pub bound_import: ImageDataDirectory,
    /// Where the import address table lies.
    pub import_address_table: ImageDataDirectory,
    pub delay_import_descriptor: ImageDataDirectory,
    pub clr_runtime_header: ImageDataDirectory,
    /// Reserved.
    pub zero: ImageDataDirectory,
}

/// The 32-bit optional header whose first byte is at `at`.
pub open spec fn spec_optional_32_fields(bytes: Seq<u8>, at: int) -> OptionalHeader32 {
    OptionalHeader32 {
        magic: spec_u16_at(bytes, at),
        major_linker_version: bytes[at + 2],
        minor_linker_version: bytes[at + 3],
        size_of_code: spec_u32_at(bytes, at + 4),
        size_of_initialized_data: spec_u32_at(bytes, at + 8),
        size_of_uninitialized_data: spec_u32_at(bytes, at + 12),
        address_of_entry_point: spec_u32_at(bytes, at + 16),
        base_of_code: spec_u32_at(bytes, at + 20),
        base_of_data: spec_u32_at(bytes, at + 24),
        image_base: spec_u32_at(bytes, at + 28),
        section_alignment: spec_u32_at(bytes, at + 32),
        file_alignement: spec_u32_at(bytes, at + 36),
        major_operating_system_version: spec_u16_at(bytes, at + 40),
        minor_operating_system_version: spec_u16_at(bytes, at + 42),
        major_image_version: spec_u16_at(bytes, at + 44),
        minor_image_version: spec_u16_at(bytes, at + 46),
        major_subsystem_version: spec_u16_at(bytes, at + 48),
        minor_subsystem_version: spec_u16_at(bytes, at + 50),
        win32_version_value: spec_u32_at(bytes, at + 52),
        size_of_image: spec_u32_at(bytes, at + 56),
        size_of_headers: spec_u32_at(bytes, at + 60),
        checksum: spec_u32_at(bytes, at + 64),
        subsystem: spec_u16_at(bytes, at + 68),
        dll_characteristics: spec_u16_at(bytes, at + 70),
        size_of_stack_reserve: spec_u32_at(bytes, at + 72),
        size_of_stack_commit: spec_u32_at(bytes, at + 76),
        size_of_heap_reserve: spec_u32_at(bytes, at + 80),
        size_of_heap_commit: spec_u32_at(bytes, at + 84),
        loader_flags: spec_u32_at(bytes, at + 88),
        number_of_rva_and_sizes: spec_u32_at(bytes, at + 92),
        export_table: spec_data_directory(bytes, at + 96),
        import_table: spec_data_directory(bytes, at + 104),
        resource_table: spec_data_directory(bytes, at + 112),
        exception_table: spec_data_directory(bytes, at + 120),
        certificate_table: spec_data_directory(bytes, at + 128),
        base_relocation_table: spec_data_directory(bytes, at + 136),
        debug: spec_data_directory(bytes, at + 144),
        architecture: spec_data_directory(bytes, at + 152),
        global_ptr: spec_data_directory(bytes, at + 160),
        tls_table: spec_data_directory(bytes, at + 168),
        load_config_table: spec_data_directory(bytes, at + 176),
        bound_import: spec_data_directory(bytes, at + 184),
        import_address_table: spec_data_directory(bytes, at + 192),
        delay_import_descriptor: spec_data_directory(bytes, at + 200),
        clr_runtime_header: spec_data_directory(bytes, at + 208),
        zero: spec_data_directory(bytes, at + 216),
    }
}

/// The 32-bit optional header with every field zero.
pub open spec fn spec_optional_32_zero() -> OptionalHeader32 {
    OptionalHeader32 {
        magic: 0,
        major_linker_version: 0,
        minor_linker_version: 0,
        size_of_code: 0,
        size_of_initialized_data: 0,
        size_of_uninitialized_data: 0,
        address_of_entry_point: 0,
        base_of_code: 0,
        base_of_data: 0,
        image_base: 0,
        section_alignment: 0,
        file_alignement: 0,
        major_operating_system_version: 0,
        minor_operating_system_version: 0,
        major_image_version: 0,
        minor_image_version: 0,
        major_subsystem_version: 0,
        minor_subsystem_version: 0,
        win32_version_value: 0,
        size_of_image: 0,
        size_of_headers: 0,
        checksum: 0,
        subsystem: 0,
        dll_characteristics: 0,
        size_of_stack_reserve: 0,
        size_of_stack_commit: 0,
        size_of_heap_reserve: 0,
        size_of_heap_commit: 0,
        loader_flags: 0,
        number_of_rva_and_sizes: 0,
        export_table: spec_directory_zero(),
        import_table: spec_directory_zero(),
        resource_table: spec_directory_zero(),
        exception_table: spec_directory_zero(),
        certificate_table: spec_directory_zero(),
        base_relocation_table: spec_directory_zero(),
        debug: spec_directory_zero(),
        architecture: spec_directory_zero(),
        global_ptr: spec_directory_zero(),
        tls_table: spec_directory_zero(),
        load_config_table: spec_directory_zero(),
        bound_import: spec_directory_zero(),
        import_address_table: spec_directory_zero(),
        delay_import_descriptor: spec_directory_zero(),
        clr_runtime_header: spec_directory_zero(),
        zero: spec_directory_zero(),
    }
}

/// What decoding a 32-bit optional header at `at` gives.
pub open spec fn spec_optional_32(bytes: Seq<u8>, at: int) -> Result<OptionalHeader32, PEError> {
    if spec_in_bounds(bytes.len() as int, at, OPTIONAL_HEADER_32_SIZE as int) {
        Ok(spec_optional_32_fields(bytes, at))
    } else {
        Err(PEError::TruncatedRead)
    }
}

impl OptionalHeader32 {
    /// A header with every field zero.
    pub fn new() -> (h: OptionalHeader32)
        ensures
            h == spec_optional_32_zero(),
    {
        OptionalHeader32 {
            magic: 0,
            major_linker_version: 0,
            minor_linker_version: 0,
            size_of_code: 0,
            size_of_initialized_data: 0,
            size_of_uninitialized_data: 0,
            address_of_entry_point: 0,
            base_of_code: 0,
            base_of_data: 0,
            image_base: 0,
            section_alignment: 0,
            file_alignement: 0,
            major_operating_system_version: 0,
            minor_operating_system_version: 0,
            major_image_version: 0,
            minor_image_version: 0,
            major_subsystem_version: 0,
            minor_subsystem_version: 0,
            win32_version_value: 0,
            size_of_image: 0,
            size_of_headers: 0,
            checksum: 0,
            subsystem: 0,
            dll_characteristics: 0,
            size_of_stack_reserve: 0,
            size_of_stack_commit: 0,
            size_of_heap_reserve: 0,
            size_of_heap_commit: 0,
            loader_flags: 0,
            number_of_rva_and_sizes: 0,
            export_table: ImageDataDirectory::new(),
            import_table: ImageDataDirectory::new(),
            resource_table: ImageDataDirectory::new(),
            exception_table: ImageDataDirectory::new(),
            certificate_table: ImageDataDirectory::new(),
            base_relocation_table: ImageDataDirectory::new(),
            debug: ImageDataDirectory::new(),
            architecture: ImageDataDirectory::new(),
            global_ptr: ImageDataDirectory::new(),
            tls_table: ImageDataDirectory::new(),
            load_config_table: ImageDataDirectory::new(),
            bound_import: ImageDataDirectory::new(),
            import_address_table: ImageDataDirectory::new(),
            delay_import_descriptor: ImageDataDirectory::new(),
            clr_runtime_header: ImageDataDirectory::new(),
            zero: ImageDataDirectory::new(),
        }
    }

    /// Decodes the header at the cursor, all sixteen data-directory slots
    /// included, and leaves the cursor behind it.
    pub fn from_parser(cursor: &mut Cursor) -> (r: Result<OptionalHeader32, PEError>)
        ensures
            final(cursor).bytes() == old(cursor).bytes(),
            r == spec_optional_32(old(cursor).bytes(), old(cursor).offset()),
            r.is_ok() ==> final(cursor).offset() == old(cursor).offset()
                + OPTIONAL_HEADER_32_SIZE,
    {
        let mut header: OptionalHeader32 = OptionalHeader32::new();
        header.magic = take_u16(cursor)?;
        header.major_linker_version = take_u8(cursor)?;
        header.minor_linker_version = take_u8(cursor)?;
        header.size_of_code = take_u32(cursor)?;
        header.size_of_initialized_data = take_u32(cursor)?;
        header.size_of_uninitialized_data = take_u32(cursor)?;
        header.address_of_entry_point = take_u32(cursor)?;
        header.base_of_code = take_u32(cursor)?;
        header.base_of_data = take_u32(cursor)?;
        header.image_base = take_u32(cursor)?;
        header.section_alignment = take_u32(cursor)?;
        header.file_alignement = take_u32(cursor)?;
        header.major_operating_system_version = take_u16(cursor)?;
        header.minor_operating_system_version = take_u16(cursor)?;
        header.major_image_version = take_u16(cursor)?;
        header.minor_image_version = take_u16(cursor)?;
        header.major_subsystem_version = take_u16(cursor)?;
        header.minor_subsystem_version = take_u16(cursor)?;
        header.win32_version_value = take_u32(cursor)?;
        header.size_of_image = take_u32(cursor)?;
        header.size_of_headers = take_u32(cursor)?;
        header.checksum = take_u32(cursor)?;
        header.subsystem = take_u16(cursor)?;
        header.dll_characteristics = take_u16(cursor)?;
        header.size_of_stack_reserve = take_u32(cursor)?;
        header.size_of_stack_commit = take_u32(cursor)?;
        header.size_of_heap_reserve = take_u32(cursor)?;
        header.size_of_heap_commit = take_u32(cursor)?;
        header.loader_flags = take_u32(cursor)?;
        header.number_of_rva_and_sizes = take_u32(cursor)?;
        header.export_table = ImageDataDirectory::from_parser(cursor)?;
        header.import_table = ImageDataDirectory::from_parser(cursor)?;
        header.resource_table = ImageDataDirectory::from_parser(cursor)?;
        header.exception_table = ImageDataDirectory::from_parser(cursor)?;
        header.certificate_table = ImageDataDirectory::from_parser(cursor)?;
        header.base_relocation_table = ImageDataDirectory::from_parser(cursor)?;
        header.debug = ImageDataDirectory::from_parser(cursor)?;
        header.architecture = ImageDataDirectory::from_parser(cursor)?;
        header.global_ptr = ImageDataDirectory::from_parser(cursor)?;
        header.tls_table = ImageDataDirectory::from_parser(cursor)?;
        header.load_config_table = ImageDataDirectory::from_parser(cursor)?;
        header.bound_import = ImageDataDirectory::from_parser(cursor)?;
        header.import_address_table = ImageDataDirectory::from_parser(cursor)?;
        header.delay_import_descriptor = ImageDataDirectory::from_parser(cursor)?;
        header.clr_runtime_header = ImageDataDirectory::from_parser(cursor)?;
        header.zero = ImageDataDirectory::from_parser(cursor)?;
        Ok(header)
    }
}

/// The optional header of a 64-bit image.
#[derive(Clone, Copy, Debug, PartialEq, Eq, Structural)]
pub struct OptionalHeader64 {
    /// The magic that selects the width of the header.
    pub magic: u16,
    pub major_linker_version: u8,
    pub minor_linker_version: u8,
    pub size_of_code: u32,
    pub size_of_initialized_data: u32,
    pub size_of_uninitialized_data: u32,
    /// The relative virtual address of the entry point.
    pub address_of_entry_point: u32,
    pub base_of_code: u32,
    /// The preferred load address of the image.
    pub image_base: u64,
    pub section_alignment: u32,
    pub file_alignement: u32,
    pub major_operating_system_version: u16,
    pub minor_operating_system_version: u16,
    pub major_image_version: u16,
    pub minor_image_version: u16,
    pub major_subsystem_version: u16,
    pub minor_subsystem_version: u16,
    /// Reserved.
    pub win32_version_value: u32,
    pub size_of_image: u32,
    pub size_of_headers: u32,
    pub checksum: u32,
    /// The subsystem that runs the image.
    pub subsystem: u16,
    pub dll_characteristics: u16,
    pub size_of_stack_reserve: u64,
    pub size_of_stack_commit: u64,
    pub size_of_heap_reserve: u64,
    pub size_of_heap_commit: u64,
    /// Reserved.
    pub loader_flags: u32,
    /// The number of data-directory slots that the image declares.
    pub number_of_rva_and_sizes: u32,
    pub export_table: ImageDataDirectory,
    /// Where the import directory lies.
    pub import_table: ImageDataDirectory,
    pub resource_table: ImageDataDirectory,
    pub exception_table: ImageDataDirectory,
    pub certificate_table: ImageDataDirectory,
    pub base_relocation_table: ImageDataDirectory,
    pub debug: ImageDataDirectory,
    /// Reserved.
    pub architecture: ImageDataDirectory,
    pub global_ptr: ImageDataDirectory,
    pub tls_table: ImageDataDirectory,
    pub load_config_table: ImageDataDirectory,
    pub bound_import: ImageDataDirectory,
    /// Where the import address table lies.
    pub import_address_table: ImageDataDirectory,
    pub delay_import_descriptor: ImageDataDirectory,
    pub clr_runtime_header: ImageDataDirectory,
    /// Reserved.
    pub zero: ImageDataDirectory,
}

/// The 64-bit optional header whose first byte is at `at`.
pub open spec fn spec_optional_64_fields(bytes: Seq<u8>, at: int) -> OptionalHeader64 {
    OptionalHeader64 {
        magic: spec_u16_at(bytes, at),
        major_linker_version: bytes[at + 2],
        minor_linker_version: bytes[at + 3],
        size_of_code: spec_u32_at(bytes, at + 4),
        size_of_initialized_data: spec_u32_at(bytes, at + 8),
        size_of_uninitialized_data: spec_u32_at(bytes, at + 12),
        address_of_entry_point: spec_u32_at(bytes, at + 16),
        base_of_code: spec_u32_at(bytes, at + 20),
        image_base: spec_u64_at(bytes, at + 24),
        section_alignment: spec_u32_at(bytes, at + 32),
        file_alignement: spec_u32_at(bytes, at + 36),
        major_operating_system_version: spec_u16_at(bytes, at + 40),
        minor_operating_system_version: spec_u16_at(bytes, at + 42),
        major_image_version: spec_u16_at(bytes, at + 44),
        minor_image_version: spec_u16_at(bytes, at + 46),
        major_subsystem_version: spec_u16_at(bytes, at + 48),
        minor_subsystem_version: spec_u16_at(bytes, at + 50),
        win32_version_value: spec_u32_at(bytes, at + 52),
        size_of_image: spec_u32_at(bytes, at + 56),
        size_of_headers: spec_u32_at(bytes, at + 60),
        checksum: spec_u32_at(bytes, at + 64),
        subsystem: spec_u16_at(bytes, at + 68),
        dll_characteristics: spec_u16_at(bytes, at + 70),
        size_of_stack_reserve: spec_u64_at(bytes, at + 72),
        size_of_stack_commit: spec_u64_at(bytes, at + 80),
        size_of_heap_reserve: spec_u64_at(bytes, at + 88),
        size_of_heap_commit: spec_u64_at(bytes, at + 96),
        loader_flags: spec_u32_at(bytes, at + 104),
        number_of_rva_and_sizes: spec_u32_at(bytes, at + 108),
        export_table: spec_data_directory(bytes, at + 112),
        import_table: spec_data_directory(bytes, at + 120),
        resource_table: spec_data_directory(bytes, at + 128),
        exception_table: spec_data_directory(bytes, at + 136),
        certificate_table: spec_data_directory(bytes, at + 144),
        base_relocation_table: spec_data_directory(bytes, at + 152),
        debug: spec_data_directory(bytes, at + 160),
        architecture: spec_data_directory(bytes, at + 168),
        global_ptr: spec_data_directory(bytes, at + 176),
        tls_table: spec_data_directory(bytes, at + 184),
        load_config_table: spec_data_directory(bytes, at + 192),
        bound_import: spec_data_directory(bytes, at + 200),
        import_address_table: spec_data_directory(bytes, at + 208),
        delay_import_descriptor: spec_data_directory(bytes, at + 216),
        clr_runtime_header: spec_data_directory(bytes, at + 224),
        zero: spec_data_directory(bytes, at + 232),
    }
}

/// The 64-bit optional header with every field zero.
pub open spec fn spec_optional_64_zero() -> OptionalHeader64 {
    OptionalHeader64 {
        magic: 0,
        major_linker_version: 0,
        minor_linker_version: 0,
        size_of_code: 0,
        size_of_initialized_data: 0,
        size_of_uninitialized_data: 0,
        address_of_entry_point: 0,
        base_of_code: 0,
        image_base: 0,
        section_alignment: 0,
        file_alignement: 0,
        major_operating_system_version: 0,
        minor_operating_system_version: 0,
        major_image_version: 0,
        minor_image_version: 0,
        major_subsystem_version: 0,
        minor_subsystem_version: 0,
        win32_version_value: 0,
        size_of_image: 0,
        size_of_headers: 0,
        checksum: 0,
        subsystem: 0,
        dll_characteristics: 0,
        size_of_stack_reserve: 0,
        size_of_stack_commit: 0,
        size_of_heap_reserve: 0,
        size_of_heap_commit: 0,
        loader_flags: 0,
        number_of_rva_and_sizes: 0,
        export_table: spec_directory_zero(),
        import_table: spec_directory_zero(),
        resource_table: spec_directory_zero(),
        exception_table: spec_directory_zero(),
        certificate_table: spec_directory_zero(),
        base_relocation_table: spec_directory_zero(),
        debug: spec_directory_zero(),
        architecture: spec_directory_zero(),
        global_ptr: spec_directory_zero(),
        tls_table: spec_directory_zero(),
        load_config_table: spec_directory_zero(),
        bound_import: spec_directory_zero(),
        import_address_table: spec_directory_zero(),
        delay_import_descriptor: spec_directory_zero(),
        clr_runtime_header: spec_directory_zero(),
        zero: spec_directory_zero(),
    }
}

/// What decoding a 64-bit optional header at `at` gives.
pub open spec fn spec_optional_64(bytes: Seq<u8>, at: int) -> Result<OptionalHeader64, PEError> {
    if spec_in_bounds(bytes.len() as int, at, OPTIONAL_HEADER_64_SIZE as int) {
        Ok(spec_optional_64_fields(bytes, at))
    } else {
        Err(PEError::TruncatedRead)
    }
}

impl OptionalHeader64 {
    /// A header with every field zero.
    pub fn new() -> (h: OptionalHeader64)
        ensures
            h == spec_optional_64_zero(),
    {
        OptionalHeader64 {
            magic: 0,
            major_linker_version: 0,
            minor_linker_version: 0,
            size_of_code: 0,
            size_of_initialized_data: 0,
            size_of_uninitialized_data: 0,
            address_of_entry_point: 0,
            base_of_code: 0,
            image_base: 0,
            section_alignment: 0,
            file_alignement: 0,
            major_operating_system_version: 0,
            minor_operating_system_version: 0,
            major_image_version: 0,
            minor_image_version: 0,
            major_subsystem_version: 0,
            minor_subsystem_version: 0,
            win32_version_value: 0,
            size_of_image: 0,
            size_of_headers: 0,
            checksum: 0,
            subsystem: 0,
            dll_characteristics: 0,
            size_of_stack_reserve: 0,
            size_of_stack_commit: 0,
            size_of_heap_reserve: 0,
            size_of_heap_commit: 0,
            loader_flags: 0,
            number_of_rva_and_sizes: 0,
            export_table: ImageDataDirectory::new(),
            import_table: ImageDataDirectory::new(),
            resource_table: ImageDataDirectory::new(),
            exception_table: ImageDataDirectory::new(),
            certificate_table: ImageDataDirectory::new(),
            base_relocation_table: ImageDataDirectory::new(),
            debug: ImageDataDirectory::new(),
            architecture: ImageDataDirectory::new(),
            global_ptr: ImageDataDirectory::new(),
            tls_table: ImageDataDirectory::new(),
            load_config_table: ImageDataDirectory::new(),
            bound_import: ImageDataDirectory::new(),
            import_address_table: ImageDataDirectory::new(),
            delay_import_descriptor: ImageDataDirectory::new(),
            clr_runtime_header: ImageDataDirectory::new(),
            zero: ImageDataDirectory::new(),
        }
    }

    /// Decodes the header at the cursor, all sixteen data-directory slots
    /// included, and leaves the cursor behind it.
    pub fn from_parser(cursor: &mut Cursor) -> (r: Result<OptionalHeader64, PEError>)
        ensures
            final(cursor).bytes() == old(cursor).bytes(),
            r == spec_optional_64(old(cursor).bytes(), old(cursor).offset()),
            r.is_ok() ==> final(cursor).offset() == old(cursor).offset()
                + OPTIONAL_HEADER_64_SIZE,
    {
        let mut header: OptionalHeader64 = OptionalHeader64::new();
        header.magic = take_u16(cursor)?;
        header.major_linker_version = take_u8(cursor)?;
        header.minor_linker_version = take_u8(cursor)?;
        header.size_of_code = take_u32(cursor)?;
        header.size_of_initialized_data = take_u32(cursor)?;
        header.size_of_uninitialized_data = take_u32(cursor)?;
        header.address_of_entry_point = take_u32(cursor)?;
        header.base_of_code = take_u32(cursor)?;
        header.image_base = take_u64(cursor)?;
        header.section_alignment = take_u32(cursor)?;
        header.file_alignement = take_u32(cursor)?;
        header.major_operating_system_version = take_u16(cursor)?;
        header.minor_operating_system_version = take_u16(cursor)?;
        header.major_image_version = take_u16(cursor)?;
        header.minor_image_version = take_u16(cursor)?;
        header.major_subsystem_version = take_u16(cursor)?;
        header.minor_subsystem_version = take_u16(cursor)?;
        header.win32_version_value = take_u32(cursor)?;
        header.size_of_image = take_u32(cursor)?;
        header.size_of_headers = take_u32(cursor)?;
        header.checksum = take_u32(cursor)?;
        header.subsystem = take_u16(cursor)?;
        header.dll_characteristics = take_u16(cursor)?;
        header.size_of_stack_reserve = take_u64(cursor)?;
        header.size_of_stack_commit = take_u64(cursor)?;
        header.size_of_heap_reserve = take_u64(cursor)?;
        header.size_of_heap_commit = take_u64(cursor)?;
        header.loader_flags = take_u32(cursor)?;
        header.number_of_rva_and_sizes = take_u32(cursor)?;
        header.export_table = ImageDataDirectory::from_parser(cursor)?;
        header.import_table = ImageDataDirectory::from_parser(cursor)?;
        header.resource_table = ImageDataDirectory::from_parser(cursor)?;
        header.exception_table = ImageDataDirectory::from_parser(cursor)?;
        header.certificate_table = ImageDataDirectory::from_parser(cursor)?;
        header.base_relocation_table = ImageDataDirectory::from_parser(cursor)?;
        header.debug = ImageDataDirectory::from_parser(cursor)?;
        header.architecture = ImageDataDirectory::from_parser(cursor)?;
        header.global_ptr = ImageDataDirectory::from_parser(cursor)?;
        header.tls_table = ImageDataDirectory::from_parser(cursor)?;
        header.load_config_table = ImageDataDirectory::from_parser(cursor)?;
        header.bound_import = ImageDataDirectory::from_parser(cursor)?;
        header.import_address_table = ImageDataDirectory::from_parser(cursor)?;
        header.delay_import_descriptor = ImageDataDirectory::from_parser(cursor)?;
        header.clr_runtime_header = ImageDataDirectory::from_parser(cursor)?;
        header.zero = ImageDataDirectory::from_parser(cursor)?;
        Ok(header)
    }
}

} // verus!
