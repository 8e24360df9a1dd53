//! The fixed headers at the start of an image: DOS, NT and COFF, and the
//! data-directory slot that the optional header repeats sixteen times.

use crate::cursor::{spec_in_bounds, spec_le16, spec_le32, spec_le64, Cursor};
use crate::pe::error::{FormatField, PEError};
use vstd::prelude::*;

verus! {

/// The signature of an MS-DOS executable, "MZ".
pub const DOS_MAGIC: u16 = 0x5a4d;

/// The signature of the NT header, "PE\0\0".
pub const NT_PE_SIGNATURE: u32 = 0x4550;

/// Where the DOS header keeps the offset of the NT header.
pub const LFANEW_OFFSET: u64 = 0x3C;

/// The 16-bit field at `at`.
pub open spec fn spec_u16_at(bytes: Seq<u8>, at: int) -> u16 {
    spec_le16(bytes, at) as u16
}

/// The 32-bit field at `at`.
pub open spec fn spec_u32_at(bytes: Seq<u8>, at: int) -> u32 {
    spec_le32(bytes, at) as u32
}

/// The 64-bit field at `at`.
pub open spec fn spec_u64_at(bytes: Seq<u8>, at: int) -> u64 {
    spec_le64(bytes, at) as u64
}

/// Reads one byte; a failed read is a truncated image.
pub fn take_u8(cursor: &mut Cursor) -> (r: Result<u8, PEError>)
    ensures
        final(cursor).bytes() == old(cursor).bytes(),
        r.is_ok() <==> old(cursor).can_read(1),
        r.is_ok() ==> r.unwrap() == old(cursor).bytes()[old(cursor).offset()]
            && final(cursor).offset() == old(cursor).offset() + 1,
        r.is_err() ==> r == Err::<u8, PEError>(PEError::TruncatedRead) && final(cursor).offset()
            == old(cursor).offset(),
{
    match cursor.read_u8() {
        Ok(v) => Ok(v),
        Err(_) => Err(PEError::TruncatedRead),
    }
}

/// Reads a 16-bit field; a failed read is a truncated image.
pub fn take_u16(cursor: &mut Cursor) -> (r: Result<u16, PEError>)
    ensures
        final(cursor).bytes() == old(cursor).bytes(),
        r.is_ok() <==> old(cursor).can_read(2),
        r.is_ok() ==> r.unwrap() == spec_u16_at(old(cursor).bytes(), old(cursor).offset())
            && final(cursor).offset() == old(cursor).offset() + 2,
        r.is_err() ==> r == Err::<u16, PEError>(PEError::TruncatedRead) && final(cursor).offset()
            == old(cursor).offset(),
{
    match cursor.read_u16() {
        Ok(v) => Ok(v),
        Err(_) => Err(PEError::TruncatedRead),
    }
}

/// Reads a 32-bit field; a failed read is a truncated image.
pub fn take_u32(cursor: &mut Cursor) -> (r: Result<u32, PEError>)
    ensures
        final(cursor).bytes() == old(cursor).bytes(),
        r.is_ok() <==> old(cursor).can_read(4),
        r.is_ok() ==> r.unwrap() == spec_u32_at(old(cursor).bytes(), old(cursor).offset())
            && final(cursor).offset() == old(cursor).offset() + 4,
        r.is_err() ==> r == Err::<u32, PEError>(PEError::TruncatedRead) && final(cursor).offset()
            == old(cursor).offset(),
{
    match cursor.read_u32() {
        Ok(v) => Ok(v),
        Err(_) => Err(PEError::TruncatedRead),
    }
}

/// Reads a 64-bit field; a failed read is a truncated image.
pub fn take_u64(cursor: &mut Cursor) -> (r: Result<u64, PEError>)
    ensures
        final(cursor).bytes() == old(cursor).bytes(),
        r.is_ok() <==> old(cursor).can_read(8),
        r.is_ok() ==> r.unwrap() == spec_u64_at(old(cursor).bytes(), old(cursor).offset())
            && final(cursor).offset() == old(cursor).offset() + 8,
        r.is_err() ==> r == Err::<u64, PEError>(PEError::TruncatedRead) && final(cursor).offset()
            == old(cursor).offset(),
{
    match cursor.read_u64() {
        Ok(v) => Ok(v),
        Err(_) => Err(PEError::TruncatedRead),
    }
}

/// The MS-DOS header that every image starts with.
#[derive(Clone, Copy, Debug, PartialEq, Eq, Structural)]
pub struct DOSHeader {
    /// The signature, `DOS_MAGIC` in a valid image.
    pub magic: u16,
    /// The file offset of the NT header.
    pub lfanew: u32,
}

/// What decoding the DOS header of `bytes` gives: the signature at `at`,
/// where the image starts, and the offset of the NT header at its fixed
/// place in the file.
pub open spec fn spec_dos_header(bytes: Seq<u8>, at: int) -> Result<DOSHeader, PEError> {
    if !spec_in_bounds(bytes.len() as int, at, 2) {
        Err(PEError::TruncatedRead)
    } else if spec_u16_at(bytes, at) != DOS_MAGIC {
        Err(PEError::InvalidFormat(FormatField::DosMagic))
    } else if bytes.len() < LFANEW_OFFSET + 4 {
        Err(PEError::TruncatedRead)
    } else {
        Ok(DOSHeader { magic: DOS_MAGIC, lfanew: spec_u32_at(bytes, LFANEW_OFFSET as int) })
    }
}

impl DOSHeader {
    /// A header with every field zero.
    pub fn new() -> (h: DOSHeader)
        ensures
            h == (DOSHeader { magic: 0, lfanew: 0 }),
    {
        DOSHeader { magic: 0, lfanew: 0 }
    }

    /// Decodes the DOS header, whose signature is at the cursor, and leaves
    /// the cursor behind the `lfanew` field.
    pub fn from_parser(cursor: &mut Cursor) -> (r: Result<DOSHeader, PEError>)
        ensures
            final(cursor).bytes() == old(cursor).bytes(),
            r == spec_dos_header(old(cursor).bytes(), old(cursor).offset()),
            r.is_ok() ==> final(cursor).offset() == LFANEW_OFFSET + 4,
    {
        let mut header: DOSHeader = DOSHeader::new();
        header.magic = take_u16(cursor)?;
        if header.magic != DOS_MAGIC {
            return Err(PEError::InvalidFormat(FormatField::DosMagic));
        }
        cursor.seek(LFANEW_OFFSET);
        header.lfanew = take_u32(cursor)?;
        Ok(header)
    }
}

/// The COFF file header.
#[derive(Clone, Copy, Debug, PartialEq, Eq, Structural)]
pub struct COFFHeader {
    pub machine: u16,
    pub number_of_sections: u16,
    pub time_date_stamp: u32,
    pub pointer_to_symbol_table: u32,
    pub number_of_symbols: u32,
    pub size_of_optional_header: u16,
    pub characteristics: u16,
}

/// The number of bytes that a COFF header takes.
pub const COFF_HEADER_SIZE: u64 = 20;

/// The COFF header whose first byte is at `at`.
pub open spec fn spec_coff_fields(bytes: Seq<u8>, at: int) -> COFFHeader {
    COFFHeader {
        machine: spec_u16_at(bytes, at),
        number_of_sections: spec_u16_at(bytes, at + 2),
        time_date_stamp: spec_u32_at(bytes, at + 4),
        pointer_to_symbol_table: spec_u32_at(bytes, at + 8),
        number_of_symbols: spec_u32_at(bytes, at + 12),
        size_of_optional_header: spec_u16_at(bytes, at + 16),
        characteristics: spec_u16_at(bytes, at + 18),
    }
}

/// What decoding a COFF header at `at` gives.
pub open spec fn spec_coff_header(bytes: Seq<u8>, at: int) -> Result<COFFHeader, PEError> {
    if spec_in_bounds(bytes.len() as int, at, COFF_HEADER_SIZE as int) {
        Ok(spec_coff_fields(bytes, at))
    } else {
        Err(PEError::TruncatedRead)
    }
}

impl COFFHeader {
    /// A header with every field zero.
    pub fn new() -> (h: COFFHeader)
        ensures
            h == spec_coff_zero(),
    {
        COFFHeader {
            machine: 0,
            number_of_sections: 0,
            time_date_stamp: 0,
            pointer_to_symbol_table: 0,
            number_of_symbols: 0,
            size_of_optional_header: 0,
            characteristics: 0,
        }
    }

    /// Decodes the COFF header at the cursor and leaves the cursor behind it.
    pub fn from_parser(cursor: &mut Cursor) -> (r: Result<COFFHeader, PEError>)
        ensures
            final(cursor).bytes() == old(cursor).bytes(),
            r == spec_coff_header(old(cursor).bytes(), old(cursor).offset()),
            r.is_ok() ==> final(cursor).offset() == old(cursor).offset() + COFF_HEADER_SIZE,
    {
        let mut header: COFFHeader = COFFHeader::new();
        header.machine = take_u16(cursor)?;
        header.number_of_sections = take_u16(cursor)?;
        header.time_date_stamp = take_u32(cursor)?;
        header.pointer_to_symbol_table = take_u32(cursor)?;
        header.number_of_symbols = take_u32(cursor)?;
        header.size_of_optional_header = take_u16(cursor)?;
        header.characteristics = take_u16(cursor)?;
        Ok(header)
    }
}

/// The COFF header with every field zero.
pub open spec fn spec_coff_zero() -> COFFHeader {
    COFFHeader {
        machine: 0,
        number_of_sections: 0,
        time_date_stamp: 0,
        pointer_to_symbol_table: 0,
        number_of_symbols: 0,
        size_of_optional_header: 0,
        characteristics: 0,
    }
}

/// The NT header: the signature and the COFF header behind it.
#[derive(Clone, Copy, Debug, PartialEq, Eq, Structural)]
pub struct NTHeader {
    /// The signature, `NT_PE_SIGNATURE` in a valid image.
    pub signature: u32,
    pub coff_header: COFFHeader,
}

/// The number of bytes that an NT header takes.
pub const NT_HEADER_SIZE: u64 = 24;

/// What decoding an NT header at `at` gives.
pub open spec fn spec_nt_header(bytes: Seq<u8>, at: int) -> Result<NTHeader, PEError> {
    if !spec_in_bounds(bytes.len() as int, at, 4) {
        Err(PEError::TruncatedRead)
    } else if spec_u32_at(bytes, at) != NT_PE_SIGNATURE {
        Err(PEError::InvalidFormat(FormatField::NtSignature))
    } else {
        match spec_coff_header(bytes, at + 4) {
            Ok(coff) => Ok(NTHeader { signature: NT_PE_SIGNATURE, coff_header: coff }),
            Err(e) => Err(e),
        }
    }
}

impl NTHeader {
    /// A header with every field zero.
    pub fn new() -> (h: NTHeader)
        ensures
            h == (NTHeader { signature: 0, coff_header: spec_coff_zero() }),
    {
        NTHeader { signature: 0, coff_header: COFFHeader::new() }
    }

    /// Decodes the NT header at the cursor and leaves the cursor behind it.
    pub fn from_parser(cursor: &mut Cursor) -> (r: Result<NTHeader, PEError>)
        ensures
            final(cursor).bytes() == old(cursor).bytes(),
            r == spec_nt_header(old(cursor).bytes(), old(cursor).offset()),
            r.is_ok() ==> final(cursor).offset() == old(cursor).offset() + NT_HEADER_SIZE,
    {
        let mut header: NTHeader = NTHeader::new();
        header.signature = take_u32(cursor)?;
        if header.signature != NT_PE_SIGNATURE {
            return Err(PEError::InvalidFormat(FormatField::NtSignature));
        }
        header.coff_header = COFFHeader::from_parser(cursor)?;
        Ok(header)
    }
}

/// One slot of the data directory: where a table lies and how long it is.
#[derive(Clone, Copy, Debug, PartialEq, Eq, Structural)]
pub struct ImageDataDirectory {
    /// The relative virtual address of the table.
    pub virtual_address: u32,
    /// The size of the table in bytes.
    pub size: u32,
}

/// The number of bytes that a data-directory slot takes.
pub const DATA_DIRECTORY_SIZE: u64 = 8;

/// The data-directory slot whose first byte is at `at`.
pub open spec fn spec_data_directory(bytes: Seq<u8>, at: int) -> ImageDataDirectory {
    ImageDataDirectory {
        virtual_address: spec_u32_at(bytes, at),
        size: spec_u32_at(bytes, at + 4),
    }
}

impl ImageDataDirectory {
    /// A slot with both fields zero.
    pub fn new() -> (d: ImageDataDirectory)
        ensures
            d == (ImageDataDirectory { virtual_address: 0, size: 0 }),
    {
        ImageDataDirectory { virtual_address: 0, size: 0 }
    }

    /// Decodes the slot at the cursor and leaves the cursor behind it.
    pub fn from_parser(cursor: &mut Cursor) -> (r: Result<ImageDataDirectory, PEError>)
        ensures
            final(cursor).bytes() == old(cursor).bytes(),
            r.is_ok() <==> old(cursor).can_read(DATA_DIRECTORY_SIZE as int),
            r.is_ok() ==> r.unwrap() == spec_data_directory(
                old(cursor).bytes(),
                old(cursor).offset(),
            ) && final(cursor).offset() == old(cursor).offset() + DATA_DIRECTORY_SIZE,
            r.is_err() ==> r == Err::<ImageDataDirectory, PEError>(PEError::TruncatedRead),
    {
        let mut idd: ImageDataDirectory = ImageDataDirectory::new();
        idd.virtual_address = take_u32(cursor)?;
        idd.size = take_u32(cursor)?;
        Ok(idd)
    }
}

} // verus!
