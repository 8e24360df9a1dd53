//! Section headers and the raw data that each section owns.

use crate::cursor::{spec_in_bounds, Cursor};
use crate::pe::error::{FormatField, PEError};
use crate::pe::headers::{spec_u16_at, spec_u32_at, take_u16, take_u32, take_u8};
use crate::text::{spec_strip_nul, string_from_utf8};
use vstd::prelude::*;
use vstd::utf8::{decode_utf8, valid_utf8};

verus! {

/// The number of bytes that a section header takes.
pub const SECTION_HEADER_SIZE: u64 = 40;

/// The number of bytes that hold a section's name.
pub const SECTION_NAME_SIZE: u64 = 8;

/// The first name byte of a section whose name lies in the string table.
pub const LONG_NAME_MARKER: u8 = 0x2F;

/// One entry of the section table.
#[derive(Clone, Debug, PartialEq, Eq)]
pub struct SectionHeader {
    /// The name without its padding, or "empty" where the first name byte is zero.
    pub name: String,
    pub virtual_size: u32,
    pub virtual_address: u32,
    pub size_of_raw_data: u32,
    pub ptr_to_raw_data: u32,
    pub pointer_to_relocations: u32,
    pub pointer_to_line_numbers: u32,
    pub number_of_relocations: u16,
    pub number_of_line_numbers: u16,
    pub characteristics: u32,
}

/// A section header as a value: the name as text, the other fields as they are.
pub struct SectionHeaderView {
    pub name: Seq<char>,
    pub virtual_size: u32,
    pub virtual_address: u32,
    pub size_of_raw_data: u32,
    pub ptr_to_raw_data: u32,
    pub pointer_to_relocations: u32,
    pub pointer_to_line_numbers: u32,
    pub number_of_relocations: u16,
    pub number_of_line_numbers: u16,
    pub characteristics: u32,
}

impl View for SectionHeader {
    type V = SectionHeaderView;

    open spec fn view(&self) -> SectionHeaderView {
        SectionHeaderView {
            name: self.name@,
            virtual_size: self.virtual_size,
            virtual_address: self.virtual_address,
            size_of_raw_data: self.size_of_raw_data,
            ptr_to_raw_data: self.ptr_to_raw_data,
            pointer_to_relocations: self.pointer_to_relocations,
            pointer_to_line_numbers: self.pointer_to_line_numbers,
            number_of_relocations: self.number_of_relocations,
            number_of_line_numbers: self.number_of_line_numbers,
            characteristics: self.characteristics,
        }
    }
}

/// The header named `name` with every other field zero.
pub open spec fn spec_blank_header(name: Seq<char>) -> SectionHeaderView {
    SectionHeaderView {
        name,
        virtual_size: 0,
        virtual_address: 0,
        size_of_raw_data: 0,
        ptr_to_raw_data: 0,
        pointer_to_relocations: 0,
        pointer_to_line_numbers: 0,
        number_of_relocations: 0,
        number_of_line_numbers: 0,
        characteristics: 0,
    }
}

/// The name bytes of the section header at `at`, padding removed.
pub open spec fn spec_section_name_bytes(bytes: Seq<u8>, at: int) -> Seq<u8> {
    spec_strip_nul(bytes.subrange(at, at + SECTION_NAME_SIZE))
}

/// The section header whose first byte is at `at`, for a name that is
/// stored in place.
pub open spec fn spec_section_fields(bytes: Seq<u8>, at: int) -> SectionHeaderView {
    SectionHeaderView {
        name: decode_utf8(spec_section_name_bytes(bytes, at)),
        virtual_size: spec_u32_at(bytes, at + 8),
        virtual_address: spec_u32_at(bytes, at + 12),
        size_of_raw_data: spec_u32_at(bytes, at + 16),
        ptr_to_raw_data: spec_u32_at(bytes, at + 20),
        pointer_to_relocations: spec_u32_at(bytes, at + 24),
        pointer_to_line_numbers: spec_u32_at(bytes, at + 28),
        number_of_relocations: spec_u16_at(bytes, at + 32),
        number_of_line_numbers: spec_u16_at(bytes, at + 34),
        characteristics: spec_u32_at(bytes, at + 36),
    }
}

/// What decoding a section header at `at` gives.
///
/// A first name byte of zero marks an unused entry, which is named "empty"
/// and whose other bytes are not looked at; it only has to end at a
/// position that a cursor can hold. A first name byte of `/` marks a name in
/// the string table, which is not supported.
pub open spec fn spec_section_header(bytes: Seq<u8>, at: int) -> Result<
    SectionHeaderView,
    PEError,
> {
    if !spec_in_bounds(bytes.len() as int, at, 1) {
        Err(PEError::TruncatedRead)
    } else if bytes[at] == LONG_NAME_MARKER {
        Err(PEError::Unsupported)
    } else if bytes[at] == 0 {
        if at + SECTION_HEADER_SIZE <= u64::MAX {
            Ok(spec_blank_header("empty"@))
        } else {
            Err(PEError::TruncatedRead)
        }
    } else if !spec_in_bounds(bytes.len() as int, at, SECTION_NAME_SIZE as int) {
        Err(PEError::TruncatedRead)
    } else if !valid_utf8(spec_section_name_bytes(bytes, at)) {
        Err(PEError::InvalidFormat(FormatField::SectionName))
    } else if !spec_in_bounds(bytes.len() as int, at, SECTION_HEADER_SIZE as int) {
        Err(PEError::TruncatedRead)
    } else {
        Ok(spec_section_fields(bytes, at))
    }
}

/// Whether `r` is the outcome `expected`, the header taken by its view.
pub open spec fn spec_header_outcome(
    r: Result<SectionHeader, PEError>,
    expected: Result<SectionHeaderView, PEError>,
) -> bool {
    match r {
        Ok(h) => expected == Ok::<SectionHeaderView, PEError>(h@),
        Err(e) => expected == Err::<SectionHeaderView, PEError>(e),
    }
}

impl SectionHeader {
    /// A header with an empty name and every other field zero.
    pub fn new() -> (h: SectionHeader)
        ensures
            h@ == spec_blank_header(Seq::<char>::empty()),
    {
        SectionHeader {
            name: String::new(),
            virtual_size: 0,
            virtual_address: 0,
            size_of_raw_data: 0,
            ptr_to_raw_data: 0,
            pointer_to_relocations: 0,
            pointer_to_line_numbers: 0,
            number_of_relocations: 0,
            number_of_line_numbers: 0,
            characteristics: 0,
        }
    }

    /// Decodes the section header at the cursor and leaves the cursor at the
    /// next entry of the table.
    pub fn from_parser(cursor: &mut Cursor) -> (r: Result<SectionHeader, PEError>)
        ensures
            final(cursor).bytes() == old(cursor).bytes(),
            spec_header_outcome(r, spec_section_header(old(cursor).bytes(), old(cursor).offset())),
            r.is_ok() ==> final(cursor).offset() == old(cursor).offset() + SECTION_HEADER_SIZE,
    {
        let ghost bytes = cursor.bytes();
        let ghost at = cursor.offset();
        let mut header: SectionHeader = SectionHeader::new();
        let first_name_byte: u8 = take_u8(cursor)?;
        if first_name_byte == LONG_NAME_MARKER {
            return Err(PEError::Unsupported);
        }
        if first_name_byte == 0 {
            let next: u64 = match cursor.position().checked_add(SECTION_HEADER_SIZE - 1) {
                Some(next) => next,
                None => { return Err(PEError::TruncatedRead); },
            };
            header.name = "empty".to_owned();
            cursor.seek(next);
            return Ok(header);
        }
        let mut name_buffer: Vec<u8> = Vec::new();
        name_buffer.push(first_name_byte);
        proof {
            let one = bytes.subrange(at, at + 1);
            assert(one.drop_last() =~= Seq::<u8>::empty());
            assert(spec_strip_nul(one.drop_last()) =~= Seq::<u8>::empty());
            assert(spec_strip_nul(one) =~= seq![first_name_byte]);
        }
        let mut i: u64 = 1;
        while i < SECTION_NAME_SIZE
            invariant
                1 <= i <= SECTION_NAME_SIZE,
                bytes == old(cursor).bytes(),
                at == old(cursor).offset(),
                bytes[at] != 0 && bytes[at] != LONG_NAME_MARKER,
                cursor.bytes() == bytes,
                cursor.offset() == at + i,
                spec_in_bounds(bytes.len() as int, at, i as int),
                name_buffer@ == spec_strip_nul(bytes.subrange(at, at + i)),
            decreases SECTION_NAME_SIZE - i,
        {
            let c: u8 = take_u8(cursor)?;
            proof {
                let longer = bytes.subrange(at, at + i + 1);
                assert(longer.drop_last() =~= bytes.subrange(at, at + i));
                assert(longer.last() == c);
            }
            if c != 0 {
                name_buffer.push(c);
            }
            i = i + 1;
        }
        header.name = match string_from_utf8(name_buffer) {
            Some(name) => name,
            None => { return Err(PEError::InvalidFormat(FormatField::SectionName)); },
        };
        header.virtual_size = take_u32(cursor)?;
        header.virtual_address = take_u32(cursor)?;
        header.size_of_raw_data = take_u32(cursor)?;
        header.ptr_to_raw_data = take_u32(cursor)?;
        header.pointer_to_relocations = take_u32(cursor)?;
        header.pointer_to_line_numbers = take_u32(cursor)?;
        header.number_of_relocations = take_u16(cursor)?;
        header.number_of_line_numbers = take_u16(cursor)?;
        header.characteristics = take_u32(cursor)?;
        Ok(header)
    }
}

/// A section: its header and the bytes that it owns in the file.
#[derive(Clone, Debug, PartialEq, Eq)]
pub struct Section {
    pub header: SectionHeader,
    pub raw_data: Vec<u8>,
}

/// A section as a value.
pub struct SectionView {
    pub header: SectionHeaderView,
    pub raw_data: Seq<u8>,
}

impl View for Section {
    type V = SectionView;

    open spec fn view(&self) -> SectionView {
        SectionView { header: self.header@, raw_data: self.raw_data@ }
    }
}

impl Section {
    /// The section with the given header and data.
    pub fn new(header: SectionHeader, raw_data: Vec<u8>) -> (s: Section)
        ensures
            s.header == header,
            s.raw_data == raw_data,
    {
        Section { header, raw_data }
    }
}

} // verus!
