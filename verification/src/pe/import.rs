//! The import directory: one descriptor per imported library, and the lookup
//! and hint/name entries that a descriptor points at.

use crate::cursor::{spec_in_bounds, Cursor};
use crate::pe::error::{FormatField, PEError};
use crate::pe::headers::{spec_u16_at, spec_u32_at, spec_u64_at, take_u16, take_u32, take_u64, take_u8};
use crate::text::{spec_has_nul, spec_until_nul, string_from_utf8};
use vstd::prelude::*;
use vstd::utf8::{decode_utf8, valid_utf8};

verus! {

/// The number of bytes that an import descriptor takes.
pub const IMPORT_DESCRIPTOR_SIZE: u64 = 20;

/// One entry of the import directory.
#[derive(Clone, Copy, Debug, PartialEq, Eq, Structural)]
pub struct ImageImportDescriptor {
    pub import_lookup_table_rva: u32,
    pub time_date_stamp: u32,
    pub forwarder_chain: u32,
    /// The relative virtual address of the library's name.
    pub name_rva: u32,
    pub import_address_table_rva: u32,
}

/// The import descriptor whose first byte is at `at`.
pub open spec fn spec_import_descriptor(bytes: Seq<u8>, at: int) -> ImageImportDescriptor {
    ImageImportDescriptor {
        import_lookup_table_rva: spec_u32_at(bytes, at),
        time_date_stamp: spec_u32_at(bytes, at + 4),
        forwarder_chain: spec_u32_at(bytes, at + 8),
        name_rva: spec_u32_at(bytes, at + 12),
        import_address_table_rva: spec_u32_at(bytes, at + 16),
    }
}

/// The descriptor that ends the import directory: every field zero.
pub open spec fn spec_zero_descriptor() -> ImageImportDescriptor {
    ImageImportDescriptor {
        import_lookup_table_rva: 0,
        time_date_stamp: 0,
        forwarder_chain: 0,
        name_rva: 0,
        import_address_table_rva: 0,
    }
}

impl ImageImportDescriptor {
    /// A descriptor with every field zero.
    pub fn new() -> (d: ImageImportDescriptor)
        ensures
            d == spec_zero_descriptor(),
    {
        ImageImportDescriptor {
            import_lookup_table_rva: 0,
            time_date_stamp: 0,
            forwarder_chain: 0,
            name_rva: 0,
            import_address_table_rva: 0,
        }
    }

    /// Decodes the descriptor at the cursor and leaves the cursor behind it.
    pub fn from_parser(cursor: &mut Cursor) -> (r: Result<ImageImportDescriptor, PEError>)
        ensures
            final(cursor).bytes() == old(cursor).bytes(),
            r.is_ok() <==> old(cursor).can_read(IMPORT_DESCRIPTOR_SIZE as int),
            r.is_ok() ==> r.unwrap() == spec_import_descriptor(
                old(cursor).bytes(),
                old(cursor).offset(),
            ) && final(cursor).offset() == old(cursor).offset() + IMPORT_DESCRIPTOR_SIZE,
            r.is_err() ==> r == Err::<ImageImportDescriptor, PEError>(PEError::TruncatedRead),
    {
        let mut descriptor: ImageImportDescriptor = ImageImportDescriptor::new();
        descriptor.import_lookup_table_rva = take_u32(cursor)?;
        descriptor.time_date_stamp = take_u32(cursor)?;
        descriptor.forwarder_chain = take_u32(cursor)?;
        descriptor.name_rva = take_u32(cursor)?;
        descriptor.import_address_table_rva = take_u32(cursor)?;
        Ok(descriptor)
    }

    /// Whether this is the descriptor that ends the directory.
    pub fn is_zeroed_out(&self) -> (b: bool)
        ensures
            b == (*self == spec_zero_descriptor()),
    {
        self.import_lookup_table_rva == 0 && self.time_date_stamp == 0 && self.forwarder_chain
            == 0 && self.name_rva == 0 && self.import_address_table_rva == 0
    }
}

/// The bits of a lookup entry that hold an ordinal.
pub const ORDINAL_MASK: u64 = 0xFFFF;

/// The bits of a lookup entry that hold the address of a hint/name entry.
pub const HINT_NAME_RVA_MASK: u64 = 0x7FF_FFFF;

/// The flag of a 32-bit lookup entry that imports by ordinal.
pub const ORDINAL_FLAG_32: u64 = 0x8000_0000;

/// The flag of a 64-bit lookup entry that imports by ordinal.
pub const ORDINAL_FLAG_64: u64 = 0x8000_0000_0000_0000;

/// One entry of an import lookup table: a symbol by ordinal or by name.
#[derive(Clone, Copy, Debug, PartialEq, Eq, Structural)]
pub struct ImportLookupEntry {
    /// Whether the symbol is imported by ordinal.
    pub by_ordinal: bool,
    /// The ordinal, zero where the symbol is imported by name.
    pub ordinal_number: u16,
    /// The address of the hint/name entry, zero where the symbol is imported by ordinal.
    pub hint_name_table_rva: u32,
}

/// The lookup entry that the raw value `data` encodes, `flag` being the bit
/// that marks an import by ordinal.
pub open spec fn spec_lookup_entry(data: u64, flag: u64) -> ImportLookupEntry {
    if data & flag != 0 {
        ImportLookupEntry {
            by_ordinal: true,
            ordinal_number: (data & ORDINAL_MASK) as u16,
            hint_name_table_rva: 0,
        }
    } else {
        ImportLookupEntry {
            by_ordinal: false,
            ordinal_number: 0,
            hint_name_table_rva: (data & HINT_NAME_RVA_MASK) as u32,
        }
    }
}

/// What decoding a lookup entry at `at` gives, four bytes wide in a 32-bit
/// image and eight bytes wide in a 64-bit one.
pub open spec fn spec_lookup_entry_at(bytes: Seq<u8>, at: int, is_32_bits: bool) -> Result<
    ImportLookupEntry,
    PEError,
> {
    if is_32_bits {
        if spec_in_bounds(bytes.len() as int, at, 4) {
            Ok(spec_lookup_entry(spec_u32_at(bytes, at) as u64, ORDINAL_FLAG_32))
        } else {
            Err(PEError::TruncatedRead)
        }
    } else {
        if spec_in_bounds(bytes.len() as int, at, 8) {
            Ok(spec_lookup_entry(spec_u64_at(bytes, at), ORDINAL_FLAG_64))
        } else {
            Err(PEError::TruncatedRead)
        }
    }
}

/// Splits the raw value of a lookup entry into its fields.
fn decode_lookup(data: u64, flag: u64) -> (e: ImportLookupEntry)
    ensures
        e == spec_lookup_entry(data, flag),
{
    let mut entry: ImportLookupEntry = ImportLookupEntry::new();
    entry.by_ordinal = (data & flag) != 0;
    if entry.by_ordinal {
        let low: u64 = data & ORDINAL_MASK;
        assert(data & 0xFFFF <= 0xFFFF) by (bit_vector);
        entry.ordinal_number = low as u16;
    } else {
        let low: u64 = data & HINT_NAME_RVA_MASK;
        assert(data & 0x7FF_FFFF <= 0x7FF_FFFF) by (bit_vector);
        entry.hint_name_table_rva = low as u32;
    }
    entry
}

impl ImportLookupEntry {
    /// An entry by name with every field zero.
    pub fn new() -> (e: ImportLookupEntry)
        ensures
            e == (ImportLookupEntry { by_ordinal: false, ordinal_number: 0, hint_name_table_rva: 0 }),
    {
        ImportLookupEntry { by_ordinal: false, ordinal_number: 0, hint_name_table_rva: 0 }
    }

    /// Decodes the lookup entry at the cursor and leaves the cursor behind it.
    pub fn from_parser(cursor: &mut Cursor, is_32_bits: bool) -> (r: Result<
        ImportLookupEntry,
        PEError,
    >)
        ensures
            final(cursor).bytes() == old(cursor).bytes(),
            r == spec_lookup_entry_at(old(cursor).bytes(), old(cursor).offset(), is_32_bits),
            r.is_ok() ==> final(cursor).offset() == old(cursor).offset() + (if is_32_bits {
                4int
            } else {
                8int
            }),
    {
        if is_32_bits {
            let data: u32 = take_u32(cursor)?;
            Ok(decode_lookup(data as u64, ORDINAL_FLAG_32))
        } else {
            let data: u64 = take_u64(cursor)?;
            Ok(decode_lookup(data, ORDINAL_FLAG_64))
        }
    }
}

/// Where no zero byte stands in `bytes[at..end]` and one stands at `end`,
/// the bytes up to the first zero byte are `bytes[at..end]`.
pub proof fn lemma_until_nul(bytes: Seq<u8>, at: int, end: int)
    requires
        0 <= at <= end < bytes.len(),
        forall|j: int| at <= j < end ==> bytes[j] != 0,
        bytes[end] == 0,
    ensures
        spec_until_nul(bytes, at) == bytes.subrange(at, end),
    decreases end - at,
{
    if at == end {
        assert(bytes.subrange(at, end) =~= Seq::<u8>::empty());
    } else {
        lemma_until_nul(bytes, at + 1, end);
        assert(bytes.subrange(at, end) =~= seq![bytes[at]] + bytes.subrange(at + 1, end));
    }
}

/// Reads the bytes at the cursor up to the first zero byte, and leaves the
/// cursor behind that zero byte.
pub fn read_until_nul(cursor: &mut Cursor) -> (r: Result<Vec<u8>, PEError>)
    ensures
        final(cursor).bytes() == old(cursor).bytes(),
        r.is_ok() <==> spec_has_nul(old(cursor).bytes(), old(cursor).offset()),
        r.is_ok() ==> r.unwrap()@ == spec_until_nul(old(cursor).bytes(), old(cursor).offset())
            && final(cursor).offset() == old(cursor).offset() + r.unwrap()@.len() + 1,
        r.is_err() ==> r == Err::<Vec<u8>, PEError>(PEError::TruncatedRead),
{
    let ghost bytes = cursor.bytes();
    let ghost at = cursor.offset();
    let mut buffer: Vec<u8> = Vec::new();
    loop
        invariant
            bytes == old(cursor).bytes(),
            at == old(cursor).offset(),
            cursor.bytes() == bytes,
            cursor.offset() == at + buffer@.len(),
            buffer@.len() > 0 ==> cursor.offset() <= bytes.len(),
            forall|j: int| at <= j < cursor.offset() ==> bytes[j] != 0,
            buffer@.len() > 0 ==> buffer@ =~= bytes.subrange(at, cursor.offset() as int),
        decreases bytes.len() - buffer@.len(),
    {
        let c: u8 = match take_u8(cursor) {
            Ok(c) => c,
            Err(e) => {
                assert(!spec_has_nul(bytes, at));
                return Err(e);
            },
        };
        if c == 0 {
            proof {
                lemma_until_nul(bytes, at, at + buffer@.len());
                assert(buffer@ =~= bytes.subrange(at, at + buffer@.len()));
                assert(spec_has_nul(bytes, at));
            }
            return Ok(buffer);
        }
        buffer.push(c);
    }
}

/// One entry of a hint/name table: a symbol imported by name.
#[derive(Clone, Debug, PartialEq, Eq)]
pub struct HintNameEntry {
    /// An index into the export name table of the library.
    pub hint: u16,
    /// The symbol's name.
    pub name: String,
    /// Whether a padding byte follows the name.
    pub pad: bool,
}

/// A hint/name entry as a value.
pub struct HintNameEntryView {
    pub hint: u16,
    pub name: Seq<char>,
    pub pad: bool,
}

impl View for HintNameEntry {
    type V = HintNameEntryView;

    open spec fn view(&self) -> HintNameEntryView {
        HintNameEntryView { hint: self.hint, name: self.name@, pad: self.pad }
    }
}

/// What decoding a hint/name entry at `at` gives: the hint, the name up to
/// its zero byte, and one padding byte where the name's length is odd.
pub open spec fn spec_hint_name_entry(bytes: Seq<u8>, at: int) -> Result<
    HintNameEntryView,
    PEError,
> {
    let name = spec_until_nul(bytes, at + 2);
    let pad = name.len() % 2 != 0;
    if !spec_in_bounds(bytes.len() as int, at, 2) {
        Err(PEError::TruncatedRead)
    } else if !spec_has_nul(bytes, at + 2) {
        Err(PEError::TruncatedRead)
    } else if pad && !spec_in_bounds(bytes.len() as int, at + 2 + name.len() + 1, 1) {
        Err(PEError::TruncatedRead)
    } else if !valid_utf8(name) {
        Err(PEError::InvalidFormat(FormatField::SymbolName))
    } else {
        Ok(HintNameEntryView { hint: spec_u16_at(bytes, at), name: decode_utf8(name), pad })
    }
}

/// The number of bytes that the hint/name entry at `at` takes.
pub open spec fn spec_hint_name_size(bytes: Seq<u8>, at: int) -> int {
    let name = spec_until_nul(bytes, at + 2);
    2 + name.len() + 1 + (if name.len() % 2 != 0 {
        1int
    } else {
        0int
    })
}

impl HintNameEntry {
    /// An entry with hint zero, an empty name and no padding.
    pub fn new() -> (e: HintNameEntry)
        ensures
            e@ == (HintNameEntryView { hint: 0, name: Seq::<char>::empty(), pad: false }),
    {
        HintNameEntry { hint: 0, name: String::new(), pad: false }
    }

    /// Decodes the hint/name entry at the cursor and leaves the cursor behind it.
    pub fn from_parser(cursor: &mut Cursor) -> (r: Result<HintNameEntry, PEError>)
        ensures
            final(cursor).bytes() == old(cursor).bytes(),
            match r {
                Ok(e) => spec_hint_name_entry(old(cursor).bytes(), old(cursor).offset()) == Ok::<
                    HintNameEntryView,
                    PEError,
                >(e@),
                Err(e) => spec_hint_name_entry(old(cursor).bytes(), old(cursor).offset()) == Err::<
                    HintNameEntryView,
                    PEError,
                >(e),
            },
            r.is_ok() ==> final(cursor).offset() == old(cursor).offset() + spec_hint_name_size(
                old(cursor).bytes(),
                old(cursor).offset(),
            ),
    {
        let mut entry: HintNameEntry = HintNameEntry::new();
        entry.hint = take_u16(cursor)?;
        let name_buffer: Vec<u8> = read_until_nul(cursor)?;
        if name_buffer.len() % 2 != 0 {
            let _ = take_u8(cursor)?;
            entry.pad = true;
        } else {
            entry.pad = false;
        }
        entry.name = match string_from_utf8(name_buffer) {
            Some(name) => name,
            None => { return Err(PEError::InvalidFormat(FormatField::SymbolName)); },
        };
        Ok(entry)
    }
}

} // verus!
