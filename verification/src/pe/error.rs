//! The ways in which decoding an image can fail.

use vstd::prelude::*;

verus! {

/// The part of an image that did not hold what the format asks for.
#[derive(Clone, Copy, Debug, PartialEq, Eq, Structural)]
pub enum FormatField {
    /// The file name does not end in the executable extension.
    Extension,
    /// The two-byte signature at the start of the DOS header.
    DosMagic,
    /// The four-byte signature at the start of the NT header.
    NtSignature,
    /// The magic of the optional header, which selects its width.
    OptionalMagic,
    /// A section name that is not valid UTF-8.
    SectionName,
    /// An imported library name that is not valid UTF-8.
    LibraryName,
    /// An imported symbol name that is not valid UTF-8.
    SymbolName,
    /// The section that holds the API-Set schema, which the image lacks.
    ApiSetSection,
    /// A name of the API-Set schema that is not well-formed UTF-16.
    ApiSetName,
}

/// Why an image could not be decoded.
#[derive(Clone, Copy, Debug, PartialEq, Eq, Structural)]
pub enum PEError {
    /// There is no file to decode.
    NotFound,
    /// A field holds a value that the format does not allow.
    InvalidFormat(FormatField),
    /// A relative virtual address lies outside every section.
    UnmappedRVA,
    /// The buffer ended in the middle of a structure.
    TruncatedRead,
    /// A section name that is stored in the string table.
    Unsupported,
}

impl PEError {
    /// A sentence that describes the error.
    pub fn message(&self) -> (s: &'static str)
        ensures
            s@ == spec_message(*self),
    {
        match self {
            PEError::NotFound => "File does not exist",
            PEError::InvalidFormat(FormatField::Extension) => "File is not an executable (.exe)",
            PEError::InvalidFormat(FormatField::DosMagic) => "Invalid DOS magic number",
            PEError::InvalidFormat(FormatField::NtSignature) => "Invalid PE signature in NT Header",
            PEError::InvalidFormat(FormatField::OptionalMagic) => "Invalid PE optional header magic",
            PEError::InvalidFormat(FormatField::SectionName) => "Invalid section name found in PE",
            PEError::InvalidFormat(FormatField::LibraryName) => "Invalid name found in import names",
            PEError::InvalidFormat(FormatField::SymbolName) => "Invalid name found in Hint/Name Table",
            PEError::InvalidFormat(FormatField::ApiSetSection) => "Cannot find .apiset section in apiset dll",
            PEError::InvalidFormat(FormatField::ApiSetName) => "Invalid utf-16 name",
            PEError::UnmappedRVA => "RVA does not map to any section",
            PEError::TruncatedRead => "Unexpected end of file",
            PEError::Unsupported => "Section names in the string table are not supported",
        }
    }
}

/// The sentence that `PEError::message` gives for each error.
pub open spec fn spec_message(e: PEError) -> Seq<char> {
    match e {
        PEError::NotFound => "File does not exist"@,
        PEError::InvalidFormat(FormatField::Extension) => "File is not an executable (.exe)"@,
        PEError::InvalidFormat(FormatField::DosMagic) => "Invalid DOS magic number"@,
        PEError::InvalidFormat(FormatField::NtSignature) => "Invalid PE signature in NT Header"@,
        PEError::InvalidFormat(FormatField::OptionalMagic) => "Invalid PE optional header magic"@,
        PEError::InvalidFormat(FormatField::SectionName) => "Invalid section name found in PE"@,
        PEError::InvalidFormat(FormatField::LibraryName) => "Invalid name found in import names"@,
        PEError::InvalidFormat(FormatField::SymbolName) => "Invalid name found in Hint/Name Table"@,
        PEError::InvalidFormat(FormatField::ApiSetSection) => "Cannot find .apiset section in apiset dll"@,
        PEError::InvalidFormat(FormatField::ApiSetName) => "Invalid utf-16 name"@,
        PEError::UnmappedRVA => "RVA does not map to any section"@,
        PEError::TruncatedRead => "Unexpected end of file"@,
        PEError::Unsupported => "Section names in the string table are not supported"@,
    }
}

} // verus!
