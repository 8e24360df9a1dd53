//! The PE/COFF image format: headers, sections and the import directory.

pub mod error;
pub mod headers;
pub mod image;
pub mod import;
pub mod optional;
pub mod section;

pub use error::{FormatField, PEError};
pub use headers::{COFFHeader, DOSHeader, ImageDataDirectory, NTHeader};
pub use image::{PE32Header, PE64Header, PEArchitecture, PEHeader, PE};
pub use import::{HintNameEntry, ImageImportDescriptor, ImportLookupEntry};
pub use optional::{OptionalHeader32, OptionalHeader64};
pub use section::{Section, SectionHeader};
