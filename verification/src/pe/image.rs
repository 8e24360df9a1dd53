//! A decoded image: its headers, its sections, and the libraries it imports.

use crate::cursor::{spec_in_bounds, Cursor};
use crate::pe::error::{FormatField, PEError};
use crate::pe::headers::{
    spec_coff_fields, spec_coff_zero, spec_dos_header, spec_nt_header, spec_u16_at, spec_u32_at,
    take_u16, COFFHeader, DOSHeader, ImageDataDirectory, NTHeader, DOS_MAGIC, LFANEW_OFFSET,
    NT_HEADER_SIZE,
};
use crate::pe::import::{
    read_until_nul, spec_import_descriptor, spec_zero_descriptor, ImageImportDescriptor,
    IMPORT_DESCRIPTOR_SIZE,
};
use crate::pe::optional::{
    spec_optional_32, spec_optional_32_fields, spec_optional_32_zero, spec_optional_64,
    spec_optional_64_fields, OptionalHeader32, OptionalHeader64, PE_FORMAT_32_MAGIC,
    PE_FORMAT_64_MAGIC,
};
use crate::pe::section::{
    spec_section_header, Section, SectionHeader, SectionHeaderView, SectionView,
    SECTION_HEADER_SIZE,
};
use crate::text::{spec_ends_with, spec_has_nul, spec_until_nul, str_ends_with, string_from_utf8};
use vstd::prelude::*;
use vstd::utf8::{decode_utf8, valid_utf8};

verus! {

/// The headers of a 32-bit image.
#[derive(Clone, Copy, Debug, PartialEq, Eq, Structural)]
pub struct PE32Header {
    pub dos: DOSHeader,
    pub nt: NTHeader,
    pub optional: OptionalHeader32,
}

/// The headers of a 64-bit image.
#[derive(Clone, Copy, Debug, PartialEq, Eq, Structural)]
pub struct PE64Header {
    pub dos: DOSHeader,
    pub nt: NTHeader,
    pub optional: OptionalHeader64,
}

/// The headers of an image, in the width that its optional header selects.
#[derive(Clone, Copy, Debug, PartialEq, Eq, Structural)]
pub enum PEHeader {
    PE32(PE32Header),
    PE64(PE64Header),
}

/// The word size of an image.
#[derive(Clone, Copy, Debug, PartialEq, Eq, Structural)]
pub enum PEArchitecture {
    PE32,
    PE64,
}

impl PEHeader {
    /// The DOS header.
    pub open spec fn spec_dos(self) -> DOSHeader {
        match self {
            PEHeader::PE32(h) => h.dos,
            PEHeader::PE64(h) => h.dos,
        }
    }

    /// The COFF header.
    pub open spec fn spec_coff(self) -> COFFHeader {
        match self {
            PEHeader::PE32(h) => h.nt.coff_header,
            PEHeader::PE64(h) => h.nt.coff_header,
        }
    }

    /// The data-directory slot of the import directory.
    pub open spec fn spec_import_table(self) -> ImageDataDirectory {
        match self {
            PEHeader::PE32(h) => h.optional.import_table,
            PEHeader::PE64(h) => h.optional.import_table,
        }
    }
}

impl Default for PEHeader {
    /// The headers with every field zero, in the 32-bit width.
    fn default() -> (h: PEHeader)
        ensures
            h == spec_zero_header(),
    {
        PEHeader::PE32(
            PE32Header {
                dos: DOSHeader::new(),
                nt: NTHeader::new(),
                optional: OptionalHeader32::new(),
            },
        )
    }
}

/// The headers of an image with every field zero, in the 32-bit width.
pub open spec fn spec_zero_header() -> PEHeader {
    PEHeader::PE32(
        PE32Header {
            dos: DOSHeader { magic: 0, lfanew: 0 },
            nt: NTHeader { signature: 0, coff_header: spec_coff_zero() },
            optional: spec_optional_32_zero(),
        },
    )
}

/// A decoded image.
///
/// No two sections have the same name: a section that is decoded under the
/// name of an earlier one takes its place.
#[derive(Debug)]
pub struct PE {
    pub header: PEHeader,
    pub sections: Vec<Section>,
    pub import_descriptors: Vec<ImageImportDescriptor>,
    /// The names of the imported libraries, as the image spells them.
    pub dll_names: Vec<String>,
}

/// A decoded image as a value.
pub struct PEView {
    pub header: PEHeader,
    pub sections: Seq<SectionView>,
    pub import_descriptors: Seq<ImageImportDescriptor>,
    pub dll_names: Seq<Seq<char>>,
}

/// The sections of `sections` as values.
pub open spec fn spec_section_views(sections: Seq<Section>) -> Seq<SectionView> {
    sections.map_values(|s: Section| s@)
}

/// The texts of `names`.
pub open spec fn spec_name_views(names: Seq<String>) -> Seq<Seq<char>> {
    names.map_values(|s: String| s@)
}

impl View for PE {
    type V = PEView;

    open spec fn view(&self) -> PEView {
        PEView {
            header: self.header,
            sections: spec_section_views(self.sections@),
            import_descriptors: self.import_descriptors@,
            dll_names: spec_name_views(self.dll_names@),
        }
    }
}

/// Whether no two sections of `sections` have the same name.
pub open spec fn spec_distinct_names(sections: Seq<SectionView>) -> bool {
    forall|i: int, j: int|
        0 <= i < j < sections.len() ==> (#[trigger] sections[i]).header.name != (
        #[trigger] sections[j]).header.name
}

/// Whether the virtual range of the section `h` holds `rva`.
pub open spec fn spec_section_contains(h: SectionHeaderView, rva: u32) -> bool {
    h.virtual_address <= rva && rva < h.virtual_address + h.virtual_size
}

/// The file offset of `rva` in the section `h`.
pub open spec fn spec_section_offset(h: SectionHeaderView, rva: u32) -> int {
    h.ptr_to_raw_data + (rva - h.virtual_address)
}

/// Whether `i` is the first section of `sections` whose virtual range holds `rva`.
pub open spec fn spec_first_containing(sections: Seq<SectionView>, rva: u32, i: int) -> bool {
    &&& 0 <= i < sections.len()
    &&& spec_section_contains(sections[i].header, rva)
    &&& forall|j: int| 0 <= j < i ==> !spec_section_contains(#[trigger] sections[j].header, rva)
}

/// The file offset of `rva`: that in the first section whose virtual range
/// holds it, or nothing where no section does.
pub open spec fn spec_rva_to_offset(sections: Seq<SectionView>, rva: u32) -> Option<u64> {
    if exists|i: int| spec_first_containing(sections, rva, i) {
        let i = choose|i: int| spec_first_containing(sections, rva, i);
        Some(spec_section_offset(sections[i].header, rva) as u64)
    } else {
        None
    }
}

/// Where exactly one section holds `rva`, the translation is the offset in
/// that section: its raw-data pointer plus the distance of `rva` from its
/// virtual address.
pub proof fn lemma_rva_in_one_section(sections: Seq<SectionView>, rva: u32, i: int)
    requires
        0 <= i < sections.len(),
        spec_section_contains(sections[i].header, rva),
        forall|j: int|
            0 <= j < sections.len() && j != i ==> !spec_section_contains(
                #[trigger] sections[j].header,
                rva,
            ),
    ensures
        spec_rva_to_offset(sections, rva) == Some(
            (sections[i].header.ptr_to_raw_data + (rva - sections[i].header.virtual_address)) as u64,
        ),
        sections[i].header.ptr_to_raw_data + (rva - sections[i].header.virtual_address)
            <= u64::MAX,
{
    assert(spec_first_containing(sections, rva, i));
    let k = choose|k: int| spec_first_containing(sections, rva, k);
    assert(k == i);
}

/// Where no section holds `rva`, there is no translation.
pub proof fn lemma_rva_in_no_section(sections: Seq<SectionView>, rva: u32)
    requires
        forall|j: int|
            0 <= j < sections.len() ==> !spec_section_contains(#[trigger] sections[j].header, rva),
    ensures
        spec_rva_to_offset(sections, rva).is_none(),
{
}

/// A translation that exists is that of some section which holds `rva`.
pub proof fn lemma_rva_translation_sound(sections: Seq<SectionView>, rva: u32)
    requires
        spec_rva_to_offset(sections, rva).is_some(),
    ensures
        exists|i: int|
            0 <= i < sections.len() && spec_section_contains(
                #[trigger] sections[i].header,
                rva,
            ) && spec_rva_to_offset(sections, rva) == Some(
                spec_section_offset(sections[i].header, rva) as u64,
            ),
{
    let i = choose|i: int| spec_first_containing(sections, rva, i);
    assert(spec_section_contains(sections[i].header, rva));
}

impl PE {
    /// Whether the image is as decoding leaves it: no two of its sections
    /// have the same name, and there is one library name for each import
    /// descriptor.
    pub open spec fn well_formed(&self) -> bool {
        spec_distinct_names(self@.sections) && self@.dll_names.len()
            == self@.import_descriptors.len()
    }

    /// An image with zero headers, no section and no import.
    pub fn new() -> (pe: PE)
        ensures
            pe.well_formed(),
            pe@.header == spec_zero_header(),
            pe@.sections == Seq::<SectionView>::empty(),
            pe@.import_descriptors == Seq::<ImageImportDescriptor>::empty(),
            pe@.dll_names == Seq::<Seq<char>>::empty(),
    {
        let pe = PE {
            header: PEHeader::default(),
            sections: Vec::new(),
            import_descriptors: Vec::new(),
            dll_names: Vec::new(),
        };
        assert(pe@.sections =~= Seq::<SectionView>::empty());
        assert(pe@.dll_names =~= Seq::<Seq<char>>::empty());
        pe
    }

    /// The word size of the image.
    pub fn get_architecture(&self) -> (a: PEArchitecture)
        ensures
            a == (match self.header {
                PEHeader::PE32(_) => PEArchitecture::PE32,
                PEHeader::PE64(_) => PEArchitecture::PE64,
            }),
    {
        match &self.header {
            PEHeader::PE32(_) => PEArchitecture::PE32,
            PEHeader::PE64(_) => PEArchitecture::PE64,
        }
    }

    /// Whether the image is a 32-bit one.
    pub fn is_32_bits(&self) -> (b: bool)
        ensures
            b == (self.header is PE32),
    {
        match &self.header {
            PEHeader::PE32(_) => true,
            PEHeader::PE64(_) => false,
        }
    }

    /// The size of the optional header, as the COFF header declares it.
    pub fn get_size_of_optional_header(&self) -> (n: u64)
        ensures
            n == self.header.spec_coff().size_of_optional_header,
    {
        match &self.header {
            PEHeader::PE32(header) => header.nt.coff_header.size_of_optional_header as u64,
            PEHeader::PE64(header) => header.nt.coff_header.size_of_optional_header as u64,
        }
    }

    /// The number of sections, as the COFF header declares it.
    pub fn get_number_of_sections(&self) -> (n: usize)
        ensures
            n == self.header.spec_coff().number_of_sections,
    {
        match &self.header {
            PEHeader::PE32(header) => header.nt.coff_header.number_of_sections as usize,
            PEHeader::PE64(header) => header.nt.coff_header.number_of_sections as usize,
        }
    }

    /// The data-directory slot of the import directory.
    pub fn get_import_table_idd(&self) -> (idd: ImageDataDirectory)
        ensures
            idd == self.header.spec_import_table(),
    {
        match &self.header {
            PEHeader::PE32(header) => header.optional.import_table,
            PEHeader::PE64(header) => header.optional.import_table,
        }
    }

    /// Translates a relative virtual address to a file offset.
    pub fn convert_rva_to_file_offset(&self, rva: u32) -> (r: Option<u64>)
        ensures
            r == spec_rva_to_offset(self@.sections, rva),
    {
        let ghost views = self@.sections;
        let mut i: usize = 0;
        while i < self.sections.len()
            invariant
                0 <= i <= self.sections.len(),
                views == self@.sections,
                forall|j: int| 0 <= j < i ==> !spec_section_contains(#[trigger] views[j].header, rva),
            decreases self.sections.len() - i,
        {
            let header = &self.sections[i].header;
            let start: u64 = header.virtual_address as u64;
            let end: u64 = start + header.virtual_size as u64;
            if rva as u64 >= start && (rva as u64) < end {
                let offset_in_section: u64 = rva as u64 - start;
                assert(spec_first_containing(views, rva, i as int));
                proof {
                    let k = choose|k: int| spec_first_containing(views, rva, k);
                    assert(k == i);
                }
                return Some(header.ptr_to_raw_data as u64 + offset_in_section);
            }
            i = i + 1;
        }
        None
    }
}

/// The most import descriptors that are read from one image. An image that
/// leaves out the closing zero descriptor is read no further than this.
pub const MAX_IMPORT_DESCRIPTORS: usize = 256;

/// The library-file extension that `parse_pe` asks for when told to check.
pub open spec fn spec_executable_extension() -> Seq<char> {
    ".exe"@
}

/// What decoding the headers of `bytes` gives: the DOS header, the NT header
/// at the offset that the DOS header names, and behind it the optional
/// header in the width that its magic selects.
pub open spec fn spec_pe_header(bytes: Seq<u8>) -> Result<PEHeader, PEError> {
    match spec_dos_header(bytes, 0) {
        Err(e) => Err(e),
        Ok(dos) => match spec_nt_header(bytes, dos.lfanew as int) {
            Err(e) => Err(e),
            Ok(nt) => {
                let at = dos.lfanew + NT_HEADER_SIZE;
                if !spec_in_bounds(bytes.len() as int, at, 2) {
                    Err(PEError::TruncatedRead)
                } else if spec_u16_at(bytes, at) == PE_FORMAT_32_MAGIC {
                    match spec_optional_32(bytes, at) {
                        Ok(optional) => Ok(PEHeader::PE32(PE32Header { dos, nt, optional })),
                        Err(e) => Err(e),
                    }
                } else if spec_u16_at(bytes, at) == PE_FORMAT_64_MAGIC {
                    match spec_optional_64(bytes, at) {
                        Ok(optional) => Ok(PEHeader::PE64(PE64Header { dos, nt, optional })),
                        Err(e) => Err(e),
                    }
                } else {
                    Err(PEError::InvalidFormat(FormatField::OptionalMagic))
                }
            },
        },
    }
}

/// Where the section table starts: behind the optional header, whose size
/// is the one that the COFF header declares.
pub open spec fn spec_section_table_offset(header: PEHeader) -> int {
    header.spec_dos().lfanew + NT_HEADER_SIZE + header.spec_coff().size_of_optional_header
}

/// The bytes that the section `h` owns in the file, or nothing where the
/// file ends before them.
pub open spec fn spec_raw_data(bytes: Seq<u8>, h: SectionHeaderView) -> Option<Seq<u8>> {
    if h.size_of_raw_data == 0 {
        Some(Seq::<u8>::empty())
    } else if h.ptr_to_raw_data + h.size_of_raw_data <= bytes.len() {
        Some(bytes.subrange(h.ptr_to_raw_data as int, h.ptr_to_raw_data + h.size_of_raw_data))
    } else {
        None
    }
}

/// What decoding the section whose header is at `at` gives.
pub open spec fn spec_section(bytes: Seq<u8>, at: int) -> Result<SectionView, PEError> {
    match spec_section_header(bytes, at) {
        Err(e) => Err(e),
        Ok(header) => match spec_raw_data(bytes, header) {
            Some(raw_data) => Ok(SectionView { header, raw_data }),
            None => Err(PEError::TruncatedRead),
        },
    }
}

/// Whether `i` is the first section of `sections` that is named `name`.
pub open spec fn spec_first_named(sections: Seq<SectionView>, name: Seq<char>, i: int) -> bool {
    &&& 0 <= i < sections.len()
    &&& sections[i].header.name == name
    &&& forall|j: int| 0 <= j < i ==> (#[trigger] sections[j]).header.name != name
}

/// `sections` with `section` added: in the place of the section of the same
/// name where there is one, at the end where there is none.
pub open spec fn spec_insert_section(sections: Seq<SectionView>, section: SectionView) -> Seq<
    SectionView,
> {
    if exists|i: int| spec_first_named(sections, section.header.name, i) {
        let i = choose|i: int| spec_first_named(sections, section.header.name, i);
        sections.update(i, section)
    } else {
        sections.push(section)
    }
}

/// Adding a section keeps the names distinct.
pub proof fn lemma_insert_keeps_names_distinct(sections: Seq<SectionView>, section: SectionView)
    requires
        spec_distinct_names(sections),
    ensures
        spec_distinct_names(spec_insert_section(sections, section)),
{
    let after = spec_insert_section(sections, section);
    if exists|i: int| spec_first_named(sections, section.header.name, i) {
        let i = choose|i: int| spec_first_named(sections, section.header.name, i);
        assert forall|a: int, b: int| 0 <= a < b < after.len() implies (#[trigger] after[a]).header.name
            != (#[trigger] after[b]).header.name by {
            assert(sections[a].header.name != sections[b].header.name);
        }
    } else {
        assert forall|a: int, b: int| 0 <= a < b < after.len() implies (#[trigger] after[a]).header.name
            != (#[trigger] after[b]).header.name by {
            if b == sections.len() {
                assert(!spec_first_named(sections, section.header.name, a));
                lemma_unnamed_everywhere(sections, section.header.name, a);
            } else {
                assert(sections[a].header.name != sections[b].header.name);
            }
        }
    }
}

/// Where no section is the first of a name, no section has the name.
pub proof fn lemma_unnamed_everywhere(sections: Seq<SectionView>, name: Seq<char>, upto: int)
    requires
        !(exists|i: int| spec_first_named(sections, name, i)),
        0 <= upto < sections.len(),
    ensures
        sections[upto].header.name != name,
    decreases upto,
{
    if sections[upto].header.name == name {
        if forall|j: int| 0 <= j < upto ==> (#[trigger] sections[j]).header.name != name {
            assert(spec_first_named(sections, name, upto));
        } else {
            let j = choose|j: int| 0 <= j < upto && (#[trigger] sections[j]).header.name == name;
            lemma_unnamed_everywhere(sections, name, j);
        }
    }
}

/// The sections of a decoded section table have distinct names.
pub proof fn lemma_section_table_names_distinct(bytes: Seq<u8>, at: int, count: nat)
    requires
        spec_section_table(bytes, at, count).is_ok(),
    ensures
        spec_distinct_names(spec_section_table(bytes, at, count).unwrap()),
    decreases count,
{
    if count > 0 {
        lemma_section_table_names_distinct(bytes, at, (count - 1) as nat);
        lemma_insert_keeps_names_distinct(
            spec_section_table(bytes, at, (count - 1) as nat).unwrap(),
            spec_section(bytes, at + SECTION_HEADER_SIZE * (count - 1)).unwrap(),
        );
    }
}

/// A list of library names that can be read has one name for each descriptor.
pub proof fn lemma_dll_names_length(
    bytes: Seq<u8>,
    sections: Seq<SectionView>,
    descriptors: Seq<ImageImportDescriptor>,
)
    requires
        spec_dll_names(bytes, sections, descriptors).is_ok(),
    ensures
        spec_dll_names(bytes, sections, descriptors).unwrap().len() == descriptors.len(),
    decreases descriptors.len(),
{
    if descriptors.len() > 0 {
        lemma_dll_names_length(bytes, sections, descriptors.drop_last());
    }
}

/// What decoding the `count` sections whose headers start at `at` gives.
pub open spec fn spec_section_table(bytes: Seq<u8>, at: int, count: nat) -> Result<
    Seq<SectionView>,
    PEError,
>
    decreases count,
{
    if count == 0 {
        Ok(Seq::<SectionView>::empty())
    } else {
        match spec_section_table(bytes, at, (count - 1) as nat) {
            Err(e) => Err(e),
            Ok(sections) => match spec_section(bytes, at + SECTION_HEADER_SIZE * (count - 1)) {
                Err(e) => Err(e),
                Ok(section) => Ok(spec_insert_section(sections, section)),
            },
        }
    }
}

/// `r` with `prefix` in front of what it holds.
pub open spec fn spec_prepend(
    prefix: Seq<ImageImportDescriptor>,
    r: Result<Seq<ImageImportDescriptor>, PEError>,
) -> Result<Seq<ImageImportDescriptor>, PEError> {
    match r {
        Ok(rest) => Ok(prefix + rest),
        Err(e) => Err(e),
    }
}

/// The import descriptors that start at `at`: those in front of the first
/// descriptor that is all zero, and no more than `limit` of them.
pub open spec fn spec_import_descriptors(bytes: Seq<u8>, at: int, limit: nat) -> Result<
    Seq<ImageImportDescriptor>,
    PEError,
>
    decreases limit,
{
    if limit == 0 {
        Ok(Seq::<ImageImportDescriptor>::empty())
    } else if !spec_in_bounds(bytes.len() as int, at, IMPORT_DESCRIPTOR_SIZE as int) {
        Err(PEError::TruncatedRead)
    } else if spec_import_descriptor(bytes, at) == spec_zero_descriptor() {
        Ok(Seq::<ImageImportDescriptor>::empty())
    } else {
        spec_prepend(
            seq![spec_import_descriptor(bytes, at)],
            spec_import_descriptors(bytes, at + IMPORT_DESCRIPTOR_SIZE, (limit - 1) as nat),
        )
    }
}

/// The import directory of an image: the descriptors at the file offset of
/// the relative virtual address `rva`.
pub open spec fn spec_import_directory(bytes: Seq<u8>, sections: Seq<SectionView>, rva: u32)
    -> Result<Seq<ImageImportDescriptor>, PEError> {
    match spec_rva_to_offset(sections, rva) {
        None => Err(PEError::UnmappedRVA),
        Some(offset) => spec_import_descriptors(
            bytes,
            offset as int,
            MAX_IMPORT_DESCRIPTORS as nat,
        ),
    }
}

/// The name of the library that `descriptor` imports: the text up to the
/// first zero byte at the file offset of its name address.
pub open spec fn spec_dll_name(
    bytes: Seq<u8>,
    sections: Seq<SectionView>,
    descriptor: ImageImportDescriptor,
) -> Result<Seq<char>, PEError> {
    match spec_rva_to_offset(sections, descriptor.name_rva) {
        None => Err(PEError::UnmappedRVA),
        Some(offset) => if !spec_has_nul(bytes, offset as int) {
            Err(PEError::TruncatedRead)
        } else if !valid_utf8(spec_until_nul(bytes, offset as int)) {
            Err(PEError::InvalidFormat(FormatField::LibraryName))
        } else {
            Ok(decode_utf8(spec_until_nul(bytes, offset as int)))
        },
    }
}

/// The names of the libraries that `descriptors` import, in their order.
pub open spec fn spec_dll_names(
    bytes: Seq<u8>,
    sections: Seq<SectionView>,
    descriptors: Seq<ImageImportDescriptor>,
) -> Result<Seq<Seq<char>>, PEError>
    decreases descriptors.len(),
{
    if descriptors.len() == 0 {
        Ok(Seq::<Seq<char>>::empty())
    } else {
        match spec_dll_names(bytes, sections, descriptors.drop_last()) {
            Err(e) => Err(e),
            Ok(names) => match spec_dll_name(bytes, sections, descriptors.last()) {
                Err(e) => Err(e),
                Ok(name) => Ok(names.push(name)),
            },
        }
    }
}

/// What decoding the image `bytes` gives.
#[verifier::opaque]
pub open spec fn spec_parse(bytes: Seq<u8>) -> Result<PEView, PEError> {
    match spec_pe_header(bytes) {
        Err(e) => Err(e),
        Ok(header) => match spec_section_table(
            bytes,
            spec_section_table_offset(header),
            header.spec_coff().number_of_sections as nat,
        ) {
            Err(e) => Err(e),
            Ok(sections) => match spec_import_directory(
                bytes,
                sections,
                header.spec_import_table().virtual_address,
            ) {
                Err(e) => Err(e),
                Ok(import_descriptors) => match spec_dll_names(
                    bytes,
                    sections,
                    import_descriptors,
                ) {
                    Err(e) => Err(e),
                    Ok(dll_names) => Ok(
                        PEView { header, sections, import_descriptors, dll_names },
                    ),
                },
            },
        },
    }
}

/// What decoding the file at `path` gives: `contents` are its bytes, or
/// nothing where there is no such file.
pub open spec fn spec_parse_file(
    path: Seq<char>,
    contents: Option<Seq<u8>>,
    check_extension: bool,
) -> Result<PEView, PEError> {
    match contents {
        None => Err(PEError::NotFound),
        Some(bytes) => if check_extension && !spec_ends_with(path, spec_executable_extension()) {
            Err(PEError::InvalidFormat(FormatField::Extension))
        } else {
            spec_parse(bytes)
        },
    }
}

/// Whether `r` is the outcome `expected`, the image taken by its view.
pub open spec fn spec_parse_outcome(r: Result<PE, PEError>, expected: Result<PEView, PEError>)
    -> bool {
    match r {
        Ok(pe) => expected == Ok::<PEView, PEError>(pe@),
        Err(e) => expected == Err::<PEView, PEError>(e),
    }
}

/// Whether `r` is the outcome `expected`, each section taken by its view.
pub open spec fn spec_sections_outcome(
    r: Result<Vec<Section>, PEError>,
    expected: Result<Seq<SectionView>, PEError>,
) -> bool {
    match r {
        Ok(v) => expected == Ok::<Seq<SectionView>, PEError>(spec_section_views(v@)),
        Err(e) => expected == Err::<Seq<SectionView>, PEError>(e),
    }
}

/// Whether `r` is the outcome `expected`.
pub open spec fn spec_descriptors_outcome(
    r: Result<Vec<ImageImportDescriptor>, PEError>,
    expected: Result<Seq<ImageImportDescriptor>, PEError>,
) -> bool {
    match r {
        Ok(v) => expected == Ok::<Seq<ImageImportDescriptor>, PEError>(v@),
        Err(e) => expected == Err::<Seq<ImageImportDescriptor>, PEError>(e),
    }
}

/// Whether `r` is the outcome `expected`, each name taken by its text.
pub open spec fn spec_names_outcome(
    r: Result<Vec<String>, PEError>,
    expected: Result<Seq<Seq<char>>, PEError>,
) -> bool {
    match r {
        Ok(v) => expected == Ok::<Seq<Seq<char>>, PEError>(spec_name_views(v@)),
        Err(e) => expected == Err::<Seq<Seq<char>>, PEError>(e),
    }
}

/// Decodes the headers of the image, from its first byte on, and leaves the
/// cursor at the section table.
pub fn parse_header(cursor: &mut Cursor) -> (r: Result<PEHeader, PEError>)
    ensures
        final(cursor).bytes() == old(cursor).bytes(),
        r == spec_pe_header(old(cursor).bytes()),
        r.is_ok() ==> final(cursor).offset() == spec_section_table_offset(r.unwrap()),
{
    cursor.seek(0);
    let dos_header: DOSHeader = DOSHeader::from_parser(cursor)?;
    cursor.seek(dos_header.lfanew as u64);
    let nt_header: NTHeader = NTHeader::from_parser(cursor)?;
    let start_of_optional: u64 = cursor.position();
    let optional_magic: u16 = take_u16(cursor)?;
    cursor.seek(start_of_optional);
    let header: PEHeader = if optional_magic == PE_FORMAT_32_MAGIC {
        let optional: OptionalHeader32 = OptionalHeader32::from_parser(cursor)?;
        PEHeader::PE32(PE32Header { dos: dos_header, nt: nt_header, optional })
    } else if optional_magic == PE_FORMAT_64_MAGIC {
        let optional: OptionalHeader64 = OptionalHeader64::from_parser(cursor)?;
        PEHeader::PE64(PE64Header { dos: dos_header, nt: nt_header, optional })
    } else {
        return Err(PEError::InvalidFormat(FormatField::OptionalMagic));
    };
    cursor.seek(start_of_optional + nt_header.coff_header.size_of_optional_header as u64);
    Ok(header)
}

/// Decodes the section whose header is at the cursor, its raw data
/// included, and leaves the cursor at the next header.
pub fn parse_section(cursor: &mut Cursor) -> (r: Result<Section, PEError>)
    ensures
        final(cursor).bytes() == old(cursor).bytes(),
        match r {
            Ok(s) => spec_section(old(cursor).bytes(), old(cursor).offset()) == Ok::<
                SectionView,
                PEError,
            >(s@),
            Err(e) => spec_section(old(cursor).bytes(), old(cursor).offset()) == Err::<
                SectionView,
                PEError,
            >(e),
        },
        r.is_ok() ==> final(cursor).offset() == old(cursor).offset() + SECTION_HEADER_SIZE,
{
    let header: SectionHeader = SectionHeader::from_parser(cursor)?;
    let after_header: u64 = cursor.position();
    let raw_data: Vec<u8> = if header.size_of_raw_data == 0 {
        Vec::new()
    } else {
        cursor.seek(header.ptr_to_raw_data as u64);
        match cursor.read_exact(header.size_of_raw_data as usize) {
            Ok(data) => data,
            Err(_) => { return Err(PEError::TruncatedRead); },
        }
    };
    cursor.seek(after_header);
    Ok(Section { header, raw_data })
}

/// Adds `section` to `sections`, in the place of the section of the same
/// name where there is one.
pub fn insert_section(sections: &mut Vec<Section>, section: Section)
    ensures
        spec_section_views(final(sections)@) == spec_insert_section(
            spec_section_views(old(sections)@),
            section@,
        ),
        spec_distinct_names(spec_section_views(old(sections)@)) ==> spec_distinct_names(
            spec_section_views(final(sections)@),
        ),
{
    let ghost before = spec_section_views(sections@);
    proof {
        if spec_distinct_names(before) {
            lemma_insert_keeps_names_distinct(before, section@);
        }
    }
    let mut i: usize = 0;
    while i < sections.len()
        invariant
            0 <= i <= sections.len(),
            sections@ == old(sections)@,
            before == spec_section_views(sections@),
            forall|j: int| 0 <= j < i ==> (#[trigger] before[j]).header.name != section@.header.name,
        decreases sections.len() - i,
    {
        if sections[i].header.name == section.header.name {
            proof {
                assert(spec_first_named(before, section@.header.name, i as int));
                let k = choose|k: int| spec_first_named(before, section@.header.name, k);
                assert(k == i);
            }
            sections.set(i, section);
            assert(spec_section_views(sections@) =~= before.update(i as int, section@));
            return ;
        }
        i = i + 1;
    }
    sections.push(section);
    assert(spec_section_views(sections@) =~= before.push(section@));
}

/// Decodes the `count` sections whose headers start at the cursor.
pub fn parse_sections(cursor: &mut Cursor, count: u16) -> (r: Result<Vec<Section>, PEError>)
    ensures
        final(cursor).bytes() == old(cursor).bytes(),
        spec_sections_outcome(
            r,
            spec_section_table(old(cursor).bytes(), old(cursor).offset(), count as nat),
        ),
{
    let ghost bytes = cursor.bytes();
    let ghost at = cursor.offset();
    let mut sections: Vec<Section> = Vec::new();
    let mut i: u16 = 0;
    assert(spec_section_views(sections@) =~= Seq::<SectionView>::empty());
    while i < count
        invariant
            0 <= i <= count,
            bytes == old(cursor).bytes(),
            at == old(cursor).offset(),
            cursor.bytes() == bytes,
            cursor.offset() == at + SECTION_HEADER_SIZE * i,
            spec_section_table(bytes, at, i as nat) == Ok::<Seq<SectionView>, PEError>(
                spec_section_views(sections@),
            ),
        decreases count - i,
    {
        let section: Section = match parse_section(cursor) {
            Ok(section) => section,
            Err(e) => {
                proof {
                    lemma_section_table_fails(bytes, at, i as nat, count as nat);
                }
                return Err(e);
            },
        };
        insert_section(&mut sections, section);
        i = i + 1;
    }
    Ok(sections)
}

/// A section table whose entry `at_index` cannot be decoded, while those in
/// front of it can, cannot be decoded in any greater length, and fails as
/// that entry does.
pub proof fn lemma_section_table_fails(bytes: Seq<u8>, at: int, at_index: nat, count: nat)
    requires
        at_index < count,
        spec_section_table(bytes, at, at_index).is_ok(),
        spec_section(bytes, at + SECTION_HEADER_SIZE * at_index).is_err(),
    ensures
        spec_section_table(bytes, at, count) == Err::<Seq<SectionView>, PEError>(
            spec_section(bytes, at + SECTION_HEADER_SIZE * at_index)->Err_0,
        ),
    decreases count,
{
    if count == at_index + 1 {
    } else {
        lemma_section_table_fails(bytes, at, at_index, (count - 1) as nat);
    }
}

/// Decodes the import directory of `pe`, whose sections and headers are
/// already in place, from the image under the cursor.
pub fn parse_import_descriptors(pe: &PE, cursor: &mut Cursor) -> (r: Result<
    Vec<ImageImportDescriptor>,
    PEError,
>)
    ensures
        final(cursor).bytes() == old(cursor).bytes(),
        spec_descriptors_outcome(
            r,
            spec_import_directory(
                old(cursor).bytes(),
                pe@.sections,
                pe.header.spec_import_table().virtual_address,
            ),
        ),
{
    let ghost bytes = cursor.bytes();
    let mut descriptors: Vec<ImageImportDescriptor> = Vec::new();
    let import_table_idd: ImageDataDirectory = pe.get_import_table_idd();
    let file_offset: u64 = match pe.convert_rva_to_file_offset(import_table_idd.virtual_address) {
        Some(offset) => offset,
        None => { return Err(PEError::UnmappedRVA); },
    };
    cursor.seek(file_offset);
    let ghost whole = spec_import_descriptors(
        bytes,
        file_offset as int,
        MAX_IMPORT_DESCRIPTORS as nat,
    );
    assert(descriptors@ + Seq::<ImageImportDescriptor>::empty() =~= descriptors@);
    while descriptors.len() < MAX_IMPORT_DESCRIPTORS
        invariant
            bytes == old(cursor).bytes(),
            cursor.bytes() == bytes,
            descriptors@.len() <= MAX_IMPORT_DESCRIPTORS,
            whole == spec_import_directory(
                bytes,
                pe@.sections,
                pe.header.spec_import_table().virtual_address,
            ),
            whole == spec_prepend(
                descriptors@,
                spec_import_descriptors(
                    bytes,
                    cursor.offset(),
                    (MAX_IMPORT_DESCRIPTORS - descriptors@.len()) as nat,
                ),
            ),
        decreases MAX_IMPORT_DESCRIPTORS - descriptors@.len(),
    {
        let ghost at = cursor.offset();
        let ghost left = (MAX_IMPORT_DESCRIPTORS - descriptors@.len()) as nat;
        let ghost before = descriptors@;
        let descriptor: ImageImportDescriptor = ImageImportDescriptor::from_parser(cursor)?;
        if descriptor.is_zeroed_out() {
            assert(before + Seq::<ImageImportDescriptor>::empty() =~= before);
            return Ok(descriptors);
        }
        descriptors.push(descriptor);
        proof {
            let rest = spec_import_descriptors(
                bytes,
                at + IMPORT_DESCRIPTOR_SIZE,
                (left - 1) as nat,
            );
            if rest.is_ok() {
                assert(before + (seq![descriptor] + rest.unwrap()) =~= before.push(descriptor)
                    + rest.unwrap());
            }
        }
    }
    assert(descriptors@ + Seq::<ImageImportDescriptor>::empty() =~= descriptors@);
    Ok(descriptors)
}

/// The descriptor number `k` of the import directory that starts at `at`.
pub open spec fn spec_descriptor_at(bytes: Seq<u8>, at: int, k: int) -> ImageImportDescriptor {
    spec_import_descriptor(bytes, at + IMPORT_DESCRIPTOR_SIZE * k)
}

/// Whether descriptor number `k` of the directory at `at` lies inside `bytes`.
pub open spec fn spec_descriptor_in_bounds(bytes: Seq<u8>, at: int, k: int) -> bool {
    spec_in_bounds(
        bytes.len() as int,
        at + IMPORT_DESCRIPTOR_SIZE * k,
        IMPORT_DESCRIPTOR_SIZE as int,
    )
}

/// Decoding stops at the first descriptor that is all zero: of `n`
/// descriptors that are not, with an all-zero one behind them, exactly those
/// `n` are returned, in their order. This holds up to the limit on the
/// number of descriptors; where `n` is the limit itself, the `n` descriptors
/// are returned whatever follows them.
pub proof fn lemma_descriptors_stop_at_zero(bytes: Seq<u8>, at: int, n: nat, limit: nat)
    requires
        n <= limit,
        forall|k: int|
            0 <= k < n ==> #[trigger] spec_descriptor_in_bounds(bytes, at, k)
                && spec_descriptor_at(bytes, at, k) != spec_zero_descriptor(),
        n < limit ==> spec_descriptor_in_bounds(bytes, at, n as int) && spec_descriptor_at(
            bytes,
            at,
            n as int,
        ) == spec_zero_descriptor(),
    ensures
        spec_import_descriptors(bytes, at, limit) == Ok::<Seq<ImageImportDescriptor>, PEError>(
            Seq::new(n, |k: int| spec_descriptor_at(bytes, at, k)),
        ),
    decreases n,
{
    let expected = Seq::new(n, |k: int| spec_descriptor_at(bytes, at, k));
    if n == 0 {
        assert(expected =~= Seq::<ImageImportDescriptor>::empty());
    } else {
        let next = at + IMPORT_DESCRIPTOR_SIZE;
        assert(spec_descriptor_in_bounds(bytes, at, 0));
        assert forall|k: int| 0 <= k < n - 1 implies #[trigger] spec_descriptor_in_bounds(
            bytes,
            next,
            k,
        ) && spec_descriptor_at(bytes, next, k) != spec_zero_descriptor() by {
            assert(spec_descriptor_in_bounds(bytes, at, k + 1));
        }
        if n < limit {
            assert(spec_descriptor_in_bounds(bytes, at, n as int));
        }
        lemma_descriptors_stop_at_zero(bytes, next, (n - 1) as nat, (limit - 1) as nat);
        let rest = Seq::new((n - 1) as nat, |k: int| spec_descriptor_at(bytes, next, k));
        assert(expected =~= seq![spec_import_descriptor(bytes, at)] + rest);
    }
}

/// Decoding keeps every header field as the image spells it: the headers of
/// a decoded image are the little-endian values at their places in `bytes`.
pub proof fn lemma_parse_keeps_header(bytes: Seq<u8>)
    requires
        spec_parse(bytes).is_ok(),
    ensures
        spec_pe_header(bytes) == Ok::<PEHeader, PEError>(spec_parse(bytes).unwrap().header),
        spec_parse(bytes).unwrap().header.spec_dos() == (DOSHeader {
            magic: DOS_MAGIC,
            lfanew: spec_u32_at(bytes, LFANEW_OFFSET as int),
        }),
        spec_parse(bytes).unwrap().header.spec_coff() == spec_coff_fields(
            bytes,
            spec_parse(bytes).unwrap().header.spec_dos().lfanew + 4,
        ),
        match spec_parse(bytes).unwrap().header {
            PEHeader::PE32(h) => h.optional == spec_optional_32_fields(
                bytes,
                h.dos.lfanew + NT_HEADER_SIZE,
            ) && h.optional.magic == PE_FORMAT_32_MAGIC,
            PEHeader::PE64(h) => h.optional == spec_optional_64_fields(
                bytes,
                h.dos.lfanew + NT_HEADER_SIZE,
            ) && h.optional.magic == PE_FORMAT_64_MAGIC,
        },
{
    reveal(spec_parse);
}

/// Reads the name of the library that `descriptor` imports.
pub fn parse_dll_name(pe: &PE, cursor: &mut Cursor, descriptor: &ImageImportDescriptor) -> (r:
    Result<String, PEError>)
    ensures
        final(cursor).bytes() == old(cursor).bytes(),
        match r {
            Ok(name) => spec_dll_name(old(cursor).bytes(), pe@.sections, *descriptor) == Ok::<
                Seq<char>,
                PEError,
            >(name@),
            Err(e) => spec_dll_name(old(cursor).bytes(), pe@.sections, *descriptor) == Err::<
                Seq<char>,
                PEError,
            >(e),
        },
{
    let offset: u64 = match pe.convert_rva_to_file_offset(descriptor.name_rva) {
        Some(offset) => offset,
        None => { return Err(PEError::UnmappedRVA); },
    };
    cursor.seek(offset);
    let name_buffer: Vec<u8> = read_until_nul(cursor)?;
    match string_from_utf8(name_buffer) {
        Some(name) => Ok(name),
        None => Err(PEError::InvalidFormat(FormatField::LibraryName)),
    }
}

/// A list of names that cannot be read for the first `upto` descriptors
/// cannot be read for any more of them, and fails in the same way.
pub proof fn lemma_dll_names_fail(
    bytes: Seq<u8>,
    sections: Seq<SectionView>,
    descriptors: Seq<ImageImportDescriptor>,
    upto: int,
)
    requires
        0 <= upto <= descriptors.len(),
        spec_dll_names(bytes, sections, descriptors.subrange(0, upto)).is_err(),
    ensures
        spec_dll_names(bytes, sections, descriptors) == spec_dll_names(
            bytes,
            sections,
            descriptors.subrange(0, upto),
        ),
    decreases descriptors.len() - upto,
{
    if upto == descriptors.len() {
        assert(descriptors.subrange(0, upto) =~= descriptors);
    } else {
        let longer = descriptors.subrange(0, upto + 1);
        assert(longer.drop_last() =~= descriptors.subrange(0, upto));
        lemma_dll_names_fail(bytes, sections, descriptors, upto + 1);
    }
}

/// Reads the names of the libraries that the import descriptors of `pe`
/// name, from the image under the cursor.
pub fn parse_dll_names(pe: &PE, cursor: &mut Cursor) -> (r: Result<Vec<String>, PEError>)
    ensures
        final(cursor).bytes() == old(cursor).bytes(),
        spec_names_outcome(
            r,
            spec_dll_names(old(cursor).bytes(), pe@.sections, pe@.import_descriptors),
        ),
{
    let ghost bytes = cursor.bytes();
    let ghost descriptors = pe.import_descriptors@;
    let mut dlls: Vec<String> = Vec::new();
    let mut i: usize = 0;
    assert(spec_name_views(dlls@) =~= Seq::<Seq<char>>::empty());
    assert(descriptors.subrange(0, 0) =~= Seq::<ImageImportDescriptor>::empty());
    while i < pe.import_descriptors.len()
        invariant
            0 <= i <= descriptors.len(),
            descriptors == pe.import_descriptors@,
            bytes == old(cursor).bytes(),
            cursor.bytes() == bytes,
            spec_dll_names(bytes, pe@.sections, descriptors.subrange(0, i as int)) == Ok::<
                Seq<Seq<char>>,
                PEError,
            >(spec_name_views(dlls@)),
        decreases descriptors.len() - i,
    {
        let ghost before = spec_name_views(dlls@);
        proof {
            let longer = descriptors.subrange(0, i + 1);
            assert(longer.drop_last() =~= descriptors.subrange(0, i as int));
            assert(longer.last() == descriptors[i as int]);
        }
        let name: String = match parse_dll_name(pe, cursor, &pe.import_descriptors[i]) {
            Ok(name) => name,
            Err(e) => {
                proof {
                    lemma_dll_names_fail(bytes, pe@.sections, descriptors, i + 1);
                }
                return Err(e);
            },
        };
        dlls.push(name);
        assert(spec_name_views(dlls@) =~= before.push(name@));
        i = i + 1;
    }
    assert(descriptors.subrange(0, i as int) =~= descriptors);
    Ok(dlls)
}

/// Decodes the image that `bytes` hold.
pub fn parse_image(bytes: Vec<u8>) -> (r: Result<PE, PEError>)
    ensures
        spec_parse_outcome(r, spec_parse(bytes@)),
        r.is_ok() ==> r.unwrap().well_formed(),
{
    proof {
        reveal(spec_parse);
        let header = spec_pe_header(bytes@);
        if header.is_ok() {
            let at = spec_section_table_offset(header.unwrap());
            let count = header.unwrap().spec_coff().number_of_sections as nat;
            let sections = spec_section_table(bytes@, at, count);
            if sections.is_ok() {
                lemma_section_table_names_distinct(bytes@, at, count);
                let descriptors = spec_import_directory(
                    bytes@,
                    sections.unwrap(),
                    header.unwrap().spec_import_table().virtual_address,
                );
                if descriptors.is_ok() && spec_dll_names(
                    bytes@,
                    sections.unwrap(),
                    descriptors.unwrap(),
                ).is_ok() {
                    lemma_dll_names_length(bytes@, sections.unwrap(), descriptors.unwrap());
                }
            }
        }
    }
    let mut cursor: Cursor = Cursor::new(bytes);
    let header: PEHeader = parse_header(&mut cursor)?;
    let mut pe: PE = PE::new();
    pe.header = header;
    let count: usize = pe.get_number_of_sections();
    pe.sections = parse_sections(&mut cursor, count as u16)?;
    pe.import_descriptors = parse_import_descriptors(&pe, &mut cursor)?;
    pe.dll_names = parse_dll_names(&pe, &mut cursor)?;
    Ok(pe)
}

/// Decodes the file at `file_path`, whose bytes are `contents`; `None`
/// stands for a file that does not exist. With `check_extension` the file
/// name has to end in `.exe`.
pub fn parse_pe(file_path: &str, contents: Option<Vec<u8>>, check_extension: bool) -> (r: Result<
    PE,
    PEError,
>)
    ensures
        r.is_ok() ==> r.unwrap().well_formed(),
        spec_parse_outcome(
            r,
            spec_parse_file(
                file_path@,
                match contents {
                    Some(bytes) => Some(bytes@),
                    None => None,
                },
                check_extension,
            ),
        ),
{
    let bytes: Vec<u8> = match contents {
        Some(bytes) => bytes,
        None => { return Err(PEError::NotFound); },
    };
    if check_extension && !str_ends_with(file_path, ".exe") {
        return Err(PEError::InvalidFormat(FormatField::Extension));
    }
    parse_image(bytes)
}

} // verus!
