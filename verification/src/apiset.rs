//! The API-Set schema: the table that redirects virtual library names to the
//! libraries that implement them.
//!
//! The schema is a PE image with a section named `.apiset`. The section
//! starts with a namespace header, which gives the number of entries and
//! where they start; every offset in it counts from the start of the section.

use crate::cursor::{spec_in_bounds, Cursor};
use crate::pe::error::{FormatField, PEError};
use crate::pe::headers::{spec_u16_at, spec_u32_at, take_u16, take_u32};
use crate::pe::image::{parse_pe, spec_first_named, spec_parse_file, PE};
use crate::pe::section::SectionView;
use crate::text::{
    lemma_lower_idempotent, lemma_lower_of_upper, spec_ascii_lower, spec_ascii_upper,
    spec_starts_with, spec_trim_nul, spec_utf16_decode, str_starts_with, str_to_ascii_lowercase,
    str_trim_end_nul, string_from_utf16,
};
use vstd::prelude::*;
use vstd::slice::slice_to_vec;

verus! {

/// Where the operating system keeps the schema.
pub const APISET_SCHEMA_DLL_PATH: &'static str = "C:\\Windows\\System32\\apisetschema.dll";

/// The number of bytes that a namespace header takes.
pub const NAMESPACE_SIZE: u64 = 28;

/// The number of bytes that a namespace entry takes.
pub const NAMESPACE_ENTRY_SIZE: u64 = 24;

/// The number of bytes that a value entry takes.
pub const VALUE_ENTRY_SIZE: u64 = 20;

/// The header of the schema.
#[derive(Clone, Copy, Debug, PartialEq, Eq, Structural)]
pub struct APISetNamespace {
    pub version: u32,
    pub size: u32,
    pub flags: u32,
    /// The number of namespace entries.
    pub count: u32,
    /// Where the namespace entries start.
    pub entry_offset: u32,
    pub hash_offset: u32,
    pub hash_multiplier: u32,
}

/// The namespace header whose first byte is at `at`.
pub open spec fn spec_namespace_fields(bytes: Seq<u8>, at: int) -> APISetNamespace {
    APISetNamespace {
        version: spec_u32_at(bytes, at),
        size: spec_u32_at(bytes, at + 4),
        flags: spec_u32_at(bytes, at + 8),
        count: spec_u32_at(bytes, at + 12),
        entry_offset: spec_u32_at(bytes, at + 16),
        hash_offset: spec_u32_at(bytes, at + 20),
        hash_multiplier: spec_u32_at(bytes, at + 24),
    }
}

/// What decoding a namespace header at `at` gives.
pub open spec fn spec_namespace(bytes: Seq<u8>, at: int) -> Result<APISetNamespace, PEError> {
    if spec_in_bounds(bytes.len() as int, at, NAMESPACE_SIZE as int) {
        Ok(spec_namespace_fields(bytes, at))
    } else {
        Err(PEError::TruncatedRead)
    }
}

impl APISetNamespace {
    /// A header with every field zero.
    pub fn new() -> (n: APISetNamespace)
        ensures
            n == (APISetNamespace {
                version: 0,
                size: 0,
                flags: 0,
                count: 0,
                entry_offset: 0,
                hash_offset: 0,
                hash_multiplier: 0,
            }),
    {
        APISetNamespace {
            version: 0,
            size: 0,
            flags: 0,
            count: 0,
            entry_offset: 0,
            hash_offset: 0,
            hash_multiplier: 0,
        }
    }

    /// Decodes the namespace header at the cursor and leaves the cursor behind it.
    pub fn from_parser(cursor: &mut Cursor) -> (r: Result<APISetNamespace, PEError>)
        ensures
            final(cursor).bytes() == old(cursor).bytes(),
            r == spec_namespace(old(cursor).bytes(), old(cursor).offset()),
            r.is_ok() ==> final(cursor).offset() == old(cursor).offset() + NAMESPACE_SIZE,
    {
        let mut asn: APISetNamespace = APISetNamespace::new();
        asn.version = take_u32(cursor)?;
        asn.size = take_u32(cursor)?;
        asn.flags = take_u32(cursor)?;
        asn.count = take_u32(cursor)?;
        asn.entry_offset = take_u32(cursor)?;
        asn.hash_offset = take_u32(cursor)?;
        asn.hash_multiplier = take_u32(cursor)?;
        Ok(asn)
    }
}

/// One virtual library name of the schema.
#[derive(Clone, Copy, Debug, PartialEq, Eq, Structural)]
pub struct APISetNamespaceEntry {
    pub flags: u32,
    /// Where the virtual name starts.
    pub name_offset: u32,
    /// The length of the virtual name in bytes.
    pub name_length: u32,
    pub hashed_length: u32,
    /// Where the first value entry starts.
    pub value_offset: u32,
    /// The number of value entries.
    pub value_count: u32,
}

/// The namespace entry whose first byte is at `at`.
pub open spec fn spec_namespace_entry_fields(bytes: Seq<u8>, at: int) -> APISetNamespaceEntry {
    APISetNamespaceEntry {
        flags: spec_u32_at(bytes, at),
        name_offset: spec_u32_at(bytes, at + 4),
        name_length: spec_u32_at(bytes, at + 8),
        hashed_length: spec_u32_at(bytes, at + 12),
        value_offset: spec_u32_at(bytes, at + 16),
        value_count: spec_u32_at(bytes, at + 20),
    }
}

/// What decoding a namespace entry at `at` gives.
pub open spec fn spec_namespace_entry(bytes: Seq<u8>, at: int) -> Result<
    APISetNamespaceEntry,
    PEError,
> {
    if spec_in_bounds(bytes.len() as int, at, NAMESPACE_ENTRY_SIZE as int) {
        Ok(spec_namespace_entry_fields(bytes, at))
    } else {
        Err(PEError::TruncatedRead)
    }
}

impl APISetNamespaceEntry {
    /// An entry with every field zero.
    pub fn new() -> (e: APISetNamespaceEntry)
        ensures
            e == (APISetNamespaceEntry {
                flags: 0,
                name_offset: 0,
                name_length: 0,
                hashed_length: 0,
                value_offset: 0,
                value_count: 0,
            }),
    {
        APISetNamespaceEntry {
            flags: 0,
            name_offset: 0,
            name_length: 0,
            hashed_length: 0,
            value_offset: 0,
            value_count: 0,
        }
    }

    /// Decodes the namespace entry at the cursor and leaves the cursor behind it.
    pub fn from_parser(cursor: &mut Cursor) -> (r: Result<APISetNamespaceEntry, PEError>)
        ensures
            final(cursor).bytes() == old(cursor).bytes(),
            r == spec_namespace_entry(old(cursor).bytes(), old(cursor).offset()),
            r.is_ok() ==> final(cursor).offset() == old(cursor).offset() + NAMESPACE_ENTRY_SIZE,
    {
        let mut asne: APISetNamespaceEntry = APISetNamespaceEntry::new();
        asne.flags = take_u32(cursor)?;
        asne.name_offset = take_u32(cursor)?;
        asne.name_length = take_u32(cursor)?;
        asne.hashed_length = take_u32(cursor)?;
        asne.value_offset = take_u32(cursor)?;
        asne.value_count = take_u32(cursor)?;
        Ok(asne)
    }
}

/// One host library of a virtual name.
#[derive(Clone, Copy, Debug, PartialEq, Eq, Structural)]
pub struct APISetValueEntry {
    pub flags: u32,
    pub name_offset: u32,
    pub name_length: u32,
    /// Where the host library's name starts.
    pub value_offset: u32,
    /// The length of the host library's name in bytes.
    pub value_length: u32,
}

/// The value entry whose first byte is at `at`.
pub open spec fn spec_value_entry_fields(bytes: Seq<u8>, at: int) -> APISetValueEntry {
    APISetValueEntry {
        flags: spec_u32_at(bytes, at),
        name_offset: spec_u32_at(bytes, at + 4),
        name_length: spec_u32_at(bytes, at + 8),
        value_offset: spec_u32_at(bytes, at + 12),
        value_length: spec_u32_at(bytes, at + 16),
    }
}

/// What decoding a value entry at `at` gives.
pub open spec fn spec_value_entry(bytes: Seq<u8>, at: int) -> Result<APISetValueEntry, PEError> {
    if spec_in_bounds(bytes.len() as int, at, VALUE_ENTRY_SIZE as int) {
        Ok(spec_value_entry_fields(bytes, at))
    } else {
        Err(PEError::TruncatedRead)
    }
}

impl APISetValueEntry {
    /// An entry with every field zero.
    pub fn new() -> (e: APISetValueEntry)
        ensures
            e == (APISetValueEntry {
                flags: 0,
                name_offset: 0,
                name_length: 0,
                value_offset: 0,
                value_length: 0,
            }),
    {
        APISetValueEntry { flags: 0, name_offset: 0, name_length: 0, value_offset: 0, value_length: 0 }
    }

    /// Decodes the value entry at the cursor and leaves the cursor behind it.
    pub fn from_parser(cursor: &mut Cursor) -> (r: Result<APISetValueEntry, PEError>)
        ensures
            final(cursor).bytes() == old(cursor).bytes(),
            r == spec_value_entry(old(cursor).bytes(), old(cursor).offset()),
            r.is_ok() ==> final(cursor).offset() == old(cursor).offset() + VALUE_ENTRY_SIZE,
    {
        let mut asve: APISetValueEntry = APISetValueEntry::new();
        asve.flags = take_u32(cursor)?;
        asve.name_offset = take_u32(cursor)?;
        asve.name_length = take_u32(cursor)?;
        asve.value_offset = take_u32(cursor)?;
        asve.value_length = take_u32(cursor)?;
        Ok(asve)
    }
}

/// The map that a list of pairs stands for: each pair maps its first text
/// to its second, and a later pair overrides an earlier one of the same key.
pub open spec fn spec_mapping_of(pairs: Seq<(String, String)>) -> Map<Seq<char>, Seq<char>>
    decreases pairs.len(),
{
    if pairs.len() == 0 {
        Map::<Seq<char>, Seq<char>>::empty()
    } else {
        spec_mapping_of(pairs.drop_last()).insert(pairs.last().0@, pairs.last().1@)
    }
}

/// A key that no pair has is not in the map.
pub proof fn lemma_mapping_without(pairs: Seq<(String, String)>, key: Seq<char>)
    requires
        forall|j: int| 0 <= j < pairs.len() ==> (#[trigger] pairs[j]).0@ != key,
    ensures
        !spec_mapping_of(pairs).contains_key(key),
    decreases pairs.len(),
{
    if pairs.len() > 0 {
        lemma_mapping_without(pairs.drop_last(), key);
    }
}

/// The map gives a key the value of the last pair that has it.
pub proof fn lemma_mapping_last(pairs: Seq<(String, String)>, key: Seq<char>, i: int)
    requires
        0 <= i < pairs.len(),
        pairs[i].0@ == key,
        forall|j: int| i < j < pairs.len() ==> (#[trigger] pairs[j]).0@ != key,
    ensures
        spec_mapping_of(pairs).contains_key(key),
        spec_mapping_of(pairs)[key] == pairs[i].1@,
    decreases pairs.len(),
{
    if i < pairs.len() - 1 {
        lemma_mapping_last(pairs.drop_last(), key, i);
    }
}

/// What the table `m` gives for the library name `name`, whatever the case
/// of its letters.
pub open spec fn spec_lookup(m: Map<Seq<char>, Seq<char>>, name: Seq<char>) -> Option<Seq<char>> {
    if m.contains_key(spec_ascii_lower(name)) {
        Some(m[spec_ascii_lower(name)])
    } else {
        None
    }
}

/// A lookup does not depend on the case of the name: the name in upper
/// case, in lower case and as it is all give the same.
pub proof fn lemma_lookup_case_insensitive(m: Map<Seq<char>, Seq<char>>, name: Seq<char>)
    ensures
        spec_lookup(m, spec_ascii_upper(name)) == spec_lookup(m, spec_ascii_lower(name)),
        spec_lookup(m, spec_ascii_lower(name)) == spec_lookup(m, name),
{
    lemma_lower_of_upper(name);
    lemma_lower_idempotent(name);
}

/// Whether every name and every host of the table `m` is in lower case.
pub open spec fn spec_lower_entries(m: Map<Seq<char>, Seq<char>>) -> bool {
    forall|name: Seq<char>| #[trigger]
        m.contains_key(name) ==> spec_ascii_lower(name) == name && spec_ascii_lower(m[name])
            == m[name]
}

/// Whether `name` follows the naming convention of virtual libraries: in
/// lower case it starts with `api-` or with `ext-`.
pub open spec fn spec_is_virtual_name(name: Seq<char>) -> bool {
    spec_starts_with(spec_ascii_lower(name), "api-"@) || spec_starts_with(
        spec_ascii_lower(name),
        "ext-"@,
    )
}

/// Whether `name` follows the naming convention of virtual libraries, so
/// that it is to be looked up in the schema.
pub fn is_dll_from_apiset_schema(name: &str) -> (b: bool)
    ensures
        b == spec_is_virtual_name(name@),
{
    let lower: String = str_to_ascii_lowercase(name);
    str_starts_with(lower.as_str(), "api-") || str_starts_with(lower.as_str(), "ext-")
}

/// The table from virtual library names to host libraries. Its names and
/// hosts are in lower case.
#[derive(Clone, Debug)]
pub struct APISet {
    mapping: Vec<(String, String)>,
}

impl View for APISet {
    type V = Map<Seq<char>, Seq<char>>;

    closed spec fn view(&self) -> Map<Seq<char>, Seq<char>> {
        spec_mapping_of(self.mapping@)
    }
}

impl APISet {
    /// Whether every name and every host of the table is in lower case.
    pub open spec fn well_formed(&self) -> bool {
        spec_lower_entries(self@)
    }

    /// The empty table.
    pub fn new() -> (a: APISet)
        ensures
            a.well_formed(),
            a@ == Map::<Seq<char>, Seq<char>>::empty(),
    {
        APISet { mapping: Vec::new() }
    }

    /// Maps `name` to `host`, both taken in lower case, in place of what
    /// `name` was mapped to before.
    pub fn insert(&mut self, name: String, host: String)
        ensures
            final(self)@ == old(self)@.insert(spec_ascii_lower(name@), spec_ascii_lower(host@)),
            old(self).well_formed() ==> final(self).well_formed(),
    {
        let ghost before = self.mapping@;
        let lower_name: String = str_to_ascii_lowercase(name.as_str());
        let lower_host: String = str_to_ascii_lowercase(host.as_str());
        self.mapping.push((lower_name, lower_host));
        proof {
            assert(self.mapping@.drop_last() =~= before);
            lemma_lower_idempotent(name@);
            lemma_lower_idempotent(host@);
        }
    }

    /// The host of the key `key`, taken as it is.
    fn lookup(&self, key: &String) -> (r: Option<&String>)
        ensures
            match r {
                Some(host) => self@.contains_key(key@) && self@[key@] == host@,
                None => !self@.contains_key(key@),
            },
    {
        let mut i: usize = self.mapping.len();
        while i > 0
            invariant
                0 <= i <= self.mapping@.len(),
                forall|j: int| i <= j < self.mapping@.len() ==> (#[trigger] self.mapping@[j]).0@ != key@,
            decreases i,
        {
            i = i - 1;
            if self.mapping[i].0 == *key {
                proof {
                    lemma_mapping_last(self.mapping@, key@, i as int);
                }
                return Some(&self.mapping[i].1);
            }
        }
        proof {
            lemma_mapping_without(self.mapping@, key@);
        }
        None
    }

    /// The host library of the virtual library `dll_name`, whatever the case
    /// of its letters, or nothing where the table does not hold it.
    pub fn map(&self, dll_name: &String) -> (r: Option<&String>)
        ensures
            match r {
                Some(host) => spec_lookup(self@, dll_name@) == Some(host@),
                None => spec_lookup(self@, dll_name@).is_none(),
            },
    {
        let lower: String = str_to_ascii_lowercase(dll_name.as_str());
        self.lookup(&lower)
    }
}

/// The host library of the virtual library `name` in `apiset`.
pub fn find_dll(name: &str, apiset: &APISet) -> (r: Option<String>)
    ensures
        match r {
            Some(host) => spec_lookup(apiset@, name@) == Some(host@),
            None => spec_lookup(apiset@, name@).is_none(),
        },
{
    let lower: String = str_to_ascii_lowercase(name);
    match apiset.lookup(&lower) {
        Some(host) => Some(host.clone()),
        None => None,
    }
}

/// The UTF-16 code units that `bytes` hold, two bytes each, least
/// significant first.
pub open spec fn spec_utf16_units(bytes: Seq<u8>) -> Seq<u16> {
    Seq::new((bytes.len() / 2) as nat, |i: int| spec_u16_at(bytes, 2 * i))
}

/// The name that the schema `data` holds in `length` bytes at `offset`:
/// decoded from UTF-16, without the zero characters at its end, in lower case.
pub open spec fn spec_utf16_text(data: Seq<u8>, offset: u32, length: u32) -> Result<
    Seq<char>,
    PEError,
> {
    let raw = data.subrange(offset as int, offset + length);
    if !spec_in_bounds(data.len() as int, offset as int, length as int) {
        Err(PEError::TruncatedRead)
    } else if length % 2 != 0 {
        Err(PEError::InvalidFormat(FormatField::ApiSetName))
    } else {
        match spec_utf16_decode(spec_utf16_units(raw)) {
            None => Err(PEError::InvalidFormat(FormatField::ApiSetName)),
            Some(text) => Ok(spec_ascii_lower(spec_trim_nul(text))),
        }
    }
}

/// What the namespace entry at `at` adds to the table: a virtual name and
/// its host, or nothing where the entry has no value.
pub open spec fn spec_apiset_entry(data: Seq<u8>, at: int) -> Result<
    Option<(Seq<char>, Seq<char>)>,
    PEError,
> {
    match spec_namespace_entry(data, at) {
        Err(e) => Err(e),
        Ok(entry) => match spec_utf16_text(data, entry.name_offset, entry.name_length) {
            Err(e) => Err(e),
            Ok(name) => if entry.value_count == 0 {
                Ok(None)
            } else {
                match spec_value_entry(data, entry.value_offset as int) {
                    Err(e) => Err(e),
                    Ok(value) => match spec_utf16_text(
                        data,
                        value.value_offset,
                        value.value_length,
                    ) {
                        Err(e) => Err(e),
                        Ok(host) => Ok(Some((name, host))),
                    },
                }
            },
        },
    }
}

/// The names that a namespace entry adds to the table are in lower case.
pub proof fn lemma_entry_is_lower(data: Seq<u8>, at: int)
    requires
        spec_apiset_entry(data, at).is_ok(),
        spec_apiset_entry(data, at).unwrap().is_some(),
    ensures
        spec_ascii_lower(spec_apiset_entry(data, at).unwrap().unwrap().0) == spec_apiset_entry(
            data,
            at,
        ).unwrap().unwrap().0,
        spec_ascii_lower(spec_apiset_entry(data, at).unwrap().unwrap().1) == spec_apiset_entry(
            data,
            at,
        ).unwrap().unwrap().1,
{
    let entry = spec_namespace_entry(data, at).unwrap();
    let name_units = spec_utf16_units(
        data.subrange(entry.name_offset as int, entry.name_offset + entry.name_length),
    );
    lemma_lower_idempotent(spec_trim_nul(spec_utf16_decode(name_units).unwrap()));
    let value = spec_value_entry(data, entry.value_offset as int).unwrap();
    let host_units = spec_utf16_units(
        data.subrange(value.value_offset as int, value.value_offset + value.value_length),
    );
    lemma_lower_idempotent(spec_trim_nul(spec_utf16_decode(host_units).unwrap()));
}

/// The table that the `count` namespace entries from `at` on build up.
pub open spec fn spec_apiset_entries(data: Seq<u8>, at: int, count: nat) -> Result<
    Map<Seq<char>, Seq<char>>,
    PEError,
>
    decreases count,
{
    if count == 0 {
        Ok(Map::<Seq<char>, Seq<char>>::empty())
    } else {
        match spec_apiset_entries(data, at, (count - 1) as nat) {
            Err(e) => Err(e),
            Ok(m) => match spec_apiset_entry(data, at + NAMESPACE_ENTRY_SIZE * (count - 1)) {
                Err(e) => Err(e),
                Ok(None) => Ok(m),
                Ok(Some(pair)) => Ok(m.insert(pair.0, pair.1)),
            },
        }
    }
}

/// The name of the section that holds the schema.
pub open spec fn spec_apiset_section_name() -> Seq<char> {
    ".apiset"@
}

/// The table that the sections of a schema image hold.
pub open spec fn spec_parse_apiset(sections: Seq<SectionView>) -> Result<
    Map<Seq<char>, Seq<char>>,
    PEError,
> {
    if exists|i: int| spec_first_named(sections, spec_apiset_section_name(), i) {
        let i = choose|i: int| spec_first_named(sections, spec_apiset_section_name(), i);
        let data = sections[i].raw_data;
        match spec_namespace(data, 0) {
            Err(e) => Err(e),
            Ok(namespace) => spec_apiset_entries(
                data,
                namespace.entry_offset as int,
                namespace.count as nat,
            ),
        }
    } else {
        Err(PEError::InvalidFormat(FormatField::ApiSetSection))
    }
}

/// Whether `r` is the outcome `expected`, the table taken by its view.
pub open spec fn spec_apiset_outcome(
    r: Result<APISet, PEError>,
    expected: Result<Map<Seq<char>, Seq<char>>, PEError>,
) -> bool {
    match r {
        Ok(a) => expected == Ok::<Map<Seq<char>, Seq<char>>, PEError>(a@),
        Err(e) => expected == Err::<Map<Seq<char>, Seq<char>>, PEError>(e),
    }
}

/// The code units that `raw` holds, two bytes each; a last byte without a
/// second one is left out.
pub fn utf16_units(raw: Vec<u8>) -> (units: Vec<u16>)
    ensures
        units@ == spec_utf16_units(raw@),
{
    let ghost bytes = raw@;
    let mut cursor: Cursor = Cursor::new(raw);
    let mut units: Vec<u16> = Vec::new();
    loop
        invariant
            bytes == raw@,
            cursor.bytes() == bytes,
            cursor.offset() == 2 * units@.len(),
            cursor.offset() <= bytes.len(),
            forall|k: int| 0 <= k < units@.len() ==> units@[k] == spec_u16_at(bytes, 2 * k),
        decreases bytes.len() - cursor.offset(),
    {
        match take_u16(&mut cursor) {
            Ok(unit) => {
                units.push(unit);
            },
            Err(_) => {
                assert(units@ =~= spec_utf16_units(bytes));
                return units;
            },
        }
    }
}

/// Reads the name that the schema holds in `length` bytes at `offset`.
pub fn read_utf16_text(cursor: &mut Cursor, offset: u32, length: u32) -> (r: Result<
    String,
    PEError,
>)
    ensures
        final(cursor).bytes() == old(cursor).bytes(),
        match r {
            Ok(text) => spec_utf16_text(old(cursor).bytes(), offset, length) == Ok::<
                Seq<char>,
                PEError,
            >(text@),
            Err(e) => spec_utf16_text(old(cursor).bytes(), offset, length) == Err::<
                Seq<char>,
                PEError,
            >(e),
        },
{
    cursor.seek(offset as u64);
    let raw: Vec<u8> = match cursor.read_exact(length as usize) {
        Ok(raw) => raw,
        Err(_) => { return Err(PEError::TruncatedRead); },
    };
    if raw.len() % 2 != 0 {
        return Err(PEError::InvalidFormat(FormatField::ApiSetName));
    }
    let units: Vec<u16> = utf16_units(raw);
    let text: String = match string_from_utf16(&units) {
        Some(text) => text,
        None => { return Err(PEError::InvalidFormat(FormatField::ApiSetName)); },
    };
    Ok(normalize_name(text.as_str()))
}

/// The form in which the table keeps the name `text`: without the zero
/// characters at its end, in lower case.
pub fn normalize_name(text: &str) -> (r: String)
    ensures
        r@ == spec_ascii_lower(spec_trim_nul(text@)),
{
    let trimmed: &str = str_trim_end_nul(text);
    str_to_ascii_lowercase(trimmed)
}

/// Decodes the namespace entry at the cursor, with the names that it points
/// at, and leaves the cursor at the next entry.
pub fn parse_apiset_entry(cursor: &mut Cursor) -> (r: Result<Option<(String, String)>, PEError>)
    ensures
        final(cursor).bytes() == old(cursor).bytes(),
        match r {
            Ok(Some(pair)) => spec_apiset_entry(old(cursor).bytes(), old(cursor).offset())
                == Ok::<Option<(Seq<char>, Seq<char>)>, PEError>(Some((pair.0@, pair.1@))),
            Ok(None) => spec_apiset_entry(old(cursor).bytes(), old(cursor).offset()) == Ok::<
                Option<(Seq<char>, Seq<char>)>,
                PEError,
            >(None),
            Err(e) => spec_apiset_entry(old(cursor).bytes(), old(cursor).offset()) == Err::<
                Option<(Seq<char>, Seq<char>)>,
                PEError,
            >(e),
        },
        r.is_ok() ==> final(cursor).offset() == old(cursor).offset() + NAMESPACE_ENTRY_SIZE,
{
    let asne: APISetNamespaceEntry = APISetNamespaceEntry::from_parser(cursor)?;
    let next_entry: u64 = cursor.position();
    let api_set_name: String = read_utf16_text(cursor, asne.name_offset, asne.name_length)?;
    if asne.value_count == 0 {
        cursor.seek(next_entry);
        return Ok(None);
    }
    cursor.seek(asne.value_offset as u64);
    let asve: APISetValueEntry = APISetValueEntry::from_parser(cursor)?;
    let host_dll_name: String = read_utf16_text(cursor, asve.value_offset, asve.value_length)?;
    cursor.seek(next_entry);
    Ok(Some((api_set_name, host_dll_name)))
}

/// A schema whose entry `at_index` cannot be decoded, while those in front
/// of it can, cannot be decoded in any greater length, and fails as that
/// entry does.
pub proof fn lemma_apiset_entries_fail(data: Seq<u8>, at: int, at_index: nat, count: nat)
    requires
        at_index < count,
        spec_apiset_entries(data, at, at_index).is_ok(),
        spec_apiset_entry(data, at + NAMESPACE_ENTRY_SIZE * at_index).is_err(),
    ensures
        spec_apiset_entries(data, at, count) == Err::<Map<Seq<char>, Seq<char>>, PEError>(
            spec_apiset_entry(data, at + NAMESPACE_ENTRY_SIZE * at_index)->Err_0,
        ),
    decreases count,
{
    if count > at_index + 1 {
        lemma_apiset_entries_fail(data, at, at_index, (count - 1) as nat);
    }
}

/// Builds the table from the `.apiset` section of a decoded schema image.
pub fn parse_apiset(apiset_dll: &PE) -> (r: Result<APISet, PEError>)
    ensures
        spec_apiset_outcome(r, spec_parse_apiset(apiset_dll@.sections)),
        r.is_ok() ==> r.unwrap().well_formed(),
{
    let ghost sections = apiset_dll@.sections;
    let needle: String = ".apiset".to_owned();
    let mut found: Option<usize> = None;
    let mut i: usize = 0;
    while i < apiset_dll.sections.len() && found.is_none()
        invariant
            0 <= i <= apiset_dll.sections@.len(),
            sections == apiset_dll@.sections,
            needle@ == spec_apiset_section_name(),
            found.is_none() ==> forall|j: int|
                0 <= j < i ==> (#[trigger] sections[j]).header.name != needle@,
            found.is_some() ==> spec_first_named(sections, needle@, found.unwrap() as int),
        decreases apiset_dll.sections@.len() - i + (if found.is_none() { 1int } else { 0int }),
    {
        if apiset_dll.sections[i].header.name == needle {
            found = Some(i);
        } else {
            i = i + 1;
        }
    }
    let index: usize = match found {
        Some(index) => index,
        None => { return Err(PEError::InvalidFormat(FormatField::ApiSetSection)); },
    };
    proof {
        let k = choose|k: int| spec_first_named(sections, spec_apiset_section_name(), k);
        assert(k == index);
    }
    let data: Vec<u8> = slice_to_vec(apiset_dll.sections[index].raw_data.as_slice());
    let ghost bytes = data@;
    let mut cursor: Cursor = Cursor::new(data);
    let asn: APISetNamespace = APISetNamespace::from_parser(&mut cursor)?;
    cursor.seek(asn.entry_offset as u64);
    let mut apiset: APISet = APISet::new();
    let mut n: u32 = 0;
    while n < asn.count
        invariant
            0 <= n <= asn.count,
            cursor.bytes() == bytes,
            cursor.offset() == asn.entry_offset + NAMESPACE_ENTRY_SIZE * n,
            spec_parse_apiset(apiset_dll@.sections) == spec_apiset_entries(
                bytes,
                asn.entry_offset as int,
                asn.count as nat,
            ),
            spec_apiset_entries(bytes, asn.entry_offset as int, n as nat) == Ok::<
                Map<Seq<char>, Seq<char>>,
                PEError,
            >(apiset@),
            apiset.well_formed(),
        decreases asn.count - n,
    {
        match parse_apiset_entry(&mut cursor) {
            Ok(Some(pair)) => {
                proof {
                    lemma_entry_is_lower(
                        bytes,
                        asn.entry_offset + NAMESPACE_ENTRY_SIZE * n,
                    );
                }
                apiset.insert(pair.0, pair.1);
            },
            Ok(None) => {},
            Err(e) => {
                proof {
                    lemma_apiset_entries_fail(
                        bytes,
                        asn.entry_offset as int,
                        n as nat,
                        asn.count as nat,
                    );
                }
                return Err(e);
            },
        }
        n = n + 1;
    }
    Ok(apiset)
}

/// What loading the schema from the bytes of its file gives; `None` stands
/// for a file that does not exist.
pub open spec fn spec_load_apiset(contents: Option<Seq<u8>>) -> Result<
    Map<Seq<char>, Seq<char>>,
    PEError,
> {
    match spec_parse_file(APISET_SCHEMA_DLL_PATH@, contents, false) {
        Err(e) => Err(e),
        Ok(image) => spec_parse_apiset(image.sections),
    }
}

/// Builds the table from the schema file of the operating system, whose
/// bytes are `contents`; `None` stands for a file that does not exist.
pub fn load_apisetschema_mapping(contents: Option<Vec<u8>>) -> (r: Result<APISet, PEError>)
    ensures
        r.is_ok() ==> r.unwrap().well_formed(),
        spec_apiset_outcome(
            r,
            spec_load_apiset(
                match contents {
                    Some(bytes) => Some(bytes@),
                    None => None,
                },
            ),
        ),
{
    let pe: PE = parse_pe(APISET_SCHEMA_DLL_PATH, contents, false)?;
    parse_apiset(&pe)
}

} // verus!
