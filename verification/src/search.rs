//! The dependency walk: from an image, over the libraries it imports, to the
//! files that hold them.
//!
//! The walk works on a snapshot of the file system: the listing of every
//! search location, in the order in which the locations are searched, and
//! the bytes of the files that may be visited. Paths in a snapshot are
//! canonical, so that one file has one path.

use crate::apiset::{
    find_dll as find_host, is_dll_from_apiset_schema, spec_is_virtual_name, spec_lookup, APISet,
};
use crate::pe::error::{spec_message, PEError};
use crate::pe::image::{parse_pe, spec_parse_file, PE};
use crate::text::{spec_ascii_lower, spec_ends_with, str_ends_with, str_to_ascii_lowercase};
use vstd::prelude::*;
use vstd::slice::slice_to_vec;
use vstd::string::{StrSliceExecFns, StringExecFns};

verus! {

/// One entry of a directory listing.
#[derive(Clone, Debug, PartialEq, Eq)]
pub struct FileEntry {
    /// The file name, without the directory.
    pub name: String,
    /// The canonical path of the entry.
    pub path: String,
    /// Whether the entry is a regular file.
    pub is_file: bool,
}

/// A file whose bytes are at hand.
#[derive(Clone, Debug)]
pub struct FileImage {
    /// The canonical path of the file.
    pub path: String,
    /// What the file holds.
    pub bytes: Vec<u8>,
}

/// A snapshot of the file system.
#[derive(Clone, Debug)]
pub struct FileSystem {
    /// The listing of each search location, in search order; the entries of
    /// a listing are in the order in which the directory gave them.
    pub locations: Vec<Vec<FileEntry>>,
    /// The files whose bytes are at hand. A walk takes a path that is not
    /// among them for a file that does not exist; `missing_images` tells
    /// which such paths a walk came across in a listing.
    pub images: Vec<FileImage>,
}

/// Why a dependency has no subtree.
#[derive(Clone, Copy, Debug, PartialEq, Eq, Structural)]
pub enum DependencyError {
    /// No search location holds the library.
    NotFound,
    /// The library is being resolved further up in the tree.
    CircularReference,
    /// The file that holds the library could not be decoded.
    ParseFailure(PEError),
}

/// The annotation that a tree shows for each error.
pub open spec fn spec_annotation(e: DependencyError) -> Seq<char> {
    match e {
        DependencyError::NotFound => "not-found-in-search-paths"@,
        DependencyError::CircularReference => "circular-dependency"@,
        DependencyError::ParseFailure(reason) => "failed-to-parse: "@ + spec_message(reason),
    }
}

impl DependencyError {
    /// The annotation that a tree shows for the error.
    pub fn message(&self) -> (s: String)
        ensures
            s@ == spec_annotation(*self),
    {
        match self {
            DependencyError::NotFound => "not-found-in-search-paths".to_owned(),
            DependencyError::CircularReference => "circular-dependency".to_owned(),
            DependencyError::ParseFailure(reason) => {
                let mut text: String = "failed-to-parse: ".to_owned();
                text.append(reason.message());
                text
            },
        }
    }
}

/// One library in the dependency tree.
#[derive(Debug, PartialEq, Eq)]
pub struct DependencyNode {
    /// The name of the library.
    pub name: String,
    /// The path of the file that holds the library, where one was found.
    pub path: Option<String>,
    /// The libraries that this one imports, in the order of its import directory.
    pub dependencies: Vec<DependencyNode>,
    /// Why the library was not resolved further, where it was not.
    pub error: Option<DependencyError>,
}

/// A dependency tree as a value.
pub struct DependencyTree {
    pub name: Seq<char>,
    pub path: Option<Seq<char>>,
    pub dependencies: Seq<DependencyTree>,
    pub error: Option<DependencyError>,
}

/// The text of an optional string.
pub open spec fn spec_option_text(s: Option<String>) -> Option<Seq<char>> {
    match s {
        Some(s) => Some(s@),
        None => None,
    }
}

impl DependencyNode {
    /// The tree that this node is the root of.
    pub open spec fn tree(&self) -> DependencyTree
        decreases self,
    {
        DependencyTree {
            name: self.name@,
            path: spec_option_text(self.path),
            dependencies: Seq::new(
                self.dependencies@.len(),
                |i: int|
                    if 0 <= i < self.dependencies@.len() {
                        self.dependencies@[i].tree()
                    } else {
                        arbitrary()
                    },
            ),
            error: self.error,
        }
    }
}

/// The trees of `nodes`.
pub open spec fn spec_trees(nodes: Seq<DependencyNode>) -> Seq<DependencyTree> {
    Seq::new(nodes.len(), |i: int| nodes[i].tree())
}

/// The tree of a node is made of the trees of its dependencies.
pub proof fn lemma_tree_of_node(node: DependencyNode)
    ensures
        node.tree() == (DependencyTree {
            name: node.name@,
            path: spec_option_text(node.path),
            dependencies: spec_trees(node.dependencies@),
            error: node.error,
        }),
{
    assert(node.tree().dependencies =~= spec_trees(node.dependencies@));
}

/// Whether the entry `e` can hold the library `name`: it is a regular file
/// whose name ends with `name`.
pub open spec fn spec_entry_matches(e: FileEntry, name: Seq<char>) -> bool {
    e.is_file && spec_ends_with(e.name@, name)
}

/// Whether `i` is the first entry of `entries` that can hold `name`.
pub open spec fn spec_first_match(entries: Seq<FileEntry>, name: Seq<char>, i: int) -> bool {
    &&& 0 <= i < entries.len()
    &&& spec_entry_matches(entries[i], name)
    &&& forall|j: int| 0 <= j < i ==> !spec_entry_matches(#[trigger] entries[j], name)
}

/// Whether some entry of `entries` can hold `name`.
pub open spec fn spec_holds(entries: Seq<FileEntry>, name: Seq<char>) -> bool {
    exists|i: int| spec_first_match(entries, name, i)
}

/// Whether `l` is the first location of `locations` that holds `name`.
pub open spec fn spec_first_location(locations: Seq<Vec<FileEntry>>, name: Seq<char>, l: int)
    -> bool {
    &&& 0 <= l < locations.len()
    &&& spec_holds(locations[l]@, name)
    &&& forall|k: int| 0 <= k < l ==> !spec_holds(#[trigger] locations[k]@, name)
}

/// Where the library `name` is found: the first matching entry of the first
/// location that has one, as the index of the location and that of the entry.
pub open spec fn spec_find_dll(locations: Seq<Vec<FileEntry>>, name: Seq<char>) -> Option<
    (int, int),
> {
    if exists|l: int| spec_first_location(locations, name, l) {
        let l = choose|l: int| spec_first_location(locations, name, l);
        let i = choose|i: int| spec_first_match(locations[l]@, name, i);
        Some((l, i))
    } else {
        None
    }
}

/// The first match in a listing is one match: two indices that both are
/// the first match are equal.
pub proof fn lemma_first_match_unique(entries: Seq<FileEntry>, name: Seq<char>, i: int, j: int)
    requires
        spec_first_match(entries, name, i),
        spec_first_match(entries, name, j),
    ensures
        i == j,
{
}

/// An earlier location wins: where the location `l` holds the library at
/// entry `i` first, and no location in front of it holds the library, the
/// library is found there. With `l` zero this is the precedence of the
/// first location, the directory of the root image, over all the others.
pub proof fn lemma_earlier_location_wins(
    locations: Seq<Vec<FileEntry>>,
    name: Seq<char>,
    l: int,
    i: int,
)
    requires
        0 <= l < locations.len(),
        spec_first_match(locations[l]@, name, i),
        forall|k: int| 0 <= k < l ==> !spec_holds(#[trigger] locations[k]@, name),
    ensures
        spec_find_dll(locations, name) == Some((l, i)),
{
    assert(spec_first_location(locations, name, l));
    let l2 = choose|l2: int| spec_first_location(locations, name, l2);
    assert(l2 == l);
    let i2 = choose|i2: int| spec_first_match(locations[l]@, name, i2);
    lemma_first_match_unique(locations[l]@, name, i, i2);
}

/// What is found lies in the snapshot and can hold the library.
pub proof fn lemma_found_matches(locations: Seq<Vec<FileEntry>>, name: Seq<char>)
    requires
        spec_find_dll(locations, name).is_some(),
    ensures
        0 <= spec_find_dll(locations, name).unwrap().0 < locations.len(),
        0 <= spec_find_dll(locations, name).unwrap().1 < locations[spec_find_dll(
            locations,
            name,
        ).unwrap().0]@.len(),
        spec_entry_matches(
            locations[spec_find_dll(locations, name).unwrap().0]@[spec_find_dll(
                locations,
                name,
            ).unwrap().1],
            name,
        ),
{
    let l = choose|l: int| spec_first_location(locations, name, l);
    let i = choose|i: int| spec_first_match(locations[l]@, name, i);
    assert(spec_holds(locations[l]@, name));
}

/// The first entry of `entries` that can hold the library `name`.
pub fn find_in_location(name: &str, entries: &Vec<FileEntry>) -> (r: Option<usize>)
    ensures
        match r {
            Some(i) => spec_first_match(entries@, name@, i as int),
            None => !spec_holds(entries@, name@),
        },
{
    let mut i: usize = 0;
    while i < entries.len()
        invariant
            0 <= i <= entries@.len(),
            forall|j: int| 0 <= j < i ==> !spec_entry_matches(#[trigger] entries@[j], name@),
        decreases entries@.len() - i,
    {
        if entries[i].is_file && str_ends_with(entries[i].name.as_str(), name) {
            return Some(i);
        }
        i = i + 1;
    }
    None
}

/// Searches the locations in order for the library `name`; the first
/// regular file whose name ends with `name` is the one.
pub fn find_dll<'a>(name: &str, search_paths: &'a Vec<Vec<FileEntry>>) -> (r: Option<&'a FileEntry>)
    ensures
        match r {
            Some(entry) => spec_find_dll(search_paths@, name@).is_some() && *entry
                == search_paths@[spec_find_dll(search_paths@, name@).unwrap().0]@[spec_find_dll(
                search_paths@,
                name@,
            ).unwrap().1],
            None => spec_find_dll(search_paths@, name@).is_none(),
        },
{
    let mut l: usize = 0;
    while l < search_paths.len()
        invariant
            0 <= l <= search_paths@.len(),
            forall|k: int| 0 <= k < l ==> !spec_holds(#[trigger] search_paths@[k]@, name@),
        decreases search_paths@.len() - l,
    {
        match find_in_location(name, &search_paths[l]) {
            Some(i) => {
                proof {
                    lemma_earlier_location_wins(search_paths@, name@, l as int, i as int);
                }
                return Some(&search_paths[l][i]);
            },
            None => {},
        }
        l = l + 1;
    }
    None
}

/// Whether `i` is the first image of `images` with the path `path`.
pub open spec fn spec_first_image(images: Seq<FileImage>, path: Seq<char>, i: int) -> bool {
    &&& 0 <= i < images.len()
    &&& images[i].path@ == path
    &&& forall|j: int| 0 <= j < i ==> (#[trigger] images[j]).path@ != path
}

/// The bytes of the file at `path`, or nothing where the snapshot has no
/// such file.
pub open spec fn spec_file_bytes(images: Seq<FileImage>, path: Seq<char>) -> Option<Seq<u8>> {
    if exists|i: int| spec_first_image(images, path, i) {
        Some(images[choose|i: int| spec_first_image(images, path, i)].bytes@)
    } else {
        None
    }
}

/// The bytes of the file at `path`.
pub fn read_file(images: &Vec<FileImage>, path: &str) -> (r: Option<Vec<u8>>)
    ensures
        match r {
            Some(bytes) => spec_file_bytes(images@, path@) == Some(bytes@),
            None => spec_file_bytes(images@, path@).is_none(),
        },
{
    let wanted: String = path.to_owned();
    let mut i: usize = 0;
    while i < images.len()
        invariant
            0 <= i <= images@.len(),
            wanted@ == path@,
            forall|j: int| 0 <= j < i ==> (#[trigger] images@[j]).path@ != path@,
        decreases images@.len() - i,
    {
        if images[i].path == wanted {
            proof {
                assert(spec_first_image(images@, path@, i as int));
                let k = choose|k: int| spec_first_image(images@, path@, k);
                assert(k == i);
            }
            return Some(slice_to_vec(images[i].bytes.as_slice()));
        }
        i = i + 1;
    }
    None
}

/// The names of the libraries that the file at `path` imports, as the
/// image spells them.
pub open spec fn spec_imports(images: Seq<FileImage>, path: Seq<char>, check_extension: bool)
    -> Result<Seq<Seq<char>>, PEError> {
    match spec_parse_file(path, spec_file_bytes(images, path), check_extension) {
        Ok(image) => Ok(image.dll_names),
        Err(e) => Err(e),
    }
}

/// Decodes the file at `path` of the snapshot.
pub fn parse_file(images: &Vec<FileImage>, path: &str, check_extension: bool) -> (r: Result<
    PE,
    PEError,
>)
    ensures
        match r {
            Ok(pe) => spec_imports(images@, path@, check_extension) == Ok::<
                Seq<Seq<char>>,
                PEError,
            >(pe@.dll_names),
            Err(e) => spec_imports(images@, path@, check_extension) == Err::<
                Seq<Seq<char>>,
                PEError,
            >(e),
        },
{
    let contents: Option<Vec<u8>> = read_file(images, path);
    parse_pe(path, contents, check_extension)
}

/// The file name under which the import `lower` is searched: the host
/// library where the name is virtual, the name itself where it is not.
/// A virtual name that the table does not hold has none.
pub open spec fn spec_target_name(apiset: Map<Seq<char>, Seq<char>>, lower: Seq<char>) -> Option<
    Seq<char>,
> {
    if spec_is_virtual_name(lower) {
        spec_lookup(apiset, lower)
    } else {
        Some(lower)
    }
}

/// Where the import `lower` is found in the snapshot.
pub open spec fn spec_locate(
    locations: Seq<Vec<FileEntry>>,
    apiset: Map<Seq<char>, Seq<char>>,
    lower: Seq<char>,
) -> Option<(int, int)> {
    match spec_target_name(apiset, lower) {
        Some(target) => spec_find_dll(locations, target),
        None => None,
    }
}

/// Finds the file that holds the import `lower`, a name in lower case.
pub fn locate<'a>(lower: &str, search_paths: &'a Vec<Vec<FileEntry>>, apiset: &APISet) -> (r:
    Option<&'a FileEntry>)
    ensures
        match r {
            Some(entry) => spec_locate(search_paths@, apiset@, lower@).is_some() && *entry
                == search_paths@[spec_locate(search_paths@, apiset@, lower@).unwrap().0]@[spec_locate(
                search_paths@,
                apiset@,
                lower@,
            ).unwrap().1],
            None => spec_locate(search_paths@, apiset@, lower@).is_none(),
        },
{
    if is_dll_from_apiset_schema(lower) {
        match find_host(lower, apiset) {
            Some(host) => find_dll(host.as_str(), search_paths),
            None => None,
        }
    } else {
        find_dll(lower, search_paths)
    }
}

/// A node without dependencies.
pub open spec fn spec_leaf(
    name: Seq<char>,
    path: Option<Seq<char>>,
    error: Option<DependencyError>,
) -> DependencyTree {
    DependencyTree { name, path, dependencies: Seq::<DependencyTree>::empty(), error }
}

/// The node that stands for the import `import` in a tree of depth one:
/// named by the import in lower case, with the path of the file that holds
/// it, or marked as not found.
pub open spec fn spec_flat_child(
    locations: Seq<Vec<FileEntry>>,
    apiset: Map<Seq<char>, Seq<char>>,
    import: Seq<char>,
) -> DependencyTree {
    let lower = spec_ascii_lower(import);
    match spec_locate(locations, apiset, lower) {
        Some((l, i)) => spec_leaf(lower, Some(locations[l]@[i].path@), None),
        None => spec_leaf(lower, None, Some(DependencyError::NotFound)),
    }
}

/// The tree of depth one of the image `root`: one node for each of its
/// imports, in their order.
pub open spec fn spec_flat_tree(
    fs: FileSystem,
    apiset: Map<Seq<char>, Seq<char>>,
    root: FileEntry,
    check_extension: bool,
) -> Result<DependencyTree, PEError> {
    match spec_imports(fs.images@, root.path@, check_extension) {
        Err(e) => Err(e),
        Ok(imports) => Ok(
            DependencyTree {
                name: spec_ascii_lower(root.name@),
                path: Some(root.path@),
                dependencies: Seq::new(
                    imports.len(),
                    |k: int| spec_flat_child(fs.locations@, apiset, imports[k]),
                ),
                error: None,
            },
        ),
    }
}

/// Whether `r` is the outcome `expected`, the node taken as a tree.
pub open spec fn spec_tree_outcome(
    r: Result<DependencyNode, PEError>,
    expected: Result<DependencyTree, PEError>,
) -> bool {
    match r {
        Ok(node) => expected == Ok::<DependencyTree, PEError>(node.tree()),
        Err(e) => expected == Err::<DependencyTree, PEError>(e),
    }
}

/// A node without dependencies.
pub fn leaf(name: String, path: Option<String>, error: Option<DependencyError>) -> (node:
    DependencyNode)
    ensures
        node.tree() == spec_leaf(name@, spec_option_text(path), error),
{
    let node = DependencyNode { name, path, dependencies: Vec::new(), error };
    proof {
        lemma_tree_of_node(node);
        assert(spec_trees(node.dependencies@) =~= Seq::<DependencyTree>::empty());
    }
    node
}

/// Resolves the imports of the image `root` one level deep.
pub fn get_dll_dependencies(
    root: &FileEntry,
    fs: &FileSystem,
    apiset_schema: &APISet,
    check_extension: bool,
) -> (r: Result<DependencyNode, PEError>)
    ensures
        spec_tree_outcome(r, spec_flat_tree(*fs, apiset_schema@, *root, check_extension)),
{
    let pe: PE = parse_file(&fs.images, root.path.as_str(), check_extension)?;
    let pe_name: String = str_to_ascii_lowercase(root.name.as_str());
    let ghost imports = pe@.dll_names;
    let mut dependencies: Vec<DependencyNode> = Vec::new();
    let mut k: usize = 0;
    while k < pe.dll_names.len()
        invariant
            0 <= k <= pe.dll_names@.len(),
            imports == pe@.dll_names,
            imports.len() == pe.dll_names@.len(),
            dependencies@.len() == k,
            forall|j: int|
                0 <= j < k ==> (#[trigger] dependencies@[j]).tree() == spec_flat_child(
                    fs.locations@,
                    apiset_schema@,
                    imports[j],
                ),
        decreases pe.dll_names@.len() - k,
    {
        let lower: String = str_to_ascii_lowercase(pe.dll_names[k].as_str());
        assert(imports[k as int] == pe.dll_names@[k as int]@);
        let node: DependencyNode = match locate(lower.as_str(), &fs.locations, apiset_schema) {
            Some(entry) => leaf(lower, Some(entry.path.clone()), None),
            None => leaf(lower, None, Some(DependencyError::NotFound)),
        };
        dependencies.push(node);
        k = k + 1;
    }
    let node = DependencyNode {
        name: pe_name,
        path: Some(root.path.clone()),
        dependencies,
        error: None,
    };
    proof {
        lemma_tree_of_node(node);
        assert(spec_trees(node.dependencies@) =~= Seq::new(
            imports.len(),
            |k: int| spec_flat_child(fs.locations@, apiset_schema@, imports[k]),
        ));
    }
    Ok(node)
}

/// A tree of depth one has one dependency for each import of the root, in
/// the order of the imports, each under the name of its import in lower case.
pub proof fn lemma_flat_tree_shape(
    fs: FileSystem,
    apiset: Map<Seq<char>, Seq<char>>,
    root: FileEntry,
    check_extension: bool,
)
    requires
        spec_flat_tree(fs, apiset, root, check_extension).is_ok(),
    ensures
        spec_imports(fs.images@, root.path@, check_extension).is_ok(),
        spec_flat_tree(fs, apiset, root, check_extension).unwrap().dependencies.len()
            == spec_imports(fs.images@, root.path@, check_extension).unwrap().len(),
        forall|k: int|
            0 <= k < spec_imports(fs.images@, root.path@, check_extension).unwrap().len() ==> (
            #[trigger] spec_flat_tree(
                fs,
                apiset,
                root,
                check_extension,
            ).unwrap().dependencies[k]).name == spec_ascii_lower(
                spec_imports(fs.images@, root.path@, check_extension).unwrap()[k],
            ),
{
}

/// The texts of `names`.
pub open spec fn spec_texts(names: Seq<String>) -> Seq<Seq<char>> {
    names.map_values(|s: String| s@)
}

/// The number of entries of `entries` whose path is not on `stack`.
pub open spec fn spec_remaining_in(entries: Seq<FileEntry>, stack: Seq<Seq<char>>) -> nat
    decreases entries.len(),
{
    if entries.len() == 0 {
        0
    } else {
        spec_remaining_in(entries.drop_last(), stack) + (if stack.contains(entries.last().path@) {
            0nat
        } else {
            1nat
        })
    }
}

/// The number of entries of the snapshot whose path is not on `stack`: how
/// many files a walk can still descend into.
pub open spec fn spec_remaining(locations: Seq<Vec<FileEntry>>, stack: Seq<Seq<char>>) -> nat
    decreases locations.len(),
{
    if locations.len() == 0 {
        0
    } else {
        spec_remaining(locations.drop_last(), stack) + spec_remaining_in(
            locations.last()@,
            stack,
        )
    }
}

/// A path is on a stack with one more path if it is that path or was on
/// the stack before.
pub proof fn lemma_push_contains(stack: Seq<Seq<char>>, path: Seq<char>, other: Seq<char>)
    ensures
        stack.push(path).contains(other) <==> (stack.contains(other) || other == path),
{
    if stack.push(path).contains(other) {
        let k = choose|k: int| 0 <= k < stack.push(path).len() && stack.push(path)[k] == other;
        if k < stack.len() {
            assert(stack[k] == other);
        }
    }
    if stack.contains(other) {
        let k = choose|k: int| 0 <= k < stack.len() && stack[k] == other;
        assert(stack.push(path)[k] == other);
    }
    if other == path {
        assert(stack.push(path)[stack.len() as int] == other);
    }
}

/// A longer stack leaves no more entries of a listing, and fewer where the
/// listing holds the new path.
pub proof fn lemma_remaining_in_push(entries: Seq<FileEntry>, stack: Seq<Seq<char>>, path: Seq<char>)
    requires
        !stack.contains(path),
    ensures
        spec_remaining_in(entries, stack.push(path)) <= spec_remaining_in(entries, stack),
        (exists|i: int| 0 <= i < entries.len() && (#[trigger] entries[i]).path@ == path)
            ==> spec_remaining_in(entries, stack.push(path)) < spec_remaining_in(entries, stack),
    decreases entries.len(),
{
    if entries.len() > 0 {
        let front = entries.drop_last();
        lemma_remaining_in_push(front, stack, path);
        lemma_push_contains(stack, path, entries.last().path@);
        if exists|i: int| 0 <= i < entries.len() && (#[trigger] entries[i]).path@ == path {
            let i = choose|i: int| 0 <= i < entries.len() && (#[trigger] entries[i]).path@ == path;
            if i < entries.len() - 1 {
                assert(front[i].path@ == path);
            }
        }
    }
}

/// A longer stack leaves fewer entries of the snapshot where the new path
/// is that of an entry.
pub proof fn lemma_remaining_push(
    locations: Seq<Vec<FileEntry>>,
    stack: Seq<Seq<char>>,
    path: Seq<char>,
)
    requires
        !stack.contains(path),
    ensures
        spec_remaining(locations, stack.push(path)) <= spec_remaining(locations, stack),
        (exists|l: int, i: int|
            0 <= l < locations.len() && 0 <= i < locations[l]@.len() && (
            #[trigger] locations[l]@[i]).path@ == path) ==> spec_remaining(
            locations,
            stack.push(path),
        ) < spec_remaining(locations, stack),
    decreases locations.len(),
{
    if locations.len() > 0 {
        let front = locations.drop_last();
        lemma_remaining_push(front, stack, path);
        lemma_remaining_in_push(locations.last()@, stack, path);
        if exists|l: int, i: int|
            0 <= l < locations.len() && 0 <= i < locations[l]@.len() && (
            #[trigger] locations[l]@[i]).path@ == path {
            let (l, i) = choose|l: int, i: int|
                0 <= l < locations.len() && 0 <= i < locations[l]@.len() && (
                #[trigger] locations[l]@[i]).path@ == path;
            if l < locations.len() - 1 {
                assert(front[l]@[i].path@ == path);
            } else {
                assert(locations.last()@[i].path@ == path);
            }
        }
    }
}

/// Descending into a file that was found in the snapshot, and that is not
/// on the stack, leaves fewer files to descend into.
pub proof fn lemma_descent_decreases(
    locations: Seq<Vec<FileEntry>>,
    apiset: Map<Seq<char>, Seq<char>>,
    lower: Seq<char>,
    stack: Seq<Seq<char>>,
)
    requires
        spec_locate(locations, apiset, lower).is_some(),
        !stack.contains(spec_located_entry(locations, apiset, lower).path@),
    ensures
        spec_remaining(
            locations,
            stack.push(spec_located_entry(locations, apiset, lower).path@),
        ) < spec_remaining(locations, stack),
{
    let target = spec_target_name(apiset, lower).unwrap();
    lemma_found_matches(locations, target);
    let (l, i) = spec_find_dll(locations, target).unwrap();
    let path = locations[l]@[i].path@;
    assert(0 <= l < locations.len() && 0 <= i < locations[l]@.len() && locations[l]@[i].path@
        == path);
    lemma_remaining_push(locations, stack, path);
}

/// The entry that holds the import `lower`, where there is one.
pub open spec fn spec_located_entry(
    locations: Seq<Vec<FileEntry>>,
    apiset: Map<Seq<char>, Seq<char>>,
    lower: Seq<char>,
) -> FileEntry {
    locations[spec_locate(locations, apiset, lower).unwrap().0]@[spec_locate(
        locations,
        apiset,
        lower,
    ).unwrap().1]
}

/// The node that stands for the import `import` in a full tree, and the
/// cache after it was resolved.
///
/// `stack` holds the paths of the files that are being resolved, the root
/// first; `cache` holds the finished subtree of every file that was resolved
/// before. A library that is not found is a leaf marked so. One whose file
/// is in the cache is the cached subtree as it is. One whose file is on the
/// stack is a leaf marked as a circular reference. One whose file cannot be
/// decoded is a leaf that carries the error. Any other is the subtree of
/// its file, named by the file name in lower case, which also enters the
/// cache.
pub open spec fn spec_walk_import(
    fs: FileSystem,
    apiset: Map<Seq<char>, Seq<char>>,
    check_extension: bool,
    import: Seq<char>,
    stack: Seq<Seq<char>>,
    cache: Map<Seq<char>, DependencyTree>,
) -> (DependencyTree, Map<Seq<char>, DependencyTree>)
    decreases spec_remaining(fs.locations@, stack), 0nat,
{
    let lower = spec_ascii_lower(import);
    if spec_locate(fs.locations@, apiset, lower).is_none() {
        (spec_leaf(lower, None, Some(DependencyError::NotFound)), cache)
    } else {
        let entry = spec_located_entry(fs.locations@, apiset, lower);
        let path = entry.path@;
        if cache.contains_key(path) {
            (cache[path], cache)
        } else if stack.contains(path) {
            (spec_leaf(lower, Some(path), Some(DependencyError::CircularReference)), cache)
        } else {
            match spec_imports(fs.images@, path, check_extension) {
                Err(e) => (
                    spec_leaf(lower, Some(path), Some(DependencyError::ParseFailure(e))),
                    cache,
                ),
                Ok(imports) => {
                    proof {
                        lemma_descent_decreases(fs.locations@, apiset, lower, stack);
                    }
                    let walked = spec_walk_imports(
                        fs,
                        apiset,
                        check_extension,
                        imports,
                        stack.push(path),
                        cache,
                    );
                    let node = DependencyTree {
                        name: spec_ascii_lower(entry.name@),
                        path: Some(path),
                        dependencies: walked.0,
                        error: None,
                    };
                    (node, walked.1.insert(path, node))
                },
            }
        }
    }
}

/// The nodes that stand for the imports `imports` in a full tree, resolved
/// one after the other in their order, and the cache after the last.
pub open spec fn spec_walk_imports(
    fs: FileSystem,
    apiset: Map<Seq<char>, Seq<char>>,
    check_extension: bool,
    imports: Seq<Seq<char>>,
    stack: Seq<Seq<char>>,
    cache: Map<Seq<char>, DependencyTree>,
) -> (Seq<DependencyTree>, Map<Seq<char>, DependencyTree>)
    decreases spec_remaining(fs.locations@, stack), imports.len() + 1,
{
    if imports.len() == 0 {
        (Seq::<DependencyTree>::empty(), cache)
    } else {
        let front = spec_walk_imports(
            fs,
            apiset,
            check_extension,
            imports.drop_last(),
            stack,
            cache,
        );
        let last = spec_walk_import(
            fs,
            apiset,
            check_extension,
            imports.last(),
            stack,
            front.1,
        );
        (front.0.push(last.0), last.1)
    }
}

/// The full tree of the image `root`: its imports resolved, and theirs, as
/// far as the files can be found and decoded.
pub open spec fn spec_deep_tree(
    fs: FileSystem,
    apiset: Map<Seq<char>, Seq<char>>,
    root: FileEntry,
    check_extension: bool,
) -> Result<DependencyTree, PEError> {
    match spec_imports(fs.images@, root.path@, check_extension) {
        Err(e) => Err(e),
        Ok(imports) => Ok(
            DependencyTree {
                name: spec_ascii_lower(root.name@),
                path: Some(root.path@),
                dependencies: spec_walk_imports(
                    fs,
                    apiset,
                    check_extension,
                    imports,
                    seq![root.path@],
                    Map::<Seq<char>, DependencyTree>::empty(),
                ).0,
                error: None,
            },
        ),
    }
}

/// The dependency tree of the image `root`: the full tree where `recurse`
/// is set, the tree of depth one where it is not.
pub open spec fn spec_resolve(
    fs: FileSystem,
    apiset: Map<Seq<char>, Seq<char>>,
    root: FileEntry,
    recurse: bool,
    check_extension: bool,
) -> Result<DependencyTree, PEError> {
    if recurse {
        spec_deep_tree(fs, apiset, root, check_extension)
    } else {
        spec_flat_tree(fs, apiset, root, check_extension)
    }
}

/// The cache that a list of finished nodes stands for: each pair maps a
/// path to the tree of its node, and a later pair overrides an earlier one
/// of the same path.
pub open spec fn spec_cache_of(pairs: Seq<(String, DependencyNode)>) -> Map<
    Seq<char>,
    DependencyTree,
>
    decreases pairs.len(),
{
    if pairs.len() == 0 {
        Map::<Seq<char>, DependencyTree>::empty()
    } else {
        spec_cache_of(pairs.drop_last()).insert(pairs.last().0@, pairs.last().1.tree())
    }
}

/// A path that no pair has is not in the cache.
pub proof fn lemma_cache_without(pairs: Seq<(String, DependencyNode)>, path: Seq<char>)
    requires
        forall|j: int| 0 <= j < pairs.len() ==> (#[trigger] pairs[j]).0@ != path,
    ensures
        !spec_cache_of(pairs).contains_key(path),
    decreases pairs.len(),
{
    if pairs.len() > 0 {
        lemma_cache_without(pairs.drop_last(), path);
    }
}

/// The cache gives a path the tree of the last pair that has it.
pub proof fn lemma_cache_last(pairs: Seq<(String, DependencyNode)>, path: Seq<char>, i: int)
    requires
        0 <= i < pairs.len(),
        pairs[i].0@ == path,
        forall|j: int| i < j < pairs.len() ==> (#[trigger] pairs[j]).0@ != path,
    ensures
        spec_cache_of(pairs).contains_key(path),
        spec_cache_of(pairs)[path] == pairs[i].1.tree(),
    decreases pairs.len(),
{
    if i < pairs.len() - 1 {
        lemma_cache_last(pairs.drop_last(), path, i);
    }
}

/// A copy of `node` with all that hangs below it.
pub fn clone_node(node: &DependencyNode) -> (copy: DependencyNode)
    ensures
        copy.tree() == node.tree(),
    decreases node,
{
    let mut dependencies: Vec<DependencyNode> = Vec::new();
    let mut k: usize = 0;
    while k < node.dependencies.len()
        invariant
            0 <= k <= node.dependencies@.len(),
            dependencies@.len() == k,
            forall|j: int|
                0 <= j < k ==> (#[trigger] dependencies@[j]).tree() == node.dependencies@[j].tree(),
        decreases node.dependencies@.len() - k,
    {
        let child: DependencyNode = clone_node(&node.dependencies[k]);
        dependencies.push(child);
        k = k + 1;
    }
    let path: Option<String> = match &node.path {
        Some(p) => Some(p.clone()),
        None => None,
    };
    let copy = DependencyNode { name: node.name.clone(), path, dependencies, error: node.error };
    proof {
        lemma_tree_of_node(copy);
        lemma_tree_of_node(*node);
        assert(spec_trees(copy.dependencies@) =~= spec_trees(node.dependencies@));
    }
    copy
}

/// The finished node of the file at `path`, where the cache holds one.
pub fn cache_get(cache: &Vec<(String, DependencyNode)>, path: &String) -> (r: Option<
    DependencyNode,
>)
    ensures
        match r {
            Some(node) => spec_cache_of(cache@).contains_key(path@) && spec_cache_of(
                cache@,
            )[path@] == node.tree(),
            None => !spec_cache_of(cache@).contains_key(path@),
        },
{
    let mut i: usize = cache.len();
    while i > 0
        invariant
            0 <= i <= cache@.len(),
            forall|j: int| i <= j < cache@.len() ==> (#[trigger] cache@[j]).0@ != path@,
        decreases i,
    {
        i = i - 1;
        if cache[i].0 == *path {
            proof {
                lemma_cache_last(cache@, path@, i as int);
            }
            return Some(clone_node(&cache[i].1));
        }
    }
    proof {
        lemma_cache_without(cache@, path@);
    }
    None
}

/// Whether `path` is on the stack.
pub fn stack_contains(stack: &Vec<String>, path: &String) -> (b: bool)
    ensures
        b == spec_texts(stack@).contains(path@),
{
    let mut i: usize = 0;
    while i < stack.len()
        invariant
            0 <= i <= stack@.len(),
            forall|j: int| 0 <= j < i ==> spec_texts(stack@)[j] != path@,
        decreases stack@.len() - i,
    {
        if stack[i] == *path {
            assert(spec_texts(stack@)[i as int] == path@);
            return true;
        }
        i = i + 1;
    }
    false
}

/// Resolves the import `import` of a file that is being resolved, and what
/// it imports in turn.
pub fn walk_import(
    fs: &FileSystem,
    apiset_schema: &APISet,
    check_extension: bool,
    import: &str,
    stack: &mut Vec<String>,
    cache: &mut Vec<(String, DependencyNode)>,
) -> (node: DependencyNode)
    ensures
        spec_texts(final(stack)@) == spec_texts(old(stack)@),
        (node.tree(), spec_cache_of(final(cache)@)) == spec_walk_import(
            *fs,
            apiset_schema@,
            check_extension,
            import@,
            spec_texts(old(stack)@),
            spec_cache_of(old(cache)@),
        ),
    decreases spec_remaining(fs.locations@, spec_texts(old(stack)@)), 0nat,
{
    let lower: String = str_to_ascii_lowercase(import);
    let entry: &FileEntry = match locate(lower.as_str(), &fs.locations, apiset_schema) {
        Some(entry) => entry,
        None => { return leaf(lower, None, Some(DependencyError::NotFound)); },
    };
    match cache_get(cache, &entry.path) {
        Some(cached) => { return cached; },
        None => {},
    }
    if stack_contains(stack, &entry.path) {
        return leaf(lower, Some(entry.path.clone()), Some(DependencyError::CircularReference));
    }
    let pe: PE = match parse_file(&fs.images, entry.path.as_str(), check_extension) {
        Ok(pe) => pe,
        Err(e) => {
            return leaf(lower, Some(entry.path.clone()), Some(DependencyError::ParseFailure(e)));
        },
    };
    let ghost before = spec_texts(stack@);
    let ghost cache_before = cache@;
    stack.push(entry.path.clone());
    proof {
        assert(spec_texts(stack@) =~= before.push(entry.path@));
        lemma_descent_decreases(fs.locations@, apiset_schema@, lower@, before);
    }
    let dependencies: Vec<DependencyNode> = walk_imports(
        fs,
        apiset_schema,
        check_extension,
        &pe.dll_names,
        stack,
        cache,
    );
    let ghost walked_stack = stack@;
    let _ = stack.pop();
    proof {
        assert(spec_texts(walked_stack).drop_last() =~= spec_texts(stack@));
        assert(before.push(entry.path@).drop_last() =~= before);
    }
    let node = DependencyNode {
        name: str_to_ascii_lowercase(entry.name.as_str()),
        path: Some(entry.path.clone()),
        dependencies,
        error: None,
    };
    let ghost walked_cache = cache@;
    let copy: DependencyNode = clone_node(&node);
    cache.push((entry.path.clone(), copy));
    proof {
        lemma_tree_of_node(node);
        assert(cache@.drop_last() =~= walked_cache);
    }
    node
}

/// Resolves the imports `imports` of a file that is being resolved, one
/// after the other in their order.
pub fn walk_imports(
    fs: &FileSystem,
    apiset_schema: &APISet,
    check_extension: bool,
    imports: &Vec<String>,
    stack: &mut Vec<String>,
    cache: &mut Vec<(String, DependencyNode)>,
) -> (nodes: Vec<DependencyNode>)
    ensures
        spec_texts(final(stack)@) == spec_texts(old(stack)@),
        (spec_trees(nodes@), spec_cache_of(final(cache)@)) == spec_walk_imports(
            *fs,
            apiset_schema@,
            check_extension,
            spec_texts(imports@),
            spec_texts(old(stack)@),
            spec_cache_of(old(cache)@),
        ),
    decreases spec_remaining(fs.locations@, spec_texts(old(stack)@)), imports@.len() + 1,
{
    let ghost names = spec_texts(imports@);
    let ghost stack_before = spec_texts(stack@);
    let ghost cache_before = spec_cache_of(cache@);
    let mut nodes: Vec<DependencyNode> = Vec::new();
    let mut k: usize = 0;
    proof {
        assert(names.subrange(0, 0) =~= Seq::<Seq<char>>::empty());
        assert(spec_trees(nodes@) =~= Seq::<DependencyTree>::empty());
    }
    while k < imports.len()
        invariant
            0 <= k <= imports@.len(),
            names == spec_texts(imports@),
            stack_before == spec_texts(old(stack)@),
            cache_before == spec_cache_of(old(cache)@),
            spec_texts(stack@) == stack_before,
            (spec_trees(nodes@), spec_cache_of(cache@)) == spec_walk_imports(
                *fs,
                apiset_schema@,
                check_extension,
                names.subrange(0, k as int),
                stack_before,
                cache_before,
            ),
        decreases imports@.len() - k,
    {
        let ghost trees_before = spec_trees(nodes@);
        let node: DependencyNode = walk_import(
            fs,
            apiset_schema,
            check_extension,
            imports[k].as_str(),
            stack,
            cache,
        );
        nodes.push(node);
        proof {
            let longer = names.subrange(0, k + 1);
            assert(longer.drop_last() =~= names.subrange(0, k as int));
            assert(longer.last() == imports@[k as int]@);
            assert(spec_trees(nodes@) =~= trees_before.push(node.tree()));
        }
        k = k + 1;
    }
    proof {
        assert(names.subrange(0, k as int) =~= names);
    }
    nodes
}

/// Resolves the imports of the image `root`, and theirs, as far as the
/// files can be found and decoded. The result is a tree: a subtree that
/// several libraries share stands, as a copy, below each of them.
pub fn get_dll_dependencies_recursive(
    root: &FileEntry,
    fs: &FileSystem,
    apiset_schema: &APISet,
    check_extension: bool,
) -> (r: Result<DependencyNode, PEError>)
    ensures
        spec_tree_outcome(r, spec_deep_tree(*fs, apiset_schema@, *root, check_extension)),
{
    let pe: PE = parse_file(&fs.images, root.path.as_str(), check_extension)?;
    let mut cache: Vec<(String, DependencyNode)> = Vec::new();
    let mut stack: Vec<String> = Vec::new();
    stack.push(root.path.clone());
    proof {
        assert(spec_texts(stack@) =~= seq![root.path@]);
    }
    let dependencies: Vec<DependencyNode> = walk_imports(
        fs,
        apiset_schema,
        check_extension,
        &pe.dll_names,
        &mut stack,
        &mut cache,
    );
    let node = DependencyNode {
        name: str_to_ascii_lowercase(root.name.as_str()),
        path: Some(root.path.clone()),
        dependencies,
        error: None,
    };
    proof {
        lemma_tree_of_node(node);
    }
    Ok(node)
}

/// Resolves the dependencies of the image `root` over the snapshot `fs`:
/// the full tree where `recurse` is set, the tree of depth one where it is
/// not. Only a root that cannot be decoded is an error.
pub fn resolve_dependencies(
    root: &FileEntry,
    fs: &FileSystem,
    apiset_schema: &APISet,
    recurse: bool,
    check_extension: bool,
) -> (r: Result<DependencyNode, PEError>)
    ensures
        spec_tree_outcome(r, spec_resolve(*fs, apiset_schema@, *root, recurse, check_extension)),
{
    if recurse {
        get_dll_dependencies_recursive(root, fs, apiset_schema, check_extension)
    } else {
        get_dll_dependencies(root, fs, apiset_schema, check_extension)
    }
}

/// A cycle is cut: an import whose file is being resolved further up, and
/// has no finished subtree yet, becomes a leaf that is marked as a circular
/// reference, and nothing is resolved below it.
pub proof fn lemma_cycle_is_cut(
    fs: FileSystem,
    apiset: Map<Seq<char>, Seq<char>>,
    check_extension: bool,
    import: Seq<char>,
    stack: Seq<Seq<char>>,
    cache: Map<Seq<char>, DependencyTree>,
)
    requires
        spec_locate(fs.locations@, apiset, spec_ascii_lower(import)).is_some(),
        stack.contains(spec_located_entry(fs.locations@, apiset, spec_ascii_lower(import)).path@),
        !cache.contains_key(
            spec_located_entry(fs.locations@, apiset, spec_ascii_lower(import)).path@,
        ),
    ensures
        spec_walk_import(fs, apiset, check_extension, import, stack, cache) == (
            spec_leaf(
                spec_ascii_lower(import),
                Some(spec_located_entry(fs.locations@, apiset, spec_ascii_lower(import)).path@),
                Some(DependencyError::CircularReference),
            ),
            cache,
        ),
{
}

/// A finished subtree is shared: an import whose file is in the cache
/// becomes the cached subtree as it is, and the cache stays as it was.
pub proof fn lemma_cached_is_reused(
    fs: FileSystem,
    apiset: Map<Seq<char>, Seq<char>>,
    check_extension: bool,
    import: Seq<char>,
    stack: Seq<Seq<char>>,
    cache: Map<Seq<char>, DependencyTree>,
)
    requires
        spec_locate(fs.locations@, apiset, spec_ascii_lower(import)).is_some(),
        cache.contains_key(
            spec_located_entry(fs.locations@, apiset, spec_ascii_lower(import)).path@,
        ),
    ensures
        spec_walk_import(fs, apiset, check_extension, import, stack, cache) == (
            cache[spec_located_entry(fs.locations@, apiset, spec_ascii_lower(import)).path@],
            cache,
        ),
{
}

/// Whether `later` holds all that `earlier` holds, with the same subtrees.
pub open spec fn spec_cache_extends(
    later: Map<Seq<char>, DependencyTree>,
    earlier: Map<Seq<char>, DependencyTree>,
) -> bool {
    forall|p: Seq<char>| #[trigger]
        earlier.contains_key(p) ==> later.contains_key(p) && later[p] == earlier[p]
}

/// Resolving an import never changes a finished subtree: the cache after
/// it holds all that the cache before it held.
pub proof fn lemma_import_keeps_cache(
    fs: FileSystem,
    apiset: Map<Seq<char>, Seq<char>>,
    check_extension: bool,
    import: Seq<char>,
    stack: Seq<Seq<char>>,
    cache: Map<Seq<char>, DependencyTree>,
)
    ensures
        spec_cache_extends(
            spec_walk_import(fs, apiset, check_extension, import, stack, cache).1,
            cache,
        ),
    decreases spec_remaining(fs.locations@, stack), 0nat,
{
    let lower = spec_ascii_lower(import);
    if spec_locate(fs.locations@, apiset, lower).is_some() {
        let path = spec_located_entry(fs.locations@, apiset, lower).path@;
        if !cache.contains_key(path) && !stack.contains(path) {
            match spec_imports(fs.images@, path, check_extension) {
                Err(e) => {},
                Ok(imports) => {
                    lemma_descent_decreases(fs.locations@, apiset, lower, stack);
                    lemma_imports_keep_cache(
                        fs,
                        apiset,
                        check_extension,
                        imports,
                        stack.push(path),
                        cache,
                    );
                },
            }
        }
    }
}

/// Resolving a list of imports never changes a finished subtree: the cache
/// after it holds all that the cache before it held.
pub proof fn lemma_imports_keep_cache(
    fs: FileSystem,
    apiset: Map<Seq<char>, Seq<char>>,
    check_extension: bool,
    imports: Seq<Seq<char>>,
    stack: Seq<Seq<char>>,
    cache: Map<Seq<char>, DependencyTree>,
)
    ensures
        spec_cache_extends(
            spec_walk_imports(fs, apiset, check_extension, imports, stack, cache).1,
            cache,
        ),
    decreases spec_remaining(fs.locations@, stack), imports.len() + 1,
{
    if imports.len() > 0 {
        lemma_imports_keep_cache(fs, apiset, check_extension, imports.drop_last(), stack, cache);
        let front = spec_walk_imports(
            fs,
            apiset,
            check_extension,
            imports.drop_last(),
            stack,
            cache,
        );
        lemma_import_keeps_cache(fs, apiset, check_extension, imports.last(), stack, front.1);
    }
}

/// A file that is being resolved gets no finished subtree before it is
/// done: resolving an import neither adds a path of the stack to the cache
/// nor takes one out.
pub proof fn lemma_import_skips_stack(
    fs: FileSystem,
    apiset: Map<Seq<char>, Seq<char>>,
    check_extension: bool,
    import: Seq<char>,
    stack: Seq<Seq<char>>,
    cache: Map<Seq<char>, DependencyTree>,
    busy: Seq<char>,
)
    requires
        stack.contains(busy),
    ensures
        spec_walk_import(fs, apiset, check_extension, import, stack, cache).1.contains_key(busy)
            == cache.contains_key(busy),
    decreases spec_remaining(fs.locations@, stack), 0nat,
{
    let lower = spec_ascii_lower(import);
    if spec_locate(fs.locations@, apiset, lower).is_some() {
        let path = spec_located_entry(fs.locations@, apiset, lower).path@;
        if !cache.contains_key(path) && !stack.contains(path) {
            match spec_imports(fs.images@, path, check_extension) {
                Err(e) => {},
                Ok(imports) => {
                    lemma_descent_decreases(fs.locations@, apiset, lower, stack);
                    lemma_push_contains(stack, path, busy);
                    lemma_imports_skip_stack(
                        fs,
                        apiset,
                        check_extension,
                        imports,
                        stack.push(path),
                        cache,
                        busy,
                    );
                },
            }
        }
    }
}

/// Resolving a list of imports neither adds a path of the stack to the
/// cache nor takes one out.
pub proof fn lemma_imports_skip_stack(
    fs: FileSystem,
    apiset: Map<Seq<char>, Seq<char>>,
    check_extension: bool,
    imports: Seq<Seq<char>>,
    stack: Seq<Seq<char>>,
    cache: Map<Seq<char>, DependencyTree>,
    busy: Seq<char>,
)
    requires
        stack.contains(busy),
    ensures
        spec_walk_imports(fs, apiset, check_extension, imports, stack, cache).1.contains_key(busy)
            == cache.contains_key(busy),
    decreases spec_remaining(fs.locations@, stack), imports.len() + 1,
{
    if imports.len() > 0 {
        lemma_imports_skip_stack(
            fs,
            apiset,
            check_extension,
            imports.drop_last(),
            stack,
            cache,
            busy,
        );
        let front = spec_walk_imports(
            fs,
            apiset,
            check_extension,
            imports.drop_last(),
            stack,
            cache,
        );
        lemma_import_skips_stack(
            fs,
            apiset,
            check_extension,
            imports.last(),
            stack,
            front.1,
            busy,
        );
    }
}

/// The node of import number `j` of a list is that of the import alone,
/// resolved with the cache that the imports in front of it left.
pub proof fn lemma_walk_prefix(
    fs: FileSystem,
    apiset: Map<Seq<char>, Seq<char>>,
    check_extension: bool,
    imports: Seq<Seq<char>>,
    stack: Seq<Seq<char>>,
    cache: Map<Seq<char>, DependencyTree>,
    j: int,
)
    requires
        0 <= j < imports.len(),
    ensures
        spec_walk_imports(fs, apiset, check_extension, imports, stack, cache).0.len()
            == imports.len(),
        spec_walk_imports(fs, apiset, check_extension, imports, stack, cache).0[j]
            == spec_walk_import(
            fs,
            apiset,
            check_extension,
            imports[j],
            stack,
            spec_walk_imports(
                fs,
                apiset,
                check_extension,
                imports.subrange(0, j),
                stack,
                cache,
            ).1,
        ).0,
        spec_cache_extends(
            spec_walk_imports(fs, apiset, check_extension, imports, stack, cache).1,
            spec_walk_imports(
                fs,
                apiset,
                check_extension,
                imports.subrange(0, j + 1),
                stack,
                cache,
            ).1,
        ),
    decreases imports.len(),
{
    lemma_walk_length(fs, apiset, check_extension, imports, stack, cache);
    lemma_walk_length(fs, apiset, check_extension, imports.drop_last(), stack, cache);
    let front = spec_walk_imports(fs, apiset, check_extension, imports.drop_last(), stack, cache);
    if j == imports.len() - 1 {
        assert(imports.subrange(0, j) =~= imports.drop_last());
        assert(imports.subrange(0, j + 1) =~= imports);
    } else {
        lemma_walk_prefix(fs, apiset, check_extension, imports.drop_last(), stack, cache, j);
        assert(imports.drop_last().subrange(0, j) =~= imports.subrange(0, j));
        assert(imports.drop_last().subrange(0, j + 1) =~= imports.subrange(0, j + 1));
        lemma_import_keeps_cache(fs, apiset, check_extension, imports.last(), stack, front.1);
    }
}

/// A list of imports gives one node for each import.
pub proof fn lemma_walk_length(
    fs: FileSystem,
    apiset: Map<Seq<char>, Seq<char>>,
    check_extension: bool,
    imports: Seq<Seq<char>>,
    stack: Seq<Seq<char>>,
    cache: Map<Seq<char>, DependencyTree>,
)
    ensures
        spec_walk_imports(fs, apiset, check_extension, imports, stack, cache).0.len()
            == imports.len(),
    decreases imports.len(),
{
    if imports.len() > 0 {
        lemma_walk_length(fs, apiset, check_extension, imports.drop_last(), stack, cache);
    }
}

/// Two imports of one file share one subtree: where import number `j` of a
/// list is resolved without an error, and a later import `k` of the list is
/// held by the same file, the node of `k` is equal to the node of `j`.
pub proof fn lemma_shared_subtree(
    fs: FileSystem,
    apiset: Map<Seq<char>, Seq<char>>,
    check_extension: bool,
    imports: Seq<Seq<char>>,
    stack: Seq<Seq<char>>,
    cache: Map<Seq<char>, DependencyTree>,
    j: int,
    k: int,
)
    requires
        0 <= j < k < imports.len(),
        spec_locate(fs.locations@, apiset, spec_ascii_lower(imports[j])).is_some(),
        spec_locate(fs.locations@, apiset, spec_ascii_lower(imports[k])).is_some(),
        spec_located_entry(fs.locations@, apiset, spec_ascii_lower(imports[j])).path@
            == spec_located_entry(fs.locations@, apiset, spec_ascii_lower(imports[k])).path@,
        spec_walk_imports(fs, apiset, check_extension, imports, stack, cache).0[j].error.is_none(),
    ensures
        spec_walk_imports(fs, apiset, check_extension, imports, stack, cache).0[k]
            == spec_walk_imports(fs, apiset, check_extension, imports, stack, cache).0[j],
{
    let path = spec_located_entry(fs.locations@, apiset, spec_ascii_lower(imports[j])).path@;
    let before_j = spec_walk_imports(
        fs,
        apiset,
        check_extension,
        imports.subrange(0, j),
        stack,
        cache,
    ).1;
    let at_j = spec_walk_import(fs, apiset, check_extension, imports[j], stack, before_j);
    lemma_walk_prefix(fs, apiset, check_extension, imports, stack, cache, j);
    lemma_walk_prefix(fs, apiset, check_extension, imports, stack, cache, k);
    let upto_j = imports.subrange(0, j + 1);
    assert(upto_j.drop_last() =~= imports.subrange(0, j));
    assert(upto_j.last() == imports[j]);
    let after_j = spec_walk_imports(fs, apiset, check_extension, upto_j, stack, cache).1;
    assert(after_j == at_j.1);
    assert(after_j.contains_key(path) && after_j[path] == at_j.0);
    let upto_k = imports.subrange(0, k);
    lemma_walk_prefix(fs, apiset, check_extension, upto_k, stack, cache, j);
    assert(upto_k.subrange(0, j + 1) =~= upto_j);
    assert(upto_k.subrange(0, j) =~= imports.subrange(0, j));
    let before_k = spec_walk_imports(fs, apiset, check_extension, upto_k, stack, cache).1;
    assert(spec_cache_extends(before_k, after_j));
    assert(before_k.contains_key(path));
}

/// Without recursion no dependency has dependencies of its own, however
/// deep the imports of the images go.
pub proof fn lemma_flat_resolution_depth(
    fs: FileSystem,
    apiset: Map<Seq<char>, Seq<char>>,
    root: FileEntry,
    check_extension: bool,
    k: int,
)
    requires
        spec_resolve(fs, apiset, root, false, check_extension).is_ok(),
        0 <= k < spec_resolve(fs, apiset, root, false, check_extension).unwrap().dependencies.len(),
    ensures
        spec_resolve(
            fs,
            apiset,
            root,
            false,
            check_extension,
        ).unwrap().dependencies[k].dependencies.len() == 0,
{
}

/// Whether the node `tree` stands for a file that was found in a listing
/// while the snapshot holds no bytes for it.
pub open spec fn spec_is_unread(tree: DependencyTree) -> bool {
    tree.path.is_some() && tree.error == Some(
        DependencyError::ParseFailure(PEError::NotFound),
    )
}

/// The paths of the unread files among the first `n` dependencies of
/// `tree` and all that hangs below them, in the order of the tree.
pub open spec fn spec_unread_below(tree: DependencyTree, n: nat) -> Seq<Seq<char>>
    decreases tree, n,
{
    if n == 0 || n > tree.dependencies.len() {
        Seq::<Seq<char>>::empty()
    } else {
        spec_unread_below(tree, (n - 1) as nat) + spec_unread(tree.dependencies[n - 1])
    }
}

/// The paths of the unread files in `tree`, in the order of the tree: a
/// node in front of its dependencies, the dependencies in their order.
pub open spec fn spec_unread(tree: DependencyTree) -> Seq<Seq<char>>
    decreases tree, tree.dependencies.len() + 1,
{
    (if spec_is_unread(tree) {
        seq![tree.path.unwrap()]
    } else {
        Seq::<Seq<char>>::empty()
    }) + spec_unread_below(tree, tree.dependencies.len())
}

/// Adds to `out` the paths of the files in the tree of `node` that were
/// found in a listing while the snapshot holds no bytes for them. A walk
/// over a snapshot with these files added goes further.
pub fn missing_images(node: &DependencyNode, out: &mut Vec<String>)
    ensures
        spec_texts(final(out)@) == spec_texts(old(out)@) + spec_unread(node.tree()),
    decreases node,
{
    proof {
        lemma_tree_of_node(*node);
    }
    let ghost before = spec_texts(out@);
    let unread: bool = match (&node.path, &node.error) {
        (Some(_), Some(DependencyError::ParseFailure(PEError::NotFound))) => true,
        _ => false,
    };
    if unread {
        match &node.path {
            Some(path) => {
                out.push(path.clone());
                assert(spec_texts(out@) =~= before.push(path@));
            },
            None => {},
        }
    }
    let ghost own = spec_texts(out@);
    assert(own =~= before + (if spec_is_unread(node.tree()) {
        seq![node.tree().path.unwrap()]
    } else {
        Seq::<Seq<char>>::empty()
    }));
    let mut k: usize = 0;
    while k < node.dependencies.len()
        invariant
            0 <= k <= node.dependencies@.len(),
            node.tree().dependencies == spec_trees(node.dependencies@),
            spec_texts(out@) == own + spec_unread_below(node.tree(), k as nat),
        decreases node.dependencies@.len() - k,
    {
        let ghost so_far = spec_texts(out@);
        missing_images(&node.dependencies[k], out);
        proof {
            assert(node.tree().dependencies[k as int] == node.dependencies@[k as int].tree());
            assert(own + (spec_unread_below(node.tree(), k as nat) + spec_unread(
                node.dependencies@[k as int].tree(),
            )) =~= so_far + spec_unread(node.dependencies@[k as int].tree()));
        }
        k = k + 1;
    }
    assert(before + ((if spec_is_unread(node.tree()) {
        seq![node.tree().path.unwrap()]
    } else {
        Seq::<Seq<char>>::empty()
    }) + spec_unread_below(node.tree(), node.tree().dependencies.len())) =~= own
        + spec_unread_below(node.tree(), node.tree().dependencies.len()));
}

/// Whether `i` is the place of the first `;` in `s`.
pub open spec fn spec_first_separator(s: Seq<char>, i: int) -> bool {
    &&& 0 <= i < s.len()
    &&& s[i] == ';'
    &&& forall|j: int| 0 <= j < i ==> s[j] != ';'
}

/// The pieces of `s` between its `;` characters, in their order. A text
/// without a `;` is one piece; two `;` in a row have an empty piece between
/// them.
pub open spec fn spec_split(s: Seq<char>) -> Seq<Seq<char>>
    decreases s.len(),
{
    if exists|i: int| spec_first_separator(s, i) {
        let i = choose|i: int| spec_first_separator(s, i);
        seq![s.subrange(0, i)] + spec_split(s.subrange(i + 1, s.len() as int))
    } else {
        seq![s]
    }
}

/// The directories that the text `text` names: none where it is empty,
/// else its pieces between the `;` characters.
pub open spec fn spec_user_paths(text: Seq<char>) -> Seq<Seq<char>> {
    if text.len() == 0 {
        Seq::<Seq<char>>::empty()
    } else {
        spec_split(text)
    }
}

/// The directories that a list of search paths names, as the user writes
/// it: the paths one after the other with a `;` between them.
pub fn split_search_paths(text: &str) -> (paths: Vec<String>)
    ensures
        spec_texts(paths@) == spec_user_paths(text@),
{
    let mut paths: Vec<String> = Vec::new();
    let n: usize = text.unicode_len();
    if n == 0 {
        assert(spec_texts(paths@) =~= Seq::<Seq<char>>::empty());
        return paths;
    }
    let ghost s = text@;
    let mut start: usize = 0;
    let mut i: usize = 0;
    proof {
        assert(spec_texts(paths@) =~= Seq::<Seq<char>>::empty());
        assert(s.subrange(0, s.len() as int) =~= s);
        assert(spec_texts(paths@) + spec_split(s.subrange(0, s.len() as int)) =~= spec_split(s));
    }
    while i < n
        invariant
            s == text@,
            n == s.len(),
            0 <= start <= i <= n,
            forall|j: int| start <= j < i ==> s[j] != ';',
            spec_split(s) == spec_texts(paths@) + spec_split(s.subrange(start as int, n as int)),
        decreases n - i,
    {
        if text.get_char(i) == ';' {
            let piece: &str = text.substring_char(start, i);
            let ghost before = spec_texts(paths@);
            let ghost rest = s.subrange(start as int, n as int);
            proof {
                assert(spec_first_separator(rest, i - start));
                let k = choose|k: int| spec_first_separator(rest, k);
                assert(k == i - start) by {
                    if k < i - start {
                        assert(s[start + k] == rest[k]);
                    }
                }
                assert(rest.subrange(0, i - start) =~= s.subrange(start as int, i as int));
                assert(rest.subrange(i - start + 1, rest.len() as int) =~= s.subrange(
                    i + 1,
                    n as int,
                ));
            }
            paths.push(piece.to_owned());
            proof {
                assert(spec_texts(paths@) =~= before.push(piece@));
                assert(before + (seq![piece@] + spec_split(s.subrange(i + 1, n as int)))
                    =~= before.push(piece@) + spec_split(s.subrange(i + 1, n as int)));
            }
            start = i + 1;
        }
        i = i + 1;
    }
    let piece: &str = text.substring_char(start, n);
    let ghost before = spec_texts(paths@);
    proof {
        let rest = s.subrange(start as int, n as int);
        assert(!(exists|k: int| spec_first_separator(rest, k))) by {
            if exists|k: int| spec_first_separator(rest, k) {
                let k = choose|k: int| spec_first_separator(rest, k);
                assert(s[start + k] == rest[k]);
            }
        }
    }
    paths.push(piece.to_owned());
    proof {
        assert(spec_texts(paths@) =~= before.push(piece@));
        assert(before + seq![piece@] =~= before.push(piece@));
    }
    paths
}

/// The search locations in the order in which they are searched: the
/// directory of the root image, then the directories of the search path of
/// the environment, then those that the user named.
pub fn search_order(root_directory: String, environment: Vec<String>, user: Vec<String>) -> (order:
    Vec<String>)
    ensures
        spec_texts(order@) == seq![root_directory@] + spec_texts(environment@) + spec_texts(user@),
{
    let mut order: Vec<String> = Vec::new();
    order.push(root_directory);
    let mut environment = environment;
    let mut user = user;
    let ghost first = spec_texts(order@);
    let ghost second = spec_texts(environment@);
    let ghost third = spec_texts(user@);
    order.append(&mut environment);
    assert(spec_texts(order@) =~= first + second);
    order.append(&mut user);
    assert(spec_texts(order@) =~= first + second + third);
    assert(first =~= seq![root_directory@]);
    order
}

} // verus!
