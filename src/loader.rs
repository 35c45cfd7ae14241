use vstd::prelude::*;
use vstd::utf8::{decode_utf8, valid_utf8};

verus! {

/// Why loading plugins from a directory, or one plugin, did not succeed.
#[derive(Debug, PartialEq, Eq)]
pub enum LoadError {
    /// The plugin directory does not exist.
    DirectoryNotFound,
    /// The plugin path exists but is no directory.
    NotADirectory,
    /// A file of the directory could not be opened as a dynamic library.
    LibraryOpenFailed(String),
    /// A library lacks one of the exported functions; the field names it.
    MissingSymbol(String),
    /// A metadata string of a plugin is not valid UTF-8.
    MetadataDecodeFailed,
    /// A plugin's `load_plugin` returned this nonzero status.
    PluginLoadFailed(i32),
}

/// What the file system says of the plugin directory's path.
#[derive(Clone, Copy, Debug, PartialEq, Eq, Structural)]
pub struct DirectoryProbe {
    pub exists: bool,
    pub is_dir: bool,
}

/// The kind of a directory entry.
#[derive(Clone, Copy, Debug, PartialEq, Eq, Structural)]
pub enum EntryKind {
    File,
    Directory,
    Other,
}

/// One entry of the plugin directory.
pub struct DirEntryInfo {
    pub path: String,
    pub kind: EntryKind,
}

/// The paths of the regular files among `entries`, in order.
pub open spec fn file_paths(entries: Seq<DirEntryInfo>) -> Seq<Seq<char>>
    decreases entries.len(),
{
    if entries.len() == 0 {
        Seq::empty()
    } else {
        let prefix = file_paths(entries.drop_last());
        if entries.last().kind == EntryKind::File {
            prefix.push(entries.last().path@)
        } else {
            prefix
        }
    }
}

/// The outcome of discovery for a probed directory and its entries.
pub open spec fn discovery_outcome(probe: DirectoryProbe, entries: Seq<DirEntryInfo>) -> Result<
    Seq<Seq<char>>,
    LoadError,
> {
    if !probe.exists {
        Err(LoadError::DirectoryNotFound)
    } else if !probe.is_dir {
        Err(LoadError::NotADirectory)
    } else {
        Ok(file_paths(entries))
    }
}

/// Decides which paths of a plugin directory are opened as libraries: every regular
/// file, whatever its extension, in the order of the listing. A path that does not
/// exist, or is no directory, is an error.
pub fn library_candidates(probe: DirectoryProbe, entries: &Vec<DirEntryInfo>) -> (r: Result<
    Vec<String>,
    LoadError,
>)
    ensures
        r is Ok <==> discovery_outcome(probe, entries@) is Ok,
        r is Err ==> discovery_outcome(probe, entries@) == Err::<Seq<Seq<char>>, LoadError>(
            r->Err_0,
        ),
        r is Ok ==> r->Ok_0@.map_values(|p: String| p@) == file_paths(entries@),
        probe.exists && probe.is_dir && (forall|i: int|
            0 <= i < entries@.len() ==> entries@[i].kind != EntryKind::File) ==> r is Ok
            && r->Ok_0@.len() == 0,
{
    if !probe.exists {
        return Err(LoadError::DirectoryNotFound);
    }
    if !probe.is_dir {
        return Err(LoadError::NotADirectory);
    }
    let mut paths: Vec<String> = Vec::new();
    let mut i: usize = 0;
    while i < entries.len()
        invariant
            i <= entries@.len(),
            paths@.map_values(|p: String| p@) == file_paths(entries@.take(i as int)),
        decreases entries@.len() - i,
    {
        proof {
            assert(entries@.take(i + 1).drop_last() =~= entries@.take(i as int));
        }
        let ghost before = paths@;
        if entries[i].kind == EntryKind::File {
            paths.push(entries[i].path.clone());
            proof {
                assert(paths@.map_values(|p: String| p@) =~= before.map_values(|p: String| p@).push(
                    entries@[i as int].path@,
                ));
            }
        }
        i = i + 1;
    }
    proof {
        assert(entries@.take(i as int) =~= entries@);
        lemma_no_files(entries@);
    }
    Ok(paths)
}

/// A listing without regular files has no library paths.
pub proof fn lemma_no_files(entries: Seq<DirEntryInfo>)
    ensures
        (forall|i: int| 0 <= i < entries.len() ==> entries[i].kind != EntryKind::File)
            ==> file_paths(entries).len() == 0,
    decreases entries.len(),
{
    if entries.len() > 0 {
        lemma_no_files(entries.drop_last());
        if forall|i: int| 0 <= i < entries.len() ==> entries[i].kind != EntryKind::File {
            assert(entries.last().kind != EntryKind::File);
            assert forall|i: int| 0 <= i < entries.drop_last().len() implies entries.drop_last()[i].kind
                != EntryKind::File by {
                assert(entries.drop_last()[i] == entries[i]);
            }
        }
    }
}

/// How many functions a plugin library exports.
pub const SYMBOL_COUNT: usize = 4;

/// The name of the `i`-th exported function, in the order in which they are bound.
pub open spec fn symbol_text(i: int) -> Seq<char> {
    if i == 0 {
        "get_author"@
    } else if i == 1 {
        "get_id"@
    } else if i == 2 {
        "load_plugin"@
    } else {
        "free_string"@
    }
}

/// The name of the `i`-th exported function.
pub fn symbol_name(i: usize) -> (r: &'static str)
    requires
        i < SYMBOL_COUNT,
    ensures
        r@ == symbol_text(i as int),
{
    if i == 0 {
        "get_author"
    } else if i == 1 {
        "get_id"
    } else if i == 2 {
        "load_plugin"
    } else {
        "free_string"
    }
}

/// The first position at which `found` is false, if any.
pub open spec fn first_missing(found: Seq<bool>) -> Option<int>
    decreases found.len(),
{
    if found.len() == 0 {
        None
    } else if !found[0] {
        Some(0)
    } else {
        match first_missing(found.drop_first()) {
            Some(i) => Some(i + 1),
            None => None,
        }
    }
}

/// Decides whether a library is bound, given for each exported function, in the
/// order of `symbol_name`, whether the library resolved it. Binding is all or
/// nothing: the first missing function is named in the error.
pub fn check_symbols(found: &Vec<bool>) -> (r: Result<(), LoadError>)
    requires
        found@.len() == SYMBOL_COUNT,
    ensures
        r is Ok <==> first_missing(found@) is None,
        r is Err ==> r->Err_0 is MissingSymbol && r->Err_0->MissingSymbol_0@ == symbol_text(
            first_missing(found@)->Some_0,
        ),
{
    let mut i: usize = 0;
    while i < SYMBOL_COUNT
        invariant
            found@.len() == SYMBOL_COUNT,
            i <= SYMBOL_COUNT,
            forall|j: int| 0 <= j < i ==> found@[j],
        decreases SYMBOL_COUNT - i,
    {
        if !found[i] {
            proof {
                lemma_first_missing(found@, i as int);
            }
            let name = String::from_str(symbol_name(i));
            return Err(LoadError::MissingSymbol(name));
        }
        i = i + 1;
    }
    proof {
        lemma_first_missing(found@, i as int);
    }
    Ok(())
}

/// When every position before `i` is true, `first_missing` is `i` if `i` is false,
/// and there is none if `i` is the end.
pub proof fn lemma_first_missing(found: Seq<bool>, i: int)
    requires
        0 <= i <= found.len(),
        forall|j: int| 0 <= j < i ==> found[j],
    ensures
        i < found.len() && !found[i] ==> first_missing(found) == Some(i),
        i == found.len() ==> first_missing(found) is None,
    decreases i,
{
    if i > 0 {
        lemma_first_missing(found.drop_first(), i - 1);
    }
}

/// Binding reports the one missing function: when exactly the `k`-th exported
/// function is missing, the first missing one is the `k`-th.
pub proof fn law_single_missing_symbol(found: Seq<bool>, k: int)
    requires
        found.len() == SYMBOL_COUNT,
        0 <= k < SYMBOL_COUNT,
        !found[k],
        forall|j: int| 0 <= j < SYMBOL_COUNT && j != k ==> found[j],
    ensures
        first_missing(found) == Some(k),
{
    lemma_first_missing(found, k);
}

/// Binding succeeds exactly when every exported function was found.
pub proof fn law_all_symbols_found(found: Seq<bool>)
    requires
        found.len() == SYMBOL_COUNT,
    ensures
        first_missing(found) is None <==> forall|j: int| 0 <= j < SYMBOL_COUNT ==> found[j],
{
    if forall|j: int| 0 <= j < SYMBOL_COUNT ==> found[j] {
        lemma_first_missing(found, SYMBOL_COUNT as int);
    } else {
        let k = choose|k: int| 0 <= k < SYMBOL_COUNT && !found[k];
        lemma_first_missing_exists(found, k);
    }
}

/// A false position means some position is the first missing one.
pub proof fn lemma_first_missing_exists(found: Seq<bool>, k: int)
    requires
        0 <= k < found.len(),
        !found[k],
    ensures
        first_missing(found) is Some,
    decreases k,
{
    if found[0] {
        lemma_first_missing_exists(found.drop_first(), k - 1);
    }
}

/// Relies on `std::str::from_utf8`: it accepts exactly the valid UTF-8 byte strings,
/// and then yields the characters that they encode.
#[verifier::external_body]
fn utf8_text(bytes: &[u8]) -> (r: Option<String>)
    ensures
        r is Some <==> valid_utf8(bytes@),
        r is Some ==> r->Some_0@ == decode_utf8(bytes@),
{
    match std::str::from_utf8(bytes) {
        Ok(s) => Some(s.to_string()),
        Err(_) => None,
    }
}

/// Decodes a metadata string that a plugin handed over, given its bytes before
/// the terminating NUL.
pub fn decode_metadata(bytes: &Vec<u8>) -> (r: Result<String, LoadError>)
    ensures
        r is Ok <==> valid_utf8(bytes@),
        r is Ok ==> r->Ok_0@ == decode_utf8(bytes@),
        r is Err ==> r->Err_0 == LoadError::MetadataDecodeFailed,
{
    match utf8_text(bytes.as_slice()) {
        Some(s) => Ok(s),
        None => Err(LoadError::MetadataDecodeFailed),
    }
}

/// What a bound plugin says of itself.
pub struct PluginInfo {
    pub author: String,
    pub id: String,
}

/// Decodes both metadata strings of a plugin; the author's is decoded first.
pub fn plugin_info(author: &Vec<u8>, id: &Vec<u8>) -> (r: Result<PluginInfo, LoadError>)
    ensures
        r is Ok <==> valid_utf8(author@) && valid_utf8(id@),
        r is Ok ==> r->Ok_0.author@ == decode_utf8(author@) && r->Ok_0.id@ == decode_utf8(id@),
        r is Err ==> r->Err_0 == LoadError::MetadataDecodeFailed,
{
    let author = match decode_metadata(author) {
        Ok(s) => s,
        Err(e) => return Err(e),
    };
    let id = match decode_metadata(id) {
        Ok(s) => s,
        Err(e) => return Err(e),
    };
    Ok(PluginInfo { author, id })
}

/// Interprets the status that a plugin's `load_plugin` returned: zero is success.
pub fn interpret_status(code: i32) -> (r: Result<(), LoadError>)
    ensures
        code == 0 ==> r is Ok,
        code != 0 ==> r == Err::<(), LoadError>(LoadError::PluginLoadFailed(code)),
{
    if code == 0 {
        Ok(())
    } else {
        Err(LoadError::PluginLoadFailed(code))
    }
}

/// The status that a plugin's exported `load_plugin` returns for the outcome of
/// its `load`: zero for success, `-1` for failure.
pub fn status_of<E>(outcome: &Result<(), E>) -> (r: i32)
    ensures
        outcome is Ok ==> r == 0,
        outcome is Err ==> r == -1,
{
    match outcome {
        Ok(_) => 0,
        Err(_) => -1,
    }
}

} // verus!
