//! Filling a preimage store from the listing of a directory.
//!
//! The directory holds one file per preimage. The name of the file, without
//! its extension, is the key in hex, and the bytes of the file are the value.
//! The caller lists the directory and reads the files; what it found comes
//! here as plain values.

use vstd::prelude::*;
use vstd::string::*;
use vstd::utf8::encode_utf8;
use crate::encoding::{
    decode_hex, hex_decoded, is_hex_text, lemma_lower_hex_text_decodes, lower_hex_text,
};
use crate::store::PreimageStore;

verus! {

/// One entry of a directory, as the caller found it.
#[derive(Clone, Debug, PartialEq, Eq)]
pub struct DirectoryEntry {
    /// The name of the entry without its extension.
    pub stem: String,
    /// Whether the entry is a regular file.
    pub is_file: bool,
    /// The bytes of the file; of no account where the entry is no file.
    pub contents: Vec<u8>,
}

/// Why no store could be loaded.
#[derive(Clone, Debug, PartialEq, Eq)]
pub enum LoadError {
    /// The directory could not be listed.
    DirectoryUnreadable,
    /// The file `name` is not named by 64 hex digits.
    MalformedPreimageEntry { name: String },
}

impl LoadError {
    /// What `message` says of the error.
    pub open spec fn message_text(self) -> Seq<char> {
        match self {
            LoadError::DirectoryUnreadable => "Failed to read data directory"@,
            LoadError::MalformedPreimageEntry { name } => "Malformed preimage entry: "@ + name@,
        }
    }

    /// The error in words; a malformed entry is named.
    pub fn message(&self) -> (text: String)
        ensures
            text@ == self.message_text(),
    {
        match self {
            LoadError::DirectoryUnreadable => String::from_str("Failed to read data directory"),
            LoadError::MalformedPreimageEntry { name } => {
                let mut text = String::from_str("Malformed preimage entry: ");
                text.append(name.as_str());
                text
            },
        }
    }
}

/// The key that a file name stands for: the 32 bytes that its 64 hex digits
/// decode to. `None` where the name is anything else.
pub open spec fn stem_key(stem: Seq<char>) -> Option<Seq<u8>> {
    let text = encode_utf8(stem);
    if is_hex_text(text) && text.len() == 64 {
        Some(hex_decoded(text))
    } else {
        None
    }
}

/// Whether the entry is a file whose name gives no key.
pub open spec fn is_malformed(entry: DirectoryEntry) -> bool {
    entry.is_file && stem_key(entry.stem@) is None
}

/// Whether the entry at `i` is malformed and none before it is.
pub open spec fn is_first_malformed(entries: Seq<DirectoryEntry>, i: int) -> bool {
    &&& 0 <= i < entries.len()
    &&& is_malformed(entries[i])
    &&& forall|j: int| 0 <= j < i ==> !is_malformed(#[trigger] entries[j])
}

/// Whether no entry is malformed.
pub open spec fn all_well_formed(entries: Seq<DirectoryEntry>) -> bool {
    forall|i: int| 0 <= i < entries.len() ==> !is_malformed(#[trigger] entries[i])
}

/// The number of regular files among the entries.
pub open spec fn file_count(entries: Seq<DirectoryEntry>) -> nat
    decreases entries.len(),
{
    if entries.len() == 0 {
        0
    } else {
        file_count(entries.drop_last()) + if entries.last().is_file {
            1nat
        } else {
            0nat
        }
    }
}

/// What the files among the entries hold, as a map from key to value. Where
/// two files give the same key, the later one counts. Entries that are no
/// files, and files whose names give no key, add nothing.
pub open spec fn loaded_preimages(entries: Seq<DirectoryEntry>) -> Map<Seq<u8>, Seq<u8>>
    decreases entries.len(),
{
    if entries.len() == 0 {
        Map::empty()
    } else {
        let earlier = loaded_preimages(entries.drop_last());
        let entry = entries.last();
        match stem_key(entry.stem@) {
            Some(key) => if entry.is_file {
                earlier.insert(key, entry.contents@)
            } else {
                earlier
            },
            None => earlier,
        }
    }
}

/// What loading the entries of a directory comes to: a store of what the
/// files hold where no entry is malformed, and otherwise the error that
/// names the first malformed entry.
pub open spec fn load_outcome(
    entries: Seq<DirectoryEntry>,
    loaded: Result<PreimageStore, LoadError>,
) -> bool {
    match loaded {
        Ok(store) => {
            &&& all_well_formed(entries)
            &&& store.wf()
            &&& store@ == loaded_preimages(entries)
        },
        Err(LoadError::MalformedPreimageEntry { name }) => exists|i: int|
            #[trigger] is_first_malformed(entries, i) && name@ == entries[i].stem@,
        Err(LoadError::DirectoryUnreadable) => false,
    }
}

/// Reads a file name as a preimage key.
pub fn parse_preimage_key(stem: &str) -> (key: Option<[u8; 32]>)
    ensures
        match key {
            Some(k) => stem_key(stem@) == Some(k@),
            None => stem_key(stem@) is None,
        },
{
    match decode_hex(stem.as_bytes()) {
        Ok(bytes) => {
            if bytes.len() == 32 {
                let mut key = [0u8;32];
                let mut i: usize = 0;
                while i < 32
                    invariant
                        i <= 32,
                        bytes.len() == 32,
                        forall|j: int| 0 <= j < i ==> key@[j] == bytes@[j],
                    decreases 32 - i,
                {
                    key[i] = bytes[i];
                    i = i + 1;
                }
                assert(key@ =~= bytes@);
                Some(key)
            } else {
                None
            }
        },
        Err(_) => None,
    }
}

/// Counts the regular files among the entries of a directory.
pub fn get_file_count(entries: &Vec<DirectoryEntry>) -> (count: usize)
    ensures
        count == file_count(entries@),
{
    let mut count: usize = 0;
    let mut i: usize = 0;
    while i < entries.len()
        invariant
            i <= entries.len(),
            count <= i,
            count == file_count(entries@.take(i as int)),
        decreases entries.len() - i,
    {
        assert(entries@.take(i + 1).drop_last() == entries@.take(i as int));
        if entries[i].is_file {
            count = count + 1;
        }
        i = i + 1;
    }
    assert(entries@.take(i as int) == entries@);
    count
}

/// Builds the preimage store of a directory from its listing; `None` stands
/// for a directory that could not be listed.
///
/// The store is sized for the number of regular files, then filled entry by
/// entry. Every regular file must be named by the 64 hex digits of its key:
/// at the first one that is not, loading stops, and the error names it.
/// Entries that are no regular files are passed over.
pub fn load_kv_store(listing: Option<Vec<DirectoryEntry>>) -> (loaded: Result<
    PreimageStore,
    LoadError,
>)
    ensures
        match listing {
            Some(entries) => load_outcome(entries@, loaded),
            None => loaded matches Err(LoadError::DirectoryUnreadable),
        },
{
    let entries = match listing {
        Some(entries) => entries,
        None => {
            return Err(LoadError::DirectoryUnreadable);
        },
    };
    let capacity = get_file_count(&entries);
    let mut store = PreimageStore::with_capacity(capacity);
    let ghost all = entries@;
    let total = entries.len();
    for entry in it: entries
        invariant
            it.seq() == all,
            listing matches Some(listed) && listed@ == all,
            all.len() == total,
            store.wf(),
            store@ == loaded_preimages(all.take(it.index())),
            store@.len() <= it.index(),
            forall|j: int| 0 <= j < it.index() ==> !is_malformed(#[trigger] all[j]),
    {
        let ghost i = it.index();
        assert(all.take(i + 1).drop_last() == all.take(i));
        assert(entry == all[i]);
        assert(i < all.len());
        if entry.is_file {
            match parse_preimage_key(entry.stem.as_str()) {
                Some(key) => {
                    let ghost before = store@;
                    proof {
                        store.lemma_wf_view();
                    }
                    store.insert(key, entry.contents);
                    assert(store@.dom() =~= before.dom().insert(key@));
                },
                None => {
                    assert(is_first_malformed(all, i));
                    return Err(LoadError::MalformedPreimageEntry { name: entry.stem });
                },
            }
        }
    }
    assert(all.take(all.len() as int) == all);
    Ok(store)
}

/// Whether every entry is a file named by a key of its own: each name gives
/// a key, and no two names give the same key.
pub open spec fn is_keyed_by_distinct_names(entries: Seq<DirectoryEntry>) -> bool {
    &&& forall|i: int|
        0 <= i < entries.len() ==> (#[trigger] entries[i]).is_file && stem_key(entries[i].stem@)
            is Some
    &&& forall|i: int, j: int|
        0 <= i < j < entries.len() ==> stem_key((#[trigger] entries[i]).stem@) != stem_key(
            (#[trigger] entries[j]).stem@,
        )
}

/// What is loaded is finite, holds no more entries than there are files, and
/// every key in it is the key of some file among the entries.
pub proof fn lemma_loaded_from_files(entries: Seq<DirectoryEntry>)
    ensures
        loaded_preimages(entries).dom().finite(),
        loaded_preimages(entries).len() <= file_count(entries),
        forall|k: Seq<u8>| #[trigger]
            loaded_preimages(entries).contains_key(k) ==> exists|i: int|
                0 <= i < entries.len() && (#[trigger] entries[i]).is_file && stem_key(
                    entries[i].stem@,
                ) == Some(k),
    decreases entries.len(),
{
    if entries.len() > 0 {
        let front = entries.drop_last();
        let earlier = loaded_preimages(front);
        lemma_loaded_from_files(front);
        assert forall|k: Seq<u8>| #[trigger]
            loaded_preimages(entries).contains_key(k) implies exists|i: int|
            0 <= i < entries.len() && (#[trigger] entries[i]).is_file && stem_key(
                entries[i].stem@,
            ) == Some(k) by {
            if earlier.contains_key(k) {
                let i = choose|i: int|
                    0 <= i < front.len() && (#[trigger] front[i]).is_file && stem_key(
                        front[i].stem@,
                    ) == Some(k);
                assert(entries[i] == front[i]);
            } else {
                assert(entries[entries.len() - 1] == entries.last());
            }
        }
    }
}

/// A directory of files, each named by a key of its own, loads as one entry
/// per file, and each file's bytes are found under the key that its name
/// gives.
pub proof fn lemma_distinct_files_all_loaded(
    entries: Seq<DirectoryEntry>,
    loaded: Result<PreimageStore, LoadError>,
)
    requires
        is_keyed_by_distinct_names(entries),
        load_outcome(entries, loaded),
    ensures
        loaded matches Ok(store) && store@ == loaded_preimages(entries),
        loaded_preimages(entries).dom().finite(),
        loaded_preimages(entries).len() == entries.len(),
        forall|i: int|
            0 <= i < entries.len() ==> {
                let key = stem_key((#[trigger] entries[i]).stem@)->0;
                &&& loaded_preimages(entries).contains_key(key)
                &&& loaded_preimages(entries)[key] == entries[i].contents@
            },
{
    lemma_distinct_names_loaded(entries);
    if loaded is Err {
        let i = choose|i: int| is_first_malformed(entries, i);
        assert(is_malformed(entries[i]));
    }
}

proof fn lemma_distinct_names_loaded(entries: Seq<DirectoryEntry>)
    requires
        is_keyed_by_distinct_names(entries),
    ensures
        loaded_preimages(entries).dom().finite(),
        loaded_preimages(entries).len() == entries.len(),
        forall|i: int|
            0 <= i < entries.len() ==> {
                let key = stem_key((#[trigger] entries[i]).stem@)->0;
                &&& loaded_preimages(entries).contains_key(key)
                &&& loaded_preimages(entries)[key] == entries[i].contents@
            },
    decreases entries.len(),
{
    if entries.len() > 0 {
        let front = entries.drop_last();
        let earlier = loaded_preimages(front);
        let last = entries.last();
        let last_key = stem_key(last.stem@)->0;
        assert(entries[entries.len() - 1] == last);
        assert forall|i: int| 0 <= i < front.len() implies front[i] == entries[i] by {}
        assert(is_keyed_by_distinct_names(front));
        lemma_distinct_names_loaded(front);
        lemma_loaded_from_files(front);
        if earlier.contains_key(last_key) {
            let i = choose|i: int|
                0 <= i < front.len() && (#[trigger] front[i]).is_file && stem_key(front[i].stem@)
                    == Some(last_key);
            assert(stem_key(entries[i].stem@) != stem_key(entries[entries.len() - 1].stem@));
        }
        assert(loaded_preimages(entries) == earlier.insert(last_key, last.contents@));
        assert forall|i: int| 0 <= i < entries.len() implies {
            let key = stem_key((#[trigger] entries[i]).stem@)->0;
            &&& loaded_preimages(entries).contains_key(key)
            &&& loaded_preimages(entries)[key] == entries[i].contents@
        } by {
            if i < front.len() {
                assert(front[i] == entries[i]);
                assert(stem_key(entries[i].stem@) != stem_key(
                    entries[entries.len() - 1].stem@,
                ));
            }
        }
    }
}

/// One file whose name is not the 64 hex digits of a key is enough for the
/// whole load to fail: there is no store then, not even of the other files.
pub proof fn lemma_malformed_entry_fails_load(
    entries: Seq<DirectoryEntry>,
    i: int,
    loaded: Result<PreimageStore, LoadError>,
)
    requires
        0 <= i < entries.len(),
        entries[i].is_file,
        !is_hex_text(encode_utf8(entries[i].stem@)) || encode_utf8(entries[i].stem@).len() != 64,
        load_outcome(entries, loaded),
    ensures
        loaded matches Err(LoadError::MalformedPreimageEntry { name }) && exists|j: int|
            0 <= j <= i && is_malformed(#[trigger] entries[j]) && name@ == entries[j].stem@,
{
    assert(is_malformed(entries[i]));
    match loaded {
        Err(LoadError::MalformedPreimageEntry { name }) => {
            let j = choose|j: int| #[trigger]
                is_first_malformed(entries, j) && name@ == entries[j].stem@;
            if j > i {
                assert(!is_malformed(entries[i]));
            }
            assert(is_malformed(entries[j]));
        },
        _ => {},
    }
}

/// A file named by the lower-case hex of a 32-byte key is read as an entry
/// for that key.
pub proof fn lemma_hex_name_gives_key(key: Seq<u8>)
    requires
        key.len() == 32,
    ensures
        stem_key(lower_hex_text(key)) == Some(key),
{
    lemma_lower_hex_text_decodes(key);
}

} // verus!
