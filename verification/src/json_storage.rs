//! The file-backed store: every snippet in memory, and the whole of them
//! written out as one document after each change. The store never touches
//! the file itself. It is made from what became of reading the file,
//! `save_to_file` hands out what the file must hold next, and `write_done`
//! takes what became of writing it.

use vstd::prelude::*;
use crate::clock::local_timestamp;
use crate::document::{
    decode_json, distinct_members, encode_json, entries_as_read, entries_records, fields_of,
    fields_snippet, json_entries, json_text, lemma_distinct_entries, lemma_fields_round_trip,
    lemma_spoiled_prefix, records_entries, snippet_of, Entries, ReadEntries, ReadEntriesView,
};
use crate::records::{
    contents_of, has_name, index_of, lemma_contents_len, lemma_found_at, lemma_upserted,
    lemma_without, upserted, without, Records,
};
use crate::snippet::{render, Snippet, SnippetView};
use crate::storage::{added, shown, Contents, SnippetStorage, StorageError};

verus! {

struct Record {
    name: String,
    snippet: Snippet,
}

spec fn view_of(entries: Seq<Record>) -> Records {
    Seq::new(entries.len(), |i: int| (entries[i].name@, entries[i].snippet@))
}

/// Where the record called `name` stands.
fn find(entries: &Vec<Record>, name: &String) -> (place: Option<usize>)
    requires
        distinct_members(view_of(entries@)),
    ensures
        match place {
            Some(i) => {
                &&& i < entries.len()
                &&& entries[i as int].name@ == name@
                &&& has_name(view_of(entries@), name@)
                &&& index_of(view_of(entries@), name@) == i
            },
            None => !has_name(view_of(entries@), name@),
        },
{
    let mut i: usize = 0;
    while i < entries.len()
        invariant
            i <= entries.len(),
            distinct_members(view_of(entries@)),
            forall|j: int| 0 <= j < i ==> (#[trigger] view_of(entries@)[j]).0 != name@,
        decreases entries.len() - i,
    {
        if entries[i].name == *name {
            proof {
                assert(view_of(entries@)[i as int].0 == name@);
                lemma_found_at(view_of(entries@), i as int);
            }
            return Some(i);
        }
        i += 1;
    }
    None
}

/// Stores `snippet` under `name`: over the record of that name, or at the
/// end.
fn upsert(entries: &mut Vec<Record>, name: String, snippet: Snippet)
    requires
        distinct_members(view_of(old(entries)@)),
    ensures
        view_of(final(entries)@) == upserted(view_of(old(entries)@), name@, snippet@),
        distinct_members(view_of(final(entries)@)),
{
    proof {
        lemma_upserted(view_of(entries@), name@, snippet@);
    }
    match find(entries, &name) {
        Some(i) => {
            entries.set(i, Record { name, snippet });
            assert(view_of(entries@) =~= upserted(view_of(old(entries)@), name@, snippet@));
        },
        None => {
            entries.push(Record { name, snippet });
            assert(view_of(entries@) =~= upserted(view_of(old(entries)@), name@, snippet@));
        },
    }
}

/// A rewrite of the whole backing file, for the caller to carry out.
#[derive(Debug)]
pub struct FileWrite {
    pub path: String,
    pub document: String,
}

/// What a store holds when it is made from `entries`, the members read from
/// the backing file: their records, or nothing where there was no document
/// or the document was spoiled.
pub open spec fn recovered(entries: Option<ReadEntriesView>) -> Records {
    match entries {
        Some(members) => match entries_records(members) {
            Some(records) => records,
            None => Seq::empty(),
        },
        None => Seq::empty(),
    }
}

/// What a store holds when it is made from `existing`, the text of the
/// backing file: nothing where there is no file or serde_json does not read
/// the text as a document.
pub open spec fn loaded(existing: Option<Seq<char>>) -> Records {
    match existing {
        Some(text) => recovered(json_entries(text)),
        None => Seq::empty(),
    }
}

/// The view of a text that may be missing.
pub open spec fn text_view(text: Option<&str>) -> Option<Seq<char>> {
    match text {
        Some(t) => Some(t@),
        None => None,
    }
}

/// The rewrite of the file at `path` with the document that serde_json
/// gave, or the error that stands for a document that could not be made.
pub fn file_write(path: &str, encoded: Option<String>) -> (write: Result<FileWrite, StorageError>)
    ensures
        match encoded {
            Some(document) => {
                &&& write matches Ok(w)
                &&& w.path@ == path@
                &&& w.document@ == document@
            },
            None => write == Err::<FileWrite, _>(StorageError::Serialization),
        },
{
    match encoded {
        Some(document) => Ok(FileWrite { path: path.to_owned(), document }),
        None => Err(StorageError::Serialization),
    }
}

/// What became of reading the backing file.
#[derive(Debug)]
pub enum FileRead {
    /// There is no such file.
    Missing,
    /// There is a file, and it could not be read.
    Unreadable,
    /// The file was read and holds no text.
    NotText,
    /// The text that the file holds.
    Text(String),
}

pub struct JsonStorage {
    file_path: String,
    entries: Vec<Record>,
    unsaved: bool,
    handed_out: bool,
}

impl JsonStorage {
    #[verifier::type_invariant]
    spec fn well_formed(&self) -> bool {
        &&& distinct_members(view_of(self.entries@))
        &&& self.handed_out ==> self.unsaved
    }

    /// The snippets held with their names, in the order in which the names
    /// first came in.
    pub closed spec fn records(&self) -> Records {
        view_of(self.entries@)
    }

    /// The path of the backing file.
    pub closed spec fn path(&self) -> Seq<char> {
        self.file_path@
    }

    /// Whether the store has changed since the backing file was read or
    /// last rewritten with success: the file is behind the store.
    pub closed spec fn unsaved(&self) -> bool {
        self.unsaved
    }

    /// Whether a rewrite for the store as it is now was handed out and its
    /// outcome is not yet known.
    pub closed spec fn awaiting(&self) -> bool {
        self.handed_out
    }

    /// The store over the file at `path`, given the text that the file holds
    /// (nothing where there is no file). A text that is no document gives an
    /// empty store and no error.
    pub fn new(path: String, existing: Option<&str>) -> (storage: Self)
        ensures
            storage.path() == path@,
            storage.records() == loaded(text_view(existing)),
            distinct_members(storage.records()),
            !storage.unsaved(),
            !storage.awaiting(),
    {
        let entries: Option<ReadEntries> = match existing {
            Some(text) => match decode_json(text) {
                Ok(members) => Some(members),
                Err(_) => None,
            },
            None => None,
        };
        Self::from_entries(path, entries)
    }

    /// The store over the file at `path`, given what became of reading the
    /// file. A file that is there and cannot be read is a failure: the store
    /// is not made, so that the file is not written over. A missing file, a
    /// file that holds no text and a text that is no document give an empty
    /// store.
    pub fn open(path: String, read: FileRead) -> (opened: Result<Self, StorageError>)
        ensures
            match read {
                FileRead::Missing => {
                    &&& opened matches Ok(storage)
                    &&& storage.path() == path@
                    &&& storage.records() == loaded(None)
                    &&& !storage.unsaved()
                    &&& !storage.awaiting()
                },
                FileRead::Unreadable => opened matches Err(error) && error
                    == StorageError::Unavailable,
                FileRead::NotText => {
                    &&& opened matches Ok(storage)
                    &&& storage.path() == path@
                    &&& storage.records() == Seq::<(Seq<char>, SnippetView)>::empty()
                    &&& !storage.unsaved()
                    &&& !storage.awaiting()
                },
                FileRead::Text(text) => {
                    &&& opened matches Ok(storage)
                    &&& storage.path() == path@
                    &&& storage.records() == loaded(Some(text@))
                    &&& !storage.unsaved()
                    &&& !storage.awaiting()
                },
            },
    {
        match read {
            FileRead::Missing => Ok(Self::new(path, None)),
            FileRead::Unreadable => Err(StorageError::Unavailable),
            FileRead::NotText => Ok(Self::from_entries(path, None)),
            FileRead::Text(text) => Ok(Self::new(path, Some(text.as_str()))),
        }
    }

    /// The store over the file at `path`, given the members of the document
    /// that the file holds (nothing where there is no document).
    pub fn from_entries(path: String, entries: Option<ReadEntries>) -> (storage: Self)
        ensures
            storage.path() == path@,
            storage.records() == recovered(entries.deep_view()),
            distinct_members(storage.records()),
            !storage.unsaved(),
            !storage.awaiting(),
    {
        let mut records: Vec<Record> = Vec::new();
        if let Some(members) = entries {
            let ghost all = members.deep_view();
            let mut i: usize = 0;
            assert(all.take(0) =~= Seq::empty());
            while i < members.len()
                invariant
                    i <= members.len(),
                    all == members.deep_view(),
                    entries.deep_view() == Some(all),
                    entries_records(all.take(i as int)) == Some(view_of(records@)),
                    distinct_members(view_of(records@)),
                decreases members.len() - i,
            {
                proof {
                    assert(all.take(i + 1).drop_last() =~= all.take(i as int));
                    assert(all.take(i + 1).last() == all[i as int]);
                }
                match snippet_of(&members[i].1) {
                    Some(snippet) => {
                        upsert(&mut records, members[i].0.clone(), snippet);
                    },
                    None => {
                        let none: Vec<Record> = Vec::new();
                        proof {
                            lemma_spoiled_prefix(all, i + 1);
                            assert(view_of(none@) =~= Seq::empty());
                        }
                        return JsonStorage {
                            file_path: path,
                            entries: none,
                            unsaved: false,
                            handed_out: false,
                        };
                    },
                }
                i += 1;
            }
            assert(all.take(i as int) =~= all);
        }
        JsonStorage { file_path: path, entries: records, unsaved: false, handed_out: false }
    }

    /// The path of the backing file.
    pub fn file_path(&self) -> (path: &str)
        ensures
            path@ == self.path(),
    {
        self.file_path.as_str()
    }

    /// The number of snippets held.
    pub fn len(&self) -> (count: usize)
        ensures
            count == self.records().len(),
            count == self.contents().len(),
    {
        proof {
            use_type_invariant(self);
            lemma_contents_len(self.records());
        }
        self.entries.len()
    }

    /// Whether nothing is held.
    pub fn is_empty(&self) -> (empty: bool)
        ensures
            empty == (self.records().len() == 0),
    {
        self.entries.len() == 0
    }

    /// Whether the backing file is behind the store.
    pub fn needs_save(&self) -> (unsaved: bool)
        ensures
            unsaved == self.unsaved(),
    {
        self.unsaved
    }

    /// Stores `snippet` under `name`, in place of what was stored under
    /// that name.
    pub fn insert(&mut self, name: String, snippet: Snippet)
        ensures
            final(self).records() == upserted(old(self).records(), name@, snippet@),
            final(self).contents() == old(self).contents().insert(name@, snippet@),
            distinct_members(final(self).records()),
            final(self).path() == old(self).path(),
            final(self).unsaved(),
            !final(self).awaiting(),
    {
        proof {
            use_type_invariant(&*self);
            lemma_upserted(self.records(), name@, snippet@);
        }
        self.handed_out = false;
        let mut entries: Vec<Record> = Vec::new();
        std::mem::swap(&mut self.entries, &mut entries);
        upsert(&mut entries, name, snippet);
        self.entries = entries;
        self.unsaved = true;
    }

    /// The members of the document that stands for the store.
    fn entries_of(&self) -> (entries: Entries)
        ensures
            entries.deep_view() == records_entries(self.records()),
            distinct_members(entries.deep_view()),
            forall|i: int|
                0 <= i < entries.len() ==> distinct_members(#[trigger] entries.deep_view()[i].1),
    {
        proof {
            use_type_invariant(self);
        }
        let mut entries: Entries = Vec::new();
        let mut i: usize = 0;
        while i < self.entries.len()
            invariant
                i <= self.entries.len(),
                entries.len() == i,
                forall|j: int|
                    0 <= j < i ==> #[trigger] entries.deep_view()[j] == records_entries(
                        self.records(),
                    )[j],
                forall|j: int|
                    0 <= j < i ==> distinct_members(#[trigger] entries.deep_view()[j].1),
            decreases self.entries.len() - i,
        {
            let ghost before = entries.deep_view();
            let fields = fields_of(&self.entries[i].snippet);
            let ghost member = (self.entries[i as int].name@, fields.deep_view());
            entries.push((self.entries[i].name.clone(), fields));
            assert(entries.deep_view() =~= before.push(member));
            i += 1;
        }
        assert(entries.deep_view() =~= records_entries(self.records()));
        assert forall|a: int, b: int| 0 <= a < b < entries.len() implies (#[trigger] entries.deep_view()[a]).0
            != (#[trigger] entries.deep_view()[b]).0 by {
            assert(self.records()[a].0 != self.records()[b].0);
        }
        entries
    }

    /// The rewrite of the whole file that is due, where the file is behind
    /// the store, and nothing where it is not. A rewrite is always had: the
    /// document of a store can always be made. The file stays behind the
    /// store until `write_done` is told that the rewrite succeeded.
    pub fn save_to_file(&mut self) -> (due: Result<Option<FileWrite>, StorageError>)
        ensures
            final(self).records() == old(self).records(),
            final(self).path() == old(self).path(),
            final(self).unsaved() == old(self).unsaved(),
            due is Ok,
            match due {
                Ok(Some(write)) => {
                    &&& old(self).unsaved()
                    &&& final(self).awaiting()
                    &&& write.path@ == old(self).path()
                    &&& write.document@ == json_text(records_entries(old(self).records()))
                },
                Ok(None) => !old(self).unsaved() && !final(self).awaiting(),
                Err(_) => false,
            },
    {
        proof {
            use_type_invariant(&*self);
        }
        if !self.unsaved {
            return Ok(None);
        }
        let entries = self.entries_of();
        let encoded: Option<String> = match encode_json(&entries) {
            Ok(text) => Some(text),
            Err(_) => None,
        };
        match file_write(self.file_path.as_str(), encoded) {
            Ok(write) => {
                self.handed_out = true;
                Ok(Some(write))
            },
            Err(error) => Err(error),
        }
    }

    /// Takes the outcome of carrying out the rewrite that `save_to_file`
    /// handed out. After a success the file is level with the store, unless
    /// the store has changed since the rewrite was handed out. After a
    /// failure the rewrite stays due and the failure is reported.
    pub fn write_done(&mut self, succeeded: bool) -> (done: Result<(), StorageError>)
        ensures
            final(self).records() == old(self).records(),
            final(self).path() == old(self).path(),
            !final(self).awaiting(),
            final(self).unsaved() == (old(self).unsaved() && !(old(self).awaiting() && succeeded)),
            done == (if succeeded {
                Ok::<(), StorageError>(())
            } else {
                Err(StorageError::WriteFailed)
            }),
    {
        proof {
            use_type_invariant(&*self);
        }
        if self.handed_out && succeeded {
            self.handed_out = false;
            self.unsaved = false;
        } else {
            self.handed_out = false;
        }
        if succeeded {
            Ok(())
        } else {
            Err(StorageError::WriteFailed)
        }
    }
}

impl SnippetStorage for JsonStorage {
    /// The store holds its snippets itself.
    open spec fn modelled(&self) -> bool {
        true
    }

    open spec fn contents(&self) -> Contents {
        contents_of(self.records())
    }

    /// Stamps the snippet with the local time of the call. This backend
    /// always succeeds: what can fail is the rewrite of the file, which
    /// `save_to_file` prepares.
    fn add(&mut self, name: &str, content: String) -> (done: Result<(), StorageError>)
        ensures
            done is Ok,
            added(old(self).contents(), final(self).contents(), name@, content@),
            exists|created_at: Seq<char>|
                created_at.len() > 0 && final(self).records() == upserted(
                    old(self).records(),
                    name@,
                    SnippetView { content: content@, created_at },
                ),
            distinct_members(final(self).records()),
            final(self).path() == old(self).path(),
            final(self).unsaved(),
            !final(self).awaiting(),
    {
        let created_at = local_timestamp();
        let ghost snippet = SnippetView { content: content@, created_at: created_at@ };
        self.insert(name.to_owned(), Snippet { content, created_at });
        proof {
            assert(self.contents()[name@] == snippet);
            assert(self.records() == upserted(old(self).records(), name@, snippet));
        }
        Ok(())
    }

    fn get(&self, name: &str) -> (found: Option<String>) {
        proof {
            use_type_invariant(self);
        }
        match find(&self.entries, &name.to_owned()) {
            Some(i) => {
                proof {
                    lemma_found_at(self.records(), i as int);
                }
                let snippet = &self.entries[i].snippet;
                Some(render(snippet.content.as_str(), snippet.created_at.as_str()))
            },
            None => None,
        }
    }

    /// Always succeeds on this backend. A removal makes a rewrite of the
    /// file due; a miss does not.
    fn delete(&mut self, name: &str) -> (removed: Result<bool, StorageError>)
        ensures
            removed is Ok,
            final(self).records() == without(old(self).records(), name@),
            distinct_members(final(self).records()),
            final(self).path() == old(self).path(),
            final(self).unsaved() == (old(self).unsaved() || removed == Ok::<bool, StorageError>(
                true,
            )),
            final(self).awaiting() == (old(self).awaiting() && removed == Ok::<
                bool,
                StorageError,
            >(false)),
    {
        proof {
            use_type_invariant(&*self);
            lemma_without(self.records(), name@);
        }
        match find(&self.entries, &name.to_owned()) {
            Some(i) => {
                proof {
                    lemma_found_at(self.records(), i as int);
                }
                self.handed_out = false;
                let mut entries: Vec<Record> = Vec::new();
                std::mem::swap(&mut self.entries, &mut entries);
                entries.remove(i);
                assert(view_of(entries@) =~= without(old(self).records(), name@));
                self.entries = entries;
                self.unsaved = true;
                Ok(true)
            },
            None => Ok(false),
        }
    }
}

/// Among distinct names, a name that is held is held by one record only.
pub proof fn law_one_record_per_name(records: Records, name: Seq<char>, i: int, j: int)
    requires
        distinct_members(records),
        0 <= i < records.len(),
        0 <= j < records.len(),
        records[i].0 == name,
        records[j].0 == name,
    ensures
        i == j,
        i == index_of(records, name),
{
    lemma_found_at(records, i);
    lemma_found_at(records, j);
}

/// Two documents hold the same members, in whatever order.
pub open spec fn same_members(a: ReadEntriesView, b: ReadEntriesView) -> bool {
    &&& forall|i: int| 0 <= i < a.len() ==> b.contains(#[trigger] a[i])
    &&& forall|j: int| 0 <= j < b.len() ==> a.contains(#[trigger] b[j])
}

/// A store made from the document that another store wrote holds the same
/// snippets as that store, in whatever order the members come back: `get`
/// shows the same for every name.
pub proof fn law_reload(records: Records, entries: ReadEntriesView)
    requires
        distinct_members(records),
        distinct_members(entries),
        same_members(entries, entries_as_read(records_entries(records))),
    ensures
        contents_of(recovered(Some(entries))) == contents_of(records),
        forall|name: Seq<char>|
            shown(contents_of(recovered(Some(entries))), name) == shown(contents_of(records), name),
{
    let written = entries_as_read(records_entries(records));
    assert forall|i: int| 0 <= i < entries.len() implies fields_snippet(
        #[trigger] entries[i].1,
    ) is Some by {
        assert(written.contains(entries[i]));
        let j = choose|j: int| 0 <= j < written.len() && written[j] == entries[i];
        lemma_fields_round_trip(records[j].1);
    }
    lemma_distinct_entries(entries);
    let read = recovered(Some(entries));
    assert(read.len() == entries.len());
    assert forall|a: int, b: int| 0 <= a < b < read.len() implies (#[trigger] read[a]).0
        != (#[trigger] read[b]).0 by {
        assert(entries[a].0 != entries[b].0);
    }
    assert forall|name: Seq<char>| has_name(read, name) == has_name(records, name) by {
        if has_name(read, name) {
            let i = index_of(read, name);
            assert(written.contains(entries[i]));
            let j = choose|j: int| 0 <= j < written.len() && written[j] == entries[i];
            assert(records[j].0 == name);
        }
        if has_name(records, name) {
            let j = index_of(records, name);
            assert(entries.contains(written[j]));
            let i = choose|i: int| 0 <= i < entries.len() && entries[i] == written[j];
            assert(read[i].0 == name);
        }
    }
    assert forall|name: Seq<char>| has_name(read, name) implies contents_of(read)[name]
        == contents_of(records)[name] by {
        let i = index_of(read, name);
        assert(written.contains(entries[i]));
        let j = choose|j: int| 0 <= j < written.len() && written[j] == entries[i];
        lemma_fields_round_trip(records[j].1);
        lemma_found_at(read, i);
        lemma_found_at(records, j);
    }
    assert(contents_of(read) =~= contents_of(records));
}

} // verus!
