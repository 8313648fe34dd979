//! The storage contract that every backend meets, and the repository that
//! callers hold instead of a backend.

use vstd::prelude::*;
use crate::snippet::{lemma_rendered_shape, rendered, SnippetView};

verus! {

/// Why an operation on a store did not come about.
#[derive(Debug, Clone, Copy, PartialEq, Eq)]
pub enum StorageError {
    /// The backing file or database could not be opened or created.
    Unavailable,
    /// The snippets could not be turned into a document.
    Serialization,
    /// The backend could not carry out a write.
    WriteFailed,
}

impl StorageError {
    /// The message shown to the user.
    pub fn message(&self) -> (text: &'static str)
        ensures
            text@ == (match *self {
                StorageError::Unavailable => "could not open the snippet storage"@,
                StorageError::Serialization => "could not serialize the snippets"@,
                StorageError::WriteFailed => "could not write to the snippet storage"@,
            }),
    {
        match self {
            StorageError::Unavailable => "could not open the snippet storage",
            StorageError::Serialization => "could not serialize the snippets",
            StorageError::WriteFailed => "could not write to the snippet storage",
        }
    }
}

/// The snippets of a store, by name.
pub type Contents = Map<Seq<char>, SnippetView>;

/// `after` is `before` with `content` stored under `name` and stamped with
/// some time, whatever was there, and with every other snippet as it was.
pub open spec fn added(before: Contents, after: Contents, name: Seq<char>, content: Seq<char>) -> bool {
    &&& after.contains_key(name)
    &&& after[name].content == content
    &&& after[name].created_at.len() > 0
    &&& after == before.insert(name, after[name])
}

/// What `delete` reports for `name`: whether a snippet is stored under it.
pub open spec fn holds(contents: Contents, name: Seq<char>) -> bool {
    contents.contains_key(name)
}

/// What `get` returns for `name`: the rendering of the snippet stored under
/// it, or nothing.
pub open spec fn shown(contents: Contents, name: Seq<char>) -> Option<Seq<char>> {
    if contents.contains_key(name) {
        Some(rendered(contents[name]))
    } else {
        None
    }
}

/// The view of what `get` returns.
pub open spec fn text_of(found: Option<String>) -> Option<Seq<char>> {
    match found {
        Some(text) => Some(text@),
        None => None,
    }
}

/// What every backend offers. The contract is stated over `contents`, the
/// snippets that the backend holds. A backend that leaves its snippets to a
/// database engine holds none that a contract could speak of: it is not
/// `modelled`, and of it the contract says nothing.
pub trait SnippetStorage {
    /// Whether `contents` speaks of the snippets of this backend.
    open spec fn modelled(&self) -> bool {
        false
    }

    /// The snippets held, by name.
    open spec fn contents(&self) -> Contents {
        Map::empty()
    }

    /// Stores `content` under `name` with the time of the call, in place of
    /// what was stored under that name. A backend that holds its snippets
    /// itself always does so and reports success: the error is for a backend
    /// whose medium can refuse the write.
    fn add(&mut self, name: &str, content: String) -> (done: Result<(), StorageError>)
        ensures
            final(self).modelled() == old(self).modelled(),
            old(self).modelled() ==> done is Ok,
            old(self).modelled() ==> added(
                old(self).contents(),
                final(self).contents(),
                name@,
                content@,
            ),
    ;

    /// The snippet stored under `name`, rendered, or nothing. The store is
    /// left as it is.
    fn get(&self, name: &str) -> (found: Option<String>)
        ensures
            self.modelled() ==> text_of(found) == shown(self.contents(), name@),
    ;

    /// Removes the snippet stored under `name` and says whether there was
    /// one. A name that is not stored is no error. A backend that holds its
    /// snippets itself always reports success: the error is for a backend
    /// whose medium can refuse the removal.
    fn delete(&mut self, name: &str) -> (removed: Result<bool, StorageError>)
        ensures
            final(self).modelled() == old(self).modelled(),
            old(self).modelled() ==> removed == Ok::<bool, StorageError>(
                holds(old(self).contents(), name@),
            ),
            old(self).modelled() ==> final(self).contents() == old(self).contents().remove(name@),
    ;
}

/// A boxed backend is a backend: each call goes on to what is in the box.
impl<S: SnippetStorage + ?Sized> SnippetStorage for Box<S> {
    open spec fn modelled(&self) -> bool {
        (**self).modelled()
    }

    open spec fn contents(&self) -> Contents {
        (**self).contents()
    }

    /// What the backend in the box does and reports.
    fn add(&mut self, name: &str, content: String) -> (done: Result<(), StorageError>) {
        (**self).add(name, content)
    }

    fn get(&self, name: &str) -> (found: Option<String>) {
        (**self).get(name)
    }

    fn delete(&mut self, name: &str) -> (removed: Result<bool, StorageError>) {
        (**self).delete(name)
    }
}

/// The one thing callers hold: a backend of any kind behind the three
/// operations. It owns the backend and adds nothing of its own.
pub struct SnippetRepository<S: SnippetStorage> {
    storage: S,
}

impl<S: SnippetStorage> SnippetRepository<S> {
    /// Whether `contents` speaks of the snippets of the backend.
    pub closed spec fn modelled(&self) -> bool {
        self.storage.modelled()
    }

    /// The snippets held, by name: those of the backend.
    pub closed spec fn contents(&self) -> Contents {
        self.storage.contents()
    }

    pub fn new(storage: S) -> (repository: Self)
        ensures
            repository.modelled() == storage.modelled(),
            repository.contents() == storage.contents(),
    {
        Self { storage }
    }

    /// Hands the call on to the backend. Over a backend that holds its
    /// snippets itself the snippet is stored and success is reported.
    pub fn add(&mut self, name: &str, content: String) -> (done: Result<(), StorageError>)
        ensures
            final(self).modelled() == old(self).modelled(),
            old(self).modelled() ==> done is Ok,
            old(self).modelled() ==> added(
                old(self).contents(),
                final(self).contents(),
                name@,
                content@,
            ),
    {
        self.storage.add(name, content)
    }

    pub fn get(&self, name: &str) -> (found: Option<String>)
        ensures
            self.modelled() ==> text_of(found) == shown(self.contents(), name@),
    {
        self.storage.get(name)
    }

    /// Hands the call on to the backend. Over a backend that holds its
    /// snippets itself the removal is made and it is reported whether there
    /// was a snippet.
    pub fn delete(&mut self, name: &str) -> (removed: Result<bool, StorageError>)
        ensures
            final(self).modelled() == old(self).modelled(),
            old(self).modelled() ==> removed == Ok::<bool, StorageError>(
                holds(old(self).contents(), name@),
            ),
            old(self).modelled() ==> final(self).contents() == old(self).contents().remove(name@),
    {
        self.storage.delete(name)
    }

    /// Gives the backend back.
    pub fn into_inner(self) -> (storage: S)
        ensures
            storage.modelled() == self.modelled(),
            storage.contents() == self.contents(),
    {
        self.storage
    }
}

/// A repository over a backend chosen when the program runs.
pub type DynRepository = SnippetRepository<Box<dyn SnippetStorage>>;

/// After `content` was added under `name`, `get` of that name shows a text
/// that begins with `content` and carries a creation time that is not
/// empty.
pub proof fn law_get_after_add(
    before: Contents,
    after: Contents,
    name: Seq<char>,
    content: Seq<char>,
)
    requires
        added(before, after, name, content),
    ensures
        shown(after, name) == Some(rendered(after[name])),
        after[name].content == content,
        after[name].created_at.len() > 0,
        content.is_prefix_of(shown(after, name).unwrap()),
{
    lemma_rendered_shape(after[name]);
}

/// Two additions under one name leave one snippet under that name, with
/// the content of the second, and no other snippet is touched: the store
/// is as if only the second addition had been made.
pub proof fn law_add_twice(
    start: Contents,
    middle: Contents,
    end: Contents,
    name: Seq<char>,
    first: Seq<char>,
    second: Seq<char>,
)
    requires
        added(start, middle, name, first),
        added(middle, end, name, second),
    ensures
        added(start, end, name, second),
        end[name].content == second,
        end.dom() == start.dom().insert(name),
        forall|other: Seq<char>|
            other != name && start.contains_key(other) ==> end[other] == start[other],
{
    assert(end =~= start.insert(name, end[name]));
}

/// Deleting a name under which nothing is stored reports that nothing was
/// removed and leaves every snippet as it was.
pub proof fn law_delete_absent(contents: Contents, name: Seq<char>)
    requires
        !contents.contains_key(name),
    ensures
        !holds(contents, name),
        contents.remove(name) == contents,
{
    assert(contents.remove(name) =~= contents);
}

/// Deleting is idempotent: after a deletion, a second one reports that
/// nothing was removed and changes nothing.
pub proof fn law_delete_twice(contents: Contents, name: Seq<char>)
    ensures
        !holds(contents.remove(name), name),
        contents.remove(name).remove(name) == contents.remove(name),
        shown(contents.remove(name), name) is None,
{
    assert(contents.remove(name).remove(name) =~= contents.remove(name));
}

/// Deleting a name right after an addition under it reports a removal, and
/// `get` of that name then shows nothing. What is left is what was there
/// before the addition, without that name.
pub proof fn law_delete_after_add(
    before: Contents,
    after: Contents,
    name: Seq<char>,
    content: Seq<char>,
)
    requires
        added(before, after, name, content),
    ensures
        holds(after, name),
        shown(after.remove(name), name) is None,
        after.remove(name) == before.remove(name),
        !holds(after.remove(name), name),
{
    assert(after.remove(name) =~= before.remove(name));
}

/// `get` of one name is not changed by an addition or a deletion under
/// another name.
pub proof fn law_other_names_untouched(
    before: Contents,
    after: Contents,
    name: Seq<char>,
    content: Seq<char>,
    other: Seq<char>,
)
    requires
        added(before, after, name, content),
        other != name,
    ensures
        shown(after, other) == shown(before, other),
        shown(before.remove(name), other) == shown(before, other),
{
}

} // verus!
