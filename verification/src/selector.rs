//! Which backend a configuration string asks for. The string has the form
//! `KIND:location`. Only the kind `SQLITE` selects the relational store;
//! any other kind, and a string without a colon, selects the file-backed
//! store, so that a store can always be had.

use vstd::prelude::*;

verus! {

/// The configuration that is used where none is given.
pub const DEFAULT_STORAGE: &'static str = "JSON:snippets.json";

#[derive(Debug, Clone, Copy, PartialEq, Eq, Structural)]
pub enum StorageKind {
    /// The file-backed store.
    Json,
    /// The relational store.
    Sqlite,
}

/// A backend kind and the place of its file.
#[derive(Debug)]
pub struct StorageChoice {
    pub kind: StorageKind,
    pub location: String,
}

/// Whether the first colon of `config` stands at `i`.
pub open spec fn is_first_colon(config: Seq<char>, i: int) -> bool {
    &&& 0 <= i < config.len()
    &&& config[i] == ':'
    &&& forall|j: int| 0 <= j < i ==> config[j] != ':'
}

/// The kind that the word in front of the colon names.
pub open spec fn kind_named(word: Seq<char>) -> StorageKind {
    if word == "SQLITE"@ {
        StorageKind::Sqlite
    } else {
        StorageKind::Json
    }
}

/// The kind and the location that `config` asks for: split at the first
/// colon, or the file-backed store at `config` itself where there is none.
pub open spec fn chosen(config: Seq<char>) -> (StorageKind, Seq<char>) {
    if exists|i: int| is_first_colon(config, i) {
        let i = choose|i: int| is_first_colon(config, i);
        (kind_named(config.take(i)), config.skip(i + 1))
    } else {
        (StorageKind::Json, config)
    }
}

/// There is one first colon at most.
pub proof fn lemma_first_colon_is_unique(config: Seq<char>, i: int, j: int)
    requires
        is_first_colon(config, i),
        is_first_colon(config, j),
    ensures
        i == j,
{
}

pub fn select_storage(config: &str) -> (choice: StorageChoice)
    ensures
        (choice.kind, choice.location@) == chosen(config@),
{
    let n: usize = config.unicode_len();
    let mut i: usize = 0;
    while i < n
        invariant
            i <= n,
            n == config@.len(),
            forall|j: int| 0 <= j < i ==> config@[j] != ':',
        decreases n - i,
    {
        if config.get_char(i) == ':' {
            assert(is_first_colon(config@, i as int));
            proof {
                let k = choose|k: int| is_first_colon(config@, k);
                lemma_first_colon_is_unique(config@, i as int, k);
            }
            let word = config.substring_char(0, i).to_owned();
            let location = config.substring_char(i + 1, n).to_owned();
            assert(config@.subrange(0, i as int) == config@.take(i as int));
            assert(config@.subrange(i + 1, n as int) == config@.skip(i + 1));
            let kind = if word == "SQLITE".to_owned() {
                StorageKind::Sqlite
            } else {
                StorageKind::Json
            };
            return StorageChoice { kind, location };
        }
        i += 1;
    }
    assert(!exists|k: int| is_first_colon(config@, k));
    StorageChoice { kind: StorageKind::Json, location: config.to_owned() }
}

/// A configuration of a kind, a colon and a location without a colon in the
/// kind asks for that location, from the relational store where the kind is
/// `SQLITE` and from the file-backed store otherwise.
pub proof fn law_kind_and_location(kind: Seq<char>, location: Seq<char>)
    requires
        !kind.contains(':'),
    ensures
        chosen(kind + seq![':'] + location) == (kind_named(kind), location),
{
    let config = kind + seq![':'] + location;
    let at = kind.len() as int;
    assert(config[at] == ':');
    assert forall|j: int| 0 <= j < at implies config[j] != ':' by {
        assert(config[j] == kind[j]);
        assert(kind.contains(kind[j]));
    }
    assert(is_first_colon(config, at));
    let i = choose|i: int| is_first_colon(config, i);
    lemma_first_colon_is_unique(config, i, at);
    assert(config.take(at) =~= kind);
    assert(config.skip(at + 1) =~= location);
}

/// A configuration without a colon asks for the file-backed store at the
/// whole string.
pub proof fn law_no_colon(config: Seq<char>)
    requires
        !config.contains(':'),
    ensures
        chosen(config) == (StorageKind::Json, config),
{
    assert forall|i: int| !is_first_colon(config, i) by {
        if 0 <= i < config.len() && config[i] == ':' {
            assert(config.contains(config[i]));
        }
    }
}

} // verus!
