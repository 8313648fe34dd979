//! The document that the file-backed store keeps on disk: one JSON object
//! that maps each snippet's name to an object with the two string members
//! `content` and `created_at`. serde_json reads and writes the JSON; which
//! members a snippet has, and what a document without them means, is
//! decided here. On reading, a snippet's object may hold other members of
//! any kind, which do not count.

use vstd::prelude::*;
use std::collections::BTreeMap;
use crate::records::{has_name, upserted, Records};
use crate::snippet::{Snippet, SnippetView};

verus! {

/// The members of one JSON object whose values are all strings, as pairs of
/// member name and value.
pub type Fields = Vec<(String, String)>;

/// A JSON object of such objects, as pairs of member name and members.
pub type Entries = Vec<(String, Fields)>;

pub type FieldsView = Seq<(Seq<char>, Seq<char>)>;

pub type EntriesView = Seq<(Seq<char>, FieldsView)>;

/// The members of one JSON object as they are read: with each name the
/// value where it is a string, and nothing where it is of another kind.
pub type ReadFields = Vec<(String, Option<String>)>;

/// A JSON object of objects as it is read.
pub type ReadEntries = Vec<(String, ReadFields)>;

pub type ReadFieldsView = Seq<(Seq<char>, Option<Seq<char>>)>;

pub type ReadEntriesView = Seq<(Seq<char>, ReadFieldsView)>;

/// The error type of serde_json.
#[verifier::external_type_specification]
#[verifier::external_body]
pub struct ExJsonError(serde_json::Error);

/// The text that `serde_json::to_string_pretty` gives for the object with
/// the members `entries`.
pub uninterp spec fn json_text(entries: EntriesView) -> Seq<char>;

/// The members of the object that `serde_json::from_str` reads from `text`,
/// or nothing where `text` is not one JSON object of objects.
pub uninterp spec fn json_entries(text: Seq<char>) -> Option<ReadEntriesView>;

/// No two members carry the same name.
pub open spec fn distinct_members<T>(members: Seq<(Seq<char>, T)>) -> bool {
    forall|i: int, j: int|
        0 <= i < j < members.len() ==> (#[trigger] members[i]).0 != (#[trigger] members[j]).0
}

/// `serde_json::to_string_pretty` on a map of maps of strings that holds
/// the members of `entries`. The map is a `BTreeMap`, so serde_json writes
/// the members in the order of their names. The text is a function of the
/// members alone, and `json_text` is its name. Names that occur twice are
/// left out by `requires`, so that every member reaches the text. The call
/// always succeeds: serde_json fails only where a `Serialize` impl fails or
/// a map key is no string, and writing strings into memory does neither.
#[verifier::external_body]
pub(crate) fn encode_json(entries: &Entries) -> (encoded: Result<String, serde_json::Error>)
    requires
        distinct_members(entries.deep_view()),
        forall|i: int| 0 <= i < entries.len() ==> distinct_members(#[trigger] entries.deep_view()[i].1),
    ensures
        encoded is Ok,
        encoded matches Ok(text) ==> text@ == json_text(entries.deep_view()),
{
    let object: BTreeMap<&str, BTreeMap<&str, &str>> = entries
        .iter()
        .map(|e| (e.0.as_str(), e.1.iter().map(|f| (f.0.as_str(), f.1.as_str())).collect()))
        .collect();
    serde_json::to_string_pretty(&object)
}

/// `serde_json::from_str` into a map of maps of JSON values, handed out as
/// pairs in the order of the map. Each value is handed out by its kind: a
/// string as its text, a value of any other kind as nothing. Whether the
/// call succeeds and what it reads depend on the text alone, and
/// `json_entries` is the name of that.
#[verifier::external_body]
pub(crate) fn decode_json(text: &str) -> (decoded: Result<ReadEntries, serde_json::Error>)
    ensures
        decoded is Ok <==> json_entries(text@) is Some,
        decoded matches Ok(entries) ==> Some(entries.deep_view()) == json_entries(text@),
{
    let object: BTreeMap<String, BTreeMap<String, serde_json::Value>> = serde_json::from_str(text)?;
    let text_of = |value| match value {
        serde_json::Value::String(text) => Some(text),
        serde_json::Value::Null | serde_json::Value::Bool(_) | serde_json::Value::Number(_) => None,
        serde_json::Value::Array(_) | serde_json::Value::Object(_) => None,
    };
    Ok(object
        .into_iter()
        .map(|(name, fields)| (name, fields.into_iter().map(|(k, v)| (k, text_of(v))).collect()))
        .collect())
}

/// The value of the first member of `fields` called `key`.
pub open spec fn field_value(fields: FieldsView, key: Seq<char>) -> Option<Seq<char>>
    decreases fields.len(),
{
    if fields.len() == 0 {
        None
    } else if fields[0].0 == key {
        Some(fields[0].1)
    } else {
        field_value(fields.drop_first(), key)
    }
}

/// The text of the first member of `fields` called `key`, where that member
/// is a string.
pub open spec fn read_value(fields: ReadFieldsView, key: Seq<char>) -> Option<Seq<char>>
    decreases fields.len(),
{
    if fields.len() == 0 {
        None
    } else if fields[0].0 == key {
        fields[0].1
    } else {
        read_value(fields.drop_first(), key)
    }
}

/// The members that stand for a snippet in the document.
pub open spec fn snippet_fields(snippet: SnippetView) -> FieldsView {
    seq![("content"@, snippet.content), ("created_at"@, snippet.created_at)]
}

/// Members that were written, as they are read back.
pub open spec fn fields_as_read(fields: FieldsView) -> ReadFieldsView {
    Seq::new(fields.len(), |i: int| (fields[i].0, Some(fields[i].1)))
}

/// A document that was written, as it is read back.
pub open spec fn entries_as_read(entries: EntriesView) -> ReadEntriesView {
    Seq::new(entries.len(), |i: int| (entries[i].0, fields_as_read(entries[i].1)))
}

/// The snippet that `fields` stand for: both members must be there and be
/// strings, and other members do not count.
pub open spec fn fields_snippet(fields: ReadFieldsView) -> Option<SnippetView> {
    match (read_value(fields, "content"@), read_value(fields, "created_at"@)) {
        (Some(content), Some(created_at)) => Some(SnippetView { content, created_at }),
        _ => None,
    }
}

/// The members that stand for `records` in the document, in their order.
pub open spec fn records_entries(records: Records) -> EntriesView {
    Seq::new(records.len(), |i: int| (records[i].0, snippet_fields(records[i].1)))
}

/// The records that a document's members stand for. Where a name occurs
/// twice the later member counts. One member that is no snippet spoils the
/// whole document.
pub open spec fn entries_records(entries: ReadEntriesView) -> Option<Records>
    decreases entries.len(),
{
    if entries.len() == 0 {
        Some(Seq::empty())
    } else {
        match (entries_records(entries.drop_last()), fields_snippet(entries.last().1)) {
            (Some(records), Some(snippet)) => Some(upserted(records, entries.last().0, snippet)),
            _ => None,
        }
    }
}

/// The value of the first member of `fields` called `key`.
pub fn find_field(fields: &Fields, key: &str) -> (value: Option<String>)
    ensures
        crate::storage::text_of(value) == field_value(fields.deep_view(), key@),
{
    let key_text = key.to_owned();
    let mut i: usize = 0;
    assert(fields.deep_view().skip(0) =~= fields.deep_view());
    while i < fields.len()
        invariant
            i <= fields.len(),
            key_text@ == key@,
            field_value(fields.deep_view(), key@) == field_value(
                fields.deep_view().skip(i as int),
                key@,
            ),
        decreases fields.len() - i,
    {
        let ghost rest = fields.deep_view().skip(i as int);
        assert(rest[0] == fields.deep_view()[i as int]);
        assert(rest.drop_first() =~= fields.deep_view().skip(i + 1));
        if fields[i].0 == key_text {
            return Some(fields[i].1.clone());
        }
        i += 1;
    }
    None
}

/// The text of the first member of `fields` called `key`, where that member
/// is a string.
pub fn find_read(fields: &ReadFields, key: &str) -> (value: Option<String>)
    ensures
        crate::storage::text_of(value) == read_value(fields.deep_view(), key@),
{
    let key_text = key.to_owned();
    let mut i: usize = 0;
    assert(fields.deep_view().skip(0) =~= fields.deep_view());
    while i < fields.len()
        invariant
            i <= fields.len(),
            key_text@ == key@,
            read_value(fields.deep_view(), key@) == read_value(
                fields.deep_view().skip(i as int),
                key@,
            ),
        decreases fields.len() - i,
    {
        let ghost rest = fields.deep_view().skip(i as int);
        assert(rest[0] == fields.deep_view()[i as int]);
        assert(rest.drop_first() =~= fields.deep_view().skip(i + 1));
        if fields[i].0 == key_text {
            return match &fields[i].1 {
                Some(text) => Some(text.clone()),
                None => None,
            };
        }
        i += 1;
    }
    None
}

/// The members that stand for `snippet` in the document.
pub fn fields_of(snippet: &Snippet) -> (fields: Fields)
    ensures
        fields.deep_view() == snippet_fields(snippet@),
        distinct_members(fields.deep_view()),
{
    let mut fields: Fields = Vec::new();
    fields.push(("content".to_owned(), snippet.content.clone()));
    fields.push(("created_at".to_owned(), snippet.created_at.clone()));
    proof {
        lemma_member_names_differ();
        assert(fields.deep_view() =~= snippet_fields(snippet@));
    }
    fields
}

/// The snippet that `fields` stand for, if they stand for one.
pub fn snippet_of(fields: &ReadFields) -> (snippet: Option<Snippet>)
    ensures
        match snippet {
            Some(s) => fields_snippet(fields.deep_view()) == Some(s@),
            None => fields_snippet(fields.deep_view()) is None,
        },
{
    match (find_read(fields, "content"), find_read(fields, "created_at")) {
        (Some(content), Some(created_at)) => Some(Snippet { content, created_at }),
        _ => None,
    }
}

/// The two member names are different words.
pub proof fn lemma_member_names_differ()
    ensures
        "content"@ != "created_at"@,
{
    reveal_strlit("content");
    reveal_strlit("created_at");
    assert("content"@.len() != "created_at"@.len());
}

/// The members written for a snippet are read back as that snippet.
pub proof fn lemma_fields_round_trip(snippet: SnippetView)
    ensures
        fields_snippet(fields_as_read(snippet_fields(snippet))) == Some(snippet),
{
    lemma_member_names_differ();
    let fields = fields_as_read(snippet_fields(snippet));
    assert(fields[0] == ("content"@, Some(snippet.content)));
    assert(fields.drop_first() =~= seq![("created_at"@, Some(snippet.created_at))]);
    assert(read_value(fields, "content"@) == Some(snippet.content));
    assert(read_value(fields.drop_first(), "created_at"@) == Some(snippet.created_at));
    assert(read_value(fields, "created_at"@) == Some(snippet.created_at));
}

/// A document is spoiled as soon as any beginning of it is.
pub proof fn lemma_spoiled_prefix(entries: ReadEntriesView, k: int)
    requires
        0 <= k <= entries.len(),
        entries_records(entries.take(k)) is None,
    ensures
        entries_records(entries) is None,
    decreases entries.len() - k,
{
    if k == entries.len() {
        assert(entries.take(k) =~= entries);
    } else {
        assert(entries.take(k + 1).drop_last() =~= entries.take(k));
        lemma_spoiled_prefix(entries, k + 1);
    }
}

/// The members written for records with distinct names are read back as
/// those records, in their order.
pub proof fn law_round_trip_in_order(records: Records)
    requires
        distinct_members(records),
    ensures
        entries_records(entries_as_read(records_entries(records))) == Some(records),
    decreases records.len(),
{
    let entries = entries_as_read(records_entries(records));
    if records.len() == 0 {
        assert(records =~= Seq::empty());
    } else {
        let front = records.drop_last();
        let last = records.last();
        assert(entries.drop_last() =~= entries_as_read(records_entries(front)));
        law_round_trip_in_order(front);
        lemma_fields_round_trip(last.1);
        assert(!has_name(front, last.0)) by {
            if has_name(front, last.0) {
                let i = choose|i: int| 0 <= i < front.len() && (#[trigger] front[i]).0 == last.0;
                assert(records[i].0 != records[records.len() - 1].0);
            }
        }
        assert(front.push(last) =~= records);
    }
}

/// The records read from members with distinct names that all stand for
/// snippets: one record for each member, in the members' order.
pub proof fn lemma_distinct_entries(entries: ReadEntriesView)
    requires
        distinct_members(entries),
        forall|i: int| 0 <= i < entries.len() ==> fields_snippet(#[trigger] entries[i].1) is Some,
    ensures
        entries_records(entries) == Some(
            Seq::new(entries.len(), |i: int| (entries[i].0, fields_snippet(entries[i].1).unwrap())),
        ),
    decreases entries.len(),
{
    let records = Seq::new(
        entries.len(),
        |i: int| (entries[i].0, fields_snippet(entries[i].1).unwrap()),
    );
    if entries.len() == 0 {
        assert(records =~= Seq::empty());
    } else {
        let front = entries.drop_last();
        let last = entries.last();
        lemma_distinct_entries(front);
        let front_records = entries_records(front).unwrap();
        assert(fields_snippet(entries[entries.len() - 1].1) is Some);
        assert(!has_name(front_records, last.0)) by {
            if has_name(front_records, last.0) {
                let i = choose|i: int|
                    0 <= i < front_records.len() && (#[trigger] front_records[i]).0 == last.0;
                assert(entries[i].0 != entries[entries.len() - 1].0);
            }
        }
        assert(front_records.push((last.0, fields_snippet(last.1).unwrap())) =~= records);
    }
}

} // verus!
