//! The three commands of the strict snippet book: a flat list of names with
//! their contents, in which `add` refuses a name that is taken and `get`
//! reports a name that is missing. Each command takes the list as it was
//! read and gives back what is to be printed.

use vstd::prelude::*;
use vstd::string::StringExecFns;
use crate::document::{distinct_members, field_value, find_field, Fields, FieldsView};

verus! {

/// Why a command of the snippet book failed.
#[derive(Debug)]
pub enum SnippetError {
    /// The file could not be read or written; the text says why.
    DatabaseError(String),
    /// The file is no JSON object of strings; the text says why.
    SerializationError(String),
    NotFound(String),
    AlreadyExists(String),
}

/// The message of an error as contracts see it.
pub open spec fn error_message(error: SnippetError) -> Seq<char> {
    match error {
        SnippetError::DatabaseError(why) => "Failed to interact with the database file: "@ + why@,
        SnippetError::SerializationError(why) => "Failed to parse JSON data: "@ + why@,
        SnippetError::NotFound(name) => "Snippet with name '"@ + name@ + "' not found."@,
        SnippetError::AlreadyExists(name) => "Snippet with name '"@ + name@ + "' already exists."@,
    }
}

impl SnippetError {
    /// The message shown to the user.
    pub fn message(&self) -> (text: String)
        ensures
            text@ == error_message(*self),
    {
        match self {
            SnippetError::DatabaseError(why) => String::from_str(
                "Failed to interact with the database file: ",
            ).concat(why.as_str()),
            SnippetError::SerializationError(why) => String::from_str(
                "Failed to parse JSON data: ",
            ).concat(why.as_str()),
            SnippetError::NotFound(name) => String::from_str("Snippet with name '").concat(
                name.as_str(),
            ).concat("' not found."),
            SnippetError::AlreadyExists(name) => String::from_str("Snippet with name '").concat(
                name.as_str(),
            ).concat("' already exists."),
        }
    }
}

/// What `cmd_add` reports when it has added `name`.
pub open spec fn added_report(name: Seq<char>) -> Seq<char> {
    "✅ Snippet '"@ + name + "' added successfully."@
}

/// What `cmd_get` reports for the snippet `name` with `content`.
pub open spec fn snippet_report(name: Seq<char>, content: Seq<char>) -> Seq<char> {
    "Snippet '"@ + name + "':\n----------------\n"@ + content
}

/// The lines that `cmd_list` reports.
pub open spec fn listing(snippets: FieldsView) -> Seq<Seq<char>> {
    if snippets.len() == 0 {
        seq!["No snippets found."@]
    } else {
        seq!["Available snippets:"@] + Seq::new(snippets.len(), |i: int| "- "@ + snippets[i].0)
    }
}

/// Adds `content` under `name` at the end of the list, unless the name is
/// taken: then the list stays as it is. A list in which no name occurs
/// twice stays such a list.
pub fn cmd_add(snippets: &mut Fields, name: String, content: String) -> (report: Result<
    String,
    SnippetError,
>)
    ensures
        distinct_members(old(snippets).deep_view()) ==> distinct_members(
            final(snippets).deep_view(),
        ),
        match report {
            Ok(text) => {
                &&& field_value(old(snippets).deep_view(), name@) is None
                &&& final(snippets).deep_view() == old(snippets).deep_view().push(
                    (name@, content@),
                )
                &&& text@ == added_report(name@)
            },
            Err(error) => {
                &&& field_value(old(snippets).deep_view(), name@) is Some
                &&& final(snippets).deep_view() == old(snippets).deep_view()
                &&& error matches SnippetError::AlreadyExists(taken)
                &&& taken@ == name@
            },
        },
{
    match find_field(snippets, name.as_str()) {
        Some(_) => Err(SnippetError::AlreadyExists(name)),
        None => {
            let text = String::from_str("✅ Snippet '").concat(name.as_str()).concat(
                "' added successfully.",
            );
            let ghost before = snippets.deep_view();
            snippets.push((name, content));
            assert(snippets.deep_view() =~= before.push((name@, content@)));
            proof {
                lemma_name_is_free(before, name@);
                if distinct_members(before) {
                    let after = snippets.deep_view();
                    assert forall|i: int, j: int| 0 <= i < j < after.len() implies (
                    #[trigger] after[i]).0 != (#[trigger] after[j]).0 by {
                        assert(after[i] == before[i]);
                        if j < before.len() {
                            assert(after[j] == before[j]);
                        }
                    }
                }
            }
            Ok(text)
        },
    }
}

/// The report of the snippet stored under `name`, or the error that says
/// that there is none.
pub fn cmd_get(snippets: &Fields, name: String) -> (report: Result<String, SnippetError>)
    ensures
        match report {
            Ok(text) => {
                &&& field_value(snippets.deep_view(), name@) matches Some(content)
                &&& text@ == snippet_report(name@, content)
            },
            Err(error) => {
                &&& field_value(snippets.deep_view(), name@) is None
                &&& error matches SnippetError::NotFound(missing)
                &&& missing@ == name@
            },
        },
{
    match find_field(snippets, name.as_str()) {
        Some(content) => Ok(
            String::from_str("Snippet '").concat(name.as_str()).concat(
                "':\n----------------\n",
            ).concat(content.as_str()),
        ),
        None => Err(SnippetError::NotFound(name)),
    }
}

/// The lines that list the names, in the order of the list.
pub fn cmd_list(snippets: &Fields) -> (lines: Vec<String>)
    ensures
        lines.deep_view() == listing(snippets.deep_view()),
{
    let mut lines: Vec<String> = Vec::new();
    if snippets.len() == 0 {
        lines.push(String::from_str("No snippets found."));
        assert(lines.deep_view() =~= listing(snippets.deep_view()));
        return lines;
    }
    lines.push(String::from_str("Available snippets:"));
    let mut i: usize = 0;
    while i < snippets.len()
        invariant
            i <= snippets.len(),
            snippets.len() > 0,
            lines.len() == i + 1,
            forall|j: int|
                0 <= j < lines.len() ==> #[trigger] lines.deep_view()[j] == listing(
                    snippets.deep_view(),
                )[j],
        decreases snippets.len() - i,
    {
        let ghost before = lines.deep_view();
        let line = String::from_str("- ").concat(snippets[i].0.as_str());
        assert(line@ == "- "@ + snippets.deep_view()[i as int].0);
        lines.push(line);
        assert(lines.deep_view() =~= before.push(line@));
        i += 1;
    }
    assert(lines.deep_view() =~= listing(snippets.deep_view()));
    lines
}

/// A name that is not found is the name of no member.
pub proof fn lemma_name_is_free(snippets: FieldsView, name: Seq<char>)
    requires
        field_value(snippets, name) is None,
    ensures
        forall|i: int| 0 <= i < snippets.len() ==> (#[trigger] snippets[i]).0 != name,
    decreases snippets.len(),
{
    if snippets.len() > 0 {
        let rest = snippets.drop_first();
        lemma_name_is_free(rest, name);
        assert forall|i: int| 0 <= i < snippets.len() implies (#[trigger] snippets[i]).0 != name by {
            if i > 0 {
                assert(snippets[i] == rest[i - 1]);
            }
        }
    }
}

/// A name that was added is found with its content, and cannot be added
/// again.
pub proof fn law_added_is_found(snippets: FieldsView, name: Seq<char>, content: Seq<char>)
    requires
        field_value(snippets, name) is None,
    ensures
        field_value(snippets.push((name, content)), name) == Some(content),
    decreases snippets.len(),
{
    let after = snippets.push((name, content));
    if snippets.len() == 0 {
        assert(after[0] == (name, content));
    } else {
        assert(after.drop_first() =~= snippets.drop_first().push((name, content)));
        law_added_is_found(snippets.drop_first(), name, content);
    }
}

} // verus!
