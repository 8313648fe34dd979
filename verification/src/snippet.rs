//! The unit of storage: a text with the moment it was stored.

use vstd::prelude::*;
use vstd::string::StringExecFns;

verus! {

/// A stored text. Its name is the key it is stored under and is not part
/// of it.
#[derive(Debug)]
pub struct Snippet {
    pub content: String,
    /// The local time at which the snippet was added, as text.
    pub created_at: String,
}

/// A snippet as contracts see it.
pub struct SnippetView {
    pub content: Seq<char>,
    pub created_at: Seq<char>,
}

impl View for Snippet {
    type V = SnippetView;

    open spec fn view(&self) -> SnippetView {
        SnippetView { content: self.content@, created_at: self.created_at@ }
    }
}

/// What `get` shows of a snippet: the content, then on a line of its own
/// the creation time in square brackets.
pub open spec fn rendered(snippet: SnippetView) -> Seq<char> {
    snippet.content + "\n[Created at: "@ + snippet.created_at + "]"@
}

/// The text that `rendered` describes.
pub fn render(content: &str, created_at: &str) -> (text: String)
    ensures
        text@ == rendered(SnippetView { content: content@, created_at: created_at@ }),
{
    String::from_str(content).concat("\n[Created at: ").concat(created_at).concat("]")
}

/// A rendering begins with the content; the label follows it, then the
/// creation time, then the closing bracket. So the content and the time can
/// both be read back from it.
pub proof fn lemma_rendered_shape(snippet: SnippetView)
    ensures
        snippet.content.is_prefix_of(rendered(snippet)),
        rendered(snippet).len() == snippet.content.len() + snippet.created_at.len() + 15,
        rendered(snippet).skip(snippet.content.len() as int).take(14) == "\n[Created at: "@,
        rendered(snippet).skip(snippet.content.len() as int + 14).take(
            snippet.created_at.len() as int,
        ) == snippet.created_at,
        rendered(snippet).last() == ']',
{
    reveal_strlit("\n[Created at: ");
    reveal_strlit("]");
    let r = rendered(snippet);
    let c = snippet.content.len() as int;
    assert(r.subrange(0, c) =~= snippet.content);
    assert(r.skip(c).take(14) =~= "\n[Created at: "@);
    assert(r.skip(c + 14).take(snippet.created_at.len() as int) =~= snippet.created_at);
}

} // verus!
