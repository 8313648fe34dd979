//! File names and addresses of downloaded snippets.

use vstd::prelude::*;
use vstd::string::StringExecFns;
use crate::text::{ends_with, starts_with};

verus! {

/// The extension that every snippet file carries.
pub open spec fn txt_extension() -> Seq<char> {
    seq!['.', 't', 'x', 't']
}

/// The two address prefixes that a download accepts.
pub open spec fn http_prefix() -> Seq<char> {
    seq!['h', 't', 't', 'p', ':', '/', '/']
}

pub open spec fn https_prefix() -> Seq<char> {
    seq!['h', 't', 't', 'p', 's', ':', '/', '/']
}

/// The file name of the snippet called `name`: the name itself where it
/// already ends in `.txt`, else the name with `.txt` appended.
pub open spec fn filename_of(name: Seq<char>) -> Seq<char> {
    if txt_extension().is_suffix_of(name) {
        name
    } else {
        name + txt_extension()
    }
}

/// Whether `url` begins with `http://` or `https://`.
pub open spec fn url_is_valid(url: Seq<char>) -> bool {
    http_prefix().is_prefix_of(url) || https_prefix().is_prefix_of(url)
}

pub fn format_filename(name: &str) -> (filename: String)
    ensures
        filename@ == filename_of(name@),
{
    proof {
        reveal_strlit(".txt");
        assert(".txt"@ =~= txt_extension());
    }
    if ends_with(name, ".txt") {
        String::from_str(name)
    } else {
        String::from_str(name).concat(".txt")
    }
}

pub fn is_valid_url(url: &str) -> (valid: bool)
    ensures
        valid == url_is_valid(url@),
{
    proof {
        reveal_strlit("http://");
        reveal_strlit("https://");
        assert("http://"@ =~= http_prefix());
        assert("https://"@ =~= https_prefix());
    }
    starts_with(url, "http://") || starts_with(url, "https://")
}

/// A formatted file name always ends in `.txt` and keeps the whole name
/// in front of it, and formatting it again changes nothing.
pub proof fn lemma_filename_has_extension(name: Seq<char>)
    ensures
        txt_extension().is_suffix_of(filename_of(name)),
        name.is_prefix_of(filename_of(name)),
        filename_of(filename_of(name)) == filename_of(name),
{
    let f = filename_of(name);
    if !txt_extension().is_suffix_of(name) {
        assert(f.subrange(f.len() - 4, f.len() as int) =~= txt_extension());
        assert(f.subrange(0, name.len() as int) =~= name);
    } else {
        assert(f.subrange(0, name.len() as int) =~= name);
    }
}

} // verus!
