//! The store: one working copy per source URL, each in a directory named by
//! the URL's digest, below a root that is hidden from an enclosing
//! repository by a marker file.

use vstd::prelude::*;
use crate::text::{same_text, texts};

verus! {

/// The SHA-256 digest of a URL's UTF-8 bytes, as lower-case hexadecimal
/// text. It is a function of the URL alone; nothing else is claimed of it.
pub uninterp spec fn url_digest(url: Seq<char>) -> Seq<char>;

/// Calls `sha256::digest` on the bytes of `url`. Taken on trust, not
/// proved: that what comes back is `url_digest` of the URL, which is to say
/// that it depends on the URL's text and on nothing else.
#[verifier::external_body]
pub(crate) fn hex_digest(url: &str) -> (key: String)
    ensures
        key@ == url_digest(url@),
{
    sha256::digest(url.as_bytes())
}

/// The name of the store's root directory, relative to where the tool runs.
pub open spec fn store_directory_name() -> Seq<char> {
    ".proto-sync"@
}

/// Where the working copy with store key `key` lies: the path, name by
/// name, from where the tool runs.
pub open spec fn working_copy_path(key: Seq<char>) -> Seq<Seq<char>> {
    seq![store_directory_name(), key]
}

/// The content of a marker file that excludes everything beside it.
pub open spec fn ignore_pattern() -> Seq<char> {
    "*\n"@
}

/// The name of the marker file.
pub open spec fn marker_file_name() -> Seq<char> {
    ".gitignore"@
}

/// The name of the store's root directory.
pub fn store_directory() -> (name: &'static str)
    ensures
        name@ == store_directory_name(),
{
    ".proto-sync"
}

/// The name of the marker file.
pub fn ignore_marker_name() -> (name: &'static str)
    ensures
        name@ == marker_file_name(),
{
    ".gitignore"
}

/// The content of a marker file that excludes everything beside it.
pub fn ignore_marker_content() -> (content: &'static str)
    ensures
        content@ == ignore_pattern(),
{
    "*\n"
}

/// Where the working copy with store key `key` lies.
pub fn working_copy(key: &str) -> (path: Vec<String>)
    ensures
        texts(path@) == working_copy_path(key@),
{
    let mut path: Vec<String> = Vec::new();
    path.push(store_directory().to_owned());
    path.push(key.to_owned());
    assert(texts(path@) =~= working_copy_path(key@));
    path
}

/// Where the working copy of the repository at `url` lies: in the store,
/// in the directory named by the digest of `url`.
pub fn locate(url: &str) -> (path: Vec<String>)
    ensures
        texts(path@) == working_copy_path(url_digest(url@)),
{
    let key = hex_digest(url);
    working_copy(key.as_str())
}

/// Whether the marker file has to be written, given what it holds now
/// (`None` where it does not exist): exactly when it is missing or holds
/// anything but the pattern.
pub fn marker_needs_write(found: Option<&str>) -> (write: bool)
    ensures
        write == match found {
            Some(content) => content@ != ignore_pattern(),
            None => true,
        },
{
    match found {
        Some(content) => !same_text(content, ignore_marker_content()),
        None => true,
    }
}

} // verus!
