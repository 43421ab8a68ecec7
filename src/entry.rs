use crate::hashing::{content_hash, content_hash_of};
use vstd::prelude::*;

verus! {

/// The content type guessed from the extension of `path`, or
/// `application/octet-stream` where the extension is unknown.
pub uninterp spec fn content_type_of(path: Seq<char>) -> Seq<char>;

/// Relies on new_mime_guess's `from_path` and `MimeGuess::first_or_octet_stream`:
/// the type is looked up in a fixed table by the path's extension alone.
#[verifier::external_body]
fn guess_content_type(path: &String) -> (r: String)
    ensures
        r@ == content_type_of(path@),
{
    new_mime_guess::from_path(path.as_str()).first_or_octet_stream().essence_str().to_string()
}

/// The content type under which a file at `path` is stored and served.
pub fn content_type_for(path: &String) -> (r: String)
    ensures
        r@ == content_type_of(path@),
{
    guess_content_type(path)
}

/// One regular file found by a scan of the local tree.
pub struct LocalEntry {
    /// The path under which the file is published.
    pub path: String,
    /// Its full contents at the time it was read.
    pub contents: Vec<u8>,
    /// The content hash of `contents`.
    pub hash: String,
    /// The content type guessed from `path`.
    pub content_type: String,
}

impl LocalEntry {
    /// The hash and the content type agree with the path and the contents.
    pub open spec fn wf(&self) -> bool {
        &&& self.hash@ == content_hash_of(self.contents@)
        &&& self.content_type@ == content_type_of(self.path@)
    }

    /// Hashes `contents` and guesses the content type of `path`.
    pub fn new(path: String, contents: Vec<u8>) -> (r: LocalEntry)
        ensures
            r.wf(),
            r.path == path,
            r.contents == contents,
    {
        let hash = content_hash(&contents);
        let content_type = content_type_for(&path);
        LocalEntry { path, contents, hash, content_type }
    }
}

} // verus!
