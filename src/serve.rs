//! Serving the rendered site: which file answers a request.
use vstd::prelude::*;

verus! {

/// The page served when nothing answers a request, if the site has one.
pub const NOT_FOUND_PATH: &'static str = "404.html";

/// What answers a request for a path below the output root.
#[derive(Debug, Clone, Copy, PartialEq, Eq, Structural)]
pub enum Reply {
    /// The file at the path itself.
    File,
    /// The `index.html` in the directory at the path.
    Index,
    /// The site's `404.html`, with status 404.
    NotFoundPage,
    /// A built-in not-found page, with status 404.
    NotFoundText,
}

/// Chooses the answer to a request: the file at the path, else the index of the directory
/// at the path, else the site's not-found page if it has one, else a built-in one.
pub fn reply_for(path_is_file: bool, index_is_file: bool, not_found_exists: bool) -> (r: Reply)
    ensures
        path_is_file ==> r == Reply::File,
        !path_is_file && index_is_file ==> r == Reply::Index,
        !path_is_file && !index_is_file && not_found_exists ==> r == Reply::NotFoundPage,
        !path_is_file && !index_is_file && !not_found_exists ==> r == Reply::NotFoundText,
{
    if path_is_file {
        Reply::File
    } else if index_is_file {
        Reply::Index
    } else if not_found_exists {
        Reply::NotFoundPage
    } else {
        Reply::NotFoundText
    }
}

} // verus!
