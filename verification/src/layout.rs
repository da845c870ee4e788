//! Where things live on disk: `<cache root>/<cache key>/<expiry>`, one file
//! per entry, the file's content being the response body as it came.

use vstd::prelude::*;
use vstd::string::*;
use crate::key::{sanitize, sanitized, SEPARATOR};

verus! {

/// The path of `name` inside the directory `dir`.
pub open spec fn joined(dir: Seq<char>, name: Seq<char>) -> Seq<char> {
    dir.push(SEPARATOR) + name
}

/// The directory under `root` that holds the entries of `url`.
pub open spec fn cache_dir_path(root: Seq<char>, url: Seq<char>) -> Seq<char> {
    joined(root, sanitized(url))
}

/// The file under `root` that holds the response to `url` that expires at
/// `expiry`.
pub open spec fn entry_file_path(root: Seq<char>, url: Seq<char>, expiry: Seq<char>) -> Seq<char> {
    joined(cache_dir_path(root, url), expiry)
}

/// The path of `name` inside the directory `dir`.
pub fn join(dir: &str, name: &str) -> (path: String)
    ensures
        path@ == joined(dir@, name@),
{
    let mut path = String::from_str(dir);
    path.push(SEPARATOR);
    path.append(name);
    path
}

/// The directory under `root` that holds the entries of `url`.
pub fn cache_dir(root: &str, url: &str) -> (path: String)
    ensures
        path@ == cache_dir_path(root@, url@),
{
    let key = sanitize(url);
    join(root, key.as_str())
}

/// The file under `root` that holds the response to `url` that expires at
/// `expiry`.
pub fn entry_file(root: &str, url: &str, expiry: &str) -> (path: String)
    ensures
        path@ == entry_file_path(root@, url@, expiry@),
{
    let dir = cache_dir(root, url);
    join(dir.as_str(), expiry)
}

} // verus!
