//! Where the build recipes of the community repository are kept and fetched
//! from.

use crate::text::{chars, join2};
use vstd::prelude::*;

verus! {

/// The path `path` taken from the directory `base`, as paths are joined on
/// Unix: an absolute `path` stands for itself, and a separator is put
/// between the two unless `base` is empty or ends in one already.
pub open spec fn joined_path(base: Seq<char>, path: Seq<char>) -> Seq<char> {
    if path.len() > 0 && path[0] == '/' {
        path
    } else if base.len() == 0 || base.last() == '/' {
        base + path
    } else {
        base + "/"@ + path
    }
}

/// The path `path` taken from the directory `base`.
pub fn join_path(base: &str, path: &str) -> (r: String)
    ensures
        r@ == joined_path(base@, path@),
{
    let to = chars(path);
    if to.len() > 0 && to[0] == '/' {
        return String::from_str(path);
    }
    let from = chars(base);
    if from.len() == 0 || from[from.len() - 1] == '/' {
        join2(base, path)
    } else {
        let mut r = join2(base, "/");
        r.append(path);
        r
    }
}

/// Name of the directory, below the cache directory of the program, that
/// holds the extracted archives.
pub fn aur_directory() -> (r: &'static str)
    ensures
        r@ == "aur"@,
{
    "aur"
}

/// The directory that the archive of the package `name` is extracted to,
/// given the directory that holds the extracted archives.
pub fn get_aur_extracted_path(directory: &str, name: &str) -> (r: String)
    ensures
        r@ == joined_path(directory@, name@),
{
    join_path(directory, name)
}

/// The build recipe of the package `name`, as a path below the cache
/// directory of the program.
pub fn get_pkgbuild_path(name: &str) -> (r: String)
    ensures
        r@ == "aur/"@ + name@ + "/PKGBUILD"@,
{
    let mut r = join2("aur/", name);
    r.append("/PKGBUILD");
    r
}

/// The address of the archive of the package `name`.
pub fn snapshot_url(name: &str) -> (r: String)
    ensures
        r@ == "https://aur.archlinux.org/cgit/aur.git/snapshot/"@ + name@ + ".tar.gz"@,
{
    let mut r = join2("https://aur.archlinux.org/cgit/aur.git/snapshot/", name);
    r.append(".tar.gz");
    r
}

} // verus!
