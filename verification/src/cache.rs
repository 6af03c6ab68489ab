use vstd::prelude::*;

verus! {

/// What the cache database knows of a cached blob: the path that the file
/// had on the server, and its name there.
#[derive(Debug, Clone, PartialEq, Eq)]
pub struct CacheEntry {
    pub server_full_path: String,
    pub file_name: String,
}

/// Whether an entry of the cache directory is a blob to restore: a regular
/// file whose name does not begin with a dot.
pub open spec fn is_blob(is_file: bool, file_name: Seq<char>) -> bool {
    is_file && !(file_name.len() > 0 && file_name[0] == '.')
}

/// Tells whether an entry of the cache directory is a blob to restore.
pub fn restores(is_file: bool, file_name: &str) -> (r: bool)
    ensures
        r == is_blob(is_file, file_name@),
{
    if !is_file {
        return false;
    }
    if file_name.unicode_len() == 0 {
        return true;
    }
    file_name.get_char(0) != '.'
}

} // verus!
