//! Filesystem views for callers: path information and directory trees.
//! The filesystem is read at the caller's edge; the shapes and the naming
//! rules are verified here.

use vstd::prelude::*;

use crate::errors::CoreError;
use crate::paths::{file_name_of, file_name_spec};

verus! {

/// The display name of a path: its final component, or a placeholder when
/// the path has none.
pub open spec fn display_name_spec(p: Seq<char>) -> Seq<char> {
    if file_name_spec(p).len() > 0 {
        file_name_spec(p)
    } else {
        "Unknown"@
    }
}

/// Name and kind of one path.
#[derive(Debug, Clone)]
pub struct PathInfo {
    /// The path's final component.
    pub name: String,
    /// Whether the path is a directory.
    pub is_directory: bool,
}

impl PathInfo {
    /// Path information from its parts.
    pub fn new(name: String, is_directory: bool) -> (r: PathInfo)
        ensures
            r.name == name,
            r.is_directory == is_directory,
    {
        PathInfo { name, is_directory }
    }

    /// Path information for `path`.  `exists` and `is_directory` report
    /// the filesystem's answers; a missing path is an error.
    pub fn from_path(path: &str, exists_on_disk: bool, is_directory: bool) -> (r: Result<
        PathInfo,
        String,
    >)
        ensures
            r is Ok <==> exists_on_disk,
            r matches Ok(info) ==> info.name@ == display_name_spec(path@) && info.is_directory
                == is_directory,
    {
        if !exists_on_disk {
            let mut m = "Path does not exist: ".to_owned();
            m.append(path);
            return Err(m);
        }
        let name = file_name_of(path);
        if name.unicode_len() == 0 {
            Ok(PathInfo { name: "Unknown".to_owned(), is_directory })
        } else {
            Ok(PathInfo { name, is_directory })
        }
    }
}

/// One entry of a directory tree.
#[derive(Debug)]
pub struct DirectoryItem {
    /// The entry's name.
    pub name: String,
    /// The entry's full path.
    pub path: String,
    /// Whether the entry is a directory.
    pub is_directory: bool,
    /// A directory's children; a file has none.
    pub children: Vec<DirectoryItem>,
}

impl DirectoryItem {
    /// A file entry.
    pub fn new_file(name: String, path: String) -> (r: DirectoryItem)
        ensures
            r.name == name,
            r.path == path,
            !r.is_directory,
            r.children@ == Seq::<DirectoryItem>::empty(),
    {
        DirectoryItem { name, path, is_directory: false, children: Vec::new() }
    }

    /// A directory entry with its children.
    pub fn new_directory(name: String, path: String, children: Vec<DirectoryItem>) -> (r:
        DirectoryItem)
        ensures
            r.name == name,
            r.path == path,
            r.is_directory,
            r.children == children,
    {
        DirectoryItem { name, path, is_directory: true, children }
    }
}

/// Filesystem naming utilities.
pub struct FileSystemService;

impl FileSystemService {
    /// The folder name of a path: its final component.  A path without
    /// one is an error.
    pub fn get_folder_name(path: &str) -> (r: Result<String, CoreError>)
        ensures
            r is Ok <==> file_name_spec(path@).len() > 0,
            r matches Ok(n) ==> n@ == file_name_spec(path@),
    {
        let name = file_name_of(path);
        if name.unicode_len() == 0 {
            Err(CoreError::generic("Could not get folder name".to_owned()))
        } else {
            Ok(name)
        }
    }
}

} // verus!
