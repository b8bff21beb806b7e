//! What a scan returns: files and directories, each with its identifier. Both
//! are ordered by name in natural order.

use crate::natural::{natural_order, natural_order_of};
use crate::sorting::Named;
use std::cmp::Ordering;
use vstd::prelude::*;
use vstd::std_specs::cmp::PartialOrdSpecImpl;
use vstd::string::*;

verus! {

/// An image file found in a directory.
#[derive(Debug, Clone, PartialEq)]
pub struct FileItem {
    /// The identifier derived from `path`.
    pub id: String,
    /// The file's name within its directory.
    pub filename: String,
    /// The file's absolute path.
    pub path: String,
    /// The image's height in pixels.
    pub height: u32,
    /// The image's width in pixels.
    pub width: u32,
}

/// What a `FileItem` holds, as mathematical text and numbers.
pub struct FileItemView {
    pub id: Seq<char>,
    pub filename: Seq<char>,
    pub path: Seq<char>,
    pub height: u32,
    pub width: u32,
}

impl View for FileItem {
    type V = FileItemView;

    open spec fn view(&self) -> FileItemView {
        FileItemView {
            id: self.id@,
            filename: self.filename@,
            path: self.path@,
            height: self.height,
            width: self.width,
        }
    }
}

impl Named for FileItem {
    open spec fn name_text(&self) -> Seq<char> {
        self.filename@
    }

    fn name(&self) -> (name: &str) {
        self.filename.as_str()
    }
}

impl PartialOrd for FileItem {
    /// Files are ordered by their names alone.
    fn partial_cmp(&self, other: &Self) -> (order: Option<Ordering>) {
        Some(natural_order(self.filename.as_str(), other.filename.as_str()))
    }
}

impl PartialOrdSpecImpl for FileItem {
    open spec fn obeys_partial_cmp_spec() -> bool {
        true
    }

    open spec fn partial_cmp_spec(&self, other: &Self) -> Option<Ordering> {
        Some(natural_order_of(self.filename@, other.filename@))
    }
}

/// A directory: a child of the scanned directory, or the root of a mounted
/// volume.
#[derive(Debug, Clone, PartialEq)]
pub struct DirItem {
    /// The identifier derived from `path`.
    pub id: String,
    /// The name under which the directory is shown.
    pub dirname: String,
    /// The directory's absolute path.
    pub path: String,
    /// Whether this is the root of a mounted volume.
    pub root: bool,
}

/// What a `DirItem` holds, as mathematical text.
pub struct DirItemView {
    pub id: Seq<char>,
    pub dirname: Seq<char>,
    pub path: Seq<char>,
    pub root: bool,
}

impl View for DirItem {
    type V = DirItemView;

    open spec fn view(&self) -> DirItemView {
        DirItemView { id: self.id@, dirname: self.dirname@, path: self.path@, root: self.root }
    }
}

impl Named for DirItem {
    open spec fn name_text(&self) -> Seq<char> {
        self.dirname@
    }

    fn name(&self) -> (name: &str) {
        self.dirname.as_str()
    }
}

impl PartialOrd for DirItem {
    /// Directories are ordered by their names alone.
    fn partial_cmp(&self, other: &Self) -> (order: Option<Ordering>) {
        Some(natural_order(self.dirname.as_str(), other.dirname.as_str()))
    }
}

impl PartialOrdSpecImpl for DirItem {
    open spec fn obeys_partial_cmp_spec() -> bool {
        true
    }

    open spec fn partial_cmp_spec(&self, other: &Self) -> Option<Ordering> {
        Some(natural_order_of(self.dirname@, other.dirname@))
    }
}

/// The function that reads a file's name off its view.
pub open spec fn file_name_key() -> spec_fn(FileItemView) -> Seq<char> {
    |file: FileItemView| file.filename
}

/// The function that reads a directory's name off its view.
pub open spec fn dir_name_key() -> spec_fn(DirItemView) -> Seq<char> {
    |dir: DirItemView| dir.dirname
}

} // verus!
