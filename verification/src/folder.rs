//! Folder records: a directory node, its display name, and the identifiers
//! of its children once a scan for it has been integrated.

use vstd::prelude::*;
use vstd::string::StringExecFns;

use crate::filesystem::{FileId, FolderId};
use crate::names::spec_file_name;

verus! {

/// Mathematical model of a [`Folder`] record; child identifiers appear as
/// their arena indices.
#[verifier::ext_equal]
pub struct FolderView {
    pub path: Seq<char>,
    pub name: Seq<char>,
    pub child_files: Seq<int>,
    pub child_folders: Seq<int>,
    pub open: bool,
    pub init: bool,
}

impl FolderView {
    /// A record as the scanner produces it: nothing but a path and the name
    /// derived from it.
    pub open spec fn placeholder(path: Seq<char>) -> FolderView {
        FolderView {
            path,
            name: spec_file_name(path),
            child_files: Seq::empty(),
            child_folders: Seq::empty(),
            open: false,
            init: false,
        }
    }

    /// A record whose children arrays are empty and meaningless, awaiting a
    /// first integrated scan.
    pub open spec fn is_unattached(self) -> bool {
        &&& self.child_files =~= Seq::<int>::empty()
        &&& self.child_folders =~= Seq::<int>::empty()
        &&& !self.init
    }
}

/// The models of a sequence of folder records.
pub open spec fn folder_views(s: Seq<Folder>) -> Seq<FolderView> {
    Seq::new(s.len(), |i: int| s[i]@)
}

/// One directory node of the tree.
#[derive(Debug)]
pub struct Folder {
    pub path: String,
    pub name: String,
    pub child_files: Vec<FileId>,
    pub child_folders: Vec<FolderId>,
    /// Current open state in the UI; does not affect loading.
    pub open: bool,
    /// Whether the folder's children have been populated at least once.
    pub init: bool,
}

impl View for Folder {
    type V = FolderView;

    open spec fn view(&self) -> FolderView {
        FolderView {
            path: self.path@,
            name: self.name@,
            child_files: Seq::new(self.child_files@.len(), |i: int| self.child_files@[i]@),
            child_folders: Seq::new(self.child_folders@.len(), |i: int| self.child_folders@[i]@),
            open: self.open,
            init: self.init,
        }
    }
}

impl Folder {
    /// Creates a placeholder record for the directory at `path`: not yet
    /// populated, closed, with its display name derived from the path.
    pub fn new(path: String) -> (r: Folder)
        ensures
            r@ == FolderView::placeholder(path@),
    {
        let name = crate::names::file_name_of(path.as_str());
        let r = Folder {
            path,
            name,
            child_files: Vec::new(),
            child_folders: Vec::new(),
            open: false,
            init: false,
        };
        proof {
            assert(r@.child_files =~= Seq::<int>::empty());
            assert(r@.child_folders =~= Seq::<int>::empty());
        }
        r
    }

    /// Whether the folder is hidden from the tree view.
    pub fn hidden(&self) -> (r: bool)
        ensures
            r == (self@.name == ".git"@),
    {
        let git = String::from_str(".git");
        self.name == git
    }
}

} // verus!
