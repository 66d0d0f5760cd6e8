//! Internal editor events: how background tasks hand their results to the
//! owning thread, as one atomic batch per completed scan.

use vstd::prelude::*;

use crate::file::File;
use crate::filesystem::FolderId;
use crate::folder::Folder;

verus! {

/// A result crossing the event channel from a background task to the owning
/// thread. A completed directory scan delivers the target folder's id and
/// both complete sorted lists in a single event.
#[derive(Debug)]
pub enum EditorEvent {
    FolderLoaded { id: FolderId, files: Vec<File>, folders: Vec<Folder> },
}

} // verus!
