//! The tree arena and service: all loaded files and folders, owned by one
//! store per kind and addressed through opaque identifiers.

use vstd::prelude::*;

use crate::file::{file_views, File, FileView};
use crate::folder::{folder_views, Folder, FolderView};
use crate::names::spec_file_name;

verus! {

/// Opaque identifier of a [`File`] in the arena. Stable for the process
/// lifetime; never reused or invalidated.
#[derive(Clone, Copy, PartialEq, Eq, Structural, Debug)]
pub struct FileId {
    idx: usize,
}

impl View for FileId {
    type V = int;

    closed spec fn view(&self) -> int {
        self.idx as int
    }
}

/// Opaque identifier of a [`Folder`] in the arena. Stable for the process
/// lifetime; never reused or invalidated.
#[derive(Clone, Copy, PartialEq, Eq, Structural, Debug)]
pub struct FolderId {
    idx: usize,
}

impl View for FolderId {
    type V = int;

    closed spec fn view(&self) -> int {
        self.idx as int
    }
}

/// Mathematical model of the arena: the two stores, the root identifier, and
/// the path bookkeeping, with identifiers as store indices.
#[verifier::ext_equal]
pub struct TreeView {
    pub root: int,
    pub folders: Seq<FolderView>,
    pub files: Seq<FileView>,
    pub open_buffers: Seq<int>,
    pub file_paths: Seq<(Seq<char>, int)>,
    pub folder_paths: Seq<(Seq<char>, int)>,
}

/// All loaded files and folders.
#[derive(Debug)]
pub struct FileSystem {
    /// Root folder.
    root: FolderId,
    folders: Vec<Folder>,
    files: Vec<File>,
    /// Which files currently hold open buffers (maintained by the editing
    /// layer; the tree core only allocates records).
    open_buffers: Vec<FileId>,
    /// Opened files that are outside the tree, or whose folder has not yet
    /// been loaded (maintained by the editing layer).
    file_paths: Vec<(String, FileId)>,
    /// From paths of directories that have completed a scan to their node
    /// ids; the hook for dispatching path-based change notifications.
    folder_paths: Vec<(String, FolderId)>,
}

impl View for FileSystem {
    type V = TreeView;

    closed spec fn view(&self) -> TreeView {
        TreeView {
            root: self.root@,
            folders: Seq::new(self.folders@.len(), |i: int| self.folders@[i]@),
            files: Seq::new(self.files@.len(), |i: int| self.files@[i]@),
            open_buffers: Seq::new(self.open_buffers@.len(), |i: int| self.open_buffers@[i]@),
            file_paths: Seq::new(
                self.file_paths@.len(),
                |i: int| (self.file_paths@[i].0@, self.file_paths@[i].1@),
            ),
            folder_paths: Seq::new(
                self.folder_paths@.len(),
                |i: int| (self.folder_paths@[i].0@, self.folder_paths@[i].1@),
            ),
        }
    }
}

impl TreeView {
    /// `id` names a folder record of the arena.
    pub open spec fn valid_folder(self, id: int) -> bool {
        0 <= id < self.folders.len()
    }

    /// `id` names a file record of the arena.
    pub open spec fn valid_file(self, id: int) -> bool {
        0 <= id < self.files.len()
    }

    /// The identifiers that `n` file records appended to the arena would
    /// receive, in insertion order.
    pub open spec fn fresh_file_ids(self, n: nat) -> Seq<int> {
        Seq::new(n, |i: int| self.files.len() + i)
    }

    /// The identifiers that `n` folder records appended to the arena would
    /// receive, in insertion order.
    pub open spec fn fresh_folder_ids(self, n: nat) -> Seq<int> {
        Seq::new(n, |i: int| self.folders.len() + i)
    }

    /// The arena after integrating a scan result for folder `id`. If the
    /// folder was already populated, the result is discarded in full and the
    /// arena is unchanged. Otherwise every record is inserted, the fresh
    /// identifiers are recorded in the scanner's order as the folder's
    /// children, the folder becomes populated, and its path is registered.
    pub open spec fn integrate(
        self,
        id: int,
        files: Seq<FileView>,
        folders: Seq<FolderView>,
    ) -> TreeView
        recommends
            self.valid_folder(id),
    {
        if self.folders[id].init {
            self
        } else {
            let parent = FolderView {
                child_files: self.fresh_file_ids(files.len()),
                child_folders: self.fresh_folder_ids(folders.len()),
                init: true,
                ..self.folders[id]
            };
            TreeView {
                folders: self.folders.update(id, parent) + folders,
                files: self.files + files,
                folder_paths: self.folder_paths.push((self.folders[id].path, id)),
                ..self
            }
        }
    }

    /// Well-formedness of the arena: the root exists, every child identifier
    /// names a record, a folder's child folders were allocated after it (so
    /// the graph is acyclic), and an unpopulated folder has no children.
    pub open spec fn wf(self) -> bool {
        &&& self.valid_folder(self.root)
        &&& forall|i: int, k: int|
            0 <= i < self.folders.len() && 0 <= k < self.folders[i].child_folders.len()
                ==> i < #[trigger] self.folders[i].child_folders[k] < self.folders.len()
        &&& forall|i: int, k: int|
            0 <= i < self.folders.len() && 0 <= k < self.folders[i].child_files.len() ==> 0 <= (
            #[trigger] self.folders[i].child_files[k]) < self.files.len()
        &&& forall|i: int|
            0 <= i < self.folders.len() && !(#[trigger] self.folders[i].init)
                ==> self.folders[i].is_unattached()
    }
}

impl FileSystem {
    /// The identifier of the root folder.
    pub fn root(&self) -> (r: FolderId)
        ensures
            r@ == self@.root,
    {
        self.root
    }

    /// Looks a folder up in the arena. Identifiers handed out by this arena
    /// are never invalidated, so the lookup always succeeds for them.
    pub fn folder(&self, id: FolderId) -> (r: &Folder)
        requires
            self@.valid_folder(id@),
        ensures
            r@ == self@.folders[id@],
    {
        &self.folders[id.idx]
    }

    /// Looks a file up in the arena.
    pub fn file(&self, id: FileId) -> (r: &File)
        requires
            self@.valid_file(id@),
        ensures
            r@ == self@.files[id@],
    {
        &self.files[id.idx]
    }

    /// Creates the arena with a single, unpopulated placeholder for
    /// `root_path` registered as the root. Performs no I/O.
    pub fn new(root_path: String) -> (r: FileSystem)
        ensures
            r@.root == 0,
            r@.folders =~= seq![FolderView::placeholder(root_path@)],
            r@.files =~= Seq::<FileView>::empty(),
            r@.open_buffers =~= Seq::<int>::empty(),
            r@.file_paths =~= Seq::<(Seq<char>, int)>::empty(),
            r@.folder_paths =~= Seq::<(Seq<char>, int)>::empty(),
            r@.wf(),
    {
        let root_folder = Folder::new(root_path);
        let mut folders: Vec<Folder> = Vec::new();
        folders.push(root_folder);
        FileSystem {
            root: FolderId { idx: 0 },
            folders,
            files: Vec::new(),
            open_buffers: Vec::new(),
            file_paths: Vec::new(),
            folder_paths: Vec::new(),
        }
    }

    /// Prepares a background scan of `folders[id].path`: captures the path
    /// by value so the scanner never touches the arena. Performs no I/O and
    /// never blocks; the result is integrated later by `init_folder`.
    pub fn load_folder(&self, id: FolderId) -> (r: ScanRequest)
        requires
            self@.valid_folder(id@),
        ensures
            r.id == id,
            r.path@ == self@.folders[id@].path,
    {
        ScanRequest { id, path: self.folders[id.idx].path.clone() }
    }

    /// Prepares a background scan of the root folder.
    pub fn load_root(&self) -> (r: ScanRequest)
        requires
            self@.wf(),
        ensures
            r.id@ == self@.root,
            r.path@ == self@.folders[self@.root].path,
    {
        self.load_folder(self.root)
    }

    /// Sets a folder's UI expansion flag. The flag does not affect loading,
    /// and changing it touches nothing else in the arena.
    pub fn set_open(&mut self, id: FolderId, open: bool)
        requires
            old(self)@.valid_folder(id@),
        ensures
            final(self)@ == (TreeView {
                folders: old(self)@.folders.update(
                    id@,
                    FolderView { open, ..old(self)@.folders[id@] },
                ),
                ..old(self)@
            }),
            old(self)@.wf() ==> final(self)@.wf(),
    {
        let entry = vstd::std_specs::vec::vec_index_mut(&mut self.folders, id.idx);
        entry.open = open;
        proof {
            let t0 = old(self)@;
            let t1 = self@;
            let goal = TreeView {
                folders: t0.folders.update(id@, FolderView { open, ..t0.folders[id@] }),
                ..t0
            };
            assert(t1.folders =~~= goal.folders);
            assert(t1.files =~= goal.files);
            assert(t1.folder_paths =~= goal.folder_paths);
            assert(t1.open_buffers =~= goal.open_buffers);
            assert(t1.file_paths =~= goal.file_paths);
            assert(t1 == goal);
            if t0.wf() {
                assert forall|i: int| 0 <= i < t1.folders.len() && !(#[trigger] t1.folders[i].init)
                    implies t1.folders[i].is_unattached() by {
                    if i != id@ {
                        assert(t1.folders[i] == t0.folders[i]);
                    } else {
                        assert(t0.folders[i].is_unattached() == t1.folders[i].is_unattached());
                    }
                }
                assert(t1.wf());
            }
        }
    }

    /// Integrates a scan result for folder `id`: the single synchronization
    /// point that makes population idempotent. If the folder is already
    /// populated the whole result is discarded; otherwise the records are
    /// inserted and their fresh identifiers recorded, in the scanner's
    /// order, as the folder's children.
    pub fn init_folder(&mut self, id: FolderId, files: Vec<File>, folders: Vec<Folder>)
        requires
            old(self)@.wf(),
            old(self)@.valid_folder(id@),
            forall|i: int| 0 <= i < folders@.len() ==> (#[trigger] folders@[i])@.is_unattached(),
        ensures
            final(self)@ == old(self)@.integrate(id@, file_views(files@), folder_views(folders@)),
            final(self)@.wf(),
    {
        // Avoid overwriting existing children
        if self.folders[id.idx].init {
            return ;
        }
        let ghost files0 = files@;
        let ghost folders0 = folders@;

        let path = self.folders[id.idx].path.clone();

        let n_files = files.len();
        let base_files = self.files.len();
        let mut files = files;
        self.files.append(&mut files);
        let total_files = self.files.len();
        let mut file_ids: Vec<FileId> = Vec::new();
        let mut i: usize = 0;
        while i < n_files
            invariant
                i <= n_files,
                base_files + n_files == total_files,
                file_ids@.len() == i,
                forall|j: int| 0 <= j < i ==> (#[trigger] file_ids@[j])@ == base_files + j,
            decreases n_files - i,
        {
            file_ids.push(FileId { idx: base_files + i });
            i = i + 1;
        }

        let n_folders = folders.len();
        let base_folders = self.folders.len();
        let mut folders = folders;
        self.folders.append(&mut folders);
        let total_folders = self.folders.len();
        let mut folder_ids: Vec<FolderId> = Vec::new();
        let mut k: usize = 0;
        while k < n_folders
            invariant
                k <= n_folders,
                base_folders + n_folders == total_folders,
                folder_ids@.len() == k,
                forall|j: int| 0 <= j < k ==> (#[trigger] folder_ids@[j])@ == base_folders + j,
            decreases n_folders - k,
        {
            folder_ids.push(FolderId { idx: base_folders + k });
            k = k + 1;
        }

        let parent = vstd::std_specs::vec::vec_index_mut(&mut self.folders, id.idx);
        parent.child_files = file_ids;
        parent.child_folders = folder_ids;
        parent.init = true;
        self.folder_paths.push((path, id));

        proof {
            let t0 = old(self)@;
            let t1 = self@;
            let goal = t0.integrate(id@, file_views(files0), folder_views(folders0));
            assert(t1.files =~= goal.files);
            assert(t1.folders =~~= goal.folders);
            assert(t1.folder_paths =~= goal.folder_paths);
            assert(t1.open_buffers =~= goal.open_buffers);
            assert(t1.file_paths =~= goal.file_paths);
            assert(t1 == goal);
            lemma_integrate_wf(t0, id@, file_views(files0), folder_views(folders0));
        }
    }
}

/// Integration preserves the arena's well-formedness, provided the payload
/// records are unattached placeholders.
pub proof fn lemma_integrate_wf(t: TreeView, id: int, files: Seq<FileView>, folders: Seq<
    FolderView,
>)
    requires
        t.wf(),
        t.valid_folder(id),
        forall|i: int| 0 <= i < folders.len() ==> (#[trigger] folders[i]).is_unattached(),
    ensures
        t.integrate(id, files, folders).wf(),
{
    let r = t.integrate(id, files, folders);
    if !t.folders[id].init {
        assert forall|i: int, k: int|
            0 <= i < r.folders.len() && 0 <= k < r.folders[i].child_folders.len() implies i < (
        #[trigger] r.folders[i].child_folders[k]) < r.folders.len() by {
            if i < t.folders.len() {
                if i == id {
                } else {
                    assert(r.folders[i] == t.folders[i]);
                }
            } else {
                assert(r.folders[i] == folders[i - t.folders.len()]);
            }
        }
        assert forall|i: int, k: int|
            0 <= i < r.folders.len() && 0 <= k < r.folders[i].child_files.len() implies 0 <= (
        #[trigger] r.folders[i].child_files[k]) < r.files.len() by {
            if i < t.folders.len() {
                if i == id {
                } else {
                    assert(r.folders[i] == t.folders[i]);
                }
            } else {
                assert(r.folders[i] == folders[i - t.folders.len()]);
            }
        }
        assert forall|i: int| 0 <= i < r.folders.len() && !(#[trigger] r.folders[i].init) implies r
            .folders[i].is_unattached() by {
            if i < t.folders.len() {
                if i != id {
                    assert(r.folders[i] == t.folders[i]);
                }
            } else {
                assert(r.folders[i] == folders[i - t.folders.len()]);
            }
        }
    }
}

/// Idempotent integration: once a scan result for a folder has been
/// integrated, integrating any further result for the same folder — with any
/// payload — is a pure no-op, so the arena is identical to what the first
/// integration alone produced.
pub proof fn lemma_integrate_idempotent(
    t: TreeView,
    id: int,
    files1: Seq<FileView>,
    folders1: Seq<FolderView>,
    files2: Seq<FileView>,
    folders2: Seq<FolderView>,
)
    requires
        t.valid_folder(id),
    ensures
        t.integrate(id, files1, folders1).integrate(id, files2, folders2) == t.integrate(
            id,
            files1,
            folders1,
        ),
{
    let t1 = t.integrate(id, files1, folders1);
    assert(t1.folders[id].init);
}

/// No cross-contamination: integrating a result for folder `id` never
/// changes any other folder record, any existing file record, the root, or
/// the buffer bookkeeping.
pub proof fn lemma_integrate_no_cross_contamination(
    t: TreeView,
    id: int,
    files: Seq<FileView>,
    folders: Seq<FolderView>,
)
    requires
        t.valid_folder(id),
    ensures
        forall|j: int|
            0 <= j < t.folders.len() && j != id ==> t.integrate(id, files, folders).folders[j]
                == t.folders[j],
        forall|j: int|
            0 <= j < t.files.len() ==> t.integrate(id, files, folders).files[j] == t.files[j],
        t.integrate(id, files, folders).root == t.root,
        t.integrate(id, files, folders).open_buffers == t.open_buffers,
        t.integrate(id, files, folders).file_paths == t.file_paths,
{
}

/// A populated folder never becomes unpopulated: integration sets `init`
/// flags and never clears one.
pub proof fn lemma_integrate_init_monotone(
    t: TreeView,
    id: int,
    files: Seq<FileView>,
    folders: Seq<FolderView>,
)
    requires
        t.valid_folder(id),
    ensures
        forall|j: int|
            0 <= j < t.folders.len() && t.folders[j].init ==> t.integrate(
                id,
                files,
                folders,
            ).folders[j].init,
{
}

/// Integration records the folder's children in exactly the scanner's
/// order: the `i`-th child identifier resolves to the `i`-th payload record,
/// files and folders independently.
pub proof fn lemma_integrate_order_preservation(
    t: TreeView,
    id: int,
    files: Seq<FileView>,
    folders: Seq<FolderView>,
)
    requires
        t.valid_folder(id),
        !t.folders[id].init,
    ensures
        t.integrate(id, files, folders).folders[id].child_files.len() == files.len(),
        t.integrate(id, files, folders).folders[id].child_folders.len() == folders.len(),
        forall|i: int|
            0 <= i < files.len() ==> t.integrate(id, files, folders).files[t.integrate(
                id,
                files,
                folders,
            ).folders[id].child_files[i]] == files[i],
        forall|i: int|
            0 <= i < folders.len() ==> t.integrate(id, files, folders).folders[t.integrate(
                id,
                files,
                folders,
            ).folders[id].child_folders[i]] == folders[i],
{
}

/// Order preservation: if the scanner's folder and file lists are each
/// sorted by raw name, then after integration the folder's children resolve,
/// in stored order, to name-sorted records — the two lists independently.
pub proof fn lemma_integrate_sorted(
    t: TreeView,
    id: int,
    files: Seq<FileView>,
    folders: Seq<FolderView>,
)
    requires
        t.valid_folder(id),
        !t.folders[id].init,
        crate::names::sorted_names(Seq::new(files.len(), |i: int| spec_file_name(files[i].path))),
        crate::names::sorted_names(Seq::new(folders.len(), |i: int| folders[i].name)),
    ensures
        crate::names::sorted_names(
            Seq::new(
                files.len(),
                |i: int|
                    spec_file_name(
                        t.integrate(id, files, folders).files[t.integrate(
                            id,
                            files,
                            folders,
                        ).folders[id].child_files[i]].path,
                    ),
            ),
        ),
        crate::names::sorted_names(
            Seq::new(
                folders.len(),
                |i: int|
                    t.integrate(id, files, folders).folders[t.integrate(
                        id,
                        files,
                        folders,
                    ).folders[id].child_folders[i]].name,
            ),
        ),
{
    lemma_integrate_order_preservation(t, id, files, folders);
    let r = t.integrate(id, files, folders);
    assert(Seq::new(
        files.len(),
        |i: int| spec_file_name(r.files[r.folders[id].child_files[i]].path),
    ) =~= Seq::new(files.len(), |i: int| spec_file_name(files[i].path)));
    assert(Seq::new(folders.len(), |i: int| r.folders[r.folders[id].child_folders[i]].name)
        =~= Seq::new(folders.len(), |i: int| folders[i].name));
}

/// Fan-out safety: scan results for two different folders, integrated in
/// either completion order, leave both folders populated with their own
/// children, each resolving to its own payload records in order.
pub proof fn lemma_integrate_fan_out(
    t: TreeView,
    x: int,
    y: int,
    files_x: Seq<FileView>,
    folders_x: Seq<FolderView>,
    files_y: Seq<FileView>,
    folders_y: Seq<FolderView>,
)
    requires
        t.valid_folder(x),
        t.valid_folder(y),
        x != y,
        !t.folders[x].init,
        !t.folders[y].init,
    ensures
        ({
            let t2 = t.integrate(x, files_x, folders_x).integrate(y, files_y, folders_y);
            &&& t2.folders[x].init
            &&& t2.folders[y].init
            &&& t2.folders[x].child_files.len() == files_x.len()
            &&& t2.folders[x].child_folders.len() == folders_x.len()
            &&& t2.folders[y].child_files.len() == files_y.len()
            &&& t2.folders[y].child_folders.len() == folders_y.len()
            &&& forall|i: int|
                0 <= i < files_x.len() ==> t2.files[t2.folders[x].child_files[i]] == files_x[i]
            &&& forall|i: int|
                0 <= i < folders_x.len() ==> t2.folders[t2.folders[x].child_folders[i]]
                    == folders_x[i]
            &&& forall|i: int|
                0 <= i < files_y.len() ==> t2.files[t2.folders[y].child_files[i]] == files_y[i]
            &&& forall|i: int|
                0 <= i < folders_y.len() ==> t2.folders[t2.folders[y].child_folders[i]]
                    == folders_y[i]
        }),
{
    let t1 = t.integrate(x, files_x, folders_x);
    lemma_integrate_order_preservation(t, x, files_x, folders_x);
    assert(!t1.folders[y].init);
    lemma_integrate_order_preservation(t1, y, files_y, folders_y);
}

/// The unit of work `load_folder` schedules: the directory path to scan and
/// the identifier the result will be integrated under, captured by value.
#[derive(Debug)]
pub struct ScanRequest {
    pub id: FolderId,
    pub path: String,
}

} // verus!
