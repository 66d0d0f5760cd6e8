//! The read-only traversal the rendering layer consumes: starting from a
//! folder, enumerate its child folders then its child files in stored
//! (already sorted) order, descending into open folders only, and stop once
//! a caller-supplied line budget is exhausted. The traversal never mutates
//! the arena.

use vstd::prelude::*;

use crate::file::{Devicon, FileView};
use crate::filesystem::{FileSystem, FolderId, TreeView};
use crate::folder::FolderView;
use crate::names::spec_file_name;

verus! {

/// One display line of the tree view.
#[derive(Debug)]
pub enum TreeRow {
    FolderRow { depth: usize, name: String, open: bool },
    FileRow { depth: usize, name: String, icon: Devicon },
}

/// Mathematical model of a [`TreeRow`].
#[verifier::ext_equal]
pub enum RowView {
    FolderRow { depth: int, name: Seq<char>, open: bool },
    FileRow { depth: int, name: Seq<char>, icon: Devicon },
}

impl View for TreeRow {
    type V = RowView;

    open spec fn view(&self) -> RowView {
        match self {
            TreeRow::FolderRow { depth, name, open } => RowView::FolderRow {
                depth: *depth as int,
                name: name@,
                open: *open,
            },
            TreeRow::FileRow { depth, name, icon } => RowView::FileRow {
                depth: *depth as int,
                name: name@,
                icon: *icon,
            },
        }
    }
}

/// The models of a sequence of rows.
pub open spec fn row_views(s: Seq<TreeRow>) -> Seq<RowView> {
    Seq::new(s.len(), |i: int| s[i]@)
}

/// The display line of a folder record at a given depth.
pub open spec fn folder_row(f: FolderView, depth: int) -> RowView {
    RowView::FolderRow { depth, name: f.name, open: f.open }
}

/// The display line of a file record at a given depth.
pub open spec fn file_row(f: FileView, depth: int) -> RowView {
    RowView::FileRow { depth, name: spec_file_name(f.path), icon: f.icon }
}

impl TreeView {
    /// The file lines of `kids` from position `k` on, and the budget left:
    /// one line per file while the budget lasts.
    pub open spec fn walk_files(self, kids: Seq<int>, k: int, depth: int, budget: nat) -> (Seq<
        RowView,
    >, nat)
        decreases kids.len() - k,
        when 0 <= k
    {
        if k >= kids.len() {
            (Seq::<RowView>::empty(), budget)
        } else if budget == 0 {
            (Seq::<RowView>::empty(), 0nat)
        } else {
            let (rest, b) = self.walk_files(kids, k + 1, depth, (budget - 1) as nat);
            (seq![file_row(self.files[kids[k]], depth)] + rest, b)
        }
    }

    /// The lines of the subtree rooted at folder `id` (excluding `id`'s own
    /// line): child folders first, each followed by its own subtree when
    /// open, then child files; and the budget left. The budget is checked
    /// before each line and charged for a folder's line only after its
    /// subtree, so a nested subtree may briefly overrun it, exactly as the
    /// rendering loop does.
    pub open spec fn walk(self, id: int, depth: int, budget: nat, hide: bool) -> (Seq<
        RowView,
    >, nat)
        decreases self.folders.len() - id, 1int, 0int,
        when self.wf() && self.valid_folder(id)
    {
        let (rows1, b1) = self.walk_folders(
            id,
            self.folders[id].child_folders,
            0,
            depth,
            budget,
            hide,
        );
        let (rows2, b2) = self.walk_files(self.folders[id].child_files, 0, depth, b1);
        (rows1 + rows2, b2)
    }

    /// The folder lines of `kids` from position `k` on, with open subtrees
    /// expanded, and the budget left. With `hide` set, hidden folders are
    /// passed over entirely, at no cost to the budget.
    pub open spec fn walk_folders(
        self,
        id: int,
        kids: Seq<int>,
        k: int,
        depth: int,
        budget: nat,
        hide: bool,
    ) -> (Seq<RowView>, nat)
        decreases self.folders.len() - id, 0int, kids.len() - k,
        when self.wf() && self.valid_folder(id) && kids == self.folders[id].child_folders && 0
            <= k
    {
        if k >= kids.len() {
            (Seq::<RowView>::empty(), budget)
        } else if budget == 0 {
            (Seq::<RowView>::empty(), 0nat)
        } else {
            let j = kids[k];
            let child = self.folders[j];
            if hide && child.name == ".git"@ {
                self.walk_folders(id, kids, k + 1, depth, budget, hide)
            } else {
                let (sub, b1) = if child.open {
                    self.walk(j, depth + 1, budget, hide)
                } else {
                    (Seq::<RowView>::empty(), budget)
                };
                let b2 = if b1 > 0 {
                    (b1 - 1) as nat
                } else {
                    0nat
                };
                let (rest, b3) = self.walk_folders(id, kids, k + 1, depth, b2, hide);
                (seq![folder_row(child, depth)] + sub + rest, b3)
            }
        }
    }
}

/// Budget accounting for the file lines: the budget never grows, and while
/// it is not exhausted each line costs exactly one unit.
proof fn lemma_walk_files_budget(t: TreeView, kids: Seq<int>, k: int, depth: int, budget: nat)
    requires
        0 <= k,
    ensures
        t.walk_files(kids, k, depth, budget).1 <= budget,
        t.walk_files(kids, k, depth, budget).1 > 0 ==> t.walk_files(kids, k, depth, budget).0.len()
            + t.walk_files(kids, k, depth, budget).1 == budget,
    decreases kids.len() - k,
{
    if k >= kids.len() || budget == 0 {
    } else {
        lemma_walk_files_budget(t, kids, k + 1, depth, (budget - 1) as nat);
    }
}

/// Budget accounting for the folder lines of `kids` from position `k` on.
proof fn lemma_walk_folders_budget(
    t: TreeView,
    id: int,
    kids: Seq<int>,
    k: int,
    depth: int,
    budget: nat,
    hide: bool,
)
    requires
        t.wf(),
        t.valid_folder(id),
        kids == t.folders[id].child_folders,
        0 <= k,
    ensures
        t.walk_folders(id, kids, k, depth, budget, hide).1 <= budget,
        t.walk_folders(id, kids, k, depth, budget, hide).1 > 0 ==> t.walk_folders(
            id,
            kids,
            k,
            depth,
            budget,
            hide,
        ).0.len() + t.walk_folders(id, kids, k, depth, budget, hide).1 == budget,
    decreases t.folders.len() - id, 0int, kids.len() - k,
{
    if k >= kids.len() || budget == 0 {
    } else {
        let j = kids[k];
        let child = t.folders[j];
        if hide && child.name == ".git"@ {
            lemma_walk_folders_budget(t, id, kids, k + 1, depth, budget, hide);
        } else {
            let (sub, b1) = if child.open {
                t.walk(j, depth + 1, budget, hide)
            } else {
                (Seq::<RowView>::empty(), budget)
            };
            if child.open {
                lemma_walk_budget(t, j, depth + 1, budget, hide);
            }
            let b2 = if b1 > 0 {
                (b1 - 1) as nat
            } else {
                0nat
            };
            lemma_walk_folders_budget(t, id, kids, k + 1, depth, b2, hide);
        }
    }
}

/// Budget accounting for a whole subtree: the budget left never exceeds the
/// one supplied, and while any budget is left, the number of lines emitted
/// is exactly the budget spent.
pub proof fn lemma_walk_budget(t: TreeView, id: int, depth: int, budget: nat, hide: bool)
    requires
        t.wf(),
        t.valid_folder(id),
    ensures
        t.walk(id, depth, budget, hide).1 <= budget,
        t.walk(id, depth, budget, hide).1 > 0 ==> t.walk(id, depth, budget, hide).0.len()
            + t.walk(id, depth, budget, hide).1 == budget,
    decreases t.folders.len() - id, 1int, 0int,
{
    let kids = t.folders[id].child_folders;
    let fkids = t.folders[id].child_files;
    lemma_walk_folders_budget(t, id, kids, 0, depth, budget, hide);
    let b1 = t.walk_folders(id, kids, 0, depth, budget, hide).1;
    lemma_walk_files_budget(t, fkids, 0, depth, b1);
}

impl FileSystem {
    /// Recursively collects the display lines of files, folders and their
    /// open children, spending `remaining` on each line emitted.
    pub fn recurse_lines(
        &self,
        id: FolderId,
        lines: &mut Vec<TreeRow>,
        remaining: &mut usize,
        depth: usize,
    )
        requires
            self@.wf(),
            self@.valid_folder(id@),
            depth + self@.folders.len() - id@ <= usize::MAX,
        ensures
            row_views(final(lines)@) =~= row_views(old(lines)@) + self@.walk(
                id@,
                depth as int,
                *old(remaining) as nat,
                false,
            ).0,
            *final(remaining) == self@.walk(id@, depth as int, *old(remaining) as nat, false).1,
    {
        self.recurse_lines_inner(id, lines, remaining, depth, false);
    }

    /// Like `recurse_lines`, but passes over hidden folders (and their
    /// subtrees) entirely, at no cost to the line budget.
    pub fn recurse_lines_visible(
        &self,
        id: FolderId,
        lines: &mut Vec<TreeRow>,
        remaining: &mut usize,
        depth: usize,
    )
        requires
            self@.wf(),
            self@.valid_folder(id@),
            depth + self@.folders.len() - id@ <= usize::MAX,
        ensures
            row_views(final(lines)@) =~= row_views(old(lines)@) + self@.walk(
                id@,
                depth as int,
                *old(remaining) as nat,
                true,
            ).0,
            *final(remaining) == self@.walk(id@, depth as int, *old(remaining) as nat, true).1,
    {
        self.recurse_lines_inner(id, lines, remaining, depth, true);
    }

    /// The traversal shared by both variants; `hide` selects whether hidden
    /// folders are passed over.
    fn recurse_lines_inner(
        &self,
        id: FolderId,
        lines: &mut Vec<TreeRow>,
        remaining: &mut usize,
        depth: usize,
        hide: bool,
    )
        requires
            self@.wf(),
            self@.valid_folder(id@),
            depth + self@.folders.len() - id@ <= usize::MAX,
        ensures
            row_views(final(lines)@) =~= row_views(old(lines)@) + self@.walk(
                id@,
                depth as int,
                *old(remaining) as nat,
                hide,
            ).0,
            *final(remaining) == self@.walk(id@, depth as int, *old(remaining) as nat, hide).1,
        decreases self@.folders.len() - id@,
    {
        let ghost t = self@;
        let ghost b0 = *remaining as nat;
        let ghost rows0 = row_views(lines@);
        let folder = self.folder(id);
        let ghost kids = t.folders[id@].child_folders;
        let ghost fkids = t.folders[id@].child_files;

        let n_folders = folder.child_folders.len();
        let mut k: usize = 0;
        while k < n_folders
            invariant
                self@ == t,
                t.wf(),
                t.valid_folder(id@),
                depth + t.folders.len() - id@ <= usize::MAX,
                folder@ == t.folders[id@],
                kids == t.folders[id@].child_folders,
                n_folders == kids.len(),
                k <= n_folders,
                b0 == *old(remaining) as nat,
                rows0 == row_views(old(lines)@),
                rows0 + t.walk_folders(id@, kids, 0, depth as int, b0, hide).0 =~= row_views(
                    lines@,
                ) + t.walk_folders(id@, kids, k as int, depth as int, *remaining as nat, hide).0,
                t.walk_folders(id@, kids, 0, depth as int, b0, hide).1 == t.walk_folders(
                    id@,
                    kids,
                    k as int,
                    depth as int,
                    *remaining as nat,
                    hide,
                ).1,
            decreases n_folders - k,
        {
            if *remaining == 0 {
                proof {
                    let wf0 = t.walk_folders(id@, kids, 0, depth as int, b0, hide);
                    assert(t.walk_folders(id@, kids, k as int, depth as int, 0nat, hide) == (Seq::<
                        RowView,
                    >::empty(), 0nat));
                    assert(wf0.1 == 0);
                    assert(row_views(lines@) =~= rows0 + wf0.0);
                    assert(t.walk_files(fkids, 0, depth as int, 0nat) == (Seq::<RowView>::empty(),
                    0nat));
                    assert(t.walk(id@, depth as int, b0, hide).0 =~= wf0.0 + t.walk_files(
                        fkids,
                        0,
                        depth as int,
                        wf0.1,
                    ).0);
                    assert(wf0.0 + Seq::<RowView>::empty() =~= wf0.0);
                    assert(t.walk(id@, depth as int, b0, hide).1 == 0);
                }
                return ;
            }
            let child_id = folder.child_folders[k];
            proof {
                assert(child_id@ == kids[k as int]);
                assert(id@ < kids[k as int] < t.folders.len());
            }
            let child = self.folder(child_id);
            if hide && child.hidden() {
                k = k + 1;
                continue ;
            }
            let row = TreeRow::FolderRow { depth, name: child.name.clone(), open: child.open };
            let ghost lines_before = lines@;
            lines.push(row);
            proof {
                lemma_row_views_push(lines_before, row);
            }
            if child.open {
                self.recurse_lines_inner(child_id, lines, remaining, depth + 1, hide);
            }
            *remaining = if *remaining > 0 {
                *remaining - 1
            } else {
                0
            };
            k = k + 1;
        }

        let n_files = folder.child_files.len();
        let mut m: usize = 0;
        while m < n_files
            invariant
                self@ == t,
                t.wf(),
                t.valid_folder(id@),
                folder@ == t.folders[id@],
                kids == t.folders[id@].child_folders,
                fkids == t.folders[id@].child_files,
                n_files == fkids.len(),
                m <= n_files,
                b0 == *old(remaining) as nat,
                rows0 == row_views(old(lines)@),
                rows0 + t.walk_folders(id@, kids, 0, depth as int, b0, hide).0 + t.walk_files(
                    fkids,
                    0,
                    depth as int,
                    t.walk_folders(id@, kids, 0, depth as int, b0, hide).1,
                ).0 =~= row_views(lines@) + t.walk_files(
                    fkids,
                    m as int,
                    depth as int,
                    *remaining as nat,
                ).0,
                t.walk_files(
                    fkids,
                    0,
                    depth as int,
                    t.walk_folders(id@, kids, 0, depth as int, b0, hide).1,
                ).1 == t.walk_files(fkids, m as int, depth as int, *remaining as nat).1,
            decreases n_files - m,
        {
            if *remaining == 0 {
                proof {
                    let wf0 = t.walk_folders(id@, kids, 0, depth as int, b0, hide);
                    let wl0 = t.walk_files(fkids, 0, depth as int, wf0.1);
                    assert(t.walk_files(fkids, m as int, depth as int, 0nat) == (Seq::<
                        RowView,
                    >::empty(), 0nat));
                    assert(row_views(lines@) + Seq::<RowView>::empty() =~= row_views(lines@));
                    assert(row_views(lines@) =~= rows0 + wf0.0 + wl0.0);
                    assert(t.walk(id@, depth as int, b0, hide).0 =~= wf0.0 + wl0.0);
                    assert(rows0 + (wf0.0 + wl0.0) =~= rows0 + wf0.0 + wl0.0);
                    assert(t.walk(id@, depth as int, b0, hide).1 == 0);
                }
                return ;
            }
            let file_id = folder.child_files[m];
            proof {
                assert(file_id@ == fkids[m as int]);
                assert(0 <= fkids[m as int] < t.files.len());
            }
            let file = self.file(file_id);
            let name = file.name();
            let row = TreeRow::FileRow { depth, name, icon: file.icon };
            let ghost lines_before = lines@;
            lines.push(row);
            proof {
                lemma_row_views_push(lines_before, row);
            }
            *remaining = *remaining - 1;
            m = m + 1;
        }
        proof {
            let wf0 = t.walk_folders(id@, kids, 0, depth as int, b0, hide);
            let wl0 = t.walk_files(fkids, 0, depth as int, wf0.1);
            assert(t.walk_files(fkids, m as int, depth as int, *remaining as nat) == (Seq::<
                RowView,
            >::empty(), *remaining as nat));
            assert(row_views(lines@) + Seq::<RowView>::empty() =~= row_views(lines@));
            assert(row_views(lines@) =~= rows0 + wf0.0 + wl0.0);
            assert(t.walk(id@, depth as int, b0, hide).0 =~= wf0.0 + wl0.0);
            assert(rows0 + (wf0.0 + wl0.0) =~= rows0 + wf0.0 + wl0.0);
            assert(t.walk(id@, depth as int, b0, hide).1 == wl0.1);
        }
    }
}

/// `row_views` of a sequence with one row appended.
proof fn lemma_row_views_push(s: Seq<TreeRow>, x: TreeRow)
    ensures
        row_views(s.push(x)) =~= row_views(s) + seq![x@],
{
}

} // verus!
