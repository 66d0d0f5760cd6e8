//! Scenario tests for the tree service: population, idempotent integration,
//! isolation between folders, scan failures, and the rendering traversal.

use filetree::events::EditorEvent;
use filetree::file::File;
use filetree::filesystem::{FileSystem, FolderId};
use filetree::folder::Folder;
use filetree::scan::{scan_entries, scan_outcome, ScanEntry};
use filetree::traverse::TreeRow;

fn entry(path: &str, is_dir: bool) -> ScanEntry {
    ScanEntry {
        path: path.to_string(),
        is_dir,
    }
}

/// Names of the child folders of `id`, resolved through the arena in stored order.
fn child_folder_names(fs: &FileSystem, id: FolderId) -> Vec<String> {
    let ids = fs.folder(id).child_folders.clone();
    ids.iter().map(|c| fs.folder(*c).name.clone()).collect()
}

/// Names of the child files of `id`, resolved through the arena in stored order.
fn child_file_names(fs: &FileSystem, id: FolderId) -> Vec<String> {
    let ids = fs.folder(id).child_files.clone();
    ids.iter().map(|c| fs.file(*c).name()).collect()
}

#[test]
fn service_starts_unpopulated() {
    let fs = FileSystem::new("/project".to_string());
    let root = fs.root();
    let folder = fs.folder(root);
    assert_eq!(folder.path.as_str(), "/project");
    assert_eq!(folder.name.as_str(), "project");
    assert!(!folder.init);
    assert!(!folder.open);
    assert!(folder.child_files.is_empty());
    assert!(folder.child_folders.is_empty());
}

#[test]
fn load_folder_captures_path() {
    let fs = FileSystem::new("/project".to_string());
    let req = fs.load_folder(fs.root());
    assert_eq!(req.path.as_str(), "/project");
    let req2 = fs.load_root();
    assert_eq!(req2.path.as_str(), "/project");
}

#[test]
fn init_folder_populates_children() {
    let mut fs = FileSystem::new("/project".to_string());
    let root = fs.root();
    let files = vec![File::new("/project/a.txt".to_string())];
    let folders = vec![Folder::new("/project/src".to_string())];
    fs.init_folder(root, files, folders);

    let folder = fs.folder(root);
    assert!(folder.init);
    assert_eq!(folder.child_files.len(), 1);
    assert_eq!(folder.child_folders.len(), 1);
    assert_eq!(child_folder_names(&fs, root), vec!["src".to_string()]);
    assert_eq!(child_file_names(&fs, root), vec!["a.txt".to_string()]);

    let sub = fs.folder(root).child_folders[0];
    assert!(!fs.folder(sub).init);
    assert!(fs.folder(sub).child_files.is_empty());
}

#[test]
fn init_folder_is_idempotent() {
    let mut fs = FileSystem::new("/project".to_string());
    let root = fs.root();
    fs.init_folder(
        root,
        vec![File::new("/project/a.txt".to_string())],
        vec![Folder::new("/project/src".to_string())],
    );

    // A second, different result for the same folder is discarded in full.
    fs.init_folder(
        root,
        vec![
            File::new("/project/other.txt".to_string()),
            File::new("/project/more.txt".to_string()),
        ],
        vec![],
    );

    let folder = fs.folder(root);
    assert!(folder.init);
    assert_eq!(folder.child_files.len(), 1);
    assert_eq!(folder.child_folders.len(), 1);
    assert_eq!(child_file_names(&fs, root), vec!["a.txt".to_string()]);
    assert_eq!(child_folder_names(&fs, root), vec!["src".to_string()]);
}

#[test]
fn integration_does_not_touch_other_folders() {
    let mut fs = FileSystem::new("/p".to_string());
    let root = fs.root();
    fs.init_folder(
        root,
        vec![],
        vec![
            Folder::new("/p/x".to_string()),
            Folder::new("/p/y".to_string()),
        ],
    );
    let x = fs.folder(root).child_folders[0];
    let y = fs.folder(root).child_folders[1];

    // Snapshot x's record, then integrate a result for y.
    let x_path = fs.folder(x).path.clone();
    let x_init = fs.folder(x).init;
    fs.init_folder(y, vec![File::new("/p/y/f.txt".to_string())], vec![]);

    assert_eq!(fs.folder(x).path, x_path);
    assert_eq!(fs.folder(x).init, x_init);
    assert!(fs.folder(x).child_files.is_empty());
    assert_eq!(fs.folder(root).child_folders.len(), 2);
    assert_eq!(child_file_names(&fs, y), vec!["f.txt".to_string()]);
}

#[test]
fn fan_out_completes_in_either_order() {
    // Two scans dispatched for different folders may complete out of order;
    // both folders end up populated with their own children.
    for reversed in [false, true] {
        let mut fs = FileSystem::new("/p".to_string());
        let root = fs.root();
        fs.init_folder(
            root,
            vec![],
            vec![
                Folder::new("/p/x".to_string()),
                Folder::new("/p/y".to_string()),
            ],
        );
        let x = fs.folder(root).child_folders[0];
        let y = fs.folder(root).child_folders[1];
        let _rx = fs.load_folder(x);
        let _ry = fs.load_folder(y);

        let result_x = (vec![File::new("/p/x/fx.txt".to_string())], vec![]);
        let result_y = (vec![File::new("/p/y/fy.txt".to_string())], vec![]);
        if reversed {
            fs.init_folder(y, result_y.0, result_y.1);
            fs.init_folder(x, result_x.0, result_x.1);
        } else {
            fs.init_folder(x, result_x.0, result_x.1);
            fs.init_folder(y, result_y.0, result_y.1);
        }

        assert!(fs.folder(x).init);
        assert!(fs.folder(y).init);
        assert_eq!(child_file_names(&fs, x), vec!["fx.txt".to_string()]);
        assert_eq!(child_file_names(&fs, y), vec!["fy.txt".to_string()]);
    }
}

#[test]
fn scan_results_are_sorted_by_raw_name() {
    let entries = vec![
        entry("/d/b", true),
        entry("/d/a", true),
        entry("/d/C", true),
        entry("/d/z.txt", false),
        entry("/d/a.txt", false),
    ];
    let (files, folders) = scan_entries(entries);

    let folder_names: Vec<&str> = folders.iter().map(|f| f.name.as_str()).collect();
    assert_eq!(folder_names, vec!["C", "a", "b"]);
    let file_names: Vec<String> = files.iter().map(|f| f.name()).collect();
    assert_eq!(file_names, vec!["a.txt".to_string(), "z.txt".to_string()]);
}

#[test]
fn order_preservation_after_integration() {
    let mut fs = FileSystem::new("/d".to_string());
    let root = fs.root();
    let entries = vec![
        entry("/d/b", true),
        entry("/d/a", true),
        entry("/d/C", true),
        entry("/d/z.txt", false),
        entry("/d/a.txt", false),
    ];
    let (files, folders) = scan_entries(entries);
    fs.init_folder(root, files, folders);

    assert_eq!(
        child_folder_names(&fs, root),
        vec!["C".to_string(), "a".to_string(), "b".to_string()]
    );
    assert_eq!(
        child_file_names(&fs, root),
        vec!["a.txt".to_string(), "z.txt".to_string()]
    );
}

#[test]
fn failed_scan_produces_no_event_and_leaves_folder_unloaded() {
    let mut fs = FileSystem::new("/p".to_string());
    let root = fs.root();
    let req = fs.load_folder(root);

    // The directory could not be opened: no event is produced.
    let outcome = scan_outcome(req.id, None);
    assert!(outcome.is_none());
    assert!(!fs.folder(root).init);
    assert!(fs.folder(root).child_files.is_empty());
    assert!(fs.folder(root).child_folders.is_empty());

    // The service keeps working: a later scan for the same folder completes.
    let req = fs.load_folder(root);
    let outcome = scan_outcome(req.id, Some(vec![entry("/p/s", true)]));
    match outcome {
        Some(EditorEvent::FolderLoaded { id, files, folders }) => {
            fs.init_folder(id, files, folders);
        }
        None => panic!("expected an event"),
    }
    assert!(fs.folder(root).init);
    assert_eq!(child_folder_names(&fs, root), vec!["s".to_string()]);
}

#[test]
fn end_to_end_scenario() {
    let mut fs = FileSystem::new("/project".to_string());
    let root = fs.root();
    let req = fs.load_root();
    assert_eq!(req.path.as_str(), "/project");

    let outcome = scan_outcome(
        req.id,
        Some(vec![
            entry("/project/a.txt", false),
            entry("/project/src", true),
        ]),
    );
    match outcome {
        Some(EditorEvent::FolderLoaded { id, files, folders }) => {
            fs.init_folder(id, files, folders);
        }
        None => panic!("expected an event"),
    }

    let mut lines: Vec<TreeRow> = Vec::new();
    let mut remaining: usize = 10;
    fs.recurse_lines(root, &mut lines, &mut remaining, 0);

    assert_eq!(lines.len(), 2);
    match &lines[0] {
        TreeRow::FolderRow { depth, name, open } => {
            assert_eq!(*depth, 0);
            assert_eq!(name.as_str(), "src");
            assert!(!*open);
        }
        _ => panic!("expected the folder line first"),
    }
    match &lines[1] {
        TreeRow::FileRow { depth, name, .. } => {
            assert_eq!(*depth, 0);
            assert_eq!(name.as_str(), "a.txt");
        }
        _ => panic!("expected the file line second"),
    }
    assert!(fs.folder(root).init);
    assert_eq!(remaining, 8);
}

#[test]
fn traversal_descends_into_open_folders_only() {
    let mut fs = FileSystem::new("/p".to_string());
    let root = fs.root();
    fs.init_folder(root, vec![], vec![Folder::new("/p/sub".to_string())]);
    let sub = fs.folder(root).child_folders[0];
    fs.init_folder(sub, vec![File::new("/p/sub/inner.txt".to_string())], vec![]);

    // Closed: the subtree stays collapsed.
    let mut lines: Vec<TreeRow> = Vec::new();
    let mut remaining: usize = 10;
    fs.recurse_lines(root, &mut lines, &mut remaining, 0);
    assert_eq!(lines.len(), 1);

    // Open: the child file appears one level deeper.
    fs.set_open(sub, true);
    let mut lines: Vec<TreeRow> = Vec::new();
    let mut remaining: usize = 10;
    fs.recurse_lines(root, &mut lines, &mut remaining, 0);
    assert_eq!(lines.len(), 2);
    match &lines[1] {
        TreeRow::FileRow { depth, name, .. } => {
            assert_eq!(*depth, 1);
            assert_eq!(name.as_str(), "inner.txt");
        }
        _ => panic!("expected the nested file line"),
    }
}

#[test]
fn traversal_stops_when_budget_is_exhausted() {
    let mut fs = FileSystem::new("/p".to_string());
    let root = fs.root();
    fs.init_folder(
        root,
        vec![File::new("/p/g.txt".to_string())],
        vec![Folder::new("/p/sub".to_string())],
    );
    let sub = fs.folder(root).child_folders[0];
    fs.init_folder(sub, vec![File::new("/p/sub/f.txt".to_string())], vec![]);
    fs.set_open(sub, true);

    // The budget is checked before each line but charged for a folder's own
    // line only after its subtree, so a budget of one yields the folder line
    // and one nested line, and nothing else.
    let mut lines: Vec<TreeRow> = Vec::new();
    let mut remaining: usize = 1;
    fs.recurse_lines(root, &mut lines, &mut remaining, 0);
    assert_eq!(lines.len(), 2);
    assert_eq!(remaining, 0);
    match &lines[0] {
        TreeRow::FolderRow { name, .. } => assert_eq!(name.as_str(), "sub"),
        _ => panic!("expected the folder line first"),
    }
    match &lines[1] {
        TreeRow::FileRow { name, .. } => assert_eq!(name.as_str(), "f.txt"),
        _ => panic!("expected the nested file line"),
    }
}

#[test]
fn traversal_with_zero_budget_yields_nothing() {
    let mut fs = FileSystem::new("/p".to_string());
    let root = fs.root();
    fs.init_folder(
        root,
        vec![File::new("/p/a.txt".to_string())],
        vec![Folder::new("/p/sub".to_string())],
    );
    let mut lines: Vec<TreeRow> = Vec::new();
    let mut remaining: usize = 0;
    fs.recurse_lines(root, &mut lines, &mut remaining, 0);
    assert!(lines.is_empty());
    assert_eq!(remaining, 0);
}

#[test]
fn traversal_lists_folders_before_files_at_every_level() {
    let mut fs = FileSystem::new("/p".to_string());
    let root = fs.root();
    fs.init_folder(
        root,
        vec![File::new("/p/top.txt".to_string())],
        vec![Folder::new("/p/mid".to_string())],
    );
    let mid = fs.folder(root).child_folders[0];
    fs.init_folder(
        mid,
        vec![File::new("/p/mid/inner.txt".to_string())],
        vec![Folder::new("/p/mid/leaf".to_string())],
    );
    fs.set_open(mid, true);

    let mut lines: Vec<TreeRow> = Vec::new();
    let mut remaining: usize = 10;
    fs.recurse_lines(root, &mut lines, &mut remaining, 0);

    let describe: Vec<(bool, String, usize)> = lines
        .iter()
        .map(|row| match row {
            TreeRow::FolderRow { depth, name, .. } => (true, name.clone(), *depth),
            TreeRow::FileRow { depth, name, .. } => (false, name.clone(), *depth),
        })
        .collect();
    assert_eq!(
        describe,
        vec![
            (true, "mid".to_string(), 0),
            (true, "leaf".to_string(), 1),
            (false, "inner.txt".to_string(), 1),
            (false, "top.txt".to_string(), 0),
        ]
    );

    // Collapsing the folder hides its subtree again.
    fs.set_open(mid, false);
    let mut lines: Vec<TreeRow> = Vec::new();
    let mut remaining: usize = 10;
    fs.recurse_lines(root, &mut lines, &mut remaining, 0);
    assert_eq!(lines.len(), 2);
}

#[test]
fn empty_scan_marks_folder_loaded() {
    let mut fs = FileSystem::new("/p".to_string());
    let root = fs.root();
    let (files, folders) = scan_entries(Vec::new());
    assert!(files.is_empty());
    assert!(folders.is_empty());
    fs.init_folder(root, files, folders);
    assert!(fs.folder(root).init);
    assert!(fs.folder(root).child_files.is_empty());
    assert!(fs.folder(root).child_folders.is_empty());
}

#[test]
fn visible_traversal_passes_over_hidden_folders() {
    let mut fs = FileSystem::new("/p".to_string());
    let root = fs.root();
    fs.init_folder(
        root,
        vec![File::new("/p/a.txt".to_string())],
        vec![
            Folder::new("/p/.git".to_string()),
            Folder::new("/p/src".to_string()),
        ],
    );
    let git = fs.folder(root).child_folders[0];
    fs.init_folder(git, vec![File::new("/p/.git/conf".to_string())], vec![]);
    fs.set_open(git, true);

    // The plain traversal lists everything, even an open hidden folder.
    let mut lines: Vec<TreeRow> = Vec::new();
    let mut remaining: usize = 10;
    fs.recurse_lines(root, &mut lines, &mut remaining, 0);
    assert_eq!(lines.len(), 4);

    // The visible traversal passes over the hidden subtree at no budget
    // cost.
    let mut lines: Vec<TreeRow> = Vec::new();
    let mut remaining: usize = 3;
    fs.recurse_lines_visible(root, &mut lines, &mut remaining, 0);
    assert_eq!(lines.len(), 2);
    assert_eq!(remaining, 1);
    match &lines[0] {
        TreeRow::FolderRow { name, .. } => assert_eq!(name.as_str(), "src"),
        _ => panic!("expected the visible folder line first"),
    }
    match &lines[1] {
        TreeRow::FileRow { name, .. } => assert_eq!(name.as_str(), "a.txt"),
        _ => panic!("expected the file line second"),
    }
}

#[test]
fn hidden_folders_are_flagged() {
    let git = Folder::new("/p/.git".to_string());
    assert!(git.hidden());
    let src = Folder::new("/p/src".to_string());
    assert!(!src.hidden());
}
