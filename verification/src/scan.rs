//! The pure part of a directory scan: classifying a directory's immediate
//! entries, sorting files and folders independently by raw name, and packing
//! the batch into the single event a scan delivers.
//!
//! The scanner never touches the arena: it works on plain entry values
//! captured at dispatch time and hands back unattached records.

use vstd::prelude::*;

use crate::events::EditorEvent;
use crate::file::{file_views, File, FileView};
use crate::folder::{folder_views, Folder, FolderView};
use crate::filesystem::FolderId;
use crate::names::{
    compare_names, lemma_lex_le_trans, lemma_lex_total, lex_le, lex_lt, sorted_names,
    spec_file_name,
};
use crate::sort::{insert_sorted, lemma_insert_sorted_at, sort_by_key, sorted_by_key};

verus! {

/// One immediate entry of a scanned directory, as the host's enumeration
/// reports it: its path, and whether it is a directory.
#[derive(Debug)]
pub struct ScanEntry {
    pub path: String,
    pub is_dir: bool,
}

impl View for ScanEntry {
    type V = (Seq<char>, bool);

    open spec fn view(&self) -> (Seq<char>, bool) {
        (self.path@, self.is_dir)
    }
}

/// The models of a sequence of entries.
pub open spec fn entry_views(s: Seq<ScanEntry>) -> Seq<(Seq<char>, bool)> {
    Seq::new(s.len(), |i: int| s[i]@)
}

/// The views of a sequence of strings.
pub open spec fn str_views(s: Seq<String>) -> Seq<Seq<char>> {
    Seq::new(s.len(), |i: int| s[i]@)
}

/// Paths of the non-directory entries, in enumeration order.
pub open spec fn spec_file_paths(s: Seq<(Seq<char>, bool)>) -> Seq<Seq<char>>
    decreases s.len(),
{
    if s.len() == 0 {
        Seq::<Seq<char>>::empty()
    } else {
        let rest = spec_file_paths(s.drop_last());
        if !s.last().1 {
            rest.push(s.last().0)
        } else {
            rest
        }
    }
}

/// Paths of the directory entries, in enumeration order.
pub open spec fn spec_dir_paths(s: Seq<(Seq<char>, bool)>) -> Seq<Seq<char>>
    decreases s.len(),
{
    if s.len() == 0 {
        Seq::<Seq<char>>::empty()
    } else {
        let rest = spec_dir_paths(s.drop_last());
        if s.last().1 {
            rest.push(s.last().0)
        } else {
            rest
        }
    }
}

/// The key a path is sorted by: its raw file name.
pub open spec fn path_key() -> spec_fn(Seq<char>) -> Seq<char> {
    |p: Seq<char>| spec_file_name(p)
}

/// Splits entries into file paths and directory paths, keeping enumeration
/// order within each class.
fn classify(entries: Vec<ScanEntry>) -> (r: (Vec<String>, Vec<String>))
    ensures
        str_views(r.0@) =~= spec_file_paths(entry_views(entries@)),
        str_views(r.1@) =~= spec_dir_paths(entry_views(entries@)),
{
    let ghost e0 = entry_views(entries@);
    let mut entries = entries;
    let n0 = entries.len();
    let mut file_paths: Vec<String> = Vec::new();
    let mut dir_paths: Vec<String> = Vec::new();
    let mut i: usize = 0;
    while entries.len() > 0
        invariant
            n0 == e0.len(),
            i + entries@.len() == e0.len(),
            entry_views(entries@) =~= e0.skip(i as int),
            str_views(file_paths@) =~= spec_file_paths(e0.take(i as int)),
            str_views(dir_paths@) =~= spec_dir_paths(e0.take(i as int)),
        decreases entries@.len(),
    {
        let ghost pre = entries@;
        let e = entries.remove(0);
        proof {
            assert(entry_views(pre)[0] == e@);
            assert(entry_views(pre)[0] == e0.skip(i as int)[0]);
            assert(e@ == e0[i as int]);
            assert(e0.take(i + 1).drop_last() =~= e0.take(i as int));
            assert(e0.take(i + 1).last() == e0[i as int]);
            assert(entries@ =~= pre.drop_first());
            assert forall|j: int| 0 <= j < pre.drop_first().len() implies entry_views(
                pre.drop_first(),
            )[j] == e0.skip(i + 1)[j] by {
                assert(pre.drop_first()[j] == pre[j + 1]);
                assert(entry_views(pre)[j + 1] == e0.skip(i as int)[j + 1]);
            }
            assert(entry_views(pre.drop_first()) =~= e0.skip(i + 1));
        }
        if e.is_dir {
            let ghost before = dir_paths@;
            dir_paths.push(e.path);
            proof {
                assert(str_views(before.push(e.path)) =~= str_views(before).push(e.path@));
            }
        } else {
            let ghost before = file_paths@;
            file_paths.push(e.path);
            proof {
                assert(str_views(before.push(e.path)) =~= str_views(before).push(e.path@));
            }
        }
        i = i + 1;
    }
    proof {
        assert(e0.take(i as int) =~= e0);
    }
    (file_paths, dir_paths)
}

/// Sorts paths by raw file name with a stable insertion sort.
fn sort_paths(v: Vec<String>) -> (r: Vec<String>)
    ensures
        str_views(r@) =~= sort_by_key(path_key(), str_views(v@)),
        sorted_by_key(path_key(), str_views(r@)),
{
    let ghost key = path_key();
    let ghost v0 = str_views(v@);
    let mut rest = v;
    let n0 = rest.len();
    let mut out: Vec<String> = Vec::new();
    let mut i: usize = 0;
    while rest.len() > 0
        invariant
            n0 == v0.len(),
            i + rest@.len() == v0.len(),
            str_views(rest@) =~= v0.skip(i as int),
            str_views(out@) =~= sort_by_key(key, v0.take(i as int)),
            sorted_by_key(key, str_views(out@)),
            key == path_key(),
        decreases rest@.len(),
    {
        let ghost pre = rest@;
        let x = rest.remove(0);
        proof {
            assert(str_views(pre)[0] == x@);
            assert(str_views(pre)[0] == v0.skip(i as int)[0]);
            assert(x@ == v0[i as int]);
            assert(rest@ =~= pre.drop_first());
            assert forall|j: int| 0 <= j < pre.drop_first().len() implies str_views(
                pre.drop_first(),
            )[j] == v0.skip(i + 1)[j] by {
                assert(pre.drop_first()[j] == pre[j + 1]);
                assert(str_views(pre)[j + 1] == v0.skip(i as int)[j + 1]);
            }
            assert(str_views(pre.drop_first()) =~= v0.skip(i + 1));
        }
        let ghost out_before = str_views(out@);

        let mut pos: usize = out.len();
        let mut searching = true;
        while searching && pos > 0
            invariant
                pos <= out@.len(),
                out_before == str_views(out@),
                key == path_key(),
                forall|j: int|
                    pos <= j < out_before.len() ==> lex_lt(
                        spec_file_name(x@),
                        key(#[trigger] out_before[j]),
                    ),
                !searching ==> pos > 0 && !lex_lt(spec_file_name(x@), key(out_before[pos - 1])),
            decreases pos + if searching {
                1int
            } else {
                0int
            },
        {
            let ord = compare_names(x.as_str(), out[pos - 1].as_str());
            if matches!(ord, core::cmp::Ordering::Less) {
                pos = pos - 1;
            } else {
                searching = false;
            }
        }
        let ghost pos0 = pos as int;
        proof {
            lemma_insert_sorted_at(key, out_before, x@, pos0);
        }
        out.insert(pos, x);
        proof {
            assert(str_views(out@) =~= out_before.insert(pos0, x@));
            assert(str_views(out@) =~= insert_sorted(key, out_before, x@));
            assert(v0.take(i + 1).drop_last() =~= v0.take(i as int));
            assert(v0.take(i + 1).last() == v0[i as int]);
            assert(str_views(out@) =~= sort_by_key(key, v0.take(i + 1)));
            assert forall|a: int, b: int| 0 <= a <= b < str_views(out@).len() implies lex_le(
                key(str_views(out@)[a]),
                key(str_views(out@)[b]),
            ) by {
                let s = str_views(out@);
                let kx = spec_file_name(x@);
                if a == b {
                } else if b < pos0 {
                    assert(s[a] == out_before[a] && s[b] == out_before[b]);
                } else if a > pos0 {
                    assert(s[a] == out_before[a - 1] && s[b] == out_before[b - 1]);
                } else if a == pos0 && b > pos0 {
                    assert(s[b] == out_before[b - 1]);
                    assert(lex_lt(kx, key(out_before[b - 1])));
                } else if b == pos0 {
                    // a < pos0: the element before the insertion point is not
                    // greater than x, and out_before is sorted up to it.
                    assert(s[a] == out_before[a]);
                    assert(!lex_lt(kx, key(out_before[pos0 - 1])));
                    lemma_lex_total(key(out_before[pos0 - 1]), kx);
                    assert(lex_le(key(out_before[a]), key(out_before[pos0 - 1])));
                    lemma_lex_le_trans(key(out_before[a]), key(out_before[pos0 - 1]), kx);
                } else {
                    // a < pos0 < b
                    assert(s[a] == out_before[a] && s[b] == out_before[b - 1]);
                    assert(lex_lt(kx, key(out_before[b - 1])));
                    if pos0 > 0 {
                        assert(lex_le(key(out_before[a]), key(out_before[pos0 - 1])));
                    }
                    assert(lex_le(key(out_before[a]), key(out_before[b - 1])));
                }
            }
        }
        i = i + 1;
    }
    proof {
        assert(v0.take(i as int) =~= v0);
    }
    out
}

/// The file records a scan reports for `entries`: one record per
/// non-directory entry, sorted by raw name (the record's icon is whatever
/// the icon lookup chose for its path).
pub open spec fn scan_files_ok(files: Seq<FileView>, entries: Seq<(Seq<char>, bool)>) -> bool {
    let sorted = sort_by_key(path_key(), spec_file_paths(entries));
    &&& files.len() == sorted.len()
    &&& forall|i: int| 0 <= i < sorted.len() ==> (#[trigger] files[i]).path == sorted[i]
}

/// The folder records a scan reports for `entries`: exactly the unattached
/// placeholders of the directory entries' paths, sorted by raw name.
pub open spec fn scan_folders_ok(folders: Seq<FolderView>, entries: Seq<(Seq<char>, bool)>) -> bool {
    let sorted = sort_by_key(path_key(), spec_dir_paths(entries));
    folders =~= Seq::new(sorted.len(), |i: int| FolderView::placeholder(sorted[i]))
}

/// Classifies one directory's entries and builds the scan's record lists:
/// files and folders separately, each sorted by raw file name, never
/// interleaved.
pub fn scan_entries(entries: Vec<ScanEntry>) -> (r: (Vec<File>, Vec<Folder>))
    ensures
        scan_files_ok(file_views(r.0@), entry_views(entries@)),
        scan_folders_ok(folder_views(r.1@), entry_views(entries@)),
        sorted_names(Seq::new(r.0@.len(), |i: int| spec_file_name(r.0@[i]@.path))),
        sorted_names(Seq::new(r.1@.len(), |i: int| r.1@[i]@.name)),
{
    let ghost e0 = entry_views(entries@);
    let ghost key = path_key();
    let (file_paths, dir_paths) = classify(entries);
    let file_paths = sort_paths(file_paths);
    let dir_paths = sort_paths(dir_paths);
    let ghost sorted_files = sort_by_key(key, spec_file_paths(e0));
    let ghost sorted_dirs = sort_by_key(key, spec_dir_paths(e0));

    let mut files: Vec<File> = Vec::new();
    let mut rest = file_paths;
    let nf = rest.len();
    let mut i: usize = 0;
    while rest.len() > 0
        invariant
            nf == sorted_files.len(),
            i + rest@.len() == sorted_files.len(),
            str_views(rest@) =~= sorted_files.skip(i as int),
            files@.len() == i,
            forall|j: int| 0 <= j < i ==> (#[trigger] files@[j])@.path == sorted_files[j],
            sorted_by_key(key, sorted_files),
            key == path_key(),
        decreases rest@.len(),
    {
        let ghost pre = rest@;
        let p = rest.remove(0);
        proof {
            assert(str_views(pre)[0] == p@);
            assert(str_views(pre)[0] == sorted_files.skip(i as int)[0]);
            assert(p@ == sorted_files[i as int]);
            assert(rest@ =~= pre.drop_first());
            assert forall|j: int| 0 <= j < pre.drop_first().len() implies str_views(
                pre.drop_first(),
            )[j] == sorted_files.skip(i + 1)[j] by {
                assert(pre.drop_first()[j] == pre[j + 1]);
                assert(str_views(pre)[j + 1] == sorted_files.skip(i as int)[j + 1]);
            }
            assert(str_views(pre.drop_first()) =~= sorted_files.skip(i + 1));
        }
        files.push(File::new(p));
        i = i + 1;
    }

    let mut folders: Vec<Folder> = Vec::new();
    let mut restd = dir_paths;
    let nd = restd.len();
    let mut k: usize = 0;
    while restd.len() > 0
        invariant
            nd == sorted_dirs.len(),
            k + restd@.len() == sorted_dirs.len(),
            str_views(restd@) =~= sorted_dirs.skip(k as int),
            folders@.len() == k,
            forall|j: int|
                0 <= j < k ==> (#[trigger] folders@[j])@ == FolderView::placeholder(sorted_dirs[j]),
            sorted_by_key(key, sorted_dirs),
            key == path_key(),
        decreases restd@.len(),
    {
        let ghost pre = restd@;
        let p = restd.remove(0);
        proof {
            assert(str_views(pre)[0] == p@);
            assert(str_views(pre)[0] == sorted_dirs.skip(k as int)[0]);
            assert(p@ == sorted_dirs[k as int]);
            assert(restd@ =~= pre.drop_first());
            assert forall|j: int| 0 <= j < pre.drop_first().len() implies str_views(
                pre.drop_first(),
            )[j] == sorted_dirs.skip(k + 1)[j] by {
                assert(pre.drop_first()[j] == pre[j + 1]);
                assert(str_views(pre)[j + 1] == sorted_dirs.skip(k as int)[j + 1]);
            }
            assert(str_views(pre.drop_first()) =~= sorted_dirs.skip(k + 1));
        }
        folders.push(Folder::new(p));
        k = k + 1;
    }

    proof {
        assert(folder_views(folders@) =~= Seq::new(
            sorted_dirs.len(),
            |i: int| FolderView::placeholder(sorted_dirs[i]),
        ));
        assert forall|a: int, b: int|
            0 <= a <= b < files@.len() implies lex_le(
            spec_file_name(files@[a]@.path),
            spec_file_name(files@[b]@.path),
        ) by {
            assert(lex_le(key(sorted_files[a]), key(sorted_files[b])));
        }
        assert forall|a: int, b: int| 0 <= a <= b < folders@.len() implies lex_le(
            folders@[a]@.name,
            folders@[b]@.name,
        ) by {
            assert(lex_le(key(sorted_dirs[a]), key(sorted_dirs[b])));
        }
    }
    (files, folders)
}

/// Runs the compute half of one scan: given the enumerated entries of the
/// directory — or nothing, when the directory could not be opened — builds
/// the single event the scan delivers. A failed open produces no event at
/// all, so the target folder is left untouched.
pub fn scan_outcome(id: FolderId, entries: Option<Vec<ScanEntry>>) -> (r: Option<EditorEvent>)
    ensures
        entries is None ==> r is None,
        match (entries, r) {
            (Option::Some(e), Option::Some(ev)) => match ev {
                EditorEvent::FolderLoaded { id: rid, files, folders } => {
                    &&& rid == id
                    &&& scan_files_ok(file_views(files@), entry_views(e@))
                    &&& scan_folders_ok(folder_views(folders@), entry_views(e@))
                    &&& forall|i: int|
                        0 <= i < folders@.len() ==> (#[trigger] folders@[i])@.is_unattached()
                },
            },
            (Option::None, Option::None) => true,
            _ => false,
        },
{
    match entries {
        None => None,
        Some(e) => {
            let (files, folders) = scan_entries(e);
            proof {
                assert forall|i: int| 0 <= i < folders@.len() implies (
                #[trigger] folders@[i])@.is_unattached() by {
                    let sorted = sort_by_key(path_key(), spec_dir_paths(entry_views(e@)));
                    assert(folder_views(folders@)[i] == FolderView::placeholder(sorted[i]));
                }
            }
            Some(EditorEvent::FolderLoaded { id, files, folders })
        },
    }
}

} // verus!
