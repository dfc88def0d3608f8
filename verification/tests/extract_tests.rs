use std::collections::HashMap;
use std::io::{Cursor, Write};

use launcher_core::extract::{extraction_plan, ExtractError, FsAction};

/// Builds an archive in memory: a `None` payload is a directory entry, a
/// `Some` payload a file entry.
fn build_zip(entries: &[(&str, Option<&[u8]>)]) -> Vec<u8> {
    let mut writer = zip::ZipWriter::new(Cursor::new(Vec::new()));
    let options = zip::write::SimpleFileOptions::default();
    for (name, payload) in entries {
        match payload {
            Some(bytes) => {
                writer.start_file(*name, options).unwrap();
                writer.write_all(bytes).unwrap();
            },
            None => {
                writer.add_directory(*name, options).unwrap();
            },
        }
    }
    writer.finish().unwrap().into_inner()
}

/// A miniature destination: the directories that exist and the files with
/// their content, keyed by path relative to the root.
fn apply(plan: &[FsAction], dirs: &mut Vec<String>, files: &mut HashMap<String, Vec<u8>>) {
    for action in plan {
        match action {
            FsAction::EnsureDir { path } => {
                let p = String::from_utf8(path.clone()).unwrap();
                if !dirs.contains(&p) {
                    dirs.push(p);
                }
            },
            FsAction::WriteFile { path, data } => {
                files.insert(String::from_utf8(path.clone()).unwrap(), data.clone());
            },
        }
    }
}

fn is_dir_action(action: &FsAction, name: &str) -> bool {
    matches!(action, FsAction::EnsureDir { path } if path.as_slice() == name.as_bytes())
}

fn is_write_action(action: &FsAction, name: &str, content: &[u8]) -> bool {
    matches!(action, FsAction::WriteFile { path, data }
        if path.as_slice() == name.as_bytes() && data.as_slice() == content)
}

#[test]
fn parent_path_drops_the_last_component() {
    assert_eq!(launcher_core::extract::parent_path(&b"a/b/c.txt".to_vec()), b"a/b".to_vec());
    assert_eq!(launcher_core::extract::parent_path(&b"top.bin".to_vec()), Vec::<u8>::new());
}

#[test]
fn normalize_dir_strips_one_trailing_separator() {
    assert_eq!(launcher_core::extract::normalize_dir(b"config/".to_vec()), b"config".to_vec());
    assert_eq!(launcher_core::extract::normalize_dir(b"config".to_vec()), b"config".to_vec());
}

#[test]
fn empty_archive_only_ensures_the_root() {
    let bytes = build_zip(&[]);
    let plan = extraction_plan(bytes).unwrap();
    assert_eq!(plan.len(), 1);
    assert!(is_dir_action(&plan[0], ""));
}

#[test]
fn simple_archive_lists_its_steps_in_order() {
    let bytes = build_zip(&[("config", None), ("config/app.bin", Some(b"hello"))]);
    let plan = extraction_plan(bytes).unwrap();
    assert_eq!(plan.len(), 4);
    assert!(is_dir_action(&plan[0], ""));
    assert!(is_dir_action(&plan[1], "config"));
    assert!(is_dir_action(&plan[2], "config"));
    assert!(is_write_action(&plan[3], "config/app.bin", b"hello"));
}

#[test]
fn file_at_the_root_gets_the_root_as_parent() {
    let bytes = build_zip(&[("top.bin", Some(b"t"))]);
    let plan = extraction_plan(bytes).unwrap();
    assert_eq!(plan.len(), 3);
    assert!(is_dir_action(&plan[0], ""));
    assert!(is_dir_action(&plan[1], ""));
    assert!(is_write_action(&plan[2], "top.bin", b"t"));
}

#[test]
fn file_before_its_directory_entry_extracts_correctly() {
    // No directory entry at all: the parent is still created, on demand,
    // before the file is written.
    let bytes = build_zip(&[("a/b.txt", Some(b"xy"))]);
    let plan = extraction_plan(bytes).unwrap();
    assert_eq!(plan.len(), 3);
    assert!(is_dir_action(&plan[0], ""));
    assert!(is_dir_action(&plan[1], "a"));
    assert!(is_write_action(&plan[2], "a/b.txt", b"xy"));

    let mut dirs = Vec::new();
    let mut files = HashMap::new();
    apply(&plan, &mut dirs, &mut files);
    assert!(dirs.contains(&String::from("a")));
    assert_eq!(files.get("a/b.txt").unwrap(), b"xy");
}

#[test]
fn garbage_bytes_are_an_invalid_archive() {
    let r = extraction_plan(vec![0xde, 0xad, 0xbe, 0xef]);
    assert_eq!(r.err().unwrap(), ExtractError::InvalidArchive);
}

#[test]
fn path_escape_fails_the_whole_extraction() {
    let bytes = build_zip(&[("../evil.txt", Some(b"z")), ("ok.txt", Some(b"fine"))]);
    let r = extraction_plan(bytes);
    assert_eq!(r.err().unwrap(), ExtractError::UnsafeEntryPath);
}

#[test]
fn extracting_twice_leaves_identical_contents_and_spares_strangers() {
    let bytes = build_zip(&[("config", None), ("config/app.bin", Some(b"v2"))]);
    let plan = extraction_plan(bytes).unwrap();

    let mut dirs = Vec::new();
    let mut files = HashMap::new();
    files.insert(String::from("keep.txt"), b"untouched".to_vec());
    files.insert(String::from("config/app.bin"), b"v1".to_vec());

    apply(&plan, &mut dirs, &mut files);
    let once_dirs = dirs.clone();
    let once_files = files.clone();

    apply(&plan, &mut dirs, &mut files);
    assert_eq!(dirs, once_dirs);
    assert_eq!(files, once_files);

    assert_eq!(files.get("keep.txt").unwrap(), b"untouched");
    assert_eq!(files.get("config/app.bin").unwrap(), b"v2");
}
