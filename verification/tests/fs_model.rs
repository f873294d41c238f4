use mod_backend::fs_model::{EnsureAction, FsError, FsModel, ensure_plan};
use mod_backend::paths::resolve;

fn s(x: &str) -> String {
    String::from(x)
}

#[test]
fn fresh_model_is_empty() {
    let fs = FsModel::new();
    assert!(!fs.file_exists(&s("/a")));
    assert!(!fs.dir_exists(&s("/a")));
    assert!(!fs.path_exists(&s("/a")));
}

#[test]
fn create_dir_and_query() {
    let mut fs = FsModel::new();
    fs.create_dir(&s("/app/data"));
    assert!(fs.dir_exists(&s("/app/data")));
    assert!(!fs.file_exists(&s("/app/data")));
    assert!(fs.path_exists(&s("/app/data")));
}

#[test]
fn ensure_existing_target_succeeds_untouched() {
    let mut fs = FsModel::new();
    let mut ok = fs.write_file_entry(&s("/d/f.txt"), true);
    assert!(ok.is_ok());
    ok = fs.ensure_exists(&s("/d/f.txt"), false, false);
    assert!(ok.is_ok());
    assert!(fs.file_exists(&s("/d/f.txt")));
}

#[test]
fn ensure_create_empty_leaves_file() {
    let mut fs = FsModel::new();
    let r = fs.ensure_exists(&s("/d/f.txt"), true, false);
    assert!(r.is_ok());
    assert!(fs.file_exists(&s("/d/f.txt")));
    // The parent directory was created on the way.
    assert!(fs.dir_exists(&s("/d")));
}

#[test]
fn ensure_placeholder_writes_marker_and_fails() {
    let mut fs = FsModel::new();
    let r = fs.ensure_exists(&s("/app/data/mods/a.txt"), false, true);
    let e = r.unwrap_err();
    assert_eq!(e, FsError::PlaceholderCreated { marker: s("/app/data/mods/a.notfound") });
    assert_eq!(
        e.message(),
        "File not found, created placeholder at /app/data/mods/a.notfound"
    );
    assert!(fs.file_exists(&s("/app/data/mods/a.notfound")));
    assert!(!fs.file_exists(&s("/app/data/mods/a.txt")));
}

#[test]
fn resolved_missing_target_leaves_marker_and_names_it() {
    // A relative path resolved against the base directory, then repaired
    // with a placeholder: the marker sits beside the missing target and
    // the failure message carries its full path.
    let resolved = resolve(&s("mods/a.txt"), &s("/app/data"));
    assert_eq!(resolved, "/app/data/mods/a.txt");
    let mut fs = FsModel::new();
    let e = fs.ensure_exists(&resolved, false, true).unwrap_err();
    let message = e.message();
    assert!(message.contains("/app/data/mods/a.notfound"));
    assert!(fs.file_exists(&s("/app/data/mods/a.notfound")));
}

#[test]
fn ensure_no_flags_never_mutates() {
    let mut fs = FsModel::new();
    fs.create_dir(&s("/d"));
    let r = fs.ensure_exists(&s("/d/missing.txt"), false, false);
    assert_eq!(r.unwrap_err(), FsError::NotFound { path: s("/d/missing.txt") });
    assert!(!fs.file_exists(&s("/d/missing.txt")));
    assert!(!fs.file_exists(&s("/d/missing.notfound")));
    assert!(fs.dir_exists(&s("/d")));
    // A target without its parent present stays missing too.
    let r2 = fs.ensure_exists(&s("/elsewhere/x"), false, false);
    assert!(r2.is_err());
    assert!(!fs.dir_exists(&s("/elsewhere")));
}

#[test]
fn ensure_create_empty_wins_over_placeholder() {
    let mut fs = FsModel::new();
    let r = fs.ensure_exists(&s("/d/f.txt"), true, true);
    assert!(r.is_ok());
    assert!(fs.file_exists(&s("/d/f.txt")));
    assert!(!fs.file_exists(&s("/d/f.notfound")));
}

#[test]
fn plan_for_missing_target_with_placeholder() {
    let p = ensure_plan(true, false, false, true, &s("mods/a.txt"));
    assert!(p.create_parent);
    assert_eq!(p.action, EnsureAction::WriteMarker { marker: s("mods/a.notfound") });
}

#[test]
fn plan_for_existing_target() {
    let p = ensure_plan(false, true, true, true, &s("mods/a.txt"));
    assert!(!p.create_parent);
    assert_eq!(p.action, EnsureAction::AlreadyPresent);
}

#[test]
fn plan_without_flags_does_nothing() {
    let p = ensure_plan(true, false, false, false, &s("mods/a.txt"));
    assert!(!p.create_parent);
    assert_eq!(p.action, EnsureAction::FailNotFound);
}

#[test]
fn plan_create_empty() {
    let p = ensure_plan(false, false, true, false, &s("mods/a.txt"));
    assert!(!p.create_parent);
    assert_eq!(p.action, EnsureAction::CreateEmptyFile);
}

#[test]
fn create_dir_creates_ancestors() {
    let mut fs = FsModel::new();
    fs.create_dir(&s("/a/b/c"));
    assert!(fs.dir_exists(&s("/a")));
    assert!(fs.dir_exists(&s("/a/b")));
    assert!(fs.dir_exists(&s("/a/b/c")));
    assert!(!fs.dir_exists(&s("/a/b/c/d")));
}

#[test]
fn ensure_repair_creates_all_missing_ancestors() {
    let mut fs = FsModel::new();
    let r = fs.ensure_exists(&s("/x/y/z.txt"), true, false);
    assert!(r.is_ok());
    assert!(fs.dir_exists(&s("/x")));
    assert!(fs.dir_exists(&s("/x/y")));
    assert!(fs.file_exists(&s("/x/y/z.txt")));
}

#[test]
fn remove_dir_takes_the_recorded_subtree() {
    let mut fs = FsModel::new();
    fs.create_dir(&s("/d/sub"));
    fs.write_file_entry(&s("/d/b.txt"), true).unwrap();
    fs.write_file_entry(&s("/d/sub/c.txt"), true).unwrap();
    fs.write_file_entry(&s("/dz.txt"), true).unwrap();
    assert!(fs.remove_dir(&s("/d")).is_ok());
    assert!(!fs.dir_exists(&s("/d")));
    assert!(!fs.dir_exists(&s("/d/sub")));
    assert!(!fs.file_exists(&s("/d/b.txt")));
    assert!(!fs.file_exists(&s("/d/sub/c.txt")));
    // A sibling whose name merely extends the prefix stays.
    assert!(fs.file_exists(&s("/dz.txt")));
}

#[test]
fn rename_moves_the_entry() {
    let mut fs = FsModel::new();
    fs.write_file_entry(&s("/a.txt"), true).unwrap();
    let r = fs.rename_entry(&s("/a.txt"), &s("/b.txt"), true);
    assert!(r.is_ok());
    assert!(!fs.file_exists(&s("/a.txt")));
    assert!(fs.file_exists(&s("/b.txt")));
}

#[test]
fn rename_failed_destination_keeps_source() {
    let mut fs = FsModel::new();
    fs.write_file_entry(&s("/a.txt"), true).unwrap();
    let r = fs.rename_entry(&s("/a.txt"), &s("/b.txt"), false);
    assert_eq!(r.unwrap_err(), FsError::WriteFailed { path: s("/b.txt") });
    assert!(fs.file_exists(&s("/a.txt")));
    assert!(!fs.file_exists(&s("/b.txt")));
}

#[test]
fn rename_missing_source_fails() {
    let mut fs = FsModel::new();
    let r = fs.rename_entry(&s("/a.txt"), &s("/b.txt"), true);
    assert_eq!(r.unwrap_err(), FsError::NotFound { path: s("/a.txt") });
}

#[test]
fn rename_directory_entry() {
    let mut fs = FsModel::new();
    fs.create_dir(&s("/old"));
    let r = fs.rename_entry(&s("/old"), &s("/new"), true);
    assert!(r.is_ok());
    assert!(!fs.dir_exists(&s("/old")));
    assert!(fs.dir_exists(&s("/new")));
}

#[test]
fn rename_directory_moves_the_recorded_subtree() {
    let mut fs = FsModel::new();
    fs.create_dir(&s("/old/sub"));
    fs.write_file_entry(&s("/old/a.txt"), true).unwrap();
    let r = fs.rename_entry(&s("/old"), &s("/new"), true);
    assert!(r.is_ok());
    assert!(!fs.dir_exists(&s("/old")));
    assert!(!fs.dir_exists(&s("/old/sub")));
    assert!(!fs.file_exists(&s("/old/a.txt")));
    assert!(fs.dir_exists(&s("/new")));
    assert!(fs.dir_exists(&s("/new/sub")));
    assert!(fs.file_exists(&s("/new/a.txt")));
}

#[test]
fn rename_to_itself_keeps_the_entry() {
    let mut fs = FsModel::new();
    fs.write_file_entry(&s("/a.txt"), true).unwrap();
    let r = fs.rename_entry(&s("/a.txt"), &s("/a.txt"), true);
    assert!(r.is_ok());
    assert!(fs.file_exists(&s("/a.txt")));
}

#[test]
fn copy_keeps_the_source() {
    let mut fs = FsModel::new();
    fs.write_file_entry(&s("/a.txt"), true).unwrap();
    let r = fs.copy_file_entry(&s("/a.txt"), &s("/b.txt"), true);
    assert!(r.is_ok());
    assert!(fs.file_exists(&s("/a.txt")));
    assert!(fs.file_exists(&s("/b.txt")));
}

#[test]
fn copy_failed_destination_keeps_source() {
    let mut fs = FsModel::new();
    fs.write_file_entry(&s("/a.txt"), true).unwrap();
    let r = fs.copy_file_entry(&s("/a.txt"), &s("/b.txt"), false);
    assert_eq!(r.unwrap_err(), FsError::WriteFailed { path: s("/b.txt") });
    assert!(fs.file_exists(&s("/a.txt")));
    assert!(!fs.file_exists(&s("/b.txt")));
}

#[test]
fn copy_directory_keeps_the_source() {
    let mut fs = FsModel::new();
    fs.create_dir(&s("/mods"));
    let r = fs.copy_dir_entry(&s("/mods"), &s("/backup"), true);
    assert!(r.is_ok());
    assert!(fs.dir_exists(&s("/mods")));
    assert!(fs.dir_exists(&s("/backup")));
}

#[test]
fn copy_directory_copies_the_recorded_subtree() {
    let mut fs = FsModel::new();
    fs.create_dir(&s("/mods/sub"));
    fs.write_file_entry(&s("/mods/a.txt"), true).unwrap();
    let r = fs.copy_dir_entry(&s("/mods"), &s("/backup"), true);
    assert!(r.is_ok());
    assert!(fs.dir_exists(&s("/backup/sub")));
    assert!(fs.file_exists(&s("/backup/a.txt")));
    assert!(fs.dir_exists(&s("/mods/sub")));
    assert!(fs.file_exists(&s("/mods/a.txt")));
}

#[test]
fn copy_directory_failed_destination_keeps_source() {
    let mut fs = FsModel::new();
    fs.create_dir(&s("/mods"));
    let r = fs.copy_dir_entry(&s("/mods"), &s("/backup"), false);
    assert_eq!(r.unwrap_err(), FsError::WriteFailed { path: s("/backup") });
    assert!(fs.dir_exists(&s("/mods")));
    assert!(!fs.dir_exists(&s("/backup")));
}

#[test]
fn copy_directory_missing_source_fails() {
    let mut fs = FsModel::new();
    let r = fs.copy_dir_entry(&s("/mods"), &s("/backup"), true);
    assert_eq!(r.unwrap_err(), FsError::NotFound { path: s("/mods") });
}

#[test]
fn copy_missing_source_fails() {
    let mut fs = FsModel::new();
    let r = fs.copy_file_entry(&s("/a.txt"), &s("/b.txt"), true);
    assert_eq!(r.unwrap_err(), FsError::NotFound { path: s("/a.txt") });
}

#[test]
fn remove_file_and_missing_file() {
    let mut fs = FsModel::new();
    fs.write_file_entry(&s("/a.txt"), true).unwrap();
    assert!(fs.remove_file(&s("/a.txt")).is_ok());
    assert!(!fs.file_exists(&s("/a.txt")));
    let r = fs.remove_file(&s("/a.txt"));
    assert_eq!(r.unwrap_err(), FsError::NotFound { path: s("/a.txt") });
}

#[test]
fn remove_dir_and_missing_dir() {
    let mut fs = FsModel::new();
    fs.create_dir(&s("/d"));
    assert!(fs.remove_dir(&s("/d")).is_ok());
    assert!(!fs.dir_exists(&s("/d")));
    assert!(fs.remove_dir(&s("/d")).is_err());
}

#[test]
fn write_failed_destination_changes_nothing() {
    let mut fs = FsModel::new();
    let r = fs.write_file_entry(&s("/a.txt"), false);
    assert_eq!(r.unwrap_err(), FsError::WriteFailed { path: s("/a.txt") });
    assert!(!fs.file_exists(&s("/a.txt")));
}

#[test]
fn not_found_message_names_the_path() {
    let e = FsError::NotFound { path: s("/d/missing.txt") };
    assert_eq!(e.message(), "File not found: /d/missing.txt");
    let w = FsError::WriteFailed { path: s("/b.txt") };
    assert_eq!(w.message(), "Failed to write: /b.txt");
}
