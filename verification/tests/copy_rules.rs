use workspace_copy::copy::{DestAnchor, classify_entry, cleanup_message, failure_message, is_excluded, target_parent, validate_plan, CopyFailure, CopyPlan, CopyStats, EntryAction, EntryKind, FsProbe};

fn s(x: &str) -> String {
    x.to_string()
}

fn plan(include_git: bool) -> CopyPlan {
    CopyPlan {
        source: s("/tmp/demo"),
        dest: s("/tmp/demo-copy"),
        label: s("demo-copy"),
        exclude: vec![s("node_modules"), s("target")],
        include_git,
    }
}

fn probe_with(exists: bool, is_dir: bool, dest_exists: bool, cwd: Option<&str>, anchor: Option<(usize, &str)>) -> FsProbe {
    FsProbe::new(
        exists,
        is_dir,
        dest_exists,
        Some(s("/tmp/demo")),
        cwd.map(s),
        anchor.map(|(n, c)| DestAnchor { prefix_len: n, canonical: s(c) }),
    )
}

fn fine_probe() -> FsProbe {
    probe_with(true, true, false, Some("/home"), Some((4, "/tmp")))
}

#[test]
fn git_directory_follows_the_setting() {
    assert!(!is_excluded(".git", &plan(true)));
    assert!(is_excluded(".git", &plan(false)));
    assert!(is_excluded("target", &plan(true)));
    assert!(!is_excluded("src", &plan(true)));
}

#[test]
fn an_ordinary_plan_is_accepted() {
    assert_eq!(validate_plan(&plan(true), &fine_probe()), Ok(()));
}

#[test]
fn refusals_in_order() {
    let p = plan(true);
    assert_eq!(validate_plan(&p, &probe_with(false, true, true, None, None)), Err(s("source does not exist: /tmp/demo")));
    assert_eq!(validate_plan(&p, &probe_with(true, false, true, None, None)), Err(s("source is not a directory: /tmp/demo")));
    assert_eq!(validate_plan(&p, &probe_with(true, true, true, None, None)), Err(s("target already exists: /tmp/demo-copy")));
}

#[test]
fn target_without_parent_is_refused() {
    let mut p = plan(true);
    p.dest = s("/");
    assert_eq!(validate_plan(&p, &fine_probe()), Err(s("target has no parent directory")));
    assert_eq!(target_parent(&p), Err(s("target has no parent directory")));
    assert_eq!(target_parent(&plan(true)), Ok(s("/tmp")));
}

#[test]
fn target_inside_source_is_refused() {
    let mut p = plan(true);
    p.dest = s("/tmp/demo/inner");
    let probe = probe_with(true, true, false, Some("/"), Some((9, "/tmp/demo")));
    assert_eq!(
        validate_plan(&p, &probe),
        Err(s("target /tmp/demo/inner is inside source /tmp/demo; refusing recursive copy"))
    );
}

#[test]
fn target_below_a_missing_directory_inside_the_source_is_refused() {
    let mut p = plan(true);
    p.dest = s("/tmp/demo/sub/new");
    let probe = probe_with(true, true, false, Some("/"), Some((9, "/tmp/demo")));
    assert_eq!(
        validate_plan(&p, &probe),
        Err(s("target /tmp/demo/sub/new is inside source /tmp/demo; refusing recursive copy"))
    );
}

#[test]
fn relative_target_is_read_from_the_current_directory() {
    let mut p = plan(true);
    p.dest = s("sub/new");
    let probe = probe_with(true, true, false, Some("/tmp/demo"), Some((9, "/tmp/demo")));
    assert_eq!(
        validate_plan(&p, &probe),
        Err(s("target /tmp/demo/sub/new is inside source /tmp/demo; refusing recursive copy"))
    );
    let outside = probe_with(true, true, false, Some("/srv"), Some((4, "/srv")));
    assert_eq!(validate_plan(&p, &outside), Ok(()));
}

#[test]
fn canonical_forms_are_compared() {
    let mut p = plan(true);
    p.source = s("/link/demo");
    p.dest = s("/link/demo-copy");
    let probe = FsProbe::new(
        true,
        true,
        false,
        Some(s("/real/demo")),
        Some(s("/")),
        Some(DestAnchor { prefix_len: 5, canonical: s("/real/demo") }),
    );
    assert_eq!(
        validate_plan(&p, &probe),
        Err(s("target /real/demo/demo-copy is inside source /real/demo; refusing recursive copy"))
    );
    let probe = FsProbe::new(true, true, false, Some(s("/real/demo")), Some(s("/")), None);
    assert_eq!(validate_plan(&p, &probe), Ok(()));
}

#[test]
fn a_directory_reading_needs_the_source_to_exist() {
    let probe = probe_with(false, true, false, None, None);
    assert_eq!(validate_plan(&plan(true), &probe), Err(s("source does not exist: /tmp/demo")));
}

#[test]
fn blank_label_is_refused() {
    let mut p = plan(true);
    p.label = s(" \t");
    assert_eq!(validate_plan(&p, &fine_probe()), Err(s("label must not be empty")));
}

#[test]
fn entries_are_classified() {
    let p = plan(false);
    let dir = EntryKind { is_dir: true, is_symlink: false, is_file: false };
    let file = EntryKind { is_dir: false, is_symlink: false, is_file: true };
    let link = EntryKind { is_dir: false, is_symlink: true, is_file: false };
    let other = EntryKind { is_dir: false, is_symlink: false, is_file: false };
    assert!(matches!(classify_entry("src", &dir, &p), EntryAction::Descend));
    assert!(matches!(classify_entry(".git", &dir, &p), EntryAction::Skip));
    assert!(matches!(classify_entry("node_modules", &dir, &p), EntryAction::Skip));
    assert!(matches!(classify_entry("a.txt", &file, &p), EntryAction::CopyFile));
    assert!(matches!(classify_entry("l", &link, &p), EntryAction::CopyLinkOrFile));
    assert!(matches!(classify_entry("fifo", &other, &p), EntryAction::Skip));
}

#[test]
fn counters() {
    let mut st = CopyStats::for_new_target();
    assert_eq!((st.files_copied, st.dirs_created, st.bytes_copied, st.skipped_entries), (0, 1, 0, 0));
    st.record_dir();
    st.record_skipped();
    st.record_file(Some(10));
    st.record_file(None);
    assert_eq!((st.files_copied, st.dirs_created, st.bytes_copied, st.skipped_entries), (2, 2, 10, 1));
}

#[test]
fn failure_messages() {
    let f = CopyFailure::CopyFile { from: s("/a/x"), to: s("/b/x"), err: s("denied") };
    assert_eq!(failure_message(&f), "copy /a/x -> /b/x: denied");
    let f = CopyFailure::ReadDirEntry { dir: s("/a"), err: s("boom") };
    assert_eq!(failure_message(&f), "read_dir entry in /a: boom");
    let f = CopyFailure::Symlink { link: s("/b/l"), target: s("../t"), err: s("exists") };
    assert_eq!(failure_message(&f), "symlink /b/l -> ../t: exists");
    assert_eq!(cleanup_message("copy x: y"), "copy x: y (partial target cleaned up)");
}
