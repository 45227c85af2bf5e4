use workspace_copy::cli::{duplicate_step, parse_duplicate_args, DuplicateAction, DuplicateEvent, DuplicateOptions, NameSearch};
use workspace_copy::copy::{CopyPlan, CopyStats};

fn s(x: &str) -> String {
    x.to_string()
}

fn plan() -> CopyPlan {
    CopyPlan { source: s("/a"), dest: s("/a-copy"), label: s("a-copy"), exclude: vec![], include_git: true }
}

fn opts(args: &[&str]) -> DuplicateOptions {
    parse_duplicate_args(&args.iter().map(|a| s(a)).collect()).unwrap()
}

fn stats() -> CopyStats {
    CopyStats { files_copied: 2, dirs_created: 1, bytes_copied: 9, skipped_entries: 0 }
}

#[test]
fn interactive_run_asks_then_copies_then_creates() {
    let o = opts(&[]);
    let p = plan();
    assert!(matches!(duplicate_step(&o, &p, DuplicateEvent::Validated(Ok(()))), DuplicateAction::AskProceed));
    assert!(matches!(duplicate_step(&o, &p, DuplicateEvent::Answered(true)), DuplicateAction::Copy));
    match duplicate_step(&o, &p, DuplicateEvent::Copied(Ok(stats()))) {
        DuplicateAction::CreateWorkspace(line) => assert_eq!(line, "copied: 2 files, 1 dirs, 0 skipped (~9 bytes)"),
        _ => panic!("expected the workspace to be created"),
    }
    match duplicate_step(&o, &p, DuplicateEvent::Created(Ok(s("w1")))) {
        DuplicateAction::Finish(lines, result) => {
            assert_eq!(result, Ok(()));
            assert_eq!(lines[3], "new workspace_id : w1");
        }
        _ => panic!("expected the end"),
    }
}

#[test]
fn declining_cancels() {
    match duplicate_step(&opts(&[]), &plan(), DuplicateEvent::Answered(false)) {
        DuplicateAction::Finish(lines, result) => {
            assert_eq!(lines, vec![s("Cancelled. Nothing copied.")]);
            assert_eq!(result, Ok(()));
        }
        _ => panic!("expected a cancellation"),
    }
}

#[test]
fn yes_skips_the_question() {
    assert!(matches!(duplicate_step(&opts(&["--yes"]), &plan(), DuplicateEvent::Validated(Ok(()))), DuplicateAction::Copy));
}

#[test]
fn dry_run_stops_before_copying() {
    for args in [&["--dry-run"][..], &["-n", "-y"][..]] {
        match duplicate_step(&opts(args), &plan(), DuplicateEvent::Validated(Ok(()))) {
            DuplicateAction::Finish(lines, result) => {
                assert_eq!(result, Ok(()));
                assert_eq!(lines[0], "dry-run: would copy /a -> /a-copy");
            }
            _ => panic!("a dry run ends after showing the plan"),
        }
    }
}

#[test]
fn failures_end_the_run() {
    let o = opts(&["-y"]);
    let p = plan();
    for (event, msg) in [
        (DuplicateEvent::Validated(Err(s("refused"))), "refused"),
        (DuplicateEvent::Copied(Err(s("copy failed"))), "copy failed"),
        (DuplicateEvent::Created(Err(s("herdr down"))), "herdr down"),
    ] {
        match duplicate_step(&o, &p, event) {
            DuplicateAction::Finish(lines, result) => {
                assert!(lines.is_empty());
                assert_eq!(result, Err(s(msg)));
            }
            _ => panic!("expected the run to end"),
        }
    }
}

#[test]
fn plugin_search_moves_on_while_taken() {
    let mut search = NameSearch::start(None, "/w/proj", "-copy", true);
    assert_eq!(search.probe(), Some(s("/w/proj-copy")));
    search.taken();
    assert_eq!(search.probe(), Some(s("/w/proj-copy-2")));
    search.taken();
    assert_eq!(search.probe(), Some(s("/w/proj-copy-3")));
    assert!(search.can_continue());
    assert_eq!(search.name(), "proj-copy-3");
}

#[test]
fn no_search_with_a_name_or_outside_plugins() {
    let search = NameSearch::start(Some(s("mine")), "/w/proj", "-copy", true);
    assert_eq!(search.probe(), None);
    assert_eq!(search.name(), "mine");
    let search = NameSearch::start(None, "/w/proj", "-copy", false);
    assert_eq!(search.probe(), None);
    assert_eq!(search.name(), "proj-copy");
}
