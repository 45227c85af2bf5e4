use workspace_copy::copy::{CopyPlan, CopyStats};
use workspace_copy::ui::{confirm_new_name, confirm_yes_no, dry_run_lines, plan_lines, result_lines, stats_line, Answer};

fn s(x: &str) -> String {
    x.to_string()
}

#[test]
fn name_answers() {
    let line = |x: &str| Answer::Line(s(x));
    assert_eq!(confirm_new_name("demo-copy", &Answer::NotAsked), Some(s("demo-copy")));
    assert_eq!(confirm_new_name("demo-copy", &Answer::NoInput), Some(s("demo-copy")));
    assert_eq!(confirm_new_name("demo-copy", &line("\n")), Some(s("demo-copy")));
    assert_eq!(confirm_new_name("demo-copy", &line("Yes\n")), Some(s("demo-copy")));
    assert_eq!(confirm_new_name("demo-copy", &line(" y ")), Some(s("demo-copy")));
    for cancel in ["n", "NO", "q", "Q\n"] {
        assert_eq!(confirm_new_name("demo-copy", &line(cancel)), None);
    }
    assert_eq!(confirm_new_name("demo-copy", &line("  other name \n")), Some(s("other name")));
}

#[test]
fn yes_no_answers() {
    assert!(confirm_yes_no(&Answer::NotAsked));
    assert!(!confirm_yes_no(&Answer::NoInput));
    assert!(confirm_yes_no(&Answer::Line(s("YES\n"))));
    assert!(confirm_yes_no(&Answer::Line(s("y"))));
    assert!(!confirm_yes_no(&Answer::Line(s("\n"))));
    assert!(!confirm_yes_no(&Answer::Line(s("yep"))));
}

#[test]
fn plan_summary() {
    let plan = CopyPlan {
        source: s("/tmp/demo"),
        dest: s("/tmp/demo-copy"),
        label: s("demo-copy"),
        exclude: vec![s("node_modules"), s("target")],
        include_git: false,
    };
    let lines = plan_lines(&Some(s("w1")), &Some(s("Demo")), &plan, "plugin context");
    assert_eq!(
        lines,
        vec![
            s("Workspace Copy · duplicate workspace folder"),
            s("────────────────────────────────────────────"),
            s("workspace : Demo (w1)"),
            s("source    : /tmp/demo"),
            s("via       : plugin context"),
            s("new name  : demo-copy"),
            s("target    : /tmp/demo-copy"),
            s("rules     : exclude [node_modules, target] + .git; exclude .git"),
            s(""),
        ]
    );
    let mut plan2 = plan;
    plan2.dest = s("");
    plan2.include_git = true;
    let lines = plan_lines(&None, &None, &plan2, "v");
    assert_eq!(lines[2], "workspace : (current)");
    assert_eq!(lines[6], "rules     : exclude [node_modules, target]; include .git");
    assert_eq!(lines.len(), 8);
    assert_eq!(plan_lines(&Some(s("w")), &None, &plan2, "v")[2], "workspace : w");
    assert_eq!(plan_lines(&None, &Some(s("L")), &plan2, "v")[2], "workspace : L");
}

#[test]
fn counters_line() {
    let st = CopyStats { files_copied: 12, dirs_created: 3, bytes_copied: 4096, skipped_entries: 1 };
    assert_eq!(stats_line(&st), "copied: 12 files, 3 dirs, 1 skipped (~4096 bytes)");
}

#[test]
fn final_report() {
    assert_eq!(
        result_lines("w7", "/a", "/a-copy"),
        vec![
            s(""),
            s("Workspace Copy · done"),
            s("─────────────────────"),
            s("new workspace_id : w7"),
            s("source           : /a"),
            s("target           : /a-copy"),
        ]
    );
}

#[test]
fn dry_run_report() {
    let plan = CopyPlan { source: s("/a"), dest: s("/a-copy"), label: s("a-copy"), exclude: vec![], include_git: true };
    assert_eq!(
        dry_run_lines(&plan),
        vec![
            s("dry-run: would copy /a -> /a-copy"),
            s("dry-run: would run herdr workspace create --cwd /a-copy --label a-copy --focus"),
        ]
    );
}

#[test]
fn quit_is_a_name() {
    assert_eq!(confirm_new_name("demo-copy", &Answer::Line(s("quit\n"))), Some(s("quit")));
}
