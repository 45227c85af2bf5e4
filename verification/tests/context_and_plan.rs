use workspace_copy::cli::{candidate_name, initial_name, make_plan, parse_command, parse_duplicate_args, sibling_dest, Command};
use workspace_copy::context::{default_exclude_names, folder_base_name, include_git, load_from_env, name_template_suffix, suggested_name, ContextJson};

fn s(x: &str) -> String {
    x.to_string()
}

#[test]
fn environment_ids_need_content() {
    let ctx = load_from_env(Some(s("")), Some(s("p1")), None);
    assert_eq!(ctx.workspace_id, None);
    assert_eq!(ctx.focused_pane_id, Some(s("p1")));
    assert_eq!(ctx.workspace_cwd, None);
}

#[test]
fn context_json_overrides_environment() {
    let json = ContextJson {
        workspace_id: Some(s("w1")),
        workspace_label: Some(s("Label")),
        workspace_cwd: Some(s("/ws")),
        focused_pane_cwd: Some(s("/tmp/demo-project")),
        focused_pane_id: None,
    };
    let ctx = load_from_env(Some(s("w0")), Some(s("p0")), Some(json));
    assert_eq!(ctx.workspace_id, Some(s("w1")));
    assert_eq!(ctx.workspace_label, Some(s("Label")));
    assert_eq!(ctx.workspace_cwd, Some(s("/ws")));
    assert_eq!(ctx.focused_pane_cwd, Some(s("/tmp/demo-project")));
    assert_eq!(ctx.focused_pane_id, Some(s("p0")));
}

#[test]
fn builtin_exclude_list() {
    let names = default_exclude_names(None);
    assert_eq!(
        names,
        vec![
            "node_modules", ".venv", "venv", "target", "dist", "build", ".cache", ".tmp",
            "__pycache__", ".next", ".turbo"
        ]
    );
    assert_eq!(default_exclude_names(Some(s(" , "))), names);
}

#[test]
fn configured_exclude_list() {
    assert_eq!(default_exclude_names(Some(s("a, b ,,c"))), vec!["a", "b", "c"]);
}

#[test]
fn include_git_settings() {
    assert!(include_git(None));
    for off in ["0", "false", "FALSE", "no"] {
        assert!(!include_git(Some(s(off))));
    }
    for on in ["1", "False", "yes", "", "NO"] {
        assert!(include_git(Some(s(on))));
    }
}

#[test]
fn name_suffix_setting() {
    assert_eq!(name_template_suffix(None), "-copy");
    assert_eq!(name_template_suffix(Some(s("-fork"))), "-fork");
}

#[test]
fn suggested_names() {
    assert_eq!(suggested_name("/home/me/workspace-a", "-copy"), "workspace-a-copy");
    assert_eq!(suggested_name("/", "-copy"), "workspace-copy");
    assert_eq!(suggested_name("/home/me/proj/", "-x"), "proj-x");
    assert_eq!(folder_base_name("/a/.."), "workspace");
}

#[test]
fn sibling_destinations() {
    assert_eq!(sibling_dest("/tmp/demo-project", "demo-project-copy"), "/tmp/demo-project-copy");
    assert_eq!(sibling_dest("/proj", "x"), "/x");
    assert_eq!(sibling_dest("proj", "x"), "x");
    assert_eq!(sibling_dest("/", "x"), "./x");
    assert_eq!(sibling_dest("/a/b", "/abs"), "/abs");
}

#[test]
fn alternative_names_count_up() {
    assert_eq!(candidate_name("workspace-a", "-copy", 2), "workspace-a-copy-2");
    assert_eq!(candidate_name("w", "-copy", 13), "w-copy-13");
    assert_ne!(candidate_name("w", "-copy", 1), candidate_name("w", "-copy", 11));
}

#[test]
fn initial_names() {
    assert_eq!(initial_name(Some(s("mine")), "/a/b", "-copy"), "mine");
    assert_eq!(initial_name(None, "/a/b", "-copy"), "b-copy");
}

#[test]
fn plans_put_the_copy_beside_the_source() {
    let plan = make_plan("/tmp/demo", "demo-copy", vec![s("target")], false);
    assert_eq!(plan.source, "/tmp/demo");
    assert_eq!(plan.dest, "/tmp/demo-copy");
    assert_eq!(plan.label, "demo-copy");
    assert_eq!(plan.exclude, vec![s("target")]);
    assert!(!plan.include_git);
}

#[test]
fn commands() {
    assert!(matches!(parse_command(&vec![]), Command::Duplicate(r) if r.is_empty()));
    assert!(matches!(parse_command(&vec![s("duplicate"), s("--yes")]), Command::Duplicate(r) if r == vec![s("--yes")]));
    assert!(matches!(parse_command(&vec![s("-h")]), Command::Help));
    assert!(matches!(parse_command(&vec![s("help")]), Command::Help));
    assert!(matches!(parse_command(&vec![s("frob")]), Command::Unknown(c) if c == "frob"));
}

#[test]
fn duplicate_options() {
    let o = parse_duplicate_args(&vec![s("-y"), s("--name"), s("x"), s("-n")]).unwrap();
    assert!(o.yes && o.dry_run);
    assert_eq!(o.name, Some(s("x")));
    let o = parse_duplicate_args(&vec![]).unwrap();
    assert!(!o.yes && !o.dry_run && o.name.is_none());
    let o = parse_duplicate_args(&vec![s("--name"), s("a"), s("--name"), s("b")]).unwrap();
    assert_eq!(o.name, Some(s("b")));
}

#[test]
fn duplicate_option_errors() {
    assert_eq!(parse_duplicate_args(&vec![s("--name")]).err(), Some(s("--name requires a value")));
    assert_eq!(parse_duplicate_args(&vec![s("--yes"), s("--bogus")]).err(), Some(s("unknown option: --bogus")));
}
