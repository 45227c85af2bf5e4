use workspace_copy::context::load_from_env;
use workspace_copy::context::ContextJson;
use workspace_copy::herdr_cli::{
    create_workspace, created_workspace_id, envelope_result, extract_pane_cwd, path_from_value,
    resolve_with_reply, resolve_workspace_path, run_herdr_outcome, Envelope, HerdrQuery, HerdrReply,
    HerdrRun, ResolveStep,
};
use workspace_copy::json::{parse_index, unescape_token, Json, JsonObject};

fn s(x: &str) -> String {
    x.to_string()
}

fn obj(entries: Vec<(&str, Json)>) -> Json {
    let mut object = JsonObject::new();
    for (k, v) in entries {
        object.insert(s(k), v);
    }
    Json::Object(object)
}

fn text(x: &str) -> Json {
    Json::Str(s(x))
}

fn ok(result: Json) -> HerdrReply {
    HerdrReply::Parsed(Envelope { result: Some(result), error: None })
}

#[test]
fn pointer_follows_objects_and_arrays() {
    let v = obj(vec![("panes", Json::Array(vec![obj(vec![("cwd", text("/p0"))])])), ("a/b", text("slash")), ("m~n", text("tilde"))]);
    assert!(matches!(v.pointer("/panes/0/cwd"), Some(Json::Str(p)) if p == "/p0"));
    assert!(v.pointer("/panes/1/cwd").is_none());
    assert!(v.pointer("/panes/00/cwd").is_none());
    assert!(v.pointer("/panes/+0/cwd").is_none());
    assert!(v.pointer("panes").is_none());
    assert!(matches!(v.pointer(""), Some(Json::Object(_))));
    assert!(matches!(v.pointer("/a~1b"), Some(Json::Str(p)) if p == "slash"));
    assert!(matches!(v.pointer("/m~0n"), Some(Json::Str(p)) if p == "tilde"));
}

#[test]
fn objects_keep_one_member_per_key() {
    let mut object = JsonObject::new();
    object.insert(s("a"), text("1"));
    object.insert(s("b"), text("2"));
    object.insert(s("a"), text("3"));
    let keys: Vec<&str> = object.entries().iter().map(|(k, _)| k.as_str()).collect();
    assert_eq!(keys, vec!["a", "b"]);
    let v = Json::Object(object);
    assert!(matches!(v.get("a"), Some(Json::Str(x)) if x == "3"));
}

#[test]
fn index_tokens() {
    assert_eq!(parse_index("0"), Some(0));
    assert_eq!(parse_index("12"), Some(12));
    assert_eq!(parse_index("012"), None);
    assert_eq!(parse_index("+1"), None);
    assert_eq!(parse_index(""), None);
    assert_eq!(parse_index("1a"), None);
    assert_eq!(parse_index("99999999999999999999999"), None);
    assert_eq!(unescape_token("~01"), "~1");
    assert_eq!(unescape_token("~1~0"), "/~");
}

#[test]
fn paths_must_be_non_empty_strings() {
    assert_eq!(path_from_value(Some(&text("/x"))), Some(s("/x")));
    assert_eq!(path_from_value(Some(&text(""))), None);
    assert_eq!(path_from_value(Some(&Json::Bool(true))), None);
    assert_eq!(path_from_value(None), None);
}

#[test]
fn pane_get_reply_shapes() {
    let r = obj(vec![("pane", obj(vec![("cwd", text("/a")), ("foreground_cwd", text("/b"))]))]);
    assert_eq!(extract_pane_cwd(&r), Some(s("/a")));
    let r = obj(vec![("pane", obj(vec![("cwd", text("")), ("foreground_cwd", text("/b"))]))]);
    assert_eq!(extract_pane_cwd(&r), Some(s("/b")));
    let r = obj(vec![("cwd", text("/top"))]);
    assert_eq!(extract_pane_cwd(&r), Some(s("/top")));
    assert_eq!(extract_pane_cwd(&obj(vec![])), None);
}

#[test]
fn pane_list_prefers_the_focused_pane() {
    let p0 = obj(vec![("cwd", Json::Null), ("focused", Json::Bool(false))]);
    let p1 = obj(vec![("foreground_cwd", text("/focused")), ("focused", Json::Bool(true))]);
    let r = obj(vec![("panes", Json::Array(vec![p0, p1]))]);
    assert_eq!(extract_pane_cwd(&r), Some(s("/focused")));
    let q0 = obj(vec![("foreground_cwd", text("/first"))]);
    let r = obj(vec![("panes", Json::Array(vec![q0]))]);
    assert_eq!(extract_pane_cwd(&r), Some(s("/first")));
    assert_eq!(extract_pane_cwd(&obj(vec![("panes", Json::Array(vec![]))])), None);
}

#[test]
fn envelopes() {
    assert!(matches!(envelope_result(ok(Json::Null)), Ok(Json::Null)));
    let e = HerdrReply::Parsed(Envelope { result: Some(Json::Null), error: Some(s("\"boom\"")) });
    assert_eq!(envelope_result(e).err(), Some(s("herdr API error: \"boom\"")));
    let e = HerdrReply::Parsed(Envelope { result: None, error: None });
    assert_eq!(envelope_result(e).err(), Some(s("herdr response missing result")));
    assert_eq!(envelope_result(HerdrReply::Unparsable(s("EOF"))).err(), Some(s("invalid herdr JSON response: EOF")));
    assert_eq!(envelope_result(HerdrReply::Failed(s("x"))).err(), Some(s("x")));
}

#[test]
fn run_outcomes() {
    let args = vec![s("pane"), s("get"), s("--current")];
    let r = run_herdr_outcome("herdr", &args, HerdrRun::SpawnFailed(s("not found")));
    assert_eq!(r, Err(s("failed to spawn `herdr pane get --current`: not found")));
    let r = run_herdr_outcome(
        "herdr",
        &args,
        HerdrRun::Exited { success: false, status: s("exit status: 1"), stdout: s(" out \n"), stderr: s("bad\n") },
    );
    assert_eq!(r, Err(s("`herdr pane get --current` exited with exit status: 1\nstderr: bad\nstdout: out")));
    let r = run_herdr_outcome(
        "herdr",
        &args,
        HerdrRun::Exited { success: false, status: s("exit status: 2"), stdout: s(""), stderr: s(" ") },
    );
    assert_eq!(r, Err(s("`herdr pane get --current` exited with exit status: 2")));
    let r = run_herdr_outcome(
        "herdr",
        &args,
        HerdrRun::Exited { success: true, status: s("exit status: 0"), stdout: s("\n"), stderr: s("") },
    );
    assert_eq!(r, Err(s("`herdr pane get --current` returned empty stdout")));
    let r = run_herdr_outcome(
        "herdr",
        &args,
        HerdrRun::Exited { success: true, status: s("exit status: 0"), stdout: s("{}\n"), stderr: s("") },
    );
    assert_eq!(r, Ok(s("{}\n")));
}

#[test]
fn plugin_context_settles_without_herdr() {
    let json = ContextJson {
        workspace_id: Some(s("w1")),
        workspace_label: None,
        workspace_cwd: None,
        focused_pane_cwd: Some(s("/tmp/demo-project")),
        focused_pane_id: Some(s("p1")),
    };
    let ctx = load_from_env(None, None, Some(json));
    match resolve_workspace_path(&ctx) {
        ResolveStep::Resolved { path, via } => {
            assert_eq!(path, "/tmp/demo-project");
            assert_eq!(via, "plugin context");
        },
        _ => panic!("expected a resolved path"),
    }
}

#[test]
fn relative_focused_cwd_does_not_fall_back_to_workspace_cwd() {
    let json = ContextJson {
        workspace_id: None,
        workspace_label: None,
        workspace_cwd: Some(s("/abs")),
        focused_pane_cwd: Some(s("rel")),
        focused_pane_id: None,
    };
    let ctx = load_from_env(None, None, Some(json));
    assert!(matches!(resolve_workspace_path(&ctx), ResolveStep::Ask(HerdrQuery::PaneGetCurrent)));
}

#[test]
fn pane_then_workspace_questions() {
    let ctx = load_from_env(Some(s("w9")), Some(s("p9")), None);
    let q1 = match resolve_workspace_path(&ctx) {
        ResolveStep::Ask(q) => q,
        _ => panic!("expected a question"),
    };
    assert_eq!(q1.args(), vec![s("pane"), s("get"), s("p9")]);
    let q2 = match resolve_with_reply(&ctx, &q1, ok(obj(vec![]))) {
        ResolveStep::Ask(q) => q,
        _ => panic!("expected a second question"),
    };
    assert_eq!(q2.args(), vec![s("pane"), s("list"), s("--workspace"), s("w9")]);
    let listed = obj(vec![("panes", Json::Array(vec![obj(vec![("cwd", text("/w"))])]))]);
    match resolve_with_reply(&ctx, &q2, ok(listed)) {
        ResolveStep::Resolved { path, via } => {
            assert_eq!(path, "/w");
            assert_eq!(via, "herdr pane list --workspace");
        },
        _ => panic!("expected a resolved path"),
    }
    match resolve_with_reply(&ctx, &q2, ok(obj(vec![]))) {
        ResolveStep::Failed(e) => assert_eq!(
            e,
            "could not resolve workspace folder path; focus a workspace and ensure Herdr is running"
        ),
        _ => panic!("expected failure"),
    }
}

#[test]
fn pane_question_answers_directly() {
    let ctx = load_from_env(None, Some(s("p2")), None);
    let q = HerdrQuery::PaneGet(s("p2"));
    let reply = ok(obj(vec![("pane", obj(vec![("cwd", text("/pp"))]))]));
    match resolve_with_reply(&ctx, &q, reply) {
        ResolveStep::Resolved { path, via } => {
            assert_eq!(path, "/pp");
            assert_eq!(via, "herdr pane get p2");
        },
        _ => panic!("expected a resolved path"),
    }
    match resolve_with_reply(&ctx, &q, HerdrReply::Failed(s("down"))) {
        ResolveStep::Failed(e) => assert_eq!(e, "down"),
        _ => panic!("a failed run ends resolving"),
    }
    let current = HerdrQuery::PaneGetCurrent;
    assert_eq!(current.args(), vec![s("pane"), s("get"), s("--current")]);
}

#[test]
fn workspace_creation() {
    assert_eq!(
        create_workspace("/tmp/d-copy", "d-copy", true),
        vec![s("workspace"), s("create"), s("--cwd"), s("/tmp/d-copy"), s("--label"), s("d-copy"), s("--focus")]
    );
    assert_eq!(create_workspace("/x", "y", false).last(), Some(&s("--no-focus")));
    let reply = ok(obj(vec![("workspace", obj(vec![("workspace_id", text("w42"))]))]));
    assert_eq!(created_workspace_id(reply), Ok(s("w42")));
    assert_eq!(created_workspace_id(ok(obj(vec![]))), Ok(s("(unknown)")));
    assert_eq!(created_workspace_id(HerdrReply::Failed(s("e"))), Err(s("e")));
}
