//! Talking to the Herdr CLI: the commands to run, how a run and its JSON
//! reply are judged, where a pane's working directory is found in a reply,
//! and the steps that resolve the folder of the current workspace.

use vstd::prelude::*;

use crate::context::{opt_view, ContextView, PluginContext};
use crate::json::{spec_as_array, spec_as_bool, spec_as_str, spec_get, spec_pointer, Json};
use crate::path::{has_root, is_absolute};
use crate::text::{cat, is_blank, join, join_with, own, trim, trim_str};

verus! {

/// How a run of the Herdr CLI ended.
pub enum HerdrRun {
    /// The process could not be started; the text of the error.
    SpawnFailed(String),
    /// The process ran; its exit status as text and its output, decoded.
    Exited { success: bool, status: String, stdout: String, stderr: String },
}

/// The mathematical content of a `HerdrRun`.
pub enum RunView {
    SpawnFailed(Seq<char>),
    Exited { success: bool, status: Seq<char>, stdout: Seq<char>, stderr: Seq<char> },
}

impl View for HerdrRun {
    type V = RunView;

    open spec fn view(&self) -> RunView {
        match self {
            HerdrRun::SpawnFailed(e) => RunView::SpawnFailed(e@),
            HerdrRun::Exited { success, status, stdout, stderr } => RunView::Exited {
                success: *success,
                status: status@,
                stdout: stdout@,
                stderr: stderr@,
            },
        }
    }
}

/// The command as it is quoted in messages: `` `bin arg arg` ``.
pub open spec fn command_text(bin: Seq<char>, args: Seq<Seq<char>>) -> Seq<char> {
    "`"@ + bin + " "@ + join(args, " "@) + "`"@
}

/// The verdict on a run: the standard output when the command succeeded and
/// printed something, otherwise a message naming the command.
pub open spec fn spec_run_outcome(bin: Seq<char>, args: Seq<Seq<char>>, run: RunView) -> Result<
    Seq<char>,
    Seq<char>,
> {
    match run {
        RunView::SpawnFailed(e) => Err("failed to spawn "@ + command_text(bin, args) + ": "@ + e),
        RunView::Exited { success, status, stdout, stderr } => if !success {
            let head = command_text(bin, args) + " exited with "@ + status;
            let with_err = if trim(stderr).len() > 0 {
                head + "\nstderr: "@ + trim(stderr)
            } else {
                head
            };
            Err(
                if trim(stdout).len() > 0 {
                    with_err + "\nstdout: "@ + trim(stdout)
                } else {
                    with_err
                },
            )
        } else if trim(stdout).len() == 0 {
            Err(command_text(bin, args) + " returned empty stdout"@)
        } else {
            Ok(stdout)
        },
    }
}

/// The view of a result that carries text either way.
pub open spec fn text_result_view(r: Result<String, String>) -> Result<Seq<char>, Seq<char>> {
    match r {
        Ok(s) => Ok(s@),
        Err(e) => Err(e@),
    }
}

fn command_text_exec(bin: &str, args: &Vec<String>) -> (r: String)
    ensures
        r@ == command_text(bin@, args.deep_view()),
{
    let mut r = cat("`", bin);
    r.append(" ");
    let joined = join_with(args, " ");
    r.append(joined.as_str());
    r.append("`");
    r
}

/// Judges a run of `bin` with `args`.
pub fn run_herdr_outcome(bin: &str, args: &Vec<String>, run: HerdrRun) -> (r: Result<String, String>)
    ensures
        text_result_view(r) == spec_run_outcome(bin@, args.deep_view(), run@),
{
    match run {
        HerdrRun::SpawnFailed(e) => {
            let mut msg = cat("failed to spawn ", command_text_exec(bin, args).as_str());
            msg.append(": ");
            msg.append(e.as_str());
            Err(msg)
        },
        HerdrRun::Exited { success, status, stdout, stderr } => {
            if !success {
                let mut msg = command_text_exec(bin, args);
                msg.append(" exited with ");
                msg.append(status.as_str());
                let err_t = trim_str(stderr.as_str());
                if err_t.as_str().unicode_len() > 0 {
                    msg.append("\nstderr: ");
                    msg.append(err_t.as_str());
                }
                let out_t = trim_str(stdout.as_str());
                if out_t.as_str().unicode_len() > 0 {
                    msg.append("\nstdout: ");
                    msg.append(out_t.as_str());
                }
                return Err(msg);
            }
            if is_blank(stdout.as_str()) {
                let mut msg = command_text_exec(bin, args);
                msg.append(" returned empty stdout");
                return Err(msg);
            }
            Ok(stdout)
        },
    }
}

/// The JSON object that the Herdr CLI prints: a `result`, or an `error`.
/// The error is kept as its JSON text, which is all that is shown of it.
pub struct Envelope {
    pub result: Option<Json>,
    pub error: Option<String>,
}

/// What came back from asking Herdr something.
pub enum HerdrReply {
    /// The run failed; the message that `run_herdr_outcome` gave.
    Failed(String),
    /// The output was not a JSON envelope; the parser's message.
    Unparsable(String),
    /// The envelope that the output held.
    Parsed(Envelope),
}

/// The result held by a reply, or the message that explains why there is none.
pub open spec fn spec_envelope_result(reply: HerdrReply) -> Result<Json, Seq<char>> {
    match reply {
        HerdrReply::Failed(e) => Err(e@),
        HerdrReply::Unparsable(e) => Err("invalid herdr JSON response: "@ + e@),
        HerdrReply::Parsed(env) => match env.error {
            Some(err) => Err("herdr API error: "@ + err@),
            None => match env.result {
                Some(r) => Ok(r),
                None => Err("herdr response missing result"@),
            },
        },
    }
}

/// The view of a result carrying JSON.
pub open spec fn json_result_view(r: Result<Json, String>) -> Result<Json, Seq<char>> {
    match r {
        Ok(j) => Ok(j),
        Err(e) => Err(e@),
    }
}

/// Takes the result out of a reply.
pub fn envelope_result(reply: HerdrReply) -> (r: Result<Json, String>)
    ensures
        json_result_view(r) == spec_envelope_result(reply),
{
    match reply {
        HerdrReply::Failed(e) => Err(e),
        HerdrReply::Unparsable(e) => Err(cat("invalid herdr JSON response: ", e.as_str())),
        HerdrReply::Parsed(env) => {
            if let Some(err) = env.error {
                return Err(cat("herdr API error: ", err.as_str()));
            }
            match env.result {
                Some(r) => Ok(r),
                None => Err(own("herdr response missing result")),
            }
        },
    }
}

/// A path taken from a JSON value: a string that is not empty.
pub open spec fn spec_path_from(v: Option<Json>) -> Option<Seq<char>> {
    match v {
        Some(j) => match spec_as_str(j) {
            Some(s) => if s.len() > 0 {
                Some(s)
            } else {
                None
            },
            None => None,
        },
        None => None,
    }
}

/// The first of two options that is present.
pub open spec fn first_some(a: Option<Seq<char>>, b: Option<Seq<char>>) -> Option<Seq<char>> {
    if a is Some {
        a
    } else {
        b
    }
}

/// The working directory named at one of the places where a pane reply puts
/// it, tried in this order.
pub open spec fn spec_candidate_path(result: Json) -> Option<Seq<char>> {
    first_some(
        spec_path_from(spec_pointer(result, "/pane/cwd"@)),
        first_some(
            spec_path_from(spec_pointer(result, "/pane/foreground_cwd"@)),
            first_some(
                spec_path_from(spec_pointer(result, "/cwd"@)),
                first_some(
                    spec_path_from(spec_pointer(result, "/foreground_cwd"@)),
                    first_some(
                        spec_path_from(spec_pointer(result, "/panes/0/cwd"@)),
                        spec_path_from(spec_pointer(result, "/panes/0/foreground_cwd"@)),
                    ),
                ),
            ),
        ),
    )
}

/// The pane's `focused` member is `true`.
pub open spec fn is_focused(pane: Json) -> bool {
    match spec_get(pane, "focused"@) {
        Some(f) => spec_as_bool(f) == Some(true),
        None => false,
    }
}

/// The index of the first focused pane at or after `k`.
pub open spec fn focused_from(panes: Seq<Json>, k: int) -> Option<int>
    decreases panes.len() - k,
{
    if k < 0 || k >= panes.len() {
        None
    } else if is_focused(panes[k]) {
        Some(k)
    } else {
        focused_from(panes, k + 1)
    }
}

/// The pane that a pane list stands for: the first focused one, else the first.
pub open spec fn spec_pane_choice(panes: Seq<Json>) -> Option<Json> {
    match focused_from(panes, 0) {
        Some(i) => Some(panes[i]),
        None => if panes.len() > 0 {
            Some(panes[0])
        } else {
            None
        },
    }
}

/// A pane's directory: its `cwd`, else its `foreground_cwd`.
pub open spec fn spec_pane_path(pane: Json) -> Option<Seq<char>> {
    first_some(
        spec_path_from(spec_get(pane, "cwd"@)),
        spec_path_from(spec_get(pane, "foreground_cwd"@)),
    )
}

/// Where a `pane get` or `pane list` result names a working directory.
pub open spec fn spec_extract_pane_cwd(result: Json) -> Option<Seq<char>> {
    match spec_candidate_path(result) {
        Some(p) => Some(p),
        None => match spec_get(result, "panes"@) {
            Some(pv) => match spec_as_array(pv) {
                Some(panes) => match spec_pane_choice(panes) {
                    Some(pane) => spec_pane_path(pane),
                    None => None,
                },
                None => None,
            },
            None => None,
        },
    }
}

/// A path from a JSON value: a string that is not empty.
pub fn path_from_value(v: Option<&Json>) -> (r: Option<String>)
    ensures
        opt_view(r) == spec_path_from(
            match v {
                Some(j) => Some(*j),
                None => None,
            },
        ),
{
    match v {
        Some(j) => match j.as_str() {
            Some(s) => if s.unicode_len() > 0 {
                Some(own(s))
            } else {
                None
            },
            None => None,
        },
        None => None,
    }
}

fn pointer_path(result: &Json, pointer: &str) -> (r: Option<String>)
    ensures
        opt_view(r) == spec_path_from(spec_pointer(*result, pointer@)),
{
    path_from_value(result.pointer(pointer))
}

fn pane_is_focused(pane: &Json) -> (b: bool)
    ensures
        b == is_focused(*pane),
{
    match pane.get("focused") {
        Some(f) => match f.as_bool() {
            Some(x) => x,
            None => false,
        },
        None => false,
    }
}

fn first_focused(panes: &Vec<Json>) -> (r: Option<usize>)
    ensures
        match r {
            Some(k) => k < panes.len() && focused_from(panes@, 0) == Some(k as int),
            None => focused_from(panes@, 0) is None,
        },
{
    let mut i: usize = 0;
    while i < panes.len()
        invariant
            i <= panes.len(),
            focused_from(panes@, 0) == focused_from(panes@, i as int),
        decreases panes.len() - i,
    {
        if pane_is_focused(&panes[i]) {
            return Some(i);
        }
        i = i + 1;
    }
    None
}

/// Finds the working directory in a `pane get` or `pane list` result.
pub fn extract_pane_cwd(result: &Json) -> (r: Option<String>)
    ensures
        opt_view(r) == spec_extract_pane_cwd(*result),
{
    let c = pointer_path(result, "/pane/cwd");
    if c.is_some() {
        return c;
    }
    let c = pointer_path(result, "/pane/foreground_cwd");
    if c.is_some() {
        return c;
    }
    let c = pointer_path(result, "/cwd");
    if c.is_some() {
        return c;
    }
    let c = pointer_path(result, "/foreground_cwd");
    if c.is_some() {
        return c;
    }
    let c = pointer_path(result, "/panes/0/cwd");
    if c.is_some() {
        return c;
    }
    let c = pointer_path(result, "/panes/0/foreground_cwd");
    if c.is_some() {
        return c;
    }
    assert(spec_candidate_path(*result) is None);
    let panes = match result.get("panes") {
        Some(pv) => match pv.as_array() {
            Some(a) => a,
            None => {
                return None;
            },
        },
        None => {
            return None;
        },
    };
    let pane: &Json = match first_focused(panes) {
        Some(k) => &panes[k],
        None => {
            if panes.len() == 0 {
                return None;
            }
            &panes[0]
        },
    };
    let first = path_from_value(pane.get("cwd"));
    if first.is_some() {
        return first;
    }
    path_from_value(pane.get("foreground_cwd"))
}


/// A question put to the Herdr CLI while resolving the workspace folder.
pub enum HerdrQuery {
    /// `herdr pane get <pane id>`.
    PaneGet(String),
    /// `herdr pane list --workspace <workspace id>`.
    PaneList(String),
    /// `herdr pane get --current`.
    PaneGetCurrent,
}

/// The mathematical content of a `HerdrQuery`.
pub enum QueryView {
    PaneGet(Seq<char>),
    PaneList(Seq<char>),
    PaneGetCurrent,
}

impl View for HerdrQuery {
    type V = QueryView;

    open spec fn view(&self) -> QueryView {
        match self {
            HerdrQuery::PaneGet(id) => QueryView::PaneGet(id@),
            HerdrQuery::PaneList(ws) => QueryView::PaneList(ws@),
            HerdrQuery::PaneGetCurrent => QueryView::PaneGetCurrent,
        }
    }
}

/// The arguments of the Herdr command that asks the question.
pub open spec fn spec_query_args(q: QueryView) -> Seq<Seq<char>> {
    match q {
        QueryView::PaneGet(id) => seq!["pane"@, "get"@, id],
        QueryView::PaneList(ws) => seq!["pane"@, "list"@, "--workspace"@, ws],
        QueryView::PaneGetCurrent => seq!["pane"@, "get"@, "--current"@],
    }
}

/// How a folder found through the question is described.
pub open spec fn spec_query_via(q: QueryView) -> Seq<char> {
    match q {
        QueryView::PaneGet(id) => "herdr pane get "@ + id,
        QueryView::PaneList(_) => "herdr pane list --workspace"@,
        QueryView::PaneGetCurrent => "herdr pane get --current"@,
    }
}

impl HerdrQuery {
    /// The arguments to run the Herdr CLI with.
    pub fn args(&self) -> (r: Vec<String>)
        ensures
            r.deep_view() == spec_query_args(self@),
    {
        let mut r: Vec<String> = Vec::new();
        match self {
            HerdrQuery::PaneGet(id) => {
                r.push(own("pane"));
                r.push(own("get"));
                r.push(own(id.as_str()));
            },
            HerdrQuery::PaneList(ws) => {
                r.push(own("pane"));
                r.push(own("list"));
                r.push(own("--workspace"));
                r.push(own(ws.as_str()));
            },
            HerdrQuery::PaneGetCurrent => {
                r.push(own("pane"));
                r.push(own("get"));
                r.push(own("--current"));
            },
        }
        assert(r.deep_view() =~= spec_query_args(self@));
        r
    }

    /// How a folder found through this question is described.
    pub fn via(&self) -> (r: String)
        ensures
            r@ == spec_query_via(self@),
    {
        match self {
            HerdrQuery::PaneGet(id) => cat("herdr pane get ", id.as_str()),
            HerdrQuery::PaneList(_) => own("herdr pane list --workspace"),
            HerdrQuery::PaneGetCurrent => own("herdr pane get --current"),
        }
    }
}

/// Where resolving the workspace folder stands.
pub enum ResolveStep {
    /// The folder, and how it was found.
    Resolved { path: String, via: String },
    /// Resolving failed with this message.
    Failed(String),
    /// Herdr must be asked this; the reply goes to `resolve_with_reply`.
    Ask(HerdrQuery),
}

/// The mathematical content of a `ResolveStep`.
pub enum StepView {
    Resolved { path: Seq<char>, via: Seq<char> },
    Failed(Seq<char>),
    Ask(QueryView),
}

impl View for ResolveStep {
    type V = StepView;

    open spec fn view(&self) -> StepView {
        match self {
            ResolveStep::Resolved { path, via } => StepView::Resolved { path: path@, via: via@ },
            ResolveStep::Failed(e) => StepView::Failed(e@),
            ResolveStep::Ask(q) => StepView::Ask(q@),
        }
    }
}

/// The directory that the plugin context offers: the focused pane's, else
/// the workspace's.
pub open spec fn spec_context_cwd(ctx: ContextView) -> Option<Seq<char>> {
    if ctx.focused_pane_cwd is Some {
        ctx.focused_pane_cwd
    } else {
        ctx.workspace_cwd
    }
}

/// The last question: the workspace's panes when its id is known, else the
/// current pane.
pub open spec fn spec_fallback_query(ctx: ContextView) -> QueryView {
    match ctx.workspace_id {
        Some(ws) => QueryView::PaneList(ws),
        None => QueryView::PaneGetCurrent,
    }
}

/// The message when no question found the folder.
pub open spec fn not_found_message() -> Seq<char> {
    "could not resolve workspace folder path; focus a workspace and ensure Herdr is running"@
}

/// The first step: an absolute directory from the plugin context settles it;
/// otherwise ask for the focused pane when its id is known, else the last
/// question.
pub open spec fn spec_first_step(ctx: ContextView) -> StepView {
    match spec_context_cwd(ctx) {
        Some(c) if has_root(c) => StepView::Resolved { path: c, via: "plugin context"@ },
        _ => match ctx.focused_pane_id {
            Some(id) => StepView::Ask(QueryView::PaneGet(id)),
            None => StepView::Ask(spec_fallback_query(ctx)),
        },
    }
}

/// The plugin context settles the folder without asking Herdr whenever it
/// offers an absolute directory: the focused pane's when there is one, and
/// otherwise the workspace's.
pub proof fn lemma_context_directory_first(ctx: ContextView, c: Seq<char>)
    ensures
        (ctx.focused_pane_cwd == Some(c) && c.len() > 0 && c[0] == '/') ==> spec_first_step(ctx)
            == (StepView::Resolved { path: c, via: "plugin context"@ }),
        (ctx.focused_pane_cwd is None && ctx.workspace_cwd == Some(c) && c.len() > 0 && c[0]
            == '/') ==> spec_first_step(ctx) == (StepView::Resolved {
            path: c,
            via: "plugin context"@,
        }),
        spec_first_step(ctx) is Resolved ==> spec_first_step(ctx) == (StepView::Resolved {
            path: if ctx.focused_pane_cwd is Some {
                ctx.focused_pane_cwd.unwrap()
            } else {
                ctx.workspace_cwd.unwrap()
            },
            via: "plugin context"@,
        }),
{
}

/// The step after a reply: a failed reply ends it; a found directory settles
/// it; a pane question that finds nothing moves on to the last question, and
/// the last question that finds nothing fails.
pub open spec fn spec_next_step(ctx: ContextView, q: QueryView, reply: HerdrReply) -> StepView {
    match spec_envelope_result(reply) {
        Err(e) => StepView::Failed(e),
        Ok(result) => match spec_extract_pane_cwd(result) {
            Some(p) => StepView::Resolved { path: p, via: spec_query_via(q) },
            None => match q {
                QueryView::PaneGet(_) => StepView::Ask(spec_fallback_query(ctx)),
                _ => StepView::Failed(not_found_message()),
            },
        },
    }
}

fn fallback_query(ctx: &PluginContext) -> (q: HerdrQuery)
    ensures
        q@ == spec_fallback_query(ctx@),
{
    match &ctx.workspace_id {
        Some(ws) => HerdrQuery::PaneList(own(ws.as_str())),
        None => HerdrQuery::PaneGetCurrent,
    }
}

/// Starts resolving the folder of the current workspace from the plugin
/// context.
pub fn resolve_workspace_path(ctx: &PluginContext) -> (s: ResolveStep)
    ensures
        s@ == spec_first_step(ctx@),
{
    let cwd = match &ctx.focused_pane_cwd {
        Some(c) => Some(c),
        None => ctx.workspace_cwd.as_ref(),
    };
    if let Some(c) = cwd {
        if is_absolute(c.as_str()) {
            return ResolveStep::Resolved { path: own(c.as_str()), via: own("plugin context") };
        }
    }
    match &ctx.focused_pane_id {
        Some(id) => ResolveStep::Ask(HerdrQuery::PaneGet(own(id.as_str()))),
        None => ResolveStep::Ask(fallback_query(ctx)),
    }
}

/// Continues resolving with Herdr's reply to `query`.
pub fn resolve_with_reply(ctx: &PluginContext, query: &HerdrQuery, reply: HerdrReply) -> (s:
    ResolveStep)
    ensures
        s@ == spec_next_step(ctx@, query@, reply),
{
    match envelope_result(reply) {
        Err(e) => ResolveStep::Failed(e),
        Ok(result) => match extract_pane_cwd(&result) {
            Some(p) => ResolveStep::Resolved { path: p, via: query.via() },
            None => match query {
                HerdrQuery::PaneGet(_) => ResolveStep::Ask(fallback_query(ctx)),
                _ => ResolveStep::Failed(
                    own(
                        "could not resolve workspace folder path; focus a workspace and ensure Herdr is running",
                    ),
                ),
            },
        },
    }
}

/// What resolving the workspace folder yields, given the reply that asking
/// for the focused pane would get and the reply that the last question would
/// get, following the order of the checks one after the other.
pub open spec fn spec_resolve(ctx: ContextView, pane_reply: HerdrReply, last_reply: HerdrReply) -> Result<
    (Seq<char>, Seq<char>),
    Seq<char>,
> {
    match spec_context_cwd(ctx) {
        Some(c) if has_root(c) => Ok((c, "plugin context"@)),
        _ => {
            let from_pane: Option<Result<(Seq<char>, Seq<char>), Seq<char>>> = match ctx.focused_pane_id {
                Some(id) => match spec_envelope_result(pane_reply) {
                    Err(e) => Some(Err(e)),
                    Ok(result) => match spec_extract_pane_cwd(result) {
                        Some(p) => Some(Ok((p, "herdr pane get "@ + id))),
                        None => None,
                    },
                },
                None => None,
            };
            match from_pane {
                Some(r) => r,
                None => match spec_envelope_result(last_reply) {
                    Err(e) => Err(e),
                    Ok(result) => match spec_extract_pane_cwd(result) {
                        Some(p) => Ok(
                            (
                                p,
                                if ctx.workspace_id is Some {
                                    "herdr pane list --workspace"@
                                } else {
                                    "herdr pane get --current"@
                                },
                            ),
                        ),
                        None => Err(not_found_message()),
                    },
                },
            }
        },
    }
}

/// The reply that a question gets: the pane reply for a pane question, the
/// last reply otherwise.
pub open spec fn reply_for(q: QueryView, pane_reply: HerdrReply, last_reply: HerdrReply) -> HerdrReply {
    if q is PaneGet {
        pane_reply
    } else {
        last_reply
    }
}

/// The outcome of a step that asks nothing more.
pub open spec fn step_outcome(s: StepView) -> Option<Result<(Seq<char>, Seq<char>), Seq<char>>> {
    match s {
        StepView::Resolved { path, via } => Some(Ok((path, via))),
        StepView::Failed(e) => Some(Err(e)),
        StepView::Ask(_) => None,
    }
}

/// Resolving the workspace folder asks Herdr at most twice, the second time
/// only after a pane question, and the steps, answered with the replies that
/// Herdr gives, end with what checking the plugin context, the focused pane
/// and the last question one after the other yields.
pub proof fn lemma_resolve_steps(ctx: ContextView, pane_reply: HerdrReply, last_reply: HerdrReply)
    ensures
        ({
            let s1 = spec_first_step(ctx);
            match s1 {
                StepView::Ask(q1) => {
                    let s2 = spec_next_step(ctx, q1, reply_for(q1, pane_reply, last_reply));
                    match s2 {
                        StepView::Ask(q2) => {
                            let s3 = spec_next_step(ctx, q2, reply_for(q2, pane_reply, last_reply));
                            &&& q1 is PaneGet
                            &&& !(q2 is PaneGet)
                            &&& step_outcome(s3) == Some(spec_resolve(ctx, pane_reply, last_reply))
                        },
                        _ => step_outcome(s2) == Some(spec_resolve(ctx, pane_reply, last_reply)),
                    }
                },
                _ => step_outcome(s1) == Some(spec_resolve(ctx, pane_reply, last_reply)),
            }
        }),
{
}

/// The arguments of `herdr workspace create` for a folder and a label.
pub open spec fn spec_create_args(cwd: Seq<char>, label: Seq<char>, focus: bool) -> Seq<Seq<char>> {
    seq![
        "workspace"@,
        "create"@,
        "--cwd"@,
        cwd,
        "--label"@,
        label,
        if focus {
            "--focus"@
        } else {
            "--no-focus"@
        },
    ]
}

/// The Herdr CLI arguments that create a workspace for `cwd` labelled
/// `label`, focused or not.
pub fn create_workspace(cwd: &str, label: &str, focus: bool) -> (args: Vec<String>)
    ensures
        args.deep_view() == spec_create_args(cwd@, label@, focus),
{
    let mut args: Vec<String> = Vec::new();
    args.push(own("workspace"));
    args.push(own("create"));
    args.push(own("--cwd"));
    args.push(own(cwd));
    args.push(own("--label"));
    args.push(own(label));
    if focus {
        args.push(own("--focus"));
    } else {
        args.push(own("--no-focus"));
    }
    assert(args.deep_view() =~= spec_create_args(cwd@, label@, focus));
    args
}

/// The id of the created workspace in the reply to `workspace create`, or
/// `(unknown)` when the reply does not name it.
pub open spec fn spec_created_workspace_id(reply: HerdrReply) -> Result<Seq<char>, Seq<char>> {
    match spec_envelope_result(reply) {
        Err(e) => Err(e),
        Ok(result) => Ok(
            match spec_pointer(result, "/workspace/workspace_id"@) {
                Some(v) => match spec_as_str(v) {
                    Some(s) => s,
                    None => "(unknown)"@,
                },
                None => "(unknown)"@,
            },
        ),
    }
}

/// Reads the new workspace's id from the reply to `workspace create`.
pub fn created_workspace_id(reply: HerdrReply) -> (r: Result<String, String>)
    ensures
        text_result_view(r) == spec_created_workspace_id(reply),
{
    let result = match envelope_result(reply) {
        Ok(j) => j,
        Err(e) => {
            return Err(e);
        },
    };
    match result.pointer("/workspace/workspace_id") {
        Some(v) => match v.as_str() {
            Some(s) => Ok(own(s)),
            None => Ok(own("(unknown)")),
        },
        None => Ok(own("(unknown)")),
    }
}

} // verus!
