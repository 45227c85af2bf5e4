//! The plugin context that Herdr hands to a plugin action, and the settings
//! that shape a copy (excluded directory names, `.git`, the name suffix).

use vstd::prelude::*;

use crate::path::{file_name, is_plain_name, lemma_file_name_of_join, spec_file_name, spec_join};
use crate::text::{keep_trimmed_nonblank, own, split_char, split_on, str_eq, trimmed_nonblank};

verus! {

/// The view of an optional string.
pub open spec fn opt_view(o: Option<String>) -> Option<Seq<char>> {
    match o {
        Some(s) => Some(s@),
        None => None,
    }
}

/// Copies an optional string.
pub fn clone_opt(o: &Option<String>) -> (r: Option<String>)
    ensures
        opt_view(r) == opt_view(*o),
{
    match o {
        Some(s) => Some(own(s.as_str())),
        None => None,
    }
}

/// Which workspace and pane the action runs for, as far as it is known.
#[derive(Debug, Clone, Default)]
pub struct PluginContext {
    pub workspace_id: Option<String>,
    pub workspace_label: Option<String>,
    pub workspace_cwd: Option<String>,
    pub focused_pane_cwd: Option<String>,
    pub focused_pane_id: Option<String>,
}

/// The fields of the JSON object in `HERDR_PLUGIN_CONTEXT_JSON`; each may be
/// missing.
pub struct ContextJson {
    pub workspace_id: Option<String>,
    pub workspace_label: Option<String>,
    pub workspace_cwd: Option<String>,
    pub focused_pane_cwd: Option<String>,
    pub focused_pane_id: Option<String>,
}

/// The mathematical content of a `PluginContext`.
pub struct ContextView {
    pub workspace_id: Option<Seq<char>>,
    pub workspace_label: Option<Seq<char>>,
    pub workspace_cwd: Option<Seq<char>>,
    pub focused_pane_cwd: Option<Seq<char>>,
    pub focused_pane_id: Option<Seq<char>>,
}

impl View for PluginContext {
    type V = ContextView;

    open spec fn view(&self) -> ContextView {
        ContextView {
            workspace_id: opt_view(self.workspace_id),
            workspace_label: opt_view(self.workspace_label),
            workspace_cwd: opt_view(self.workspace_cwd),
            focused_pane_cwd: opt_view(self.focused_pane_cwd),
            focused_pane_id: opt_view(self.focused_pane_id),
        }
    }
}

impl View for ContextJson {
    type V = ContextView;

    open spec fn view(&self) -> ContextView {
        ContextView {
            workspace_id: opt_view(self.workspace_id),
            workspace_label: opt_view(self.workspace_label),
            workspace_cwd: opt_view(self.workspace_cwd),
            focused_pane_cwd: opt_view(self.focused_pane_cwd),
            focused_pane_id: opt_view(self.focused_pane_id),
        }
    }
}

/// An environment value counts only when it is set and not empty.
pub open spec fn non_empty(o: Option<Seq<char>>) -> Option<Seq<char>> {
    match o {
        Some(s) => if s.len() > 0 {
            Some(s)
        } else {
            None
        },
        None => None,
    }
}

/// The context built from `HERDR_WORKSPACE_ID`, `HERDR_PANE_ID` and the
/// parsed `HERDR_PLUGIN_CONTEXT_JSON`: the JSON object's ids win when present,
/// and it alone supplies the label and the two working directories.
pub open spec fn spec_load_context(
    env_workspace_id: Option<Seq<char>>,
    env_pane_id: Option<Seq<char>>,
    json: Option<ContextView>,
) -> ContextView {
    let base = ContextView {
        workspace_id: non_empty(env_workspace_id),
        workspace_label: None,
        workspace_cwd: None,
        focused_pane_cwd: None,
        focused_pane_id: non_empty(env_pane_id),
    };
    match json {
        None => base,
        Some(j) => ContextView {
            workspace_id: if j.workspace_id is Some {
                j.workspace_id
            } else {
                base.workspace_id
            },
            workspace_label: j.workspace_label,
            workspace_cwd: j.workspace_cwd,
            focused_pane_cwd: j.focused_pane_cwd,
            focused_pane_id: if j.focused_pane_id is Some {
                j.focused_pane_id
            } else {
                base.focused_pane_id
            },
        },
    }
}

fn non_empty_exec(o: Option<String>) -> (r: Option<String>)
    ensures
        opt_view(r) == non_empty(opt_view(o)),
{
    match o {
        Some(s) => if s.as_str().unicode_len() > 0 {
            Some(s)
        } else {
            None
        },
        None => None,
    }
}

/// Builds the plugin context from the values read from the environment:
/// `HERDR_WORKSPACE_ID`, `HERDR_PANE_ID` and the object parsed from
/// `HERDR_PLUGIN_CONTEXT_JSON` (`None` when unset or not valid JSON).
pub fn load_from_env(
    env_workspace_id: Option<String>,
    env_pane_id: Option<String>,
    context_json: Option<ContextJson>,
) -> (ctx: PluginContext)
    ensures
        ctx@ == spec_load_context(
            opt_view(env_workspace_id),
            opt_view(env_pane_id),
            match context_json {
                Some(j) => Some(j@),
                None => None,
            },
        ),
{
    let mut ctx = PluginContext {
        workspace_id: non_empty_exec(env_workspace_id),
        workspace_label: None,
        workspace_cwd: None,
        focused_pane_cwd: None,
        focused_pane_id: non_empty_exec(env_pane_id),
    };
    if let Some(parsed) = context_json {
        if parsed.workspace_id.is_some() {
            ctx.workspace_id = parsed.workspace_id;
        }
        ctx.workspace_label = parsed.workspace_label;
        ctx.workspace_cwd = parsed.workspace_cwd;
        ctx.focused_pane_cwd = parsed.focused_pane_cwd;
        if parsed.focused_pane_id.is_some() {
            ctx.focused_pane_id = parsed.focused_pane_id;
        }
    }
    ctx
}

/// The directory names skipped when nothing else is configured.
pub open spec fn builtin_excludes() -> Seq<Seq<char>> {
    seq![
        "node_modules"@,
        ".venv"@,
        "venv"@,
        "target"@,
        "dist"@,
        "build"@,
        ".cache"@,
        ".tmp"@,
        "__pycache__"@,
        ".next"@,
        ".turbo"@,
    ]
}

/// The excluded directory names for a value of `WORKSPACE_FORK_EXCLUDE`: its
/// comma-separated entries, trimmed, without blank ones; the built-in list
/// when the variable is unset or names nothing.
pub open spec fn spec_exclude_names(setting: Option<Seq<char>>) -> Seq<Seq<char>> {
    match setting {
        Some(raw) => {
            let list = trimmed_nonblank(split_on(raw, ','));
            if list.len() > 0 {
                list
            } else {
                builtin_excludes()
            }
        },
        None => builtin_excludes(),
    }
}

/// The directory names to skip, from the value of `WORKSPACE_FORK_EXCLUDE`.
pub fn default_exclude_names(setting: Option<String>) -> (names: Vec<String>)
    ensures
        names.deep_view() == spec_exclude_names(opt_view(setting)),
{
    if let Some(raw) = setting {
        let pieces = split_char(raw.as_str(), ',');
        let list = keep_trimmed_nonblank(&pieces);
        if list.len() > 0 {
            return list;
        }
    }
    let mut names: Vec<String> = Vec::new();
    names.push(own("node_modules"));
    names.push(own(".venv"));
    names.push(own("venv"));
    names.push(own("target"));
    names.push(own("dist"));
    names.push(own("build"));
    names.push(own(".cache"));
    names.push(own(".tmp"));
    names.push(own("__pycache__"));
    names.push(own(".next"));
    names.push(own(".turbo"));
    assert(names.deep_view() =~= builtin_excludes());
    names
}

/// Whether `.git` is copied, for a value of `WORKSPACE_FORK_INCLUDE_GIT`:
/// only `0`, `false`, `FALSE` and `no` turn it off.
pub open spec fn spec_include_git(setting: Option<Seq<char>>) -> bool {
    match setting {
        Some(v) => !(v == "0"@ || v == "false"@ || v == "FALSE"@ || v == "no"@),
        None => true,
    }
}

/// Whether `.git` is copied, from the value of `WORKSPACE_FORK_INCLUDE_GIT`.
pub fn include_git(setting: Option<String>) -> (b: bool)
    ensures
        b == spec_include_git(opt_view(setting)),
{
    match setting {
        Some(v) => {
            let s = v.as_str();
            !(str_eq(s, "0") || str_eq(s, "false") || str_eq(s, "FALSE") || str_eq(s, "no"))
        },
        None => true,
    }
}

/// The suffix of a suggested name, for a value of `WORKSPACE_FORK_NAME_SUFFIX`.
pub open spec fn spec_name_suffix(setting: Option<Seq<char>>) -> Seq<char> {
    match setting {
        Some(s) => s,
        None => "-copy"@,
    }
}

/// The suffix of a suggested name, from the value of `WORKSPACE_FORK_NAME_SUFFIX`.
pub fn name_template_suffix(setting: Option<String>) -> (s: String)
    ensures
        s@ == spec_name_suffix(opt_view(setting)),
{
    match setting {
        Some(s) => s,
        None => own("-copy"),
    }
}

/// The folder name of `source`, or `workspace` when it has none.
pub open spec fn spec_base_name(source: Seq<char>) -> Seq<char> {
    match spec_file_name(source) {
        Some(n) => n,
        None => "workspace"@,
    }
}

/// The folder name of `source`, or `workspace` when the path has none.
pub fn folder_base_name(source: &str) -> (r: String)
    ensures
        r@ == spec_base_name(source@),
{
    match file_name(source) {
        Some(n) => n,
        None => own("workspace"),
    }
}

/// The default name of the copy: the folder name followed by the suffix.
pub open spec fn spec_suggested_name(source: Seq<char>, suffix: Seq<char>) -> Seq<char> {
    spec_base_name(source) + suffix
}

/// The default name of a folder named `n` under any directory `q` is `n`
/// followed by the suffix, whatever `n` holds (dots included).
pub proof fn lemma_suggested_name_of_folder(q: Seq<char>, n: Seq<char>, suffix: Seq<char>)
    requires
        is_plain_name(n),
    ensures
        spec_suggested_name(spec_join(q, n), suffix) == n + suffix,
        spec_base_name(spec_join(q, n)) == n,
{
    lemma_file_name_of_join(q, n);
}

/// The base name is the whole file name of the source when it has one, and
/// `workspace` otherwise.
pub proof fn lemma_base_name_is_file_name(source: Seq<char>)
    ensures
        spec_file_name(source) matches Some(n) ==> spec_base_name(source) == n,
        spec_file_name(source) is None ==> spec_base_name(source) == "workspace"@,
{
}

/// The default name of the copy of `source`: its folder name (or
/// `workspace`) followed by `suffix`.
pub fn suggested_name(source: &str, suffix: &str) -> (r: String)
    ensures
        r@ == spec_suggested_name(source@, suffix@),
{
    let mut r = folder_base_name(source);
    r.append(suffix);
    r
}

} // verus!
