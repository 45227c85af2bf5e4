//! What the tool shows and how it reads answers: the plan summary, the
//! copy counters, the final report, and the replies to its two questions.

use vstd::prelude::*;

use crate::context::opt_view;
use crate::copy::{CopyPlan, CopyStats, PlanView};
use crate::text::{cat, decimal, eq_ignore_ascii_case, eq_ignore_case, join, join_with, own, trim, trim_str, u64_to_decimal};

verus! {

/// What came of asking the user something.
pub enum Answer {
    /// Nobody could be asked: no terminal, or running as a plugin action.
    NotAsked,
    /// Standard input ended before a line was read.
    NoInput,
    /// The line that was read.
    Line(String),
}

/// The mathematical content of an `Answer`.
pub enum AnswerView {
    NotAsked,
    NoInput,
    Line(Seq<char>),
}

impl View for Answer {
    type V = AnswerView;

    open spec fn view(&self) -> AnswerView {
        match self {
            Answer::NotAsked => AnswerView::NotAsked,
            Answer::NoInput => AnswerView::NoInput,
            Answer::Line(l) => AnswerView::Line(l@),
        }
    }
}

/// The trimmed reply is one of the words, in any ASCII case.
pub open spec fn is_word(input: Seq<char>, w: Seq<char>) -> bool {
    eq_ignore_ascii_case(input, w)
}

/// The name chosen for the copy: the suggestion when nobody was asked, when
/// no line came, or when the reply is empty, `y` or `yes`; none (cancel) for
/// `n`, `no` or `q`; otherwise the reply itself, trimmed.
pub open spec fn spec_confirm_new_name(suggested: Seq<char>, answer: AnswerView) -> Option<Seq<char>> {
    match answer {
        AnswerView::Line(line) => {
            let input = trim(line);
            if input.len() == 0 || is_word(input, "y"@) || is_word(input, "yes"@) {
                Some(suggested)
            } else if is_word(input, "n"@) || is_word(input, "no"@) || is_word(input, "q"@) {
                None
            } else {
                Some(input)
            }
        },
        _ => Some(suggested),
    }
}

/// Reads the reply to "New folder name [suggested]".
pub fn confirm_new_name(suggested: &str, answer: &Answer) -> (r: Option<String>)
    ensures
        match r {
            Some(s) => spec_confirm_new_name(suggested@, answer@) == Some(s@),
            None => spec_confirm_new_name(suggested@, answer@) is None,
        },
{
    match answer {
        Answer::Line(line) => {
            let input = trim_str(line.as_str());
            let t = input.as_str();
            if t.unicode_len() == 0 || eq_ignore_case(t, "y") || eq_ignore_case(t, "yes") {
                return Some(own(suggested));
            }
            if eq_ignore_case(t, "n") || eq_ignore_case(t, "no") || eq_ignore_case(t, "q") {
                return None;
            }
            Some(input)
        },
        _ => Some(own(suggested)),
    }
}

/// The reply to a yes/no question: yes when nobody was asked, no when no
/// line came, otherwise yes exactly for `y` or `yes` in any ASCII case.
pub open spec fn spec_confirm_yes_no(answer: AnswerView) -> bool {
    match answer {
        AnswerView::NotAsked => true,
        AnswerView::NoInput => false,
        AnswerView::Line(line) => is_word(trim(line), "y"@) || is_word(trim(line), "yes"@),
    }
}

/// Reads the reply to a yes/no question.
pub fn confirm_yes_no(answer: &Answer) -> (b: bool)
    ensures
        b == spec_confirm_yes_no(answer@),
{
    match answer {
        Answer::NotAsked => true,
        Answer::NoInput => false,
        Answer::Line(line) => {
            let input = trim_str(line.as_str());
            eq_ignore_case(input.as_str(), "y") || eq_ignore_case(input.as_str(), "yes")
        },
    }
}

/// How the workspace is named in the summary.
pub open spec fn spec_workspace_text(workspace_id: Option<Seq<char>>, label: Option<Seq<char>>) -> Seq<
    char,
> {
    match (label, workspace_id) {
        (Some(l), Some(id)) => l + " ("@ + id + ")"@,
        (Some(l), None) => l,
        (None, Some(id)) => id,
        (None, None) => "(current)"@,
    }
}

/// The rules line of the summary.
pub open spec fn spec_rules_text(plan: PlanView) -> Seq<char> {
    "rules     : exclude ["@ + join(plan.exclude, ", "@) + "]"@ + (if plan.include_git {
        ""@
    } else {
        " + .git"@
    }) + "; "@ + (if plan.include_git {
        "include .git"@
    } else {
        "exclude .git"@
    })
}

/// The lines of the plan summary, the last one empty; the target line only
/// when the target is known.
pub open spec fn spec_plan_lines(
    workspace_id: Option<Seq<char>>,
    label: Option<Seq<char>>,
    plan: PlanView,
    via: Seq<char>,
) -> Seq<Seq<char>> {
    let head = seq![
        "Workspace Copy · duplicate workspace folder"@,
        "────────────────────────────────────────────"@,
        "workspace : "@ + spec_workspace_text(workspace_id, label),
        "source    : "@ + plan.source,
        "via       : "@ + via,
        "new name  : "@ + plan.label,
    ];
    let with_target = if plan.dest.len() == 0 {
        head
    } else {
        head.push("target    : "@ + plan.dest)
    };
    with_target.push(spec_rules_text(plan)).push(""@)
}

fn workspace_text(workspace_id: &Option<String>, label: &Option<String>) -> (r: String)
    ensures
        r@ == spec_workspace_text(opt_view(*workspace_id), opt_view(*label)),
{
    match (label, workspace_id) {
        (Some(l), Some(id)) => {
            let mut r = cat(l.as_str(), " (");
            r.append(id.as_str());
            r.append(")");
            r
        },
        (Some(l), None) => own(l.as_str()),
        (None, Some(id)) => own(id.as_str()),
        (None, None) => own("(current)"),
    }
}

/// The summary of a plan, line by line.
pub fn plan_lines(
    workspace_id: &Option<String>,
    label: &Option<String>,
    plan: &CopyPlan,
    via: &str,
) -> (lines: Vec<String>)
    ensures
        lines.deep_view() == spec_plan_lines(
            opt_view(*workspace_id),
            opt_view(*label),
            plan@,
            via@,
        ),
{
    let mut lines: Vec<String> = Vec::new();
    lines.push(own("Workspace Copy · duplicate workspace folder"));
    lines.push(own("────────────────────────────────────────────"));
    let ws = workspace_text(workspace_id, label);
    lines.push(cat("workspace : ", ws.as_str()));
    lines.push(cat("source    : ", plan.source.as_str()));
    lines.push(cat("via       : ", via));
    lines.push(cat("new name  : ", plan.label.as_str()));
    let ghost head = seq![
        "Workspace Copy · duplicate workspace folder"@,
        "────────────────────────────────────────────"@,
        "workspace : "@ + spec_workspace_text(
            opt_view(*workspace_id),
            opt_view(*label),
        ),
        "source    : "@ + plan.source@,
        "via       : "@ + via@,
        "new name  : "@ + plan.label@,
    ];
    assert(lines.deep_view() =~= head);
    if plan.dest.as_str().unicode_len() > 0 {
        lines.push(cat("target    : ", plan.dest.as_str()));
        assert(lines.deep_view() =~= head.push("target    : "@ + plan.dest@));
    }
    let ghost with_target = lines.deep_view();
    let joined = join_with(&plan.exclude, ", ");
    let mut rules = cat("rules     : exclude [", joined.as_str());
    rules.append("]");
    proof {
        reveal_strlit("");
        assert(""@ =~= Seq::<char>::empty());
        assert(rules@ + ""@ =~= rules@);
    }
    if !plan.include_git {
        rules.append(" + .git");
    }
    rules.append("; ");
    if plan.include_git {
        rules.append("include .git");
    } else {
        rules.append("exclude .git");
    }
    lines.push(rules);
    lines.push(String::new());
    proof {
        reveal_strlit("");
        assert(""@ =~= Seq::<char>::empty());
    }
    assert(lines.deep_view() =~= with_target.push(spec_rules_text(plan@)).push(""@));
    assert(lines.deep_view() =~= spec_plan_lines(
        opt_view(*workspace_id),
        opt_view(*label),
        plan@,
        via@,
    ));
    lines
}

/// The counters line.
pub open spec fn spec_stats_line(stats: CopyStats) -> Seq<char> {
    "copied: "@ + decimal(stats.files_copied as nat) + " files, "@ + decimal(
        stats.dirs_created as nat,
    ) + " dirs, "@ + decimal(stats.skipped_entries as nat) + " skipped (~"@ + decimal(
        stats.bytes_copied as nat,
    ) + " bytes)"@
}

/// The counters of a finished copy, as one line.
pub fn stats_line(stats: &CopyStats) -> (r: String)
    ensures
        r@ == spec_stats_line(*stats),
{
    let mut r = cat("copied: ", u64_to_decimal(stats.files_copied).as_str());
    r.append(" files, ");
    r.append(u64_to_decimal(stats.dirs_created).as_str());
    r.append(" dirs, ");
    r.append(u64_to_decimal(stats.skipped_entries).as_str());
    r.append(" skipped (~");
    r.append(u64_to_decimal(stats.bytes_copied).as_str());
    r.append(" bytes)");
    r
}

/// The lines of the final report, the first one empty.
pub open spec fn spec_result_lines(workspace_id: Seq<char>, source: Seq<char>, dest: Seq<char>) -> Seq<
    Seq<char>,
> {
    seq![
        ""@,
        "Workspace Copy · done"@,
        "─────────────────────"@,
        "new workspace_id : "@ + workspace_id,
        "source           : "@ + source,
        "target           : "@ + dest,
    ]
}

/// The final report, line by line.
pub fn result_lines(workspace_id: &str, source: &str, dest: &str) -> (lines: Vec<String>)
    ensures
        lines.deep_view() == spec_result_lines(workspace_id@, source@, dest@),
{
    let mut lines: Vec<String> = Vec::new();
    lines.push(String::new());
    lines.push(own("Workspace Copy · done"));
    lines.push(own("─────────────────────"));
    lines.push(cat("new workspace_id : ", workspace_id));
    lines.push(cat("source           : ", source));
    lines.push(cat("target           : ", dest));
    proof {
        reveal_strlit("");
        assert(""@ =~= Seq::<char>::empty());
    }
    assert(lines.deep_view() =~= spec_result_lines(workspace_id@, source@, dest@));
    lines
}

/// What a dry run reports instead of copying.
pub open spec fn spec_dry_run_lines(plan: PlanView) -> Seq<Seq<char>> {
    seq![
        "dry-run: would copy "@ + plan.source + " -> "@ + plan.dest,
        "dry-run: would run herdr workspace create --cwd "@ + plan.dest + " --label "@ + plan.label
            + " --focus"@,
    ]
}

/// The report of a dry run, line by line.
pub fn dry_run_lines(plan: &CopyPlan) -> (lines: Vec<String>)
    ensures
        lines.deep_view() == spec_dry_run_lines(plan@),
{
    let mut first = cat("dry-run: would copy ", plan.source.as_str());
    first.append(" -> ");
    first.append(plan.dest.as_str());
    let mut second = cat("dry-run: would run herdr workspace create --cwd ", plan.dest.as_str());
    second.append(" --label ");
    second.append(plan.label.as_str());
    second.append(" --focus");
    let mut lines: Vec<String> = Vec::new();
    lines.push(first);
    lines.push(second);
    assert(lines.deep_view() =~= spec_dry_run_lines(plan@));
    lines
}

} // verus!
