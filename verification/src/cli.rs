//! The command line and the building of a plan: which command runs, the
//! options of `duplicate`, where the copy goes and what it is called.

use vstd::prelude::*;

use crate::context::{folder_base_name, opt_view, spec_base_name, spec_suggested_name, suggested_name};
use crate::copy::{CopyPlan, CopyStats, PlanView};
use crate::ui::{dry_run_lines, result_lines, spec_dry_run_lines, spec_result_lines, spec_stats_line, stats_line};
use crate::path::{is_plain_name, join, lemma_file_name_of_join, lemma_parent_of_join, parent, spec_file_name, spec_join, spec_parent};
use crate::text::{cat, decimal, lemma_decimal_injective, own, str_eq, u64_to_decimal};

verus! {

/// The command given on the command line.
pub enum Command {
    /// `duplicate` (also when no command is given), with its arguments.
    Duplicate(Vec<String>),
    /// `help`, `--help` or `-h`.
    Help,
    /// Anything else.
    Unknown(String),
}

/// The mathematical content of a `Command`.
pub enum CommandView {
    Duplicate(Seq<Seq<char>>),
    Help,
    Unknown(Seq<char>),
}

impl View for Command {
    type V = CommandView;

    open spec fn view(&self) -> CommandView {
        match self {
            Command::Duplicate(rest) => CommandView::Duplicate(rest.deep_view()),
            Command::Help => CommandView::Help,
            Command::Unknown(c) => CommandView::Unknown(c@),
        }
    }
}

/// The command that the arguments (without the program name) select.
pub open spec fn spec_parse_command(args: Seq<Seq<char>>) -> CommandView {
    if args.len() == 0 {
        CommandView::Duplicate(args)
    } else if args[0] == "duplicate"@ {
        CommandView::Duplicate(args.drop_first())
    } else if args[0] == "help"@ || args[0] == "--help"@ || args[0] == "-h"@ {
        CommandView::Help
    } else {
        CommandView::Unknown(args[0])
    }
}

/// No argument selects `duplicate`; a first argument `duplicate` selects it
/// with the rest; each of `help`, `--help` and `-h` selects help; any other
/// first argument is an unknown command.
pub proof fn lemma_command_choice(args: Seq<Seq<char>>)
    ensures
        args.len() == 0 ==> spec_parse_command(args) == CommandView::Duplicate(args),
        args.len() > 0 && args[0] == "duplicate"@ ==> spec_parse_command(args)
            == CommandView::Duplicate(args.subrange(1, args.len() as int)),
        args.len() > 0 && (args[0] == "help"@ || args[0] == "--help"@ || args[0] == "-h"@)
            ==> spec_parse_command(args) == CommandView::Help,
        args.len() > 0 && args[0] != "duplicate"@ && args[0] != "help"@ && args[0] != "--help"@
            && args[0] != "-h"@ ==> spec_parse_command(args) == CommandView::Unknown(args[0]),
{
    reveal_strlit("duplicate");
    reveal_strlit("help");
    reveal_strlit("--help");
    reveal_strlit("-h");
    assert("duplicate"@.len() != "help"@.len());
    assert("duplicate"@.len() != "--help"@.len());
    assert("duplicate"@.len() != "-h"@.len());
    if args.len() > 0 && args[0] == "duplicate"@ {
        assert(args.drop_first() =~= args.subrange(1, args.len() as int));
    }
}

/// Picks the command from the arguments (without the program name).
pub fn parse_command(args: &Vec<String>) -> (c: Command)
    ensures
        c@ == spec_parse_command(args.deep_view()),
{
    if args.len() == 0 {
        let empty: Vec<String> = Vec::new();
        assert(empty.deep_view() =~= args.deep_view());
        return Command::Duplicate(empty);
    }
    let first = args[0].as_str();
    if str_eq(first, "duplicate") {
        let mut rest: Vec<String> = Vec::new();
        let mut i: usize = 1;
        while i < args.len()
            invariant
                1 <= i <= args.len(),
                rest.deep_view() =~= args.deep_view().subrange(1, i as int),
            decreases args.len() - i,
        {
            let ghost before = rest.deep_view();
            rest.push(own(args[i].as_str()));
            assert(rest.deep_view() =~= before.push(args[i as int]@));
            assert(args.deep_view().subrange(1, i + 1) =~= args.deep_view().subrange(1, i as int).push(args[i as int]@));
            i = i + 1;
        }
        assert(rest.deep_view() =~= args.deep_view().drop_first());
        Command::Duplicate(rest)
    } else if str_eq(first, "help") || str_eq(first, "--help") || str_eq(first, "-h") {
        Command::Help
    } else {
        Command::Unknown(own(first))
    }
}

/// The options of `duplicate`.
pub struct DuplicateOptions {
    pub yes: bool,
    pub dry_run: bool,
    pub name: Option<String>,
}

/// The mathematical content of `DuplicateOptions`.
pub struct OptionsView {
    pub yes: bool,
    pub dry_run: bool,
    pub name: Option<Seq<char>>,
}

impl View for DuplicateOptions {
    type V = OptionsView;

    open spec fn view(&self) -> OptionsView {
        OptionsView { yes: self.yes, dry_run: self.dry_run, name: opt_view(self.name) }
    }
}

/// Reads the remaining arguments on top of `opts`: `--yes`/`-y`,
/// `--dry-run`/`-n`, and `--name` followed by its value; the last `--name`
/// wins; anything else is refused.
pub open spec fn spec_parse_options(args: Seq<Seq<char>>, opts: OptionsView) -> Result<
    OptionsView,
    Seq<char>,
>
    decreases args.len(),
{
    if args.len() == 0 {
        Ok(opts)
    } else if args[0] == "--yes"@ || args[0] == "-y"@ {
        spec_parse_options(
            args.drop_first(),
            OptionsView { yes: true, dry_run: opts.dry_run, name: opts.name },
        )
    } else if args[0] == "--dry-run"@ || args[0] == "-n"@ {
        spec_parse_options(
            args.drop_first(),
            OptionsView { yes: opts.yes, dry_run: true, name: opts.name },
        )
    } else if args[0] == "--name"@ {
        if args.len() < 2 {
            Err("--name requires a value"@)
        } else {
            spec_parse_options(
                args.subrange(2, args.len() as int),
                OptionsView { yes: opts.yes, dry_run: opts.dry_run, name: Some(args[1]) },
            )
        }
    } else {
        Err("unknown option: "@ + args[0])
    }
}

/// The options that no argument has set.
pub open spec fn no_options() -> OptionsView {
    OptionsView { yes: false, dry_run: false, name: None }
}

/// The view of the options read, or of the refusal.
pub open spec fn options_result_view(r: Result<DuplicateOptions, String>) -> Result<
    OptionsView,
    Seq<char>,
> {
    match r {
        Ok(o) => Ok(o@),
        Err(e) => Err(e@),
    }
}

/// Reads the arguments of `duplicate`.
pub fn parse_duplicate_args(args: &Vec<String>) -> (r: Result<DuplicateOptions, String>)
    ensures
        options_result_view(r) == spec_parse_options(args.deep_view(), no_options()),
{
    let mut opts = DuplicateOptions { yes: false, dry_run: false, name: None };
    let mut i: usize = 0;
    let ghost all = args.deep_view();
    assert(all.subrange(0, all.len() as int) =~= all);
    while i < args.len()
        invariant
            i <= args.len(),
            all == args.deep_view(),
            spec_parse_options(all, no_options()) == spec_parse_options(
                all.subrange(i as int, all.len() as int),
                opts@,
            ),
        decreases args.len() - i,
    {
        let ghost rest = all.subrange(i as int, all.len() as int);
        let a = args[i].as_str();
        assert(rest[0] == a@);
        if str_eq(a, "--yes") || str_eq(a, "-y") {
            opts.yes = true;
            assert(rest.drop_first() =~= all.subrange(i + 1, all.len() as int));
            i = i + 1;
        } else if str_eq(a, "--dry-run") || str_eq(a, "-n") {
            opts.dry_run = true;
            assert(rest.drop_first() =~= all.subrange(i + 1, all.len() as int));
            i = i + 1;
        } else if str_eq(a, "--name") {
            if i + 1 >= args.len() {
                return Err(own("--name requires a value"));
            }
            opts.name = Some(own(args[i + 1].as_str()));
            assert(rest[1] == args[i + 1 as int]@);
            assert(rest.subrange(2, rest.len() as int) =~= all.subrange(i + 2, all.len() as int));
            i = i + 2;
        } else {
            return Err(cat("unknown option: ", a));
        }
    }
    assert(all.subrange(i as int, all.len() as int) =~= Seq::<Seq<char>>::empty());
    Ok(opts)
}

/// The target of a copy: `new_name` next to `source`, in its parent
/// directory, or in `.` when `source` has no parent.
pub open spec fn spec_sibling_dest(source: Seq<char>, new_name: Seq<char>) -> Seq<char> {
    spec_join(
        match spec_parent(source) {
            Some(p) => p,
            None => "."@,
        },
        new_name,
    )
}

/// Where the copy named `new_name` of `source` goes.
pub fn sibling_dest(source: &str, new_name: &str) -> (r: String)
    ensures
        r@ == spec_sibling_dest(source@, new_name@),
{
    let p = match parent(source) {
        Some(p) => p,
        None => own("."),
    };
    join(p.as_str(), new_name)
}

/// The `n`-th alternative name, tried when the default target is taken:
/// folder name, suffix, `-` and `n`.
pub open spec fn spec_candidate_name(base: Seq<char>, suffix: Seq<char>, n: nat) -> Seq<char> {
    base + suffix + "-"@ + decimal(n)
}

/// The alternative name with number `n` (`workspace-copy-2`, `-3`, …).
pub fn candidate_name(base: &str, suffix: &str, n: u64) -> (r: String)
    ensures
        r@ == spec_candidate_name(base@, suffix@, n as nat),
{
    let mut r = cat(base, suffix);
    r.append("-");
    r.append(u64_to_decimal(n).as_str());
    r
}

/// The first name proposed for the copy: the one given with `--name`, else
/// the suggested one.
pub open spec fn spec_initial_name(
    name_override: Option<Seq<char>>,
    source: Seq<char>,
    suffix: Seq<char>,
) -> Seq<char> {
    match name_override {
        Some(n) => n,
        None => spec_suggested_name(source, suffix),
    }
}

/// The first name proposed for the copy of `source`.
pub fn initial_name(name_override: Option<String>, source: &str, suffix: &str) -> (r: String)
    ensures
        r@ == spec_initial_name(opt_view(name_override), source@, suffix@),
{
    match name_override {
        Some(n) => n,
        None => suggested_name(source, suffix),
    }
}

/// The plan that copies `source` next to itself under `label`.
pub open spec fn spec_make_plan(
    source: Seq<char>,
    label: Seq<char>,
    exclude: Seq<Seq<char>>,
    include_git: bool,
) -> PlanView {
    PlanView {
        source: source,
        dest: spec_sibling_dest(source, label),
        label: label,
        exclude: exclude,
        include_git: include_git,
    }
}

/// Builds the plan that copies `source` next to itself under `label`.
pub fn make_plan(source: &str, label: &str, exclude: Vec<String>, include_git: bool) -> (plan:
    CopyPlan)
    ensures
        plan@ == spec_make_plan(source@, label@, exclude.deep_view(), include_git),
{
    CopyPlan {
        source: own(source),
        dest: sibling_dest(source, label),
        label: own(label),
        exclude: exclude,
        include_git: include_git,
    }
}


/// Different numbers give different alternative names, so the search for a
/// free target never proposes the same name twice.
pub proof fn lemma_candidate_names_distinct(base: Seq<char>, suffix: Seq<char>, n: nat, m: nat)
    requires
        n != m,
    ensures
        spec_candidate_name(base, suffix, n) != spec_candidate_name(base, suffix, m),
{
    let head = base + suffix + "-"@;
    if spec_candidate_name(base, suffix, n) == spec_candidate_name(base, suffix, m) {
        let a = spec_candidate_name(base, suffix, n);
        let b = spec_candidate_name(base, suffix, m);
        assert(a.subrange(head.len() as int, a.len() as int) =~= decimal(n));
        assert(b.subrange(head.len() as int, b.len() as int) =~= decimal(m));
        lemma_decimal_injective(n, m);
    }
}


/// A copy named with a plain name lands in a folder of exactly that name,
/// and, when the source has a parent directory, in that same directory.
pub proof fn lemma_copy_folder_name(source: Seq<char>, new_name: Seq<char>)
    requires
        is_plain_name(new_name),
    ensures
        spec_file_name(spec_sibling_dest(source, new_name)) == Some(new_name),
        spec_parent(source) is Some ==> spec_parent(spec_sibling_dest(source, new_name))
            == spec_parent(source),
{
    if spec_parent(source) is Some {
        lemma_parent_of_join(source, new_name);
    }
    lemma_file_name_of_join(
        match spec_parent(source) {
            Some(p) => p,
            None => "."@,
        },
        new_name,
    );
}


/// What has just happened in a `duplicate` run.
pub enum DuplicateEvent {
    /// The plan was checked, with the outcome.
    Validated(Result<(), String>),
    /// The user answered "Proceed with copy & open workspace?".
    Answered(bool),
    /// The copy finished, with its counters or the failure message.
    Copied(Result<CopyStats, String>),
    /// The workspace was created, with its id or the failure message.
    Created(Result<String, String>),
}

/// The mathematical content of a `DuplicateEvent`.
pub enum EventView {
    Validated(Result<(), Seq<char>>),
    Answered(bool),
    Copied(Result<CopyStats, Seq<char>>),
    Created(Result<Seq<char>, Seq<char>>),
}

impl View for DuplicateEvent {
    type V = EventView;

    open spec fn view(&self) -> EventView {
        match self {
            DuplicateEvent::Validated(r) => EventView::Validated(
                match r {
                    Ok(()) => Ok(()),
                    Err(e) => Err(e@),
                },
            ),
            DuplicateEvent::Answered(b) => EventView::Answered(*b),
            DuplicateEvent::Copied(r) => EventView::Copied(
                match r {
                    Ok(st) => Ok(*st),
                    Err(e) => Err(e@),
                },
            ),
            DuplicateEvent::Created(r) => EventView::Created(
                match r {
                    Ok(id) => Ok(id@),
                    Err(e) => Err(e@),
                },
            ),
        }
    }
}

/// What a `duplicate` run does next.
pub enum DuplicateAction {
    /// Ask whether to proceed; the answer comes back as `Answered`.
    AskProceed,
    /// Copy the folder; the outcome comes back as `Copied`.
    Copy,
    /// Show the counters line, then create the workspace; the outcome comes
    /// back as `Created`.
    CreateWorkspace(String),
    /// Show these lines and end the run with this outcome.
    Finish(Vec<String>, Result<(), String>),
}

/// The mathematical content of a `DuplicateAction`.
pub enum ActionView {
    AskProceed,
    Copy,
    CreateWorkspace(Seq<char>),
    Finish(Seq<Seq<char>>, Result<(), Seq<char>>),
}

impl View for DuplicateAction {
    type V = ActionView;

    open spec fn view(&self) -> ActionView {
        match self {
            DuplicateAction::AskProceed => ActionView::AskProceed,
            DuplicateAction::Copy => ActionView::Copy,
            DuplicateAction::CreateWorkspace(s) => ActionView::CreateWorkspace(s@),
            DuplicateAction::Finish(lines, r) => ActionView::Finish(
                lines.deep_view(),
                match r {
                    Ok(()) => Ok(()),
                    Err(e) => Err(e@),
                },
            ),
        }
    }
}

/// The line shown when the user declines.
pub open spec fn cancelled_line() -> Seq<char> {
    "Cancelled. Nothing copied."@
}

/// The next action of a `duplicate` run: a refused plan, a failed copy and a
/// failed creation end the run with their message; a dry run shows what it
/// would do and ends; otherwise the user is asked unless `--yes` was given,
/// a declined answer cancels, and a copy is followed by the creation of the
/// workspace, whose id is then reported.
pub open spec fn spec_duplicate_step(opts: OptionsView, plan: PlanView, event: EventView) -> ActionView {
    match event {
        EventView::Validated(Err(e)) => ActionView::Finish(Seq::empty(), Err(e)),
        _ => if opts.dry_run {
            ActionView::Finish(spec_dry_run_lines(plan), Ok(()))
        } else {
            match event {
                EventView::Validated(Ok(())) => if opts.yes {
                    ActionView::Copy
                } else {
                    ActionView::AskProceed
                },
                EventView::Answered(proceed) => if proceed {
                    ActionView::Copy
                } else {
                    ActionView::Finish(seq![cancelled_line()], Ok(()))
                },
                EventView::Copied(Ok(stats)) => ActionView::CreateWorkspace(spec_stats_line(stats)),
                EventView::Copied(Err(e)) => ActionView::Finish(Seq::empty(), Err(e)),
                EventView::Created(Ok(id)) => ActionView::Finish(
                    spec_result_lines(id, plan.source, plan.dest),
                    Ok(()),
                ),
                EventView::Created(Err(e)) => ActionView::Finish(Seq::empty(), Err(e)),
                EventView::Validated(Err(e)) => ActionView::Finish(Seq::empty(), Err(e)),
            }
        },
    }
}

/// Decides the next action of a `duplicate` run after `event`.
pub fn duplicate_step(opts: &DuplicateOptions, plan: &CopyPlan, event: DuplicateEvent) -> (a:
    DuplicateAction)
    ensures
        a@ == spec_duplicate_step(opts@, plan@, event@),
{
    if let DuplicateEvent::Validated(Err(e)) = event {
        let empty: Vec<String> = Vec::new();
        assert(empty.deep_view() =~= Seq::<Seq<char>>::empty());
        return DuplicateAction::Finish(empty, Err(e));
    }
    if opts.dry_run {
        return DuplicateAction::Finish(dry_run_lines(plan), Ok(()));
    }
    let empty: Vec<String> = Vec::new();
    assert(empty.deep_view() =~= Seq::<Seq<char>>::empty());
    match event {
        DuplicateEvent::Validated(_) => if opts.yes {
            DuplicateAction::Copy
        } else {
            DuplicateAction::AskProceed
        },
        DuplicateEvent::Answered(proceed) => if proceed {
            DuplicateAction::Copy
        } else {
            let mut lines: Vec<String> = Vec::new();
            lines.push(own("Cancelled. Nothing copied."));
            assert(lines.deep_view() =~= seq![cancelled_line()]);
            DuplicateAction::Finish(lines, Ok(()))
        },
        DuplicateEvent::Copied(Ok(stats)) => DuplicateAction::CreateWorkspace(stats_line(&stats)),
        DuplicateEvent::Copied(Err(e)) => DuplicateAction::Finish(empty, Err(e)),
        DuplicateEvent::Created(Ok(id)) => DuplicateAction::Finish(
            result_lines(id.as_str(), plan.source.as_str(), plan.dest.as_str()),
            Ok(()),
        ),
        DuplicateEvent::Created(Err(e)) => DuplicateAction::Finish(empty, Err(e)),
    }
}

/// A dry run never copies and never creates a workspace, whatever happens.
pub proof fn lemma_dry_run_copies_nothing(opts: OptionsView, plan: PlanView, event: EventView)
    requires
        opts.dry_run,
    ensures
        !(spec_duplicate_step(opts, plan, event) is Copy),
        !(spec_duplicate_step(opts, plan, event) is CreateWorkspace),
        !(spec_duplicate_step(opts, plan, event) is AskProceed),
{
}

/// A refused plan ends the run with the refusal.
pub proof fn lemma_refused_plan_ends(opts: OptionsView, plan: PlanView, e: Seq<char>)
    ensures
        spec_duplicate_step(opts, plan, EventView::Validated(Err(e))) == ActionView::Finish(
            Seq::empty(),
            Err::<(), Seq<char>>(e),
        ),
{
}

/// The workspace is created only right after a copy that succeeded, outside
/// a dry run; a declined answer, a refused plan or a failed copy never lead
/// to it.
pub proof fn lemma_workspace_only_after_copy(opts: OptionsView, plan: PlanView, event: EventView)
    ensures
        spec_duplicate_step(opts, plan, event) is CreateWorkspace ==> !opts.dry_run
            && event matches EventView::Copied(Ok(_)),
        event == EventView::Answered(false) ==> !(spec_duplicate_step(opts, plan, event) is Copy)
            && !(spec_duplicate_step(opts, plan, event) is CreateWorkspace),
{
}

/// The folder is copied only outside a dry run, and only after a plan was
/// accepted with `--yes` or after the user agreed; `--yes` never asks.
pub proof fn lemma_copy_only_when_agreed(opts: OptionsView, plan: PlanView, event: EventView)
    ensures
        spec_duplicate_step(opts, plan, event) is Copy ==> !opts.dry_run && ((opts.yes
            && event matches EventView::Validated(Ok(_))) || event == EventView::Answered(true)),
        opts.yes ==> !(spec_duplicate_step(opts, plan, event) is AskProceed),
{
}


/// The target of a copy of an absolute folder that has a parent is absolute.
pub proof fn lemma_target_absolute(source: Seq<char>, new_name: Seq<char>)
    requires
        crate::path::has_root(source),
        spec_parent(source) is Some,
    ensures
        crate::path::has_root(spec_sibling_dest(source, new_name)),
{
    let b = crate::path::body_start(source);
    let n = source.len() as int;
    crate::path::lemma_last_segment_bounds(source, b, n);
    let last = crate::path::last_segment(source, b, n);
    if last is Some {
        crate::path::lemma_last_segment_bounds(source, b, last.unwrap().0);
    }
    let q = spec_parent(source).unwrap();
    assert(q.len() >= 1 && q[0] == '/');
    let d = spec_sibling_dest(source, new_name);
    if !crate::path::has_root(new_name) {
        if q.last() != '/' {
            assert(d[0] == (q + seq!['/'] + new_name)[0]);
        } else {
            assert(d[0] == (q + new_name)[0]);
        }
    }
}

/// The search for the name of the copy. With `--name`, or when the user can
/// be asked, the first name stands; otherwise, while the target of the
/// current name is taken, the next alternative name (`…-2`, `…-3`, …) is
/// tried.
pub struct NameSearch {
    source: String,
    base: String,
    suffix: String,
    next: u64,
    candidate: String,
    active: bool,
}

/// The mathematical content of a `NameSearch`.
pub struct SearchView {
    pub source: Seq<char>,
    pub base: Seq<char>,
    pub suffix: Seq<char>,
    pub next: nat,
    pub candidate: Seq<char>,
    pub active: bool,
}

impl View for NameSearch {
    type V = SearchView;

    closed spec fn view(&self) -> SearchView {
        SearchView {
            source: self.source@,
            base: self.base@,
            suffix: self.suffix@,
            next: self.next as nat,
            candidate: self.candidate@,
            active: self.active,
        }
    }
}

/// The name proposed after `k` taken targets: the first name, then the
/// alternative names numbered from 2.
pub open spec fn spec_proposal(first: Seq<char>, base: Seq<char>, suffix: Seq<char>, k: nat) -> Seq<
    char,
> {
    if k == 0 {
        first
    } else {
        spec_candidate_name(base, suffix, k + 1)
    }
}

impl NameSearch {
    /// Starts the search for `source`: it searches only without `--name` and
    /// when running as a plugin action, which cannot ask for a name.
    pub fn start(name_override: Option<String>, source: &str, suffix: &str, as_plugin: bool) -> (s:
        NameSearch)
        ensures
            s@.source == source@,
            s@.base == spec_base_name(source@),
            s@.suffix == suffix@,
            s@.next == 2,
            s@.candidate == spec_initial_name(opt_view(name_override), source@, suffix@),
            s@.active == (name_override is None && as_plugin),
    {
        let active = name_override.is_none() && as_plugin;
        NameSearch {
            source: own(source),
            base: folder_base_name(source),
            suffix: own(suffix),
            next: 2,
            candidate: initial_name(name_override, source, suffix),
            active,
        }
    }

    /// The target whose existence decides whether to go on, while searching.
    pub fn probe(&self) -> (r: Option<String>)
        ensures
            match r {
                Some(t) => self@.active && t@ == spec_sibling_dest(self@.source, self@.candidate),
                None => !self@.active,
            },
    {
        if self.active {
            Some(sibling_dest(self.source.as_str(), self.candidate.as_str()))
        } else {
            None
        }
    }

    /// More alternative names can still be numbered.
    pub fn can_continue(&self) -> (b: bool)
        ensures
            b == (self@.next < u64::MAX),
    {
        self.next < u64::MAX
    }

    /// The probed target is taken: move on to the next alternative name.
    pub fn taken(&mut self)
        requires
            old(self)@.next < u64::MAX,
        ensures
            final(self)@.candidate == spec_candidate_name(old(self)@.base, old(self)@.suffix, old(self)@.next),
            final(self)@.next == old(self)@.next + 1,
            final(self)@.source == old(self)@.source,
            final(self)@.base == old(self)@.base,
            final(self)@.suffix == old(self)@.suffix,
            final(self)@.active == old(self)@.active,
    {
        self.candidate = candidate_name(self.base.as_str(), self.suffix.as_str(), self.next);
        self.next = self.next + 1;
    }

    /// The name the search settled on.
    pub fn name(self) -> (r: String)
        ensures
            r@ == self@.candidate,
    {
        self.candidate
    }
}

/// After `k` taken targets the search proposes the `k`-th proposal and
/// numbers the next one `k + 2`; so it settles on the first proposal whose
/// target is free, and never proposes a name twice.
pub proof fn lemma_search_proposals(first: Seq<char>, s: SearchView, k: nat)
    requires
        s.candidate == spec_proposal(first, s.base, s.suffix, k),
        s.next == k + 2,
    ensures
        spec_candidate_name(s.base, s.suffix, s.next) == spec_proposal(first, s.base, s.suffix, k + 1),
        forall|j: nat| 1 <= j <= k ==> spec_proposal(first, s.base, s.suffix, j) != spec_candidate_name(
            s.base,
            s.suffix,
            s.next,
        ),
{
    assert forall|j: nat| 1 <= j <= k implies spec_proposal(first, s.base, s.suffix, j)
        != spec_candidate_name(s.base, s.suffix, s.next) by {
        lemma_candidate_names_distinct(s.base, s.suffix, j + 1, s.next);
    }
}

} // verus!
