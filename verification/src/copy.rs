//! The copy plan: which folder is copied where, what is skipped, when a plan
//! is refused, how each directory entry is handled and what is counted.

use vstd::prelude::*;

use crate::context::opt_view;
use crate::path::{join, parent, spec_join, spec_parent, spec_starts_with, starts_with, strip_leading_separators, strip_leading_seps};
use crate::text::{all_ws, cat, is_blank, lemma_trim_empty_iff_all_ws, own, str_eq, trim};

verus! {

/// What is copied, to where, under which workspace label, and what is skipped.
#[derive(Debug, Clone)]
pub struct CopyPlan {
    pub source: String,
    pub dest: String,
    pub label: String,
    pub exclude: Vec<String>,
    pub include_git: bool,
}

/// The mathematical content of a `CopyPlan`.
pub struct PlanView {
    pub source: Seq<char>,
    pub dest: Seq<char>,
    pub label: Seq<char>,
    pub exclude: Seq<Seq<char>>,
    pub include_git: bool,
}

impl View for CopyPlan {
    type V = PlanView;

    open spec fn view(&self) -> PlanView {
        PlanView {
            source: self.source@,
            dest: self.dest@,
            label: self.label@,
            exclude: self.exclude.deep_view(),
            include_git: self.include_git,
        }
    }
}

/// Counters of a copy.
#[derive(Debug)]
pub struct CopyStats {
    pub files_copied: u64,
    pub dirs_created: u64,
    pub bytes_copied: u64,
    pub skipped_entries: u64,
}

/// An entry name is skipped: `.git` when `.git` is not copied, any other name
/// when the plan lists it.
pub open spec fn spec_is_excluded(name: Seq<char>, plan: PlanView) -> bool {
    if name == ".git"@ {
        !plan.include_git
    } else {
        plan.exclude.contains(name)
    }
}

/// Whether the directory entry `name` is left out of the copy.
pub fn is_excluded(name: &str, plan: &CopyPlan) -> (b: bool)
    ensures
        b == spec_is_excluded(name@, plan@),
{
    if str_eq(name, ".git") {
        return !plan.include_git;
    }
    let mut i: usize = 0;
    while i < plan.exclude.len()
        invariant
            i <= plan.exclude.len(),
            name@ != ".git"@,
            forall|j: int| 0 <= j < i ==> #[trigger] plan.exclude.deep_view()[j] != name@,
        decreases plan.exclude.len() - i,
    {
        if str_eq(plan.exclude[i].as_str(), name) {
            assert(plan.exclude.deep_view()[i as int] == name@);
            assert(plan@.exclude.contains(name@));
            return true;
        }
        i = i + 1;
    }
    false
}

/// The nearest ancestor of the absolute target that exists: the target's
/// first `prefix_len` characters name it, and `canonical` is its canonical
/// form (links and `.`/`..` resolved).
pub struct DestAnchor {
    pub prefix_len: usize,
    pub canonical: String,
}

/// What the file system says about the paths of a plan, read just before the
/// plan is checked. A source that is a directory exists.
pub struct FsProbe {
    source_exists: bool,
    source_is_dir: bool,
    dest_exists: bool,
    source_canonical: Option<String>,
    current_dir: Option<String>,
    dest_anchor: Option<DestAnchor>,
}

/// The mathematical content of an `FsProbe`.
pub struct ProbeView {
    /// `plan.source` exists.
    pub source_exists: bool,
    /// `plan.source` is a directory.
    pub source_is_dir: bool,
    /// `plan.dest` exists.
    pub dest_exists: bool,
    /// The canonical form of `plan.source`, when it can be resolved.
    pub source_canonical: Option<Seq<char>>,
    /// The current directory, when it can be read.
    pub current_dir: Option<Seq<char>>,
    /// The nearest existing ancestor of the absolute target, when one resolves.
    pub dest_anchor: Option<(nat, Seq<char>)>,
}

impl View for FsProbe {
    type V = ProbeView;

    closed spec fn view(&self) -> ProbeView {
        ProbeView {
            source_exists: self.source_exists,
            source_is_dir: self.source_is_dir,
            dest_exists: self.dest_exists,
            source_canonical: opt_view(self.source_canonical),
            current_dir: opt_view(self.current_dir),
            dest_anchor: match self.dest_anchor {
                Some(a) => Some((a.prefix_len as nat, a.canonical@)),
                None => None,
            },
        }
    }
}

impl FsProbe {
    #[verifier::type_invariant]
    spec fn directory_exists(self) -> bool {
        self.source_is_dir ==> self.source_exists
    }

    /// Records the readings; a source counts as a directory only when it
    /// was also found to exist.
    pub fn new(
        source_exists: bool,
        source_is_dir: bool,
        dest_exists: bool,
        source_canonical: Option<String>,
        current_dir: Option<String>,
        dest_anchor: Option<DestAnchor>,
    ) -> (p: FsProbe)
        ensures
            p@.source_exists == source_exists,
            p@.source_is_dir == (source_exists && source_is_dir),
            p@.dest_exists == dest_exists,
            p@.source_canonical == opt_view(source_canonical),
            p@.current_dir == opt_view(current_dir),
            p@.dest_anchor == match dest_anchor {
                Some(a) => Some((a.prefix_len as nat, a.canonical@)),
                None => None,
            },
    {
        FsProbe {
            source_exists,
            source_is_dir: source_exists && source_is_dir,
            dest_exists,
            source_canonical,
            current_dir,
            dest_anchor,
        }
    }

    /// A source that is a directory exists.
    pub fn source_is_dir_implies_exists(&self)
        ensures
            self@.source_is_dir ==> self@.source_exists,
    {
        proof {
            use_type_invariant(self);
        }
    }
}

/// The source as compared: its canonical form when it resolves.
pub open spec fn spec_source_abs(plan: PlanView, probe: ProbeView) -> Seq<char> {
    match probe.source_canonical {
        Some(c) => c,
        None => plan.source,
    }
}

/// The target as an absolute path: read from the current directory when it
/// is relative and the current directory is known.
pub open spec fn spec_target_abs(plan: PlanView, probe: ProbeView) -> Seq<char> {
    match probe.current_dir {
        Some(cwd) => crate::path::spec_absolute(plan.dest, cwd),
        None => plan.dest,
    }
}

/// The target as compared: the canonical form of its nearest existing
/// ancestor followed by the components below it, or the absolute target when
/// no ancestor resolves.
pub open spec fn spec_dest_abs(plan: PlanView, probe: ProbeView) -> Seq<char> {
    let t = spec_target_abs(plan, probe);
    match probe.dest_anchor {
        Some(a) => if a.0 <= t.len() {
            spec_join(a.1, strip_leading_seps(t.subrange(a.0 as int, t.len() as int)))
        } else {
            t
        },
        None => t,
    }
}

/// When a plan is refused, and with which message, checked in this order:
/// a missing source, a source that is no directory, an existing target, a
/// target without parent, a target inside the source, a blank label.
pub open spec fn spec_validate(plan: PlanView, probe: ProbeView) -> Result<(), Seq<char>> {
    if !probe.source_exists {
        Err("source does not exist: "@ + plan.source)
    } else if !probe.source_is_dir {
        Err("source is not a directory: "@ + plan.source)
    } else if probe.dest_exists {
        Err("target already exists: "@ + plan.dest)
    } else if spec_parent(plan.dest) is None {
        Err("target has no parent directory"@)
    } else if spec_starts_with(spec_dest_abs(plan, probe), spec_source_abs(plan, probe)) {
        Err(
            "target "@ + spec_dest_abs(plan, probe) + " is inside source "@ + spec_source_abs(
                plan,
                probe,
            ) + "; refusing recursive copy"@,
        )
    } else if trim(plan.label).len() == 0 {
        Err("label must not be empty"@)
    } else {
        Ok(())
    }
}

/// The view of a result that carries a message on failure.
pub open spec fn unit_result_view(r: Result<(), String>) -> Result<(), Seq<char>> {
    match r {
        Ok(()) => Ok(()),
        Err(e) => Err(e@),
    }
}

/// The target of `plan` as an absolute path, read from `current_dir`.
pub fn target_abs(plan: &CopyPlan, current_dir: &Option<String>) -> (r: String)
    ensures
        match current_dir {
            Some(cwd) => r@ == crate::path::spec_absolute(plan.dest@, cwd@),
            None => r@ == plan.dest@,
        },
{
    match current_dir {
        Some(cwd) => crate::path::absolute(plan.dest.as_str(), cwd.as_str()),
        None => own(plan.dest.as_str()),
    }
}

/// Checks a plan against what the file system says about its paths.
pub fn validate_plan(plan: &CopyPlan, probe: &FsProbe) -> (r: Result<(), String>)
    ensures
        unit_result_view(r) == spec_validate(plan@, probe@),
{
    if !probe.source_exists {
        return Err(cat("source does not exist: ", plan.source.as_str()));
    }
    if !probe.source_is_dir {
        return Err(cat("source is not a directory: ", plan.source.as_str()));
    }
    if probe.dest_exists {
        return Err(cat("target already exists: ", plan.dest.as_str()));
    }
    let source = match &probe.source_canonical {
        Some(c) => own(c.as_str()),
        None => own(plan.source.as_str()),
    };
    if parent(plan.dest.as_str()).is_none() {
        return Err(own("target has no parent directory"));
    }
    let t = target_abs(plan, &probe.current_dir);
    let dest_abs = match &probe.dest_anchor {
        Some(a) => {
            let n: usize = t.as_str().unicode_len();
            if a.prefix_len <= n {
                let rest = strip_leading_separators(t.as_str().substring_char(a.prefix_len, n));
                join(a.canonical.as_str(), rest.as_str())
            } else {
                t
            }
        },
        None => t,
    };
    if starts_with(dest_abs.as_str(), source.as_str()) {
        let mut msg = cat("target ", dest_abs.as_str());
        msg.append(" is inside source ");
        msg.append(source.as_str());
        msg.append("; refusing recursive copy");
        return Err(msg);
    }
    if is_blank(plan.label.as_str()) {
        return Err(own("label must not be empty"));
    }
    Ok(())
}

/// A path starts with itself.
pub proof fn lemma_starts_with_self(p: Seq<char>)
    ensures
        spec_starts_with(p, p),
{
    let c = crate::path::spec_components(p);
    assert(c.subrange(0, c.len() as int) =~= c);
}

/// A plan is accepted only when the source is an existing directory, the
/// target does not exist yet and has a parent directory, the target (read
/// from the current directory and resolved through its nearest existing
/// ancestor) does not lie inside the canonical source, and the label is not
/// blank.
pub proof fn lemma_accepted_plan(plan: PlanView, probe: ProbeView)
    requires
        spec_validate(plan, probe) is Ok,
    ensures
        probe.source_exists,
        probe.source_is_dir,
        !probe.dest_exists,
        spec_parent(plan.dest) is Some,
        !spec_starts_with(spec_dest_abs(plan, probe), spec_source_abs(plan, probe)),
        !all_ws(plan.label),
{
    lemma_trim_empty_iff_all_ws(plan.label);
}

/// A plan is accepted whenever the source is an existing directory, the
/// target does not exist yet, has a parent directory and does not lie inside
/// the source, and the label has some character that is not white space:
/// only an empty or all-white-space label is refused for its label.
pub proof fn lemma_safe_plan_accepted(plan: PlanView, probe: ProbeView)
    requires
        probe.source_exists,
        probe.source_is_dir,
        !probe.dest_exists,
        spec_parent(plan.dest) is Some,
        !spec_starts_with(spec_dest_abs(plan, probe), spec_source_abs(plan, probe)),
        exists|i: int| 0 <= i < plan.label.len() && !crate::text::is_ws(#[trigger] plan.label[i]),
    ensures
        spec_validate(plan, probe) == Ok::<(), Seq<char>>(()),
{
    lemma_trim_empty_iff_all_ws(plan.label);
}

/// An entry other than `.git` is skipped exactly when one of the excluded
/// names is the whole entry name; `.git` is skipped exactly when `.git` is
/// not copied.
pub proof fn lemma_exclusion_is_exact_name(name: Seq<char>, plan: PlanView)
    ensures
        name != ".git"@ ==> (spec_is_excluded(name, plan) <==> exists|j: int|
            0 <= j < plan.exclude.len() && #[trigger] plan.exclude[j] == name),
        name == ".git"@ ==> (spec_is_excluded(name, plan) <==> !plan.include_git),
{
    if name != ".git"@ {
        if spec_is_excluded(name, plan) {
            let j = choose|j: int| 0 <= j < plan.exclude.len() && plan.exclude[j] == name;
            assert(plan.exclude[j] == name);
        }
        if exists|j: int| 0 <= j < plan.exclude.len() && #[trigger] plan.exclude[j] == name {
            let j = choose|j: int| 0 <= j < plan.exclude.len() && #[trigger] plan.exclude[j] == name;
            assert(plan.exclude.contains(name));
        }
    }
}

/// A copy onto the source itself is refused.
pub proof fn lemma_copy_onto_source_refused(plan: PlanView, probe: ProbeView)
    requires
        spec_dest_abs(plan, probe) == spec_source_abs(plan, probe),
    ensures
        spec_validate(plan, probe) is Err,
{
    lemma_starts_with_self(spec_source_abs(plan, probe));
}

/// The kind of a directory entry, as its file type reports it.
pub struct EntryKind {
    pub is_dir: bool,
    pub is_symlink: bool,
    pub is_file: bool,
}

/// What is done with one directory entry.
pub enum EntryAction {
    /// Left out and counted as skipped.
    Skip,
    /// Created in the target, counted, and walked.
    Descend,
    /// Recreated as a link when it is one, copied otherwise.
    CopyLinkOrFile,
    /// Copied, counted with its size.
    CopyFile,
}

/// The handling of an entry: excluded names and entries of no known kind are
/// skipped; a directory is walked unless it is a link; links are recreated.
pub open spec fn spec_classify(name: Seq<char>, kind: EntryKind, plan: PlanView) -> EntryAction {
    if spec_is_excluded(name, plan) {
        EntryAction::Skip
    } else if kind.is_dir {
        if kind.is_symlink {
            EntryAction::CopyLinkOrFile
        } else {
            EntryAction::Descend
        }
    } else if kind.is_symlink {
        EntryAction::CopyLinkOrFile
    } else if kind.is_file {
        EntryAction::CopyFile
    } else {
        EntryAction::Skip
    }
}

/// Decides what the walk does with the entry `name` of the given kind.
pub fn classify_entry(name: &str, kind: &EntryKind, plan: &CopyPlan) -> (a: EntryAction)
    ensures
        a == spec_classify(name@, *kind, plan@),
{
    if is_excluded(name, plan) {
        EntryAction::Skip
    } else if kind.is_dir {
        if kind.is_symlink {
            EntryAction::CopyLinkOrFile
        } else {
            EntryAction::Descend
        }
    } else if kind.is_symlink {
        EntryAction::CopyLinkOrFile
    } else if kind.is_file {
        EntryAction::CopyFile
    } else {
        EntryAction::Skip
    }
}

/// What happened to one directory entry during the walk.
pub enum EntryOutcome {
    Skipped,
    DirCreated,
    /// A file copied or a link recreated, with the bytes copied when known.
    FileCopied(Option<u64>),
}

/// The counters as numbers: files, directories, bytes, skipped entries.
pub open spec fn counters(s: CopyStats) -> (int, int, int, int) {
    (s.files_copied as int, s.dirs_created as int, s.bytes_copied as int, s.skipped_entries as int)
}

/// The bytes that an outcome adds.
pub open spec fn outcome_bytes(o: EntryOutcome) -> int {
    match o {
        EntryOutcome::FileCopied(Some(b)) => b as int,
        _ => 0,
    }
}

/// The counters after one more outcome.
pub open spec fn record_outcome(c: (int, int, int, int), o: EntryOutcome) -> (int, int, int, int) {
    match o {
        EntryOutcome::Skipped => (c.0, c.1, c.2, c.3 + 1),
        EntryOutcome::DirCreated => (c.0, c.1 + 1, c.2, c.3),
        EntryOutcome::FileCopied(_) => (c.0 + 1, c.1, c.2 + outcome_bytes(o), c.3),
    }
}

/// The counters after a run of outcomes, recorded one after the other.
pub open spec fn record_all(c: (int, int, int, int), os: Seq<EntryOutcome>) -> (int, int, int, int)
    decreases os.len(),
{
    if os.len() == 0 {
        c
    } else {
        record_outcome(record_all(c, os.drop_last()), os.last())
    }
}

/// How many outcomes satisfy `pred`.
pub open spec fn count_of(os: Seq<EntryOutcome>, pred: spec_fn(EntryOutcome) -> bool) -> int
    decreases os.len(),
{
    if os.len() == 0 {
        0
    } else {
        count_of(os.drop_last(), pred) + if pred(os.last()) {
            1int
        } else {
            0int
        }
    }
}

/// The bytes of all outcomes.
pub open spec fn bytes_of(os: Seq<EntryOutcome>) -> int
    decreases os.len(),
{
    if os.len() == 0 {
        0
    } else {
        bytes_of(os.drop_last()) + outcome_bytes(os.last())
    }
}

/// Recording a walk one entry at a time leaves each counter at its start
/// plus the number of entries of its kind (the bytes: plus the sum of the
/// known sizes).
pub proof fn lemma_counters_are_sums(c: (int, int, int, int), os: Seq<EntryOutcome>)
    ensures
        record_all(c, os) == (
            c.0 + count_of(os, |o: EntryOutcome| o is FileCopied),
            c.1 + count_of(os, |o: EntryOutcome| o is DirCreated),
            c.2 + bytes_of(os),
            c.3 + count_of(os, |o: EntryOutcome| o is Skipped),
        ),
    decreases os.len(),
{
    if os.len() > 0 {
        lemma_counters_are_sums(c, os.drop_last());
    }
}

impl CopyStats {
    /// The counters once the target directory itself has been created.
    pub fn for_new_target() -> (s: CopyStats)
        ensures
            s.files_copied == 0,
            s.dirs_created == 1,
            s.bytes_copied == 0,
            s.skipped_entries == 0,
    {
        CopyStats { files_copied: 0, dirs_created: 1, bytes_copied: 0, skipped_entries: 0 }
    }

    /// Counts a skipped entry.
    pub fn record_skipped(&mut self)
        requires
            old(self).skipped_entries < u64::MAX,
        ensures
            counters(*final(self)) == record_outcome(counters(*old(self)), EntryOutcome::Skipped),
            final(self).skipped_entries == old(self).skipped_entries + 1,
            final(self).files_copied == old(self).files_copied,
            final(self).dirs_created == old(self).dirs_created,
            final(self).bytes_copied == old(self).bytes_copied,
    {
        self.skipped_entries = self.skipped_entries + 1;
    }

    /// Counts a created directory.
    pub fn record_dir(&mut self)
        requires
            old(self).dirs_created < u64::MAX,
        ensures
            counters(*final(self)) == record_outcome(counters(*old(self)), EntryOutcome::DirCreated),
            final(self).dirs_created == old(self).dirs_created + 1,
            final(self).files_copied == old(self).files_copied,
            final(self).bytes_copied == old(self).bytes_copied,
            final(self).skipped_entries == old(self).skipped_entries,
    {
        self.dirs_created = self.dirs_created + 1;
    }

    /// Counts a copied file or recreated link, with the bytes copied when
    /// they are known.
    pub fn record_file(&mut self, bytes: Option<u64>)
        requires
            old(self).files_copied < u64::MAX,
            bytes matches Some(b) ==> old(self).bytes_copied + b <= u64::MAX,
        ensures
            counters(*final(self)) == record_outcome(
                counters(*old(self)),
                EntryOutcome::FileCopied(bytes),
            ),
            final(self).files_copied == old(self).files_copied + 1,
            final(self).bytes_copied == old(self).bytes_copied + match bytes {
                Some(b) => b as int,
                None => 0,
            },
            final(self).dirs_created == old(self).dirs_created,
            final(self).skipped_entries == old(self).skipped_entries,
    {
        self.files_copied = self.files_copied + 1;
        if let Some(b) = bytes {
            self.bytes_copied = self.bytes_copied + b;
        }
    }
}


/// A file-system operation of the copy that failed, with the paths involved
/// and the text of the error.
pub enum CopyFailure {
    ReadDir { dir: String, err: String },
    ReadDirEntry { dir: String, err: String },
    FileType { path: String, err: String },
    CreateDir { path: String, err: String },
    CopyFile { from: String, to: String, err: String },
    SymlinkMetadata { path: String, err: String },
    ReadLink { path: String, err: String },
    Remove { path: String, err: String },
    Symlink { link: String, target: String, err: String },
    CopyLinkOrFile { from: String, to: String, err: String },
    CreateParent { path: String, err: String },
    CreateTarget { path: String, err: String },
}

/// The message that reports a failed operation.
pub open spec fn spec_failure_message(f: CopyFailure) -> Seq<char> {
    match f {
        CopyFailure::ReadDir { dir, err } => "read_dir "@ + dir@ + ": "@ + err@,
        CopyFailure::ReadDirEntry { dir, err } => "read_dir entry in "@ + dir@ + ": "@ + err@,
        CopyFailure::FileType { path, err } => "file_type "@ + path@ + ": "@ + err@,
        CopyFailure::CreateDir { path, err } => "create_dir "@ + path@ + ": "@ + err@,
        CopyFailure::CopyFile { from, to, err } => "copy "@ + from@ + " -> "@ + to@ + ": "@ + err@,
        CopyFailure::SymlinkMetadata { path, err } => "symlink_metadata "@ + path@ + ": "@ + err@,
        CopyFailure::ReadLink { path, err } => "read_link "@ + path@ + ": "@ + err@,
        CopyFailure::Remove { path, err } => "remove "@ + path@ + ": "@ + err@,
        CopyFailure::Symlink { link, target, err } => "symlink "@ + link@ + " -> "@ + target@ + ": "@
            + err@,
        CopyFailure::CopyLinkOrFile { from, to, err } => "copy symlink/file "@ + from@ + " -> "@ + to@
            + ": "@ + err@,
        CopyFailure::CreateParent { path, err } => "create parent "@ + path@ + ": "@ + err@,
        CopyFailure::CreateTarget { path, err } => "create target "@ + path@ + ": "@ + err@,
    }
}

fn cat_msg(head: &str, a: &str, err: &str) -> (r: String)
    ensures
        r@ == head@ + a@ + ": "@ + err@,
{
    let mut r = cat(head, a);
    r.append(": ");
    r.append(err);
    r
}

fn cat_msg2(head: &str, a: &str, b: &str, err: &str) -> (r: String)
    ensures
        r@ == head@ + a@ + " -> "@ + b@ + ": "@ + err@,
{
    let mut r = cat(head, a);
    r.append(" -> ");
    r.append(b);
    r.append(": ");
    r.append(err);
    r
}

/// The message that reports a failed operation of the copy.
pub fn failure_message(f: &CopyFailure) -> (r: String)
    ensures
        r@ == spec_failure_message(*f),
{
    match f {
        CopyFailure::ReadDir { dir, err } => cat_msg("read_dir ", dir.as_str(), err.as_str()),
        CopyFailure::ReadDirEntry { dir, err } => cat_msg(
            "read_dir entry in ",
            dir.as_str(),
            err.as_str(),
        ),
        CopyFailure::FileType { path, err } => cat_msg("file_type ", path.as_str(), err.as_str()),
        CopyFailure::CreateDir { path, err } => cat_msg("create_dir ", path.as_str(), err.as_str()),
        CopyFailure::CopyFile { from, to, err } => cat_msg2(
            "copy ",
            from.as_str(),
            to.as_str(),
            err.as_str(),
        ),
        CopyFailure::SymlinkMetadata { path, err } => cat_msg(
            "symlink_metadata ",
            path.as_str(),
            err.as_str(),
        ),
        CopyFailure::ReadLink { path, err } => cat_msg("read_link ", path.as_str(), err.as_str()),
        CopyFailure::Remove { path, err } => cat_msg("remove ", path.as_str(), err.as_str()),
        CopyFailure::Symlink { link, target, err } => cat_msg2(
            "symlink ",
            link.as_str(),
            target.as_str(),
            err.as_str(),
        ),
        CopyFailure::CopyLinkOrFile { from, to, err } => cat_msg2(
            "copy symlink/file ",
            from.as_str(),
            to.as_str(),
            err.as_str(),
        ),
        CopyFailure::CreateParent { path, err } => cat_msg(
            "create parent ",
            path.as_str(),
            err.as_str(),
        ),
        CopyFailure::CreateTarget { path, err } => cat_msg(
            "create target ",
            path.as_str(),
            err.as_str(),
        ),
    }
}

/// The message of a failed copy once the partial target has been removed.
pub fn cleanup_message(err: &str) -> (r: String)
    ensures
        r@ == err@ + " (partial target cleaned up)"@,
{
    cat(err, " (partial target cleaned up)")
}

/// The directory that receives the target of a plan.
pub open spec fn spec_target_parent(plan: PlanView) -> Result<Seq<char>, Seq<char>> {
    match spec_parent(plan.dest) {
        Some(p) => Ok(p),
        None => Err("target has no parent directory"@),
    }
}

/// The directory that receives the target, or the message that it has none.
pub fn target_parent(plan: &CopyPlan) -> (r: Result<String, String>)
    ensures
        match r {
            Ok(p) => spec_target_parent(plan@) == Ok::<Seq<char>, Seq<char>>(p@),
            Err(e) => spec_target_parent(plan@) == Err::<Seq<char>, Seq<char>>(e@),
        },
{
    match parent(plan.dest.as_str()) {
        Some(p) => Ok(p),
        None => Err(own("target has no parent directory")),
    }
}

} // verus!
