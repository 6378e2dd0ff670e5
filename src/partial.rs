//! Partial synchronization: a list of relative subpaths is mirrored from a source prefix
//! to a destination prefix. Every subpath is classified and checked before anything is
//! done; only then are the planned actions carried out, one after the other.

use vstd::prelude::*;
use vstd::string::*;

use crate::paths::{add_trailing_slash, is_absolute, join_path, joined, path_is_absolute, quote, quoted, with_trailing_slash};

verus! {

/// The kind of what a path finally designates, symlinks followed.
#[derive(Clone, Copy, Debug, PartialEq, Eq, Structural)]
pub enum Target {
    Directory,
    File,
    Other,
}

/// What stands at a path itself, symlinks not followed. A symlink carries the kind of
/// its final target, or `None` when the chain of links does not resolve.
#[derive(Clone, Copy, Debug, PartialEq, Eq, Structural)]
pub enum Entry {
    Absent,
    Directory,
    File,
    Other,
    Symlink(Option<Target>),
}

/// The way a destination is reconciled with its source.
#[derive(Clone, Copy, Debug, PartialEq, Eq, Structural)]
pub enum Operation {
    SynchronizeDir,
    RemoveDestFileAndCopyDir,
    CopyFile,
    RemoveDestDirAndCopyFile,
}

#[derive(Clone, Copy, Debug, PartialEq, Eq, Structural)]
pub enum ErrorKind {
    /// A subpath is absolute.
    Absolute,
    /// Nothing could be read at the path, symlinks followed.
    MetadataUnreadable,
    /// A prefix is not a directory.
    NotADirectory,
    /// The destination is a symlink whose chain does not resolve.
    BrokenSymlink,
    /// The destination is a symlink to a file and the source is a directory.
    SymlinkToFile,
    /// The destination is a symlink to a directory and the source is a file.
    SymlinkToDirectory,
}

/// A failure of the planning stage, with the offending path.
#[derive(Clone, Debug)]
pub struct SyncError {
    pub kind: ErrorKind,
    pub path: String,
}

/// What was read on disk for one subpath: the source with symlinks followed (`None`
/// when unreadable) and the destination entry itself.
#[derive(Clone, Copy, Debug)]
pub struct Observation {
    pub src: Option<Target>,
    pub dst: Entry,
}

/// One planned reconciliation.
#[derive(Clone, Debug)]
pub struct Action {
    pub src_path: String,
    pub dst_path: String,
    pub operation: Operation,
}

/// One filesystem change of the execution stage.
#[derive(Clone, Debug, PartialEq, Eq)]
pub enum Step {
    RemoveFile(String),
    RemoveDirectory(String),
    /// Mirror the contents of the first directory (a path with a trailing separator)
    /// into the second, deleting what the source lacks.
    MirrorDirectory(String, String),
    CopyFile(String, String),
}

pub type ActionView = (Seq<char>, Seq<char>, Operation);

pub type ErrorView = (ErrorKind, Seq<char>);

impl View for Action {
    type V = ActionView;

    open spec fn view(&self) -> ActionView {
        (self.src_path@, self.dst_path@, self.operation)
    }
}

impl View for SyncError {
    type V = ErrorView;

    open spec fn view(&self) -> ErrorView {
        (self.kind, self.path@)
    }
}

pub enum StepView {
    RemoveFile(Seq<char>),
    RemoveDirectory(Seq<char>),
    MirrorDirectory(Seq<char>, Seq<char>),
    CopyFile(Seq<char>, Seq<char>),
}

impl View for Step {
    type V = StepView;

    open spec fn view(&self) -> StepView {
        match self {
            Step::RemoveFile(p) => StepView::RemoveFile(p@),
            Step::RemoveDirectory(p) => StepView::RemoveDirectory(p@),
            Step::MirrorDirectory(s, d) => StepView::MirrorDirectory(s@, d@),
            Step::CopyFile(s, d) => StepView::CopyFile(s@, d@),
        }
    }
}

/// How a destination entry is reconciled with a source that is (or is not) a
/// directory, or which kind of error forbids it.
pub open spec fn decision(src_is_dir: bool, dst: Entry) -> Result<Operation, ErrorKind> {
    if src_is_dir {
        match dst {
            Entry::File => Ok(Operation::RemoveDestFileAndCopyDir),
            Entry::Symlink(None) => Err(ErrorKind::BrokenSymlink),
            Entry::Symlink(Some(Target::File)) => Err(ErrorKind::SymlinkToFile),
            _ => Ok(Operation::SynchronizeDir),
        }
    } else {
        match dst {
            Entry::Directory => Ok(Operation::RemoveDestDirAndCopyFile),
            Entry::Symlink(None) => Err(ErrorKind::BrokenSymlink),
            Entry::Symlink(Some(Target::Directory)) => Err(ErrorKind::SymlinkToDirectory),
            _ => Ok(Operation::CopyFile),
        }
    }
}

/// The outcome of planning one subpath.
pub open spec fn subpath_outcome(
    src_prefix: Seq<char>,
    dst_prefix: Seq<char>,
    subpath: Seq<char>,
    o: Observation,
) -> Result<ActionView, ErrorView> {
    let src_path = joined(src_prefix, subpath);
    let dst_path = joined(dst_prefix, subpath);
    match o.src {
        None => Err((ErrorKind::MetadataUnreadable, src_path)),
        Some(t) => match decision(t == Target::Directory, o.dst) {
            Ok(op) => Ok((src_path, dst_path, op)),
            Err(k) => Err((k, dst_path)),
        },
    }
}

/// The plan for the first `n` subpaths: their actions in order, or the first error.
pub open spec fn planned(
    src_prefix: Seq<char>,
    dst_prefix: Seq<char>,
    subpaths: Seq<Seq<char>>,
    obs: Seq<Observation>,
    n: nat,
) -> Result<Seq<ActionView>, ErrorView>
    decreases n,
{
    if n == 0 {
        Ok(Seq::empty())
    } else {
        match planned(src_prefix, dst_prefix, subpaths, obs, (n - 1) as nat) {
            Err(e) => Err(e),
            Ok(acts) => match subpath_outcome(src_prefix, dst_prefix, subpaths[n - 1], obs[n - 1]) {
                Err(e) => Err(e),
                Ok(a) => Ok(acts.push(a)),
            },
        }
    }
}

/// The first absolute subpath among the first `n`.
pub open spec fn first_absolute(subpaths: Seq<Seq<char>>, n: nat) -> Option<Seq<char>>
    decreases n,
{
    if n == 0 {
        None
    } else {
        match first_absolute(subpaths, (n - 1) as nat) {
            Some(p) => Some(p),
            None => if is_absolute(subpaths[n - 1]) {
                Some(subpaths[n - 1])
            } else {
                None
            },
        }
    }
}

/// The check that a prefix is a directory, symlinks followed.
pub open spec fn directory_check(path: Seq<char>, t: Option<Target>) -> Result<(), ErrorView> {
    match t {
        None => Err((ErrorKind::MetadataUnreadable, path)),
        Some(Target::Directory) => Ok(()),
        Some(_) => Err((ErrorKind::NotADirectory, path)),
    }
}

/// The whole planning stage: subpaths must be relative, both prefixes directories,
/// and then every subpath is planned.
pub open spec fn synchronization_plan(
    src_prefix: Seq<char>,
    dst_prefix: Seq<char>,
    src_prefix_target: Option<Target>,
    dst_prefix_target: Option<Target>,
    subpaths: Seq<Seq<char>>,
    obs: Seq<Observation>,
) -> Result<Seq<ActionView>, ErrorView> {
    match first_absolute(subpaths, subpaths.len()) {
        Some(p) => Err((ErrorKind::Absolute, p)),
        None => match directory_check(src_prefix, src_prefix_target) {
            Err(e) => Err(e),
            Ok(_) => match directory_check(dst_prefix, dst_prefix_target) {
                Err(e) => Err(e),
                Ok(_) => planned(src_prefix, dst_prefix, subpaths, obs, subpaths.len()),
            },
        },
    }
}

/// The filesystem changes that carry out one action, in order.
pub open spec fn steps_of(a: ActionView) -> Seq<StepView> {
    let (src, dst, op) = a;
    match op {
        Operation::SynchronizeDir => seq![StepView::MirrorDirectory(with_trailing_slash(src), dst)],
        Operation::RemoveDestFileAndCopyDir => seq![
            StepView::RemoveFile(dst),
            StepView::MirrorDirectory(with_trailing_slash(src), dst),
        ],
        Operation::CopyFile => seq![StepView::CopyFile(src, dst)],
        Operation::RemoveDestDirAndCopyFile => seq![
            StepView::RemoveDirectory(dst),
            StepView::CopyFile(src, dst),
        ],
    }
}

/// The text of an error, around the quoted path.
pub open spec fn error_message(kind: ErrorKind, q: Seq<char>) -> Seq<char> {
    match kind {
        ErrorKind::Absolute => q + " is absolute"@,
        ErrorKind::MetadataUnreadable => "failed to read metadata from "@ + q,
        ErrorKind::NotADirectory => q + " is not a directory"@,
        ErrorKind::BrokenSymlink => q + " is a broken symlink"@,
        ErrorKind::SymlinkToFile => q + " is a symlink whose final target is a file"@,
        ErrorKind::SymlinkToDirectory => q + " is a symlink whose final target is a directory"@,
    }
}

impl SyncError {
    pub fn new(kind: ErrorKind, path: &str) -> (r: SyncError)
        ensures
            r@ == (kind, path@),
    {
        SyncError { kind, path: String::from_str(path) }
    }

    /// A one-line description, naming the quoted path.
    pub fn message(&self) -> (r: String)
        ensures
            r@ == error_message(self.kind, quoted(self.path@)),
    {
        let q = quote(self.path.as_str());
        match self.kind {
            ErrorKind::Absolute => q.concat(" is absolute"),
            ErrorKind::MetadataUnreadable => String::from_str("failed to read metadata from ").concat(
                q.as_str(),
            ),
            ErrorKind::NotADirectory => q.concat(" is not a directory"),
            ErrorKind::BrokenSymlink => q.concat(" is a broken symlink"),
            ErrorKind::SymlinkToFile => q.concat(" is a symlink whose final target is a file"),
            ErrorKind::SymlinkToDirectory => q.concat(
                " is a symlink whose final target is a directory",
            ),
        }
    }
}

/// Fails on an absolute path.
pub fn check_is_relative(path: &str) -> (r: Result<(), SyncError>)
    ensures
        r is Ok <==> !is_absolute(path@),
        r matches Err(e) ==> e@ == (ErrorKind::Absolute, path@),
{
    if path_is_absolute(path) {
        Err(SyncError::new(ErrorKind::Absolute, path))
    } else {
        Ok(())
    }
}

/// Fails unless `target`, what `path` designates with symlinks followed, is a directory.
pub fn check_is_directory(path: &str, target: Option<Target>) -> (r: Result<(), SyncError>)
    ensures
        match directory_check(path@, target) {
            Ok(_) => r is Ok,
            Err(e) => r matches Err(x) && x@ == e,
        },
{
    match target {
        None => Err(SyncError::new(ErrorKind::MetadataUnreadable, path)),
        Some(Target::Directory) => Ok(()),
        Some(_) => Err(SyncError::new(ErrorKind::NotADirectory, path)),
    }
}

/// Decides how the destination entry `dst` at `dst_path` is reconciled with a source
/// that is a directory or not.
pub fn check_dst_path_is_ok(src_is_dir: bool, dst_path: &str, dst: Entry) -> (r: Result<
    Operation,
    SyncError,
>)
    ensures
        match decision(src_is_dir, dst) {
            Ok(op) => r == Ok::<Operation, SyncError>(op),
            Err(k) => r matches Err(e) && e@ == (k, dst_path@),
        },
{
    if src_is_dir {
        match dst {
            Entry::File => Ok(Operation::RemoveDestFileAndCopyDir),
            Entry::Symlink(None) => Err(SyncError::new(ErrorKind::BrokenSymlink, dst_path)),
            Entry::Symlink(Some(Target::File)) => Err(
                SyncError::new(ErrorKind::SymlinkToFile, dst_path),
            ),
            _ => Ok(Operation::SynchronizeDir),
        }
    } else {
        match dst {
            Entry::Directory => Ok(Operation::RemoveDestDirAndCopyFile),
            Entry::Symlink(None) => Err(SyncError::new(ErrorKind::BrokenSymlink, dst_path)),
            Entry::Symlink(Some(Target::Directory)) => Err(
                SyncError::new(ErrorKind::SymlinkToDirectory, dst_path),
            ),
            _ => Ok(Operation::CopyFile),
        }
    }
}

/// Plans one subpath from what was read at its source and destination paths.
pub fn plan_subpath(src_prefix: &str, dst_prefix: &str, subpath: &str, o: Observation) -> (r: Result<
    Action,
    SyncError,
>)
    ensures
        match subpath_outcome(src_prefix@, dst_prefix@, subpath@, o) {
            Ok(a) => r matches Ok(x) && x@ == a,
            Err(e) => r matches Err(x) && x@ == e,
        },
{
    let src_path = join_path(src_prefix, subpath);
    let src_target = match o.src {
        None => {
            return Err(SyncError::new(ErrorKind::MetadataUnreadable, src_path.as_str()));
        },
        Some(t) => t,
    };
    let dst_path = join_path(dst_prefix, subpath);
    let operation = check_dst_path_is_ok(src_target == Target::Directory, dst_path.as_str(), o.dst)?;
    Ok(Action { src_path, dst_path, operation })
}

/// Plans every subpath, in order, and fails on the first one that cannot be
/// reconciled. `observations[i]` is what was read for `subpaths[i]`.
pub fn check_all_synchronizations_seem_possible(
    src_prefix: &str,
    dst_prefix: &str,
    subpaths: &Vec<String>,
    observations: &Vec<Observation>,
) -> (r: Result<Vec<Action>, SyncError>)
    requires
        subpaths.len() == observations.len(),
    ensures
        match planned(src_prefix@, dst_prefix@, subpaths.deep_view(), observations@, subpaths.len() as nat) {
            Ok(acts) => r matches Ok(v) && v@.map_values(|a: Action| a@) == acts,
            Err(e) => r matches Err(x) && x@ == e,
        },
{
    let mut result: Vec<Action> = Vec::new();
    let mut i: usize = 0;
    assert(result@.map_values(|a: Action| a@) =~= Seq::<ActionView>::empty());
    while i < subpaths.len()
        invariant
            i <= subpaths.len(),
            subpaths.len() == observations.len(),
            planned(src_prefix@, dst_prefix@, subpaths.deep_view(), observations@, i as nat)
                == Ok::<Seq<ActionView>, ErrorView>(result@.map_values(|a: Action| a@)),
        decreases subpaths.len() - i,
    {
        let action = plan_subpath(src_prefix, dst_prefix, subpaths[i].as_str(), observations[i]);
        match action {
            Err(e) => {
                proof {
                    assert(subpaths.deep_view()[i as int] == subpaths@[i as int]@);
                    lemma_planned_error_stays(src_prefix@, dst_prefix@, subpaths.deep_view(),
                        observations@, (i + 1) as nat, subpaths.len() as nat);
                }
                return Err(e);
            },
            Ok(a) => {
                proof {
                    assert(subpaths.deep_view()[i as int] == subpaths@[i as int]@);
                }
                let ghost before = result@;
                let ghost av = a@;
                result.push(a);
                assert(result@.map_values(|x: Action| x@) =~= before.map_values(|x: Action| x@).push(
                    av,
                ));
            },
        }
        i = i + 1;
    }
    Ok(result)
}

/// Once the plan of a prefix of the subpaths has failed, longer prefixes fail the same way.
proof fn lemma_planned_error_stays(
    src_prefix: Seq<char>,
    dst_prefix: Seq<char>,
    subpaths: Seq<Seq<char>>,
    obs: Seq<Observation>,
    i: nat,
    n: nat,
)
    requires
        i <= n,
        planned(src_prefix, dst_prefix, subpaths, obs, i) is Err,
    ensures
        planned(src_prefix, dst_prefix, subpaths, obs, n) == planned(
            src_prefix,
            dst_prefix,
            subpaths,
            obs,
            i,
        ),
    decreases n - i,
{
    if i < n {
        lemma_planned_error_stays(src_prefix, dst_prefix, subpaths, obs, i, (n - 1) as nat);
    }
}

/// The planning stage of a partial synchronization: every subpath must be relative,
/// both prefixes must be directories (symlinks followed), and every subpath must be
/// reconcilable. Nothing is changed on disk before this succeeds.
pub fn plan_synchronization(
    src_prefix: &str,
    dst_prefix: &str,
    src_prefix_target: Option<Target>,
    dst_prefix_target: Option<Target>,
    subpaths: &Vec<String>,
    observations: &Vec<Observation>,
) -> (r: Result<Vec<Action>, SyncError>)
    requires
        subpaths.len() == observations.len(),
    ensures
        match synchronization_plan(
            src_prefix@,
            dst_prefix@,
            src_prefix_target,
            dst_prefix_target,
            subpaths.deep_view(),
            observations@,
        ) {
            Ok(acts) => r matches Ok(v) && v@.map_values(|a: Action| a@) == acts,
            Err(e) => r matches Err(x) && x@ == e,
        },
{
    let mut i: usize = 0;
    while i < subpaths.len()
        invariant
            i <= subpaths.len(),
            first_absolute(subpaths.deep_view(), i as nat) is None,
        decreases subpaths.len() - i,
    {
        proof {
            assert(subpaths.deep_view()[i as int] == subpaths@[i as int]@);
        }
        if let Err(e) = check_is_relative(subpaths[i].as_str()) {
            proof {
                lemma_first_absolute_stays(subpaths.deep_view(), (i + 1) as nat, subpaths.len() as nat);
            }
            return Err(e);
        }
        i = i + 1;
    }
    check_is_directory(src_prefix, src_prefix_target)?;
    check_is_directory(dst_prefix, dst_prefix_target)?;
    check_all_synchronizations_seem_possible(src_prefix, dst_prefix, subpaths, observations)
}

/// Once an absolute subpath is found among the first `i`, it stays the first one.
proof fn lemma_first_absolute_stays(subpaths: Seq<Seq<char>>, i: nat, n: nat)
    requires
        i <= n,
        first_absolute(subpaths, i) is Some,
    ensures
        first_absolute(subpaths, n) == first_absolute(subpaths, i),
    decreases n - i,
{
    if i < n {
        lemma_first_absolute_stays(subpaths, i, (n - 1) as nat);
    }
}

/// The filesystem changes that carry out `action`, in order: the conflicting
/// destination is removed first where the operation says so.
pub fn steps(action: &Action) -> (r: Vec<Step>)
    ensures
        r@.map_values(|s: Step| s@) == steps_of(action@),
{
    let src = action.src_path.as_str();
    let dst = action.dst_path.as_str();
    let mut r: Vec<Step> = Vec::new();
    match action.operation {
        Operation::SynchronizeDir | Operation::RemoveDestFileAndCopyDir => {
            if action.operation == Operation::RemoveDestFileAndCopyDir {
                r.push(Step::RemoveFile(String::from_str(dst)));
            }
            r.push(Step::MirrorDirectory(add_trailing_slash(src), String::from_str(dst)));
        },
        Operation::CopyFile | Operation::RemoveDestDirAndCopyFile => {
            if action.operation == Operation::RemoveDestDirAndCopyFile {
                r.push(Step::RemoveDirectory(String::from_str(dst)));
            }
            r.push(Step::CopyFile(String::from_str(src), String::from_str(dst)));
        },
    }
    assert(r@.map_values(|s: Step| s@) =~= steps_of(action@));
    r
}

/// A destination that does not exist yet is created by the plan: a source directory is
/// mirrored there, a source file copied there, and nothing is removed first.
pub proof fn lemma_absent_destination_is_created(
    src_prefix: Seq<char>,
    dst_prefix: Seq<char>,
    subpath: Seq<char>,
    src: Target,
)
    ensures
        ({
            let s = joined(src_prefix, subpath);
            let d = joined(dst_prefix, subpath);
            let o = Observation { src: Some(src), dst: Entry::Absent };
            if src == Target::Directory {
                &&& subpath_outcome(src_prefix, dst_prefix, subpath, o) == Ok::<ActionView, ErrorView>(
                    (s, d, Operation::SynchronizeDir),
                )
                &&& steps_of((s, d, Operation::SynchronizeDir)) == seq![
                    StepView::MirrorDirectory(with_trailing_slash(s), d),
                ]
            } else {
                &&& subpath_outcome(src_prefix, dst_prefix, subpath, o) == Ok::<ActionView, ErrorView>(
                    (s, d, Operation::CopyFile),
                )
                &&& steps_of((s, d, Operation::CopyFile)) == seq![StepView::CopyFile(s, d)]
            }
        }),
{
}

/// The operation that creates a missing destination from a source of kind `t`.
pub open spec fn creating(t: Option<Target>) -> Operation {
    if t == Some(Target::Directory) {
        Operation::SynchronizeDir
    } else {
        Operation::CopyFile
    }
}

/// When every subpath is relative, both prefixes are directories, every source can be
/// read and no destination exists yet, the plan creates each destination, in order: a
/// mirror for a source directory, a copy for a source file.
pub proof fn lemma_absent_destinations_are_created(
    src_prefix: Seq<char>,
    dst_prefix: Seq<char>,
    subpaths: Seq<Seq<char>>,
    obs: Seq<Observation>,
)
    requires
        subpaths.len() == obs.len(),
        forall|i: int| 0 <= i < subpaths.len() ==> !is_absolute(#[trigger] subpaths[i]),
        forall|i: int| 0 <= i < obs.len() ==> (#[trigger] obs[i]).src is Some && obs[i].dst == Entry::Absent,
    ensures
        synchronization_plan(
            src_prefix,
            dst_prefix,
            Some(Target::Directory),
            Some(Target::Directory),
            subpaths,
            obs,
        ) matches Ok(acts) && acts.len() == subpaths.len() && forall|i: int|
            0 <= i < acts.len() ==> #[trigger] acts[i] == (
                joined(src_prefix, subpaths[i]),
                joined(dst_prefix, subpaths[i]),
                creating(obs[i].src),
            ),
{
    lemma_all_relative(subpaths, subpaths.len());
    lemma_planned_absent(src_prefix, dst_prefix, subpaths, obs, subpaths.len());
}

proof fn lemma_all_relative(subpaths: Seq<Seq<char>>, n: nat)
    requires
        n <= subpaths.len(),
        forall|i: int| 0 <= i < subpaths.len() ==> !is_absolute(#[trigger] subpaths[i]),
    ensures
        first_absolute(subpaths, n) is None,
    decreases n,
{
    if n > 0 {
        lemma_all_relative(subpaths, (n - 1) as nat);
    }
}

proof fn lemma_planned_absent(
    src_prefix: Seq<char>,
    dst_prefix: Seq<char>,
    subpaths: Seq<Seq<char>>,
    obs: Seq<Observation>,
    n: nat,
)
    requires
        n <= subpaths.len() == obs.len(),
        forall|i: int| 0 <= i < obs.len() ==> (#[trigger] obs[i]).src is Some && obs[i].dst == Entry::Absent,
    ensures
        planned(src_prefix, dst_prefix, subpaths, obs, n) matches Ok(acts) && acts.len() == n
            && forall|i: int|
            0 <= i < n ==> #[trigger] acts[i] == (
                joined(src_prefix, subpaths[i]),
                joined(dst_prefix, subpaths[i]),
                creating(obs[i].src),
            ),
    decreases n,
{
    if n > 0 {
        lemma_planned_absent(src_prefix, dst_prefix, subpaths, obs, (n - 1) as nat);
        let o = obs[n - 1];
        assert(o.src is Some && o.dst == Entry::Absent);
    }
}

/// A list of subpaths that holds an absolute one is refused by the planning stage,
/// whatever is on disk, so no destination entry is touched.
pub proof fn lemma_absolute_subpath_is_refused(
    src_prefix: Seq<char>,
    dst_prefix: Seq<char>,
    src_prefix_target: Option<Target>,
    dst_prefix_target: Option<Target>,
    subpaths: Seq<Seq<char>>,
    obs: Seq<Observation>,
    k: int,
)
    requires
        0 <= k < subpaths.len(),
        is_absolute(subpaths[k]),
    ensures
        synchronization_plan(src_prefix, dst_prefix, src_prefix_target, dst_prefix_target, subpaths, obs)
            matches Err(e) && e.0 == ErrorKind::Absolute && is_absolute(e.1),
{
    lemma_first_absolute_found(subpaths, k, subpaths.len());
}

proof fn lemma_first_absolute_found(subpaths: Seq<Seq<char>>, k: int, n: nat)
    requires
        0 <= k < n <= subpaths.len(),
        is_absolute(subpaths[k]),
    ensures
        first_absolute(subpaths, n) matches Some(p) && is_absolute(p),
    decreases n,
{
    if k < n - 1 {
        lemma_first_absolute_found(subpaths, k, (n - 1) as nat);
    } else {
        lemma_first_absolute_is_absolute(subpaths, (n - 1) as nat);
    }
}

proof fn lemma_first_absolute_is_absolute(subpaths: Seq<Seq<char>>, n: nat)
    requires
        n <= subpaths.len(),
    ensures
        first_absolute(subpaths, n) matches Some(p) ==> is_absolute(p),
    decreases n,
{
    if n > 0 {
        lemma_first_absolute_is_absolute(subpaths, (n - 1) as nat);
    }
}

/// Synchronizing a source directory onto a destination that is already a directory
/// (its mirror from an earlier run) plans the same single mirror again, with no removal,
/// so running it twice decides the same thing twice.
pub proof fn lemma_mirror_over_directory_is_stable(
    src_prefix: Seq<char>,
    dst_prefix: Seq<char>,
    subpath: Seq<char>,
)
    ensures
        ({
            let o = Observation { src: Some(Target::Directory), dst: Entry::Directory };
            let a = (joined(src_prefix, subpath), joined(dst_prefix, subpath), Operation::SynchronizeDir);
            &&& subpath_outcome(src_prefix, dst_prefix, subpath, o) == Ok::<ActionView, ErrorView>(a)
            &&& steps_of(a) == seq![
                StepView::MirrorDirectory(with_trailing_slash(joined(src_prefix, subpath)), joined(dst_prefix, subpath)),
            ]
        }),
{
}

} // verus!
