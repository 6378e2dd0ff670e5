//! Backup of one directory into a dated directory of a destination: the one earlier
//! dated backup of the same name, if there is exactly one, is renamed to the new dated
//! name, and the source is then mirrored into it.

use vstd::prelude::*;
use vstd::string::*;

use crate::dated::{dated_suffix, format_dated_suffix, is_digit, DateTime};
use crate::partial::{Entry, Target};
use crate::paths::{add_trailing_slash, join_path, joined, quote, quoted, with_trailing_slash};

verus! {

/// What `camino` takes as the last component of a path: `None` when the path ends in
/// `..` or has no normal component.
pub uninterp spec fn file_name_of(p: Seq<char>) -> Option<Seq<char>>;

/// Relies on `camino::Utf8Path::file_name`: its result depends on the path alone.
#[verifier::external_body]
pub(crate) fn file_name(path: &str) -> (r: Option<String>)
    ensures
        match r {
            Some(s) => file_name_of(path@) == Some(s@),
            None => file_name_of(path@) is None,
        },
{
    camino::Utf8Path::new(path).file_name().map(String::from)
}

/// The length of `_YYYY-MM-DD-HHhMM`.
pub const SUFFIX_LEN: usize = 17;

/// The character expected at position `i` of a dated suffix.
pub open spec fn suffix_char_ok(i: int, c: char) -> bool {
    if i == 0 {
        c == '_'
    } else if i == 5 || i == 8 || i == 11 {
        c == '-'
    } else if i == 14 {
        c == 'h'
    } else {
        is_digit(c)
    }
}

/// `s` reads `_DDDD-DD-DD-DDhDD`, each `D` a decimal digit.
pub open spec fn has_dated_shape(s: Seq<char>) -> bool {
    s.len() == SUFFIX_LEN && forall|i: int| 0 <= i < SUFFIX_LEN ==> #[trigger] suffix_char_ok(i, s[i])
}

/// `name` is `base` followed by a dated suffix, with `base` a non-empty text without
/// line breaks.
pub open spec fn dated_name_of(name: Seq<char>, base: Seq<char>) -> bool {
    &&& name.len() > SUFFIX_LEN
    &&& has_dated_shape(name.subrange(name.len() - SUFFIX_LEN, name.len() as int))
    &&& name.subrange(0, name.len() - SUFFIX_LEN) == base
    &&& forall|i: int| 0 <= i < base.len() ==> base[i] != '\n'
}

/// An entry listed directly under the destination directory: its name, its path, and
/// whether it is itself a directory (a symlink is not).
#[derive(Clone, Debug)]
pub struct ListedEntry {
    pub name: String,
    pub path: String,
    pub is_dir: bool,
}

pub type ListedView = (Seq<char>, Seq<char>, bool);

impl View for ListedEntry {
    type V = ListedView;

    open spec fn view(&self) -> ListedView {
        (self.name@, self.path@, self.is_dir)
    }
}

/// The paths of the candidates among the first `n` entries: directories whose name is
/// `base` followed by a dated suffix, in the order of the listing.
pub open spec fn candidates(base: Seq<char>, entries: Seq<ListedView>, n: nat) -> Seq<Seq<char>>
    decreases n,
{
    if n == 0 {
        Seq::empty()
    } else {
        let prev = candidates(base, entries, (n - 1) as nat);
        let e = entries[n - 1];
        if e.2 && dated_name_of(e.0, base) {
            prev.push(e.1)
        } else {
            prev
        }
    }
}

/// Why a backup cannot be made.
#[derive(Clone, Debug)]
pub enum BackupError {
    /// The source path has no last component.
    NoName(String),
    /// Nothing could be read at the source path, symlinks followed.
    MetadataUnreadable(String),
    /// The source is not a directory.
    NotADirectory(String),
    /// The dated destination exists and is not a directory.
    FinalDestinationNotADirectory(String),
    /// The destination directory could not be listed.
    DestinationUnreadable(String),
    /// Several earlier dated backups match: none is picked.
    SeveralCandidates(Vec<String>),
}

pub enum BackupErrorView {
    NoName(Seq<char>),
    MetadataUnreadable(Seq<char>),
    NotADirectory(Seq<char>),
    FinalDestinationNotADirectory(Seq<char>),
    DestinationUnreadable(Seq<char>),
    SeveralCandidates(Seq<Seq<char>>),
}

impl View for BackupError {
    type V = BackupErrorView;

    open spec fn view(&self) -> BackupErrorView {
        match self {
            BackupError::NoName(p) => BackupErrorView::NoName(p@),
            BackupError::MetadataUnreadable(p) => BackupErrorView::MetadataUnreadable(p@),
            BackupError::NotADirectory(p) => BackupErrorView::NotADirectory(p@),
            BackupError::FinalDestinationNotADirectory(p) => BackupErrorView::FinalDestinationNotADirectory(p@),
            BackupError::DestinationUnreadable(p) => BackupErrorView::DestinationUnreadable(p@),
            BackupError::SeveralCandidates(v) => BackupErrorView::SeveralCandidates(v.deep_view()),
        }
    }
}

/// The changes of a backup: rename the earlier backup, if any, to the dated
/// destination, then mirror the source (with a trailing separator) into it.
#[derive(Clone, Debug)]
pub struct BackupPlan {
    pub final_dst_path: String,
    pub rename_from: Option<String>,
    pub mirror_src: String,
}

pub type PlanView = (Seq<char>, Option<Seq<char>>, Seq<char>);

impl View for BackupPlan {
    type V = PlanView;

    open spec fn view(&self) -> PlanView {
        (
            self.final_dst_path@,
            match self.rename_from {
                Some(p) => Some(p@),
                None => None,
            },
            self.mirror_src@,
        )
    }
}

/// The dated destination of the backup of a directory named `name`.
pub open spec fn final_dst(name: Seq<char>, dst_dir: Seq<char>, now: DateTime) -> Seq<char> {
    joined(dst_dir, name + dated_suffix(now))
}

/// The whole decision of a backup, from what was read on disk: what the source path
/// designates, what stands at the dated destination, and the listing of the
/// destination directory (`None` when it cannot be listed).
pub open spec fn backup_plan(
    src_dir: Seq<char>,
    dst_dir: Seq<char>,
    now: DateTime,
    src_target: Option<Target>,
    final_entry: Entry,
    listing: Option<Seq<ListedView>>,
) -> Result<PlanView, BackupErrorView> {
    match file_name_of(src_dir) {
        None => Err(BackupErrorView::NoName(src_dir)),
        Some(name) => match src_target {
            None => Err(BackupErrorView::MetadataUnreadable(src_dir)),
            Some(Target::Directory) => {
                let f = final_dst(name, dst_dir, now);
                if !(final_entry == Entry::Absent || final_entry == Entry::Directory) {
                    Err(BackupErrorView::FinalDestinationNotADirectory(f))
                } else {
                    match listing {
                        None => Err(BackupErrorView::DestinationUnreadable(dst_dir)),
                        Some(es) => {
                            let c = candidates(name, es, es.len());
                            if c.len() >= 2 {
                                Err(BackupErrorView::SeveralCandidates(c))
                            } else {
                                Ok(
                                    (
                                        f,
                                        if c.len() == 1 {
                                            Some(c[0])
                                        } else {
                                            None
                                        },
                                        with_trailing_slash(src_dir),
                                    ),
                                )
                            }
                        },
                    }
                }
            },
            Some(_) => Err(BackupErrorView::NotADirectory(src_dir)),
        },
    }
}

fn suffix_char_matches(i: usize, c: char) -> (r: bool)
    ensures
        r == suffix_char_ok(i as int, c),
{
    if i == 0 {
        c == '_'
    } else if i == 5 || i == 8 || i == 11 {
        c == '-'
    } else if i == 14 {
        c == 'h'
    } else {
        '0' <= c && c <= '9'
    }
}

/// Whether `name` is `base` followed by a dated suffix `_YYYY-MM-DD-HHhMM`.
pub fn is_dated_name_of(name: &str, base: &str) -> (r: bool)
    ensures
        r == dated_name_of(name@, base@),
{
    let n = name.unicode_len();
    if n <= SUFFIX_LEN {
        return false;
    }
    let start = n - SUFFIX_LEN;
    let mut i: usize = 0;
    while i < SUFFIX_LEN
        invariant
            n == name@.len(),
            start == n - SUFFIX_LEN,
            i <= SUFFIX_LEN,
            forall|j: int| 0 <= j < i ==> #[trigger] suffix_char_ok(j, name@[start + j]),
        decreases SUFFIX_LEN - i,
    {
        if !suffix_char_matches(i, name.get_char(start + i)) {
            assert(!suffix_char_ok(i as int, name@.subrange(start as int, n as int)[i as int]));
            return false;
        }
        i = i + 1;
    }
    assert(has_dated_shape(name@.subrange(start as int, n as int))) by {
        assert forall|j: int| 0 <= j < SUFFIX_LEN implies #[trigger] suffix_char_ok(
            j,
            name@.subrange(start as int, n as int)[j],
        ) by {
            assert(suffix_char_ok(j, name@[start + j]));
        }
    }
    let prefix = String::from_str(name.substring_char(0, start));
    let wanted = String::from_str(base);
    if !(prefix == wanted) {
        return false;
    }
    let m = base.unicode_len();
    let mut k: usize = 0;
    while k < m
        invariant
            m == base@.len(),
            k <= m,
            forall|j: int| 0 <= j < k ==> base@[j] != '\n',
        decreases m - k,
    {
        if base.get_char(k) == '\n' {
            return false;
        }
        k = k + 1;
    }
    true
}

/// The paths of the directories listed in `entries` whose name is `src_dir_name`
/// followed by a dated suffix, in the order of the listing.
pub fn get_candidates(src_dir_name: &str, entries: &Vec<ListedEntry>) -> (r: Vec<String>)
    ensures
        r.deep_view() == candidates(src_dir_name@, entries@.map_values(|e: ListedEntry| e@), entries.len() as nat),
{
    let ghost es = entries@.map_values(|e: ListedEntry| e@);
    let mut result: Vec<String> = Vec::new();
    let mut i: usize = 0;
    assert(result.deep_view() =~= Seq::<Seq<char>>::empty());
    while i < entries.len()
        invariant
            i <= entries.len(),
            es == entries@.map_values(|e: ListedEntry| e@),
            result.deep_view() == candidates(src_dir_name@, es, i as nat),
        decreases entries.len() - i,
    {
        let e = &entries[i];
        assert(es[i as int] == e@);
        if e.is_dir && is_dated_name_of(e.name.as_str(), src_dir_name) {
            let ghost before = result.deep_view();
            result.push(String::from_str(e.path.as_str()));
            assert(result.deep_view() =~= before.push(e.path@));
        }
        i = i + 1;
    }
    result
}

/// The name of the source directory, once it is known to be a directory.
pub fn check_src_dir_path_is_ok(src_dir_path: &str, src_target: Option<Target>) -> (r: Result<
    String,
    BackupError,
>)
    ensures
        match file_name_of(src_dir_path@) {
            None => r matches Err(e) && e@ == BackupErrorView::NoName(src_dir_path@),
            Some(name) => match src_target {
                None => r matches Err(e) && e@ == BackupErrorView::MetadataUnreadable(src_dir_path@),
                Some(Target::Directory) => r matches Ok(s) && s@ == name,
                Some(_) => r matches Err(e) && e@ == BackupErrorView::NotADirectory(src_dir_path@),
            },
        },
{
    let name = match file_name(src_dir_path) {
        None => {
            return Err(BackupError::NoName(String::from_str(src_dir_path)));
        },
        Some(name) => name,
    };
    match src_target {
        None => Err(BackupError::MetadataUnreadable(String::from_str(src_dir_path))),
        Some(Target::Directory) => Ok(name),
        Some(_) => Err(BackupError::NotADirectory(String::from_str(src_dir_path))),
    }
}

/// The dated destination `<dst_dir_path>/<src_dir_name>_YYYY-MM-DD-HHhMM`.
pub fn get_final_dst_path(src_dir_name: &str, dst_dir_path: &str, now: DateTime) -> (r: String)
    ensures
        r@ == final_dst(src_dir_name@, dst_dir_path@, now),
{
    let name = String::from_str(src_dir_name).concat(format_dated_suffix(now).as_str());
    join_path(dst_dir_path, name.as_str())
}

/// Fails unless what stands at `path` (symlinks not followed) is a directory or nothing.
pub fn check_is_directory_or_does_not_exist(path: &str, entry: Entry) -> (r: Result<(), BackupError>)
    ensures
        r is Ok <==> (entry == Entry::Absent || entry == Entry::Directory),
        r matches Err(e) ==> e@ == BackupErrorView::FinalDestinationNotADirectory(path@),
{
    match entry {
        Entry::Absent | Entry::Directory => Ok(()),
        _ => Err(BackupError::FinalDestinationNotADirectory(String::from_str(path))),
    }
}

/// Picks the earlier backup to rename: none, the one candidate, or an error when there
/// are several.
pub fn pick_candidate(candidates: Vec<String>) -> (r: Result<Option<String>, BackupError>)
    ensures
        candidates.len() >= 2 ==> (r matches Err(e) && e@ == BackupErrorView::SeveralCandidates(
            candidates.deep_view(),
        )),
        candidates.len() == 1 ==> (r matches Ok(Some(s)) && s@ == candidates@[0]@),
        candidates.len() == 0 ==> r matches Ok(None),
{
    if candidates.len() >= 2 {
        Err(BackupError::SeveralCandidates(candidates))
    } else if candidates.len() == 1 {
        Ok(Some(String::from_str(candidates[0].as_str())))
    } else {
        Ok(None)
    }
}

/// The planning stage of a backup of `src_dir_path` into `dst_dir_path` at `now`.
/// `src_target` is what the source designates, symlinks followed; `final_entry` what
/// stands at the dated destination (see `get_final_dst_path`); `listing` the entries of
/// the destination directory, or `None` when it cannot be listed.
pub fn plan_backup(
    src_dir_path: &str,
    dst_dir_path: &str,
    now: DateTime,
    src_target: Option<Target>,
    final_entry: Entry,
    listing: Option<&Vec<ListedEntry>>,
) -> (r: Result<BackupPlan, BackupError>)
    ensures
        match backup_plan(
            src_dir_path@,
            dst_dir_path@,
            now,
            src_target,
            final_entry,
            match listing {
                Some(v) => Some(v@.map_values(|e: ListedEntry| e@)),
                None => None,
            },
        ) {
            Ok(p) => r matches Ok(x) && x@ == p,
            Err(e) => r matches Err(x) && x@ == e,
        },
{
    let name = check_src_dir_path_is_ok(src_dir_path, src_target)?;
    let final_dst_path = get_final_dst_path(name.as_str(), dst_dir_path, now);
    check_is_directory_or_does_not_exist(final_dst_path.as_str(), final_entry)?;
    let entries = match listing {
        None => {
            return Err(BackupError::DestinationUnreadable(String::from_str(dst_dir_path)));
        },
        Some(v) => v,
    };
    let found = get_candidates(name.as_str(), entries);
    let rename_from = pick_candidate(found)?;
    Ok(BackupPlan { final_dst_path, rename_from, mirror_src: add_trailing_slash(src_dir_path) })
}

/// The quoted paths of `paths[..n]`, separated by commas.
pub open spec fn quoted_list(paths: Seq<Seq<char>>, n: nat) -> Seq<char>
    decreases n,
{
    if n == 0 {
        Seq::empty()
    } else if n == 1 {
        quoted(paths[0])
    } else {
        quoted_list(paths, (n - 1) as nat) + ", "@ + quoted(paths[n - 1])
    }
}

/// The text of a backup error.
pub open spec fn backup_error_message(e: BackupErrorView) -> Seq<char> {
    match e {
        BackupErrorView::NoName(p) => quoted(p) + " does not have a name"@,
        BackupErrorView::MetadataUnreadable(p) => "failed to read metadata from "@ + quoted(p),
        BackupErrorView::NotADirectory(p) => quoted(p) + " is not a directory"@,
        BackupErrorView::FinalDestinationNotADirectory(p) => quoted(p)
            + " exists but is not a directory"@,
        BackupErrorView::DestinationUnreadable(p) => "failed to look for candidates: failed to read as a directory "@
            + quoted(p),
        BackupErrorView::SeveralCandidates(ps) => "there are several candidates: ["@ + quoted_list(
            ps,
            ps.len(),
        ) + "]"@,
    }
}

fn quote_list(paths: &Vec<String>) -> (r: String)
    ensures
        r@ == quoted_list(paths.deep_view(), paths.len() as nat),
{
    let ghost ps = paths.deep_view();
    let mut r = String::new();
    let mut i: usize = 0;
    while i < paths.len()
        invariant
            i <= paths.len(),
            ps == paths.deep_view(),
            r@ == quoted_list(ps, i as nat),
        decreases paths.len() - i,
    {
        let q = quote(paths[i].as_str());
        if i == 0 {
            r = q;
        } else {
            r = r.concat(", ").concat(q.as_str());
        }
        i = i + 1;
    }
    r
}

impl BackupError {
    /// A one-line description, naming the quoted paths.
    pub fn message(&self) -> (r: String)
        ensures
            r@ == backup_error_message(self@),
    {
        match self {
            BackupError::NoName(p) => quote(p.as_str()).concat(" does not have a name"),
            BackupError::MetadataUnreadable(p) => String::from_str(
                "failed to read metadata from ",
            ).concat(quote(p.as_str()).as_str()),
            BackupError::NotADirectory(p) => quote(p.as_str()).concat(" is not a directory"),
            BackupError::FinalDestinationNotADirectory(p) => quote(p.as_str()).concat(
                " exists but is not a directory",
            ),
            BackupError::DestinationUnreadable(p) => String::from_str(
                "failed to look for candidates: failed to read as a directory ",
            ).concat(quote(p.as_str()).as_str()),
            BackupError::SeveralCandidates(v) => String::from_str(
                "there are several candidates: [",
            ).concat(quote_list(v).as_str()).concat("]"),
        }
    }
}

/// With no earlier dated backup of the source's name in the destination, the backup
/// renames nothing and mirrors the source into one new directory, `<name>_<now>` under
/// the destination.
pub proof fn lemma_first_backup_makes_one_dated_directory(
    src_dir: Seq<char>,
    dst_dir: Seq<char>,
    now: DateTime,
    listing: Seq<ListedView>,
    name: Seq<char>,
)
    requires
        file_name_of(src_dir) == Some(name),
        candidates(name, listing, listing.len()).len() == 0,
    ensures
        backup_plan(src_dir, dst_dir, now, Some(Target::Directory), Entry::Absent, Some(listing))
            == Ok::<PlanView, BackupErrorView>(
            (joined(dst_dir, name + dated_suffix(now)), None, with_trailing_slash(src_dir)),
        ),
{
}

/// With exactly one earlier dated backup directory of the source's name, the backup
/// renames it to the new dated name and then mirrors the source into that name.
pub proof fn lemma_single_candidate_is_renamed(
    src_dir: Seq<char>,
    dst_dir: Seq<char>,
    now: DateTime,
    final_entry: Entry,
    listing: Seq<ListedView>,
    name: Seq<char>,
)
    requires
        file_name_of(src_dir) == Some(name),
        final_entry == Entry::Absent || final_entry == Entry::Directory,
        candidates(name, listing, listing.len()).len() == 1,
    ensures
        backup_plan(src_dir, dst_dir, now, Some(Target::Directory), final_entry, Some(listing))
            == Ok::<PlanView, BackupErrorView>(
            (
                joined(dst_dir, name + dated_suffix(now)),
                Some(candidates(name, listing, listing.len())[0]),
                with_trailing_slash(src_dir),
            ),
        ),
{
}

/// With two or more earlier dated backup directories of the source's name, the backup
/// fails on the ambiguity: it plans no rename and no mirror.
pub proof fn lemma_several_candidates_are_refused(
    src_dir: Seq<char>,
    dst_dir: Seq<char>,
    now: DateTime,
    final_entry: Entry,
    listing: Seq<ListedView>,
    name: Seq<char>,
)
    requires
        file_name_of(src_dir) == Some(name),
        final_entry == Entry::Absent || final_entry == Entry::Directory,
        candidates(name, listing, listing.len()).len() >= 2,
    ensures
        backup_plan(src_dir, dst_dir, now, Some(Target::Directory), final_entry, Some(listing))
            == Err::<PlanView, BackupErrorView>(
            BackupErrorView::SeveralCandidates(candidates(name, listing, listing.len())),
        ),
{
}

/// Every candidate is the path of a listed entry that is itself a directory and whose
/// name is the base name followed by a dated suffix: files and symlinks never are.
pub proof fn lemma_candidates_are_dated_directories(
    base: Seq<char>,
    listing: Seq<ListedView>,
    n: nat,
    k: int,
)
    requires
        n <= listing.len(),
        0 <= k < candidates(base, listing, n).len(),
    ensures
        exists|j: int|
            0 <= j < n && #[trigger] listing[j].1 == candidates(base, listing, n)[k] && listing[j].2
                && dated_name_of(listing[j].0, base),
    decreases n,
{
    let prev = candidates(base, listing, (n - 1) as nat);
    if k < prev.len() {
        lemma_candidates_are_dated_directories(base, listing, (n - 1) as nat, k);
    } else {
        assert(listing[n - 1].1 == candidates(base, listing, n)[k]);
    }
}

} // verus!
