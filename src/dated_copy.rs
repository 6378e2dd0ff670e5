//! Dated copies: each source is copied beside itself, under its name followed by the
//! dated suffix. Every source is checked before anything is copied, and no existing
//! entry is ever overwritten.

use vstd::prelude::*;
use vstd::string::*;

use crate::backup::{file_name, file_name_of};
use crate::dated::{dated_suffix, format_dated_suffix, DateTime};
use crate::partial::Target;
use crate::paths::{quote, quoted};

verus! {

/// The path `p` with its last component replaced by `name`, as `camino` computes it.
pub uninterp spec fn with_file_name_of(p: Seq<char>, name: Seq<char>) -> Seq<char>;

/// Relies on `camino::Utf8Path::with_file_name`: its result depends on the path and the
/// name alone.
#[verifier::external_body]
fn with_file_name(path: &str, name: &str) -> (r: String)
    ensures
        r@ == with_file_name_of(path@, name@),
{
    camino::Utf8Path::new(path).with_file_name(name).into_string()
}

/// The dated copy of the source at `src`, beside it; `None` when `src` has no name.
pub open spec fn copy_destination(src: Seq<char>, now: DateTime) -> Option<Seq<char>> {
    match file_name_of(src) {
        None => None,
        Some(name) => Some(with_file_name_of(src, name + dated_suffix(now))),
    }
}

/// What was read on disk for one source: what it designates, symlinks followed (`None`
/// when unreadable), and whether anything, even a dangling symlink, stands at its dated
/// copy.
#[derive(Clone, Copy, Debug)]
pub struct CopyObservation {
    pub src: Option<Target>,
    pub dst_exists: bool,
}

/// One planned copy.
#[derive(Clone, Debug)]
pub struct CopyAction {
    pub src_path: String,
    pub dst_path: String,
    pub src_is_dir: bool,
}

pub type CopyView = (Seq<char>, Seq<char>, bool);

impl View for CopyAction {
    type V = CopyView;

    open spec fn view(&self) -> CopyView {
        (self.src_path@, self.dst_path@, self.src_is_dir)
    }
}

/// Why the copies cannot be made.
#[derive(Clone, Debug)]
pub enum CopyError {
    /// A source path has no last component.
    NoName(String),
    /// Nothing could be read at a source path, symlinks followed.
    MetadataUnreadable(String),
    /// Something stands at the dated copy already.
    AlreadyExists(String),
}

pub enum CopyErrorView {
    NoName(Seq<char>),
    MetadataUnreadable(Seq<char>),
    AlreadyExists(Seq<char>),
}

impl View for CopyError {
    type V = CopyErrorView;

    open spec fn view(&self) -> CopyErrorView {
        match self {
            CopyError::NoName(p) => CopyErrorView::NoName(p@),
            CopyError::MetadataUnreadable(p) => CopyErrorView::MetadataUnreadable(p@),
            CopyError::AlreadyExists(p) => CopyErrorView::AlreadyExists(p@),
        }
    }
}

/// The outcome of planning the copy of one source.
pub open spec fn copy_outcome(src: Seq<char>, now: DateTime, o: CopyObservation) -> Result<
    CopyView,
    CopyErrorView,
> {
    match copy_destination(src, now) {
        None => Err(CopyErrorView::NoName(src)),
        Some(dst) => match o.src {
            None => Err(CopyErrorView::MetadataUnreadable(src)),
            Some(t) => if o.dst_exists {
                Err(CopyErrorView::AlreadyExists(dst))
            } else {
                Ok((src, dst, t == Target::Directory))
            },
        },
    }
}

/// The copies of the first `n` sources, in order, or the first error.
pub open spec fn copies_planned(
    srcs: Seq<Seq<char>>,
    now: DateTime,
    obs: Seq<CopyObservation>,
    n: nat,
) -> Result<Seq<CopyView>, CopyErrorView>
    decreases n,
{
    if n == 0 {
        Ok(Seq::empty())
    } else {
        match copies_planned(srcs, now, obs, (n - 1) as nat) {
            Err(e) => Err(e),
            Ok(acts) => match copy_outcome(srcs[n - 1], now, obs[n - 1]) {
                Err(e) => Err(e),
                Ok(a) => Ok(acts.push(a)),
            },
        }
    }
}

/// The text of a copy error.
pub open spec fn copy_error_message(e: CopyErrorView) -> Seq<char> {
    match e {
        CopyErrorView::NoName(p) => quoted(p) + " does not have a name"@,
        CopyErrorView::MetadataUnreadable(p) => "failed to read metadata from "@ + quoted(p),
        CopyErrorView::AlreadyExists(p) => quoted(p) + " already exists"@,
    }
}

impl CopyError {
    /// A one-line description, naming the quoted path.
    pub fn message(&self) -> (r: String)
        ensures
            r@ == copy_error_message(self@),
    {
        match self {
            CopyError::NoName(p) => quote(p.as_str()).concat(" does not have a name"),
            CopyError::MetadataUnreadable(p) => String::from_str(
                "failed to read metadata from ",
            ).concat(quote(p.as_str()).as_str()),
            CopyError::AlreadyExists(p) => quote(p.as_str()).concat(" already exists"),
        }
    }
}

/// The dated copy of `src_path` at `now`, beside it: `<name>_YYYY-MM-DD-HHhMM` in the
/// same directory; `None` when the path has no name.
pub fn get_dst_path(src_path: &str, now: DateTime) -> (r: Option<String>)
    ensures
        match copy_destination(src_path@, now) {
            None => r is None,
            Some(d) => r matches Some(s) && s@ == d,
        },
{
    match file_name(src_path) {
        None => None,
        Some(name) => {
            let dated = name.concat(format_dated_suffix(now).as_str());
            Some(with_file_name(src_path, dated.as_str()))
        },
    }
}

/// Plans the copy of one source from what was read for it.
pub fn plan_copy(src_path: &str, now: DateTime, o: CopyObservation) -> (r: Result<CopyAction, CopyError>)
    ensures
        match copy_outcome(src_path@, now, o) {
            Ok(a) => r matches Ok(x) && x@ == a,
            Err(e) => r matches Err(x) && x@ == e,
        },
{
    let dst_path = match get_dst_path(src_path, now) {
        None => {
            return Err(CopyError::NoName(String::from_str(src_path)));
        },
        Some(d) => d,
    };
    let target = match o.src {
        None => {
            return Err(CopyError::MetadataUnreadable(String::from_str(src_path)));
        },
        Some(t) => t,
    };
    if o.dst_exists {
        return Err(CopyError::AlreadyExists(dst_path));
    }
    Ok(CopyAction { src_path: String::from_str(src_path), dst_path, src_is_dir: target == Target::Directory })
}

/// Plans the dated copy of every source, in order, and fails on the first one that
/// cannot be made. `observations[i]` is what was read for `src_paths[i]`.
pub fn check_all_copies_seem_possible(
    src_paths: &Vec<String>,
    now: DateTime,
    observations: &Vec<CopyObservation>,
) -> (r: Result<Vec<CopyAction>, CopyError>)
    requires
        src_paths.len() == observations.len(),
    ensures
        match copies_planned(src_paths.deep_view(), now, observations@, src_paths.len() as nat) {
            Ok(acts) => r matches Ok(v) && v@.map_values(|a: CopyAction| a@) == acts,
            Err(e) => r matches Err(x) && x@ == e,
        },
{
    let mut result: Vec<CopyAction> = Vec::new();
    let mut i: usize = 0;
    assert(result@.map_values(|a: CopyAction| a@) =~= Seq::<CopyView>::empty());
    while i < src_paths.len()
        invariant
            i <= src_paths.len(),
            src_paths.len() == observations.len(),
            copies_planned(src_paths.deep_view(), now, observations@, i as nat) == Ok::<
                Seq<CopyView>,
                CopyErrorView,
            >(result@.map_values(|a: CopyAction| a@)),
        decreases src_paths.len() - i,
    {
        proof {
            assert(src_paths.deep_view()[i as int] == src_paths@[i as int]@);
        }
        match plan_copy(src_paths[i].as_str(), now, observations[i]) {
            Err(e) => {
                proof {
                    lemma_copy_error_stays(src_paths.deep_view(), now, observations@, (i + 1) as nat,
                        src_paths.len() as nat);
                }
                return Err(e);
            },
            Ok(a) => {
                let ghost before = result@;
                let ghost av = a@;
                result.push(a);
                assert(result@.map_values(|x: CopyAction| x@) =~= before.map_values(
                    |x: CopyAction| x@,
                ).push(av));
            },
        }
        i = i + 1;
    }
    Ok(result)
}

proof fn lemma_copy_error_stays(
    srcs: Seq<Seq<char>>,
    now: DateTime,
    obs: Seq<CopyObservation>,
    i: nat,
    n: nat,
)
    requires
        i <= n,
        copies_planned(srcs, now, obs, i) is Err,
    ensures
        copies_planned(srcs, now, obs, n) == copies_planned(srcs, now, obs, i),
    decreases n - i,
{
    if i < n {
        lemma_copy_error_stays(srcs, now, obs, i, (n - 1) as nat);
    }
}

} // verus!
