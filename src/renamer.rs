//! The decisions of a log rotation, as a state machine that asks its caller for what
//! only the outside world knows. A file of at least 42 bytes is renamed to
//! `<path>.<YYYY-MM-DD>.<n>`, with the smallest `n` from 1 that is not taken yet.

use vstd::prelude::*;
use vstd::string::*;

use crate::dated::{date_text, decimal, format_date, format_decimal, DateTime};

verus! {

/// The size from which a file is rotated.
pub const MIN_SIZE: u64 = 42;

/// What the state machine needs next, or its outcome.
#[must_use]
pub enum Yield {
    /// The current date is needed.
    WantsNow(WantsNow),
    /// Whether the path `get_arg` exists is needed.
    WantsExists(WantsExists),
    /// The outcome: the new name of the file, or `None` to leave it alone.
    Return(Option<RenameTo>),
}

#[must_use]
pub struct WantsNow {
    file_path: String,
}

#[must_use]
pub struct WantsExists {
    file_path: String,
    formatted_date: String,
    number: usize,
    candidate: String,
}

/// The new path of the file.
#[must_use]
pub struct RenameTo(pub String);

pub struct WantsExistsView {
    pub file_path: Seq<char>,
    pub formatted_date: Seq<char>,
    pub number: nat,
    pub candidate: Seq<char>,
}

impl View for WantsNow {
    type V = Seq<char>;

    closed spec fn view(&self) -> Seq<char> {
        self.file_path@
    }
}

impl View for WantsExists {
    type V = WantsExistsView;

    closed spec fn view(&self) -> WantsExistsView {
        WantsExistsView {
            file_path: self.file_path@,
            formatted_date: self.formatted_date@,
            number: self.number as nat,
            candidate: self.candidate@,
        }
    }
}

/// `<path>.<date>.<number>`.
pub open spec fn candidate_name(file_path: Seq<char>, date: Seq<char>, number: nat) -> Seq<char> {
    file_path + seq!['.'] + date + seq!['.'] + decimal(number)
}

/// The state that asks about the candidate numbered `number`.
pub open spec fn asking(file_path: Seq<char>, date: Seq<char>, number: nat) -> WantsExistsView {
    WantsExistsView {
        file_path,
        formatted_date: date,
        number,
        candidate: candidate_name(file_path, date, number),
    }
}

/// Starts the rotation of the file at `file_path`, whose size is `size`.
pub fn work(file_path: &str, size: u64) -> (r: Yield)
    ensures
        size >= MIN_SIZE ==> (r matches Yield::WantsNow(w) && w@ == file_path@),
        size < MIN_SIZE ==> r matches Yield::Return(None),
{
    if size >= MIN_SIZE {
        return Yield::WantsNow(WantsNow { file_path: String::from_str(file_path) });
    }
    Yield::Return(None)
}

impl WantsNow {
    /// Goes on with the current date: the first candidate is numbered 1.
    pub fn resume(self, now: DateTime) -> (r: Yield)
        ensures
            r matches Yield::WantsExists(w) && w@ == asking(self@, date_text(now), 1),
    {
        let formatted_date = format_date(now);
        let number: usize = 1;
        let candidate = get_candidate(self.file_path.as_str(), formatted_date.as_str(), number);
        Yield::WantsExists(WantsExists { file_path: self.file_path, formatted_date, number, candidate })
    }
}

impl WantsExists {
    /// The path whose existence is asked.
    pub fn get_arg(&self) -> (r: &str)
        ensures
            r@ == self@.candidate,
    {
        self.candidate.as_str()
    }

    /// The number of the candidate whose existence is asked.
    pub fn number(&self) -> (r: usize)
        ensures
            r == self@.number,
    {
        self.number
    }

    /// Goes on with whether the candidate exists: a taken candidate gives way to the
    /// next number, a free one is the outcome.
    pub fn resume(self, exists: bool) -> (r: Yield)
        requires
            self@.number < usize::MAX,
        ensures
            exists ==> (r matches Yield::WantsExists(w) && w@ == asking(
                self@.file_path,
                self@.formatted_date,
                self@.number + 1,
            )),
            !exists ==> (r matches Yield::Return(Some(RenameTo(p))) && p@ == self@.candidate),
    {
        if exists {
            let number = self.number + 1;
            let candidate = get_candidate(self.file_path.as_str(), self.formatted_date.as_str(), number);
            Yield::WantsExists(WantsExists { number, candidate, ..self })
        } else {
            Yield::Return(Some(RenameTo(self.candidate)))
        }
    }
}

/// `<file_path>.<formatted_date>.<number>`.
fn get_candidate(file_path: &str, formatted_date: &str, number: usize) -> (r: String)
    ensures
        r@ == candidate_name(file_path@, formatted_date@, number as nat),
{
    proof {
        reveal_strlit(".");
    }
    let r = String::from_str(file_path).concat(".").concat(formatted_date).concat(".").concat(
        format_decimal(number as u64).as_str(),
    );
    assert(r@ =~= candidate_name(file_path@, formatted_date@, number as nat));
    r
}

} // verus!
