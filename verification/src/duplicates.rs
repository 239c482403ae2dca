//! Finding a free name for a file whose own name may be taken.
//!
//! The resolver never looks at the filesystem itself. It says what is to be
//! asked, takes the answer, and says what is to be asked next, until the
//! file has a place or the search has failed.
use crate::paths::{
    directory_prefix, extension_of, last_component, split_extension, split_last_component,
    stem_of,
};
use crate::reporting::{next_count, Report, Reporting};
use crate::text::{decimal, lemma_decimal_digits, lemma_last_index_of, push_char, to_decimal};
use vstd::prelude::*;
use vstd::string::StringExecFns;

verus! {

/// How many other names are tried for one file.
pub const MAX_ATTEMPTS: u32 = 1000;

/// The smallest number that another name is made with.
pub const SUFFIX_MIN: u32 = 100;

/// The number that the numbers of other names stay below.
pub const SUFFIX_END: u32 = 100000;

/// What stands between the stem of a name and the number.
pub const DUPLICATE_MARK: &'static str = "_duplicate_";

/// A number drawn at random from `low` up to, not including, `high`. Wraps
/// `rand::Rng::random_range` on the generator of the thread, `rand::rng`:
/// the number lies in the range, and nothing else is known of it.
#[verifier::external_body]
fn random_in(low: u32, high: u32) -> (n: u32)
    requires
        low < high,
    ensures
        low <= n < high,
{
    rand::Rng::random_range(&mut rand::rng(), low..high)
}

/// Another name for `desired`: in the same directory, the stem of the file
/// name, the mark, the number, and the extension.
pub open spec fn candidate_text(desired: Seq<char>, number: nat) -> Seq<char> {
    directory_prefix(desired) + stem_of(last_component(desired)) + DUPLICATE_MARK@ + decimal(number)
        + extension_of(last_component(desired))
}

/// Makes another name for `desired` with the given number.
pub fn candidate(desired: &str, number: u32) -> (r: String)
    ensures
        r@ == candidate_text(desired@, number as nat),
{
    let (mut out, name) = split_last_component(desired);
    let (stem, extension) = split_extension(name.as_str());
    out.append(stem.as_str());
    out.append(DUPLICATE_MARK);
    out.append(to_decimal(number as u64).as_str());
    out.append(extension.as_str());
    out
}

/// Another name is never the name it was made for.
pub proof fn lemma_candidate_differs(desired: Seq<char>, number: nat)
    ensures
        candidate_text(desired, number) != desired,
        candidate_text(desired, number).len() > desired.len(),
{
    let name = last_component(desired);
    lemma_last_index_of(desired, '/');
    lemma_last_index_of(name, '.');
    lemma_decimal_digits(number);
    assert(directory_prefix(desired).len() + name.len() == desired.len());
    assert(stem_of(name).len() + extension_of(name).len() == name.len());
}

/// Which question the resolver is at.
#[derive(Clone, Copy, Debug, PartialEq, Eq, Structural)]
pub enum Phase {
    /// Whether the desired path is a directory.
    Directory,
    /// Whether the desired path exists.
    Desired,
    /// Whether another name exists.
    Candidate,
}

/// What is asked of the filesystem.
#[derive(Clone, Copy, Debug, PartialEq, Eq, Structural)]
pub enum ProbeKind {
    /// Is the path a directory?
    IsDirectory,
    /// Does anything exist at the path?
    Exists,
}

/// A question to the filesystem.
#[derive(Debug)]
pub struct Probe {
    pub kind: ProbeKind,
    pub path: String,
}

/// The answer to a question.
#[derive(Debug)]
pub enum Answer {
    Yes,
    No,
    /// The filesystem could not tell; the text says why.
    Failed(String),
}

/// Where a file is to go.
#[derive(Debug)]
pub struct Placement {
    /// The path that is free.
    pub path: String,
    /// Whether the path is another name than the desired one.
    pub renamed: bool,
}

/// Why a file has no place.
#[derive(Debug)]
pub enum PlaceError {
    /// The desired path is a directory.
    IsDirectory,
    /// Every name that was tried for the path is taken.
    Exhausted(String),
    /// The filesystem could not tell whether a path exists; the text says
    /// why.
    Io(String),
}

/// A [`PlaceError`] as plain value.
pub enum Failure {
    IsDirectory,
    Exhausted(Seq<char>),
    Io(Seq<char>),
}

impl View for PlaceError {
    type V = Failure;

    open spec fn view(&self) -> Failure {
        match *self {
            PlaceError::IsDirectory => Failure::IsDirectory,
            PlaceError::Exhausted(path) => Failure::Exhausted(path@),
            PlaceError::Io(reason) => Failure::Io(reason@),
        }
    }
}

/// What the message of a failure is.
pub open spec fn failure_text(failure: Failure) -> Seq<char> {
    match failure {
        Failure::IsDirectory => "Error when checking for duplication in target directory"@,
        Failure::Exhausted(path) => "Unable to find a unique filename after 1000 attempts for \""@
            + path + seq!['"'],
        Failure::Io(reason) => reason,
    }
}

impl PlaceError {
    /// The failure in words.
    pub fn message(&self) -> (r: String)
        ensures
            r@ == failure_text(self@),
    {
        match self {
            PlaceError::IsDirectory => {
                "Error when checking for duplication in target directory".to_owned()
            },
            PlaceError::Exhausted(path) => {
                let mut out =
                    "Unable to find a unique filename after 1000 attempts for \"".to_owned();
                out.append(path.as_str());
                push_char(&mut out, '"');
                out
            },
            PlaceError::Io(reason) => reason.clone(),
        }
    }
}

/// The state of a resolver as plain values.
pub struct ResolverState {
    /// The path that the file should have.
    pub desired: Seq<char>,
    pub phase: Phase,
    /// The other name that is being asked about.
    pub candidate: Seq<char>,
    /// How many other names were made so far.
    pub attempts: nat,
}

/// How far a resolver has come.
pub enum Progress {
    /// A further question is to be asked.
    Ask(ResolverState),
    /// The path is free.
    Placed { path: Seq<char>, renamed: bool },
    /// The file has no place.
    Refused(Failure),
}

impl ResolverState {
    /// The state before the first question.
    pub open spec fn start(desired: Seq<char>) -> ResolverState {
        ResolverState { desired, phase: Phase::Directory, candidate: Seq::empty(), attempts: 0 }
    }

    /// What holds of every state that a run can reach: while another name
    /// is asked about, it was made for the desired path with a number of
    /// the range, and no more names were made than are allowed.
    pub open spec fn inv(self) -> bool {
        self.phase is Candidate ==> 1 <= self.attempts <= MAX_ATTEMPTS && exists|n: nat|
            SUFFIX_MIN <= n < SUFFIX_END && self.candidate == #[trigger] candidate_text(
                self.desired,
                n,
            )
    }

    /// The kind of the question that is to be asked.
    pub open spec fn asks(self) -> ProbeKind {
        match self.phase {
            Phase::Directory => ProbeKind::IsDirectory,
            _ => ProbeKind::Exists,
        }
    }

    /// The path that the question is about.
    pub open spec fn asks_about(self) -> Seq<char> {
        match self.phase {
            Phase::Candidate => self.candidate,
            _ => self.desired,
        }
    }

    /// The state, or the end, that an answer leads to. `number` is what the
    /// next name is made with, should one be needed.
    ///
    /// A desired path that is a directory is refused; any other answer to
    /// that first question counts as a no. A desired path that does not
    /// exist is the place of the file. Otherwise other names are asked
    /// about, one after the other, until one does not exist or as many were
    /// tried as are allowed. Where the filesystem cannot tell whether a path
    /// exists, the search ends with that failure.
    pub open spec fn advance(self, answer: Answer, number: nat) -> Progress {
        match self.phase {
            Phase::Directory => match answer {
                Answer::Yes => Progress::Refused(Failure::IsDirectory),
                _ => Progress::Ask(ResolverState { phase: Phase::Desired, ..self }),
            },
            Phase::Desired => match answer {
                Answer::No => Progress::Placed { path: self.desired, renamed: false },
                Answer::Failed(reason) => Progress::Refused(Failure::Io(reason@)),
                Answer::Yes => Progress::Ask(
                    ResolverState {
                        phase: Phase::Candidate,
                        candidate: candidate_text(self.desired, number),
                        attempts: 1,
                        ..self
                    },
                ),
            },
            Phase::Candidate => match answer {
                Answer::No => Progress::Placed { path: self.candidate, renamed: true },
                Answer::Failed(reason) => Progress::Refused(Failure::Io(reason@)),
                Answer::Yes => if self.attempts >= MAX_ATTEMPTS {
                    Progress::Refused(Failure::Exhausted(self.desired))
                } else {
                    Progress::Ask(
                        ResolverState {
                            candidate: candidate_text(self.desired, number),
                            attempts: self.attempts + 1,
                            ..self
                        },
                    )
                },
            },
        }
    }
}

/// The tallies after a step of a resolver: a file that was placed under
/// another name is counted as renamed; nothing else is counted.
pub open spec fn report_after(report: Report, progress: Progress) -> Report {
    match progress {
        Progress::Placed { renamed: true, .. } => Report {
            duplicates: next_count(report.duplicates),
            ..report
        },
        _ => report,
    }
}

/// A search for a free name, between two questions.
#[derive(Debug)]
pub struct DuplicateResolver {
    desired: String,
    phase: Phase,
    candidate: String,
    attempts: u32,
}

impl View for DuplicateResolver {
    type V = ResolverState;

    closed spec fn view(&self) -> ResolverState {
        ResolverState {
            desired: self.desired@,
            phase: self.phase,
            candidate: self.candidate@,
            attempts: self.attempts as nat,
        }
    }
}

/// A search after an answer: it goes on, or it has ended.
#[derive(Debug)]
pub enum Resolution {
    /// The resolver has a further question.
    Ask(DuplicateResolver),
    /// The search has ended.
    Done(Result<Placement, PlaceError>),
}

impl View for Resolution {
    type V = Progress;

    open spec fn view(&self) -> Progress {
        match *self {
            Resolution::Ask(resolver) => Progress::Ask(resolver@),
            Resolution::Done(Ok(placement)) => Progress::Placed {
                path: placement.path@,
                renamed: placement.renamed,
            },
            Resolution::Done(Err(error)) => Progress::Refused(error@),
        }
    }
}

impl DuplicateResolver {
    /// Starts the search of a place for a file that should go to `desired`.
    pub fn start(desired: String) -> (r: DuplicateResolver)
        ensures
            r@ == ResolverState::start(desired@),
            r@.inv(),
    {
        DuplicateResolver {
            desired,
            phase: Phase::Directory,
            candidate: String::new(),
            attempts: 0,
        }
    }

    /// The question that is to be asked next.
    pub fn probe(&self) -> (r: Probe)
        ensures
            r.kind == self@.asks(),
            r.path@ == self@.asks_about(),
    {
        match self.phase {
            Phase::Directory => Probe { kind: ProbeKind::IsDirectory, path: self.desired.clone() },
            Phase::Desired => Probe { kind: ProbeKind::Exists, path: self.desired.clone() },
            Phase::Candidate => Probe { kind: ProbeKind::Exists, path: self.candidate.clone() },
        }
    }

    /// Takes the answer to the question, and `number` for the next name.
    pub fn advance(self, answer: Answer, number: u32, reporting: &mut Reporting) -> (r: Resolution)
        ensures
            r@ == self@.advance(answer, number as nat),
            final(reporting)@ == report_after(old(reporting)@, r@),
    {
        match self.phase {
            Phase::Directory => match answer {
                Answer::Yes => Resolution::Done(Err(PlaceError::IsDirectory)),
                _ => Resolution::Ask(
                    DuplicateResolver {
                        desired: self.desired,
                        phase: Phase::Desired,
                        candidate: self.candidate,
                        attempts: self.attempts,
                    },
                ),
            },
            Phase::Desired => match answer {
                Answer::No => Resolution::Done(
                    Ok(Placement { path: self.desired, renamed: false }),
                ),
                Answer::Failed(reason) => Resolution::Done(Err(PlaceError::Io(reason))),
                Answer::Yes => {
                    let other = candidate(self.desired.as_str(), number);
                    Resolution::Ask(
                        DuplicateResolver {
                            desired: self.desired,
                            phase: Phase::Candidate,
                            candidate: other,
                            attempts: 1,
                        },
                    )
                },
            },
            Phase::Candidate => match answer {
                Answer::No => {
                    reporting.duplicate_renamed();
                    Resolution::Done(Ok(Placement { path: self.candidate, renamed: true }))
                },
                Answer::Failed(reason) => Resolution::Done(Err(PlaceError::Io(reason))),
                Answer::Yes => {
                    if self.attempts >= MAX_ATTEMPTS {
                        Resolution::Done(Err(PlaceError::Exhausted(self.desired)))
                    } else {
                        let other = candidate(self.desired.as_str(), number);
                        Resolution::Ask(
                            DuplicateResolver {
                                desired: self.desired,
                                phase: Phase::Candidate,
                                candidate: other,
                                attempts: self.attempts + 1,
                            },
                        )
                    }
                },
            },
        }
    }

    /// Takes the answer to the question. The number for the next name is
    /// drawn at random, anew at each step.
    pub fn step(self, answer: Answer, reporting: &mut Reporting) -> (r: Resolution)
        ensures
            exists|number: nat|
                SUFFIX_MIN <= number < SUFFIX_END && r@ == #[trigger] self@.advance(answer, number),
            final(reporting)@ == report_after(old(reporting)@, r@),
    {
        let number = random_in(SUFFIX_MIN, SUFFIX_END);
        let ghost before = self@;
        let r = self.advance(answer, number, reporting);
        assert(r@ == before.advance(answer, number as nat));
        r
    }
}

/// Whatever the answers and the numbers drawn, a search keeps to the rules.
///
/// A place is given only on the answer that nothing exists at the path
/// asked about, and it is that path: the desired path, not renamed, or
/// another name, renamed, which differs from the desired path. A search
/// that goes on has made one more name at most, never more than allowed.
pub proof fn lemma_search_keeps_rules(state: ResolverState, answer: Answer, number: nat)
    requires
        state.inv(),
        SUFFIX_MIN <= number < SUFFIX_END,
    ensures
        match state.advance(answer, number) {
            Progress::Ask(next) => next.inv() && next.desired == state.desired && next.attempts
                <= state.attempts + 1,
            Progress::Placed { path, renamed } => answer is No && state.asks() is Exists && path
                == state.asks_about() && (renamed <==> path != state.desired),
            Progress::Refused(failure) => match failure {
                Failure::IsDirectory => state.phase is Directory && answer is Yes,
                Failure::Exhausted(path) => path == state.desired && state.attempts
                    == MAX_ATTEMPTS && answer is Yes,
                Failure::Io(_) => answer is Failed,
            },
        },
{
    if state.phase is Candidate {
        let n = choose|n: nat|
            SUFFIX_MIN <= n < SUFFIX_END && state.candidate == #[trigger] candidate_text(
                state.desired,
                n,
            );
        lemma_candidate_differs(state.desired, n);
    }
    match state.advance(answer, number) {
        Progress::Ask(next) => {
            if next.phase is Candidate {
                assert(next.candidate == candidate_text(next.desired, number));
            }
        },
        _ => {},
    }
}

/// A path at which nothing exists is the place of the file, unchanged.
pub proof fn lemma_free_path_is_kept(desired: Seq<char>, first: Answer, number: nat)
    requires
        !(first is Yes),
    ensures
        ResolverState::start(desired).advance(first, number) matches Progress::Ask(next)
            && next.advance(Answer::No, number) == (Progress::Placed {
            path: desired,
            renamed: false,
        }),
{
}

} // verus!
