//! Bringing a working copy to a pinned revision.
//!
//! The update is a state machine. It never touches a repository itself: it
//! names the next [`Action`], the caller performs it on the working copy and
//! reports what came of it as an [`Event`], until the machine finishes.

use vstd::prelude::*;
use crate::text::texts;

verus! {

/// The status bits of a path that is new in the working tree and unknown to
/// the index, as libgit2 numbers them.
pub const WT_NEW: u32 = 128;

/// How often a working copy with a foreign remote is thrown away and cloned
/// again before the update gives up.
pub const DEFAULT_HEALS: usize = 3;

/// Whether `c` is a hexadecimal digit, in either case.
pub open spec fn is_hex_digit(c: char) -> bool {
    ('0' <= c && c <= '9') || ('a' <= c && c <= 'f') || ('A' <= c && c <= 'F')
}

/// Whether `rev` has the form of an object id: one to forty hexadecimal
/// digits.
pub open spec fn is_object_id(rev: Seq<char>) -> bool {
    1 <= rev.len() <= 40 && forall|i: int| 0 <= i < rev.len() ==> is_hex_digit(#[trigger] rev[i])
}

/// Calls `git2::Oid::from_str` on `rev` and tells whether it succeeded.
/// Taken on trust, not proved: that the parser accepts `rev` exactly when it
/// is not empty, is at most forty characters long and holds hexadecimal
/// digits only.
#[verifier::external_body]
fn parses_as_oid(rev: &str) -> (parsed: bool)
    ensures
        parsed == is_object_id(rev@),
{
    git2::Oid::from_str(rev).is_ok()
}

/// One line of a working copy's status report.
#[derive(Clone, Debug, PartialEq, Eq)]
pub struct StatusEntry {
    /// The status bits of the path.
    pub bits: u32,
    /// The path, relative to the working copy's root, where it is valid text.
    pub path: Option<String>,
}

/// The mathematical value of a [`StatusEntry`].
pub struct StatusEntryView {
    pub bits: u32,
    pub path: Option<Seq<char>>,
}

impl View for StatusEntry {
    type V = StatusEntryView;

    open spec fn view(&self) -> StatusEntryView {
        StatusEntryView {
            bits: self.bits,
            path: match self.path {
                Some(p) => Some(p@),
                None => None,
            },
        }
    }
}

/// The values of a status report.
pub open spec fn report(entries: Seq<StatusEntry>) -> Seq<StatusEntryView> {
    entries.map_values(|e: StatusEntry| e@)
}

/// Whether a status line names an untracked path that can be deleted.
pub open spec fn is_untracked(entry: StatusEntryView) -> bool {
    entry.bits == WT_NEW && entry.path.is_some()
}

/// The paths of the untracked lines of a status report, in report order.
pub open spec fn untracked(entries: Seq<StatusEntryView>) -> Seq<Seq<char>>
    decreases entries.len(),
{
    if entries.len() == 0 {
        Seq::empty()
    } else if is_untracked(entries.last()) {
        untracked(entries.drop_last()).push(entries.last().path.unwrap())
    } else {
        untracked(entries.drop_last())
    }
}

/// A working copy is dirty when its status report has any line at all.
pub fn is_dirty(entries: &Vec<StatusEntry>) -> (dirty: bool)
    ensures
        dirty == (report(entries@).len() > 0),
{
    entries.len() > 0
}

/// The paths that a clean-up deletes: those of the untracked lines.
pub fn untracked_paths(entries: &Vec<StatusEntry>) -> (paths: Vec<String>)
    ensures
        texts(paths@) == untracked(report(entries@)),
{
    let mut paths: Vec<String> = Vec::new();
    let mut i: usize = 0;
    assert(report(entries@).take(0) =~= Seq::<StatusEntryView>::empty());
    assert(texts(paths@) =~= Seq::<Seq<char>>::empty());
    while i < entries.len()
        invariant
            i <= entries.len(),
            texts(paths@) == untracked(report(entries@).take(i as int)),
        decreases entries.len() - i,
    {
        let ghost before = report(entries@).take(i as int);
        let ghost upto = report(entries@).take(i + 1);
        assert(upto.drop_last() =~= before);
        assert(upto.last() == entries@[i as int]@);
        let entry = &entries[i];
        if entry.bits == WT_NEW {
            match &entry.path {
                Some(p) => {
                    let ghost old_paths = paths@;
                    paths.push(p.clone());
                    assert(texts(paths@) =~= texts(old_paths).push(p@));
                },
                None => {},
            }
        }
        i += 1;
    }
    assert(report(entries@).take(entries@.len() as int) =~= report(entries@));
    paths
}

/// Why an update did not bring the working copy to its revision.
#[derive(Clone, Debug, PartialEq, Eq)]
pub enum UpdateError {
    /// An operation on the repository failed; the text is the backend's.
    Git(String),
    /// The revision is neither a commit of the working copy nor a name that
    /// the remote knows.
    RevNotFound(String),
    /// The working copy has no root directory.
    RepoNotFound,
    /// The working copy still points at another remote after it was thrown
    /// away as often as the update allows.
    RemoteMismatch,
    /// An event was reported that does not answer the pending action.
    UnexpectedEvent,
}

/// The mathematical value of an [`UpdateError`].
pub enum UpdateErrorView {
    Git(Seq<char>),
    RevNotFound(Seq<char>),
    RepoNotFound,
    RemoteMismatch,
    UnexpectedEvent,
}

impl View for UpdateError {
    type V = UpdateErrorView;

    open spec fn view(&self) -> UpdateErrorView {
        match self {
            UpdateError::Git(m) => UpdateErrorView::Git(m@),
            UpdateError::RevNotFound(r) => UpdateErrorView::RevNotFound(r@),
            UpdateError::RepoNotFound => UpdateErrorView::RepoNotFound,
            UpdateError::RemoteMismatch => UpdateErrorView::RemoteMismatch,
            UpdateError::UnexpectedEvent => UpdateErrorView::UnexpectedEvent,
        }
    }
}

/// What the caller is asked to do next.
#[derive(Debug, PartialEq, Eq)]
pub enum Action {
    /// Report whether the local path exists: `Event::Exists`.
    ProbePath,
    /// Open the working copy at the local path.
    OpenRepository,
    /// Clone the remote into the local path, with credentials.
    CloneRepository,
    /// Report the URL that the working copy records for its remote:
    /// `Event::RemoteUrl`.
    ReadRemoteUrl,
    /// Delete the local path and all below it.
    RemoveWorkingCopy,
    /// Look the revision up as an exact commit id: `Event::Commit`.
    ResolveExact,
    /// Fetch the revision by name from the remote and report the commit that
    /// was fetched: `Event::Commit`.
    FetchRevision,
    /// Report the commit that is checked out: `Event::Commit`.
    ReadHead,
    /// Report the status of the working tree, untracked paths included, and
    /// the working copy's root: `Event::Status`.
    ReadStatus,
    /// Write the tree of the commit into the working directory.
    CheckoutTree(String),
    /// Reset index and working tree to the commit, discarding changes.
    ResetHard(String),
    /// Delete each of the paths below the root; a path that cannot be
    /// deleted is passed over.
    RemoveUntracked { root: String, paths: Vec<String> },
    /// Point the head at the commit, detached from any branch.
    DetachHead(String),
    /// Stop: the update is over, with this result.
    Finish(Result<(), UpdateError>),
}

/// The mathematical value of an [`Action`].
pub enum ActionView {
    ProbePath,
    OpenRepository,
    CloneRepository,
    ReadRemoteUrl,
    RemoveWorkingCopy,
    ResolveExact,
    FetchRevision,
    ReadHead,
    ReadStatus,
    CheckoutTree(Seq<char>),
    ResetHard(Seq<char>),
    RemoveUntracked { root: Seq<char>, paths: Seq<Seq<char>> },
    DetachHead(Seq<char>),
    Finish(Result<(), UpdateErrorView>),
}

impl View for Action {
    type V = ActionView;

    open spec fn view(&self) -> ActionView {
        match self {
            Action::ProbePath => ActionView::ProbePath,
            Action::OpenRepository => ActionView::OpenRepository,
            Action::CloneRepository => ActionView::CloneRepository,
            Action::ReadRemoteUrl => ActionView::ReadRemoteUrl,
            Action::RemoveWorkingCopy => ActionView::RemoveWorkingCopy,
            Action::ResolveExact => ActionView::ResolveExact,
            Action::FetchRevision => ActionView::FetchRevision,
            Action::ReadHead => ActionView::ReadHead,
            Action::ReadStatus => ActionView::ReadStatus,
            Action::CheckoutTree(id) => ActionView::CheckoutTree(id@),
            Action::ResetHard(id) => ActionView::ResetHard(id@),
            Action::RemoveUntracked { root, paths } => ActionView::RemoveUntracked {
                root: root@,
                paths: texts(paths@),
            },
            Action::DetachHead(id) => ActionView::DetachHead(id@),
            Action::Finish(Ok(_)) => ActionView::Finish(Ok(())),
            Action::Finish(Err(e)) => ActionView::Finish(Err(e@)),
        }
    }
}

/// What came of the action that was asked for.
#[derive(Clone, Debug, PartialEq, Eq)]
pub enum Event {
    /// Whether the local path exists.
    Exists(bool),
    /// The action was carried out.
    Done,
    /// The action failed; the text is the backend's.
    Failed(String),
    /// The URL that the working copy records for its remote.
    RemoteUrl(String),
    /// The id of the commit that was asked for, where there is one.
    Commit(Option<String>),
    /// The status report, and the working copy's root where it has one.
    Status { entries: Vec<StatusEntry>, root: Option<String> },
}

/// The mathematical value of an [`Event`].
pub enum EventView {
    Exists(bool),
    Done,
    Failed(Seq<char>),
    RemoteUrl(Seq<char>),
    Commit(Option<Seq<char>>),
    Status { entries: Seq<StatusEntryView>, root: Option<Seq<char>> },
}

impl View for Event {
    type V = EventView;

    open spec fn view(&self) -> EventView {
        match self {
            Event::Exists(b) => EventView::Exists(*b),
            Event::Done => EventView::Done,
            Event::Failed(m) => EventView::Failed(m@),
            Event::RemoteUrl(u) => EventView::RemoteUrl(u@),
            Event::Commit(Some(id)) => EventView::Commit(Some(id@)),
            Event::Commit(None) => EventView::Commit(None),
            Event::Status { entries, root } => EventView::Status {
                entries: report(entries@),
                root: match root {
                    Some(r) => Some(r@),
                    None => None,
                },
            },
        }
    }
}

/// Where an update stands: the action that is pending.
#[derive(Clone, Copy, Debug, PartialEq, Eq, Structural)]
pub enum Phase {
    Probing,
    Opening,
    Cloning,
    ReadingRemote,
    Removing,
    ResolvingExact,
    Fetching,
    ReadingHead,
    Materializing,
    Inspecting,
    Resetting,
    Surveying,
    Cleaning,
    Repositioning,
    Finished,
}

/// The mathematical value of a [`RepoUpdate`].
pub struct UpdateView {
    /// The remote that the working copy must belong to.
    pub url: Seq<char>,
    /// The revision that is asked for.
    pub rev: Seq<char>,
    /// Whether the revision has the form of an object id.
    pub exact: bool,
    /// How often the working copy may still be thrown away.
    pub heals_left: nat,
    pub phase: Phase,
    /// The commit id that the revision resolved to; empty before that.
    pub target: Seq<char>,
    /// Whether the tree of another commit than the head's was written.
    pub moved: bool,
}

/// The state in which every update starts; its pending action is
/// `ProbePath`.
pub open spec fn initial(url: Seq<char>, rev: Seq<char>, heals: nat) -> UpdateView {
    UpdateView {
        url,
        rev,
        exact: is_object_id(rev),
        heals_left: heals,
        phase: Phase::Probing,
        target: Seq::empty(),
        moved: false,
    }
}

/// The update moves on to `phase` and asks for `action`.
pub open spec fn go(s: UpdateView, phase: Phase, action: ActionView) -> (UpdateView, ActionView) {
    (UpdateView { phase, ..s }, action)
}

/// The update ends with `error`.
pub open spec fn fail(s: UpdateView, error: UpdateErrorView) -> (UpdateView, ActionView) {
    go(s, Phase::Finished, ActionView::Finish(Err(error)))
}

/// The working tree is clean: the head follows where a tree was written,
/// and the update is over where none was.
pub open spec fn settle(s: UpdateView) -> (UpdateView, ActionView) {
    if s.moved {
        go(s, Phase::Repositioning, ActionView::DetachHead(s.target))
    } else {
        go(s, Phase::Finished, ActionView::Finish(Ok(())))
    }
}

/// An event that answers no question of the current phase: a failure ends
/// the update with the backend's text, anything else is out of turn.
pub open spec fn stray(s: UpdateView, e: EventView) -> (UpdateView, ActionView) {
    match e {
        EventView::Failed(m) => fail(s, UpdateErrorView::Git(m)),
        _ => fail(s, UpdateErrorView::UnexpectedEvent),
    }
}

/// The transition function of the update: the state after `e` was reported
/// in state `s`, and the action that is asked for next.
pub open spec fn step(s: UpdateView, e: EventView) -> (UpdateView, ActionView) {
    match s.phase {
        Phase::Probing => match e {
            EventView::Exists(true) => go(s, Phase::Opening, ActionView::OpenRepository),
            EventView::Exists(false) => go(s, Phase::Cloning, ActionView::CloneRepository),
            _ => stray(s, e),
        },
        Phase::Opening | Phase::Cloning => match e {
            EventView::Done => go(s, Phase::ReadingRemote, ActionView::ReadRemoteUrl),
            _ => stray(s, e),
        },
        Phase::ReadingRemote => match e {
            EventView::RemoteUrl(found) => if found == s.url {
                if s.exact {
                    go(s, Phase::ResolvingExact, ActionView::ResolveExact)
                } else {
                    go(s, Phase::Fetching, ActionView::FetchRevision)
                }
            } else if s.heals_left > 0 {
                go(
                    UpdateView { heals_left: (s.heals_left - 1) as nat, ..s },
                    Phase::Removing,
                    ActionView::RemoveWorkingCopy,
                )
            } else {
                fail(s, UpdateErrorView::RemoteMismatch)
            },
            _ => stray(s, e),
        },
        Phase::Removing => match e {
            EventView::Done | EventView::Failed(_) => go(s, Phase::Probing, ActionView::ProbePath),
            _ => stray(s, e),
        },
        Phase::ResolvingExact => match e {
            EventView::Commit(Some(id)) => go(
                UpdateView { target: id, ..s },
                Phase::ReadingHead,
                ActionView::ReadHead,
            ),
            EventView::Commit(None) | EventView::Failed(_) => go(
                s,
                Phase::Fetching,
                ActionView::FetchRevision,
            ),
            _ => stray(s, e),
        },
        Phase::Fetching => match e {
            EventView::Commit(Some(id)) => go(
                UpdateView { target: id, ..s },
                Phase::ReadingHead,
                ActionView::ReadHead,
            ),
            EventView::Commit(None) => fail(s, UpdateErrorView::RevNotFound(s.rev)),
            _ => stray(s, e),
        },
        Phase::ReadingHead => match e {
            EventView::Commit(Some(head)) => if head == s.target {
                go(UpdateView { moved: false, ..s }, Phase::Inspecting, ActionView::ReadStatus)
            } else {
                go(
                    UpdateView { moved: true, ..s },
                    Phase::Materializing,
                    ActionView::CheckoutTree(s.target),
                )
            },
            _ => stray(s, e),
        },
        Phase::Materializing => match e {
            EventView::Done => go(s, Phase::Inspecting, ActionView::ReadStatus),
            _ => stray(s, e),
        },
        Phase::Inspecting => match e {
            EventView::Status { entries, root } => if entries.len() == 0 {
                settle(s)
            } else {
                go(s, Phase::Resetting, ActionView::ResetHard(s.target))
            },
            _ => stray(s, e),
        },
        Phase::Resetting => match e {
            EventView::Done => go(s, Phase::Surveying, ActionView::ReadStatus),
            _ => stray(s, e),
        },
        Phase::Surveying => match e {
            EventView::Status { entries, root } => match root {
                None => fail(s, UpdateErrorView::RepoNotFound),
                Some(r) => if untracked(entries).len() == 0 {
                    settle(s)
                } else {
                    go(
                        s,
                        Phase::Cleaning,
                        ActionView::RemoveUntracked { root: r, paths: untracked(entries) },
                    )
                },
            },
            _ => stray(s, e),
        },
        Phase::Cleaning => match e {
            EventView::Done | EventView::Failed(_) => settle(s),
            _ => stray(s, e),
        },
        Phase::Repositioning => match e {
            EventView::Done => go(s, Phase::Finished, ActionView::Finish(Ok(()))),
            _ => stray(s, e),
        },
        Phase::Finished => fail(s, UpdateErrorView::UnexpectedEvent),
    }
}

/// An update of one working copy to one revision.
#[derive(Debug)]
pub struct RepoUpdate {
    url: String,
    rev: String,
    exact: bool,
    heals_left: usize,
    phase: Phase,
    target: String,
    moved: bool,
}

impl View for RepoUpdate {
    type V = UpdateView;

    closed spec fn view(&self) -> UpdateView {
        UpdateView {
            url: self.url@,
            rev: self.rev@,
            exact: self.exact,
            heals_left: self.heals_left as nat,
            phase: self.phase,
            target: self.target@,
            moved: self.moved,
        }
    }
}

impl RepoUpdate {
    /// Starts an update of the working copy of `url` to `rev`, which may
    /// throw a foreign working copy away `heals` times. The first action is
    /// always `ProbePath`.
    pub fn begin(url: &str, rev: &str, heals: usize) -> (started: (Self, Action))
        ensures
            started.0@ == initial(url@, rev@, heals as nat),
            started.1@ == ActionView::ProbePath,
    {
        let update = RepoUpdate {
            url: url.to_owned(),
            rev: rev.to_owned(),
            exact: parses_as_oid(rev),
            heals_left: heals,
            phase: Phase::Probing,
            target: String::new(),
            moved: false,
        };
        (update, Action::ProbePath)
    }

    /// Whether the update is over.
    pub fn is_finished(&self) -> (over: bool)
        ensures
            over == (self@.phase == Phase::Finished),
    {
        match self.phase {
            Phase::Finished => true,
            _ => false,
        }
    }

    fn go(&mut self, phase: Phase, action: Action) -> (next: Action)
        ensures
            (final(self)@, next@) == go(old(self)@, phase, action@),
    {
        self.phase = phase;
        action
    }

    fn fail(&mut self, error: UpdateError) -> (next: Action)
        ensures
            (final(self)@, next@) == fail(old(self)@, error@),
    {
        self.phase = Phase::Finished;
        Action::Finish(Err(error))
    }

    fn settle(&mut self) -> (next: Action)
        ensures
            (final(self)@, next@) == settle(old(self)@),
    {
        if self.moved {
            self.phase = Phase::Repositioning;
            Action::DetachHead(self.target.clone())
        } else {
            self.phase = Phase::Finished;
            Action::Finish(Ok(()))
        }
    }

    fn stray(&mut self, event: Event) -> (next: Action)
        ensures
            (final(self)@, next@) == stray(old(self)@, event@),
    {
        match event {
            Event::Failed(m) => self.fail(UpdateError::Git(m)),
            _ => self.fail(UpdateError::UnexpectedEvent),
        }
    }

    /// Takes in what came of the pending action and names the next one, as
    /// `step` says.
    pub fn advance(&mut self, event: Event) -> (next: Action)
        ensures
            (final(self)@, next@) == step(old(self)@, event@),
    {
        match self.phase {
            Phase::Probing => match event {
                Event::Exists(true) => self.go(Phase::Opening, Action::OpenRepository),
                Event::Exists(false) => self.go(Phase::Cloning, Action::CloneRepository),
                other => self.stray(other),
            },
            Phase::Opening | Phase::Cloning => match event {
                Event::Done => self.go(Phase::ReadingRemote, Action::ReadRemoteUrl),
                other => self.stray(other),
            },
            Phase::ReadingRemote => match event {
                Event::RemoteUrl(found) => {
                    if found == self.url {
                        if self.exact {
                            self.go(Phase::ResolvingExact, Action::ResolveExact)
                        } else {
                            self.go(Phase::Fetching, Action::FetchRevision)
                        }
                    } else if self.heals_left > 0 {
                        self.heals_left = self.heals_left - 1;
                        self.go(Phase::Removing, Action::RemoveWorkingCopy)
                    } else {
                        self.fail(UpdateError::RemoteMismatch)
                    }
                },
                other => self.stray(other),
            },
            Phase::Removing => match event {
                Event::Done | Event::Failed(_) => self.go(Phase::Probing, Action::ProbePath),
                other => self.stray(other),
            },
            Phase::ResolvingExact => match event {
                Event::Commit(Some(id)) => {
                    self.target = id;
                    self.go(Phase::ReadingHead, Action::ReadHead)
                },
                Event::Commit(None) | Event::Failed(_) => self.go(
                    Phase::Fetching,
                    Action::FetchRevision,
                ),
                other => self.stray(other),
            },
            Phase::Fetching => match event {
                Event::Commit(Some(id)) => {
                    self.target = id;
                    self.go(Phase::ReadingHead, Action::ReadHead)
                },
                Event::Commit(None) => {
                    let rev = self.rev.clone();
                    self.fail(UpdateError::RevNotFound(rev))
                },
                other => self.stray(other),
            },
            Phase::ReadingHead => match event {
                Event::Commit(Some(head)) => {
                    if head == self.target {
                        self.moved = false;
                        self.go(Phase::Inspecting, Action::ReadStatus)
                    } else {
                        self.moved = true;
                        let target = self.target.clone();
                        self.go(Phase::Materializing, Action::CheckoutTree(target))
                    }
                },
                other => self.stray(other),
            },
            Phase::Materializing => match event {
                Event::Done => self.go(Phase::Inspecting, Action::ReadStatus),
                other => self.stray(other),
            },
            Phase::Inspecting => match event {
                Event::Status { entries, root } => {
                    if is_dirty(&entries) {
                        let target = self.target.clone();
                        self.go(Phase::Resetting, Action::ResetHard(target))
                    } else {
                        self.settle()
                    }
                },
                other => self.stray(other),
            },
            Phase::Resetting => match event {
                Event::Done => self.go(Phase::Surveying, Action::ReadStatus),
                other => self.stray(other),
            },
            Phase::Surveying => match event {
                Event::Status { entries, root } => match root {
                    None => self.fail(UpdateError::RepoNotFound),
                    Some(r) => {
                        let paths = untracked_paths(&entries);
                        if paths.len() == 0 {
                            self.settle()
                        } else {
                            self.go(Phase::Cleaning, Action::RemoveUntracked { root: r, paths })
                        }
                    },
                },
                other => self.stray(other),
            },
            Phase::Cleaning => match event {
                Event::Done | Event::Failed(_) => self.settle(),
                other => self.stray(other),
            },
            Phase::Repositioning => match event {
                Event::Done => self.go(Phase::Finished, Action::Finish(Ok(()))),
                other => self.stray(other),
            },
            Phase::Finished => self.fail(UpdateError::UnexpectedEvent),
        }
    }
}

/// How far a phase is from the end of an update that throws nothing away.
pub open spec fn phase_rank(phase: Phase) -> nat {
    match phase {
        Phase::Removing => 16,
        Phase::Probing => 15,
        Phase::Opening | Phase::Cloning => 14,
        Phase::ReadingRemote => 13,
        Phase::ResolvingExact => 12,
        Phase::Fetching => 11,
        Phase::ReadingHead => 10,
        Phase::Materializing => 9,
        Phase::Inspecting => 8,
        Phase::Resetting => 7,
        Phase::Surveying => 6,
        Phase::Cleaning => 5,
        Phase::Repositioning => 4,
        Phase::Finished => 0,
    }
}

/// A bound on the number of actions that an update in state `s` still asks
/// for.
pub open spec fn steps_left(s: UpdateView) -> nat {
    s.heals_left * 17 + phase_rank(s.phase)
}

/// Every update ends: each step of an unfinished update lowers `steps_left`,
/// so an update that may heal `h` times asks for fewer than `17 * (h + 1)`
/// actions, however often deleting the working copy fails. A step keeps URL
/// and revision, and asks to finish exactly when it enters the last phase.
pub proof fn lemma_step_progress(s: UpdateView, e: EventView)
    requires
        s.phase != Phase::Finished,
    ensures
        steps_left(step(s, e).0) < steps_left(s),
        step(s, e).0.url == s.url,
        step(s, e).0.rev == s.rev,
        step(s, e).0.heals_left <= s.heals_left,
        (step(s, e).1 is Finish) <==> step(s, e).0.phase == Phase::Finished,
{
}

/// The state of an update in `phase` that has thrown nothing away and
/// resolved nothing yet.
pub open spec fn at(phase: Phase, url: Seq<char>, rev: Seq<char>, heals: nat) -> UpdateView {
    UpdateView { phase, ..initial(url, rev, heals) }
}

/// An existing working copy with the right remote is opened and nothing is
/// cloned or deleted. A revision in the form of an object id is then looked
/// up as a commit; any other is fetched from the remote by name.
pub proof fn lemma_matching_copy_is_opened(url: Seq<char>, rev: Seq<char>, heals: nat)
    ensures
        ({
            let s0 = initial(url, rev, heals);
            let (s1, a1) = step(s0, EventView::Exists(true));
            let (s2, a2) = step(s1, EventView::Done);
            let (s3, a3) = step(s2, EventView::RemoteUrl(url));
            &&& a1 == ActionView::OpenRepository
            &&& a2 == ActionView::ReadRemoteUrl
            &&& is_object_id(rev) ==> a3 == ActionView::ResolveExact && s3 == at(
                Phase::ResolvingExact,
                url,
                rev,
                heals,
            )
            &&& !is_object_id(rev) ==> a3 == ActionView::FetchRevision && s3 == at(
                Phase::Fetching,
                url,
                rev,
                heals,
            )
        }),
{
}

/// A revision in the form of an object id that is no commit of the working
/// copy is fetched by name; a name that the remote does not know ends the
/// update with the revision in the error.
pub proof fn lemma_unknown_revision_is_named(url: Seq<char>, rev: Seq<char>, heals: nat)
    ensures
        ({
            let s0 = at(Phase::ResolvingExact, url, rev, heals);
            let (s1, a1) = step(s0, EventView::Commit(None));
            let (s2, a2) = step(s1, EventView::Commit(None));
            &&& a1 == ActionView::FetchRevision
            &&& s1 == at(Phase::Fetching, url, rev, heals)
            &&& a2 == ActionView::Finish(Err(UpdateErrorView::RevNotFound(rev)))
        }),
{
}

/// Idempotence: on a working copy whose head is the commit that the
/// revision resolves to and whose status report is empty, the update reads
/// and finishes with success; it writes nothing, and asks for nothing of
/// the remote once the revision is resolved. This holds whether the
/// revision was found as a commit or fetched by name.
pub proof fn lemma_converged_copy_is_left_alone(
    resolved_by_fetch: bool,
    url: Seq<char>,
    rev: Seq<char>,
    heals: nat,
    id: Seq<char>,
    root: Option<Seq<char>>,
)
    ensures
        ({
            let s0 = at(
                if resolved_by_fetch {
                    Phase::Fetching
                } else {
                    Phase::ResolvingExact
                },
                url,
                rev,
                heals,
            );
            let (s1, a1) = step(s0, EventView::Commit(Some(id)));
            let (s2, a2) = step(s1, EventView::Commit(Some(id)));
            let (s3, a3) = step(s2, EventView::Status { entries: Seq::empty(), root });
            &&& a1 == ActionView::ReadHead
            &&& a2 == ActionView::ReadStatus
            &&& a3 == ActionView::Finish(Ok(()))
        }),
{
}

/// Convergence under contamination: on a working copy whose head is the
/// target but whose status report is not empty, the update resets hard to
/// the target, asks for the status again, has every untracked path of that
/// second report deleted, and finishes with success whether or not the
/// deleting went well. The head is not moved and no tree is checked out.
pub proof fn lemma_dirty_copy_is_reset_and_cleaned(
    url: Seq<char>,
    rev: Seq<char>,
    heals: nat,
    id: Seq<char>,
    dirty: Seq<StatusEntryView>,
    left: Seq<StatusEntryView>,
    root: Seq<char>,
    deleted: bool,
    text: Seq<char>,
)
    requires
        dirty.len() > 0,
    ensures
        ({
            let s0 = at(Phase::ResolvingExact, url, rev, heals);
            let (s1, a1) = step(s0, EventView::Commit(Some(id)));
            let (s2, a2) = step(s1, EventView::Commit(Some(id)));
            let (s3, a3) = step(s2, EventView::Status { entries: dirty, root: Some(root) });
            let (s4, a4) = step(s3, EventView::Done);
            let (s5, a5) = step(s4, EventView::Status { entries: left, root: Some(root) });
            let (s6, a6) = step(
                s5,
                if deleted {
                    EventView::Done
                } else {
                    EventView::Failed(text)
                },
            );
            &&& a1 == ActionView::ReadHead
            &&& a2 == ActionView::ReadStatus
            &&& a3 == ActionView::ResetHard(id)
            &&& a4 == ActionView::ReadStatus
            &&& untracked(left).len() == 0 ==> a5 == ActionView::Finish(Ok(()))
            &&& untracked(left).len() > 0 ==> a5 == (ActionView::RemoveUntracked {
                root,
                paths: untracked(left),
            }) && a6 == ActionView::Finish(Ok(()))
        }),
{
}

/// Remote-drift self-heal: a working copy that records another remote is
/// deleted, whatever it holds, and where the path is then free the remote is
/// cloned afresh, even if the deleting was reported as failed. This costs
/// one of the allowed heals; with none left the update fails instead.
pub proof fn lemma_foreign_copy_is_replaced(
    url: Seq<char>,
    rev: Seq<char>,
    heals: nat,
    found: Seq<char>,
    deleted: bool,
    text: Seq<char>,
)
    requires
        found != url,
    ensures
        ({
            let s0 = initial(url, rev, heals);
            let (s1, a1) = step(s0, EventView::Exists(true));
            let (s2, a2) = step(s1, EventView::Done);
            let (s3, a3) = step(s2, EventView::RemoteUrl(found));
            let (s4, a4) = step(
                s3,
                if deleted {
                    EventView::Done
                } else {
                    EventView::Failed(text)
                },
            );
            let (s5, a5) = step(s4, EventView::Exists(false));
            let (s6, a6) = step(s5, EventView::Done);
            let (s7, a7) = step(s6, EventView::RemoteUrl(url));
            &&& a1 == ActionView::OpenRepository
            &&& a2 == ActionView::ReadRemoteUrl
            &&& heals > 0 ==> {
                &&& a3 == ActionView::RemoveWorkingCopy
                &&& a4 == ActionView::ProbePath
                &&& s4 == initial(url, rev, (heals - 1) as nat)
                &&& a5 == ActionView::CloneRepository
                &&& a6 == ActionView::ReadRemoteUrl
                &&& s7.phase == Phase::ResolvingExact || s7.phase == Phase::Fetching
            }
            &&& heals == 0 ==> a3 == ActionView::Finish(Err(UpdateErrorView::RemoteMismatch))
        }),
{
}

/// A head at another commit: the target's tree is written first, the tree
/// is cleaned where the status report is not empty, and only then the head
/// is moved to the target.
pub proof fn lemma_other_head_is_moved_last(
    url: Seq<char>,
    rev: Seq<char>,
    heals: nat,
    id: Seq<char>,
    head: Seq<char>,
    root: Option<Seq<char>>,
)
    requires
        head != id,
    ensures
        ({
            let s0 = at(Phase::ResolvingExact, url, rev, heals);
            let (s1, a1) = step(s0, EventView::Commit(Some(id)));
            let (s2, a2) = step(s1, EventView::Commit(Some(head)));
            let (s3, a3) = step(s2, EventView::Done);
            let (s4, a4) = step(s3, EventView::Status { entries: Seq::empty(), root });
            let (s5, a5) = step(s4, EventView::Done);
            &&& a1 == ActionView::ReadHead
            &&& a2 == ActionView::CheckoutTree(id)
            &&& a3 == ActionView::ReadStatus
            &&& a4 == ActionView::DetachHead(id)
            &&& a5 == ActionView::Finish(Ok(()))
        }),
{
}

/// A head at another commit whose checkout leaves a status report that is
/// not empty: the tree is reset to the target and its untracked paths are
/// deleted before the head is moved, and the head is moved whether or not
/// the deleting went well.
pub proof fn lemma_debris_is_cleaned_before_head_moves(
    url: Seq<char>,
    rev: Seq<char>,
    heals: nat,
    id: Seq<char>,
    head: Seq<char>,
    dirty: Seq<StatusEntryView>,
    left: Seq<StatusEntryView>,
    root: Seq<char>,
)
    requires
        head != id,
        dirty.len() > 0,
        untracked(left).len() > 0,
    ensures
        ({
            let s0 = at(Phase::ResolvingExact, url, rev, heals);
            let (s1, a1) = step(s0, EventView::Commit(Some(id)));
            let (s2, a2) = step(s1, EventView::Commit(Some(head)));
            let (s3, a3) = step(s2, EventView::Done);
            let (s4, a4) = step(s3, EventView::Status { entries: dirty, root: Some(root) });
            let (s5, a5) = step(s4, EventView::Done);
            let (s6, a6) = step(s5, EventView::Status { entries: left, root: Some(root) });
            let (s7, a7) = step(s6, EventView::Done);
            let (s8, a8) = step(s7, EventView::Done);
            &&& a2 == ActionView::CheckoutTree(id)
            &&& a3 == ActionView::ReadStatus
            &&& a4 == ActionView::ResetHard(id)
            &&& a5 == ActionView::ReadStatus
            &&& a6 == (ActionView::RemoveUntracked { root, paths: untracked(left) })
            &&& a7 == ActionView::DetachHead(id)
            &&& a8 == ActionView::Finish(Ok(()))
        }),
{
}

} // verus!
