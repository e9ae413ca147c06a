//! Synchronising a manifest: the plan says which working copies to update
//! and what to deploy where; the run carries the plan out step by step,
//! through a caller that does the work, and has the store directories that
//! no entry needs any more thrown away at the end.

use vstd::prelude::*;
use crate::text::texts;
use crate::manifest::{EntryView, Manifest};
use crate::store::{hex_digest, url_digest};

verus! {

/// How a synchronisation deploys.
#[derive(Clone, Debug, PartialEq, Eq)]
pub struct SyncOptions {
    /// The directory below which the destinations lie.
    pub base_path: String,
    /// Whether each destination gets a marker file that hides it from an
    /// enclosing repository.
    pub ignore_generated: bool,
}

impl Default for SyncOptions {
    /// Deploys below the current directory, and marks each destination.
    fn default() -> (options: Self)
        ensures
            options.base_path@ == "."@,
            options.ignore_generated,
    {
        SyncOptions { base_path: ".".to_owned(), ignore_generated: true }
    }
}

/// What is done for one manifest entry.
#[derive(Clone, Debug, PartialEq, Eq)]
pub struct SyncStep {
    /// The name of the working copy's directory in the store.
    pub key: String,
    /// The remote of the working copy.
    pub url: String,
    /// The revision that the working copy is brought to.
    pub rev: String,
    /// Whether the working copy is updated before the deploy; where not, an
    /// earlier step has done so.
    pub update: bool,
    /// The subtree of the working copy that is copied.
    pub src_directory: String,
    /// The directory below the base path that is replaced by the copy.
    pub dest_directory: String,
}

/// The mathematical value of a [`SyncStep`].
pub struct SyncStepView {
    pub key: Seq<char>,
    pub url: Seq<char>,
    pub rev: Seq<char>,
    pub update: bool,
    pub src_directory: Seq<char>,
    pub dest_directory: Seq<char>,
}

impl View for SyncStep {
    type V = SyncStepView;

    open spec fn view(&self) -> SyncStepView {
        SyncStepView {
            key: self.key@,
            url: self.url@,
            rev: self.rev@,
            update: self.update,
            src_directory: self.src_directory@,
            dest_directory: self.dest_directory@,
        }
    }
}

/// The values of a plan.
pub open spec fn steps(plan: Seq<SyncStep>) -> Seq<SyncStepView> {
    plan.map_values(|s: SyncStep| s@)
}

/// The store keys of a manifest's entries, in manifest order.
pub open spec fn digests(entries: Seq<EntryView>) -> Seq<Seq<char>> {
    entries.map_values(|e: EntryView| url_digest(e.url))
}

/// Whether no key before position `i` equals the key at `i`.
pub open spec fn first_occurrence(keys: Seq<Seq<char>>, i: int) -> bool {
    forall|j: int| 0 <= j < i ==> keys[j] != keys[i]
}

/// The step for entry `i` of a manifest whose entries have the store keys
/// `keys`: the working copy is updated by the first entry of each key, and
/// every entry is deployed.
pub open spec fn step_for(entries: Seq<EntryView>, keys: Seq<Seq<char>>, i: int) -> SyncStepView {
    SyncStepView {
        key: keys[i],
        url: entries[i].url,
        rev: entries[i].rev,
        update: first_occurrence(keys, i),
        src_directory: entries[i].src_directory,
        dest_directory: entries[i].dest(),
    }
}

/// The plan for a manifest whose entries have the store keys `keys`: one
/// step per entry, in manifest order.
pub open spec fn planned_with(entries: Seq<EntryView>, keys: Seq<Seq<char>>) -> Seq<SyncStepView> {
    Seq::new(entries.len(), |i: int| step_for(entries, keys, i))
}

/// The plan for a manifest.
pub open spec fn planned(entries: Seq<EntryView>) -> Seq<SyncStepView> {
    planned_with(entries, digests(entries))
}

/// The predicate of a name that is none of `keys`.
pub open spec fn unlisted(keys: Seq<Seq<char>>) -> spec_fn(Seq<char>) -> bool {
    |name: Seq<char>| !keys.contains(name)
}

/// The names among `present` that are none of `keys`, in the order of
/// `present`.
pub open spec fn stale(keys: Seq<Seq<char>>, present: Seq<Seq<char>>) -> Seq<Seq<char>> {
    present.filter(unlisted(keys))
}

/// Whether `name` is one of the first `upto` of `keys`.
fn listed_before(keys: &Vec<String>, upto: usize, name: &String) -> (found: bool)
    requires
        upto <= keys@.len(),
    ensures
        found == texts(keys@).take(upto as int).contains(name@),
{
    let mut j: usize = 0;
    while j < upto
        invariant
            j <= upto <= keys@.len(),
            forall|k: int| 0 <= k < j ==> texts(keys@)[k] != name@,
        decreases upto - j,
    {
        if keys[j] == *name {
            assert(texts(keys@).take(upto as int)[j as int] == name@);
            return true;
        }
        j += 1;
    }
    false
}

/// The store keys of a manifest's entries, in manifest order.
pub fn manifest_keys(manifest: &Manifest) -> (keys: Vec<String>)
    ensures
        texts(keys@) == digests(manifest@),
{
    let mut keys: Vec<String> = Vec::new();
    let mut i: usize = 0;
    while i < manifest.entries.len()
        invariant
            i <= manifest.entries.len(),
            keys@.len() == i,
            forall|k: int| 0 <= k < i ==> (#[trigger] keys@[k])@ == url_digest(manifest@[k].url),
        decreases manifest.entries.len() - i,
    {
        keys.push(hex_digest(manifest.entries[i].url.as_str()));
        i += 1;
    }
    assert(texts(keys@) =~= digests(manifest@));
    keys
}

/// The plan for `manifest`, given the store keys of its entries.
pub fn plan_steps(manifest: &Manifest, keys: &Vec<String>) -> (plan: Vec<SyncStep>)
    requires
        keys@.len() == manifest@.len(),
    ensures
        steps(plan@) == planned_with(manifest@, texts(keys@)),
{
    let mut plan: Vec<SyncStep> = Vec::new();
    let mut i: usize = 0;
    while i < manifest.entries.len()
        invariant
            i <= manifest.entries.len(),
            keys@.len() == manifest.entries.len(),
            plan@.len() == i,
            forall|k: int|
                0 <= k < i ==> (#[trigger] plan@[k])@ == step_for(manifest@, texts(keys@), k),
        decreases manifest.entries.len() - i,
    {
        let entry = &manifest.entries[i];
        let seen = listed_before(keys, i, &keys[i]);
        proof {
            let k = texts(keys@);
            if seen {
                let j = choose|j: int| 0 <= j < k.take(i as int).len() && k.take(i as int)[j] == k[i as int];
                assert(k[j] == k[i as int]);
            } else {
                assert forall|j: int| 0 <= j < i implies k[j] != k[i as int] by {
                    assert(k.take(i as int)[j] == k[j]);
                }
            }
        }
        plan.push(
            SyncStep {
                key: keys[i].clone(),
                url: entry.url.clone(),
                rev: entry.rev.clone(),
                update: !seen,
                src_directory: entry.src_directory.clone(),
                dest_directory: entry.get_dest_directory().to_owned(),
            },
        );
        i += 1;
    }
    assert(steps(plan@) =~= planned_with(manifest@, texts(keys@)));
    plan
}

/// The plan for `manifest`: what is done for each entry, in manifest order.
pub fn sync_plan(manifest: &Manifest) -> (plan: Vec<SyncStep>)
    ensures
        steps(plan@) == planned(manifest@),
{
    let keys = manifest_keys(manifest);
    assert(texts(keys@).len() == digests(manifest@).len());
    plan_steps(manifest, &keys)
}

/// The names among `present` that are none of `keys`, in the order of
/// `present`.
pub fn stale_names(keys: &Vec<String>, present: &Vec<String>) -> (old_names: Vec<String>)
    ensures
        texts(old_names@) == stale(texts(keys@), texts(present@)),
{
    let mut old_names: Vec<String> = Vec::new();
    let mut i: usize = 0;
    proof {
        reveal(Seq::filter);
        assert(texts(present@).take(0) =~= Seq::<Seq<char>>::empty());
        assert(texts(old_names@) =~= Seq::<Seq<char>>::empty());
    }
    while i < present.len()
        invariant
            i <= present.len(),
            texts(old_names@) == stale(texts(keys@), texts(present@).take(i as int)),
        decreases present.len() - i,
    {
        let listed = listed_before(keys, keys.len(), &present[i]);
        proof {
            reveal(Seq::filter);
            let upto = texts(present@).take(i + 1);
            assert(upto.drop_last() =~= texts(present@).take(i as int));
            assert(upto.last() == present@[i as int]@);
            assert(texts(keys@).take(keys@.len() as int) =~= texts(keys@));
        }
        if !listed {
            let ghost before = old_names@;
            old_names.push(present[i].clone());
            assert(texts(old_names@) =~= texts(before).push(present@[i as int]@));
        }
        i += 1;
    }
    assert(texts(present@).take(present@.len() as int) =~= texts(present@));
    old_names
}

/// The store directories to delete once `manifest` is synchronised: those
/// among `present`, the names of the directories in the store, that are the
/// key of none of its entries.
pub fn clean_up_old_paths(manifest: &Manifest, present: &Vec<String>) -> (old_names: Vec<String>)
    ensures
        texts(old_names@) == stale(digests(manifest@), texts(present@)),
{
    let keys = manifest_keys(manifest);
    stale_names(&keys, present)
}

/// Why a synchronisation stopped before its end.
#[derive(Clone, Debug, PartialEq, Eq)]
pub enum SyncError {
    /// An update, a deploy or a deletion failed; the text says how.
    Failed(String),
    /// An event was reported that does not answer the pending action.
    UnexpectedEvent,
}

/// The mathematical value of a [`SyncError`].
pub enum SyncErrorView {
    Failed(Seq<char>),
    UnexpectedEvent,
}

impl View for SyncError {
    type V = SyncErrorView;

    open spec fn view(&self) -> SyncErrorView {
        match self {
            SyncError::Failed(m) => SyncErrorView::Failed(m@),
            SyncError::UnexpectedEvent => SyncErrorView::UnexpectedEvent,
        }
    }
}

/// What the caller of a synchronisation is asked to do next.
#[derive(Debug, PartialEq, Eq)]
pub enum SyncAction {
    /// Bring the working copy of the step to the step's revision.
    UpdateRepository(SyncStep),
    /// Replace the step's destination by the files of the step's source
    /// subtree, and report the files written: `SyncEvent::Deployed`.
    Deploy(SyncStep),
    /// Report the names of the directories in the store:
    /// `SyncEvent::Listed`.
    ListStore,
    /// Delete the store directories of these names.
    RemoveStale(Vec<String>),
    /// Stop: the synchronisation is over, with the files that were written
    /// or with the reason why it was given up.
    Finish(Result<Vec<String>, SyncError>),
}

/// The mathematical value of a [`SyncAction`].
pub enum SyncActionView {
    UpdateRepository(SyncStepView),
    Deploy(SyncStepView),
    ListStore,
    RemoveStale(Seq<Seq<char>>),
    Finish(Result<Seq<Seq<char>>, SyncErrorView>),
}

impl View for SyncAction {
    type V = SyncActionView;

    open spec fn view(&self) -> SyncActionView {
        match self {
            SyncAction::UpdateRepository(step) => SyncActionView::UpdateRepository(step@),
            SyncAction::Deploy(step) => SyncActionView::Deploy(step@),
            SyncAction::ListStore => SyncActionView::ListStore,
            SyncAction::RemoveStale(names) => SyncActionView::RemoveStale(texts(names@)),
            SyncAction::Finish(Ok(files)) => SyncActionView::Finish(Ok(texts(files@))),
            SyncAction::Finish(Err(e)) => SyncActionView::Finish(Err(e@)),
        }
    }
}

/// What came of the action that was asked for.
#[derive(Clone, Debug, PartialEq, Eq)]
pub enum SyncEvent {
    /// The action was carried out.
    Done,
    /// The action failed; the text says how.
    Failed(String),
    /// The files that a deploy wrote, in the order of writing.
    Deployed(Vec<String>),
    /// The names of the directories in the store.
    Listed(Vec<String>),
}

/// The mathematical value of a [`SyncEvent`].
pub enum SyncEventView {
    Done,
    Failed(Seq<char>),
    Deployed(Seq<Seq<char>>),
    Listed(Seq<Seq<char>>),
}

impl View for SyncEvent {
    type V = SyncEventView;

    open spec fn view(&self) -> SyncEventView {
        match self {
            SyncEvent::Done => SyncEventView::Done,
            SyncEvent::Failed(m) => SyncEventView::Failed(m@),
            SyncEvent::Deployed(files) => SyncEventView::Deployed(texts(files@)),
            SyncEvent::Listed(names) => SyncEventView::Listed(texts(names@)),
        }
    }
}

/// Where a synchronisation stands: the action that is pending.
#[derive(Clone, Copy, Debug, PartialEq, Eq, Structural)]
pub enum Stage {
    Updating,
    Deploying,
    Listing,
    Removing,
    Finished,
}

/// The mathematical value of a [`SyncRun`].
pub struct SyncRunView {
    /// The plan that is carried out.
    pub steps: Seq<SyncStepView>,
    /// The position in the plan of the step that is under way.
    pub next: nat,
    pub stage: Stage,
    /// The files written by the deploys so far, in the order of writing.
    pub generated: Seq<Seq<char>>,
}

/// The store keys of a plan's steps.
pub open spec fn keys_of(steps: Seq<SyncStepView>) -> Seq<Seq<char>> {
    steps.map_values(|s: SyncStepView| s.key)
}

/// The synchronisation turns to step `i` of its plan: the working copy is
/// updated where the step says so, else the step is deployed at once. After
/// the last step the store is listed.
pub open spec fn enter(s: SyncRunView, i: nat) -> (SyncRunView, SyncActionView) {
    if i < s.steps.len() {
        if s.steps[i as int].update {
            (
                SyncRunView { next: i, stage: Stage::Updating, ..s },
                SyncActionView::UpdateRepository(s.steps[i as int]),
            )
        } else {
            (
                SyncRunView { next: i, stage: Stage::Deploying, ..s },
                SyncActionView::Deploy(s.steps[i as int]),
            )
        }
    } else {
        (SyncRunView { next: i, stage: Stage::Listing, ..s }, SyncActionView::ListStore)
    }
}

/// The synchronisation ends with `result`.
pub open spec fn finish(s: SyncRunView, result: Result<Seq<Seq<char>>, SyncErrorView>) -> (
    SyncRunView,
    SyncActionView,
) {
    (SyncRunView { stage: Stage::Finished, ..s }, SyncActionView::Finish(result))
}

/// An event that does not let the synchronisation go on: a failure ends it
/// with the failure's text, whatever is left of the plan; anything else is
/// out of turn.
pub open spec fn give_up(s: SyncRunView, e: SyncEventView) -> (SyncRunView, SyncActionView) {
    match e {
        SyncEventView::Failed(m) => finish(s, Err(SyncErrorView::Failed(m))),
        _ => finish(s, Err(SyncErrorView::UnexpectedEvent)),
    }
}

/// The state in which the synchronisation of a plan starts, and its first
/// action.
pub open spec fn start_of(steps: Seq<SyncStepView>) -> (SyncRunView, SyncActionView) {
    enter(
        SyncRunView { steps, next: 0, stage: Stage::Listing, generated: Seq::empty() },
        0,
    )
}

/// The transition function of a synchronisation: the state after `e` was
/// reported in state `s`, and the action that is asked for next.
pub open spec fn sync_step(s: SyncRunView, e: SyncEventView) -> (SyncRunView, SyncActionView) {
    match s.stage {
        Stage::Updating => match e {
            SyncEventView::Done if s.next < s.steps.len() => (
                SyncRunView { stage: Stage::Deploying, ..s },
                SyncActionView::Deploy(s.steps[s.next as int]),
            ),
            _ => give_up(s, e),
        },
        Stage::Deploying => match e {
            SyncEventView::Deployed(files) if s.next < s.steps.len() => enter(
                SyncRunView { generated: s.generated + files, ..s },
                s.next + 1,
            ),
            _ => give_up(s, e),
        },
        Stage::Listing => match e {
            SyncEventView::Listed(names) => if stale(keys_of(s.steps), names).len() == 0 {
                finish(s, Ok(s.generated))
            } else {
                (
                    SyncRunView { stage: Stage::Removing, ..s },
                    SyncActionView::RemoveStale(stale(keys_of(s.steps), names)),
                )
            },
            _ => give_up(s, e),
        },
        Stage::Removing => match e {
            SyncEventView::Done => finish(s, Ok(s.generated)),
            _ => give_up(s, e),
        },
        Stage::Finished => finish(s, Err(SyncErrorView::UnexpectedEvent)),
    }
}

/// One synchronisation of a manifest.
#[derive(Debug)]
pub struct SyncRun {
    plan: Vec<SyncStep>,
    next: usize,
    stage: Stage,
    generated: Vec<String>,
}

impl View for SyncRun {
    type V = SyncRunView;

    closed spec fn view(&self) -> SyncRunView {
        SyncRunView {
            steps: steps(self.plan@),
            next: self.next as nat,
            stage: self.stage,
            generated: texts(self.generated@),
        }
    }
}

/// A copy of a step.
fn copy_step(step: &SyncStep) -> (copy: SyncStep)
    ensures
        copy@ == step@,
{
    SyncStep {
        key: step.key.clone(),
        url: step.url.clone(),
        rev: step.rev.clone(),
        update: step.update,
        src_directory: step.src_directory.clone(),
        dest_directory: step.dest_directory.clone(),
    }
}

/// A copy of a list of strings.
fn copy_texts(list: &Vec<String>) -> (copy: Vec<String>)
    ensures
        texts(copy@) == texts(list@),
{
    let mut copy: Vec<String> = Vec::new();
    let mut i: usize = 0;
    while i < list.len()
        invariant
            i <= list.len(),
            copy@.len() == i,
            forall|k: int| 0 <= k < i ==> copy@[k]@ == list@[k]@,
        decreases list.len() - i,
    {
        copy.push(list[i].clone());
        i += 1;
    }
    assert(texts(copy@) =~= texts(list@));
    copy
}

impl SyncRun {
    /// Starts the synchronisation of `manifest`, and names its first
    /// action.
    pub fn start(manifest: &Manifest) -> (started: (Self, SyncAction))
        ensures
            (started.0@, started.1@) == start_of(planned(manifest@)),
    {
        let mut run = SyncRun {
            plan: sync_plan(manifest),
            next: 0,
            stage: Stage::Listing,
            generated: Vec::new(),
        };
        assert(texts(run.generated@) =~= Seq::<Seq<char>>::empty());
        let action = run.enter(0);
        (run, action)
    }

    /// Whether the synchronisation is over.
    pub fn is_finished(&self) -> (over: bool)
        ensures
            over == (self@.stage == Stage::Finished),
    {
        match self.stage {
            Stage::Finished => true,
            _ => false,
        }
    }

    fn enter(&mut self, i: usize) -> (action: SyncAction)
        ensures
            (final(self)@, action@) == enter(old(self)@, i as nat),
    {
        self.next = i;
        if i < self.plan.len() {
            let step = copy_step(&self.plan[i]);
            if step.update {
                self.stage = Stage::Updating;
                SyncAction::UpdateRepository(step)
            } else {
                self.stage = Stage::Deploying;
                SyncAction::Deploy(step)
            }
        } else {
            self.stage = Stage::Listing;
            SyncAction::ListStore
        }
    }

    fn finish(&mut self, result: Result<Vec<String>, SyncError>) -> (action: SyncAction)
        ensures
            (final(self)@, action@) == finish(
                old(self)@,
                match result {
                    Ok(files) => Ok(texts(files@)),
                    Err(e) => Err(e@),
                },
            ),
    {
        self.stage = Stage::Finished;
        SyncAction::Finish(result)
    }

    fn give_up(&mut self, event: SyncEvent) -> (action: SyncAction)
        ensures
            (final(self)@, action@) == give_up(old(self)@, event@),
    {
        match event {
            SyncEvent::Failed(m) => self.finish(Err(SyncError::Failed(m))),
            _ => self.finish(Err(SyncError::UnexpectedEvent)),
        }
    }

    /// The store keys of the plan's steps.
    fn keys(&self) -> (keys: Vec<String>)
        ensures
            texts(keys@) == keys_of(self@.steps),
    {
        let mut keys: Vec<String> = Vec::new();
        let mut i: usize = 0;
        while i < self.plan.len()
            invariant
                i <= self.plan.len(),
                keys@.len() == i,
                forall|k: int| 0 <= k < i ==> keys@[k]@ == self.plan@[k].key@,
            decreases self.plan.len() - i,
        {
            keys.push(self.plan[i].key.clone());
            i += 1;
        }
        assert(texts(keys@) =~= keys_of(self@.steps));
        keys
    }

    /// Takes in what came of the pending action and names the next one, as
    /// `sync_step` says.
    pub fn advance(&mut self, event: SyncEvent) -> (action: SyncAction)
        ensures
            (final(self)@, action@) == sync_step(old(self)@, event@),
    {
        match self.stage {
            Stage::Updating => match event {
                SyncEvent::Done => {
                    if self.next < self.plan.len() {
                        self.stage = Stage::Deploying;
                        SyncAction::Deploy(copy_step(&self.plan[self.next]))
                    } else {
                        self.give_up(SyncEvent::Done)
                    }
                },
                other => self.give_up(other),
            },
            Stage::Deploying => match event {
                SyncEvent::Deployed(files) => {
                    if self.next < self.plan.len() {
                        let ghost before = self.generated@;
                        let mut files = files;
                        let ghost added = files@;
                        self.generated.append(&mut files);
                        assert(texts(self.generated@) =~= texts(before) + texts(added));
                        self.enter(self.next + 1)
                    } else {
                        self.finish(Err(SyncError::UnexpectedEvent))
                    }
                },
                other => self.give_up(other),
            },
            Stage::Listing => match event {
                SyncEvent::Listed(names) => {
                    let keys = self.keys();
                    let old_names = stale_names(&keys, &names);
                    if old_names.len() == 0 {
                        let files = copy_texts(&self.generated);
                        self.finish(Ok(files))
                    } else {
                        self.stage = Stage::Removing;
                        SyncAction::RemoveStale(old_names)
                    }
                },
                other => self.give_up(other),
            },
            Stage::Removing => match event {
                SyncEvent::Done => {
                    let files = copy_texts(&self.generated);
                    self.finish(Ok(files))
                },
                other => self.give_up(other),
            },
            Stage::Finished => self.finish(Err(SyncError::UnexpectedEvent)),
        }
    }
}

/// Every key has exactly one first occurrence, at or before each of its
/// positions.
pub proof fn lemma_first_occurrence_exists(keys: Seq<Seq<char>>, i: int)
    requires
        0 <= i < keys.len(),
    ensures
        exists|f: int| 0 <= f <= i && keys[f] == keys[i] && first_occurrence(keys, f),
    decreases i,
{
    if first_occurrence(keys, i) {
    } else {
        let j = choose|j: int| 0 <= j < i && keys[j] == keys[i];
        lemma_first_occurrence_exists(keys, j);
        let f = choose|f: int| 0 <= f <= j && keys[f] == keys[j] && first_occurrence(keys, f);
        assert(0 <= f <= i && keys[f] == keys[i] && first_occurrence(keys, f));
    }
}

/// The store keys of a manifest's plan are those of its entries.
pub proof fn lemma_plan_keys(entries: Seq<EntryView>)
    ensures
        keys_of(planned(entries)) == digests(entries),
{
    assert(keys_of(planned(entries)) =~= digests(entries));
}

/// Deduplication: the plan has one step per entry; among the steps of one
/// store key exactly one updates the working copy, and it comes first; two
/// entries with the same URL share their key, and each is deployed from its
/// own source subpath to its own destination.
pub proof fn lemma_one_update_per_key(entries: Seq<EntryView>, i: int, j: int)
    requires
        0 <= i < entries.len(),
        0 <= j < entries.len(),
    ensures
        planned(entries).len() == entries.len(),
        planned(entries)[i].src_directory == entries[i].src_directory,
        planned(entries)[i].dest_directory == entries[i].dest(),
        entries[i].url == entries[j].url ==> planned(entries)[i].key == planned(entries)[j].key,
        planned(entries)[i].key == planned(entries)[j].key && i < j ==> !planned(entries)[j].update,
        exists|f: int|
            0 <= f <= i && planned(entries)[f].key == planned(entries)[i].key
                && planned(entries)[f].update,
{
    let keys = digests(entries);
    lemma_first_occurrence_exists(keys, i);
    let f = choose|f: int| 0 <= f <= i && keys[f] == keys[i] && first_occurrence(keys, f);
    assert(planned(entries)[f].key == planned(entries)[i].key && planned(entries)[f].update);
}

/// What `stale` holds: the names of `present` that are none of `keys`.
pub proof fn lemma_stale_contains(keys: Seq<Seq<char>>, present: Seq<Seq<char>>, name: Seq<char>)
    ensures
        stale(keys, present).contains(name) <==> present.contains(name) && !keys.contains(name),
    decreases present.len(),
{
    reveal(Seq::filter);
    if present.len() > 0 {
        let front = present.drop_last();
        let kept_front = stale(keys, front);
        let kept = stale(keys, present);
        let keeps_last = unlisted(keys)(present.last());
        lemma_stale_contains(keys, front, name);
        if present.contains(name) && !keys.contains(name) {
            let k = choose|k: int| 0 <= k < present.len() && present[k] == name;
            if k == present.len() - 1 {
                assert(kept[kept.len() - 1] == name);
            } else {
                assert(front[k] == name);
                let m = choose|m: int| 0 <= m < kept_front.len() && kept_front[m] == name;
                assert(kept[m] == name);
            }
        }
        if kept.contains(name) {
            let m = choose|m: int| 0 <= m < kept.len() && kept[m] == name;
            if keeps_last && m == kept.len() - 1 {
                assert(present[present.len() - 1] == name);
            } else {
                assert(kept_front[m] == name);
                let k = choose|k: int| 0 <= k < front.len() && front[k] == name;
                assert(present[k] == name);
            }
        }
    }
}

/// Garbage collection: when entry `i` is taken out of a manifest and no
/// other entry has its store key, the next synchronisation throws away the
/// store directory of that key if it is present, and keeps the directory of
/// every entry that is left. Where the store held only directories of the
/// manifest's entries, nothing else is thrown away.
pub proof fn lemma_removed_entry_is_collected(
    entries: Seq<EntryView>,
    i: int,
    present: Seq<Seq<char>>,
)
    requires
        0 <= i < entries.len(),
        forall|j: int|
            0 <= j < entries.len() && j != i ==> url_digest(#[trigger] entries[j].url)
                != url_digest(entries[i].url),
    ensures
        present.contains(url_digest(entries[i].url)) ==> stale(
            digests(entries.remove(i)),
            present,
        ).contains(url_digest(entries[i].url)),
        forall|j: int|
            0 <= j < entries.len() && j != i ==> !stale(
                digests(entries.remove(i)),
                present,
            ).contains(url_digest(#[trigger] entries[j].url)),
        (forall|n: Seq<char>| present.contains(n) ==> digests(entries).contains(n)) ==> forall|
            n: Seq<char>,
        |
            #[trigger] stale(digests(entries.remove(i)), present).contains(n) ==> n == url_digest(
                entries[i].url,
            ),
{
    let rest = entries.remove(i);
    let keys = digests(rest);
    let gone = url_digest(entries[i].url);
    assert(!keys.contains(gone)) by {
        if keys.contains(gone) {
            let k = choose|k: int| 0 <= k < keys.len() && keys[k] == gone;
            if k < i {
                assert(rest[k] == entries[k]);
            } else {
                assert(rest[k] == entries[k + 1]);
            }
        }
    }
    lemma_stale_contains(keys, present, gone);
    assert forall|j: int| 0 <= j < entries.len() && j != i implies !stale(keys, present).contains(
        url_digest(#[trigger] entries[j].url),
    ) by {
        let key = url_digest(entries[j].url);
        lemma_stale_contains(keys, present, key);
        if j < i {
            assert(rest[j] == entries[j]);
            assert(keys[j] == key);
        } else {
            assert(rest[j - 1] == entries[j]);
            assert(keys[j - 1] == key);
        }
    }
    if forall|n: Seq<char>| present.contains(n) ==> digests(entries).contains(n) {
        assert forall|n: Seq<char>| #[trigger] stale(keys, present).contains(n) implies n
            == gone by {
            lemma_stale_contains(keys, present, n);
            assert(digests(entries).contains(n));
            let k = choose|k: int| 0 <= k < entries.len() && digests(entries)[k] == n;
            if k < i {
                assert(rest[k] == entries[k]);
                assert(keys[k] == n);
            } else if k > i {
                assert(rest[k - 1] == entries[k]);
                assert(keys[k - 1] == n);
            }
        }
    }
}

/// The state and the action with which a synchronisation turns to step `i`
/// when the deploys before it have written `generated`.
pub open spec fn at_entry(steps: Seq<SyncStepView>, generated: Seq<Seq<char>>, i: nat) -> (
    SyncRunView,
    SyncActionView,
) {
    enter(SyncRunView { steps, next: 0, stage: Stage::Listing, generated }, i)
}

/// A bound on the number of actions that a synchronisation in state `s`
/// still asks for.
pub open spec fn actions_left(s: SyncRunView) -> nat {
    match s.stage {
        Stage::Finished => 0,
        Stage::Removing => 1,
        Stage::Listing => 2,
        Stage::Deploying => (3 + 2 * (s.steps.len() - s.next)) as nat,
        Stage::Updating => (4 + 2 * (s.steps.len() - s.next)) as nat,
    }
}

/// Every synchronisation ends: each step of one that is under way lowers
/// `actions_left`. The plan is never changed.
pub proof fn lemma_sync_progress(s: SyncRunView, e: SyncEventView)
    requires
        s.stage != Stage::Finished,
        s.next <= s.steps.len(),
    ensures
        actions_left(sync_step(s, e).0) < actions_left(s),
        sync_step(s, e).0.steps == s.steps,
        sync_step(s, e).0.next <= s.steps.len(),
        (sync_step(s, e).1 is Finish) <==> sync_step(s, e).0.stage == Stage::Finished,
{
}

/// No isolation between entries: the first failure, of an update, a deploy,
/// the listing or a deletion, ends the synchronisation with that failure.
/// No later entry is touched and nothing is deleted from the store.
pub proof fn lemma_first_failure_ends_all(s: SyncRunView, text: Seq<char>)
    requires
        s.stage != Stage::Finished,
    ensures
        sync_step(s, SyncEventView::Failed(text)) == finish(
            s,
            Err(SyncErrorView::Failed(text)),
        ),
{
}

/// One entry: the working copy is updated only where the step says so, the
/// step is deployed in either case, and the files that the deploy reports
/// are put behind those of the entries before it. Then the next entry has
/// its turn; after the last one, the store is listed.
pub proof fn lemma_entry_is_processed(
    steps: Seq<SyncStepView>,
    generated: Seq<Seq<char>>,
    i: nat,
    files: Seq<Seq<char>>,
)
    requires
        i < steps.len(),
    ensures
        ({
            let (s0, a0) = at_entry(steps, generated, i);
            let (s1, a1) = if steps[i as int].update {
                sync_step(s0, SyncEventView::Done)
            } else {
                (s0, a0)
            };
            let after = sync_step(s1, SyncEventView::Deployed(files));
            &&& steps[i as int].update ==> a0 == SyncActionView::UpdateRepository(steps[i as int])
            &&& a1 == SyncActionView::Deploy(steps[i as int])
            &&& after == at_entry(steps, generated + files, i + 1)
            &&& at_entry(steps, generated, steps.len()).1 == SyncActionView::ListStore
        }),
{
}

/// The end: once every entry is deployed, the store directories that are
/// the key of no step are deleted, and the synchronisation returns the
/// files that the deploys have written, in the order of writing.
pub proof fn lemma_store_is_collected_last(
    steps: Seq<SyncStepView>,
    generated: Seq<Seq<char>>,
    names: Seq<Seq<char>>,
)
    ensures
        ({
            let (s0, a0) = at_entry(steps, generated, steps.len());
            let (s1, a1) = sync_step(s0, SyncEventView::Listed(names));
            let (s2, a2) = sync_step(s1, SyncEventView::Done);
            let old_names = stale(keys_of(steps), names);
            &&& a0 == SyncActionView::ListStore
            &&& old_names.len() == 0 ==> a1 == SyncActionView::Finish(Ok(generated))
            &&& old_names.len() > 0 ==> a1 == SyncActionView::RemoveStale(old_names) && a2
                == SyncActionView::Finish(Ok(generated))
        }),
{
}

} // verus!
