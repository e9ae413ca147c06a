use proto_sync::git::{
    is_dirty, untracked_paths, Action, Event, RepoUpdate, StatusEntry, UpdateError,
    DEFAULT_HEALS, WT_NEW,
};

const URL: &str = "https://example.com/a.git";
const ID: &str = "0123456789abcdef0123456789abcdef01234567";
const OTHER: &str = "89abcdef0123456789abcdef0123456789abcdef";

fn line(bits: u32, path: Option<&str>) -> StatusEntry {
    StatusEntry { bits, path: path.map(|p| p.to_string()) }
}

fn commit(id: &str) -> Event {
    Event::Commit(Some(id.to_string()))
}

fn status(entries: Vec<StatusEntry>) -> Event {
    Event::Status { entries, root: Some("/store/key".to_string()) }
}

fn run(update: &mut RepoUpdate, events: Vec<Event>) -> Vec<Action> {
    events.into_iter().map(|e| update.advance(e)).collect()
}

fn opened(rev: &str) -> RepoUpdate {
    let (mut update, first) = RepoUpdate::begin(URL, rev, DEFAULT_HEALS);
    assert_eq!(first, Action::ProbePath);
    let actions = run(
        &mut update,
        vec![Event::Exists(true), Event::Done, Event::RemoteUrl(URL.to_string())],
    );
    let third = if rev == ID { Action::ResolveExact } else { Action::FetchRevision };
    assert_eq!(actions, vec![Action::OpenRepository, Action::ReadRemoteUrl, third]);
    update
}

#[test]
fn untracked_bits() {
    assert_eq!(WT_NEW, 1 << 7);
    assert_eq!(WT_NEW, git2::Status::WT_NEW.bits());
}

#[test]
fn dirty_means_any_status_line() {
    assert!(!is_dirty(&vec![]));
    assert!(is_dirty(&vec![line(WT_NEW, Some("a"))]));
    assert!(is_dirty(&vec![line(256, Some("a"))]));
}

#[test]
fn untracked_paths_picks_exactly_new_paths() {
    let report = vec![
        line(WT_NEW, Some("new.txt")),
        line(256, Some("modified.proto")),
        line(WT_NEW, None),
        line(WT_NEW | 256, Some("both")),
        line(WT_NEW, Some("dir/")),
    ];
    assert_eq!(untracked_paths(&report), vec!["new.txt".to_string(), "dir/".to_string()]);
    assert!(untracked_paths(&vec![]).is_empty());
}

#[test]
fn a_missing_path_is_cloned() {
    let (mut update, first) = RepoUpdate::begin(URL, ID, DEFAULT_HEALS);
    assert_eq!(first, Action::ProbePath);
    assert_eq!(update.advance(Event::Exists(false)), Action::CloneRepository);
    assert_eq!(update.advance(Event::Done), Action::ReadRemoteUrl);
    assert!(!update.is_finished());
}

#[test]
fn a_failed_clone_is_fatal() {
    let (mut update, _) = RepoUpdate::begin(URL, ID, DEFAULT_HEALS);
    update.advance(Event::Exists(false));
    assert_eq!(
        update.advance(Event::Failed("authentication required".to_string())),
        Action::Finish(Err(UpdateError::Git("authentication required".to_string())))
    );
    assert!(update.is_finished());
}

#[test]
fn a_converged_copy_is_only_read() {
    let mut update = opened(ID);
    let actions = run(&mut update, vec![commit(ID), commit(ID), status(vec![])]);
    assert_eq!(actions, vec![Action::ReadHead, Action::ReadStatus, Action::Finish(Ok(()))]);
    assert!(update.is_finished());
}

#[test]
fn a_name_is_fetched_once() {
    let mut update = opened("main");
    let actions = run(&mut update, vec![commit(ID), commit(ID), status(vec![])]);
    assert_eq!(
        actions,
        vec![
            Action::ReadHead,
            Action::ReadStatus,
            Action::Finish(Ok(()))
        ]
    );
}

#[test]
fn an_unknown_revision_is_named() {
    let mut update = opened("no-such-tag");
    let actions = run(&mut update, vec![Event::Commit(None)]);
    assert_eq!(
        actions,
        vec![Action::Finish(Err(UpdateError::RevNotFound("no-such-tag".to_string())))]
    );
}

#[test]
fn a_failed_fetch_is_fatal() {
    let mut update = opened("main");
    let actions = run(&mut update, vec![Event::Failed("no network".to_string())]);
    assert_eq!(
        actions,
        vec![Action::Finish(Err(UpdateError::Git("no network".to_string())))]
    );
}

#[test]
fn a_dirty_copy_is_reset_and_cleaned() {
    let mut update = opened(ID);
    let actions = run(
        &mut update,
        vec![
            commit(ID),
            commit(ID),
            status(vec![line(256, Some("a.proto")), line(WT_NEW, Some("junk"))]),
            Event::Done,
            status(vec![line(WT_NEW, Some("junk")), line(WT_NEW, Some("more/"))]),
            Event::Failed("permission denied".to_string()),
        ],
    );
    assert_eq!(
        actions,
        vec![
            Action::ReadHead,
            Action::ReadStatus,
            Action::ResetHard(ID.to_string()),
            Action::ReadStatus,
            Action::RemoveUntracked {
                root: "/store/key".to_string(),
                paths: vec!["junk".to_string(), "more/".to_string()],
            },
            Action::Finish(Ok(())),
        ]
    );
}

#[test]
fn a_reset_that_cleans_everything_ends_the_update() {
    let mut update = opened(ID);
    let actions = run(
        &mut update,
        vec![commit(ID), commit(ID), status(vec![line(256, Some("a.proto"))]), Event::Done, status(vec![])],
    );
    assert_eq!(actions.last(), Some(&Action::Finish(Ok(()))));
    assert_eq!(actions.len(), 5);
}

#[test]
fn a_missing_root_is_fatal() {
    let mut update = opened(ID);
    let actions = run(
        &mut update,
        vec![
            commit(ID),
            commit(ID),
            status(vec![line(WT_NEW, Some("junk"))]),
            Event::Done,
            Event::Status { entries: vec![line(WT_NEW, Some("junk"))], root: None },
        ],
    );
    assert_eq!(actions.last(), Some(&Action::Finish(Err(UpdateError::RepoNotFound))));
}

#[test]
fn another_head_is_checked_out_then_moved() {
    let mut update = opened(ID);
    let actions = run(
        &mut update,
        vec![commit(ID), commit(OTHER), Event::Done, status(vec![]), Event::Done],
    );
    assert_eq!(
        actions,
        vec![
            Action::ReadHead,
            Action::CheckoutTree(ID.to_string()),
            Action::ReadStatus,
            Action::DetachHead(ID.to_string()),
            Action::Finish(Ok(())),
        ]
    );
}

#[test]
fn debris_of_a_checkout_is_cleaned_before_the_head_moves() {
    let mut update = opened(ID);
    let actions = run(
        &mut update,
        vec![
            commit(ID),
            commit(OTHER),
            Event::Done,
            status(vec![line(WT_NEW, Some("old.proto"))]),
            Event::Done,
            status(vec![line(WT_NEW, Some("old.proto"))]),
            Event::Done,
            Event::Done,
        ],
    );
    assert_eq!(
        actions,
        vec![
            Action::ReadHead,
            Action::CheckoutTree(ID.to_string()),
            Action::ReadStatus,
            Action::ResetHard(ID.to_string()),
            Action::ReadStatus,
            Action::RemoveUntracked {
                root: "/store/key".to_string(),
                paths: vec!["old.proto".to_string()],
            },
            Action::DetachHead(ID.to_string()),
            Action::Finish(Ok(())),
        ]
    );
}

#[test]
fn a_failed_checkout_is_fatal() {
    let mut update = opened(ID);
    let actions =
        run(&mut update, vec![commit(ID), commit(OTHER), Event::Failed("disk full".to_string())]);
    assert_eq!(
        actions.last(),
        Some(&Action::Finish(Err(UpdateError::Git("disk full".to_string()))))
    );
}

#[test]
fn a_foreign_copy_is_replaced() {
    let (mut update, _) = RepoUpdate::begin(URL, ID, 1);
    let actions = run(
        &mut update,
        vec![
            Event::Exists(true),
            Event::Done,
            Event::RemoteUrl("https://example.com/b.git".to_string()),
            Event::Done,
            Event::Exists(false),
            Event::Done,
            Event::RemoteUrl(URL.to_string()),
        ],
    );
    assert_eq!(
        actions,
        vec![
            Action::OpenRepository,
            Action::ReadRemoteUrl,
            Action::RemoveWorkingCopy,
            Action::ProbePath,
            Action::CloneRepository,
            Action::ReadRemoteUrl,
            Action::ResolveExact,
        ]
    );
}

#[test]
fn healing_is_bounded() {
    let (mut update, _) = RepoUpdate::begin(URL, ID, 2);
    let mut removals = 0;
    let mut last = Action::ProbePath;
    for _ in 0..100 {
        if update.is_finished() {
            break;
        }
        let event = match last {
            Action::ProbePath => Event::Exists(true),
            Action::OpenRepository => Event::Done,
            Action::ReadRemoteUrl => Event::RemoteUrl("elsewhere".to_string()),
            Action::RemoveWorkingCopy => {
                removals += 1;
                Event::Failed("permission denied".to_string())
            }
            _ => panic!("unexpected action"),
        };
        last = update.advance(event);
    }
    assert_eq!(removals, 2);
    assert_eq!(last, Action::Finish(Err(UpdateError::RemoteMismatch)));
    assert!(update.is_finished());
}

#[test]
fn an_event_out_of_turn_ends_the_update() {
    let (mut update, _) = RepoUpdate::begin(URL, ID, DEFAULT_HEALS);
    assert_eq!(
        update.advance(Event::Done),
        Action::Finish(Err(UpdateError::UnexpectedEvent))
    );
    assert_eq!(
        update.advance(Event::Exists(true)),
        Action::Finish(Err(UpdateError::UnexpectedEvent))
    );
}

fn third_action(rev: &str) -> Action {
    let (mut update, _) = RepoUpdate::begin(URL, rev, DEFAULT_HEALS);
    update.advance(Event::Exists(true));
    update.advance(Event::Done);
    update.advance(Event::RemoteUrl(URL.to_string()))
}

#[test]
fn only_object_ids_are_looked_up_as_commits() {
    assert_eq!(third_action(ID), Action::ResolveExact);
    assert_eq!(third_action("ABCDEF"), Action::ResolveExact);
    assert_eq!(third_action("a"), Action::ResolveExact);
    assert_eq!(third_action(""), Action::FetchRevision);
    assert_eq!(third_action("v1.0.0"), Action::FetchRevision);
    assert_eq!(third_action("main"), Action::FetchRevision);
    assert_eq!(third_action("0123456789abcdef0123456789abcdef012345678"), Action::FetchRevision);
    assert_eq!(third_action("0123456789abcdef0123456789abcdef0123456g"), Action::FetchRevision);
}

#[test]
fn an_object_id_that_is_no_commit_is_fetched() {
    let mut update = opened(ID);
    let actions = run(&mut update, vec![Event::Commit(None), commit(OTHER), commit(OTHER), status(vec![])]);
    assert_eq!(
        actions,
        vec![
            Action::FetchRevision,
            Action::ReadHead,
            Action::ReadStatus,
            Action::Finish(Ok(()))
        ]
    );
}
