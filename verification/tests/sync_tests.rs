use proto_sync::manifest::{Manifest, ManifestEntry};
use proto_sync::sync::{
    clean_up_old_paths, manifest_keys, plan_steps, stale_names, sync_plan, SyncAction,
    SyncError, SyncEvent, SyncRun, SyncStep,
};
use proto_sync::SyncOptions;

const KEY_A: &str = "eaead1850c5866e96e76ad58dabf833723c495451d30bf2e92084dbdd1de3f9a";
const KEY_B: &str = "bf220705828df6a7142378c2ffbe6dac13f73aa9477b71df58b3a7ca36fe2b16";
const URL_A: &str = "https://example.com/a.git";
const URL_B: &str = "https://example.com/b.git";

fn entry(url: &str, rev: &str, src: &str, dest: Option<&str>) -> ManifestEntry {
    ManifestEntry::new(
        url.to_string(),
        rev.to_string(),
        src.to_string(),
        dest.map(|d| d.to_string()),
    )
}

fn manifest(entries: Vec<ManifestEntry>) -> Manifest {
    Manifest { entries }
}

fn names(list: &[&str]) -> Vec<String> {
    list.iter().map(|s| s.to_string()).collect()
}

#[test]
fn default_options() {
    let options = SyncOptions::default();
    assert_eq!(options.base_path, ".");
    assert!(options.ignore_generated);
}

#[test]
fn keys_are_sha256_digests_of_the_urls() {
    let m = manifest(vec![entry(URL_A, "1", "x", None), entry(URL_B, "1", "x", None)]);
    assert_eq!(manifest_keys(&m), names(&[KEY_A, KEY_B]));
    assert_eq!(manifest_keys(&m), vec![sha256::digest(URL_A), sha256::digest(URL_B)]);
}

#[test]
fn keys_of_an_empty_manifest() {
    assert!(manifest_keys(&Manifest::empty()).is_empty());
    assert!(sync_plan(&Manifest::empty()).is_empty());
}

#[test]
fn single_entry_scenario() {
    let m = manifest(vec![entry(URL_A, "v1.0.0", "protos", Some("gen/a"))]);
    let plan = sync_plan(&m);
    assert_eq!(
        plan,
        vec![SyncStep {
            key: KEY_A.to_string(),
            url: URL_A.to_string(),
            rev: "v1.0.0".to_string(),
            update: true,
            src_directory: "protos".to_string(),
            dest_directory: "gen/a".to_string(),
        }]
    );
    let present = names(&[KEY_A]);
    assert!(clean_up_old_paths(&m, &present).is_empty());
}

#[test]
fn deploy_goes_to_the_source_subpath_by_default() {
    let m = manifest(vec![entry(URL_A, "main", "protos", None)]);
    let plan = sync_plan(&m);
    assert_eq!(plan[0].src_directory, "protos");
    assert_eq!(plan[0].dest_directory, "protos");
}

#[test]
fn entries_of_one_url_share_one_update() {
    let m = manifest(vec![
        entry(URL_A, "v1", "protos/a", Some("gen/a")),
        entry(URL_B, "v2", "protos", None),
        entry(URL_A, "v1", "protos/b", Some("gen/b")),
    ]);
    let plan = sync_plan(&m);
    assert_eq!(plan.len(), 3);
    assert_eq!(plan[0].key, KEY_A);
    assert_eq!(plan[1].key, KEY_B);
    assert_eq!(plan[2].key, KEY_A);
    assert!(plan[0].update);
    assert!(plan[1].update);
    assert!(!plan[2].update);
    assert_eq!(plan[0].src_directory, "protos/a");
    assert_eq!(plan[0].dest_directory, "gen/a");
    assert_eq!(plan[2].src_directory, "protos/b");
    assert_eq!(plan[2].dest_directory, "gen/b");
    assert_eq!(plan.iter().filter(|s| s.update).count(), 2);
}

#[test]
fn plan_steps_goes_by_the_keys_it_is_given() {
    let m = manifest(vec![
        entry("u1", "r1", "s1", None),
        entry("u2", "r2", "s2", Some("d2")),
        entry("u3", "r3", "s3", None),
    ]);
    let plan = plan_steps(&m, &names(&["k", "k", "other"]));
    assert_eq!(
        plan,
        vec![
            SyncStep {
                key: "k".to_string(),
                url: "u1".to_string(),
                rev: "r1".to_string(),
                update: true,
                src_directory: "s1".to_string(),
                dest_directory: "s1".to_string(),
            },
            SyncStep {
                key: "k".to_string(),
                url: "u2".to_string(),
                rev: "r2".to_string(),
                update: false,
                src_directory: "s2".to_string(),
                dest_directory: "d2".to_string(),
            },
            SyncStep {
                key: "other".to_string(),
                url: "u3".to_string(),
                rev: "r3".to_string(),
                update: true,
                src_directory: "s3".to_string(),
                dest_directory: "s3".to_string(),
            },
        ]
    );
}

#[test]
fn stale_names_keeps_the_order_of_the_store() {
    let keys = names(&["a", "b"]);
    let present = names(&["z", "a", "y", "b", "z"]);
    assert_eq!(stale_names(&keys, &present), names(&["z", "y", "z"]));
    assert!(stale_names(&keys, &names(&[])).is_empty());
    assert_eq!(stale_names(&names(&[]), &present), present);
}

#[test]
fn a_removed_entry_is_collected() {
    let before = manifest(vec![entry(URL_A, "1", "x", None), entry(URL_B, "1", "y", None)]);
    let present = manifest_keys(&before);
    assert!(clean_up_old_paths(&before, &present).is_empty());
    let after = manifest(vec![entry(URL_B, "1", "y", None)]);
    assert_eq!(clean_up_old_paths(&after, &present), names(&[KEY_A]));
}

#[test]
fn a_shared_store_directory_survives_one_removal() {
    let after = manifest(vec![entry(URL_A, "1", "other", None)]);
    let present = names(&[KEY_A]);
    assert!(clean_up_old_paths(&after, &present).is_empty());
}

fn step(key: &str, url: &str, rev: &str, update: bool, src: &str, dest: &str) -> SyncStep {
    SyncStep {
        key: key.to_string(),
        url: url.to_string(),
        rev: rev.to_string(),
        update,
        src_directory: src.to_string(),
        dest_directory: dest.to_string(),
    }
}

#[test]
fn a_run_of_one_entry() {
    let m = manifest(vec![entry(URL_A, "v1.0.0", "protos", Some("gen/a"))]);
    let only = step(KEY_A, URL_A, "v1.0.0", true, "protos", "gen/a");
    let (mut run, first) = SyncRun::start(&m);
    assert_eq!(first, SyncAction::UpdateRepository(only.clone()));
    assert_eq!(run.advance(SyncEvent::Done), SyncAction::Deploy(only));
    let files = names(&["gen/a/x.proto", "gen/a/sub/y.proto"]);
    assert_eq!(run.advance(SyncEvent::Deployed(files.clone())), SyncAction::ListStore);
    assert!(!run.is_finished());
    assert_eq!(run.advance(SyncEvent::Listed(names(&[KEY_A]))), SyncAction::Finish(Ok(files)));
    assert!(run.is_finished());
}

#[test]
fn a_run_updates_each_repository_once_and_deploys_every_entry() {
    let m = manifest(vec![
        entry(URL_A, "v1", "protos/a", Some("gen/a")),
        entry(URL_A, "v1", "protos/b", Some("gen/b")),
        entry(URL_B, "v2", "protos", None),
    ]);
    let (mut run, first) = SyncRun::start(&m);
    let mut actions = vec![first];
    let events = vec![
        SyncEvent::Done,
        SyncEvent::Deployed(names(&["gen/a/1"])),
        SyncEvent::Deployed(names(&[])),
        SyncEvent::Done,
        SyncEvent::Deployed(names(&["protos/2", "protos/3"])),
        SyncEvent::Listed(names(&["old", KEY_B, KEY_A, "older"])),
        SyncEvent::Done,
    ];
    for event in events {
        actions.push(run.advance(event));
    }
    assert_eq!(
        actions,
        vec![
            SyncAction::UpdateRepository(step(KEY_A, URL_A, "v1", true, "protos/a", "gen/a")),
            SyncAction::Deploy(step(KEY_A, URL_A, "v1", true, "protos/a", "gen/a")),
            SyncAction::Deploy(step(KEY_A, URL_A, "v1", false, "protos/b", "gen/b")),
            SyncAction::UpdateRepository(step(KEY_B, URL_B, "v2", true, "protos", "protos")),
            SyncAction::Deploy(step(KEY_B, URL_B, "v2", true, "protos", "protos")),
            SyncAction::ListStore,
            SyncAction::RemoveStale(names(&["old", "older"])),
            SyncAction::Finish(Ok(names(&["gen/a/1", "protos/2", "protos/3"]))),
        ]
    );
}

#[test]
fn a_run_of_an_empty_manifest_only_collects() {
    let (mut run, first) = SyncRun::start(&Manifest::empty());
    assert_eq!(first, SyncAction::ListStore);
    assert_eq!(
        run.advance(SyncEvent::Listed(names(&["left-over"]))),
        SyncAction::RemoveStale(names(&["left-over"]))
    );
    assert_eq!(run.advance(SyncEvent::Done), SyncAction::Finish(Ok(vec![])));
}

#[test]
fn the_first_failure_ends_a_run() {
    let m = manifest(vec![entry(URL_A, "v1", "a", None), entry(URL_B, "v1", "b", None)]);
    let (mut run, _) = SyncRun::start(&m);
    assert_eq!(
        run.advance(SyncEvent::Failed("Rev not found: v1".to_string())),
        SyncAction::Finish(Err(SyncError::Failed("Rev not found: v1".to_string())))
    );
    assert!(run.is_finished());

    let (mut run, _) = SyncRun::start(&m);
    run.advance(SyncEvent::Done);
    assert_eq!(
        run.advance(SyncEvent::Failed("disk full".to_string())),
        SyncAction::Finish(Err(SyncError::Failed("disk full".to_string())))
    );
}

#[test]
fn a_run_refuses_events_out_of_turn() {
    let m = manifest(vec![entry(URL_A, "v1", "a", None)]);
    let (mut run, _) = SyncRun::start(&m);
    assert_eq!(
        run.advance(SyncEvent::Listed(vec![])),
        SyncAction::Finish(Err(SyncError::UnexpectedEvent))
    );
    assert_eq!(
        run.advance(SyncEvent::Done),
        SyncAction::Finish(Err(SyncError::UnexpectedEvent))
    );
}
