use variant::cache::{decode, find, updated};
use variant::discovery::{variants, Entry};
use variant::errors::VariantError;
use variant::model::{Metadata, Variant};
use variant::switch::{Command, Next, Outcome, Stage, Switch};

fn ok() -> Outcome {
    Outcome::Exit(true, Vec::new())
}

fn work_variants() -> Vec<Variant> {
    let listing = vec![Entry {
        name: Some("work".to_string()),
        is_dir: true,
        files: vec![Some("id_ed25519".to_string()), Some("id_ed25519.pub".to_string())],
    }];
    variants(&"/home/jane/.ssh".to_string(), Some(listing)).unwrap()
}

fn jane() -> Metadata {
    Metadata { name: "Jane".to_string(), email: "jane@x".to_string(), username: "work".to_string() }
}

fn expect_set(n: Next, key: &str, value: &str, local: bool) {
    match n {
        Next::Run(Command::SetConfig(k, v, l)) => {
            assert_eq!(k, key);
            assert_eq!(v, value);
            assert_eq!(l, local);
        }
        other => panic!("unexpected {:?}", other),
    }
}

#[test]
fn end_to_end_switch_with_empty_cache() {
    let (mut sw, first) = Switch::start(work_variants(), &"work".to_string(), false).unwrap();
    let mut agent_starts = 0;
    let mut clears = 0;
    assert!(matches!(first, Command::StartAgent));
    agent_starts += 1;
    match sw.step(ok()) {
        Next::Run(Command::ClearIdentities) => clears += 1,
        other => panic!("unexpected {:?}", other),
    }
    match sw.step(ok()) {
        Next::Run(Command::AddKey(p)) => assert_eq!(p, "/home/jane/.ssh/work/id_ed25519"),
        other => panic!("unexpected {:?}", other),
    }
    let cache = String::new();
    let username = match sw.step(ok()) {
        Next::Run(Command::ReadCache(u)) => u,
        other => panic!("unexpected {:?}", other),
    };
    assert_eq!(username, "work");
    let cached = find(&decode(&cache).unwrap(), &username);
    assert!(cached.is_none());
    match sw.step(Outcome::Cached(cached)) {
        Next::Run(Command::Provide(u)) => assert_eq!(u, "work"),
        other => panic!("unexpected {:?}", other),
    }
    let cache = match sw.step(Outcome::Provided(jane())) {
        Next::Run(Command::WriteCache(m)) => updated(&cache, m).unwrap(),
        other => panic!("unexpected {:?}", other),
    };
    let stored = decode(&cache).unwrap();
    assert_eq!(stored.len(), 1);
    assert_eq!(stored[0].username, "work");
    assert_eq!(stored[0].name, "Jane");
    expect_set(sw.step(Outcome::Stored), "user.name", "Jane", false);
    expect_set(sw.step(ok()), "user.email", "jane@x", false);
    expect_set(sw.step(ok()), "user.signingkey", "/home/jane/.ssh/work/id_ed25519.pub", false);
    assert!(matches!(sw.step(ok()), Next::Done(Ok(()))));
    assert_eq!(sw.stage, Stage::Finished);
    assert_eq!(agent_starts, 1);
    assert_eq!(clears, 1);
}

#[test]
fn cache_hit_skips_provider_and_local_scope_is_kept() {
    let (mut sw, _) = Switch::start(work_variants(), &"work".to_string(), true).unwrap();
    sw.step(ok());
    sw.step(ok());
    sw.step(ok());
    expect_set(sw.step(Outcome::Cached(Some(jane()))), "user.name", "Jane", true);
    expect_set(sw.step(ok()), "user.email", "jane@x", true);
    expect_set(sw.step(ok()), "user.signingkey", "/home/jane/.ssh/work/id_ed25519.pub", true);
    assert!(matches!(sw.step(ok()), Next::Done(Ok(()))));
}

#[test]
fn key_registration_failure_stops_the_switch() {
    let (mut sw, _) = Switch::start(work_variants(), &"work".to_string(), false).unwrap();
    sw.step(ok());
    sw.step(ok());
    match sw.step(Outcome::Exit(false, b"bad passphrase".to_vec())) {
        Next::Done(Err(VariantError::KeyRegistrationFailed(out))) => {
            assert_eq!(out, b"bad passphrase".to_vec())
        }
        other => panic!("unexpected {:?}", other),
    }
    assert_eq!(sw.stage, Stage::Finished);
    assert!(matches!(sw.step(Outcome::Cached(None)), Next::Done(Err(VariantError::OutOfOrder))));
    assert!(matches!(sw.step(ok()), Next::Done(Err(VariantError::OutOfOrder))));
}

#[test]
fn unknown_variant_is_not_found() {
    assert!(matches!(
        Switch::start(work_variants(), &"play".to_string(), false),
        Err(VariantError::NotFound)
    ));
}

#[test]
fn agent_failures_are_agent_unavailable() {
    let (mut sw, _) = Switch::start(work_variants(), &"work".to_string(), false).unwrap();
    assert!(matches!(
        sw.step(Outcome::Exit(false, b"no agent".to_vec())),
        Next::Done(Err(VariantError::AgentUnavailable(_)))
    ));
    let (mut sw, _) = Switch::start(work_variants(), &"work".to_string(), false).unwrap();
    sw.step(ok());
    assert!(matches!(
        sw.step(Outcome::Exit(false, Vec::new())),
        Next::Done(Err(VariantError::AgentUnavailable(_)))
    ));
}

#[test]
fn provider_refusal_is_metadata_unavailable() {
    let (mut sw, _) = Switch::start(work_variants(), &"work".to_string(), false).unwrap();
    sw.step(ok());
    sw.step(ok());
    sw.step(ok());
    sw.step(Outcome::Cached(None));
    match sw.step(Outcome::Declined("cancelled".to_string())) {
        Next::Done(Err(VariantError::MetadataUnavailable(m))) => assert_eq!(m, "cancelled"),
        other => panic!("unexpected {:?}", other),
    }
}

#[test]
fn config_commit_failure_stops_after_earlier_keys() {
    let (mut sw, _) = Switch::start(work_variants(), &"work".to_string(), false).unwrap();
    sw.step(ok());
    sw.step(ok());
    sw.step(ok());
    expect_set(sw.step(Outcome::Cached(Some(jane()))), "user.name", "Jane", false);
    assert!(matches!(
        sw.step(Outcome::Exit(false, b"locked".to_vec())),
        Next::Done(Err(VariantError::ConfigCommitFailed(_)))
    ));
    assert_eq!(sw.stage, Stage::Finished);
}

#[test]
fn cache_failure_and_stray_outcomes_end_the_switch() {
    let (mut sw, _) = Switch::start(work_variants(), &"work".to_string(), false).unwrap();
    sw.step(ok());
    sw.step(ok());
    sw.step(ok());
    assert!(matches!(
        sw.step(Outcome::Failed(VariantError::CacheCorrupt("x".to_string()))),
        Next::Done(Err(VariantError::CacheCorrupt(_)))
    ));
    let (mut sw, _) = Switch::start(work_variants(), &"work".to_string(), false).unwrap();
    assert!(matches!(sw.step(Outcome::Stored), Next::Done(Err(VariantError::OutOfOrder))));
}
