use variant::errors::VariantError;
use variant::query::{identity_lines, whoami};

#[test]
fn whoami_keeps_only_identity_lines() {
    let raw = b"user.name=A\ncore.editor=vim\nuser.email=b@c".to_vec();
    let out = whoami(false, true, raw).unwrap();
    assert_eq!(out, b"\nuser.name=A\nuser.email=b@c".to_vec());
}

#[test]
fn whoami_verbose_gives_everything() {
    let raw = b"user.name=A\ncore.editor=vim\n".to_vec();
    assert_eq!(whoami(true, true, raw.clone()).unwrap(), raw);
}

#[test]
fn whoami_failure_carries_output() {
    let raw = b"fatal: oops".to_vec();
    match whoami(false, false, raw) {
        Err(VariantError::ProcessFailed(out)) => assert_eq!(out, b"fatal: oops".to_vec()),
        other => panic!("unexpected {:?}", other),
    }
}

#[test]
fn identity_lines_keeps_signing_key_and_drops_near_misses() {
    let raw = b"user.signingkey=/k.pub\nuser.nam=x\nUSER.NAME=y\n xuser.name=z\nuser.name\n".to_vec();
    assert_eq!(identity_lines(&raw), b"\nuser.signingkey=/k.pub\nuser.name".to_vec());
    assert_eq!(identity_lines(&Vec::new()), Vec::<u8>::new());
}
