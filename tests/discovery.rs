use variant::discovery::{find_by_name, keys, variants, Entry};
use variant::errors::VariantError;
use variant::locations::{cache_file, cache_file_of, convention_root, convention_root_of};
use variant::model::Variant;

fn names(list: &[&str]) -> Vec<Option<String>> {
    list.iter().map(|s| Some(s.to_string())).collect()
}

fn dir(name: &str, files: &[&str]) -> Entry {
    Entry { name: Some(name.to_string()), is_dir: true, files: names(files) }
}

fn file(name: &str) -> Entry {
    Entry { name: Some(name.to_string()), is_dir: false, files: Vec::new() }
}

#[test]
fn keys_pairs_public_key_with_its_private_key() {
    let d = "/home/jane/.ssh/work".to_string();
    let pair = keys(&d, &names(&["id_ed25519", "id_ed25519.pub"])).unwrap();
    assert_eq!(pair.0, "/home/jane/.ssh/work/id_ed25519.pub");
    assert_eq!(pair.1, "/home/jane/.ssh/work/id_ed25519");
}

#[test]
fn keys_skips_config_and_takes_first_public_key() {
    let d = "/k".to_string();
    let pair = keys(&d, &names(&["config", "b", "b.pub", "a.pub"])).unwrap();
    assert_eq!(pair.0, "/k/b.pub");
    assert_eq!(pair.1, "/k/b");
}

#[test]
fn keys_of_config_only_directory_is_no_private_key() {
    let d = "/k".to_string();
    assert!(matches!(keys(&d, &names(&["config"])), Err(VariantError::NoPrivateKey)));
    assert!(matches!(keys(&d, &Vec::new()), Err(VariantError::NoPrivateKey)));
}

#[test]
fn keys_with_invalid_name_before_key_fails() {
    let d = "/k".to_string();
    let files = vec![None, Some("id.pub".to_string())];
    assert!(matches!(keys(&d, &files), Err(VariantError::InvalidName)));
    let files = vec![Some("id.pub".to_string()), None];
    assert!(keys(&d, &files).is_ok());
}

#[test]
fn keys_needs_the_full_suffix() {
    let d = "/k".to_string();
    assert!(matches!(keys(&d, &names(&["pub", "idpub", ".pu"])), Err(VariantError::NoPrivateKey)));
    let pair = keys(&d, &names(&[".pub"])).unwrap();
    assert_eq!(pair.0, "/k/.pub");
    assert_eq!(pair.1, "/k/");
}

#[test]
fn variants_one_per_directory_in_listing_order() {
    let root = "/home/jane/.ssh".to_string();
    let listing = vec![
        dir("work", &["id_ed25519", "id_ed25519.pub", "config"]),
        file("known_hosts"),
        dir("home", &["config", "id_rsa.pub", "id_rsa"]),
    ];
    let vs = variants(&root, Some(listing)).unwrap();
    assert_eq!(vs.len(), 2);
    assert_eq!(vs[0].name, "work");
    assert_eq!(vs[0].keys.0, "/home/jane/.ssh/work/id_ed25519.pub");
    assert_eq!(vs[0].keys.1, "/home/jane/.ssh/work/id_ed25519");
    assert_eq!(vs[1].name, "home");
    assert_eq!(vs[1].keys.0, "/home/jane/.ssh/home/id_rsa.pub");
    assert_eq!(vs[1].keys.1, "/home/jane/.ssh/home/id_rsa");
}

#[test]
fn variants_without_root_is_no_root() {
    let root = "/home/jane/.ssh".to_string();
    assert!(matches!(variants(&root, None), Err(VariantError::NoRoot)));
}

#[test]
fn variants_of_empty_root_is_empty() {
    let root = "/r".to_string();
    assert_eq!(variants(&root, Some(Vec::new())).unwrap().len(), 0);
    assert_eq!(variants(&root, Some(vec![file("a")])).unwrap().len(), 0);
}

#[test]
fn variants_fail_on_one_keyless_directory() {
    let root = "/r".to_string();
    let listing = vec![dir("work", &["id", "id.pub"]), dir("broken", &["config"])];
    assert!(matches!(variants(&root, Some(listing)), Err(VariantError::NoPrivateKey)));
}

#[test]
fn variants_fail_on_invalid_directory_name() {
    let root = "/r".to_string();
    let listing = vec![Entry { name: None, is_dir: true, files: names(&["id.pub"]) }];
    assert!(matches!(variants(&root, Some(listing)), Err(VariantError::InvalidName)));
    let listing = vec![Entry { name: None, is_dir: false, files: Vec::new() }];
    assert_eq!(variants(&root, Some(listing)).unwrap().len(), 0);
}

fn variant(name: &str) -> Variant {
    Variant { name: name.to_string(), keys: (format!("/r/{name}/id.pub"), format!("/r/{name}/id")) }
}

#[test]
fn find_by_name_picks_the_named_variant() {
    let vs = vec![variant("a"), variant("b")];
    let v = find_by_name(vs, &"b".to_string()).unwrap();
    assert_eq!(v.name, "b");
    assert_eq!(v.keys.1, "/r/b/id");
}

#[test]
fn find_by_name_of_unknown_is_not_found() {
    let vs = vec![variant("a")];
    assert!(matches!(find_by_name(vs, &"z".to_string()), Err(VariantError::NotFound)));
    assert!(matches!(find_by_name(Vec::new(), &"a".to_string()), Err(VariantError::NotFound)));
}

#[test]
fn roots_under_home() {
    assert_eq!(convention_root_of(Some("/home/jane".to_string())).unwrap(), "/home/jane/.ssh");
    assert_eq!(cache_file_of(Some("/home/jane".to_string())).unwrap(), "/home/jane/.variant");
    assert!(matches!(convention_root_of(None), Err(VariantError::NoHome)));
    assert!(matches!(cache_file_of(None), Err(VariantError::NoHome)));
}

#[test]
fn roots_of_current_user() {
    match convention_root() {
        Ok(p) => assert!(p.ends_with("/.ssh")),
        Err(e) => assert!(matches!(e, VariantError::NoHome)),
    }
    match cache_file() {
        Ok(p) => assert!(p.ends_with("/.variant")),
        Err(e) => assert!(matches!(e, VariantError::NoHome)),
    }
}
