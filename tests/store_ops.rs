use passenger::checkpoint::CheckpointOptions;
use passenger::store::{HeadInfo, HeadKind, PassengerStore};
use passenger::types::{PassengerConfig, PassengerError};

fn store() -> PassengerStore {
    PassengerStore::open("/repo", true).unwrap()
}

fn ref_head(commit: Option<&str>) -> HeadInfo {
    store().resolve_head(&PassengerConfig::default(), "ref: refs/main", commit)
}

#[test]
fn open_requires_metadata_dir() {
    assert!(matches!(PassengerStore::open("/repo", false), Err(PassengerError::NotInitialized)));
    assert_eq!(PassengerStore::open("/repo", true).unwrap().root, "/repo");
}

#[test]
fn store_paths() {
    let s = store();
    assert_eq!(PassengerStore::passenger_dir("/repo"), "/repo/.passenger");
    assert_eq!(s.config_path(), "/repo/.passenger/config.toml");
    assert_eq!(s.state_path(), "/repo/.passenger/state.json");
    assert_eq!(s.objects_dir(), "/repo/.passenger/objects/sha256");
    assert_eq!(s.version_dir("0.1.0"), "/repo/.passenger/snapshots/V0.1.0");
    assert_eq!(PassengerStore::commit_path("/v", "S000001"), "/v/commits/S000001.json");
}

#[test]
fn object_path_is_sharded_by_two_and_two_hex_digits() {
    let s = store();
    let h = "abcdef0123";
    assert_eq!(s.object_path(h), "/repo/.passenger/objects/sha256/ab/cd/abcdef0123.zst");
}

#[test]
fn head_on_branch_resolves_its_ref() {
    let h = ref_head(Some("S000003\n"));
    assert_eq!(h.head_kind, HeadKind::Ref);
    assert_eq!(h.branch, "main");
    assert_eq!(h.head_commit, Some("S000003".to_string()));
    assert_eq!(h.version_dir, "/repo/.passenger/snapshots/V0.1.0");
}

#[test]
fn head_on_branch_without_commits() {
    assert_eq!(ref_head(Some("")).head_commit, None);
    assert_eq!(ref_head(None).head_commit, None);
}

#[test]
fn head_branch_without_refs_prefix() {
    assert_eq!(PassengerStore::head_branch("ref: dev\n"), Some("dev".to_string()));
    assert_eq!(PassengerStore::head_branch("S000001"), None);
}

#[test]
fn detach_then_resolve_reports_detached_commit() {
    let s = store();
    let cfg = PassengerConfig::default();
    let head = ref_head(Some("S000001"));
    let w = s.detach_head(&head, "S000002");
    assert_eq!(w.path, "/repo/.passenger/snapshots/V0.1.0/HEAD");
    assert_eq!(w.contents, "S000002");
    let h = s.resolve_head(&cfg, &w.contents, None);
    assert_eq!(h.head_kind, HeadKind::Detached);
    assert_eq!(h.branch, "(detached)");
    assert_eq!(h.head_commit, Some("S000002".to_string()));
}

#[test]
fn empty_detached_head_has_no_commit() {
    let h = store().resolve_head(&PassengerConfig::default(), "  ", None);
    assert_eq!(h.head_kind, HeadKind::Detached);
    assert_eq!(h.head_commit, None);
}

#[test]
fn create_branch_fails_when_it_exists() {
    let r = store().create_branch(&ref_head(None), "main", None, true);
    assert!(matches!(r, Err(PassengerError::AlreadyExists(_))));
}

#[test]
fn create_branch_points_at_from_or_head() {
    let s = store();
    let head = ref_head(Some("S000004"));
    let w = s.create_branch(&head, "feature", Some("main"), false).unwrap();
    assert_eq!(w.path, "/repo/.passenger/snapshots/V0.1.0/refs/feature");
    assert_eq!(w.contents, "main");
    let w = s.create_branch(&head, "feature", None, false).unwrap();
    assert_eq!(w.contents, "S000004");
    let w = s.create_branch(&ref_head(None), "feature", None, false).unwrap();
    assert_eq!(w.contents, "");
}

#[test]
fn checkout_requires_the_branch() {
    let s = store();
    let head = ref_head(None);
    assert!(matches!(s.checkout_branch(&head, "nope", false), Err(PassengerError::NotFound(_))));
    let w = s.checkout_branch(&head, "feature", true).unwrap();
    assert_eq!(w.path, "/repo/.passenger/snapshots/V0.1.0/HEAD");
    assert_eq!(w.contents, "ref: refs/feature");
}

#[test]
fn ignored_paths() {
    let c = |v: &[&str]| v.iter().map(|s| s.to_string()).collect::<Vec<String>>();
    assert!(PassengerStore::is_ignored_path(&c(&["src", "target", "x.rs"])));
    assert!(PassengerStore::is_ignored_path(&c(&[".passenger", "state.json"])));
    assert!(!PassengerStore::is_ignored_path(&c(&["src", "lib.rs"])));
}

#[test]
fn target_branch_policy() {
    let cfg = PassengerConfig::default();
    let mut opts = CheckpointOptions::default();
    let on_dev = store().resolve_head(&cfg, "ref: refs/dev", None);
    assert_eq!(PassengerStore::target_branch(&on_dev, &cfg, &opts), "dev");
    let detached = store().resolve_head(&cfg, "S000009", None);
    assert_eq!(PassengerStore::target_branch(&detached, &cfg, &opts), "main");
    opts.branch = Some("feature".to_string());
    assert_eq!(PassengerStore::target_branch(&detached, &cfg, &opts), "feature");
}

#[test]
fn default_config_and_options() {
    let cfg = PassengerConfig::default();
    assert_eq!(cfg.schema, 1);
    assert_eq!(cfg.passenger_version, "0.1.0");
    assert_eq!(cfg.default_branch, "main");
    assert_eq!(cfg.hash_algo, "sha256");
    assert!(cfg.compress);
    assert_eq!(cfg.track_roots, vec!["src".to_string(), "Cargo.toml".to_string()]);
    let o = CheckpointOptions::default();
    assert!(o.include_artifacts && o.note.is_none() && o.branch.is_none() && o.track_roots.is_none());
    let o = CheckpointOptions::from_command(Some("n".to_string()), None, true);
    assert!(!o.include_artifacts);
}

#[test]
fn effective_roots_prefer_override() {
    let cfg = PassengerConfig::default();
    let mut opts = CheckpointOptions::default();
    assert_eq!(PassengerStore::effective_track_roots(&cfg, &opts), cfg.track_roots);
    opts.track_roots = Some(vec!["lib".to_string()]);
    assert_eq!(PassengerStore::effective_track_roots(&cfg, &opts), vec!["lib".to_string()]);
}
