use std::collections::HashMap;

use passenger::checkpoint::{compute_commit_hash, CheckpointOptions};
use passenger::stats::{changed_paths, compute_stats_delta, stats_objects};
use passenger::store::{HeadKind, PassengerStore};
use passenger::types::{FileEntry, Manifest, ManifestKind, PassengerCommit, PassengerConfig, PassengerError, PassengerState};

fn entry(hash: &str) -> FileEntry {
    FileEntry { hash: hash.to_string(), bytes: 1, lines: 1 }
}

fn manifest(files: &[(&str, &str)]) -> Manifest {
    let mut m = Manifest::full();
    for (p, h) in files {
        m.insert_file(p.to_string(), entry(h));
    }
    m
}

/// A file system held in memory: path and bytes.
struct Disk {
    files: HashMap<String, Vec<u8>>,
}

impl Disk {
    fn text(&self, p: &str) -> Option<String> {
        self.files.get(p).map(|b| String::from_utf8(b.clone()).unwrap())
    }
    fn write(&mut self, p: &str, s: &str) {
        self.files.insert(p.to_string(), s.as_bytes().to_vec());
    }
}

/// Runs one checkpoint against the in-memory disk, the way a caller
/// performing the store's reads and writes would.
fn checkpoint(
    s: &PassengerStore,
    disk: &mut Disk,
    cfg: &PassengerConfig,
    st: &mut PassengerState,
    commits: &mut HashMap<String, PassengerCommit>,
    work: &[(&str, &str)],
    opts: &CheckpointOptions,
) -> PassengerCommit {
    let vd = s.version_dir(&cfg.passenger_version);
    let head_txt = disk.text(&PassengerStore::head_path(&vd)).unwrap();
    let ref_txt = PassengerStore::head_branch(&head_txt).and_then(|b| disk.text(&PassengerStore::ref_path(&vd, &b)));
    let head = s.resolve_head(cfg, &head_txt, ref_txt.as_deref());
    let target = PassengerStore::target_branch(&head, cfg, opts);
    let target_ref = disk.text(&PassengerStore::ref_path(&vd, &target));
    let start = s
        .begin_checkpoint(cfg, st, &head, opts, target_ref.is_some(), target_ref.as_deref())
        .unwrap();
    if let Some(w) = &start.create_ref {
        disk.write(&w.path, &w.contents);
    }
    let mut m = Manifest::full();
    for (rel, text) in work {
        let present = disk.files.contains_key(&s.object_path_for(text.as_bytes()));
        if let Some(o) = s.record_file(&mut m, rel.to_string(), text.as_bytes(), present).unwrap() {
            disk.files.insert(o.path.clone(), o.data.clone());
        }
    }
    let parent = start.parent_id.as_ref().map(|id| commits[id].clone());
    let mut blobs = Vec::new();
    if let Some(p) = &parent {
        for h in stats_objects(&p.manifest, &m) {
            let data = disk.files.get(&s.object_path(&h)).unwrap();
            blobs.push((h.clone(), s.read_object(data).unwrap()));
        }
    }
    let stats = compute_stats_delta(parent.as_ref().map(|p| &p.manifest), &m, &blobs).unwrap();
    let mut c = s.finish_checkpoint(cfg, &start, 1_700_000_000_000, m, stats, opts.note.clone(), parent.as_ref()).unwrap();
    let content = format!("{}|{}|{:?}", c.id, c.branch, c.parents).into_bytes();
    c.seal(&content);
    assert!(c.hash_matches(&content));
    let w = PassengerStore::advance_ref(&start, &c);
    disk.write(&w.path, &w.contents);
    commits.insert(c.id.clone(), c.clone());
    c
}

fn fresh() -> (PassengerStore, Disk, PassengerConfig, PassengerState) {
    let s = PassengerStore::open("/repo", true).unwrap();
    let plan = PassengerStore::init(None, false, 5);
    assert!(plan.write_config);
    let cfg = plan.config.clone();
    let st = plan.state.clone().unwrap();
    let mut disk = Disk { files: HashMap::new() };
    for w in s.ensure_version_layout(&cfg, false, false) {
        disk.write(&w.path, &w.contents);
    }
    (s, disk, cfg, st)
}

#[test]
fn manifest_keeps_paths_sorted_and_unique() {
    let mut m = manifest(&[("b", "h1"), ("a", "h2"), ("c", "h3")]);
    let paths: Vec<&str> = m.files.iter().map(|f| f.0.as_str()).collect();
    assert_eq!(paths, vec!["a", "b", "c"]);
    m.insert_file("b".to_string(), entry("h9"));
    assert_eq!(m.len(), 3);
    assert_eq!(m.get("b").unwrap().hash, "h9");
    assert!(m.get("z").is_none());
    assert_eq!(m.kind, ManifestKind::Full);
}

#[test]
fn manifest_order_does_not_depend_on_insertion_order() {
    let a = manifest(&[("src/b.rs", "1"), ("Cargo.toml", "2"), ("src/a.rs", "3")]);
    let b = manifest(&[("src/a.rs", "3"), ("src/b.rs", "1"), ("Cargo.toml", "2")]);
    let pa: Vec<(&str, &str)> = a.files.iter().map(|f| (f.0.as_str(), f.1.hash.as_str())).collect();
    let pb: Vec<(&str, &str)> = b.files.iter().map(|f| (f.0.as_str(), f.1.hash.as_str())).collect();
    assert_eq!(pa, pb);
    assert_eq!(pa[0].0, "Cargo.toml");
}

#[test]
fn changed_paths_is_the_union_of_differences() {
    let old = manifest(&[("a", "1"), ("b", "2"), ("gone", "3")]);
    let new = manifest(&[("a", "1"), ("b", "9"), ("new", "4")]);
    assert_eq!(changed_paths(&old, &new), vec!["b".to_string(), "new".to_string(), "gone".to_string()]);
}

#[test]
fn first_checkpoint_counts_every_file_and_no_lines() {
    let new = manifest(&[("a", "1"), ("b", "2"), ("c", "3")]);
    let s = compute_stats_delta(None, &new, &Vec::new()).unwrap();
    assert_eq!((s.changed_files, s.added_lines, s.removed_lines, s.paste_score), (3, 0, 0, 0));
}

#[test]
fn modified_line_counts_one_added_one_removed() {
    let old = manifest(&[("f", "h1")]);
    let new = manifest(&[("f", "h2")]);
    let blobs = vec![("h1".to_string(), b"a\nb\nc\n".to_vec()), ("h2".to_string(), b"a\nb\nd\n".to_vec())];
    let s = compute_stats_delta(Some(&old), &new, &blobs).unwrap();
    assert_eq!((s.changed_files, s.added_lines, s.removed_lines), (1, 1, 1));
}

#[test]
fn added_and_deleted_files_count_all_their_lines() {
    let old = manifest(&[("gone", "h1")]);
    let new = manifest(&[("new", "h2")]);
    let blobs = vec![("h1".to_string(), b"x\ny".to_vec()), ("h2".to_string(), b"1\n2\n3\n".to_vec())];
    let s = compute_stats_delta(Some(&old), &new, &blobs).unwrap();
    assert_eq!((s.changed_files, s.added_lines, s.removed_lines), (2, 3, 2));
}

#[test]
fn missing_object_is_not_found() {
    let old = manifest(&[("f", "h1")]);
    let new = manifest(&[("f", "h2")]);
    let blobs = vec![("h1".to_string(), b"a\n".to_vec())];
    assert!(matches!(compute_stats_delta(Some(&old), &new, &blobs), Err(PassengerError::NotFound(_))));
}

#[test]
fn delta_parent_manifest_is_unsupported() {
    let mut old = manifest(&[("f", "h1")]);
    old.kind = ManifestKind::Delta;
    let new = manifest(&[("f", "h1")]);
    assert!(matches!(compute_stats_delta(Some(&old), &new, &Vec::new()), Err(PassengerError::Unsupported(_))));
}

#[test]
fn stats_objects_lists_both_sides_of_changed_paths() {
    let old = manifest(&[("f", "h1"), ("same", "s")]);
    let new = manifest(&[("f", "h2"), ("same", "s")]);
    assert_eq!(stats_objects(&old, &new), vec!["h1".to_string(), "h2".to_string()]);
}

#[test]
fn put_twice_writes_once_with_one_hash() {
    let s = PassengerStore::open("/repo", true).unwrap();
    let (h1, w1) = s.put(b"hello\n", false).unwrap();
    let w1 = w1.unwrap();
    assert_eq!(w1.path, s.object_path(&h1));
    assert_eq!(s.read_object(&w1.data).unwrap(), b"hello\n".to_vec());
    let (h2, w2) = s.put(b"hello\n", true).unwrap();
    assert_eq!(h1, h2);
    assert!(w2.is_none());
}

#[test]
fn stored_objects_are_zstd_frames() {
    let s = PassengerStore::open("/repo", true).unwrap();
    let text = "line\n".repeat(200);
    let (_, w) = s.put(text.as_bytes(), false).unwrap();
    let data = w.unwrap().data;
    assert_eq!(&data[..4], &[0x28, 0xb5, 0x2f, 0xfd]);
    assert!(data.len() < text.len());
    assert_eq!(s.read_object(&data).unwrap(), text.as_bytes().to_vec());
}

#[test]
fn invalid_utf8_lines_still_diff() {
    let old = manifest(&[("f", "h1")]);
    let new = manifest(&[("f", "h2")]);
    let blobs = vec![("h1".to_string(), b"a\n\xff\n".to_vec()), ("h2".to_string(), b"a\n\xfe\n".to_vec())];
    let s = compute_stats_delta(Some(&old), &new, &blobs).unwrap();
    assert_eq!((s.changed_files, s.added_lines, s.removed_lines), (1, 0, 0));
}

#[test]
fn record_file_keeps_base_and_deleted() {
    let s = PassengerStore::open("/repo", true).unwrap();
    let mut m = Manifest::full();
    s.record_file(&mut m, "a".to_string(), b"x\n", true).unwrap();
    assert!(m.base.is_none() && m.deleted.is_empty());
    assert_eq!(m.get("a").unwrap().lines, 1);
}

#[test]
fn ingest_file_records_hash_length_and_lines() {
    let s = PassengerStore::open("/repo", true).unwrap();
    let e = s.ingest_file(b"abc");
    assert_eq!(e.hash, "ba7816bf8f01cfea414140de5dae2223b00361a396177a9cb410ff61f20015ad");
    assert_eq!((e.bytes, e.lines), (3, 1));
}

#[test]
fn corrupt_object_fails_to_decode() {
    let s = PassengerStore::open("/repo", true).unwrap();
    assert!(matches!(s.read_object(b"not zstd"), Err(PassengerError::Io(_))));
}

#[test]
fn sequence_ids_are_consecutive_per_version() {
    let cfg = PassengerConfig::default();
    let mut st = PassengerState::initial(&cfg, 7);
    assert_eq!((st.schema, st.created_ms), (1, 7));
    assert_eq!(st.allocate_id("0.1.0"), Some("S000001".to_string()));
    assert_eq!(st.allocate_id("0.2.0"), Some("S000001".to_string()));
    assert_eq!(st.allocate_id("0.1.0"), Some("S000002".to_string()));
    assert_eq!(st.allocate_id("0.2.0"), Some("S000002".to_string()));
    st.next_seq[0].1 = u64::MAX;
    assert_eq!(st.allocate_id("0.1.0"), None);
}

#[test]
fn commit_hash_chains_previous_hash() {
    let plain = compute_commit_hash(b"abc", None);
    assert_eq!(plain, "ba7816bf8f01cfea414140de5dae2223b00361a396177a9cb410ff61f20015ad");
    let prev = "c".to_string();
    assert_eq!(compute_commit_hash(b"ab", Some(&prev)), plain);
}

#[test]
fn init_twice_writes_nothing_the_second_time() {
    let s = PassengerStore::open("/repo", true).unwrap();
    let first = PassengerStore::init(None, false, 11);
    assert!(first.write_config);
    assert_eq!(first.state.as_ref().unwrap().next_seq, vec![("0.1.0".to_string(), 1)]);
    let second = PassengerStore::init(Some(first.config.clone()), true, 12);
    assert!(!second.write_config);
    assert!(second.state.is_none());
    assert_eq!(second.config.passenger_version, first.config.passenger_version);
    assert!(s.ensure_version_layout(&second.config, true, true).is_empty());
    let w = s.ensure_version_layout(&second.config, false, false);
    assert_eq!(w.len(), 2);
    assert_eq!(w[0].path, "/repo/.passenger/snapshots/V0.1.0/refs/main");
    assert_eq!(w[0].contents, "");
    assert_eq!(w[1].contents, "ref: refs/main");
    assert_eq!(s.layout_dirs(&second.config).len(), 5);
}

#[test]
fn end_to_end_two_checkpoints() {
    let (s, mut disk, cfg, mut st) = fresh();
    let mut commits = HashMap::new();
    let opts = CheckpointOptions { note: Some("first".to_string()), ..CheckpointOptions::default() };
    let c1 = checkpoint(&s, &mut disk, &cfg, &mut st, &mut commits, &[("src/lib.rs", "a\nb\nc\n")], &opts);
    assert_eq!(c1.ts_ms, 1_700_000_000_000);
    assert_eq!(c1.id, "S000001");
    assert!(c1.parents.is_empty());
    assert_eq!(c1.note, Some("first".to_string()));
    assert_eq!((c1.stats.changed_files, c1.stats.added_lines), (1, 0));
    assert!(c1.prev_hash.is_none());
    let c2 = checkpoint(&s, &mut disk, &cfg, &mut st, &mut commits, &[("src/lib.rs", "a\nb\nc\nd\n")], &CheckpointOptions::default());
    assert_eq!(c2.id, "S000002");
    assert_eq!(c2.parents, vec!["S000001".to_string()]);
    assert_eq!(c2.stats.changed_files, 1);
    assert!(c2.stats.added_lines >= 1);
    assert_eq!(c2.prev_hash, Some(c1.hash.clone()));
    assert_eq!(c2.first_parent(), Some("S000001".to_string()));
    assert_eq!(disk.text("/repo/.passenger/snapshots/V0.1.0/refs/main"), Some("S000002".to_string()));
}

#[test]
fn checkpoint_on_new_branch_leaves_main() {
    let (s, mut disk, cfg, mut st) = fresh();
    let mut commits = HashMap::new();
    let c1 = checkpoint(&s, &mut disk, &cfg, &mut st, &mut commits, &[("a.txt", "1\n")], &CheckpointOptions::default());
    let vd = s.version_dir(&cfg.passenger_version);
    let head_txt = disk.text(&PassengerStore::head_path(&vd)).unwrap();
    let head = s.resolve_head(&cfg, &head_txt, disk.text(&PassengerStore::ref_path(&vd, "main")).as_deref());
    assert_eq!(head.head_kind, HeadKind::Ref);
    let w = s.create_branch(&head, "feature", Some("S000001"), false).unwrap();
    disk.write(&w.path, &w.contents);
    let opts = CheckpointOptions { branch: Some("feature".to_string()), ..CheckpointOptions::default() };
    let c2 = checkpoint(&s, &mut disk, &cfg, &mut st, &mut commits, &[("a.txt", "2\n")], &opts);
    assert_eq!(c2.id, "S000002");
    assert_eq!(c2.branch, "feature");
    assert_eq!(c2.parents, vec![c1.id.clone()]);
    assert_eq!(disk.text(&PassengerStore::ref_path(&vd, "main")), Some("S000001".to_string()));
    assert_eq!(disk.text(&PassengerStore::ref_path(&vd, "feature")), Some("S000002".to_string()));
    let c3 = checkpoint(&s, &mut disk, &cfg, &mut st, &mut commits, &[("a.txt", "3\n")], &CheckpointOptions::default());
    assert_eq!(c3.id, "S000003");
    assert_eq!(c3.branch, "main");
    assert_eq!(c3.parents, vec!["S000001".to_string()]);
}

#[test]
fn detached_checkpoint_lands_on_default_branch() {
    let (s, mut disk, cfg, mut st) = fresh();
    let mut commits = HashMap::new();
    checkpoint(&s, &mut disk, &cfg, &mut st, &mut commits, &[("a.txt", "1\n")], &CheckpointOptions::default());
    let vd = s.version_dir(&cfg.passenger_version);
    let head = s.resolve_head(&cfg, "ref: refs/main", Some("S000001"));
    let w = s.detach_head(&head, "S000001");
    disk.write(&w.path, &w.contents);
    let c = checkpoint(&s, &mut disk, &cfg, &mut st, &mut commits, &[("a.txt", "2\n")], &CheckpointOptions::default());
    assert_eq!(c.branch, "main");
    assert_eq!(disk.text(&PassengerStore::ref_path(&vd, "main")), Some("S000002".to_string()));
}
