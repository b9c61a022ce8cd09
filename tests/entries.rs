use game_library::entry::{game_from_payload, size_scan_target, GameEntry, GamePayload, InstallStatus, Timestamp};
use game_library::error::LibraryError;
use game_library::store::{add_game, has_unique_ids, is_blank_document, remove_game, sort_newest_first, update_game};
use game_library::tags::normalize_tags;
use game_library::text::{non_empty, trim_str};

fn payload(title: &str) -> GamePayload {
    GamePayload {
        title: title.to_string(),
        version: None,
        archive_path: None,
        install_path: None,
        executable_path: None,
        repacker: None,
        tags: Vec::new(),
        status: InstallStatus::default(),
        notes: None,
        checksum: None,
        color: None,
        size_override: None,
    }
}

fn strings(v: &[&str]) -> Vec<String> {
    v.iter().map(|s| s.to_string()).collect()
}

#[test]
fn tags_split_trim_sort_dedup() {
    assert_eq!(normalize_tags(strings(&["b,  a", "a"])), strings(&["a", "b"]));
}

#[test]
fn tags_are_case_sensitive() {
    assert_eq!(
        normalize_tags(strings(&["  rpg, Action ", "action"])),
        strings(&["Action", "action", "rpg"])
    );
}

#[test]
fn tags_drop_empty_pieces() {
    assert_eq!(normalize_tags(strings(&[" , ,", "", "\t x \n,,"])), strings(&["x"]));
    assert_eq!(normalize_tags(Vec::new()), Vec::<String>::new());
}

#[test]
fn trim_and_non_empty() {
    assert_eq!(trim_str("  a b \t"), "a b");
    assert_eq!(trim_str("\u{3000}x\u{a0}"), "x");
    assert_eq!(non_empty("   ".to_string()), None);
    assert_eq!(non_empty(" v1 ".to_string()), Some("v1".to_string()));
}

#[test]
fn blank_title_becomes_untitled() {
    let e = game_from_payload(payload("   "), None, None);
    assert_eq!(e.title, "Untitled");
    assert_eq!(e.added_at, e.updated_at);
    assert_eq!(e.id.len(), 36);
    assert_eq!(e.status, InstallStatus::NotInstalled);
}

#[test]
fn build_normalises_fields() {
    let mut p = payload("  Doom  ");
    p.version = Some("  ".to_string());
    p.notes = Some(" fast ".to_string());
    p.tags = strings(&["fps, retro", "fps"]);
    p.status = InstallStatus::Installed;
    let e = game_from_payload(p, None, Some(42));
    assert_eq!(e.title, "Doom");
    assert_eq!(e.version, None);
    assert_eq!(e.notes, Some("fast".to_string()));
    assert_eq!(e.tags, strings(&["fps", "retro"]));
    assert_eq!(e.status, InstallStatus::Installed);
    assert_eq!(e.size_bytes, Some(42));
}

#[test]
fn size_override_wins_and_failed_scan_keeps_old_size() {
    let mut p = payload("A");
    p.size_override = Some(7);
    p.archive_path = Some("/tmp/a.zip".to_string());
    assert_eq!(size_scan_target(&p), None);
    assert_eq!(game_from_payload(p, None, Some(99)).size_bytes, Some(7));

    let mut q = payload("A");
    q.archive_path = Some("  ".to_string());
    q.install_path = Some(" /games/a ".to_string());
    assert_eq!(size_scan_target(&q), Some("/games/a".to_string()));
    let mut old = game_from_payload(payload("old"), None, None);
    old.size_bytes = Some(5);
    let updated = game_from_payload(q, Some(old.clone()), None);
    assert_eq!(updated.size_bytes, Some(5));
    assert_eq!(updated.id, old.id);
}

#[test]
fn add_appends_one_fresh_entry() {
    let mut library: Vec<GameEntry> = Vec::new();
    let first = add_game(&mut library, payload("One"), None);
    let second = add_game(&mut library, payload(" "), None);
    assert_eq!(library.len(), 2);
    assert_eq!(library[1].id, second.id);
    assert_ne!(first.id, second.id);
    assert_eq!(second.title, "Untitled");
    assert_eq!(second.added_at, second.updated_at);
}

#[test]
fn update_unknown_id_is_not_found_and_changes_nothing() {
    let mut library: Vec<GameEntry> = Vec::new();
    add_game(&mut library, payload("One"), None);
    let before = format!("{:?}", library);
    let r = update_game(&mut library, "missing".to_string(), payload("Two"), None);
    assert_eq!(r.unwrap_err(), LibraryError::NotFound);
    assert_eq!(format!("{:?}", library), before);
}

#[test]
fn update_replaces_in_place() {
    let mut library: Vec<GameEntry> = Vec::new();
    let a = add_game(&mut library, payload("One"), None);
    let b = add_game(&mut library, payload("Two"), None);
    let u = update_game(&mut library, a.id.clone(), payload(" Uno "), None).unwrap();
    assert_eq!(u.id, a.id);
    assert_eq!(u.title, "Uno");
    assert_eq!(u.added_at, a.added_at);
    assert_eq!(library[0].title, "Uno");
    assert_eq!(library[1].id, b.id);
}

#[test]
fn remove_shrinks_by_one_then_not_found() {
    let mut library: Vec<GameEntry> = Vec::new();
    let a = add_game(&mut library, payload("One"), None);
    add_game(&mut library, payload("Two"), None);
    assert_eq!(remove_game(&mut library, a.id.clone()), Ok(()));
    assert_eq!(library.len(), 1);
    assert_eq!(remove_game(&mut library, a.id.clone()), Err(LibraryError::NotFound));
    assert_eq!(library.len(), 1);
}

#[test]
fn sort_puts_newest_first() {
    let mut library: Vec<GameEntry> = Vec::new();
    for (i, secs) in [5i64, 9, 1, 9].iter().enumerate() {
        let mut e = game_from_payload(payload(&format!("g{i}")), None, None);
        e.updated_at = Timestamp { secs: *secs, nanos: i as u32 };
        library.push(e);
    }
    sort_newest_first(&mut library);
    let order: Vec<(i64, u32)> = library.iter().map(|e| (e.updated_at.secs, e.updated_at.nanos)).collect();
    assert_eq!(order, vec![(9, 3), (9, 1), (5, 0), (1, 2)]);
}

#[test]
fn blank_documents() {
    assert!(is_blank_document(""));
    assert!(is_blank_document(" \n\t "));
    assert!(!is_blank_document("[]"));
}

#[test]
fn duplicate_ids_are_detected() {
    let mut library: Vec<GameEntry> = Vec::new();
    assert!(has_unique_ids(&library));
    let a = add_game(&mut library, payload("One"), None);
    add_game(&mut library, payload("Two"), None);
    assert!(has_unique_ids(&library));
    let mut copy = library[1].clone();
    copy.id = a.id.clone();
    library.push(copy);
    assert!(!has_unique_ids(&library));
}

#[test]
fn updated_never_before_added() {
    let mut library: Vec<GameEntry> = Vec::new();
    let a = add_game(&mut library, payload("One"), None);
    library[0].added_at = Timestamp { secs: i64::MAX, nanos: 0 };
    let u = update_game(&mut library, a.id.clone(), payload("One"), None).unwrap();
    assert_eq!(u.updated_at, Timestamp { secs: i64::MAX, nanos: 0 });
}
