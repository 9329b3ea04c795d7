use modern_sender::destination::Key;
use modern_sender::routing::{resolve, Group, NetworkInfo, SendCategory};
use modern_sender::SendMode;

fn signal_key(tag: u8) -> Key {
    Key::Signal([tag; 32])
}

fn category(name: &str, networks: Vec<u64>, groups: Vec<(Key, SendMode)>, use_general: bool) -> SendCategory {
    SendCategory { name: String::from(name), networks, groups, use_general }
}

#[test]
fn later_category_wins_for_same_destination() {
    let g1 = signal_key(1);
    let categories = vec![
        category("A", vec![5], vec![(g1.clone(), SendMode::Normal)], false),
        category("B", vec![5], vec![(g1.clone(), SendMode::Frequency)], false),
    ];
    let globals: Vec<(Key, Group)> = Vec::new();

    let resolved = resolve(Some(5), &categories, &globals);
    assert_eq!(resolved.len(), 1);
    assert!(resolved[0].0.key_eq(&g1));
    assert_eq!(resolved[0].1, SendMode::Frequency);
}

#[test]
fn use_general_adds_active_globals() {
    let g2 = signal_key(2);
    let categories = vec![category("C", vec![9], Vec::new(), true)];
    let globals = vec![(g2.clone(), Group::new(String::from("two"), SendMode::Normal))];

    let resolved = resolve(Some(9), &categories, &globals);
    assert_eq!(resolved.len(), 1);
    assert!(resolved[0].0.key_eq(&g2));
    assert_eq!(resolved[0].1, SendMode::Normal);
}

#[test]
fn category_override_beats_global_mode() {
    let g1 = signal_key(1);
    let categories = vec![category(
        "C",
        vec![9],
        vec![(g1.clone(), SendMode::Frequency)],
        true,
    )];
    let globals = vec![(g1.clone(), Group::new(String::from("one"), SendMode::Normal))];

    let resolved = resolve(Some(9), &categories, &globals);
    assert_eq!(resolved.len(), 1);
    assert_eq!(resolved[0].1, SendMode::Frequency);
}

#[test]
fn off_override_drops_destination() {
    let g1 = signal_key(1);
    let categories = vec![category("C", vec![9], vec![(g1.clone(), SendMode::Off)], true)];
    let globals = vec![(g1.clone(), Group::new(String::from("one"), SendMode::Normal))];

    let resolved = resolve(Some(9), &categories, &globals);
    assert!(resolved.is_empty());
}

#[test]
fn no_tag_or_no_match_falls_back_to_globals() {
    let g1 = signal_key(1);
    let g2 = Key::Whatsapp(String::from("123@g.us"));
    let categories = vec![category("C", vec![9], vec![(g1.clone(), SendMode::Frequency)], false)];
    let globals = vec![
        (g1.clone(), Group::new(String::from("one"), SendMode::Off)),
        (g2.clone(), Group::new(String::from("two"), SendMode::Normal)),
    ];

    let untagged = resolve(None, &categories, &globals);
    assert_eq!(untagged.len(), 1);
    assert!(untagged[0].0.key_eq(&g2));
    assert_eq!(untagged[0].1, SendMode::Normal);

    let unmatched = resolve(Some(777), &categories, &globals);
    assert_eq!(unmatched.len(), 1);
    assert!(unmatched[0].0.key_eq(&g2));
}

#[test]
fn matching_without_use_general_ignores_globals() {
    let g1 = signal_key(1);
    let g2 = signal_key(2);
    let categories = vec![category("C", vec![9], vec![(g1.clone(), SendMode::Normal)], false)];
    let globals = vec![(g2.clone(), Group::new(String::from("two"), SendMode::Normal))];

    let resolved = resolve(Some(9), &categories, &globals);
    assert_eq!(resolved.len(), 1);
    assert!(resolved[0].0.key_eq(&g1));
}

#[test]
fn set_group_upserts_override() {
    let g1 = signal_key(1);
    let mut cat = SendCategory::new(String::from("C"));
    cat.set_group(g1.clone(), SendMode::Normal);
    assert_eq!(cat.group_mode(&g1), Some(SendMode::Normal));
    cat.set_group(g1.clone(), SendMode::Frequency);
    assert_eq!(cat.group_mode(&g1), Some(SendMode::Frequency));
    assert_eq!(cat.groups.len(), 1);
}

#[test]
fn network_toggling() {
    let mut cat = SendCategory::new(String::from("C"));
    assert!(!cat.match_network(5));
    cat.add_network(5);
    cat.add_network(5);
    assert!(cat.match_network(5));
    assert_eq!(cat.networks.len(), 1);
    cat.remove_network(5);
    assert!(!cat.match_network(5));
}

#[test]
fn shrink_keeps_only_active_overrides() {
    let g1 = signal_key(1);
    let g2 = signal_key(2);
    let mut cat = SendCategory::new(String::from("C"));
    cat.set_group(g1.clone(), SendMode::Off);
    cat.set_group(g2.clone(), SendMode::Frequency);
    cat.shrink();
    assert_eq!(cat.group_mode(&g1), None);
    assert_eq!(cat.group_mode(&g2), Some(SendMode::Frequency));
}

#[test]
fn key_identity() {
    let a = signal_key(1);
    let b = signal_key(1);
    let c = signal_key(2);
    let w = Key::Whatsapp(String::from("x"));
    assert!(a.key_eq(&b));
    assert!(!a.key_eq(&c));
    assert!(!a.key_eq(&w));
    assert!(a.is_signal());
    assert!(w.is_whatsapp());
}

#[test]
fn build_record_partitions_by_backend() {
    let g1 = signal_key(1);
    let w1 = Key::Whatsapp(String::from("123@g.us"));
    let g2 = signal_key(2);
    let globals = vec![
        (g1.clone(), Group::new(String::from("one"), SendMode::Normal)),
        (w1.clone(), Group::new(String::from("chat"), SendMode::Normal)),
        (g2.clone(), Group::new(String::from("two"), SendMode::Normal)),
    ];
    let resolved = vec![
        (g1.clone(), SendMode::Normal),
        (w1.clone(), SendMode::Frequency),
        (g2.clone(), SendMode::Frequency),
    ];
    let record = modern_sender::routing::build_record(
        String::from("text"),
        Some(String::from("145.500")),
        &resolved,
        &globals,
    );
    assert_eq!(record.content, "text");
    assert_eq!(record.groups.len(), 2);
    assert_eq!(record.groups[0].key, [1u8; 32]);
    assert_eq!(record.groups[0].title, "one");
    assert_eq!(record.groups[0].send_mode, SendMode::Normal);
    assert_eq!(record.groups[1].key, [2u8; 32]);
    assert_eq!(record.groups[1].send_mode, SendMode::Frequency);
    assert_eq!(record.groups_whatsapp.len(), 1);
    assert_eq!(record.groups_whatsapp[0].key, "123@g.us");
    assert_eq!(record.groups_whatsapp[0].title, "chat");
    assert_eq!(record.sent_count(), 0);
}

#[test]
fn merge_keeps_known_groups_and_adds_new_ones_off() {
    let g1 = signal_key(1);
    let g2 = signal_key(2);
    let mut globals = vec![(g1.clone(), Group::new(String::from("one"), SendMode::Normal))];
    let fetched = vec![
        (g1.clone(), String::from("renamed")),
        (g2.clone(), String::from("two")),
    ];
    modern_sender::routing::merge_groups(&mut globals, &fetched);
    assert_eq!(globals.len(), 2);
    assert_eq!(globals[0].1.title, "one");
    assert_eq!(globals[0].1.send_mode, SendMode::Normal);
    assert!(globals[1].0.key_eq(&g2));
    assert_eq!(globals[1].1.title, "two");
    assert_eq!(globals[1].1.send_mode, SendMode::Off);
}

#[test]
fn network_info_retains_identity() {
    let info = NetworkInfo::new(42, String::from("Net"));
    assert_eq!(info.id, 42);
    assert_eq!(info.name, "Net");
    assert!(info.freq.is_empty());
    assert!(info.crypt_mode.is_empty());
}
