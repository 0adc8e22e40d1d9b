use squads_cli::emoji::{
    format_reactions_summary, get_emoji_by_key, get_key_by_emoji, map_to_key, map_to_unicode,
    EmojiMap,
};
use squads_cli::types::message::{Emotion, EmotionUser, MessageProperties};

fn sample() -> EmojiMap {
    EmojiMap::from_pairs(vec![
        ("like".to_string(), "👍".to_string()),
        ("yes".to_string(), "👍".to_string()),
        ("skull".to_string(), "💀".to_string()),
        ("heartpink".to_string(), "🩷".to_string()),
        ("like".to_string(), "✋".to_string()),
    ])
}

#[test]
fn lookups_both_ways() {
    let map = sample();
    assert_eq!(get_emoji_by_key(&map, "like"), Some("👍"));
    assert_eq!(get_emoji_by_key(&map, "LIKE"), None);
    assert_eq!(get_key_by_emoji(&map, "👍"), Some("like"));
    assert_eq!(get_key_by_emoji(&map, "🩷"), Some("heartpink"));
    assert_eq!(get_key_by_emoji(&map, "✋"), None);
    assert_eq!(get_key_by_emoji(&map, "x"), None);
}

#[test]
fn map_reactions() {
    let map = sample();
    assert_eq!(map_to_unicode(&map, "like"), "👍");
    assert_eq!(map_to_unicode(&map, "Skull"), "💀");
    assert_eq!(map_to_unicode(&map, "👍"), "👍");
    assert_eq!(map_to_unicode(&map, "Unknown_Key"), "Unknown_Key");
    assert_eq!(map_to_key(&map, "🩷"), "heartpink");
    assert_eq!(map_to_key(&map, "LIKE"), "like");
    assert_eq!(map_to_key(&map, "Unknown_Key"), "unknown_key");
}

#[test]
fn empty_map_passes_through() {
    let map = EmojiMap::new();
    assert_eq!(map_to_unicode(&map, "like"), "like");
    assert_eq!(map_to_key(&map, "like"), "like");
}

fn user(n: u64) -> EmotionUser {
    EmotionUser { mri: format!("8:u{}", n), time: n, value: String::new() }
}

#[test]
fn reactions_summary() {
    let map = sample();
    let props = MessageProperties {
        emotions: Some(vec![
            Emotion { key: "like".to_string(), users: vec![user(1), user(2)] },
            Emotion { key: "skull".to_string(), users: vec![user(3)] },
            Emotion { key: "party".to_string(), users: (0..12).map(user).collect() },
        ]),
        ..Default::default()
    };
    assert_eq!(format_reactions_summary(&map, &Some(props)), "👍2 💀 party12");
    assert_eq!(format_reactions_summary(&map, &None), "");
    assert_eq!(format_reactions_summary(&map, &Some(MessageProperties::default())), "");
}

fn teams_sample() -> EmojiMap {
    EmojiMap::from_pairs(vec![
        ("like".to_string(), "👍".to_string()),
        ("yes".to_string(), "👍".to_string()),
        ("skull".to_string(), "💀".to_string()),
        ("meltingface".to_string(), "🫠".to_string()),
        ("1f92f_explodinghead".to_string(), "🤯".to_string()),
        ("heartpink".to_string(), "🩷".to_string()),
    ])
}

#[test]
fn test_emoji_init_and_mapping() {
    let map = teams_sample();

    assert_eq!(get_emoji_by_key(&map, "like"), Some("👍"));

    let key_for_thumbsup = get_key_by_emoji(&map, "👍").expect("Should find a key for 👍");
    assert!(key_for_thumbsup == "like" || key_for_thumbsup == "yes");

    assert_eq!(map_to_unicode(&map, "like"), "👍");
    assert_eq!(map_to_unicode(&map, "👍"), "👍");
    assert_eq!(map_to_unicode(&map, "skull"), "💀");

    let mapped_key = map_to_key(&map, "👍");
    assert!(mapped_key == "like" || mapped_key == "yes");

    assert_eq!(map_to_unicode(&map, "meltingface"), "🫠");
    assert_eq!(map_to_unicode(&map, "1f92f_explodinghead"), "🤯");
    assert_eq!(map_to_unicode(&map, "heartpink"), "🩷");

    assert_eq!(map_to_key(&map, "🫠"), "meltingface");
    assert_eq!(map_to_key(&map, "🤯"), "1f92f_explodinghead");
    assert_eq!(map_to_key(&map, "🩷"), "heartpink");

    assert_eq!(map_to_unicode(&map, "unknown_emoji_key"), "unknown_emoji_key");
    assert_eq!(map_to_key(&map, "unknown_emoji_key"), "unknown_emoji_key");
}

#[test]
fn repeated_name_keeps_first_and_lookups_agree() {
    let map = EmojiMap::from_pairs(vec![
        ("like".to_string(), "👍".to_string()),
        ("like".to_string(), "✋".to_string()),
        ("wave".to_string(), "👋".to_string()),
    ]);
    assert_eq!(get_emoji_by_key(&map, "like"), Some("👍"));
    assert_eq!(get_key_by_emoji(&map, "✋"), None);
    for emoji in ["👍", "👋"] {
        let key = get_key_by_emoji(&map, emoji).unwrap();
        assert_eq!(get_emoji_by_key(&map, key), Some(emoji));
    }
}
