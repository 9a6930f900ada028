use tuwunel_admin::parse::{
    aliases_for_room, alias_resolves_to, appservice_config_yaml, bool_reply, config_table,
    count_users, debug_string_array, entry_get, fenced, has_lone_bar_line, last_active,
    list_aliases, list_appservices, list_banned_rooms, list_devices, list_features,
    list_federated_rooms, list_joined_members, list_joined_rooms, list_published_rooms,
    list_rooms, list_tokens, list_users, media_file_info, memory_database_section,
    memory_sections, room_topic, starts_with_ci,
};

fn s(v: &[&str]) -> Vec<String> {
    v.iter().map(|x| x.to_string()).collect()
}

#[test]
fn users_are_read_from_the_found_block() {
    let body = "Found 2 local user account(s):\n```\n@alice:example.org\n@bob:example.org\n```";
    assert_eq!(list_users(body), Some(s(&["@alice:example.org", "@bob:example.org"])));
}

#[test]
fn users_need_the_found_header() {
    assert_eq!(list_users("@alice:example.org"), None);
    assert_eq!(list_users("Found 0 local user account(s):\n```\n```"), None);
}

#[test]
fn last_active_pairs_localpart_with_timestamp() {
    let body = "```\n2024-05-01T10:00:00.000 alice\nnot a line\n2024-05-02T11:00:00.000 bob\n```";
    assert_eq!(
        last_active(body),
        Some(vec![
            ("alice".to_string(), "2024-05-01T10:00:00.000".to_string()),
            ("bob".to_string(), "2024-05-02T11:00:00.000".to_string()),
        ])
    );
    assert_eq!(last_active("nothing here"), None);
}

#[test]
fn rooms_list_reads_tab_separated_fields() {
    let body = "Rooms:\n!a:x\tMembers: 3\tName: Lobby\n!b:x\tName: !b:x\tMembers: nope\n";
    let rows = list_rooms(body).unwrap();
    assert_eq!(rows.len(), 2);
    assert_eq!(rows[0].room_id, "!a:x");
    assert_eq!(rows[0].name, "Lobby");
    assert_eq!(rows[0].members, 3);
    assert_eq!(rows[1].room_id, "!b:x");
    assert_eq!(rows[1].name, "");
    assert_eq!(rows[1].members, 0);
    assert!(list_rooms("no rooms").is_none());
}

#[test]
fn joined_members_take_the_first_mxid_of_each_line() {
    let body = "Members:\n- @alice:x | Alice\n<li>@bob:y</li>\n@:\nnobody";
    assert_eq!(list_joined_members(body), Some(s(&["@alice:x", "@bob:y"])));
    assert_eq!(list_joined_members("none"), None);
}

#[test]
fn bang_lists_take_the_first_word() {
    let body = "Rooms:\n!a:x federated since 2020\n  !b:y\nnot a room";
    assert_eq!(list_federated_rooms(body), Some(s(&["!a:x", "!b:y"])));
    assert_eq!(list_banned_rooms(body), Some(s(&["!a:x", "!b:y"])));
    assert_eq!(list_banned_rooms("No rooms are banned."), None);
}

#[test]
fn appservices_list_is_empty_for_none_and_none_without_header() {
    assert_eq!(list_appservices("Appservices (2): bridge, bot ,"), Some(s(&["bridge", "bot"])));
    assert_eq!(list_appservices("Appservices (0):"), Some(Vec::new()));
    assert_eq!(list_appservices("nothing"), None);
    assert_eq!(list_appservices("Appservices without colon"), None);
}

#[test]
fn fenced_payload_and_yaml() {
    let body = "Config for bridge:\n```yaml\nid: bridge\nurl: http://b\n```";
    assert_eq!(fenced(body), Some("id: bridge\nurl: http://b\n"));
    assert_eq!(appservice_config_yaml(body), Some("id: bridge\nurl: http://b".to_string()));
    assert_eq!(fenced("no fence"), None);
    assert_eq!(fenced("```no newline"), None);
    assert_eq!(appservice_config_yaml("plain"), None);
}

#[test]
fn tokens_are_read_from_bullets() {
    let body = "- `abc` --- Token used 2 times. Expires after 5 uses or in 3 days (2024-06-01 10:00:00).\n* `def` --- Token used 0 times. Does not expire.\n- `` --- empty";
    let rows = list_tokens(body).unwrap();
    assert_eq!(rows.len(), 2);
    assert_eq!(rows[0].token, "abc");
    assert_eq!(rows[0].completed, 2);
    assert_eq!(rows[0].uses_allowed, Some(5));
    assert_eq!(rows[0].pending, 0);
    assert_eq!(rows[0].expiration, Some("2024-06-01 10:00:00".to_string()));
    assert_eq!(rows[1].token, "def");
    assert_eq!(rows[1].completed, 0);
    assert_eq!(rows[1].uses_allowed, None);
    assert_eq!(rows[1].expiration, None);
    assert!(list_tokens("no tokens").is_none());
}

#[test]
fn case_insensitive_prefix() {
    assert!(starts_with_ci("Command Failed With Error: x", "command failed"));
    assert!(!starts_with_ci("cmd", "command"));
    assert!(starts_with_ci("abc", ""));
}

#[test]
fn media_info_reads_key_values() {
    let body = "```\nContent-Type: image/png\nSize: 12 KiB\n: nothing\n```";
    assert_eq!(
        media_file_info(body),
        Some(vec![
            ("Content-Type".to_string(), "image/png".to_string()),
            ("Size".to_string(), "12 KiB".to_string()),
        ])
    );
    assert_eq!(media_file_info("no pairs"), None);
}

#[test]
fn devices_are_read_from_debug_print() {
    let body = "```rs\n[\n    Device {\n        device_id: \"ABC\",\n        display_name: Some(\n            \"Phone\",\n        ),\n        last_seen_ip: None,\n        last_seen_ts: Some(\n            2024,\n        ),\n    },\n]\n```";
    let rows = list_devices(body).unwrap();
    assert_eq!(rows.len(), 1);
    assert_eq!(rows[0].device_id, "ABC");
    assert_eq!(rows[0].display_name, Some("Phone".to_string()));
    assert_eq!(rows[0].last_seen_ip, None);
    assert_eq!(rows[0].last_seen_ts, Some("2024".to_string()));
    assert!(list_devices("no fence").is_none());
}

#[test]
fn aliases_are_read_from_bullets() {
    assert_eq!(
        list_aliases("- `!a:x` -> #one:x\n- `!b:x` no arrow"),
        Some(vec![("!a:x".to_string(), "#one:x".to_string())])
    );
    assert_eq!(
        aliases_for_room("Aliases for !a:x:\n- #one:x\n* `#two:x`\n- nope"),
        Some(s(&["#one:x", "#two:x"]))
    );
    assert_eq!(aliases_for_room("none"), None);
}

#[test]
fn alias_resolution_and_topic() {
    assert_eq!(alias_resolves_to("Alias resolves to !a:x "), Some("!a:x".to_string()));
    assert_eq!(alias_resolves_to("not found"), None);
    assert_eq!(room_topic("No Topic"), None);
    assert_eq!(room_topic("Topic:\n```\nHello there\n```"), Some("Hello there".to_string()));
    assert_eq!(room_topic("```\n   \n```"), None);
}

#[test]
fn published_rooms() {
    assert_eq!(list_published_rooms("No rooms are published."), Some(Vec::new()));
    assert_eq!(list_published_rooms("- `!a:x`\n!b:y\n- nope"), Some(s(&["!a:x", "!b:y"])));
    assert_eq!(list_published_rooms("nothing"), None);
}

#[test]
fn memory_sections_group_rows_under_labels() {
    let body = "Services:\nrooms: 10\nDatabase:\nRow cache: 1 MiB\nMemory buffers: 2 MiB\nServices:\nusers: 3\nEmpty:\n";
    let secs = memory_sections(body);
    assert_eq!(secs.len(), 2);
    assert_eq!(secs[0].0, "Services");
    assert_eq!(
        secs[0].1,
        vec![
            ("rooms".to_string(), "10".to_string()),
            ("users".to_string(), "3".to_string()),
        ]
    );
    assert_eq!(secs[1].0, "Database");
    assert_eq!(secs[1].1.len(), 2);
    let general = memory_sections("a: 1");
    assert_eq!(general[0].0, "General");
}

#[test]
fn config_table_rows() {
    let body = "| name | value |\n| --- | --- |\n| server_name | example.org |\n| port | `8008` |\n";
    assert!(!has_lone_bar_line(body));
    assert_eq!(
        config_table(body),
        vec![
            ("server_name".to_string(), "example.org".to_string()),
            ("port".to_string(), "`8008`".to_string()),
        ]
    );
    assert!(has_lone_bar_line("| a | b |\n  |  \n"));
}

#[test]
fn user_count_from_header_or_lines() {
    assert_eq!(count_users("Found 42 local user account(s):"), 42);
    assert_eq!(count_users("@a:x\n@b:x\nnot"), 2);
}

#[test]
fn database_section_figures() {
    let body = "Services:\nx: 1\nDatabase:\nMemory buffers: 3 MiB\nRow cache: 1 MiB\nRow cache: 2 MiB\nAllocator:\nMemory buffers: 9 MiB";
    let db = memory_database_section(body);
    assert_eq!(db.len(), 2);
    assert_eq!(entry_get(&db, "Memory buffers"), Some("3 MiB".to_string()));
    assert_eq!(entry_get(&db, "Row cache"), Some("2 MiB".to_string()));
    assert_eq!(entry_get(&db, "Pending write"), None);
    assert!(memory_database_section("no db").is_empty());
}

#[test]
fn features_flags() {
    assert_eq!(
        list_features("✅ media [enabled]\n❌ ldap [disabled]\nother"),
        Some(vec![("media".to_string(), true), ("ldap".to_string(), false)])
    );
    assert_eq!(list_features("nothing"), None);
}

#[test]
fn debug_arrays_and_bools() {
    assert_eq!(
        debug_string_array("```rs\n[\n    \"!a:x\",\n    \"!b:x\"\n]\n```"),
        Some(s(&["!a:x", "!b:x"]))
    );
    assert_eq!(debug_string_array("```\n[]\n```"), None);
    assert_eq!(bool_reply(" true\n"), Some(true));
    assert_eq!(bool_reply("false"), Some(false));
    assert_eq!(bool_reply("maybe"), None);
}

#[test]
fn joined_rooms_under_header() {
    let body = "Rooms @a:x Joined (2):\n!r:x\tMembers: 4\tName: Lobby\n!s:x\tMembers: 1\n";
    let rows = list_joined_rooms(body).unwrap();
    assert_eq!(rows.len(), 1);
    assert_eq!(rows[0].room_id, "!r:x");
    assert_eq!(rows[0].members, 4);
    assert_eq!(rows[0].name, "Lobby");
    assert!(list_joined_rooms("!r:x\tMembers: 4\tName: Lobby").is_none());
}

#[test]
fn fenced_takes_the_first_block() {
    assert_eq!(fenced("```\na\n```\n```\nb\n```"), Some("a\n"));
}

#[test]
fn devices_fold_nested_groups() {
    let body = "```rs\n[\n    Device {\n        device_id: \"ABC\",\n        display_name: Some(\n            Name(\n                \"x\",\n            ),\n        ),\n    },\n]\n```";
    let rows = list_devices(body).unwrap();
    assert_eq!(rows.len(), 1);
    assert_eq!(rows[0].display_name, Some("Name(\"x\")".to_string()));
}

#[test]
fn room_lists_count_room_lines() {
    let rows = list_rooms("header\n  !a:x\tMembers: 2\tName: A\nnoise\n!b:x\n").unwrap();
    assert_eq!(rows.len(), 2);
    assert_eq!(rows[0].room_id, "!a:x");
    assert_eq!(rows[1].room_id, "!b:x");
    assert!(list_rooms("no rooms here\n").is_none());
    assert!(list_joined_rooms("!a:x\tMembers: 1\tName: A").is_none());
    let joined = list_joined_rooms("Rooms @u:x Joined (2):\n!a:x\tMembers: 1\tName: A\n!b:x\tshort\n").unwrap();
    assert_eq!(joined.len(), 1);
    assert_eq!(joined[0].room_id, "!a:x");
    assert!(list_joined_rooms("Rooms @u:x Joined (0):\n").is_none());
}

#[test]
fn memory_rows_default_to_general() {
    let s = memory_sections("a: 1\n  b :  2  \nempty:\nDatabase:\nc: 3\n");
    assert_eq!(s[0].0, "General");
    assert_eq!(s[0].1, vec![("a".to_string(), "1".to_string()), ("b".to_string(), "2".to_string())]);
    assert_eq!(s[1].0, "Database");
    assert_eq!(s.len(), 2);
}

#[test]
fn bang_id_lists_take_first_words() {
    let body = "!a:s x\n !b:s\nfoo";
    let expected = Some(vec!["!a:s".to_string(), "!b:s".to_string()]);
    assert_eq!(list_banned_rooms(body), expected);
    assert_eq!(list_federated_rooms(body), expected);
    assert_eq!(list_banned_rooms("foo\nbar"), None);
}

#[test]
fn memory_rows_before_first_header() {
    let s = memory_sections("x: 1\nServices:\ny: 2\nz: 3\n");
    assert_eq!(s[0], ("General".to_string(), vec![("x".to_string(), "1".to_string())]));
    assert_eq!(s[1].0, "Services");
}
