use tuwunel_admin::appservices::{self, AppserviceRow};
use tuwunel_admin::commands::{
    all, by_module, find, module_title, modules, render_template, template_renderable, FieldKind,
};
use tuwunel_admin::federation::overview;
use tuwunel_admin::matrix::{
    admin_room_alias, admin_wire, device_label, directory_url, is_error_reply, is_member,
    joined_members_url, log_entry, login_result, login_url, logout_url, normalize, pick_reply,
    send_url, sync_url, AdminEvent, AdminRun, Phase, Session, SyncEvent,
};
use tuwunel_admin::media::{file_info, file_info_command};
use tuwunel_admin::rooms::{self, ListOpts, RoomRow};
use tuwunel_admin::server::{self, clean_uptime, count_room_lines, dashboard, stats, DashboardReplies, RoomCount};
use tuwunel_admin::text::decimal_string;
use tuwunel_admin::tokens;
use tuwunel_admin::users::{self, localpart};

fn session() -> Session {
    Session {
        user_id: "@me:x".to_string(),
        access_token: "tok".to_string(),
        admin_room_id: "!admins:x".to_string(),
        homeserver: "https://x".to_string(),
    }
}

fn ev(kind: &str, sender: &str, body: &str) -> SyncEvent {
    SyncEvent { kind: kind.to_string(), sender: sender.to_string(), body: body.to_string() }
}

#[test]
fn homeserver_urls() {
    assert_eq!(normalize("  https://x.org/// "), "https://x.org");
    assert_eq!(login_url("https://x"), "https://x/_matrix/client/v3/login");
    assert_eq!(logout_url("https://x"), "https://x/_matrix/client/v3/logout");
    assert_eq!(sync_url("https://x"), "https://x/_matrix/client/v3/sync");
    assert_eq!(directory_url("https://x", "#admins:x"), "https://x/_matrix/client/v3/directory/room/%23admins%3Ax");
    assert_eq!(joined_members_url("https://x", "!r:x"), "https://x/_matrix/client/v3/rooms/%21r%3Ax/joined_members");
    assert_eq!(send_url("https://x", "!r:x", "t1"), "https://x/_matrix/client/v3/rooms/%21r%3Ax/send/m.room.message/t1");
    assert_eq!(device_label(""), "tuwunel-admin");
    assert_eq!(device_label("laptop"), "laptop");
}

#[test]
fn admin_commands_carry_the_prefix_once() {
    assert_eq!(admin_wire("users list-users"), "!admin users list-users");
    assert_eq!(admin_wire("!admin users list-users"), "!admin users list-users");
    assert_eq!(admin_wire(&admin_wire("server uptime")), "!admin server uptime");
}

#[test]
fn admin_room_alias_is_derived_from_the_user() {
    assert_eq!(admin_room_alias("", "@me:x.org"), Some("#admins:x.org".to_string()));
    assert_eq!(admin_room_alias("#ops:y", "@me:x.org"), Some("#ops:y".to_string()));
    assert_eq!(admin_room_alias("", "nocolon"), None);
}

#[test]
fn the_bot_reply_is_the_first_foreign_message() {
    let events = vec![
        ev("m.room.member", "@bot:x", "joined"),
        ev("m.room.message", "@me:x", "!admin x"),
        ev("m.room.message", "@bot:x", "reply"),
        ev("m.room.message", "@other:x", "later"),
    ];
    let r = pick_reply(&events, "@me:x").unwrap();
    assert_eq!(r.sender, "@bot:x");
    assert_eq!(r.body, "reply");
    assert!(pick_reply(&events[..2].to_vec(), "@me:x").is_none());
}

#[test]
fn error_replies_are_recognized() {
    assert!(!is_error_reply("Command failed with error:\n```\nNo rooms are banned.\n```"));
    assert!(!is_error_reply("Command failed with error:\n```\n\n```"));
    assert!(is_error_reply("Command failed with error:\n```\nroom not found\n```"));
    assert!(is_error_reply("  error: bad"));
    assert!(is_error_reply("x: unrecognized subcommand 'y'"));
    assert!(!is_error_reply("Found 2 local user account(s)"));
    let e = log_entry("cmd", "ERROR here");
    assert!(e.is_error);
    assert_eq!(e.cmd, "cmd");
}

#[test]
fn membership() {
    let m = vec!["@a:x".to_string(), "@b:x".to_string()];
    assert!(is_member(&m, "@b:x"));
    assert!(!is_member(&m, "@c:x"));
}

#[test]
fn login_answers() {
    let l = login_result(Some("@a:x".to_string()), Some("t".to_string()), None).unwrap();
    assert_eq!(l.user_id, "@a:x");
    assert_eq!(l.device_id, "");
    assert_eq!(login_result(None, Some("t".to_string()), None).unwrap_err(), "no user_id");
    assert_eq!(login_result(Some("@a:x".to_string()), None, None).unwrap_err(), "no access_token");
}

#[test]
fn an_admin_round_trip() {
    let run = AdminRun::start(&session(), "server uptime");
    assert_eq!(run.wire, "!admin server uptime");
    assert!(matches!(run.phase, Phase::Snapshot));
    let run = run.step(AdminEvent::Synced { next_batch: "s1".to_string(), events: Vec::new() });
    assert!(matches!(&run.phase, Phase::Send { since } if since == "s1"));
    let run = run.step(AdminEvent::Sent("$ev".to_string()));
    assert!(matches!(&run.phase, Phase::Poll { cursor } if cursor == "s1"));
    let run = run.step(AdminEvent::Synced { next_batch: "s2".to_string(), events: vec![ev("m.room.message", "@me:x", "!admin server uptime")] });
    assert!(matches!(&run.phase, Phase::Poll { cursor } if cursor == "s2"));
    assert!(!run.is_done());
    let done = run.clone().step(AdminEvent::Synced { next_batch: "s3".to_string(), events: vec![ev("m.room.message", "@bot:x", "up 3 days.")] });
    match &done.phase {
        Phase::Replied(r) => assert_eq!((r.sender.as_str(), r.body.as_str()), ("@bot:x", "up 3 days.")),
        other => panic!("unexpected {other:?}"),
    }
    assert!(done.is_done());
    let late = run.clone().step(AdminEvent::TimedOut);
    match &late.phase {
        Phase::Failed(m) => assert_eq!(
            m,
            "no reply from admin bot in 10s. Verify the admin bot is joined to !admins:x and that `!admin server uptime` is a valid command."
        ),
        other => panic!("unexpected {other:?}"),
    }
    let broken = run.step(AdminEvent::Error("503".to_string()));
    assert!(matches!(&broken.phase, Phase::Failed(m) if m == "long-polling sync: 503"));
    let failed = AdminRun::start(&session(), "x").step(AdminEvent::Error("down".to_string()));
    assert!(matches!(&failed.phase, Phase::Failed(m) if m == "initial sync snapshot: down"));
}

#[test]
fn uptime_and_stats() {
    assert_eq!(clean_uptime("  0 days, 3 hours.  \n"), "0 days, 3 hours");
    let s = stats(Some("up 1 day."), Some("Database:\nRow cache: 1 MiB"), Some("✅ media x\n❌ ldap y"), Vec::new());
    assert_eq!(s.uptime, "up 1 day");
    assert_eq!(s.memory_raw, "Database:\nRow cache: 1 MiB");
    assert_eq!(s.memory_sections.len(), 1);
    assert_eq!(s.features, vec![("media".to_string(), true), ("ldap".to_string(), false)]);
    let s = stats(None, None, None, Vec::new());
    assert_eq!(s.uptime, "");
    assert!(s.memory_sections.is_empty());
    assert!(s.features.is_empty());
}

#[test]
fn rooms_are_counted_page_by_page() {
    assert_eq!(count_room_lines("Rooms:\n!a:x\n  !b:x\tMembers: 2\nnot"), 2);
    let c = RoomCount::start();
    assert_eq!(c.command(), "rooms list 1");
    let c = c.step(Some("!a:x\n!b:x"));
    assert_eq!((c.page, c.total, c.capped, c.done), (2, 2, false, false));
    assert_eq!(c.command(), "rooms list 2");
    let c = c.step(Some("no rooms"));
    assert_eq!((c.total, c.capped, c.done), (2, false, true));
    let mut c = RoomCount::start();
    for _ in 0..20 {
        c = c.step(Some("!a:x"));
    }
    assert_eq!((c.page, c.total, c.capped, c.done), (20, 20, true, true));
    let c = RoomCount::start().step(None);
    assert_eq!((c.total, c.capped, c.done), (0, false, true));
}

#[test]
fn dashboard_figures() {
    let replies = DashboardReplies {
        uptime: Some("3 days.".to_string()),
        memory_usage: Some("Database:\nMemory buffers: 3 MiB\nRow cache: 1 MiB\nAllocator:\nx: 1".to_string()),
        users: Some("Found 7 local user account(s):".to_string()),
        admin_members: Some(2),
        rooms: RoomCount { page: 3, total: 5, capped: false, done: true },
        federated: Some("!a:x\n!b:x".to_string()),
        banned: None,
        published: Some("- !a:x".to_string()),
        appservices: Some("Appservices (1): bridge".to_string()),
        features: Some("✅ a\n❌ b\n✅ c".to_string()),
    };
    let d = dashboard(&replies);
    assert_eq!(d.uptime, "3 days");
    assert_eq!(d.db_mem_buffers, Some("3 MiB".to_string()));
    assert_eq!(d.db_row_cache, Some("1 MiB".to_string()));
    assert_eq!(d.db_table_readers, None);
    assert_eq!(d.user_count, 7);
    assert_eq!(d.admin_count, 2);
    assert_eq!(d.room_count, 5);
    assert_eq!(d.federated_rooms, 2);
    assert_eq!(d.local_rooms, 3);
    assert_eq!(d.banned_rooms, 0);
    assert_eq!(d.published_rooms, 1);
    assert_eq!(d.appservices_count, 1);
    assert_eq!((d.features_enabled, d.features_total), (2, 3));

    let few = DashboardReplies {
        uptime: None,
        memory_usage: None,
        users: None,
        admin_members: None,
        rooms: RoomCount { page: 1, total: 1, capped: false, done: true },
        federated: Some("!a:x\n!b:x".to_string()),
        banned: None,
        published: None,
        appservices: None,
        features: None,
    };
    let d = dashboard(&few);
    assert_eq!(d.local_rooms, 0);
    assert_eq!(d.user_count, 0);
    assert_eq!(d.uptime, "");
}

#[test]
fn user_list_is_sorted_and_annotated() {
    assert_eq!(localpart("@alice:x.org"), "alice");
    assert_eq!(localpart("alice"), "alice");
    assert_eq!(localpart("@nocolon"), "@nocolon");
    let admins = vec!["@bob:x".to_string()];
    let rows = users::list(
        "Found 3 local user account(s):\n```\n@carol:x\n@bob:x\n@alice:x\n```",
        &admins,
        Some("```\n2024-01-01T00:00:00.000 alice\n2024-02-01T00:00:00.000 alice\n```"),
    );
    let ids: Vec<&str> = rows.iter().map(|r| r.mxid.as_str()).collect();
    assert_eq!(ids, vec!["@alice:x", "@bob:x", "@carol:x"]);
    assert_eq!(rows[0].localpart, "alice");
    assert_eq!(rows[0].last_active, Some("2024-02-01T00:00:00.000".to_string()));
    assert!(rows[1].is_admin);
    assert!(!rows[0].is_admin);
    assert_eq!(rows[2].last_active, None);
    assert!(users::list("nothing", &admins, None).is_empty());

    let d = users::detail(rows, "@bob:x", "Rooms @bob:x Joined (1):\n!r:x\tMembers: 2\tName: Lobby", None, Vec::new());
    assert!(d.row.is_admin);
    assert_eq!(d.joined_rooms.unwrap()[0].name, "Lobby");
    assert!(d.devices.is_empty());
    let d = users::detail(Vec::new(), "@zed:x", "garbage", None, Vec::new());
    assert_eq!(d.row.localpart, "zed");
    assert!(d.joined_rooms.is_none());
    assert!(d.joined_rooms_html().contains("garbage"));
}

#[test]
fn room_list_and_detail() {
    let opts = ListOpts { page: Some(3), exclude_banned: true, exclude_disabled: false };
    assert_eq!(opts.command(), "rooms list --exclude-banned 3");
    assert_eq!(ListOpts::new().command(), "rooms list 1");
    let rows = rooms::list(
        "!a:x\tMembers: 3\tName: A\n!b:x\tMembers: 1\tName: B",
        Some("!b:x"),
        Some("!a:x\n!b:x"),
        Some("- !a:x"),
    );
    assert_eq!(rows.len(), 2);
    assert!(!rows[0].banned && rows[0].federated && rows[0].published);
    assert!(rows[1].banned && rows[1].federated && !rows[1].published);
    let d = rooms::detail(rows, "!b:x", "@u:x\n@v:x", Some("- #b:x"), Some("```\nTopic\n```"), Vec::new());
    assert_eq!(d.row.name, "B");
    assert_eq!(d.members, Some(vec!["@u:x".to_string(), "@v:x".to_string()]));
    assert_eq!(d.aliases, vec!["#b:x".to_string()]);
    assert_eq!(d.topic, Some("Topic".to_string()));
    let d = rooms::detail(Vec::<RoomRow>::new(), "!z:x", "none", None, None, Vec::new());
    assert_eq!(d.row.room_id, "!z:x");
    assert_eq!(d.row.members, 0);
    assert!(d.members.is_none());
    assert!(d.topic.is_none());
}

#[test]
fn appservice_pages() {
    let rows = appservices::list("Appservices (2): one, two");
    assert_eq!(rows.iter().map(|r| r.id.as_str()).collect::<Vec<_>>(), vec!["one", "two"]);
    let fields = appservices::extract_fields("id: one\nurl: \"http://b\"\n  nested: x\n- item: y\nsender_localpart: 'bot'\nempty:\n");
    assert_eq!(
        fields,
        vec![
            ("id".to_string(), "one".to_string()),
            ("url".to_string(), "http://b".to_string()),
            ("sender_localpart".to_string(), "bot".to_string()),
        ]
    );
    assert_eq!(appservices::find_field(&fields, "url"), "http://b");
    assert_eq!(appservices::find_field(&fields, "missing"), "");
    let d = appservices::detail(rows, "two", "Config for two:\n```yaml\nurl: http://two\nsender_localpart: twobot\n```", Vec::new());
    assert_eq!(d.row.id, "two");
    assert_eq!(d.row.url, "http://two");
    assert_eq!(d.row.sender_localpart, "twobot");
    assert_eq!(d.config_yaml, "url: http://two\nsender_localpart: twobot");
    let d = appservices::detail(Vec::<AppserviceRow>::new(), "ghost", "no fence", Vec::new());
    assert_eq!(d.row.id, "ghost");
    assert_eq!(d.config_yaml, "");
    assert!(d.fields.is_empty());
}

#[test]
fn federation_media_tokens() {
    let o = overview("!a:x\n!b:x", Vec::new());
    assert_eq!(o.incoming, vec!["!a:x".to_string(), "!b:x".to_string()]);
    assert!(overview("none", Vec::new()).incoming.is_empty());
    assert_eq!(file_info_command("mxc://a/b"), "media get-file-info mxc://a/b");
    let f = file_info("mxc://a/b", "Size: 3");
    assert_eq!(f.fields, vec![("Size".to_string(), "3".to_string())]);
    assert!(file_info("mxc://a/b", "nothing").fields.is_empty());
    let t = tokens::list("- `abc` --- Token used 1 times.");
    assert_eq!(t[0].token, "abc");
    assert!(tokens::list("none").is_empty());
}

#[test]
fn command_catalog() {
    assert_eq!(modules().len(), 8);
    assert!(!all().is_empty());
    let c = find("users", "create").unwrap();
    assert_eq!(c.template, "users create-user {username} {password}");
    assert!(find("users", "nope").is_none());
    assert!(by_module("users").iter().all(|c| c.module == "users"));
    assert!(by_module("nope").is_empty());
    assert_eq!(module_title("appservice"), "App services");
    assert_eq!(module_title("other"), "other");
    assert_eq!(FieldKind::Textarea.as_str(), "textarea");
    assert!(template_renderable(c.template));
    assert!(!template_renderable("x [--flag } {name]"));
    let values = vec![("username".to_string(), "alice".to_string()), ("password".to_string(), " pw ".to_string())];
    assert_eq!(render_template(&c, &values), "users create-user alice pw");
    let la = find("users", "last-active").unwrap();
    assert_eq!(render_template(&la, &Vec::new()), "users last-active");
    let lim = vec![("limit".to_string(), "5".to_string())];
    assert_eq!(render_template(&la, &lim), "users last-active --limit 5");
}

#[test]
fn fenced_template_keeps_its_payload() {
    let reg = find("appservice", "register").unwrap();
    let yaml = vec![("yaml".to_string(), "id: x".to_string())];
    assert_eq!(render_template(&reg, &yaml), "appservices register\n```\nid: x\n```");
    let two = vec![("yaml".to_string(), "id: x\nurl:  http://b".to_string())];
    assert_eq!(render_template(&reg, &two), "appservices register\n```\nid: x\nurl:  http://b\n```");
}

#[test]
fn checkbox_groups_follow_truthy_values() {
    let restart = find("server", "restart").unwrap();
    for v in ["on", "true", "1", "yes"] {
        let vals = vec![("force".to_string(), v.to_string())];
        assert_eq!(render_template(&restart, &vals), "server restart --force");
    }
    for v in ["off", "", "no", "TRUE"] {
        let vals = vec![("force".to_string(), v.to_string())];
        assert_eq!(render_template(&restart, &vals), "server restart");
    }
    assert_eq!(render_template(&restart, &Vec::new()), "server restart");
}

#[test]
fn catalog_by_module() {
    assert_eq!(by_module("tokens").len(), 3);
    let all_cmds = all();
    let users: Vec<_> = all_cmds.iter().filter(|c| c.module == "users").map(|c| c.action).collect();
    let by: Vec<_> = by_module("users").iter().map(|c| c.action).collect();
    assert_eq!(by, users);
    assert!(all_cmds.iter().all(|c| template_renderable(c.template)));
}

#[test]
fn page_commands_in_order() {
    let opts = ListOpts { page: Some(3), exclude_banned: true, exclude_disabled: false };
    assert_eq!(
        rooms::list_commands(&opts),
        vec![
            "rooms list --exclude-banned 3".to_string(),
            "rooms moderation list-banned-rooms".to_string(),
            "federation incoming-federation".to_string(),
            "rooms directory list 1".to_string(),
        ]
    );
    assert_eq!(rooms::list_commands(&ListOpts::new())[0], "rooms list 1");
    assert_eq!(
        server::stats_commands(),
        vec!["server uptime".to_string(), "server memory-usage".to_string(), "server list-features".to_string()]
    );
}

#[test]
fn detail_commands() {
    assert_eq!(users::joined_rooms_command("@a:x"), "users list-joined-rooms @a:x");
    assert_eq!(users::devices_command("@a:x"), "query users list-devices-metadata @a:x");
    assert_eq!(rooms::members_command("!r:x"), "rooms info list-joined-members !r:x");
    assert_eq!(rooms::aliases_command("!r:x"), "rooms alias list !r:x");
    assert_eq!(rooms::topic_command("!r:x"), "rooms info view-room-topic !r:x");
    assert_eq!(appservices::show_config_command("bridge"), "appservices show-config bridge");
}

#[test]
fn decimal_numbers() {
    assert_eq!(decimal_string(0), "0");
    assert_eq!(decimal_string(1907), "1907");
}

#[test]
fn room_count_caps_after_full_pages() {
    let mut c = RoomCount::start();
    while !c.done {
        c = c.step(Some("!a:x\tMembers: 1"));
    }
    assert!(c.capped);
    assert_eq!(c.page, 20);
    assert_eq!(c.total, 20);
}

#[test]
fn room_list_runs_page_first() {
    let opts = ListOpts::new();
    let mut replies: Vec<Option<String>> = Vec::new();
    match rooms::list_next(&opts, &replies) {
        rooms::ListNext::Run(c) => assert_eq!(c, "rooms list 1"),
        _ => panic!("the page command comes first"),
    }
    replies.push(None);
    assert!(matches!(rooms::list_next(&opts, &replies), rooms::ListNext::Failed));
    let mut replies = vec![Some("!a:x\tMembers: 2\tName: A".to_string())];
    let expected = ["rooms moderation list-banned-rooms", "federation incoming-federation", "rooms directory list 1"];
    for cmd in expected {
        match rooms::list_next(&opts, &replies) {
            rooms::ListNext::Run(c) => assert_eq!(c, cmd),
            _ => panic!("a list command comes next"),
        }
        replies.push(None);
    }
    match rooms::list_next(&opts, &replies) {
        rooms::ListNext::Rows(rows) => {
            assert_eq!(rows.len(), 1);
            assert_eq!(rows[0].room_id, "!a:x");
        }
        _ => panic!("rows come last"),
    }
}

#[test]
fn dashboard_command_names() {
    let c = server::dashboard_commands();
    assert_eq!(c.uptime, "server uptime");
    assert_eq!(c.memory_usage, "server memory-usage");
    assert_eq!(c.users, "users list-users");
    assert_eq!(c.federated, "federation incoming-federation");
    assert_eq!(c.banned, "rooms moderation list-banned-rooms");
    assert_eq!(c.published, "rooms directory list 1");
    assert_eq!(c.appservices, "appservices list");
    assert_eq!(c.features, "server list-features");
}
