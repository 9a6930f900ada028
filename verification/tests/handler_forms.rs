use tuwunel_admin::handlers::appservices::RegisterAppserviceForm;
use tuwunel_admin::handlers::federation::{ServerForm, UserForm};
use tuwunel_admin::handlers::media::{
    DeleteByEventForm, DeleteFromServerForm, DeleteFromUserForm, DeleteListForm, DeleteMxcForm,
    DeleteRangeForm, FetchRemoteForm, LookupQuery,
};
use tuwunel_admin::handlers::rooms::{
    AliasForm, AliasLookupQuery, AliasRemoveForm, BanListForm, DeleteRoomForm,
    ForceJoinUsersForm, ListQuery, PruneForm,
};
use tuwunel_admin::handlers::server::{
    AdminNoticeForm, RawCmdForm, ReloadConfigForm, RestartForm, ServerArgForm,
};
use tuwunel_admin::handlers::tokens::IssueTokenForm;
use tuwunel_admin::handlers::users::{
    CreateUserForm, DeactivateAllForm, DeactivateForm, EventIdForm, PasswordForm, RoomForm,
    RoomIdForm, TagForm,
};
use tuwunel_admin::handlers::{
    appservices, checkbox, cmd_flag, command_result, configured_homeservers, federation,
    flash_for, install_log, join_lines, redirect_to_login, login_start, login_step, login_view,
    media, pick_homeserver, required_line, rooms, safe_next, server, split_lines, tokens, users,
    validate_line, with_fenced_payload, HomeserverError, LoginEvent, LoginForm, LoginStep,
};
use tuwunel_admin::matrix::{BotReply, LogEntry, LoginResult};
use tuwunel_admin::parse::fenced;

fn o(v: &str) -> Option<String> {
    Some(v.to_string())
}

fn login_form(homeserver: &str, username: &str) -> LoginForm {
    LoginForm { username: username.to_string(), password: "pw".to_string(), homeserver: homeserver.to_string() }
}

fn log(cmd: &str, is_error: bool) -> LogEntry {
    LogEntry { cmd: cmd.to_string(), body: String::new(), is_error }
}

#[test]
fn next_targets_stay_on_site() {
    assert_eq!(safe_next(Some("/users?x=1")), "/users?x=1");
    assert_eq!(safe_next(Some("//evil.example")), "/");
    assert_eq!(safe_next(Some("/\\evil.example")), "/");
    assert_eq!(safe_next(Some("https://evil.example")), "/");
    assert_eq!(safe_next(None), "/");
}

#[test]
fn login_redirect_encodes_the_requested_path() {
    assert_eq!(redirect_to_login(Some("/")), "/login");
    assert_eq!(redirect_to_login(Some("/login")), "/login");
    assert_eq!(redirect_to_login(None), "/login");
    assert_eq!(redirect_to_login(Some("/users/@a:x?p=1")), "/login?next=%2Fusers%2F%40a%3Ax%3Fp%3D1");
    assert_eq!(redirect_to_login(Some("/m/é")), "/login?next=%2Fm%2F%C3%A9");
}

#[test]
fn checkboxes_are_on_only_when_on() {
    assert!(checkbox(Some("on")));
    assert!(!checkbox(Some("off")));
    assert!(!checkbox(Some("")));
    assert!(!checkbox(None));
}

#[test]
fn multi_line_fields_drop_blank_lines_and_trim() {
    assert_eq!(split_lines("  @a:x \n\n\t@b:x\r\n   \n"), vec!["@a:x", "@b:x"]);
    assert!(split_lines(" \n ").is_empty());
    assert_eq!(join_lines(&vec!["a", "b", "c"]), "a\nb\nc");
}

#[test]
fn fenced_payload_round_trips() {
    let cmd = with_fenced_payload("rooms moderation ban-list-of-rooms", "!a:x\n!b:x");
    assert_eq!(cmd, "rooms moderation ban-list-of-rooms\n```\n!a:x\n!b:x\n```");
    assert_eq!(fenced(&cmd), Some("!a:x\n!b:x\n"));
}

#[test]
fn flags_are_added_only_when_filled_in() {
    let mut cmd = String::from("token issue");
    cmd_flag(&mut cmd, "max-uses", Some(&" 5 ".to_string()));
    cmd_flag(&mut cmd, "max-age", Some(&"   ".to_string()));
    cmd_flag(&mut cmd, "other", None);
    assert_eq!(cmd, "token issue --max-uses 5");
}

#[test]
fn single_line_values() {
    assert!(validate_line("abc def"));
    assert!(!validate_line("a\nb"));
    assert!(!validate_line("a\rb"));
    let err = required_line("  ", "missing", "multi", "/x").unwrap_err();
    assert_eq!(err.msg, "missing");
    assert_eq!(err.to, "/x");
    let err = required_line(" a\nb ", "missing", "multi", "/x").unwrap_err();
    assert_eq!(err.msg, "multi");
    assert_eq!(required_line(" ok ", "missing", "multi", "/x").unwrap(), "ok");
}

#[test]
fn homeservers_are_normalized() {
    let hs = vec![" https://a.example/ ".to_string(), "  ".to_string(), "http://b//".to_string()];
    assert_eq!(configured_homeservers(&hs), vec!["https://a.example", "http://b"]);
}

#[test]
fn picking_a_homeserver() {
    let hs = vec!["https://a.example/".to_string()];
    assert_eq!(pick_homeserver(&hs, false, &login_form(" https://a.example// ", "a")), Ok("https://a.example".to_string()));
    assert_eq!(pick_homeserver(&Vec::new(), false, &login_form("https://a.example", "a")), Err(HomeserverError::NoneConfigured));
    assert_eq!(pick_homeserver(&hs, false, &login_form("  / ", "a")), Err(HomeserverError::Missing));
    assert_eq!(pick_homeserver(&hs, false, &login_form("ftp://a.example", "a")), Err(HomeserverError::BadScheme));
    assert_eq!(pick_homeserver(&hs, false, &login_form("https://b.example", "a")), Err(HomeserverError::NotAllowed));
    assert_eq!(pick_homeserver(&Vec::new(), true, &login_form("http://c.example/", "a")), Ok("http://c.example".to_string()));
    assert_eq!(HomeserverError::NotAllowed.message(), "homeserver is not in the allowed list");
    assert_eq!(HomeserverError::BadScheme.message(), "homeserver URL must start with http:// or https://");
}

#[test]
fn login_page_reports_missing_configuration() {
    let v = login_view(&Vec::new(), false, Some("bad password"), "/rooms");
    assert_eq!(
        v.config_error,
        Some("No homeservers are configured. Set [matrix].homeservers or allow_any_server = true.".to_string())
    );
    assert_eq!(v.error, Some("bad password".to_string()));
    assert_eq!(v.next, "/rooms");
    let v = login_view(&vec!["https://a/".to_string()], false, None, "/");
    assert_eq!(v.config_error, None);
    assert_eq!(v.homeservers, vec!["https://a"]);
}

#[test]
fn a_login_runs_to_an_admin_session() {
    let hs = vec!["https://hs.example".to_string()];
    let step = login_start(&hs, false, &login_form("https://hs.example/", " alice "));
    match &step {
        LoginStep::Login { homeserver, user } => {
            assert_eq!(homeserver, "https://hs.example");
            assert_eq!(user, "alice");
        }
        other => panic!("unexpected {other:?}"),
    }
    let step = login_step(
        step,
        LoginEvent::LoggedIn(LoginResult {
            user_id: "@alice:hs.example".to_string(),
            access_token: "tok".to_string(),
            device_id: "D".to_string(),
        }),
        "",
    );
    match &step {
        LoginStep::ResolveAlias { alias, .. } => assert_eq!(alias, "#admins:hs.example"),
        other => panic!("unexpected {other:?}"),
    }
    let step = login_step(step, LoginEvent::Resolved("!admins:hs.example".to_string()), "");
    let done = login_step(
        step.clone(),
        LoginEvent::Members(vec!["@bot:hs.example".to_string(), "@alice:hs.example".to_string()]),
        "",
    );
    match done {
        LoginStep::Done(s) => {
            assert_eq!(s.user_id, "@alice:hs.example");
            assert_eq!(s.access_token, "tok");
            assert_eq!(s.admin_room_id, "!admins:hs.example");
            assert_eq!(s.homeserver, "https://hs.example");
        }
        other => panic!("unexpected {other:?}"),
    }
    let refused = login_step(step, LoginEvent::Members(vec!["@bot:hs.example".to_string()]), "");
    match refused {
        LoginStep::Failed(m) => assert_eq!(
            m,
            "user @alice:hs.example is not a member of the admin room #admins:hs.example (not a server admin)"
        ),
        other => panic!("unexpected {other:?}"),
    }
}

#[test]
fn a_login_fails_early_on_bad_input() {
    match login_start(&Vec::new(), false, &login_form("https://x", "a")) {
        LoginStep::Failed(m) => assert_eq!(m, "no homeservers are configured"),
        other => panic!("unexpected {other:?}"),
    }
    let step = LoginStep::Login { homeserver: "https://x".to_string(), user: "a".to_string() };
    let r = login_step(
        step,
        LoginEvent::LoggedIn(LoginResult {
            user_id: "nocolon".to_string(),
            access_token: "t".to_string(),
            device_id: String::new(),
        }),
        "",
    );
    match r {
        LoginStep::Failed(m) => assert_eq!(m, "invalid mxid: nocolon"),
        other => panic!("unexpected {other:?}"),
    }
    let step = LoginStep::ResolveAlias {
        homeserver: "https://x".to_string(),
        user_id: "@a:x".to_string(),
        access_token: "t".to_string(),
        alias: "#admins:x".to_string(),
    };
    match login_step(step, LoginEvent::Error("404".to_string()), "") {
        LoginStep::Failed(m) => assert_eq!(m, "resolve admin room #admins:x: 404"),
        other => panic!("unexpected {other:?}"),
    }
}

#[test]
fn flashes_follow_the_outcome() {
    let f = flash_for("server clear-caches", "Cleared caches", &Ok("Done.".to_string()));
    assert_eq!(f.kind, "success");
    assert_eq!(f.text, "Cleared caches");
    let l = f.log.unwrap();
    assert_eq!(l.cmd, "server clear-caches");
    assert_eq!(l.body, "Done.");
    assert!(!l.is_error);

    let f = flash_for("rooms x", "ok", &Ok("Error: no such room".to_string()));
    assert_eq!(f.kind, "error");
    assert_eq!(f.text, "Command failed: rooms x");
    assert!(f.log.unwrap().is_error);

    let f = flash_for("rooms x", "ok", &Err("timeout".to_string()));
    assert_eq!(f.kind, "error");
    assert_eq!(f.text, "timeout");
    let l = f.log.unwrap();
    assert_eq!(l.body, "");
    assert!(l.is_error);
}

#[test]
fn page_log_puts_the_flash_entry_first() {
    let p = install_log(Some(log("flash", false)), vec![log("a", false), log("b", true)]);
    assert_eq!(p.entries.iter().map(|e| e.cmd.as_str()).collect::<Vec<_>>(), vec!["flash", "a", "b"]);
    assert!(p.open);
    assert!(p.has_error);
    let p = install_log(None, vec![log("a", false)]);
    assert!(!p.open);
    assert!(!p.has_error);
    assert_eq!(p.entries.len(), 1);
}

#[test]
fn user_forms() {
    let p = users::create(&CreateUserForm { username: " alice ".to_string(), password: o(" s3cret "), generate: None }).unwrap();
    assert_eq!(p.cmd, "users create-user alice s3cret");
    assert!(!p.autogen);
    assert_eq!(p.success, "Created user alice");
    let p = users::create(&CreateUserForm { username: "alice".to_string(), password: o("pw"), generate: o("on") }).unwrap();
    assert_eq!(p.cmd, "users create-user alice");
    assert!(p.autogen);
    let p = users::create(&CreateUserForm { username: "alice".to_string(), password: None, generate: None }).unwrap();
    assert!(p.autogen);
    let e = users::create(&CreateUserForm { username: "  ".to_string(), password: None, generate: None }).unwrap_err();
    assert_eq!(e.msg, "Username is required.");
    assert_eq!(e.to, "/users");

    let f = users::created_flash("alice", &Ok("  Password: abc  ".to_string()));
    assert_eq!(f.kind, "success");
    assert_eq!(f.text, "Created user alice.\n\nPassword: abc");
    assert!(f.log.is_none());
    let f = users::created_flash("alice", &Ok("Error: taken".to_string()));
    assert_eq!(f.text, "Create failed: Error: taken");
    let f = users::created_flash("alice", &Err("down".to_string()));
    assert_eq!((f.kind.as_str(), f.text.as_str()), ("error", "down"));

    let p = users::reset_password("@a:x", &PasswordForm { password: "pw".to_string() }).unwrap();
    assert_eq!(p.cmd, "users reset-password @a:x pw");
    assert_eq!(p.to, "/users/@a:x");
    assert_eq!(users::reset_password("@a:x", &PasswordForm { password: String::new() }).unwrap_err().msg, "Password is required.");

    assert_eq!(users::deactivate("@a:x", &DeactivateForm { no_leave_rooms: o("on") }).cmd, "users deactivate --no-leave-rooms @a:x");
    assert_eq!(users::deactivate("@a:x", &DeactivateForm { no_leave_rooms: None }).cmd, "users deactivate @a:x");

    let p = users::deactivate_all(&DeactivateAllForm { mxids: "@a:x\n\n @b:x ".to_string(), no_leave_rooms: o("on"), force: o("on") }).unwrap();
    assert_eq!(p.cmd, "users deactivate-all --no-leave-rooms --force\n```\n@a:x\n@b:x\n```");
    assert_eq!(p.success, "Deactivated 2 user(s)");
    assert_eq!(users::deactivate_all(&DeactivateAllForm { mxids: " ".to_string(), no_leave_rooms: None, force: None }).unwrap_err().msg, "Select at least one user.");

    assert_eq!(users::make_admin("@a:x").cmd, "users make-user-admin @a:x");
    let p = users::force_join("@a:x", &RoomForm { room: " #room:x ".to_string() }).unwrap();
    assert_eq!(p.cmd, "users force-join-room @a:x #room:x");
    assert_eq!(p.success, "Joined @a:x to #room:x");
    assert_eq!(users::force_join("@a:x", &RoomForm { room: String::new() }).unwrap_err().msg, "Room is required.");
    let p = users::force_leave("@a:x", &RoomIdForm { room_id: "!r:x".to_string() }).unwrap();
    assert_eq!(p.cmd, "users force-leave-room @a:x !r:x");
    assert_eq!(p.success, "Removed @a:x from !r:x");
    assert_eq!(users::force_leave("@a:x", &RoomIdForm { room_id: " ".to_string() }).unwrap_err().msg, "Room ID is required.");
    assert_eq!(users::redact_event("@a:x", &EventIdForm { event_id: " $e ".to_string() }).unwrap().cmd, "users redact-event $e");
    assert_eq!(users::redact_event("@a:x", &EventIdForm { event_id: String::new() }).unwrap_err().msg, "Event ID is required.");
    assert_eq!(users::delete_device("@a:x", "DEV").cmd, "users delete-device @a:x DEV");
    assert_eq!(users::force_promote("@a:x", "!r:x").success, "Promoted @a:x in !r:x");
    assert_eq!(users::force_demote("@a:x", "!r:x").cmd, "users force-demote @a:x !r:x");
    let p = users::room_tag("@a:x", "!r:x", &TagForm { verb: "delete".to_string(), tag: " fav ".to_string() }).unwrap();
    assert_eq!(p.cmd, "users delete-room-tag @a:x !r:x fav");
    assert_eq!(p.success, "Removed tag fav from !r:x");
    let p = users::room_tag("@a:x", "!r:x", &TagForm { verb: "put".to_string(), tag: "fav".to_string() }).unwrap();
    assert_eq!(p.cmd, "users put-room-tag @a:x !r:x fav");
    assert_eq!(p.success, "Tagged !r:x as fav");
    assert_eq!(users::room_tag("@a:x", "!r:x", &TagForm { verb: "put".to_string(), tag: " ".to_string() }).unwrap_err().msg, "Tag is required.");
    assert_eq!(users::get_room_tags("@a:x", "!r:x"), "users get-room-tags @a:x !r:x");
}

#[test]
fn alias_localparts() {
    assert_eq!(rooms::alias_localpart("  #general:example.org "), "general");
    assert_eq!(rooms::alias_localpart("##x"), "x");
    assert_eq!(rooms::alias_localpart("plain"), "plain");
    assert_eq!(rooms::alias_localpart(" #:x"), "");
}

#[test]
fn room_forms() {
    assert_eq!(rooms::find_by_alias(&AliasLookupQuery { alias: "#lobby:x".to_string() }).unwrap(), "rooms alias which lobby");
    assert_eq!(rooms::find_by_alias(&AliasLookupQuery { alias: " # ".to_string() }).unwrap_err().msg, "Alias is required.");
    assert_eq!(
        rooms::alias_lookup_target("lobby", "Alias resolves to !a:x").unwrap(),
        "/rooms/%21a%3Ax"
    );
    let e = rooms::alias_lookup_target("lobby", "No such alias").unwrap_err();
    assert_eq!(e.msg, "Alias #lobby not found on this server.");
    assert_eq!(e.to, "/rooms");
    assert_eq!(rooms::prune_empty(&PruneForm { force: o("on") }).cmd, "rooms prune-empty --force");
    assert_eq!(rooms::prune_empty(&PruneForm { force: None }).cmd, "rooms prune-empty");
    let p = rooms::ban_list(&BanListForm { rooms: "!a:x\n!b:x\n".to_string() }).unwrap();
    assert_eq!(p.cmd, "rooms moderation ban-list-of-rooms\n```\n!a:x\n!b:x\n```");
    assert_eq!(p.success, "Banned 2 room(s)");
    assert_eq!(rooms::ban_list(&BanListForm { rooms: "\n".to_string() }).unwrap_err().msg, "Select at least one room.");
    let p = rooms::ban("!a:x");
    assert_eq!((p.cmd.as_str(), p.success.as_str(), p.to.as_str()), ("rooms moderation ban-room !a:x", "Banned !a:x", "/rooms/!a:x"));
    assert_eq!(rooms::unban("!a:x").cmd, "rooms moderation unban-room !a:x");
    assert_eq!(rooms::federation_enable("!a:x").success, "Enabled federation for !a:x");
    assert_eq!(rooms::federation_disable("!a:x").cmd, "federation disable-room !a:x");
    assert_eq!(rooms::directory_publish("!a:x").success, "Published !a:x to directory");
    assert_eq!(rooms::directory_unpublish("!a:x").cmd, "rooms directory unpublish !a:x");
    let p = rooms::alias_add("!a:x", &AliasForm { localpart: "#lobby:x".to_string(), force: o("on") }).unwrap();
    assert_eq!(p.cmd, "rooms alias set --force !a:x lobby");
    assert_eq!(p.success, "Added alias #lobby");
    assert_eq!(rooms::alias_add("!a:x", &AliasForm { localpart: "lobby".to_string(), force: None }).unwrap().cmd, "rooms alias set !a:x lobby");
    assert_eq!(rooms::alias_add("!a:x", &AliasForm { localpart: "#".to_string(), force: None }).unwrap_err().msg, "Alias localpart is required.");
    assert_eq!(rooms::alias_add("!a:x", &AliasForm { localpart: "a\nb".to_string(), force: None }).unwrap_err().msg, "Alias cannot contain line breaks.");
    assert_eq!(rooms::alias_remove("!a:x", &AliasRemoveForm { localpart: "#lobby".to_string() }).unwrap().cmd, "rooms alias remove lobby");
    let e = rooms::force_join_users("!a:x", &ForceJoinUsersForm { mxids: o("@u:x"), all: None, confirm: None }).unwrap_err();
    assert_eq!(e.msg, "You must explicitly confirm this destructive action.");
    assert_eq!(e.to, "/rooms/!a:x");
    let p = rooms::force_join_users("!a:x", &ForceJoinUsersForm { mxids: None, all: o("on"), confirm: o("on") }).unwrap();
    assert_eq!(p.cmd, "users force-join-all-local-users --yes-i-want-to-do-this !a:x");
    let p = rooms::force_join_users("!a:x", &ForceJoinUsersForm { mxids: o("@u:x\n@v:x"), all: None, confirm: o("on") }).unwrap();
    assert_eq!(p.cmd, "users force-join-list-of-local-users --yes-i-want-to-do-this !a:x\n```\n@u:x\n@v:x\n```");
    assert_eq!(p.success, "Force-joined users to !a:x");
    let e = rooms::force_join_users("!a:x", &ForceJoinUsersForm { mxids: None, all: None, confirm: o("on") }).unwrap_err();
    assert_eq!(e.msg, "Provide a list of users.");
    assert_eq!(rooms::delete("!a:x", &DeleteRoomForm { force: o("on") }).cmd, "rooms delete !a:x --force");
    assert_eq!(rooms::delete("!a:x", &DeleteRoomForm { force: None }).to, "/rooms");
}

#[test]
fn room_list_query() {
    let opts = rooms::list_opts(&ListQuery { page: Some(2), exclude_banned: o("on"), exclude_disabled: None });
    assert_eq!(opts.page, Some(2));
    assert!(opts.exclude_banned);
    assert!(!opts.exclude_disabled);
}

#[test]
fn media_forms() {
    assert_eq!(media::lookup_mxc(&LookupQuery { mxc: o(" mxc://a/b ") }), Some("mxc://a/b"));
    assert_eq!(media::lookup_mxc(&LookupQuery { mxc: o("  ") }), None);
    assert_eq!(media::lookup_mxc(&LookupQuery { mxc: None }), None);
    let p = media::delete(&DeleteMxcForm { mxc: " mxc://a/b ".to_string() }).unwrap();
    assert_eq!((p.cmd.as_str(), p.success.as_str(), p.to.as_str()), ("media delete --mxc mxc://a/b", "Deleted mxc://a/b", "/media"));
    assert_eq!(media::delete(&DeleteMxcForm { mxc: String::new() }).unwrap_err().msg, "MXC URL is required.");
    assert_eq!(media::delete(&DeleteMxcForm { mxc: "mxc://a\nb".to_string() }).unwrap_err().msg, "MXC URL cannot contain line breaks.");
    assert_eq!(media::delete_by_event(&DeleteByEventForm { event_id: "$e".to_string() }).unwrap().cmd, "media delete-by-event --event-id $e");
    assert_eq!(media::delete_by_event(&DeleteByEventForm { event_id: "a\rb".to_string() }).unwrap_err().msg, "Event ID cannot contain line breaks.");
    let p = media::delete_list(&DeleteListForm { mxcs: "mxc://a/1\nmxc://a/2\nmxc://a/3".to_string() }).unwrap();
    assert_eq!(p.success, "Deleted 3 media file(s)");
    assert_eq!(media::delete_list(&DeleteListForm { mxcs: String::new() }).unwrap_err().msg, "Provide a list of MXC URLs.");
    let p = media::delete_range(&DeleteRangeForm { duration: " 30d ".to_string(), direction: "newer".to_string(), include_local: o("on") }).unwrap();
    assert_eq!(p.cmd, "media delete-range --newer-than --yes-i-want-to-delete-local-media 30d");
    assert_eq!(p.success, "Deleted media newer than 30d");
    let p = media::delete_range(&DeleteRangeForm { duration: "30d".to_string(), direction: "older".to_string(), include_local: None }).unwrap();
    assert_eq!(p.cmd, "media delete-range --older-than 30d");
    assert_eq!(p.success, "Deleted media older than 30d");
    assert_eq!(media::delete_range(&DeleteRangeForm { duration: " ".to_string(), direction: "older".to_string(), include_local: None }).unwrap_err().msg, "Duration is required.");
    assert_eq!(media::delete_from_user(&DeleteFromUserForm { user: "@a:x".to_string() }).unwrap().success, "Deleted all media from @a:x");
    assert_eq!(media::delete_from_user(&DeleteFromUserForm { user: String::new() }).unwrap_err().msg, "User ID is required.");
    let p = media::delete_from_server(&DeleteFromServerForm { server: "x.org".to_string(), include_local: o("on") }).unwrap();
    assert_eq!(p.cmd, "media delete-all-from-server --yes-i-want-to-delete-local-media x.org");
    assert_eq!(media::delete_from_server(&DeleteFromServerForm { server: "x.org".to_string(), include_local: None }).unwrap().cmd, "media delete-all-from-server x.org");
    assert_eq!(media::delete_from_server(&DeleteFromServerForm { server: " ".to_string(), include_local: None }).unwrap_err().msg, "Server name is required.");
    let p = media::fetch_remote(&FetchRemoteForm {
        mxc: " mxc://r/x ".to_string(),
        server: o("remote.org"),
        timeout: o(" "),
        thumbnail: o("on"),
        width: o("64"),
        height: None,
    })
    .unwrap();
    assert_eq!(p.cmd, "media get-remote-thumbnail --server remote.org --width 64 mxc://r/x");
    assert_eq!(p.to, "/media?mxc=mxc%3A%2F%2Fr%2Fx");
    assert_eq!(p.success, "Fetched mxc://r/x");
    let p = media::fetch_remote(&FetchRemoteForm {
        mxc: "mxc://r/x".to_string(),
        server: None,
        timeout: None,
        thumbnail: None,
        width: o("64"),
        height: None,
    })
    .unwrap();
    assert_eq!(p.cmd, "media get-remote-file mxc://r/x");
}

#[test]
fn token_server_appservice_forms() {
    let uses = "3".to_string();
    let p = tokens::issue(&IssueTokenForm { max_uses: Some(uses), max_age: None, once: o("on") });
    assert_eq!(p.cmd, "token issue --max-uses 3 --once");
    assert_eq!(p.to, "/tokens");
    assert_eq!(tokens::issue(&IssueTokenForm::default()).cmd, "token issue");
    assert_eq!(tokens::revoke(" abc ").unwrap().cmd, "token revoke abc");
    assert_eq!(tokens::revoke("").unwrap_err().msg, "Token is required.");

    assert_eq!(server::raw_command(&RawCmdForm { cmd: "  users list-users ".to_string() }).unwrap().cmd, "users list-users");
    assert_eq!(server::raw_command(&RawCmdForm { cmd: " ".to_string() }).unwrap_err().msg, "Command is required.");
    assert_eq!(server::federation_ping(&ServerArgForm { server: "x.org".to_string() }).unwrap().cmd, "debug ping x.org");
    assert_eq!(server::federation_resolve(&ServerArgForm { server: "x.org".to_string() }).unwrap().success, "Resolved x.org");
    assert_eq!(server::federation_ping(&ServerArgForm { server: String::new() }).unwrap_err().msg, "Server name is required.");
    assert_eq!(server::reload_config(&ReloadConfigForm { path: o(" /etc/t.toml ") }).cmd, "server reload-config /etc/t.toml");
    assert_eq!(server::reload_config(&ReloadConfigForm { path: o(" ") }).cmd, "server reload-config");
    assert_eq!(server::reload_config(&ReloadConfigForm::default()).cmd, "server reload-config");
    assert_eq!(server::clear_caches().success, "Cleared caches");
    assert_eq!(server::backup().cmd, "server backup-database");
    assert_eq!(server::admin_notice(&AdminNoticeForm { message: " hi ".to_string() }).unwrap().cmd, "server admin-notice hi");
    assert_eq!(server::admin_notice(&AdminNoticeForm { message: String::new() }).unwrap_err().msg, "Message is required.");
    assert_eq!(server::reload_mods().cmd, "server reload-mods");
    assert_eq!(server::restart(&RestartForm { force: o("on") }).cmd, "server restart --force");
    assert_eq!(server::restart(&RestartForm::default()).cmd, "server restart");
    assert_eq!(server::shutdown().success, "Shutdown requested");

    let p = appservices::register(&RegisterAppserviceForm { yaml: " id: x\n".to_string() }).unwrap();
    assert_eq!(p.cmd, "appservices register\n```\nid: x\n```");
    assert_eq!(appservices::register(&RegisterAppserviceForm { yaml: " ".to_string() }).unwrap_err().msg, "Registration YAML is required.");
    assert_eq!(appservices::unregister("bridge").cmd, "appservices unregister bridge");
}

#[test]
fn federation_tools() {
    assert_eq!(federation::fetch_well_known(&ServerForm { server: " x.org ".to_string() }).unwrap(), "federation fetch-support-well-known x.org");
    assert_eq!(federation::fetch_well_known(&ServerForm { server: String::new() }).unwrap_err().to, "/federation");
    assert_eq!(federation::remote_user_in_rooms(&UserForm { user_id: "@u:x".to_string() }).unwrap(), "federation remote-user-in-rooms @u:x");
    let v = federation::well_known_view("x.org", "**bold**");
    assert_eq!(v.title, "Support info for x.org");
    assert_eq!(v.reply_raw, "**bold**");
    assert!(v.reply_html.contains("<strong>bold</strong>"));
    let v = federation::remote_rooms_view(" @u:x ", "```rs\n[\n    \"!a:x\",\n]\n```");
    assert_eq!(v.title, "Rooms shared with @u:x");
    assert_eq!(v.rooms, vec!["!a:x".to_string()]);
}

#[test]
fn command_results() {
    let r = command_result(
        "users list-users",
        &Ok(BotReply { sender: "@bot:x".to_string(), body: "| a | b |\n|---|---|\n| 1 | 2 |".to_string() }),
    );
    assert_eq!(r.ran_cmd, "users list-users");
    assert_eq!(r.reply_sender, Some("@bot:x".to_string()));
    assert!(r.reply_html.unwrap().contains("<table>"));
    assert!(r.error.is_none());
    let r = command_result("x", &Err("boom".to_string()));
    assert_eq!(r.error, Some("boom".to_string()));
    assert!(r.reply_raw.is_none());
}
