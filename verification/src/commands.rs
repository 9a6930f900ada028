//! Catalog of admin commands.
//!
//! Each `Cmd` maps to a tuwunel admin room command string assembled
//! using form fields. To add a command, append a `Cmd` entry to the catalog
//! (both `catalog` and `all`, which must agree).

use vstd::prelude::*;
use vstd::utf8::encode_utf8;

use crate::parse::{entry_get, map_get, pairs};
use crate::text::{
    is_normalized, is_ws, lemma_next_ws, lemma_words_joined_normalized, next_ws, words_from,
    chars_of, concat, eq_exec, find_char_exec, find_exec, join, lemma_find, join_exec, lemma_find_char, rfind,
    rfind_exec, slice_of, str_eq, string_of, trim, trimmed, words, words_exec,
};

verus! {

#[derive(Debug, Clone, Copy)]
pub struct Cmd {
    pub module: &'static str,
    pub action: &'static str,
    pub label: &'static str,
    pub desc: &'static str,
    pub fields: &'static [Field],
    /// Template for the command string. `{name}` is substituted with the field value.
    /// `[--flag {name}]` is included only if `name` (a checkbox) is checked. If the field
    /// is text, `[--flag {name}]` is included only if the value is non-empty.
    pub template: &'static str,
    pub danger: bool,
}

#[derive(Debug, Clone, Copy)]
pub struct Field {
    pub name: &'static str,
    pub label: &'static str,
    pub kind: FieldKind,
    pub placeholder: &'static str,
    pub required: bool,
}

#[derive(Debug, Clone, Copy)]
pub enum FieldKind {
    Text,
    Password,
    Textarea,
    Checkbox,
    Number,
}

impl FieldKind {
    /// The kind's name in the page's form markup.
    pub fn as_str(&self) -> (s: &'static str)
        ensures
            s@ == match *self {
                FieldKind::Text => "text"@,
                FieldKind::Password => "password"@,
                FieldKind::Textarea => "textarea"@,
                FieldKind::Checkbox => "checkbox"@,
                FieldKind::Number => "number"@,
            },
    {
        match self {
            FieldKind::Text => "text",
            FieldKind::Password => "password",
            FieldKind::Textarea => "textarea",
            FieldKind::Checkbox => "checkbox",
            FieldKind::Number => "number",
        }
    }
}

/// The modules of the catalog, as (module, title), in display order.
pub open spec fn module_catalog() -> Seq<(&'static str, &'static str)> {
    seq![
        ("users", "Users"),
        ("rooms", "Rooms"),
        ("federation", "Federation"),
        ("appservice", "App services"),
        ("media", "Media"),
        ("tokens", "Registration tokens"),
        ("server", "Server"),
        ("diagnostics", "Diagnostics"),
    ]
}

/// The modules of the catalog, as (module, title), in display order.
pub fn modules() -> (v: Vec<(&'static str, &'static str)>)
    ensures
        v@ == module_catalog(),
{
    let mut v: Vec<(&'static str, &'static str)> = Vec::new();
    v.push(("users", "Users"));
    v.push(("rooms", "Rooms"));
    v.push(("federation", "Federation"));
    v.push(("appservice", "App services"));
    v.push(("media", "Media"));
    v.push(("tokens", "Registration tokens"));
    v.push(("server", "Server"));
    v.push(("diagnostics", "Diagnostics"));
    assert(v@ =~= module_catalog());
    v
}

/// Every admin command offered, in display order.
pub open spec fn catalog() -> Seq<Cmd> {
    seq![
        Cmd {
            module: "users",
            action: "list-users",
            label: "List all users",
            desc: "List every local user on the server.",
            fields: &[],
            template: "users list-users",
            danger: false,
        },
        Cmd {
            module: "users",
            action: "last-active",
            label: "Last active users",
            desc: "List users ordered by last activity.",
            fields: &[Field { name: "limit", label: "Limit", kind: FieldKind::Number, placeholder: "50", required: false }],
            template: "users last-active [--limit {limit}]",
            danger: false,
        },
        Cmd {
            module: "users",
            action: "create",
            label: "Create user",
            desc: "Create a new local user account.",
            fields: &[Field { name: "username", label: "Username (localpart)", kind: FieldKind::Text, placeholder: "alice", required: true }, Field { name: "password", label: "Password", kind: FieldKind::Password, placeholder: "", required: true }],
            template: "users create-user {username} {password}",
            danger: false,
        },
        Cmd {
            module: "users",
            action: "reset-password",
            label: "Reset password",
            desc: "Force-reset a user's password.",
            fields: &[Field { name: "user_id", label: "User ID", kind: FieldKind::Text, placeholder: "@alice:server", required: true }, Field { name: "password", label: "New password", kind: FieldKind::Password, placeholder: "", required: true }],
            template: "users reset-password {user_id} {password}",
            danger: true,
        },
        Cmd {
            module: "users",
            action: "deactivate",
            label: "Deactivate user",
            desc: "Deactivate a user account.",
            fields: &[Field { name: "user_id", label: "User ID", kind: FieldKind::Text, placeholder: "@alice:server", required: true }, Field { name: "no_leave_rooms", label: "Keep user in rooms (don't leave)", kind: FieldKind::Checkbox, placeholder: "", required: false }],
            template: "users deactivate {user_id} [--no-leave-rooms no_leave_rooms]",
            danger: true,
        },
        Cmd {
            module: "users",
            action: "make-admin",
            label: "Grant server admin",
            desc: "Promote a user to server admin.",
            fields: &[Field { name: "user_id", label: "User ID", kind: FieldKind::Text, placeholder: "@alice:server", required: true }],
            template: "users make-user-admin {user_id}",
            danger: true,
        },
        Cmd {
            module: "users",
            action: "list-joined-rooms",
            label: "List user's joined rooms",
            desc: "Show rooms a user is currently joined to.",
            fields: &[Field { name: "user_id", label: "User ID", kind: FieldKind::Text, placeholder: "@alice:server", required: true }],
            template: "users list-joined-rooms {user_id}",
            danger: false,
        },
        Cmd {
            module: "users",
            action: "force-join",
            label: "Force-join user to room",
            desc: "Make a user join a room.",
            fields: &[Field { name: "user_id", label: "User ID", kind: FieldKind::Text, placeholder: "@alice:server", required: true }, Field { name: "room", label: "Room ID or alias", kind: FieldKind::Text, placeholder: "!abc:server or #room:server", required: true }],
            template: "users force-join-room {user_id} {room}",
            danger: true,
        },
        Cmd {
            module: "users",
            action: "force-leave",
            label: "Force-leave user from room",
            desc: "Make a user leave a room.",
            fields: &[Field { name: "user_id", label: "User ID", kind: FieldKind::Text, placeholder: "@alice:server", required: true }, Field { name: "room_id", label: "Room ID", kind: FieldKind::Text, placeholder: "!abc:server", required: true }],
            template: "users force-leave-room {user_id} {room_id}",
            danger: true,
        },
        Cmd {
            module: "users",
            action: "redact-event",
            label: "Redact event",
            desc: "Force-redact a message event.",
            fields: &[Field { name: "event_id", label: "Event ID", kind: FieldKind::Text, placeholder: "$abc...", required: true }],
            template: "users redact-event {event_id}",
            danger: true,
        },
        Cmd {
            module: "rooms",
            action: "list-rooms",
            label: "List rooms",
            desc: "List all known rooms (paginated by tuwunel).",
            fields: &[Field { name: "page", label: "Page", kind: FieldKind::Number, placeholder: "1", required: false }],
            template: "rooms list {page}",
            danger: false,
        },
        Cmd {
            module: "rooms",
            action: "list-banned",
            label: "List banned rooms",
            desc: "Show rooms that are currently banned.",
            fields: &[],
            template: "rooms moderation list-banned-rooms",
            danger: false,
        },
        Cmd {
            module: "rooms",
            action: "ban-room",
            label: "Ban room",
            desc: "Ban a room server-wide.",
            fields: &[Field { name: "room", label: "Room ID or alias", kind: FieldKind::Text, placeholder: "!abc:server or #room:server", required: true }],
            template: "rooms moderation ban-room {room}",
            danger: true,
        },
        Cmd {
            module: "rooms",
            action: "unban-room",
            label: "Unban room",
            desc: "Lift a server-wide room ban.",
            fields: &[Field { name: "room", label: "Room ID or alias", kind: FieldKind::Text, placeholder: "!abc:server or #room:server", required: true }],
            template: "rooms moderation unban-room {room}",
            danger: false,
        },
        Cmd {
            module: "rooms",
            action: "list-members",
            label: "List members in room",
            desc: "Show members of a room.",
            fields: &[Field { name: "room_id", label: "Room ID", kind: FieldKind::Text, placeholder: "!abc:server", required: true }, Field { name: "local_only", label: "Local users only", kind: FieldKind::Checkbox, placeholder: "", required: false }],
            template: "rooms info list-joined-members {room_id} [--local-only local_only]",
            danger: false,
        },
        Cmd {
            module: "rooms",
            action: "delete",
            label: "Delete room",
            desc: "Delete a room from the server.",
            fields: &[Field { name: "room_id", label: "Room ID", kind: FieldKind::Text, placeholder: "!abc:server", required: true }, Field { name: "force", label: "Force", kind: FieldKind::Checkbox, placeholder: "", required: false }],
            template: "rooms delete {room_id} [--force force]",
            danger: true,
        },
        Cmd {
            module: "federation",
            action: "incoming",
            label: "Incoming federation",
            desc: "List rooms receiving incoming federation PDUs.",
            fields: &[],
            template: "federation incoming-federation",
            danger: false,
        },
        Cmd {
            module: "federation",
            action: "disable-room",
            label: "Disable federation for room",
            desc: "",
            fields: &[Field { name: "room_id", label: "Room ID", kind: FieldKind::Text, placeholder: "!abc:server", required: true }],
            template: "federation disable-room {room_id}",
            danger: true,
        },
        Cmd {
            module: "federation",
            action: "enable-room",
            label: "Enable federation for room",
            desc: "",
            fields: &[Field { name: "room_id", label: "Room ID", kind: FieldKind::Text, placeholder: "!abc:server", required: true }],
            template: "federation enable-room {room_id}",
            danger: false,
        },
        Cmd {
            module: "federation",
            action: "remote-user-rooms",
            label: "Rooms shared with remote user",
            desc: "List rooms this server shares with a remote user.",
            fields: &[Field { name: "user_id", label: "User ID", kind: FieldKind::Text, placeholder: "@bob:other.server", required: true }],
            template: "federation remote-user-in-rooms {user_id}",
            danger: false,
        },
        Cmd {
            module: "appservice",
            action: "list",
            label: "List appservices",
            desc: "List registered application services.",
            fields: &[],
            template: "appservices list",
            danger: false,
        },
        Cmd {
            module: "appservice",
            action: "show",
            label: "Show appservice config",
            desc: "",
            fields: &[Field { name: "id", label: "Appservice ID", kind: FieldKind::Text, placeholder: "", required: true }],
            template: "appservices show-config {id}",
            danger: false,
        },
        Cmd {
            module: "appservice",
            action: "register",
            label: "Register appservice",
            desc: "Register an appservice. Paste the registration YAML in the body.",
            fields: &[Field { name: "yaml", label: "Registration YAML", kind: FieldKind::Textarea, placeholder: "id: example\nurl: http://...\nas_token: ...\nhs_token: ...\nsender_localpart: ...", required: true }],
            template: "appservices register\n```\n{yaml}\n```",
            danger: true,
        },
        Cmd {
            module: "appservice",
            action: "unregister",
            label: "Unregister appservice",
            desc: "",
            fields: &[Field { name: "id", label: "Appservice ID", kind: FieldKind::Text, placeholder: "", required: true }],
            template: "appservices unregister {id}",
            danger: true,
        },
        Cmd {
            module: "media",
            action: "delete",
            label: "Delete media",
            desc: "Delete a single media item by MXC URL or event ID.",
            fields: &[Field { name: "mxc", label: "MXC URL (optional)", kind: FieldKind::Text, placeholder: "mxc://server/abc", required: false }, Field { name: "event_id", label: "Event ID (optional)", kind: FieldKind::Text, placeholder: "$abc...", required: false }],
            template: "media delete [--mxc {mxc}] [--event-id {event_id}]",
            danger: true,
        },
        Cmd {
            module: "media",
            action: "delete-past-remote",
            label: "Delete old remote media",
            desc: "Purge remote media older/newer than a duration (e.g. '30d').",
            fields: &[Field { name: "duration", label: "Duration (e.g. 30d, 6h)", kind: FieldKind::Text, placeholder: "30d", required: true }, Field { name: "after", label: "Delete media NEWER than duration (default is older)", kind: FieldKind::Checkbox, placeholder: "", required: false }],
            template: "media delete-past-remote-media {duration} [--after after]",
            danger: true,
        },
        Cmd {
            module: "media",
            action: "delete-from-user",
            label: "Delete all media from user",
            desc: "",
            fields: &[Field { name: "user", label: "User ID", kind: FieldKind::Text, placeholder: "@alice:server", required: true }],
            template: "media delete-all-from-user {user}",
            danger: true,
        },
        Cmd {
            module: "media",
            action: "file-info",
            label: "Media file info",
            desc: "",
            fields: &[Field { name: "mxc", label: "MXC URL", kind: FieldKind::Text, placeholder: "mxc://server/abc", required: true }],
            template: "media get-file-info {mxc}",
            danger: false,
        },
        Cmd {
            module: "tokens",
            action: "list",
            label: "List registration tokens",
            desc: "",
            fields: &[],
            template: "token list",
            danger: false,
        },
        Cmd {
            module: "tokens",
            action: "issue",
            label: "Issue registration token",
            desc: "",
            fields: &[Field { name: "max_uses", label: "Max uses", kind: FieldKind::Number, placeholder: "1", required: false }, Field { name: "max_age", label: "Max age (e.g. 7d)", kind: FieldKind::Text, placeholder: "7d", required: false }, Field { name: "once", label: "One-time use", kind: FieldKind::Checkbox, placeholder: "", required: false }],
            template: "token issue [--max-uses {max_uses}] [--max-age {max_age}] [--once once]",
            danger: false,
        },
        Cmd {
            module: "tokens",
            action: "revoke",
            label: "Revoke token",
            desc: "",
            fields: &[Field { name: "token", label: "Token", kind: FieldKind::Text, placeholder: "", required: true }],
            template: "token revoke {token}",
            danger: true,
        },
        Cmd {
            module: "server",
            action: "uptime",
            label: "Uptime",
            desc: "",
            fields: &[],
            template: "server uptime",
            danger: false,
        },
        Cmd {
            module: "server",
            action: "show-config",
            label: "Show current config",
            desc: "Boot-time config as loaded. To change values, edit the config/compose file and reload.",
            fields: &[],
            template: "server show-config",
            danger: false,
        },
        Cmd {
            module: "server",
            action: "reload-config",
            label: "Reload config file",
            desc: "Re-read the on-disk config after edits.",
            fields: &[Field { name: "path", label: "Path (optional)", kind: FieldKind::Text, placeholder: "", required: false }],
            template: "server reload-config {path}",
            danger: false,
        },
        Cmd {
            module: "server",
            action: "memory",
            label: "Memory usage",
            desc: "",
            fields: &[],
            template: "server memory-usage",
            danger: false,
        },
        Cmd {
            module: "server",
            action: "clear-caches",
            label: "Clear caches",
            desc: "",
            fields: &[],
            template: "server clear-caches",
            danger: true,
        },
        Cmd {
            module: "server",
            action: "backup",
            label: "Backup database",
            desc: "Trigger an online database backup.",
            fields: &[],
            template: "server backup-database",
            danger: false,
        },
        Cmd {
            module: "server",
            action: "list-backups",
            label: "List backups",
            desc: "",
            fields: &[],
            template: "server list-backups",
            danger: false,
        },
        Cmd {
            module: "server",
            action: "admin-notice",
            label: "Send admin notice",
            desc: "Broadcast a notice to the admin room.",
            fields: &[Field { name: "message", label: "Message", kind: FieldKind::Textarea, placeholder: "", required: true }],
            template: "server admin-notice {message}",
            danger: false,
        },
        Cmd {
            module: "server",
            action: "reload-mods",
            label: "Hot-reload server",
            desc: "",
            fields: &[],
            template: "server reload-mods",
            danger: true,
        },
        Cmd {
            module: "server",
            action: "restart",
            label: "Restart server",
            desc: "",
            fields: &[Field { name: "force", label: "Force", kind: FieldKind::Checkbox, placeholder: "", required: false }],
            template: "server restart [--force force]",
            danger: true,
        },
        Cmd {
            module: "server",
            action: "shutdown",
            label: "Shutdown server",
            desc: "",
            fields: &[],
            template: "server shutdown",
            danger: true,
        },
        Cmd {
            module: "diagnostics",
            action: "ping",
            label: "Ping federation server",
            desc: "",
            fields: &[Field { name: "server", label: "Server name", kind: FieldKind::Text, placeholder: "matrix.org", required: true }],
            template: "debug ping {server}",
            danger: false,
        },
        Cmd {
            module: "diagnostics",
            action: "resolve-destination",
            label: "Resolve federation destination",
            desc: "",
            fields: &[Field { name: "server", label: "Server name", kind: FieldKind::Text, placeholder: "matrix.org", required: true }],
            template: "debug resolve-true-destination {server}",
            danger: false,
        },
        Cmd {
            module: "diagnostics",
            action: "change-log-level",
            label: "Change log level",
            desc: "",
            fields: &[Field { name: "filter", label: "Filter (tracing-subscriber syntax)", kind: FieldKind::Text, placeholder: "info,tuwunel=debug", required: false }, Field { name: "reset", label: "Reset to default", kind: FieldKind::Checkbox, placeholder: "", required: false }],
            template: "debug change-log-level [--filter {filter}] [--reset reset]",
            danger: false,
        },
        Cmd {
            module: "diagnostics",
            action: "db-stats",
            label: "Database stats",
            desc: "",
            fields: &[],
            template: "debug database-stats",
            danger: false,
        },
        Cmd {
            module: "diagnostics",
            action: "runtime-metrics",
            label: "Runtime metrics",
            desc: "",
            fields: &[],
            template: "debug runtime-metrics",
            danger: false,
        },
        Cmd {
            module: "diagnostics",
            action: "memory-stats",
            label: "Memory stats",
            desc: "",
            fields: &[],
            template: "debug memory-stats",
            danger: false,
        },
        Cmd {
            module: "diagnostics",
            action: "trim-memory",
            label: "Trim memory",
            desc: "",
            fields: &[],
            template: "debug trim-memory",
            danger: false,
        },
        Cmd {
            module: "diagnostics",
            action: "raw",
            label: "Raw admin command",
            desc: "Run any admin command. The body is sent as-is to the admin room. Use for debug/query subcommands not exposed above.",
            fields: &[Field { name: "cmd", label: "Command", kind: FieldKind::Textarea, placeholder: "query globals", required: true }],
            template: "{cmd}",
            danger: true,
        },
    ]
}

/// Every admin command offered, in display order.
#[verifier::rlimit(50)]
pub fn all() -> (v: Vec<Cmd>)
    ensures
        v@ == catalog(),
{
    let mut v: Vec<Cmd> = Vec::new();
    v.push(
        Cmd {
                module: "users",
                action: "list-users",
                label: "List all users",
                desc: "List every local user on the server.",
                fields: &[],
                template: "users list-users",
                danger: false,
            },
    );
    v.push(
        Cmd {
                module: "users",
                action: "last-active",
                label: "Last active users",
                desc: "List users ordered by last activity.",
                fields: &[Field { name: "limit", label: "Limit", kind: FieldKind::Number, placeholder: "50", required: false }],
                template: "users last-active [--limit {limit}]",
                danger: false,
            },
    );
    v.push(
        Cmd {
                module: "users",
                action: "create",
                label: "Create user",
                desc: "Create a new local user account.",
                fields: &[Field { name: "username", label: "Username (localpart)", kind: FieldKind::Text, placeholder: "alice", required: true }, Field { name: "password", label: "Password", kind: FieldKind::Password, placeholder: "", required: true }],
                template: "users create-user {username} {password}",
                danger: false,
            },
    );
    v.push(
        Cmd {
                module: "users",
                action: "reset-password",
                label: "Reset password",
                desc: "Force-reset a user's password.",
                fields: &[Field { name: "user_id", label: "User ID", kind: FieldKind::Text, placeholder: "@alice:server", required: true }, Field { name: "password", label: "New password", kind: FieldKind::Password, placeholder: "", required: true }],
                template: "users reset-password {user_id} {password}",
                danger: true,
            },
    );
    v.push(
        Cmd {
                module: "users",
                action: "deactivate",
                label: "Deactivate user",
                desc: "Deactivate a user account.",
                fields: &[Field { name: "user_id", label: "User ID", kind: FieldKind::Text, placeholder: "@alice:server", required: true }, Field { name: "no_leave_rooms", label: "Keep user in rooms (don't leave)", kind: FieldKind::Checkbox, placeholder: "", required: false }],
                template: "users deactivate {user_id} [--no-leave-rooms no_leave_rooms]",
                danger: true,
            },
    );
    v.push(
        Cmd {
                module: "users",
                action: "make-admin",
                label: "Grant server admin",
                desc: "Promote a user to server admin.",
                fields: &[Field { name: "user_id", label: "User ID", kind: FieldKind::Text, placeholder: "@alice:server", required: true }],
                template: "users make-user-admin {user_id}",
                danger: true,
            },
    );
    v.push(
        Cmd {
                module: "users",
                action: "list-joined-rooms",
                label: "List user's joined rooms",
                desc: "Show rooms a user is currently joined to.",
                fields: &[Field { name: "user_id", label: "User ID", kind: FieldKind::Text, placeholder: "@alice:server", required: true }],
                template: "users list-joined-rooms {user_id}",
                danger: false,
            },
    );
    v.push(
        Cmd {
                module: "users",
                action: "force-join",
                label: "Force-join user to room",
                desc: "Make a user join a room.",
                fields: &[Field { name: "user_id", label: "User ID", kind: FieldKind::Text, placeholder: "@alice:server", required: true }, Field { name: "room", label: "Room ID or alias", kind: FieldKind::Text, placeholder: "!abc:server or #room:server", required: true }],
                template: "users force-join-room {user_id} {room}",
                danger: true,
            },
    );
    v.push(
        Cmd {
                module: "users",
                action: "force-leave",
                label: "Force-leave user from room",
                desc: "Make a user leave a room.",
                fields: &[Field { name: "user_id", label: "User ID", kind: FieldKind::Text, placeholder: "@alice:server", required: true }, Field { name: "room_id", label: "Room ID", kind: FieldKind::Text, placeholder: "!abc:server", required: true }],
                template: "users force-leave-room {user_id} {room_id}",
                danger: true,
            },
    );
    v.push(
        Cmd {
                module: "users",
                action: "redact-event",
                label: "Redact event",
                desc: "Force-redact a message event.",
                fields: &[Field { name: "event_id", label: "Event ID", kind: FieldKind::Text, placeholder: "$abc...", required: true }],
                template: "users redact-event {event_id}",
                danger: true,
            },
    );
    v.push(
        Cmd {
                module: "rooms",
                action: "list-rooms",
                label: "List rooms",
                desc: "List all known rooms (paginated by tuwunel).",
                fields: &[Field { name: "page", label: "Page", kind: FieldKind::Number, placeholder: "1", required: false }],
                template: "rooms list {page}",
                danger: false,
            },
    );
    v.push(
        Cmd {
                module: "rooms",
                action: "list-banned",
                label: "List banned rooms",
                desc: "Show rooms that are currently banned.",
                fields: &[],
                template: "rooms moderation list-banned-rooms",
                danger: false,
            },
    );
    v.push(
        Cmd {
                module: "rooms",
                action: "ban-room",
                label: "Ban room",
                desc: "Ban a room server-wide.",
                fields: &[Field { name: "room", label: "Room ID or alias", kind: FieldKind::Text, placeholder: "!abc:server or #room:server", required: true }],
                template: "rooms moderation ban-room {room}",
                danger: true,
            },
    );
    v.push(
        Cmd {
                module: "rooms",
                action: "unban-room",
                label: "Unban room",
                desc: "Lift a server-wide room ban.",
                fields: &[Field { name: "room", label: "Room ID or alias", kind: FieldKind::Text, placeholder: "!abc:server or #room:server", required: true }],
                template: "rooms moderation unban-room {room}",
                danger: false,
            },
    );
    v.push(
        Cmd {
                module: "rooms",
                action: "list-members",
                label: "List members in room",
                desc: "Show members of a room.",
                fields: &[Field { name: "room_id", label: "Room ID", kind: FieldKind::Text, placeholder: "!abc:server", required: true }, Field { name: "local_only", label: "Local users only", kind: FieldKind::Checkbox, placeholder: "", required: false }],
                template: "rooms info list-joined-members {room_id} [--local-only local_only]",
                danger: false,
            },
    );
    v.push(
        Cmd {
                module: "rooms",
                action: "delete",
                label: "Delete room",
                desc: "Delete a room from the server.",
                fields: &[Field { name: "room_id", label: "Room ID", kind: FieldKind::Text, placeholder: "!abc:server", required: true }, Field { name: "force", label: "Force", kind: FieldKind::Checkbox, placeholder: "", required: false }],
                template: "rooms delete {room_id} [--force force]",
                danger: true,
            },
    );
    v.push(
        Cmd {
                module: "federation",
                action: "incoming",
                label: "Incoming federation",
                desc: "List rooms receiving incoming federation PDUs.",
                fields: &[],
                template: "federation incoming-federation",
                danger: false,
            },
    );
    v.push(
        Cmd {
                module: "federation",
                action: "disable-room",
                label: "Disable federation for room",
                desc: "",
                fields: &[Field { name: "room_id", label: "Room ID", kind: FieldKind::Text, placeholder: "!abc:server", required: true }],
                template: "federation disable-room {room_id}",
                danger: true,
            },
    );
    v.push(
        Cmd {
                module: "federation",
                action: "enable-room",
                label: "Enable federation for room",
                desc: "",
                fields: &[Field { name: "room_id", label: "Room ID", kind: FieldKind::Text, placeholder: "!abc:server", required: true }],
                template: "federation enable-room {room_id}",
                danger: false,
            },
    );
    v.push(
        Cmd {
                module: "federation",
                action: "remote-user-rooms",
                label: "Rooms shared with remote user",
                desc: "List rooms this server shares with a remote user.",
                fields: &[Field { name: "user_id", label: "User ID", kind: FieldKind::Text, placeholder: "@bob:other.server", required: true }],
                template: "federation remote-user-in-rooms {user_id}",
                danger: false,
            },
    );
    v.push(
        Cmd {
                module: "appservice",
                action: "list",
                label: "List appservices",
                desc: "List registered application services.",
                fields: &[],
                template: "appservices list",
                danger: false,
            },
    );
    v.push(
        Cmd {
                module: "appservice",
                action: "show",
                label: "Show appservice config",
                desc: "",
                fields: &[Field { name: "id", label: "Appservice ID", kind: FieldKind::Text, placeholder: "", required: true }],
                template: "appservices show-config {id}",
                danger: false,
            },
    );
    v.push(
        Cmd {
                module: "appservice",
                action: "register",
                label: "Register appservice",
                desc: "Register an appservice. Paste the registration YAML in the body.",
                fields: &[Field { name: "yaml", label: "Registration YAML", kind: FieldKind::Textarea, placeholder: "id: example\nurl: http://...\nas_token: ...\nhs_token: ...\nsender_localpart: ...", required: true }],
                template: "appservices register\n```\n{yaml}\n```",
                danger: true,
            },
    );
    v.push(
        Cmd {
                module: "appservice",
                action: "unregister",
                label: "Unregister appservice",
                desc: "",
                fields: &[Field { name: "id", label: "Appservice ID", kind: FieldKind::Text, placeholder: "", required: true }],
                template: "appservices unregister {id}",
                danger: true,
            },
    );
    v.push(
        Cmd {
                module: "media",
                action: "delete",
                label: "Delete media",
                desc: "Delete a single media item by MXC URL or event ID.",
                fields: &[Field { name: "mxc", label: "MXC URL (optional)", kind: FieldKind::Text, placeholder: "mxc://server/abc", required: false }, Field { name: "event_id", label: "Event ID (optional)", kind: FieldKind::Text, placeholder: "$abc...", required: false }],
                template: "media delete [--mxc {mxc}] [--event-id {event_id}]",
                danger: true,
            },
    );
    v.push(
        Cmd {
                module: "media",
                action: "delete-past-remote",
                label: "Delete old remote media",
                desc: "Purge remote media older/newer than a duration (e.g. '30d').",
                fields: &[Field { name: "duration", label: "Duration (e.g. 30d, 6h)", kind: FieldKind::Text, placeholder: "30d", required: true }, Field { name: "after", label: "Delete media NEWER than duration (default is older)", kind: FieldKind::Checkbox, placeholder: "", required: false }],
                template: "media delete-past-remote-media {duration} [--after after]",
                danger: true,
            },
    );
    v.push(
        Cmd {
                module: "media",
                action: "delete-from-user",
                label: "Delete all media from user",
                desc: "",
                fields: &[Field { name: "user", label: "User ID", kind: FieldKind::Text, placeholder: "@alice:server", required: true }],
                template: "media delete-all-from-user {user}",
                danger: true,
            },
    );
    v.push(
        Cmd {
                module: "media",
                action: "file-info",
                label: "Media file info",
                desc: "",
                fields: &[Field { name: "mxc", label: "MXC URL", kind: FieldKind::Text, placeholder: "mxc://server/abc", required: true }],
                template: "media get-file-info {mxc}",
                danger: false,
            },
    );
    v.push(
        Cmd {
                module: "tokens",
                action: "list",
                label: "List registration tokens",
                desc: "",
                fields: &[],
                template: "token list",
                danger: false,
            },
    );
    v.push(
        Cmd {
                module: "tokens",
                action: "issue",
                label: "Issue registration token",
                desc: "",
                fields: &[Field { name: "max_uses", label: "Max uses", kind: FieldKind::Number, placeholder: "1", required: false }, Field { name: "max_age", label: "Max age (e.g. 7d)", kind: FieldKind::Text, placeholder: "7d", required: false }, Field { name: "once", label: "One-time use", kind: FieldKind::Checkbox, placeholder: "", required: false }],
                template: "token issue [--max-uses {max_uses}] [--max-age {max_age}] [--once once]",
                danger: false,
            },
    );
    v.push(
        Cmd {
                module: "tokens",
                action: "revoke",
                label: "Revoke token",
                desc: "",
                fields: &[Field { name: "token", label: "Token", kind: FieldKind::Text, placeholder: "", required: true }],
                template: "token revoke {token}",
                danger: true,
            },
    );
    v.push(
        Cmd {
                module: "server",
                action: "uptime",
                label: "Uptime",
                desc: "",
                fields: &[],
                template: "server uptime",
                danger: false,
            },
    );
    v.push(
        Cmd {
                module: "server",
                action: "show-config",
                label: "Show current config",
                desc: "Boot-time config as loaded. To change values, edit the config/compose file and reload.",
                fields: &[],
                template: "server show-config",
                danger: false,
            },
    );
    v.push(
        Cmd {
                module: "server",
                action: "reload-config",
                label: "Reload config file",
                desc: "Re-read the on-disk config after edits.",
                fields: &[Field { name: "path", label: "Path (optional)", kind: FieldKind::Text, placeholder: "", required: false }],
                template: "server reload-config {path}",
                danger: false,
            },
    );
    v.push(
        Cmd {
                module: "server",
                action: "memory",
                label: "Memory usage",
                desc: "",
                fields: &[],
                template: "server memory-usage",
                danger: false,
            },
    );
    v.push(
        Cmd {
                module: "server",
                action: "clear-caches",
                label: "Clear caches",
                desc: "",
                fields: &[],
                template: "server clear-caches",
                danger: true,
            },
    );
    v.push(
        Cmd {
                module: "server",
                action: "backup",
                label: "Backup database",
                desc: "Trigger an online database backup.",
                fields: &[],
                template: "server backup-database",
                danger: false,
            },
    );
    v.push(
        Cmd {
                module: "server",
                action: "list-backups",
                label: "List backups",
                desc: "",
                fields: &[],
                template: "server list-backups",
                danger: false,
            },
    );
    v.push(
        Cmd {
                module: "server",
                action: "admin-notice",
                label: "Send admin notice",
                desc: "Broadcast a notice to the admin room.",
                fields: &[Field { name: "message", label: "Message", kind: FieldKind::Textarea, placeholder: "", required: true }],
                template: "server admin-notice {message}",
                danger: false,
            },
    );
    v.push(
        Cmd {
                module: "server",
                action: "reload-mods",
                label: "Hot-reload server",
                desc: "",
                fields: &[],
                template: "server reload-mods",
                danger: true,
            },
    );
    v.push(
        Cmd {
                module: "server",
                action: "restart",
                label: "Restart server",
                desc: "",
                fields: &[Field { name: "force", label: "Force", kind: FieldKind::Checkbox, placeholder: "", required: false }],
                template: "server restart [--force force]",
                danger: true,
            },
    );
    v.push(
        Cmd {
                module: "server",
                action: "shutdown",
                label: "Shutdown server",
                desc: "",
                fields: &[],
                template: "server shutdown",
                danger: true,
            },
    );
    v.push(
        Cmd {
                module: "diagnostics",
                action: "ping",
                label: "Ping federation server",
                desc: "",
                fields: &[Field { name: "server", label: "Server name", kind: FieldKind::Text, placeholder: "matrix.org", required: true }],
                template: "debug ping {server}",
                danger: false,
            },
    );
    v.push(
        Cmd {
                module: "diagnostics",
                action: "resolve-destination",
                label: "Resolve federation destination",
                desc: "",
                fields: &[Field { name: "server", label: "Server name", kind: FieldKind::Text, placeholder: "matrix.org", required: true }],
                template: "debug resolve-true-destination {server}",
                danger: false,
            },
    );
    v.push(
        Cmd {
                module: "diagnostics",
                action: "change-log-level",
                label: "Change log level",
                desc: "",
                fields: &[Field { name: "filter", label: "Filter (tracing-subscriber syntax)", kind: FieldKind::Text, placeholder: "info,tuwunel=debug", required: false }, Field { name: "reset", label: "Reset to default", kind: FieldKind::Checkbox, placeholder: "", required: false }],
                template: "debug change-log-level [--filter {filter}] [--reset reset]",
                danger: false,
            },
    );
    v.push(
        Cmd {
                module: "diagnostics",
                action: "db-stats",
                label: "Database stats",
                desc: "",
                fields: &[],
                template: "debug database-stats",
                danger: false,
            },
    );
    v.push(
        Cmd {
                module: "diagnostics",
                action: "runtime-metrics",
                label: "Runtime metrics",
                desc: "",
                fields: &[],
                template: "debug runtime-metrics",
                danger: false,
            },
    );
    v.push(
        Cmd {
                module: "diagnostics",
                action: "memory-stats",
                label: "Memory stats",
                desc: "",
                fields: &[],
                template: "debug memory-stats",
                danger: false,
            },
    );
    v.push(
        Cmd {
                module: "diagnostics",
                action: "trim-memory",
                label: "Trim memory",
                desc: "",
                fields: &[],
                template: "debug trim-memory",
                danger: false,
            },
    );
    v.push(
        Cmd {
                module: "diagnostics",
                action: "raw",
                label: "Raw admin command",
                desc: "Run any admin command. The body is sent as-is to the admin room. Use for debug/query subcommands not exposed above.",
                fields: &[Field { name: "cmd", label: "Command", kind: FieldKind::Textarea, placeholder: "query globals", required: true }],
                template: "{cmd}",
                danger: true,
            },
    );
    assert(v@ =~= catalog());
    v
}

/// The first command at or after `i` with the given module and action.
pub open spec fn first_cmd_from(cs: Seq<Cmd>, module: Seq<char>, action: Seq<char>, i: int) -> Option<
    Cmd,
>
    decreases cs.len() - i,
{
    if i < 0 || i >= cs.len() {
        None
    } else if cs[i].module@ == module && cs[i].action@ == action {
        Some(cs[i])
    } else {
        first_cmd_from(cs, module, action, i + 1)
    }
}

/// Lookup by module + action.
pub fn find(module: &str, action: &str) -> (r: Option<Cmd>)
    ensures
        r == first_cmd_from(catalog(), module@, action@, 0),
        r matches Some(c) ==> template_ok(c.template@, 0),
{
    let cs = all();
    let mut i: usize = 0;
    while i < cs.len()
        invariant
            i <= cs@.len(),
            cs@ == catalog(),
            first_cmd_from(cs@, module@, action@, i as int) == first_cmd_from(
                cs@,
                module@,
                action@,
                0,
            ),
        decreases cs.len() - i,
    {
        let c = cs[i];
        if str_eq(c.module, module) && str_eq(c.action, action) {
            proof {
                lemma_catalog_templates_ok();
                assert(template_ok(catalog()[i as int].template@, 0));
            }
            return Some(c);
        }
        i = i + 1;
    }
    None
}

/// The commands of `cs` that belong to `module`, in order.
pub open spec fn cmds_in(cs: Seq<Cmd>, module: Seq<char>) -> Seq<Cmd> {
    cs.filter(|c: Cmd| c.module@ == module)
}

/// Commands grouped by module, preserving the order in the catalog.
pub fn by_module(module: &str) -> (v: Vec<Cmd>)
    ensures
        v@ == cmds_in(catalog(), module@),
{
    let cs = all();
    let mut v: Vec<Cmd> = Vec::new();
    let mut i: usize = 0;
    while i < cs.len()
        invariant
            i <= cs@.len(),
            cs@ == catalog(),
            v@ == cmds_in(cs@.take(i as int), module@),
        decreases cs.len() - i,
    {
        assert(cs@.take(i + 1).drop_last() =~= cs@.take(i as int));
        proof {
            reveal(Seq::filter);
        }
        let c = cs[i];
        if str_eq(c.module, module) {
            v.push(c);
        }
        i = i + 1;
    }
    assert(cs@.take(cs@.len() as int) =~= cs@);
    v
}

// ---------------------------------------------------------------------------
// Template rendering
// ---------------------------------------------------------------------------

/// The value bound to `name`, or empty.
pub open spec fn value_or_empty(vals: Seq<(Seq<char>, Seq<char>)>, name: Seq<char>) -> Seq<char> {
    match map_get(vals, name) {
        Some(v) => v,
        None => seq![],
    }
}

/// A checkbox-like value that counts as checked.
pub open spec fn is_truthy(v: Seq<char>) -> bool {
    v == "on"@ || v == "true"@ || v == "1"@ || v == "yes"@
}

/// An optional part `--flag {name}` or `--flag name`, rendered.
pub open spec fn optional_part(inner: Seq<char>, vals: Seq<(Seq<char>, Seq<char>)>) -> Option<
    Seq<char>,
> {
    let t = trim(inner);
    match crate::text::find(t, seq!['{']) {
        Some(open) => match crate::text::find(t, seq!['}']) {
            None => None,
            Some(close) => {
                let v = trim(value_or_empty(vals, t.subrange(open + 1, close)));
                if v.len() == 0 {
                    None
                } else {
                    Some(trim(t.subrange(0, open)) + seq![' '] + v)
                }
            },
        },
        None => match rfind(t, seq![' ']) {
            None => None,
            Some(sp) => if is_truthy(value_or_empty(vals, t.subrange(sp + 1, t.len() as int))) {
                Some(t.subrange(0, sp))
            } else {
                None
            },
        },
    }
}

/// An optional part that can be rendered: a `}` may not come before the first `{`.
pub open spec fn optional_part_ok(inner: Seq<char>) -> bool {
    let t = trim(inner);
    match (crate::text::find(t, seq!['{']), crate::text::find(t, seq!['}'])) {
        (Some(open), Some(close)) => open < close,
        _ => true,
    }
}

/// The template character copied as the characters of its UTF-8 bytes.
pub open spec fn byte_chars(c: char) -> Seq<char> {
    let e = encode_utf8(seq![c]);
    Seq::new(e.len(), |k: int| e[k] as char)
}

/// Where the closing `close` of a group opened at `i` stands, when `t[i] == open`.
pub open spec fn group_end(t: Seq<char>, i: int, open: char, close: char) -> Option<int> {
    if 0 <= i < t.len() && t[i] == open {
        match crate::text::find(t.subrange(i + 1, t.len() as int), seq![close]) {
            Some(r) => Some(i + 1 + r),
            None => None,
        }
    } else {
        None
    }
}

pub proof fn lemma_group_end(t: Seq<char>, i: int, open: char, close: char)
    ensures
        group_end(t, i, open, close) matches Some(e) ==> 0 <= i < e < t.len() && t[e] == close,
{
    if 0 <= i < t.len() && t[i] == open {
        let rest = t.subrange(i + 1, t.len() as int);
        lemma_find_char(rest, close);
    }
}

/// The template from position `i` on, before whitespace is normalized:
/// `[...]` groups become their optional part, `{name}` becomes the value of
/// `name`, and any other character is copied byte by byte.
pub open spec fn render_from(t: Seq<char>, i: int, vals: Seq<(Seq<char>, Seq<char>)>) -> Seq<char>
    decreases t.len() - i,
{
    if i < 0 || i >= t.len() {
        seq![]
    } else {
        proof {
            lemma_group_end(t, i, '[', ']');
            lemma_group_end(t, i, '{', '}');
        }
        match group_end(t, i, '[', ']') {
            Some(e) => {
                let part = match optional_part(t.subrange(i + 1, e), vals) {
                    Some(x) => x,
                    None => seq![],
                };
                part + render_from(t, e + 1, vals)
            },
            None => match group_end(t, i, '{', '}') {
                Some(e) => value_or_empty(vals, t.subrange(i + 1, e)) + render_from(t, e + 1, vals),
                None => byte_chars(t[i]) + render_from(t, i + 1, vals),
            },
        }
    }
}

/// Every optional group met while rendering from `i` on can be rendered.
pub open spec fn template_ok(t: Seq<char>, i: int) -> bool
    decreases t.len() - i,
{
    if i < 0 || i >= t.len() {
        true
    } else {
        proof {
            lemma_group_end(t, i, '[', ']');
            lemma_group_end(t, i, '{', '}');
        }
        match group_end(t, i, '[', ']') {
            Some(e) => optional_part_ok(t.subrange(i + 1, e)) && template_ok(t, e + 1),
            None => match group_end(t, i, '{', '}') {
                Some(e) => template_ok(t, e + 1),
                None => template_ok(t, i + 1),
            },
        }
    }
}

/// The command string of a template. The rendered text before its first
/// ``` fence has its words joined by single spaces; from the fence on (a
/// fenced payload such as a registration YAML) the text is kept as it is, on
/// its own line.
pub open spec fn spec_render(t: Seq<char>, vals: Seq<(Seq<char>, Seq<char>)>) -> Seq<char> {
    let r = render_from(t, 0, vals);
    match crate::text::find(r, "```"@) {
        None => join(words(r), seq![' ']),
        Some(o) => join(words(r.subrange(0, o)), seq![' ']) + seq!['\n'] + r.subrange(
            o,
            r.len() as int,
        ),
    }
}

/// The value bound to `name`, or empty.
fn value_of(values: &Vec<(String, String)>, name: &[char]) -> (v: Vec<char>)
    ensures
        v@ == value_or_empty(pairs(values@), name@),
{
    let key = string_of(name);
    match entry_get(values, key.as_str()) {
        Some(s) => chars_of(s.as_str()),
        None => Vec::new(),
    }
}

/// The group end after `i` in exec form.
fn group_end_exec(t: &[char], i: usize, open: char, close: char) -> (r: Option<usize>)
    requires
        i < t@.len(),
    ensures
        match r {
            Some(e) => group_end(t@, i as int, open, close) == Some(e as int),
            None => group_end(t@, i as int, open, close) is None,
        },
{
    if t[i] != open {
        return None;
    }
    let rest = slice_of(t, i + 1, t.len());
    match find_char_exec(&rest, close) {
        Some(r) => {
            proof {
                lemma_find_char(rest@, close);
            }
            assert(r < rest.len());
            Some(i + 1 + r)
        },
        None => None,
    }
}

fn render_optional(inner: &[char], values: &Vec<(String, String)>) -> (r: Option<Vec<char>>)
    requires
        optional_part_ok(inner@),
    ensures
        match r {
            Some(x) => optional_part(inner@, pairs(values@)) == Some(x@),
            None => optional_part(inner@, pairs(values@)) is None,
        },
{
    // Two forms:
    //   "--flag {name}"  => include if values[name] is non-empty; emit `--flag <value>`
    //   "--flag name"    => include if values[name] is truthy (== "on" / "true" / "1" / "yes");
    //                       emit just `--flag`.
    let t = trimmed(inner);
    if let Some(open) = find_char_exec(&t, '{') {
        let close = match find_char_exec(&t, '}') {
            Some(c) => c,
            None => return None,
        };
        proof {
            lemma_find_char(t@, '{');
            lemma_find_char(t@, '}');
        }
        assert(open < close);
        let name = slice_of(&t, open + 1, close);
        let raw = value_of(values, &name);
        let v = trimmed(&raw);
        if v.len() == 0 {
            return None;
        }
        let head = slice_of(&t, 0, open);
        let flag = trimmed(&head);
        let fs = concat(&flag, &[' ']);
        assert([' ']@ =~= seq![' ']);
        return Some(concat(&fs, &v));
    }
    assert(seq![' '] =~= [' ']@);
    let sp = match rfind_exec(&t, &[' ']) {
        Some(sp) => sp,
        None => return None,
    };
    proof {
        crate::text::lemma_rfind(t@, seq![' ']);
    }
    assert(sp < t.len());
    let name = slice_of(&t, sp + 1, t.len());
    let v = value_of(values, &name);
    let on = chars_of("on");
    let tr = chars_of("true");
    let one = chars_of("1");
    let yes = chars_of("yes");
    if eq_exec(&v, &on) || eq_exec(&v, &tr) || eq_exec(&v, &one) || eq_exec(&v, &yes) {
        Some(slice_of(&t, 0, sp))
    } else {
        None
    }
}

/// Appends the characters of the UTF-8 bytes of `c`.
fn push_byte_chars(out: &mut Vec<char>, c: char)
    ensures
        final(out)@ == old(out)@ + byte_chars(c),
{
    let one = string_of(&[c]);
    assert([c]@ =~= seq![c]);
    let bytes = one.as_str().as_bytes();
    let ghost start = out@;
    let mut k: usize = 0;
    while k < bytes.len()
        invariant
            k <= bytes@.len(),
            bytes@ == encode_utf8(seq![c]),
            out@ == start + byte_chars(c).take(k as int),
        decreases bytes.len() - k,
    {
        out.push(bytes[k] as char);
        assert(byte_chars(c).take(k + 1) =~= byte_chars(c).take(k as int).push(
            bytes@[k as int] as char,
        ));
        k = k + 1;
    }
    assert(byte_chars(c).take(bytes@.len() as int) =~= byte_chars(c));
}

/// Render the command string for a `Cmd` given form values.
///
/// Template rules:
/// - `{name}` is replaced with the field's value (empty string if missing).
/// - `[--flag {name}]` is emitted as `--flag <value>` only if the value is non-empty
///   (for text/number fields) or truthy (for checkboxes).
/// - `[--flag name]` (without braces) treats `name` as a boolean; emits `--flag` if checked.
///
/// Form values are `(name, value)` entries; a name is looked up at its first entry.
pub fn render_template(cmd: &Cmd, values: &Vec<(String, String)>) -> (s: String)
    requires
        template_ok(cmd.template@, 0),
    ensures
        s@ == spec_render(cmd.template@, pairs(values@)),
{
    let t = chars_of(cmd.template);
    let ghost vals = pairs(values@);
    let mut out: Vec<char> = Vec::new();
    let mut i: usize = 0;
    while i < t.len()
        invariant
            i <= t@.len(),
            t@ == cmd.template@,
            vals == pairs(values@),
            template_ok(t@, i as int),
            out@ + render_from(t@, i as int, vals) == render_from(t@, 0, vals),
        decreases t.len() - i,
    {
        proof {
            lemma_group_end(t@, i as int, '[', ']');
            lemma_group_end(t@, i as int, '{', '}');
        }
        let ghost before = out@;
        if let Some(end) = group_end_exec(&t, i, '[', ']') {
            let inner = slice_of(&t, i + 1, end);
            if let Some(rendered) = render_optional(&inner, values) {
                out = concat(&out, &rendered);
            }
            assert(out@ + render_from(t@, end + 1, vals) =~= before + render_from(
                t@,
                i as int,
                vals,
            ));
            i = end + 1;
        } else if let Some(end) = group_end_exec(&t, i, '{', '}') {
            let name = slice_of(&t, i + 1, end);
            let v = value_of(values, &name);
            out = concat(&out, &v);
            assert(out@ + render_from(t@, end + 1, vals) =~= before + render_from(
                t@,
                i as int,
                vals,
            ));
            i = end + 1;
        } else {
            push_byte_chars(&mut out, t[i]);
            assert(out@ + render_from(t@, i + 1, vals) =~= before + render_from(
                t@,
                i as int,
                vals,
            ));
            i = i + 1;
        }
    }
    assert(out@ + render_from(t@, i as int, vals) =~= out@);
    assert([' ']@ =~= seq![' ']);
    let fence = chars_of("```");
    match find_exec(&out, &fence) {
        None => {
            let ws = words_exec(&out);
            let joined = join_exec(&ws, &[' ']);
            string_of(&joined)
        },
        Some(o) => {
            proof {
                lemma_find(out@, fence@);
            }
            let head = slice_of(&out, 0, o);
            let ws = words_exec(&head);
            let joined = join_exec(&ws, &[' ']);
            let line = concat(&joined, &['\n']);
            assert(['\n']@ =~= seq!['\n']);
            let tail = slice_of(&out, o, out.len());
            string_of(&concat(&line, &tail))
        },
    }
}

/// The title of the first catalog module named `module`, from `i` on.
pub open spec fn title_from(ms: Seq<(&'static str, &'static str)>, module: Seq<char>, i: int) -> Option<
    Seq<char>,
>
    decreases ms.len() - i,
{
    if i < 0 || i >= ms.len() {
        None
    } else if ms[i].0@ == module {
        Some(ms[i].1@)
    } else {
        title_from(ms, module, i + 1)
    }
}

/// A module page's title: the catalog's title for it, or the module's own name.
pub fn module_title(module: &str) -> (t: String)
    ensures
        t@ == match title_from(module_catalog(), module@, 0) {
            Some(x) => x,
            None => module@,
        },
{
    let ms = modules();
    let mut i: usize = 0;
    while i < ms.len()
        invariant
            i <= ms@.len(),
            ms@ == module_catalog(),
            title_from(ms@, module@, 0) == title_from(ms@, module@, i as int),
        decreases ms.len() - i,
    {
        let (m, title) = ms[i];
        if str_eq(m, module) {
            return String::from_str(title);
        }
        i = i + 1;
    }
    String::from_str(module)
}

/// Whether every optional group of a template can be rendered (a `}` never
/// comes before the first `{` of a group); `render_template` needs it.
pub fn template_renderable(template: &str) -> (b: bool)
    ensures
        b == template_ok(template@, 0),
{
    let t = chars_of(template);
    let mut i: usize = 0;
    while i < t.len()
        invariant
            i <= t@.len(),
            t@ == template@,
            template_ok(t@, 0) == template_ok(t@, i as int),
        decreases t.len() - i,
    {
        proof {
            lemma_group_end(t@, i as int, '[', ']');
            lemma_group_end(t@, i as int, '{', '}');
        }
        if let Some(end) = group_end_exec(&t, i, '[', ']') {
            let inner = slice_of(&t, i + 1, end);
            let tr = trimmed(&inner);
            let open = find_char_exec(&tr, '{');
            let close = find_char_exec(&tr, '}');
            match (open, close) {
                (Some(o), Some(c)) => {
                    if o >= c {
                        return false;
                    }
                },
                _ => {},
            }
            i = end + 1;
        } else if let Some(end) = group_end_exec(&t, i, '{', '}') {
            i = end + 1;
        } else {
            i = i + 1;
        }
    }
    true
}

/// A rendered command has single spaces between its words and no whitespace
/// around it, whatever the form holds; where the rendered text holds a ```
/// fence, that holds of the line before the fence, and the text from the
/// fence on is kept unchanged after a line break.
pub proof fn lemma_rendered_command_normalized(t: Seq<char>, vals: Seq<(Seq<char>, Seq<char>)>)
    ensures
        ({
            let r = render_from(t, 0, vals);
            let s = spec_render(t, vals);
            match crate::text::find(r, "```"@) {
                None => is_normalized(s),
                Some(o) => {
                    let tail = r.subrange(o, r.len() as int);
                    let k = s.len() - tail.len();
                    &&& 1 <= k <= s.len()
                    &&& is_normalized(s.subrange(0, k - 1))
                    &&& s[k - 1] == '\n'
                    &&& s.subrange(k, s.len() as int) == tail
                },
            }
        }),
{
    let r = render_from(t, 0, vals);
    let s = spec_render(t, vals);
    lemma_find(r, "```"@);
    match crate::text::find(r, "```"@) {
        None => {
            lemma_words_joined_normalized(r);
        },
        Some(o) => {
            let head = r.subrange(0, o);
            lemma_words_joined_normalized(head);
            let j = join(words(head), seq![' ']);
            let tail = r.subrange(o, r.len() as int);
            assert(s == j + seq!['\n'] + tail);
            assert(s.subrange(0, j.len() as int) =~= j);
            assert(s.subrange(j.len() + 1int, s.len() as int) =~= tail);
        },
    }
}

} // verus!

verus! {

/// Every bracketed group of `t` from `i` on, up to its first `]`.
pub open spec fn groups_ok(t: Seq<char>, i: int) -> bool {
    forall|p: int|
        #![trigger t[p]]
        i <= p < t.len() && t[p] == '[' ==> match group_end(t, p, '[', ']') {
            Some(e) => optional_part_ok(t.subrange(p + 1, e)),
            None => true,
        }
}

pub proof fn lemma_groups_ok_template_ok(t: Seq<char>, i: int)
    requires
        0 <= i,
        groups_ok(t, i),
    ensures
        template_ok(t, i),
    decreases t.len() - i,
{
    if i < t.len() {
        lemma_group_end(t, i, '[', ']');
        lemma_group_end(t, i, '{', '}');
        match group_end(t, i, '[', ']') {
            Some(e) => {
                assert(t[i] == '[');
                lemma_groups_ok_template_ok(t, e + 1);
            },
            None => match group_end(t, i, '{', '}') {
                Some(e) => lemma_groups_ok_template_ok(t, e + 1),
                None => lemma_groups_ok_template_ok(t, i + 1),
            },
        }
    }
}

proof fn lemma_catalog_templates_ok_from_0()
    ensures
        forall|k: int| 0 <= k < 5 ==> template_ok(#[trigger] catalog()[k].template@, 0),
{
    assert forall|k: int| 0 <= k < 5 implies template_ok(#[trigger] catalog()[k].template@, 0) by {
        if k == 0 {
            reveal_strlit("users list-users");
            let t = "users list-users"@;
            lemma_groups_ok_template_ok(t, 0);
        } else if k == 1 {
            reveal_strlit("users last-active [--limit {limit}]");
            let t = "users last-active [--limit {limit}]"@;
            let rest0 = t.subrange(19, t.len() as int);
            lemma_find_char(rest0, ']');
            assert(rest0[15] == ']');
            assert(group_end(t, 18, '[', ']') == Some(34int));
            let inner0 = t.subrange(19, 34);
            assert(trim(inner0) == inner0);
            lemma_find_char(inner0, '{');
            lemma_find_char(inner0, '}');
            assert(inner0[8] == '{');
            assert(inner0[14] == '}');
            assert(optional_part_ok(inner0));
            assert forall|q: int| 0 <= q < t.len() && #[trigger] t[q] == '[' implies q == 18 by {}
            lemma_groups_ok_template_ok(t, 0);
        } else if k == 2 {
            reveal_strlit("users create-user {username} {password}");
            let t = "users create-user {username} {password}"@;
            lemma_groups_ok_template_ok(t, 0);
        } else if k == 3 {
            reveal_strlit("users reset-password {user_id} {password}");
            let t = "users reset-password {user_id} {password}"@;
            lemma_groups_ok_template_ok(t, 0);
        } else if k == 4 {
            reveal_strlit("users deactivate {user_id} [--no-leave-rooms no_leave_rooms]");
            let t = "users deactivate {user_id} [--no-leave-rooms no_leave_rooms]"@;
            let rest0 = t.subrange(28, t.len() as int);
            lemma_find_char(rest0, ']');
            assert(rest0[31] == ']');
            assert(group_end(t, 27, '[', ']') == Some(59int));
            let inner0 = t.subrange(28, 59);
            assert(trim(inner0) == inner0);
            lemma_find_char(inner0, '{');
            lemma_find_char(inner0, '}');
            assert(optional_part_ok(inner0));
            assert forall|q: int| 0 <= q < t.len() && #[trigger] t[q] == '[' implies q == 27 by {}
            lemma_groups_ok_template_ok(t, 0);
        }
    }
}

proof fn lemma_catalog_templates_ok_from_5()
    ensures
        forall|k: int| 5 <= k < 10 ==> template_ok(#[trigger] catalog()[k].template@, 0),
{
    assert forall|k: int| 5 <= k < 10 implies template_ok(#[trigger] catalog()[k].template@, 0) by {
        if k == 5 {
            reveal_strlit("users make-user-admin {user_id}");
            let t = "users make-user-admin {user_id}"@;
            lemma_groups_ok_template_ok(t, 0);
        } else if k == 6 {
            reveal_strlit("users list-joined-rooms {user_id}");
            let t = "users list-joined-rooms {user_id}"@;
            lemma_groups_ok_template_ok(t, 0);
        } else if k == 7 {
            reveal_strlit("users force-join-room {user_id} {room}");
            let t = "users force-join-room {user_id} {room}"@;
            lemma_groups_ok_template_ok(t, 0);
        } else if k == 8 {
            reveal_strlit("users force-leave-room {user_id} {room_id}");
            let t = "users force-leave-room {user_id} {room_id}"@;
            lemma_groups_ok_template_ok(t, 0);
        } else if k == 9 {
            reveal_strlit("users redact-event {event_id}");
            let t = "users redact-event {event_id}"@;
            lemma_groups_ok_template_ok(t, 0);
        }
    }
}

proof fn lemma_catalog_templates_ok_from_10()
    ensures
        forall|k: int| 10 <= k < 15 ==> template_ok(#[trigger] catalog()[k].template@, 0),
{
    assert forall|k: int| 10 <= k < 15 implies template_ok(#[trigger] catalog()[k].template@, 0) by {
        if k == 10 {
            reveal_strlit("rooms list {page}");
            let t = "rooms list {page}"@;
            lemma_groups_ok_template_ok(t, 0);
        } else if k == 11 {
            reveal_strlit("rooms moderation list-banned-rooms");
            let t = "rooms moderation list-banned-rooms"@;
            lemma_groups_ok_template_ok(t, 0);
        } else if k == 12 {
            reveal_strlit("rooms moderation ban-room {room}");
            let t = "rooms moderation ban-room {room}"@;
            lemma_groups_ok_template_ok(t, 0);
        } else if k == 13 {
            reveal_strlit("rooms moderation unban-room {room}");
            let t = "rooms moderation unban-room {room}"@;
            lemma_groups_ok_template_ok(t, 0);
        } else if k == 14 {
            reveal_strlit("rooms info list-joined-members {room_id} [--local-only local_only]");
            let t = "rooms info list-joined-members {room_id} [--local-only local_only]"@;
            let rest0 = t.subrange(42, t.len() as int);
            lemma_find_char(rest0, ']');
            assert(rest0[23] == ']');
            assert(group_end(t, 41, '[', ']') == Some(65int));
            let inner0 = t.subrange(42, 65);
            assert(trim(inner0) == inner0);
            lemma_find_char(inner0, '{');
            lemma_find_char(inner0, '}');
            assert(optional_part_ok(inner0));
            assert forall|q: int| 0 <= q < t.len() && #[trigger] t[q] == '[' implies q == 41 by {}
            lemma_groups_ok_template_ok(t, 0);
        }
    }
}

proof fn lemma_catalog_templates_ok_from_15()
    ensures
        forall|k: int| 15 <= k < 20 ==> template_ok(#[trigger] catalog()[k].template@, 0),
{
    assert forall|k: int| 15 <= k < 20 implies template_ok(#[trigger] catalog()[k].template@, 0) by {
        if k == 15 {
            reveal_strlit("rooms delete {room_id} [--force force]");
            let t = "rooms delete {room_id} [--force force]"@;
            let rest0 = t.subrange(24, t.len() as int);
            lemma_find_char(rest0, ']');
            assert(rest0[13] == ']');
            assert(group_end(t, 23, '[', ']') == Some(37int));
            let inner0 = t.subrange(24, 37);
            assert(trim(inner0) == inner0);
            lemma_find_char(inner0, '{');
            lemma_find_char(inner0, '}');
            assert(optional_part_ok(inner0));
            assert forall|q: int| 0 <= q < t.len() && #[trigger] t[q] == '[' implies q == 23 by {}
            lemma_groups_ok_template_ok(t, 0);
        } else if k == 16 {
            reveal_strlit("federation incoming-federation");
            let t = "federation incoming-federation"@;
            lemma_groups_ok_template_ok(t, 0);
        } else if k == 17 {
            reveal_strlit("federation disable-room {room_id}");
            let t = "federation disable-room {room_id}"@;
            lemma_groups_ok_template_ok(t, 0);
        } else if k == 18 {
            reveal_strlit("federation enable-room {room_id}");
            let t = "federation enable-room {room_id}"@;
            lemma_groups_ok_template_ok(t, 0);
        } else if k == 19 {
            reveal_strlit("federation remote-user-in-rooms {user_id}");
            let t = "federation remote-user-in-rooms {user_id}"@;
            lemma_groups_ok_template_ok(t, 0);
        }
    }
}

proof fn lemma_catalog_templates_ok_from_20()
    ensures
        forall|k: int| 20 <= k < 25 ==> template_ok(#[trigger] catalog()[k].template@, 0),
{
    assert forall|k: int| 20 <= k < 25 implies template_ok(#[trigger] catalog()[k].template@, 0) by {
        if k == 20 {
            reveal_strlit("appservices list");
            let t = "appservices list"@;
            lemma_groups_ok_template_ok(t, 0);
        } else if k == 21 {
            reveal_strlit("appservices show-config {id}");
            let t = "appservices show-config {id}"@;
            lemma_groups_ok_template_ok(t, 0);
        } else if k == 22 {
            reveal_strlit("appservices register\n```\n{yaml}\n```");
            let t = "appservices register\n```\n{yaml}\n```"@;
            lemma_groups_ok_template_ok(t, 0);
        } else if k == 23 {
            reveal_strlit("appservices unregister {id}");
            let t = "appservices unregister {id}"@;
            lemma_groups_ok_template_ok(t, 0);
        } else if k == 24 {
            reveal_strlit("media delete [--mxc {mxc}] [--event-id {event_id}]");
            let t = "media delete [--mxc {mxc}] [--event-id {event_id}]"@;
            let rest0 = t.subrange(14, t.len() as int);
            lemma_find_char(rest0, ']');
            assert(rest0[11] == ']');
            assert(group_end(t, 13, '[', ']') == Some(25int));
            let inner0 = t.subrange(14, 25);
            assert(trim(inner0) == inner0);
            lemma_find_char(inner0, '{');
            lemma_find_char(inner0, '}');
            assert(inner0[6] == '{');
            assert(inner0[10] == '}');
            assert(optional_part_ok(inner0));
            let rest1 = t.subrange(28, t.len() as int);
            lemma_find_char(rest1, ']');
            assert(rest1[21] == ']');
            assert(group_end(t, 27, '[', ']') == Some(49int));
            let inner1 = t.subrange(28, 49);
            assert(trim(inner1) == inner1);
            lemma_find_char(inner1, '{');
            lemma_find_char(inner1, '}');
            assert(inner1[11] == '{');
            assert(inner1[20] == '}');
            assert(optional_part_ok(inner1));
            assert forall|q: int| 0 <= q < t.len() && #[trigger] t[q] == '[' implies q == 13 || q == 27 by {}
            lemma_groups_ok_template_ok(t, 0);
        }
    }
}

proof fn lemma_catalog_templates_ok_from_25()
    ensures
        forall|k: int| 25 <= k < 30 ==> template_ok(#[trigger] catalog()[k].template@, 0),
{
    assert forall|k: int| 25 <= k < 30 implies template_ok(#[trigger] catalog()[k].template@, 0) by {
        if k == 25 {
            reveal_strlit("media delete-past-remote-media {duration} [--after after]");
            let t = "media delete-past-remote-media {duration} [--after after]"@;
            let rest0 = t.subrange(43, t.len() as int);
            lemma_find_char(rest0, ']');
            assert(rest0[13] == ']');
            assert(group_end(t, 42, '[', ']') == Some(56int));
            let inner0 = t.subrange(43, 56);
            assert(trim(inner0) == inner0);
            lemma_find_char(inner0, '{');
            lemma_find_char(inner0, '}');
            assert(optional_part_ok(inner0));
            assert forall|q: int| 0 <= q < t.len() && #[trigger] t[q] == '[' implies q == 42 by {}
            lemma_groups_ok_template_ok(t, 0);
        } else if k == 26 {
            reveal_strlit("media delete-all-from-user {user}");
            let t = "media delete-all-from-user {user}"@;
            lemma_groups_ok_template_ok(t, 0);
        } else if k == 27 {
            reveal_strlit("media get-file-info {mxc}");
            let t = "media get-file-info {mxc}"@;
            lemma_groups_ok_template_ok(t, 0);
        } else if k == 28 {
            reveal_strlit("token list");
            let t = "token list"@;
            lemma_groups_ok_template_ok(t, 0);
        } else if k == 29 {
            reveal_strlit("token issue [--max-uses {max_uses}] [--max-age {max_age}] [--once once]");
            let t = "token issue [--max-uses {max_uses}] [--max-age {max_age}] [--once once]"@;
            let rest0 = t.subrange(13, t.len() as int);
            lemma_find_char(rest0, ']');
            assert(rest0[21] == ']');
            assert(group_end(t, 12, '[', ']') == Some(34int));
            let inner0 = t.subrange(13, 34);
            assert(trim(inner0) == inner0);
            lemma_find_char(inner0, '{');
            lemma_find_char(inner0, '}');
            assert(inner0[11] == '{');
            assert(inner0[20] == '}');
            assert(optional_part_ok(inner0));
            let rest1 = t.subrange(37, t.len() as int);
            lemma_find_char(rest1, ']');
            assert(rest1[19] == ']');
            assert(group_end(t, 36, '[', ']') == Some(56int));
            let inner1 = t.subrange(37, 56);
            assert(trim(inner1) == inner1);
            lemma_find_char(inner1, '{');
            lemma_find_char(inner1, '}');
            assert(inner1[10] == '{');
            assert(inner1[18] == '}');
            assert(optional_part_ok(inner1));
            let rest2 = t.subrange(59, t.len() as int);
            lemma_find_char(rest2, ']');
            assert(rest2[11] == ']');
            assert(group_end(t, 58, '[', ']') == Some(70int));
            let inner2 = t.subrange(59, 70);
            assert(trim(inner2) == inner2);
            lemma_find_char(inner2, '{');
            lemma_find_char(inner2, '}');
            assert(optional_part_ok(inner2));
            assert forall|q: int| 0 <= q < t.len() && #[trigger] t[q] == '[' implies q == 12 || q == 36 || q == 58 by {}
            lemma_groups_ok_template_ok(t, 0);
        }
    }
}

proof fn lemma_catalog_templates_ok_from_30()
    ensures
        forall|k: int| 30 <= k < 35 ==> template_ok(#[trigger] catalog()[k].template@, 0),
{
    assert forall|k: int| 30 <= k < 35 implies template_ok(#[trigger] catalog()[k].template@, 0) by {
        if k == 30 {
            reveal_strlit("token revoke {token}");
            let t = "token revoke {token}"@;
            lemma_groups_ok_template_ok(t, 0);
        } else if k == 31 {
            reveal_strlit("server uptime");
            let t = "server uptime"@;
            lemma_groups_ok_template_ok(t, 0);
        } else if k == 32 {
            reveal_strlit("server show-config");
            let t = "server show-config"@;
            lemma_groups_ok_template_ok(t, 0);
        } else if k == 33 {
            reveal_strlit("server reload-config {path}");
            let t = "server reload-config {path}"@;
            lemma_groups_ok_template_ok(t, 0);
        } else if k == 34 {
            reveal_strlit("server memory-usage");
            let t = "server memory-usage"@;
            lemma_groups_ok_template_ok(t, 0);
        }
    }
}

proof fn lemma_catalog_templates_ok_from_35()
    ensures
        forall|k: int| 35 <= k < 40 ==> template_ok(#[trigger] catalog()[k].template@, 0),
{
    assert forall|k: int| 35 <= k < 40 implies template_ok(#[trigger] catalog()[k].template@, 0) by {
        if k == 35 {
            reveal_strlit("server clear-caches");
            let t = "server clear-caches"@;
            lemma_groups_ok_template_ok(t, 0);
        } else if k == 36 {
            reveal_strlit("server backup-database");
            let t = "server backup-database"@;
            lemma_groups_ok_template_ok(t, 0);
        } else if k == 37 {
            reveal_strlit("server list-backups");
            let t = "server list-backups"@;
            lemma_groups_ok_template_ok(t, 0);
        } else if k == 38 {
            reveal_strlit("server admin-notice {message}");
            let t = "server admin-notice {message}"@;
            lemma_groups_ok_template_ok(t, 0);
        } else if k == 39 {
            reveal_strlit("server reload-mods");
            let t = "server reload-mods"@;
            lemma_groups_ok_template_ok(t, 0);
        }
    }
}

proof fn lemma_catalog_templates_ok_from_40()
    ensures
        forall|k: int| 40 <= k < 45 ==> template_ok(#[trigger] catalog()[k].template@, 0),
{
    assert forall|k: int| 40 <= k < 45 implies template_ok(#[trigger] catalog()[k].template@, 0) by {
        if k == 40 {
            reveal_strlit("server restart [--force force]");
            let t = "server restart [--force force]"@;
            let rest0 = t.subrange(16, t.len() as int);
            lemma_find_char(rest0, ']');
            assert(rest0[13] == ']');
            assert(group_end(t, 15, '[', ']') == Some(29int));
            let inner0 = t.subrange(16, 29);
            assert(trim(inner0) == inner0);
            lemma_find_char(inner0, '{');
            lemma_find_char(inner0, '}');
            assert(optional_part_ok(inner0));
            assert forall|q: int| 0 <= q < t.len() && #[trigger] t[q] == '[' implies q == 15 by {}
            lemma_groups_ok_template_ok(t, 0);
        } else if k == 41 {
            reveal_strlit("server shutdown");
            let t = "server shutdown"@;
            lemma_groups_ok_template_ok(t, 0);
        } else if k == 42 {
            reveal_strlit("debug ping {server}");
            let t = "debug ping {server}"@;
            lemma_groups_ok_template_ok(t, 0);
        } else if k == 43 {
            reveal_strlit("debug resolve-true-destination {server}");
            let t = "debug resolve-true-destination {server}"@;
            lemma_groups_ok_template_ok(t, 0);
        } else if k == 44 {
            reveal_strlit("debug change-log-level [--filter {filter}] [--reset reset]");
            let t = "debug change-log-level [--filter {filter}] [--reset reset]"@;
            let rest0 = t.subrange(24, t.len() as int);
            lemma_find_char(rest0, ']');
            assert(rest0[17] == ']');
            assert(group_end(t, 23, '[', ']') == Some(41int));
            let inner0 = t.subrange(24, 41);
            assert(trim(inner0) == inner0);
            lemma_find_char(inner0, '{');
            lemma_find_char(inner0, '}');
            assert(inner0[9] == '{');
            assert(inner0[16] == '}');
            assert(optional_part_ok(inner0));
            let rest1 = t.subrange(44, t.len() as int);
            lemma_find_char(rest1, ']');
            assert(rest1[13] == ']');
            assert(group_end(t, 43, '[', ']') == Some(57int));
            let inner1 = t.subrange(44, 57);
            assert(trim(inner1) == inner1);
            lemma_find_char(inner1, '{');
            lemma_find_char(inner1, '}');
            assert(optional_part_ok(inner1));
            assert forall|q: int| 0 <= q < t.len() && #[trigger] t[q] == '[' implies q == 23 || q == 43 by {}
            lemma_groups_ok_template_ok(t, 0);
        }
    }
}

proof fn lemma_catalog_templates_ok_from_45()
    ensures
        forall|k: int| 45 <= k < 50 ==> template_ok(#[trigger] catalog()[k].template@, 0),
{
    assert forall|k: int| 45 <= k < 50 implies template_ok(#[trigger] catalog()[k].template@, 0) by {
        if k == 45 {
            reveal_strlit("debug database-stats");
            let t = "debug database-stats"@;
            lemma_groups_ok_template_ok(t, 0);
        } else if k == 46 {
            reveal_strlit("debug runtime-metrics");
            let t = "debug runtime-metrics"@;
            lemma_groups_ok_template_ok(t, 0);
        } else if k == 47 {
            reveal_strlit("debug memory-stats");
            let t = "debug memory-stats"@;
            lemma_groups_ok_template_ok(t, 0);
        } else if k == 48 {
            reveal_strlit("debug trim-memory");
            let t = "debug trim-memory"@;
            lemma_groups_ok_template_ok(t, 0);
        } else if k == 49 {
            reveal_strlit("{cmd}");
            let t = "{cmd}"@;
            lemma_groups_ok_template_ok(t, 0);
        }
    }
}

/// Every command of the catalog has a template that `render_template` can
/// render: no optional group holds a `}` before its first `{`.
pub proof fn lemma_catalog_templates_ok()
    ensures
        forall|k: int| 0 <= k < catalog().len() ==> template_ok(#[trigger] catalog()[k].template@, 0),
{
    assert(catalog().len() == 50);
    assert forall|k: int| 0 <= k < catalog().len() implies template_ok(#[trigger] catalog()[k].template@, 0) by {
        lemma_catalog_templates_ok_from_0();
        lemma_catalog_templates_ok_from_5();
        lemma_catalog_templates_ok_from_10();
        lemma_catalog_templates_ok_from_15();
        lemma_catalog_templates_ok_from_20();
        lemma_catalog_templates_ok_from_25();
        lemma_catalog_templates_ok_from_30();
        lemma_catalog_templates_ok_from_35();
        lemma_catalog_templates_ok_from_40();
        lemma_catalog_templates_ok_from_45();
    }
}


/// A checkbox group `[--flag name]` renders as `--flag` exactly when the
/// form's value for `name` is `on`, `true`, `1` or `yes`, and is left out
/// otherwise.
pub proof fn lemma_checkbox_group(
    flag: Seq<char>,
    name: Seq<char>,
    vals: Seq<(Seq<char>, Seq<char>)>,
)
    requires
        flag.len() > 0,
        name.len() > 0,
        !crate::text::is_ws(flag[0]),
        !crate::text::is_ws(name.last()),
        forall|j: int| 0 <= j < flag.len() ==> #[trigger] flag[j] != '{',
        forall|j: int| 0 <= j < name.len() ==> #[trigger] name[j] != '{' && name[j] != ' ',
    ensures
        optional_part(flag + seq![' '] + name, vals) == (if is_truthy(value_or_empty(vals, name)) {
            Some(flag)
        } else {
            None
        }),
{
    let inner = flag + seq![' '] + name;
    assert(inner[0] == flag[0]);
    assert(inner.last() == name.last());
    assert(trim(inner) == inner);
    lemma_find_char(inner, '{');
    assert forall|j: int| 0 <= j < inner.len() implies #[trigger] inner[j] != '{' by {
        if j < flag.len() {
            assert(inner[j] == flag[j]);
        } else if j > flag.len() {
            assert(inner[j] == name[j - flag.len() - 1]);
        }
    }
    crate::text::lemma_rfind(inner, seq![' ']);
    let sp = flag.len() as int;
    assert(inner.subrange(sp, sp + 1) =~= seq![' ']);
    assert(crate::text::matches_at(inner, seq![' '], sp));
    match rfind(inner, seq![' ']) {
        Some(k) => {
            if k > sp {
                assert(inner.subrange(k, k + 1)[0] == inner[k]);
                assert(inner[k] == name[k - flag.len() - 1]);
            }
            assert(k == sp);
        },
        None => {},
    }
    assert(inner.subrange(sp + 1, inner.len() as int) =~= name);
    assert(inner.subrange(0, sp) =~= flag);
}

} // verus!

verus! {

/// An ASCII template character renders as itself.
pub proof fn lemma_byte_chars_ascii(c: char)
    requires
        (c as u32) < 0x80,
    ensures
        byte_chars(c) == seq![c],
{
    let v = c as u32;
    assert(encode_utf8(Seq::<char>::empty()) == Seq::<u8>::empty());
    assert(seq![c].drop_first() =~= Seq::<char>::empty());
    assert(((v & 0x7F) as u8) as u32 == v) by (bit_vector)
        requires
            v < 0x80,
    ;
    let e = encode_utf8(seq![c]);
    assert(e =~= seq![(v & 0x7F) as u8]);
    assert(byte_chars(c) =~= seq![c]);
}

/// A stretch of plain ASCII template text (no `[` or `{`) renders as itself.
pub proof fn lemma_render_plain(t: Seq<char>, i: int, j: int, vals: Seq<(Seq<char>, Seq<char>)>)
    requires
        0 <= i <= j <= t.len(),
        forall|k: int| i <= k < j ==> #[trigger] t[k] != '[' && t[k] != '{' && (t[k] as u32) < 0x80,
    ensures
        render_from(t, i, vals) == t.subrange(i, j) + render_from(t, j, vals),
    decreases j - i,
{
    if i < j {
        lemma_render_plain(t, i + 1, j, vals);
        lemma_byte_chars_ascii(t[i]);
        assert(group_end(t, i, '[', ']') is None);
        assert(group_end(t, i, '{', '}') is None);
        assert(t.subrange(i, j) =~= seq![t[i]] + t.subrange(i + 1, j));
    } else {
        assert(t.subrange(i, j) =~= Seq::<char>::empty());
    }
}

} // verus!

verus! {

/// The words of the rendered restart command, joined by single spaces.
proof fn lemma_restart_words(r: Seq<char>, forced: bool)
    requires
        r == (if forced {
            "server restart --force"@
        } else {
            "server restart "@
        }),
    ensures
        join(words(r), seq![' ']) == (if forced {
            "server restart --force"@
        } else {
            "server restart"@
        }),
{
    reveal_strlit("server restart --force");
    reveal_strlit("server restart ");
    reveal_strlit("server restart");
    lemma_next_ws(r, false, 0);
    lemma_next_ws(r, true, 0);
    lemma_next_ws(r, false, 6);
    lemma_next_ws(r, true, 7);
    lemma_next_ws(r, false, 14);
    assert(!is_ws(r[0]) && is_ws(r[6]) && !is_ws(r[7]) && is_ws(r[14]));
    assert(next_ws(r, false, 0) == 0);
    assert(next_ws(r, true, 0) == 6);
    assert(next_ws(r, false, 6) == 7);
    assert(next_ws(r, true, 7) == 14);
    let w0 = r.subrange(0, 6);
    let w1 = r.subrange(7, 14);
    if forced {
        assert(!is_ws(r[15]));
        assert(next_ws(r, false, 14) == 15);
        lemma_next_ws(r, true, 15);
        assert(next_ws(r, true, 15) == 22);
        lemma_next_ws(r, false, 22);
        assert(words_from(r, 22) == Seq::<Seq<char>>::empty());
        let w2 = r.subrange(15, 22);
        assert(words_from(r, 14) == seq![w2]);
        assert(words_from(r, 6) =~= seq![w1, w2]);
        assert(words(r) =~= seq![w0, w1, w2]);
        let ws = seq![w0, w1, w2];
        assert(ws.drop_last() =~= seq![w0, w1]);
        assert(seq![w0, w1].drop_last() =~= seq![w0]);
        assert(join(seq![w0], seq![' ']) == w0);
        assert(join(seq![w0, w1], seq![' ']) == w0 + seq![' '] + w1);
        assert(join(ws, seq![' ']) =~= "server restart --force"@);
    } else {
        assert(next_ws(r, false, 14) == 15);
        assert(words_from(r, 14) == Seq::<Seq<char>>::empty());
        assert(words_from(r, 6) =~= seq![w1]);
        assert(words(r) =~= seq![w0, w1]);
        assert(seq![w0, w1].drop_last() =~= seq![w0]);
        assert(join(seq![w0], seq![' ']) == w0);
        assert(join(seq![w0, w1], seq![' ']) =~= "server restart"@);
    }
}

} // verus!

verus! {

/// The restart template renders as `server restart --force` exactly when the
/// form's `force` value is `on`, `true`, `1` or `yes`, and as
/// `server restart` otherwise.
pub proof fn lemma_restart_template_renders(vals: Seq<(Seq<char>, Seq<char>)>)
    ensures
        spec_render("server restart [--force force]"@, vals) == (if is_truthy(
            value_or_empty(vals, "force"@),
        ) {
            "server restart --force"@
        } else {
            "server restart"@
        }),
{
    let t = "server restart [--force force]"@;
    reveal_strlit("server restart [--force force]");
    reveal_strlit("--force");
    reveal_strlit("force");
    reveal_strlit("server restart --force");
    reveal_strlit("server restart ");
    reveal_strlit("```");
    lemma_render_plain(t, 0, 15, vals);
    let rest = t.subrange(16, t.len() as int);
    lemma_find_char(rest, ']');
    assert(rest[13] == ']');
    assert(group_end(t, 15, '[', ']') == Some(29int));
    let inner = t.subrange(16, 29);
    assert(inner =~= "--force"@ + seq![' '] + "force"@);
    lemma_checkbox_group("--force"@, "force"@, vals);
    assert(render_from(t, 30, vals) == Seq::<char>::empty());
    let forced = is_truthy(value_or_empty(vals, "force"@));
    let r = render_from(t, 0, vals);
    if forced {
        assert(r =~= "server restart --force"@);
    } else {
        assert(r =~= "server restart "@);
    }
    lemma_find(r, "```"@);
    if let Some(k) = crate::text::find(r, "```"@) {
        assert(r.subrange(k, k + 3)[0] == r[k]);
        assert(false);
    }
    lemma_restart_words(r, forced);
}

/// The catalog commands 0 to 9 are not `server restart`.
proof fn lemma_restart_skips_0()
    ensures
        first_cmd_from(catalog(), "server"@, "restart"@, 0) == first_cmd_from(
            catalog(),
            "server"@,
            "restart"@,
            10,
        ),
{
    reveal_strlit("server");
    reveal_strlit("restart");
    reveal_strlit("users");
    assert(catalog()[0].module@.len() != "server"@.len());
    assert(catalog()[1].module@.len() != "server"@.len());
    assert(catalog()[2].module@.len() != "server"@.len());
    assert(catalog()[3].module@.len() != "server"@.len());
    assert(catalog()[4].module@.len() != "server"@.len());
    assert(catalog()[5].module@.len() != "server"@.len());
    assert(catalog()[6].module@.len() != "server"@.len());
    assert(catalog()[7].module@.len() != "server"@.len());
    assert(catalog()[8].module@.len() != "server"@.len());
    assert(catalog()[9].module@.len() != "server"@.len());
    assert(first_cmd_from(catalog(), "server"@, "restart"@, 9) == first_cmd_from(catalog(), "server"@, "restart"@, 10));
    assert(first_cmd_from(catalog(), "server"@, "restart"@, 8) == first_cmd_from(catalog(), "server"@, "restart"@, 9));
    assert(first_cmd_from(catalog(), "server"@, "restart"@, 7) == first_cmd_from(catalog(), "server"@, "restart"@, 8));
    assert(first_cmd_from(catalog(), "server"@, "restart"@, 6) == first_cmd_from(catalog(), "server"@, "restart"@, 7));
    assert(first_cmd_from(catalog(), "server"@, "restart"@, 5) == first_cmd_from(catalog(), "server"@, "restart"@, 6));
    assert(first_cmd_from(catalog(), "server"@, "restart"@, 4) == first_cmd_from(catalog(), "server"@, "restart"@, 5));
    assert(first_cmd_from(catalog(), "server"@, "restart"@, 3) == first_cmd_from(catalog(), "server"@, "restart"@, 4));
    assert(first_cmd_from(catalog(), "server"@, "restart"@, 2) == first_cmd_from(catalog(), "server"@, "restart"@, 3));
    assert(first_cmd_from(catalog(), "server"@, "restart"@, 1) == first_cmd_from(catalog(), "server"@, "restart"@, 2));
    assert(first_cmd_from(catalog(), "server"@, "restart"@, 0) == first_cmd_from(catalog(), "server"@, "restart"@, 1));
}

/// The catalog commands 10 to 19 are not `server restart`.
proof fn lemma_restart_skips_10()
    ensures
        first_cmd_from(catalog(), "server"@, "restart"@, 10) == first_cmd_from(
            catalog(),
            "server"@,
            "restart"@,
            20,
        ),
{
    reveal_strlit("server");
    reveal_strlit("restart");
    reveal_strlit("rooms");
    assert(catalog()[10].module@.len() != "server"@.len());
    assert(catalog()[11].module@.len() != "server"@.len());
    assert(catalog()[12].module@.len() != "server"@.len());
    assert(catalog()[13].module@.len() != "server"@.len());
    assert(catalog()[14].module@.len() != "server"@.len());
    assert(catalog()[15].module@.len() != "server"@.len());
    reveal_strlit("federation");
    assert(catalog()[16].module@.len() != "server"@.len());
    assert(catalog()[17].module@.len() != "server"@.len());
    assert(catalog()[18].module@.len() != "server"@.len());
    assert(catalog()[19].module@.len() != "server"@.len());
    assert(first_cmd_from(catalog(), "server"@, "restart"@, 19) == first_cmd_from(catalog(), "server"@, "restart"@, 20));
    assert(first_cmd_from(catalog(), "server"@, "restart"@, 18) == first_cmd_from(catalog(), "server"@, "restart"@, 19));
    assert(first_cmd_from(catalog(), "server"@, "restart"@, 17) == first_cmd_from(catalog(), "server"@, "restart"@, 18));
    assert(first_cmd_from(catalog(), "server"@, "restart"@, 16) == first_cmd_from(catalog(), "server"@, "restart"@, 17));
    assert(first_cmd_from(catalog(), "server"@, "restart"@, 15) == first_cmd_from(catalog(), "server"@, "restart"@, 16));
    assert(first_cmd_from(catalog(), "server"@, "restart"@, 14) == first_cmd_from(catalog(), "server"@, "restart"@, 15));
    assert(first_cmd_from(catalog(), "server"@, "restart"@, 13) == first_cmd_from(catalog(), "server"@, "restart"@, 14));
    assert(first_cmd_from(catalog(), "server"@, "restart"@, 12) == first_cmd_from(catalog(), "server"@, "restart"@, 13));
    assert(first_cmd_from(catalog(), "server"@, "restart"@, 11) == first_cmd_from(catalog(), "server"@, "restart"@, 12));
    assert(first_cmd_from(catalog(), "server"@, "restart"@, 10) == first_cmd_from(catalog(), "server"@, "restart"@, 11));
}

/// The catalog commands 20 to 29 are not `server restart`.
proof fn lemma_restart_skips_20()
    ensures
        first_cmd_from(catalog(), "server"@, "restart"@, 20) == first_cmd_from(
            catalog(),
            "server"@,
            "restart"@,
            30,
        ),
{
    reveal_strlit("server");
    reveal_strlit("restart");
    reveal_strlit("appservice");
    assert(catalog()[20].module@.len() != "server"@.len());
    assert(catalog()[21].module@.len() != "server"@.len());
    assert(catalog()[22].module@.len() != "server"@.len());
    assert(catalog()[23].module@.len() != "server"@.len());
    reveal_strlit("media");
    assert(catalog()[24].module@.len() != "server"@.len());
    assert(catalog()[25].module@.len() != "server"@.len());
    assert(catalog()[26].module@.len() != "server"@.len());
    assert(catalog()[27].module@.len() != "server"@.len());
    reveal_strlit("tokens");
    assert(catalog()[28].module@[0] != "server"@[0]);
    assert(catalog()[29].module@[0] != "server"@[0]);
    assert(first_cmd_from(catalog(), "server"@, "restart"@, 29) == first_cmd_from(catalog(), "server"@, "restart"@, 30));
    assert(first_cmd_from(catalog(), "server"@, "restart"@, 28) == first_cmd_from(catalog(), "server"@, "restart"@, 29));
    assert(first_cmd_from(catalog(), "server"@, "restart"@, 27) == first_cmd_from(catalog(), "server"@, "restart"@, 28));
    assert(first_cmd_from(catalog(), "server"@, "restart"@, 26) == first_cmd_from(catalog(), "server"@, "restart"@, 27));
    assert(first_cmd_from(catalog(), "server"@, "restart"@, 25) == first_cmd_from(catalog(), "server"@, "restart"@, 26));
    assert(first_cmd_from(catalog(), "server"@, "restart"@, 24) == first_cmd_from(catalog(), "server"@, "restart"@, 25));
    assert(first_cmd_from(catalog(), "server"@, "restart"@, 23) == first_cmd_from(catalog(), "server"@, "restart"@, 24));
    assert(first_cmd_from(catalog(), "server"@, "restart"@, 22) == first_cmd_from(catalog(), "server"@, "restart"@, 23));
    assert(first_cmd_from(catalog(), "server"@, "restart"@, 21) == first_cmd_from(catalog(), "server"@, "restart"@, 22));
    assert(first_cmd_from(catalog(), "server"@, "restart"@, 20) == first_cmd_from(catalog(), "server"@, "restart"@, 21));
}

/// The catalog commands 30 to 39 are not `server restart`.
proof fn lemma_restart_skips_30()
    ensures
        first_cmd_from(catalog(), "server"@, "restart"@, 30) == first_cmd_from(
            catalog(),
            "server"@,
            "restart"@,
            40,
        ),
{
    reveal_strlit("server");
    reveal_strlit("restart");
    reveal_strlit("tokens");
    assert(catalog()[30].module@[0] != "server"@[0]);
    reveal_strlit("uptime");
    assert(catalog()[31].action@.len() != "restart"@.len());
    reveal_strlit("show-config");
    assert(catalog()[32].action@.len() != "restart"@.len());
    reveal_strlit("reload-config");
    assert(catalog()[33].action@.len() != "restart"@.len());
    reveal_strlit("memory");
    assert(catalog()[34].action@.len() != "restart"@.len());
    reveal_strlit("clear-caches");
    assert(catalog()[35].action@.len() != "restart"@.len());
    reveal_strlit("backup");
    assert(catalog()[36].action@.len() != "restart"@.len());
    reveal_strlit("list-backups");
    assert(catalog()[37].action@.len() != "restart"@.len());
    reveal_strlit("admin-notice");
    assert(catalog()[38].action@.len() != "restart"@.len());
    reveal_strlit("reload-mods");
    assert(catalog()[39].action@.len() != "restart"@.len());
    assert(first_cmd_from(catalog(), "server"@, "restart"@, 39) == first_cmd_from(catalog(), "server"@, "restart"@, 40));
    assert(first_cmd_from(catalog(), "server"@, "restart"@, 38) == first_cmd_from(catalog(), "server"@, "restart"@, 39));
    assert(first_cmd_from(catalog(), "server"@, "restart"@, 37) == first_cmd_from(catalog(), "server"@, "restart"@, 38));
    assert(first_cmd_from(catalog(), "server"@, "restart"@, 36) == first_cmd_from(catalog(), "server"@, "restart"@, 37));
    assert(first_cmd_from(catalog(), "server"@, "restart"@, 35) == first_cmd_from(catalog(), "server"@, "restart"@, 36));
    assert(first_cmd_from(catalog(), "server"@, "restart"@, 34) == first_cmd_from(catalog(), "server"@, "restart"@, 35));
    assert(first_cmd_from(catalog(), "server"@, "restart"@, 33) == first_cmd_from(catalog(), "server"@, "restart"@, 34));
    assert(first_cmd_from(catalog(), "server"@, "restart"@, 32) == first_cmd_from(catalog(), "server"@, "restart"@, 33));
    assert(first_cmd_from(catalog(), "server"@, "restart"@, 31) == first_cmd_from(catalog(), "server"@, "restart"@, 32));
    assert(first_cmd_from(catalog(), "server"@, "restart"@, 30) == first_cmd_from(catalog(), "server"@, "restart"@, 31));
}

/// The catalog's `server restart` command renders as
/// `server restart --force` exactly when the form's `force` value is `on`,
/// `true`, `1` or `yes`, and as `server restart` otherwise.
pub proof fn lemma_restart_command(vals: Seq<(Seq<char>, Seq<char>)>)
    ensures
        first_cmd_from(catalog(), "server"@, "restart"@, 0) matches Some(c) && spec_render(
            c.template@,
            vals,
        ) == (if is_truthy(value_or_empty(vals, "force"@)) {
            "server restart --force"@
        } else {
            "server restart"@
        }),
{
    lemma_restart_skips_0();
    lemma_restart_skips_10();
    lemma_restart_skips_20();
    lemma_restart_skips_30();
    let c = catalog()[40];
    assert(c.module@ == "server"@ && c.action@ == "restart"@);
    assert(first_cmd_from(catalog(), "server"@, "restart"@, 40) == Some(c));
    assert(c.template@ == "server restart [--force force]"@);
    lemma_restart_template_renders(vals);
}

} // verus!

verus! {

/// Text that neither starts nor ends with whitespace is its own trim.
pub proof fn lemma_trim_of_trimmed(s: Seq<char>)
    requires
        s.len() > 0,
        !is_ws(s[0]),
        !is_ws(s.last()),
    ensures
        trim(s) == s,
{
    assert(crate::text::trim_start(s) == s);
    assert(crate::text::trim_end(s) == s);
}

/// Text followed by one space trims to the text, when the text is trimmed.
pub proof fn lemma_trim_with_space(s: Seq<char>)
    requires
        s.len() > 0,
        !is_ws(s[0]),
        !is_ws(s.last()),
    ensures
        trim(s + seq![' ']) == s,
{
    let t = s + seq![' '];
    assert(t[0] == s[0]);
    assert(crate::text::trim_start(t) == t);
    assert(t.drop_last() =~= s);
    assert(crate::text::trim_end(s) == s);
    assert(crate::text::trim_end(t) == crate::text::trim_end(s));
}

/// A value group `[--flag {name}]` renders as `--flag <value>` exactly when
/// the form's value for `name`, trimmed, is non-empty (the value trimmed),
/// and is left out otherwise: an empty value counts as no value.
pub proof fn lemma_value_group(flag: Seq<char>, name: Seq<char>, vals: Seq<(Seq<char>, Seq<char>)>)
    requires
        flag.len() > 0,
        !is_ws(flag[0]),
        !is_ws(flag.last()),
        forall|j: int| 0 <= j < flag.len() ==> #[trigger] flag[j] != '{' && flag[j] != '}',
        forall|j: int| 0 <= j < name.len() ==> #[trigger] name[j] != '{' && name[j] != '}',
    ensures
        optional_part(flag + seq![' ', '{'] + name + seq!['}'], vals) == (if trim(
            value_or_empty(vals, name),
        ).len() == 0 {
            None
        } else {
            Some(flag + seq![' '] + trim(value_or_empty(vals, name)))
        }),
{
    let inner = flag + seq![' ', '{'] + name + seq!['}'];
    let n = flag.len() as int;
    assert(inner[0] == flag[0]);
    assert(inner.last() == '}');
    lemma_trim_of_trimmed(inner);
    lemma_find_char(inner, '{');
    lemma_find_char(inner, '}');
    assert(inner[n + 1] == '{');
    assert(inner[inner.len() - 1] == '}');
    assert forall|j: int| 0 <= j < inner.len() - 1 implies #[trigger] inner[j] != '}' by {
        if j < n {
            assert(inner[j] == flag[j]);
        } else if j > n + 1 {
            assert(inner[j] == name[j - n - 2]);
        }
    }
    assert forall|j: int| 0 <= j < n + 1 implies #[trigger] inner[j] != '{' by {
        if j < n {
            assert(inner[j] == flag[j]);
        }
    }
    assert(crate::text::find(inner, seq!['{']) == Some(n + 1));
    assert(crate::text::find(inner, seq!['}']) == Some(inner.len() - 1));
    assert(inner.subrange(n + 2, inner.len() - 1) =~= name);
    assert(inner.subrange(0, n + 1) =~= flag + seq![' ']);
    lemma_trim_with_space(flag);
}

} // verus!

verus! {

/// A template made of plain ASCII text and one trailing optional group
/// renders as the text followed by what the group renders (nothing when the
/// group is left out).
pub proof fn lemma_render_text_then_group(
    text: Seq<char>,
    inner: Seq<char>,
    vals: Seq<(Seq<char>, Seq<char>)>,
)
    requires
        forall|k: int|
            0 <= k < text.len() ==> #[trigger] text[k] != '[' && text[k] != '{' && (text[k] as u32)
                < 0x80,
        forall|k: int| 0 <= k < inner.len() ==> #[trigger] inner[k] != ']',
    ensures
        render_from(text + seq!['['] + inner + seq![']'], 0, vals) == text + match optional_part(
            inner,
            vals,
        ) {
            Some(x) => x,
            None => Seq::<char>::empty(),
        },
{
    let t = text + seq!['['] + inner + seq![']'];
    let n = text.len() as int;
    assert forall|k: int| 0 <= k < n implies #[trigger] t[k] != '[' && t[k] != '{' && (t[k] as u32)
        < 0x80 by {
        assert(t[k] == text[k]);
    }
    lemma_render_plain(t, 0, n, vals);
    assert(t.subrange(0, n) =~= text);
    let rest = t.subrange(n + 1, t.len() as int);
    lemma_find_char(rest, ']');
    assert(rest[inner.len() as int] == ']');
    assert forall|k: int| 0 <= k < inner.len() implies #[trigger] rest[k] != ']' by {
        assert(rest[k] == inner[k]);
    }
    assert(t[n] == '[');
    assert(group_end(t, n, '[', ']') == Some(t.len() - 1));
    assert(t.subrange(n + 1, t.len() - 1) =~= inner);
    assert(render_from(t, t.len() as int, vals) == Seq::<char>::empty());
}

} // verus!
