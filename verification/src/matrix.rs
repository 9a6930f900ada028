//! The Matrix side of an admin session: homeserver URLs, the admin command
//! wire format, picking the admin bot's reply out of a /sync batch, and
//! telling failure replies from successes. The HTTP round-trips themselves
//! are made by the application.

use vstd::prelude::*;
use vstd::utf8::encode_utf8;

use crate::parse::{fenced, spec_fenced};
use vstd::string::*;

use crate::text::{
    is_ws, lemma_trim_end_char_prefix, lemma_trim_end_prefix, lemma_trim_start_suffix, trim_start,
    cat2, chars_of, contains, contains_exec, split_once, split_once_exec, starts_with, starts_with_ci, starts_with_ci_exec, starts_with_exec, str_eq,
    string_of, trim, trim_end_char, trimmed, trimmed_end_char,
};

verus! {

// ---------------------------------------------------------------------------
// URL encoding
// ---------------------------------------------------------------------------

/// Bytes that percent-encoding leaves as they are: ASCII letters, digits, `-`, `.`, `_`, `~`.
pub open spec fn url_safe(b: u8) -> bool {
    (48 <= b <= 57) || (65 <= b <= 90) || (97 <= b <= 122) || b == 45 || b == 46 || b == 95 || b
        == 126
}

/// An upper-case hexadecimal digit.
pub open spec fn hex_digit(d: u8) -> char {
    if d < 10 {
        (48 + d) as char
    } else {
        (55 + d) as char
    }
}

/// One byte, percent-encoded.
pub open spec fn encode_byte(b: u8) -> Seq<char> {
    if url_safe(b) {
        seq![b as char]
    } else {
        seq!['%', hex_digit(b / 16), hex_digit(b % 16)]
    }
}

/// Percent-encoding of a byte string.
pub open spec fn percent_encode(bytes: Seq<u8>) -> Seq<char>
    decreases bytes.len(),
{
    if bytes.len() == 0 {
        seq![]
    } else {
        percent_encode(bytes.drop_last()) + encode_byte(bytes.last())
    }
}

/// `urlencoding::encode`: every byte of the UTF-8 encoding of `s` except
/// ASCII letters, digits, `-`, `.`, `_` and `~` becomes `%XX` (upper-case hex).
#[verifier::external_body]
pub(crate) fn url_encode(s: &str) -> (r: String)
    ensures
        r@ == percent_encode(encode_utf8(s@)),
{
    urlencoding::encode(s).into_owned()
}

// ---------------------------------------------------------------------------
// Homeserver URLs and the admin wire format
// ---------------------------------------------------------------------------

/// Trim whitespace and trailing slashes from a homeserver URL.
pub fn normalize(hs: &str) -> (r: String)
    ensures
        r@ == trim_end_char(trim(hs@), '/'),
{
    let cs = chars_of(hs);
    let t = trimmed(&cs);
    let u = trimmed_end_char(&t, '/');
    string_of(&u)
}

/// A normalized homeserver URL ends in no `/` and starts with no whitespace,
/// so the API paths appended to it start a fresh path segment.
pub proof fn lemma_normalized_url_shape(hs: Seq<char>)
    ensures
        trim_end_char(trim(hs), '/').len() > 0 ==> trim_end_char(trim(hs), '/').last() != '/'
            && !is_ws(trim_end_char(trim(hs), '/')[0]),
{
    lemma_trim_end_char_prefix(trim(hs), '/');
    lemma_trim_start_suffix(hs);
    lemma_trim_end_prefix(trim_start(hs));
    let n = trim_end_char(trim(hs), '/');
    if n.len() > 0 {
        assert(n[0] == trim(hs)[0]);
        assert(trim(hs)[0] == trim_start(hs)[0]);
    }
}

/// `POST {homeserver}/_matrix/client/v3/login`.
pub fn login_url(homeserver: &str) -> (r: String)
    ensures
        r@ == homeserver@ + "/_matrix/client/v3/login"@,
{
    cat2(homeserver, "/_matrix/client/v3/login")
}

/// `POST {homeserver}/_matrix/client/v3/logout`.
pub fn logout_url(homeserver: &str) -> (r: String)
    ensures
        r@ == homeserver@ + "/_matrix/client/v3/logout"@,
{
    cat2(homeserver, "/_matrix/client/v3/logout")
}

/// `GET {homeserver}/_matrix/client/v3/sync`.
pub fn sync_url(homeserver: &str) -> (r: String)
    ensures
        r@ == homeserver@ + "/_matrix/client/v3/sync"@,
{
    cat2(homeserver, "/_matrix/client/v3/sync")
}

/// `GET {homeserver}/_matrix/client/v3/directory/room/{alias}`, alias percent-encoded.
pub fn directory_url(homeserver: &str, alias: &str) -> (r: String)
    ensures
        r@ == homeserver@ + "/_matrix/client/v3/directory/room/"@ + percent_encode(
            encode_utf8(alias@),
        ),
{
    let base = cat2(homeserver, "/_matrix/client/v3/directory/room/");
    let enc = url_encode(alias);
    cat2(base.as_str(), enc.as_str())
}

/// `GET {homeserver}/_matrix/client/v3/rooms/{room}/joined_members`, room percent-encoded.
pub fn joined_members_url(homeserver: &str, room_id: &str) -> (r: String)
    ensures
        r@ == homeserver@ + "/_matrix/client/v3/rooms/"@ + percent_encode(encode_utf8(room_id@))
            + "/joined_members"@,
{
    let base = cat2(homeserver, "/_matrix/client/v3/rooms/");
    let enc = url_encode(room_id);
    let a = cat2(base.as_str(), enc.as_str());
    cat2(a.as_str(), "/joined_members")
}

/// `PUT {homeserver}/_matrix/client/v3/rooms/{room}/send/m.room.message/{txn}`,
/// room percent-encoded.
pub fn send_url(homeserver: &str, room_id: &str, txn: &str) -> (r: String)
    ensures
        r@ == homeserver@ + "/_matrix/client/v3/rooms/"@ + percent_encode(encode_utf8(room_id@))
            + "/send/m.room.message/"@ + txn@,
{
    let base = cat2(homeserver, "/_matrix/client/v3/rooms/");
    let enc = url_encode(room_id);
    let a = cat2(base.as_str(), enc.as_str());
    let b = cat2(a.as_str(), "/send/m.room.message/");
    cat2(b.as_str(), txn)
}

/// The device id or display name sent at login: the configured one, or
/// `tuwunel-admin` when that is blank.
pub fn device_label(configured: &str) -> (r: String)
    ensures
        r@ == (if configured@.len() == 0 {
            "tuwunel-admin"@
        } else {
            configured@
        }),
{
    if configured.is_empty() {
        String::from_str("tuwunel-admin")
    } else {
        String::from_str(configured)
    }
}

/// The command as posted to the admin room: tuwunel requires the `!admin ` prefix.
pub open spec fn spec_admin_wire(cmd: Seq<char>) -> Seq<char> {
    if starts_with(cmd, "!admin "@) {
        cmd
    } else {
        "!admin "@ + cmd
    }
}

/// The command as posted to the admin room, with the `!admin ` prefix added when missing.
pub fn admin_wire(cmd: &str) -> (r: String)
    ensures
        r@ == spec_admin_wire(cmd@),
{
    let cs = chars_of(cmd);
    let p = chars_of("!admin ");
    if starts_with_exec(&cs, &p) {
        String::from_str(cmd)
    } else {
        cat2("!admin ", cmd)
    }
}

/// Posting a command twice through the wire format adds the prefix once.
pub proof fn lemma_admin_wire_idempotent(cmd: Seq<char>)
    ensures
        starts_with(spec_admin_wire(cmd), "!admin "@),
        spec_admin_wire(spec_admin_wire(cmd)) == spec_admin_wire(cmd),
{
    if !starts_with(cmd, "!admin "@) {
        let w = "!admin "@ + cmd;
        assert(w.subrange(0, "!admin "@.len() as int) =~= "!admin "@);
    }
}

/// The admin room alias: the configured one, or `#admins:<server>` from the
/// logged-in user's id; `None` when neither is available (no `:` in the id).
pub open spec fn spec_admin_room_alias(configured: Seq<char>, user_id: Seq<char>) -> Option<
    Seq<char>,
> {
    if configured.len() == 0 {
        match split_once(user_id, ':') {
            Some((_, server)) => Some("#admins:"@ + server),
            None => None,
        }
    } else {
        Some(configured)
    }
}

/// Derive or use the configured admin room alias.
pub fn admin_room_alias(configured: &str, user_id: &str) -> (r: Option<String>)
    ensures
        match r {
            Some(a) => spec_admin_room_alias(configured@, user_id@) == Some(a@),
            None => spec_admin_room_alias(configured@, user_id@) is None,
        },
{
    if configured.is_empty() {
        let u = chars_of(user_id);
        match split_once_exec(&u, ':') {
            Some((_, server)) => {
                let s = string_of(&server);
                Some(cat2("#admins:", s.as_str()))
            },
            None => None,
        }
    } else {
        Some(String::from_str(configured))
    }
}

// ---------------------------------------------------------------------------
// Sessions, replies, logs
// ---------------------------------------------------------------------------

#[derive(Debug, Clone)]
pub struct LoginResult {
    pub user_id: String,
    pub access_token: String,
    pub device_id: String,
}

/// Per-user session, persisted by the application's session store.
#[derive(Debug, Clone)]
pub struct Session {
    pub user_id: String,
    pub access_token: String,
    pub admin_room_id: String,
    pub homeserver: String,
}

// One admin command round-trip. `LogEntry` round-trips through the session
// store (flash messages); `BotReply` is a per-request value that never leaves
// process memory.
#[derive(Debug, Clone)]
pub struct BotReply {
    pub sender: String,
    pub body: String,
}

/// One admin command round-trip, shown in the page's console log.
#[derive(Debug, Clone)]
pub struct LogEntry {
    pub cmd: String,
    pub body: String,
    pub is_error: bool,
}

/// One timeline event of a /sync batch: its `type`, `sender` and `content.body`
/// (each empty when absent).
#[derive(Debug, Clone)]
pub struct SyncEvent {
    pub kind: String,
    pub sender: String,
    pub body: String,
}

/// An event that is a message from someone other than `own`.
pub open spec fn is_reply_event(e: SyncEvent, own: Seq<char>) -> bool {
    e.kind@ == "m.room.message"@ && e.sender@ != own
}

/// The first message in `events` from someone other than `own`, from `i` on.
pub open spec fn first_reply_from(events: Seq<SyncEvent>, own: Seq<char>, i: int) -> Option<
    (Seq<char>, Seq<char>),
>
    decreases events.len() - i,
{
    if i < 0 || i >= events.len() {
        None
    } else if is_reply_event(events[i], own) {
        Some((events[i].sender@, events[i].body@))
    } else {
        first_reply_from(events, own, i + 1)
    }
}

/// The admin bot's reply in one /sync batch: the first `m.room.message` whose
/// sender is not the logged-in user, or `None` to keep polling.
pub fn pick_reply(events: &Vec<SyncEvent>, own_user_id: &str) -> (r: Option<BotReply>)
    ensures
        match r {
            Some(b) => first_reply_from(events@, own_user_id@, 0) == Some((b.sender@, b.body@)),
            None => first_reply_from(events@, own_user_id@, 0) is None,
        },
{
    let mut i: usize = 0;
    while i < events.len()
        invariant
            i <= events@.len(),
            first_reply_from(events@, own_user_id@, i as int) == first_reply_from(
                events@,
                own_user_id@,
                0,
            ),
        decreases events.len() - i,
    {
        let e = &events[i];
        if str_eq(e.kind.as_str(), "m.room.message") && !str_eq(e.sender.as_str(), own_user_id) {
            let sender = String::from_str(e.sender.as_str());
            let body = String::from_str(e.body.as_str());
            return Some(BotReply { sender, body });
        }
        i = i + 1;
    }
    None
}

/// Detect failure replies from the admin bot.
///
/// Tuwunel wraps many benign responses (e.g. `"No rooms are banned."`) with
/// a `"Command failed with error:"` prefix and a fenced block, so the prefix
/// alone isn't reliable. We peek inside the fence and treat empty or
/// `"No ..."` payloads as success.
pub open spec fn spec_is_error_reply(body: Seq<char>) -> bool {
    let t = trim(body);
    if starts_with_ci(t, "command failed with error:"@) {
        let inner = trim(
            match spec_fenced(t) {
                Some(f) => f,
                None => seq![],
            },
        );
        !(inner.len() == 0 || starts_with_ci(inner, "no "@))
    } else {
        starts_with_ci(t, "error"@) || contains(t, "unrecognized subcommand"@)
    }
}

/// Detect failure replies from the admin bot (see [`spec_is_error_reply`]).
pub fn is_error_reply(body: &str) -> (b: bool)
    ensures
        b == spec_is_error_reply(body@),
{
    let cs = chars_of(body);
    let t = trimmed(&cs);
    let ts = string_of(&t);
    let failed = chars_of("command failed with error:");
    if starts_with_ci_exec(&t, &failed) {
        let inner_raw = match fenced(ts.as_str()) {
            Some(f) => chars_of(f),
            None => Vec::new(),
        };
        let inner = trimmed(&inner_raw);
        let no = chars_of("no ");
        return !(inner.len() == 0 || starts_with_ci_exec(&inner, &no));
    }
    let error = chars_of("error");
    let unrecognized = chars_of("unrecognized subcommand");
    starts_with_ci_exec(&t, &error) || contains_exec(&t, &unrecognized)
}

/// The console-log entry of one admin command and its reply.
pub fn log_entry(cmd: &str, reply_body: &str) -> (e: LogEntry)
    ensures
        e.cmd@ == cmd@,
        e.body@ == reply_body@,
        e.is_error == spec_is_error_reply(reply_body@),
{
    LogEntry {
        cmd: String::from_str(cmd),
        body: String::from_str(reply_body),
        is_error: is_error_reply(reply_body),
    }
}

/// Whether `user_id` is among the joined members of a room.
pub fn is_member(members: &Vec<String>, user_id: &str) -> (b: bool)
    ensures
        b == exists|i: int| 0 <= i < members@.len() && (#[trigger] members@[i])@ == user_id@,
{
    let mut i: usize = 0;
    while i < members.len()
        invariant
            i <= members@.len(),
            forall|j: int| 0 <= j < i ==> (#[trigger] members@[j])@ != user_id@,
        decreases members.len() - i,
    {
        if str_eq(members[i].as_str(), user_id) {
            return true;
        }
        i = i + 1;
    }
    false
}

// ---------------------------------------------------------------------------
// Logging in
// ---------------------------------------------------------------------------

/// The session of a password login from the fields of the homeserver's
/// answer: the user id and access token are required, the device id may be
/// missing (it is then empty).
pub fn login_result(
    user_id: Option<String>,
    access_token: Option<String>,
    device_id: Option<String>,
) -> (r: Result<LoginResult, String>)
    ensures
        match r {
            Ok(l) => user_id is Some && access_token is Some && l.user_id@ == user_id->0@
                && l.access_token@ == access_token->0@ && l.device_id@ == (match device_id {
                Some(d) => d@,
                None => Seq::<char>::empty(),
            }),
            Err(e) => if user_id is None {
                e@ == "no user_id"@
            } else {
                access_token is None && e@ == "no access_token"@
            },
        },
{
    let user_id = match user_id {
        Some(u) => u,
        None => return Err(String::from_str("no user_id")),
    };
    let access_token = match access_token {
        Some(t) => t,
        None => return Err(String::from_str("no access_token")),
    };
    let device_id = match device_id {
        Some(d) => d,
        None => String::new(),
    };
    Ok(LoginResult { user_id, access_token, device_id })
}

// ---------------------------------------------------------------------------
// One admin command round-trip
// ---------------------------------------------------------------------------

/// How long /sync waits for new events on each poll, in milliseconds.
pub const SYNC_LONGPOLL_MS: u64 = 15000;

/// How long to wait for the admin bot's reply, in seconds.
pub const REPLY_DEADLINE_SECS: u64 = 10;

/// Where an admin command round-trip stands.
#[derive(Debug, Clone)]
pub enum Phase {
    /// Take a /sync snapshot of the admin room, so that only later events count.
    Snapshot,
    /// Post the command into the admin room; polling starts from `since`.
    Send { since: String },
    /// Long-poll /sync from `cursor` for the bot's reply.
    Poll { cursor: String },
    /// The bot answered.
    Replied(BotReply),
    /// The round-trip failed, with this message.
    Failed(String),
}

/// What the application reports back after carrying out a phase.
#[derive(Debug, Clone)]
pub enum AdminEvent {
    /// A /sync came back: its `next_batch` and the admin room's timeline.
    Synced { next_batch: String, events: Vec<SyncEvent> },
    /// The command was posted, as this event.
    Sent(String),
    /// The reply deadline passed before a poll.
    TimedOut,
    /// The request failed, with this message.
    Error(String),
}

/// An admin command round-trip: the command as posted, who posted it, the
/// admin room, and the phase it is in.
#[derive(Debug, Clone)]
pub struct AdminRun {
    pub wire: String,
    pub own_user_id: String,
    pub room_id: String,
    pub phase: Phase,
}

/// The message when the bot stays silent.
pub open spec fn no_reply_message(room_id: Seq<char>, wire: Seq<char>) -> Seq<char> {
    "no reply from admin bot in 10s. Verify the admin bot is joined to "@ + room_id
        + " and that `"@ + wire + "` is a valid command."@
}

/// The events each phase can give: a snapshot syncs, a post is sent, a
/// poll syncs or times out; any of them can fail.
pub open spec fn event_fits(phase: Phase, event: AdminEvent) -> bool {
    match (phase, event) {
        (Phase::Snapshot, AdminEvent::Synced { .. }) => true,
        (Phase::Send { .. }, AdminEvent::Sent(_)) => true,
        (Phase::Poll { .. }, AdminEvent::Synced { .. }) => true,
        (Phase::Poll { .. }, AdminEvent::TimedOut) => true,
        (Phase::Snapshot, AdminEvent::Error(_)) => true,
        (Phase::Send { .. }, AdminEvent::Error(_)) => true,
        (Phase::Poll { .. }, AdminEvent::Error(_)) => true,
        _ => false,
    }
}

impl AdminRun {
    /// A round-trip for `cmd` in the session's admin room, starting with the snapshot.
    pub fn start(sess: &Session, cmd: &str) -> (r: AdminRun)
        ensures
            r.wire@ == spec_admin_wire(cmd@),
            r.own_user_id@ == sess.user_id@,
            r.room_id@ == sess.admin_room_id@,
            r.phase is Snapshot,
    {
        AdminRun {
            wire: admin_wire(cmd),
            own_user_id: String::from_str(sess.user_id.as_str()),
            room_id: String::from_str(sess.admin_room_id.as_str()),
            phase: Phase::Snapshot,
        }
    }

    /// Whether the round-trip is over.
    pub fn is_done(&self) -> (b: bool)
        ensures
            b == (self.phase is Replied || self.phase is Failed),
    {
        match self.phase {
            Phase::Replied(_) | Phase::Failed(_) => true,
            _ => false,
        }
    }

    /// The next phase once `event` came back from the current one: the
    /// snapshot's `next_batch` is where polling starts once the command is
    /// posted; a poll ends with the first message from someone else, or goes
    /// on from its `next_batch`; a failed request or the deadline ends the
    /// round-trip with its message.
    pub fn step(self, event: AdminEvent) -> (next: AdminRun)
        requires
            event_fits(self.phase, event),
        ensures
            next.wire@ == self.wire@,
            next.own_user_id@ == self.own_user_id@,
            next.room_id@ == self.room_id@,
            match (self.phase, event) {
                (Phase::Snapshot, AdminEvent::Synced { next_batch, events }) => next.phase matches Phase::Send { since } && since@ == next_batch@,
                (Phase::Snapshot, AdminEvent::Error(e)) => next.phase matches Phase::Failed(m) && m@ == "initial sync snapshot: "@ + e@,
                (Phase::Send { since }, AdminEvent::Sent(_)) => next.phase matches Phase::Poll { cursor } && cursor@ == since@,
                (Phase::Send { since }, AdminEvent::Error(e)) => next.phase matches Phase::Failed(m) && m@ == "posting command to admin room: "@ + e@,
                (Phase::Poll { cursor }, AdminEvent::Synced { next_batch, events }) =>
                    match first_reply_from(events@, self.own_user_id@, 0) {
                        Some((sender, body)) => next.phase matches Phase::Replied(r) && r.sender@ == sender && r.body@ == body,
                        None => next.phase matches Phase::Poll { cursor: c } && c@ == next_batch@,
                    },
                (Phase::Poll { cursor }, AdminEvent::Error(e)) => next.phase matches Phase::Failed(m) && m@ == "long-polling sync: "@ + e@,
                (Phase::Poll { cursor }, AdminEvent::TimedOut) => next.phase matches Phase::Failed(m) && m@ == no_reply_message(self.room_id@, self.wire@),
                _ => false,
            },
    {
        let AdminRun { wire, own_user_id, room_id, phase } = self;
        let phase = match (phase, event) {
            (Phase::Snapshot, AdminEvent::Synced { next_batch, events: _ }) => Phase::Send { since: next_batch },
            (Phase::Snapshot, AdminEvent::Error(e)) => {
                let mut m = String::from_str("initial sync snapshot: ");
                m.append(e.as_str());
                Phase::Failed(m)
            },
            (Phase::Send { since }, AdminEvent::Sent(_)) => Phase::Poll { cursor: since },
            (Phase::Send { since: _ }, AdminEvent::Error(e)) => {
                let mut m = String::from_str("posting command to admin room: ");
                m.append(e.as_str());
                Phase::Failed(m)
            },
            (Phase::Poll { cursor: _ }, AdminEvent::Synced { next_batch, events }) => {
                match pick_reply(&events, own_user_id.as_str()) {
                    Some(r) => Phase::Replied(r),
                    None => Phase::Poll { cursor: next_batch },
                }
            },
            (Phase::Poll { cursor: _ }, AdminEvent::Error(e)) => {
                let mut m = String::from_str("long-polling sync: ");
                m.append(e.as_str());
                Phase::Failed(m)
            },
            (Phase::Poll { cursor: _ }, AdminEvent::TimedOut) => {
                let mut m = String::from_str("no reply from admin bot in 10s. Verify the admin bot is joined to ");
                m.append(room_id.as_str());
                m.append(" and that `");
                m.append(wire.as_str());
                m.append("` is a valid command.");
                Phase::Failed(m)
            },
            _ => {
                proof {
                    assert(false);
                }
                Phase::Snapshot
            },
        };
        AdminRun { wire, own_user_id, room_id, phase }
    }
}

/// A round-trip only ever ends in a reply that is a message from someone
/// other than the user who posted the command.
pub proof fn lemma_reply_is_from_bot(events: Seq<SyncEvent>, own: Seq<char>, i: int)
    requires
        first_reply_from(events, own, i) is Some,
    ensures
        exists|k: int|
            i <= k < events.len() && is_reply_event(#[trigger] events[k], own) && first_reply_from(
                events,
                own,
                i,
            ) == Some((events[k].sender@, events[k].body@)),
    decreases events.len() - i,
{
    if is_reply_event(events[i], own) {
        assert(is_reply_event(events[i], own));
    } else {
        lemma_reply_is_from_bot(events, own, i + 1);
    }
}

} // verus!
