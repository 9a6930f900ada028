//! Server: `server` admin commands composed into typed rows, and the
//! dashboard's figures computed from the replies.

use vstd::prelude::*;
use vstd::string::*;

use crate::matrix::LogEntry;
use crate::parse::{
    bang_ids_of, count_users, entry_get, features_of, flags, list_appservices, list_banned_rooms,
    list_features, list_federated_rooms, list_published_rooms, map_get, memory_database_section,
    memory_fold, memory_sections, section_views, sections_wf, spec_count_users,
    spec_list_appservices, spec_list_published_rooms, spec_memory_database_section,
};
use crate::text::{
    chars_of, decimal, decimal_string, lines, lines_exec, seqs, starts_with, string_of, trim, trim_end_char, trim_start, trim_start_at, trimmed, trimmed_end_char,
};

verus! {

// ---------------------------------------------------------------------------
// Uptime, config, stats
// ---------------------------------------------------------------------------

pub open spec fn spec_clean_uptime(body: Seq<char>) -> Seq<char> {
    trim(trim_end_char(trim(body), '.'))
}

/// Strip the trailing period that tuwunel's `server uptime` reply carries.
pub fn clean_uptime(body: &str) -> (r: String)
    ensures
        r@ == spec_clean_uptime(body@),
{
    let cs = chars_of(body);
    let a = trimmed(&cs);
    let b = trimmed_end_char(&a, '.');
    let c = trimmed(&b);
    string_of(&c)
}

/// The server's configuration as shown by `server show-config`.
#[derive(Debug, Clone)]
pub struct Config {
    pub rows: Vec<(String, String)>,
    pub log: Vec<LogEntry>,
}

/// The memory, uptime and feature figures of the stats page.
#[derive(Debug, Clone)]
pub struct Stats {
    pub uptime: String,
    pub memory_sections: Vec<(String, Vec<(String, String)>)>,
    pub memory_raw: String,
    pub features: Vec<(String, bool)>,
    pub log: Vec<LogEntry>,
}

/// The text of an optional reply, or nothing.
pub open spec fn or_empty(o: Option<&str>) -> Seq<char> {
    match o {
        Some(s) => s@,
        None => Seq::<char>::empty(),
    }
}

/// The admin commands behind the stats page, in the order they run; each is
/// best-effort, and `stats` takes their replies in the same order.
pub fn stats_commands() -> (cmds: Vec<String>)
    ensures
        cmds.len() == 3,
        cmds[0]@ == "server uptime"@,
        cmds[1]@ == "server memory-usage"@,
        cmds[2]@ == "server list-features"@,
{
    let mut cmds: Vec<String> = Vec::new();
    cmds.push(String::from_str("server uptime"));
    cmds.push(String::from_str("server memory-usage"));
    cmds.push(String::from_str("server list-features"));
    cmds
}

/// The stats page from the replies to `server uptime`, `server memory-usage`
/// and `server list-features` (`None` where a command failed).
pub fn stats(
    uptime: Option<&str>,
    memory: Option<&str>,
    features: Option<&str>,
    log: Vec<LogEntry>,
) -> (s: Stats)
    ensures
        s.uptime@ == (match uptime {
            Some(u) => spec_clean_uptime(u@),
            None => Seq::<char>::empty(),
        }),
        s.memory_raw@ == or_empty(memory),
        section_views(s.memory_sections@) == memory_fold(lines(or_empty(memory))).1,
        sections_wf(section_views(s.memory_sections@)),
        flags(s.features@) == (match features {
            Some(f) => features_of(lines(f@)),
            None => Seq::<(Seq<char>, bool)>::empty(),
        }),
        s.log@ == log@,
{
    let up = match uptime {
        Some(u) => clean_uptime(u),
        None => String::new(),
    };
    let raw = match memory {
        Some(m) => String::from_str(m),
        None => String::new(),
    };
    let sections = memory_sections(raw.as_str());
    let feats = match features {
        Some(f) => match list_features(f) {
            Some(v) => v,
            None => {
                let v: Vec<(String, bool)> = Vec::new();
                assert(flags(v@) =~= features_of(lines(f@)));
                v
            },
        },
        None => {
            let v: Vec<(String, bool)> = Vec::new();
            assert(flags(v@) =~= Seq::<(Seq<char>, bool)>::empty());
            v
        },
    };
    Stats { uptime: up, memory_sections: sections, memory_raw: raw, features: feats, log }
}

// ---------------------------------------------------------------------------
// Counting rooms page by page
// ---------------------------------------------------------------------------

/// How many pages of `rooms list` the dashboard reads at most (about 100
/// rooms each), to bound its latency on large deployments.
pub const MAX_ROOM_PAGES: u32 = 20;

/// A line of a room list page that names a room.
pub open spec fn is_room_line(l: Seq<char>) -> bool {
    starts_with(trim_start(l), seq!['!'])
}

/// The number of room lines on a page.
pub open spec fn room_line_count(ls: Seq<Seq<char>>) -> nat
    decreases ls.len(),
{
    if ls.len() == 0 {
        0
    } else {
        room_line_count(ls.drop_last()) + (if is_room_line(ls.last()) {
            1nat
        } else {
            0nat
        })
    }
}

pub proof fn lemma_room_line_count_bound(ls: Seq<Seq<char>>)
    ensures
        room_line_count(ls) <= ls.len(),
    decreases ls.len(),
{
    if ls.len() > 0 {
        lemma_room_line_count_bound(ls.drop_last());
    }
}

/// The number of rooms listed in one `rooms list` reply.
pub fn count_room_lines(body: &str) -> (n: usize)
    ensures
        n == room_line_count(lines(body@)),
{
    let cs = chars_of(body);
    let ls = lines_exec(&cs);
    let mut n: usize = 0;
    let mut i: usize = 0;
    while i < ls.len()
        invariant
            i <= ls@.len(),
            n == room_line_count(seqs(ls@).take(i as int)),
            n <= i,
        decreases ls.len() - i,
    {
        let ghost all = seqs(ls@);
        assert(all.take(i + 1).drop_last() =~= all.take(i as int));
        assert(all.take(i + 1).last() == ls@[i as int]@);
        let line = &ls[i];
        let k = trim_start_at(line, 0, line.len());
        assert(line@.subrange(0, line@.len() as int) =~= line@);
        assert(line@.subrange(k as int, line@.len() as int) == trim_start(line@));
        if k < line.len() && line[k] == '!' {
            assert(trim_start(line@).subrange(0, 1) =~= seq!['!']);
            n = n + 1;
        } else {
            assert(!is_room_line(line@)) by {
                if is_room_line(line@) {
                    assert(trim_start(line@).subrange(0, 1)[0] == trim_start(line@)[0]);
                    assert(trim_start(line@)[0] == '!');
                    assert(line@[k as int] == '!');
                }
            }
        }
        i = i + 1;
    }
    assert(seqs(ls@).take(ls@.len() as int) =~= seqs(ls@));
    n
}

/// Counting rooms by paging through `rooms list <page>`: the page to ask for
/// next, the rooms counted so far, whether the page limit was reached, and
/// whether counting is over.
#[derive(Debug, Clone, Copy, PartialEq, Eq, Structural)]
pub struct RoomCount {
    pub page: u32,
    pub total: usize,
    pub capped: bool,
    pub done: bool,
}

impl RoomCount {
    /// Pages run from 1 to the limit; every page passed held at least one
    /// room; and the limit is reported as reached only once counting stopped
    /// on the last page, so with at least as many rooms as pages.
    pub open spec fn wf(self) -> bool {
        &&& 1 <= self.page <= MAX_ROOM_PAGES
        &&& self.total >= self.page - 1
        &&& self.capped ==> self.done && self.page == MAX_ROOM_PAGES
        &&& self.capped ==> self.total >= MAX_ROOM_PAGES
    }

    pub open spec fn spec_step(self, reply: Option<Seq<char>>) -> RoomCount {
        match reply {
            None => RoomCount { done: true, capped: false, ..self },
            Some(b) => {
                let n = room_line_count(lines(b));
                if n == 0 {
                    RoomCount { done: true, capped: false, ..self }
                } else if self.page == MAX_ROOM_PAGES {
                    RoomCount { total: (self.total + n) as usize, done: true, capped: true, ..self }
                } else {
                    RoomCount { total: (self.total + n) as usize, page: (self.page + 1) as u32, ..self }
                }
            },
        }
    }

    /// Nothing counted yet; the first page comes next.
    pub fn start() -> (c: RoomCount)
        ensures
            c == (RoomCount { page: 1, total: 0, capped: false, done: false }),
            c.wf(),
    {
        RoomCount { page: 1, total: 0, capped: false, done: false }
    }

    /// The command that lists the current page.
    pub fn command(&self) -> (cmd: String)
        ensures
            cmd@ == "rooms list "@ + decimal(self.page as nat),
    {
        let mut cmd = String::from_str("rooms list ");
        let n = decimal_string(self.page as usize);
        cmd.append(n.as_str());
        cmd
    }

    /// Take in the reply to the current page (`None` when the command
    /// failed): a failure or an empty page ends the count where it stands; a
    /// page with rooms adds them and moves on, up to the last page allowed.
    pub fn step(self, reply: Option<&str>) -> (next: RoomCount)
        requires
            !self.done,
            self.wf(),
            match reply {
                Some(b) => self.total + room_line_count(lines(b@)) <= usize::MAX,
                None => true,
            },
        ensures
            next == self.spec_step(
                match reply {
                    Some(b) => Some(b@),
                    None => None,
                },
            ),
            next.wf(),
            next.total >= self.total,
    {
        match reply {
            None => RoomCount { done: true, capped: false, ..self },
            Some(b) => {
                let n = count_room_lines(b);
                if n == 0 {
                    RoomCount { done: true, capped: false, ..self }
                } else if self.page == MAX_ROOM_PAGES {
                    RoomCount { total: self.total + n, done: true, capped: true, ..self }
                } else {
                    RoomCount { total: self.total + n, page: self.page + 1, ..self }
                }
            },
        }
    }
}

/// Every step keeps the count well-formed: the limit is reported as reached
/// only when counting stopped on the last page, and then at least as many
/// rooms were counted as there are pages.
pub proof fn lemma_room_count_step_wf(c: RoomCount, reply: Option<Seq<char>>)
    requires
        c.wf(),
        !c.done,
        match reply {
            Some(b) => c.total + room_line_count(lines(b)) <= usize::MAX,
            None => true,
        },
    ensures
        c.spec_step(reply).wf(),
        c.spec_step(reply).capped ==> c.page == MAX_ROOM_PAGES,
        c.spec_step(reply).capped ==> c.spec_step(reply).total >= MAX_ROOM_PAGES,
{
}

// ---------------------------------------------------------------------------
// Dashboard
// ---------------------------------------------------------------------------

/// The figures on the home page.
#[derive(Debug, Clone)]
pub struct Dashboard {
    pub uptime: String,
    pub db_mem_buffers: Option<String>,
    pub db_row_cache: Option<String>,
    pub db_table_readers: Option<String>,
    pub db_pending_write: Option<String>,
    pub user_count: usize,
    pub admin_count: usize,
    pub room_count: usize,
    pub room_count_capped: bool,
    pub local_rooms: usize,
    pub federated_rooms: usize,
    pub banned_rooms: usize,
    pub published_rooms: usize,
    pub appservices_count: usize,
    pub features_enabled: usize,
    pub features_total: usize,
}

/// What the dashboard's commands answered, `None` where one failed: the
/// replies to `server uptime`, `server memory-usage`, `users list-users`,
/// `federation incoming-federation`, `rooms moderation list-banned-rooms`,
/// `rooms directory list 1`, `appservices list` and `server list-features`;
/// the number of members of the admin room; and the finished room count.
#[derive(Debug, Clone)]
pub struct DashboardReplies {
    pub uptime: Option<String>,
    pub memory_usage: Option<String>,
    pub users: Option<String>,
    pub admin_members: Option<usize>,
    pub rooms: RoomCount,
    pub federated: Option<String>,
    pub banned: Option<String>,
    pub published: Option<String>,
    pub appservices: Option<String>,
    pub features: Option<String>,
}

/// The admin commands whose replies fill the fields of `DashboardReplies`
/// of the same names (the room count pages through `RoomCount::command`, and
/// the admin room's members come from the homeserver, not the bot).
pub struct DashboardCommands {
    pub uptime: String,
    pub memory_usage: String,
    pub users: String,
    pub federated: String,
    pub banned: String,
    pub published: String,
    pub appservices: String,
    pub features: String,
}

/// The dashboard's admin commands, one per reply field.
pub fn dashboard_commands() -> (c: DashboardCommands)
    ensures
        c.uptime@ == "server uptime"@,
        c.memory_usage@ == "server memory-usage"@,
        c.users@ == "users list-users"@,
        c.federated@ == "federation incoming-federation"@,
        c.banned@ == "rooms moderation list-banned-rooms"@,
        c.published@ == "rooms directory list 1"@,
        c.appservices@ == "appservices list"@,
        c.features@ == "server list-features"@,
{
    DashboardCommands {
        uptime: String::from_str("server uptime"),
        memory_usage: String::from_str("server memory-usage"),
        users: String::from_str("users list-users"),
        federated: String::from_str("federation incoming-federation"),
        banned: String::from_str("rooms moderation list-banned-rooms"),
        published: String::from_str("rooms directory list 1"),
        appservices: String::from_str("appservices list"),
        features: String::from_str("server list-features"),
    }
}

/// The number of enabled features.
pub open spec fn enabled_count(fs: Seq<(Seq<char>, bool)>) -> nat
    decreases fs.len(),
{
    if fs.len() == 0 {
        0
    } else {
        enabled_count(fs.drop_last()) + (if fs.last().1 {
            1nat
        } else {
            0nat
        })
    }
}

pub proof fn lemma_enabled_count_bound(fs: Seq<(Seq<char>, bool)>)
    ensures
        enabled_count(fs) <= fs.len(),
    decreases fs.len(),
{
    if fs.len() > 0 {
        lemma_enabled_count_bound(fs.drop_last());
    }
}

/// The value of a database memory figure, when the reply lists it.
pub open spec fn db_figure(memory: Option<String>, key: Seq<char>) -> Option<Seq<char>> {
    match memory {
        Some(b) => map_get(spec_memory_database_section(b@), key),
        None => None,
    }
}

pub open spec fn opt_string_view(o: Option<String>) -> Option<Seq<char>> {
    match o {
        Some(s) => Some(s@),
        None => None,
    }
}

/// The rooms that a room-id list reply names (0 when it failed).
pub open spec fn bang_count(reply: Option<String>) -> nat {
    match reply {
        Some(b) => bang_ids_of(lines(b@)).len(),
        None => 0,
    }
}

/// The features a `server list-features` reply lists (none when it failed).
pub open spec fn listed_features(reply: Option<String>) -> Seq<(Seq<char>, bool)> {
    match reply {
        Some(b) => features_of(lines(b@)),
        None => Seq::empty(),
    }
}

fn db_get(entries: &Option<Vec<(String, String)>>, key: &str) -> (r: Option<String>)
    ensures
        match entries {
            Some(e) => opt_string_view(r) == map_get(crate::parse::pairs(e@), key@),
            None => r is None,
        },
{
    match entries {
        Some(e) => entry_get(e, key),
        None => None,
    }
}

fn list_len(r: Option<Vec<String>>) -> (n: usize)
    ensures
        n == match r {
            Some(v) => v@.len(),
            None => 0,
        },
{
    match r {
        Some(v) => v.len(),
        None => 0,
    }
}

/// The dashboard's figures from the replies its commands got. Failed
/// commands count as zero (or leave the figure out); local rooms are the
/// counted rooms that do not federate, never below zero.
pub fn dashboard(r: &DashboardReplies) -> (d: Dashboard)
    ensures
        d.uptime@ == (match r.uptime {
            Some(u) => spec_clean_uptime(u@),
            None => Seq::<char>::empty(),
        }),
        opt_string_view(d.db_mem_buffers) == db_figure(r.memory_usage, "Memory buffers"@),
        opt_string_view(d.db_row_cache) == db_figure(r.memory_usage, "Row cache"@),
        opt_string_view(d.db_table_readers) == db_figure(r.memory_usage, "Table readers"@),
        opt_string_view(d.db_pending_write) == db_figure(r.memory_usage, "Pending write"@),
        d.user_count == (match r.users {
            Some(u) => spec_count_users(u@),
            None => 0,
        }),
        d.admin_count == (match r.admin_members {
            Some(n) => n,
            None => 0,
        }),
        d.room_count == r.rooms.total,
        d.room_count_capped == r.rooms.capped,
        d.federated_rooms == bang_count(r.federated),
        d.local_rooms == (if r.rooms.total >= d.federated_rooms {
            r.rooms.total - d.federated_rooms
        } else {
            0
        }),
        d.banned_rooms == bang_count(r.banned),
        d.published_rooms == (match r.published {
            Some(b) => match spec_list_published_rooms(b@) {
                Some(v) => v.len(),
                None => 0,
            },
            None => 0,
        }),
        d.appservices_count == (match r.appservices {
            Some(b) => match spec_list_appservices(b@) {
                Some(v) => v.len(),
                None => 0,
            },
            None => 0,
        }),
        d.features_total == listed_features(r.features).len(),
        d.features_enabled == enabled_count(listed_features(r.features)),
        d.features_enabled <= d.features_total,
        d.local_rooms <= d.room_count,
        d.federated_rooms <= d.room_count ==> d.local_rooms + d.federated_rooms == d.room_count,
        r.rooms.wf() ==> (d.room_count_capped ==> d.room_count >= MAX_ROOM_PAGES),
{
    let uptime = match &r.uptime {
        Some(u) => clean_uptime(u.as_str()),
        None => String::new(),
    };
    let db = match &r.memory_usage {
        Some(m) => Some(memory_database_section(m.as_str())),
        None => None,
    };
    let db_mem_buffers = db_get(&db, "Memory buffers");
    let db_row_cache = db_get(&db, "Row cache");
    let db_table_readers = db_get(&db, "Table readers");
    let db_pending_write = db_get(&db, "Pending write");
    let user_count = match &r.users {
        Some(u) => count_users(u.as_str()),
        None => 0,
    };
    let admin_count = match r.admin_members {
        Some(n) => n,
        None => 0,
    };
    let federated_rooms = match &r.federated {
        Some(b) => list_len(list_federated_rooms(b.as_str())),
        None => 0,
    };
    let local_rooms = r.rooms.total.saturating_sub(federated_rooms);
    let banned_rooms = match &r.banned {
        Some(b) => list_len(list_banned_rooms(b.as_str())),
        None => 0,
    };
    let published_rooms = match &r.published {
        Some(b) => list_len(list_published_rooms(b.as_str())),
        None => 0,
    };
    let appservices_count = match &r.appservices {
        Some(b) => list_len(list_appservices(b.as_str())),
        None => 0,
    };
    let mut features_total: usize = 0;
    let mut features_enabled: usize = 0;
    if let Some(b) = &r.features {
        if let Some(f) = list_features(b.as_str()) {
            let ghost fs = flags(f@);
            let mut i: usize = 0;
            while i < f.len()
                invariant
                    i <= f@.len(),
                    fs == flags(f@),
                    features_enabled == enabled_count(fs.take(i as int)),
                    features_enabled <= i,
                decreases f.len() - i,
            {
                assert(fs.take(i + 1).drop_last() =~= fs.take(i as int));
                if f[i].1 {
                    features_enabled = features_enabled + 1;
                }
                i = i + 1;
            }
            assert(fs.take(f@.len() as int) =~= fs);
            features_total = f.len();
        }
    }
    proof {
        lemma_enabled_count_bound(listed_features(r.features));
    }
    Dashboard {
        uptime,
        db_mem_buffers,
        db_row_cache,
        db_table_readers,
        db_pending_write,
        user_count,
        admin_count,
        room_count: r.rooms.total,
        room_count_capped: r.rooms.capped,
        local_rooms,
        federated_rooms,
        banned_rooms,
        published_rooms,
        appservices_count,
        features_enabled,
        features_total,
    }
}

} // verus!
