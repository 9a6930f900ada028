//! Rooms: admin-bot replies composed into typed rows for the room pages.

use vstd::prelude::*;
use vstd::string::*;

use crate::handlers::{markdown_html, markdown_to_html};
use crate::matrix::LogEntry;
use crate::parse::{
    alias_items_of, aliases_for_room, bang_ids_of, list_banned_rooms, list_federated_rooms,
    list_joined_members, list_published_rooms, list_rooms, members_of, opt_strs, room_views,
    rooms_of, some_if_nonempty, spec_list_published_rooms, spec_room_topic, strs, room_topic,
    RoomRowView,
};
use crate::text::{decimal, decimal_string, lines, str_eq};

verus! {

/// One room in the room list, with its moderation, federation and
/// directory status.
#[derive(Debug, Clone)]
pub struct RoomRow {
    pub room_id: String,
    pub name: String,
    pub members: u32,
    pub banned: bool,
    pub federated: bool,
    pub published: bool,
}

pub struct RoomView {
    pub room_id: Seq<char>,
    pub name: Seq<char>,
    pub members: u32,
    pub banned: bool,
    pub federated: bool,
    pub published: bool,
}

impl View for RoomRow {
    type V = RoomView;

    open spec fn view(&self) -> RoomView {
        RoomView {
            room_id: self.room_id@,
            name: self.name@,
            members: self.members,
            banned: self.banned,
            federated: self.federated,
            published: self.published,
        }
    }
}

pub open spec fn views(v: Seq<RoomRow>) -> Seq<RoomView> {
    Seq::new(v.len(), |i: int| v[i]@)
}

/// Which page of the room list to show, and which rooms to leave out.
#[derive(Debug, Clone, Copy)]
pub struct ListOpts {
    pub page: Option<u32>,
    pub exclude_banned: bool,
    pub exclude_disabled: bool,
}

impl ListOpts {
    /// The first page, nothing left out.
    pub fn new() -> (o: ListOpts)
        ensures
            o.page is None,
            !o.exclude_banned,
            !o.exclude_disabled,
    {
        ListOpts { page: None, exclude_banned: false, exclude_disabled: false }
    }

    /// `rooms list [--exclude-banned] [--exclude-disabled] <page>`, page 1 by default.
    pub open spec fn spec_command(self) -> Seq<char> {
        "rooms list"@ + (if self.exclude_banned {
            " --exclude-banned"@
        } else {
            Seq::<char>::empty()
        }) + (if self.exclude_disabled {
            " --exclude-disabled"@
        } else {
            Seq::<char>::empty()
        }) + " "@ + decimal(
            match self.page {
                Some(p) => p as nat,
                None => 1nat,
            },
        )
    }

    /// `rooms list [--exclude-banned] [--exclude-disabled] <page>`, page 1 by default.
    pub fn command(&self) -> (cmd: String)
        ensures
            cmd@ == self.spec_command(),
    {
        let mut cmd = String::from_str("rooms list");
        let ghost c0 = cmd@;
        if self.exclude_banned {
            cmd.append(" --exclude-banned");
        }
        let ghost c1 = cmd@;
        if self.exclude_disabled {
            cmd.append(" --exclude-disabled");
        }
        proof {
            reveal_strlit("");
            if !self.exclude_banned {
                assert(c1 =~= c0 + Seq::<char>::empty());
            }
            if !self.exclude_disabled {
                assert(cmd@ =~= c1 + Seq::<char>::empty());
            }
        }
        cmd.append(" ");
        let page: u32 = match self.page {
            Some(p) => p,
            None => 1,
        };
        let n = decimal_string(page as usize);
        cmd.append(n.as_str());
        cmd
    }
}

/// The `i`-th admin command behind the room list: the page itself, then the
/// banned, federated and published lists.
pub open spec fn list_command_at(opts: ListOpts, i: int) -> Seq<char> {
    if i == 0 {
        opts.spec_command()
    } else if i == 1 {
        "rooms moderation list-banned-rooms"@
    } else if i == 2 {
        "federation incoming-federation"@
    } else {
        "rooms directory list 1"@
    }
}

/// The `i`-th admin command behind the room list.
fn list_command(opts: &ListOpts, i: usize) -> (cmd: String)
    requires
        i < 4,
    ensures
        cmd@ == list_command_at(*opts, i as int),
{
    if i == 0 {
        opts.command()
    } else if i == 1 {
        String::from_str("rooms moderation list-banned-rooms")
    } else if i == 2 {
        String::from_str("federation incoming-federation")
    } else {
        String::from_str("rooms directory list 1")
    }
}

/// The admin commands behind the room list, in the order they run: the
/// page itself, then the banned, federated and published lists (see
/// `list_next` for what a failure does).
pub fn list_commands(opts: &ListOpts) -> (cmds: Vec<String>)
    ensures
        cmds.len() == 4,
        forall|i: int| 0 <= i < 4 ==> (#[trigger] cmds[i])@ == list_command_at(*opts, i),
        cmds[0]@ == opts.spec_command(),
        cmds[1]@ == "rooms moderation list-banned-rooms"@,
        cmds[2]@ == "federation incoming-federation"@,
        cmds[3]@ == "rooms directory list 1"@,
{
    let mut cmds: Vec<String> = Vec::new();
    let mut i: usize = 0;
    while i < 4
        invariant
            i <= 4,
            cmds.len() == i,
            forall|k: int| 0 <= k < i ==> (#[trigger] cmds[k])@ == list_command_at(*opts, k),
        decreases 4 - i,
    {
        cmds.push(list_command(opts, i));
        i = i + 1;
    }
    cmds
}

/// The room ids a reply lists, or none when it failed or does not parse.
pub open spec fn listed_ids(reply: Option<Seq<char>>) -> Seq<Seq<char>> {
    match reply {
        Some(b) => bang_ids_of(lines(b)),
        None => Seq::empty(),
    }
}

/// The published room ids a `rooms directory list` reply lists.
pub open spec fn published_ids(reply: Option<Seq<char>>) -> Seq<Seq<char>> {
    match reply {
        Some(b) => match spec_list_published_rooms(b) {
            Some(v) => v,
            None => Seq::empty(),
        },
        None => Seq::empty(),
    }
}

/// A listed room with its status flags.
pub open spec fn flagged(
    r: RoomRowView,
    banned: Seq<Seq<char>>,
    federated: Seq<Seq<char>>,
    published: Seq<Seq<char>>,
) -> RoomView {
    RoomView {
        room_id: r.room_id,
        name: r.name,
        members: r.members,
        banned: banned.contains(r.room_id),
        federated: federated.contains(r.room_id),
        published: published.contains(r.room_id),
    }
}

pub open spec fn opt_view(o: Option<&str>) -> Option<Seq<char>> {
    match o {
        Some(s) => Some(s@),
        None => None,
    }
}

/// The room list: the rooms of a `rooms list` reply in order, flagged as
/// banned, federated or published by the replies to `rooms moderation
/// list-banned-rooms`, `federation incoming-federation` and `rooms directory
/// list 1` (`None` where one failed).
pub open spec fn spec_list(
    list_body: Seq<char>,
    banned: Option<Seq<char>>,
    federated: Option<Seq<char>>,
    published: Option<Seq<char>>,
) -> Seq<RoomView> {
    rooms_of(lines(list_body)).map_values(
        |r: RoomRowView|
            flagged(r, listed_ids(banned), listed_ids(federated), published_ids(published)),
    )
}

fn ids_or_empty(r: Option<Vec<String>>) -> (v: Vec<String>)
    ensures
        strs(v@) == match opt_strs(r) {
            Some(s) => s,
            None => Seq::<Seq<char>>::empty(),
        },
{
    match r {
        Some(v) => v,
        None => {
            let v: Vec<String> = Vec::new();
            assert(strs(v@) =~= Seq::<Seq<char>>::empty());
            v
        },
    }
}

fn contains_str(v: &Vec<String>, s: &str) -> (b: bool)
    ensures
        b == strs(v@).contains(s@),
{
    let mut i: usize = 0;
    while i < v.len()
        invariant
            i <= v@.len(),
            forall|j: int| 0 <= j < i ==> (#[trigger] v@[j])@ != s@,
        decreases v.len() - i,
    {
        if str_eq(v[i].as_str(), s) {
            assert(strs(v@)[i as int] == s@);
            return true;
        }
        i = i + 1;
    }
    assert forall|j: int| 0 <= j < strs(v@).len() implies strs(v@)[j] != s@ by {
        assert(strs(v@)[j] == v@[j]@);
    }
    false
}

/// The room list from the replies to its commands.
pub fn list(
    list_body: &str,
    banned: Option<&str>,
    federated: Option<&str>,
    published: Option<&str>,
) -> (r: Vec<RoomRow>)
    ensures
        views(r@) == spec_list(list_body@, opt_view(banned), opt_view(federated), opt_view(published)),
{
    let banned_ids = match banned {
        Some(b) => ids_or_empty(list_banned_rooms(b)),
        None => ids_or_empty(None),
    };
    let federated_ids = match federated {
        Some(b) => ids_or_empty(list_federated_rooms(b)),
        None => ids_or_empty(None),
    };
    assert(strs(banned_ids@) =~= listed_ids(opt_view(banned)));
    assert(strs(federated_ids@) =~= listed_ids(opt_view(federated)));
    let published_ids_v = match published {
        Some(b) => ids_or_empty(list_published_rooms(b)),
        None => ids_or_empty(None),
    };
    assert(strs(published_ids_v@) =~= published_ids(opt_view(published)));
    let listed = match list_rooms(list_body) {
        Some(v) => v,
        None => Vec::new(),
    };
    let ghost src = rooms_of(lines(list_body@));
    assert(room_views(listed@) =~= src);
    let ghost target = spec_list(list_body@, opt_view(banned), opt_view(federated), opt_view(published));
    let mut out: Vec<RoomRow> = Vec::new();
    let mut i: usize = 0;
    while i < listed.len()
        invariant
            i <= listed@.len(),
            room_views(listed@) == src,
            target == src.map_values(
                |r: RoomRowView|
                    flagged(
                        r,
                        listed_ids(opt_view(banned)),
                        listed_ids(opt_view(federated)),
                        published_ids(opt_view(published)),
                    ),
            ),
            strs(banned_ids@) == listed_ids(opt_view(banned)),
            strs(federated_ids@) == listed_ids(opt_view(federated)),
            strs(published_ids_v@) == published_ids(opt_view(published)),
            out@.len() == i,
            views(out@) == target.take(i as int),
        decreases listed.len() - i,
    {
        let r = &listed[i];
        let row = RoomRow {
            room_id: String::from_str(r.room_id.as_str()),
            name: String::from_str(r.name.as_str()),
            members: r.members,
            banned: contains_str(&banned_ids, r.room_id.as_str()),
            federated: contains_str(&federated_ids, r.room_id.as_str()),
            published: contains_str(&published_ids_v, r.room_id.as_str()),
        };
        assert(src[i as int] == listed@[i as int]@);
        let ghost before = out@;
        let ghost rv = row@;
        assert(rv == target[i as int]);
        out.push(row);
        assert(out@[i as int]@ == rv);
        assert(views(out@) =~= views(before).push(rv));
        assert(views(out@) =~= target.take(i + 1));
        i = i + 1;
    }
    assert(target.take(listed@.len() as int) =~= target);
    out
}

/// What the room list does next, given the replies its commands got so far
/// (`None` where a command failed).
pub enum ListNext {
    /// Run this admin command and hand back its reply.
    Run(String),
    /// The page's own command failed: the room list fails, and nothing else runs.
    Failed,
    /// All four replies are in: the rows.
    Rows(Vec<RoomRow>),
}

pub open spec fn reply_view(r: Option<String>) -> Option<Seq<char>> {
    match r {
        Some(s) => Some(s@),
        None => None,
    }
}

fn reply_str(r: &Option<String>) -> (o: Option<&str>)
    ensures
        opt_view(o) == reply_view(*r),
{
    match r {
        Some(s) => Some(s.as_str()),
        None => None,
    }
}

/// The room list's next move. The page's command runs first and must
/// succeed; the banned, federated and published lists then run in turn,
/// each best-effort; after the fourth reply come the rows.
pub fn list_next(opts: &ListOpts, replies: &Vec<Option<String>>) -> (n: ListNext)
    requires
        replies.len() <= 4,
    ensures
        replies.len() == 0 ==> (n matches ListNext::Run(c) && c@ == opts.spec_command()),
        replies.len() > 0 && replies[0] is None ==> n is Failed,
        replies.len() > 0 && replies[0] is Some && replies.len() < 4 ==> (n matches ListNext::Run(c)
            && c@ == list_command_at(*opts, replies.len() as int)),
        replies.len() == 4 && replies[0] is Some ==> (n matches ListNext::Rows(rows) && views(rows@)
            == spec_list(
            replies[0]->Some_0@,
            reply_view(replies[1]),
            reply_view(replies[2]),
            reply_view(replies[3]),
        )),
{
    if replies.len() == 0 {
        return ListNext::Run(opts.command());
    }
    match &replies[0] {
        None => ListNext::Failed,
        Some(page) => {
            if replies.len() < 4 {
                ListNext::Run(list_command(opts, replies.len()))
            } else {
                ListNext::Rows(
                    list(
                        page.as_str(),
                        reply_str(&replies[1]),
                        reply_str(&replies[2]),
                        reply_str(&replies[3]),
                    ),
                )
            }
        },
    }
}

/// A room's detail page.
#[derive(Debug, Clone)]
pub struct RoomDetail {
    pub row: RoomRow,
    /// None if the bot reply couldn't be parsed.
    pub members: Option<Vec<String>>,
    /// Raw reply body, for markdown fallback rendering.
    pub members_raw: String,
    pub aliases: Vec<String>,
    pub topic: Option<String>,
    pub log: Vec<LogEntry>,
}

/// The command listing a room's joined members.
pub fn members_command(room_id: &str) -> (cmd: String)
    ensures
        cmd@ == "rooms info list-joined-members "@ + room_id@,
{
    let mut cmd = String::from_str("rooms info list-joined-members ");
    cmd.append(room_id);
    cmd
}

/// The command listing a room's aliases.
pub fn aliases_command(room_id: &str) -> (cmd: String)
    ensures
        cmd@ == "rooms alias list "@ + room_id@,
{
    let mut cmd = String::from_str("rooms alias list ");
    cmd.append(room_id);
    cmd
}

/// The command showing a room's topic.
pub fn topic_command(room_id: &str) -> (cmd: String)
    ensures
        cmd@ == "rooms info view-room-topic "@ + room_id@,
{
    let mut cmd = String::from_str("rooms info view-room-topic ");
    cmd.append(room_id);
    cmd
}

/// The row for `room_id`: the first listed one with that id, else a bare row.
pub open spec fn row_for(rows: Seq<RoomView>, room_id: Seq<char>) -> RoomView
    decreases rows.len(),
{
    if rows.len() == 0 {
        RoomView {
            room_id,
            name: Seq::empty(),
            members: 0,
            banned: false,
            federated: false,
            published: false,
        }
    } else if rows[0].room_id == room_id {
        rows[0]
    } else {
        row_for(rows.drop_first(), room_id)
    }
}

/// A room's detail page from the room list, the reply to `rooms info
/// list-joined-members`, and the replies to `rooms alias list` and `rooms
/// info view-room-topic` (`None` where one failed).
pub fn detail(
    rows: Vec<RoomRow>,
    room_id: &str,
    members_body: &str,
    aliases_body: Option<&str>,
    topic_body: Option<&str>,
    log: Vec<LogEntry>,
) -> (d: RoomDetail)
    ensures
        d.row@ == row_for(views(rows@), room_id@),
        opt_strs(d.members) == some_if_nonempty(members_of(lines(members_body@))),
        d.members_raw@ == members_body@,
        strs(d.aliases@) == match aliases_body {
            Some(b) => alias_items_of(lines(b@)),
            None => Seq::<Seq<char>>::empty(),
        },
        match d.topic {
            Some(t) => topic_body is Some && spec_room_topic(topic_body->0@) == Some(t@),
            None => topic_body is None || spec_room_topic(topic_body->0@) is None,
        },
        d.log@ == log@,
{
    let ghost vs = views(rows@);
    let mut rows = rows;
    let mut i: usize = 0;
    assert(vs.subrange(0, vs.len() as int) =~= vs);
    while i < rows.len() && !str_eq(rows[i].room_id.as_str(), room_id)
        invariant
            i <= rows@.len(),
            views(rows@) == vs,
            row_for(vs, room_id@) == row_for(vs.subrange(i as int, vs.len() as int), room_id@),
        decreases rows.len() - i,
    {
        assert(vs.subrange(i as int, vs.len() as int).drop_first() =~= vs.subrange(
            i + 1,
            vs.len() as int,
        ));
        i = i + 1;
    }
    let row = if i < rows.len() {
        assert(vs[i as int] == rows@[i as int]@);
        rows.remove(i)
    } else {
        RoomRow {
            room_id: String::from_str(room_id),
            name: String::new(),
            members: 0,
            banned: false,
            federated: false,
            published: false,
        }
    };
    let members = list_joined_members(members_body);
    let aliases = match aliases_body {
        Some(b) => {
            let v = ids_or_empty(aliases_for_room(b));
            assert(strs(v@) =~= alias_items_of(lines(b@)));
            v
        },
        None => {
            let v: Vec<String> = Vec::new();
            assert(strs(v@) =~= Seq::<Seq<char>>::empty());
            v
        },
    };
    let topic = match topic_body {
        Some(b) => room_topic(b),
        None => None,
    };
    RoomDetail { row, members, members_raw: String::from_str(members_body), aliases, topic, log }
}

impl RoomDetail {
    /// The member list reply rendered from markdown, for when it did not parse.
    pub fn members_html(&self) -> (html: String)
        ensures
            html@ == markdown_html(self.members_raw@),
    {
        markdown_to_html(self.members_raw.as_str())
    }
}

} // verus!
