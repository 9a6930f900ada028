//! The room pages' forms, as admin commands.

use vstd::prelude::*;
use vstd::string::*;
use vstd::utf8::encode_utf8;

use crate::handlers::{
    checkbox, checked, field_text, is_single_line, join_lines, opt_str, spec_split_lines,
    spec_with_fenced_payload, split_lines, validate_line, with_fenced_payload, Plan, Refusal,
};
use crate::rooms::ListOpts;
use crate::matrix::{percent_encode, url_encode};
use crate::parse::{alias_resolves_to, resolves_of};
use crate::text::{
    chars_of, decimal, decimal_string, find, has_char, join, lemma_find_char,
    lemma_trim_start_char_suffix, lines, trim, trim_end_at, trim_start_at, trim_start_char,
};

verus! {

/// The room list's query: the page and what to leave out.
#[derive(Debug, Clone, Default)]
pub struct ListQuery {
    pub page: Option<u32>,
    pub exclude_banned: Option<String>,
    pub exclude_disabled: Option<String>,
}

/// The alias lookup's query.
#[derive(Debug, Clone)]
pub struct AliasLookupQuery {
    pub alias: String,
}

/// The add-alias form.
#[derive(Debug, Clone)]
pub struct AliasForm {
    pub localpart: String,
    pub force: Option<String>,
}

/// The prune-empty-rooms form.
#[derive(Debug, Clone)]
pub struct PruneForm {
    pub force: Option<String>,
}

/// The ban-many form: room ids one per line.
#[derive(Debug, Clone)]
pub struct BanListForm {
    pub rooms: String,
}

/// The force-join form: user ids one per line, or all local users.
#[derive(Debug, Clone)]
pub struct ForceJoinUsersForm {
    pub mxids: Option<String>,
    pub all: Option<String>,
    pub confirm: Option<String>,
}

/// The remove-alias form.
#[derive(Debug, Clone)]
pub struct AliasRemoveForm {
    pub localpart: String,
}

/// The delete-room form.
#[derive(Debug, Clone)]
pub struct DeleteRoomForm {
    pub force: Option<String>,
}

/// The list options a room list query asks for.
pub fn list_opts(q: &ListQuery) -> (o: ListOpts)
    ensures
        o.page == q.page,
        o.exclude_banned == checked(q.exclude_banned),
        o.exclude_disabled == checked(q.exclude_disabled),
{
    ListOpts {
        page: q.page,
        exclude_banned: checkbox(opt_str(&q.exclude_banned)),
        exclude_disabled: checkbox(opt_str(&q.exclude_disabled)),
    }
}

/// `/rooms/{room_id}`, the detail page of a room.
pub open spec fn room_page(room_id: Seq<char>) -> Seq<char> {
    "/rooms/"@ + room_id
}

fn room_page_exec(room_id: &str) -> (r: String)
    ensures
        r@ == room_page(room_id@),
{
    let mut r = String::from_str("/rooms/");
    r.append(room_id);
    r
}

pub open spec fn spec_alias_localpart(raw: Seq<char>) -> Seq<char> {
    let s = trim_start_char(trim(raw), '#');
    match find(s, seq![':']) {
        Some(k) => s.subrange(0, k),
        None => s,
    }
}

/// Normalize a user-submitted alias down to its localpart: strip whitespace,
/// a leading `#`, and anything from the `:server` suffix onward.
pub fn alias_localpart(raw: &str) -> (r: &str)
    ensures
        r@ == spec_alias_localpart(raw@),
{
    let cs = chars_of(raw);
    let a = trim_start_at(&cs, 0, cs.len());
    let b = trim_end_at(&cs, a, cs.len());
    assert(cs@.subrange(0, cs@.len() as int) =~= cs@);
    assert(cs@.subrange(a as int, b as int) == trim(cs@));
    let ghost t = cs@.subrange(a as int, b as int);
    let mut k = a;
    while k < b && cs[k] == '#'
        invariant
            a <= k <= b <= cs@.len(),
            t == cs@.subrange(a as int, b as int),
            trim_start_char(cs@.subrange(k as int, b as int), '#') == trim_start_char(t, '#'),
        decreases b - k,
    {
        assert(cs@.subrange(k as int, b as int).drop_first() =~= cs@.subrange(k + 1, b as int));
        k = k + 1;
    }
    let ghost s = cs@.subrange(k as int, b as int);
    assert(s == trim_start_char(t, '#'));
    let mut e = k;
    while e < b && cs[e] != ':'
        invariant
            k <= e <= b <= cs@.len(),
            s == cs@.subrange(k as int, b as int),
            forall|j: int| k <= j < e ==> #[trigger] cs@[j] != ':',
        decreases b - e,
    {
        e = e + 1;
    }
    proof {
        lemma_find_char(s, ':');
        if e < b {
            assert(s[e - k] == ':');
            assert forall|j: int| 0 <= j < e - k implies #[trigger] s[j] != ':' by {
                assert(s[j] == cs@[k + j]);
            }
            assert(find(s, seq![':']) == Some(e - k));
            assert(s.subrange(0, e - k) =~= cs@.subrange(k as int, e as int));
        } else {
            assert forall|j: int| 0 <= j < s.len() implies #[trigger] s[j] != ':' by {
                assert(s[j] == cs@[k + j]);
            }
        }
    }
    raw.substring_char(k, e)
}

/// The localpart that an alias form yields never holds the `:server` part
/// and never starts with `#`.
pub proof fn lemma_alias_localpart_shape(raw: Seq<char>)
    ensures
        !has_char(spec_alias_localpart(raw), ':'),
        spec_alias_localpart(raw).len() > 0 ==> spec_alias_localpart(raw)[0] != '#',
{
    let s = trim_start_char(trim(raw), '#');
    lemma_trim_start_char_suffix(trim(raw), '#');
    lemma_find_char(s, ':');
    let r = spec_alias_localpart(raw);
    match find(s, seq![':']) {
        Some(k) => {
            assert forall|j: int| 0 <= j < r.len() implies r[j] != ':' by {
                assert(r[j] == s[j]);
            }
            if r.len() > 0 {
                assert(r[0] == s[0]);
            }
        },
        None => {},
    }
}

/// Looking a room up by alias: `rooms alias which <localpart>`, refused when
/// the alias has no localpart.
pub fn find_by_alias(q: &AliasLookupQuery) -> (r: Result<String, Refusal>)
    ensures
        match r {
            Ok(cmd) => spec_alias_localpart(q.alias@).len() > 0 && cmd@ == "rooms alias which "@
                + spec_alias_localpart(q.alias@),
            Err(e) => spec_alias_localpart(q.alias@).len() == 0 && e.msg@ == "Alias is required."@
                && e.to@ == "/rooms"@,
        },
{
    let lp = alias_localpart(q.alias.as_str());
    if lp.is_empty() {
        return Err(Refusal { msg: String::from_str("Alias is required."), to: String::from_str("/rooms") });
    }
    let mut cmd = String::from_str("rooms alias which ");
    cmd.append(lp);
    Ok(cmd)
}

/// Where an alias lookup leads: the room's page (its id percent-encoded) when
/// the bot names the room, else back to the list with a not-found message.
pub fn alias_lookup_target(localpart: &str, reply_body: &str) -> (r: Result<String, Refusal>)
    ensures
        match r {
            Ok(to) => match resolves_of(lines(reply_body@)) {
                Some(room_id) => to@ == "/rooms/"@ + percent_encode(encode_utf8(room_id)),
                None => false,
            },
            Err(e) => resolves_of(lines(reply_body@)) is None && e.msg@ == "Alias #"@
                + localpart@ + " not found on this server."@ && e.to@ == "/rooms"@,
        },
{
    match alias_resolves_to(reply_body) {
        Some(room_id) => {
            let mut to = String::from_str("/rooms/");
            let enc = url_encode(room_id.as_str());
            to.append(enc.as_str());
            Ok(to)
        },
        None => {
            let mut msg = String::from_str("Alias #");
            msg.append(localpart);
            msg.append(" not found on this server.");
            Err(Refusal { msg, to: String::from_str("/rooms") })
        },
    }
}

/// Delete rooms nobody is in, forcibly when the box is checked.
pub fn prune_empty(f: &PruneForm) -> (p: Plan)
    ensures
        p.cmd@ == (if checked(f.force) {
            "rooms prune-empty --force"@
        } else {
            "rooms prune-empty"@
        }),
        p.success@ == "Pruned empty rooms"@,
        p.to@ == "/rooms"@,
{
    let cmd = if checkbox(opt_str(&f.force)) {
        String::from_str("rooms prune-empty --force")
    } else {
        String::from_str("rooms prune-empty")
    };
    Plan { cmd, success: String::from_str("Pruned empty rooms"), to: String::from_str("/rooms") }
}

/// Ban every room listed one per line, as a fenced payload.
pub fn ban_list(f: &BanListForm) -> (r: Result<Plan, Refusal>)
    ensures
        match r {
            Ok(p) => {
                let ids = spec_split_lines(f.rooms@);
                &&& ids.len() > 0
                &&& p.cmd@ == spec_with_fenced_payload(
                    "rooms moderation ban-list-of-rooms"@,
                    join(ids, "\n"@),
                )
                &&& p.success@ == "Banned "@ + decimal(ids.len()) + " room(s)"@
                &&& p.to@ == "/rooms"@
            },
            Err(e) => {
                &&& spec_split_lines(f.rooms@).len() == 0
                &&& e.msg@ == "Select at least one room."@
                &&& e.to@ == "/rooms"@
            },
        },
{
    let ids = split_lines(f.rooms.as_str());
    if ids.len() == 0 {
        return Err(Refusal { msg: String::from_str("Select at least one room."), to: String::from_str("/rooms") });
    }
    let payload = join_lines(&ids);
    let cmd = with_fenced_payload("rooms moderation ban-list-of-rooms", payload.as_str());
    let mut success = String::from_str("Banned ");
    let n = decimal_string(ids.len());
    success.append(n.as_str());
    success.append(" room(s)");
    Ok(Plan { cmd, success, to: String::from_str("/rooms") })
}

/// A command on one room that returns to the room's page.
fn room_plan(room_id: &str, head: &str, success_head: &str) -> (p: Plan)
    ensures
        p.cmd@ == head@ + room_id@,
        p.success@ == success_head@ + room_id@,
        p.to@ == room_page(room_id@),
{
    let mut cmd = String::from_str(head);
    cmd.append(room_id);
    let mut success = String::from_str(success_head);
    success.append(room_id);
    Plan { cmd, success, to: room_page_exec(room_id) }
}

/// Ban a room.
pub fn ban(room_id: &str) -> (p: Plan)
    ensures
        p.cmd@ == "rooms moderation ban-room "@ + room_id@,
        p.success@ == "Banned "@ + room_id@,
        p.to@ == room_page(room_id@),
{
    room_plan(room_id, "rooms moderation ban-room ", "Banned ")
}

/// Lift the ban on a room.
pub fn unban(room_id: &str) -> (p: Plan)
    ensures
        p.cmd@ == "rooms moderation unban-room "@ + room_id@,
        p.success@ == "Unbanned "@ + room_id@,
        p.to@ == room_page(room_id@),
{
    room_plan(room_id, "rooms moderation unban-room ", "Unbanned ")
}

/// Let a room federate.
pub fn federation_enable(room_id: &str) -> (p: Plan)
    ensures
        p.cmd@ == "federation enable-room "@ + room_id@,
        p.success@ == "Enabled federation for "@ + room_id@,
        p.to@ == room_page(room_id@),
{
    room_plan(room_id, "federation enable-room ", "Enabled federation for ")
}

/// Stop a room from federating.
pub fn federation_disable(room_id: &str) -> (p: Plan)
    ensures
        p.cmd@ == "federation disable-room "@ + room_id@,
        p.success@ == "Disabled federation for "@ + room_id@,
        p.to@ == room_page(room_id@),
{
    room_plan(room_id, "federation disable-room ", "Disabled federation for ")
}

/// Publish a room in the room directory.
pub fn directory_publish(room_id: &str) -> (p: Plan)
    ensures
        p.cmd@ == "rooms directory publish "@ + room_id@,
        p.success@ == "Published "@ + room_id@ + " to directory"@,
        p.to@ == room_page(room_id@),
{
    let mut p = room_plan(room_id, "rooms directory publish ", "Published ");
    p.success.append(" to directory");
    p
}

/// Take a room out of the room directory.
pub fn directory_unpublish(room_id: &str) -> (p: Plan)
    ensures
        p.cmd@ == "rooms directory unpublish "@ + room_id@,
        p.success@ == "Unpublished "@ + room_id@,
        p.to@ == room_page(room_id@),
{
    room_plan(room_id, "rooms directory unpublish ", "Unpublished ")
}

/// The alias localpart of an alias form: refused when blank or when it spans lines.
fn alias_form<'a>(room_id: &str, localpart: &'a str) -> (r: Result<&'a str, Refusal>)
    ensures
        match r {
            Ok(lp) => lp@ == spec_alias_localpart(localpart@) && lp@.len() > 0 && is_single_line(
                lp@,
            ),
            Err(e) => e.to@ == room_page(room_id@) && if spec_alias_localpart(localpart@).len()
                == 0 {
                e.msg@ == "Alias localpart is required."@
            } else {
                !is_single_line(spec_alias_localpart(localpart@)) && e.msg@
                    == "Alias cannot contain line breaks."@
            },
        },
{
    let lp = alias_localpart(localpart);
    if lp.is_empty() {
        return Err(Refusal { msg: String::from_str("Alias localpart is required."), to: room_page_exec(room_id) });
    }
    if !validate_line(lp) {
        return Err(Refusal { msg: String::from_str("Alias cannot contain line breaks."), to: room_page_exec(room_id) });
    }
    Ok(lp)
}

/// Add an alias to a room, taking it over from another room when forced.
pub fn alias_add(room_id: &str, f: &AliasForm) -> (r: Result<Plan, Refusal>)
    ensures
        match r {
            Ok(p) => {
                let lp = spec_alias_localpart(f.localpart@);
                &&& lp.len() > 0 && is_single_line(lp)
                &&& p.cmd@ == (if checked(f.force) {
                    "rooms alias set --force "@ + room_id@ + " "@ + lp
                } else {
                    "rooms alias set "@ + room_id@ + " "@ + lp
                })
                &&& p.success@ == "Added alias #"@ + lp
                &&& p.to@ == room_page(room_id@)
            },
            Err(e) => e.to@ == room_page(room_id@) && if spec_alias_localpart(f.localpart@).len()
                == 0 {
                e.msg@ == "Alias localpart is required."@
            } else {
                !is_single_line(spec_alias_localpart(f.localpart@)) && e.msg@
                    == "Alias cannot contain line breaks."@
            },
        },
{
    let lp = alias_form(room_id, f.localpart.as_str())?;
    let mut cmd = if checkbox(opt_str(&f.force)) {
        String::from_str("rooms alias set --force ")
    } else {
        String::from_str("rooms alias set ")
    };
    cmd.append(room_id);
    cmd.append(" ");
    cmd.append(lp);
    let mut success = String::from_str("Added alias #");
    success.append(lp);
    Ok(Plan { cmd, success, to: room_page_exec(room_id) })
}

/// Remove an alias.
pub fn alias_remove(room_id: &str, f: &AliasRemoveForm) -> (r: Result<Plan, Refusal>)
    ensures
        match r {
            Ok(p) => {
                let lp = spec_alias_localpart(f.localpart@);
                &&& lp.len() > 0 && is_single_line(lp)
                &&& p.cmd@ == "rooms alias remove "@ + lp
                &&& p.success@ == "Removed alias #"@ + lp
                &&& p.to@ == room_page(room_id@)
            },
            Err(e) => e.to@ == room_page(room_id@) && if spec_alias_localpart(f.localpart@).len()
                == 0 {
                e.msg@ == "Alias localpart is required."@
            } else {
                !is_single_line(spec_alias_localpart(f.localpart@)) && e.msg@
                    == "Alias cannot contain line breaks."@
            },
        },
{
    let lp = alias_form(room_id, f.localpart.as_str())?;
    let mut cmd = String::from_str("rooms alias remove ");
    cmd.append(lp);
    let mut success = String::from_str("Removed alias #");
    success.append(lp);
    Ok(Plan { cmd, success, to: room_page_exec(room_id) })
}

/// Force local users into a room: all of them, or those listed one per line;
/// refused unless the destructive action is confirmed.
pub fn force_join_users(room_id: &str, f: &ForceJoinUsersForm) -> (r: Result<Plan, Refusal>)
    ensures
        match r {
            Ok(p) => {
                &&& checked(f.confirm)
                &&& p.to@ == room_page(room_id@)
                &&& if checked(f.all) {
                    &&& p.cmd@ == "users force-join-all-local-users --yes-i-want-to-do-this "@
                        + room_id@
                    &&& p.success@ == "Force-joined all local users to "@ + room_id@
                } else {
                    let ids = spec_split_lines(field_text(f.mxids));
                    &&& ids.len() > 0
                    &&& p.cmd@ == spec_with_fenced_payload(
                        "users force-join-list-of-local-users --yes-i-want-to-do-this "@
                            + room_id@,
                        join(ids, "\n"@),
                    )
                    &&& p.success@ == "Force-joined users to "@ + room_id@
                }
            },
            Err(e) => {
                &&& e.to@ == room_page(room_id@)
                &&& if !checked(f.confirm) {
                    e.msg@ == "You must explicitly confirm this destructive action."@
                } else {
                    &&& !checked(f.all)
                    &&& spec_split_lines(field_text(f.mxids)).len() == 0
                    &&& e.msg@ == "Provide a list of users."@
                }
            },
        },
{
    let back = room_page_exec(room_id);
    if !checkbox(opt_str(&f.confirm)) {
        return Err(Refusal {
            msg: String::from_str("You must explicitly confirm this destructive action."),
            to: back,
        });
    }
    if checkbox(opt_str(&f.all)) {
        let mut cmd = String::from_str("users force-join-all-local-users --yes-i-want-to-do-this ");
        cmd.append(room_id);
        let mut success = String::from_str("Force-joined all local users to ");
        success.append(room_id);
        return Ok(Plan { cmd, success, to: back });
    }
    let text = match opt_str(&f.mxids) {
        Some(m) => m,
        None => "",
    };
    proof {
        reveal_strlit("");
    }
    let ids = split_lines(text);
    if ids.len() == 0 {
        return Err(Refusal { msg: String::from_str("Provide a list of users."), to: back });
    }
    let mut head = String::from_str("users force-join-list-of-local-users --yes-i-want-to-do-this ");
    head.append(room_id);
    let payload = join_lines(&ids);
    let cmd = with_fenced_payload(head.as_str(), payload.as_str());
    let mut success = String::from_str("Force-joined users to ");
    success.append(room_id);
    Ok(Plan { cmd, success, to: back })
}

/// Delete a room, forcibly when the box is checked.
pub fn delete(room_id: &str, f: &DeleteRoomForm) -> (p: Plan)
    ensures
        p.cmd@ == (if checked(f.force) {
            "rooms delete "@ + room_id@ + " --force"@
        } else {
            "rooms delete "@ + room_id@
        }),
        p.success@ == "Deleted "@ + room_id@,
        p.to@ == "/rooms"@,
{
    let mut cmd = String::from_str("rooms delete ");
    cmd.append(room_id);
    if checkbox(opt_str(&f.force)) {
        cmd.append(" --force");
    }
    let mut success = String::from_str("Deleted ");
    success.append(room_id);
    Plan { cmd, success, to: String::from_str("/rooms") }
}

} // verus!
