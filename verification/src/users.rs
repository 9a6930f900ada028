//! Users: admin-bot replies composed into typed rows for the user pages.

use vstd::prelude::*;
use vstd::relations::sorted_by;
use vstd::seq_lib::group_to_multiset_ensures;
use vstd::string::*;

use crate::handlers::{markdown_html, markdown_to_html};
use crate::matrix::LogEntry;
use crate::parse::{
    device_views, joined_views, last_active, last_active_of, list_devices, list_joined_rooms,
    list_users, pairs, spec_list_devices, spec_list_joined_rooms,
    spec_list_users, strs, DeviceRow, DeviceRowView, JoinedRoom, };
use crate::text::{
    chars_of, lemma_lex_total, lemma_lex_total_ordering, lemma_lex_trans, lex_le, lex_le_exec,
    lex_order, lines, split_once, split_once_exec, str_eq, string_of, strip_prefix,
    strip_prefix_exec,
};

verus! {

// ---------------------------------------------------------------------------
// Rows
// ---------------------------------------------------------------------------

/// One user in the user list.
#[derive(Debug, Clone)]
pub struct UserRow {
    pub mxid: String,
    pub localpart: String,
    pub is_admin: bool,
    pub last_active: Option<String>,
}

pub struct UserRowView {
    pub mxid: Seq<char>,
    pub localpart: Seq<char>,
    pub is_admin: bool,
    pub last_active: Option<Seq<char>>,
}

impl View for UserRow {
    type V = UserRowView;

    open spec fn view(&self) -> UserRowView {
        UserRowView {
            mxid: self.mxid@,
            localpart: self.localpart@,
            is_admin: self.is_admin,
            last_active: match self.last_active {
                Some(s) => Some(s@),
                None => None,
            },
        }
    }
}

pub open spec fn user_views(v: Seq<UserRow>) -> Seq<UserRowView> {
    Seq::new(v.len(), |i: int| v[i]@)
}

/// The localpart of `@localpart:server`; any other text is its own localpart.
pub open spec fn spec_localpart(mxid: Seq<char>) -> Seq<char> {
    match strip_prefix(mxid, seq!['@']) {
        Some(rest) => match split_once(rest, ':') {
            Some((l, _)) => l,
            None => mxid,
        },
        None => mxid,
    }
}

/// The localpart of a user id.
pub fn localpart(mxid: &str) -> (r: String)
    ensures
        r@ == spec_localpart(mxid@),
{
    let cs = chars_of(mxid);
    assert(['@']@ =~= seq!['@']);
    match strip_prefix_exec(&cs, &['@']) {
        Some(rest) => match split_once_exec(&rest, ':') {
            Some((l, _)) => string_of(&l),
            None => String::from_str(mxid),
        },
        None => String::from_str(mxid),
    }
}

/// The value of the last entry for `key`: later entries override earlier ones.
pub open spec fn last_value(entries: Seq<(Seq<char>, Seq<char>)>, key: Seq<char>) -> Option<
    Seq<char>,
>
    decreases entries.len(),
{
    if entries.len() == 0 {
        None
    } else if entries.last().0 == key {
        Some(entries.last().1)
    } else {
        last_value(entries.drop_last(), key)
    }
}

/// The row of one user: admin when a member of the admin room, last seen as
/// the activity list says for its localpart.
pub open spec fn row_of(
    mxid: Seq<char>,
    admins: Seq<Seq<char>>,
    activity: Seq<(Seq<char>, Seq<char>)>,
) -> UserRowView {
    UserRowView {
        mxid,
        localpart: spec_localpart(mxid),
        is_admin: admins.contains(mxid),
        last_active: last_value(activity, spec_localpart(mxid)),
    }
}

/// The user ids of a `users list-users` reply (none when it does not parse).
pub open spec fn listed_users(body: Seq<char>) -> Seq<Seq<char>> {
    match spec_list_users(body) {
        Some(v) => v,
        None => Seq::empty(),
    }
}

/// The `(localpart, last active)` entries of a `users last-active` reply.
pub open spec fn activity_of(body: Option<Seq<char>>) -> Seq<(Seq<char>, Seq<char>)> {
    match body {
        Some(b) => last_active_of(lines(b)),
        None => Seq::empty(),
    }
}

/// The user list, sorted by user id.
pub open spec fn spec_list(
    users_body: Seq<char>,
    admins: Seq<Seq<char>>,
    activity_body: Option<Seq<char>>,
) -> Seq<UserRowView> {
    listed_users(users_body).sort_by(lex_order()).map_values(
        |m: Seq<char>| row_of(m, admins, activity_of(activity_body)),
    )
}

fn last_value_exec(entries: &Vec<(String, String)>, key: &str) -> (r: Option<String>)
    ensures
        match r {
            Some(v) => last_value(pairs(entries@), key@) == Some(v@),
            None => last_value(pairs(entries@), key@) is None,
        },
{
    let mut i = entries.len();
    assert(pairs(entries@).take(i as int) =~= pairs(entries@));
    while i > 0
        invariant
            i <= entries@.len(),
            last_value(pairs(entries@).take(i as int), key@) == last_value(pairs(entries@), key@),
        decreases i,
    {
        let ghost p = pairs(entries@);
        assert(p.take(i as int).drop_last() =~= p.take(i - 1));
        if str_eq(entries[i - 1].0.as_str(), key) {
            return Some(String::from_str(entries[i - 1].1.as_str()));
        }
        i = i - 1;
    }
    None
}

fn contains_str(v: &Vec<String>, s: &str) -> (b: bool)
    ensures
        b == strs(v@).contains(s@),
{
    let mut i: usize = 0;
    while i < v.len()
        invariant
            i <= v@.len(),
            forall|j: int| 0 <= j < i ==> (#[trigger] v@[j])@ != s@,
        decreases v.len() - i,
    {
        if str_eq(v[i].as_str(), s) {
            assert(strs(v@)[i as int] == s@);
            return true;
        }
        i = i + 1;
    }
    assert forall|j: int| 0 <= j < strs(v@).len() implies strs(v@)[j] != s@ by {
        assert(strs(v@)[j] == v@[j]@);
    }
    false
}

/// `v` sorted by the lexicographic order (insertion sort, stable).
fn sort_ids(v: &Vec<String>) -> (r: Vec<String>)
    ensures
        strs(r@) == strs(v@).sort_by(lex_order()),
{
    let mut out: Vec<String> = Vec::new();
    let mut i: usize = 0;
    assert(strs(out@) =~= strs(v@).take(0));
    while i < v.len()
        invariant
            i <= v@.len(),
            sorted_by(strs(out@), lex_order()),
            strs(out@).to_multiset() == strs(v@).take(i as int).to_multiset(),
        decreases v.len() - i,
    {
        let x = String::from_str(v[i].as_str());
        let xc = chars_of(x.as_str());
        let mut p: usize = 0;
        while p < out.len() && lex_le_exec(&chars_of(out[p].as_str()), &xc)
            invariant
                p <= out@.len(),
                xc@ == x@,
                forall|j: int| 0 <= j < p ==> lex_le(#[trigger] out@[j]@, x@),
            decreases out.len() - p,
        {
            p = p + 1;
        }
        let ghost old_s = strs(out@);
        proof {
            lemma_lex_total_ordering();
            assert forall|a: int, b: int|
                0 <= a < b < old_s.len() + 1 implies #[trigger] lex_order()(
                old_s.insert(p as int, x@)[a],
                old_s.insert(p as int, x@)[b],
            ) by {
                let t = old_s.insert(p as int, x@);
                if b < p {
                    assert(lex_order()(old_s[a], old_s[b]));
                } else if b == p {
                    assert(old_s[a] == out@[a]@);
                } else if a < p {
                    assert(lex_order()(old_s[a], old_s[b - 1]));
                } else if a == p {
                    assert(p < old_s.len());
                    assert(!lex_le(old_s[p as int], x@));
                    lemma_lex_total(old_s[p as int], x@);
                    if b - 1 > p {
                        assert(lex_order()(old_s[p as int], old_s[b - 1]));
                        lemma_lex_trans(x@, old_s[p as int], old_s[b - 1]);
                    }
                } else {
                    assert(lex_order()(old_s[a - 1], old_s[b - 1]));
                }
            }
        }
        out.insert(p, x);
        assert(strs(out@) =~= old_s.insert(p as int, v@[i as int]@));
        proof {
            broadcast use group_to_multiset_ensures;
            vstd::seq_lib::to_multiset_insert(old_s, p as int, v@[i as int]@);
            assert(strs(v@).take(i + 1) =~= strs(v@).take(i as int).push(v@[i as int]@));
            vstd::seq_lib::to_multiset_build(strs(v@).take(i as int), v@[i as int]@);
        }
        i = i + 1;
    }
    proof {
        lemma_lex_total_ordering();
        assert(strs(v@).take(v@.len() as int) =~= strs(v@));
        strs(v@).lemma_sort_by_ensures(lex_order());
        vstd::seq_lib::lemma_sorted_unique(strs(out@), strs(v@).sort_by(lex_order()), lex_order());
    }
    out
}

/// The user list from the replies to `users list-users` and `users
/// last-active` (`None` when that one failed) and the members of the admin
/// room, sorted by user id.
pub fn list(users_body: &str, admins: &Vec<String>, activity_body: Option<&str>) -> (r: Vec<
    UserRow,
>)
    ensures
        user_views(r@) == spec_list(
            users_body@,
            strs(admins@),
            match activity_body {
                Some(b) => Some(b@),
                None => None,
            },
        ),
{
    let ids = match list_users(users_body) {
        Some(v) => v,
        None => {
            let v: Vec<String> = Vec::new();
            assert(strs(v@) =~= Seq::<Seq<char>>::empty());
            v
        },
    };
    let activity = match activity_body {
        Some(b) => match last_active(b) {
            Some(v) => v,
            None => {
                let v: Vec<(String, String)> = Vec::new();
                assert(pairs(v@) =~= last_active_of(lines(b@)));
                v
            },
        },
        None => {
            let v: Vec<(String, String)> = Vec::new();
            assert(pairs(v@) =~= Seq::<(Seq<char>, Seq<char>)>::empty());
            v
        },
    };
    let ghost act = activity_of(
        match activity_body {
            Some(b) => Some(b@),
            None => None,
        },
    );
    assert(pairs(activity@) == act);
    let sorted = sort_ids(&ids);
    let ghost target = strs(sorted@).map_values(|m: Seq<char>| row_of(m, strs(admins@), act));
    let mut rows: Vec<UserRow> = Vec::new();
    let mut i: usize = 0;
    while i < sorted.len()
        invariant
            i <= sorted@.len(),
            pairs(activity@) == act,
            target == strs(sorted@).map_values(|m: Seq<char>| row_of(m, strs(admins@), act)),
            user_views(rows@) == target.take(i as int),
            rows@.len() == i,
        decreases sorted.len() - i,
    {
        let mxid = sorted[i].as_str();
        let lp = localpart(mxid);
        let la = last_value_exec(&activity, lp.as_str());
        let is_admin = contains_str(admins, mxid);
        let row = UserRow { mxid: String::from_str(mxid), localpart: lp, is_admin, last_active: la };
        assert(row@ == row_of(mxid@, strs(admins@), act));
        assert(strs(sorted@)[i as int] == mxid@);
        assert(target[i as int] == row_of(mxid@, strs(admins@), act));
        let ghost before = rows@;
        let ghost rv = row@;
        rows.push(row);
        assert(rows@[i as int]@ == rv);
        assert(user_views(rows@) =~= user_views(before).push(rv));
        assert(user_views(rows@) =~= target.take(i + 1));
        i = i + 1;
    }
    assert(target.take(sorted@.len() as int) =~= target);
    rows
}

// ---------------------------------------------------------------------------
// Detail
// ---------------------------------------------------------------------------

/// A user's detail page.
#[derive(Debug, Clone)]
pub struct UserDetail {
    pub row: UserRow,
    /// None if the bot reply couldn't be parsed.
    pub joined_rooms: Option<Vec<JoinedRoom>>,
    /// Raw reply body, for markdown fallback rendering.
    pub joined_rooms_raw: String,
    pub devices: Vec<DeviceRow>,
    pub log: Vec<LogEntry>,
}

/// The command listing the rooms a user joined.
pub fn joined_rooms_command(mxid: &str) -> (cmd: String)
    ensures
        cmd@ == "users list-joined-rooms "@ + mxid@,
{
    let mut cmd = String::from_str("users list-joined-rooms ");
    cmd.append(mxid);
    cmd
}

/// The command listing a user's devices.
pub fn devices_command(mxid: &str) -> (cmd: String)
    ensures
        cmd@ == "query users list-devices-metadata "@ + mxid@,
{
    let mut cmd = String::from_str("query users list-devices-metadata ");
    cmd.append(mxid);
    cmd
}

/// The row for `mxid`: the first listed one with that id, else a bare row.
pub open spec fn row_for(rows: Seq<UserRowView>, mxid: Seq<char>) -> UserRowView
    decreases rows.len(),
{
    if rows.len() == 0 {
        UserRowView { mxid, localpart: spec_localpart(mxid), is_admin: false, last_active: None }
    } else if rows[0].mxid == mxid {
        rows[0]
    } else {
        row_for(rows.drop_first(), mxid)
    }
}

/// A user's detail page from the user list, the reply to `users
/// list-joined-rooms` and the reply to `query users list-devices-metadata`
/// (`None` when that one failed).
pub fn detail(
    rows: Vec<UserRow>,
    mxid: &str,
    joined_rooms_body: &str,
    devices_body: Option<&str>,
    log: Vec<LogEntry>,
) -> (d: UserDetail)
    ensures
        d.row@ == row_for(user_views(rows@), mxid@),
        match d.joined_rooms {
            Some(v) => spec_list_joined_rooms(joined_rooms_body@) == Some(joined_views(v@)),
            None => spec_list_joined_rooms(joined_rooms_body@) is None,
        },
        d.joined_rooms_raw@ == joined_rooms_body@,
        device_views(d.devices@) == match devices_body {
            Some(b) => match spec_list_devices(b@) {
                Some(v) => v,
                None => Seq::<DeviceRowView>::empty(),
            },
            None => Seq::<DeviceRowView>::empty(),
        },
        d.log@ == log@,
{
    let ghost views = user_views(rows@);
    let mut rows = rows;
    let mut i: usize = 0;
    assert(views.subrange(0, views.len() as int) =~= views);
    while i < rows.len() && !str_eq(rows[i].mxid.as_str(), mxid)
        invariant
            i <= rows@.len(),
            user_views(rows@) == views,
            row_for(views, mxid@) == row_for(views.subrange(i as int, views.len() as int), mxid@),
        decreases rows.len() - i,
    {
        assert(views.subrange(i as int, views.len() as int).drop_first() =~= views.subrange(
            i + 1,
            views.len() as int,
        ));
        i = i + 1;
    }
    let row = if i < rows.len() {
        assert(views[i as int] == rows@[i as int]@);
        rows.remove(i)
    } else {
        UserRow {
            mxid: String::from_str(mxid),
            localpart: localpart(mxid),
            is_admin: false,
            last_active: None,
        }
    };
    let joined_rooms = list_joined_rooms(joined_rooms_body);
    let devices = match devices_body {
        Some(b) => match list_devices(b) {
            Some(v) => v,
            None => {
                let v: Vec<DeviceRow> = Vec::new();
                assert(device_views(v@) =~= Seq::<DeviceRowView>::empty());
                v
            },
        },
        None => {
            let v: Vec<DeviceRow> = Vec::new();
            assert(device_views(v@) =~= Seq::<DeviceRowView>::empty());
            v
        },
    };
    UserDetail {
        row,
        joined_rooms,
        joined_rooms_raw: String::from_str(joined_rooms_body),
        devices,
        log,
    }
}

impl UserDetail {
    /// The joined-rooms reply rendered from markdown, for when it did not parse.
    pub fn joined_rooms_html(&self) -> (html: String)
        ensures
            html@ == markdown_html(self.joined_rooms_raw@),
    {
        markdown_to_html(self.joined_rooms_raw.as_str())
    }
}

/// The user list comes sorted by user id, holds each listed user once per
/// listing, and marks as admin exactly the members of the admin room.
pub proof fn lemma_user_list_sorted(
    users_body: Seq<char>,
    admins: Seq<Seq<char>>,
    activity_body: Option<Seq<char>>,
)
    ensures
        sorted_by(
            spec_list(users_body, admins, activity_body).map_values(|r: UserRowView| r.mxid),
            lex_order(),
        ),
        spec_list(users_body, admins, activity_body).map_values(|r: UserRowView| r.mxid).to_multiset()
            == listed_users(users_body).to_multiset(),
        forall|i: int|
            0 <= i < spec_list(users_body, admins, activity_body).len() ==> (#[trigger] spec_list(
                users_body,
                admins,
                activity_body,
            )[i]).is_admin == admins.contains(spec_list(users_body, admins, activity_body)[i].mxid),
{
    let ids = listed_users(users_body);
    let sorted = ids.sort_by(lex_order());
    lemma_lex_total_ordering();
    ids.lemma_sort_by_ensures(lex_order());
    let l = spec_list(users_body, admins, activity_body);
    let m = l.map_values(|r: UserRowView| r.mxid);
    assert(m =~= sorted);
}

} // verus!
