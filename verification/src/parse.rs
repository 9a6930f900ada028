//! Best-effort parsers for tuwunel admin-bot reply bodies. On shape mismatch
//! they return `None`/empty and the caller falls back to raw markdown.

use vstd::prelude::*;
use vstd::string::*;

use vstd::utf8::encode_utf8;

use crate::text::{
    chars_of, ends_with, ends_with_exec, eq_ci, eq_ci_exec, eq_exec, parse_usize, parse_usize_exec,
    strip_suffix, strip_suffix_exec, trim_char, trimmed_char, find, find_char_exec, find_exec, first_word, first_word_exec, has_char,
    has_char_exec, is_whitespace, is_ws, lemma_find, lemma_find_char, lemma_next_char,
    lemma_next_ws, lemma_rfind, lemma_trim_end_prefix, lemma_trim_start_suffix, lines, lines_exec, split_from, words, words_from, next_char, next_ws, parse_u32, parse_u32_exec, rfind, rfind_exec, seqs,
    slice_of, split, split_exec, split_once, split_once_exec, starts_with, starts_with_ci_exec,
    starts_with_exec, string_of, strip_prefix, strip_prefix_exec, trim, trim_end_char,
    trim_end, trim_start, trim_start_at, trimmed, trimmed_end_char,
};

verus! {

/// The character sequences held by a sequence of strings.
pub open spec fn strs(v: Seq<String>) -> Seq<Seq<char>> {
    Seq::new(v.len(), |i: int| v[i]@)
}

/// The view of an optional list of strings.
pub open spec fn opt_strs(r: Option<Vec<String>>) -> Option<Seq<Seq<char>>> {
    match r {
        Some(v) => Some(strs(v@)),
        None => None,
    }
}

/// `Some(v)` when `v` is non-empty, else `None`.
pub open spec fn some_if_nonempty<T>(v: Seq<T>) -> Option<Seq<T>> {
    if v.len() > 0 {
        Some(v)
    } else {
        None
    }
}

/// The character sequences of the lines of `s`, taken as vectors.
fn lines_of(s: &str) -> (v: Vec<Vec<char>>)
    ensures
        seqs(v@) == lines(s@),
{
    let cs = chars_of(s);
    lines_exec(&cs)
}

// ---------------------------------------------------------------------------
// `users list-users`
// ---------------------------------------------------------------------------

/// A line of the user list that names an account: `@localpart:server`.
pub open spec fn user_line(l: Seq<char>) -> Option<Seq<char>> {
    let t = trim(l);
    if starts_with(t, seq!['@']) && has_char(t, ':') {
        Some(t)
    } else {
        None
    }
}

pub open spec fn users_of(ls: Seq<Seq<char>>) -> Seq<Seq<char>> {
    ls.filter_map(|l: Seq<char>| user_line(l))
}

pub open spec fn spec_list_users(body: Seq<char>) -> Option<Seq<Seq<char>>> {
    if !starts_with(trim_start(body), "Found "@) {
        None
    } else {
        some_if_nonempty(users_of(lines(body)))
    }
}

/// `users list-users`: mxids from the fenced block under the `Found N ...` header.
pub fn list_users(body: &str) -> (r: Option<Vec<String>>)
    ensures
        opt_strs(r) == spec_list_users(body@),
{
    let cs = chars_of(body);
    let k = trim_start_at(&cs, 0, cs.len());
    let head = slice_of(&cs, k, cs.len());
    assert(cs@.subrange(0, cs@.len() as int) =~= cs@);
    let found = chars_of("Found ");
    if !starts_with_exec(&head, &found) {
        return None;
    }
    let ls = lines_exec(&cs);
    let mut out: Vec<String> = Vec::new();
    let mut i: usize = 0;
    while i < ls.len()
        invariant
            i <= ls@.len(),
            strs(out@) == users_of(seqs(ls@).take(i as int)),
        decreases ls.len() - i,
    {
        let ghost all = seqs(ls@);
        assert(all.take(i + 1).drop_last() =~= all.take(i as int));
        assert(all.take(i + 1).last() == ls@[i as int]@);
        let t = trimmed(&ls[i]);
        if starts_with_exec(&t, &['@']) && has_char_exec(&t, ':') {
            assert(seq!['@'] =~= ['@']@);
            out.push(string_of(&t));
            assert(strs(out@) =~= users_of(all.take(i as int)).push(t@));
        } else {
            assert(seq!['@'] =~= ['@']@);
        }
        i = i + 1;
    }
    assert(seqs(ls@).take(ls@.len() as int) =~= seqs(ls@));
    if out.len() > 0 {
        Some(out)
    } else {
        None
    }
}

// ---------------------------------------------------------------------------
// `users last-active`
// ---------------------------------------------------------------------------

/// The views of a list of string pairs.
pub open spec fn pairs(v: Seq<(String, String)>) -> Seq<(Seq<char>, Seq<char>)> {
    Seq::new(v.len(), |i: int| (v[i].0@, v[i].1@))
}

pub open spec fn opt_pairs(r: Option<Vec<(String, String)>>) -> Option<
    Seq<(Seq<char>, Seq<char>)>,
> {
    match r {
        Some(v) => Some(pairs(v@)),
        None => None,
    }
}

/// A `YYYY-MM-DDTHH:MM:SS.mmm localpart` line as `(localpart, timestamp)`.
/// The timestamp must be at least ten bytes long with `-` as its fifth byte.
pub open spec fn last_active_line(l: Seq<char>) -> Option<(Seq<char>, Seq<char>)> {
    let t = trim(l);
    if t.len() == 0 || starts_with(t, "```"@) {
        None
    } else {
        match split_once(t, ' ') {
            None => None,
            Some((ts, rest)) => {
                let b = encode_utf8(ts);
                let lp = trim(rest);
                if b.len() < 10 || b[4] != 45u8 || lp.len() == 0 {
                    None
                } else {
                    Some((lp, ts))
                }
            },
        }
    }
}

pub open spec fn last_active_of(ls: Seq<Seq<char>>) -> Seq<(Seq<char>, Seq<char>)> {
    ls.filter_map(|l: Seq<char>| last_active_line(l))
}

/// Whether the UTF-8 encoding of `ts` is at least ten bytes long with `-` as its fifth byte.
fn looks_like_date(ts: &[char]) -> (b: bool)
    ensures
        b == (encode_utf8(ts@).len() >= 10 && encode_utf8(ts@)[4] == 45u8),
{
    let st = string_of(ts);
    let bytes = st.as_str().as_bytes();
    bytes.len() >= 10 && bytes[4] == 45u8
}

/// `users last-active`: `YYYY-MM-DDTHH:MM:SS.mmm localpart` lines.
/// Returns (localpart, timestamp) pairs.
pub fn last_active(body: &str) -> (r: Option<Vec<(String, String)>>)
    ensures
        opt_pairs(r) == some_if_nonempty(last_active_of(lines(body@))),
{
    let ls = lines_of(body);
    let fence = chars_of("```");
    let mut out: Vec<(String, String)> = Vec::new();
    let mut i: usize = 0;
    while i < ls.len()
        invariant
            i <= ls@.len(),
            fence@ == "```"@,
            pairs(out@) == last_active_of(seqs(ls@).take(i as int)),
        decreases ls.len() - i,
    {
        let ghost all = seqs(ls@);
        assert(all.take(i + 1).drop_last() =~= all.take(i as int));
        assert(all.take(i + 1).last() == ls@[i as int]@);
        let t = trimmed(&ls[i]);
        if t.len() > 0 && !starts_with_exec(&t, &fence) {
            if let Some((ts, rest)) = split_once_exec(&t, ' ') {
                let lp = trimmed(&rest);
                if looks_like_date(&ts) && lp.len() > 0 {
                    out.push((string_of(&lp), string_of(&ts)));
                    assert(pairs(out@) =~= last_active_of(all.take(i as int)).push((lp@, ts@)));
                }
            }
        }
        i = i + 1;
    }
    assert(seqs(ls@).take(ls@.len() as int) =~= seqs(ls@));
    if out.len() > 0 {
        Some(out)
    } else {
        None
    }
}

// ---------------------------------------------------------------------------
// `rooms list`
// ---------------------------------------------------------------------------

#[derive(Debug, Clone)]
pub struct RoomRow {
    pub room_id: String,
    pub name: String,
    pub members: u32,
}

pub struct RoomRowView {
    pub room_id: Seq<char>,
    pub name: Seq<char>,
    pub members: u32,
}

impl View for RoomRow {
    type V = RoomRowView;

    open spec fn view(&self) -> RoomRowView {
        RoomRowView { room_id: self.room_id@, name: self.name@, members: self.members }
    }
}

/// The member count of the last `Members:` field, or 0.
pub open spec fn members_field(parts: Seq<Seq<char>>) -> u32
    decreases parts.len(),
{
    if parts.len() == 0 {
        0
    } else {
        match strip_prefix(trim(parts.last()), "Members:"@) {
            Some(r) => match parse_u32(trim(r)) {
                Some(n) => n,
                None => 0,
            },
            None => members_field(parts.drop_last()),
        }
    }
}

/// The value of the last `Name:` field, or empty.
pub open spec fn name_field(parts: Seq<Seq<char>>) -> Seq<char>
    decreases parts.len(),
{
    if parts.len() == 0 {
        seq![]
    } else {
        let p = trim(parts.last());
        if starts_with(p, "Members:"@) {
            name_field(parts.drop_last())
        } else {
            match strip_prefix(p, "Name:"@) {
                Some(r) => trim(r),
                None => name_field(parts.drop_last()),
            }
        }
    }
}

/// A `!room_id\tMembers: N\tName: X` line; a name equal to the room id is dropped.
pub open spec fn room_line(l: Seq<char>) -> Option<RoomRowView> {
    let t = trim(l);
    if !starts_with(t, seq!['!']) {
        None
    } else {
        let parts = split(t, '\t');
        let room_id = trim(parts[0]);
        let fields = parts.drop_first();
        let name = name_field(fields);
        Some(
            RoomRowView {
                room_id,
                name: if name == room_id {
                    seq![]
                } else {
                    name
                },
                members: members_field(fields),
            },
        )
    }
}

pub open spec fn rooms_of(ls: Seq<Seq<char>>) -> Seq<RoomRowView> {
    ls.filter_map(|l: Seq<char>| room_line(l))
}

pub open spec fn room_views(v: Seq<RoomRow>) -> Seq<RoomRowView> {
    Seq::new(v.len(), |i: int| v[i]@)
}

pub proof fn lemma_split_nonempty(s: Seq<char>, c: char)
    ensures
        split(s, c).len() >= 1,
{
    lemma_next_char(s, c, 0);
}

/// `rooms list`: `!room_id\tMembers: N\tName: X` lines, fields in any order.
pub fn list_rooms(body: &str) -> (r: Option<Vec<RoomRow>>)
    ensures
        match r {
            Some(v) => some_if_nonempty(rooms_of(lines(body@))) == Some(room_views(v@)),
            None => some_if_nonempty(rooms_of(lines(body@))) is None,
        },
{
    let ls = lines_of(body);
    let members_p = chars_of("Members:");
    let name_p = chars_of("Name:");
    let mut out: Vec<RoomRow> = Vec::new();
    let mut i: usize = 0;
    while i < ls.len()
        invariant
            i <= ls@.len(),
            members_p@ == "Members:"@,
            name_p@ == "Name:"@,
            room_views(out@) == rooms_of(seqs(ls@).take(i as int)),
        decreases ls.len() - i,
    {
        let ghost all = seqs(ls@);
        assert(all.take(i + 1).drop_last() =~= all.take(i as int));
        assert(all.take(i + 1).last() == ls@[i as int]@);
        assert(seq!['!'] =~= ['!']@);
        let t = trimmed(&ls[i]);
        if starts_with_exec(&t, &['!']) {
            let parts = split_exec(&t, '\t');
            proof {
                lemma_split_nonempty(t@, '\t');
            }
            let room_id = trimmed(&parts[0]);
            let mut name: Vec<char> = Vec::new();
            let mut members: u32 = 0;
            let mut j: usize = 1;
            let ghost fields = seqs(parts@).drop_first();
            while j < parts.len()
                invariant
                    1 <= j <= parts@.len(),
                    fields == seqs(parts@).drop_first(),
                    members_p@ == "Members:"@,
                    name_p@ == "Name:"@,
                    name@ == name_field(fields.take(j - 1)),
                    members == members_field(fields.take(j - 1)),
                decreases parts.len() - j,
            {
                assert(fields.take(j as int).drop_last() =~= fields.take(j - 1));
                assert(fields.take(j as int).last() == parts@[j as int]@);
                let p = trimmed(&parts[j]);
                if let Some(rest) = strip_prefix_exec(&p, &members_p) {
                    let rt = trimmed(&rest);
                    members = match parse_u32_exec(&rt) {
                        Some(n) => n,
                        None => 0,
                    };
                } else if let Some(rest) = strip_prefix_exec(&p, &name_p) {
                    name = trimmed(&rest);
                }
                j = j + 1;
            }
            assert(fields.take(parts@.len() - 1) =~= fields);
            if eq_exec(&name, &room_id) {
                name = Vec::new();
            }
            let row = RoomRow { room_id: string_of(&room_id), name: string_of(&name), members };
            assert(seqs(parts@)[0] == parts@[0]@);
            out.push(row);
            assert(room_views(out@) =~= rooms_of(all.take(i as int)).push(row@));
        }
        i = i + 1;
    }
    assert(seqs(ls@).take(ls@.len() as int) =~= seqs(ls@));
    if out.len() > 0 {
        Some(out)
    } else {
        None
    }
}

// ---------------------------------------------------------------------------
// `rooms info list-joined-members`
// ---------------------------------------------------------------------------

/// Characters that end an mxid token in a member line.
pub open spec fn is_token_stop(c: char) -> bool {
    c == '|' || c == '<' || is_ws(c)
}

/// The first position at or after `i` holding a token stop, or the length.
pub open spec fn next_stop(s: Seq<char>, i: int) -> int
    decreases s.len() - i,
{
    if i < 0 || i >= s.len() || is_token_stop(s[i]) {
        i
    } else {
        next_stop(s, i + 1)
    }
}

/// The first `@localpart:server` token of a member line.
pub open spec fn member_line(l: Seq<char>) -> Option<Seq<char>> {
    match find(l, seq!['@']) {
        None => None,
        Some(at) => {
            let rest = l.subrange(at, l.len() as int);
            let token = trim(rest.subrange(0, next_stop(rest, 0)));
            if encode_utf8(token).len() > 2 && starts_with(token, seq!['@']) && has_char(
                token,
                ':',
            ) {
                Some(token)
            } else {
                None
            }
        },
    }
}

pub open spec fn members_of(ls: Seq<Seq<char>>) -> Seq<Seq<char>> {
    ls.filter_map(|l: Seq<char>| member_line(l))
}

/// UTF-8 length in bytes (`str::len`).
fn byte_len(v: &[char]) -> (n: usize)
    ensures
        n == encode_utf8(v@).len(),
{
    let st = string_of(v);
    st.as_str().as_bytes().len()
}

/// `rooms info list-joined-members`: pulls the first `@localpart:server`
/// token off each line, ignoring display-name suffixes and HTML wrapping.
pub fn list_joined_members(body: &str) -> (r: Option<Vec<String>>)
    ensures
        opt_strs(r) == some_if_nonempty(members_of(lines(body@))),
{
    let ls = lines_of(body);
    let mut out: Vec<String> = Vec::new();
    let mut i: usize = 0;
    while i < ls.len()
        invariant
            i <= ls@.len(),
            strs(out@) == members_of(seqs(ls@).take(i as int)),
        decreases ls.len() - i,
    {
        let ghost all = seqs(ls@);
        assert(all.take(i + 1).drop_last() =~= all.take(i as int));
        assert(all.take(i + 1).last() == ls@[i as int]@);
        assert(seq!['@'] =~= ['@']@);
        let line = &ls[i];
        if let Some(at) = find_char_exec(line, '@') {
            proof {
                lemma_find_char(line@, '@');
            }
            let rest = slice_of(line, at, line.len());
            let mut end: usize = 0;
            while end < rest.len() && !(rest[end] == '|' || rest[end] == '<' || is_whitespace(
                rest[end],
            ))
                invariant
                    end <= rest@.len(),
                    next_stop(rest@, end as int) == next_stop(rest@, 0),
                decreases rest.len() - end,
            {
                end = end + 1;
            }
            let head = slice_of(&rest, 0, end);
            let token = trimmed(&head);
            if byte_len(&token) > 2 && starts_with_exec(&token, &['@']) && has_char_exec(
                &token,
                ':',
            ) {
                out.push(string_of(&token));
                assert(strs(out@) =~= members_of(all.take(i as int)).push(token@));
            }
        }
        i = i + 1;
    }
    assert(seqs(ls@).take(ls@.len() as int) =~= seqs(ls@));
    if out.len() > 0 {
        Some(out)
    } else {
        None
    }
}

// ---------------------------------------------------------------------------
// Room id lists
// ---------------------------------------------------------------------------

/// The first word of a `!`-prefixed line.
pub open spec fn bang_line(l: Seq<char>) -> Option<Seq<char>> {
    let t = trim(l);
    if starts_with(t, seq!['!']) {
        Some(
            match first_word(t) {
                Some(w) => w,
                None => t,
            },
        )
    } else {
        None
    }
}

pub open spec fn bang_ids_of(ls: Seq<Seq<char>>) -> Seq<Seq<char>> {
    ls.filter_map(|l: Seq<char>| bang_line(l))
}

/// First whitespace-delimited token from each `!`-prefixed line.
/// Shared by `list-banned-rooms`, `incoming-federation`, etc.
fn list_bang_ids(body: &str) -> (r: Option<Vec<String>>)
    ensures
        opt_strs(r) == some_if_nonempty(bang_ids_of(lines(body@))),
{
    let ls = lines_of(body);
    let mut out: Vec<String> = Vec::new();
    let mut i: usize = 0;
    while i < ls.len()
        invariant
            i <= ls@.len(),
            strs(out@) == bang_ids_of(seqs(ls@).take(i as int)),
        decreases ls.len() - i,
    {
        let ghost all = seqs(ls@);
        assert(all.take(i + 1).drop_last() =~= all.take(i as int));
        assert(all.take(i + 1).last() == ls@[i as int]@);
        assert(seq!['!'] =~= ['!']@);
        let t = trimmed(&ls[i]);
        if starts_with_exec(&t, &['!']) {
            let id = match first_word_exec(&t) {
                Some(w) => w,
                None => t,
            };
            out.push(string_of(&id));
            assert(strs(out@) =~= bang_ids_of(all.take(i as int)).push(id@));
        }
        i = i + 1;
    }
    assert(seqs(ls@).take(ls@.len() as int) =~= seqs(ls@));
    if out.len() > 0 {
        Some(out)
    } else {
        None
    }
}

/// `federation incoming-federation`: room_ids with federation enabled.
pub fn list_federated_rooms(body: &str) -> (r: Option<Vec<String>>)
    ensures
        opt_strs(r) == some_if_nonempty(bang_ids_of(lines(body@))),
{
    list_bang_ids(body)
}

/// `rooms moderation list-banned-rooms`: banned room_ids.
pub fn list_banned_rooms(body: &str) -> (r: Option<Vec<String>>)
    ensures
        opt_strs(r) == some_if_nonempty(bang_ids_of(lines(body@))),
{
    list_bang_ids(body)
}

// ---------------------------------------------------------------------------
// Appservices
// ---------------------------------------------------------------------------

/// A list entry with its surrounding whitespace removed, unless that leaves nothing.
pub open spec fn nonempty_trimmed(p: Seq<char>) -> Option<Seq<char>> {
    let q = trim(p);
    if q.len() > 0 {
        Some(q)
    } else {
        None
    }
}

pub open spec fn spec_list_appservices(body: Seq<char>) -> Option<Seq<Seq<char>>> {
    match strip_prefix(trim(body), "Appservices"@) {
        None => None,
        Some(after) => match find(after, seq![':']) {
            None => None,
            Some(c) => {
                let list = trim(after.subrange(c + 1, after.len() as int));
                if list.len() == 0 {
                    Some(seq![])
                } else {
                    Some(split(list, ',').filter_map(|p: Seq<char>| nonempty_trimmed(p)))
                }
            },
        },
    }
}

/// `Appservices (N): id1, id2, ...`. Returns an empty Vec for N=0;
/// None only if the `Appservices` header is missing.
pub fn list_appservices(body: &str) -> (r: Option<Vec<String>>)
    ensures
        opt_strs(r) == spec_list_appservices(body@),
{
    let cs = chars_of(body);
    let t = trimmed(&cs);
    let head = chars_of("Appservices");
    let after = match strip_prefix_exec(&t, &head) {
        Some(a) => a,
        None => return None,
    };
    let colon = match find_char_exec(&after, ':') {
        Some(c) => c,
        None => return None,
    };
    proof {
        lemma_find_char(after@, ':');
    }
    assert(colon < after.len());
    let rest = slice_of(&after, colon + 1, after.len());
    let list = trimmed(&rest);
    if list.len() == 0 {
        let empty: Vec<String> = Vec::new();
        assert(strs(empty@) =~= seq![]);
        return Some(empty);
    }
    let pieces = split_exec(&list, ',');
    let mut out: Vec<String> = Vec::new();
    let mut i: usize = 0;
    while i < pieces.len()
        invariant
            i <= pieces@.len(),
            strs(out@) == seqs(pieces@).take(i as int).filter_map(
                |p: Seq<char>| nonempty_trimmed(p),
            ),
        decreases pieces.len() - i,
    {
        let ghost all = seqs(pieces@);
        assert(all.take(i + 1).drop_last() =~= all.take(i as int));
        assert(all.take(i + 1).last() == pieces@[i as int]@);
        let q = trimmed(&pieces[i]);
        if q.len() > 0 {
            out.push(string_of(&q));
            assert(strs(out@) =~= all.take(i as int).filter_map(
                |p: Seq<char>| nonempty_trimmed(p),
            ).push(q@));
        }
        i = i + 1;
    }
    assert(seqs(pieces@).take(pieces@.len() as int) =~= seqs(pieces@));
    Some(out)
}

// ---------------------------------------------------------------------------
// Fences and small replies
// ---------------------------------------------------------------------------

/// The payload of the first fenced block: the text from the line after the
/// first ``` up to the next ```.
pub open spec fn spec_fenced(s: Seq<char>) -> Option<Seq<char>> {
    match find(s, "```"@) {
        None => None,
        Some(o) => {
            let a = s.subrange(o + 3, s.len() as int);
            match find(a, seq!['\n']) {
                None => None,
                Some(n) => {
                    let b = a.subrange(n + 1, a.len() as int);
                    match find(b, "```"@) {
                        None => None,
                        Some(c) => Some(b.subrange(0, c)),
                    }
                },
            }
        },
    }
}

/// Extract the first fenced (```…```) payload from a reply body.
pub fn fenced(s: &str) -> (r: Option<&str>)
    ensures
        match r {
            Some(f) => spec_fenced(s@) == Some(f@),
            None => spec_fenced(s@) is None,
        },
{
    let cs = chars_of(s);
    let fence = chars_of("```");
    proof {
        reveal_strlit("```");
    }
    let o = match find_exec(&cs, &fence) {
        Some(o) => o,
        None => return None,
    };
    proof {
        lemma_find(cs@, fence@);
    }
    assert(fence@.len() == 3);
    assert(o + 3 <= cs.len());
    let a = slice_of(&cs, o + 3, cs.len());
    let n = match find_char_exec(&a, '\n') {
        Some(n) => n,
        None => return None,
    };
    proof {
        lemma_find_char(a@, '\n');
    }
    let b = slice_of(&a, n + 1, a.len());
    let c = match find_exec(&b, &fence) {
        Some(c) => c,
        None => return None,
    };
    proof {
        lemma_find(b@, fence@);
    }
    let start = o + 3 + n + 1;
    let f = s.substring_char(start, start + c);
    assert(f@ =~= b@.subrange(0, c as int));
    Some(f)
}

/// `appservices show-config` YAML body, i.e. the payload inside the yaml fence.
pub fn appservice_config_yaml(body: &str) -> (r: Option<String>)
    ensures
        match r {
            Some(y) => match spec_fenced(body@) {
                Some(f) => y@ == trim_end_char(f, '\n'),
                None => false,
            },
            None => spec_fenced(body@) is None,
        },
{
    match fenced(body) {
        Some(f) => {
            let cs = chars_of(f);
            let t = trimmed_end_char(&cs, '\n');
            Some(string_of(&t))
        },
        None => None,
    }
}

/// ASCII case-insensitive `str::starts_with`. Unlike `to_ascii_lowercase`,
/// this doesn't allocate a lowercased copy of the whole string.
pub fn starts_with_ci(s: &str, prefix: &str) -> (b: bool)
    ensures
        b == crate::text::starts_with_ci(s@, prefix@),
{
    let cs = chars_of(s);
    let ps = chars_of(prefix);
    starts_with_ci_exec(&cs, &ps)
}

pub open spec fn spec_bool_reply(body: Seq<char>) -> Option<bool> {
    if trim(body) == "true"@ {
        Some(true)
    } else if trim(body) == "false"@ {
        Some(false)
    } else {
        None
    }
}

/// `true` / `false` bare reply for `rooms exists`.
pub fn bool_reply(body: &str) -> (r: Option<bool>)
    ensures
        r == spec_bool_reply(body@),
{
    let cs = chars_of(body);
    let t = trimmed(&cs);
    let yes = chars_of("true");
    let no = chars_of("false");
    if eq_exec(&t, &yes) {
        Some(true)
    } else if eq_exec(&t, &no) {
        Some(false)
    } else {
        None
    }
}

// ---------------------------------------------------------------------------
// Bullets, tokens
// ---------------------------------------------------------------------------

/// A markdown bullet line without its `- ` or `* ` marker.
pub open spec fn bullet(line: Seq<char>) -> Option<Seq<char>> {
    match strip_prefix(line, "- "@) {
        Some(r) => Some(r),
        None => strip_prefix(line, "* "@),
    }
}

/// Strip `- ` or `* ` off a markdown bullet line.
fn bullet_exec(line: &[char]) -> (r: Option<Vec<char>>)
    ensures
        match r {
            Some(v) => bullet(line@) == Some(v@),
            None => bullet(line@) is None,
        },
{
    let dash = chars_of("- ");
    match strip_prefix_exec(line, &dash) {
        Some(r) => Some(r),
        None => {
            let star = chars_of("* ");
            strip_prefix_exec(line, &star)
        },
    }
}

#[derive(Debug, Clone)]
pub struct TokenRow {
    pub token: String,
    pub uses_allowed: Option<u32>,
    pub pending: u32,
    pub completed: u32,
    pub expiration: Option<String>,
}

pub struct TokenRowView {
    pub token: Seq<char>,
    pub uses_allowed: Option<u32>,
    pub pending: u32,
    pub completed: u32,
    pub expiration: Option<Seq<char>>,
}

impl View for TokenRow {
    type V = TokenRowView;

    open spec fn view(&self) -> TokenRowView {
        TokenRowView {
            token: self.token@,
            uses_allowed: self.uses_allowed,
            pending: self.pending,
            completed: self.completed,
            expiration: match self.expiration {
                Some(e) => Some(e@),
                None => None,
            },
        }
    }
}

/// The number between the first `before` and the next `after`.
pub open spec fn spec_extract_u32(h: Seq<char>, before: Seq<char>, after: Seq<char>) -> Option<
    u32,
> {
    match find(h, before) {
        None => None,
        Some(k) => {
            let rest = h.subrange(k + before.len(), h.len() as int);
            match find(rest, after) {
                None => None,
                Some(e) => parse_u32(trim(rest.subrange(0, e))),
            }
        },
    }
}

/// Parse a u32 from the slice between the first `before` and the next `after`.
fn extract_u32(haystack: &[char], before: &[char], after: &[char]) -> (r: Option<u32>)
    ensures
        r == spec_extract_u32(haystack@, before@, after@),
{
    let k = match find_exec(haystack, before) {
        Some(k) => k,
        None => return None,
    };
    proof {
        lemma_find(haystack@, before@);
    }
    assert(k + before.len() <= haystack.len());
    let rest = slice_of(haystack, k + before.len(), haystack.len());
    let e = match find_exec(&rest, after) {
        Some(e) => e,
        None => return None,
    };
    proof {
        lemma_find(rest@, after@);
    }
    assert(e <= rest.len());
    let head = slice_of(&rest, 0, e);
    let t = trimmed(&head);
    parse_u32_exec(&t)
}

/// The text in the last `(...)` of a token line, when `(` comes before `)`.
pub open spec fn expiration_of(tail: Seq<char>) -> Option<Seq<char>> {
    match (rfind(tail, seq!['(']), rfind(tail, seq![')'])) {
        (Some(a), Some(b)) => if a < b {
            Some(trim(tail.subrange(a + 1, b)))
        } else {
            None
        },
        _ => None,
    }
}

/// One ``- `TOKEN` --- ...`` bullet of the token list.
pub open spec fn token_line(l: Seq<char>) -> Option<TokenRowView> {
    match bullet(trim(l)) {
        None => None,
        Some(b) => match strip_prefix(b, seq!['`']) {
            None => None,
            Some(rest) => match find(rest, seq!['`']) {
                None => None,
                Some(end) => {
                    let token = trim(rest.subrange(0, end));
                    let tail = rest.subrange(end + 1, rest.len() as int);
                    if token.len() == 0 {
                        None
                    } else {
                        Some(
                            TokenRowView {
                                token,
                                uses_allowed: spec_extract_u32(tail, "after "@, " use"@),
                                pending: 0,
                                completed: match spec_extract_u32(tail, "used "@, " time"@) {
                                    Some(n) => n,
                                    None => 0,
                                },
                                expiration: expiration_of(tail),
                            },
                        )
                    }
                },
            },
        },
    }
}

pub open spec fn tokens_of(ls: Seq<Seq<char>>) -> Seq<TokenRowView> {
    ls.filter_map(|l: Seq<char>| token_line(l))
}

pub open spec fn token_views(v: Seq<TokenRow>) -> Seq<TokenRowView> {
    Seq::new(v.len(), |i: int| v[i]@)
}

/// The token row of one line, if it is a token bullet.
fn token_row(line: &[char]) -> (r: Option<TokenRow>)
    ensures
        match r {
            Some(row) => token_line(line@) == Some(row@),
            None => token_line(line@) is None,
        },
{
    let t = trimmed(line);
    let b = match bullet_exec(&t) {
        Some(b) => b,
        None => return None,
    };
    assert(seq!['`'] =~= ['`']@);
    let rest = match strip_prefix_exec(&b, &['`']) {
        Some(r) => r,
        None => return None,
    };
    let end = match find_char_exec(&rest, '`') {
        Some(e) => e,
        None => return None,
    };
    proof {
        lemma_find_char(rest@, '`');
    }
    assert(end < rest.len());
    let head = slice_of(&rest, 0, end);
    let token = trimmed(&head);
    if token.len() == 0 {
        return None;
    }
    let tail = slice_of(&rest, end + 1, rest.len());
    let used = chars_of("used ");
    let time = chars_of(" time");
    let after = chars_of("after ");
    let use_ = chars_of(" use");
    let completed = match extract_u32(&tail, &used, &time) {
        Some(n) => n,
        None => 0,
    };
    let uses_allowed = extract_u32(&tail, &after, &use_);
    assert(seq!['('] =~= ['(']@);
    assert(seq![')'] =~= [')']@);
    let expiration = match (rfind_exec(&tail, &['(']), rfind_exec(&tail, &[')'])) {
        (Some(a), Some(b)) => if a < b {
            proof {
                lemma_rfind(tail@, seq![')']);
            }
            assert(b < tail.len());
            let inner = slice_of(&tail, a + 1, b);
            let e = trimmed(&inner);
            Some(string_of(&e))
        } else {
            None
        },
        _ => None,
    };
    let row = TokenRow {
        token: string_of(&token),
        uses_allowed,
        pending: 0,
        completed,
        expiration,
    };
    Some(row)
}

/// `token list`: one bullet per token:
///   ``- `TOKEN` --- Token used N times. Expires after M uses or in X days (YYYY-MM-DD HH:MM:SS).``
/// Expiration wording varies (`after M uses`, `in X days (TS)`, `Does not expire`);
/// missing pieces become None.
pub fn list_tokens(body: &str) -> (r: Option<Vec<TokenRow>>)
    ensures
        match r {
            Some(v) => some_if_nonempty(tokens_of(lines(body@))) == Some(token_views(v@)),
            None => some_if_nonempty(tokens_of(lines(body@))) is None,
        },
{
    let ls = lines_of(body);
    let mut out: Vec<TokenRow> = Vec::new();
    let mut i: usize = 0;
    while i < ls.len()
        invariant
            i <= ls@.len(),
            token_views(out@) == tokens_of(seqs(ls@).take(i as int)),
        decreases ls.len() - i,
    {
        let ghost all = seqs(ls@);
        assert(all.take(i + 1).drop_last() =~= all.take(i as int));
        assert(all.take(i + 1).last() == ls@[i as int]@);
        if let Some(row) = token_row(&ls[i]) {
            out.push(row);
            assert(token_views(out@) =~= tokens_of(all.take(i as int)).push(row@));
        }
        i = i + 1;
    }
    assert(seqs(ls@).take(ls@.len() as int) =~= seqs(ls@));
    if out.len() > 0 {
        Some(out)
    } else {
        None
    }
}

// ---------------------------------------------------------------------------
// `media get-file-info`
// ---------------------------------------------------------------------------

/// A `key: value` line; keys holding a space are kept only up to 40 bytes.
pub open spec fn kv_line(l: Seq<char>) -> Option<(Seq<char>, Seq<char>)> {
    let t = trim(l);
    if t.len() == 0 || starts_with(t, "```"@) {
        None
    } else {
        match split_once(t, ':') {
            None => None,
            Some((k0, v0)) => {
                let k = trim(k0);
                let v = trim(v0);
                if k.len() == 0 || v.len() == 0 || (has_char(k, ' ') && encode_utf8(k).len()
                    > 40) {
                    None
                } else {
                    Some((k, v))
                }
            },
        }
    }
}

pub open spec fn kv_of(ls: Seq<Seq<char>>) -> Seq<(Seq<char>, Seq<char>)> {
    ls.filter_map(|l: Seq<char>| kv_line(l))
}

pub open spec fn spec_media_file_info(body: Seq<char>) -> Option<Seq<(Seq<char>, Seq<char>)>> {
    let inner = match spec_fenced(body) {
        Some(f) => f,
        None => body,
    };
    some_if_nonempty(kv_of(lines(inner)))
}

/// `media get-file-info`: `key: value` pairs from a fenced or plain body.
pub fn media_file_info(body: &str) -> (r: Option<Vec<(String, String)>>)
    ensures
        opt_pairs(r) == spec_media_file_info(body@),
{
    let inner = match fenced(body) {
        Some(f) => f,
        None => body,
    };
    let ls = lines_of(inner);
    let fence = chars_of("```");
    let mut out: Vec<(String, String)> = Vec::new();
    let mut i: usize = 0;
    while i < ls.len()
        invariant
            i <= ls@.len(),
            fence@ == "```"@,
            pairs(out@) == kv_of(seqs(ls@).take(i as int)),
        decreases ls.len() - i,
    {
        let ghost all = seqs(ls@);
        assert(all.take(i + 1).drop_last() =~= all.take(i as int));
        assert(all.take(i + 1).last() == ls@[i as int]@);
        let t = trimmed(&ls[i]);
        if t.len() > 0 && !starts_with_exec(&t, &fence) {
            if let Some((k0, v0)) = split_once_exec(&t, ':') {
                let k = trimmed(&k0);
                let v = trimmed(&v0);
                if !(k.len() == 0 || v.len() == 0 || (has_char_exec(&k, ' ') && byte_len(&k)
                    > 40)) {
                    out.push((string_of(&k), string_of(&v)));
                    assert(pairs(out@) =~= kv_of(all.take(i as int)).push((k@, v@)));
                }
            }
        }
        i = i + 1;
    }
    assert(seqs(ls@).take(ls@.len() as int) =~= seqs(ls@));
    if out.len() > 0 {
        Some(out)
    } else {
        None
    }
}

// ---------------------------------------------------------------------------
// Aliases, topics, directory
// ---------------------------------------------------------------------------

/// A ``- `!room` -> #alias`` bullet as `(room, alias)`.
pub open spec fn alias_line(l: Seq<char>) -> Option<(Seq<char>, Seq<char>)> {
    match bullet(trim(l)) {
        None => None,
        Some(b) => match strip_prefix(b, seq!['`']) {
            None => None,
            Some(rest) => match find(rest, seq!['`']) {
                None => None,
                Some(close) => {
                    let room_id = trim(rest.subrange(0, close));
                    let tail = rest.subrange(close + 1, rest.len() as int);
                    match find(tail, "->"@) {
                        None => None,
                        Some(arrow) => {
                            let alias = trim(tail.subrange(arrow + 2, tail.len() as int));
                            if room_id.len() > 0 && alias.len() > 0 {
                                Some((room_id, alias))
                            } else {
                                None
                            }
                        },
                    }
                },
            },
        },
    }
}

pub open spec fn aliases_of(ls: Seq<Seq<char>>) -> Seq<(Seq<char>, Seq<char>)> {
    ls.filter_map(|l: Seq<char>| alias_line(l))
}

fn alias_pair(line: &[char]) -> (r: Option<(Vec<char>, Vec<char>)>)
    ensures
        match r {
            Some((a, b)) => alias_line(line@) == Some((a@, b@)),
            None => alias_line(line@) is None,
        },
{
    let t = trimmed(line);
    let b = match bullet_exec(&t) {
        Some(b) => b,
        None => return None,
    };
    assert(seq!['`'] =~= ['`']@);
    let rest = match strip_prefix_exec(&b, &['`']) {
        Some(r) => r,
        None => return None,
    };
    let close = match find_char_exec(&rest, '`') {
        Some(c) => c,
        None => return None,
    };
    proof {
        lemma_find_char(rest@, '`');
    }
    assert(close < rest.len());
    let head = slice_of(&rest, 0, close);
    let room_id = trimmed(&head);
    let tail = slice_of(&rest, close + 1, rest.len());
    let arrow_p = chars_of("->");
    proof {
        reveal_strlit("->");
    }
    let arrow = match find_exec(&tail, &arrow_p) {
        Some(a) => a,
        None => return None,
    };
    proof {
        lemma_find(tail@, arrow_p@);
    }
    assert(arrow + 2 <= tail.len());
    let after = slice_of(&tail, arrow + 2, tail.len());
    let alias = trimmed(&after);
    if room_id.len() > 0 && alias.len() > 0 {
        Some((room_id, alias))
    } else {
        None
    }
}

/// `rooms alias list`: bullets of ``- `!room` -> #alias``. Returns (room, alias) pairs.
pub fn list_aliases(body: &str) -> (r: Option<Vec<(String, String)>>)
    ensures
        opt_pairs(r) == some_if_nonempty(aliases_of(lines(body@))),
{
    let ls = lines_of(body);
    let mut out: Vec<(String, String)> = Vec::new();
    let mut i: usize = 0;
    while i < ls.len()
        invariant
            i <= ls@.len(),
            pairs(out@) == aliases_of(seqs(ls@).take(i as int)),
        decreases ls.len() - i,
    {
        let ghost all = seqs(ls@);
        assert(all.take(i + 1).drop_last() =~= all.take(i as int));
        assert(all.take(i + 1).last() == ls@[i as int]@);
        if let Some((room_id, alias)) = alias_pair(&ls[i]) {
            out.push((string_of(&room_id), string_of(&alias)));
            assert(pairs(out@) =~= aliases_of(all.take(i as int)).push((room_id@, alias@)));
        }
        i = i + 1;
    }
    assert(seqs(ls@).take(ls@.len() as int) =~= seqs(ls@));
    if out.len() > 0 {
        Some(out)
    } else {
        None
    }
}

/// A `- #alias:server` bullet (backticks allowed around the alias).
pub open spec fn alias_item(l: Seq<char>) -> Option<Seq<char>> {
    match bullet(trim(l)) {
        None => None,
        Some(b) => {
            let a = trim_char(trim(b), '`');
            if starts_with(a, seq!['#']) && has_char(a, ':') {
                Some(a)
            } else {
                None
            }
        },
    }
}

pub open spec fn alias_items_of(ls: Seq<Seq<char>>) -> Seq<Seq<char>> {
    ls.filter_map(|l: Seq<char>| alias_item(l))
}

/// `rooms alias list <ROOM_ID>` body:
/// ```text
/// Aliases for !roomid:server:
/// - #alias:server
/// - #alias2:server
/// ```
/// Returns the list of aliases (strings).
pub fn aliases_for_room(body: &str) -> (r: Option<Vec<String>>)
    ensures
        opt_strs(r) == some_if_nonempty(alias_items_of(lines(body@))),
{
    let ls = lines_of(body);
    let mut out: Vec<String> = Vec::new();
    let mut i: usize = 0;
    while i < ls.len()
        invariant
            i <= ls@.len(),
            strs(out@) == alias_items_of(seqs(ls@).take(i as int)),
        decreases ls.len() - i,
    {
        let ghost all = seqs(ls@);
        assert(all.take(i + 1).drop_last() =~= all.take(i as int));
        assert(all.take(i + 1).last() == ls@[i as int]@);
        assert(seq!['#'] =~= ['#']@);
        let t = trimmed(&ls[i]);
        if let Some(b) = bullet_exec(&t) {
            let bt = trimmed(&b);
            let a = trimmed_char(&bt, '`');
            if starts_with_exec(&a, &['#']) && has_char_exec(&a, ':') {
                out.push(string_of(&a));
                assert(strs(out@) =~= alias_items_of(all.take(i as int)).push(a@));
            }
        }
        i = i + 1;
    }
    assert(seqs(ls@).take(ls@.len() as int) =~= seqs(ls@));
    if out.len() > 0 {
        Some(out)
    } else {
        None
    }
}

/// The room id named by the first `Alias resolves to ...` line.
pub open spec fn resolves_of(ls: Seq<Seq<char>>) -> Option<Seq<char>>
    decreases ls.len(),
{
    if ls.len() == 0 {
        None
    } else {
        match strip_prefix(trim(ls[0]), "Alias resolves to "@) {
            Some(r) => Some(trim(r)),
            None => resolves_of(ls.drop_first()),
        }
    }
}

/// `Alias resolves to !roomid:server` → `!roomid:server`.
pub fn alias_resolves_to(body: &str) -> (r: Option<String>)
    ensures
        match r {
            Some(v) => resolves_of(lines(body@)) == Some(v@),
            None => resolves_of(lines(body@)) is None,
        },
{
    let ls = lines_of(body);
    let p = chars_of("Alias resolves to ");
    let mut i: usize = 0;
    assert(seqs(ls@).skip(0) =~= seqs(ls@));
    while i < ls.len()
        invariant
            i <= ls@.len(),
            p@ == "Alias resolves to "@,
            seqs(ls@) == lines(body@),
            resolves_of(seqs(ls@).skip(i as int)) == resolves_of(seqs(ls@)),
        decreases ls.len() - i,
    {
        let ghost all = seqs(ls@);
        assert(all.skip(i as int)[0] == ls@[i as int]@);
        assert(all.skip(i as int).drop_first() =~= all.skip(i + 1));
        let t = trimmed(&ls[i]);
        if let Some(r) = strip_prefix_exec(&t, &p) {
            let v = trimmed(&r);
            return Some(string_of(&v));
        }
        i = i + 1;
    }
    assert(seqs(ls@).skip(ls@.len() as int) =~= seq![]);
    None
}

pub open spec fn spec_room_topic(body: Seq<char>) -> Option<Seq<char>> {
    if eq_ci(trim(body), "no topic"@) {
        None
    } else {
        match spec_fenced(body) {
            None => None,
            Some(f) => some_if_nonempty(trim(f)),
        }
    }
}

/// Topic text from `rooms info view-room-topic`, or None for "no topic".
pub fn room_topic(body: &str) -> (r: Option<String>)
    ensures
        match r {
            Some(t) => spec_room_topic(body@) == Some(t@),
            None => spec_room_topic(body@) is None,
        },
{
    let cs = chars_of(body);
    let t = trimmed(&cs);
    let no_topic = chars_of("no topic");
    if eq_ci_exec(&t, &no_topic) {
        return None;
    }
    let f = match fenced(body) {
        Some(f) => f,
        None => return None,
    };
    let fc = chars_of(f);
    let ft = trimmed(&fc);
    if ft.len() > 0 {
        Some(string_of(&ft))
    } else {
        None
    }
}

/// A published room id line, bulleted or not, backticks allowed.
pub open spec fn published_line(l: Seq<char>) -> Option<Seq<char>> {
    let t = trim(l);
    let r = trim_char(
        trim(
            match bullet(t) {
                Some(b) => b,
                None => t,
            },
        ),
        '`',
    );
    if starts_with(r, seq!['!']) && has_char(r, ':') {
        Some(r)
    } else {
        None
    }
}

pub open spec fn published_of(ls: Seq<Seq<char>>) -> Seq<Seq<char>> {
    ls.filter_map(|l: Seq<char>| published_line(l))
}

pub open spec fn spec_list_published_rooms(body: Seq<char>) -> Option<Seq<Seq<char>>> {
    if crate::text::starts_with_ci(trim(body), "no rooms"@) {
        Some(seq![])
    } else {
        some_if_nonempty(published_of(lines(body)))
    }
}

/// `rooms directory list`: bullet list of published room IDs.
pub fn list_published_rooms(body: &str) -> (r: Option<Vec<String>>)
    ensures
        opt_strs(r) == spec_list_published_rooms(body@),
{
    let cs = chars_of(body);
    let t = trimmed(&cs);
    let no_rooms = chars_of("no rooms");
    if starts_with_ci_exec(&t, &no_rooms) {
        let empty: Vec<String> = Vec::new();
        assert(strs(empty@) =~= seq![]);
        return Some(empty);
    }
    let ls = lines_exec(&cs);
    let mut out: Vec<String> = Vec::new();
    let mut i: usize = 0;
    while i < ls.len()
        invariant
            i <= ls@.len(),
            strs(out@) == published_of(seqs(ls@).take(i as int)),
        decreases ls.len() - i,
    {
        let ghost all = seqs(ls@);
        assert(all.take(i + 1).drop_last() =~= all.take(i as int));
        assert(all.take(i + 1).last() == ls@[i as int]@);
        assert(seq!['!'] =~= ['!']@);
        let line = trimmed(&ls[i]);
        let b = match bullet_exec(&line) {
            Some(b) => b,
            None => slice_of(&line, 0, line.len()),
        };
        assert(line@.subrange(0, line@.len() as int) =~= line@);
        let bt = trimmed(&b);
        let r = trimmed_char(&bt, '`');
        if starts_with_exec(&r, &['!']) && has_char_exec(&r, ':') {
            out.push(string_of(&r));
            assert(strs(out@) =~= published_of(all.take(i as int)).push(r@));
        }
        i = i + 1;
    }
    assert(seqs(ls@).take(ls@.len() as int) =~= seqs(ls@));
    if out.len() > 0 {
        Some(out)
    } else {
        None
    }
}

// ---------------------------------------------------------------------------
// Features, debug arrays, joined rooms
// ---------------------------------------------------------------------------

/// A `✅ name ...` / `❌ name ...` line as `(name, enabled)`.
pub open spec fn feature_line(l: Seq<char>) -> Option<(Seq<char>, bool)> {
    let t = trim(l);
    let marked = match strip_prefix(t, "✅"@) {
        Some(r) => Some((true, r)),
        None => match strip_prefix(t, "❌"@) {
            Some(r) => Some((false, r)),
            None => None,
        },
    };
    match marked {
        None => None,
        Some((enabled, rest)) => match first_word(rest) {
            Some(name) => Some((name, enabled)),
            None => None,
        },
    }
}

pub open spec fn features_of(ls: Seq<Seq<char>>) -> Seq<(Seq<char>, bool)> {
    ls.filter_map(|l: Seq<char>| feature_line(l))
}

pub open spec fn flags(v: Seq<(String, bool)>) -> Seq<(Seq<char>, bool)> {
    Seq::new(v.len(), |i: int| (v[i].0@, v[i].1))
}

/// `server list-features` output lines like `✅ foo [enabled]` / `❌ foo [disabled]`.
pub fn list_features(body: &str) -> (r: Option<Vec<(String, bool)>>)
    ensures
        match r {
            Some(v) => some_if_nonempty(features_of(lines(body@))) == Some(flags(v@)),
            None => some_if_nonempty(features_of(lines(body@))) is None,
        },
{
    let ls = lines_of(body);
    let on = chars_of("✅");
    let off = chars_of("❌");
    let mut out: Vec<(String, bool)> = Vec::new();
    let mut i: usize = 0;
    while i < ls.len()
        invariant
            i <= ls@.len(),
            on@ == "✅"@,
            off@ == "❌"@,
            flags(out@) == features_of(seqs(ls@).take(i as int)),
        decreases ls.len() - i,
    {
        let ghost all = seqs(ls@);
        assert(all.take(i + 1).drop_last() =~= all.take(i as int));
        assert(all.take(i + 1).last() == ls@[i as int]@);
        let t = trimmed(&ls[i]);
        let marked = match strip_prefix_exec(&t, &on) {
            Some(r) => Some((true, r)),
            None => match strip_prefix_exec(&t, &off) {
                Some(r) => Some((false, r)),
                None => None,
            },
        };
        if let Some((enabled, rest)) = marked {
            if let Some(name) = first_word_exec(&rest) {
                out.push((string_of(&name), enabled));
                assert(flags(out@) =~= features_of(all.take(i as int)).push((name@, enabled)));
            }
        }
        i = i + 1;
    }
    assert(seqs(ls@).take(ls@.len() as int) =~= seqs(ls@));
    if out.len() > 0 {
        Some(out)
    } else {
        None
    }
}

/// A `"string",` line of a Rust-Debug array, unquoted.
pub open spec fn quoted_line(l: Seq<char>) -> Option<Seq<char>> {
    let t = trim(trim_end_char(trim(l), ','));
    match strip_prefix(t, seq!['"']) {
        Some(r) => strip_suffix(r, seq!['"']),
        None => None,
    }
}

pub open spec fn quoted_of(ls: Seq<Seq<char>>) -> Seq<Seq<char>> {
    ls.filter_map(|l: Seq<char>| quoted_line(l))
}

pub open spec fn spec_debug_string_array(body: Seq<char>) -> Option<Seq<Seq<char>>> {
    match spec_fenced(body) {
        None => None,
        Some(f) => some_if_nonempty(quoted_of(lines(f))),
    }
}

/// Rust-Debug `["a", "b", ...]` inside a ```rs fence. Used by
/// `query users get-shared-rooms`, `query users list-devices`, etc.
pub fn debug_string_array(body: &str) -> (r: Option<Vec<String>>)
    ensures
        opt_strs(r) == spec_debug_string_array(body@),
{
    let f = match fenced(body) {
        Some(f) => f,
        None => return None,
    };
    let ls = lines_of(f);
    let mut out: Vec<String> = Vec::new();
    let mut i: usize = 0;
    while i < ls.len()
        invariant
            i <= ls@.len(),
            strs(out@) == quoted_of(seqs(ls@).take(i as int)),
        decreases ls.len() - i,
    {
        let ghost all = seqs(ls@);
        assert(all.take(i + 1).drop_last() =~= all.take(i as int));
        assert(all.take(i + 1).last() == ls@[i as int]@);
        assert(seq!['"'] =~= ['"']@);
        let a = trimmed(&ls[i]);
        let b = trimmed_end_char(&a, ',');
        let t = trimmed(&b);
        if let Some(r) = strip_prefix_exec(&t, &['"']) {
            if let Some(inner) = strip_suffix_exec(&r, &['"']) {
                out.push(string_of(&inner));
                assert(strs(out@) =~= quoted_of(all.take(i as int)).push(inner@));
            }
        }
        i = i + 1;
    }
    assert(seqs(ls@).take(ls@.len() as int) =~= seqs(ls@));
    if out.len() > 0 {
        Some(out)
    } else {
        None
    }
}

#[derive(Debug, Clone)]
pub struct JoinedRoom {
    pub room_id: String,
    pub members: u32,
    pub name: String,
}

pub struct JoinedRoomView {
    pub room_id: Seq<char>,
    pub members: u32,
    pub name: Seq<char>,
}

impl View for JoinedRoom {
    type V = JoinedRoomView;

    open spec fn view(&self) -> JoinedRoomView {
        JoinedRoomView { room_id: self.room_id@, members: self.members, name: self.name@ }
    }
}

/// A `!room\tMembers: N\tName: X` line with at least three fields.
pub open spec fn joined_room_line(l: Seq<char>) -> Option<JoinedRoomView> {
    let t = trim(l);
    if !starts_with(t, seq!['!']) {
        None
    } else {
        let parts = split(t, '\t');
        if parts.len() < 3 {
            None
        } else {
            let m = match strip_prefix(trim(parts[1]), "Members:"@) {
                Some(r) => r,
                None => "0"@,
            };
            let n = match strip_prefix(trim(parts[2]), "Name:"@) {
                Some(r) => r,
                None => seq![],
            };
            Some(
                JoinedRoomView {
                    room_id: trim(parts[0]),
                    members: match parse_u32(trim(m)) {
                        Some(v) => v,
                        None => 0,
                    },
                    name: trim(n),
                },
            )
        }
    }
}

pub open spec fn joined_rooms_of(ls: Seq<Seq<char>>) -> Seq<JoinedRoomView> {
    ls.filter_map(|l: Seq<char>| joined_room_line(l))
}

pub open spec fn joined_views(v: Seq<JoinedRoom>) -> Seq<JoinedRoomView> {
    Seq::new(v.len(), |i: int| v[i]@)
}

pub open spec fn spec_list_joined_rooms(body: Seq<char>) -> Option<Seq<JoinedRoomView>> {
    if !starts_with(trim_start(body), "Rooms "@) {
        None
    } else {
        some_if_nonempty(joined_rooms_of(lines(body)))
    }
}

fn joined_room(line: &[char]) -> (r: Option<JoinedRoom>)
    ensures
        match r {
            Some(row) => joined_room_line(line@) == Some(row@),
            None => joined_room_line(line@) is None,
        },
{
    assert(seq!['!'] =~= ['!']@);
    let t = trimmed(line);
    if !starts_with_exec(&t, &['!']) {
        return None;
    }
    let parts = split_exec(&t, '\t');
    if parts.len() < 3 {
        return None;
    }
    assert(seqs(parts@)[0] == parts@[0]@);
    assert(seqs(parts@)[1] == parts@[1]@);
    assert(seqs(parts@)[2] == parts@[2]@);
    let members_p = chars_of("Members:");
    let name_p = chars_of("Name:");
    let p1 = trimmed(&parts[1]);
    let m = match strip_prefix_exec(&p1, &members_p) {
        Some(r) => r,
        None => chars_of("0"),
    };
    let p2 = trimmed(&parts[2]);
    let n = match strip_prefix_exec(&p2, &name_p) {
        Some(r) => r,
        None => Vec::new(),
    };
    assert(n@ == (match strip_prefix(trim(seqs(parts@)[2]), "Name:"@) {
        Some(r) => r,
        None => seq![],
    }));
    let mt = trimmed(&m);
    let members = match parse_u32_exec(&mt) {
        Some(v) => v,
        None => 0,
    };
    let room_id = trimmed(&parts[0]);
    let name = trimmed(&n);
    Some(JoinedRoom { room_id: string_of(&room_id), members, name: string_of(&name) })
}

/// `users list-joined-rooms`: `!room\tMembers: N\tName: X` lines under the
/// `Rooms @mxid Joined (N):` header.
pub fn list_joined_rooms(body: &str) -> (r: Option<Vec<JoinedRoom>>)
    ensures
        match r {
            Some(v) => spec_list_joined_rooms(body@) == Some(joined_views(v@)),
            None => spec_list_joined_rooms(body@) is None,
        },
{
    let cs = chars_of(body);
    let k = trim_start_at(&cs, 0, cs.len());
    let head = slice_of(&cs, k, cs.len());
    assert(cs@.subrange(0, cs@.len() as int) =~= cs@);
    let rooms = chars_of("Rooms ");
    if !starts_with_exec(&head, &rooms) {
        return None;
    }
    let ls = lines_exec(&cs);
    let mut out: Vec<JoinedRoom> = Vec::new();
    let mut i: usize = 0;
    while i < ls.len()
        invariant
            i <= ls@.len(),
            joined_views(out@) == joined_rooms_of(seqs(ls@).take(i as int)),
        decreases ls.len() - i,
    {
        let ghost all = seqs(ls@);
        assert(all.take(i + 1).drop_last() =~= all.take(i as int));
        assert(all.take(i + 1).last() == ls@[i as int]@);
        if let Some(row) = joined_room(&ls[i]) {
            out.push(row);
            assert(joined_views(out@) =~= joined_rooms_of(all.take(i as int)).push(row@));
        }
        i = i + 1;
    }
    assert(seqs(ls@).take(ls@.len() as int) =~= seqs(ls@));
    if out.len() > 0 {
        Some(out)
    } else {
        None
    }
}

// ---------------------------------------------------------------------------
// User counts, config table
// ---------------------------------------------------------------------------

/// The `N` of the first `Found N ...` line whose first word parses.
pub open spec fn found_count(ls: Seq<Seq<char>>) -> Option<usize>
    decreases ls.len(),
{
    if ls.len() == 0 {
        None
    } else {
        let here = match strip_prefix(trim(ls[0]), "Found "@) {
            Some(rest) => match first_word(rest) {
                Some(num) => parse_usize(num),
                None => None,
            },
            None => None,
        };
        match here {
            Some(n) => Some(n),
            None => found_count(ls.drop_first()),
        }
    }
}

pub open spec fn spec_count_users(body: Seq<char>) -> int {
    match found_count(lines(body)) {
        Some(n) => n as int,
        None => users_of(lines(body)).len() as int,
    }
}

/// Extract `N` from the `Found N local user account(s):` header, or count mxids.
pub fn count_users(body: &str) -> (n: usize)
    ensures
        n as int == spec_count_users(body@),
{
    let ls = lines_of(body);
    let found = chars_of("Found ");
    let mut i: usize = 0;
    assert(seqs(ls@).skip(0) =~= seqs(ls@));
    while i < ls.len()
        invariant
            i <= ls@.len(),
            found@ == "Found "@,
            seqs(ls@) == lines(body@),
            found_count(seqs(ls@).skip(i as int)) == found_count(seqs(ls@)),
        decreases ls.len() - i,
    {
        let ghost all = seqs(ls@);
        assert(all.skip(i as int)[0] == ls@[i as int]@);
        assert(all.skip(i as int).drop_first() =~= all.skip(i + 1));
        let t = trimmed(&ls[i]);
        if let Some(rest) = strip_prefix_exec(&t, &found) {
            if let Some(num) = first_word_exec(&rest) {
                if let Some(n) = parse_usize_exec(&num) {
                    return n;
                }
            }
        }
        i = i + 1;
    }
    assert(seqs(ls@).skip(ls@.len() as int) =~= seq![]);
    let mut count: usize = 0;
    let mut j: usize = 0;
    while j < ls.len()
        invariant
            j <= ls@.len(),
            found_count(seqs(ls@)) is None,
            count as int == users_of(seqs(ls@).take(j as int)).len(),
            count <= j,
        decreases ls.len() - j,
    {
        let ghost all = seqs(ls@);
        assert(all.take(j + 1).drop_last() =~= all.take(j as int));
        assert(all.take(j + 1).last() == ls@[j as int]@);
        assert(seq!['@'] =~= ['@']@);
        let t = trimmed(&ls[j]);
        if starts_with_exec(&t, &['@']) && has_char_exec(&t, ':') {
            count = count + 1;
        }
        j = j + 1;
    }
    assert(seqs(ls@).take(ls@.len() as int) =~= seqs(ls@));
    count
}

/// Whether every character of `s` is `:`, `-` or a space (a table alignment cell).
pub open spec fn is_rule_cell(s: Seq<char>) -> bool {
    forall|i: int| 0 <= i < s.len() ==> (#[trigger] s[i] == ':' || s[i] == '-' || s[i] == ' ')
}

/// A `| name | value |` row; header and alignment rows are skipped.
pub open spec fn table_row(l: Seq<char>) -> Option<(Seq<char>, Seq<char>)> {
    let t = trim(l);
    if !starts_with(t, seq!['|']) || !ends_with(t, seq!['|']) {
        None
    } else {
        let cells = split(t.subrange(1, t.len() - 1), '|');
        if cells.len() < 2 {
            None
        } else {
            let name = trim(cells[0]);
            let value = trim(cells[1]);
            if name.len() == 0 || eq_ci(name, "name"@) || is_rule_cell(name) {
                None
            } else {
                Some((name, value))
            }
        }
    }
}

pub open spec fn table_of(ls: Seq<Seq<char>>) -> Seq<(Seq<char>, Seq<char>)> {
    ls.filter_map(|l: Seq<char>| table_row(l))
}

/// No line of `body` is a lone `|` (such a line has no cells between its bars).
pub open spec fn no_lone_bar_line(body: Seq<char>) -> bool {
    forall|i: int| 0 <= i < lines(body).len() ==> trim(#[trigger] lines(body)[i]) != seq!['|']
}

/// Whether some line of `body` is a lone `|`, which `config_table` cannot take.
pub fn has_lone_bar_line(body: &str) -> (b: bool)
    ensures
        b == !no_lone_bar_line(body@),
{
    let ls = lines_of(body);
    let mut i: usize = 0;
    while i < ls.len()
        invariant
            i <= ls@.len(),
            seqs(ls@) == lines(body@),
            forall|j: int| 0 <= j < i ==> trim(#[trigger] lines(body@)[j]) != seq!['|'],
        decreases ls.len() - i,
    {
        let t = trimmed(&ls[i]);
        assert(seqs(ls@)[i as int] == ls@[i as int]@);
        if t.len() == 1 && t[0] == '|' {
            assert(t@ =~= seq!['|']);
            return true;
        }
        assert(t@ != seq!['|']) by {
            if t@ == seq!['|'] {
                assert(t@[0] == '|');
            }
        }
        i = i + 1;
    }
    false
}

/// `server show-config`: rows of a `| name | value |` markdown table.
/// Values are returned verbatim (may contain markdown).
pub fn config_table(body: &str) -> (r: Vec<(String, String)>)
    requires
        no_lone_bar_line(body@),
    ensures
        pairs(r@) == table_of(lines(body@)),
{
    let ls = lines_of(body);
    let name_p = chars_of("name");
    let mut out: Vec<(String, String)> = Vec::new();
    let mut i: usize = 0;
    while i < ls.len()
        invariant
            i <= ls@.len(),
            name_p@ == "name"@,
            seqs(ls@) == lines(body@),
            no_lone_bar_line(body@),
            pairs(out@) == table_of(seqs(ls@).take(i as int)),
        decreases ls.len() - i,
    {
        let ghost all = seqs(ls@);
        assert(all.take(i + 1).drop_last() =~= all.take(i as int));
        assert(all.take(i + 1).last() == ls@[i as int]@);
        assert(seq!['|'] =~= ['|']@);
        assert(all[i as int] == ls@[i as int]@);
        let t = trimmed(&ls[i]);
        if starts_with_exec(&t, &['|']) && ends_with_exec(&t, &['|']) {
            assert(t@ != seq!['|']);
            assert(t.len() >= 2) by {
                if t@.len() == 1 {
                    assert(t@ =~= seq!['|']);
                }
            }
            let inner = slice_of(&t, 1, t.len() - 1);
            let cells = split_exec(&inner, '|');
            if cells.len() >= 2 {
                assert(seqs(cells@)[0] == cells@[0]@);
                assert(seqs(cells@)[1] == cells@[1]@);
                let name = trimmed(&cells[0]);
                let value = trimmed(&cells[1]);
                let mut rule = true;
                let mut k: usize = 0;
                while k < name.len()
                    invariant
                        k <= name@.len(),
                        rule == (forall|j: int|
                            0 <= j < k ==> (#[trigger] name@[j] == ':' || name@[j] == '-'
                                || name@[j] == ' ')),
                    decreases name.len() - k,
                {
                    let c = name[k];
                    if !(c == ':' || c == '-' || c == ' ') {
                        rule = false;
                    }
                    k = k + 1;
                }
                if !(name.len() == 0 || eq_ci_exec(&name, &name_p) || rule) {
                    out.push((string_of(&name), string_of(&value)));
                    assert(pairs(out@) =~= table_of(all.take(i as int)).push((name@, value@)));
                }
            }
        }
        i = i + 1;
    }
    assert(seqs(ls@).take(ls@.len() as int) =~= seqs(ls@));
    out
}

// ---------------------------------------------------------------------------
// `server memory-usage`
// ---------------------------------------------------------------------------

/// A memory report section: its label and its `key: value` rows.
pub type SectionView = (Seq<char>, Seq<(Seq<char>, Seq<char>)>);

/// The first section at or after `j` labelled `name`.
pub open spec fn section_index_from(out: Seq<SectionView>, name: Seq<char>, j: int) -> Option<
    int,
>
    decreases out.len() - j,
{
    if j < 0 || j >= out.len() {
        None
    } else if out[j].0 == name {
        Some(j)
    } else {
        section_index_from(out, name, j + 1)
    }
}

/// Appends a row to the section labelled `name`, opening the section if needed.
pub open spec fn add_row(out: Seq<SectionView>, name: Seq<char>, kv: (Seq<char>, Seq<char>)) -> Seq<
    SectionView,
> {
    match section_index_from(out, name, 0) {
        Some(j) => out.update(j, (name, out[j].1.push(kv))),
        None => out.push((name, seq![kv])),
    }
}

/// The section label of a bare `label:` line.
pub open spec fn section_label(line: Seq<char>) -> Option<Seq<char>> {
    match strip_suffix(line, seq![':']) {
        Some(label) => if label.len() > 0 && !has_char(label, ':') {
            Some(trim(label))
        } else {
            None
        },
        None => None,
    }
}

/// One line of the memory report applied to (current section, sections so far).
pub open spec fn memory_step(st: (Seq<char>, Seq<SectionView>), raw: Seq<char>) -> (
    Seq<char>,
    Seq<SectionView>,
) {
    let line = trim(raw);
    if line.len() == 0 || starts_with(line, "```"@) {
        st
    } else {
        match section_label(line) {
            Some(label) => (label, st.1),
            None => match split_once(line, ':') {
                None => st,
                Some((k0, v0)) => {
                    let k = trim(k0);
                    let v = trim(v0);
                    if k.len() == 0 || v.len() == 0 {
                        st
                    } else {
                        (st.0, add_row(st.1, st.0, (k, v)))
                    }
                },
            },
        }
    }
}

pub open spec fn memory_fold(ls: Seq<Seq<char>>) -> (Seq<char>, Seq<SectionView>)
    decreases ls.len(),
{
    if ls.len() == 0 {
        ("General"@, seq![])
    } else {
        memory_step(memory_fold(ls.drop_last()), ls.last())
    }
}

pub open spec fn section_views(v: Seq<(String, Vec<(String, String)>)>) -> Seq<SectionView> {
    Seq::new(v.len(), |i: int| (v[i].0@, pairs(v[i].1@)))
}

/// Every section holds at least one row, and no two sections share a label.
pub open spec fn sections_wf(out: Seq<SectionView>) -> bool {
    &&& forall|i: int| 0 <= i < out.len() ==> (#[trigger] out[i]).1.len() > 0
    &&& forall|i: int, j: int|
        0 <= i < j < out.len() ==> (#[trigger] out[i]).0 != (#[trigger] out[j]).0
}

pub proof fn lemma_section_index_from(out: Seq<SectionView>, name: Seq<char>, j: int)
    requires
        0 <= j <= out.len(),
    ensures
        match section_index_from(out, name, j) {
            Some(k) => j <= k < out.len() && out[k].0 == name,
            None => forall|k: int| j <= k < out.len() ==> (#[trigger] out[k]).0 != name,
        },
    decreases out.len() - j,
{
    if j < out.len() && out[j].0 != name {
        lemma_section_index_from(out, name, j + 1);
    }
}

pub proof fn lemma_add_row_wf(out: Seq<SectionView>, name: Seq<char>, kv: (Seq<char>, Seq<char>))
    requires
        sections_wf(out),
    ensures
        sections_wf(add_row(out, name, kv)),
{
    lemma_section_index_from(out, name, 0);
    let r = add_row(out, name, kv);
    match section_index_from(out, name, 0) {
        Some(j) => {
            assert forall|a: int, b: int| 0 <= a < b < r.len() implies (#[trigger] r[a]).0 != (
            #[trigger] r[b]).0 by {
                assert(r[a].0 == out[a].0);
                assert(r[b].0 == out[b].0);
            }
        },
        None => {
            assert forall|a: int, b: int| 0 <= a < b < r.len() implies (#[trigger] r[a]).0 != (
            #[trigger] r[b]).0 by {
                if b < out.len() {
                    assert(r[a] == out[a]);
                    assert(r[b] == out[b]);
                } else {
                    assert(r[a] == out[a]);
                }
            }
        },
    }
}

pub proof fn lemma_memory_fold_wf(ls: Seq<Seq<char>>)
    ensures
        sections_wf(memory_fold(ls).1),
    decreases ls.len(),
{
    if ls.len() > 0 {
        lemma_memory_fold_wf(ls.drop_last());
        let st = memory_fold(ls.drop_last());
        let line = trim(ls.last());
        if !(line.len() == 0 || starts_with(line, "```"@)) && section_label(line) is None {
            if let Some((k0, v0)) = split_once(line, ':') {
                if trim(k0).len() > 0 && trim(v0).len() > 0 {
                    lemma_add_row_wf(st.1, st.0, (trim(k0), trim(v0)));
                }
            }
        }
    }
}

/// `server memory-usage`: `Services:` / `Database:` / `Allocator:` sections,
/// each a block of `key: value` lines. Non-`key:value` lines are dropped.
/// Every section returned holds at least one row and labels are distinct.
pub fn memory_sections(body: &str) -> (r: Vec<(String, Vec<(String, String)>)>)
    ensures
        section_views(r@) == memory_fold(lines(body@)).1,
        sections_wf(section_views(r@)),
{
    let ls = lines_of(body);
    let fence = chars_of("```");
    let mut current: Vec<char> = chars_of("General");
    let mut out: Vec<(String, Vec<(String, String)>)> = Vec::new();
    let mut i: usize = 0;
    while i < ls.len()
        invariant
            i <= ls@.len(),
            fence@ == "```"@,
            (current@, section_views(out@)) == memory_fold(seqs(ls@).take(i as int)),
        decreases ls.len() - i,
    {
        let ghost all = seqs(ls@);
        assert(all.take(i + 1).drop_last() =~= all.take(i as int));
        assert(all.take(i + 1).last() == ls@[i as int]@);
        assert(seq![':'] =~= [':']@);
        let line = trimmed(&ls[i]);
        if line.len() == 0 || starts_with_exec(&line, &fence) {
            i = i + 1;
            continue;
        }
        let mut is_label = false;
        if let Some(label) = strip_suffix_exec(&line, &[':']) {
            if label.len() > 0 && !has_char_exec(&label, ':') {
                current = trimmed(&label);
                is_label = true;
            }
        }
        if !is_label {
            if let Some((k0, v0)) = split_once_exec(&line, ':') {
                let k = trimmed(&k0);
                let v = trimmed(&v0);
                if k.len() > 0 && v.len() > 0 {
                    let ghost old_out = section_views(out@);
                    let name = string_of(&current);
                    let mut j: usize = 0;
                    while j < out.len() && !eq_string(&out[j].0, &name)
                        invariant
                            j <= out@.len(),
                            name@ == current@,
                            section_index_from(section_views(out@), current@, j as int)
                                == section_index_from(section_views(out@), current@, 0),
                        decreases out.len() - j,
                    {
                        assert(section_views(out@)[j as int].0 == out@[j as int].0@);
                        j = j + 1;
                    }
                    let found = j < out.len();
                    if found {
                        assert(section_views(out@)[j as int].0 == out@[j as int].0@);
                    }
                    if found {
                        let ghost before = out@;
                        let kv = (string_of(&k), string_of(&v));
                        let ghost kvv = kv;
                        out[j].1.push(kv);
                        assert(out@.len() == before.len());
                        assert(out@[j as int].0 == before[j as int].0);
                        assert(out@[j as int].1@ == before[j as int].1@.push(kvv));
                        assert(forall|x: int|
                            0 <= x < out@.len() && x != j ==> out@[x] == before[x]);
                        assert(pairs(out@[j as int].1@) =~= pairs(before[j as int].1@).push(
                            (k@, v@),
                        ));
                        assert(section_views(out@) =~= old_out.update(
                            j as int,
                            (current@, old_out[j as int].1.push((k@, v@))),
                        ));
                    } else {
                        let mut rows: Vec<(String, String)> = Vec::new();
                        rows.push((string_of(&k), string_of(&v)));
                        assert(pairs(rows@) =~= seq![(k@, v@)]);
                        out.push((name, rows));
                        assert(section_views(out@) =~= old_out.push((current@, seq![(k@, v@)])));
                    }
                }
            }
        }
        i = i + 1;
    }
    assert(seqs(ls@).take(ls@.len() as int) =~= seqs(ls@));
    proof {
        lemma_memory_fold_wf(lines(body@));
    }
    out
}

/// Whether two strings hold the same characters.
fn eq_string(a: &String, b: &String) -> (r: bool)
    ensures
        r == (a@ == b@),
{
    a.eq(b)
}

/// The first entry at or after `j` whose key is `k`.
pub open spec fn key_index_from(m: Seq<(Seq<char>, Seq<char>)>, k: Seq<char>, j: int) -> Option<
    int,
>
    decreases m.len() - j,
{
    if j < 0 || j >= m.len() {
        None
    } else if m[j].0 == k {
        Some(j)
    } else {
        key_index_from(m, k, j + 1)
    }
}

/// Map insertion on a list of entries: a present key gets the new value in place,
/// a new key is appended.
pub open spec fn map_insert(m: Seq<(Seq<char>, Seq<char>)>, kv: (Seq<char>, Seq<char>)) -> Seq<
    (Seq<char>, Seq<char>),
> {
    match key_index_from(m, kv.0, 0) {
        Some(j) => m.update(j, kv),
        None => m.push(kv),
    }
}

/// No key occurs twice.
pub open spec fn distinct_keys(m: Seq<(Seq<char>, Seq<char>)>) -> bool {
    forall|i: int, j: int| 0 <= i < j < m.len() ==> (#[trigger] m[i]).0 != (#[trigger] m[j]).0
}

/// The value stored under `k`, if any.
pub open spec fn map_get(m: Seq<(Seq<char>, Seq<char>)>, k: Seq<char>) -> Option<Seq<char>> {
    match key_index_from(m, k, 0) {
        Some(j) => Some(m[j].1),
        None => None,
    }
}

/// A `key: value` line of the database section.
pub open spec fn db_line(l: Seq<char>) -> Option<(Seq<char>, Seq<char>)> {
    let t = trim(l);
    if t.len() == 0 || starts_with(t, "```"@) {
        None
    } else {
        match split_once(t, ':') {
            None => None,
            Some((k0, v0)) => if trim(k0).len() > 0 && trim(v0).len() > 0 {
                Some((trim(k0), trim(v0)))
            } else {
                None
            },
        }
    }
}

pub open spec fn db_fold(ls: Seq<Seq<char>>) -> Seq<(Seq<char>, Seq<char>)>
    decreases ls.len(),
{
    if ls.len() == 0 {
        seq![]
    } else {
        match db_line(ls.last()) {
            Some(kv) => map_insert(db_fold(ls.drop_last()), kv),
            None => db_fold(ls.drop_last()),
        }
    }
}

/// The text of the `Database:` section: after the label, up to `\nAllocator:`.
pub open spec fn database_section_text(body: Seq<char>) -> Option<Seq<char>> {
    match find(body, "Database:"@) {
        None => None,
        Some(start) => {
            let after = body.subrange(start + 9, body.len() as int);
            let end = match find(after, "\nAllocator:"@) {
                Some(e) => e,
                None => after.len() as int,
            };
            Some(after.subrange(0, end))
        },
    }
}

pub open spec fn spec_memory_database_section(body: Seq<char>) -> Seq<(Seq<char>, Seq<char>)> {
    match database_section_text(body) {
        None => seq![],
        Some(sec) => db_fold(lines(sec)),
    }
}

pub proof fn lemma_key_index_from(m: Seq<(Seq<char>, Seq<char>)>, k: Seq<char>, j: int)
    requires
        0 <= j <= m.len(),
    ensures
        match key_index_from(m, k, j) {
            Some(x) => j <= x < m.len() && m[x].0 == k,
            None => forall|x: int| j <= x < m.len() ==> (#[trigger] m[x]).0 != k,
        },
    decreases m.len() - j,
{
    if j < m.len() && m[j].0 != k {
        lemma_key_index_from(m, k, j + 1);
    }
}

pub proof fn lemma_map_insert_distinct(m: Seq<(Seq<char>, Seq<char>)>, kv: (Seq<char>, Seq<char>))
    requires
        distinct_keys(m),
    ensures
        distinct_keys(map_insert(m, kv)),
        map_get(map_insert(m, kv), kv.0) == Some(kv.1),
{
    lemma_key_index_from(m, kv.0, 0);
    let r = map_insert(m, kv);
    assert forall|a: int, b: int| 0 <= a < b < r.len() implies (#[trigger] r[a]).0 != (
    #[trigger] r[b]).0 by {
        if b < m.len() {
            assert(r[a].0 == m[a].0 && r[b].0 == m[b].0);
        } else {
            assert(r[a] == m[a]);
        }
    }
    lemma_key_index_from(r, kv.0, 0);
    let pos = match key_index_from(m, kv.0, 0) {
        Some(j) => j,
        None => m.len() as int,
    };
    assert(r[pos] == kv);
    match key_index_from(r, kv.0, 0) {
        Some(x) => {
            if x != pos {
                if x < pos {
                    assert(r[x].0 != r[pos].0);
                } else {
                    assert(r[pos].0 != r[x].0);
                }
            }
        },
        None => {
            assert(r[pos].0 == kv.0);
        },
    }
}

pub proof fn lemma_db_fold_distinct(ls: Seq<Seq<char>>)
    ensures
        distinct_keys(db_fold(ls)),
    decreases ls.len(),
{
    if ls.len() > 0 {
        lemma_db_fold_distinct(ls.drop_last());
        if let Some(kv) = db_line(ls.last()) {
            lemma_map_insert_distinct(db_fold(ls.drop_last()), kv);
        }
    }
}

/// `server memory-usage` body sections: `Services:\n...\nDatabase:\n...\nAllocator:\n...`.
/// Returns the `key: value` pairs parsed from the Database section (e.g.
/// "Memory buffers" → "3.21 MiB") as map entries: each key once, holding the
/// value of its last line. Returns no entries if the section is missing.
pub fn memory_database_section(body: &str) -> (r: Vec<(String, String)>)
    ensures
        pairs(r@) == spec_memory_database_section(body@),
        distinct_keys(pairs(r@)),
{
    let cs = chars_of(body);
    let label = chars_of("Database:");
    proof {
        reveal_strlit("Database:");
        lemma_db_fold_distinct(seq![]);
    }
    let start = match find_exec(&cs, &label) {
        Some(s) => s,
        None => {
            let empty: Vec<(String, String)> = Vec::new();
            assert(pairs(empty@) =~= seq![]);
            return empty;
        },
    };
    proof {
        lemma_find(cs@, label@);
    }
    assert(start + 9 <= cs.len());
    let after = slice_of(&cs, start + 9, cs.len());
    let stop = chars_of("\nAllocator:");
    let end = match find_exec(&after, &stop) {
        Some(e) => {
            proof {
                lemma_find(after@, stop@);
            }
            e
        },
        None => after.len(),
    };
    assert(end <= after.len());
    let sec = slice_of(&after, 0, end);
    let ls = lines_exec(&sec);
    let fence = chars_of("```");
    let mut out: Vec<(String, String)> = Vec::new();
    let mut i: usize = 0;
    while i < ls.len()
        invariant
            i <= ls@.len(),
            fence@ == "```"@,
            pairs(out@) == db_fold(seqs(ls@).take(i as int)),
        decreases ls.len() - i,
    {
        let ghost all = seqs(ls@);
        assert(all.take(i + 1).drop_last() =~= all.take(i as int));
        assert(all.take(i + 1).last() == ls@[i as int]@);
        let t = trimmed(&ls[i]);
        if t.len() > 0 && !starts_with_exec(&t, &fence) {
            if let Some((k0, v0)) = split_once_exec(&t, ':') {
                let k = trimmed(&k0);
                let v = trimmed(&v0);
                if k.len() > 0 && v.len() > 0 {
                    let ghost old_out = pairs(out@);
                    let key = string_of(&k);
                    let mut j: usize = 0;
                    while j < out.len() && !eq_string(&out[j].0, &key)
                        invariant
                            j <= out@.len(),
                            key@ == k@,
                            key_index_from(pairs(out@), k@, j as int) == key_index_from(
                                pairs(out@),
                                k@,
                                0,
                            ),
                        decreases out.len() - j,
                    {
                        assert(pairs(out@)[j as int].0 == out@[j as int].0@);
                        j = j + 1;
                    }
                    if j < out.len() {
                        assert(pairs(out@)[j as int].0 == out@[j as int].0@);
                        out.set(j, (key, string_of(&v)));
                        assert(pairs(out@) =~= old_out.update(j as int, (k@, v@)));
                    } else {
                        out.push((key, string_of(&v)));
                        assert(pairs(out@) =~= old_out.push((k@, v@)));
                    }
                }
            }
        }
        i = i + 1;
    }
    assert(seqs(ls@).take(ls@.len() as int) =~= seqs(ls@));
    proof {
        lemma_db_fold_distinct(lines(sec@));
    }
    out
}

/// The value stored under `key` in map entries, if any.
pub fn entry_get(entries: &Vec<(String, String)>, key: &str) -> (r: Option<String>)
    ensures
        match r {
            Some(v) => map_get(pairs(entries@), key@) == Some(v@),
            None => map_get(pairs(entries@), key@) is None,
        },
{
    let k = String::from_str(key);
    let mut j: usize = 0;
    while j < entries.len() && !eq_string(&entries[j].0, &k)
        invariant
            j <= entries@.len(),
            k@ == key@,
            key_index_from(pairs(entries@), key@, j as int) == key_index_from(
                pairs(entries@),
                key@,
                0,
            ),
        decreases entries.len() - j,
    {
        assert(pairs(entries@)[j as int].0 == entries@[j as int].0@);
        j = j + 1;
    }
    if j < entries.len() {
        assert(pairs(entries@)[j as int].0 == entries@[j as int].0@);
        let v = &entries[j].1;
        Some(v.clone())
    } else {
        None
    }
}

// ---------------------------------------------------------------------------
// `query users list-devices-metadata`
// ---------------------------------------------------------------------------

/// Where the group open at nesting `depth` before position `j` closes: the
/// position of its matching `)`, or the end of the text when it never closes.
pub open spec fn group_close(s: Seq<char>, j: int, depth: int) -> int
    decreases s.len() - j,
{
    if j < 0 || j >= s.len() {
        s.len() as int
    } else if s[j] == '(' {
        group_close(s, j + 1, depth + 1)
    } else if s[j] == ')' {
        if depth <= 1 {
            j
        } else {
            group_close(s, j + 1, depth - 1)
        }
    } else {
        group_close(s, j + 1, depth)
    }
}

pub proof fn lemma_group_close(s: Seq<char>, j: int, depth: int)
    requires
        0 <= j <= s.len(),
    ensures
        j <= group_close(s, j, depth) <= s.len(),
        group_close(s, j, depth) < s.len() ==> s[group_close(s, j, depth)] == ')',
    decreases s.len() - j,
{
    if j < s.len() {
        if s[j] == '(' {
            lemma_group_close(s, j + 1, depth + 1);
        } else if s[j] == ')' {
            if depth > 1 {
                lemma_group_close(s, j + 1, depth - 1);
            }
        } else {
            lemma_group_close(s, j + 1, depth);
        }
    }
}

/// The text without its newlines.
pub open spec fn drop_newlines(s: Seq<char>) -> Seq<char>
    decreases s.len(),
{
    if s.len() == 0 {
        seq![]
    } else {
        drop_newlines(s.drop_last()) + (if s.last() == '\n' {
            Seq::<char>::empty()
        } else {
            seq![s.last()]
        })
    }
}

/// Folding `(\n    X,\n)` into `(X)` from position `i` on, nesting preserved:
/// a parenthesised group that spans lines becomes its content, with the
/// groups inside it folded the same way, without newlines, trimmed and
/// without trailing commas; a group on a single line is kept as it is. A
/// group that never closes runs to the end of the text and is closed there.
pub open spec fn collapse_from(s: Seq<char>, i: int) -> Seq<char>
    decreases s.len(), s.len() - i,
{
    if i < 0 || i >= s.len() {
        seq![]
    } else if s[i] == '(' {
        proof {
            lemma_group_close(s, i + 1, 1);
        }
        let e = group_close(s, i + 1, 1);
        let inner = s.subrange(i + 1, e);
        let mid = if has_char(inner, '\n') {
            trim_end_char(trim(drop_newlines(collapse_from(inner, 0))), ',')
        } else {
            inner
        };
        let next = if e < s.len() {
            e + 1
        } else {
            s.len() as int
        };
        seq!['('] + mid + seq![')'] + collapse_from(s, next)
    } else {
        seq![s[i]] + collapse_from(s, i + 1)
    }
}

/// The characters of `s` other than newlines.
fn drop_newlines_exec(s: &[char]) -> (out: Vec<char>)
    ensures
        out@ == drop_newlines(s@),
{
    let mut out: Vec<char> = Vec::new();
    let mut k: usize = 0;
    while k < s.len()
        invariant
            k <= s@.len(),
            out@ == drop_newlines(s@.take(k as int)),
        decreases s.len() - k,
    {
        assert(s@.take(k + 1).drop_last() =~= s@.take(k as int));
        if s[k] != '\n' {
            out.push(s[k]);
        }
        assert(out@ =~= drop_newlines(s@.take(k + 1)));
        k = k + 1;
    }
    assert(s@.take(s@.len() as int) =~= s@);
    out
}

/// Fold `(\n    X,\n)` into `(X)`, preserving nesting and non-multiline parens.
fn collapse_some_blocks(s: &[char]) -> (out: Vec<char>)
    ensures
        out@ == collapse_from(s@, 0),
    decreases s@.len(),
{
    let mut out: Vec<char> = Vec::new();
    let mut i: usize = 0;
    while i < s.len()
        invariant
            i <= s@.len(),
            out@ + collapse_from(s@, i as int) == collapse_from(s@, 0),
        decreases s.len() - i,
    {
        let c = s[i];
        if c == '(' {
            let mut depth: usize = 1;
            let mut j = i + 1;
            while j < s.len() && !(s[j] == ')' && depth <= 1)
                invariant
                    i < j <= s@.len(),
                    1 <= depth <= j - i,
                    group_close(s@, j as int, depth as int) == group_close(s@, i + 1, 1),
                decreases s.len() - j,
            {
                if s[j] == '(' {
                    depth = depth + 1;
                } else if s[j] == ')' {
                    depth = depth - 1;
                }
                j = j + 1;
            }
            proof {
                lemma_group_close(s@, i + 1, 1);
            }
            assert(j == group_close(s@, i + 1, 1));
            let inner = slice_of(s, i + 1, j);
            let mid = if has_char_exec(&inner, '\n') {
                let folded = collapse_some_blocks(&inner);
                let flat = drop_newlines_exec(&folded);
                let t = trimmed(&flat);
                trimmed_end_char(&t, ',')
            } else {
                inner
            };
            let ghost before = out@;
            out.push('(');
            let mut k: usize = 0;
            while k < mid.len()
                invariant
                    k <= mid@.len(),
                    out@ == before.push('(') + mid@.take(k as int),
                decreases mid.len() - k,
            {
                out.push(mid[k]);
                assert(mid@.take(k + 1) =~= mid@.take(k as int).push(mid@[k as int]));
                k = k + 1;
            }
            assert(mid@.take(mid@.len() as int) =~= mid@);
            out.push(')');
            let next = if j < s.len() {
                j + 1
            } else {
                s.len()
            };
            assert(out@ =~= before + (seq!['('] + mid@ + seq![')']));
            assert(collapse_from(s@, i as int) == seq!['('] + mid@ + seq![')'] + collapse_from(
                s@,
                next as int,
            ));
            assert(out@ + collapse_from(s@, next as int) =~= before + collapse_from(
                s@,
                i as int,
            ));
            i = next;
        } else {
            let ghost before = out@;
            out.push(c);
            assert(out@ + collapse_from(s@, i + 1) =~= before + collapse_from(s@, i as int));
            i = i + 1;
        }
    }
    assert(out@ + collapse_from(s@, i as int) =~= out@);
    out
}

/// Text with surrounding whitespace and trailing commas removed.
pub open spec fn debug_trim(v: Seq<char>) -> Seq<char> {
    trim(trim_end_char(trim(v), ','))
}

/// One Rust-Debug value: `None`, `Some(X)`, `"string"`, or a bare token.
pub open spec fn spec_parse_debug_value(v: Seq<char>) -> Option<Seq<char>> {
    let a = debug_trim(v);
    if a == "None"@ || a.len() == 0 {
        None
    } else {
        let b = match strip_prefix(a, "Some("@) {
            Some(r) => r,
            None => a,
        };
        let c = match strip_suffix(b, seq![')']) {
            Some(r) => r,
            None => b,
        };
        let d = debug_trim(c);
        if d.len() == 0 {
            None
        } else {
            match strip_prefix(d, seq!['"']) {
                Some(r) => match strip_suffix(r, seq!['"']) {
                    Some(inner) => Some(inner),
                    None => Some(d),
                },
                None => Some(d),
            }
        }
    }
}

fn debug_trim_exec(v: &[char]) -> (r: Vec<char>)
    ensures
        r@ == debug_trim(v@),
{
    let a = trimmed(v);
    let b = trimmed_end_char(&a, ',');
    trimmed(&b)
}

/// Unwrap one Rust-Debug value: `None`, `Some(X)`, `"string"`, or a bare token.
fn parse_debug_value(v: &[char]) -> (r: Option<Vec<char>>)
    ensures
        match r {
            Some(x) => spec_parse_debug_value(v@) == Some(x@),
            None => spec_parse_debug_value(v@) is None,
        },
{
    let a = debug_trim_exec(v);
    let none = chars_of("None");
    if eq_exec(&a, &none) || a.len() == 0 {
        return None;
    }
    let some = chars_of("Some(");
    let b = match strip_prefix_exec(&a, &some) {
        Some(r) => r,
        None => slice_of(&a, 0, a.len()),
    };
    assert(a@.subrange(0, a@.len() as int) =~= a@);
    assert(seq![')'] =~= [')']@);
    assert(seq!['"'] =~= ['"']@);
    let c = match strip_suffix_exec(&b, &[')']) {
        Some(r) => r,
        None => slice_of(&b, 0, b.len()),
    };
    assert(b@.subrange(0, b@.len() as int) =~= b@);
    let d = debug_trim_exec(&c);
    if d.len() == 0 {
        return None;
    }
    if let Some(r) = strip_prefix_exec(&d, &['"']) {
        if let Some(inner) = strip_suffix_exec(&r, &['"']) {
            return Some(inner);
        }
    }
    Some(d)
}

#[derive(Debug, Clone)]
pub struct DeviceRow {
    pub device_id: String,
    pub display_name: Option<String>,
    pub last_seen_ip: Option<String>,
    pub last_seen_ts: Option<String>,
}

pub struct DeviceRowView {
    pub device_id: Seq<char>,
    pub display_name: Option<Seq<char>>,
    pub last_seen_ip: Option<Seq<char>>,
    pub last_seen_ts: Option<Seq<char>>,
}

pub open spec fn opt_str(o: Option<String>) -> Option<Seq<char>> {
    match o {
        Some(s) => Some(s@),
        None => None,
    }
}

impl View for DeviceRow {
    type V = DeviceRowView;

    open spec fn view(&self) -> DeviceRowView {
        DeviceRowView {
            device_id: self.device_id@,
            display_name: opt_str(self.display_name),
            last_seen_ip: opt_str(self.last_seen_ip),
            last_seen_ts: opt_str(self.last_seen_ts),
        }
    }
}

pub open spec fn empty_device() -> DeviceRowView {
    DeviceRowView {
        device_id: seq![],
        display_name: None,
        last_seen_ip: None,
        last_seen_ts: None,
    }
}

/// One field line of a `Device { .. }` block applied to the device being read.
pub open spec fn device_field(d: DeviceRowView, k: Seq<char>, value: Option<Seq<char>>) -> Option<
    DeviceRowView,
> {
    if k == "device_id"@ {
        Some(
            DeviceRowView {
                device_id: match value {
                    Some(x) => x,
                    None => seq![],
                },
                ..d
            },
        )
    } else if k == "display_name"@ {
        Some(DeviceRowView { display_name: value, ..d })
    } else if k == "last_seen_ip"@ {
        Some(DeviceRowView { last_seen_ip: value, ..d })
    } else if k == "last_seen_ts"@ {
        Some(DeviceRowView { last_seen_ts: value, ..d })
    } else {
        None
    }
}

/// One line of the device dump applied to (device being read, devices so far).
pub open spec fn device_step(st: (Option<DeviceRowView>, Seq<DeviceRowView>), raw: Seq<char>) -> (
    Option<DeviceRowView>,
    Seq<DeviceRowView>,
) {
    let line = trim(raw);
    if starts_with(line, "Device {"@) {
        (Some(empty_device()), st.1)
    } else if line == "},"@ || line == "}"@ {
        (
            None,
            match st.0 {
                Some(d) => if d.device_id.len() > 0 {
                    st.1.push(d)
                } else {
                    st.1
                },
                None => st.1,
            },
        )
    } else {
        match st.0 {
            None => st,
            Some(d) => match split_once(line, ':') {
                None => st,
                Some((k0, v0)) => match device_field(
                    d,
                    trim(k0),
                    spec_parse_debug_value(debug_trim(v0)),
                ) {
                    Some(d2) => (Some(d2), st.1),
                    None => st,
                },
            },
        }
    }
}

pub open spec fn device_fold(ls: Seq<Seq<char>>) -> (Option<DeviceRowView>, Seq<DeviceRowView>)
    decreases ls.len(),
{
    if ls.len() == 0 {
        (None, seq![])
    } else {
        device_step(device_fold(ls.drop_last()), ls.last())
    }
}

pub open spec fn device_views(v: Seq<DeviceRow>) -> Seq<DeviceRowView> {
    Seq::new(v.len(), |i: int| v[i]@)
}

pub open spec fn spec_list_devices(body: Seq<char>) -> Option<Seq<DeviceRowView>> {
    match spec_fenced(body) {
        None => None,
        Some(inner) => some_if_nonempty(device_fold(lines(collapse_from(inner, 0))).1),
    }
}

fn opt_string(v: Option<Vec<char>>) -> (r: Option<String>)
    ensures
        opt_str(r) == (match v {
            Some(x) => Some(x@),
            None => None,
        }),
{
    match v {
        Some(x) => Some(string_of(&x)),
        None => None,
    }
}

/// `query users list-devices-metadata`: a `Vec<Device>` Rust-Debug print
/// inside a ```rs fence, with `Some(...)` values broken across lines.
pub fn list_devices(body: &str) -> (r: Option<Vec<DeviceRow>>)
    ensures
        match r {
            Some(v) => spec_list_devices(body@) == Some(device_views(v@)),
            None => spec_list_devices(body@) is None,
        },
{
    let inner = match fenced(body) {
        Some(f) => f,
        None => return None,
    };
    let ic = chars_of(inner);
    let collapsed = collapse_some_blocks(&ic);
    let ls = lines_exec(&collapsed);
    let open = chars_of("Device {");
    let close1 = chars_of("},");
    let close2 = chars_of("}");
    let k_id = chars_of("device_id");
    let k_name = chars_of("display_name");
    let k_ip = chars_of("last_seen_ip");
    let k_ts = chars_of("last_seen_ts");
    let mut out: Vec<DeviceRow> = Vec::new();
    let mut has_cur = false;
    let mut cur = DeviceRow {
        device_id: String::new(),
        display_name: None,
        last_seen_ip: None,
        last_seen_ts: None,
    };
    let mut i: usize = 0;
    while i < ls.len()
        invariant
            i <= ls@.len(),
            open@ == "Device {"@,
            close1@ == "},"@,
            close2@ == "}"@,
            k_id@ == "device_id"@,
            k_name@ == "display_name"@,
            k_ip@ == "last_seen_ip"@,
            k_ts@ == "last_seen_ts"@,
            (
                if has_cur {
                    Some(cur@)
                } else {
                    None
                },
                device_views(out@),
            ) == device_fold(seqs(ls@).take(i as int)),
        decreases ls.len() - i,
    {
        let ghost all = seqs(ls@);
        assert(all.take(i + 1).drop_last() =~= all.take(i as int));
        assert(all.take(i + 1).last() == ls@[i as int]@);
        let line = trimmed(&ls[i]);
        if starts_with_exec(&line, &open) {
            has_cur = true;
            cur =
            DeviceRow {
                device_id: String::new(),
                display_name: None,
                last_seen_ip: None,
                last_seen_ts: None,
            };
        } else if eq_exec(&line, &close1) || eq_exec(&line, &close2) {
            if has_cur && !cur.device_id.as_str().is_empty() {
                let ghost cv = cur@;
                out.push(cur);
                assert(device_views(out@) =~= device_fold(all.take(i as int)).1.push(cv));
                cur =
                DeviceRow {
                    device_id: String::new(),
                    display_name: None,
                    last_seen_ip: None,
                    last_seen_ts: None,
                };
            }
            has_cur = false;
        } else if has_cur {
            if let Some((k0, v0)) = split_once_exec(&line, ':') {
                let k = trimmed(&k0);
                let v = debug_trim_exec(&v0);
                let value = parse_debug_value(&v);
                if eq_exec(&k, &k_id) {
                    cur.device_id =
                    match value {
                        Some(x) => string_of(&x),
                        None => String::new(),
                    };
                } else if eq_exec(&k, &k_name) {
                    cur.display_name = opt_string(value);
                } else if eq_exec(&k, &k_ip) {
                    cur.last_seen_ip = opt_string(value);
                } else if eq_exec(&k, &k_ts) {
                    cur.last_seen_ts = opt_string(value);
                }
            }
        }
        i = i + 1;
    }
    assert(seqs(ls@).take(ls@.len() as int) =~= seqs(ls@));
    if out.len() > 0 {
        Some(out)
    } else {
        None
    }
}


// ---------------------------------------------------------------------------
// Room lists: which lines make rows
// ---------------------------------------------------------------------------

/// A `filter_map` whose function answers `Some` exactly on the items a
/// predicate keeps yields one result per kept item, in order.
pub proof fn lemma_filter_map_filter<A, B>(s: Seq<A>, f: spec_fn(A) -> Option<B>, p: spec_fn(A) -> bool)
    requires
        forall|x: A| (#[trigger] f(x) is Some) <==> p(x),
    ensures
        s.filter_map(f).len() == s.filter(p).len(),
        forall|i: int|
            0 <= i < s.filter(p).len() ==> Some(#[trigger] s.filter_map(f)[i]) == f(s.filter(p)[i]),
        s.filter(p).len() == 0 <==> forall|k: int| 0 <= k < s.len() ==> !p(#[trigger] s[k]),
    decreases s.len(),
{
    reveal(Seq::filter);
    if s.len() > 0 {
        let r = s.drop_last();
        lemma_filter_map_filter(r, f, p);
        let last = s.last();
        assert(f(last) is Some <==> p(last));
        if p(last) {
            let fm = r.filter_map(f);
            let fl = r.filter(p);
            assert(s.filter(p) == fl.push(last));
            assert(s.filter_map(f) == fm + seq![f(last)->Some_0]);
            assert forall|i: int| 0 <= i < s.filter(p).len() implies Some(
                #[trigger] s.filter_map(f)[i],
            ) == f(s.filter(p)[i]) by {
                if i < fl.len() {
                    assert(s.filter_map(f)[i] == fm[i]);
                    assert(s.filter(p)[i] == fl[i]);
                }
            }
            assert(!(forall|k: int| 0 <= k < s.len() ==> !p(#[trigger] s[k]))) by {
                assert(s[s.len() - 1] == last);
            }
        } else {
            assert(s.filter(p) == r.filter(p));
            assert(s.filter_map(f) == r.filter_map(f));
            if s.filter(p).len() == 0 {
                assert forall|k: int| 0 <= k < s.len() implies !p(#[trigger] s[k]) by {
                    if k < r.len() {
                        assert(s[k] == r[k]);
                    }
                }
            } else {
                let k = choose|k: int| 0 <= k < r.len() && p(#[trigger] r[k]);
                assert(s[k] == r[k]);
            }
        }
    }
}

/// A line of a `rooms list` reply that names a room.
pub open spec fn is_room_id_line(l: Seq<char>) -> bool {
    starts_with(trim(l), seq!['!'])
}

/// `list_rooms` gives one row per line that starts with `!` (once trimmed),
/// in the order of the lines, each holding the line's first tab-separated
/// field, trimmed, as its room id; it gives `None` exactly when no line does.
pub proof fn lemma_list_rooms_rows(body: Seq<char>)
    ensures
        ({
            let ls = lines(body);
            let kept = ls.filter(|l: Seq<char>| is_room_id_line(l));
            &&& rooms_of(ls).len() == kept.len()
            &&& forall|i: int|
                0 <= i < kept.len() ==> (#[trigger] rooms_of(ls)[i]).room_id == trim(
                    split(trim(kept[i]), '\t')[0],
                ) && Some(rooms_of(ls)[i]) == room_line(kept[i])
            &&& (some_if_nonempty(rooms_of(ls)) is None <==> forall|k: int|
                0 <= k < ls.len() ==> !is_room_id_line(#[trigger] ls[k]))
        }),
{
    let ls = lines(body);
    let f = |l: Seq<char>| room_line(l);
    let p = |l: Seq<char>| is_room_id_line(l);
    lemma_filter_map_filter(ls, f, p);
    assert(rooms_of(ls) == ls.filter_map(f));
}

/// A line of a `users list-joined-rooms` reply that makes a row: it starts
/// with `!` (once trimmed) and has at least three tab-separated fields.
pub open spec fn is_joined_room_line(l: Seq<char>) -> bool {
    starts_with(trim(l), seq!['!']) && split(trim(l), '\t').len() >= 3
}

/// `list_joined_rooms` answers `None` when the reply does not begin with the
/// `Rooms ` header; otherwise it gives one row per line that starts with `!`
/// and has at least three tab-separated fields, in order, each with that
/// line's first field, trimmed, as its room id (so every room id starts with
/// `!`), and `None` exactly when no line qualifies.
pub proof fn lemma_list_joined_rooms_rows(body: Seq<char>)
    ensures
        !starts_with(trim_start(body), "Rooms "@) ==> spec_list_joined_rooms(body) is None,
        ({
            let ls = lines(body);
            let kept = ls.filter(|l: Seq<char>| is_joined_room_line(l));
            &&& joined_rooms_of(ls).len() == kept.len()
            &&& forall|i: int|
                0 <= i < kept.len() ==> (#[trigger] joined_rooms_of(ls)[i]).room_id == trim(
                    split(trim(kept[i]), '\t')[0],
                ) && starts_with(joined_rooms_of(ls)[i].room_id, seq!['!']) && Some(
                    joined_rooms_of(ls)[i],
                ) == joined_room_line(kept[i])
            &&& (starts_with(trim_start(body), "Rooms "@) ==> (spec_list_joined_rooms(body) is None
                <==> forall|k: int| 0 <= k < ls.len() ==> !is_joined_room_line(#[trigger] ls[k])))
        }),
{
    let ls = lines(body);
    let f = |l: Seq<char>| joined_room_line(l);
    let p = |l: Seq<char>| is_joined_room_line(l);
    lemma_filter_map_filter(ls, f, p);
    assert(joined_rooms_of(ls) == ls.filter_map(f));
    let kept = ls.filter(p);
    assert forall|i: int| 0 <= i < kept.len() implies starts_with(
        (#[trigger] joined_rooms_of(ls)[i]).room_id,
        seq!['!'],
    ) by {
        let t = trim(kept[i]);
        lemma_next_char(t, '\t', 0);
        assert(t[0] == seq!['!'][0]);
        let f0 = split(t, '\t')[0];
        assert(f0 == t.subrange(0, next_char(t, '\t', 0)));
        assert(f0[0] == '!');
        assert(trim_start(f0) == f0);
        lemma_trim_end_prefix(f0);
        let id = trim(f0);
        assert(id.len() > 0);
        assert(id[0] == f0[0]);
        assert(id.subrange(0, 1) =~= seq!['!']);
    }
}


// ---------------------------------------------------------------------------
// Memory report: what the rows and labels hold
// ---------------------------------------------------------------------------

/// A row of the memory report: a non-empty key and value, both trimmed.
pub open spec fn clean_row(kv: (Seq<char>, Seq<char>)) -> bool {
    &&& kv.0.len() > 0 && kv.1.len() > 0
    &&& trim(kv.0) == kv.0 && trim(kv.1) == kv.1
}

/// Every row of every section is clean.
pub open spec fn rows_clean(out: Seq<SectionView>) -> bool {
    forall|i: int, r: int|
        0 <= i < out.len() && 0 <= r < out[i].1.len() ==> clean_row(#[trigger] out[i].1[r])
}

/// A line that opens a section of the memory report.
pub open spec fn is_section_header(raw: Seq<char>) -> bool {
    let line = trim(raw);
    line.len() > 0 && !starts_with(line, "```"@) && section_label(line) is Some
}

/// Trimming twice trims no more than once.
pub proof fn lemma_trim_idempotent(x: Seq<char>)
    ensures
        trim(trim(x)) == trim(x),
{
    lemma_trim_start_suffix(x);
    let a = trim_start(x);
    lemma_trim_end_prefix(a);
    let t = trim(x);
    if t.len() > 0 {
        assert(t[0] == a[0]);
        assert(trim_start(t) == t);
        assert(trim_end(t) == t);
    }
}

pub proof fn lemma_add_row_clean(out: Seq<SectionView>, name: Seq<char>, kv: (Seq<char>, Seq<char>))
    requires
        rows_clean(out),
        clean_row(kv),
    ensures
        rows_clean(add_row(out, name, kv)),
        forall|i: int|
            0 <= i < add_row(out, name, kv).len() ==> (#[trigger] add_row(out, name, kv)[i]).0
                == name || (i < out.len() && add_row(out, name, kv)[i].0 == out[i].0),
{
    lemma_section_index_from(out, name, 0);
    let r = add_row(out, name, kv);
    match section_index_from(out, name, 0) {
        Some(j) => {
            assert forall|i: int, q: int|
                0 <= i < r.len() && 0 <= q < r[i].1.len() implies clean_row(#[trigger] r[i].1[q]) by {
                if i == j {
                    if q < out[j].1.len() {
                        assert(r[i].1[q] == out[j].1[q]);
                    }
                } else {
                    assert(r[i] == out[i]);
                }
            }
        },
        None => {
            assert forall|i: int, q: int|
                0 <= i < r.len() && 0 <= q < r[i].1.len() implies clean_row(#[trigger] r[i].1[q]) by {
                if i < out.len() {
                    assert(r[i] == out[i]);
                }
            }
        },
    }
}

/// The memory report's rows all hold a non-empty, trimmed key and value; and
/// when no line opens a section, every row sits in the one section
/// `General`.
pub proof fn lemma_memory_fold_rows(ls: Seq<Seq<char>>)
    ensures
        rows_clean(memory_fold(ls).1),
        (forall|k: int| 0 <= k < ls.len() ==> !is_section_header(#[trigger] ls[k])) ==> {
            &&& memory_fold(ls).0 == "General"@
            &&& forall|i: int|
                0 <= i < memory_fold(ls).1.len() ==> (#[trigger] memory_fold(ls).1[i]).0
                    == "General"@
        },
    decreases ls.len(),
{
    if ls.len() > 0 {
        let init = ls.drop_last();
        lemma_memory_fold_rows(init);
        let st = memory_fold(init);
        let line = trim(ls.last());
        let no_header = forall|k: int| 0 <= k < ls.len() ==> !is_section_header(#[trigger] ls[k]);
        if no_header {
            assert forall|k: int| 0 <= k < init.len() implies !is_section_header(
                #[trigger] init[k],
            ) by {
                assert(init[k] == ls[k]);
            }
            assert(!is_section_header(ls[ls.len() - 1]));
        }
        if !(line.len() == 0 || starts_with(line, "```"@)) && section_label(line) is None {
            if let Some((k0, v0)) = split_once(line, ':') {
                let k = trim(k0);
                let v = trim(v0);
                if k.len() > 0 && v.len() > 0 {
                    lemma_trim_idempotent(k0);
                    lemma_trim_idempotent(v0);
                    lemma_add_row_clean(st.1, st.0, (k, v));
                }
            }
        }
    }
}

/// The sections `memory_sections` returns hold only clean rows, and all of
/// them fall under `General` when the report opens no section.
pub proof fn lemma_memory_sections_rows(body: Seq<char>)
    ensures
        rows_clean(memory_fold(lines(body)).1),
        (forall|k: int|
            0 <= k < lines(body).len() ==> !is_section_header(#[trigger] lines(body)[k])) ==> forall|
            i: int,
        | 0 <= i < memory_fold(lines(body)).1.len() ==> (#[trigger] memory_fold(lines(body)).1[i]).0
            == "General"@,
{
    lemma_memory_fold_rows(lines(body));
}


/// The first word of text that starts with a non-whitespace character runs
/// from its start up to the first whitespace, and holds no whitespace.
pub proof fn lemma_first_word_at_start(t: Seq<char>)
    requires
        t.len() > 0,
        !is_ws(t[0]),
    ensures
        first_word(t) == Some(t.subrange(0, next_ws(t, true, 0))),
        next_ws(t, true, 0) >= 1,
        forall|j: int| 0 <= j < next_ws(t, true, 0) ==> !is_ws(#[trigger] t[j]),
{
    lemma_next_ws(t, false, 0);
    lemma_next_ws(t, true, 0);
    assert(next_ws(t, false, 0) == 0);
    assert(words(t) == seq![t.subrange(0, next_ws(t, true, 0))] + words_from(
        t,
        next_ws(t, true, 0),
    ));
}

/// Every room id that a `!`-line list (banned rooms, federating rooms) gives
/// starts with `!` and holds no whitespace: it is the first word of a line
/// that starts with `!`.
pub proof fn lemma_bang_ids_are_room_ids(body: Seq<char>)
    ensures
        forall|i: int|
            0 <= i < bang_ids_of(lines(body)).len() ==> {
                let id = #[trigger] bang_ids_of(lines(body))[i];
                &&& starts_with(id, seq!['!'])
                &&& forall|j: int| 0 <= j < id.len() ==> !is_ws(#[trigger] id[j])
            },
{
    let ls = lines(body);
    let f = |l: Seq<char>| bang_line(l);
    let p = |l: Seq<char>| is_room_id_line(l);
    lemma_filter_map_filter(ls, f, p);
    assert(bang_ids_of(ls) == ls.filter_map(f));
    let kept = ls.filter(p);
    assert forall|i: int| 0 <= i < bang_ids_of(ls).len() implies {
        let id = #[trigger] bang_ids_of(ls)[i];
        &&& starts_with(id, seq!['!'])
        &&& forall|j: int| 0 <= j < id.len() ==> !is_ws(#[trigger] id[j])
    } by {
        let t = trim(kept[i]);
        assert(t[0] == seq!['!'][0]);
        lemma_first_word_at_start(t);
        let id = bang_ids_of(ls)[i];
        assert(id == t.subrange(0, next_ws(t, true, 0)));
        assert(seq!['!'][0] == '!');
        let e = next_ws(t, true, 0);
        lemma_next_ws(t, true, 0);
        assert(t.subrange(0, e)[0] == t[0]);
        assert(id[0] == t[0]);
        assert(id[0] == '!');
        assert(id.subrange(0, 1) =~= seq!['!']);
        assert forall|j: int| 0 <= j < id.len() implies !is_ws(#[trigger] id[j]) by {
            assert(id[j] == t[j]);
        }
    }
}


/// `b` holds the sections of `a` in the same places under the same labels,
/// each with `a`'s rows first, and perhaps more sections after them.
pub open spec fn extends_sections(a: Seq<SectionView>, b: Seq<SectionView>) -> bool {
    &&& a.len() <= b.len()
    &&& forall|i: int|
        0 <= i < a.len() ==> {
            &&& (#[trigger] b[i]).0 == a[i].0
            &&& a[i].1.len() <= b[i].1.len()
            &&& b[i].1.subrange(0, a[i].1.len() as int) == a[i].1
        }
}

pub proof fn lemma_extends_sections_trans(a: Seq<SectionView>, b: Seq<SectionView>, c: Seq<SectionView>)
    requires
        extends_sections(a, b),
        extends_sections(b, c),
    ensures
        extends_sections(a, c),
{
    assert forall|i: int| 0 <= i < a.len() implies {
        &&& (#[trigger] c[i]).0 == a[i].0
        &&& a[i].1.len() <= c[i].1.len()
        &&& c[i].1.subrange(0, a[i].1.len() as int) == a[i].1
    } by {
        assert(b[i].1.subrange(0, a[i].1.len() as int) == a[i].1);
        assert(c[i].1.subrange(0, b[i].1.len() as int) == b[i].1);
        assert(c[i].1.subrange(0, a[i].1.len() as int) =~= b[i].1.subrange(0, a[i].1.len() as int));
    }
}

pub proof fn lemma_memory_step_extends(st: (Seq<char>, Seq<SectionView>), raw: Seq<char>)
    ensures
        extends_sections(st.1, memory_step(st, raw).1),
{
    let out = st.1;
    let r = memory_step(st, raw).1;
    if r != out {
        let line = trim(raw);
        let (k0, v0) = split_once(line, ':')->Some_0;
        let kv = (trim(k0), trim(v0));
        lemma_section_index_from(out, st.0, 0);
        match section_index_from(out, st.0, 0) {
            Some(j) => {
                assert forall|i: int| 0 <= i < out.len() implies {
                    &&& (#[trigger] r[i]).0 == out[i].0
                    &&& out[i].1.len() <= r[i].1.len()
                    &&& r[i].1.subrange(0, out[i].1.len() as int) == out[i].1
                } by {
                    if i == j {
                        assert(r[i].1.subrange(0, out[i].1.len() as int) =~= out[i].1);
                    } else {
                        assert(r[i] == out[i]);
                        assert(r[i].1.subrange(0, out[i].1.len() as int) =~= out[i].1);
                    }
                }
            },
            None => {
                assert forall|i: int| 0 <= i < out.len() implies {
                    &&& (#[trigger] r[i]).0 == out[i].0
                    &&& out[i].1.len() <= r[i].1.len()
                    &&& r[i].1.subrange(0, out[i].1.len() as int) == out[i].1
                } by {
                    assert(r[i] == out[i]);
                    assert(r[i].1.subrange(0, out[i].1.len() as int) =~= out[i].1);
                }
            },
        }
    } else {
        assert forall|i: int| 0 <= i < out.len() implies {
            &&& (#[trigger] r[i]).0 == out[i].0
            &&& out[i].1.len() <= r[i].1.len()
            &&& r[i].1.subrange(0, out[i].1.len() as int) == out[i].1
        } by {
            assert(r[i].1.subrange(0, out[i].1.len() as int) =~= out[i].1);
        }
    }
}

/// Reading more lines only adds rows and sections: the report read from the
/// first `k` lines is extended by the report read from all of them.
pub proof fn lemma_memory_fold_extends(ls: Seq<Seq<char>>, k: int)
    requires
        0 <= k <= ls.len(),
    ensures
        extends_sections(memory_fold(ls.take(k)).1, memory_fold(ls).1),
    decreases ls.len(),
{
    if k == ls.len() {
        assert(ls.take(k) =~= ls);
        let a = memory_fold(ls).1;
        assert forall|i: int| 0 <= i < a.len() implies {
            &&& (#[trigger] a[i]).0 == a[i].0
            &&& a[i].1.len() <= a[i].1.len()
            &&& a[i].1.subrange(0, a[i].1.len() as int) == a[i].1
        } by {
            assert(a[i].1.subrange(0, a[i].1.len() as int) =~= a[i].1);
        }
    } else {
        let init = ls.drop_last();
        lemma_memory_fold_extends(init, k);
        assert(init.take(k) =~= ls.take(k));
        lemma_memory_step_extends(memory_fold(init), ls.last());
        lemma_extends_sections_trans(memory_fold(ls.take(k)).1, memory_fold(init).1, memory_fold(ls).1);
    }
}

/// The rows of the memory report's lines before its first section header go
/// under `General`: read alone they make at most the one section `General`,
/// and the whole report opens with that section, its first rows being those
/// rows in order.
pub proof fn lemma_memory_rows_before_header(body: Seq<char>, k: int)
    requires
        0 <= k <= lines(body).len(),
        forall|j: int| 0 <= j < k ==> !is_section_header(#[trigger] lines(body)[j]),
    ensures
        ({
            let pre = memory_fold(lines(body).take(k)).1;
            let all = memory_fold(lines(body)).1;
            &&& pre.len() <= 1
            &&& forall|i: int|
                0 <= i < pre.len() ==> {
                    &&& (#[trigger] pre[i]).0 == "General"@
                    &&& all[i].0 == "General"@
                    &&& pre[i].1.len() <= all[i].1.len()
                    &&& all[i].1.subrange(0, pre[i].1.len() as int) == pre[i].1
                }
        }),
{
    let ls = lines(body);
    let head = ls.take(k);
    assert forall|j: int| 0 <= j < head.len() implies !is_section_header(#[trigger] head[j]) by {
        assert(head[j] == ls[j]);
    }
    lemma_memory_fold_rows(head);
    lemma_memory_fold_wf(head);
    lemma_memory_fold_extends(ls, k);
    let pre = memory_fold(head).1;
    if pre.len() >= 2 {
        assert(pre[0].0 == "General"@);
        assert(pre[1].0 == "General"@);
    }
}

} // verus!

verus! {

// ---------------------------------------------------------------------------
// Room lines taken apart field by field
// ---------------------------------------------------------------------------

pub proof fn lemma_next_char_shift(s: Seq<char>, c: char, off: int, i: int)
    requires
        0 <= off <= s.len(),
        0 <= i <= s.len() - off,
    ensures
        next_char(s, c, off + i) == off + next_char(s.subrange(off, s.len() as int), c, i),
    decreases s.len() - off - i,
{
    let b = s.subrange(off, s.len() as int);
    if i < b.len() {
        assert(s[off + i] == b[i]);
        if b[i] != c {
            lemma_next_char_shift(s, c, off, i + 1);
        }
    }
}

pub proof fn lemma_split_from_shift(s: Seq<char>, c: char, off: int, i: int)
    requires
        0 <= off <= s.len(),
        0 <= i <= s.len() - off,
    ensures
        split_from(s, c, off + i) == split_from(s.subrange(off, s.len() as int), c, i),
    decreases s.len() - off - i,
{
    let b = s.subrange(off, s.len() as int);
    lemma_next_char_shift(s, c, off, i);
    lemma_next_char(b, c, i);
    let e = next_char(b, c, i);
    if e < b.len() {
        lemma_split_from_shift(s, c, off, e + 1);
        assert(s.subrange(off + i, off + e) =~= b.subrange(i, e));
    } else {
        assert(s.subrange(off + i, s.len() as int) =~= b.subrange(i, b.len() as int));
    }
}

/// Splitting at `c` text that starts with a piece free of `c`, then `c`:
/// that piece comes first, then the pieces of the rest.
pub proof fn lemma_split_cons(a: Seq<char>, b: Seq<char>, c: char)
    requires
        forall|j: int| 0 <= j < a.len() ==> #[trigger] a[j] != c,
    ensures
        split(a + seq![c] + b, c) == seq![a] + split(b, c),
{
    let s = a + seq![c] + b;
    let n = a.len() as int;
    lemma_next_char(s, c, 0);
    assert(s[n] == c);
    if next_char(s, c, 0) < n {
        assert(s[next_char(s, c, 0)] == a[next_char(s, c, 0)]);
    }
    assert(next_char(s, c, 0) == n);
    lemma_split_from_shift(s, c, n + 1, 0);
    assert(s.subrange(n + 1, s.len() as int) =~= b);
    assert(s.subrange(0, n) =~= a);
}

/// Text free of `c` splits into itself alone.
pub proof fn lemma_split_single(a: Seq<char>, c: char)
    requires
        forall|j: int| 0 <= j < a.len() ==> #[trigger] a[j] != c,
    ensures
        split(a, c) == seq![a],
{
    lemma_next_char(a, c, 0);
    if next_char(a, c, 0) < a.len() {
        assert(a[next_char(a, c, 0)] != c);
    }
    assert(a.subrange(0, a.len() as int) =~= a);
}

/// A space followed by text trims like the text.
pub proof fn lemma_trim_after_space(x: Seq<char>)
    ensures
        trim(seq![' '] + x) == trim(x),
{
    let s = seq![' '] + x;
    assert(s.drop_first() =~= x);
    assert(trim_start(s) == trim_start(x));
}

/// Text that neither starts nor ends with whitespace is its own trim.
pub proof fn lemma_trim_fixed(s: Seq<char>)
    requires
        s.len() > 0,
        !is_ws(s[0]),
        !is_ws(s.last()),
    ensures
        trim(s) == s,
{
    assert(trim_start(s) == s);
    assert(trim_end(s) == s);
}

/// The tab-separated line `r \t Members: m \t Name: x` taken apart.
pub proof fn lemma_room_line_parts(r: Seq<char>, m: Seq<char>, x: Seq<char>)
    requires
        r.len() > 0 && r[0] == '!' && !is_ws(r.last()),
        x.len() > 0 && !is_ws(x.last()),
        forall|j: int| 0 <= j < r.len() ==> #[trigger] r[j] != '\t',
        forall|j: int| 0 <= j < m.len() ==> #[trigger] m[j] != '\t',
        forall|j: int| 0 <= j < x.len() ==> #[trigger] x[j] != '\t',
    ensures
        ({
            let l = r + seq!['\t'] + "Members: "@ + m + seq!['\t'] + "Name: "@ + x;
            &&& trim(l) == l
            &&& starts_with(l, seq!['!'])
            &&& split(l, '\t') == seq![r, "Members: "@ + m, "Name: "@ + x]
            &&& trim("Name: "@ + x) == "Name: "@ + x
            &&& strip_prefix("Name: "@ + x, "Name:"@) == Some(seq![' '] + x)
            &&& !starts_with("Name: "@ + x, "Members:"@)
            &&& strip_prefix("Name: "@ + x, "Members:"@) is None
        }),
{
    reveal_strlit("Members: ");
    reveal_strlit("Name: ");
    reveal_strlit("Name:");
    reveal_strlit("Members:");
    let mm = "Members: "@ + m;
    let nx = "Name: "@ + x;
    let l = r + seq!['\t'] + mm + seq!['\t'] + nx;
    assert(r + seq!['\t'] + "Members: "@ + m + seq!['\t'] + "Name: "@ + x =~= l);
    assert(l[0] == '!');
    assert(l.last() == x.last());
    lemma_trim_fixed(l);
    assert(l.subrange(0, 1) =~= seq!['!']);
    assert forall|j: int| 0 <= j < mm.len() implies #[trigger] mm[j] != '\t' by {
        if j >= 9 {
            assert(mm[j] == m[j - 9]);
        }
    }
    assert forall|j: int| 0 <= j < nx.len() implies #[trigger] nx[j] != '\t' by {
        if j >= 6 {
            assert(nx[j] == x[j - 6]);
        }
    }
    assert(l =~= r + seq!['\t'] + (mm + seq!['\t'] + nx));
    lemma_split_cons(r, mm + seq!['\t'] + nx, '\t');
    lemma_split_cons(mm, nx, '\t');
    lemma_split_single(nx, '\t');
    assert(split(l, '\t') =~= seq![r, mm, nx]);
    assert(nx[0] == 'N');
    assert(nx.last() == x.last());
    lemma_trim_fixed(nx);
    assert(nx.subrange(0, 5) =~= "Name:"@);
    assert(nx.subrange(5, nx.len() as int) =~= seq![' '] + x);
    assert(!starts_with(nx, "Members:"@)) by {
        if nx.len() >= 8 {
            assert(nx.subrange(0, 8)[0] == nx[0]);
            assert(nx[0] != "Members:"@[0]);
        }
    }
}

/// A `rooms list` line `!r \t Members: m \t Name: x` makes the row with room
/// id `r`, the trimmed name `x` with its inner spaces (left out when it is
/// the room id), and the member count `m` (0 when it does not parse).
pub proof fn lemma_room_line_fields(r: Seq<char>, m: Seq<char>, x: Seq<char>)
    requires
        r.len() > 0 && r[0] == '!' && !is_ws(r.last()),
        m.len() > 0 && !is_ws(m[0]) && !is_ws(m.last()),
        x.len() > 0 && !is_ws(x.last()),
        forall|j: int| 0 <= j < r.len() ==> #[trigger] r[j] != '\t',
        forall|j: int| 0 <= j < m.len() ==> #[trigger] m[j] != '\t',
        forall|j: int| 0 <= j < x.len() ==> #[trigger] x[j] != '\t',
    ensures
        room_line(r + seq!['\t'] + "Members: "@ + m + seq!['\t'] + "Name: "@ + x) == Some(
            RoomRowView {
                room_id: r,
                name: if trim(x) == r {
                    seq![]
                } else {
                    trim(x)
                },
                members: match parse_u32(m) {
                    Some(n) => n,
                    None => 0,
                },
            },
        ),
{
    reveal_strlit("Members: ");
    reveal_strlit("Members:");
    lemma_room_line_parts(r, m, x);
    lemma_trim_fixed(r);
    lemma_trim_after_space(x);
    lemma_trim_fixed(m);
    lemma_trim_after_space(m);
    let mm = "Members: "@ + m;
    let nx = "Name: "@ + x;
    let fields = seq![r, mm, nx].drop_first();
    assert(fields =~= seq![mm, nx]);
    assert(fields.drop_last() =~= seq![mm]);
    assert(seq![mm].drop_last() =~= Seq::<Seq<char>>::empty());
    assert(mm[0] == 'M');
    assert(mm.last() == m.last());
    lemma_trim_fixed(mm);
    assert(mm.subrange(0, 8) =~= "Members:"@);
    assert(strip_prefix(mm, "Members:"@) == Some(seq![' '] + m)) by {
        assert(mm.subrange(8, mm.len() as int) =~= seq![' '] + m);
    }
    assert(name_field(fields) == trim(x));
    assert(seq![mm].last() == mm);
    assert(members_field(seq![mm]) == match parse_u32(m) {
        Some(n) => n,
        None => 0,
    });
    assert(fields.last() == "Name: "@ + x);
    assert(members_field(fields) == members_field(fields.drop_last()));
    assert(members_field(fields) == match parse_u32(m) {
        Some(n) => n,
        None => 0,
    });
}

/// A `users list-joined-rooms` line `!r \t Members: m \t Name: x` makes the
/// row with room id `r`, the member count `m` (0 when it does not parse) and
/// the name `x` trimmed, inner spaces kept.
pub proof fn lemma_joined_room_line_fields(r: Seq<char>, m: Seq<char>, x: Seq<char>)
    requires
        r.len() > 0 && r[0] == '!' && !is_ws(r.last()),
        m.len() > 0 && !is_ws(m[0]) && !is_ws(m.last()),
        x.len() > 0 && !is_ws(x.last()),
        forall|j: int| 0 <= j < r.len() ==> #[trigger] r[j] != '\t',
        forall|j: int| 0 <= j < m.len() ==> #[trigger] m[j] != '\t',
        forall|j: int| 0 <= j < x.len() ==> #[trigger] x[j] != '\t',
    ensures
        joined_room_line(r + seq!['\t'] + "Members: "@ + m + seq!['\t'] + "Name: "@ + x) == Some(
            JoinedRoomView {
                room_id: r,
                members: match parse_u32(m) {
                    Some(n) => n,
                    None => 0,
                },
                name: trim(x),
            },
        ),
{
    reveal_strlit("Members: ");
    reveal_strlit("Members:");
    lemma_room_line_parts(r, m, x);
    lemma_trim_fixed(r);
    lemma_trim_after_space(x);
    lemma_trim_fixed(m);
    lemma_trim_after_space(m);
    let mm = "Members: "@ + m;
    assert(mm[0] == 'M');
    assert(mm.last() == m.last());
    lemma_trim_fixed(mm);
    assert(mm.subrange(0, 8) =~= "Members:"@);
    assert(mm.subrange(8, mm.len() as int) =~= seq![' '] + m);
}

} // verus!

verus! {

/// A token bullet ``- `tok` tail`` makes the row for token `tok` (trimmed)
/// whose expiration is the trimmed text between the last `(` and the last
/// `)` of the tail when that `(` comes first, and none otherwise, whatever
/// else the tail says (a use limit or not).
pub proof fn lemma_token_line_expiration(tok: Seq<char>, tail: Seq<char>)
    requires
        forall|j: int| 0 <= j < tok.len() ==> #[trigger] tok[j] != '`',
        trim(tok).len() > 0,
        tail.len() == 0 || !is_ws(tail.last()),
    ensures
        token_line(seq!['-', ' ', '`'] + tok + seq!['`'] + tail) matches Some(row) && row.token
            == trim(tok) && row.expiration == match (rfind(tail, seq!['(']), rfind(tail, seq![')'])) {
            (Some(a), Some(b)) => if a < b {
                Some(trim(tail.subrange(a + 1, b)))
            } else {
                None
            },
            _ => None,
        },
{
    reveal_strlit("- ");
    let l = seq!['-', ' ', '`'] + tok + seq!['`'] + tail;
    assert(l[0] == '-');
    if tail.len() == 0 {
        assert(l.last() == '`');
    } else {
        assert(l.last() == tail.last());
    }
    lemma_trim_fixed(l);
    assert(l.subrange(0, 2) =~= "- "@);
    let b = l.subrange(2, l.len() as int);
    assert(bullet(l) == Some(b));
    assert(b.subrange(0, 1) =~= seq!['`']);
    let rest = b.subrange(1, b.len() as int);
    assert(rest =~= tok + seq!['`'] + tail);
    lemma_find_char(rest, '`');
    let n = tok.len() as int;
    assert(rest[n] == '`');
    if let Some(k) = find(rest, seq!['`']) {
        if k < n {
            assert(rest[k] == tok[k]);
        }
    }
    assert(find(rest, seq!['`']) == Some(n));
    assert(rest.subrange(0, n) =~= tok);
    assert(rest.subrange(n + 1, rest.len() as int) =~= tail);
}

} // verus!

verus! {

// ---------------------------------------------------------------------------
// Device dump: what a field line sets
// ---------------------------------------------------------------------------

/// `"x"` quoted.
pub open spec fn quoted(x: Seq<char>) -> Seq<char> {
    seq!['"'] + x + seq!['"']
}

/// `Some("x")`.
pub open spec fn some_quoted(x: Seq<char>) -> Seq<char> {
    "Some("@ + quoted(x) + seq![')']
}

/// An optional trailing comma.
pub open spec fn comma_if(comma: bool) -> Seq<char> {
    if comma {
        seq![',']
    } else {
        Seq::<char>::empty()
    }
}

/// Text not ending with `c` loses nothing to `trim_end_char`, and one `c`
/// appended to it is all that goes.
pub proof fn lemma_trim_end_char_one(s: Seq<char>, c: char, extra: bool)
    requires
        s.len() > 0,
        s.last() != c,
    ensures
        trim_end_char(s + (if extra { seq![c] } else { Seq::<char>::empty() }), c) == s,
{
    assert(trim_end_char(s, c) == s);
    if extra {
        assert((s + seq![c]).drop_last() =~= s);
    } else {
        assert(s + Seq::<char>::empty() =~= s);
    }
}

/// A value written after a field's colon, `v` or `v,` with `v` trimmed and
/// not ending in a comma, comes out of `debug_trim` as `v`.
pub proof fn lemma_debug_trim_value(v: Seq<char>, comma: bool)
    requires
        v.len() > 0,
        !is_ws(v[0]),
        !is_ws(v.last()),
        v.last() != ',',
    ensures
        debug_trim(seq![' '] + v + comma_if(comma)) == v,
{
    let w = v + comma_if(comma);
    assert(seq![' '] + v + comma_if(comma) =~= seq![' '] + w);
    lemma_trim_after_space(w);
    assert(w[0] == v[0]);
    if comma {
        assert(w.last() == ',');
    } else {
        assert(w =~= v);
    }
    lemma_trim_fixed(w);
    lemma_trim_end_char_one(v, ',', comma);
    lemma_trim_fixed(v);
}

/// `Some("x")` is read as the value `x`, and `"x"` as `x`, whatever `x` holds.
pub proof fn lemma_parse_debug_quoted(x: Seq<char>)
    ensures
        spec_parse_debug_value(some_quoted(x)) == Some(x),
        spec_parse_debug_value(quoted(x)) == Some(x),
{
    reveal_strlit("Some(");
    reveal_strlit("None");
    let q = quoted(x);
    let s = some_quoted(x);
    assert(q[0] == '"' && q.last() == '"');
    lemma_trim_fixed(q);
    lemma_trim_end_char_one(q, ',', false);
    assert(q + Seq::<char>::empty() =~= q);
    assert(debug_trim(q) == q);
    assert(strip_prefix(q, seq!['"']) == Some(x + seq!['"'])) by {
        assert(q.subrange(0, 1) =~= seq!['"']);
        assert(q.subrange(1, q.len() as int) =~= x + seq!['"']);
    }
    let xq = x + seq!['"'];
    assert(strip_suffix(xq, seq!['"']) == Some(x)) by {
        assert(xq.subrange(xq.len() - 1, xq.len() as int) =~= seq!['"']);
        assert(xq.subrange(0, xq.len() - 1) =~= x);
    }
    // `"x"` itself
    assert(q != "None"@) by {
        assert(q[0] != "None"@[0]);
    }
    if strip_prefix(q, "Some("@) is Some {
        assert(q.subrange(0, 5)[0] == q[0]);
        assert(false);
    }
    if strip_suffix(q, seq![')']) is Some {
        assert(q.subrange(q.len() - 1, q.len() as int)[0] == q.last());
        assert(false);
    }
    // `Some("x")`
    assert(s[0] == 'S' && s.last() == ')');
    lemma_trim_fixed(s);
    lemma_trim_end_char_one(s, ',', false);
    assert(s + Seq::<char>::empty() =~= s);
    assert(debug_trim(s) == s);
    assert(s != "None"@) by {
        assert(s[0] != "None"@[0]);
    }
    assert(s.subrange(0, 5) =~= "Some("@);
    let b = s.subrange(5, s.len() as int);
    assert(b =~= q + seq![')']);
    assert(strip_suffix(b, seq![')']) == Some(q)) by {
        assert(b.subrange(b.len() - 1, b.len() as int) =~= seq![')']);
        assert(b.subrange(0, b.len() - 1) =~= q);
    }
}

} // verus!

verus! {

/// A `key: v` field line inside a device block hands the value read from
/// `v` to the field named `key`.
proof fn lemma_device_line(
    d: DeviceRowView,
    done: Seq<DeviceRowView>,
    raw: Seq<char>,
    key: Seq<char>,
    v: Seq<char>,
    comma: bool,
)
    requires
        key.len() > 0,
        !is_ws(key[0]),
        !is_ws(key.last()),
        key[0] != 'D' && key[0] != '}',
        forall|j: int| 0 <= j < key.len() ==> #[trigger] key[j] != ':',
        v.len() > 0,
        !is_ws(v[0]),
        !is_ws(v.last()),
        v.last() != ',',
        trim(raw) == key + seq![':', ' '] + v + comma_if(comma),
    ensures
        device_step((Some(d), done), raw) == match device_field(d, key, spec_parse_debug_value(v)) {
            Some(d2) => (Some(d2), done),
            None => (Some(d), done),
        },
{
    reveal_strlit("Device {");
    reveal_strlit("},");
    reveal_strlit("}");
    let line = trim(raw);
    assert(line[0] == key[0]);
    if starts_with(line, "Device {"@) {
        assert(line.subrange(0, 8)[0] == line[0]);
        assert(false);
    }
    assert(line != "},"@ && line != "}"@) by {
        assert("},"@[0] == '}');
        assert("}"@[0] == '}');
    }
    let n = key.len() as int;
    lemma_find_char(line, ':');
    assert(line[n] == ':');
    if let Some(k) = find(line, seq![':']) {
        if k < n {
            assert(line[k] == key[k]);
        }
    }
    assert(find(line, seq![':']) == Some(n));
    assert(line.subrange(0, n) =~= key);
    assert(line.subrange(n + 1, line.len() as int) =~= seq![' '] + v + comma_if(comma));
    lemma_trim_fixed(key);
    lemma_debug_trim_value(v, comma);
}

/// Inside a device block, a line `key: Some("x")` (with or without a
/// trailing comma) sets the field `key` (display name, last-seen address or
/// last-seen time) to `x`, and leaves every other field as it was.
pub proof fn lemma_device_some_line(
    d: DeviceRowView,
    done: Seq<DeviceRowView>,
    raw: Seq<char>,
    key: Seq<char>,
    x: Seq<char>,
    comma: bool,
)
    requires
        key == "display_name"@ || key == "last_seen_ip"@ || key == "last_seen_ts"@,
        trim(raw) == key + seq![':', ' '] + some_quoted(x) + comma_if(comma),
    ensures
        device_step((Some(d), done), raw) == (
            Some(
                if key == "display_name"@ {
                    DeviceRowView { display_name: Some(x), ..d }
                } else if key == "last_seen_ip"@ {
                    DeviceRowView { last_seen_ip: Some(x), ..d }
                } else {
                    DeviceRowView { last_seen_ts: Some(x), ..d }
                },
            ),
            done,
        ),
{
    reveal_strlit("display_name");
    reveal_strlit("last_seen_ip");
    reveal_strlit("last_seen_ts");
    reveal_strlit("device_id");
    reveal_strlit("Some(");
    let v = some_quoted(x);
    assert(v[0] == 'S' && v.last() == ')');
    lemma_device_line(d, done, raw, key, v, comma);
    lemma_parse_debug_quoted(x);
}

/// Inside a device block, a line `key: None` clears the field `key`.
pub proof fn lemma_device_none_line(
    d: DeviceRowView,
    done: Seq<DeviceRowView>,
    raw: Seq<char>,
    key: Seq<char>,
    comma: bool,
)
    requires
        key == "display_name"@ || key == "last_seen_ip"@ || key == "last_seen_ts"@,
        trim(raw) == key + seq![':', ' '] + "None"@ + comma_if(comma),
    ensures
        device_step((Some(d), done), raw) == (
            Some(
                if key == "display_name"@ {
                    DeviceRowView { display_name: None, ..d }
                } else if key == "last_seen_ip"@ {
                    DeviceRowView { last_seen_ip: None, ..d }
                } else {
                    DeviceRowView { last_seen_ts: None, ..d }
                },
            ),
            done,
        ),
{
    reveal_strlit("display_name");
    reveal_strlit("last_seen_ip");
    reveal_strlit("last_seen_ts");
    reveal_strlit("device_id");
    reveal_strlit("None");
    let v = "None"@;
    lemma_device_line(d, done, raw, key, v, comma);
    lemma_trim_fixed(v);
    lemma_trim_end_char_one(v, ',', false);
    assert(v + Seq::<char>::empty() =~= v);
}

/// Inside a device block, a line `device_id: "x"` sets the device id to `x`.
pub proof fn lemma_device_id_line(
    d: DeviceRowView,
    done: Seq<DeviceRowView>,
    raw: Seq<char>,
    x: Seq<char>,
    comma: bool,
)
    requires
        trim(raw) == "device_id"@ + seq![':', ' '] + quoted(x) + comma_if(comma),
    ensures
        device_step((Some(d), done), raw) == (Some(DeviceRowView { device_id: x, ..d }), done),
{
    reveal_strlit("device_id");
    let v = quoted(x);
    assert(v[0] == '"' && v.last() == '"');
    lemma_device_line(d, done, raw, "device_id"@, v, comma);
    lemma_parse_debug_quoted(x);
}

} // verus!

verus! {

/// A device block `Device {`, `device_id: "id"`, `key: Some("y")`, `},` read
/// after any lines adds one row to the devices read so far: the device `id`
/// with the field `key` set to `y` and the other fields empty.
pub proof fn lemma_device_block(
    ls: Seq<Seq<char>>,
    open: Seq<char>,
    id_line: Seq<char>,
    id: Seq<char>,
    field_line: Seq<char>,
    key: Seq<char>,
    y: Seq<char>,
    close: Seq<char>,
    c1: bool,
    c2: bool,
)
    requires
        trim(open) == "Device {"@,
        trim(id_line) == "device_id"@ + seq![':', ' '] + quoted(id) + comma_if(c1),
        id.len() > 0,
        key == "display_name"@ || key == "last_seen_ip"@ || key == "last_seen_ts"@,
        trim(field_line) == key + seq![':', ' '] + some_quoted(y) + comma_if(c2),
        trim(close) == "},"@,
    ensures
        device_fold(ls + seq![open, id_line, field_line, close]) == (
            None::<DeviceRowView>,
            device_fold(ls).1.push(
                if key == "display_name"@ {
                    DeviceRowView { device_id: id, display_name: Some(y), last_seen_ip: None, last_seen_ts: None }
                } else if key == "last_seen_ip"@ {
                    DeviceRowView { device_id: id, display_name: None, last_seen_ip: Some(y), last_seen_ts: None }
                } else {
                    DeviceRowView { device_id: id, display_name: None, last_seen_ip: None, last_seen_ts: Some(y) }
                },
            ),
        ),
{
    reveal_strlit("Device {");
    let all = ls + seq![open, id_line, field_line, close];
    assert(all.drop_last() =~= ls + seq![open, id_line, field_line]);
    assert((ls + seq![open, id_line, field_line]).drop_last() =~= ls + seq![open, id_line]);
    assert((ls + seq![open, id_line]).drop_last() =~= ls.push(open));
    assert(ls.push(open).drop_last() =~= ls);
    let done = device_fold(ls).1;
    assert(trim(open).subrange(0, 8) =~= "Device {"@);
    let s1 = device_fold(ls.push(open));
    assert(s1 == (Some(empty_device()), done));
    lemma_device_id_line(empty_device(), done, id_line, id, c1);
    let d1 = DeviceRowView { device_id: id, ..empty_device() };
    assert(device_fold(ls + seq![open, id_line]) == (Some(d1), done));
    lemma_device_some_line(d1, done, field_line, key, y, c2);
    let s3 = device_fold(ls + seq![open, id_line, field_line]);
    assert(s3.1 == done);
    assert(s3.0 is Some);
    let d3 = s3.0->Some_0;
    assert(d3.device_id == id);
    reveal_strlit("},");
    if starts_with(trim(close), "Device {"@) {
        assert(trim(close).len() < 8);
    }
}

} // verus!
