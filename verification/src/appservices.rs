//! Appservices: `appservices` admin-bot replies composed into typed rows.

use vstd::prelude::*;
use vstd::string::*;

use crate::matrix::LogEntry;
use crate::parse::{
    appservice_config_yaml, list_appservices, pairs, spec_fenced, spec_list_appservices, strs,
};
use crate::text::{
    chars_of, lines, lines_exec, seqs, split_once, split_once_exec, str_eq, string_of, trim,
    trim_char, trim_end_char, trimmed, trimmed_char,
};

verus! {

/// One registered appservice.
#[derive(Debug, Clone)]
pub struct AppserviceRow {
    pub id: String,
    /// Empty until the detail page has populated it from the registration YAML.
    pub sender_localpart: String,
    pub url: String,
}

/// An appservice's detail page.
#[derive(Debug, Clone)]
pub struct AppserviceDetail {
    pub row: AppserviceRow,
    pub fields: Vec<(String, String)>,
    pub config_yaml: String,
    /// Raw bot reply (includes the `Config for {id}:` header).
    pub config_raw: String,
    pub log: Vec<LogEntry>,
}

/// The ids an `appservices list` reply names (none when it does not parse).
pub open spec fn listed_ids(body: Seq<char>) -> Seq<Seq<char>> {
    match spec_list_appservices(body) {
        Some(v) => v,
        None => Seq::empty(),
    }
}

/// The appservice list: one row per listed id, the other fields empty.
pub fn list(body: &str) -> (r: Vec<AppserviceRow>)
    ensures
        r@.len() == listed_ids(body@).len(),
        forall|i: int|
            0 <= i < r@.len() ==> (#[trigger] r@[i]).id@ == listed_ids(body@)[i]
                && r@[i].sender_localpart@.len() == 0 && r@[i].url@.len() == 0,
{
    let ids = match list_appservices(body) {
        Some(v) => v,
        None => Vec::new(),
    };
    assert(strs(ids@) =~= listed_ids(body@));
    let mut out: Vec<AppserviceRow> = Vec::new();
    let mut i: usize = 0;
    while i < ids.len()
        invariant
            i <= ids@.len(),
            strs(ids@) == listed_ids(body@),
            out@.len() == i,
            forall|j: int|
                0 <= j < i ==> (#[trigger] out@[j]).id@ == listed_ids(body@)[j]
                    && out@[j].sender_localpart@.len() == 0 && out@[j].url@.len() == 0,
        decreases ids.len() - i,
    {
        assert(strs(ids@)[i as int] == ids@[i as int]@);
        out.push(
            AppserviceRow {
                id: String::from_str(ids[i].as_str()),
                sender_localpart: String::new(),
                url: String::new(),
            },
        );
        i = i + 1;
    }
    out
}

/// A top-level `key: value` line of a registration: not indented, not a list
/// item, with a key and a value once whitespace and quotes are removed.
pub open spec fn field_line(l: Seq<char>) -> Option<(Seq<char>, Seq<char>)> {
    if l.len() > 0 && (l[0] == ' ' || l[0] == '\t' || l[0] == '-') {
        None
    } else {
        match split_once(l, ':') {
            None => None,
            Some((k, v)) => {
                let key = trim(k);
                let value = trim_char(trim_char(trim(v), '"'), '\'');
                if key.len() > 0 && value.len() > 0 {
                    Some((key, value))
                } else {
                    None
                }
            },
        }
    }
}

pub open spec fn spec_extract_fields(yaml: Seq<char>) -> Seq<(Seq<char>, Seq<char>)> {
    lines(yaml).filter_map(|l: Seq<char>| field_line(l))
}

/// Top-level `key: value` scalars only. Ignores nested maps and lists, which
/// is enough for the headline fields shown on the detail page.
pub fn extract_fields(yaml: &str) -> (r: Vec<(String, String)>)
    ensures
        pairs(r@) == spec_extract_fields(yaml@),
{
    let cs = chars_of(yaml);
    let ls = lines_exec(&cs);
    let mut out: Vec<(String, String)> = Vec::new();
    let mut i: usize = 0;
    while i < ls.len()
        invariant
            i <= ls@.len(),
            seqs(ls@) == lines(yaml@),
            pairs(out@) == seqs(ls@).take(i as int).filter_map(|l: Seq<char>| field_line(l)),
        decreases ls.len() - i,
    {
        let ghost all = seqs(ls@);
        assert(all.take(i + 1).drop_last() =~= all.take(i as int));
        assert(all.take(i + 1).last() == ls@[i as int]@);
        let l = &ls[i];
        let nested = l.len() > 0 && (l[0] == ' ' || l[0] == '\t' || l[0] == '-');
        if !nested {
            if let Some((k, v)) = split_once_exec(l, ':') {
                let key = trimmed(&k);
                let v1 = trimmed(&v);
                let v2 = trimmed_char(&v1, '"');
                let value = trimmed_char(&v2, '\'');
                if key.len() > 0 && value.len() > 0 {
                    out.push((string_of(&key), string_of(&value)));
                    assert(pairs(out@) =~= all.take(i as int).filter_map(
                        |l: Seq<char>| field_line(l),
                    ).push((key@, value@)));
                }
            }
        }
        i = i + 1;
    }
    assert(seqs(ls@).take(ls@.len() as int) =~= seqs(ls@));
    out
}

/// The value of the first field named `key`, or nothing.
pub open spec fn spec_find_field(fields: Seq<(Seq<char>, Seq<char>)>, key: Seq<char>) -> Seq<char>
    decreases fields.len(),
{
    if fields.len() == 0 {
        Seq::empty()
    } else if fields[0].0 == key {
        fields[0].1
    } else {
        spec_find_field(fields.drop_first(), key)
    }
}

/// The value of the first field named `key`, or an empty string.
pub fn find_field(fields: &Vec<(String, String)>, key: &str) -> (r: String)
    ensures
        r@ == spec_find_field(pairs(fields@), key@),
{
    let ghost ps = pairs(fields@);
    let mut i: usize = 0;
    assert(ps.subrange(0, ps.len() as int) =~= ps);
    while i < fields.len()
        invariant
            i <= fields@.len(),
            ps == pairs(fields@),
            spec_find_field(ps, key@) == spec_find_field(ps.subrange(i as int, ps.len() as int), key@),
        decreases fields.len() - i,
    {
        assert(ps.subrange(i as int, ps.len() as int).drop_first() =~= ps.subrange(
            i + 1,
            ps.len() as int,
        ));
        if str_eq(fields[i].0.as_str(), key) {
            return String::from_str(fields[i].1.as_str());
        }
        i = i + 1;
    }
    String::new()
}

/// The command showing an appservice's registration.
pub fn show_config_command(id: &str) -> (cmd: String)
    ensures
        cmd@ == "appservices show-config "@ + id@,
{
    let mut cmd = String::from_str("appservices show-config ");
    cmd.append(id);
    cmd
}

/// The registration YAML inside a `show-config` reply, or nothing.
pub open spec fn config_yaml_of(body: Seq<char>) -> Seq<char> {
    match spec_fenced(body) {
        Some(f) => trim_end_char(f, '\n'),
        None => Seq::empty(),
    }
}

/// The row for `id`: the first listed one with that id, else a bare row.
pub open spec fn id_index(rows: Seq<AppserviceRow>, id: Seq<char>, i: int) -> Option<int>
    decreases rows.len() - i,
{
    if i < 0 || i >= rows.len() {
        None
    } else if rows[i].id@ == id {
        Some(i)
    } else {
        id_index(rows, id, i + 1)
    }
}

/// An appservice's detail page from the list rows and the reply to
/// `appservices show-config <id>`: the registration's fields, with the
/// sender localpart and URL filled into the row.
pub fn detail(rows: Vec<AppserviceRow>, id: &str, show_config_body: &str, log: Vec<LogEntry>) -> (d:
    AppserviceDetail)
    ensures
        d.row.id@ == (match id_index(rows@, id@, 0) {
            Some(k) => rows@[k].id@,
            None => id@,
        }),
        d.config_yaml@ == config_yaml_of(show_config_body@),
        pairs(d.fields@) == spec_extract_fields(config_yaml_of(show_config_body@)),
        d.row.sender_localpart@ == spec_find_field(pairs(d.fields@), "sender_localpart"@),
        d.row.url@ == spec_find_field(pairs(d.fields@), "url"@),
        d.config_raw@ == show_config_body@,
        d.log@ == log@,
{
    let ghost rs = rows@;
    let mut rows = rows;
    let mut i: usize = 0;
    while i < rows.len() && !str_eq(rows[i].id.as_str(), id)
        invariant
            i <= rows@.len(),
            rows@ == rs,
            id_index(rs, id@, 0) == id_index(rs, id@, i as int),
        decreases rows.len() - i,
    {
        i = i + 1;
    }
    let mut row = if i < rows.len() {
        rows.remove(i)
    } else {
        AppserviceRow { id: String::from_str(id), sender_localpart: String::new(), url: String::new() }
    };
    let config_yaml = match appservice_config_yaml(show_config_body) {
        Some(y) => y,
        None => String::new(),
    };
    let fields = extract_fields(config_yaml.as_str());
    row.sender_localpart = find_field(&fields, "sender_localpart");
    row.url = find_field(&fields, "url");
    AppserviceDetail {
        row,
        fields,
        config_yaml,
        config_raw: String::from_str(show_config_body),
        log,
    }
}

} // verus!
