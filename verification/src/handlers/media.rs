//! The media page's forms, as admin commands.

use vstd::prelude::*;
use vstd::string::*;
use vstd::utf8::encode_utf8;

use crate::handlers::{
    checkbox, checked, cmd_flag, is_single_line, join_lines, opt_seq, opt_str, required_line,
    spec_cmd_flag, spec_split_lines, spec_with_fenced_payload, split_lines, with_fenced_payload,
    Plan, Refusal,
};
use crate::matrix::{percent_encode, url_encode};
use crate::text::{decimal, decimal_string, join, trim, trim_str};

verus! {

/// The media page's query: the MXC URL to look up.
#[derive(Debug, Clone, Default)]
pub struct LookupQuery {
    pub mxc: Option<String>,
}

/// The delete-file form.
#[derive(Debug, Clone)]
pub struct DeleteMxcForm {
    pub mxc: String,
}

/// The delete-by-event form.
#[derive(Debug, Clone)]
pub struct DeleteByEventForm {
    pub event_id: String,
}

/// The delete-many form: MXC URLs one per line.
#[derive(Debug, Clone)]
pub struct DeleteListForm {
    pub mxcs: String,
}

/// The delete-by-age form: `newer` or else older than a duration.
#[derive(Debug, Clone)]
pub struct DeleteRangeForm {
    pub duration: String,
    pub direction: String,
    pub include_local: Option<String>,
}

/// The delete-a-user's-media form.
#[derive(Debug, Clone)]
pub struct DeleteFromUserForm {
    pub user: String,
}

/// The delete-a-server's-media form.
#[derive(Debug, Clone)]
pub struct DeleteFromServerForm {
    pub server: String,
    pub include_local: Option<String>,
}

/// The fetch-remote-media form.
#[derive(Debug, Clone)]
pub struct FetchRemoteForm {
    pub mxc: String,
    pub server: Option<String>,
    pub timeout: Option<String>,
    pub thumbnail: Option<String>,
    pub width: Option<String>,
    pub height: Option<String>,
}

/// The MXC URL to look up, when the query names one that is not blank.
pub fn lookup_mxc(q: &LookupQuery) -> (r: Option<&str>)
    ensures
        match r {
            Some(m) => q.mxc is Some && m@ == trim(q.mxc->0@) && m@.len() > 0,
            None => q.mxc is None || trim(q.mxc->0@).len() == 0,
        },
{
    match opt_str(&q.mxc) {
        Some(m) => {
            let t = trim_str(m);
            if t.is_empty() {
                None
            } else {
                Some(t)
            }
        },
        None => None,
    }
}

/// The refusal of a blank or multi-line media form value.
pub open spec fn line_refused(value: Seq<char>, e: Refusal, missing: Seq<char>, multiline: Seq<char>) -> bool {
    &&& e.to@ == "/media"@
    &&& if trim(value).len() == 0 {
        e.msg@ == missing
    } else {
        !is_single_line(trim(value)) && e.msg@ == multiline
    }
}

/// A usable one-line media form value.
pub open spec fn line_ok(value: Seq<char>) -> bool {
    trim(value).len() > 0 && is_single_line(trim(value))
}

/// Delete one media file by MXC URL.
pub fn delete(f: &DeleteMxcForm) -> (r: Result<Plan, Refusal>)
    ensures
        match r {
            Ok(p) => {
                &&& line_ok(f.mxc@)
                &&& p.cmd@ == "media delete --mxc "@ + trim(f.mxc@)
                &&& p.success@ == "Deleted "@ + trim(f.mxc@)
                &&& p.to@ == "/media"@
            },
            Err(e) => line_refused(
                f.mxc@,
                e,
                "MXC URL is required."@,
                "MXC URL cannot contain line breaks."@,
            ),
        },
{
    let m = required_line(f.mxc.as_str(), "MXC URL is required.", "MXC URL cannot contain line breaks.", "/media")?;
    let mut cmd = String::from_str("media delete --mxc ");
    cmd.append(m);
    let mut success = String::from_str("Deleted ");
    success.append(m);
    Ok(Plan { cmd, success, to: String::from_str("/media") })
}

/// Delete the media of one event.
pub fn delete_by_event(f: &DeleteByEventForm) -> (r: Result<Plan, Refusal>)
    ensures
        match r {
            Ok(p) => {
                &&& line_ok(f.event_id@)
                &&& p.cmd@ == "media delete-by-event --event-id "@ + trim(f.event_id@)
                &&& p.success@ == "Deleted media for "@ + trim(f.event_id@)
                &&& p.to@ == "/media"@
            },
            Err(e) => line_refused(
                f.event_id@,
                e,
                "Event ID is required."@,
                "Event ID cannot contain line breaks."@,
            ),
        },
{
    let evt = required_line(
        f.event_id.as_str(),
        "Event ID is required.",
        "Event ID cannot contain line breaks.",
        "/media",
    )?;
    let mut cmd = String::from_str("media delete-by-event --event-id ");
    cmd.append(evt);
    let mut success = String::from_str("Deleted media for ");
    success.append(evt);
    Ok(Plan { cmd, success, to: String::from_str("/media") })
}

/// Delete every media file listed one per line, as a fenced payload.
pub fn delete_list(f: &DeleteListForm) -> (r: Result<Plan, Refusal>)
    ensures
        match r {
            Ok(p) => {
                let ids = spec_split_lines(f.mxcs@);
                &&& ids.len() > 0
                &&& p.cmd@ == spec_with_fenced_payload("media delete-list"@, join(ids, "\n"@))
                &&& p.success@ == "Deleted "@ + decimal(ids.len()) + " media file(s)"@
                &&& p.to@ == "/media"@
            },
            Err(e) => {
                &&& spec_split_lines(f.mxcs@).len() == 0
                &&& e.msg@ == "Provide a list of MXC URLs."@
                &&& e.to@ == "/media"@
            },
        },
{
    let ids = split_lines(f.mxcs.as_str());
    if ids.len() == 0 {
        return Err(Refusal { msg: String::from_str("Provide a list of MXC URLs."), to: String::from_str("/media") });
    }
    let payload = join_lines(&ids);
    let cmd = with_fenced_payload("media delete-list", payload.as_str());
    let mut success = String::from_str("Deleted ");
    let n = decimal_string(ids.len());
    success.append(n.as_str());
    success.append(" media file(s)");
    Ok(Plan { cmd, success, to: String::from_str("/media") })
}

/// Delete the media newer (direction `newer`) or else older than a duration,
/// local media included only when the box is checked.
pub fn delete_range(f: &DeleteRangeForm) -> (r: Result<Plan, Refusal>)
    ensures
        match r {
            Ok(p) => {
                let d = trim(f.duration@);
                let newer = f.direction@ == "newer"@;
                &&& line_ok(f.duration@)
                &&& p.cmd@ == "media delete-range"@ + (if newer {
                    " --newer-than"@
                } else {
                    " --older-than"@
                }) + (if checked(f.include_local) {
                    " --yes-i-want-to-delete-local-media"@
                } else {
                    Seq::<char>::empty()
                }) + " "@ + d
                &&& p.success@ == (if newer {
                    "Deleted media newer than "@ + d
                } else {
                    "Deleted media older than "@ + d
                })
                &&& p.to@ == "/media"@
            },
            Err(e) => line_refused(
                f.duration@,
                e,
                "Duration is required."@,
                "Duration cannot contain line breaks."@,
            ),
        },
{
    let d = required_line(
        f.duration.as_str(),
        "Duration is required.",
        "Duration cannot contain line breaks.",
        "/media",
    )?;
    let newer = crate::text::str_eq(f.direction.as_str(), "newer");
    let mut cmd = String::from_str("media delete-range");
    if newer {
        cmd.append(" --newer-than");
    } else {
        cmd.append(" --older-than");
    }
    let ghost c1 = cmd@;
    if checkbox(opt_str(&f.include_local)) {
        cmd.append(" --yes-i-want-to-delete-local-media");
    } else {
        proof {
            reveal_strlit("");
            assert(cmd@ =~= c1 + Seq::<char>::empty());
        }
    }
    cmd.append(" ");
    cmd.append(d);
    let mut success = if newer {
        String::from_str("Deleted media newer than ")
    } else {
        String::from_str("Deleted media older than ")
    };
    success.append(d);
    Ok(Plan { cmd, success, to: String::from_str("/media") })
}

/// Delete all media a user uploaded.
pub fn delete_from_user(f: &DeleteFromUserForm) -> (r: Result<Plan, Refusal>)
    ensures
        match r {
            Ok(p) => {
                &&& line_ok(f.user@)
                &&& p.cmd@ == "media delete-all-from-user "@ + trim(f.user@)
                &&& p.success@ == "Deleted all media from "@ + trim(f.user@)
                &&& p.to@ == "/media"@
            },
            Err(e) => line_refused(
                f.user@,
                e,
                "User ID is required."@,
                "User ID cannot contain line breaks."@,
            ),
        },
{
    let u = required_line(f.user.as_str(), "User ID is required.", "User ID cannot contain line breaks.", "/media")?;
    let mut cmd = String::from_str("media delete-all-from-user ");
    cmd.append(u);
    let mut success = String::from_str("Deleted all media from ");
    success.append(u);
    Ok(Plan { cmd, success, to: String::from_str("/media") })
}

/// Delete all media from a server, local media included only when the box is checked.
pub fn delete_from_server(f: &DeleteFromServerForm) -> (r: Result<Plan, Refusal>)
    ensures
        match r {
            Ok(p) => {
                &&& line_ok(f.server@)
                &&& p.cmd@ == "media delete-all-from-server"@ + (if checked(f.include_local) {
                    " --yes-i-want-to-delete-local-media"@
                } else {
                    Seq::<char>::empty()
                }) + " "@ + trim(f.server@)
                &&& p.success@ == "Deleted media from "@ + trim(f.server@)
                &&& p.to@ == "/media"@
            },
            Err(e) => line_refused(
                f.server@,
                e,
                "Server name is required."@,
                "Server name cannot contain line breaks."@,
            ),
        },
{
    let s = required_line(
        f.server.as_str(),
        "Server name is required.",
        "Server name cannot contain line breaks.",
        "/media",
    )?;
    let mut cmd = String::from_str("media delete-all-from-server");
    let ghost c0 = cmd@;
    if checkbox(opt_str(&f.include_local)) {
        cmd.append(" --yes-i-want-to-delete-local-media");
    } else {
        proof {
            reveal_strlit("");
            assert(cmd@ =~= c0 + Seq::<char>::empty());
        }
    }
    cmd.append(" ");
    cmd.append(s);
    let mut success = String::from_str("Deleted media from ");
    success.append(s);
    Ok(Plan { cmd, success, to: String::from_str("/media") })
}

/// Fetch a remote file (or, when the box is checked, its thumbnail, with the
/// size fields) into the local media store; the page then looks it up.
pub fn fetch_remote(f: &FetchRemoteForm) -> (r: Result<Plan, Refusal>)
    ensures
        match r {
            Ok(p) => {
                let thumb = checked(f.thumbnail);
                let base = if thumb {
                    "media get-remote-thumbnail"@
                } else {
                    "media get-remote-file"@
                };
                let c1 = spec_cmd_flag(
                    spec_cmd_flag(base, "server"@, opt_seq(f.server)),
                    "timeout"@,
                    opt_seq(f.timeout),
                );
                let c2 = if thumb {
                    spec_cmd_flag(
                        spec_cmd_flag(c1, "width"@, opt_seq(f.width)),
                        "height"@,
                        opt_seq(f.height),
                    )
                } else {
                    c1
                };
                &&& line_ok(f.mxc@)
                &&& p.cmd@ == c2 + " "@ + trim(f.mxc@)
                &&& p.success@ == "Fetched "@ + trim(f.mxc@)
                &&& p.to@ == "/media?mxc="@ + percent_encode(encode_utf8(trim(f.mxc@)))
            },
            Err(e) => line_refused(
                f.mxc@,
                e,
                "MXC URL is required."@,
                "MXC URL cannot contain line breaks."@,
            ),
        },
{
    let m = required_line(f.mxc.as_str(), "MXC URL is required.", "MXC URL cannot contain line breaks.", "/media")?;
    let thumb = checkbox(opt_str(&f.thumbnail));
    let mut cmd = if thumb {
        String::from_str("media get-remote-thumbnail")
    } else {
        String::from_str("media get-remote-file")
    };
    cmd_flag(&mut cmd, "server", f.server.as_ref());
    cmd_flag(&mut cmd, "timeout", f.timeout.as_ref());
    if thumb {
        cmd_flag(&mut cmd, "width", f.width.as_ref());
        cmd_flag(&mut cmd, "height", f.height.as_ref());
    }
    cmd.append(" ");
    cmd.append(m);
    let mut to = String::from_str("/media?mxc=");
    let enc = url_encode(m);
    to.append(enc.as_str());
    let mut success = String::from_str("Fetched ");
    success.append(m);
    Ok(Plan { cmd, success, to })
}

} // verus!
