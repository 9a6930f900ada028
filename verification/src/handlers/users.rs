//! The user pages' forms, as admin commands.

use vstd::prelude::*;
use vstd::string::*;

use crate::handlers::{
    checkbox, checked, field_text, join_lines, opt_str, spec_split_lines,
    spec_with_fenced_payload, split_lines, with_fenced_payload, Flash, Plan, Refusal,
};
use crate::matrix::{is_error_reply, spec_is_error_reply};
use crate::text::{decimal, decimal_string, join, trim, trim_str};

verus! {

/// `/users/{mxid}`, the detail page of a user.
pub open spec fn user_page(mxid: Seq<char>) -> Seq<char> {
    "/users/"@ + mxid
}

fn user_page_exec(mxid: &str) -> (r: String)
    ensures
        r@ == user_page(mxid@),
{
    let mut r = String::from_str("/users/");
    r.append(mxid);
    r
}

/// The create-user form.
#[derive(Debug, Clone)]
pub struct CreateUserForm {
    pub username: String,
    pub password: Option<String>,
    pub generate: Option<String>,
}

/// The reset-password form.
#[derive(Debug, Clone)]
pub struct PasswordForm {
    pub password: String,
}

/// A form naming a room by id or alias.
#[derive(Debug, Clone)]
pub struct RoomForm {
    pub room: String,
}

/// A form naming a room by id.
#[derive(Debug, Clone)]
pub struct RoomIdForm {
    pub room_id: String,
}

/// A form naming an event.
#[derive(Debug, Clone)]
pub struct EventIdForm {
    pub event_id: String,
}

/// The deactivate form.
#[derive(Debug, Clone)]
pub struct DeactivateForm {
    pub no_leave_rooms: Option<String>,
}

/// The deactivate-many form: user ids one per line.
#[derive(Debug, Clone)]
pub struct DeactivateAllForm {
    pub mxids: String,
    pub no_leave_rooms: Option<String>,
    pub force: Option<String>,
}

/// The room tag form: `delete` removes the tag, anything else puts it.
#[derive(Debug, Clone)]
pub struct TagForm {
    pub verb: String,
    pub tag: String,
}

/// How a create-user form is carried out.
#[derive(Debug, Clone)]
pub struct CreatePlan {
    /// The trimmed username.
    pub username: String,
    pub cmd: String,
    /// Whether the server generates the password; its reply then carries it,
    /// and the reply itself is flashed (see [`created_flash`]).
    pub autogen: bool,
    /// The success message when the password was given.
    pub success: String,
}

/// The password is generated when the form asks for it or leaves it blank.
pub open spec fn spec_autogen(f: CreateUserForm) -> bool {
    checked(f.generate) || trim(field_text(f.password)).len() == 0
}

/// A create-user form: `users create-user <name>` when the password is to be
/// generated, else `users create-user <name> <password>` (both trimmed).
pub fn create(f: &CreateUserForm) -> (r: Result<CreatePlan, Refusal>)
    ensures
        match r {
            Ok(p) => {
                let pw = trim(field_text(f.password));
                &&& trim(f.username@).len() > 0
                &&& p.username@ == trim(f.username@)
                &&& p.autogen == spec_autogen(*f)
                &&& p.cmd@ == (if p.autogen {
                    "users create-user "@ + trim(f.username@)
                } else {
                    "users create-user "@ + trim(f.username@) + " "@ + pw
                })
                &&& p.success@ == "Created user "@ + trim(f.username@)
            },
            Err(e) => {
                &&& trim(f.username@).len() == 0
                &&& e.msg@ == "Username is required."@
                &&& e.to@ == "/users"@
            },
        },
{
    let password = opt_str(&f.password);
    let generate = opt_str(&f.generate);
    let u = trim_str(f.username.as_str());
    if u.is_empty() {
        return Err(Refusal { msg: String::from_str("Username is required."), to: String::from_str("/users") });
    }
    let generate_on = checkbox(generate);
    let pw = match password {
        Some(p) => trim_str(p),
        None => trim_str(""),
    };
    proof {
        reveal_strlit("");
    }
    let autogen = generate_on || pw.is_empty();
    let mut cmd = String::from_str("users create-user ");
    cmd.append(u);
    if !autogen {
        cmd.append(" ");
        cmd.append(pw);
    }
    let mut success = String::from_str("Created user ");
    success.append(u);
    Ok(CreatePlan { username: String::from_str(u), cmd, autogen, success })
}

/// The flash after creating a user whose password the server generated: the
/// bot's reply (holding the password) on success, its complaint when the
/// reply reads as a failure, or the error of the call. No log entry is kept.
pub fn created_flash(username: &str, outcome: &Result<String, String>) -> (f: Flash)
    ensures
        f.log is None,
        match outcome {
            Ok(body) => if spec_is_error_reply(body@) {
                f.kind@ == "error"@ && f.text@ == "Create failed: "@ + trim(body@)
            } else {
                f.kind@ == "success"@ && f.text@ == "Created user "@ + username@ + ".\n\n"@ + trim(
                    body@,
                )
            },
            Err(e) => f.kind@ == "error"@ && f.text@ == e@,
        },
{
    match outcome {
        Ok(body) => {
            let t = trim_str(body.as_str());
            if !is_error_reply(body.as_str()) {
                let mut text = String::from_str("Created user ");
                text.append(username);
                text.append(".\n\n");
                text.append(t);
                Flash { kind: String::from_str("success"), text, log: None }
            } else {
                let mut text = String::from_str("Create failed: ");
                text.append(t);
                Flash { kind: String::from_str("error"), text, log: None }
            }
        },
        Err(e) => Flash {
            kind: String::from_str("error"),
            text: String::from_str(e.as_str()),
            log: None,
        },
    }
}

/// A reset-password form: refused when the password is empty (it is sent as typed).
pub fn reset_password(mxid: &str, f: &PasswordForm) -> (r: Result<Plan, Refusal>)
    ensures
        match r {
            Ok(p) => {
                &&& f.password@.len() > 0
                &&& p.cmd@ == "users reset-password "@ + mxid@ + " "@ + f.password@
                &&& p.success@ == "Reset password for "@ + mxid@
                &&& p.to@ == user_page(mxid@)
            },
            Err(e) => {
                &&& f.password@.len() == 0
                &&& e.msg@ == "Password is required."@
                &&& e.to@ == user_page(mxid@)
            },
        },
{
    let password = f.password.as_str();
    let back = user_page_exec(mxid);
    if password.is_empty() {
        return Err(Refusal { msg: String::from_str("Password is required."), to: back });
    }
    let mut cmd = String::from_str("users reset-password ");
    cmd.append(mxid);
    cmd.append(" ");
    cmd.append(password);
    let mut success = String::from_str("Reset password for ");
    success.append(mxid);
    Ok(Plan { cmd, success, to: back })
}

/// Deactivate one user, leaving their rooms unless the box says not to.
pub fn deactivate(mxid: &str, f: &DeactivateForm) -> (p: Plan)
    ensures
        p.cmd@ == (if checked(f.no_leave_rooms) {
            "users deactivate --no-leave-rooms "@ + mxid@
        } else {
            "users deactivate "@ + mxid@
        }),
        p.success@ == "Deactivated "@ + mxid@,
        p.to@ == "/users"@,
{
    let mut cmd = if checkbox(opt_str(&f.no_leave_rooms)) {
        String::from_str("users deactivate --no-leave-rooms ")
    } else {
        String::from_str("users deactivate ")
    };
    cmd.append(mxid);
    let mut success = String::from_str("Deactivated ");
    success.append(mxid);
    Plan { cmd, success, to: String::from_str("/users") }
}

/// Deactivate every user listed one per line, as a fenced payload.
pub fn deactivate_all(f: &DeactivateAllForm) -> (r: Result<Plan, Refusal>)
    ensures
        match r {
            Ok(p) => {
                let ids = spec_split_lines(f.mxids@);
                let head = "users deactivate-all"@ + (if checked(f.no_leave_rooms) {
                    " --no-leave-rooms"@
                } else {
                    Seq::<char>::empty()
                }) + (if checked(f.force) {
                    " --force"@
                } else {
                    Seq::<char>::empty()
                });
                &&& ids.len() > 0
                &&& p.cmd@ == spec_with_fenced_payload(head, join(ids, "\n"@))
                &&& p.success@ == "Deactivated "@ + decimal(ids.len()) + " user(s)"@
                &&& p.to@ == "/users"@
            },
            Err(e) => {
                &&& spec_split_lines(f.mxids@).len() == 0
                &&& e.msg@ == "Select at least one user."@
                &&& e.to@ == "/users"@
            },
        },
{
    let no_leave_rooms = opt_str(&f.no_leave_rooms);
    let force = opt_str(&f.force);
    let ids = split_lines(f.mxids.as_str());
    if ids.len() == 0 {
        return Err(Refusal { msg: String::from_str("Select at least one user."), to: String::from_str("/users") });
    }
    let mut head = String::from_str("users deactivate-all");
    let ghost h0 = head@;
    if checkbox(no_leave_rooms) {
        head.append(" --no-leave-rooms");
    }
    let ghost h1 = head@;
    if checkbox(force) {
        head.append(" --force");
    }
    proof {
        reveal_strlit("");
        if !checked(f.no_leave_rooms) {
            assert(h1 =~= h0 + Seq::<char>::empty());
        }
        if !checked(f.force) {
            assert(head@ =~= h1 + Seq::<char>::empty());
        }
    }
    let payload = join_lines(&ids);
    let cmd = with_fenced_payload(head.as_str(), payload.as_str());
    let mut success = String::from_str("Deactivated ");
    let n = decimal_string(ids.len());
    success.append(n.as_str());
    success.append(" user(s)");
    Ok(Plan { cmd, success, to: String::from_str("/users") })
}

/// Grant server admin to a user.
pub fn make_admin(mxid: &str) -> (p: Plan)
    ensures
        p.cmd@ == "users make-user-admin "@ + mxid@,
        p.success@ == "Granted admin to "@ + mxid@,
        p.to@ == user_page(mxid@),
{
    let mut cmd = String::from_str("users make-user-admin ");
    cmd.append(mxid);
    let mut success = String::from_str("Granted admin to ");
    success.append(mxid);
    Plan { cmd, success, to: user_page_exec(mxid) }
}

/// A user command that names a room: refused when the trimmed room is blank;
/// else `<verb> <mxid> <room>`.
fn user_room_plan(
    mxid: &str,
    room: &str,
    verb: &str,
    success_head: &str,
    success_mid: &str,
    missing: &str,
) -> (r: Result<Plan, Refusal>)
    ensures
        match r {
            Ok(p) => {
                &&& trim(room@).len() > 0
                &&& p.cmd@ == verb@ + " "@ + mxid@ + " "@ + trim(room@)
                &&& p.success@ == success_head@ + mxid@ + success_mid@ + trim(room@)
                &&& p.to@ == user_page(mxid@)
            },
            Err(e) => {
                &&& trim(room@).len() == 0
                &&& e.msg@ == missing@
                &&& e.to@ == user_page(mxid@)
            },
        },
{
    let back = user_page_exec(mxid);
    let room = trim_str(room);
    if room.is_empty() {
        return Err(Refusal { msg: String::from_str(missing), to: back });
    }
    let mut cmd = String::from_str(verb);
    cmd.append(" ");
    cmd.append(mxid);
    cmd.append(" ");
    cmd.append(room);
    let mut success = String::from_str(success_head);
    success.append(mxid);
    success.append(success_mid);
    success.append(room);
    Ok(Plan { cmd, success, to: back })
}

/// Force a user into a room (by id or alias).
pub fn force_join(mxid: &str, f: &RoomForm) -> (r: Result<Plan, Refusal>)
    ensures
        match r {
            Ok(p) => {
                &&& trim(f.room@).len() > 0
                &&& p.cmd@ == "users force-join-room "@ + mxid@ + " "@ + trim(f.room@)
                &&& p.success@ == "Joined "@ + mxid@ + " to "@ + trim(f.room@)
                &&& p.to@ == user_page(mxid@)
            },
            Err(e) => {
                &&& trim(f.room@).len() == 0
                &&& e.msg@ == "Room is required."@
                &&& e.to@ == user_page(mxid@)
            },
        },
{
    let r = user_room_plan(
        mxid,
        f.room.as_str(),
        "users force-join-room",
        "Joined ",
        " to ",
        "Room is required.",
    );
    proof {
        reveal_strlit("users force-join-room");
        reveal_strlit("users force-join-room ");
        reveal_strlit(" ");
        assert(r matches Ok(p) ==> p.cmd@ =~= "users force-join-room "@ + mxid@ + " "@ + trim(
            f.room@,
        ));
    }
    r
}

/// Force a user out of a room.
pub fn force_leave(mxid: &str, f: &RoomIdForm) -> (r: Result<Plan, Refusal>)
    ensures
        match r {
            Ok(p) => {
                &&& trim(f.room_id@).len() > 0
                &&& p.cmd@ == "users force-leave-room "@ + mxid@ + " "@ + trim(f.room_id@)
                &&& p.success@ == "Removed "@ + mxid@ + " from "@ + trim(f.room_id@)
                &&& p.to@ == user_page(mxid@)
            },
            Err(e) => {
                &&& trim(f.room_id@).len() == 0
                &&& e.msg@ == "Room ID is required."@
                &&& e.to@ == user_page(mxid@)
            },
        },
{
    let r = user_room_plan(
        mxid,
        f.room_id.as_str(),
        "users force-leave-room",
        "Removed ",
        " from ",
        "Room ID is required.",
    );
    proof {
        reveal_strlit("users force-leave-room");
        reveal_strlit("users force-leave-room ");
        reveal_strlit(" ");
        assert(r matches Ok(p) ==> p.cmd@ =~= "users force-leave-room "@ + mxid@ + " "@ + trim(
            f.room_id@,
        ));
    }
    r
}

/// Redact one event of a user.
pub fn redact_event(mxid: &str, f: &EventIdForm) -> (r: Result<Plan, Refusal>)
    ensures
        match r {
            Ok(p) => {
                &&& trim(f.event_id@).len() > 0
                &&& p.cmd@ == "users redact-event "@ + trim(f.event_id@)
                &&& p.success@ == "Redacted "@ + trim(f.event_id@)
                &&& p.to@ == user_page(mxid@)
            },
            Err(e) => {
                &&& trim(f.event_id@).len() == 0
                &&& e.msg@ == "Event ID is required."@
                &&& e.to@ == user_page(mxid@)
            },
        },
{
    let back = user_page_exec(mxid);
    let evt = trim_str(f.event_id.as_str());
    if evt.is_empty() {
        return Err(Refusal { msg: String::from_str("Event ID is required."), to: back });
    }
    let mut cmd = String::from_str("users redact-event ");
    cmd.append(evt);
    let mut success = String::from_str("Redacted ");
    success.append(evt);
    Ok(Plan { cmd, success, to: back })
}

/// Delete one device of a user.
pub fn delete_device(mxid: &str, device_id: &str) -> (p: Plan)
    ensures
        p.cmd@ == "users delete-device "@ + mxid@ + " "@ + device_id@,
        p.success@ == "Deleted device "@ + device_id@,
        p.to@ == user_page(mxid@),
{
    let mut cmd = String::from_str("users delete-device ");
    cmd.append(mxid);
    cmd.append(" ");
    cmd.append(device_id);
    let mut success = String::from_str("Deleted device ");
    success.append(device_id);
    Plan { cmd, success, to: user_page_exec(mxid) }
}

/// Raise a user to the room's highest power level.
pub fn force_promote(mxid: &str, room_id: &str) -> (p: Plan)
    ensures
        p.cmd@ == "users force-promote "@ + mxid@ + " "@ + room_id@,
        p.success@ == "Promoted "@ + mxid@ + " in "@ + room_id@,
        p.to@ == user_page(mxid@),
{
    let mut cmd = String::from_str("users force-promote ");
    cmd.append(mxid);
    cmd.append(" ");
    cmd.append(room_id);
    let mut success = String::from_str("Promoted ");
    success.append(mxid);
    success.append(" in ");
    success.append(room_id);
    Plan { cmd, success, to: user_page_exec(mxid) }
}

/// Drop a user to the room's default power level.
pub fn force_demote(mxid: &str, room_id: &str) -> (p: Plan)
    ensures
        p.cmd@ == "users force-demote "@ + mxid@ + " "@ + room_id@,
        p.success@ == "Demoted "@ + mxid@ + " in "@ + room_id@,
        p.to@ == user_page(mxid@),
{
    let mut cmd = String::from_str("users force-demote ");
    cmd.append(mxid);
    cmd.append(" ");
    cmd.append(room_id);
    let mut success = String::from_str("Demoted ");
    success.append(mxid);
    success.append(" in ");
    success.append(room_id);
    Plan { cmd, success, to: user_page_exec(mxid) }
}

/// Put a tag on a user's room, or remove it when the verb is `delete`.
pub fn room_tag(mxid: &str, room_id: &str, f: &TagForm) -> (r: Result<Plan, Refusal>)
    ensures
        match r {
            Ok(p) => {
                let t = trim(f.tag@);
                &&& t.len() > 0
                &&& p.to@ == user_page(mxid@)
                &&& if f.verb@ == "delete"@ {
                    &&& p.cmd@ == "users delete-room-tag "@ + mxid@ + " "@ + room_id@ + " "@ + t
                    &&& p.success@ == "Removed tag "@ + t + " from "@ + room_id@
                } else {
                    &&& p.cmd@ == "users put-room-tag "@ + mxid@ + " "@ + room_id@ + " "@ + t
                    &&& p.success@ == "Tagged "@ + room_id@ + " as "@ + t
                }
            },
            Err(e) => {
                &&& trim(f.tag@).len() == 0
                &&& e.msg@ == "Tag is required."@
                &&& e.to@ == user_page(mxid@)
            },
        },
{
    let back = user_page_exec(mxid);
    let t = trim_str(f.tag.as_str());
    if t.is_empty() {
        return Err(Refusal { msg: String::from_str("Tag is required."), to: back });
    }
    if crate::text::str_eq(f.verb.as_str(), "delete") {
        let mut cmd = String::from_str("users delete-room-tag ");
        cmd.append(mxid);
        cmd.append(" ");
        cmd.append(room_id);
        cmd.append(" ");
        cmd.append(t);
        let mut success = String::from_str("Removed tag ");
        success.append(t);
        success.append(" from ");
        success.append(room_id);
        Ok(Plan { cmd, success, to: back })
    } else {
        let mut cmd = String::from_str("users put-room-tag ");
        cmd.append(mxid);
        cmd.append(" ");
        cmd.append(room_id);
        cmd.append(" ");
        cmd.append(t);
        let mut success = String::from_str("Tagged ");
        success.append(room_id);
        success.append(" as ");
        success.append(t);
        Ok(Plan { cmd, success, to: back })
    }
}

/// The command that reads a user's tags on a room.
pub fn get_room_tags(mxid: &str, room_id: &str) -> (cmd: String)
    ensures
        cmd@ == "users get-room-tags "@ + mxid@ + " "@ + room_id@,
{
    let mut cmd = String::from_str("users get-room-tags ");
    cmd.append(mxid);
    cmd.append(" ");
    cmd.append(room_id);
    cmd
}

} // verus!
