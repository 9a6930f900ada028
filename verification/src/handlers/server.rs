//! The server page's forms, as admin commands.

use vstd::prelude::*;
use vstd::string::*;

use crate::handlers::{checkbox, checked, opt_seq, opt_str, required, Plan, Refusal};
use crate::text::{trim, trim_str};

verus! {

/// The reload-config form: an optional path.
#[derive(Debug, Clone, Default)]
pub struct ReloadConfigForm {
    pub path: Option<String>,
}

/// The admin notice form.
#[derive(Debug, Clone)]
pub struct AdminNoticeForm {
    pub message: String,
}

/// The restart form.
#[derive(Debug, Clone, Default)]
pub struct RestartForm {
    pub force: Option<String>,
}

/// The raw command form.
#[derive(Debug, Clone)]
pub struct RawCmdForm {
    pub cmd: String,
}

/// A form naming a remote server.
#[derive(Debug, Clone)]
pub struct ServerArgForm {
    pub server: String,
}

fn server_plan(cmd: &str, success: &str) -> (p: Plan)
    ensures
        p.cmd@ == cmd@,
        p.success@ == success@,
        p.to@ == "/server"@,
{
    Plan { cmd: String::from_str(cmd), success: String::from_str(success), to: String::from_str("/server") }
}

/// Run an admin command as typed (trimmed).
pub fn raw_command(f: &RawCmdForm) -> (r: Result<Plan, Refusal>)
    ensures
        match r {
            Ok(p) => trim(f.cmd@).len() > 0 && p.cmd@ == trim(f.cmd@) && p.success@
                == "Ran admin command"@ && p.to@ == "/server"@,
            Err(e) => trim(f.cmd@).len() == 0 && e.msg@ == "Command is required."@ && e.to@
                == "/server"@,
        },
{
    let c = required(f.cmd.as_str(), "Command is required.", "/server")?;
    Ok(server_plan(c, "Ran admin command"))
}

/// A command that names a server: refused when the trimmed name is blank.
fn server_arg_plan(server: &str, head: &str, success_head: &str) -> (r: Result<Plan, Refusal>)
    ensures
        match r {
            Ok(p) => trim(server@).len() > 0 && p.cmd@ == head@ + trim(server@) && p.success@
                == success_head@ + trim(server@) && p.to@ == "/server"@,
            Err(e) => trim(server@).len() == 0 && e.msg@ == "Server name is required."@ && e.to@
                == "/server"@,
        },
{
    let s = required(server, "Server name is required.", "/server")?;
    let mut cmd = String::from_str(head);
    cmd.append(s);
    let mut success = String::from_str(success_head);
    success.append(s);
    Ok(Plan { cmd, success, to: String::from_str("/server") })
}

/// Ping a remote server over federation.
pub fn federation_ping(f: &ServerArgForm) -> (r: Result<Plan, Refusal>)
    ensures
        match r {
            Ok(p) => trim(f.server@).len() > 0 && p.cmd@ == "debug ping "@ + trim(f.server@)
                && p.success@ == "Pinged "@ + trim(f.server@) && p.to@ == "/server"@,
            Err(e) => trim(f.server@).len() == 0 && e.msg@ == "Server name is required."@ && e.to@
                == "/server"@,
        },
{
    server_arg_plan(f.server.as_str(), "debug ping ", "Pinged ")
}

/// Resolve where federation traffic for a server actually goes.
pub fn federation_resolve(f: &ServerArgForm) -> (r: Result<Plan, Refusal>)
    ensures
        match r {
            Ok(p) => trim(f.server@).len() > 0 && p.cmd@ == "debug resolve-true-destination "@
                + trim(f.server@) && p.success@ == "Resolved "@ + trim(f.server@) && p.to@
                == "/server"@,
            Err(e) => trim(f.server@).len() == 0 && e.msg@ == "Server name is required."@ && e.to@
                == "/server"@,
        },
{
    server_arg_plan(f.server.as_str(), "debug resolve-true-destination ", "Resolved ")
}

/// Reload the server's config, from the given path when one is filled in.
pub fn reload_config(f: &ReloadConfigForm) -> (p: Plan)
    ensures
        p.cmd@ == (match opt_seq(f.path) {
            Some(x) => if trim(x).len() > 0 {
                "server reload-config "@ + trim(x)
            } else {
                "server reload-config"@
            },
            None => "server reload-config"@,
        }),
        p.success@ == "Reloaded config"@,
        p.to@ == "/server"@,
{
    let cmd = match opt_str(&f.path) {
        Some(x) => {
            let t = trim_str(x);
            if t.is_empty() {
                String::from_str("server reload-config")
            } else {
                let mut c = String::from_str("server reload-config ");
                c.append(t);
                c
            }
        },
        None => String::from_str("server reload-config"),
    };
    Plan { cmd, success: String::from_str("Reloaded config"), to: String::from_str("/server") }
}

/// Clear the server's caches.
pub fn clear_caches() -> (p: Plan)
    ensures
        p.cmd@ == "server clear-caches"@,
        p.success@ == "Cleared caches"@,
        p.to@ == "/server"@,
{
    server_plan("server clear-caches", "Cleared caches")
}

/// Back the database up.
pub fn backup() -> (p: Plan)
    ensures
        p.cmd@ == "server backup-database"@,
        p.success@ == "Database backup triggered"@,
        p.to@ == "/server"@,
{
    server_plan("server backup-database", "Database backup triggered")
}

/// Send a notice to the server's admin room.
pub fn admin_notice(f: &AdminNoticeForm) -> (r: Result<Plan, Refusal>)
    ensures
        match r {
            Ok(p) => trim(f.message@).len() > 0 && p.cmd@ == "server admin-notice "@ + trim(
                f.message@,
            ) && p.success@ == "Sent admin notice"@ && p.to@ == "/server"@,
            Err(e) => trim(f.message@).len() == 0 && e.msg@ == "Message is required."@ && e.to@
                == "/server"@,
        },
{
    let m = required(f.message.as_str(), "Message is required.", "/server")?;
    let mut cmd = String::from_str("server admin-notice ");
    cmd.append(m);
    Ok(Plan { cmd, success: String::from_str("Sent admin notice"), to: String::from_str("/server") })
}

/// Reload the server's modules.
pub fn reload_mods() -> (p: Plan)
    ensures
        p.cmd@ == "server reload-mods"@,
        p.success@ == "Reloaded server modules"@,
        p.to@ == "/server"@,
{
    server_plan("server reload-mods", "Reloaded server modules")
}

/// Restart the server, forcibly when the box is checked.
pub fn restart(f: &RestartForm) -> (p: Plan)
    ensures
        p.cmd@ == (if checked(f.force) {
            "server restart --force"@
        } else {
            "server restart"@
        }),
        p.success@ == "Restart requested"@,
        p.to@ == "/server"@,
{
    if checkbox(opt_str(&f.force)) {
        server_plan("server restart --force", "Restart requested")
    } else {
        server_plan("server restart", "Restart requested")
    }
}

/// Shut the server down.
pub fn shutdown() -> (p: Plan)
    ensures
        p.cmd@ == "server shutdown"@,
        p.success@ == "Shutdown requested"@,
        p.to@ == "/server"@,
{
    server_plan("server shutdown", "Shutdown requested")
}

} // verus!
