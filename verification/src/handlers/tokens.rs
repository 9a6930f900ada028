//! The registration token page's forms, as admin commands.

use vstd::prelude::*;
use vstd::string::*;

use crate::handlers::{checkbox, checked, cmd_flag, opt_seq, opt_str, required, spec_cmd_flag, Plan, Refusal};
use crate::text::trim;

verus! {

/// The issue-token form.
#[derive(Debug, Clone, Default)]
pub struct IssueTokenForm {
    pub max_uses: Option<String>,
    pub max_age: Option<String>,
    pub once: Option<String>,
}

/// Issue a registration token, with the limits the form sets.
pub fn issue(f: &IssueTokenForm) -> (p: Plan)
    ensures
        p.cmd@ == spec_cmd_flag(
            spec_cmd_flag("token issue"@, "max-uses"@, opt_seq(f.max_uses)),
            "max-age"@,
            opt_seq(f.max_age),
        ) + (if checked(f.once) {
            " --once"@
        } else {
            Seq::<char>::empty()
        }),
        p.success@ == "Issued new registration token"@,
        p.to@ == "/tokens"@,
{
    let mut cmd = String::from_str("token issue");
    cmd_flag(&mut cmd, "max-uses", f.max_uses.as_ref());
    cmd_flag(&mut cmd, "max-age", f.max_age.as_ref());
    let ghost c = cmd@;
    if checkbox(opt_str(&f.once)) {
        cmd.append(" --once");
    } else {
        proof {
            reveal_strlit("");
            assert(cmd@ =~= c + Seq::<char>::empty());
        }
    }
    Plan {
        cmd,
        success: String::from_str("Issued new registration token"),
        to: String::from_str("/tokens"),
    }
}

/// Revoke a registration token.
pub fn revoke(token: &str) -> (r: Result<Plan, Refusal>)
    ensures
        match r {
            Ok(p) => {
                &&& trim(token@).len() > 0
                &&& p.cmd@ == "token revoke "@ + trim(token@)
                &&& p.success@ == "Revoked token "@ + trim(token@)
                &&& p.to@ == "/tokens"@
            },
            Err(e) => trim(token@).len() == 0 && e.msg@ == "Token is required."@ && e.to@
                == "/tokens"@,
        },
{
    let t = required(token, "Token is required.", "/tokens")?;
    let mut cmd = String::from_str("token revoke ");
    cmd.append(t);
    let mut success = String::from_str("Revoked token ");
    success.append(t);
    Ok(Plan { cmd, success, to: String::from_str("/tokens") })
}

} // verus!
