//! The appservice pages' forms, as admin commands.

use vstd::prelude::*;
use vstd::string::*;

use crate::handlers::{required, spec_with_fenced_payload, with_fenced_payload, Plan, Refusal};
use crate::text::trim;

verus! {

/// The register form: the registration YAML.
#[derive(Debug, Clone)]
pub struct RegisterAppserviceForm {
    pub yaml: String,
}

/// Register an appservice from its YAML, sent as a fenced payload.
pub fn register(f: &RegisterAppserviceForm) -> (r: Result<Plan, Refusal>)
    ensures
        match r {
            Ok(p) => trim(f.yaml@).len() > 0 && p.cmd@ == spec_with_fenced_payload(
                "appservices register"@,
                trim(f.yaml@),
            ) && p.success@ == "Registered appservice"@ && p.to@ == "/appservices"@,
            Err(e) => trim(f.yaml@).len() == 0 && e.msg@ == "Registration YAML is required."@
                && e.to@ == "/appservices"@,
        },
{
    let y = required(f.yaml.as_str(), "Registration YAML is required.", "/appservices")?;
    let cmd = with_fenced_payload("appservices register", y);
    Ok(Plan {
        cmd,
        success: String::from_str("Registered appservice"),
        to: String::from_str("/appservices"),
    })
}

/// Unregister an appservice.
pub fn unregister(id: &str) -> (p: Plan)
    ensures
        p.cmd@ == "appservices unregister "@ + id@,
        p.success@ == "Unregistered "@ + id@,
        p.to@ == "/appservices"@,
{
    let mut cmd = String::from_str("appservices unregister ");
    cmd.append(id);
    let mut success = String::from_str("Unregistered ");
    success.append(id);
    Plan { cmd, success, to: String::from_str("/appservices") }
}

} // verus!
