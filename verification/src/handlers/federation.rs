//! The federation page's tools: the command each one runs and what its page shows.

use vstd::prelude::*;
use vstd::string::*;

use crate::handlers::{markdown_html, markdown_to_html, required, Refusal};
use crate::parse::{debug_string_array, spec_debug_string_array, strs};
use crate::text::{trim, trim_str};

verus! {

/// What a federation tool shows: a title, the bot's reply as sent and as
/// rendered HTML, and, for the room lookup, the rooms found in it.
#[derive(Debug, Clone)]
pub struct ToolView {
    pub title: String,
    pub reply_raw: String,
    pub reply_html: String,
    pub rooms: Vec<String>,
}

/// A form naming a remote server.
#[derive(Debug, Clone)]
pub struct ServerForm {
    pub server: String,
}

/// A form naming a remote user.
#[derive(Debug, Clone)]
pub struct UserForm {
    pub user_id: String,
}

/// Fetch a server's `/.well-known/matrix/support`.
pub fn fetch_well_known(f: &ServerForm) -> (r: Result<String, Refusal>)
    ensures
        match r {
            Ok(cmd) => trim(f.server@).len() > 0 && cmd@ == "federation fetch-support-well-known "@
                + trim(f.server@),
            Err(e) => trim(f.server@).len() == 0 && e.msg@ == "Server name is required."@ && e.to@
                == "/federation"@,
        },
{
    let s = required(f.server.as_str(), "Server name is required.", "/federation")?;
    let mut cmd = String::from_str("federation fetch-support-well-known ");
    cmd.append(s);
    Ok(cmd)
}

/// The page of a server's support info.
pub fn well_known_view(server: &str, reply_body: &str) -> (v: ToolView)
    ensures
        v.title@ == "Support info for "@ + trim(server@),
        v.reply_raw@ == reply_body@,
        v.reply_html@ == markdown_html(reply_body@),
        v.rooms@.len() == 0,
{
    let mut title = String::from_str("Support info for ");
    title.append(trim_str(server));
    ToolView {
        title,
        reply_raw: String::from_str(reply_body),
        reply_html: markdown_to_html(reply_body),
        rooms: Vec::new(),
    }
}

/// List the rooms this server shares with a remote user.
pub fn remote_user_in_rooms(f: &UserForm) -> (r: Result<String, Refusal>)
    ensures
        match r {
            Ok(cmd) => trim(f.user_id@).len() > 0 && cmd@ == "federation remote-user-in-rooms "@
                + trim(f.user_id@),
            Err(e) => trim(f.user_id@).len() == 0 && e.msg@ == "User ID is required."@ && e.to@
                == "/federation"@,
        },
{
    let u = required(f.user_id.as_str(), "User ID is required.", "/federation")?;
    let mut cmd = String::from_str("federation remote-user-in-rooms ");
    cmd.append(u);
    Ok(cmd)
}

/// The page of the rooms shared with a remote user: the rooms the reply
/// lists, or none when it does not parse.
pub fn remote_rooms_view(user_id: &str, reply_body: &str) -> (v: ToolView)
    ensures
        v.title@ == "Rooms shared with "@ + trim(user_id@),
        v.reply_raw@ == reply_body@,
        v.reply_html@ == markdown_html(reply_body@),
        strs(v.rooms@) == match spec_debug_string_array(reply_body@) {
            Some(rs) => rs,
            None => Seq::<Seq<char>>::empty(),
        },
{
    let mut title = String::from_str("Rooms shared with ");
    title.append(trim_str(user_id));
    let rooms = match debug_string_array(reply_body) {
        Some(rs) => rs,
        None => {
            let e: Vec<String> = Vec::new();
            assert(strs(e@) =~= Seq::<Seq<char>>::empty());
            e
        },
    };
    ToolView {
        title,
        reply_raw: String::from_str(reply_body),
        reply_html: markdown_to_html(reply_body),
        rooms,
    }
}

} // verus!
