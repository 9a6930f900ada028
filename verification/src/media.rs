//! Media: lookup by MXC URL. Tuwunel does not expose a listable media index
//! over the admin bot, so there's no list view.

use vstd::prelude::*;
use vstd::string::*;

use crate::parse::{media_file_info, pairs, spec_media_file_info};

verus! {

/// What the server knows of one media file.
#[derive(Debug, Clone)]
pub struct FileInfo {
    pub mxc: String,
    pub fields: Vec<(String, String)>,
    pub raw: String,
}

/// The command that looks a media file up.
pub fn file_info_command(mxc: &str) -> (cmd: String)
    ensures
        cmd@ == "media get-file-info "@ + mxc@,
{
    let mut cmd = String::from_str("media get-file-info ");
    cmd.append(mxc);
    cmd
}

/// A media file's details from the reply to `media get-file-info`: its
/// `key: value` fields (none when the reply does not parse) and the reply.
pub fn file_info(mxc: &str, reply_body: &str) -> (f: FileInfo)
    ensures
        f.mxc@ == mxc@,
        pairs(f.fields@) == match spec_media_file_info(reply_body@) {
            Some(v) => v,
            None => Seq::<(Seq<char>, Seq<char>)>::empty(),
        },
        f.raw@ == reply_body@,
{
    let fields = match media_file_info(reply_body) {
        Some(v) => v,
        None => {
            let v: Vec<(String, String)> = Vec::new();
            assert(pairs(v@) =~= Seq::<(Seq<char>, Seq<char>)>::empty());
            v
        },
    };
    FileInfo { mxc: String::from_str(mxc), fields, raw: String::from_str(reply_body) }
}

} // verus!
