//! Federation: `federation` admin-bot replies composed into typed rows.

use vstd::prelude::*;
use vstd::string::*;

use crate::matrix::LogEntry;
use crate::parse::{bang_ids_of, list_federated_rooms, strs};
use crate::text::lines;

verus! {

/// The federation page: the rooms that federate, and the reply they came from.
#[derive(Debug, Clone)]
pub struct Overview {
    pub incoming: Vec<String>,
    pub incoming_raw: String,
    pub log: Vec<LogEntry>,
}

/// The federation page from the reply to `federation incoming-federation`.
pub fn overview(reply_body: &str, log: Vec<LogEntry>) -> (o: Overview)
    ensures
        strs(o.incoming@) == bang_ids_of(lines(reply_body@)),
        o.incoming_raw@ == reply_body@,
        o.log@ == log@,
{
    let incoming = match list_federated_rooms(reply_body) {
        Some(v) => v,
        None => Vec::new(),
    };
    assert(strs(incoming@) =~= bang_ids_of(lines(reply_body@)));
    Overview { incoming, incoming_raw: String::from_str(reply_body), log }
}

} // verus!
