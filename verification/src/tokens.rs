//! Registration tokens: `token` admin-bot replies composed into typed rows.

use vstd::prelude::*;

pub use crate::parse::TokenRow;
use crate::parse::{list_tokens, token_views, tokens_of};
use crate::text::lines;

verus! {

/// The tokens a `token list` reply lists (none when it does not parse).
pub fn list(reply_body: &str) -> (r: Vec<TokenRow>)
    ensures
        token_views(r@) == tokens_of(lines(reply_body@)),
{
    match list_tokens(reply_body) {
        Some(v) => v,
        None => {
            let v: Vec<TokenRow> = Vec::new();
            assert(token_views(v@) =~= tokens_of(lines(reply_body@)));
            v
        },
    }
}

} // verus!
