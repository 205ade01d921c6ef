//! Download of the plants database: the reply that carries the signed link.

use vstd::prelude::*;
use vstd::string::StringExecFns;
use crate::reply::{html_reply, Reply};

verus! {

/// For how many seconds a signed link is good.
pub const LINK_SECONDS: u64 = 20;

/// The reply that hands out the signed link.
pub fn download_reply(uri: &str) -> (r: Reply)
    ensures
        r@ == html_reply(200, uri@),
{
    Reply::html(200, String::from_str(uri))
}

} // verus!
