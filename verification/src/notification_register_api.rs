//! Registration of a device for push notifications: what the handler
//! replies.

use vstd::prelude::*;
use vstd::string::StringExecFns;
use crate::reply::{html_reply, Reply};

verus! {

/// The reply to a registration, by whether the push service gave an
/// endpoint for the device.
pub fn registration_reply(registered: bool) -> (r: Reply)
    ensures
        r@ == if registered {
            html_reply(200, "OK"@)
        } else {
            html_reply(500, "Error during adding platform endpoint"@)
        },
{
    if registered {
        Reply::html(200, String::from_str("OK"))
    } else {
        Reply::html(500, String::from_str("Error during adding platform endpoint"))
    }
}

} // verus!
