//! The placeholder realtime model, which answers without a server.

use vstd::prelude::*;

verus! {

/// The reply of the placeholder realtime model to `prompt`.
pub fn realtime_reply(prompt: &str) -> (r: String)
    ensures
        r@ == "Realtime response to: "@ + prompt@,
{
    let mut s = String::from_str("Realtime response to: ");
    s.append(prompt);
    s
}

} // verus!
