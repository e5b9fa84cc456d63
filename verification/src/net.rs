//! Bringing Wi-Fi up: the decisions around the reader's network calls.
//! `QueryNetwork` answers with a bit mask of the network state; when it says
//! that there is no connection, `NetConnect` connects to the last network
//! used and answers with a status code.

use vstd::prelude::*;
use vstd::string::*;
use crate::text::{i32_to_string, signed_decimal};

verus! {

/// The bit of the network state that means "connected".
pub const NET_CONNECTED: i32 = 0x00000001;

/// Whether the network state `state` says that the reader is connected, so
/// that no connection attempt is needed.
pub fn is_connected(state: i32) -> (r: bool)
    ensures
        r == (state & NET_CONNECTED != 0),
{
    state & NET_CONNECTED != 0
}

/// The message when connecting failed with `code`.
pub open spec fn connect_failed_note(code: i32) -> Seq<char> {
    "не удалось подключиться к сети (код "@ + signed_decimal(code as int) + ")"@
}

/// The outcome of a connection attempt that answered `code`: success for
/// zero, else a message that gives the code.
pub fn connect_outcome(code: i32) -> (r: Result<(), String>)
    ensures
        code == 0 ==> r is Ok,
        code != 0 ==> (r matches Err(m) && m@ == connect_failed_note(code)),
{
    if code == 0 {
        Ok(())
    } else {
        let mut m = String::from_str("не удалось подключиться к сети (код ");
        let c = i32_to_string(code);
        m.append(c.as_str());
        m.append(")");
        Err(m)
    }
}

} // verus!
