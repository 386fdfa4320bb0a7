use vstd::prelude::*;

verus! {

/// What a node does with a line received from its user.
#[derive(Debug, PartialEq, Eq)]
pub enum RequestAction {
    /// Open a connection to `peer`.
    Connect { peer: &'static str },
    /// Send `message` to `peer`.
    Send { message: String, peer: &'static str },
}

/// The peer that a node talks to.
pub fn default_peer() -> (peer: &'static str)
    ensures
        peer@ == "127.0.0.1:9000"@,
{
    "127.0.0.1:9000"
}

/// Decides what to do with `line`: the line `connect` asks for a connection
/// to the peer, any other line is a message for the peer.
pub fn request_action(line: String) -> (action: RequestAction)
    ensures
        line@ == "connect"@ ==> (action matches RequestAction::Connect { peer } && peer@
            == "127.0.0.1:9000"@),
        line@ != "connect"@ ==> (action matches RequestAction::Send { message, peer } && message@
            == line@ && peer@ == "127.0.0.1:9000"@),
{
    let connect = "connect".to_owned();
    if line == connect {
        RequestAction::Connect { peer: default_peer() }
    } else {
        RequestAction::Send { message: line, peer: default_peer() }
    }
}

} // verus!
