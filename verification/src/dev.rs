//! The development server's decisions: which ports it tries, and what a connection does with
//! each thing that happens on it.
use vstd::prelude::*;

verus! {

/// The first port the dev server tries.
pub const PORT_START: u16 = 59039;

/// How many ports after the first the dev server also tries.
pub const PORT_RANGE: u16 = 100;

/// The ports the dev server tries, in order: from [`PORT_START`] up to and including
/// [`PORT_START`] + [`PORT_RANGE`].
pub fn candidate_ports() -> (r: Vec<u16>)
    ensures
        r@.len() == PORT_RANGE + 1,
        forall|i: int| 0 <= i < r@.len() ==> r@[i] == PORT_START + i,
{
    let mut ports: Vec<u16> = Vec::new();
    let last: u16 = PORT_START + PORT_RANGE;
    let mut p: u16 = PORT_START;
    loop
        invariant
            PORT_START <= p <= last,
            last == PORT_START + PORT_RANGE,
            ports@.len() == p - PORT_START,
            forall|i: int| 0 <= i < ports@.len() ==> ports@[i] == PORT_START + i,
        decreases last - p,
    {
        ports.push(p);
        if p == last {
            return ports;
        }
        p = p + 1;
    }
}

/// Identifies one browser connection to the dev server.
pub type ConnectionId = u64;

/// What happens on a browser's connection.
pub enum SocketEvent {
    /// The browser sent a text message.
    Text(String),
    /// The browser sent a message that is not text.
    Other,
    /// The connection ended or failed.
    Closed,
    /// The connection `from` announced that it is ready.
    ReloadRequested { from: ConnectionId },
}

/// What the connection does next.
#[derive(Clone, Copy, Debug, PartialEq, Eq, Structural)]
pub enum SocketAction {
    /// Tell every other connection to reload: `from` is the connection that is ready.
    Broadcast { from: ConnectionId },
    /// Send "reload" to this browser.
    SendReload,
    /// Wait for what happens next.
    Continue,
    /// Stop serving this connection.
    Stop,
}

/// The action of connection `me` for an event: a "ready" text asks every other connection
/// to reload, a reload request from another connection is passed on to the browser while
/// one from `me` itself is ignored, the end of the connection stops it, anything else is
/// ignored.
pub fn on_socket_event(me: ConnectionId, event: &SocketEvent) -> (r: SocketAction)
    ensures
        r == match event {
            SocketEvent::Text(t) => if t@ == "ready"@ { SocketAction::Broadcast { from: me } } else { SocketAction::Continue },
            SocketEvent::Other => SocketAction::Continue,
            SocketEvent::Closed => SocketAction::Stop,
            SocketEvent::ReloadRequested { from } => if *from != me { SocketAction::SendReload } else { SocketAction::Continue },
        },
        r == SocketAction::SendReload <==> (event matches SocketEvent::ReloadRequested { from } && from != me),
{
    match event {
        SocketEvent::Text(t) => {
            if crate::text::str_eq(t.as_str(), "ready") {
                SocketAction::Broadcast { from: me }
            } else {
                SocketAction::Continue
            }
        },
        SocketEvent::Other => SocketAction::Continue,
        SocketEvent::Closed => SocketAction::Stop,
        SocketEvent::ReloadRequested { from } => {
            if *from != me {
                SocketAction::SendReload
            } else {
                SocketAction::Continue
            }
        },
    }
}

/// After sending "reload" to the browser: go on if it was sent, stop if sending failed.
pub fn after_send(sent: bool) -> (r: SocketAction)
    ensures
        r == if sent { SocketAction::Continue } else { SocketAction::Stop },
{
    if sent {
        SocketAction::Continue
    } else {
        SocketAction::Stop
    }
}

} // verus!
