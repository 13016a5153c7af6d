use vstd::prelude::*;

verus! {

/// Pause between two looks at the link while connecting, in milliseconds.
pub const CONNECT_POLL_MS: u32 = 100;

/// State of the wireless link, as the network stack reports it.
#[derive(Clone, Copy, Debug, PartialEq, Eq, Structural)]
pub enum LinkStatus {
    /// The radio is not started.
    Stopped,
    /// The radio is started and not yet associated.
    Started,
    /// Associated with the access point.
    Connected,
    /// The stack gave up on the connection.
    Failed,
}

/// What to do after one look at the link while connecting.
#[derive(Clone, Copy, Debug, PartialEq, Eq, Structural)]
pub enum ConnectStep {
    /// Not connected yet: wait and look again.
    Wait,
    /// Connected: the connection attempt is over.
    Done,
    /// The connection failed: report the error.
    Fail,
}

/// Decides how a connection attempt goes on from the link's `status`.
pub fn connect_step(status: LinkStatus) -> (r: ConnectStep)
    ensures
        r == match status {
            LinkStatus::Connected => ConnectStep::Done,
            LinkStatus::Failed => ConnectStep::Fail,
            _ => ConnectStep::Wait,
        },
{
    match status {
        LinkStatus::Connected => ConnectStep::Done,
        LinkStatus::Failed => ConnectStep::Fail,
        LinkStatus::Started => ConnectStep::Wait,
        LinkStatus::Stopped => ConnectStep::Wait,
    }
}

} // verus!
