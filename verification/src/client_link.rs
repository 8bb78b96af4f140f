//! The connection state of a client (tcp or redis) and its decisions:
//! when a connect, reconnect or disconnect is allowed, and when a lost or
//! failed connection is retried.

use vstd::prelude::*;

verus! {

/// Delay before a reconnect, in milliseconds.
pub const RECONNECT_DELAY_MS: u64 = 5000;

/// The state of a client's connection.
#[derive(Debug, PartialEq, Eq, Structural, Copy, Clone)]
pub enum ClientStatus {
    Null,
    Connecting,
    Connected,
    Disconnecting,
    Disconnected,
}

impl ClientStatus {
    /// Not connected and not on the way: never connected, or disconnected.
    pub open spec fn idle(self) -> bool {
        self == ClientStatus::Null || self == ClientStatus::Disconnected
    }

    /// Whether the status is idle.
    pub fn is_idle(&self) -> (r: bool)
        ensures
            r == self.idle(),
    {
        *self == ClientStatus::Null || *self == ClientStatus::Disconnected
    }

    /// Whether the client is connected.
    pub fn is_connected(&self) -> (r: bool)
        ensures
            r == (*self == ClientStatus::Connected),
    {
        *self == ClientStatus::Connected
    }
}

/// What the caller is to do next.
#[derive(Debug, PartialEq, Eq, Structural, Copy, Clone)]
pub enum LinkAction {
    /// Nothing.
    Nothing,
    /// Start a reconnect after the delay, in milliseconds.
    ScheduleReconnect(u64),
}

/// A client's connection state and whether it reconnects by itself.
pub struct ClientLink {
    pub status: ClientStatus,
    pub auto_reconnect: bool,
}

/// The retry that an idle client with automatic reconnect schedules.
pub open spec fn retry_of(status: ClientStatus, auto_reconnect: bool) -> LinkAction {
    if auto_reconnect && status.idle() {
        LinkAction::ScheduleReconnect(RECONNECT_DELAY_MS)
    } else {
        LinkAction::Nothing
    }
}

impl ClientLink {
    /// A client never connected, that reconnects by itself.
    pub fn new() -> (l: ClientLink)
        ensures
            l.status == ClientStatus::Null,
            l.auto_reconnect,
    {
        ClientLink { status: ClientStatus::Null, auto_reconnect: true }
    }

    /// A connect starts.
    pub fn connect_start(&mut self)
        ensures
            final(self).status == ClientStatus::Connecting,
            final(self).auto_reconnect == old(self).auto_reconnect,
    {
        self.status = ClientStatus::Connecting;
    }

    /// A connect finished: connected, or disconnected and retried when the
    /// client reconnects by itself.
    pub fn connect_done(&mut self, ok: bool) -> (a: LinkAction)
        ensures
            final(self).status == if ok {
                ClientStatus::Connected
            } else {
                ClientStatus::Disconnected
            },
            final(self).auto_reconnect == old(self).auto_reconnect,
            a == if ok {
                LinkAction::Nothing
            } else {
                retry_of(ClientStatus::Disconnected, old(self).auto_reconnect)
            },
    {
        if ok {
            self.status = ClientStatus::Connected;
            LinkAction::Nothing
        } else {
            self.status = ClientStatus::Disconnected;
            self.check_auto_reconnect()
        }
    }

    /// Asks for a reconnect: allowed only when idle, after
    /// [`RECONNECT_DELAY_MS`]; else the error `wrong status`.
    pub fn reconnect(&self) -> (r: Result<u64, String>)
        ensures
            r is Ok <==> self.status.idle(),
            r matches Ok(d) ==> d == RECONNECT_DELAY_MS,
            r matches Err(msg) ==> msg@ == wrong_status(),
    {
        if !self.status.is_idle() {
            return Err(wrong_status_message());
        }
        Ok(RECONNECT_DELAY_MS)
    }

    /// A scheduled reconnect is due: connect unless already connected.
    pub fn reconnect_due(&self) -> (connect: bool)
        ensures
            connect == (self.status != ClientStatus::Connected),
    {
        !self.status.is_connected()
    }

    /// Asks for a disconnect: allowed only when connected, and then the
    /// client is disconnecting; else the error `wrong status`.
    pub fn disconnect(&mut self) -> (r: Result<(), String>)
        ensures
            r is Ok <==> old(self).status == ClientStatus::Connected,
            r matches Err(msg) ==> msg@ == wrong_status(),
            final(self).status == if r is Ok {
                ClientStatus::Disconnecting
            } else {
                old(self).status
            },
            final(self).auto_reconnect == old(self).auto_reconnect,
    {
        if !self.status.is_connected() {
            return Err(wrong_status_message());
        }
        self.status = ClientStatus::Disconnecting;
        Ok(())
    }

    /// The connection closed: the client is disconnected, and retried when
    /// it reconnects by itself.
    pub fn on_closed(&mut self) -> (a: LinkAction)
        ensures
            final(self).status == ClientStatus::Disconnected,
            final(self).auto_reconnect == old(self).auto_reconnect,
            a == retry_of(ClientStatus::Disconnected, old(self).auto_reconnect),
    {
        self.status = ClientStatus::Disconnected;
        self.check_auto_reconnect()
    }

    /// Retries when the client reconnects by itself and is idle.
    pub fn check_auto_reconnect(&self) -> (a: LinkAction)
        ensures
            a == retry_of(self.status, self.auto_reconnect),
    {
        if self.auto_reconnect {
            match self.reconnect() {
                Ok(delay) => LinkAction::ScheduleReconnect(delay),
                Err(_) => LinkAction::Nothing,
            }
        } else {
            LinkAction::Nothing
        }
    }
}

/// `wrong status`
pub open spec fn wrong_status() -> Seq<char> {
    seq!['w', 'r', 'o', 'n', 'g', ' ', 's', 't', 'a', 't', 'u', 's']
}

fn wrong_status_message() -> (s: String)
    ensures
        s@ == wrong_status(),
{
    let t = "wrong status";
    proof {
        reveal_strlit("wrong status");
    }
    String::from_str(t)
}

/// A client that reconnects by itself retries a lost connection, and a
/// connected client never schedules a retry.
pub proof fn law_lost_connection_retried(auto_reconnect: bool)
    ensures
        auto_reconnect ==> retry_of(ClientStatus::Disconnected, auto_reconnect)
            == LinkAction::ScheduleReconnect(RECONNECT_DELAY_MS),
        retry_of(ClientStatus::Connected, auto_reconnect) == LinkAction::Nothing,
{
}

} // verus!
