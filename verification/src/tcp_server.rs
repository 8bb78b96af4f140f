//! The bookkeeping of a tcp server: its status while it starts listening,
//! and its count of connections against its limit.

use vstd::prelude::*;

verus! {

/// Largest connection count that the server accepts to count past.
pub const MAX_CONNECTION_COUNT: usize = 100000000;

/// The state of a server.
#[derive(Debug, PartialEq, Eq, Structural, Copy, Clone)]
pub enum ServerStatus {
    Null,
    Starting,
    Running,
}

/// A server's status, connection limit (0: none) and connection count.
pub struct TcpServerState {
    pub status: ServerStatus,
    pub connection_limit: usize,
    pub connection_num: usize,
}

impl TcpServerState {
    /// A server not started, with `connection_limit` (0: no limit) and no
    /// connection.
    pub fn new(connection_limit: usize) -> (s: TcpServerState)
        ensures
            s.status == ServerStatus::Null,
            s.connection_limit == connection_limit,
            s.connection_num == 0,
    {
        TcpServerState { status: ServerStatus::Null, connection_limit, connection_num: 0 }
    }

    /// Listening starts.
    pub fn listen_start(&mut self)
        ensures
            final(self).status == ServerStatus::Starting,
            final(self).connection_limit == old(self).connection_limit,
            final(self).connection_num == old(self).connection_num,
    {
        self.status = ServerStatus::Starting;
    }

    /// Listening is set up: the server runs when it succeeded; a failure
    /// leaves the status as it was.
    pub fn listen_done(&mut self, ok: bool)
        ensures
            final(self).status == if ok { ServerStatus::Running } else { old(self).status },
            final(self).connection_limit == old(self).connection_limit,
            final(self).connection_num == old(self).connection_num,
    {
        if ok {
            self.status = ServerStatus::Running;
        }
    }

    /// A connection came in; the count must be below
    /// [`MAX_CONNECTION_COUNT`].
    pub fn on_connect(&mut self)
        requires
            old(self).connection_num < MAX_CONNECTION_COUNT,
        ensures
            final(self).connection_num == old(self).connection_num + 1,
            final(self).status == old(self).status,
            final(self).connection_limit == old(self).connection_limit,
    {
        self.connection_num = self.connection_num + 1;
    }

    /// A connection went away; the count must be below
    /// [`MAX_CONNECTION_COUNT`]. From zero the count wraps around, as an
    /// atomic subtraction does.
    pub fn on_disconnect(&mut self)
        requires
            old(self).connection_num < MAX_CONNECTION_COUNT,
        ensures
            final(self).connection_num == if old(self).connection_num == 0 {
                usize::MAX as int
            } else {
                old(self).connection_num - 1
            },
            final(self).status == old(self).status,
            final(self).connection_limit == old(self).connection_limit,
    {
        self.connection_num = if self.connection_num == 0 {
            usize::MAX
        } else {
            self.connection_num - 1
        };
    }

    /// Whether the limit is reached: there is a limit and the count is at
    /// or above it.
    pub fn check_connection_limit(&self) -> (reached: bool)
        ensures
            reached == (self.connection_limit > 0 && self.connection_num >= self.connection_limit),
    {
        self.connection_limit > 0 && self.connection_num >= self.connection_limit
    }
}

} // verus!
