//! The command side of a Redis connection: encoding of commands, the queue
//! of commands that wait for their reply, and the login steps (`AUTH`,
//! `SELECT`) that make the connection ready.

use vstd::prelude::*;
use std::collections::VecDeque;
use vstd::string::StringSliceAdditionalSpecFns;
use crate::redis_reply::{RedisReply, RedisReplyType};
use crate::resp::{dec, crlf, encode_part, encode_parts, encode_command, lemma_encode_parts_push};

verus! {

/// Largest number of commands that may wait for their reply.
pub const MAX_COMMAND_PART_NUM: usize = 64;

/// The parts of a command as byte strings.
pub open spec fn parts_view(cmd: Seq<Vec<u8>>) -> Seq<Seq<u8>> {
    cmd.map_values(|p: Vec<u8>| p@)
}

/// Appends the decimal numeral of `n`.
pub fn append_decimal(buf: &mut Vec<u8>, n: u64)
    ensures
        final(buf)@ == old(buf)@ + dec(n as nat),
    decreases n,
{
    if n < 10 {
        buf.push(48u8 + n as u8);
        assert(final(buf)@ =~= old(buf)@ + dec(n as nat));
    } else {
        append_decimal(buf, n / 10);
        buf.push(48u8 + (n % 10) as u8);
        assert(final(buf)@ =~= old(buf)@ + dec(n as nat));
    }
}

/// Appends the encoding of a command: `*count\r\n` and, for each part,
/// `$len\r\npart\r\n`.
pub fn append_command(buf: &mut Vec<u8>, cmd: &Vec<Vec<u8>>)
    ensures
        final(buf)@ == old(buf)@ + encode_command(parts_view(cmd@)),
{
    let ghost ps = parts_view(cmd@);
    buf.push(42u8);
    append_decimal(buf, cmd.len() as u64);
    buf.push(13u8);
    buf.push(10u8);
    let ghost head = buf@;
    assert(head =~= old(buf)@ + (seq![42u8] + dec(ps.len()) + crlf()));
    let mut i: usize = 0;
    assert(ps.take(0) =~= Seq::<Seq<u8>>::empty());
    while i < cmd.len()
        invariant
            i <= cmd@.len(),
            ps == parts_view(cmd@),
            head == old(buf)@ + (seq![42u8] + dec(ps.len()) + crlf()),
            buf@ == head + encode_parts(ps.take(i as int)),
        decreases cmd.len() - i,
    {
        let part = &cmd[i];
        buf.push(36u8);
        append_decimal(buf, part.len() as u64);
        buf.push(13u8);
        buf.push(10u8);
        let mut j: usize = 0;
        let ghost before = buf@;
        while j < part.len()
            invariant
                j <= part@.len(),
                buf@ == before + part@.take(j as int),
            decreases part.len() - j,
        {
            buf.push(part[j]);
            j = j + 1;
            assert(buf@ =~= before + part@.take(j as int));
        }
        buf.push(13u8);
        buf.push(10u8);
        proof {
            assert(part@.take(part@.len() as int) =~= part@);
            assert(ps[i as int] == part@);
            lemma_encode_parts_push(ps.take(i as int), ps[i as int]);
            assert(ps.take(i + 1) =~= ps.take(i as int).push(ps[i as int]));
            assert(buf@ =~= head + encode_parts(ps.take(i as int)) + encode_part(ps[i as int]));
        }
        i = i + 1;
    }
    assert(ps.take(cmd@.len() as int) =~= ps);
    assert(buf@ =~= old(buf)@ + encode_command(ps));
}

/// What a queued command is waiting for.
#[derive(Debug, PartialEq, Eq, Structural, Copy, Clone)]
pub enum CommandTag {
    /// The password check sent on connect.
    Auth,
    /// The database selection sent on connect.
    Select,
    /// A command of the user; the number names its callback.
    Callback(u64),
}

/// A command that waits for its reply.
pub struct Command {
    cmd: Vec<Vec<u8>>,
    tag: CommandTag,
}

/// What the connection must do after a reply was handled.
pub enum ReplyAction {
    /// Nothing.
    Nothing,
    /// Close the connection: the password was refused.
    CloseConnection,
    /// Send these bytes: the commands queued while the login went on.
    Send(Vec<u8>),
    /// Hand the reply to the callback with this number.
    Deliver(u64, RedisReply),
}

/// The command side of one Redis connection.
pub struct RedisCommander {
    name: String,
    pass: Vec<u8>,
    dbindex: i64,
    conn: Option<u64>,
    commands: VecDeque<Command>,
    running_cb_num: usize,
    buffer: Vec<u8>,
    auth_ready: bool,
    select_ready: bool,
}

/// The state of a commander as plain values.
pub struct CommanderView {
    /// The commands that wait for their reply, oldest first.
    pub queue: Seq<(Seq<Seq<u8>>, CommandTag)>,
    /// Encoded commands not yet handed to the connection.
    pub unsent: Seq<u8>,
    /// The connection, by its handle, once connected.
    pub conn: Option<u64>,
    pub auth_ready: bool,
    pub select_ready: bool,
    /// Number of callbacks that still wait for their reply.
    pub running_cb_num: nat,
    pub pass: Seq<u8>,
    pub dbindex: i64,
    /// The name given at creation.
    pub name: Seq<char>,
}

/// The queue of commands as plain values.
pub closed spec fn queue_view(q: Seq<Command>) -> Seq<(Seq<Seq<u8>>, CommandTag)> {
    q.map_values(|c: Command| (parts_view(c.cmd@), c.tag))
}

impl View for RedisCommander {
    type V = CommanderView;

    closed spec fn view(&self) -> CommanderView {
        CommanderView {
            queue: queue_view(self.commands@),
            unsent: self.buffer@,
            conn: self.conn,
            auth_ready: self.auth_ready,
            select_ready: self.select_ready,
            running_cb_num: self.running_cb_num as nat,
            pass: self.pass@,
            dbindex: self.dbindex,
            name: self.name@,
        }
    }
}

/// The bytes `OK`.
pub open spec fn ok_bytes() -> Seq<u8> {
    seq![79u8, 75u8]
}

/// A reply that accepts a login step: a string `OK`.
pub open spec fn is_ok_reply(r: RedisReply) -> bool {
    (r.spec_type() == RedisReplyType::BulkString || r.spec_type() == RedisReplyType::SimpleString
        || r.spec_type() == RedisReplyType::Error) && r.spec_str() == ok_bytes()
}

/// The signed decimal numeral of a database index.
pub open spec fn idec(i: int) -> Seq<u8> {
    if i < 0 { seq![45u8] + dec((-i) as nat) } else { dec(i as nat) }
}

/// The `AUTH` command for a password.
pub open spec fn auth_command(pass: Seq<u8>) -> Seq<Seq<u8>> {
    seq![seq![65u8, 85u8, 84u8, 72u8], pass]
}

/// The `SELECT` command for a database index.
pub open spec fn select_command(dbindex: i64) -> Seq<Seq<u8>> {
    seq![seq![83u8, 69u8, 76u8, 69u8, 67u8, 84u8], idec(dbindex as int)]
}

/// The bytes `OK` of a reply.
fn reply_is_ok(reply: &RedisReply) -> (r: bool)
    ensures
        r == is_ok_reply(*reply),
{
    if reply.is_string() {
        let s = reply.as_string();
        let ok = s.len() == 2 && s[0] == 79u8 && s[1] == 75u8;
        assert(ok ==> s@ =~= ok_bytes());
        ok
    } else {
        false
    }
}

/// The signed decimal numeral of `i`.
pub fn signed_decimal(i: i64) -> (r: Vec<u8>)
    ensures
        r@ == idec(i as int),
{
    let mut v: Vec<u8> = Vec::new();
    if i < 0 {
        v.push(45u8);
        let m: u64 = if i == i64::MIN { 9223372036854775808u64 } else { (-i) as u64 };
        append_decimal(&mut v, m);
    } else {
        append_decimal(&mut v, i as u64);
    }
    assert(v@ =~= idec(i as int));
    v
}

impl RedisCommander {
    /// Every queued command waits for one callback.
    pub closed spec fn wf(&self) -> bool {
        self.running_cb_num == self.commands@.len()
    }

    /// A commander that is not connected and has nothing queued.
    pub fn new(name: &str, pass: &str, dbindex: i64) -> (r: Self)
        ensures
            r.wf(),
            r@.queue == Seq::<(Seq<Seq<u8>>, CommandTag)>::empty(),
            r@.unsent == Seq::<u8>::empty(),
            r@.conn is None,
            !r@.auth_ready,
            !r@.select_ready,
            r@.running_cb_num == 0,
            r@.pass == pass.spec_bytes(),
            r@.dbindex == dbindex,
            r@.name == name@,
    {
        let r = RedisCommander {
            name: name.to_owned(),
            pass: vstd::slice::slice_to_vec(pass.as_bytes()),
            dbindex,
            conn: None,
            commands: VecDeque::new(),
            running_cb_num: 0,
            buffer: Vec::new(),
            auth_ready: false,
            select_ready: false,
        };
        assert(r@.queue =~= Seq::<(Seq<Seq<u8>>, CommandTag)>::empty());
        r
    }

    /// The name given at creation.
    pub fn name(&self) -> (r: &str)
        ensures
            r@ == self@.name,
    {
        self.name.as_str()
    }

    /// The password was accepted.
    pub fn is_auth_ready(&self) -> (r: bool)
        ensures
            r == self@.auth_ready,
    {
        self.auth_ready
    }

    /// Marks the password as accepted or not.
    pub fn set_auth_ready(&mut self, flag: bool)
        ensures
            final(self)@ == (CommanderView { auth_ready: flag, ..old(self)@ }),
            final(self).wf() == old(self).wf(),
    {
        self.auth_ready = flag;
    }

    /// The database was selected.
    pub fn is_select_ready(&self) -> (r: bool)
        ensures
            r == self@.select_ready,
    {
        self.select_ready
    }

    /// Marks the database as selected or not.
    pub fn set_select_ready(&mut self, flag: bool)
        ensures
            final(self)@ == (CommanderView { select_ready: flag, ..old(self)@ }),
            final(self).wf() == old(self).wf(),
    {
        self.select_ready = flag;
    }

    /// Logged in and database selected.
    pub fn is_ready(&self) -> (r: bool)
        ensures
            r == (self@.auth_ready && self@.select_ready),
    {
        self.is_auth_ready() && self.is_select_ready()
    }

    /// Queues a command: its encoding goes after the unsent bytes and it
    /// waits for its reply after every command queued before it.
    pub fn do_send(&mut self, cmd: Vec<Vec<u8>>, tag: CommandTag)
        requires
            old(self).wf(),
            cmd@.len() > 0,
            old(self)@.queue.len() < MAX_COMMAND_PART_NUM,
        ensures
            final(self).wf(),
            final(self)@ == (CommanderView {
                queue: old(self)@.queue.push((parts_view(cmd@), tag)),
                unsent: old(self)@.unsent + encode_command(parts_view(cmd@)),
                running_cb_num: old(self)@.running_cb_num + 1,
                ..old(self)@
            }),
    {
        append_command(&mut self.buffer, &cmd);
        let ghost c = Command { cmd, tag };
        self.commands.push_back(Command { cmd, tag });
        self.running_cb_num = self.running_cb_num + 1;
        assert(queue_view(self.commands@) =~= queue_view(old(self).commands@).push((parts_view(cmd@), tag)));
    }

    /// Hands the unsent bytes to the connection when there is an open one:
    /// returns them and forgets them; otherwise keeps them and returns
    /// `None`.
    pub fn do_commit(&mut self, conn_closed: bool) -> (r: Option<Vec<u8>>)
        ensures
            final(self).wf() == old(self).wf(),
            old(self)@.conn is Some && !conn_closed ==> (r matches Some(data) && data@ == old(self)@.unsent
                && final(self)@ == (CommanderView { unsent: Seq::empty(), ..old(self)@ })),
            !(old(self)@.conn is Some && !conn_closed) ==> r is None && final(self)@ == old(self)@,
    {
        if self.conn.is_some() && !conn_closed {
            let mut data: Vec<u8> = Vec::new();
            std::mem::swap(&mut data, &mut self.buffer);
            Some(data)
        } else {
            None
        }
    }

    /// Queues `AUTH` with the password and hands it to the connection. A
    /// commander without password, or without connection, sends nothing.
    pub fn do_auth(&mut self, conn_closed: bool) -> (r: Option<Vec<u8>>)
        requires
            old(self).wf(),
            old(self)@.queue.len() < MAX_COMMAND_PART_NUM,
        ensures
            final(self).wf(),
            old(self)@.pass.len() == 0 || old(self)@.conn is None ==> r is None && final(self)@ == old(self)@,
            old(self)@.pass.len() > 0 && old(self)@.conn is Some ==> ({
                let unsent = old(self)@.unsent + encode_command(auth_command(old(self)@.pass));
                &&& final(self)@.queue == old(self)@.queue.push((auth_command(old(self)@.pass), CommandTag::Auth))
                &&& final(self)@.running_cb_num == old(self)@.running_cb_num + 1
                &&& final(self)@.conn == old(self)@.conn
                &&& final(self)@.auth_ready == old(self)@.auth_ready
                &&& final(self)@.select_ready == old(self)@.select_ready
                &&& (!conn_closed ==> (r matches Some(data) && data@ == unsent && final(self)@.unsent == Seq::<u8>::empty()))
                &&& (conn_closed ==> r is None && final(self)@.unsent == unsent)
            }),
            final(self)@.pass == old(self)@.pass,
            final(self)@.dbindex == old(self)@.dbindex,
            final(self)@.name == old(self)@.name,
    {
        if self.pass.len() == 0 {
            return None;
        }
        if self.conn.is_none() {
            return None;
        }
        let mut cmd: Vec<Vec<u8>> = Vec::new();
        cmd.push(vec![65u8, 85u8, 84u8, 72u8]);
        cmd.push(self.pass.clone());
        assert(parts_view(cmd@) =~= auth_command(self.pass@));
        self.do_send(cmd, CommandTag::Auth);
        self.do_commit(conn_closed)
    }

    /// Queues `SELECT` with the database index and hands it to the
    /// connection. As in the login sequence that this follows, a commander
    /// without password selects nothing.
    pub fn do_select(&mut self, conn_closed: bool) -> (r: Option<Vec<u8>>)
        requires
            old(self).wf(),
            old(self)@.queue.len() < MAX_COMMAND_PART_NUM,
        ensures
            final(self).wf(),
            old(self)@.pass.len() == 0 ==> r is None && final(self)@ == old(self)@,
            old(self)@.pass.len() > 0 ==> ({
                let unsent = old(self)@.unsent + encode_command(select_command(old(self)@.dbindex));
                &&& final(self)@.queue == old(self)@.queue.push((select_command(old(self)@.dbindex), CommandTag::Select))
                &&& final(self)@.running_cb_num == old(self)@.running_cb_num + 1
                &&& final(self)@.conn == old(self)@.conn
                &&& final(self)@.auth_ready == old(self)@.auth_ready
                &&& final(self)@.select_ready == old(self)@.select_ready
                &&& (old(self)@.conn is Some && !conn_closed ==> (r matches Some(data) && data@ == unsent
                    && final(self)@.unsent == Seq::<u8>::empty()))
                &&& (!(old(self)@.conn is Some && !conn_closed) ==> r is None && final(self)@.unsent == unsent)
            }),
            final(self)@.pass == old(self)@.pass,
            final(self)@.dbindex == old(self)@.dbindex,
            final(self)@.name == old(self)@.name,
    {
        if self.pass.len() == 0 {
            return None;
        }
        let mut cmd: Vec<Vec<u8>> = Vec::new();
        cmd.push(vec![83u8, 69u8, 76u8, 69u8, 67u8, 84u8]);
        cmd.push(signed_decimal(self.dbindex));
        assert(parts_view(cmd@) =~= select_command(self.dbindex));
        self.do_send(cmd, CommandTag::Select);
        self.do_commit(conn_closed)
    }

    /// A new connection: binds it, then sends `AUTH` and `SELECT` when there
    /// is a password. Returns the bytes handed to the connection.
    pub fn on_connect(&mut self, conn: u64) -> (r: Vec<u8>)
        requires
            old(self).wf(),
            old(self)@.queue.len() + 2 <= MAX_COMMAND_PART_NUM,
        ensures
            final(self).wf(),
            final(self)@.conn == Some(conn),
            old(self)@.pass.len() == 0 ==> r@ == Seq::<u8>::empty()
                && final(self)@ == (CommanderView { conn: Some(conn), ..old(self)@ }),
            old(self)@.pass.len() > 0 ==> ({
                &&& final(self)@.queue == old(self)@.queue
                    .push((auth_command(old(self)@.pass), CommandTag::Auth))
                    .push((select_command(old(self)@.dbindex), CommandTag::Select))
                &&& r@ == old(self)@.unsent + encode_command(auth_command(old(self)@.pass))
                    + encode_command(select_command(old(self)@.dbindex))
                &&& final(self)@.unsent == Seq::<u8>::empty()
                &&& final(self)@.running_cb_num == old(self)@.running_cb_num + 2
            }),
    {
        self.conn = Some(conn);
        let mut out: Vec<u8> = Vec::new();
        if let Some(mut data) = self.do_auth(false) {
            out.append(&mut data);
        }
        if let Some(mut data) = self.do_select(false) {
            out.append(&mut data);
        }
        assert(old(self)@.pass.len() == 0 ==> out@ =~= Seq::<u8>::empty());
        out
    }

    /// A reply arrived: it belongs to the oldest queued command, which is
    /// removed. The reply to `AUTH` makes the commander logged in when it
    /// is `OK` and asks to close the connection otherwise; the reply to
    /// `SELECT` marks the database as selected when it is `OK`, and once
    /// both steps are done hands the commands queued meanwhile to the
    /// connection. Any other reply goes to the callback of its command. A
    /// reply with no command waiting is dropped.
    pub fn on_receive_reply(&mut self, reply: RedisReply, conn_closed: bool) -> (r: ReplyAction)
        requires
            old(self).wf(),
        ensures
            final(self).wf(),
            old(self)@.queue.len() == 0 ==> r is Nothing && final(self)@ == old(self)@,
            old(self)@.queue.len() > 0 ==> ({
                let tag = old(self)@.queue[0].1;
                let base = CommanderView {
                    queue: old(self)@.queue.drop_first(),
                    running_cb_num: (old(self)@.running_cb_num - 1) as nat,
                    ..old(self)@
                };
                match tag {
                    CommandTag::Callback(id) => r matches ReplyAction::Deliver(i, rep) && i == id && rep == reply
                        && final(self)@ == base,
                    CommandTag::Auth => if is_ok_reply(reply) {
                        r is Nothing && final(self)@ == (CommanderView { auth_ready: true, ..base })
                    } else {
                        r is CloseConnection && final(self)@ == base
                    },
                    CommandTag::Select => if !is_ok_reply(reply) {
                        r is Nothing && final(self)@ == base
                    } else if base.auth_ready && base.conn is Some && !conn_closed {
                        r matches ReplyAction::Send(data) && data@ == base.unsent
                            && final(self)@ == (CommanderView { select_ready: true, unsent: Seq::empty(), ..base })
                    } else {
                        r is Nothing && final(self)@ == (CommanderView { select_ready: true, ..base })
                    },
                }
            }),
    {
        let ghost q = self.commands@;
        match self.commands.pop_front() {
            Some(command) => {
                self.running_cb_num = self.running_cb_num - 1;
                assert(queue_view(self.commands@) =~= queue_view(q).drop_first());
                match command.tag {
                    CommandTag::Callback(id) => ReplyAction::Deliver(id, reply),
                    CommandTag::Auth => {
                        if reply_is_ok(&reply) {
                            self.set_auth_ready(true);
                            ReplyAction::Nothing
                        } else {
                            ReplyAction::CloseConnection
                        }
                    },
                    CommandTag::Select => {
                        if reply_is_ok(&reply) {
                            self.set_select_ready(true);
                            if self.is_ready() {
                                match self.do_commit(conn_closed) {
                                    Some(data) => ReplyAction::Send(data),
                                    None => ReplyAction::Nothing,
                                }
                            } else {
                                ReplyAction::Nothing
                            }
                        } else {
                            ReplyAction::Nothing
                        }
                    },
                }
            },
            None => ReplyAction::Nothing,
        }
    }

    /// Forgets every queued command; their callbacks are dropped without a
    /// call. Unsent bytes stay.
    pub fn do_clear_commands(&mut self)
        ensures
            final(self).wf(),
            final(self)@ == (CommanderView {
                queue: Seq::empty(),
                running_cb_num: 0,
                ..old(self)@
            }),
    {
        self.commands.clear();
        self.running_cb_num = 0;
        assert(queue_view(self.commands@) =~= Seq::<(Seq<Seq<u8>>, CommandTag)>::empty());
    }

    /// The connection was lost: not logged in, nothing queued, no
    /// connection.
    pub fn on_disconnect(&mut self)
        ensures
            final(self).wf(),
            final(self)@ == (CommanderView {
                queue: Seq::empty(),
                running_cb_num: 0,
                conn: None,
                auth_ready: false,
                select_ready: false,
                ..old(self)@
            }),
    {
        self.set_auth_ready(false);
        self.set_select_ready(false);
        self.do_clear_commands();
        self.conn = None;
    }
}

} // verus!
