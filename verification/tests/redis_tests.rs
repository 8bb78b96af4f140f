use commlib::redis_cmds::{hget_command, hgetall_command, hset_command, xadd_command, xread_command};
use commlib::redis_commander::{append_command, CommandTag, RedisCommander, ReplyAction};
use commlib::redis_reply::{RedisReply, RedisReplyType};
use commlib::reply_builder::{ReplyBuilder, ReplyResult};

fn replies(b: &mut ReplyBuilder, input: &[u8]) -> Vec<RedisReply> {
    match b.build_once(input) {
        ReplyResult::Ready(v) => v,
        ReplyResult::Abort(msg) => panic!("unexpected abort: {}", msg),
    }
}

#[test]
fn reply_builder_simple_kinds() {
    let mut b = ReplyBuilder::new();
    let v = replies(&mut b, b"+OK\r\n-ERR bad\r\n:42\r\n$3\r\nfoo\r\n$-1\r\n");
    assert_eq!(v.len(), 5);
    assert!(v[0].is_ok());
    assert_eq!(v[0].reply_type(), RedisReplyType::SimpleString);
    assert!(v[1].is_error());
    assert_eq!(v[1].error(), b"ERR bad");
    assert!(v[2].is_integer());
    assert_eq!(v[2].as_integer(), 42);
    assert!(v[3].is_string());
    assert_eq!(v[3].as_string(), b"foo");
    assert!(v[4].is_null());
}

#[test]
fn reply_builder_across_chunks_and_arrays() {
    let mut b = ReplyBuilder::new();
    assert!(replies(&mut b, b"*2\r\n$3\r\nab").is_empty());
    let v = replies(&mut b, b"c\r\n:-7\r\n");
    assert_eq!(v.len(), 1);
    assert!(v[0].is_array());
    let items = v[0].as_array();
    assert_eq!(items.len(), 2);
    assert_eq!(items[0].as_string(), b"abc");
    assert_eq!(items[1].as_integer(), -7);
    let empty = replies(&mut b, b"*0\r\n$0\r\n\r\n");
    assert_eq!(empty.len(), 2);
    // a zero count gives an empty bulk string, not an empty array
    assert!(empty[0].is_string());
    assert_eq!(empty[0].as_string(), b"");
    assert_eq!(empty[1].as_string(), b"");
}

#[test]
fn reply_builder_refuses_bad_input() {
    let mut b = ReplyBuilder::new();
    match b.build_once(b":12x\r\n") {
        ReplyResult::Abort(msg) => assert_eq!(msg, "ErrorInvalidInteger"),
        ReplyResult::Ready(_) => panic!("bad integer must abort"),
    }
    let mut c = ReplyBuilder::new();
    match c.build_once(b"?\r\n") {
        ReplyResult::Abort(msg) => assert_eq!(msg, "ErrorInvalidInteger"),
        ReplyResult::Ready(_) => panic!("unknown kind must abort"),
    }
}

#[test]
fn redis_reply_constructors() {
    let r = RedisReply::from("OK", RedisReplyType::SimpleString);
    assert!(r.is_ok() && r.is_valid() && r.is_string());
    let e = RedisReply::from_error("nope");
    assert!(e.is_error() && !e.is_ok());
    let n = RedisReply::null();
    assert!(n.is_null());
    let i = RedisReply::from_integer(9);
    assert_eq!(i.as_integer(), 9);
    let a = RedisReply::from_vec(vec![RedisReply::from_integer(1), RedisReply::null()]);
    assert_eq!(a.as_array().len(), 2);
}

#[test]
fn commands_encode_as_arrays_of_bulk_strings() {
    let mut buf = Vec::new();
    append_command(&mut buf, &hset_command("k", "f", "v"));
    assert_eq!(buf, b"*4\r\n$4\r\nHSET\r\n$1\r\nk\r\n$1\r\nf\r\n$1\r\nv\r\n".to_vec());
    assert_eq!(hget_command("k", "f"), vec![b"HGET".to_vec(), b"k".to_vec(), b"f".to_vec()]);
    assert_eq!(hgetall_command("k"), vec![b"HGETALL".to_vec(), b"k".to_vec()]);
    let x = xadd_command("s", "*", &vec![b"a".to_vec(), b"1".to_vec()]);
    assert_eq!(x, vec![b"XADD".to_vec(), b"s".to_vec(), b"*".to_vec(), b"a".to_vec(), b"1".to_vec()]);
    let r = xread_command(10, 0, &vec![b"s".to_vec()], &vec![b"0".to_vec()]);
    assert_eq!(r[0], b"XREAD".to_vec());
    assert!(r.contains(&b"10".to_vec()));
    // a command read back through the reply builder is one array of its parts
    let mut b = ReplyBuilder::new();
    let v = replies(&mut b, &buf);
    assert_eq!(v.len(), 1);
    let parts: Vec<Vec<u8>> = v[0].as_array().iter().map(|p| p.as_string().to_vec()).collect();
    assert_eq!(parts, vec![b"HSET".to_vec(), b"k".to_vec(), b"f".to_vec(), b"v".to_vec()]);
}

#[test]
fn commander_login_then_flush() {
    let mut c = RedisCommander::new("main", "secret", 2);
    assert!(!c.is_ready());
    c.do_send(vec![b"PING".to_vec()], CommandTag::Callback(11));
    assert!(c.do_commit(false).is_none());
    let sent = c.on_connect(5);
    assert_eq!(
        sent,
        b"*1\r\n$4\r\nPING\r\n*2\r\n$4\r\nAUTH\r\n$6\r\nsecret\r\n*2\r\n$6\r\nSELECT\r\n$1\r\n2\r\n".to_vec()
    );
    match c.on_receive_reply(RedisReply::from("PONG", RedisReplyType::SimpleString), false) {
        ReplyAction::Deliver(id, rep) => {
            assert_eq!(id, 11);
            assert_eq!(rep.as_string(), b"PONG");
        }
        _ => panic!("reply must go to its callback"),
    }
    assert!(matches!(c.on_receive_reply(RedisReply::from("OK", RedisReplyType::SimpleString), false), ReplyAction::Nothing));
    assert!(c.is_auth_ready());
    c.do_send(vec![b"GET".to_vec(), b"x".to_vec()], CommandTag::Callback(12));
    match c.on_receive_reply(RedisReply::from("OK", RedisReplyType::SimpleString), false) {
        ReplyAction::Send(data) => assert_eq!(data, b"*2\r\n$3\r\nGET\r\n$1\r\nx\r\n".to_vec()),
        _ => panic!("queued commands go out once logged in"),
    }
    assert!(c.is_ready());
}

#[test]
fn commander_refused_password_closes() {
    let mut c = RedisCommander::new("main", "bad", 0);
    let _ = c.on_connect(1);
    assert!(matches!(
        c.on_receive_reply(RedisReply::from_error("WRONGPASS"), false),
        ReplyAction::CloseConnection
    ));
    assert!(matches!(c.on_receive_reply(RedisReply::null(), false), ReplyAction::Nothing));
    assert!(matches!(c.on_receive_reply(RedisReply::null(), false), ReplyAction::Nothing));
}

#[test]
fn commander_without_password() {
    let mut c = RedisCommander::new("plain", "", 0);
    assert_eq!(c.name(), "plain");
    assert!(c.on_connect(3).is_empty());
    c.do_send(vec![b"PING".to_vec()], CommandTag::Callback(1));
    assert_eq!(c.do_commit(false), Some(b"*1\r\n$4\r\nPING\r\n".to_vec()));
    c.do_send(vec![b"PING".to_vec()], CommandTag::Callback(2));
    assert!(c.do_commit(true).is_none());
    c.do_clear_commands();
    c.on_disconnect();
    assert!(c.do_commit(false).is_none());
}
