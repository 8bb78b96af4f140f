use commlib::client_link::{ClientLink, ClientStatus, LinkAction};
use commlib::db_value::{
    to_json, to_string, value_to_blob, value_to_date, value_to_double, value_to_float,
    value_to_int64, value_to_json, value_to_str, value_to_string, value_to_time,
    value_to_timestamp, value_to_uint64, DbValue, JsonValue,
};
use commlib::http_client::{
    complete_transfer, curl_settings, HttpClient, HttpContext, HttpRequest, HttpRequestType,
};
use commlib::ids::{ConnId, ListenerId, TcpListenerId};
use commlib::node_state::{keep_running, quit_state, sleep_after_round, NodeState};
use commlib::rand_bytes::{pick_exclusive_i8, rand_between_exclusive_i8, rand_bytes, rand_bytes2};
use commlib::request_parser::{RequestParser, RequestStep, MAX_REQUEST_SIZE};
use commlib::response_writer::{write_response, write_status_response};
use commlib::static_files::traversal_attempt;
use commlib::stop_watch::StopWatch;
use commlib::tcp_server::{ServerStatus, TcpServerState};
use commlib::thread_pool::{job_slot, Builder};

#[test]
fn db_value_integers_and_quirks() {
    assert_eq!(value_to_int64(&DbValue::NULL), None);
    assert_eq!(value_to_int64(&DbValue::Int(-5)), Some(-5));
    assert_eq!(value_to_int64(&DbValue::UInt(5)), Some(0));
    assert_eq!(value_to_uint64(&DbValue::Int(-1)), Some(u64::MAX));
    assert_eq!(value_to_uint64(&DbValue::Int(42)), Some(42));
    assert_eq!(value_to_uint64(&DbValue::UInt(42)), Some(0));
    assert_eq!(value_to_float(&DbValue::Float(1.5f32.to_bits())), Some(1.5f32.to_bits()));
    assert_eq!(value_to_float(&DbValue::Int(1)), Some(0));
    assert_eq!(value_to_double(&DbValue::Double(2.5f64.to_bits())), Some(2.5f64.to_bits()));
    assert_eq!(value_to_double(&DbValue::NULL), None);
}

#[test]
fn db_value_bytes_dates_times() {
    assert_eq!(value_to_str(&DbValue::Bytes(b"abc".to_vec())), Some(b"abc".to_vec()));
    assert_eq!(value_to_str(&DbValue::Int(3)), Some(Vec::new()));
    assert_eq!(value_to_blob(&DbValue::NULL), None);
    assert_eq!(value_to_date(&DbValue::Date(2020, 2, 29, 1, 2, 3, 4)), Some((2020, 2, 29, 1, 2, 3, 4)));
    assert_eq!(value_to_date(&DbValue::Int(1)), Some((0, 0, 0, 0, 0, 0, 0)));
    assert_eq!(value_to_time(&DbValue::Time(true, 1, 2, 3, 4, 5)), Some((true, 1, 2, 3, 4, 5)));
    assert_eq!(value_to_time(&DbValue::NULL), None);
}

#[test]
fn db_value_timestamps() {
    assert_eq!(value_to_timestamp(&DbValue::Date(0, 0, 0, 0, 0, 0, 0)), Some((0, 0)));
    assert_eq!(value_to_timestamp(&DbValue::Date(1970, 1, 2, 0, 0, 1, 7)), Some((86401, 7)));
    assert_eq!(value_to_timestamp(&DbValue::Date(2000, 3, 1, 0, 0, 0, 0)), Some((951868800, 0)));
    assert_eq!(value_to_timestamp(&DbValue::Bytes(vec![1])), Some((0, 0)));
    assert_eq!(value_to_timestamp(&DbValue::NULL), None);
}

#[test]
fn db_value_text() {
    assert_eq!(value_to_string(&DbValue::NULL), b"".to_vec());
    assert_eq!(value_to_string(&DbValue::Int(-120)), b"-120".to_vec());
    assert_eq!(value_to_string(&DbValue::UInt(18446744073709551615)), b"18446744073709551615".to_vec());
    assert_eq!(to_string(&DbValue::Bytes(b"x y".to_vec())), b"x y".to_vec());
    assert_eq!(
        value_to_string(&DbValue::Date(0, 0, 0, 0, 0, 0, 0)),
        b"1970-01-01T00:00:00+00:00".to_vec()
    );
    assert_eq!(
        value_to_string(&DbValue::Date(2023, 12, 5, 7, 8, 9, 123)),
        b"2023-12-05T07:08:09+00:00".to_vec()
    );
    assert_eq!(value_to_string(&DbValue::Time(false, 1, 2, 3, 4, 0)), b"26:03:04".to_vec());
    assert_eq!(
        value_to_string(&DbValue::Time(true, 0, 5, 6, 7, 8)),
        b"-5:06:07.000008000".to_vec()
    );
}

#[test]
fn db_value_json() {
    assert_eq!(value_to_json(&DbValue::NULL), JsonValue::Null);
    assert_eq!(value_to_json(&DbValue::Int(-3)), JsonValue::Int(-3));
    assert_eq!(value_to_json(&DbValue::UInt(3)), JsonValue::UInt(3));
    assert_eq!(value_to_json(&DbValue::Double(7)), JsonValue::Double(7));
    assert_eq!(to_json(&DbValue::Bytes(b"hi".to_vec())), JsonValue::String(b"hi".to_vec()));
    assert_eq!(
        to_json(&DbValue::Time(false, 0, 1, 2, 3, 0)),
        JsonValue::String(b"1:02:03".to_vec())
    );
}

fn request(t: HttpRequestType, data: Option<&str>, headers: Vec<&str>) -> HttpRequest {
    HttpRequest {
        request_type: t,
        url: "http://example.com/a".to_string(),
        data_opt: data.map(|d| d.to_string()),
        headers: headers.into_iter().map(|h| h.to_string()).collect(),
    }
}

#[test]
fn curl_settings_per_method() {
    let get = curl_settings(&request(HttpRequestType::GET, None, vec![]));
    assert_eq!(get.custom_request.as_deref(), Some("GET"));
    assert_eq!((get.post, get.follow_location), (Some(false), Some(true)));
    assert!(get.headers.is_none());
    assert!(get.post_fields.is_none());
    assert_eq!((get.timeout_secs, get.connect_timeout_secs), (30, 10));
    assert!(get.ssl_verify_peer && get.ssl_verify_host && get.signal);
    assert_eq!(get.url, "http://example.com/a");

    let post = curl_settings(&request(HttpRequestType::POST, Some("k=v"), vec!["X-A: 1"]));
    assert_eq!(post.custom_request.as_deref(), Some("POST"));
    assert_eq!((post.post, post.follow_location), (Some(true), None));
    assert_eq!(post.post_fields.as_deref(), Some("k=v"));
    assert_eq!(post.headers, Some(vec!["X-A: 1".to_string()]));

    let put = curl_settings(&request(HttpRequestType::PUT, None, vec![]));
    assert_eq!(put.custom_request.as_deref(), Some("PUT"));
    assert_eq!(put.post_fields.as_deref(), Some(""));

    let del = curl_settings(&request(HttpRequestType::DEL, Some("ignored"), vec![]));
    assert_eq!(del.custom_request.as_deref(), Some("DELETE"));
    assert_eq!((del.post, del.follow_location), (Some(false), Some(true)));
    assert!(del.post_fields.is_none());

    let unknown = curl_settings(&request(HttpRequestType::UNKNOWN, None, vec![]));
    assert!(unknown.custom_request.is_none());
    assert_eq!((unknown.post, unknown.follow_location), (None, None));
}

#[test]
fn http_client_batches_and_completion() {
    let mut cli = HttpClient::new();
    for _ in 0..150 {
        cli.send(request(HttpRequestType::GET, None, vec![]));
    }
    assert_eq!(cli.take_batch().len(), 101);
    assert_eq!(cli.take_batch().len(), 49);
    assert_eq!(cli.take_batch().len(), 0);

    let mut ctx = HttpContext::new(request(HttpRequestType::GET, None, vec![]));
    assert!(!complete_transfer(&mut ctx, true, 404));
    assert!(!ctx.response.succeed);
    assert!(!complete_transfer(&mut ctx, false, 200));
    assert!(complete_transfer(&mut ctx, true, 200));
    assert!(ctx.response.succeed);
    assert_eq!(ctx.response.response_code, 200);
}

#[test]
fn response_bytes_with_defaults() {
    let r = write_response(200, &b"OK".to_vec(), &b"Mon, 01 Jan 2024 00:00:00 GMT".to_vec(), &vec![], &b"hi".to_vec());
    assert_eq!(
        String::from_utf8(r).unwrap(),
        "HTTP/1.1 200 OK\r\nMon, 01 Jan 2024 00:00:00 GMT\r\nconnection: close\r\ncontent-length: 2\r\n\r\nhi"
    );
}

#[test]
fn response_bytes_with_standard_reason() {
    let r = write_status_response(404, &b"d".to_vec(), &vec![], &b"x".to_vec()).unwrap();
    assert_eq!(
        String::from_utf8(r).unwrap(),
        "HTTP/1.1 404 Not Found\r\nd\r\nconnection: close\r\ncontent-length: 1\r\n\r\nx"
    );
    assert!(write_status_response(299, &vec![], &vec![], &vec![]).is_none());
    assert!(write_status_response(42, &vec![], &vec![], &vec![]).is_none());
}

#[test]
fn service_loop_decisions() {
    assert!(keep_running(NodeState::Run, true));
    assert!(keep_running(NodeState::Closing, false));
    assert!(!keep_running(NodeState::Closing, true));
    assert!(!keep_running(NodeState::Closed, false));
    assert_eq!(quit_state(NodeState::Run), NodeState::Closed);
    assert_eq!(quit_state(NodeState::NodeLost), NodeState::NodeLost);
    assert!(sleep_after_round(60));
    assert!(!sleep_after_round(61));
}

#[test]
fn response_bytes_with_own_headers() {
    let headers = vec![
        (b"date".to_vec(), b"today".to_vec()),
        (b"content-length".to_vec(), b"0".to_vec()),
        (b"x-bin".to_vec(), vec![0x01]),
        (b"connection".to_vec(), b"keep-alive".to_vec()),
    ];
    let r = write_response(404, &b"Not Found".to_vec(), &b"ignored".to_vec(), &headers, &vec![]);
    assert_eq!(
        String::from_utf8(r).unwrap(),
        "HTTP/1.1 404 Not Found\r\ndate: today\r\ncontent-length: 0\r\nconnection: keep-alive\r\n\r\n"
    );
}

#[test]
fn request_parser_accumulates_and_limits() {
    let mut p = RequestParser::new();
    assert_eq!(p.parse_once(b"GET / HT"), RequestStep::Parse);
    assert_eq!(p.parse_once(b"TP/1.1\r\n\r\n"), RequestStep::Parse);
    assert_eq!(p.received().as_slice(), b"GET / HTTP/1.1\r\n\r\n");
    let big = vec![b'a'; MAX_REQUEST_SIZE];
    let mut q = RequestParser::new();
    assert_eq!(q.parse_once(&big), RequestStep::Abort);
    assert_eq!(q.parse_once(b"x"), RequestStep::Abort);
    assert!(q.received().is_empty());
}

#[test]
fn client_link_decisions() {
    let mut l = ClientLink::new();
    assert_eq!(l.status, ClientStatus::Null);
    assert_eq!(l.reconnect(), Ok(5000));
    assert_eq!(l.disconnect(), Err("wrong status".to_string()));
    l.connect_start();
    assert_eq!(l.reconnect(), Err("wrong status".to_string()));
    assert_eq!(l.connect_done(false), LinkAction::ScheduleReconnect(5000));
    assert_eq!(l.status, ClientStatus::Disconnected);
    assert!(l.reconnect_due());
    l.connect_start();
    assert_eq!(l.connect_done(true), LinkAction::Nothing);
    assert!(!l.reconnect_due());
    assert_eq!(l.disconnect(), Ok(()));
    assert_eq!(l.status, ClientStatus::Disconnecting);
    assert_eq!(l.on_closed(), LinkAction::ScheduleReconnect(5000));
    l.auto_reconnect = false;
    assert_eq!(l.on_closed(), LinkAction::Nothing);
}

#[test]
fn tcp_server_counts_against_limit() {
    let mut s = TcpServerState::new(2);
    assert_eq!(s.status, ServerStatus::Null);
    s.listen_start();
    s.listen_done(false);
    assert_eq!(s.status, ServerStatus::Starting);
    s.listen_done(true);
    assert_eq!(s.status, ServerStatus::Running);
    assert!(!s.check_connection_limit());
    s.on_connect();
    s.on_connect();
    assert!(s.check_connection_limit());
    s.on_disconnect();
    assert!(!s.check_connection_limit());
    let mut unlimited = TcpServerState::new(0);
    unlimited.on_connect();
    assert!(!unlimited.check_connection_limit());
    unlimited.on_disconnect();
    unlimited.on_disconnect();
    assert_eq!(unlimited.connection_num, usize::MAX);
}

#[test]
fn thread_pool_builder_and_slots() {
    let b = Builder::new().num_threads(8).thread_name("foo".to_string()).thread_stack_size(4_000_000);
    assert_eq!(b.num_threads, Some(8));
    assert_eq!(b.thread_name.as_deref(), Some("foo"));
    assert_eq!(b.thread_stack_size, Some(4_000_000));
    assert_eq!(b.worker_count(), 8);
    assert!(Builder::default().worker_count() >= 1);
    assert_eq!(job_slot(10, 4), 2);
    assert_eq!(job_slot(3, 4), 3);
}

#[test]
fn ids_from_and_text() {
    assert_eq!(ConnId::from(12usize).id, 12);
    assert_eq!(ListenerId::from(0usize).to_string(), "0");
    assert_eq!(TcpListenerId::from(4096usize).to_string(), "4096");
    assert_eq!(ConnId::from(7usize).to_string(), "7");
}

#[test]
fn random_bytes_and_numbers() {
    let v = rand_bytes2(32).unwrap();
    assert_eq!(v.len(), 32);
    let mut buf = [0u8; 16];
    assert!(rand_bytes(&mut buf).is_ok());
    for _ in 0..100 {
        let r = rand_between_exclusive_i8(0, 63, &vec![5]);
        assert!((0..63).contains(&r) && r != 5);
    }
    assert_eq!(pick_exclusive_i8(7, 0, 10, &vec![]), 7);
    assert_eq!(pick_exclusive_i8(7, 0, 10, &vec![7]), 0);
    assert_eq!(pick_exclusive_i8(7, 0, 2, &vec![0, 1]), 1);
}

#[test]
fn stop_watch_runs() {
    let mut sw = StopWatch::new();
    let a = sw.elapsed();
    let b = sw.elapsed_and_reset();
    assert!(b >= a);
    sw.reset();
    assert!(sw.elapsed() < 1000);
}

#[test]
fn stop_watch_laps_at_readings() {
    let mut sw = StopWatch::new();
    assert_eq!(sw.elapsed_at(2_500_000), 2);
    assert_eq!(sw.lap_at(3_999_999), 3);
    assert_eq!(sw.lap_at(4_000_000), 0);
    assert_eq!(sw.elapsed_at(1_000), 0);
    assert_eq!(sw.lap_at(1_000), 0);
    assert_eq!(sw.lap_at(5_000_001), 1);
    sw.reset_at(10_000_000);
    assert_eq!(sw.elapsed_at(12_000_000), 2);
}

#[test]
fn static_paths_that_leave_the_directory() {
    assert!(!traversal_attempt(b"/index.html"));
    assert!(!traversal_attempt(b"/a/./b/.hidden"));
    assert!(!traversal_attempt(b"/a//b"));
    assert!(!traversal_attempt(b"/"));
    assert!(traversal_attempt(b"/../etc/passwd"));
    assert!(traversal_attempt(b"/a/../../b"));
    assert!(traversal_attempt(b"/a/.."));
    assert!(traversal_attempt(b"//etc"));
    assert!(traversal_attempt(b"/./a"));
    assert!(traversal_attempt(b"/."));
    assert!(!traversal_attempt(b"/a/..b"));
}

#[test]
fn node_states_are_ordered() {
    assert!(NodeState::Idle < NodeState::Run);
    assert!(NodeState::Closed < NodeState::NodeLost);
}
