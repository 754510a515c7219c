use copra::bundle::bytes_from_vec;
use copra::channel::Channel;
use copra::codec::{
    decode_request_meta, decode_response_meta, encode_request_meta, encode_response_meta,
    MethodCodec, PbMessage, ProtobufCodec, StringMessage,
};
use copra::controller::{Controller, HttpStatus};
use copra::dispatcher::ServiceRegistry;
use copra::hello::{HelloEncap, HelloRegistrant, HelloRequest, HelloService, HelloStub};
use copra::load_balancer::{Backend, BackendState, CallInfo, LbStrategy, LoadBalancer};
use copra::message::{RpcRequestMeta, RpcResponseMeta};
use copra::metric::Metric;
use copra::protocol::{detect_protocol, try_parse, write_frame, DetectOutcome, DetectedProtocol, ParseOutcome};
use copra::server::{not_found_response, DriverStep, ServerBuilder, METHOD_NOT_FOUND_CODE};
use copra::service::{EncapsulatedMethod, MethodError};
use copra::stub::errno_to_result;

fn msg(s: &str) -> StringMessage {
    let mut m = StringMessage::new();
    m.set_msg(s.to_string());
    m
}

#[test]
fn request_meta_round_trip() {
    let mut meta = RpcRequestMeta::new();
    meta.set_service_name("Hello".to_string());
    meta.set_method_name("hello_general".to_string());
    meta.set_sequence_id(42);
    let bytes = encode_request_meta(&meta);
    let back = decode_request_meta(&bytes).expect("meta must decode");
    assert_eq!(back.get_service_name(), "Hello");
    assert_eq!(back.get_method_name(), "hello_general");
    assert_eq!(back.get_sequence_id(), 42);
    assert_eq!(back.compress_type, 0);
}

#[test]
fn response_meta_round_trip() {
    let mut meta = RpcResponseMeta::new();
    meta.set_sequence_id(7);
    meta.set_error_code(3);
    meta.set_error_text("boom".to_string());
    let bytes = encode_response_meta(&meta);
    let back = decode_response_meta(&bytes).expect("meta must decode");
    assert_eq!(back.get_sequence_id(), 7);
    assert_eq!(back.get_error_code(), 3);
    assert_eq!(back.get_error_text(), "boom");
}

#[test]
fn meta_decode_rejects_garbage() {
    assert!(decode_request_meta(&vec![0xFF, 0x00, 0x01]).is_none());
    assert!(decode_response_meta(&vec![]).is_none());
    // a string field whose bytes are not UTF-8 is rejected
    let bad = vec![0x0A, 0x02, 0xC3, 0x28];
    assert!(decode_request_meta(&bad).is_none());
}

#[test]
fn string_message_round_trip() {
    let m = msg("hello");
    let bytes = m.encode_pb();
    assert_eq!(bytes, vec![0x0A, 0x05, b'h', b'e', b'l', b'l', b'o']);
    let back = StringMessage::decode_pb(&bytes).expect("must decode");
    assert_eq!(back.get_msg(), "hello");
    assert!(StringMessage::decode_pb(&vec![0x0B, 0x00]).is_none());
}

#[test]
fn frame_round_trip_and_detection() {
    let meta = vec![1u8, 2, 3];
    let body = vec![9u8, 8];
    let mut out = Vec::new();
    write_frame(&meta, &body, &mut out);
    assert_eq!(&out[0..4], b"PRPC");
    assert_eq!(detect_protocol(&out), DetectOutcome::Chosen(DetectedProtocol::Binary));
    match try_parse(&out, 1024) {
        ParseOutcome::Frame(m, b, c) => {
            assert_eq!(m, meta);
            assert_eq!(b, body);
            assert_eq!(c, out.len());
        }
        _ => panic!("expected a frame"),
    }
    // a prefix of a frame is incomplete, not malformed
    let prefix = out[0..7].to_vec();
    assert!(matches!(try_parse(&prefix, 1024), ParseOutcome::Incomplete));
}

#[test]
fn detection_picks_http_and_rejects_garbage() {
    assert_eq!(
        detect_protocol(&b"GET /Metric/metric HTTP/1.1".to_vec()),
        DetectOutcome::Chosen(DetectedProtocol::Http)
    );
    assert_eq!(
        detect_protocol(&b"POST /x".to_vec()),
        DetectOutcome::Chosen(DetectedProtocol::Http)
    );
    assert_eq!(detect_protocol(&b"XYZW".to_vec()), DetectOutcome::Unknown);
    assert_eq!(detect_protocol(&b"PR".to_vec()), DetectOutcome::NeedMore);
}

#[test]
fn frame_size_limit_closes_without_dispatch() {
    // a header that announces a body one byte over the limit is malformed
    let max_frame: u32 = 64;
    let body_len: u32 = max_frame + 1;
    let mut raw: Vec<u8> = b"PRPC".to_vec();
    raw.extend_from_slice(&body_len.to_be_bytes());
    raw.extend_from_slice(&0u32.to_be_bytes());
    assert!(matches!(try_parse(&raw, max_frame), ParseOutcome::Malformed));

    // ... and the driver closes that connection while another is untouched
    let mut server = ServerBuilder::new().max_frame_bytes(max_frame).build();
    let a = server.accept();
    let b = server.accept();
    server.conn_push_bytes(b, &b"PRPC".to_vec());
    server.conn_push_bytes(a, &raw);
    assert!(matches!(server.conn_step(a), DriverStep::Detected(DetectedProtocol::Binary)));
    assert!(matches!(server.conn_step(a), DriverStep::Closed));
    assert!(server.conns[a].closed);
    // the other connection still parses fine
    assert!(!server.conns[b].closed);
    assert!(matches!(server.conn_step(b), DriverStep::Detected(DetectedProtocol::Binary)));
    assert!(matches!(server.conn_step(b), DriverStep::NeedMore));
}

#[derive(Clone)]
struct Greeter;

impl HelloService for Greeter {
    fn hello_general(
        &self,
        msg: (HelloRequest, Controller),
    ) -> Result<(HelloRequest, Controller), MethodError> {
        // echo
        Ok(msg)
    }

    fn hello_to(
        &self,
        msg: (HelloRequest, Controller),
    ) -> Result<(HelloRequest, Controller), MethodError> {
        let (m, c) = msg;
        let mut out = StringMessage::new();
        out.set_msg(format!("Greetings! {}.", m.get_msg()));
        Ok((out, c))
    }
}

fn build_registry() -> ServiceRegistry<HelloEncap<Greeter>> {
    let mut registry = ServiceRegistry::new();
    let registrant = HelloRegistrant::new(Greeter);
    registry
        .register_service(&"Hello".to_string(), registrant.methods())
        .expect("no duplicates");
    registry
}

#[test]
fn duplicate_registration_fails() {
    let mut registry = build_registry();
    let registrant = HelloRegistrant::new(Greeter);
    assert!(registry
        .register_service(&"Hello".to_string(), registrant.methods())
        .is_err());
}

#[test]
fn lookup_finds_registered_methods_only() {
    let registry = build_registry();
    assert!(registry
        .lookup(&"Hello".to_string(), &"hello_general".to_string())
        .is_some());
    assert!(registry
        .lookup(&"Hello".to_string(), &"hello_to".to_string())
        .is_some());
    assert!(registry
        .lookup(&"Unknown".to_string(), &"do".to_string())
        .is_none());
}

#[test]
fn echo_round_trip_over_the_wire() {
    // client side: a stub issues the call over a channel
    let mut channel = Channel::new(1, 16, LbStrategy::RoundRobin);
    let stub = HelloStub::new();
    let (future, frame) = stub.hello_general(&mut channel, msg("hello"), 1_000, 0);
    let frame = frame.expect("submission succeeds");
    assert_eq!(channel.in_flight, 1);

    // server side: the driver detects the protocol and takes the frame
    let mut server = ServerBuilder::new().throughput(true).build();
    let conn = server.accept();
    server.conn_push_bytes(conn, &frame);
    assert!(matches!(
        server.conn_step(conn),
        DriverStep::Detected(DetectedProtocol::Binary)
    ));
    let (meta_bytes, body_bytes) = match server.conn_step(conn) {
        DriverStep::Dispatch(m, b) => (m, b),
        _ => panic!("expected a dispatch"),
    };
    let req_meta = decode_request_meta(&meta_bytes).expect("meta decodes");
    assert_eq!(req_meta.get_service_name(), "Hello");
    assert_eq!(req_meta.get_method_name(), "hello_general");

    // dispatch through the registry and the encapsulated method
    let registry = build_registry();
    let method = registry
        .lookup(req_meta.get_service_name(), req_meta.get_method_name())
        .expect("registered");
    let (resp_body, _ctrl) = method
        .call((bytes_from_vec(body_bytes), Controller::new()))
        .expect("echo succeeds");

    // the reply goes back framed, correlated by sequence id
    let mut resp_meta = RpcResponseMeta::new();
    resp_meta.set_sequence_id(req_meta.get_sequence_id());
    let resp_frame = server
        .conn_complete(conn, &resp_meta, &copra::bundle::bytes_to_vec(&resp_body))
        .expect("framable");
    assert_eq!(server.throughput, 1);

    // client side again: parse, correlate, resolve
    let (rm, rb) = match try_parse(&resp_frame, 0x4000000) {
        ParseOutcome::Frame(m, b, _) => (m, b),
        _ => panic!("expected a frame"),
    };
    let rmeta = decode_response_meta(&rm).expect("meta decodes");
    assert_eq!(rmeta.get_error_code(), 0);
    let handle = future.inner.expect("issued");
    assert_eq!(rmeta.get_sequence_id(), handle.seq);
    assert!(channel.on_response(handle.conn, &rmeta));
    assert_eq!(channel.in_flight, 0);
    let (result, info) = future.poll((rmeta, rb));
    let (typed, _info) = result.expect("echo comes back clean");
    assert_eq!(typed.get_msg(), "hello");
    assert!(info.error.is_none());
}

#[test]
fn hello_to_transforms_its_input() {
    let registry = build_registry();
    let method = registry
        .lookup(&"Hello".to_string(), &"hello_to".to_string())
        .expect("registered");
    let body = msg("World").encode_pb();
    let (resp_body, _) = method
        .call((bytes_from_vec(body.clone()), Controller::new()))
        .expect("succeeds");
    let out = copra::bundle::bytes_to_vec(&resp_body);
    assert_ne!(out, body);
    let typed = StringMessage::decode_pb(&out).expect("decodes");
    assert_eq!(typed.get_msg(), "Greetings! World.");
}

#[test]
fn pipeline_rejects_undecodable_body() {
    let registry = build_registry();
    let method = registry
        .lookup(&"Hello".to_string(), &"hello_general".to_string())
        .expect("registered");
    let r = method.call((bytes_from_vec(vec![0xFF, 0xFF]), Controller::new()));
    assert!(matches!(r, Err(MethodError::CodecError)));
}

#[test]
fn not_found_becomes_a_server_error() {
    let registry = build_registry();
    assert!(registry
        .lookup(&"Unknown".to_string(), &"do".to_string())
        .is_none());
    let resp = not_found_response(9);
    assert_ne!(resp.get_error_code(), 0);
    match errno_to_result((resp, Vec::new())) {
        Err(MethodError::ServerError(code, text)) => {
            assert_eq!(code, METHOD_NOT_FOUND_CODE);
            assert_eq!(text, "method not found");
        }
        _ => panic!("expected a server error"),
    }
}

#[test]
fn concurrency_cap_rejects_the_third_call() {
    let mut channel = Channel::new(1, 2, LbStrategy::RoundRobin);
    let meta = RpcRequestMeta::new();
    let body = Vec::new();
    let first = channel.call(&meta, &body, 0, 0);
    assert!(first.is_ok());
    let second = channel.call(&meta, &body, 0, 0);
    assert!(second.is_ok());
    assert_eq!(channel.in_flight, 2);
    let third = channel.call(&meta, &body, 0, 0);
    assert!(matches!(third, Err(MethodError::ChannelConcurrencyLimited)));
    assert_eq!(channel.in_flight, 2);
}

#[test]
fn no_backend_means_no_healthy_backend() {
    let mut channel = Channel::new(0, 4, LbStrategy::RoundRobin);
    let r = channel.call(&RpcRequestMeta::new(), &Vec::new(), 0, 0);
    assert!(matches!(r, Err(MethodError::NoHealthyBackend)));
}

#[test]
fn cancellation_releases_slots() {
    let mut channel = Channel::new(1, 8, LbStrategy::RoundRobin);
    let meta = RpcRequestMeta::new();
    let body = Vec::new();
    let (h1, _) = channel.call(&meta, &body, 0, 0).unwrap();
    let (h2, _) = channel.call(&meta, &body, 0, 0).unwrap();
    let (h3, _) = channel.call(&meta, &body, 0, 0).unwrap();
    assert_eq!(channel.in_flight, 3);
    assert!(channel.cancel(h1));
    assert!(channel.cancel(h3));
    assert_eq!(channel.in_flight, 1);
    // a second drop of the same future changes nothing
    assert!(!channel.cancel(h1));
    assert_eq!(channel.in_flight, 1);
    assert!(channel.cancel(h2));
    assert_eq!(channel.in_flight, 0);
}

#[test]
fn out_of_order_replies_complete_the_right_callers() {
    let mut channel = Channel::new(1, 8, LbStrategy::RoundRobin);
    let meta = RpcRequestMeta::new();
    let body = Vec::new();
    let (h1, _) = channel.call(&meta, &body, 0, 0).unwrap();
    let (h2, _) = channel.call(&meta, &body, 0, 0).unwrap();
    assert_ne!(h1.seq, h2.seq);
    // the second reply arrives first
    let mut m2 = RpcResponseMeta::new();
    m2.set_sequence_id(h2.seq);
    assert!(channel.on_response(h2.conn, &m2));
    // a reply for an unknown id is discarded
    let mut bogus = RpcResponseMeta::new();
    bogus.set_sequence_id(999);
    assert!(!channel.on_response(h1.conn, &bogus));
    // a duplicate of the delivered reply is discarded too
    assert!(!channel.on_response(h2.conn, &m2));
    let mut m1 = RpcResponseMeta::new();
    m1.set_sequence_id(h1.seq);
    assert!(channel.on_response(h1.conn, &m1));
    assert_eq!(channel.in_flight, 0);
}

#[test]
fn congested_at_ninety_percent() {
    let mut channel = Channel::new(1, 10, LbStrategy::RoundRobin);
    let meta = RpcRequestMeta::new();
    let body = Vec::new();
    for _ in 0..8 {
        channel.call(&meta, &body, 0, 0).unwrap();
    }
    assert!(!channel.congested());
    channel.call(&meta, &body, 0, 0).unwrap();
    assert!(channel.congested());
}

#[test]
fn connection_loss_drains_pending() {
    let mut channel = Channel::new(2, 8, LbStrategy::FailoverList);
    let meta = RpcRequestMeta::new();
    let body = Vec::new();
    let (h1, _) = channel.call(&meta, &body, 0, 0).unwrap();
    let (h2, _) = channel.call(&meta, &body, 0, 0).unwrap();
    assert_eq!(h1.conn, h2.conn, "failover sends both to the first backend");
    let drained = channel.on_connection_lost(h1.conn);
    assert_eq!(drained, vec![h1.seq, h2.seq]);
    assert_eq!(channel.in_flight, 0);
    // the channel reopens lazily on the next call
    let (h3, _) = channel.call(&meta, &body, 0, 0).unwrap();
    assert_eq!(h3.conn, h1.conn);
    assert_eq!(channel.in_flight, 1);
}

#[test]
fn backend_health_walks_healthy_recovering_dead() {
    let mut lb = LoadBalancer::new(LbStrategy::FailoverList, 2);
    let fail = CallInfo::new(0, Some(MethodError::ConnectionLost));
    // three consecutive failures demote backend 0
    for _ in 0..3 {
        lb.feedback(0, &fail, 100);
    }
    assert_eq!(lb.backends[0].state, BackendState::Recovering);
    // five more failures inside the window kill it
    for _ in 0..5 {
        lb.feedback(0, &fail, 200);
    }
    assert_eq!(lb.backends[0].state, BackendState::Dead);
    // the failover list now picks backend 1
    assert_eq!(lb.select(300, 0), Some(1));
    // after the cool-down the dead backend is probed again
    assert_eq!(lb.backends[0].state, BackendState::Dead);
    let _ = lb.select(200 + 5_000_000, 0);
    assert_eq!(lb.backends[0].state, BackendState::Recovering);
    // three consecutive successes restore it
    let ok = CallInfo::new(0, None);
    for _ in 0..3 {
        lb.feedback(0, &ok, 6_000_000);
    }
    assert_eq!(lb.backends[0].state, BackendState::Healthy);
}

#[test]
fn least_latency_prefers_the_faster_backend() {
    let mut lb = LoadBalancer::new(LbStrategy::LeastLatency, 2);
    // ten slow calls on backend 0, ten fast ones on backend 1
    for _ in 0..10 {
        lb.feedback(0, &CallInfo::new(0, None), 1_000_000);
        lb.feedback(1, &CallInfo::new(0, None), 1_000);
    }
    assert!(lb.backends[0].latency_ewma_usec > lb.backends[1].latency_ewma_usec);
    assert_eq!(lb.select(0, 0), Some(1));
}

#[test]
fn round_robin_rotates() {
    let mut lb = LoadBalancer::new(LbStrategy::RoundRobin, 3);
    assert_eq!(lb.select(0, 0), Some(0));
    assert_eq!(lb.select(0, 0), Some(1));
    assert_eq!(lb.select(0, 0), Some(2));
    assert_eq!(lb.select(0, 0), Some(0));
}

#[test]
fn ewma_mixes_one_tenth_of_the_sample() {
    let mut lb = LoadBalancer::new(LbStrategy::LeastLatency, 1);
    lb.feedback(0, &CallInfo::new(0, None), 1000);
    // (9 * 0 + 1000) / 10
    assert_eq!(lb.backends[0].latency_ewma_usec, 100);
    lb.feedback(0, &CallInfo::new(0, None), 1000);
    // (9 * 100 + 1000) / 10
    assert_eq!(lb.backends[0].latency_ewma_usec, 190);
}

#[test]
fn outcome_window_records_failures_in_the_low_bits() {
    let mut lb = LoadBalancer::new(LbStrategy::RoundRobin, 1);
    lb.feedback(0, &CallInfo::new(0, None), 10);
    lb.feedback(0, &CallInfo::new(0, Some(MethodError::Timeout)), 10);
    lb.feedback(0, &CallInfo::new(0, None), 10);
    let b: Backend = lb.backends[0];
    assert_eq!(b.window & 0b111, 0b010);
    assert_eq!(b.window_len, 3);
}

#[test]
fn metric_serves_the_counter_as_plain_text() {
    let metric = Metric::new(7);
    let (_, controller) = metric.metric((copra::codec::Empty::new(), Controller::new())).unwrap();
    assert_eq!(controller.status, Some(HttpStatus::Okay));
    assert_eq!(controller.response_body.as_deref(), Some(b"Throughput: 7".as_slice()));
    assert_eq!(controller.content_type.as_deref(), Some("text/plain"));
    let big = Metric::new(120478);
    let (_, c2) = big.metric((copra::codec::Empty::new(), Controller::new())).unwrap();
    assert_eq!(c2.response_body.as_deref(), Some(b"Throughput: 120478".as_slice()));
}

#[test]
fn stub_reports_server_errors() {
    let mut channel = Channel::new(1, 4, LbStrategy::RoundRobin);
    let stub = HelloStub::new();
    let (future, frame) = stub.hello_to(&mut channel, msg("x"), 5, 0);
    assert!(frame.is_some());
    let mut resp = RpcResponseMeta::new();
    resp.set_sequence_id(future.inner.unwrap().seq);
    resp.set_error_code(17);
    resp.set_error_text("nope".to_string());
    let (result, info) = future.poll((resp, Vec::new()));
    match result {
        Err(MethodError::ServerError(code, text)) => {
            assert_eq!(code, 17);
            assert_eq!(text, "nope");
        }
        _ => panic!("expected a server error"),
    }
    assert!(info.error.is_some());
    assert_eq!(info.start_usec, 5);
}

#[test]
fn saturated_channel_fails_the_stub_synchronously() {
    let mut channel = Channel::new(1, 0, LbStrategy::RoundRobin);
    let stub = HelloStub::new();
    let (future, frame) = stub.hello_general(&mut channel, msg("x"), 0, 0);
    assert!(frame.is_none());
    assert!(matches!(future.error, Some(MethodError::ChannelConcurrencyLimited)));
    let (result, info) = future.poll((RpcResponseMeta::new(), Vec::new()));
    assert!(matches!(result, Err(MethodError::ChannelConcurrencyLimited)));
    assert!(info.error.is_some());
}

#[test]
fn frames_carry_the_issued_sequence_id() {
    let mut channel = Channel::new(1, 8, LbStrategy::RoundRobin);
    let mut meta = RpcRequestMeta::new();
    meta.set_service_name("Svc".to_string());
    meta.set_method_name("m".to_string());
    let body = vec![1u8, 2, 3];
    let (h, frame) = channel.call(&meta, &body, 0, 0).unwrap();
    let (m, b) = match try_parse(&frame, 0x4000000) {
        ParseOutcome::Frame(m, b, _) => (m, b),
        _ => panic!("expected a frame"),
    };
    assert_eq!(b, body);
    let wire_meta = decode_request_meta(&m).expect("decodes");
    assert_eq!(wire_meta.get_sequence_id(), h.seq);
    assert_eq!(wire_meta.get_service_name(), "Svc");
}

#[test]
fn protobuf_codec_is_symmetric() {
    let codec: ProtobufCodec<StringMessage, StringMessage> = ProtobufCodec::new();
    let encoded = codec.encode(&msg("abc")).unwrap();
    let decoded = codec.decode(&encoded).unwrap();
    assert_eq!(decoded.get_msg(), "abc");
    assert!(codec.decode(&vec![0x99]).is_err());
}

#[test]
fn split_path_names_service_and_method() {
    let (s, m) = copra::http::split_path(&b"/Metric/metric".to_vec()).expect("splits");
    assert_eq!(s, "Metric");
    assert_eq!(m, "metric");
    assert!(copra::http::split_path(&b"Metric/metric".to_vec()).is_none());
    assert!(copra::http::split_path(&b"/Metric".to_vec()).is_none());
    assert!(copra::http::split_path(&b"/Metric/".to_vec()).is_none());
    assert!(copra::http::split_path(&b"//metric".to_vec()).is_none());
    assert!(copra::http::split_path(&b"/a/b/c".to_vec()).is_none());
}

#[test]
fn http_surface_serves_the_metric_page() {
    // the metric method answers a GET /Metric/metric with counter 7
    let (s, m) = copra::http::split_path(&b"/Metric/metric".to_vec()).expect("splits");
    assert_eq!((s.as_str(), m.as_str()), ("Metric", "metric"));
    let metric = Metric::new(7);
    let (_, controller) = metric
        .metric((copra::codec::Empty::new(), Controller::new()))
        .unwrap();
    let reply = copra::http::render_response(&controller, &Vec::new());
    let expected = b"HTTP/1.1 200 OK\r\nContent-Type: text/plain\r\nContent-Length: 13\r\n\r\nThroughput: 7";
    assert_eq!(reply, expected.to_vec());
}

#[test]
fn http_response_defaults_and_headers() {
    let mut c = Controller::new();
    c.add_response_header("X-Trace".to_string(), "abc".to_string());
    let body = vec![1u8, 2, 3];
    let reply = copra::http::render_response(&c, &body);
    let expected_head =
        b"HTTP/1.1 200 OK\r\nContent-Type: application/x-protobuf\r\nContent-Length: 3\r\nX-Trace: abc\r\n\r\n";
    let mut expected = expected_head.to_vec();
    expected.extend_from_slice(&body);
    assert_eq!(reply, expected);
}

#[test]
fn dropping_n_futures_frees_n_slots() {
    let mut channel = Channel::new(1, 8, LbStrategy::RoundRobin);
    let meta = RpcRequestMeta::new();
    let body = Vec::new();
    let h1 = channel.call(&meta, &body, 0, 0).unwrap().0;
    let h2 = channel.call(&meta, &body, 0, 0).unwrap().0;
    let h3 = channel.call(&meta, &body, 0, 0).unwrap().0;
    // one of the three completes before the drop
    let mut m2 = RpcResponseMeta::new();
    m2.set_sequence_id(h2.seq);
    assert!(channel.on_response(h2.conn, &m2));
    assert_eq!(channel.in_flight, 2);
    let dropped = channel.cancel_all(&vec![h1, h2, h3]);
    assert_eq!(dropped, 2);
    assert_eq!(channel.in_flight, 0);
}

#[test]
fn deadline_expiry_times_out_and_cleans_up() {
    let mut channel = Channel::new(1, 4, LbStrategy::RoundRobin);
    let h = channel.call(&RpcRequestMeta::new(), &Vec::new(), 100, 0).unwrap().0;
    // before the deadline nothing moves
    assert!(channel.on_deadline(h, 150, 200).is_none());
    assert_eq!(channel.in_flight, 1);
    // at the deadline the call fails with a timeout and frees its slot
    assert!(matches!(channel.on_deadline(h, 200, 200), Some(MethodError::Timeout)));
    assert_eq!(channel.in_flight, 0);
    // the late reply is discarded
    let mut m = RpcResponseMeta::new();
    m.set_sequence_id(h.seq);
    assert!(!channel.on_response(h.conn, &m));
}

#[test]
fn lost_connection_calls_resolve_to_connection_lost() {
    let mut channel = Channel::new(1, 8, LbStrategy::RoundRobin);
    let stub = HelloStub::new();
    let (f1, frame1) = stub.hello_general(&mut channel, msg("a"), 10, 0);
    let (f2, frame2) = stub.hello_general(&mut channel, msg("b"), 20, 0);
    assert!(frame1.is_some() && frame2.is_some());
    let conn = f1.inner.unwrap().conn;
    let drained = channel.on_connection_lost(conn);
    assert_eq!(drained.len(), 2);
    assert_eq!(channel.in_flight, 0);
    // each drained call's future resolves to the connection-lost error
    let (r1, info1) = f1.poll_connection_lost();
    assert!(matches!(r1, Err(MethodError::ConnectionLost)));
    assert_eq!(info1.start_usec, 10);
    assert!(info1.error.is_some());
    let (r2, _) = f2.poll_connection_lost();
    assert!(matches!(r2, Err(MethodError::ConnectionLost)));
}

#[test]
fn dropping_futures_cancels_their_calls() {
    let mut channel = Channel::new(1, 8, LbStrategy::RoundRobin);
    let stub = HelloStub::new();
    let (f1, _) = stub.hello_general(&mut channel, msg("a"), 0, 0);
    let (f2, _) = stub.hello_general(&mut channel, msg("b"), 0, 0);
    assert_eq!(channel.in_flight, 2);
    assert!(f1.cancel(&mut channel));
    assert!(f2.cancel(&mut channel));
    assert_eq!(channel.in_flight, 0);
    // a future that never submitted releases nothing
    let mut full = Channel::new(1, 0, LbStrategy::RoundRobin);
    let (f3, _) = stub.hello_general(&mut full, msg("c"), 0, 0);
    assert!(!f3.cancel(&mut full));
    assert_eq!(full.in_flight, 0);
}

#[test]
fn registration_succeeds_exactly_without_collisions() {
    let mut registry: ServiceRegistry<u32> = ServiceRegistry::new();
    let batch = vec![("a".to_string(), 1u32), ("b".to_string(), 2u32)];
    assert!(registry.register_service(&"Svc".to_string(), batch).is_ok());
    // a batch colliding with itself fails even on a fresh service name
    let mut fresh: ServiceRegistry<u32> = ServiceRegistry::new();
    let dup = vec![("a".to_string(), 1u32), ("a".to_string(), 2u32)];
    assert!(fresh.register_service(&"Svc".to_string(), dup).is_err());
    // the same method name under another service is no collision
    let other = vec![("a".to_string(), 3u32)];
    assert!(registry.register_service(&"Other".to_string(), other).is_ok());
}

#[test]
fn http_get_drives_the_metric_page_end_to_end() {
    let mut server = ServerBuilder::new().build();
    let conn = server.accept();
    let request = b"GET /Metric/metric HTTP/1.1\r\nHost: example\r\n\r\n".to_vec();
    server.conn_push_bytes(conn, &request);
    assert!(matches!(
        server.conn_step(conn),
        DriverStep::Detected(DetectedProtocol::Http)
    ));
    let (svc, method) = match server.conn_step(conn) {
        DriverStep::DispatchHttp(s, m) => (s, m),
        _ => panic!("expected an http dispatch"),
    };
    assert_eq!((svc.as_str(), method.as_str()), ("Metric", "metric"));
    // the whole head is consumed; the connection idles for the next request
    assert!(server.conns[conn].buf.is_empty());
    assert!(matches!(server.conn_step(conn), DriverStep::NeedMore));

    // the metric method answers through the controller, rendered to wire bytes
    let metric = Metric::new(7);
    let (_, controller) = metric
        .metric((copra::codec::Empty::new(), Controller::new()))
        .unwrap();
    let reply = copra::http::render_response(&controller, &Vec::new());
    let expected =
        b"HTTP/1.1 200 OK\r\nContent-Type: text/plain\r\nContent-Length: 13\r\n\r\nThroughput: 7";
    assert_eq!(reply, expected.to_vec());
}

#[test]
fn http_surface_refuses_what_it_does_not_serve() {
    // a verb that may carry a body closes the connection
    let mut server = ServerBuilder::new().build();
    let a = server.accept();
    server.conn_push_bytes(a, &b"POST /Svc/m HTTP/1.1\r\nContent-Length: 3\r\n\r\nabc".to_vec());
    assert!(matches!(server.conn_step(a), DriverStep::Detected(DetectedProtocol::Http)));
    assert!(matches!(server.conn_step(a), DriverStep::Closed));
    assert!(server.conns[a].closed);
    // an incomplete head waits for more bytes
    let b = server.accept();
    server.conn_push_bytes(b, &b"GET /Svc/m HTTP/1.1\r\nHost: x".to_vec());
    assert!(matches!(server.conn_step(b), DriverStep::Detected(DetectedProtocol::Http)));
    assert!(matches!(server.conn_step(b), DriverStep::NeedMore));
    // a path with no method part closes the connection
    let c = server.accept();
    server.conn_push_bytes(c, &b"GET /Svc HTTP/1.1\r\n\r\n".to_vec());
    assert!(matches!(server.conn_step(c), DriverStep::Detected(DetectedProtocol::Http)));
    assert!(matches!(server.conn_step(c), DriverStep::Closed));
}

#[test]
fn parse_http_head_reads_one_request() {
    let raw = b"GET /Hello/hello_general HTTP/1.1\r\nAccept: */*\r\n\r\nleftover".to_vec();
    match copra::http::parse_http_head(&raw) {
        copra::http::HttpHeadOutcome::Request(svc, m, consumed) => {
            assert_eq!(svc, "Hello");
            assert_eq!(m, "hello_general");
            assert_eq!(&raw[consumed..], b"leftover");
        }
        _ => panic!("expected a request"),
    }
    assert!(matches!(
        copra::http::parse_http_head(&b"GET /a/b HTTP/1.1\r\n".to_vec()),
        copra::http::HttpHeadOutcome::NeedMore
    ));
}
