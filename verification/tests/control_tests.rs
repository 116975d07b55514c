use frp_client::config::{ClientCommonConfig, ClientTcpConfig, ClientWebConfig, Config};
use frp_client::control::{
    build_announce_frames, dispatch_plain, resolve_start_work_conn, ChunkAction, Control,
    LoginError, SessionError, WorkConnError,
};
use frp_client::crypto::FrpCoder;
use frp_client::msg::{framed, NewProxy, NewWorkConn, TYPE_NEW_PROXY_RESP, TYPE_REQ_WORK_CONN};

const IV: [u8; 16] = [0x24; 16];

fn test_config() -> Config {
    let mut cfg = Config::new();
    let mut common = ClientCommonConfig::new();
    common.token = "tok".to_string();
    cfg.set_common(common);

    let mut ssh = ClientTcpConfig::new();
    ssh.local_ip = "127.0.0.1".to_string();
    ssh.local_port = 22;
    ssh.remote_port = 6000;
    cfg.insert_tcp("ssh".to_string(), ssh);

    let mut site = ClientWebConfig::new("http".to_string());
    site.custom_domains = Some("example.com".to_string());
    cfg.insert_web("site".to_string(), site);

    let bad = ClientWebConfig::new("https".to_string());
    cfg.insert_web("bad".to_string(), bad);
    cfg
}

fn active_channel() -> Control {
    let mut ch = Control::new("tok");
    let body = b"{\"version\":\"0.44.0\",\"run_id\":\"abc123\"}";
    ch.on_login_resp(body).unwrap();
    ch.activate(IV);
    ch
}

#[test]
fn login_success_reaches_active_and_records_run_id() {
    let mut ch = Control::new("tok");
    let body = b"{\"version\":\"0.44.0\",\"run_id\":\"abc123\"}";
    assert!(ch.on_login_resp(body).is_ok());
    assert_eq!(ch.run_id(), "abc123");
    assert!(!ch.active());
    ch.activate(IV);
    assert!(ch.active());
}

#[test]
fn login_failure_never_reaches_active() {
    let mut ch = Control::new("tok");
    let body = b"{\"version\":\"0.44.0\",\"error\":\"invalid token\"}";
    match ch.on_login_resp(body) {
        Err(LoginError::Rejected(msg)) => assert_eq!(msg, "invalid token"),
        other => panic!("expected rejection, got {:?}", other),
    }
    assert!(!ch.active());
}

#[test]
fn login_empty_run_id_is_fatal() {
    let mut ch = Control::new("tok");
    assert!(matches!(
        ch.on_login_resp(b"{\"version\":\"0.44.0\",\"run_id\":\"\"}"),
        Err(LoginError::EmptyRunId)
    ));
    let mut ch2 = Control::new("tok");
    assert!(matches!(
        ch2.on_login_resp(b"{\"version\":\"0.44.0\"}"),
        Err(LoginError::EmptyRunId)
    ));
    let mut ch3 = Control::new("tok");
    assert!(matches!(ch3.on_login_resp(b"not json"), Err(LoginError::Malformed)));
}

#[test]
fn empty_error_string_counts_as_success() {
    let mut ch = Control::new("tok");
    let body = b"{\"version\":\"0.44.0\",\"run_id\":\"r1\",\"error\":\"\"}";
    assert!(ch.on_login_resp(body).is_ok());
    assert_eq!(ch.run_id(), "r1");
}

#[test]
fn req_work_conn_chunk_spawns_handler() {
    let mut ch = active_channel();
    let mut server = FrpCoder::new("tok", IV);
    let mut chunk = framed(TYPE_REQ_WORK_CONN, &Vec::new());
    server.encypt(&mut chunk);
    match ch.on_chunk(chunk) {
        Ok(ChunkAction::SpawnWorkConn) => {},
        _ => panic!("expected a work-connection request"),
    }
    assert!(ch.active());
}

#[test]
fn proxy_resp_chunk_is_decoded() {
    let mut ch = active_channel();
    let mut server = FrpCoder::new("tok", IV);
    let body = b"{\"proxy_name\":\"ssh\",\"remote_addr\":\":6000\",\"error\":\"\"}".to_vec();
    let mut chunk = framed(TYPE_NEW_PROXY_RESP, &body);
    server.encypt(&mut chunk);
    match ch.on_chunk(chunk) {
        Ok(ChunkAction::ProxyResp(m)) => {
            assert_eq!(m.proxy_name, "ssh");
            assert_eq!(m.remote_addr, ":6000");
            assert_eq!(m.error, "");
        },
        _ => panic!("expected a proxy response"),
    }
}

#[test]
fn length_mismatch_is_fatal_framing_error() {
    // header declares 50 bytes, only 40 follow
    let mut frame = vec![TYPE_REQ_WORK_CONN, 0, 0, 0, 0, 0, 0, 0, 50];
    frame.extend_from_slice(&[0u8; 40]);
    assert_eq!(dispatch_plain(&frame), Err(SessionError::FramingLengthMismatch));

    let mut ch = active_channel();
    let mut server = FrpCoder::new("tok", IV);
    let mut chunk = frame.clone();
    server.encypt(&mut chunk);
    assert_eq!(ch.on_chunk(chunk), Err(SessionError::FramingLengthMismatch));
    assert!(!ch.active());
}

#[test]
fn short_chunk_is_fatal_framing_error() {
    let mut ch = active_channel();
    let mut server = FrpCoder::new("tok", IV);
    let mut chunk = vec![1u8, 2, 3];
    server.encypt(&mut chunk);
    assert_eq!(ch.on_chunk(chunk), Err(SessionError::FramingTooShort));
    assert!(!ch.active());
}

#[test]
fn unknown_tag_is_protocol_error_and_known_tags_are_ignored() {
    let mut ch = active_channel();
    let mut server = FrpCoder::new("tok", IV);
    let mut ping = framed(104, &Vec::new());
    server.encypt(&mut ping);
    assert!(matches!(ch.on_chunk(ping), Ok(ChunkAction::Ignored)));

    let mut bad = framed(b'z', &Vec::new());
    server.encypt(&mut bad);
    assert_eq!(ch.on_chunk(bad), Err(SessionError::UnknownTag(b'z')));
    assert!(!ch.active());
}

#[test]
fn announce_skips_invalid_web_proxy() {
    let cfg = test_config();
    let (frames, rejected) = build_announce_frames(&cfg);
    assert_eq!(frames.len(), 2);
    assert_eq!(rejected, vec!["bad".to_string()]);

    let mut ssh = NewProxy::new("ssh", "tcp");
    ssh.set_remote_port(6000);
    assert_eq!(frames[0], ssh.frame());

    let mut site = NewProxy::new("site", "http");
    site.set_custom_domains(&vec!["example.com".to_string()]);
    assert_eq!(frames[1], site.frame());
}

#[test]
fn announce_happens_exactly_once() {
    let cfg = test_config();
    let mut ch = active_channel();
    let (frames, rejected) = ch.announce_step(&cfg);
    assert_eq!(frames.len(), 3);
    assert_eq!(frames[0], IV.to_vec());
    assert_eq!(rejected, vec!["bad".to_string()]);

    // the sealed frames decrypt to the plaintext announcements
    let mut server = FrpCoder::new("tok", IV);
    let (plain, _) = build_announce_frames(&cfg);
    let mut first = frames[1].clone();
    server.decrypt(&mut first);
    assert_eq!(first, plain[0]);
    let mut second = frames[2].clone();
    server.decrypt(&mut second);
    assert_eq!(second, plain[1]);

    // every later call yields nothing
    let (again, rejected_again) = ch.announce_step(&cfg);
    assert!(again.is_empty());
    assert!(rejected_again.is_empty());
    let (third, _) = ch.announce_step(&cfg);
    assert!(third.is_empty());
}

#[test]
fn work_conn_frame_carries_run_id_and_fresh_key() {
    let cfg = test_config();
    let ch = active_channel();
    let frame = ch.work_conn_frame(&cfg, 42);
    let expected = NewWorkConn::new("abc123".to_string(), &cfg, 42).frame();
    assert_eq!(frame, expected);
}

#[test]
fn resolve_start_work_conn_finds_backend() {
    let cfg = test_config();
    let p = resolve_start_work_conn(b"{\"proxy_name\":\"ssh\"}", &cfg).unwrap();
    assert_eq!(p.server_addr, "127.0.0.1");
    assert_eq!(p.server_port, 22);
    assert_eq!(p.proxy_type, "tcp");

    assert!(matches!(
        resolve_start_work_conn(b"{\"proxy_name\":\"nope\"}", &cfg),
        Err(WorkConnError::UnknownProxy)
    ));
    assert!(matches!(
        resolve_start_work_conn(b"oops", &cfg),
        Err(WorkConnError::Malformed)
    ));
}

#[test]
fn announce_with_empty_registry_sends_only_the_iv() {
    let mut cfg = Config::new();
    let mut common = ClientCommonConfig::new();
    common.token = "tok".to_string();
    cfg.set_common(common);
    let mut ch = active_channel();
    let (frames, rejected) = ch.announce_step(&cfg);
    assert_eq!(frames, vec![IV.to_vec()]);
    assert!(rejected.is_empty());
}
