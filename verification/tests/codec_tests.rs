use frp_client::msg::{
    decode_login_resp, decode_new_proxy_resp, decode_start_work_conn, framed, msg_header_decode,
    msg_header_encode, Login, MsgHeader, MsgType, NewProxy, NewWorkConn, TYPE_LOGIN,
};
use frp_client::config::{ClientCommonConfig, Config};

fn config_with_token(token: &str) -> Config {
    let mut cfg = Config::new();
    let mut common = ClientCommonConfig::new();
    common.token = token.to_string();
    cfg.set_common(common);
    cfg
}

#[test]
fn header_exact_bytes() {
    let h = MsgHeader::new(MsgType(111), 5);
    let e = msg_header_encode(&h);
    assert_eq!(e, [111, 0, 0, 0, 0, 0, 0, 0, 5]);
}

#[test]
fn header_round_trip() {
    let h = MsgHeader::new(MsgType(b'o'), 1 << 40 | 300);
    let e = msg_header_encode(&h);
    let d = msg_header_decode(&e);
    assert_eq!(d.msg_type.0, b'o');
    assert_eq!(d.len, 1 << 40 | 300);
}

#[test]
fn framed_prepends_header() {
    let body = vec![1u8, 2, 3];
    let f = framed(TYPE_LOGIN, &body);
    assert_eq!(f, vec![111u8, 0, 0, 0, 0, 0, 0, 0, 3, 1, 2, 3]);
}

#[test]
fn login_json_matches_serde_layout() {
    let cfg = config_with_token("abc");
    let login = Login::new(&cfg, 1700000000, "linux", "x86_64");
    let key = format!("{:x}", md5::compute(b"abc1700000000"));
    let expected = format!(
        "{{\"version\":\"0.44.0\",\"hostname\":\"\",\"os\":\"linux\",\"arch\":\"x86_64\",\
         \"user\":\"rust-frp-client\",\"privilege_key\":\"{}\",\"timestamp\":1700000000,\
         \"metas\":{{}},\"pool_count\":1}}",
        key
    );
    assert_eq!(String::from_utf8(login.json_bytes()).unwrap(), expected);
}

#[test]
fn new_proxy_json_tcp() {
    let mut p = NewProxy::new("web1", "tcp");
    p.set_remote_port(8080);
    assert_eq!(
        String::from_utf8(p.json_bytes()).unwrap(),
        "{\"proxy_name\":\"web1\",\"proxy_type\":\"tcp\",\"remote_port\":8080}"
    );
}

#[test]
fn new_proxy_json_web() {
    let mut p = NewProxy::new("site", "http");
    p.set_custom_domains(&vec!["example.com".to_string()]);
    p.set_subdomain("blog");
    assert_eq!(
        String::from_utf8(p.json_bytes()).unwrap(),
        "{\"proxy_name\":\"site\",\"proxy_type\":\"http\",\
         \"custom_domains\":[\"example.com\"],\"subdomain\":\"blog\"}"
    );
}

#[test]
fn new_proxy_json_escapes_quotes() {
    let p = NewProxy::new("a\"b\\c", "tcp");
    assert_eq!(
        String::from_utf8(p.json_bytes()).unwrap(),
        "{\"proxy_name\":\"a\\\"b\\\\c\",\"proxy_type\":\"tcp\"}"
    );
}

#[test]
fn new_work_conn_json_layout() {
    let cfg = config_with_token("tok");
    let w = NewWorkConn::new("run77".to_string(), &cfg, 42);
    let key = format!("{:x}", md5::compute(b"tok42"));
    let expected = format!(
        "{{\"run_id\":\"run77\",\"privilege_key\":\"{}\",\"timestamp\":42}}",
        key
    );
    assert_eq!(String::from_utf8(w.json_bytes()).unwrap(), expected);
}

#[test]
fn decode_login_resp_success() {
    let body = b"{\"version\":\"0.44.0\",\"run_id\":\"abc123\"}";
    let m = decode_login_resp(body).unwrap();
    assert_eq!(m.version, "0.44.0");
    assert_eq!(m.run_id(), "abc123");
    assert_eq!(m.error(), "");
}

#[test]
fn decode_login_resp_error_field() {
    let body = b"{\"version\":\"0.44.0\",\"error\":\"invalid token\"}";
    let m = decode_login_resp(body).unwrap();
    assert_eq!(m.error(), "invalid token");
    assert_eq!(m.run_id(), "");
}

#[test]
fn decode_login_resp_null_and_unknown_fields() {
    let body = b"{\"version\":\"0.44.0\",\"run_id\":null,\"extra\":7,\"flag\":true}";
    let m = decode_login_resp(body).unwrap();
    assert_eq!(m.run_id(), "");
}

#[test]
fn decode_login_resp_unescapes() {
    let body = b"{\"version\":\"0.44.0\",\"error\":\"a\\\"b\\\\c\\n\\u0041\"}";
    let m = decode_login_resp(body).unwrap();
    assert_eq!(m.error(), "a\"b\\c\nA");
}

#[test]
fn decode_login_resp_rejects_malformed() {
    assert!(decode_login_resp(b"").is_err());
    assert!(decode_login_resp(b"{").is_err());
    assert!(decode_login_resp(b"{}").is_err());
    assert!(decode_login_resp(b"{\"version\":1}").is_err());
    assert!(decode_login_resp(b"{\"run_id\":\"x\"}").is_err());
    assert!(decode_login_resp(b"{\"version\":\"v\"} ").is_err());
}

#[test]
fn decode_new_proxy_resp_fields() {
    let body = b"{\"proxy_name\":\"web1\",\"remote_addr\":\":8080\",\"error\":\"\"}";
    let m = decode_new_proxy_resp(body).unwrap();
    assert_eq!(m.proxy_name, "web1");
    assert_eq!(m.remote_addr, ":8080");
    assert_eq!(m.error, "");
    assert!(decode_new_proxy_resp(b"{\"proxy_name\":\"web1\"}").is_err());
}

#[test]
fn decode_start_work_conn_fields() {
    let body = b"{\"proxy_name\":\"ssh\",\"src_addr\":\"\",\"src_port\":0,\"error\":\"\"}";
    let m = decode_start_work_conn(body).unwrap();
    assert_eq!(m.proxy_name, "ssh");
    assert!(decode_start_work_conn(b"{\"a\":\"b\"}").is_err());
}

#[test]
fn decode_accepts_negative_and_large_ints() {
    let body = b"{\"proxy_name\":\"p\",\"n\":-12,\"m\":9223372036854775807}";
    assert!(decode_start_work_conn(body).is_ok());
    let too_big = b"{\"proxy_name\":\"p\",\"m\":9223372036854775808}";
    assert!(decode_start_work_conn(too_big).is_err());
}

#[test]
fn header_round_trip_at_maximum_length() {
    let h = MsgHeader::new(MsgType(b's'), u64::MAX);
    let d = msg_header_decode(&msg_header_encode(&h));
    assert_eq!(d.len, u64::MAX);
    assert_eq!(d.msg_type.0, b's');
}
