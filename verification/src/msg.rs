//! The wire message catalog and its framing: a 9-byte header (type tag plus
//! big-endian length) followed by a JSON body.

use vstd::prelude::*;

use crate::bytes::{
    be_u64_bytes, be_u64_value, dec_i64_bytes, dec_u64_bytes, lemma_be_u64_round_trip,
    push_be_u64, push_dec_i64, push_dec_u64, push_str_bytes,
};
use crate::config::Config;
use crate::crypto::{get_privilege_key, privilege_key_bytes};
use crate::json::{
    json_quoted, push_quoted_bytes, push_quoted_str, spec_obj_get, spec_parse_obj, JVal, JsonVal,
    jval_view,
};

verus! {

use vstd::string::StringSliceAdditionalSpecFns;
use vstd::string::StringExecFns;
use vstd::utf8::encode_utf8;

/// Tag byte of a login request.
pub const TYPE_LOGIN: u8 = 111;

/// Tag byte of a login response.
pub const TYPE_LOGIN_RESP: u8 = 49;

/// Tag byte of a proxy registration.
pub const TYPE_NEW_PROXY: u8 = 112;

/// Tag byte of a proxy registration response.
pub const TYPE_NEW_PROXY_RESP: u8 = 50;

/// Tag byte of a proxy close notice.
pub const TYPE_CLOSE_PROXY: u8 = 99;

/// Tag byte of a work-connection registration.
pub const TYPE_NEW_WORK_CONN: u8 = 119;

/// Tag byte of a server request for a new work connection.
pub const TYPE_REQ_WORK_CONN: u8 = 114;

/// Tag byte of the server notice that starts a work connection.
pub const TYPE_START_WORK_CONN: u8 = 115;

/// Tag byte of a visitor connection request.
pub const TYPE_NEW_VISITOR_CONN: u8 = 118;

/// Tag byte of a visitor connection response.
pub const TYPE_NEW_VISITOR_CONN_RESP: u8 = 51;

/// Tag byte of a heartbeat ping.
pub const TYPE_PING: u8 = 104;

/// Tag byte of a heartbeat pong.
pub const TYPE_PONG: u8 = 52;

/// Tag byte of a UDP packet message.
pub const TYPE_UDP_PACKET: u8 = 117;

/// Tag bytes reserved for NAT hole punching.
pub const TYPE_NAT_HOLE_VISITOR: u8 = 105;

/// Tag byte reserved for NAT hole punching, client side.
pub const TYPE_NAT_HOLE_CLIENT: u8 = 110;

/// Tag byte reserved for NAT hole punching responses.
pub const TYPE_NAT_HOLE_RESP: u8 = 109;

/// Tag byte reserved for NAT hole punching detection.
pub const TYPE_NAT_HOLE_CLIENT_DETECT_OK: u8 = 100;

/// Tag byte reserved for NAT hole punching session ids.
pub const TYPE_NAT_HOLE_SID: u8 = 53;

/// Whether `t` is a tag of the message catalog.
pub open spec fn known_tag(t: u8) -> bool {
    t == TYPE_LOGIN || t == TYPE_LOGIN_RESP || t == TYPE_NEW_PROXY || t == TYPE_NEW_PROXY_RESP
        || t == TYPE_CLOSE_PROXY || t == TYPE_NEW_WORK_CONN || t == TYPE_REQ_WORK_CONN
        || t == TYPE_START_WORK_CONN || t == TYPE_NEW_VISITOR_CONN || t == TYPE_NEW_VISITOR_CONN_RESP
        || t == TYPE_PING || t == TYPE_PONG || t == TYPE_UDP_PACKET || t == TYPE_NAT_HOLE_VISITOR
        || t == TYPE_NAT_HOLE_CLIENT || t == TYPE_NAT_HOLE_RESP || t == TYPE_NAT_HOLE_CLIENT_DETECT_OK
        || t == TYPE_NAT_HOLE_SID
}

/// A message type tag.
#[derive(Copy, Clone, Debug, PartialEq, Eq, Structural)]
pub struct MsgType(pub u8);

/// A wire message header: type tag and body length.
#[derive(Copy, Clone, Debug, PartialEq, Eq, Structural)]
pub struct MsgHeader {
    pub msg_type: MsgType,
    pub len: u64,
}

impl MsgHeader {
    /// A header for a body of `len` bytes of type `msg_type`.
    pub fn new(msg_type: MsgType, len: u64) -> (h: Self)
        ensures
            h.msg_type == msg_type,
            h.len == len,
    {
        MsgHeader { msg_type, len }
    }
}

/// The nine header bytes: tag, then the length big-endian.
pub open spec fn header_bytes(t: u8, len: u64) -> Seq<u8> {
    seq![t] + be_u64_bytes(len)
}

/// The tag read back from nine header bytes.
pub open spec fn header_tag(b: Seq<u8>) -> u8
    recommends
        b.len() == 9,
{
    b[0]
}

/// The length read back from nine header bytes.
pub open spec fn header_len(b: Seq<u8>) -> u64
    recommends
        b.len() == 9,
{
    be_u64_value(b.subrange(1, 9))
}

/// Header round trip: decoding the encoding of any (tag, length) pair gives
/// the pair back.
pub proof fn lemma_header_round_trip(t: u8, len: u64)
    ensures
        header_tag(header_bytes(t, len)) == t,
        header_len(header_bytes(t, len)) == len,
{
    assert(header_bytes(t, len).subrange(1, 9) =~= be_u64_bytes(len));
    lemma_be_u64_round_trip(len);
}

/// Encodes a header into its nine wire bytes.
pub fn msg_header_encode(hdr: &MsgHeader) -> (r: [u8; 9])
    ensures
        r@ == header_bytes(hdr.msg_type.0, hdr.len),
{
    let n = hdr.len;
    let r: [u8; 9] = [
        hdr.msg_type.0,
        (n >> 56) as u8,
        (n >> 48) as u8,
        (n >> 40) as u8,
        (n >> 32) as u8,
        (n >> 24) as u8,
        (n >> 16) as u8,
        (n >> 8) as u8,
        n as u8,
    ];
    assert(r@ =~= header_bytes(hdr.msg_type.0, hdr.len));
    r
}

/// Decodes nine wire bytes into a header.
pub fn msg_header_decode(buf: &[u8; 9]) -> (r: MsgHeader)
    ensures
        r.msg_type.0 == header_tag(buf@),
        r.len == header_len(buf@),
{
    let tag = buf[0];
    let len: u64 = ((buf[1] as u64) << 56) | ((buf[2] as u64) << 48) | ((buf[3] as u64) << 40) | (
    (buf[4] as u64) << 32) | ((buf[5] as u64) << 24) | ((buf[6] as u64) << 16) | ((buf[7] as u64)
        << 8) | (buf[8] as u64);
    proof {
        let s = buf@.subrange(1, 9);
        assert(s[0] == buf@[1]);
        assert(s[1] == buf@[2]);
        assert(s[2] == buf@[3]);
        assert(s[3] == buf@[4]);
        assert(s[4] == buf@[5]);
        assert(s[5] == buf@[6]);
        assert(s[6] == buf@[7]);
        assert(s[7] == buf@[8]);
    }
    MsgHeader { msg_type: MsgType(tag), len }
}

/// A full frame: header bytes, then the body.
pub open spec fn frame_bytes(t: u8, body: Seq<u8>) -> Seq<u8>
    recommends
        body.len() <= u64::MAX,
{
    header_bytes(t, body.len() as u64) + body
}

/// Builds the frame carrying `body` under tag `t`.
pub fn framed(t: u8, body: &Vec<u8>) -> (r: Vec<u8>)
    ensures
        r@ == frame_bytes(t, body@),
{
    let mut out: Vec<u8> = Vec::new();
    out.push(t);
    push_be_u64(&mut out, body.len() as u64);
    out.extend_from_slice(body.as_slice());
    assert(out@ =~= frame_bytes(t, body@));
    out
}

/// One `"key":"value"` item of a string-map object.
pub open spec fn metas_entry(m: (String, String)) -> Seq<u8> {
    json_quoted(encode_utf8(m.0@)) + seq![58u8] + json_quoted(encode_utf8(m.1@))
}

/// The remaining items of a string-map object from index `i` on, each with
/// its leading comma.
pub open spec fn metas_tail(ms: Seq<(String, String)>, i: int) -> Seq<u8>
    decreases ms.len() - i,
{
    if i < 0 || i >= ms.len() {
        Seq::empty()
    } else {
        seq![44u8] + metas_entry(ms[i]) + metas_tail(ms, i + 1)
    }
}

/// A string map as a JSON object.
pub open spec fn metas_obj(ms: Seq<(String, String)>) -> Seq<u8> {
    seq![123u8] + (if ms.len() == 0 {
        Seq::<u8>::empty()
    } else {
        metas_entry(ms[0]) + metas_tail(ms, 1)
    }) + seq![125u8]
}

fn push_metas_tail(out: &mut Vec<u8>, ms: &Vec<(String, String)>, i: usize)
    ensures
        final(out)@ == old(out)@ + metas_tail(ms@, i as int),
    decreases ms@.len() - i,
{
    if i >= ms.len() {
        assert(out@ =~= old(out)@ + metas_tail(ms@, i as int));
    } else {
        out.push(44);
        push_quoted_str(out, ms[i].0.as_str());
        out.push(58);
        push_quoted_str(out, ms[i].1.as_str());
        push_metas_tail(out, ms, i + 1);
        assert(out@ =~= old(out)@ + metas_tail(ms@, i as int));
    }
}

fn push_metas_obj(out: &mut Vec<u8>, ms: &Vec<(String, String)>)
    ensures
        final(out)@ == old(out)@ + metas_obj(ms@),
{
    out.push(123);
    if ms.len() > 0 {
        push_quoted_str(out, ms[0].0.as_str());
        out.push(58);
        push_quoted_str(out, ms[0].1.as_str());
        push_metas_tail(out, ms, 1);
    }
    out.push(125);
    assert(out@ =~= old(out)@ + metas_obj(ms@));
}

/// The remaining elements of a string array from index `i` on, each with its
/// leading comma.
pub open spec fn str_array_tail(xs: Seq<String>, i: int) -> Seq<u8>
    decreases xs.len() - i,
{
    if i < 0 || i >= xs.len() {
        Seq::empty()
    } else {
        seq![44u8] + json_quoted(encode_utf8(xs[i]@)) + str_array_tail(xs, i + 1)
    }
}

/// A string list as a JSON array.
pub open spec fn json_str_array(xs: Seq<String>) -> Seq<u8> {
    seq![91u8] + (if xs.len() == 0 {
        Seq::<u8>::empty()
    } else {
        json_quoted(encode_utf8(xs[0]@)) + str_array_tail(xs, 1)
    }) + seq![93u8]
}

fn push_str_array_tail(out: &mut Vec<u8>, xs: &Vec<String>, i: usize)
    ensures
        final(out)@ == old(out)@ + str_array_tail(xs@, i as int),
    decreases xs@.len() - i,
{
    if i >= xs.len() {
        assert(out@ =~= old(out)@ + str_array_tail(xs@, i as int));
    } else {
        out.push(44);
        push_quoted_str(out, xs[i].as_str());
        push_str_array_tail(out, xs, i + 1);
        assert(out@ =~= old(out)@ + str_array_tail(xs@, i as int));
    }
}

fn push_json_str_array(out: &mut Vec<u8>, xs: &Vec<String>)
    ensures
        final(out)@ == old(out)@ + json_str_array(xs@),
{
    out.push(91);
    if xs.len() > 0 {
        push_quoted_str(out, xs[0].as_str());
        push_str_array_tail(out, xs, 1);
    }
    out.push(93);
    assert(out@ =~= old(out)@ + json_str_array(xs@));
}

/// The login request sent as the first message of a session.
pub struct Login {
    pub version: String,
    pub hostname: String,
    pub os: String,
    pub arch: String,
    pub user: String,
    pub privilege_key: Vec<u8>,
    pub timestamp: i64,
    pub metas: Vec<(String, String)>,
    pub pool_count: i32,
}

/// The JSON body of a login request.
pub open spec fn login_json(l: Login) -> Seq<u8> {
    "{\"version\":".spec_bytes() + json_quoted(encode_utf8(l.version@)) + ",\"hostname\":".spec_bytes()
        + json_quoted(encode_utf8(l.hostname@)) + ",\"os\":".spec_bytes() + json_quoted(
        encode_utf8(l.os@),
    ) + ",\"arch\":".spec_bytes() + json_quoted(encode_utf8(l.arch@)) + ",\"user\":".spec_bytes()
        + json_quoted(encode_utf8(l.user@)) + ",\"privilege_key\":".spec_bytes() + json_quoted(
        l.privilege_key@,
    ) + ",\"timestamp\":".spec_bytes() + dec_i64_bytes(l.timestamp as int) + ",\"metas\":".spec_bytes()
        + metas_obj(l.metas@) + ",\"pool_count\":".spec_bytes() + dec_i64_bytes(l.pool_count as int)
        + "}".spec_bytes()
}

impl Login {
    /// A login request for the configured token, authenticated for the
    /// given timestamp, reporting the given platform strings.
    pub fn new(cfg: &Config, timestamp: i64, os: &str, arch: &str) -> (l: Self)
        ensures
            l.version@ == "0.44.0"@,
            l.hostname@ == Seq::<char>::empty(),
            l.os@ == os@,
            l.arch@ == arch@,
            l.user@ == "rust-frp-client"@,
            l.privilege_key@ == privilege_key_bytes(cfg.common_cfg().token@, timestamp as int),
            l.timestamp == timestamp,
            l.metas@ == Seq::<(String, String)>::empty(),
            l.pool_count == 1,
    {
        let privilege_key = get_privilege_key(timestamp, cfg.auth_token());
        let l = Login {
            version: String::from_str(crate::frp_version()),
            hostname: String::from_str(""),
            os: String::from_str(os),
            arch: String::from_str(arch),
            user: String::from_str("rust-frp-client"),
            privilege_key,
            timestamp,
            metas: Vec::new(),
            pool_count: 1,
        };
        proof {
            reveal_strlit("");
            assert(l.hostname@ =~= Seq::<char>::empty());
        }
        l
    }

    /// The JSON body of this login request.
    pub fn json_bytes(&self) -> (r: Vec<u8>)
        ensures
            r@ == login_json(*self),
    {
        let mut out: Vec<u8> = Vec::new();
        push_str_bytes(&mut out, "{\"version\":");
        push_quoted_str(&mut out, self.version.as_str());
        push_str_bytes(&mut out, ",\"hostname\":");
        push_quoted_str(&mut out, self.hostname.as_str());
        push_str_bytes(&mut out, ",\"os\":");
        push_quoted_str(&mut out, self.os.as_str());
        push_str_bytes(&mut out, ",\"arch\":");
        push_quoted_str(&mut out, self.arch.as_str());
        push_str_bytes(&mut out, ",\"user\":");
        push_quoted_str(&mut out, self.user.as_str());
        push_str_bytes(&mut out, ",\"privilege_key\":");
        push_quoted_bytes(&mut out, self.privilege_key.as_slice());
        push_str_bytes(&mut out, ",\"timestamp\":");
        push_dec_i64(&mut out, self.timestamp);
        push_str_bytes(&mut out, ",\"metas\":");
        push_metas_obj(&mut out, &self.metas);
        push_str_bytes(&mut out, ",\"pool_count\":");
        push_dec_i64(&mut out, self.pool_count as i64);
        push_str_bytes(&mut out, "}");
        assert(out@ =~= login_json(*self));
        out
    }

    /// The full login frame: header plus JSON body.
    pub fn frame(&self) -> (r: Vec<u8>)
        ensures
            r@ == frame_bytes(TYPE_LOGIN, login_json(*self)),
    {
        let body = self.json_bytes();
        framed(TYPE_LOGIN, &body)
    }
}

/// The server's reply to a login request.
pub struct LoginResp {
    pub version: String,
    pub run_id: Option<String>,
    pub error: Option<String>,
}

impl LoginResp {
    /// The assigned run id, or the empty string when none was assigned.
    pub fn run_id(&self) -> (r: &str)
        ensures
            match self.run_id {
                Some(s) => r@ == s@,
                None => r@ == Seq::<char>::empty(),
            },
    {
        match &self.run_id {
            None => {
                let r = "";
                proof {
                    reveal_strlit("");
                    assert(r@ =~= Seq::<char>::empty());
                }
                r
            },
            Some(s) => s.as_str(),
        }
    }

    /// The server-reported error, or the empty string on success.
    pub fn error(&self) -> (r: &str)
        ensures
            match self.error {
                Some(s) => r@ == s@,
                None => r@ == Seq::<char>::empty(),
            },
    {
        match &self.error {
            None => {
                let r = "";
                proof {
                    reveal_strlit("");
                    assert(r@ =~= Seq::<char>::empty());
                }
                r
            },
            Some(s) => s.as_str(),
        }
    }
}

/// The marker message with which the server requests one work connection.
pub struct ReqWorkConn;

/// The registration a client sends on each fresh work-connection stream.
pub struct NewWorkConn {
    pub run_id: String,
    pub privilege_key: Vec<u8>,
    pub timestamp: i64,
}

/// The JSON body of a work-connection registration.
pub open spec fn new_work_conn_json(w: NewWorkConn) -> Seq<u8> {
    "{\"run_id\":".spec_bytes() + json_quoted(encode_utf8(w.run_id@)) + ",\"privilege_key\":".spec_bytes()
        + json_quoted(w.privilege_key@) + ",\"timestamp\":".spec_bytes() + dec_i64_bytes(
        w.timestamp as int,
    ) + "}".spec_bytes()
}

impl NewWorkConn {
    /// A registration for the session `run_id`, freshly authenticated for
    /// the given timestamp.
    pub fn new(run_id: String, cfg: &Config, timestamp: i64) -> (w: Self)
        ensures
            w.run_id@ == run_id@,
            w.privilege_key@ == privilege_key_bytes(cfg.common_cfg().token@, timestamp as int),
            w.timestamp == timestamp,
    {
        let privilege_key = get_privilege_key(timestamp, cfg.auth_token());
        NewWorkConn { run_id, privilege_key, timestamp }
    }

    /// The JSON body of this registration.
    pub fn json_bytes(&self) -> (r: Vec<u8>)
        ensures
            r@ == new_work_conn_json(*self),
    {
        let mut out: Vec<u8> = Vec::new();
        push_str_bytes(&mut out, "{\"run_id\":");
        push_quoted_str(&mut out, self.run_id.as_str());
        push_str_bytes(&mut out, ",\"privilege_key\":");
        push_quoted_bytes(&mut out, self.privilege_key.as_slice());
        push_str_bytes(&mut out, ",\"timestamp\":");
        push_dec_i64(&mut out, self.timestamp);
        push_str_bytes(&mut out, "}");
        assert(out@ =~= new_work_conn_json(*self));
        out
    }

    /// The full registration frame: header plus JSON body.
    pub fn frame(&self) -> (r: Vec<u8>)
        ensures
            r@ == frame_bytes(TYPE_NEW_WORK_CONN, new_work_conn_json(*self)),
    {
        let body = self.json_bytes();
        framed(TYPE_NEW_WORK_CONN, &body)
    }
}

/// The registration of one proxy with the server.
pub struct NewProxy {
    pub proxy_name: String,
    pub proxy_type: String,
    pub remote_port: Option<u16>,
    pub custom_domains: Option<Vec<String>>,
    pub subdomain: Option<String>,
}

/// The JSON body of a proxy registration; absent optional fields are
/// omitted entirely.
pub open spec fn new_proxy_json(p: NewProxy) -> Seq<u8> {
    "{\"proxy_name\":".spec_bytes() + json_quoted(encode_utf8(p.proxy_name@))
        + ",\"proxy_type\":".spec_bytes() + json_quoted(encode_utf8(p.proxy_type@)) + (match p.remote_port {
        Some(rp) => ",\"remote_port\":".spec_bytes() + dec_u64_bytes(rp as nat),
        None => Seq::<u8>::empty(),
    }) + (match p.custom_domains {
        Some(ds) => ",\"custom_domains\":".spec_bytes() + json_str_array(ds@),
        None => Seq::<u8>::empty(),
    }) + (match p.subdomain {
        Some(s) => ",\"subdomain\":".spec_bytes() + json_quoted(encode_utf8(s@)),
        None => Seq::<u8>::empty(),
    }) + "}".spec_bytes()
}

impl NewProxy {
    /// A registration for the named proxy of the given type, with no
    /// optional fields set yet.
    pub fn new(proxy_name: &str, proxy_type: &str) -> (p: Self)
        ensures
            p.proxy_name@ == proxy_name@,
            p.proxy_type@ == proxy_type@,
            p.remote_port is None,
            p.custom_domains is None,
            p.subdomain is None,
    {
        NewProxy {
            proxy_name: String::from_str(proxy_name),
            proxy_type: String::from_str(proxy_type),
            remote_port: None,
            custom_domains: None,
            subdomain: None,
        }
    }

    /// Sets the requested remote port.
    pub fn set_remote_port(&mut self, remote_port: u16)
        ensures
            *final(self) == (NewProxy { remote_port: Some(remote_port), ..*old(self) }),
    {
        self.remote_port = Some(remote_port)
    }

    /// Sets the custom domain list.
    pub fn set_custom_domains(&mut self, custom_domains: &Vec<String>)
        ensures
            final(self).custom_domains matches Some(ds) && ds@ == custom_domains@,
            final(self).proxy_name == old(self).proxy_name,
            final(self).proxy_type == old(self).proxy_type,
            final(self).remote_port == old(self).remote_port,
            final(self).subdomain == old(self).subdomain,
    {
        let mut ds: Vec<String> = Vec::new();
        let mut i: usize = 0;
        while i < custom_domains.len()
            invariant
                i <= custom_domains@.len(),
                ds@ == custom_domains@.take(i as int),
            decreases custom_domains@.len() - i,
        {
            ds.push(custom_domains[i].clone());
            assert(ds@ =~= custom_domains@.take(i as int + 1));
            i = i + 1;
        }
        assert(custom_domains@.take(custom_domains@.len() as int) =~= custom_domains@);
        self.custom_domains = Some(ds);
    }

    /// Sets the subdomain.
    pub fn set_subdomain(&mut self, subdomain: &str)
        ensures
            final(self).subdomain matches Some(s) && s@ == subdomain@,
            final(self).proxy_name == old(self).proxy_name,
            final(self).proxy_type == old(self).proxy_type,
            final(self).remote_port == old(self).remote_port,
            final(self).custom_domains == old(self).custom_domains,
    {
        self.subdomain = Some(String::from_str(subdomain))
    }

    /// The JSON body of this registration.
    pub fn json_bytes(&self) -> (r: Vec<u8>)
        ensures
            r@ == new_proxy_json(*self),
    {
        let mut out: Vec<u8> = Vec::new();
        push_str_bytes(&mut out, "{\"proxy_name\":");
        push_quoted_str(&mut out, self.proxy_name.as_str());
        push_str_bytes(&mut out, ",\"proxy_type\":");
        push_quoted_str(&mut out, self.proxy_type.as_str());
        match &self.remote_port {
            Some(rp) => {
                push_str_bytes(&mut out, ",\"remote_port\":");
                push_dec_u64(&mut out, *rp as u64);
            },
            None => {},
        }
        match &self.custom_domains {
            Some(ds) => {
                push_str_bytes(&mut out, ",\"custom_domains\":");
                push_json_str_array(&mut out, ds);
            },
            None => {},
        }
        match &self.subdomain {
            Some(s) => {
                push_str_bytes(&mut out, ",\"subdomain\":");
                push_quoted_str(&mut out, s.as_str());
            },
            None => {},
        }
        push_str_bytes(&mut out, "}");
        assert(out@ =~= new_proxy_json(*self));
        out
    }

    /// The full registration frame: header plus JSON body.
    pub fn frame(&self) -> (r: Vec<u8>)
        ensures
            r@ == frame_bytes(TYPE_NEW_PROXY, new_proxy_json(*self)),
    {
        let body = self.json_bytes();
        framed(TYPE_NEW_PROXY, &body)
    }
}

/// The server's per-proxy registration outcome.
#[derive(Debug, PartialEq, Eq)]
pub struct NewProxyResp {
    pub proxy_name: String,
    pub remote_addr: String,
    pub error: String,
}

/// The server notice that tells a work connection which proxy it serves.
pub struct StartWorkConn {
    pub proxy_name: String,
}

/// Errors of the body decoders.
#[derive(Clone, Copy, Debug, PartialEq, Eq, Structural)]
pub enum DecodeError {
    /// The body is not the expected shape for its tag.
    Malformed,
}

/// A required string field: present, a string, and valid UTF-8.
pub open spec fn req_str_field(ps: Seq<(Seq<u8>, JsonVal)>, key: Seq<u8>) -> Option<Seq<u8>> {
    match spec_obj_get(ps, key) {
        Some(v) => match v {
            JsonVal::Str(s) => if vstd::utf8::valid_utf8(s) {
                Some(s)
            } else {
                None
            },
            _ => None,
        },
        None => None,
    }
}

/// An optional string field: absent or null reads as nothing, a valid
/// string as itself; anything else is malformed (outer `None`).
pub open spec fn opt_str_field(ps: Seq<(Seq<u8>, JsonVal)>, key: Seq<u8>) -> Option<
    Option<Seq<u8>>,
> {
    match spec_obj_get(ps, key) {
        None => Some(None),
        Some(v) => match v {
            JsonVal::Null => Some(None),
            JsonVal::Str(s) => if vstd::utf8::valid_utf8(s) {
                Some(Some(s))
            } else {
                None
            },
            _ => None,
        },
    }
}

/// The fields a login response body decodes to: version, and the optional
/// run id and error.
pub open spec fn spec_login_resp_fields(b: Seq<u8>) -> Option<
    (Seq<u8>, Option<Seq<u8>>, Option<Seq<u8>>),
> {
    match spec_parse_obj(b) {
        None => None,
        Some(ps) => match (
            req_str_field(ps, "version".spec_bytes()),
            opt_str_field(ps, "run_id".spec_bytes()),
            opt_str_field(ps, "error".spec_bytes()),
        ) {
            (Some(v), Some(r), Some(e)) => Some((v, r, e)),
            _ => None,
        },
    }
}

/// Whether an optional decoded string carries exactly the bytes `f`.
pub open spec fn opt_str_matches(o: Option<String>, f: Option<Seq<u8>>) -> bool {
    match (o, f) {
        (Some(s), Some(bs)) => encode_utf8(s@) == bs,
        (None, None) => true,
        _ => false,
    }
}

fn copy_bytes(v: &Vec<u8>) -> (r: Vec<u8>)
    ensures
        r@ == v@,
{
    let mut out: Vec<u8> = Vec::new();
    out.extend_from_slice(v.as_slice());
    out
}

fn jval_to_string(v: &JVal) -> (r: Option<String>)
    ensures
        match jval_view(*v) {
            JsonVal::Str(s) => if vstd::utf8::valid_utf8(s) {
                r matches Some(x) && encode_utf8(x@) == s
            } else {
                r is None
            },
            _ => r is None,
        },
{
    match v {
        JVal::Str(s) => crate::bytes::bytes_to_string(copy_bytes(s)),
        _ => None,
    }
}

/// Decodes a login response body; exactly the bodies accepted by
/// [`spec_login_resp_fields`] decode, to exactly those fields.
pub fn decode_login_resp(body: &[u8]) -> (r: Result<LoginResp, DecodeError>)
    ensures
        match spec_login_resp_fields(body@) {
            Some(f) => r matches Ok(m) && encode_utf8(m.version@) == f.0 && opt_str_matches(
                m.run_id,
                f.1,
            ) && opt_str_matches(m.error, f.2),
            None => r matches Err(e) && e == DecodeError::Malformed,
        },
{
    let ps = match crate::json::parse_obj(body) {
        Some(ps) => ps,
        None => {
            return Err(DecodeError::Malformed);
        },
    };
    let version = match crate::json::obj_get(&ps, "version") {
        Some(v) => match jval_to_string(v) {
            Some(s) => s,
            None => {
                return Err(DecodeError::Malformed);
            },
        },
        None => {
            return Err(DecodeError::Malformed);
        },
    };
    let run_id = match crate::json::obj_get(&ps, "run_id") {
        None => None,
        Some(v) => match v {
            JVal::Null => None,
            _ => match jval_to_string(v) {
                Some(s) => Some(s),
                None => {
                    return Err(DecodeError::Malformed);
                },
            },
        },
    };
    let error = match crate::json::obj_get(&ps, "error") {
        None => None,
        Some(v) => match v {
            JVal::Null => None,
            _ => match jval_to_string(v) {
                Some(s) => Some(s),
                None => {
                    return Err(DecodeError::Malformed);
                },
            },
        },
    };
    Ok(LoginResp { version, run_id, error })
}

/// The fields a proxy registration response decodes to: proxy name, remote
/// address, and error, all required.
pub open spec fn spec_new_proxy_resp_fields(b: Seq<u8>) -> Option<(Seq<u8>, Seq<u8>, Seq<u8>)> {
    match spec_parse_obj(b) {
        None => None,
        Some(ps) => match (
            req_str_field(ps, "proxy_name".spec_bytes()),
            req_str_field(ps, "remote_addr".spec_bytes()),
            req_str_field(ps, "error".spec_bytes()),
        ) {
            (Some(n), Some(a), Some(e)) => Some((n, a, e)),
            _ => None,
        },
    }
}

/// Decodes a proxy registration response body.
pub fn decode_new_proxy_resp(body: &[u8]) -> (r: Result<NewProxyResp, DecodeError>)
    ensures
        match spec_new_proxy_resp_fields(body@) {
            Some(f) => r matches Ok(m) && encode_utf8(m.proxy_name@) == f.0 && encode_utf8(
                m.remote_addr@,
            ) == f.1 && encode_utf8(m.error@) == f.2,
            None => r matches Err(e) && e == DecodeError::Malformed,
        },
{
    let ps = match crate::json::parse_obj(body) {
        Some(ps) => ps,
        None => {
            return Err(DecodeError::Malformed);
        },
    };
    let proxy_name = match crate::json::obj_get(&ps, "proxy_name") {
        Some(v) => match jval_to_string(v) {
            Some(s) => s,
            None => {
                return Err(DecodeError::Malformed);
            },
        },
        None => {
            return Err(DecodeError::Malformed);
        },
    };
    let remote_addr = match crate::json::obj_get(&ps, "remote_addr") {
        Some(v) => match jval_to_string(v) {
            Some(s) => s,
            None => {
                return Err(DecodeError::Malformed);
            },
        },
        None => {
            return Err(DecodeError::Malformed);
        },
    };
    let error = match crate::json::obj_get(&ps, "error") {
        Some(v) => match jval_to_string(v) {
            Some(s) => s,
            None => {
                return Err(DecodeError::Malformed);
            },
        },
        None => {
            return Err(DecodeError::Malformed);
        },
    };
    Ok(NewProxyResp { proxy_name, remote_addr, error })
}

/// The proxy name a work-connection start notice decodes to.
pub open spec fn spec_start_work_conn_fields(b: Seq<u8>) -> Option<Seq<u8>> {
    match spec_parse_obj(b) {
        None => None,
        Some(ps) => req_str_field(ps, "proxy_name".spec_bytes()),
    }
}

/// Decodes a work-connection start notice body.
pub fn decode_start_work_conn(body: &[u8]) -> (r: Result<StartWorkConn, DecodeError>)
    ensures
        match spec_start_work_conn_fields(body@) {
            Some(n) => r matches Ok(m) && encode_utf8(m.proxy_name@) == n,
            None => r matches Err(e) && e == DecodeError::Malformed,
        },
{
    let ps = match crate::json::parse_obj(body) {
        Some(ps) => ps,
        None => {
            return Err(DecodeError::Malformed);
        },
    };
    let proxy_name = match crate::json::obj_get(&ps, "proxy_name") {
        Some(v) => match jval_to_string(v) {
            Some(s) => s,
            None => {
                return Err(DecodeError::Malformed);
            },
        },
        None => {
            return Err(DecodeError::Malformed);
        },
    };
    Ok(StartWorkConn { proxy_name })
}

} // verus!
