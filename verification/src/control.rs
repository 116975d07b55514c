//! The control-channel state machine: login, the Active-state message loop
//! with its framing checks, one-shot proxy announcement, and the decisions
//! of the work-connection handshake.

use vstd::prelude::*;

use crate::bytes::{dec_u64_bytes, read_be_u64};
use crate::config::{find_named, ClientTcpConfig, ClientWebConfig, Config, ConfigError, Proxy};
use crate::crypto::{aes_cfb_stream, pbkdf2_frp_key, privilege_key_bytes, FrpCoder};
use crate::json::json_quoted;
use crate::msg::{
    decode_login_resp, decode_new_proxy_resp, decode_start_work_conn, frame_bytes, header_len,
    header_tag, known_tag, new_proxy_json, new_work_conn_json, spec_login_resp_fields,
    spec_new_proxy_resp_fields, spec_start_work_conn_fields, NewProxy, NewProxyResp, NewWorkConn,
    TYPE_NEW_PROXY, TYPE_NEW_PROXY_RESP, TYPE_NEW_WORK_CONN, TYPE_REQ_WORK_CONN,
};

verus! {

use vstd::string::StringSliceAdditionalSpecFns;
use vstd::string::StringExecFns;
use vstd::utf8::{decode_utf8, encode_utf8};

/// The states of a control channel; `Closed` is terminal.
#[derive(Clone, Copy, Debug, PartialEq, Eq, Structural)]
pub enum ChannelPhase {
    LoggingIn,
    Active,
    Closed,
}

/// Why a login did not succeed.
#[derive(Debug)]
pub enum LoginError {
    /// The response body was not a login response.
    Malformed,
    /// The server reported an error; its text is carried along.
    Rejected(String),
    /// The server assigned no run id.
    EmptyRunId,
}

/// Fatal-to-session errors of the Active-state message loop.
#[derive(Clone, Copy, Debug, PartialEq, Eq, Structural)]
pub enum SessionError {
    /// The decrypted chunk is shorter than one header.
    FramingTooShort,
    /// The declared body length does not match the bytes present.
    FramingLengthMismatch,
    /// A proxy registration response body did not decode.
    BadProxyResp,
    /// A tag outside the message catalog.
    UnknownTag(u8),
}

/// What the caller should do after one processed frame.
#[derive(Debug, PartialEq, Eq)]
pub enum ChunkAction {
    /// Spawn a work-connection handler.
    SpawnWorkConn,
    /// Record this per-proxy registration outcome.
    ProxyResp(NewProxyResp),
    /// A recognized tag this client does not act on.
    Ignored,
}

/// Reasons a work-connection handshake fails; each aborts only its handler.
#[derive(Debug)]
pub enum WorkConnError {
    /// The start notice body did not decode.
    Malformed,
    /// The named proxy is not in the registry.
    UnknownProxy,
}

/// What processing one decrypted frame must yield: too-short and
/// wrong-length frames are framing errors, a work-connection request asks
/// for a handler, a proxy response is decoded, other catalog tags are
/// ignored, and an unknown tag is a protocol error.
pub open spec fn dispatch_matches(d: Seq<u8>, r: Result<ChunkAction, SessionError>) -> bool {
    if d.len() < 9 {
        r matches Err(e) && e == SessionError::FramingTooShort
    } else {
        let t = header_tag(d);
        if header_len(d) as int != d.len() - 9 {
            r matches Err(e) && e == SessionError::FramingLengthMismatch
        } else if t == TYPE_REQ_WORK_CONN {
            r matches Ok(a) && a is SpawnWorkConn
        } else if t == TYPE_NEW_PROXY_RESP {
            match spec_new_proxy_resp_fields(d.skip(9)) {
                Some(f) => r matches Ok(a) && a matches ChunkAction::ProxyResp(m) && encode_utf8(
                    m.proxy_name@,
                ) == f.0 && encode_utf8(m.remote_addr@) == f.1 && encode_utf8(m.error@) == f.2,
                None => r matches Err(e) && e == SessionError::BadProxyResp,
            }
        } else if known_tag(t) {
            r matches Ok(a) && a is Ignored
        } else {
            r matches Err(e) && e == SessionError::UnknownTag(t)
        }
    }
}

fn known_tag_exec(t: u8) -> (r: bool)
    ensures
        r == known_tag(t),
{
    t == 111 || t == 49 || t == 112 || t == 50 || t == 99 || t == 119 || t == 114 || t == 115
        || t == 118 || t == 51 || t == 104 || t == 52 || t == 117 || t == 105 || t == 110 || t == 109
        || t == 100 || t == 53
}

/// Processes one decrypted frame: checks the framing and dispatches by tag.
pub fn dispatch_plain(frame: &[u8]) -> (r: Result<ChunkAction, SessionError>)
    ensures
        dispatch_matches(frame@, r),
{
    if frame.len() < 9 {
        return Err(SessionError::FramingTooShort);
    }
    let t = frame[0];
    let declared = read_be_u64(frame, 1);
    if declared != (frame.len() - 9) as u64 {
        return Err(SessionError::FramingLengthMismatch);
    }
    if t == TYPE_REQ_WORK_CONN {
        Ok(ChunkAction::SpawnWorkConn)
    } else if t == TYPE_NEW_PROXY_RESP {
        let body = &frame[9..frame.len()];
        assert(body@ =~= frame@.skip(9));
        match decode_new_proxy_resp(body) {
            Ok(m) => Ok(ChunkAction::ProxyResp(m)),
            Err(_) => Err(SessionError::BadProxyResp),
        }
    } else if known_tag_exec(t) {
        Ok(ChunkAction::Ignored)
    } else {
        Err(SessionError::UnknownTag(t))
    }
}

/// The JSON body announcing one TCP proxy.
pub open spec fn tcp_announce_body(name: Seq<char>, c: ClientTcpConfig) -> Seq<u8> {
    "{\"proxy_name\":".spec_bytes() + json_quoted(encode_utf8(name)) + ",\"proxy_type\":".spec_bytes()
        + json_quoted(encode_utf8(c.service_type@)) + ",\"remote_port\":".spec_bytes()
        + dec_u64_bytes(c.remote_port as nat) + "}".spec_bytes()
}

/// The JSON body announcing one web proxy, carrying whichever of the custom
/// domain and the subdomain is present.
pub open spec fn web_announce_body(name: Seq<char>, c: ClientWebConfig) -> Seq<u8> {
    "{\"proxy_name\":".spec_bytes() + json_quoted(encode_utf8(name)) + ",\"proxy_type\":".spec_bytes()
        + json_quoted(encode_utf8(c.service_type@)) + (match c.custom_domains {
        Some(d) => ",\"custom_domains\":".spec_bytes() + seq![91u8] + json_quoted(encode_utf8(d@))
            + seq![93u8],
        None => Seq::<u8>::empty(),
    }) + (match c.subdomain {
        Some(s) => ",\"subdomain\":".spec_bytes() + json_quoted(encode_utf8(s@)),
        None => Seq::<u8>::empty(),
    }) + "}".spec_bytes()
}

/// A web proxy descriptor is announced only when a custom domain or a
/// subdomain is present.
pub open spec fn web_valid(c: ClientWebConfig) -> bool {
    c.custom_domains is Some || c.subdomain is Some
}

/// The announcement frames for the TCP proxies from index `i` on.
pub open spec fn tcp_frames_from(s: Seq<(String, ClientTcpConfig)>, i: int) -> Seq<Seq<u8>>
    decreases s.len() - i,
{
    if i < 0 || i >= s.len() {
        Seq::empty()
    } else {
        seq![frame_bytes(TYPE_NEW_PROXY, tcp_announce_body(s[i].0@, s[i].1))] + tcp_frames_from(
            s,
            i + 1,
        )
    }
}

/// The announcement frames for the valid web proxies from index `i` on.
pub open spec fn web_frames_from(s: Seq<(String, ClientWebConfig)>, i: int) -> Seq<Seq<u8>>
    decreases s.len() - i,
{
    if i < 0 || i >= s.len() {
        Seq::empty()
    } else if web_valid(s[i].1) {
        seq![frame_bytes(TYPE_NEW_PROXY, web_announce_body(s[i].0@, s[i].1))] + web_frames_from(
            s,
            i + 1,
        )
    } else {
        web_frames_from(s, i + 1)
    }
}

/// The names of the invalid web proxies from index `i` on.
pub open spec fn web_rejected_from(s: Seq<(String, ClientWebConfig)>, i: int) -> Seq<Seq<char>>
    decreases s.len() - i,
{
    if i < 0 || i >= s.len() {
        Seq::empty()
    } else if web_valid(s[i].1) {
        web_rejected_from(s, i + 1)
    } else {
        seq![s[i].0@] + web_rejected_from(s, i + 1)
    }
}

/// Every proxy announcement frame of a configuration: all TCP proxies, then
/// the valid web proxies.
pub open spec fn announce_plain_frames(cfg: Config) -> Seq<Seq<u8>> {
    tcp_frames_from(cfg.tcp_view(), 0) + web_frames_from(cfg.web_view(), 0)
}

/// The names of the proxies a configuration must not announce.
pub open spec fn announce_rejected(cfg: Config) -> Seq<Seq<char>> {
    web_rejected_from(cfg.web_view(), 0)
}

fn build_tcp_frames_from(out: &mut Vec<Vec<u8>>, cfgs: &Vec<(String, ClientTcpConfig)>, i: usize)
    ensures
        final(out).deep_view() == old(out).deep_view() + tcp_frames_from(cfgs@, i as int),
    decreases cfgs@.len() - i,
{
    if i >= cfgs.len() {
        assert(out.deep_view() =~~= old(out).deep_view() + tcp_frames_from(cfgs@, i as int));
    } else {
        let mut p = NewProxy::new(cfgs[i].0.as_str(), cfgs[i].1.service_type.as_str());
        p.set_remote_port(cfgs[i].1.remote_port);
        let f = p.frame();
        proof {
            assert(new_proxy_json(p) =~= tcp_announce_body(cfgs@[i as int].0@, cfgs@[i as int].1));
        }
        out.push(f);
        proof {
            assert(out.deep_view() =~~= old(out).deep_view() + seq![
                frame_bytes(TYPE_NEW_PROXY, tcp_announce_body(cfgs@[i as int].0@, cfgs@[i as int].1)),
            ]);
        }
        build_tcp_frames_from(out, cfgs, i + 1);
        assert(out.deep_view() =~~= old(out).deep_view() + tcp_frames_from(cfgs@, i as int));
    }
}

fn build_web_frames_from(
    out: &mut Vec<Vec<u8>>,
    rejected: &mut Vec<String>,
    cfgs: &Vec<(String, ClientWebConfig)>,
    i: usize,
)
    ensures
        final(out).deep_view() == old(out).deep_view() + web_frames_from(cfgs@, i as int),
        final(rejected).deep_view() == old(rejected).deep_view() + web_rejected_from(
            cfgs@,
            i as int,
        ),
    decreases cfgs@.len() - i,
{
    if i >= cfgs.len() {
        assert(out.deep_view() =~~= old(out).deep_view() + web_frames_from(cfgs@, i as int));
        assert(rejected.deep_view() =~~= old(rejected).deep_view() + web_rejected_from(
            cfgs@,
            i as int,
        ));
    } else {
        let c = &cfgs[i].1;
        if c.check() {
            let mut p = NewProxy::new(cfgs[i].0.as_str(), c.service_type.as_str());
            match &c.custom_domains {
                Some(d) => {
                    let mut domains: Vec<String> = Vec::new();
                    domains.push(d.clone());
                    p.set_custom_domains(&domains);
                },
                None => {},
            }
            match &c.subdomain {
                Some(s) => {
                    p.set_subdomain(s.as_str());
                },
                None => {},
            }
            let f = p.frame();
            proof {
                assert(new_proxy_json(p) =~= web_announce_body(
                    cfgs@[i as int].0@,
                    cfgs@[i as int].1,
                ));
            }
            out.push(f);
            proof {
                assert(out.deep_view() =~~= old(out).deep_view() + seq![
                    frame_bytes(
                        TYPE_NEW_PROXY,
                        web_announce_body(cfgs@[i as int].0@, cfgs@[i as int].1),
                    ),
                ]);
            }
            build_web_frames_from(out, rejected, cfgs, i + 1);
        } else {
            rejected.push(cfgs[i].0.clone());
            proof {
                assert(rejected.deep_view() =~~= old(rejected).deep_view() + seq![
                    cfgs@[i as int].0@,
                ]);
            }
            build_web_frames_from(out, rejected, cfgs, i + 1);
        }
        assert(out.deep_view() =~~= old(out).deep_view() + web_frames_from(cfgs@, i as int));
        assert(rejected.deep_view() =~~= old(rejected).deep_view() + web_rejected_from(
            cfgs@,
            i as int,
        ));
    }
}

/// Builds every announcement frame of the registry, and the names of the
/// web proxies that fail their validity invariant and must not be sent.
pub fn build_announce_frames(cfg: &Config) -> (r: (Vec<Vec<u8>>, Vec<String>))
    ensures
        r.0.deep_view() == announce_plain_frames(*cfg),
        r.1.deep_view() == announce_rejected(*cfg),
{
    let mut frames: Vec<Vec<u8>> = Vec::new();
    let mut rejected: Vec<String> = Vec::new();
    let tcp = cfg.tcp_list();
    let web = cfg.web_list();
    build_tcp_frames_from(&mut frames, tcp, 0);
    build_web_frames_from(&mut frames, &mut rejected, web, 0);
    proof {
        assert(frames.deep_view() =~~= announce_plain_frames(*cfg));
        assert(rejected.deep_view() =~~= announce_rejected(*cfg));
    }
    (frames, rejected)
}

/// The ciphertext frames that sealing `frames` in order produces, starting
/// from encrypt-stream history `h`.
pub open spec fn seal_seq(key: Seq<u8>, iv: Seq<u8>, h: Seq<u8>, frames: Seq<Seq<u8>>) -> Seq<
    Seq<u8>,
>
    decreases frames.len(),
{
    if frames.len() == 0 {
        Seq::empty()
    } else {
        seq![
            aes_cfb_stream(key, iv, h + frames[0]).skip(aes_cfb_stream(key, iv, h).len() as int),
        ] + seal_seq(key, iv, h + frames[0], frames.drop_first())
    }
}

fn seal_rest(coder: &mut FrpCoder, frames: &Vec<Vec<u8>>, i: usize) -> (r: Vec<Vec<u8>>)
    requires
        i <= frames@.len(),
    ensures
        r.deep_view() == seal_seq(
            old(coder).stream_key(),
            old(coder).stream_iv(),
            old(coder).enc_done(),
            frames.deep_view().skip(i as int),
        ),
        final(coder).enc_done() == old(coder).enc_done() + frames.deep_view().skip(
            i as int,
        ).flatten(),
        final(coder).stream_key() == old(coder).stream_key(),
        final(coder).stream_iv() == old(coder).stream_iv(),
        final(coder).key_bytes() == old(coder).key_bytes(),
        final(coder).iv_bytes() == old(coder).iv_bytes(),
        final(coder).dec_done() == old(coder).dec_done(),
    decreases frames@.len() - i,
{
    if i >= frames.len() {
        let r: Vec<Vec<u8>> = Vec::new();
        proof {
            assert(frames.deep_view().skip(i as int) =~~= Seq::<Seq<u8>>::empty());
            assert(r.deep_view() =~~= Seq::<Seq<u8>>::empty());
            assert(Seq::<Seq<u8>>::empty().flatten() =~= Seq::<u8>::empty());
            assert(old(coder).enc_done() + Seq::<u8>::empty() =~= old(coder).enc_done());
        }
        r
    } else {
        let mut buf: Vec<u8> = Vec::new();
        buf.extend_from_slice(frames[i].as_slice());
        assert(buf@ =~~= frames.deep_view().skip(i as int)[0]);
        let ghost h = coder.enc_done();
        coder.encypt(&mut buf);
        proof {
            let k = old(coder).stream_key();
            let iv = old(coder).stream_iv();
            assert(aes_cfb_stream(k, iv, h + frames.deep_view().skip(i as int)[0])
                =~~= aes_cfb_stream(k, iv, h).add(buf@));
            assert(aes_cfb_stream(k, iv, h).add(buf@).skip(aes_cfb_stream(k, iv, h).len() as int)
                =~= buf@);
        }
        let mut rest = seal_rest(coder, frames, i + 1);
        let mut out: Vec<Vec<u8>> = Vec::new();
        let ghost sealed_first = buf@;
        let ghost rest_view = rest.deep_view();
        out.push(buf);
        out.append(&mut rest);
        proof {
            let tail = frames.deep_view().skip(i as int).drop_first();
            assert(tail =~~= frames.deep_view().skip(i as int + 1));
            assert(out.deep_view() =~~= seq![sealed_first] + rest_view);
            assert(frames.deep_view().skip(i as int).flatten() =~~= frames.deep_view().skip(
                i as int,
            )[0] + tail.flatten());
            assert(coder.enc_done() =~~= old(coder).enc_done() + frames.deep_view().skip(
                i as int,
            ).flatten());
            assert(out.deep_view() =~~= seal_seq(
                old(coder).stream_key(),
                old(coder).stream_iv(),
                old(coder).enc_done(),
                frames.deep_view().skip(i as int),
            ));
        }
        out
    }
}

/// The protocol state machine of one session's control channel. It owns the
/// session cipher and the one-shot announcement flag.
pub struct Control {
    phase: ChannelPhase,
    token: String,
    run_id: String,
    coder: Option<FrpCoder>,
    announced: bool,
}

impl Control {
    /// The channel's current phase.
    pub closed spec fn spec_phase(self) -> ChannelPhase {
        self.phase
    }

    /// The configured token's characters.
    pub closed spec fn token_chars(self) -> Seq<char> {
        self.token@
    }

    /// The recorded run id's characters.
    pub closed spec fn run_id_chars(self) -> Seq<char> {
        self.run_id@
    }

    /// Whether the proxies of this session have been announced.
    pub closed spec fn spec_announced(self) -> bool {
        self.announced
    }

    /// Logging in, before any cipher exists.
    pub open spec fn is_logging_in(self) -> bool {
        self.spec_phase() is LoggingIn
    }

    /// Active: logged in, cipher constructed.
    pub closed spec fn is_active(self) -> bool {
        self.phase is Active && self.coder is Some
    }

    /// Closed, terminally.
    pub open spec fn is_closed(self) -> bool {
        self.spec_phase() is Closed
    }

    /// The key the session cipher was built with.
    pub closed spec fn stream_key(self) -> Seq<u8> {
        match self.coder {
            Some(c) => c.stream_key(),
            None => Seq::empty(),
        }
    }

    /// The IV the session cipher was built with.
    pub closed spec fn stream_iv(self) -> Seq<u8> {
        match self.coder {
            Some(c) => c.stream_iv(),
            None => Seq::empty(),
        }
    }

    /// The IV bytes kept for the announcement preamble.
    pub closed spec fn iv_bytes(self) -> Seq<u8> {
        match self.coder {
            Some(c) => c.iv_bytes(),
            None => Seq::empty(),
        }
    }

    /// Plaintext fed through the encrypt direction so far.
    pub closed spec fn enc_done(self) -> Seq<u8> {
        match self.coder {
            Some(c) => c.enc_done(),
            None => Seq::empty(),
        }
    }

    /// Plaintext recovered by the decrypt direction so far.
    pub closed spec fn dec_done(self) -> Seq<u8> {
        match self.coder {
            Some(c) => c.dec_done(),
            None => Seq::empty(),
        }
    }

    /// A fresh channel for a session using `token`, in the logging-in
    /// phase, nothing announced.
    pub fn new(token: &str) -> (c: Self)
        ensures
            c.is_logging_in(),
            c.token_chars() == token@,
            c.run_id_chars() == Seq::<char>::empty(),
            !c.spec_announced(),
    {
        let c = Control {
            phase: ChannelPhase::LoggingIn,
            token: String::from_str(token),
            run_id: String::from_str(""),
            coder: None,
            announced: false,
        };
        proof {
            reveal_strlit("");
            assert(c.run_id@ =~= Seq::<char>::empty());
        }
        c
    }

    /// The recorded run id.
    pub fn run_id(&self) -> (r: &str)
        ensures
            r@ == self.run_id_chars(),
    {
        self.run_id.as_str()
    }

    /// Whether the channel is in the Active phase.
    pub fn active(&self) -> (r: bool)
        ensures
            r == self.is_active(),
    {
        match self.phase {
            ChannelPhase::Active => self.coder.is_some(),
            _ => false,
        }
    }

    /// Handles the one login response: a response whose error field is
    /// non-empty, or whose run id is empty or absent, is fatal and closes
    /// the channel; otherwise the run id is recorded and the channel waits
    /// for the cipher IV.
    pub fn on_login_resp(&mut self, body: &[u8]) -> (r: Result<(), LoginError>)
        requires
            old(self).is_logging_in(),
        ensures
            final(self).token_chars() == old(self).token_chars(),
            final(self).spec_announced() == old(self).spec_announced(),
            match spec_login_resp_fields(body@) {
                None => r matches Err(e) && e is Malformed && final(self).is_closed(),
                Some(f) => {
                    if f.2 matches Some(e) && e.len() > 0 {
                        r matches Err(le) && le matches LoginError::Rejected(s) && encode_utf8(s@)
                            == f.2.unwrap() && final(self).is_closed()
                    } else if !(f.1 matches Some(rid) && rid.len() > 0) {
                        r matches Err(le) && le is EmptyRunId && final(self).is_closed()
                    } else {
                        r is Ok && final(self).is_logging_in() && encode_utf8(
                            final(self).run_id_chars(),
                        ) == f.1.unwrap() && final(self).run_id_chars().len() > 0
                    }
                },
            },
    {
        let resp = match decode_login_resp(body) {
            Ok(m) => m,
            Err(_) => {
                self.phase = ChannelPhase::Closed;
                return Err(LoginError::Malformed);
            },
        };
        match resp.error {
            Some(e) => {
                if !e.as_str().is_empty() {
                    proof {
                        lemma_encode_len(e@);
                    }
                    self.phase = ChannelPhase::Closed;
                    return Err(LoginError::Rejected(e));
                }
            },
            None => {},
        }
        match resp.run_id {
            Some(rid) => {
                if rid.as_str().is_empty() {
                    self.phase = ChannelPhase::Closed;
                    return Err(LoginError::EmptyRunId);
                }
                proof {
                    lemma_encode_len(rid@);
                }
                self.run_id = rid;
                Ok(())
            },
            None => {
                self.phase = ChannelPhase::Closed;
                Err(LoginError::EmptyRunId)
            },
        }
    }

    /// Accepts the server-supplied IV and constructs the session cipher,
    /// entering the Active phase. Valid only after a successful login.
    pub fn activate(&mut self, iv: [u8; 16])
        requires
            old(self).is_logging_in(),
            old(self).run_id_chars().len() > 0,
        ensures
            final(self).is_active(),
            final(self).token_chars() == old(self).token_chars(),
            final(self).run_id_chars() == old(self).run_id_chars(),
            final(self).spec_announced() == old(self).spec_announced(),
            final(self).stream_key() == pbkdf2_frp_key(old(self).token_chars()),
            final(self).stream_iv() == iv@,
            final(self).iv_bytes() == iv@,
            final(self).enc_done() == Seq::<u8>::empty(),
            final(self).dec_done() == Seq::<u8>::empty(),
    {
        let coder = FrpCoder::new(self.token.as_str(), iv);
        self.coder = Some(coder);
        self.phase = ChannelPhase::Active;
    }

    /// Decrypts one chunk read from the main stream and dispatches the
    /// frame it holds; any framing or protocol error closes the channel.
    pub fn on_chunk(&mut self, chunk: Vec<u8>) -> (r: Result<ChunkAction, SessionError>)
        requires
            old(self).is_active(),
        ensures
            final(self).token_chars() == old(self).token_chars(),
            final(self).run_id_chars() == old(self).run_id_chars(),
            final(self).spec_announced() == old(self).spec_announced(),
            final(self).stream_key() == old(self).stream_key(),
            final(self).stream_iv() == old(self).stream_iv(),
            final(self).iv_bytes() == old(self).iv_bytes(),
            final(self).enc_done() == old(self).enc_done(),
            final(self).dec_done().len() == old(self).dec_done().len() + chunk@.len(),
            aes_cfb_stream(old(self).stream_key(), old(self).stream_iv(), final(self).dec_done())
                == aes_cfb_stream(
                old(self).stream_key(),
                old(self).stream_iv(),
                old(self).dec_done(),
            ) + chunk@,
            dispatch_matches(
                final(self).dec_done().skip(old(self).dec_done().len() as int),
                r,
            ),
            r is Ok ==> final(self).is_active(),
            r is Err ==> final(self).is_closed(),
    {
        let mut buf = chunk;
        match &mut self.coder {
            Some(c) => {
                c.decrypt(&mut buf);
            },
            None => {
                proof {
                    assert(false);
                }
            },
        }
        proof {
            assert(self.dec_done().skip(old(self).dec_done().len() as int) =~= buf@);
        }
        let r = dispatch_plain(buf.as_slice());
        if r.is_err() {
            self.phase = ChannelPhase::Closed;
        }
        r
    }

    /// Announces the registry's proxies exactly once per session: the first
    /// call in the Active phase yields the IV preamble followed by one
    /// sealed registration frame per valid proxy, and the names of the web
    /// proxies rejected for failing their validity invariant; every later
    /// call yields nothing and changes nothing.
    pub fn announce_step(&mut self, cfg: &Config) -> (r: (Vec<Vec<u8>>, Vec<String>))
        requires
            old(self).is_active(),
        ensures
            final(self).is_active(),
            final(self).token_chars() == old(self).token_chars(),
            final(self).run_id_chars() == old(self).run_id_chars(),
            final(self).stream_key() == old(self).stream_key(),
            final(self).stream_iv() == old(self).stream_iv(),
            final(self).iv_bytes() == old(self).iv_bytes(),
            final(self).dec_done() == old(self).dec_done(),
            final(self).spec_announced(),
            old(self).spec_announced() ==> r.0@.len() == 0 && r.1@.len() == 0 && final(self).enc_done()
                == old(self).enc_done(),
            !old(self).spec_announced() ==> r.0.deep_view() == seq![old(self).iv_bytes()]
                + seal_seq(
                old(self).stream_key(),
                old(self).stream_iv(),
                old(self).enc_done(),
                announce_plain_frames(*cfg),
            ) && r.1.deep_view() == announce_rejected(*cfg) && final(self).enc_done() == old(
                self,
            ).enc_done() + announce_plain_frames(*cfg).flatten(),
    {
        if self.announced {
            let none_frames: Vec<Vec<u8>> = Vec::new();
            let none_rejected: Vec<String> = Vec::new();
            return (none_frames, none_rejected);
        }
        let (frames, rejected) = build_announce_frames(cfg);
        let iv_frame = match &self.coder {
            Some(c) => {
                let mut v: Vec<u8> = Vec::new();
                v.extend_from_slice(c.iv().as_slice());
                v
            },
            None => {
                proof {
                    assert(false);
                }
                Vec::new()
            },
        };
        assert(iv_frame@ =~= old(self).iv_bytes());
        let sealed = match &mut self.coder {
            Some(c) => seal_rest(c, &frames, 0),
            None => {
                proof {
                    assert(false);
                }
                Vec::new()
            },
        };
        let mut out: Vec<Vec<u8>> = Vec::new();
        let ghost iv_view = iv_frame@;
        out.push(iv_frame);
        let mut sealed_vec = sealed;
        let ghost sealed_view = sealed_vec.deep_view();
        out.append(&mut sealed_vec);
        self.announced = true;
        proof {
            assert(frames.deep_view().skip(0) =~~= frames.deep_view());
            assert(out.deep_view() =~~= seq![iv_view] + sealed_view);
        }
        (out, rejected)
    }

    /// The framed registration to send on a fresh work-connection stream,
    /// carrying the session's run id and a fresh privilege key.
    pub fn work_conn_frame(&self, cfg: &Config, timestamp: i64) -> (r: Vec<u8>)
        requires
            self.is_active(),
        ensures
            ({
                let body = "{\"run_id\":".spec_bytes() + json_quoted(
                    encode_utf8(self.run_id_chars()),
                ) + ",\"privilege_key\":".spec_bytes() + json_quoted(
                    privilege_key_bytes(cfg.common_cfg().token@, timestamp as int),
                ) + ",\"timestamp\":".spec_bytes() + crate::bytes::dec_i64_bytes(timestamp as int)
                    + "}".spec_bytes();
                r@ == frame_bytes(TYPE_NEW_WORK_CONN, body)
            }),
    {
        let w = NewWorkConn::new(self.run_id.clone(), cfg, timestamp);
        let r = w.frame();
        proof {
            assert(new_work_conn_json(w) =~= "{\"run_id\":".spec_bytes() + json_quoted(
                encode_utf8(self.run_id_chars()),
            ) + ",\"privilege_key\":".spec_bytes() + json_quoted(
                privilege_key_bytes(cfg.common_cfg().token@, timestamp as int),
            ) + ",\"timestamp\":".spec_bytes() + crate::bytes::dec_i64_bytes(timestamp as int)
                + "}".spec_bytes());
        }
        r
    }
}

/// Resolves a work-connection start notice against the registry: the body
/// must decode, and the named proxy must be registered; a failure aborts
/// only this handler.
pub fn resolve_start_work_conn(body: &[u8], cfg: &Config) -> (r: Result<Proxy, WorkConnError>)
    ensures
        match spec_start_work_conn_fields(body@) {
            None => r matches Err(e) && e is Malformed,
            Some(nb) => {
                let nm = decode_utf8(nb);
                match find_named(cfg.tcp_view(), nm) {
                    Some(c) => r matches Ok(p) && p.server_addr@ == c.local_ip@ && p.server_port
                        == c.local_port && p.proxy_type@ == "tcp"@,
                    None => match find_named(cfg.web_view(), nm) {
                        Some(c) => r matches Ok(p) && p.server_addr@ == c.local_ip@ && p.server_port
                            == c.local_port && p.proxy_type@ == "web"@,
                        None => r matches Err(e) && e is UnknownProxy,
                    },
                }
            },
        },
{
    let start = match decode_start_work_conn(body) {
        Ok(m) => m,
        Err(_) => {
            return Err(WorkConnError::Malformed);
        },
    };
    proof {
        vstd::utf8::encode_utf8_decode_utf8(start.proxy_name@);
    }
    match cfg.get_proxy(start.proxy_name.as_str()) {
        Ok(p) => Ok(p),
        Err(ConfigError::NoSuchProxy) => Err(WorkConnError::UnknownProxy),
    }
}

/// A non-empty character sequence has a non-empty UTF-8 encoding, and the
/// empty one an empty encoding.
proof fn lemma_encode_len(s: Seq<char>)
    ensures
        (encode_utf8(s).len() == 0) == (s.len() == 0),
{
    if s.len() > 0 {
        assert(encode_utf8(s) == vstd::utf8::encode_scalar(s[0] as u32) + encode_utf8(
            s.drop_first(),
        ));
        vstd::utf8::char_is_scalar(s[0]);
        assert(vstd::utf8::encode_scalar(s[0] as u32).len() > 0);
    }
}

} // verus!
