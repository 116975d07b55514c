//! Resolved client configuration: server endpoint, auth token, and the
//! registry of named TCP and HTTP(S) proxy descriptors.

use vstd::prelude::*;

use crate::bytes::str_eq;

verus! {

use vstd::string::StringExecFns;

/// A resolved local dial target for one proxy.
pub struct Proxy {
    pub server_addr: String,
    pub server_port: u16,
    pub proxy_type: String,
}

/// The `[common]` section of the configuration.
pub struct ClientCommonConfig {
    pub server_addr: String,
    pub server_port: u16,
    pub pool_count: u32,
    pub tcp_mux: bool,
    pub token: String,
    pub heartbeat_interval: u32,
    pub heartbeat_timeout: u32,
}

impl ClientCommonConfig {
    /// The defaults used before any configuration entry overrides them.
    pub fn new() -> (c: ClientCommonConfig)
        ensures
            c.server_addr@ == "0.0.0.0"@,
            c.server_port == 7000,
            c.pool_count == 1,
            c.tcp_mux == true,
            c.token@ == ""@,
            c.heartbeat_interval == 30,
            c.heartbeat_timeout == 90,
    {
        ClientCommonConfig {
            server_addr: String::from_str("0.0.0.0"),
            server_port: 7000,
            pool_count: 1,
            tcp_mux: true,
            token: String::from_str(""),
            heartbeat_interval: 30,
            heartbeat_timeout: 90,
        }
    }
}

/// A TCP proxy descriptor: a local dial address and a requested remote port.
pub struct ClientTcpConfig {
    pub service_type: String,
    pub local_ip: String,
    pub local_port: u16,
    pub remote_port: u16,
}

impl ClientTcpConfig {
    /// A descriptor with the default local address and unset ports.
    pub fn new() -> (c: ClientTcpConfig)
        ensures
            c.service_type@ == "tcp"@,
            c.local_ip@ == "127.0.0.1"@,
            c.local_port == 0,
            c.remote_port == 0,
    {
        ClientTcpConfig {
            service_type: String::from_str("tcp"),
            local_ip: String::from_str("127.0.0.1"),
            local_port: 0,
            remote_port: 0,
        }
    }
}

/// An HTTP or HTTPS proxy descriptor: a local dial address and at least one
/// of a custom domain or a subdomain.
pub struct ClientWebConfig {
    pub service_type: String,
    pub local_ip: String,
    pub local_port: u16,
    pub custom_domains: Option<String>,
    pub subdomain: Option<String>,
}

impl ClientWebConfig {
    /// A descriptor of the given web service type with the default local
    /// address and no domains yet.
    pub fn new(stype: String) -> (c: ClientWebConfig)
        ensures
            c.service_type@ == stype@,
            c.local_ip@ == "127.0.0.1"@,
            c.local_port == 0,
            c.custom_domains is None,
            c.subdomain is None,
    {
        ClientWebConfig {
            service_type: stype,
            local_ip: String::from_str("127.0.0.1"),
            local_port: 0,
            custom_domains: None,
            subdomain: None,
        }
    }

    /// A web proxy descriptor is valid only if a custom domain or a
    /// subdomain is present.
    pub fn check(&self) -> (r: bool)
        ensures
            r == !(self.custom_domains is None && self.subdomain is None),
    {
        if self.custom_domains.is_none() && self.subdomain.is_none() {
            return false;
        }
        true
    }
}

/// First descriptor in `s` whose name reads `name`, if any.
pub open spec fn find_named<T>(s: Seq<(String, T)>, name: Seq<char>) -> Option<T>
    decreases s.len(),
{
    if s.len() == 0 {
        None
    } else if s[0].0@ == name {
        Some(s[0].1)
    } else {
        find_named(s.drop_first(), name)
    }
}

/// The resolved configuration: common settings plus the proxy registry,
/// ordered as inserted, with names unique across both kinds.
pub struct Config {
    common: ClientCommonConfig,
    tcp_configs: Vec<(String, ClientTcpConfig)>,
    web_configs: Vec<(String, ClientWebConfig)>,
}

impl Config {
    /// The common settings.
    pub closed spec fn common_cfg(self) -> ClientCommonConfig {
        self.common
    }

    /// The TCP proxies, in insertion order.
    pub closed spec fn tcp_view(self) -> Seq<(String, ClientTcpConfig)> {
        self.tcp_configs@
    }

    /// The web proxies, in insertion order.
    pub closed spec fn web_view(self) -> Seq<(String, ClientWebConfig)> {
        self.web_configs@
    }

    /// Whether a proxy of either kind is registered under `name`.
    pub open spec fn spec_has_proxy(self, name: Seq<char>) -> bool {
        find_named(self.tcp_view(), name) is Some || find_named(self.web_view(), name) is Some
    }

    /// Proxy names are unique within the registry, across both kinds.
    pub open spec fn names_unique(self) -> bool {
        let tcp = self.tcp_view();
        let web = self.web_view();
        (forall|i: int, j: int| 0 <= i < j < tcp.len() ==> tcp[i].0@ != tcp[j].0@)
            && (forall|i: int, j: int| 0 <= i < j < web.len() ==> web[i].0@ != web[j].0@)
            && (forall|i: int, j: int|
                0 <= i < tcp.len() && 0 <= j < web.len() ==> tcp[i].0@ != web[j].0@)
    }

    /// An empty configuration with default common settings.
    pub fn new() -> (c: Self)
        ensures
            c.common_cfg().server_addr@ == "0.0.0.0"@,
            c.common_cfg().server_port == 7000,
            c.common_cfg().token@ == ""@,
            c.tcp_view() == Seq::<(String, ClientTcpConfig)>::empty(),
            c.web_view() == Seq::<(String, ClientWebConfig)>::empty(),
            c.names_unique(),
    {
        Config {
            common: ClientCommonConfig::new(),
            tcp_configs: Vec::new(),
            web_configs: Vec::new(),
        }
    }

    /// Replaces the common settings.
    pub fn set_common(&mut self, c: ClientCommonConfig)
        ensures
            final(self).common_cfg() == c,
            final(self).tcp_view() == old(self).tcp_view(),
            final(self).web_view() == old(self).web_view(),
    {
        self.common = c;
    }

    /// The server address to connect to.
    pub fn server_addr(&self) -> (r: &str)
        ensures
            r@ == self.common_cfg().server_addr@,
    {
        self.common.server_addr.as_str()
    }

    /// The server port to connect to.
    pub fn server_port(&self) -> (r: u16)
        ensures
            r == self.common_cfg().server_port,
    {
        self.common.server_port
    }

    /// The shared authentication token.
    pub fn auth_token(&self) -> (r: &str)
        ensures
            r@ == self.common_cfg().token@,
    {
        self.common.token.as_str()
    }

    /// The TCP proxy list, for iteration.
    pub fn tcp_list(&self) -> (r: &Vec<(String, ClientTcpConfig)>)
        ensures
            r@ == self.tcp_view(),
    {
        &self.tcp_configs
    }

    /// The web proxy list, for iteration.
    pub fn web_list(&self) -> (r: &Vec<(String, ClientWebConfig)>)
        ensures
            r@ == self.web_view(),
    {
        &self.web_configs
    }

    /// Whether a proxy of either kind is registered under `name`.
    pub fn has_proxy(&self, name: &str) -> (r: bool)
        ensures
            r == self.spec_has_proxy(name@),
    {
        let in_tcp = find_tcp_index(&self.tcp_configs, name).is_some();
        let in_web = find_web_index(&self.web_configs, name).is_some();
        in_tcp || in_web
    }

    /// Registers a TCP proxy under a fresh name.
    pub fn insert_tcp(&mut self, name: String, cfg: ClientTcpConfig)
        requires
            !old(self).spec_has_proxy(name@),
        ensures
            final(self).tcp_view() == old(self).tcp_view().push((name, cfg)),
            final(self).web_view() == old(self).web_view(),
            final(self).common_cfg() == old(self).common_cfg(),
            old(self).names_unique() ==> final(self).names_unique(),
    {
        proof {
            lemma_find_named_absent(self.tcp_view(), name@);
            lemma_find_named_absent(self.web_view(), name@);
        }
        self.tcp_configs.push((name, cfg));
    }

    /// Registers a web proxy under a fresh name.
    pub fn insert_web(&mut self, name: String, cfg: ClientWebConfig)
        requires
            !old(self).spec_has_proxy(name@),
        ensures
            final(self).web_view() == old(self).web_view().push((name, cfg)),
            final(self).tcp_view() == old(self).tcp_view(),
            final(self).common_cfg() == old(self).common_cfg(),
            old(self).names_unique() ==> final(self).names_unique(),
    {
        proof {
            lemma_find_named_absent(self.tcp_view(), name@);
            lemma_find_named_absent(self.web_view(), name@);
        }
        self.web_configs.push((name, cfg));
    }

    /// Resolves a proxy name to its local dial target: TCP proxies first,
    /// then web proxies; an unknown name is reported, not invented.
    pub fn get_proxy(&self, proxy_name: &str) -> (r: Result<Proxy, ConfigError>)
        ensures
            match find_named(self.tcp_view(), proxy_name@) {
                Some(c) => r matches Ok(p) && p.server_addr@ == c.local_ip@ && p.server_port
                    == c.local_port && p.proxy_type@ == "tcp"@,
                None => match find_named(self.web_view(), proxy_name@) {
                    Some(c) => r matches Ok(p) && p.server_addr@ == c.local_ip@ && p.server_port
                        == c.local_port && p.proxy_type@ == "web"@,
                    None => r matches Err(e) && e == ConfigError::NoSuchProxy,
                },
            },
    {
        if let Some(i) = find_tcp_index(&self.tcp_configs, proxy_name) {
            let c = &self.tcp_configs[i].1;
            Ok(Proxy {
                server_addr: c.local_ip.clone(),
                server_port: c.local_port,
                proxy_type: String::from_str("tcp"),
            })
        } else if let Some(i) = find_web_index(&self.web_configs, proxy_name) {
            let c = &self.web_configs[i].1;
            Ok(Proxy {
                server_addr: c.local_ip.clone(),
                server_port: c.local_port,
                proxy_type: String::from_str("web"),
            })
        } else {
            Err(ConfigError::NoSuchProxy)
        }
    }
}

/// Errors of the configuration registry.
#[derive(Clone, Copy, Debug, PartialEq, Eq, Structural)]
pub enum ConfigError {
    /// The named proxy is not registered.
    NoSuchProxy,
}

fn find_tcp_index(s: &Vec<(String, ClientTcpConfig)>, name: &str) -> (r: Option<usize>)
    ensures
        match r {
            Some(i) => i < s@.len() && s@[i as int].0@ == name@ && find_named(s@, name@) == Some(
                s@[i as int].1,
            ),
            None => find_named(s@, name@) is None,
        },
{
    let mut i: usize = 0;
    assert(s@.skip(0) =~= s@);
    while i < s.len()
        invariant
            i <= s@.len(),
            find_named(s@, name@) == find_named(s@.skip(i as int), name@),
            forall|j: int| 0 <= j < i ==> s@[j].0@ != name@,
        decreases s@.len() - i,
    {
        proof {
            assert(s@.skip(i as int)[0] == s@[i as int]);
            assert(s@.skip(i as int).drop_first() =~= s@.skip(i as int + 1));
        }
        if str_eq(s[i].0.as_str(), name) {
            return Some(i);
        }
        i = i + 1;
    }
    proof {
        assert(s@.skip(s@.len() as int) =~= Seq::<(String, _)>::empty());
    }
    None
}

fn find_web_index(s: &Vec<(String, ClientWebConfig)>, name: &str) -> (r: Option<usize>)
    ensures
        match r {
            Some(i) => i < s@.len() && s@[i as int].0@ == name@ && find_named(s@, name@) == Some(
                s@[i as int].1,
            ),
            None => find_named(s@, name@) is None,
        },
{
    let mut i: usize = 0;
    assert(s@.skip(0) =~= s@);
    while i < s.len()
        invariant
            i <= s@.len(),
            find_named(s@, name@) == find_named(s@.skip(i as int), name@),
            forall|j: int| 0 <= j < i ==> s@[j].0@ != name@,
        decreases s@.len() - i,
    {
        proof {
            assert(s@.skip(i as int)[0] == s@[i as int]);
            assert(s@.skip(i as int).drop_first() =~= s@.skip(i as int + 1));
        }
        if str_eq(s[i].0.as_str(), name) {
            return Some(i);
        }
        i = i + 1;
    }
    proof {
        assert(s@.skip(s@.len() as int) =~= Seq::<(String, _)>::empty());
    }
    None
}

/// A name absent from a registry list is absent from its name sequence.
proof fn lemma_find_named_absent<T>(s: Seq<(String, T)>, name: Seq<char>)
    requires
        find_named(s, name) is None,
    ensures
        forall|i: int| 0 <= i < s.len() ==> s[i].0@ != name,
    decreases s.len(),
{
    if s.len() > 0 {
        lemma_find_named_absent(s.drop_first(), name);
        assert forall|i: int| 0 <= i < s.len() implies s[i].0@ != name by {
            if i > 0 {
                assert(s.drop_first()[i - 1] == s[i]);
            }
        }
    }
}

} // verus!
