//! The server configuration: its defaults, how a configuration file of an
//! earlier version is brought up to date, and the text of the file the
//! server writes.

use vstd::prelude::*;
use crate::text::{bool_str, bool_text, decimal, decimal_spec};

verus! {

/// The settings of the server.
pub struct ServerConfig {
    /// The key clients must present.
    pub key: String,
    /// The most peers connected at once.
    pub concurrent_limit: usize,
    /// The path of the API routes.
    pub path: String,
    /// Whether the list of peers may be read.
    pub allow_discovery: bool,
    /// How long a peer may go without a ping, in milliseconds.
    pub alive_timeout: u64,
    /// The interval of the connection check, in seconds.
    pub check_interval: u64,
    /// The interval of the message expiry, in milliseconds.
    pub cleanup_out_msgs: u64,
    /// How long a queue may go unread, in milliseconds.
    pub expire_timeout: u64,
    /// Whether the server speaks HTTPS/WSS.
    pub tls_enabled: bool,
    /// The certificate file.
    pub tls_cert_path: String,
    /// The private key file.
    pub tls_key_path: String,
    /// The logging level: trace, debug, info, warn or error.
    pub log_level: String,
    /// Whether request headers are logged.
    pub debug_request_headers: bool,
    /// The version of the configuration file.
    pub config_version: String,
}

/// The version of the configuration file that this server writes.
pub open spec fn config_version_spec() -> Seq<char> {
    "1.2.0"@
}

/// The version of the configuration file that this server writes.
pub fn current_config_version() -> (v: &'static str)
    ensures
        v@ == config_version_spec(),
{
    "1.2.0"
}

/// `c` holds the default settings.
pub open spec fn is_default_config(c: ServerConfig) -> bool {
    &&& c.key@ == "peerjs"@
    &&& c.concurrent_limit == 5000
    &&& c.path@ == "/peerjs"@
    &&& !c.allow_discovery
    &&& c.alive_timeout == 60000
    &&& c.check_interval == 300
    &&& c.cleanup_out_msgs == 10000
    &&& c.expire_timeout == 5000
    &&& !c.tls_enabled
    &&& c.tls_cert_path@ == "cert.pem"@
    &&& c.tls_key_path@ == "key.pem"@
    &&& c.log_level@ == "info"@
    &&& !c.debug_request_headers
    &&& c.config_version@ == config_version_spec()
}

impl Default for ServerConfig {
    fn default() -> (c: Self)
        ensures
            is_default_config(c),
    {
        ServerConfig {
            key: "peerjs".to_string(),
            concurrent_limit: 5000,
            path: "/peerjs".to_string(),
            allow_discovery: false,
            alive_timeout: 60000,
            check_interval: 300,
            cleanup_out_msgs: 10000,
            expire_timeout: 5000,
            tls_enabled: false,
            tls_cert_path: "cert.pem".to_string(),
            tls_key_path: "key.pem".to_string(),
            log_level: "info".to_string(),
            debug_request_headers: false,
            config_version: current_config_version().to_string(),
        }
    }
}

/// The settings read from a configuration file, each one absent when the
/// file does not give it.
pub struct PartialConfig {
    pub key: Option<String>,
    pub concurrent_limit: Option<usize>,
    pub path: Option<String>,
    pub allow_discovery: Option<bool>,
    pub alive_timeout: Option<u64>,
    pub check_interval: Option<u64>,
    pub cleanup_out_msgs: Option<u64>,
    pub expire_timeout: Option<u64>,
    pub tls_enabled: Option<bool>,
    pub tls_cert_path: Option<String>,
    pub tls_key_path: Option<String>,
    pub log_level: Option<String>,
    pub debug_request_headers: Option<bool>,
    pub config_version: Option<String>,
}

/// The value given, or the default.
pub open spec fn given_or<T>(given: Option<T>, default: T) -> T {
    match given {
        Some(v) => v,
        None => default,
    }
}

/// The text given, or the default.
pub open spec fn given_text_or(given: Option<String>, default: Seq<char>) -> Seq<char> {
    match given {
        Some(v) => v@,
        None => default,
    }
}

/// `c` keeps every setting that `p` gives, takes the default for the
/// others, and has the current version.
pub open spec fn completes(p: PartialConfig, c: ServerConfig) -> bool {
    &&& c.key@ == given_text_or(p.key, "peerjs"@)
    &&& c.concurrent_limit == given_or(p.concurrent_limit, 5000usize)
    &&& c.path@ == given_text_or(p.path, "/peerjs"@)
    &&& c.allow_discovery == given_or(p.allow_discovery, false)
    &&& c.alive_timeout == given_or(p.alive_timeout, 60000u64)
    &&& c.check_interval == given_or(p.check_interval, 300u64)
    &&& c.cleanup_out_msgs == given_or(p.cleanup_out_msgs, 10000u64)
    &&& c.expire_timeout == given_or(p.expire_timeout, 5000u64)
    &&& c.tls_enabled == given_or(p.tls_enabled, false)
    &&& c.tls_cert_path@ == given_text_or(p.tls_cert_path, "cert.pem"@)
    &&& c.tls_key_path@ == given_text_or(p.tls_key_path, "key.pem"@)
    &&& c.log_level@ == given_text_or(p.log_level, "info"@)
    &&& c.debug_request_headers == given_or(p.debug_request_headers, false)
    &&& c.config_version@ == config_version_spec()
}

/// The text given, or a copy of the default.
fn text_or(given: Option<String>, default: &str) -> (r: String)
    ensures
        r@ == given_text_or(given, default@),
{
    match given {
        Some(v) => v,
        None => default.to_string(),
    }
}

impl PartialConfig {
    /// Whether the file is of another version than the current one (or
    /// gives none), and so is to be backed up and rewritten.
    pub fn needs_migration(&self) -> (b: bool)
        ensures
            b == !(self.config_version matches Some(v) && v@ == config_version_spec()),
    {
        match &self.config_version {
            Some(v) => {
                let current = current_config_version().to_string();
                !(*v == current)
            },
            None => true,
        }
    }
}

impl ServerConfig {
    /// The settings of a configuration file: those it gives, the defaults
    /// for the others, at the current version.
    pub fn from_partial(p: PartialConfig) -> (c: Self)
        ensures
            completes(p, c),
            match p.key {
                Some(v) => c.key@ == v@,
                None => c.key@ == "peerjs"@,
            },
            match p.concurrent_limit {
                Some(v) => c.concurrent_limit == v,
                None => c.concurrent_limit == 5000usize,
            },
            match p.path {
                Some(v) => c.path@ == v@,
                None => c.path@ == "/peerjs"@,
            },
            match p.allow_discovery {
                Some(v) => c.allow_discovery == v,
                None => c.allow_discovery == false,
            },
            match p.alive_timeout {
                Some(v) => c.alive_timeout == v,
                None => c.alive_timeout == 60000u64,
            },
            match p.check_interval {
                Some(v) => c.check_interval == v,
                None => c.check_interval == 300u64,
            },
            match p.cleanup_out_msgs {
                Some(v) => c.cleanup_out_msgs == v,
                None => c.cleanup_out_msgs == 10000u64,
            },
            match p.expire_timeout {
                Some(v) => c.expire_timeout == v,
                None => c.expire_timeout == 5000u64,
            },
            match p.tls_enabled {
                Some(v) => c.tls_enabled == v,
                None => c.tls_enabled == false,
            },
            match p.tls_cert_path {
                Some(v) => c.tls_cert_path@ == v@,
                None => c.tls_cert_path@ == "cert.pem"@,
            },
            match p.tls_key_path {
                Some(v) => c.tls_key_path@ == v@,
                None => c.tls_key_path@ == "key.pem"@,
            },
            match p.log_level {
                Some(v) => c.log_level@ == v@,
                None => c.log_level@ == "info"@,
            },
            match p.debug_request_headers {
                Some(v) => c.debug_request_headers == v,
                None => c.debug_request_headers == false,
            },
            c.config_version@ == config_version_spec(),
    {
        let PartialConfig {
            key,
            concurrent_limit,
            path,
            allow_discovery,
            alive_timeout,
            check_interval,
            cleanup_out_msgs,
            expire_timeout,
            tls_enabled,
            tls_cert_path,
            tls_key_path,
            log_level,
            debug_request_headers,
            config_version: _,
        } = p;
        ServerConfig {
            key: text_or(key, "peerjs"),
            concurrent_limit: match concurrent_limit {
                Some(v) => v,
                None => 5000,
            },
            path: text_or(path, "/peerjs"),
            allow_discovery: match allow_discovery {
                Some(v) => v,
                None => false,
            },
            alive_timeout: match alive_timeout {
                Some(v) => v,
                None => 60000,
            },
            check_interval: match check_interval {
                Some(v) => v,
                None => 300,
            },
            cleanup_out_msgs: match cleanup_out_msgs {
                Some(v) => v,
                None => 10000,
            },
            expire_timeout: match expire_timeout {
                Some(v) => v,
                None => 5000,
            },
            tls_enabled: match tls_enabled {
                Some(v) => v,
                None => false,
            },
            tls_cert_path: text_or(tls_cert_path, "cert.pem"),
            tls_key_path: text_or(tls_key_path, "key.pem"),
            log_level: text_or(log_level, "info"),
            debug_request_headers: match debug_request_headers {
                Some(v) => v,
                None => false,
            },
            config_version: current_config_version().to_string(),
        }
    }
}

/// The path the replaced file of an earlier version is kept under: the
/// file's path, `.backup.` and the time stamp.
pub fn backup_path(config_path: &str, stamp: &str) -> (p: String)
    ensures
        p@ == config_path@ + ".backup."@ + stamp@,
{
    let mut p = config_path.to_string();
    p.append(".backup.");
    p.append(stamp);
    p
}

/// The TOML form of a string value, as the `toml` crate writes it (a basic
/// or a literal string, with the escapes TOML needs).
pub uninterp spec fn toml_string(s: Seq<char>) -> Seq<char>;

/// `toml::Value::String` written by its `Display`: the TOML form of a
/// string value, named `toml_string` of the string.
#[verifier::external_body]
fn toml_value_text(s: &str) -> (r: String)
    ensures
        r@ == toml_string(s@),
{
    toml::Value::String(s.to_string()).to_string()
}

/// The text of a list of settings: for each, its comment lines, then a
/// line `key = value`.
pub open spec fn file_lines(s: Seq<(Seq<char>, Seq<char>, Seq<char>)>) -> Seq<char>
    decreases s.len(),
{
    if s.len() == 0 {
        Seq::empty()
    } else {
        file_lines(s.drop_last()) + s.last().0 + s.last().1 + " = "@ + s.last().2 + "\n"@
    }
}

/// The settings of the configuration file that holds `c`, in order: the
/// comment above each, its key, and its value as TOML text.
pub open spec fn settings_table(c: ServerConfig) -> Seq<(Seq<char>, Seq<char>, Seq<char>)> {
    seq![
        ("# ========================================\n# PeerJS Server Rust - 配置文件\n# ========================================\n# 配置文件版本: 1.2.0\n# ========================================\n\n# --------------------------\n# 基本配置\n# --------------------------\n\n# 配置文件版本（请勿手动修改）\n"@, "config_version"@, toml_string(c.config_version@)),
        ("\n# PeerJS 认证密钥（客户端连接时需要提供相同的 key）\n"@, "key"@, toml_string(c.key@)),
        ("\n# 最大并发连接数\n"@, "concurrent_limit"@, decimal_spec(c.concurrent_limit as nat)),
        ("\n# API 路由路径\n"@, "path"@, toml_string(c.path@)),
        ("\n# 是否允许列出所有在线客户端（listAllPeers）\n"@, "allow_discovery"@, bool_text(c.allow_discovery)),
        ("\n# --------------------------\n# 健康检查配置\n# --------------------------\n\n# 客户端存活超时（毫秒）\n"@, "alive_timeout"@, decimal_spec(c.alive_timeout as nat)),
        ("\n# 连接检查间隔（秒）\n"@, "check_interval"@, decimal_spec(c.check_interval as nat)),
        ("\n# 清理过期消息间隔（毫秒）\n"@, "cleanup_out_msgs"@, decimal_spec(c.cleanup_out_msgs as nat)),
        ("\n# 消息过期时间（毫秒）\n"@, "expire_timeout"@, decimal_spec(c.expire_timeout as nat)),
        ("\n# --------------------------\n# TLS/HTTPS 配置\n# --------------------------\n\n# 是否启用 TLS（HTTPS/WSS）\n"@, "tls_enabled"@, bool_text(c.tls_enabled)),
        ("\n# TLS 证书文件路径（示例: /etc/ssl/certs/server.crt 或 ./certs/fullchain.pem）\n"@, "tls_cert_path"@, toml_string(c.tls_cert_path@)),
        ("\n# TLS 私钥文件路径（示例: /etc/ssl/private/server.key 或 ./certs/privkey.pem）\n"@, "tls_key_path"@, toml_string(c.tls_key_path@)),
        ("\n# --------------------------\n# 日志配置\n# --------------------------\n\n# 日志级别: trace, debug, info, warn, error\n"@, "log_level"@, toml_string(c.log_level@)),
        ("\n# 是否打印请求头调试信息\n"@, "debug_request_headers"@, bool_text(c.debug_request_headers)),
    ]
}

/// The text of the configuration file that holds `c`: every setting,
/// each under a comment that says what it is.
pub open spec fn config_text(c: ServerConfig) -> Seq<char> {
    file_lines(settings_table(c))
}

/// The text `t` has a line `key = value` of its own.
pub open spec fn has_setting_line(t: Seq<char>, key: Seq<char>, value: Seq<char>) -> bool {
    exists|a: Seq<char>, b: Seq<char>| t == a + ("\n"@ + key + " = "@ + value + "\n"@) + b
}

/// A setting whose comment ends a line stands on a line of its own in the
/// text of the settings.
pub proof fn lemma_setting_line(s: Seq<(Seq<char>, Seq<char>, Seq<char>)>, j: int)
    requires
        0 <= j < s.len(),
        s[j].0.len() > 0,
        s[j].0.last() == '\n',
    ensures
        has_setting_line(file_lines(s), s[j].1, s[j].2),
    decreases s.len(),
{
    reveal_strlit("\n");
    let f = file_lines(s.drop_last());
    let e = s.last();
    let w = "\n"@ + s[j].1 + " = "@ + s[j].2 + "\n"@;
    if j == s.len() - 1 {
        let a = f + e.0.drop_last();
        let b = Seq::<char>::empty();
        assert(e.0 =~= e.0.drop_last() + "\n"@);
        assert(file_lines(s) =~= a + w + b);
    } else {
        assert(s.drop_last()[j] == s[j]);
        lemma_setting_line(s.drop_last(), j);
        let (a, b) = choose|a: Seq<char>, b: Seq<char>| f == a + w + b;
        let b2 = b + e.0 + e.1 + " = "@ + e.2 + "\n"@;
        assert(file_lines(s) =~= a + w + b2);
    }
}

/// The text of the configuration file written from `c` holds, for every
/// setting, a line of its own with that setting's key and that setting's
/// value, so that reading the file back gives `c` again.
pub proof fn law_config_file_lines(c: ServerConfig)
    ensures
        has_setting_line(config_text(c), "config_version"@, toml_string(c.config_version@)),
        has_setting_line(config_text(c), "key"@, toml_string(c.key@)),
        has_setting_line(config_text(c), "concurrent_limit"@, decimal_spec(c.concurrent_limit as nat)),
        has_setting_line(config_text(c), "path"@, toml_string(c.path@)),
        has_setting_line(config_text(c), "allow_discovery"@, bool_text(c.allow_discovery)),
        has_setting_line(config_text(c), "alive_timeout"@, decimal_spec(c.alive_timeout as nat)),
        has_setting_line(config_text(c), "check_interval"@, decimal_spec(c.check_interval as nat)),
        has_setting_line(config_text(c), "cleanup_out_msgs"@, decimal_spec(c.cleanup_out_msgs as nat)),
        has_setting_line(config_text(c), "expire_timeout"@, decimal_spec(c.expire_timeout as nat)),
        has_setting_line(config_text(c), "tls_enabled"@, bool_text(c.tls_enabled)),
        has_setting_line(config_text(c), "tls_cert_path"@, toml_string(c.tls_cert_path@)),
        has_setting_line(config_text(c), "tls_key_path"@, toml_string(c.tls_key_path@)),
        has_setting_line(config_text(c), "log_level"@, toml_string(c.log_level@)),
        has_setting_line(config_text(c), "debug_request_headers"@, bool_text(c.debug_request_headers)),
{
        reveal_strlit("# ========================================\n# PeerJS Server Rust - 配置文件\n# ========================================\n# 配置文件版本: 1.2.0\n# ========================================\n\n# --------------------------\n# 基本配置\n# --------------------------\n\n# 配置文件版本（请勿手动修改）\n");
        reveal_strlit("\n# PeerJS 认证密钥（客户端连接时需要提供相同的 key）\n");
        reveal_strlit("\n# 最大并发连接数\n");
        reveal_strlit("\n# API 路由路径\n");
        reveal_strlit("\n# 是否允许列出所有在线客户端（listAllPeers）\n");
        reveal_strlit("\n# --------------------------\n# 健康检查配置\n# --------------------------\n\n# 客户端存活超时（毫秒）\n");
        reveal_strlit("\n# 连接检查间隔（秒）\n");
        reveal_strlit("\n# 清理过期消息间隔（毫秒）\n");
        reveal_strlit("\n# 消息过期时间（毫秒）\n");
        reveal_strlit("\n# --------------------------\n# TLS/HTTPS 配置\n# --------------------------\n\n# 是否启用 TLS（HTTPS/WSS）\n");
        reveal_strlit("\n# TLS 证书文件路径（示例: /etc/ssl/certs/server.crt 或 ./certs/fullchain.pem）\n");
        reveal_strlit("\n# TLS 私钥文件路径（示例: /etc/ssl/private/server.key 或 ./certs/privkey.pem）\n");
        reveal_strlit("\n# --------------------------\n# 日志配置\n# --------------------------\n\n# 日志级别: trace, debug, info, warn, error\n");
        reveal_strlit("\n# 是否打印请求头调试信息\n");
    let s = settings_table(c);
    assert forall|j: int| 0 <= j < s.len() implies s[j].0.len() > 0 && s[j].0.last() == '\n' by {}
    lemma_setting_line(s, 0);
    lemma_setting_line(s, 1);
    lemma_setting_line(s, 2);
    lemma_setting_line(s, 3);
    lemma_setting_line(s, 4);
    lemma_setting_line(s, 5);
    lemma_setting_line(s, 6);
    lemma_setting_line(s, 7);
    lemma_setting_line(s, 8);
    lemma_setting_line(s, 9);
    lemma_setting_line(s, 10);
    lemma_setting_line(s, 11);
    lemma_setting_line(s, 12);
    lemma_setting_line(s, 13);
}

/// The views of a list of settings being written.
pub open spec fn entry_views(v: Seq<(&'static str, &'static str, String)>) -> Seq<
    (Seq<char>, Seq<char>, Seq<char>),
> {
    v.map_values(|e: (&'static str, &'static str, String)| (e.0@, e.1@, e.2@))
}

/// The text of the configuration file that holds `c`.
pub fn config_file_text(c: &ServerConfig) -> (t: String)
    ensures
        t@ == config_text(*c),
            has_setting_line(t@, "config_version"@, toml_string(c.config_version@)),
            has_setting_line(t@, "key"@, toml_string(c.key@)),
            has_setting_line(t@, "concurrent_limit"@, decimal_spec(c.concurrent_limit as nat)),
            has_setting_line(t@, "path"@, toml_string(c.path@)),
            has_setting_line(t@, "allow_discovery"@, bool_text(c.allow_discovery)),
            has_setting_line(t@, "alive_timeout"@, decimal_spec(c.alive_timeout as nat)),
            has_setting_line(t@, "check_interval"@, decimal_spec(c.check_interval as nat)),
            has_setting_line(t@, "cleanup_out_msgs"@, decimal_spec(c.cleanup_out_msgs as nat)),
            has_setting_line(t@, "expire_timeout"@, decimal_spec(c.expire_timeout as nat)),
            has_setting_line(t@, "tls_enabled"@, bool_text(c.tls_enabled)),
            has_setting_line(t@, "tls_cert_path"@, toml_string(c.tls_cert_path@)),
            has_setting_line(t@, "tls_key_path"@, toml_string(c.tls_key_path@)),
            has_setting_line(t@, "log_level"@, toml_string(c.log_level@)),
            has_setting_line(t@, "debug_request_headers"@, bool_text(c.debug_request_headers)),
{
    let entries: Vec<(&'static str, &'static str, String)> = vec![
        ("# ========================================\n# PeerJS Server Rust - 配置文件\n# ========================================\n# 配置文件版本: 1.2.0\n# ========================================\n\n# --------------------------\n# 基本配置\n# --------------------------\n\n# 配置文件版本（请勿手动修改）\n", "config_version", toml_value_text(c.config_version.as_str())),
        ("\n# PeerJS 认证密钥（客户端连接时需要提供相同的 key）\n", "key", toml_value_text(c.key.as_str())),
        ("\n# 最大并发连接数\n", "concurrent_limit", decimal(c.concurrent_limit as u64)),
        ("\n# API 路由路径\n", "path", toml_value_text(c.path.as_str())),
        ("\n# 是否允许列出所有在线客户端（listAllPeers）\n", "allow_discovery", bool_str(c.allow_discovery).to_string()),
        ("\n# --------------------------\n# 健康检查配置\n# --------------------------\n\n# 客户端存活超时（毫秒）\n", "alive_timeout", decimal(c.alive_timeout as u64)),
        ("\n# 连接检查间隔（秒）\n", "check_interval", decimal(c.check_interval as u64)),
        ("\n# 清理过期消息间隔（毫秒）\n", "cleanup_out_msgs", decimal(c.cleanup_out_msgs as u64)),
        ("\n# 消息过期时间（毫秒）\n", "expire_timeout", decimal(c.expire_timeout as u64)),
        ("\n# --------------------------\n# TLS/HTTPS 配置\n# --------------------------\n\n# 是否启用 TLS（HTTPS/WSS）\n", "tls_enabled", bool_str(c.tls_enabled).to_string()),
        ("\n# TLS 证书文件路径（示例: /etc/ssl/certs/server.crt 或 ./certs/fullchain.pem）\n", "tls_cert_path", toml_value_text(c.tls_cert_path.as_str())),
        ("\n# TLS 私钥文件路径（示例: /etc/ssl/private/server.key 或 ./certs/privkey.pem）\n", "tls_key_path", toml_value_text(c.tls_key_path.as_str())),
        ("\n# --------------------------\n# 日志配置\n# --------------------------\n\n# 日志级别: trace, debug, info, warn, error\n", "log_level", toml_value_text(c.log_level.as_str())),
        ("\n# 是否打印请求头调试信息\n", "debug_request_headers", bool_str(c.debug_request_headers).to_string()),
    ];
    proof {
        assert(entry_views(entries@) =~= settings_table(*c));
    }
    let mut t = String::new();
    let n = entries.len();
    let mut i: usize = 0;
    while i < n
        invariant
            n == entries@.len(),
            i <= n,
            entry_views(entries@) == settings_table(*c),
            t@ == file_lines(entry_views(entries@).take(i as int)),
        decreases n - i,
    {
        let ghost es = entry_views(entries@);
        t.append(entries[i].0);
        t.append(entries[i].1);
        t.append(" = ");
        t.append(entries[i].2.as_str());
        t.append("\n");
        proof {
            assert(es.take(i + 1).drop_last() =~= es.take(i as int));
            assert(es.take(i + 1).last() == es[i as int]);
        }
        i = i + 1;
    }
    proof {
        assert(entry_views(entries@).take(n as int) =~= entry_views(entries@));
        law_config_file_lines(*c);
    }
    t
}

} // verus!
