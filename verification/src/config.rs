//! The configuration of the server, its defaults, and the changes that an
//! operator may make to the address, port and root directory.

use vstd::prelude::*;
use crate::auth::WebDavConfig;
use crate::text::{chars_of, decimal, push_decimal, push_str, str_eq, string_of};
use crate::users::{UserConfig, UserSpec, UserTable};
use crate::validate::{is_valid_domain, is_valid_ip, is_valid_ipv6, parse_port, port_of,
    valid_domain, valid_ipv4, valid_ipv6};

verus! {

/// The configuration of the server.
pub struct Config {
    /// The IPv4 address or host name to listen on.
    pub ip: String,
    /// The IPv6 address to listen on; empty where IPv6 is not used.
    pub ipv6: String,
    /// The port, from 1 to 65535.
    pub port: u16,
    /// The root directory of what is served.
    pub cwd: String,
    /// The WebDAV service and its users.
    pub webdav: WebDavConfig,
}

/// A change to one field of the configuration, already validated.
pub enum HostSetting {
    Ip(String),
    Ipv6(String),
    Port(u16),
    Cwd(String),
}

/// The mathematical content of a `HostSetting`.
pub enum HostSettingSpec {
    Ip(Seq<char>),
    Ipv6(Seq<char>),
    Port(u16),
    Cwd(Seq<char>),
}

impl View for HostSetting {
    type V = HostSettingSpec;

    open spec fn view(&self) -> HostSettingSpec {
        match self {
            HostSetting::Ip(s) => HostSettingSpec::Ip(s@),
            HostSetting::Ipv6(s) => HostSettingSpec::Ipv6(s@),
            HostSetting::Port(p) => HostSettingSpec::Port(*p),
            HostSetting::Cwd(s) => HostSettingSpec::Cwd(s@),
        }
    }
}

/// Why a value is not accepted for the configuration.
#[derive(Clone, Copy, Debug, PartialEq, Eq, Structural)]
pub enum ConfigError {
    /// Neither an IPv4 address nor a host name.
    InvalidIp,
    /// Neither an IPv6 address nor `no`.
    InvalidIpv6,
    /// Not a number from 1 to 65535.
    InvalidPort,
    /// Neither an absolute path nor one that begins with `./` or `../`.
    InvalidPath,
    /// No such field.
    UnknownKey,
}

impl ConfigError {
    /// The message shown to the operator.
    pub fn message(self) -> (text: &'static str)
        ensures
            text@ == match self {
                ConfigError::InvalidIp => "必须是有效的IPv4地址（如 127.0.0.1）或域名（如 example.com）"@,
                ConfigError::InvalidIpv6 => "必须是有效的IPv6地址（如 ::1 或 2001:db8::1）或 'no' 以禁用 IPv6"@,
                ConfigError::InvalidPort => "端口必须是1-65535之间的数字"@,
                ConfigError::InvalidPath => "路径必须是绝对路径或以 ./ 或 ../ 开头的相对路径"@,
                ConfigError::UnknownKey => "无效的配置项，只能是 ip、port 或 cwd"@,
            },
    {
        match self {
            ConfigError::InvalidIp => "必须是有效的IPv4地址（如 127.0.0.1）或域名（如 example.com）",
            ConfigError::InvalidIpv6 => "必须是有效的IPv6地址（如 ::1 或 2001:db8::1）或 'no' 以禁用 IPv6",
            ConfigError::InvalidPort => "端口必须是1-65535之间的数字",
            ConfigError::InvalidPath => "路径必须是绝对路径或以 ./ 或 ../ 开头的相对路径",
            ConfigError::UnknownKey => "无效的配置项，只能是 ip、port 或 cwd",
        }
    }
}

/// Whether a relative path says where it starts: with `./` or `../`.
pub open spec fn is_anchored(path: Seq<char>) -> bool {
    seq!['.', '/'].is_prefix_of(path) || seq!['.', '.', '/'].is_prefix_of(path)
}

/// What the pair `key`, `value` changes in the configuration, or why it is
/// not accepted. `absolute` says whether `value` is an absolute path on
/// this platform.
pub open spec fn host_setting(key: Seq<char>, value: Seq<char>, absolute: bool) -> Result<
    HostSettingSpec,
    ConfigError,
> {
    if key == "ip"@ {
        if valid_ipv4(value) || valid_domain(value) {
            Ok(HostSettingSpec::Ip(value))
        } else {
            Err(ConfigError::InvalidIp)
        }
    } else if key == "ipv6"@ {
        if value == "no"@ {
            Ok(HostSettingSpec::Ipv6(Seq::<char>::empty()))
        } else if valid_ipv6(value) {
            Ok(HostSettingSpec::Ipv6(value))
        } else {
            Err(ConfigError::InvalidIpv6)
        }
    } else if key == "port"@ {
        match port_of(value) {
            Some(port) => Ok(HostSettingSpec::Port(port as u16)),
            None => Err(ConfigError::InvalidPort),
        }
    } else if key == "cwd"@ {
        if absolute || is_anchored(value) {
            Ok(HostSettingSpec::Cwd(value))
        } else {
            Err(ConfigError::InvalidPath)
        }
    } else {
        Err(ConfigError::UnknownKey)
    }
}

/// Whether a result holds what `expected` describes.
pub open spec fn setting_is(
    result: Result<HostSetting, ConfigError>,
    expected: Result<HostSettingSpec, ConfigError>,
) -> bool {
    match (result, expected) {
        (Ok(setting), Ok(spec)) => setting@ == spec,
        (Err(e), Err(f)) => e == f,
        _ => false,
    }
}

/// `Path::is_absolute`: whether a path names a place without regard to the
/// current directory. What counts as absolute differs between platforms,
/// so nothing is claimed of the result.
#[verifier::external_body]
fn path_is_absolute(value: &str) -> bool {
    std::path::Path::new(value).is_absolute()
}

/// Whether `path` begins with `./` or `../`.
pub fn starts_anchored(path: &str) -> (anchored: bool)
    ensures
        anchored == is_anchored(path@),
{
    let c = chars_of(path);
    let one = c.len() >= 2 && c[0] == '.' && c[1] == '/';
    let two = c.len() >= 3 && c[0] == '.' && c[1] == '.' && c[2] == '/';
    proof {
        let a = seq!['.', '/'];
        let b = seq!['.', '.', '/'];
        if one {
            assert(path@.subrange(0, 2) =~= a);
        }
        if two {
            assert(path@.subrange(0, 3) =~= b);
        }
        if a.is_prefix_of(path@) {
            assert(a[0] == path@[0] && a[1] == path@[1]);
        }
        if b.is_prefix_of(path@) {
            assert(b[0] == path@[0] && b[1] == path@[1] && b[2] == path@[2]);
        }
    }
    one || two
}

/// Validates one change to the configuration, given whether `value` is an
/// absolute path.
pub fn decide_host_setting(key: &str, value: &str, absolute: bool) -> (result: Result<
    HostSetting,
    ConfigError,
>)
    ensures
        setting_is(result, host_setting(key@, value@, absolute)),
{
    if str_eq(key, "ip") {
        if is_valid_ip(value) || is_valid_domain(value) {
            Ok(HostSetting::Ip(value.to_owned()))
        } else {
            Err(ConfigError::InvalidIp)
        }
    } else if str_eq(key, "ipv6") {
        if str_eq(value, "no") {
            Ok(HostSetting::Ipv6(String::new()))
        } else if is_valid_ipv6(value) {
            Ok(HostSetting::Ipv6(value.to_owned()))
        } else {
            Err(ConfigError::InvalidIpv6)
        }
    } else if str_eq(key, "port") {
        match parse_port(value) {
            Some(port) => Ok(HostSetting::Port(port)),
            None => Err(ConfigError::InvalidPort),
        }
    } else if str_eq(key, "cwd") {
        if absolute || starts_anchored(value) {
            Ok(HostSetting::Cwd(value.to_owned()))
        } else {
            Err(ConfigError::InvalidPath)
        }
    } else {
        Err(ConfigError::UnknownKey)
    }
}

/// Validates one change to the configuration. Only for the root directory
/// does the outcome depend on the platform, through what it takes for an
/// absolute path.
pub fn validate_host_setting(key: &str, value: &str) -> (result: Result<HostSetting, ConfigError>)
    ensures
        exists|absolute: bool| setting_is(result, #[trigger] host_setting(key@, value@, absolute)),
        key@ != "cwd"@ ==> setting_is(result, host_setting(key@, value@, false)),
        key@ == "cwd"@ && is_anchored(value@) ==> setting_is(
            result,
            host_setting(key@, value@, false),
        ),
{
    let absolute = path_is_absolute(value);
    let result = decide_host_setting(key, value, absolute);
    assert(setting_is(result, host_setting(key@, value@, absolute)));
    result
}

impl Config {
    /// The configuration written on first run: every IPv4 and IPv6
    /// address, port 8080, `data/www` as root, WebDAV off, and one user
    /// `admin` with password `admin` and every permission.
    pub fn default_config() -> (config: Config)
        ensures
            config.ip@ == "0.0.0.0"@,
            config.ipv6@ == "::"@,
            config.port == 8080,
            config.cwd@ == "data/www"@,
            !config.webdav.enabled,
            config.webdav.users@ == Map::<Seq<char>, UserSpec>::empty().insert(
                "admin"@,
                UserSpec { password: "admin"@, permissions: "rwx"@ },
            ),
    {
        let mut users = UserTable::new();
        users.insert("admin", UserConfig::new("admin", "rwx"));
        Config {
            ip: "0.0.0.0".to_owned(),
            ipv6: "::".to_owned(),
            port: 8080,
            cwd: "data/www".to_owned(),
            webdav: WebDavConfig { enabled: false, users },
        }
    }

    /// Whether an IPv6 listener is wanted.
    pub fn has_ipv6(&self) -> (yes: bool)
        ensures
            yes == (self.ipv6@.len() > 0),
    {
        !self.ipv6.as_str().is_empty()
    }

    /// The address that the IPv4 listener binds: host, colon, port.
    pub fn ipv4_bind_address(&self) -> (address: String)
        ensures
            address@ == self.ip@ + seq![':'] + decimal(self.port as nat),
    {
        let mut out: Vec<char> = Vec::new();
        push_str(&mut out, self.ip.as_str());
        out.push(':');
        push_decimal(&mut out, self.port as u128);
        string_of(out.as_slice())
    }

    /// The address that the IPv6 listener binds: host, colon, port.
    pub fn ipv6_bind_address(&self) -> (address: String)
        ensures
            address@ == self.ipv6@ + seq![':'] + decimal(self.port as nat),
    {
        let mut out: Vec<char> = Vec::new();
        push_str(&mut out, self.ipv6.as_str());
        out.push(':');
        push_decimal(&mut out, self.port as u128);
        string_of(out.as_slice())
    }

    /// The IPv6 address as shown in a URL: in square brackets, unless it
    /// is written with them already.
    pub fn ipv6_display(&self) -> (shown: String)
        ensures
            shown@ == if self.ipv6@.len() > 0 && self.ipv6@[0] == '[' {
                self.ipv6@
            } else {
                seq!['['] + self.ipv6@ + seq![']']
            },
    {
        let c = chars_of(self.ipv6.as_str());
        if c.len() > 0 && c[0] == '[' {
            self.ipv6.clone()
        } else {
            let mut out: Vec<char> = Vec::new();
            out.push('[');
            push_str(&mut out, self.ipv6.as_str());
            out.push(']');
            string_of(out.as_slice())
        }
    }

    /// Makes a validated change.
    pub fn apply(&mut self, setting: HostSetting)
        ensures
            final(self).ip@ == (if let HostSettingSpec::Ip(s) = setting@ { s } else { old(self).ip@ }),
            final(self).ipv6@ == (if let HostSettingSpec::Ipv6(s) = setting@ { s } else { old(self).ipv6@ }),
            final(self).port == (if let HostSettingSpec::Port(p) = setting@ { p } else { old(self).port }),
            final(self).cwd@ == (if let HostSettingSpec::Cwd(s) = setting@ { s } else { old(self).cwd@ }),
            final(self).webdav == old(self).webdav,
    {
        match setting {
            HostSetting::Ip(s) => {
                self.ip = s;
            },
            HostSetting::Ipv6(s) => {
                self.ipv6 = s;
            },
            HostSetting::Port(p) => {
                self.port = p;
            },
            HostSetting::Cwd(s) => {
                self.cwd = s;
            },
        }
    }
}

/// Whatever is accepted for the address is an IPv4 address or a host name,
/// whatever is accepted for the port lies between 1 and 65535, and a value
/// under an unknown key is never accepted.
pub proof fn lemma_accepted_settings_are_valid(key: Seq<char>, value: Seq<char>, absolute: bool)
    ensures
        host_setting(key, value, absolute) matches Ok(HostSettingSpec::Ip(s)) ==> s == value && (
        valid_ipv4(s) || valid_domain(s)),
        host_setting(key, value, absolute) matches Ok(HostSettingSpec::Ipv6(s)) ==> s.len() == 0
            || (s == value && valid_ipv6(s)),
        host_setting(key, value, absolute) matches Ok(HostSettingSpec::Port(p)) ==> 1 <= p <= 65535,
        host_setting(key, value, absolute) matches Ok(HostSettingSpec::Cwd(s)) ==> s == value && (
        absolute || is_anchored(s)),
        key != "ip"@ && key != "ipv6"@ && key != "port"@ && key != "cwd"@ ==> host_setting(
            key,
            value,
            absolute,
        ) == Err::<HostSettingSpec, ConfigError>(ConfigError::UnknownKey),
{
    reveal_strlit("ip");
    reveal_strlit("ipv6");
    reveal_strlit("port");
    reveal_strlit("cwd");
}

} // verus!
