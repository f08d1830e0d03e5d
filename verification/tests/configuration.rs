use yunxi_webdisk::config::{
    decide_host_setting, starts_anchored, validate_host_setting, Config, ConfigError, HostSetting,
};

#[test]
fn defaults() {
    let config = Config::default_config();
    assert_eq!(config.ip, "0.0.0.0");
    assert_eq!(config.ipv6, "::");
    assert_eq!(config.port, 8080);
    assert_eq!(config.cwd, "data/www");
    assert!(!config.webdav.enabled);
    assert_eq!(config.webdav.users.len(), 1);
    let admin = config.webdav.users.get("admin").unwrap();
    assert_eq!(admin.password, "admin");
    assert_eq!(admin.permissions, "rwx");
}

#[test]
fn bind_addresses() {
    let mut config = Config::default_config();
    assert!(config.has_ipv6());
    assert_eq!(config.ipv4_bind_address(), "0.0.0.0:8080");
    assert_eq!(config.ipv6_bind_address(), ":::8080");
    assert_eq!(config.ipv6_display(), "[::]");
    config.ip = "example.com".to_string();
    config.ipv6 = "[::1]".to_string();
    config.port = 65535;
    assert_eq!(config.ipv4_bind_address(), "example.com:65535");
    assert_eq!(config.ipv6_bind_address(), "[::1]:65535");
    assert_eq!(config.ipv6_display(), "[::1]");
    config.ipv6 = String::new();
    assert!(!config.has_ipv6());
    assert_eq!(config.ipv6_display(), "[]");
    config.port = 1;
    assert_eq!(config.ipv4_bind_address(), "example.com:1");
}

fn accepted(key: &str, value: &str) -> HostSetting {
    match validate_host_setting(key, value) {
        Ok(setting) => setting,
        Err(e) => panic!("{} = {} was refused: {:?}", key, value, e),
    }
}

fn refused(key: &str, value: &str) -> ConfigError {
    match validate_host_setting(key, value) {
        Ok(_) => panic!("{} = {} was accepted", key, value),
        Err(e) => e,
    }
}

#[test]
fn address_is_an_ipv4_address_or_a_host_name() {
    assert!(matches!(accepted("ip", "127.0.0.1"), HostSetting::Ip(s) if s == "127.0.0.1"));
    assert!(matches!(accepted("ip", "example.com"), HostSetting::Ip(s) if s == "example.com"));
    assert_eq!(refused("ip", "1.2.3.4."), ConfigError::InvalidIp);
    assert_eq!(refused("ip", "host_name.com"), ConfigError::InvalidIp);
    assert_eq!(refused("ip", "localhost"), ConfigError::InvalidIp);
    assert_eq!(refused("ip", ""), ConfigError::InvalidIp);
    // Not an address, yet a well-formed host name.
    assert!(matches!(accepted("ip", "256.1.1.1"), HostSetting::Ip(_)));
}

#[test]
fn ipv6_is_an_address_or_no() {
    assert!(matches!(accepted("ipv6", "::1"), HostSetting::Ipv6(s) if s == "::1"));
    assert!(matches!(accepted("ipv6", "2001:db8::1"), HostSetting::Ipv6(s) if s == "2001:db8::1"));
    assert!(matches!(accepted("ipv6", "no"), HostSetting::Ipv6(s) if s.is_empty()));
    assert_eq!(refused("ipv6", "NO"), ConfigError::InvalidIpv6);
    assert_eq!(refused("ipv6", "1.2.3.4"), ConfigError::InvalidIpv6);
}

#[test]
fn port_lies_between_1_and_65535() {
    assert!(matches!(accepted("port", "80"), HostSetting::Port(80)));
    assert!(matches!(accepted("port", "65535"), HostSetting::Port(65535)));
    assert_eq!(refused("port", "0"), ConfigError::InvalidPort);
    assert_eq!(refused("port", "65536"), ConfigError::InvalidPort);
    assert_eq!(refused("port", "http"), ConfigError::InvalidPort);
}

#[test]
fn root_is_absolute_or_anchored() {
    assert!(matches!(accepted("cwd", "./www"), HostSetting::Cwd(s) if s == "./www"));
    assert!(matches!(accepted("cwd", "../www"), HostSetting::Cwd(s) if s == "../www"));
    assert_eq!(refused("cwd", "www"), ConfigError::InvalidPath);
    assert_eq!(refused("cwd", ""), ConfigError::InvalidPath);
    assert_eq!(refused("cwd", ".www"), ConfigError::InvalidPath);
    assert!(matches!(decide_host_setting("cwd", "anything", true), Ok(HostSetting::Cwd(s)) if s == "anything"));
    assert!(matches!(decide_host_setting("cwd", "anything", false), Err(ConfigError::InvalidPath)));
    let absolute = if std::path::Path::new("/srv/www").is_absolute() { "/srv/www" } else { "C:\\srv\\www" };
    assert!(matches!(accepted("cwd", absolute), HostSetting::Cwd(s) if s == absolute));
    assert!(starts_anchored("./"));
    assert!(starts_anchored("../"));
    assert!(!starts_anchored(".."));
    assert!(!starts_anchored("/."));
}

#[test]
fn unknown_fields_are_refused() {
    assert_eq!(refused("host", "x"), ConfigError::UnknownKey);
    assert_eq!(refused("IP", "127.0.0.1"), ConfigError::UnknownKey);
    assert_eq!(refused("", ""), ConfigError::UnknownKey);
}

#[test]
fn every_error_has_its_message() {
    assert_eq!(ConfigError::InvalidIp.message(), "必须是有效的IPv4地址（如 127.0.0.1）或域名（如 example.com）");
    assert_eq!(ConfigError::InvalidIpv6.message(), "必须是有效的IPv6地址（如 ::1 或 2001:db8::1）或 'no' 以禁用 IPv6");
    assert_eq!(ConfigError::InvalidPort.message(), "端口必须是1-65535之间的数字");
    assert_eq!(ConfigError::InvalidPath.message(), "路径必须是绝对路径或以 ./ 或 ../ 开头的相对路径");
    assert_eq!(ConfigError::UnknownKey.message(), "无效的配置项，只能是 ip、port 或 cwd");
}

#[test]
fn apply_changes_one_field() {
    let mut config = Config::default_config();
    config.apply(accepted("port", "9000"));
    assert_eq!(config.port, 9000);
    assert_eq!(config.ip, "0.0.0.0");
    config.apply(accepted("ip", "10.0.0.1"));
    assert_eq!(config.ip, "10.0.0.1");
    config.apply(accepted("ipv6", "no"));
    assert_eq!(config.ipv6, "");
    assert!(!config.has_ipv6());
    config.apply(accepted("cwd", "./files"));
    assert_eq!(config.cwd, "./files");
    assert_eq!(config.port, 9000);
    assert!(config.webdav.users.contains_key("admin"));
}
