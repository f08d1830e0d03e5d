use yunxi_webdisk::admin::{
    apply_webdav_command, run_webdav_command, split_target, wants_generated_password, WebdavReport,
};
use yunxi_webdisk::auth::WebDavConfig;
use yunxi_webdisk::passwords::{apply_case, generate_random_password, password_from};
use yunxi_webdisk::users::{UserConfig, UserTable};

fn args(rest: &[&str]) -> Vec<String> {
    let mut all = vec!["webdisk".to_string(), "--webdav".to_string()];
    all.extend(rest.iter().map(|s| s.to_string()));
    all
}

fn service() -> WebDavConfig {
    let mut users = UserTable::new();
    users.insert("admin", UserConfig::new("admin", "rwx"));
    WebDavConfig { enabled: false, users }
}

#[test]
fn switching_on_and_off() {
    let mut config = service();
    assert!(matches!(apply_webdav_command(&mut config, &args(&["true"]), ""), WebdavReport::Enabled));
    assert!(config.enabled);
    assert!(matches!(apply_webdav_command(&mut config, &args(&["false"]), ""), WebdavReport::Disabled));
    assert!(!config.enabled);
    assert_eq!(config.users.len(), 1);
}

#[test]
fn no_command_shows_the_status() {
    let mut config = service();
    let report = apply_webdav_command(&mut config, &args(&[]), "");
    assert!(matches!(report, WebdavReport::Status));
    assert!(report.persists());
    assert!(!config.enabled);
    assert_eq!(config.users.len(), 1);
}

#[test]
fn add_with_password_and_permissions() {
    let mut config = service();
    let report = apply_webdav_command(&mut config, &args(&["add", "alice:rw", "secret"]), "unused00");
    match report {
        WebdavReport::Added { name, password, permissions } => {
            assert_eq!(name, "alice");
            assert_eq!(password, "secret");
            assert_eq!(permissions, "rw");
        }
        other => panic!("{:?}", other),
    }
    let alice = config.users.get("alice").unwrap();
    assert_eq!(alice.password, "secret");
    assert_eq!(alice.permissions, "rw");
}

#[test]
fn add_defaults_to_read_only_and_a_given_random_password() {
    let mut config = service();
    let report = apply_webdav_command(&mut config, &args(&["add", "bob"]), "Ab3dEf9h");
    assert!(matches!(report, WebdavReport::Added { ref password, ref permissions, .. }
        if password == "Ab3dEf9h" && permissions == "r"));
    let bob = config.users.get("bob").unwrap();
    assert_eq!(bob.password, "Ab3dEf9h");
    assert_eq!(bob.permissions, "r");
}

#[test]
fn add_refuses_other_permission_letters() {
    let mut config = service();
    let report = apply_webdav_command(&mut config, &args(&["add", "eve:rz", "pw"]), "");
    assert!(matches!(report, WebdavReport::InvalidPermissions));
    assert!(!report.persists());
    assert!(!config.users.contains_key("eve"));
    assert_eq!(config.users.len(), 1);
}

#[test]
fn add_leaves_an_existing_user_alone() {
    let mut config = service();
    let report = apply_webdav_command(&mut config, &args(&["add", "admin:r", "other"]), "");
    assert!(matches!(report, WebdavReport::AlreadyExists { ref name } if name == "admin"));
    let admin = config.users.get("admin").unwrap();
    assert_eq!(admin.password, "admin");
    assert_eq!(admin.permissions, "rwx");
}

#[test]
fn add_and_del_need_a_name() {
    let mut config = service();
    assert!(matches!(apply_webdav_command(&mut config, &args(&["add"]), ""), WebdavReport::NameMissing));
    assert!(matches!(apply_webdav_command(&mut config, &args(&["del"]), ""), WebdavReport::RemoveNameMissing));
    assert_eq!(config.users.len(), 1);
}

#[test]
fn del_removes_a_user() {
    let mut config = service();
    assert!(matches!(
        apply_webdav_command(&mut config, &args(&["del", "nobody"]), ""),
        WebdavReport::NotFound { ref name } if name == "nobody"
    ));
    assert!(matches!(
        apply_webdav_command(&mut config, &args(&["del", "admin"]), ""),
        WebdavReport::Removed { ref name } if name == "admin"
    ));
    assert!(config.users.is_empty());
}

#[test]
fn permissions_and_password_together() {
    let mut config = service();
    assert!(matches!(
        apply_webdav_command(&mut config, &args(&["admin:r", "new"]), ""),
        WebdavReport::Replaced { ref name, ref permissions } if name == "admin" && permissions == "r"
    ));
    assert_eq!(config.users.get("admin").unwrap().password, "new");
    assert_eq!(config.users.get("admin").unwrap().permissions, "r");
    assert!(matches!(
        apply_webdav_command(&mut config, &args(&["carol:rx", "pw"]), ""),
        WebdavReport::Created { ref name, ref permissions } if name == "carol" && permissions == "rx"
    ));
    assert_eq!(config.users.get("carol").unwrap().password, "pw");
}

#[test]
fn permissions_alone_keep_the_password() {
    let mut config = service();
    assert!(matches!(
        apply_webdav_command(&mut config, &args(&["admin:w"]), ""),
        WebdavReport::PermissionsSet { ref name, ref permissions } if name == "admin" && permissions == "w"
    ));
    assert_eq!(config.users.get("admin").unwrap().password, "admin");
    assert_eq!(config.users.get("admin").unwrap().permissions, "w");
    assert!(matches!(
        apply_webdav_command(&mut config, &args(&["ghost:w"]), ""),
        WebdavReport::NotFound { ref name } if name == "ghost"
    ));
    assert!(matches!(
        apply_webdav_command(&mut config, &args(&["admin:rq"]), ""),
        WebdavReport::InvalidPermissions
    ));
    assert_eq!(config.users.get("admin").unwrap().permissions, "w");
}

#[test]
fn password_alone_keeps_the_permissions() {
    let mut config = service();
    assert!(matches!(
        apply_webdav_command(&mut config, &args(&["admin", "fresh"]), ""),
        WebdavReport::PasswordSet { ref name } if name == "admin"
    ));
    assert_eq!(config.users.get("admin").unwrap().password, "fresh");
    assert_eq!(config.users.get("admin").unwrap().permissions, "rwx");
    assert!(matches!(
        apply_webdav_command(&mut config, &args(&["ghost", "pw"]), ""),
        WebdavReport::NotFound { .. }
    ));
    assert!(matches!(apply_webdav_command(&mut config, &args(&["admin"]), ""), WebdavReport::InvalidCommand));
}

#[test]
fn a_target_is_cut_at_its_colons() {
    assert_eq!(split_target("alice"), ("alice".to_string(), None));
    assert_eq!(split_target("alice:rw"), ("alice".to_string(), Some("rw".to_string())));
    assert_eq!(split_target("alice:"), ("alice".to_string(), Some(String::new())));
    assert_eq!(split_target(":r"), (String::new(), Some("r".to_string())));
    assert_eq!(split_target("a:r:x"), ("a".to_string(), Some("r".to_string())));
}

#[test]
fn a_password_is_generated_only_for_a_new_user_without_one() {
    let config = service();
    assert!(wants_generated_password(&config.users, &args(&["add", "bob"])));
    assert!(wants_generated_password(&config.users, &args(&["add", "bob:rw"])));
    assert!(!wants_generated_password(&config.users, &args(&["add", "bob:rq"])));
    assert!(!wants_generated_password(&config.users, &args(&["add", "admin"])));
    assert!(!wants_generated_password(&config.users, &args(&["add", "bob", "pw"])));
    assert!(!wants_generated_password(&config.users, &args(&["add"])));
    assert!(!wants_generated_password(&config.users, &args(&["del", "bob"])));
    assert!(!wants_generated_password(&config.users, &args(&["bob", "pw"])));
}

#[test]
fn run_generates_a_password_when_none_is_given() {
    let mut config = service();
    let report = run_webdav_command(&mut config, &args(&["add", "dave:rw"]));
    match report {
        WebdavReport::Added { name, password, permissions } => {
            assert_eq!(name, "dave");
            assert_eq!(permissions, "rw");
            assert_eq!(password.chars().count(), 8);
            assert!(password.chars().all(|c| c.is_ascii_alphanumeric()));
            assert_eq!(config.users.get("dave").unwrap().password, password);
        }
        other => panic!("{:?}", other),
    }
    let report = run_webdav_command(&mut config, &args(&["add", "erin", "chosen"]));
    assert!(matches!(report, WebdavReport::Added { ref password, .. } if password == "chosen"));
}

#[test]
fn generated_passwords_are_eight_letters_and_digits() {
    let mut seen = std::collections::HashSet::new();
    for _ in 0..200 {
        let password = generate_random_password();
        assert_eq!(password.len(), 8);
        assert!(password.chars().all(|c| c.is_ascii_alphanumeric()));
        seen.insert(password);
    }
    assert!(seen.len() > 150);
}

#[test]
fn case_is_applied_to_letters_only() {
    assert_eq!(apply_case(b'a', true), b'A');
    assert_eq!(apply_case(b'z', true), b'Z');
    assert_eq!(apply_case(b'A', true), b'A');
    assert_eq!(apply_case(b'A', false), b'a');
    assert_eq!(apply_case(b'Z', false), b'z');
    assert_eq!(apply_case(b'q', false), b'q');
    assert_eq!(apply_case(b'7', true), b'7');
    assert_eq!(apply_case(b'7', false), b'7');
    for b in 0..=255u8 {
        assert_eq!(apply_case(b, true), b.to_ascii_uppercase());
        assert_eq!(apply_case(b, false), b.to_ascii_lowercase());
    }
    assert_eq!(password_from(&[(b'a', true), (b'B', false), (b'3', true), (b'z', false)]), "Ab3z");
    assert_eq!(password_from(&[]), "");
}
