use yunxi_webdisk::users::{has_permission, is_valid_permissions, UserConfig, UserTable};

#[test]
fn permission_strings_hold_only_r_w_x() {
    assert!(is_valid_permissions(""));
    assert!(is_valid_permissions("r"));
    assert!(is_valid_permissions("rwx"));
    assert!(is_valid_permissions("xwr"));
    assert!(is_valid_permissions("rrw"));
    assert!(!is_valid_permissions("rwz"));
    assert!(!is_valid_permissions("R"));
    assert!(!is_valid_permissions("r w"));
    assert!(!is_valid_permissions("读"));
}

#[test]
fn a_capability_is_granted_when_its_letter_occurs() {
    assert!(has_permission("rw", 'r'));
    assert!(has_permission("rw", 'w'));
    assert!(!has_permission("rw", 'x'));
    assert!(has_permission("wwr", 'r'));
    assert!(!has_permission("", 'r'));
}

#[test]
fn a_new_table_is_empty() {
    let table = UserTable::new();
    assert!(table.is_empty());
    assert_eq!(table.len(), 0);
    assert!(!table.contains_key("admin"));
    assert!(table.get("admin").is_none());
}

#[test]
fn insert_then_get() {
    let mut table = UserTable::new();
    assert!(table.insert("alice", UserConfig::new("pw", "r")).is_none());
    assert!(table.contains_key("alice"));
    assert!(!table.contains_key("Alice"));
    let user = table.get("alice").unwrap();
    assert_eq!(user.password, "pw");
    assert_eq!(user.permissions, "r");
    assert_eq!(table.len(), 1);
    assert!(!table.is_empty());
}

#[test]
fn insert_replaces_and_returns_the_old_record() {
    let mut table = UserTable::new();
    table.insert("alice", UserConfig::new("one", "r"));
    let old = table.insert("alice", UserConfig::new("two", "rw")).unwrap();
    assert_eq!(old.password, "one");
    assert_eq!(old.permissions, "r");
    assert_eq!(table.len(), 1);
    assert_eq!(table.get("alice").unwrap().password, "two");
    assert_eq!(table.get("alice").unwrap().permissions, "rw");
}

#[test]
fn remove_takes_the_user_out() {
    let mut table = UserTable::new();
    table.insert("alice", UserConfig::new("a", "r"));
    table.insert("bob", UserConfig::new("b", "rw"));
    assert!(table.remove("carol").is_none());
    let gone = table.remove("alice").unwrap();
    assert_eq!(gone.password, "a");
    assert!(!table.contains_key("alice"));
    assert!(table.contains_key("bob"));
    assert_eq!(table.len(), 1);
    assert!(table.remove("alice").is_none());
}

#[test]
fn names_come_in_ascending_order() {
    let mut table = UserTable::new();
    for name in ["mallory", "bob", "alice", "Zed", "bobby", "", "é", "b"] {
        table.insert(name, UserConfig::new(name, "r"));
    }
    let mut names: Vec<String> = Vec::new();
    for i in 0..table.len() {
        names.push(table.name_at(i).to_string());
        assert_eq!(table.config_at(i).password, table.name_at(i));
    }
    let mut expected: Vec<String> =
        ["mallory", "bob", "alice", "Zed", "bobby", "", "é", "b"].iter().map(|s| s.to_string()).collect();
    expected.sort();
    assert_eq!(names, expected);
}

#[test]
fn a_copy_holds_the_same_users() {
    let mut table = UserTable::new();
    table.insert("alice", UserConfig::new("a", "r"));
    table.insert("bob", UserConfig::new("b", "rw"));
    let mut copy = table.duplicate();
    assert_eq!(copy.len(), 2);
    assert_eq!(copy.get("bob").unwrap().permissions, "rw");
    copy.remove("bob");
    assert!(table.contains_key("bob"));
}
