use namidb_server::auth::{
    constant_time_eq, AuthConfig, AuthToken, FileReload, Principal, Role, TokenFileEntry,
    TokenFileRead,
};

fn token(name: &str, secret: &str, role: Role, namespaces: Option<Vec<&str>>) -> AuthToken {
    AuthToken {
        name: name.to_string(),
        secret: secret.to_string(),
        role,
        namespaces: namespaces.map(|list| list.iter().map(|s| s.to_string()).collect()),
    }
}

fn entry(name: Option<&str>, secret: &str, role: Option<Role>) -> TokenFileEntry {
    TokenFileEntry {
        name: name.map(|s| s.to_string()),
        token: secret.to_string(),
        role,
        namespaces: None,
    }
}

#[test]
fn open_config_has_no_tokens() {
    let c = AuthConfig::open();
    assert!(c.is_open());
    assert_eq!(c.role_for("anything"), None);
}

#[test]
fn single_token_grants_read_write() {
    let c = AuthConfig::single_read_write("s3cret");
    assert!(!c.is_open());
    assert_eq!(c.role_for("s3cret"), Some(Role::ReadWrite));
    assert_eq!(c.role_for("wrong"), None);
}

#[test]
fn role_for_in_enforces_namespace_scope() {
    let c = AuthConfig::from_tokens(vec![
        token("acme", "acme-key", Role::ReadWrite, Some(vec!["acme"])),
        token("beta", "beta-key", Role::ReadOnly, Some(vec!["beta"])),
        token("any", "any-key", Role::ReadWrite, None),
    ]);
    assert_eq!(c.role_for_in("acme-key", "acme"), Some(Role::ReadWrite));
    assert_eq!(c.role_for_in("acme-key", "beta"), None);
    assert_eq!(c.role_for_in("beta-key", "beta"), Some(Role::ReadOnly));
    assert_eq!(c.role_for_in("beta-key", "acme"), None);
    assert_eq!(c.role_for_in("any-key", "acme"), Some(Role::ReadWrite));
    assert_eq!(c.role_for_in("any-key", "beta"), Some(Role::ReadWrite));
    assert_eq!(c.role_for_in("any-key", "zzz"), Some(Role::ReadWrite));
    assert_eq!(c.role_for("acme-key"), Some(Role::ReadWrite));
    assert_eq!(c.role_for("beta-key"), Some(Role::ReadOnly));
    assert_eq!(c.role_for_in("nope", "acme"), None);
}

#[test]
fn role_for_distinguishes_read_only_and_read_write() {
    let c = AuthConfig::from_tokens(vec![
        token("rw", "write-key", Role::ReadWrite, None),
        token("ro", "read-key", Role::ReadOnly, None),
    ]);
    assert_eq!(c.role_for("write-key"), Some(Role::ReadWrite));
    assert_eq!(c.role_for("read-key"), Some(Role::ReadOnly));
    assert_eq!(c.role_for("nope"), None);
    assert_eq!(c.len(), 2);
}

#[test]
fn load_file_parses_roles_and_defaults() {
    let read = TokenFileRead::Parsed(vec![
        entry(Some("ci"), "k1", Some(Role::ReadWrite)),
        entry(None, "k2", Some(Role::ReadOnly)),
        entry(None, "k3", None),
    ]);
    let c = AuthConfig::load_file("tokens.json", read).unwrap();
    assert_eq!(c.role_for("k1"), Some(Role::ReadWrite));
    assert_eq!(c.role_for("k2"), Some(Role::ReadOnly));
    assert_eq!(c.role_for("k3"), Some(Role::ReadWrite));
    assert_eq!(c.principal_for("k1").unwrap().subject, "ci");
    assert_eq!(c.principal_for("k2").unwrap().subject, "token-1");
}

#[test]
fn load_file_rejects_empty_token_set() {
    assert!(AuthConfig::load_file("tokens.json", TokenFileRead::Parsed(vec![])).is_err());
}

#[test]
fn load_file_reports_what_is_wrong() {
    let unreadable = TokenFileRead::Unreadable("no such file".to_string());
    assert!(AuthConfig::load_file("t.json", unreadable)
        .err()
        .unwrap()
        .contains("no such file"));
    let malformed = TokenFileRead::Malformed("eof".to_string());
    assert!(AuthConfig::load_file("t.json", malformed)
        .err()
        .unwrap()
        .contains("eof"));
    let empty_secret = TokenFileRead::Parsed(vec![entry(Some("x"), "", None)]);
    assert!(AuthConfig::load_file("t.json", empty_secret).is_err());
}

#[test]
fn reload_swaps_token_set() {
    let first = TokenFileRead::Parsed(vec![entry(Some("old"), "old-key", Some(Role::ReadWrite))]);
    let mut c = AuthConfig::load_file("t.json", first).unwrap();
    assert_eq!(c.role_for("old-key"), Some(Role::ReadWrite));
    let second = TokenFileRead::Parsed(vec![entry(Some("new"), "new-key", Some(Role::ReadOnly))]);
    assert_eq!(c.reload_from("t.json", second).unwrap(), 1);
    assert_eq!(c.role_for("new-key"), Some(Role::ReadOnly));
    assert_eq!(c.role_for("old-key"), None, "revoked token must stop");
}

#[test]
fn reload_keeps_old_set_on_malformed_file() {
    let first = TokenFileRead::Parsed(vec![entry(Some("good"), "good-key", None)]);
    let mut c = AuthConfig::load_file("t.json", first).unwrap();
    for bad in vec![
        TokenFileRead::Malformed("truncated".to_string()),
        TokenFileRead::Parsed(vec![]),
        TokenFileRead::Parsed(vec![entry(Some("empty"), "", None)]),
    ] {
        assert!(c.reload_from("t.json", bad).is_err());
        assert_eq!(c.role_for("good-key"), Some(Role::ReadWrite));
        assert!(!c.is_open(), "a bad reload must never open the server");
    }
}

#[test]
fn later_token_with_the_same_secret_wins() {
    let c = AuthConfig::from_tokens(vec![
        token("first", "k", Role::ReadWrite, None),
        token("second", "k", Role::ReadOnly, None),
    ]);
    assert_eq!(c.principal_for("k").unwrap().subject, "second");
    assert_eq!(c.role_for("k"), Some(Role::ReadOnly));
}

#[test]
fn empty_presented_secret_is_granted_nothing() {
    let c = AuthConfig::single_read_write("s3cret");
    assert_eq!(c.role_for(""), None);
}

#[test]
fn constant_time_comparison_tells_equal_from_different() {
    assert!(constant_time_eq("abc".as_bytes(), "abc".as_bytes()));
    assert!(!constant_time_eq("abc".as_bytes(), "abd".as_bytes()));
    assert!(!constant_time_eq("abc".as_bytes(), "ab".as_bytes()));
    assert!(constant_time_eq("".as_bytes(), "".as_bytes()));
}

#[test]
fn reload_is_due_by_content_and_retried_after_a_refusal() {
    let mut poll = FileReload::new();
    let bytes: Vec<u8> = vec![1, 2, 3];
    assert!(poll.due(&bytes));
    poll.note(vec![1, 2, 3], false);
    assert!(poll.due(&bytes), "refused content is tried again");
    poll.note(vec![1, 2, 3], true);
    assert!(!poll.due(&bytes));
    assert!(poll.due(&vec![1, 2, 4]));
}

#[test]
fn anonymous_principal_may_write_and_has_no_groups() {
    let p = Principal::anonymous_rw();
    assert_eq!(p.subject, "anonymous");
    assert!(p.allows_write());
    assert!(!p.in_group("admins"));
}

#[test]
fn role_and_principal_agree_over_one_answer() {
    let config = AuthConfig::from_tokens(vec![
        token("first", "k", Role::ReadOnly, None),
        token("second", "k", Role::ReadWrite, None),
    ]);
    let web = || Some(Principal {
        subject: "alice".to_string(),
        role: Role::ReadOnly,
        groups: vec!["eng".to_string()],
    });
    assert_eq!(config.resolve(web(), "k", "").unwrap().subject, "alice");
    assert_eq!(config.resolve_role(web(), "k", ""), Some(Role::ReadOnly));
    let p = config.resolve(None, "k", "").unwrap();
    assert_eq!((p.subject.as_str(), p.groups.len()), ("second", 0));
    assert_eq!(config.resolve_role(None, "k", ""), Some(Role::ReadWrite));
    assert_eq!(config.resolve_role(None, "other", ""), None);
    assert_eq!(config.role_for("k"), config.role_for_in("k", ""));
    assert_eq!(config.principal_for("k"), config.principal_for_in("k", ""));
}
