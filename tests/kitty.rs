use color_listener::kitty::{
    dedup_preserve, matching_sockets, reload_targets, socket_base, update_kitty_conf,
    DirEntryInfo, ReloadError, ReloadSession, ReloadStep, SocketBase, THEME_FILE_NAME,
};

fn count(text: &str, pred: impl Fn(&str) -> bool) -> usize {
    text.lines().filter(|l| pred(l.trim())).count()
}

#[test]
fn fresh_conf_gets_include_and_remote_control() {
    let u = update_kitty_conf("font_size 12\n", THEME_FILE_NAME, "alice");
    assert_eq!(
        u.contents,
        "font_size 12\n\n# Automatically included by color-listener\ninclude colors-generated.conf\n\n\n# Enable remote control (added by color-listener)\nallow_remote_control yes\nlisten_on unix:/tmp/kitty-alice\n"
    );
    assert_eq!(u.socket, "unix:/tmp/kitty-alice");
}

#[test]
fn updating_twice_keeps_single_include_and_allow() {
    for start in [
        "",
        "font_size 12",
        "font_size 12\n",
        "include colors-generated.conf",
        "allow_remote_control yes\ninclude colors-generated.conf",
        "include colors-generated.conf\nallow_remote_control yes",
        "  include colors-generated.conf  \r\nlisten_on unix:/tmp/k\n",
    ] {
        let once = update_kitty_conf(start, THEME_FILE_NAME, "bob");
        let twice = update_kitty_conf(&once.contents, THEME_FILE_NAME, "bob");
        for text in [&once.contents, &twice.contents] {
            assert_eq!(count(text, |t| t == "include colors-generated.conf"), 1, "{start:?}");
            assert_eq!(count(text, |t| t.starts_with("allow_remote_control")), 1, "{start:?}");
        }
        assert_eq!(twice.contents, once.contents, "{start:?}");
        assert_eq!(twice.socket, once.socket);
    }
}

#[test]
fn configured_socket_is_kept() {
    let conf = "listen_on   unix:/tmp/mykitty  \ninclude colors-generated.conf\nallow_remote_control yes\n";
    let u = update_kitty_conf(conf, THEME_FILE_NAME, "carol");
    assert_eq!(u.contents, conf);
    assert_eq!(u.socket, "unix:/tmp/mykitty");
}

#[test]
fn last_listen_on_wins() {
    let conf = "listen_on unix:/tmp/a\nlisten_on unix:/tmp/b\ninclude colors-generated.conf\nallow_remote_control yes\n";
    assert_eq!(update_kitty_conf(conf, THEME_FILE_NAME, "d").socket, "unix:/tmp/b");
}

#[test]
fn listen_line_starts_on_its_own_line() {
    let u = update_kitty_conf(
        "include colors-generated.conf\nallow_remote_control yes",
        THEME_FILE_NAME,
        "bob",
    );
    assert_eq!(
        u.contents,
        "include colors-generated.conf\nallow_remote_control yes\nlisten_on unix:/tmp/kitty-bob\n"
    );
}

#[test]
fn socket_base_splits_directory_and_prefix() {
    let b = socket_base("unix:/tmp/kitty-bishal-83043").unwrap();
    assert_eq!(b.dir, "/tmp");
    assert_eq!(b.prefix, "kitty");
    let b = socket_base("unix:/kitty").unwrap();
    assert_eq!(b.dir, "/");
    assert_eq!(b.prefix, "kitty");
    let b = socket_base("unix:/run/user/1000/term").unwrap();
    assert_eq!(b.dir, "/run/user/1000");
    assert_eq!(b.prefix, "term");
}

#[test]
fn socket_base_rejects_other_targets() {
    assert!(socket_base("tcp:localhost:1234").is_none());
    assert!(socket_base("unix:relative").is_none());
    assert!(socket_base("unix:").is_none());
    assert!(socket_base("unix:/tmp/").is_none());
}

#[test]
fn sockets_are_filtered_by_prefix_and_kind() {
    let base = SocketBase { dir: "/tmp".to_string(), prefix: "kitty".to_string() };
    let entries = vec![
        DirEntryInfo { name: "kitty-1".to_string(), is_socket: true },
        DirEntryInfo { name: "kitty-2".to_string(), is_socket: false },
        DirEntryInfo { name: "other".to_string(), is_socket: true },
        DirEntryInfo { name: "kittyx".to_string(), is_socket: true },
    ];
    assert_eq!(
        matching_sockets(&base, &entries),
        vec!["unix:/tmp/kitty-1".to_string(), "unix:/tmp/kittyx".to_string()]
    );
    let root = SocketBase { dir: "/".to_string(), prefix: "k".to_string() };
    assert_eq!(
        matching_sockets(&root, &entries[..1].iter().map(|e| DirEntryInfo { name: e.name.clone(), is_socket: true }).collect()),
        vec!["unix:/kitty-1".to_string()]
    );
}

#[test]
fn reload_targets_start_with_configured_and_drop_repeats() {
    let found = vec![
        "unix:/tmp/kitty-a-1".to_string(),
        "unix:/tmp/kitty-a".to_string(),
        "unix:/tmp/kitty-a-1".to_string(),
    ];
    assert_eq!(
        reload_targets("unix:/tmp/kitty-a", &found),
        vec!["unix:/tmp/kitty-a".to_string(), "unix:/tmp/kitty-a-1".to_string()]
    );
    assert_eq!(reload_targets("x", &vec![]), vec!["x".to_string()]);
}

#[test]
fn dedup_keeps_first_occurrences() {
    let mut v: Vec<String> = ["b", "a", "b", "c", "a"].iter().map(|s| s.to_string()).collect();
    dedup_preserve(&mut v);
    assert_eq!(v, vec!["b".to_string(), "a".to_string(), "c".to_string()]);
    let mut e: Vec<String> = vec![];
    dedup_preserve(&mut e);
    assert!(e.is_empty());
}

#[test]
fn reload_tries_path_then_stdin_per_target() {
    let mut s = ReloadSession::new(vec!["a".to_string(), "b".to_string()]);
    assert!(matches!(s.next_step(), ReloadStep::ByPath(t) if t == "a"));
    s.record(false);
    assert!(matches!(s.next_step(), ReloadStep::ByStdin(t) if t == "a"));
    s.record(false);
    assert!(matches!(s.next_step(), ReloadStep::ByPath(t) if t == "b"));
    s.record(true);
    assert!(matches!(s.next_step(), ReloadStep::Done(Ok(()))));
}

#[test]
fn reload_fails_when_no_target_accepts() {
    let mut s = ReloadSession::new(vec!["a".to_string()]);
    s.record(false);
    s.record(false);
    assert!(matches!(s.next_step(), ReloadStep::Done(Err(ReloadError::NoSocketAccepted))));
    let empty = ReloadSession::new(vec![]);
    assert!(matches!(empty.next_step(), ReloadStep::Done(Err(ReloadError::NoSocketAccepted))));
    assert_eq!(ReloadError::NoSocketAccepted.message(), "no kitty sockets accepted set-colors");
}

#[test]
fn reload_partial_success_is_success() {
    let mut s = ReloadSession::new(vec!["a".to_string(), "b".to_string()]);
    s.record(true);
    assert!(matches!(s.next_step(), ReloadStep::ByPath(t) if t == "b"));
    s.record(false);
    s.record(false);
    assert!(matches!(s.next_step(), ReloadStep::Done(Ok(()))));
}

#[test]
fn second_update_changes_nothing() {
    for start in ["", "a\r\nb", "include colors-generated.conf\ninclude colors-generated.conf\n", "listen_on unix:/x"] {
        let once = update_kitty_conf(start, THEME_FILE_NAME, "eve");
        let twice = update_kitty_conf(&once.contents, THEME_FILE_NAME, "eve");
        assert_eq!(twice.contents, once.contents, "{start:?}");
    }
}
