use color_listener::processor::Processor;
use color_listener::watcher::{last_wallpaper_path, resolve_path, HyprpaperWatcher};

#[test]
fn last_uncommented_wallpaper_line_wins() {
    let conf = "preload = /x\nwallpaper = ,/tmp/a.jpg\n# wallpaper = ,/tmp/c.jpg\nwallpaper = DP-1, /tmp/b.jpg\n";
    assert_eq!(last_wallpaper_path(conf), Some("/tmp/b.jpg".to_string()));
}

#[test]
fn wallpaper_line_forms() {
    assert_eq!(last_wallpaper_path("wallpaper=/x.png"), Some("/x.png".to_string()));
    assert_eq!(last_wallpaper_path("  wallpaper = , ~/a b.png  "), Some("~/a b.png".to_string()));
    assert_eq!(last_wallpaper_path("wallpaper = a,b,/c.png"), Some("/c.png".to_string()));
    assert_eq!(last_wallpaper_path("wallpaper = DP-1,"), None);
    assert_eq!(last_wallpaper_path("wallpaper /x"), None);
    assert_eq!(last_wallpaper_path("#wallpaper = ,/x"), None);
    assert_eq!(last_wallpaper_path(""), None);
    assert_eq!(
        last_wallpaper_path("wallpaper = ,/a.png\nwallpaper = DP-1,\n"),
        Some("/a.png".to_string())
    );
}

#[test]
fn home_prefixes_are_resolved() {
    assert_eq!(resolve_path("~/pics/a.png", Some("/home/u")), "/home/u/pics/a.png");
    assert_eq!(resolve_path("$HOME/a.png", Some("/home/u")), "/home/u/a.png");
    assert_eq!(resolve_path("$HOME/a.png", Some("/home/u/")), "/home/u/a.png");
    assert_eq!(resolve_path("~/a.png", None), "~/a.png");
    assert_eq!(resolve_path("/abs/a.png", Some("/home/u")), "/abs/a.png");
    assert_eq!(resolve_path("~//abs.png", Some("/home/u")), "/abs.png");
    assert_eq!(resolve_path("~/a.png", Some("")), "a.png");
}

#[test]
fn same_path_twice_emits_once() {
    let mut w = HyprpaperWatcher::new("/conf");
    assert_eq!(w.conf_path(), "/conf");
    let conf = "wallpaper = ,/tmp/a.jpg\n";
    let p = w.on_config_change(Some(conf), None).unwrap();
    assert_eq!(w.on_decoded(&p, true), Some("/tmp/a.jpg".to_string()));
    assert_eq!(w.on_config_change(Some(conf), None), None);
    assert_eq!(w.on_config_change(Some("# edited\nwallpaper = , /tmp/a.jpg"), None), None);
    assert_eq!(w.last_emitted(), Some("/tmp/a.jpg".to_string()));
}

#[test]
fn distinct_paths_emit_in_order() {
    let mut w = HyprpaperWatcher::new("/conf");
    let mut events = vec![];
    for conf in ["wallpaper = ,/tmp/a.jpg", "wallpaper = DP-1,/tmp/b.jpg"] {
        if let Some(p) = w.on_config_change(Some(conf), None) {
            if let Some(e) = w.on_decoded(&p, true) {
                events.push(e);
            }
        }
    }
    assert_eq!(events, vec!["/tmp/a.jpg".to_string(), "/tmp/b.jpg".to_string()]);
}

#[test]
fn missing_file_and_failed_decode_emit_nothing() {
    let mut w = HyprpaperWatcher::new("/conf");
    assert_eq!(w.on_config_change(None, Some("/home/u")), None);
    assert_eq!(w.on_config_change(Some("ipc = off\n"), None), None);
    let p = w.on_config_change(Some("wallpaper = ,~/w.png"), Some("/home/u")).unwrap();
    assert_eq!(p, "/home/u/w.png");
    assert_eq!(w.on_decoded(&p, false), None);
    assert_eq!(w.last_emitted(), None);
    assert_eq!(
        w.on_config_change(Some("wallpaper = ,~/w.png"), Some("/home/u")),
        Some("/home/u/w.png".to_string())
    );
}

#[test]
fn processor_holds_its_paths() {
    let p = Processor::new("/out/colors.scss", "/tmp/a.jpg");
    assert_eq!(p.colorfile, "/out/colors.scss");
    assert_eq!(p.wallpaper_path, "/tmp/a.jpg");
}

#[test]
fn path_being_decoded_is_not_decoded_again() {
    let mut w = HyprpaperWatcher::new("/conf");
    let conf = "wallpaper = ,/tmp/a.jpg";
    assert_eq!(w.on_config_change(Some(conf), None), Some("/tmp/a.jpg".to_string()));
    assert_eq!(w.on_config_change(Some(conf), None), None);
    assert_eq!(
        w.on_config_change(Some("wallpaper = ,/tmp/b.jpg"), None),
        Some("/tmp/b.jpg".to_string())
    );
    assert_eq!(w.on_decoded("/tmp/b.jpg", true), Some("/tmp/b.jpg".to_string()));
    assert_eq!(w.on_config_change(Some("wallpaper = ,/tmp/b.jpg"), None), None);
}
