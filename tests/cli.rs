use color_listener::cli::{expand_tilde, parse_appliers, Applier, Settings, Watcher};

#[test]
fn watcher_names_ignore_case() {
    assert_eq!(Watcher::from_str("HyprPaper"), Some(Watcher::Hyprpaper));
    assert_eq!(Watcher::from_str("hyprpaper"), Some(Watcher::Hyprpaper));
    assert_eq!(Watcher::from_str("sway"), None);
    assert_eq!(Watcher::from_lowercase("HYPRPAPER"), None);
}

#[test]
fn applier_names_ignore_case() {
    assert_eq!(Applier::from_str("KITTY"), Some(Applier::Kitty));
    assert_eq!(Applier::from_str("Ags"), Some(Applier::Ags));
    assert_eq!(Applier::from_str("hyprland"), Some(Applier::Hyprland));
    assert_eq!(Applier::from_str("PS1"), Some(Applier::Ps1));
    assert_eq!(Applier::from_str("vim"), None);
}

#[test]
fn applier_list_skips_unknown_fields() {
    assert_eq!(
        parse_appliers(" ags , Kitty,bogus,,hyprland"),
        vec![Applier::Ags, Applier::Kitty, Applier::Hyprland]
    );
    assert_eq!(parse_appliers(""), vec![]);
}

#[test]
fn tilde_expansion() {
    assert_eq!(expand_tilde("~/x", Some("/home/u")), "/home/u/x");
    assert_eq!(expand_tilde("~/x", None), "~/x");
    assert_eq!(expand_tilde("/a", Some("/home/u")), "/a");
    assert_eq!(expand_tilde("~x", Some("/home/u")), "~x");
}

fn args(v: &[&str]) -> Vec<String> {
    v.iter().map(|s| s.to_string()).collect()
}

#[test]
fn defaults_without_arguments() {
    let s = Settings::from_args(&args(&[]));
    assert_eq!(s.watcher, Watcher::Hyprpaper);
    assert_eq!(s.appliers, vec![Applier::Ags, Applier::Hyprland, Applier::Kitty, Applier::Ps1]);
    assert_eq!(s.watchfile, "~/.config/hypr/hyprpaper.conf");
    assert_eq!(s.colorfile, "~/.config/dotfiles/colors.scss");
    assert_eq!(s.ags_colorfile, "~/.config/dotfiles/ags-4/colors.scss");
    assert_eq!(s.hypr_colors, "~/.config/dotfiles/hypr/colors.conf");
    assert_eq!(s.kitty_conf, "~/.config/dotfiles/kitty/kitty.conf");
    assert_eq!(s.bashrc, "~/.bashrc");
}

#[test]
fn flags_take_the_next_argument() {
    let s = Settings::from_args(&args(&[
        "--appliers", "Kitty,ags", "stray", "--kitty-conf", "/k.conf", "--watcher", "HYPRPAPER",
        "--watchfile", "~/w.conf", "--bashrc",
    ]));
    assert_eq!(s.appliers, vec![Applier::Kitty, Applier::Ags]);
    assert_eq!(s.kitty_conf, "/k.conf");
    assert_eq!(s.watchfile, "~/w.conf");
    assert_eq!(s.bashrc, "~/.bashrc");
}

#[test]
fn unusable_values_keep_the_setting() {
    let s = Settings::from_args(&args(&["--appliers", "nothing,here", "--watcher", "sway"]));
    assert_eq!(s.appliers, vec![Applier::Ags, Applier::Hyprland, Applier::Kitty, Applier::Ps1]);
    assert_eq!(s.watcher, Watcher::Hyprpaper);
}

#[test]
fn paths_expand_home() {
    let mut s = Settings::from_args(&args(&["--colorfile", "/abs.scss"]));
    s.expand_paths(Some("/home/u"));
    assert_eq!(s.watchfile, "/home/u/.config/hypr/hyprpaper.conf");
    assert_eq!(s.colorfile, "/abs.scss");
    assert_eq!(s.bashrc, "/home/u/.bashrc");
}
