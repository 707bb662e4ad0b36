//! Command-line vocabulary: watcher and applier names, and home-relative
//! path expansion.

use vstd::prelude::*;
use crate::kitty::string_views;
use crate::text::{
    chars_of, comma_fields, extend_range, extend_str, lower_of, lowercase, range_starts_with,
    skip_ws, skip_ws_back, split_commas, starts_with, str_eq, string_of, trim, views,
};

verus! {

/// Which configuration watcher drives the pipeline.
#[derive(Debug, Clone, Copy, PartialEq, Eq, Structural)]
pub enum Watcher {
    Hyprpaper,
}

/// The watcher a lower-case name selects.
pub open spec fn watcher_named(t: Seq<char>) -> Option<Watcher> {
    if t == "hyprpaper"@ {
        Some(Watcher::Hyprpaper)
    } else {
        None
    }
}

impl Watcher {
    /// The watcher named by already lower-cased text.
    pub fn from_lowercase(t: &str) -> (r: Option<Self>)
        ensures
            r == watcher_named(t@),
    {
        if str_eq(t, "hyprpaper") {
            Some(Watcher::Hyprpaper)
        } else {
            None
        }
    }

    /// The watcher named by `s`, in any case.
    pub fn from_str(s: &str) -> (r: Option<Self>)
        ensures
            r == watcher_named(lower_of(s@)),
    {
        let t = lowercase(s);
        Self::from_lowercase(t.as_str())
    }
}

/// A configuration target that receives the palette.
#[derive(Debug, Clone, Copy, PartialEq, Eq, Structural)]
pub enum Applier {
    Ags,
    Hyprland,
    Kitty,
    Ps1,
}

/// The applier a lower-case name selects.
pub open spec fn applier_named(t: Seq<char>) -> Option<Applier> {
    if t == "ags"@ {
        Some(Applier::Ags)
    } else if t == "hyprland"@ {
        Some(Applier::Hyprland)
    } else if t == "kitty"@ {
        Some(Applier::Kitty)
    } else if t == "ps1"@ {
        Some(Applier::Ps1)
    } else {
        None
    }
}

impl Applier {
    /// The applier named by already lower-cased text.
    pub fn from_lowercase(t: &str) -> (r: Option<Self>)
        ensures
            r == applier_named(t@),
    {
        if str_eq(t, "ags") {
            Some(Applier::Ags)
        } else if str_eq(t, "hyprland") {
            Some(Applier::Hyprland)
        } else if str_eq(t, "kitty") {
            Some(Applier::Kitty)
        } else if str_eq(t, "ps1") {
            Some(Applier::Ps1)
        } else {
            None
        }
    }

    /// The applier named by `s`, in any case.
    pub fn from_str(s: &str) -> (r: Option<Self>)
        ensures
            r == applier_named(lower_of(s@)),
    {
        let t = lowercase(s);
        Self::from_lowercase(t.as_str())
    }
}

/// The appliers named in a comma-separated list, in order; each field is
/// trimmed and lower-cased, and fields naming no applier are skipped.
pub open spec fn appliers_listed(fields: Seq<Seq<char>>) -> Seq<Applier>
    decreases fields.len(),
{
    if fields.len() == 0 {
        Seq::empty()
    } else {
        let rest = appliers_listed(fields.drop_last());
        match applier_named(lower_of(trim(fields.last()))) {
            Some(a) => rest.push(a),
            None => rest,
        }
    }
}

/// Parses a comma-separated applier list such as `ags, kitty`.
pub fn parse_appliers(val: &str) -> (r: Vec<Applier>)
    ensures
        r@ == appliers_listed(comma_fields(val@)),
{
    let fields = split_commas(val);
    let mut out: Vec<Applier> = Vec::new();
    let mut i: usize = 0;
    while i < fields.len()
        invariant
            i <= fields.len(),
            views(fields@) == comma_fields(val@),
            out@ == appliers_listed(views(fields@).subrange(0, i as int)),
        decreases fields.len() - i,
    {
        let f = &fields[i];
        let lo = skip_ws(f, 0, f.len());
        let hi = skip_ws_back(f, lo, f.len());
        let mut t: Vec<char> = Vec::new();
        extend_range(&mut t, f, lo, hi);
        proof {
            assert(f@.subrange(0, f.len() as int) =~= f@);
            assert(f@.subrange(lo as int, f.len() as int).subrange(0, hi - lo) =~= f@.subrange(
                lo as int,
                hi as int,
            ));
            assert(t@ =~= trim(f@));
            let next = views(fields@).subrange(0, i + 1);
            assert(next.drop_last() =~= views(fields@).subrange(0, i as int));
            assert(next.last() == f@);
        }
        let name = string_of(&t);
        match Applier::from_str(name.as_str()) {
            Some(a) => out.push(a),
            None => {},
        }
        i += 1;
    }
    assert(views(fields@).subrange(0, fields.len() as int) =~= views(fields@));
    out
}

/// `path` with a leading `~/` replaced by the home directory and a `/`.
pub open spec fn tilde_expanded(path: Seq<char>, home: Option<Seq<char>>) -> Seq<char> {
    match home {
        Some(h) => if starts_with(path, "~/"@) {
            h + "/"@ + path.subrange(2, path.len() as int)
        } else {
            path
        },
        None => path,
    }
}

/// Expands a leading `~/` of a command-line path when the home directory is known.
pub fn expand_tilde(path: &str, home: Option<&str>) -> (r: String)
    ensures
        r@ == tilde_expanded(path@, match home {
            Some(h) => Some(h@),
            None => None::<Seq<char>>,
        }),
{
    let v = chars_of(path);
    let tilde = chars_of("~/");
    proof {
        reveal_strlit("~/");
        assert(v@.subrange(0, v.len() as int) =~= v@);
    }
    match home {
        Some(h) => {
            if range_starts_with(&v, 0, v.len(), &tilde) {
                let mut out: Vec<char> = Vec::new();
                extend_str(&mut out, h);
                extend_str(&mut out, "/");
                extend_range(&mut out, &v, 2, v.len());
                string_of(&out)
            } else {
                string_of(&v)
            }
        },
        None => string_of(&v),
    }
}


/// What the daemon runs with: the watcher, the appliers in order, and the
/// files involved (home-relative until expanded).
pub struct Settings {
    pub watcher: Watcher,
    pub appliers: Vec<Applier>,
    pub watchfile: String,
    pub colorfile: String,
    pub ags_colorfile: String,
    pub hypr_colors: String,
    pub kitty_conf: String,
    pub bashrc: String,
}

/// The contents of `Settings` as plain values.
pub struct SettingsView {
    pub watcher: Watcher,
    pub appliers: Seq<Applier>,
    pub watchfile: Seq<char>,
    pub colorfile: Seq<char>,
    pub ags_colorfile: Seq<char>,
    pub hypr_colors: Seq<char>,
    pub kitty_conf: Seq<char>,
    pub bashrc: Seq<char>,
}

impl View for Settings {
    type V = SettingsView;

    open spec fn view(&self) -> SettingsView {
        SettingsView {
            watcher: self.watcher,
            appliers: self.appliers@,
            watchfile: self.watchfile@,
            colorfile: self.colorfile@,
            ags_colorfile: self.ags_colorfile@,
            hypr_colors: self.hypr_colors@,
            kitty_conf: self.kitty_conf@,
            bashrc: self.bashrc@,
        }
    }
}

/// The settings before any argument: every applier, and the usual files.
pub open spec fn default_settings() -> SettingsView {
    SettingsView {
        watcher: Watcher::Hyprpaper,
        appliers: seq![Applier::Ags, Applier::Hyprland, Applier::Kitty, Applier::Ps1],
        watchfile: "~/.config/hypr/hyprpaper.conf"@,
        colorfile: "~/.config/dotfiles/colors.scss"@,
        ags_colorfile: "~/.config/dotfiles/ags-4/colors.scss"@,
        hypr_colors: "~/.config/dotfiles/hypr/colors.conf"@,
        kitty_conf: "~/.config/dotfiles/kitty/kitty.conf"@,
        bashrc: "~/.bashrc"@,
    }
}

/// The flags that take a value.
pub open spec fn is_flag(f: Seq<char>) -> bool {
    f == "--watcher"@ || f == "--appliers"@ || f == "--watchfile"@ || f == "--colorfile"@ || f
        == "--ags-colorfile"@ || f == "--hypr-colors"@ || f == "--kitty-conf"@ || f
        == "--bashrc"@
}

/// One flag and its value applied: an unknown watcher name or an applier
/// list naming none leaves the setting as it was.
pub open spec fn with_flag(s: SettingsView, f: Seq<char>, v: Seq<char>) -> SettingsView {
    if f == "--watcher"@ {
        match watcher_named(lower_of(v)) {
            Some(w) => SettingsView { watcher: w, ..s },
            None => s,
        }
    } else if f == "--appliers"@ {
        let listed = appliers_listed(comma_fields(v));
        if listed.len() > 0 {
            SettingsView { appliers: listed, ..s }
        } else {
            s
        }
    } else if f == "--watchfile"@ {
        SettingsView { watchfile: v, ..s }
    } else if f == "--colorfile"@ {
        SettingsView { colorfile: v, ..s }
    } else if f == "--ags-colorfile"@ {
        SettingsView { ags_colorfile: v, ..s }
    } else if f == "--hypr-colors"@ {
        SettingsView { hypr_colors: v, ..s }
    } else if f == "--kitty-conf"@ {
        SettingsView { kitty_conf: v, ..s }
    } else if f == "--bashrc"@ {
        SettingsView { bashrc: v, ..s }
    } else {
        s
    }
}

/// Arguments read left to right: a flag takes the next argument as its
/// value, a flag with no value left ends the reading, anything else is skipped.
pub open spec fn with_args(s: SettingsView, args: Seq<Seq<char>>) -> SettingsView
    decreases args.len(),
{
    if args.len() == 0 {
        s
    } else if !is_flag(args[0]) {
        with_args(s, args.drop_first())
    } else if args.len() == 1 {
        s
    } else {
        with_args(with_flag(s, args[0], args[1]), args.subrange(2, args.len() as int))
    }
}

fn copy_str(s: &str) -> (r: String)
    ensures
        r@ == s@,
{
    string_of(&chars_of(s))
}

impl Settings {
    /// The settings before any argument.
    pub fn defaults() -> (r: Self)
        ensures
            r@ == default_settings(),
    {
        let mut appliers: Vec<Applier> = Vec::new();
        appliers.push(Applier::Ags);
        appliers.push(Applier::Hyprland);
        appliers.push(Applier::Kitty);
        appliers.push(Applier::Ps1);
        let r = Settings {
            watcher: Watcher::Hyprpaper,
            appliers,
            watchfile: copy_str("~/.config/hypr/hyprpaper.conf"),
            colorfile: copy_str("~/.config/dotfiles/colors.scss"),
            ags_colorfile: copy_str("~/.config/dotfiles/ags-4/colors.scss"),
            hypr_colors: copy_str("~/.config/dotfiles/hypr/colors.conf"),
            kitty_conf: copy_str("~/.config/dotfiles/kitty/kitty.conf"),
            bashrc: copy_str("~/.bashrc"),
        };
        assert(r.appliers@ =~= seq![Applier::Ags, Applier::Hyprland, Applier::Kitty, Applier::Ps1]);
        r
    }

    /// Applies one flag and its value (see `with_flag`).
    pub fn set_flag(&mut self, f: &str, v: &str)
        ensures
            final(self)@ == with_flag(old(self)@, f@, v@),
    {
        if str_eq(f, "--watcher") {
            match Watcher::from_str(v) {
                Some(w) => self.watcher = w,
                None => {},
            }
        } else if str_eq(f, "--appliers") {
            let listed = parse_appliers(v);
            if listed.len() > 0 {
                self.appliers = listed;
            }
        } else if str_eq(f, "--watchfile") {
            self.watchfile = copy_str(v);
        } else if str_eq(f, "--colorfile") {
            self.colorfile = copy_str(v);
        } else if str_eq(f, "--ags-colorfile") {
            self.ags_colorfile = copy_str(v);
        } else if str_eq(f, "--hypr-colors") {
            self.hypr_colors = copy_str(v);
        } else if str_eq(f, "--kitty-conf") {
            self.kitty_conf = copy_str(v);
        } else if str_eq(f, "--bashrc") {
            self.bashrc = copy_str(v);
        }
    }

    /// The settings that the command-line arguments (program name excluded) select.
    pub fn from_args(args: &Vec<String>) -> (r: Self)
        ensures
            r@ == with_args(default_settings(), string_views(args@)),
    {
        let mut s = Settings::defaults();
        let ghost all = string_views(args@);
        let mut i: usize = 0;
        assert(all.subrange(0, all.len() as int) =~= all);
        while i < args.len()
            invariant
                i <= args.len(),
                all == string_views(args@),
                with_args(default_settings(), all) == with_args(s@, all.subrange(i as int, all.len() as int)),
            decreases args.len() - i,
        {
            let f = args[i].as_str();
            let flag = str_eq(f, "--watcher") || str_eq(f, "--appliers") || str_eq(f, "--watchfile")
                || str_eq(f, "--colorfile") || str_eq(f, "--ags-colorfile") || str_eq(
                f,
                "--hypr-colors",
            ) || str_eq(f, "--kitty-conf") || str_eq(f, "--bashrc");
            let ghost rest = all.subrange(i as int, all.len() as int);
            assert(rest[0] == f@);
            if !flag {
                assert(rest.drop_first() =~= all.subrange(i + 1, all.len() as int));
                i += 1;
            } else if i + 1 == args.len() {
                return s;
            } else {
                s.set_flag(f, args[i + 1].as_str());
                assert(rest[1] == args[i + 1 as int]@);
                assert(rest.subrange(2, rest.len() as int) =~= all.subrange(i + 2, all.len() as int));
                i += 2;
            }
        }
        assert(all.subrange(i as int, all.len() as int) =~= Seq::<Seq<char>>::empty());
        s
    }

    /// Every file path with its leading `~/` expanded.
    pub fn expand_paths(&mut self, home: Option<&str>)
        ensures
            final(self).watcher == old(self).watcher,
            final(self).appliers@ == old(self).appliers@,
            final(self).watchfile@ == tilde_expanded(old(self).watchfile@, opt_home(home)),
            final(self).colorfile@ == tilde_expanded(old(self).colorfile@, opt_home(home)),
            final(self).ags_colorfile@ == tilde_expanded(old(self).ags_colorfile@, opt_home(home)),
            final(self).hypr_colors@ == tilde_expanded(old(self).hypr_colors@, opt_home(home)),
            final(self).kitty_conf@ == tilde_expanded(old(self).kitty_conf@, opt_home(home)),
            final(self).bashrc@ == tilde_expanded(old(self).bashrc@, opt_home(home)),
    {
        self.watchfile = expand_tilde(self.watchfile.as_str(), home);
        self.colorfile = expand_tilde(self.colorfile.as_str(), home);
        self.ags_colorfile = expand_tilde(self.ags_colorfile.as_str(), home);
        self.hypr_colors = expand_tilde(self.hypr_colors.as_str(), home);
        self.kitty_conf = expand_tilde(self.kitty_conf.as_str(), home);
        self.bashrc = expand_tilde(self.bashrc.as_str(), home);
    }
}

pub open spec fn opt_home(home: Option<&str>) -> Option<Seq<char>> {
    match home {
        Some(h) => Some(h@),
        None => None,
    }
}

} // verus!
