//! The shipped theme template catalogue and its reload metadata.
//!
//! Generation apply treats each target as a normalized path inside one
//! sealed generation and binds the reload metadata into the catalogue digest
//! without executing it.
use vstd::prelude::*;

verus! {
/// Template source for `gtk4.css`.
///
/// The source text of this template is not bundled with the library; the
/// catalogue carries it as an empty template.
pub const SOURCE_GTK4_CSS: &'static str = "";
/// Template source for `gtk3.css`.
///
/// The source text of this template is not bundled with the library; the
/// catalogue carries it as an empty template.
pub const SOURCE_GTK3_CSS: &'static str = "";
/// Template source for `foot.ini`.
///
/// The source text of this template is not bundled with the library; the
/// catalogue carries it as an empty template.
pub const SOURCE_FOOT_INI: &'static str = "";
/// Template source for `zshrc`.
pub const SOURCE_ZSHRC: &'static str = "eval \"$(starship init zsh)\"\nbtop() {\n  command btop --config=\"$REALM_GENERATION/btop/btop.conf\" \\\n    --themes-dir=\"$REALM_GENERATION/btop/themes\" \"$@\"\n}\n";
/// Template source for `yazi.toml`.
pub const SOURCE_YAZI_TOML: &'static str = "[manager]\nratio = [1, 4, 3]\nsort_by = \"alphabetical\"\nsort_sensitive = false\nsort_reverse = false\nsort_dir_first = true\nlinemode = \"size\"\nshow_hidden = false\nshow_symlink = true\nscrolloff = 5\n";
/// Template source for `yazi-keymap.toml`.
pub const SOURCE_YAZI_KEYMAP_TOML: &'static str = "[manager]\nprepend_keymap = [\n  { on = \"<C-p>\", run = \"shell 'btop --config=\\\"$REALM_GENERATION/btop/btop.conf\\\" --themes-dir=\\\"$REALM_GENERATION/btop/themes\\\"' --block\", desc = \"Open Realm system monitor\" },\n]\n";
/// Template source for `yazi-theme.toml`.
///
/// The source text of this template is not bundled with the library; the
/// catalogue carries it as an empty template.
pub const SOURCE_YAZI_THEME_TOML: &'static str = "";
/// Template source for `btop.conf`.
pub const SOURCE_BTOP_CONF: &'static str = "color_theme = \"realm\"\ntheme_background = False\ntruecolor = True\nforce_tty = False\nvim_keys = True\nrounded_corners = True\ngraph_symbol = \"braille\"\nshown_boxes = \"cpu mem net proc\"\n";
/// Template source for `btop.theme`.
///
/// The source text of this template is not bundled with the library; the
/// catalogue carries it as an empty template.
pub const SOURCE_BTOP_THEME: &'static str = "";
/// Template source for `starship.toml`.
///
/// The source text of this template is not bundled with the library; the
/// catalogue carries it as an empty template.
pub const SOURCE_STARSHIP_TOML: &'static str = "";
/// Template source for `fuzzel.ini`.
///
/// The source text of this template is not bundled with the library; the
/// catalogue carries it as an empty template.
pub const SOURCE_FUZZEL_INI: &'static str = "";
/// Template source for `qt6ct-colors.conf`.
///
/// The source text of this template is not bundled with the library; the
/// catalogue carries it as an empty template.
pub const SOURCE_QT6CT_COLORS_CONF: &'static str = "";
/// Template source for `qt6ct.conf`.
///
/// The source text of this template is not bundled with the library; the
/// catalogue carries it as an empty template.
pub const SOURCE_QT6CT_CONF: &'static str = "";

/// Whether `n` is the raw number some target gives `SIGUSR1`: 10 on Linux
/// for x86, x86-64, Arm, AArch64, RISC-V, PowerPC, s390x and LoongArch, 16 on
/// Linux for MIPS and on the Solaris family and QNX, 30 on Linux for SPARC and
/// on the BSDs, AIX, Hurd and Cygwin, 18 on Haiku and 25 on RTEMS.
pub open spec fn is_sigusr1_number(n: i32) -> bool {
    n == 10 || n == 16 || n == 18 || n == 25 || n == 30
}

/// The raw number of `SIGUSR1`, the signal Foot re-reads its configuration on.
///
/// Wraps `rustix::process::Signal::USR1.as_raw()`, which is the target's
/// `SIGUSR1` as `linux-raw-sys` or `libc` define it. Which of those numbers
/// it is depends on the target the crate is built for, so the contract claims
/// only that it is one of them.
#[verifier::external_body]
fn sigusr1() -> (signal: i32)
    ensures
        is_sigusr1_number(signal),
{
    rustix::process::Signal::USR1.as_raw()
}

/// Canonical reload metadata retained for catalogue identity.
#[derive(Debug, Clone, PartialEq, Eq)]
pub enum Reload {
    /// The consumer reads the output at its next start.
    NoReload,
    /// Signal metadata for a named process.
    Signal {
        /// Process name as it appears in `/proc/<pid>/comm`.
        process: &'static str,
        /// Signal number.
        signal: i32,
    },
    /// Command metadata, e.g. `gsettings set ...`.
    Command(Vec<String>),
    /// Metadata identifying Realm-owned clients.
    RealmClients,
}

/// One generated output and its catalogue metadata.
#[derive(Debug)]
pub struct Template {
    /// Stable id, e.g. `"gtk4"`, `"foot"`, `"yazi"`.
    pub id: &'static str,
    /// Source text with `{{ path.to.value }}` placeholders.
    pub source: &'static str,
    /// Output path, normalized inside the staged generation.
    pub target: String,
    /// Canonical reload metadata.
    pub reload: Reload,
}

/// The argv of the GTK restyle command.
pub open spec fn gtk_restyle_argv() -> Seq<Seq<char>> {
    seq!["gsettings"@, "set"@, "org.gnome.desktop.interface"@, "gtk-theme"@, "Adwaita-dark"@]
}

/// The argv of a command reload, by the characters of each argument.
pub open spec fn command_argv(r: Reload) -> Seq<Seq<char>> {
    match r {
        Reload::Command(argv) => argv@.map_values(|a: String| a@),
        _ => seq![],
    }
}

/// GTK's reload metadata: rewriting the theme name it already has makes it
/// rebuild its style cascade. Both GTK templates share it.
pub fn gtk_restyle() -> (r: Reload)
    ensures
        r is Command,
        command_argv(r) == gtk_restyle_argv(),
{
    proof {
        reveal_strlit("gsettings");
        reveal_strlit("set");
        reveal_strlit("org.gnome.desktop.interface");
        reveal_strlit("gtk-theme");
        reveal_strlit("Adwaita-dark");
    }
    let mut argv: Vec<String> = Vec::new();
    argv.push(String::from_str("gsettings"));
    argv.push(String::from_str("set"));
    argv.push(String::from_str("org.gnome.desktop.interface"));
    argv.push(String::from_str("gtk-theme"));
    argv.push(String::from_str("Adwaita-dark"));
    proof {
        assert(argv@.map_values(|a: String| a@) =~= gtk_restyle_argv());
    }
    Reload::Command(argv)
}

/// Id, source and target of the catalogue entry at `i`, in catalogue order.
pub open spec fn catalogue_entry(i: int) -> (Seq<char>, Seq<char>, Seq<char>) {
    if i == 0 {
        ("gtk4"@, SOURCE_GTK4_CSS@, "gtk-4.0/realm.css"@)
    } else if i == 1 {
        ("gtk3"@, SOURCE_GTK3_CSS@, "gtk-3.0/realm.css"@)
    } else if i == 2 {
        ("gtk4-profile"@, SOURCE_GTK4_CSS@, "share/themes/realm/gtk-4.0/gtk.css"@)
    } else if i == 3 {
        ("gtk3-profile"@, SOURCE_GTK3_CSS@, "share/themes/realm/gtk-3.0/gtk.css"@)
    } else if i == 4 {
        ("foot"@, SOURCE_FOOT_INI@, "foot/foot.ini"@)
    } else if i == 5 {
        ("zsh-profile"@, SOURCE_ZSHRC@, "zsh/.zshrc"@)
    } else if i == 6 {
        ("yazi-config"@, SOURCE_YAZI_TOML@, "yazi/yazi.toml"@)
    } else if i == 7 {
        ("yazi-keymap"@, SOURCE_YAZI_KEYMAP_TOML@, "yazi/keymap.toml"@)
    } else if i == 8 {
        ("yazi"@, SOURCE_YAZI_THEME_TOML@, "yazi/theme.toml"@)
    } else if i == 9 {
        ("btop-config"@, SOURCE_BTOP_CONF@, "btop/btop.conf"@)
    } else if i == 10 {
        ("btop"@, SOURCE_BTOP_THEME@, "btop/themes/realm.theme"@)
    } else if i == 11 {
        ("starship"@, SOURCE_STARSHIP_TOML@, "starship.toml"@)
    } else if i == 12 {
        ("fuzzel"@, SOURCE_FUZZEL_INI@, "fuzzel/fuzzel.ini"@)
    } else if i == 13 {
        ("qt6ct"@, SOURCE_QT6CT_COLORS_CONF@, "qt6ct/colors/realm.conf"@)
    } else {
        ("qt6ct-config"@, SOURCE_QT6CT_CONF@, "qt6ct/qt6ct.conf"@)
    }
}

/// The reload metadata of the catalogue entry at `i`: the GTK restyle
/// command for the two GTK themes, Foot's configuration signal for Foot, and
/// none elsewhere.
pub open spec fn catalogue_reload(i: int, r: Reload) -> bool {
    if i == 0 || i == 1 {
        r is Command && command_argv(r) == gtk_restyle_argv()
    } else if i == 4 {
        r matches Reload::Signal { process, signal } && process@ == "foot"@ && is_sigusr1_number(signal)
    } else {
        r is NoReload
    }
}

/// Number of entries in the catalogue.
pub const CATALOGUE_LEN: usize = 15;

/// The template catalogue Realm ships, in catalogue order.
pub fn templates() -> (v: Vec<Template>)
    ensures
        v.len() == CATALOGUE_LEN,
        forall|i: int| 0 <= i < v.len() ==> (#[trigger] v[i].id@, v[i].source@, v[i].target@)
            == catalogue_entry(i),
        forall|i: int| 0 <= i < v.len() ==> catalogue_reload(i, #[trigger] v[i].reload),
{
    proof {
        reveal_strlit("btop");
        reveal_strlit("btop-config");
        reveal_strlit("btop/btop.conf");
        reveal_strlit("btop/themes/realm.theme");
        reveal_strlit("foot");
        reveal_strlit("foot/foot.ini");
        reveal_strlit("fuzzel");
        reveal_strlit("fuzzel/fuzzel.ini");
        reveal_strlit("gtk-3.0/realm.css");
        reveal_strlit("gtk-4.0/realm.css");
        reveal_strlit("gtk3");
        reveal_strlit("gtk3-profile");
        reveal_strlit("gtk4");
        reveal_strlit("gtk4-profile");
        reveal_strlit("qt6ct");
        reveal_strlit("qt6ct-config");
        reveal_strlit("qt6ct/colors/realm.conf");
        reveal_strlit("qt6ct/qt6ct.conf");
        reveal_strlit("share/themes/realm/gtk-3.0/gtk.css");
        reveal_strlit("share/themes/realm/gtk-4.0/gtk.css");
        reveal_strlit("starship");
        reveal_strlit("starship.toml");
        reveal_strlit("yazi");
        reveal_strlit("yazi-config");
        reveal_strlit("yazi-keymap");
        reveal_strlit("yazi/keymap.toml");
        reveal_strlit("yazi/theme.toml");
        reveal_strlit("yazi/yazi.toml");
        reveal_strlit("zsh-profile");
        reveal_strlit("zsh/.zshrc");
    }
    let signal = sigusr1();
    let mut v: Vec<Template> = Vec::new();
    v.push(Template { id: "gtk4", source: SOURCE_GTK4_CSS, target: String::from_str("gtk-4.0/realm.css"), reload: gtk_restyle() });
    v.push(Template { id: "gtk3", source: SOURCE_GTK3_CSS, target: String::from_str("gtk-3.0/realm.css"), reload: gtk_restyle() });
    v.push(Template { id: "gtk4-profile", source: SOURCE_GTK4_CSS, target: String::from_str("share/themes/realm/gtk-4.0/gtk.css"), reload: Reload::NoReload });
    v.push(Template { id: "gtk3-profile", source: SOURCE_GTK3_CSS, target: String::from_str("share/themes/realm/gtk-3.0/gtk.css"), reload: Reload::NoReload });
    v.push(Template { id: "foot", source: SOURCE_FOOT_INI, target: String::from_str("foot/foot.ini"), reload: Reload::Signal { process: "foot", signal } });
    v.push(Template { id: "zsh-profile", source: SOURCE_ZSHRC, target: String::from_str("zsh/.zshrc"), reload: Reload::NoReload });
    v.push(Template { id: "yazi-config", source: SOURCE_YAZI_TOML, target: String::from_str("yazi/yazi.toml"), reload: Reload::NoReload });
    v.push(Template { id: "yazi-keymap", source: SOURCE_YAZI_KEYMAP_TOML, target: String::from_str("yazi/keymap.toml"), reload: Reload::NoReload });
    v.push(Template { id: "yazi", source: SOURCE_YAZI_THEME_TOML, target: String::from_str("yazi/theme.toml"), reload: Reload::NoReload });
    v.push(Template { id: "btop-config", source: SOURCE_BTOP_CONF, target: String::from_str("btop/btop.conf"), reload: Reload::NoReload });
    v.push(Template { id: "btop", source: SOURCE_BTOP_THEME, target: String::from_str("btop/themes/realm.theme"), reload: Reload::NoReload });
    v.push(Template { id: "starship", source: SOURCE_STARSHIP_TOML, target: String::from_str("starship.toml"), reload: Reload::NoReload });
    v.push(Template { id: "fuzzel", source: SOURCE_FUZZEL_INI, target: String::from_str("fuzzel/fuzzel.ini"), reload: Reload::NoReload });
    v.push(Template { id: "qt6ct", source: SOURCE_QT6CT_COLORS_CONF, target: String::from_str("qt6ct/colors/realm.conf"), reload: Reload::NoReload });
    v.push(Template { id: "qt6ct-config", source: SOURCE_QT6CT_CONF, target: String::from_str("qt6ct/qt6ct.conf"), reload: Reload::NoReload });
    v
}

} // verus!
