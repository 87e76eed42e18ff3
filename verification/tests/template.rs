use realm_session::template::{
    gtk_restyle, templates, Reload, SOURCE_BTOP_CONF, SOURCE_BTOP_THEME, SOURCE_FOOT_INI,
    SOURCE_FUZZEL_INI, SOURCE_GTK3_CSS, SOURCE_GTK4_CSS, SOURCE_QT6CT_COLORS_CONF,
    SOURCE_QT6CT_CONF, SOURCE_STARSHIP_TOML, SOURCE_YAZI_KEYMAP_TOML, SOURCE_YAZI_THEME_TOML,
    SOURCE_YAZI_TOML, SOURCE_ZSHRC,
};

fn selected(ids: &[&str]) -> Vec<(&'static str, String, String)> {
    templates()
        .into_iter()
        .filter(|template| ids.contains(&template.id))
        .map(|template| (template.id, template.target, template.source.to_owned()))
        .collect()
}

#[test]
fn terminal_tool_profile_is_complete_and_generation_local() {
    let actual = selected(&["zsh-profile", "yazi-config", "yazi-keymap", "btop-config"]);

    assert_eq!(
        actual,
        vec![
            (
                "zsh-profile",
                "zsh/.zshrc".into(),
                [
                    "eval \"$(starship init zsh)\"\n",
                    "btop() {\n",
                    "  command btop --config=\"$REALM_GENERATION/btop/btop.conf\" \\\n",
                    "    --themes-dir=\"$REALM_GENERATION/btop/themes\" \"$@\"\n",
                    "}\n",
                ]
                .concat(),
            ),
            (
                "yazi-config",
                "yazi/yazi.toml".into(),
                "[manager]\nratio = [1, 4, 3]\nsort_by = \"alphabetical\"\nsort_sensitive = false\nsort_reverse = false\nsort_dir_first = true\nlinemode = \"size\"\nshow_hidden = false\nshow_symlink = true\nscrolloff = 5\n".to_owned(),
            ),
            (
                "yazi-keymap",
                "yazi/keymap.toml".into(),
                "[manager]\nprepend_keymap = [\n  { on = \"<C-p>\", run = \"shell 'btop --config=\\\"$REALM_GENERATION/btop/btop.conf\\\" --themes-dir=\\\"$REALM_GENERATION/btop/themes\\\"' --block\", desc = \"Open Realm system monitor\" },\n]\n".to_owned(),
            ),
            (
                "btop-config",
                "btop/btop.conf".into(),
                "color_theme = \"realm\"\ntheme_background = False\ntruecolor = True\nforce_tty = False\nvim_keys = True\nrounded_corners = True\ngraph_symbol = \"braille\"\nshown_boxes = \"cpu mem net proc\"\n".to_owned(),
            ),
        ]
    );
}

#[test]
fn terminal_toolkit_profile_has_named_gtk_themes_and_qt6ct_default() {
    let actual = selected(&["gtk4-profile", "gtk3-profile", "qt6ct-config"]);

    assert_eq!(
        actual,
        vec![
            (
                "gtk4-profile",
                "share/themes/realm/gtk-4.0/gtk.css".into(),
                SOURCE_GTK4_CSS.to_owned(),
            ),
            (
                "gtk3-profile",
                "share/themes/realm/gtk-3.0/gtk.css".into(),
                SOURCE_GTK3_CSS.to_owned(),
            ),
            (
                "qt6ct-config",
                "qt6ct/qt6ct.conf".into(),
                SOURCE_QT6CT_CONF.to_owned(),
            ),
        ]
    );
}

#[test]
fn compiled_catalogue_embeds_the_declared_template_sources() {
    let actual: Vec<(&str, &str)> = templates()
        .into_iter()
        .map(|template| (template.id, template.source))
        .collect();
    assert_eq!(
        actual,
        vec![
            ("gtk4", SOURCE_GTK4_CSS),
            ("gtk3", SOURCE_GTK3_CSS),
            ("gtk4-profile", SOURCE_GTK4_CSS),
            ("gtk3-profile", SOURCE_GTK3_CSS),
            ("foot", SOURCE_FOOT_INI),
            ("zsh-profile", SOURCE_ZSHRC),
            ("yazi-config", SOURCE_YAZI_TOML),
            ("yazi-keymap", SOURCE_YAZI_KEYMAP_TOML),
            ("yazi", SOURCE_YAZI_THEME_TOML),
            ("btop-config", SOURCE_BTOP_CONF),
            ("btop", SOURCE_BTOP_THEME),
            ("starship", SOURCE_STARSHIP_TOML),
            ("fuzzel", SOURCE_FUZZEL_INI),
            ("qt6ct", SOURCE_QT6CT_COLORS_CONF),
            ("qt6ct-config", SOURCE_QT6CT_CONF),
        ],
    );
}

#[test]
fn reload_metadata_restyles_gtk_and_signals_foot() {
    let all = templates();
    let restyle = gtk_restyle();
    assert_eq!(
        restyle,
        Reload::Command(vec![
            "gsettings".to_owned(),
            "set".to_owned(),
            "org.gnome.desktop.interface".to_owned(),
            "gtk-theme".to_owned(),
            "Adwaita-dark".to_owned(),
        ])
    );
    assert_eq!(all[0].reload, restyle);
    assert_eq!(all[1].reload, restyle);
    assert!(matches!(
        all[4].reload,
        Reload::Signal { process: "foot", signal } if signal == 10 || signal == 16 || signal == 30
    ));
    assert!(all[5..].iter().all(|template| template.reload == Reload::NoReload));
    assert_eq!(all[4].target, "foot/foot.ini");
}
