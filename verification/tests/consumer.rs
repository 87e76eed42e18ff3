use realm_session::consumer::{
    choose_foot_config, config_root, consumer_command, join_path, missing_output_message,
    prepend_xdg_search_root, FixedConsumer, FootConfig,
};

fn args(values: &[&str]) -> Vec<String> {
    values.iter().map(|value| (*value).to_owned()).collect()
}

#[test]
fn fixed_consumer_mode_accepts_only_one_known_consumer_argument() {
    assert_eq!(
        FixedConsumer::parse_args(&args(&["--fixed-consumer", "terminal"])),
        Ok(FixedConsumer::Terminal)
    );
    assert_eq!(
        FixedConsumer::parse_args(&args(&["--fixed-consumer", "launcher"])),
        Ok(FixedConsumer::Launcher)
    );
    let usage = Err("expected exactly --fixed-consumer terminal|launcher".to_owned());
    assert_eq!(
        FixedConsumer::parse_args(&args(&["--fixed-consumer", "unknown"])),
        usage
    );
    assert_eq!(
        FixedConsumer::parse_args(&args(&["--fixed-consumer", "terminal", "extra"])),
        usage
    );
    assert_eq!(FixedConsumer::parse_args(&args(&[])), usage);
    assert_eq!(FixedConsumer::Terminal.as_str(), "terminal");
    assert_eq!(FixedConsumer::Launcher.as_str(), "launcher");
    assert_eq!(FixedConsumer::Terminal.executable(), "foot");
    assert_eq!(FixedConsumer::Launcher.executable(), "fuzzel");
}

#[test]
fn consumers_require_their_generation_outputs() {
    assert_eq!(FixedConsumer::Launcher.outputs(), vec!["fuzzel/fuzzel.ini"]);
    let terminal = FixedConsumer::Terminal.outputs();
    assert_eq!(terminal.len(), 13);
    assert_eq!(terminal[0], "foot/foot.ini");
    assert_eq!(terminal[2], "zsh/.zshrc");
    assert_eq!(terminal[12], "qt6ct/colors/realm.conf");
    assert_eq!(
        missing_output_message("zsh/.zshrc", "No such file or directory (os error 2)"),
        "required output zsh/.zshrc is unavailable: No such file or directory (os error 2)"
    );
}

#[test]
fn terminal_refuses_generation_paths_that_xdg_lists_cannot_represent() {
    let refused = Err("generation path cannot be represented in XDG search lists".to_owned());
    assert_eq!(
        prepend_xdg_search_root(Some("/gen/colon:root"), None, None, "/etc/xdg"),
        refused
    );
    assert_eq!(prepend_xdg_search_root(None, None, None, "/etc/xdg"), refused);
    assert_eq!(
        prepend_xdg_search_root(
            Some("/gen/7"),
            Some("share"),
            Some("/existing/data:/second/data".to_owned()),
            "/usr/local/share:/usr/share"
        ),
        Ok("/gen/7/share:/existing/data:/second/data".to_owned())
    );
    assert_eq!(
        prepend_xdg_search_root(Some("/gen/7"), None, Some(String::new()), "/etc/xdg"),
        Ok("/gen/7:/etc/xdg".to_owned())
    );
}

#[test]
fn configuration_root_prefers_xdg_then_home() {
    assert_eq!(
        config_root(Some("/xdg".to_owned()), Some("/home/u".to_owned())),
        Ok("/xdg".to_owned())
    );
    assert_eq!(
        config_root(Some(String::new()), Some("/home/u".to_owned())),
        Ok("/home/u/.config".to_owned())
    );
    assert_eq!(
        config_root(None, Some("/home/u/".to_owned())),
        Ok("/home/u/.config".to_owned())
    );
    assert_eq!(
        config_root(None, Some(String::new())),
        Err("no XDG_CONFIG_HOME or HOME for realm configuration".to_owned())
    );
    assert_eq!(join_path("", "x"), "x");
}

#[test]
fn fixed_consumers_exec_exact_generation_argv_and_environment() {
    let terminal = consumer_command(
        FixedConsumer::Terminal,
        "/gen/7",
        "/gen/7/foot/foot-modern.ini",
        "/gen/7/share:/usr/share",
        "/gen/7:/etc/xdg",
    );
    assert_eq!(terminal.program, "foot");
    assert_eq!(
        terminal.args,
        vec![
            "--config=/gen/7/foot/foot-modern.ini".to_owned(),
            "--log-level=error".to_owned(),
            "--override=key-bindings.spawn-terminal=none".to_owned(),
            "zsh".to_owned(),
        ]
    );
    let env: Vec<(&str, &str)> = terminal
        .env
        .iter()
        .map(|(name, value)| (name.as_str(), value.as_str()))
        .collect();
    assert_eq!(
        env,
        vec![
            ("REALM_GENERATION", "/gen/7"),
            ("ZDOTDIR", "/gen/7/zsh"),
            ("STARSHIP_CONFIG", "/gen/7/starship.toml"),
            ("YAZI_CONFIG_HOME", "/gen/7/yazi"),
            ("GTK_THEME", "realm"),
            ("XDG_DATA_DIRS", "/gen/7/share:/usr/share"),
            ("QT_QPA_PLATFORMTHEME", "qt6ct"),
            ("XDG_CONFIG_DIRS", "/gen/7:/etc/xdg"),
        ]
    );

    let launcher = consumer_command(
        FixedConsumer::Launcher,
        "/gen/7",
        &join_path("/gen/7", FixedConsumer::Launcher.outputs()[0]),
        "",
        "",
    );
    assert_eq!(launcher.program, "fuzzel");
    assert_eq!(launcher.args, vec!["--config=/gen/7/fuzzel/fuzzel.ini".to_owned()]);
    assert!(launcher.env.is_empty());
}

#[test]
fn foot_prefers_the_modern_configuration() {
    assert_eq!(choose_foot_config(true, false), Some(FootConfig::Modern));
    assert_eq!(choose_foot_config(false, true), Some(FootConfig::Legacy));
    assert_eq!(choose_foot_config(false, false), None);
    assert_eq!(FootConfig::Modern.output(), "foot/foot-modern.ini");
    assert_eq!(FootConfig::Legacy.output(), "foot/foot.ini");
}
