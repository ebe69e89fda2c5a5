use linuxpal::morning::{launch_line, launching_message, parse, start_message, DEFAULT_TOML, DONE_MSG};

#[test]
fn parses_apps_with_args_and_delay() {
    let cfg = r#"
            # a comment
            [[apps]]
            cmd = "zen-browser"

            [[apps]]
            cmd = "kitty"
            args = "-e tmux new-session -As main"
            delay_ms = 1500
        "#;
    let apps = parse(cfg);
    assert_eq!(apps.len(), 2);
    assert_eq!(apps[0].cmd, "zen-browser");
    assert_eq!(apps[0].args, None);
    assert_eq!(apps[0].delay_ms, 0);
    assert_eq!(apps[1].cmd, "kitty");
    assert_eq!(apps[1].args.as_deref(), Some("-e tmux new-session -As main"));
    assert_eq!(apps[1].delay_ms, 1500);
}

#[test]
fn skips_blocks_without_cmd_and_stray_keys() {
    let cfg = "args = \"orphan\"\n[[apps]]\ndelay_ms = 100\n[[apps]]\ncmd = \"spotify\"\n";
    let apps = parse(cfg);
    assert_eq!(apps.len(), 1);
    assert_eq!(apps[0].cmd, "spotify");
}

#[test]
fn default_config_is_parseable() {
    assert!(!parse(DEFAULT_TOML).is_empty());
}

#[test]
fn launch_lines_and_status_messages() {
    let apps = parse("[[apps]]\ncmd = \"kitty\"\nargs = \"-e htop\"\n[[apps]]\ncmd = \"zen-browser\"\n");
    assert_eq!(launch_line(&apps[0]), "kitty -e htop");
    assert_eq!(launch_line(&apps[1]), "zen-browser");
    assert_eq!(launching_message(&apps[0]), "launching kitty");
    assert_eq!(start_message(0), "morning: no apps configured in morning.toml");
    assert_eq!(start_message(2), "morning! launching 2 apps");
    assert_eq!(start_message(12), "morning! launching 12 apps");
    assert_eq!(DONE_MSG, "morning routine done");
}
