use linuxpal::config::{parse_into, Config, DEFAULT_TOML};

#[test]
fn defaults_when_empty() {
    let mut c = Config::default();
    parse_into("", &mut c);
    assert_eq!(c.hdmi_match, "hdmi");
    assert_eq!(c.coffee_after, 1800);
}

#[test]
fn overrides_and_comments() {
    let mut c = Config::default();
    parse_into(
        "# header\nhdmi_match = \"DP-1\"\nwalk_step = 12  # inline comment\nmodel = qwen2.5:3b\nbogus = 9\n",
        &mut c,
    );
    assert_eq!(c.hdmi_match, "DP-1");
    assert_eq!(c.walk_step, 12);
    assert_eq!(c.model, "qwen2.5:3b");
    assert_eq!(c.curious_after, 150);
}

#[test]
fn bad_number_keeps_default() {
    let mut c = Config::default();
    parse_into("coffee_after = not_a_number", &mut c);
    assert_eq!(c.coffee_after, 1800);
}

#[test]
fn default_toml_parses() {
    let mut c = Config::default();
    parse_into(DEFAULT_TOML, &mut c);
    assert_eq!(c.walk_every, 100);
}

#[test]
fn default_values_match_the_documented_defaults() {
    let c = Config::default();
    assert_eq!(c.model, "qwen2.5:1.5b");
    assert_eq!(c.greet_msg, "hello! lets get some ideas and tasks done!");
    assert_eq!(c.curious_after, 150);
    assert_eq!(c.walk_every, 100);
    assert_eq!(c.walk_duration, 120);
    assert_eq!(c.walk_step, 8);
    assert_eq!(c.park_duration, 30);
    assert_eq!(c.coffee_after, 1800);
}

#[test]
fn later_lines_override_earlier_ones_and_quotes_are_stripped() {
    let mut c = Config::default();
    parse_into("walk_step = 3\nwalk_step = -5\ngreet_msg = \"hi there\"\r\npark_duration=7", &mut c);
    assert_eq!(c.walk_step, -5);
    assert_eq!(c.greet_msg, "hi there");
    assert_eq!(c.park_duration, 7);
}

#[test]
fn out_of_range_and_signed_values_keep_unsigned_defaults() {
    let mut c = Config::default();
    parse_into("walk_duration = 99999999999\ncurious_after = -1\nwalk_every = +40", &mut c);
    assert_eq!(c.walk_duration, 120);
    assert_eq!(c.curious_after, 150);
    assert_eq!(c.walk_every, 40);
}
