//! User settings: flat `key = value` lines, `#` comments. Unknown keys and
//! malformed values leave the defaults in place.

use vstd::prelude::*;
use crate::text::{
    after_first_line, chars_of, eq_lit, first_index, first_line, index_of, lemma_first_index_props,
    next_line, parse_i32, parse_i32_spec, parse_u32, parse_u32_spec, parse_u64, parse_u64_spec,
    slice_of, string_of, trim, trim_vec, unquote, unquote_vec, lemma_first_index,
    lemma_trim_push_ws,
};

verus! {

/// The pet's settings.
pub struct Config {
    /// Substring identifying the monitor that drives state on dual-screen setups.
    pub hdmi_match: String,
    /// Local model for ambient tips and `ask`.
    pub model: String,
    /// Startup greeting text.
    pub greet_msg: String,
    /// Idle ticks (10 = 1s) before going Curious.
    pub curious_after: u64,
    /// Ticks of a stable window before a roam starts.
    pub walk_every: u64,
    /// Length of a non-music roam, in ticks.
    pub walk_duration: u32,
    /// Pixels moved per tick while walking.
    pub walk_step: i32,
    /// Ticks spent dancing in place per spot while music plays.
    pub park_duration: u32,
    /// Working ticks before "out of coffee" (WorkingEmpty).
    pub coffee_after: u64,
}

/// The settings with their text as characters.
pub struct ConfigView {
    pub hdmi_match: Seq<char>,
    pub model: Seq<char>,
    pub greet_msg: Seq<char>,
    pub curious_after: u64,
    pub walk_every: u64,
    pub walk_duration: u32,
    pub walk_step: i32,
    pub park_duration: u32,
    pub coffee_after: u64,
}

impl View for Config {
    type V = ConfigView;

    open spec fn view(&self) -> ConfigView {
        ConfigView {
            hdmi_match: self.hdmi_match@,
            model: self.model@,
            greet_msg: self.greet_msg@,
            curious_after: self.curious_after,
            walk_every: self.walk_every,
            walk_duration: self.walk_duration,
            walk_step: self.walk_step,
            park_duration: self.park_duration,
            coffee_after: self.coffee_after,
        }
    }
}

/// The default settings.
pub open spec fn default_config() -> ConfigView {
    ConfigView {
        hdmi_match: "hdmi"@,
        model: "qwen2.5:1.5b"@,
        greet_msg: "hello! lets get some ideas and tasks done!"@,
        curious_after: 150,
        walk_every: 100,
        walk_duration: 120,
        walk_step: 8,
        park_duration: 30,
        coffee_after: 1800,
    }
}

impl Default for Config {
    fn default() -> (r: Config)
        ensures
            r@ == default_config(),
    {
        Config {
            hdmi_match: string_of(&chars_of("hdmi")),
            model: string_of(&chars_of("qwen2.5:1.5b")),
            greet_msg: string_of(&chars_of("hello! lets get some ideas and tasks done!")),
            curious_after: 150,
            walk_every: 100,
            walk_duration: 120,
            walk_step: 8,
            park_duration: 30,
            coffee_after: 1800,
        }
    }
}

/// The documented default settings file, written on first run.
pub const DEFAULT_TOML: &'static str = "# ~/.config/linuxpal/config.toml
# LinuxPal settings. Edit and restart the pet (super+shift+P twice) to apply.
# Timings are in ticks: 10 ticks = 1 second.

# Monitor that decides state on a dual-screen setup (substring of the name).
hdmi_match = \"hdmi\"

# Ollama model for ambient tips and the \"ask\" feature.
model = \"qwen2.5:1.5b\"

# Greeting shown at launch.
greet_msg = \"hello! lets get some ideas and tasks done!\"

curious_after = 150    # idle 15s with no window -> curious
walk_every    = 100    # 10s of a stable window -> take a stroll
walk_duration = 120    # non-music roam length (12s)
walk_step     = 8       # px moved per tick while walking
park_duration = 30      # dance-in-place time per spot during music (3s)
coffee_after  = 1800    # working 3min straight -> out of coffee
";

/// A numeric setting after parsing `val`: the parsed value, or `old` when
/// `val` does not parse.
pub open spec fn keep_or<T>(parsed: Option<T>, old: T) -> T {
    match parsed {
        Some(v) => v,
        None => old,
    }
}

/// The settings after one `key = val` assignment. Unknown keys change
/// nothing; a numeric value that does not parse keeps the old value.
pub open spec fn apply_spec(cfg: ConfigView, key: Seq<char>, val: Seq<char>) -> ConfigView {
    if key == "hdmi_match"@ {
        ConfigView { hdmi_match: val, ..cfg }
    } else if key == "model"@ {
        ConfigView { model: val, ..cfg }
    } else if key == "greet_msg"@ {
        ConfigView { greet_msg: val, ..cfg }
    } else if key == "curious_after"@ {
        ConfigView { curious_after: keep_or(parse_u64_spec(val), cfg.curious_after), ..cfg }
    } else if key == "walk_every"@ {
        ConfigView { walk_every: keep_or(parse_u64_spec(val), cfg.walk_every), ..cfg }
    } else if key == "walk_duration"@ {
        ConfigView { walk_duration: keep_or(parse_u32_spec(val), cfg.walk_duration), ..cfg }
    } else if key == "walk_step"@ {
        ConfigView { walk_step: keep_or(parse_i32_spec(val), cfg.walk_step), ..cfg }
    } else if key == "park_duration"@ {
        ConfigView { park_duration: keep_or(parse_u32_spec(val), cfg.park_duration), ..cfg }
    } else if key == "coffee_after"@ {
        ConfigView { coffee_after: keep_or(parse_u64_spec(val), cfg.coffee_after), ..cfg }
    } else {
        cfg
    }
}

/// The keys the settings know.
pub open spec fn known_key(key: Seq<char>) -> bool {
    key == "hdmi_match"@ || key == "model"@ || key == "greet_msg"@ || key == "curious_after"@ || key
        == "walk_every"@ || key == "walk_duration"@ || key == "walk_step"@ || key == "park_duration"@
        || key == "coffee_after"@
}

/// An unknown key changes nothing.
pub proof fn lemma_unknown_key_ignored(cfg: ConfigView, key: Seq<char>, val: Seq<char>)
    requires
        !known_key(key),
    ensures
        apply_spec(cfg, key, val) == cfg,
{
}

/// A value that does not parse as the key's number type keeps the old
/// value: the settings are unchanged.
pub proof fn lemma_bad_number_kept(cfg: ConfigView, key: Seq<char>, val: Seq<char>)
    requires
        (key == "curious_after"@ || key == "walk_every"@ || key == "coffee_after"@) ==> parse_u64_spec(
            val,
        ) is None,
        (key == "walk_duration"@ || key == "park_duration"@) ==> parse_u32_spec(val) is None,
        key == "walk_step"@ ==> parse_i32_spec(val) is None,
        key != "hdmi_match"@,
        key != "model"@,
        key != "greet_msg"@,
    ensures
        apply_spec(cfg, key, val) == cfg,
{
}

/// The settings after one line: text from the first `#` on is a comment;
/// a remaining line with an `=` assigns its trimmed, unquoted right side to
/// its trimmed left side.
pub open spec fn config_line(cfg: ConfigView, raw: Seq<char>) -> ConfigView {
    let line = trim(raw.subrange(0, first_index(raw, '#') as int));
    let i = first_index(line, '=') as int;
    if line.len() == 0 || i >= line.len() {
        cfg
    } else {
        apply_spec(
            cfg,
            trim(line.subrange(0, i)),
            unquote(trim(line.subrange(i + 1, line.len() as int))),
        )
    }
}

/// The settings after every line of `text`, in order.
pub open spec fn parse_config(cfg: ConfigView, text: Seq<char>) -> ConfigView
    decreases text.len(),
{
    if text.len() == 0 {
        cfg
    } else {
        proof {
            lemma_first_index_props(text, '\n');
        }
        parse_config(config_line(cfg, first_line(text)), after_first_line(text))
    }
}

/// Each known key sets its own setting and nothing else: a text key takes
/// the value as given; a numeric key takes the value's number when it
/// parses as the setting's type.
pub proof fn lemma_key_sets_its_field(cfg: ConfigView, v: Seq<char>)
    ensures
        apply_spec(cfg, "hdmi_match"@, v) == (ConfigView { hdmi_match: v, ..cfg }),
        apply_spec(cfg, "model"@, v) == (ConfigView { model: v, ..cfg }),
        apply_spec(cfg, "greet_msg"@, v) == (ConfigView { greet_msg: v, ..cfg }),
        parse_u64_spec(v) matches Some(n) ==> apply_spec(cfg, "curious_after"@, v) == (ConfigView {
            curious_after: n,
            ..cfg
        }),
        parse_u64_spec(v) matches Some(n) ==> apply_spec(cfg, "walk_every"@, v) == (ConfigView {
            walk_every: n,
            ..cfg
        }),
        parse_u32_spec(v) matches Some(n) ==> apply_spec(cfg, "walk_duration"@, v) == (ConfigView {
            walk_duration: n,
            ..cfg
        }),
        parse_i32_spec(v) matches Some(n) ==> apply_spec(cfg, "walk_step"@, v) == (ConfigView {
            walk_step: n,
            ..cfg
        }),
        parse_u32_spec(v) matches Some(n) ==> apply_spec(cfg, "park_duration"@, v) == (ConfigView {
            park_duration: n,
            ..cfg
        }),
        parse_u64_spec(v) matches Some(n) ==> apply_spec(cfg, "coffee_after"@, v) == (ConfigView {
            coffee_after: n,
            ..cfg
        }),
{
    reveal_strlit("hdmi_match");
    reveal_strlit("model");
    assert("model"@.len() != "hdmi_match"@.len());
    reveal_strlit("greet_msg");
    assert("greet_msg"@.len() != "hdmi_match"@.len());
    assert("greet_msg"@.len() != "model"@.len());
    reveal_strlit("curious_after");
    assert("curious_after"@.len() != "hdmi_match"@.len());
    assert("curious_after"@.len() != "model"@.len());
    assert("curious_after"@.len() != "greet_msg"@.len());
    reveal_strlit("walk_every");
    assert("walk_every"@[0] != "hdmi_match"@[0]);
    assert("walk_every"@.len() != "model"@.len());
    assert("walk_every"@.len() != "greet_msg"@.len());
    assert("walk_every"@.len() != "curious_after"@.len());
    reveal_strlit("walk_duration");
    assert("walk_duration"@.len() != "hdmi_match"@.len());
    assert("walk_duration"@.len() != "model"@.len());
    assert("walk_duration"@.len() != "greet_msg"@.len());
    assert("walk_duration"@[0] != "curious_after"@[0]);
    assert("walk_duration"@.len() != "walk_every"@.len());
    reveal_strlit("walk_step");
    assert("walk_step"@.len() != "hdmi_match"@.len());
    assert("walk_step"@.len() != "model"@.len());
    assert("walk_step"@[0] != "greet_msg"@[0]);
    assert("walk_step"@.len() != "curious_after"@.len());
    assert("walk_step"@.len() != "walk_every"@.len());
    assert("walk_step"@.len() != "walk_duration"@.len());
    reveal_strlit("park_duration");
    assert("park_duration"@.len() != "hdmi_match"@.len());
    assert("park_duration"@.len() != "model"@.len());
    assert("park_duration"@.len() != "greet_msg"@.len());
    assert("park_duration"@[0] != "curious_after"@[0]);
    assert("park_duration"@.len() != "walk_every"@.len());
    assert("park_duration"@[0] != "walk_duration"@[0]);
    assert("park_duration"@.len() != "walk_step"@.len());
    reveal_strlit("coffee_after");
    assert("coffee_after"@.len() != "hdmi_match"@.len());
    assert("coffee_after"@.len() != "model"@.len());
    assert("coffee_after"@.len() != "greet_msg"@.len());
    assert("coffee_after"@.len() != "curious_after"@.len());
    assert("coffee_after"@.len() != "walk_every"@.len());
    assert("coffee_after"@.len() != "walk_duration"@.len());
    assert("coffee_after"@.len() != "walk_step"@.len());
    assert("coffee_after"@.len() != "park_duration"@.len());
}

/// A `#` starts a comment: whatever follows it on the line is ignored.
pub proof fn lemma_comment_ignored(cfg: ConfigView, a: Seq<char>, b: Seq<char>)
    requires
        forall|k: int| 0 <= k < a.len() ==> a[k] != '#',
    ensures
        config_line(cfg, a + seq!['#'] + b) == config_line(cfg, a),
{
    let raw = a + seq!['#'] + b;
    assert forall|k: int| 0 <= k < a.len() implies #[trigger] raw[k] != '#' by {
        assert(raw[k] == a[k]);
    }
    assert(raw[a.len() as int] == '#');
    lemma_first_index(raw, '#', a.len() as int);
    lemma_first_index(a, '#', a.len() as int);
    assert(raw.subrange(0, a.len() as int) =~= a.subrange(0, a.len() as int));
}

/// A line ending in a carriage return means what the line without it
/// means.
proof fn lemma_config_line_cr(cfg: ConfigView, x: Seq<char>)
    ensures
        config_line(cfg, x.push('\r')) == config_line(cfg, x),
{
    let y = x.push('\r');
    lemma_first_index_props(x, '#');
    let j = first_index(x, '#') as int;
    if j < x.len() {
        assert forall|k: int| 0 <= k < j implies #[trigger] y[k] != '#' by {
            assert(y[k] == x[k]);
        }
        assert(y[j] == x[j]);
        lemma_first_index(y, '#', j);
        assert(y.subrange(0, j) =~= x.subrange(0, j));
    } else {
        assert forall|k: int| 0 <= k < y.len() implies #[trigger] y[k] != '#' by {
            if k < x.len() {
                assert(y[k] == x[k]);
            }
        }
        lemma_first_index(y, '#', y.len() as int);
        assert(y.subrange(0, y.len() as int) =~= x.subrange(0, x.len() as int).push('\r'));
        lemma_trim_push_ws(x.subrange(0, x.len() as int), '\r');
    }
}

/// Lines apply in order: parsing two texts joined by a line feed is
/// parsing the first, then the second on its result; so of two valid
/// lines for a key the later wins, and keys that no valid line names keep
/// their value.
pub proof fn lemma_config_in_order(cfg: ConfigView, t1: Seq<char>, t2: Seq<char>)
    ensures
        parse_config(cfg, t1 + "\n"@ + t2) == parse_config(parse_config(cfg, t1), t2),
    decreases t1.len(),
{
    reveal_strlit("\n");
    let s = t1 + "\n"@ + t2;
    lemma_first_index_props(t1, '\n');
    let i = first_index(t1, '\n') as int;
    assert forall|k: int| 0 <= k < i implies #[trigger] s[k] != '\n' by {
        assert(s[k] == t1[k]);
    }
    assert(s[i] == '\n');
    lemma_first_index(s, '\n', i);
    if i < t1.len() {
        let rest = t1.subrange(i + 1, t1.len() as int);
        assert(s.subrange(0, i) =~= t1.subrange(0, i));
        assert(s.subrange(i + 1, s.len() as int) =~= rest + "\n"@ + t2);
        lemma_config_in_order(config_line(cfg, first_line(t1)), rest, t2);
    } else {
        assert(s.subrange(0, i) =~= t1);
        assert(s.subrange(i + 1, s.len() as int) =~= t2);
        if t1.len() == 0 {
            assert(trim(Seq::<char>::empty().subrange(0, 0)) =~= Seq::<char>::empty());
        } else {
            assert(parse_config(config_line(cfg, t1), Seq::empty()) == config_line(cfg, t1));
            if t1.last() == '\r' {
                assert(t1 =~= t1.drop_last().push('\r'));
                lemma_config_line_cr(cfg, t1.drop_last());
            }
        }
    }
}

/// Applies one `key = val` assignment.
pub fn apply(cfg: &mut Config, key: &str, val: &str)
    ensures
        final(cfg)@ == apply_spec(old(cfg)@, key@, val@),
{
    let k = chars_of(key);
    if eq_lit(&k, "hdmi_match") {
        cfg.hdmi_match = string_of(&chars_of(val));
    } else if eq_lit(&k, "model") {
        cfg.model = string_of(&chars_of(val));
    } else if eq_lit(&k, "greet_msg") {
        cfg.greet_msg = string_of(&chars_of(val));
    } else if eq_lit(&k, "curious_after") {
        set_u64(&mut cfg.curious_after, val);
    } else if eq_lit(&k, "walk_every") {
        set_u64(&mut cfg.walk_every, val);
    } else if eq_lit(&k, "walk_duration") {
        set_u32(&mut cfg.walk_duration, val);
    } else if eq_lit(&k, "walk_step") {
        set_i32(&mut cfg.walk_step, val);
    } else if eq_lit(&k, "park_duration") {
        set_u32(&mut cfg.park_duration, val);
    } else if eq_lit(&k, "coffee_after") {
        set_u64(&mut cfg.coffee_after, val);
    }
}

/// Parses `val` into `field`, keeping the old value on error.
pub fn set_u64(field: &mut u64, val: &str)
    ensures
        *final(field) == keep_or(parse_u64_spec(val@), *old(field)),
{
    if let Some(v) = parse_u64(val) {
        *field = v;
    }
}

/// Parses `val` into `field`, keeping the old value on error.
pub fn set_u32(field: &mut u32, val: &str)
    ensures
        *final(field) == keep_or(parse_u32_spec(val@), *old(field)),
{
    if let Some(v) = parse_u32(val) {
        *field = v;
    }
}

/// Parses `val` into `field`, keeping the old value on error.
pub fn set_i32(field: &mut i32, val: &str)
    ensures
        *final(field) == keep_or(parse_i32_spec(val@), *old(field)),
{
    if let Some(v) = parse_i32(val) {
        *field = v;
    }
}

/// Strips one pair of surrounding double quotes, each side if present.
pub fn unquote_str(s: &str) -> (r: String)
    ensures
        r@ == unquote(s@),
{
    let v = chars_of(s);
    string_of(&unquote_vec(&v))
}

fn apply_line(cfg: &mut Config, raw: &Vec<char>)
    ensures
        final(cfg)@ == config_line(old(cfg)@, raw@),
{
    let h = index_of(raw, '#');
    let pre = slice_of(raw, 0, h);
    let line = trim_vec(&pre);
    if line.len() == 0 {
        return;
    }
    let i = index_of(&line, '=');
    if i >= line.len() {
        return;
    }
    let key = trim_vec(&slice_of(&line, 0, i));
    let val = unquote_vec(&trim_vec(&slice_of(&line, i + 1, line.len())));
    apply(cfg, string_of(&key).as_str(), string_of(&val).as_str());
}

/// Applies every `key = value` line of `text` to `cfg`, in order.
pub fn parse_into(text: &str, cfg: &mut Config)
    ensures
        final(cfg)@ == parse_config(old(cfg)@, text@),
{
    let v = chars_of(text);
    let n = v.len();
    let mut pos: usize = 0;
    assert(v@.subrange(0, n as int) =~= v@);
    while pos < n
        invariant
            n == v@.len(),
            pos <= n,
            v@ == text@,
            parse_config(cfg@, v@.subrange(pos as int, n as int)) == parse_config(
                old(cfg)@,
                text@,
            ),
        decreases n - pos,
    {
        let ghost rest = v@.subrange(pos as int, n as int);
        let (line, next) = next_line(&v, pos);
        apply_line(cfg, &line);
        pos = next;
        assert(parse_config(cfg@, v@.subrange(pos as int, n as int)) == parse_config(
            old(cfg)@,
            text@,
        )) by {
            assert(rest.len() > 0);
        }
    }
    assert(v@.subrange(n as int, n as int) =~= Seq::<char>::empty());
    assert(v@.subrange(0, n as int) =~= v@);
}

} // verus!
