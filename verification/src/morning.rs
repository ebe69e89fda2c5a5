//! The morning routine's app list: `[[apps]]` blocks with `cmd`, `args`
//! and `delay_ms` keys.

use vstd::prelude::*;
use crate::text::{
    after_first_line, chars_of, eq_lit, first_index, first_line, index_of, lemma_first_index_props,
    next_line, parse_u64, parse_u64_spec, slice_of, starts_with, starts_with_lit, string_of, trim,
    trim_vec, unquote, unquote_vec, is_ws, lemma_lead_ws, lemma_trail_ws, lemma_first_index,
    trim_start,
};
use crate::config::keep_or;

verus! {

/// One launch entry.
pub struct App {
    pub cmd: String,
    pub args: Option<String>,
    /// Pause after launching this app before the next one.
    pub delay_ms: u64,
}

/// A launch entry with its text as characters.
pub struct AppView {
    pub cmd: Seq<char>,
    pub args: Option<Seq<char>>,
    pub delay_ms: u64,
}

impl View for App {
    type V = AppView;

    open spec fn view(&self) -> AppView {
        AppView {
            cmd: self.cmd@,
            args: match self.args {
                Some(a) => Some(a@),
                None => None,
            },
            delay_ms: self.delay_ms,
        }
    }
}

/// The entry list after one line: blank lines and `#` comments are skipped;
/// `[[apps]]` opens a new entry; `key = value` sets a key of the last
/// entry (ignored before the first entry); `delay_ms` that does not parse
/// becomes 0.
pub open spec fn apps_line(apps: Seq<AppView>, raw: Seq<char>) -> Seq<AppView> {
    let line = trim(raw);
    let i = first_index(line, '=') as int;
    if line.len() == 0 || starts_with(line, "#"@) {
        apps
    } else if line == "[[apps]]"@ {
        apps.push(AppView { cmd: Seq::empty(), args: None, delay_ms: 0 })
    } else if i >= line.len() || apps.len() == 0 {
        apps
    } else {
        let key = trim(line.subrange(0, i));
        let val = unquote(trim(line.subrange(i + 1, line.len() as int)));
        let last = apps.last();
        if key == "cmd"@ {
            apps.update(apps.len() - 1, AppView { cmd: val, ..last })
        } else if key == "args"@ {
            apps.update(apps.len() - 1, AppView { args: Some(val), ..last })
        } else if key == "delay_ms"@ {
            apps.update(apps.len() - 1, AppView { delay_ms: keep_or(parse_u64_spec(val), 0), ..last })
        } else {
            apps
        }
    }
}

/// The entry list after every line of `text`.
pub open spec fn apps_lines(apps: Seq<AppView>, text: Seq<char>) -> Seq<AppView>
    decreases text.len(),
{
    if text.len() == 0 {
        apps
    } else {
        proof {
            lemma_first_index_props(text, '\n');
        }
        apps_lines(apps_line(apps, first_line(text)), after_first_line(text))
    }
}

/// The entries of `s` that name a command, in order.
pub open spec fn with_cmd(s: Seq<AppView>) -> Seq<AppView>
    decreases s.len(),
{
    if s.len() == 0 {
        s
    } else if s.last().cmd.len() > 0 {
        with_cmd(s.drop_last()).push(s.last())
    } else {
        with_cmd(s.drop_last())
    }
}

/// An entry names a command.
pub open spec fn has_cmd(a: AppView) -> bool {
    a.cmd.len() > 0
}

/// Keeping the entries with a command is filtering on `has_cmd`: the kept
/// entries are exactly those, in their order, and each names a command.
pub proof fn lemma_with_cmd_filter(s: Seq<AppView>)
    ensures
        with_cmd(s) == s.filter(|a: AppView| has_cmd(a)),
        forall|k: int| 0 <= k < with_cmd(s).len() ==> (#[trigger] with_cmd(s)[k]).cmd.len() > 0,
    decreases s.len(),
{
    reveal(Seq::filter);
    if s.len() > 0 {
        lemma_with_cmd_filter(s.drop_last());
    }
}

/// A `key = value` line before the first `[[apps]]` header is ignored.
pub proof fn lemma_key_before_header_ignored(raw: Seq<char>)
    requires
        trim(raw) != "[[apps]]"@,
    ensures
        apps_line(Seq::empty(), raw) == Seq::<AppView>::empty(),
{
}

/// The morning list holds, in file order, exactly the entries whose last
/// `cmd` value is non-empty: every listed entry names a command.
pub proof fn lemma_parse_keeps_commands(text: Seq<char>)
    ensures
        parse_spec(text) == apps_lines(Seq::empty(), text).filter(|a: AppView| has_cmd(a)),
        forall|k: int| 0 <= k < parse_spec(text).len() ==> (#[trigger] parse_spec(text)[k]).cmd.len() > 0,
{
    lemma_with_cmd_filter(apps_lines(Seq::empty(), text));
}

/// The line `key=value` for a key and a value without surrounding
/// whitespace.
pub open spec fn key_line(key: Seq<char>, v: Seq<char>) -> Seq<char> {
    key + seq!['='] + v
}

proof fn lemma_key_line_parts(key: Seq<char>, v: Seq<char>)
    requires
        key.len() > 0,
        !is_ws(key[0]),
        forall|k: int| 0 <= k < key.len() ==> key[k] != '=' && !is_ws(#[trigger] key[k]),
        v.len() > 0,
        !is_ws(v[0]),
        !is_ws(v.last()),
    ensures
        trim(key_line(key, v)) == key_line(key, v),
        first_index(key_line(key, v), '=') == key.len(),
        key_line(key, v).subrange(0, key.len() as int) == key,
        key_line(key, v).subrange(key.len() as int + 1, key_line(key, v).len() as int) == v,
        trim(key) == key,
        trim(v) == v,
{
    let l = key_line(key, v);
    assert(l[0] == key[0]);
    assert(l[l.len() - 1] == v.last());
    lemma_lead_ws(l, 0);
    assert(trim_start(l) =~= l);
    lemma_trail_ws(l, l.len() as int);
    assert(trim(l) =~= l);
    assert forall|k: int| 0 <= k < key.len() implies #[trigger] l[k] != '=' by {
        assert(l[k] == key[k]);
    }
    assert(l[key.len() as int] == '=');
    lemma_first_index(l, '=', key.len() as int);
    assert(l.subrange(0, key.len() as int) =~= key);
    assert(l.subrange(key.len() as int + 1, l.len() as int) =~= v);
    lemma_lead_ws(key, 0);
    lemma_trail_ws(key, key.len() as int);
    assert(trim_start(key) =~= key);
    assert(trim(key) =~= key);
    lemma_lead_ws(v, 0);
    lemma_trail_ws(v, v.len() as int);
    assert(trim_start(v) =~= v);
    assert(trim(v) =~= v);
}

/// `[[apps]]` opens a fresh entry; in an entry, `cmd=`, `args=` and
/// `delay_ms=` set the last entry's command, arguments (unquoted) and
/// delay (0 when it does not parse), leaving every other entry alone.
pub proof fn lemma_apps_lines(apps: Seq<AppView>, v: Seq<char>)
    requires
        v.len() > 0,
        !is_ws(v[0]),
        !is_ws(v.last()),
    ensures
        apps_line(apps, "[[apps]]"@) == apps.push(AppView { cmd: Seq::empty(), args: None, delay_ms: 0 }),
        apps.len() > 0 ==> apps_line(apps, key_line("cmd"@, v)) == apps.update(
            apps.len() - 1,
            AppView { cmd: unquote(v), ..apps.last() },
        ),
        apps.len() > 0 ==> apps_line(apps, key_line("args"@, v)) == apps.update(
            apps.len() - 1,
            AppView { args: Some(unquote(v)), ..apps.last() },
        ),
        apps.len() > 0 ==> apps_line(apps, key_line("delay_ms"@, v)) == apps.update(
            apps.len() - 1,
            AppView { delay_ms: keep_or(parse_u64_spec(unquote(v)), 0), ..apps.last() },
        ),
{
    reveal_strlit("[[apps]]");
    reveal_strlit("#");
    reveal_strlit("cmd");
    reveal_strlit("args");
    reveal_strlit("delay_ms");
    lemma_lead_ws("[[apps]]"@, 0);
    lemma_trail_ws("[[apps]]"@, 8);
    assert(trim_start("[[apps]]"@) =~= "[[apps]]"@);
    assert(trim("[[apps]]"@) =~= "[[apps]]"@);
    lemma_key_line_parts("cmd"@, v);
    lemma_key_line_parts("args"@, v);
    lemma_key_line_parts("delay_ms"@, v);
    assert(!starts_with(key_line("cmd"@, v), "#"@));
    assert(!starts_with(key_line("args"@, v), "#"@));
    assert(!starts_with(key_line("delay_ms"@, v), "#"@));
    assert(key_line("cmd"@, v) != "[[apps]]"@) by {
        assert(key_line("cmd"@, v)[0] != "[[apps]]"@[0]);
    }
    assert(key_line("args"@, v) != "[[apps]]"@) by {
        assert(key_line("args"@, v)[0] != "[[apps]]"@[0]);
    }
    assert(key_line("delay_ms"@, v) != "[[apps]]"@) by {
        assert(key_line("delay_ms"@, v)[0] != "[[apps]]"@[0]);
    }
    assert("args"@.len() != "cmd"@.len());
    assert("delay_ms"@.len() != "cmd"@.len());
    assert("delay_ms"@.len() != "args"@.len());
}

/// The app list a morning config describes.
pub open spec fn parse_spec(text: Seq<char>) -> Seq<AppView> {
    with_cmd(apps_lines(Seq::empty(), text))
}

/// The views of a list of entries.
pub open spec fn apps_view(v: Seq<App>) -> Seq<AppView> {
    v.map_values(|a: App| a@)
}

fn apply_line(apps: &mut Vec<App>, raw: &Vec<char>)
    ensures
        apps_view(final(apps)@) == apps_line(apps_view(old(apps)@), raw@),
{
    let ghost before = apps_view(apps@);
    let line = trim_vec(raw);
    if line.len() == 0 || starts_with_lit(&line, "#") {
        return;
    }
    if eq_lit(&line, "[[apps]]") {
        apps.push(App { cmd: String::new(), args: None, delay_ms: 0 });
        assert(apps_view(apps@) =~= before.push(
            AppView { cmd: Seq::empty(), args: None, delay_ms: 0 },
        ));
        return;
    }
    let i = index_of(&line, '=');
    if i >= line.len() || apps.len() == 0 {
        return;
    }
    let key = trim_vec(&slice_of(&line, 0, i));
    let val = unquote_vec(&trim_vec(&slice_of(&line, i + 1, line.len())));
    let n = apps.len();
    if eq_lit(&key, "cmd") {
        let mut app = apps.pop().unwrap();
        app.cmd = string_of(&val);
        apps.push(app);
    } else if eq_lit(&key, "args") {
        let mut app = apps.pop().unwrap();
        app.args = Some(string_of(&val));
        apps.push(app);
    } else if eq_lit(&key, "delay_ms") {
        let mut app = apps.pop().unwrap();
        app.delay_ms = match parse_u64(string_of(&val).as_str()) {
            Some(d) => d,
            None => 0,
        };
        apps.push(app);
    }
    assert(apps_view(apps@) =~= apps_line(before, raw@));
}

fn keep_with_cmd(apps: Vec<App>) -> (r: Vec<App>)
    ensures
        apps_view(r@) == with_cmd(apps_view(apps@)),
{
    let mut out: Vec<App> = Vec::new();
    let mut rest = apps;
    let ghost all = apps_view(rest@);
    let n = rest.len();
    let mut i: usize = 0;
    while i < n
        invariant
            n == all.len(),
            i <= n,
            rest@.len() == n - i,
            forall|k: int| 0 <= k < rest@.len() ==> #[trigger] rest@[k]@ == all[i + k],
            apps_view(out@) == with_cmd(all.subrange(0, i as int)),
        decreases n - i,
    {
        let ghost before = rest@;
        let a = rest.remove(0);
        assert forall|k: int| 0 <= k < rest@.len() implies #[trigger] rest@[k]@ == all[(i + 1) + k] by {
            assert(rest@[k] == before[k + 1]);
        }
        assert(a@ == all[i as int]);
        assert(all.subrange(0, i + 1).drop_last() =~= all.subrange(0, i as int));
        let ghost prefix = all.subrange(0, i + 1);
        assert(prefix.last() == all[i as int]);
        if !a.cmd.as_str().is_empty() {
            let ghost old_out = apps_view(out@);
            out.push(a);
            assert(apps_view(out@) =~= old_out.push(all[i as int]));
        }
        i = i + 1;
    }
    assert(all.subrange(0, n as int) =~= all);
    out
}

/// Parses a morning config into the apps to launch, in order; entries
/// without a `cmd` are dropped.
pub fn parse(text: &str) -> (r: Vec<App>)
    ensures
        apps_view(r@) == parse_spec(text@),
{
    let v = chars_of(text);
    let n = v.len();
    let mut apps: Vec<App> = Vec::new();
    let mut pos: usize = 0;
    assert(v@.subrange(0, n as int) =~= v@);
    assert(apps_view(apps@) =~= Seq::<AppView>::empty());
    while pos < n
        invariant
            n == v@.len(),
            pos <= n,
            v@ == text@,
            apps_lines(apps_view(apps@), v@.subrange(pos as int, n as int)) == apps_lines(
                Seq::empty(),
                text@,
            ),
        decreases n - pos,
    {
        let ghost rest = v@.subrange(pos as int, n as int);
        let (line, next) = next_line(&v, pos);
        apply_line(&mut apps, &line);
        pos = next;
        assert(rest.len() > 0);
    }
    assert(v@.subrange(n as int, n as int) =~= Seq::<char>::empty());
    keep_with_cmd(apps)
}

/// The `hyprctl dispatch exec` argument for an app: its command, then a
/// space and its arguments when it has any.
pub open spec fn launch_line_spec(a: AppView) -> Seq<char> {
    match a.args {
        Some(args) => a.cmd + " "@ + args,
        None => a.cmd,
    }
}

/// The command line that launches `app`.
pub fn launch_line(app: &App) -> (r: String)
    ensures
        r@ == launch_line_spec(app@),
{
    let mut v = chars_of(app.cmd.as_str());
    match &app.args {
        Some(a) => {
            let mut sp = chars_of(" ");
            let mut av = chars_of(a.as_str());
            v.append(&mut sp);
            v.append(&mut av);
        },
        None => {},
    }
    string_of(&v)
}

/// The status line shown while `app` launches.
pub fn launching_message(app: &App) -> (r: String)
    ensures
        r@ == "launching "@ + app.cmd@,
{
    let mut v = chars_of("launching ");
    let mut c = chars_of(app.cmd.as_str());
    v.append(&mut c);
    string_of(&v)
}

/// The decimal digits.
pub open spec fn digit_chars() -> Seq<char> {
    seq!['0', '1', '2', '3', '4', '5', '6', '7', '8', '9']
}

/// `n` in decimal.
pub open spec fn decimal(n: nat) -> Seq<char>
    decreases n,
{
    if n < 10 {
        seq![digit_chars()[n as int]]
    } else {
        decimal(n / 10).push(digit_chars()[(n % 10) as int])
    }
}

fn digit(d: usize) -> (r: char)
    requires
        d < 10,
    ensures
        r == digit_chars()[d as int],
{
    match d {
        0 => '0',
        1 => '1',
        2 => '2',
        3 => '3',
        4 => '4',
        5 => '5',
        6 => '6',
        7 => '7',
        8 => '8',
        _ => '9',
    }
}

fn decimal_chars(n: usize) -> (r: Vec<char>)
    ensures
        r@ == decimal(n as nat),
    decreases n,
{
    if n < 10 {
        vec![digit(n)]
    } else {
        let mut v = decimal_chars(n / 10);
        v.push(digit(n % 10));
        v
    }
}

/// The routine's opening status line: how many apps it launches, or that
/// none is configured.
pub open spec fn start_msg(n: nat) -> Seq<char> {
    if n == 0 {
        "morning: no apps configured in morning.toml"@
    } else {
        "morning! launching "@ + decimal(n) + " apps"@
    }
}

/// The opening status line for a routine of `count` apps.
pub fn start_message(count: usize) -> (r: String)
    ensures
        r@ == start_msg(count as nat),
{
    if count == 0 {
        return string_of(&chars_of("morning: no apps configured in morning.toml"));
    }
    let mut v = chars_of("morning! launching ");
    let mut d = decimal_chars(count);
    let mut tail = chars_of(" apps");
    v.append(&mut d);
    v.append(&mut tail);
    string_of(&v)
}

/// The status line when the routine has launched everything.
pub const DONE_MSG: &'static str = "morning routine done";

/// The documented default morning config, written on first run.
pub const DEFAULT_TOML: &'static str = "# ~/.config/linuxpal/morning.toml
# LinuxPal morning routine. Trigger it with:  linuxpal-ctl morning
# Each [[apps]] block runs `hyprctl dispatch exec <cmd> <args>` in order.
# Optional delay_ms pauses AFTER launching that app before the next one.

[[apps]]
cmd = \"zen-browser\"

[[apps]]
cmd = \"kitty\"
args = \"-e tmux new-session -As main\"

# [[apps]]
# cmd = \"spotify\"

# [[apps]]
# cmd = \"xfreerdp\"
# args = \"/v:YOUR_RDP_TARGET /u:YOUR_USER +clipboard\"
# delay_ms = 2000
";

} // verus!
