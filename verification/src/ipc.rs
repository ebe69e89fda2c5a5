//! The focused-window context and the decisions made on what window
//! managers report about it.

use vstd::prelude::*;
use vstd::utf8::*;
use crate::text::{
    chars_of, contains, contains_vec, first_index, index_of, last_index, lowercase, lowercase_of,
    opt_chars, rindex_of, slice_of, string_of, trim, trim_str, trim_vec, lemma_lead_ws,
    lemma_trail_ws, lemma_first_index, lemma_last_index, trim_start,
};

verus! {

/// The window that drives the pet's state: its class and title.
#[derive(Debug, Clone, PartialEq)]
pub struct WindowContext {
    pub class: String,
    pub title: String,
}

impl WindowContext {
    /// No window: empty class and title.
    pub fn empty() -> (r: WindowContext)
        ensures
            r.class@ == Seq::<char>::empty(),
            r.title@ == Seq::<char>::empty(),
    {
        WindowContext { class: String::new(), title: String::new() }
    }
}

/// The text between the first and the last single quote of `s` after
/// trimming it, when that span holds at least one character.
pub open spec fn quoted_spec(s: Seq<char>) -> Option<Seq<char>> {
    let t = trim(s);
    let i = first_index(t, '\'') as int;
    let j = last_index(t, '\'');
    if i >= t.len() || i + 1 >= j {
        None
    } else {
        Some(t.subrange(i + 1, j))
    }
}

/// `gdbus` wraps a returned string in single quotes, as in `( 'text', )`;
/// this extracts the text.
pub fn extract_quoted(s: &str) -> (r: Option<String>)
    ensures
        opt_chars(r) == quoted_spec(s@),
{
    let t = trim_str(s);
    let i = index_of(&t, '\'');
    if i >= t.len() {
        return None;
    }
    let j = match rindex_of(&t, '\'') {
        Some(j) => j,
        None => {
            return None;
        },
    };
    if i + 1 >= j {
        return None;
    }
    let inner = slice_of(&t, i + 1, j);
    Some(string_of(&inner))
}

/// The text of a `gdbus` reply `('s',)` is exactly `s`, whatever `s`
/// holds (quotes included): the extractor takes what lies strictly between
/// the first and the last single quote.
pub proof fn lemma_quoted_reply(s: Seq<char>)
    requires
        s.len() > 0,
    ensures
        quoted_spec(seq!['(', '\''] + s + seq!['\'', ',', ')']) == Some(s),
{
    let t = seq!['(', '\''] + s + seq!['\'', ',', ')'];
    let n = t.len() as int;
    assert(t[0] == '(');
    assert(t[n - 1] == ')');
    lemma_lead_ws(t, 0);
    assert(trim_start(t) =~= t);
    lemma_trail_ws(t, n);
    assert(trim(t) =~= t);
    assert(t[1] == '\'');
    lemma_first_index(t, '\'', 1);
    assert(t[n - 3] == '\'');
    assert(t[n - 2] == ',');
    lemma_last_index(t, '\'', n - 3);
    assert(t.subrange(2, n - 3) =~= s);
}

/// What `String::from_utf8_lossy` makes of `bytes`: the decoded text, with
/// each invalid sequence replaced by U+FFFD.
pub uninterp spec fn utf8_lossy(bytes: Seq<u8>) -> Seq<char>;

/// `String::from_utf8_lossy`. Of valid UTF-8 it returns the decoded text.
#[verifier::external_body]
pub(crate) fn decode_lossy(bytes: &[u8]) -> (r: String)
    ensures
        r@ == utf8_lossy(bytes@),
        valid_utf8(bytes@) ==> r@ == decode_utf8(bytes@),
{
    String::from_utf8_lossy(bytes).into_owned()
}

/// The quoted string in a `gdbus call` reply.
pub fn extract_gdbus_string(stdout: &[u8]) -> (r: Option<String>)
    ensures
        opt_chars(r) == quoted_spec(utf8_lossy(stdout@)),
        valid_utf8(stdout@) ==> opt_chars(r) == quoted_spec(decode_utf8(stdout@)),
{
    let raw = decode_lossy(stdout);
    extract_quoted(raw.as_str())
}

// ---------------------------------------------------------------------------
// Hyprland: which window decides

/// What Hyprland reports of a monitor (`hyprctl -j monitors`), each field
/// when present with the expected JSON type.
#[derive(Debug, Clone)]
pub struct Monitor {
    pub disabled: Option<bool>,
    pub name: Option<String>,
    pub focused: Option<bool>,
    pub id: Option<i64>,
    /// The id of its active workspace.
    pub workspace: Option<i64>,
}

/// A monitor report with its name as characters.
pub struct MonitorView {
    pub disabled: Option<bool>,
    pub name: Option<Seq<char>>,
    pub focused: Option<bool>,
    pub id: Option<i64>,
    pub workspace: Option<i64>,
}

impl View for Monitor {
    type V = MonitorView;

    open spec fn view(&self) -> MonitorView {
        MonitorView {
            disabled: self.disabled,
            name: opt_chars(self.name),
            focused: self.focused,
            id: self.id,
            workspace: self.workspace,
        }
    }
}

/// What Hyprland reports of a client window (`hyprctl -j clients`).
#[derive(Debug, Clone)]
pub struct Client {
    pub monitor: Option<i64>,
    /// The id of its workspace.
    pub workspace: Option<i64>,
    /// Its place in the focus history (0 = most recently focused).
    pub focus_history: Option<i64>,
    pub class: Option<String>,
    pub title: Option<String>,
}

/// A client report with its strings as characters.
pub struct ClientView {
    pub monitor: Option<i64>,
    pub workspace: Option<i64>,
    pub focus_history: Option<i64>,
    pub class: Option<Seq<char>>,
    pub title: Option<Seq<char>>,
}

impl View for Client {
    type V = ClientView;

    open spec fn view(&self) -> ClientView {
        ClientView {
            monitor: self.monitor,
            workspace: self.workspace,
            focus_history: self.focus_history,
            class: opt_chars(self.class),
            title: opt_chars(self.title),
        }
    }
}

/// What `serde_json` reads from `hyprctl -j monitors`: `None` unless it is
/// a JSON array; else each element's fields.
pub uninterp spec fn hypr_monitors(json: Seq<u8>) -> Option<Seq<MonitorView>>;

/// What `serde_json` reads from `hyprctl -j clients`: `None` unless it is a
/// JSON array; else each element's fields.
pub uninterp spec fn hypr_clients(json: Seq<u8>) -> Option<Seq<ClientView>>;

/// The reports' views.
pub open spec fn monitors_view(r: Option<Vec<Monitor>>) -> Option<Seq<MonitorView>> {
    match r {
        Some(v) => Some(v@.map_values(|m: Monitor| m@)),
        None => None,
    }
}

/// The reports' views.
pub open spec fn clients_view(r: Option<Vec<Client>>) -> Option<Seq<ClientView>> {
    match r {
        Some(v) => Some(v@.map_values(|c: Client| c@)),
        None => None,
    }
}

/// `serde_json::from_slice` on the output of `hyprctl -j monitors`, then,
/// for each element of the array, its `disabled`, `name`, `focused`, `id`
/// and `activeWorkspace.id`; the result depends on the bytes alone.
#[verifier::external_body]
fn read_monitors(json: &[u8]) -> (r: Option<Vec<Monitor>>)
    ensures
        monitors_view(r) == hypr_monitors(json@),
{
    let v: serde_json::Value = serde_json::from_slice(json).ok()?;
    Some(v.as_array()?.iter().map(|m| Monitor {
        disabled: m["disabled"].as_bool(),
        name: m["name"].as_str().map(|s| s.to_string()),
        focused: m["focused"].as_bool(),
        id: m["id"].as_i64(),
        workspace: m["activeWorkspace"]["id"].as_i64(),
    }).collect())
}

/// `serde_json::from_slice` on the output of `hyprctl -j clients`, then,
/// for each element of the array, its `monitor`, `workspace.id`,
/// `focusHistoryID`, `class` and `title`; the result depends on the bytes
/// alone.
#[verifier::external_body]
fn read_clients(json: &[u8]) -> (r: Option<Vec<Client>>)
    ensures
        clients_view(r) == hypr_clients(json@),
{
    let v: serde_json::Value = serde_json::from_slice(json).ok()?;
    Some(v.as_array()?.iter().map(|c| Client {
        monitor: c["monitor"].as_i64(),
        workspace: c["workspace"]["id"].as_i64(),
        focus_history: c["focusHistoryID"].as_i64(),
        class: c["class"].as_str().map(|s| s.to_string()),
        title: c["title"].as_str().map(|s| s.to_string()),
    }).collect())
}

/// Whether a monitor is enabled (not reported as disabled).
pub open spec fn enabled(m: MonitorView) -> bool {
    m.disabled != Some(true)
}

/// The enabled monitors, in report order.
pub open spec fn enabled_monitors(ms: Seq<MonitorView>) -> Seq<MonitorView>
    decreases ms.len(),
{
    if ms.len() == 0 {
        ms
    } else {
        let rest = enabled_monitors(ms.drop_last());
        if enabled(ms.last()) {
            rest.push(ms.last())
        } else {
            rest
        }
    }
}

/// Whether a monitor's lower-cased name contains `hdmi`.
pub open spec fn hdmi_named(m: MonitorView, hdmi: Seq<char>) -> bool {
    match m.name {
        Some(n) => contains(lowercase_of(n), hdmi),
        None => false,
    }
}

/// Index of the first monitor from `i` on that is named like `hdmi` (with
/// `focus`: that is focused), or `ms.len()`.
pub open spec fn first_match(ms: Seq<MonitorView>, hdmi: Seq<char>, focus: bool, i: nat) -> nat
    decreases ms.len() - i,
{
    if i >= ms.len() {
        ms.len()
    } else if (if focus {
        ms[i as int].focused == Some(true)
    } else {
        hdmi_named(ms[i as int], hdmi)
    }) {
        i
    } else {
        first_match(ms, hdmi, focus, i + 1)
    }
}

/// The monitor that decides (among the enabled ones, at least one): with
/// two or more, the first whose name contains `hdmi` (the HDMI screen
/// drives the state), else the first; with one, the focused one, else the
/// first.
pub open spec fn deciding(en: Seq<MonitorView>, hdmi: Seq<char>) -> MonitorView {
    let k = first_match(en, hdmi, en.len() < 2, 0);
    if k < en.len() {
        en[k as int]
    } else {
        en[0]
    }
}

/// Whether monitor `m` is the kind `first_match` looks for.
pub open spec fn mon_match(m: MonitorView, hdmi: Seq<char>, focus: bool) -> bool {
    if focus {
        m.focused == Some(true)
    } else {
        hdmi_named(m, hdmi)
    }
}

/// `first_match` finds the first matching monitor from `i` on.
pub proof fn lemma_first_match(ms: Seq<MonitorView>, hdmi: Seq<char>, focus: bool, i: nat)
    ensures
        i <= ms.len() ==> i <= first_match(ms, hdmi, focus, i) <= ms.len(),
        first_match(ms, hdmi, focus, i) < ms.len() ==> mon_match(
            ms[first_match(ms, hdmi, focus, i) as int],
            hdmi,
            focus,
        ),
        forall|k: int|
            i <= k < first_match(ms, hdmi, focus, i) && k < ms.len() ==> !mon_match(
                #[trigger] ms[k],
                hdmi,
                focus,
            ),
    decreases ms.len() - i,
{
    if i < ms.len() {
        lemma_first_match(ms, hdmi, focus, i + 1);
    }
}

/// On two or more enabled monitors, the first one whose name contains
/// `hdmi` decides whenever there is one.
pub proof fn lemma_hdmi_decides(en: Seq<MonitorView>, hdmi: Seq<char>, j: int)
    requires
        en.len() >= 2,
        0 <= j < en.len(),
        hdmi_named(en[j], hdmi),
    ensures
        hdmi_named(deciding(en, hdmi), hdmi),
        exists|k: int|
            0 <= k <= j && deciding(en, hdmi) == en[k] && forall|m: int|
                0 <= m < k ==> !hdmi_named(#[trigger] en[m], hdmi),
{
    lemma_first_match(en, hdmi, false, 0);
    let k = first_match(en, hdmi, false, 0) as int;
    if k > j {
        assert(!mon_match(en[j], hdmi, false));
    }
    assert forall|m: int| 0 <= m < k implies !hdmi_named(#[trigger] en[m], hdmi) by {
        assert(!mon_match(en[m], hdmi, false));
    }
}

/// The outcome of reading the monitors.
#[derive(Debug, Clone, Copy, PartialEq, Eq, Structural)]
pub enum MonitorPick {
    /// The report is not a JSON array, or the deciding monitor lacks its id
    /// or active workspace.
    Unreadable,
    /// No monitor is enabled.
    NoneEnabled,
    /// The deciding monitor's id and active workspace.
    Target { monitor: i64, workspace: i64 },
}

/// The outcome for a monitors report (`hyprctl -j monitors`).
pub open spec fn pick_spec(json: Seq<u8>, hdmi: Seq<char>) -> MonitorPick {
    match hypr_monitors(json) {
        None => MonitorPick::Unreadable,
        Some(ms) => {
            let en = enabled_monitors(ms);
            if en.len() == 0 {
                MonitorPick::NoneEnabled
            } else {
                let t = deciding(en, hdmi);
                match (t.id, t.workspace) {
                    (Some(m), Some(w)) => MonitorPick::Target { monitor: m, workspace: w },
                    _ => MonitorPick::Unreadable,
                }
            }
        },
    }
}

fn copy_str(s: &Option<String>) -> (r: Option<String>)
    ensures
        opt_chars(r) == opt_chars(*s),
{
    match s {
        Some(x) => Some(string_of(&chars_of(x.as_str()))),
        None => None,
    }
}

fn copy_monitor(m: &Monitor) -> (r: Monitor)
    ensures
        r@ == m@,
{
    Monitor {
        disabled: m.disabled,
        name: copy_str(&m.name),
        focused: m.focused,
        id: m.id,
        workspace: m.workspace,
    }
}

fn find_match(en: &Vec<Monitor>, hdmi: &Vec<char>, focus: bool) -> (r: usize)
    ensures
        r == first_match(en@.map_values(|m: Monitor| m@), hdmi@, focus, 0),
{
    let ghost mv = en@.map_values(|m: Monitor| m@);
    let mut i: usize = 0;
    while i < en.len()
        invariant
            i <= en@.len(),
            mv == en@.map_values(|m: Monitor| m@),
            first_match(mv, hdmi@, focus, i as nat) == first_match(mv, hdmi@, focus, 0),
        decreases en@.len() - i,
    {
        let m = &en[i];
        assert(mv[i as int] == m@);
        let hit = if focus {
            match m.focused {
                Some(b) => b,
                None => false,
            }
        } else {
            match &m.name {
                Some(n) => {
                    let low = chars_of(lowercase(n.as_str()).as_str());
                    contains_vec(&low, hdmi)
                },
                None => false,
            }
        };
        if hit {
            return i;
        }
        i = i + 1;
    }
    i
}

/// Reads a monitors report (`hyprctl -j monitors`) and picks the monitor
/// whose active workspace decides the pet's state.
pub fn pick_monitor(json: &[u8], hdmi_match: &str) -> (r: MonitorPick)
    ensures
        r == pick_spec(json@, hdmi_match@),
{
    let ms = match read_monitors(json) {
        None => {
            return MonitorPick::Unreadable;
        },
        Some(ms) => ms,
    };
    let ghost mv = ms@.map_values(|m: Monitor| m@);
    let mut en: Vec<Monitor> = Vec::new();
    let mut i: usize = 0;
    while i < ms.len()
        invariant
            i <= ms@.len(),
            mv == ms@.map_values(|m: Monitor| m@),
            en@.map_values(|m: Monitor| m@) == enabled_monitors(mv.take(i as int)),
        decreases ms@.len() - i,
    {
        assert(mv.take(i + 1).drop_last() =~= mv.take(i as int));
        let m = &ms[i];
        let off = match m.disabled {
            Some(b) => b,
            None => false,
        };
        if !off {
            en.push(copy_monitor(m));
            proof {
                assert(en@.map_values(|m: Monitor| m@) =~= enabled_monitors(mv.take(i as int)).push(
                    mv[i as int],
                ));
            }
        }
        assert(mv.take(i + 1).last() == mv[i as int]);
        i = i + 1;
    }
    assert(mv.take(ms@.len() as int) =~= mv);
    if en.len() == 0 {
        return MonitorPick::NoneEnabled;
    }
    let hdmi = chars_of(hdmi_match);
    let k = find_match(&en, &hdmi, en.len() < 2);
    let t = if k < en.len() {
        &en[k]
    } else {
        &en[0]
    };
    match (t.id, t.workspace) {
        (Some(m), Some(w)) => MonitorPick::Target { monitor: m, workspace: w },
        _ => MonitorPick::Unreadable,
    }
}

/// Whether a client is on monitor `mon` and workspace `ws`.
pub open spec fn on_target(c: ClientView, mon: i64, ws: i64) -> bool {
    c.monitor == Some(mon) && c.workspace == Some(ws)
}

/// A client's focus rank (unknown ranks last).
pub open spec fn focus_key(c: ClientView) -> i64 {
    match c.focus_history {
        Some(k) => k,
        None => i64::MAX,
    }
}

/// The active window on monitor `mon`'s workspace `ws`: the first client
/// there with the lowest focus rank.
pub open spec fn active_client(cs: Seq<ClientView>, mon: i64, ws: i64) -> Option<ClientView>
    decreases cs.len(),
{
    if cs.len() == 0 {
        None
    } else {
        let best = active_client(cs.drop_last(), mon, ws);
        let c = cs.last();
        if !on_target(c, mon, ws) {
            best
        } else {
            match best {
                None => Some(c),
                Some(b) => if focus_key(c) < focus_key(b) {
                    Some(c)
                } else {
                    best
                },
            }
        }
    }
}

/// A reported string, trimmed and lower-cased (empty when absent).
pub open spec fn clean(s: Option<Seq<char>>) -> Seq<char> {
    lowercase_of(
        trim(
            match s {
                Some(x) => x,
                None => Seq::empty(),
            },
        ),
    )
}

/// The deciding window for a clients report: `None` unless it is a JSON
/// array; else the active client's class and title (trimmed, lower-cased),
/// or no window when the workspace is empty.
pub open spec fn window_spec(json: Seq<u8>, mon: i64, ws: i64) -> Option<(Seq<char>, Seq<char>)> {
    match hypr_clients(json) {
        None => None,
        Some(cs) => match active_client(cs, mon, ws) {
            Some(c) => Some((clean(c.class), clean(c.title))),
            None => Some((Seq::empty(), Seq::empty())),
        },
    }
}

/// The context's class and title.
pub open spec fn ctx_view(r: Option<WindowContext>) -> Option<(Seq<char>, Seq<char>)> {
    match r {
        Some(c) => Some((c.class@, c.title@)),
        None => None,
    }
}

fn clean_str(s: &Option<String>) -> (r: String)
    ensures
        r@ == clean(opt_chars(*s)),
{
    let t = match s {
        Some(x) => trim_str(x.as_str()),
        None => trim_vec(&Vec::new()),
    };
    lowercase(string_of(&t).as_str())
}

/// Reads a clients report (`hyprctl -j clients`) and returns the active
/// window on monitor `monitor`'s workspace `workspace`.
pub fn window_on(json: &[u8], monitor: i64, workspace: i64) -> (r: Option<WindowContext>)
    ensures
        ctx_view(r) == window_spec(json@, monitor, workspace),
{
    let cs = match read_clients(json) {
        None => {
            return None;
        },
        Some(cs) => cs,
    };
    let ghost cv = cs@.map_values(|c: Client| c@);
    let mut best: Option<usize> = None;
    let mut i: usize = 0;
    while i < cs.len()
        invariant
            i <= cs@.len(),
            cv == cs@.map_values(|c: Client| c@),
            match best {
                Some(b) => b < i && active_client(cv.take(i as int), monitor, workspace) == Some(
                    cv[b as int],
                ),
                None => active_client(cv.take(i as int), monitor, workspace) is None,
            },
        decreases cs@.len() - i,
    {
        assert(cv.take(i + 1).drop_last() =~= cv.take(i as int));
        assert(cv.take(i + 1).last() == cv[i as int]);
        let c = &cs[i];
        assert(cv[i as int] == c@);
        if c.monitor == Some(monitor) && c.workspace == Some(workspace) {
            let key = match c.focus_history {
                Some(k) => k,
                None => i64::MAX,
            };
            match best {
                None => {
                    best = Some(i);
                },
                Some(b) => {
                    let bk = match cs[b].focus_history {
                        Some(k) => k,
                        None => i64::MAX,
                    };
                    assert(cv[b as int] == cs@[b as int]@);
                    if key < bk {
                        best = Some(i);
                    }
                },
            }
        }
        i = i + 1;
    }
    assert(cv.take(cs@.len() as int) =~= cv);
    match best {
        Some(b) => {
            assert(cv[b as int] == cs@[b as int]@);
            Some(WindowContext { class: clean_str(&cs[b].class), title: clean_str(&cs[b].title) })
        },
        None => {
            let e = WindowContext::empty();
            Some(e)
        },
    }
}

// ---------------------------------------------------------------------------
// GNOME (Mutter) and X11 fallbacks

/// What `serde_json` reads from the Focused Window extension's JSON:
/// `None` when it is not JSON, else its `wm_class` and `title` (each when
/// a string).
pub uninterp spec fn focused_window_fields(json: Seq<char>) -> Option<(Option<Seq<char>>, Option<Seq<char>>)>;

/// The view of read fields.
pub open spec fn fields_view(r: Option<(Option<String>, Option<String>)>) -> Option<
    (Option<Seq<char>>, Option<Seq<char>>),
> {
    match r {
        Some((a, b)) => Some((opt_chars(a), opt_chars(b))),
        None => None,
    }
}

/// `serde_json::from_str` on the extension's JSON, then its `wm_class` and
/// `title` strings; the result depends on the text alone.
#[verifier::external_body]
fn read_focused_window(json: &str) -> (r: Option<(Option<String>, Option<String>)>)
    ensures
        fields_view(r) == focused_window_fields(json@),
{
    let v: serde_json::Value = serde_json::from_str(json).ok()?;
    Some((v["wm_class"].as_str().map(|s| s.to_string()), v["title"].as_str().map(|s| s.to_string())))
}

/// The window the Focused Window extension reports (from its `gdbus`
/// reply): class and title lower-cased; `None` when the reply holds no
/// quoted JSON, or the JSON lacks a string class or title.
pub open spec fn focused_window_spec(stdout: Seq<u8>) -> Option<(Seq<char>, Seq<char>)> {
    match quoted_spec(utf8_lossy(stdout)) {
        None => None,
        Some(j) => match focused_window_fields(j) {
            Some((Some(c), Some(t))) => Some((lowercase_of(c), lowercase_of(t))),
            _ => None,
        },
    }
}

/// The focused window from the Focused Window extension's `gdbus` reply.
pub fn focused_window_context(stdout: &[u8]) -> (r: Option<WindowContext>)
    ensures
        ctx_view(r) == focused_window_spec(stdout@),
{
    let json = match extract_gdbus_string(stdout) {
        Some(j) => j,
        None => {
            return None;
        },
    };
    match read_focused_window(json.as_str()) {
        Some((Some(c), Some(t))) => {
            let class = lowercase(c.as_str());
            let title = lowercase(t.as_str());
            if chars_of(class.as_str()).len() == 0 && chars_of(title.as_str()).len() == 0 {
                let e = WindowContext::empty();
                proof {
                    assert(class@ =~= Seq::<char>::empty());
                    assert(title@ =~= Seq::<char>::empty());
                }
                Some(e)
            } else {
                Some(WindowContext { class, title })
            }
        },
        _ => None,
    }
}

/// The window the Window Calls extension reports, from its class and
/// title `gdbus` replies: each quoted string lower-cased; `None` when
/// either reply holds no quoted string.
pub open spec fn window_calls_spec(class_out: Seq<u8>, title_out: Seq<u8>) -> Option<(Seq<char>, Seq<char>)> {
    match (quoted_spec(utf8_lossy(class_out)), quoted_spec(utf8_lossy(title_out))) {
        (Some(c), Some(t)) => Some((lowercase_of(c), lowercase_of(t))),
        _ => None,
    }
}

/// The focused window from the Window Calls extension's replies.
pub fn window_calls_context(class_out: &[u8], title_out: &[u8]) -> (r: Option<WindowContext>)
    ensures
        ctx_view(r) == window_calls_spec(class_out@, title_out@),
{
    let c = match extract_gdbus_string(class_out) {
        Some(c) => c,
        None => {
            return None;
        },
    };
    let t = match extract_gdbus_string(title_out) {
        Some(t) => t,
        None => {
            return None;
        },
    };
    Some(WindowContext { class: lowercase(c.as_str()), title: lowercase(t.as_str()) })
}

/// The active window id `xdotool getactivewindow` printed (trimmed), when
/// there is one.
pub fn active_window_id(stdout: &[u8]) -> (r: Option<String>)
    ensures
        opt_chars(r) == (if trim(utf8_lossy(stdout@)).len() > 0 {
            Some(trim(utf8_lossy(stdout@)))
        } else {
            None
        }),
{
    let raw = decode_lossy(stdout);
    let t = trim_str(raw.as_str());
    if t.len() == 0 {
        None
    } else {
        Some(string_of(&t))
    }
}

/// The window `xdotool` reports from its class-name and name outputs:
/// each trimmed and lower-cased.
pub fn xdotool_context(class_out: &[u8], title_out: &[u8]) -> (r: WindowContext)
    ensures
        r.class@ == lowercase_of(trim(utf8_lossy(class_out@))),
        r.title@ == lowercase_of(trim(utf8_lossy(title_out@))),
{
    let c = trim_str(decode_lossy(class_out).as_str());
    let t = trim_str(decode_lossy(title_out).as_str());
    WindowContext { class: lowercase(string_of(&c).as_str()), title: lowercase(string_of(&t).as_str()) }
}

} // verus!
