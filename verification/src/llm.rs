//! Talking to the language models: prompts, parsing replies, the model and
//! key settings, reading streamed answers, and the messages that reach the
//! bubble.

use vstd::prelude::*;
use crate::sprites::{jokes, offline_joke_at, offline_tip_at, rotation_index, tips_for, State};
use crate::text::{
    byte_suffix, byte_suffix_of, chars_of, contains, contains_lit, first_line, after_first_line,
    lemma_first_index_props, next_line, opt_vec, slice_of, starts_with, starts_with_lit, string_of,
    trim, trim_str, trim_vec, uppercase, uppercase_of,
};

verus! {

/// Ollama's generate endpoint (local model: tips, jokes, and the fallback
/// for questions).
pub const OLLAMA_URL: &'static str = "http://localhost:11434/api/generate";
/// Base of Gemini's model endpoints (questions).
pub const GEMINI_BASE: &'static str = "https://generativelanguage.googleapis.com/v1beta/models";
/// The local model used when none is configured.
pub const DEFAULT_LOCAL_MODEL: &'static str = "qwen2.5:1.5b";
/// The Gemini model used when none is configured.
pub const DEFAULT_GEMINI_MODEL: &'static str = "gemini-flash-latest";

/// `a` followed by `b`.
pub fn concat(a: &str, b: &str) -> (r: String)
    ensures
        r@ == a@ + b@,
{
    let mut v = chars_of(a);
    let mut w = chars_of(b);
    v.append(&mut w);
    string_of(&v)
}

/// The optional string's characters.
pub open spec fn opt_str(o: Option<String>) -> Option<Seq<char>> {
    match o {
        Some(s) => Some(s@),
        None => None,
    }
}

/// The model and key settings; each is set at most once (the first value
/// stays).
pub struct ModelSettings {
    local: Option<String>,
    gemini: Option<String>,
    key: Option<String>,
}

/// The settings as characters.
pub struct SettingsView {
    pub local: Option<Seq<char>>,
    pub gemini: Option<Seq<char>>,
    pub key: Option<Seq<char>>,
}

impl View for ModelSettings {
    type V = SettingsView;

    closed spec fn view(&self) -> SettingsView {
        SettingsView { local: opt_str(self.local), gemini: opt_str(self.gemini), key: opt_str(self.key) }
    }
}

/// `Some(v)` unless already set.
pub open spec fn set_once(cur: Option<Seq<char>>, v: Seq<char>) -> Option<Seq<char>> {
    if cur is Some {
        cur
    } else {
        Some(v)
    }
}

/// The configured value, or `default`.
pub open spec fn or_default(cur: Option<Seq<char>>, default: Seq<char>) -> Seq<char> {
    match cur {
        Some(v) => v,
        None => default,
    }
}

/// The API key to use: the environment's when it is not blank, else the
/// configured one when it is not blank.
pub open spec fn key_choice(env: Option<Seq<char>>, configured: Option<Seq<char>>) -> Option<Seq<char>> {
    match env {
        Some(k) if trim(k).len() > 0 => Some(k),
        _ => match configured {
            Some(k) if trim(k).len() > 0 => Some(k),
            _ => None,
        },
    }
}

/// A non-blank key in the environment wins; otherwise a non-blank
/// configured key is used; blank keys count as missing.
pub proof fn lemma_key_precedence(env: Option<Seq<char>>, configured: Option<Seq<char>>)
    ensures
        env matches Some(k) && trim(k).len() > 0 ==> key_choice(env, configured) == env,
        !(env matches Some(k) && trim(k).len() > 0) && (configured matches Some(k) && trim(k).len() > 0)
            ==> key_choice(env, configured) == configured,
        !(env matches Some(k) && trim(k).len() > 0) && !(configured matches Some(k) && trim(k).len()
            > 0) ==> key_choice(env, configured) is None,
{
}

/// Gemini's streaming endpoint for `model` (the key goes in a header, not
/// the URL).
pub open spec fn endpoint_for(model: Seq<char>) -> Seq<char> {
    GEMINI_BASE@ + "/"@ + model + ":streamGenerateContent?alt=sse"@
}

fn opt_clone(o: &Option<String>) -> (r: Option<String>)
    ensures
        opt_str(r) == opt_str(*o),
{
    match o {
        Some(s) => Some(string_of(&chars_of(s.as_str()))),
        None => None,
    }
}

impl ModelSettings {
    /// Nothing set yet.
    pub fn new() -> (r: ModelSettings)
        ensures
            r@ == (SettingsView { local: None, gemini: None, key: None }),
    {
        ModelSettings { local: None, gemini: None, key: None }
    }

    /// Sets the local model (tips, jokes, question fallback), once.
    pub fn set_model(&mut self, name: String)
        ensures
            final(self)@ == (SettingsView { local: set_once(old(self)@.local, name@), ..old(self)@ }),
    {
        if self.local.is_none() {
            self.local = Some(name);
        }
    }

    /// Sets the Gemini model used for questions, once.
    pub fn set_gemini_model(&mut self, name: String)
        ensures
            final(self)@ == (SettingsView { gemini: set_once(old(self)@.gemini, name@), ..old(self)@ }),
    {
        if self.gemini.is_none() {
            self.gemini = Some(name);
        }
    }

    /// Sets the configured Gemini API key, once.
    pub fn set_api_key(&mut self, key: String)
        ensures
            final(self)@ == (SettingsView { key: set_once(old(self)@.key, key@), ..old(self)@ }),
    {
        if self.key.is_none() {
            self.key = Some(key);
        }
    }

    /// The local model's name.
    pub fn local_model(&self) -> (r: String)
        ensures
            r@ == or_default(self@.local, DEFAULT_LOCAL_MODEL@),
    {
        match &self.local {
            Some(m) => string_of(&chars_of(m.as_str())),
            None => string_of(&chars_of(DEFAULT_LOCAL_MODEL)),
        }
    }

    /// The Gemini model's name.
    pub fn gemini_model(&self) -> (r: String)
        ensures
            r@ == or_default(self@.gemini, DEFAULT_GEMINI_MODEL@),
    {
        match &self.gemini {
            Some(m) => string_of(&chars_of(m.as_str())),
            None => string_of(&chars_of(DEFAULT_GEMINI_MODEL)),
        }
    }

    /// The API key, given the environment's value (if it has a readable
    /// one): the environment wins unless blank.
    pub fn api_key(&self, env: Option<&str>) -> (r: Option<String>)
        ensures
            opt_str(r) == key_choice(
                match env {
                    Some(k) => Some(k@),
                    None => None,
                },
                self@.key,
            ),
    {
        match env {
            Some(k) => {
                if trim_str(k).len() > 0 {
                    return Some(string_of(&chars_of(k)));
                }
            },
            None => {},
        }
        match &self.key {
            Some(k) => {
                if trim_str(k.as_str()).len() > 0 {
                    Some(string_of(&chars_of(k.as_str())))
                } else {
                    None
                }
            },
            None => None,
        }
    }

    /// Gemini's streaming endpoint for the configured model.
    pub fn gemini_endpoint(&self) -> (r: String)
        ensures
            r@ == endpoint_for(or_default(self@.gemini, DEFAULT_GEMINI_MODEL@)),
    {
        let m = self.gemini_model();
        let a = concat(GEMINI_BASE, "/");
        let b = concat(a.as_str(), m.as_str());
        concat(b.as_str(), ":streamGenerateContent?alt=sse")
    }
}

/// The tip-and-joke prompt for what the user is doing.
pub open spec fn tip_prompt(context: Seq<char>) -> Seq<char> {
    "Linux desktop pet. User is: "@ + context
        + ". Reply EXACTLY:\nTIP: <linux tip max 8 words>\nJOKE: <programming joke max 10 words>"@
}

/// The prompt for a free-form question.
pub open spec fn question_prompt(question: Seq<char>) -> Seq<char> {
    "You are LinuxPal, a concise Linux desktop assistant. Answer in plain text (no markdown), at most 40 words.\nQuestion: "@
        + question
}

/// The tip-and-joke prompt for what the user is doing.
pub fn build_prompt(context: &str) -> (r: String)
    ensures
        r@ == tip_prompt(context@),
{
    let a = concat("Linux desktop pet. User is: ", context);
    concat(
        a.as_str(),
        ". Reply EXACTLY:\nTIP: <linux tip max 8 words>\nJOKE: <programming joke max 10 words>",
    )
}

/// The prompt for a free-form question.
pub fn ask_prompt(question: &str) -> (r: String)
    ensures
        r@ == question_prompt(question@),
{
    concat(
        "You are LinuxPal, a concise Linux desktop assistant. Answer in plain text (no markdown), at most 40 words.\nQuestion: ",
        question,
    )
}

/// The tip used when a reply has none.
pub open spec fn default_tip() -> Seq<char> {
    "try: tldr <command> for quick help"@
}

/// The joke used when a reply has none.
pub open spec fn default_joke() -> Seq<char> {
    "sudo make me a sandwich"@
}

/// The tip and joke after one more reply line: a line whose upper case
/// begins with `TIP:` (or `JOKE:`) sets the tip (or joke) to the trimmed
/// text after that many bytes; `None` where slicing there would panic.
pub open spec fn reply_step(acc: Option<(Seq<char>, Seq<char>)>, raw_line: Seq<char>) -> Option<
    (Seq<char>, Seq<char>),
> {
    match acc {
        None => None,
        Some((t, j)) => {
            let l = trim(raw_line);
            let u = uppercase_of(l);
            if starts_with(u, "TIP:"@) {
                match byte_suffix(l, 4) {
                    Some(r) => Some((trim(r), j)),
                    None => None,
                }
            } else if starts_with(u, "JOKE:"@) {
                match byte_suffix(l, 5) {
                    Some(r) => Some((t, trim(r))),
                    None => None,
                }
            } else {
                Some((t, j))
            }
        },
    }
}

/// The tip and joke after every line of `text`, in order.
pub open spec fn reply_fold(acc: Option<(Seq<char>, Seq<char>)>, text: Seq<char>) -> Option<
    (Seq<char>, Seq<char>),
>
    decreases text.len(),
{
    if text.len() == 0 {
        acc
    } else {
        proof {
            lemma_first_index_props(text, '\n');
        }
        reply_fold(reply_step(acc, first_line(text)), after_first_line(text))
    }
}

/// The last tip and joke lines of a reply (empty when absent), or `None`
/// when a tagged line cannot be sliced after its tag.
pub open spec fn reply_scan(raw: Seq<char>) -> Option<(Seq<char>, Seq<char>)> {
    reply_fold(Some((Seq::empty(), Seq::empty())), raw)
}

/// A reply that can be read without a panic.
pub open spec fn reply_ok(raw: Seq<char>) -> bool {
    reply_scan(raw) is Some
}

/// The tip and joke of a readable reply, with defaults for missing ones.
pub open spec fn response_spec(raw: Seq<char>) -> (Seq<char>, Seq<char>) {
    let (t, j) = reply_scan(raw)->0;
    (
        if t.len() == 0 {
            default_tip()
        } else {
            t
        },
        if j.len() == 0 {
            default_joke()
        } else {
            j
        },
    )
}

fn reply_line(acc: Option<(Vec<char>, Vec<char>)>, raw_line: &Vec<char>) -> (r: Option<(Vec<char>, Vec<char>)>)
    ensures
        pair_view(r) == reply_step(pair_view(acc), raw_line@),
{
    match acc {
        None => None,
        Some((t, j)) => {
            let l = trim_vec(raw_line);
            let u = chars_of(uppercase(string_of(&l).as_str()).as_str());
            if starts_with_lit(&u, "TIP:") {
                match byte_suffix_of(&l, 4) {
                    Some(rest) => Some((trim_vec(&rest), j)),
                    None => None,
                }
            } else if starts_with_lit(&u, "JOKE:") {
                match byte_suffix_of(&l, 5) {
                    Some(rest) => Some((t, trim_vec(&rest))),
                    None => None,
                }
            } else {
                Some((t, j))
            }
        },
    }
}

/// The optional pair's characters.
pub open spec fn pair_view(o: Option<(Vec<char>, Vec<char>)>) -> Option<(Seq<char>, Seq<char>)> {
    match o {
        Some((a, b)) => Some((a@, b@)),
        None => None,
    }
}

fn scan_reply(raw: &str) -> (r: Option<(Vec<char>, Vec<char>)>)
    ensures
        pair_view(r) == reply_scan(raw@),
{
    let v = chars_of(raw);
    let n = v.len();
    let mut pos: usize = 0;
    let mut acc: Option<(Vec<char>, Vec<char>)> = Some((Vec::new(), Vec::new()));
    assert(v@.subrange(0, n as int) =~= v@);
    assert(pair_view(acc) == Some((Seq::<char>::empty(), Seq::<char>::empty())));
    while pos < n
        invariant
            n == v@.len(),
            pos <= n,
            v@ == raw@,
            reply_fold(pair_view(acc), v@.subrange(pos as int, n as int)) == reply_scan(raw@),
        decreases n - pos,
    {
        let ghost rest = v@.subrange(pos as int, n as int);
        let (line, next) = next_line(&v, pos);
        acc = reply_line(acc, &line);
        pos = next;
        assert(reply_fold(pair_view(acc), v@.subrange(pos as int, n as int)) == reply_scan(raw@)) by {
            assert(rest.len() > 0);
        }
    }
    assert(v@.subrange(n as int, n as int) =~= Seq::<char>::empty());
    acc
}

/// Reads the tip and joke out of a model reply (the last `TIP:` and
/// `JOKE:` lines, tags matched in upper case), with defaults for missing
/// ones. The reply must be one whose tagged lines can be sliced after the
/// tag.
pub fn parse_response(raw: &str) -> (r: LlmResponse)
    requires
        reply_ok(raw@),
    ensures
        (r.tip@, r.joke@) == response_spec(raw@),
{
    let scanned = scan_reply(raw);
    match scanned {
        Some((t, j)) => {
            let tip = if t.len() == 0 {
                string_of(&chars_of("try: tldr <command> for quick help"))
            } else {
                string_of(&t)
            };
            let joke = if j.len() == 0 {
                string_of(&chars_of("sudo make me a sandwich"))
            } else {
                string_of(&j)
            };
            LlmResponse { tip, joke }
        },
        None => {
            proof {
                assert(false);
            }
            LlmResponse { tip: String::new(), joke: String::new() }
        },
    }
}

/// Reads a model reply like [`parse_response`], or `None` when one of its
/// tagged lines cannot be sliced after the tag.
pub fn parse_reply(raw: &str) -> (r: Option<LlmResponse>)
    ensures
        r is Some <==> reply_ok(raw@),
        r matches Some(x) ==> (x.tip@, x.joke@) == response_spec(raw@),
{
    match scan_reply(raw) {
        Some(_) => Some(parse_response(raw)),
        None => None,
    }
}

/// What a failed question shows: a rate-limit message when Gemini said so
/// (status 429 or `RESOURCE_EXHAUSTED`), else a general failure.
pub open spec fn failure_message(gemini_err: Seq<char>) -> Seq<char> {
    if contains(gemini_err, "429"@) || contains(gemini_err, "RESOURCE_EXHAUSTED"@) {
        "rate limited & local model down \u{2014} try later"@
    } else {
        "ask failed \u{2014} Gemini error and no local model"@
    }
}

/// The message for a question that both models failed to answer.
pub fn ask_failure_message(gemini_err: &str) -> (r: &'static str)
    ensures
        r@ == failure_message(gemini_err@),
{
    let e = chars_of(gemini_err);
    if contains_lit(&e, "429") || contains_lit(&e, "RESOURCE_EXHAUSTED") {
        "rate limited & local model down \u{2014} try later"
    } else {
        "ask failed \u{2014} Gemini error and no local model"
    }
}

/// A message for the bubble, produced asynchronously.
#[derive(Debug, Clone)]
pub enum BubbleUpdate {
    /// Ambient two-line state tip and joke.
    TipJoke { tip: String, joke: String },
    /// Free-form text (a streamed answer, or a status line).
    Plain(String),
}

/// A bubble update with its text as characters.
pub enum UpdateView {
    TipJoke { tip: Seq<char>, joke: Seq<char> },
    Plain(Seq<char>),
}

impl View for BubbleUpdate {
    type V = UpdateView;

    open spec fn view(&self) -> UpdateView {
        match self {
            BubbleUpdate::TipJoke { tip, joke } => UpdateView::TipJoke { tip: tip@, joke: joke@ },
            BubbleUpdate::Plain(t) => UpdateView::Plain(t@),
        }
    }
}

/// A parsed tip-and-joke reply.
#[derive(Debug, Clone)]
pub struct LlmResponse {
    pub tip: String,
    pub joke: String,
}

// ---------------------------------------------------------------------------
// Streamed answers and tip replies

/// The message when no Gemini API key is set.
pub const NO_KEY_MSG: &'static str = "no Gemini API key (set GEMINI_API_KEY or gemini_api_key in config)";

/// One part of a streamed answer chunk: whether it is hidden reasoning, and
/// its text.
#[derive(Debug, Clone)]
pub struct Part {
    pub thought: Option<bool>,
    pub text: Option<String>,
}

/// A part with its text as characters.
pub struct PartView {
    pub thought: Option<bool>,
    pub text: Option<Seq<char>>,
}

impl View for Part {
    type V = PartView;

    open spec fn view(&self) -> PartView {
        PartView { thought: self.thought, text: opt_str(self.text) }
    }
}

/// The answer text of some parts: the text of every part that is not
/// marked as a thought, in order.
pub open spec fn parts_text(ps: Seq<PartView>) -> Seq<char>
    decreases ps.len(),
{
    if ps.len() == 0 {
        Seq::empty()
    } else {
        let p = ps.last();
        parts_text(ps.drop_last()) + if p.thought == Some(true) {
            Seq::empty()
        } else {
            match p.text {
                Some(t) => t,
                None => Seq::empty(),
            }
        }
    }
}

/// The answer text of a chunk's content parts, skipping the hidden
/// reasoning that thinking models emit.
pub fn extract_text(parts: &Vec<Part>) -> (r: String)
    ensures
        r@ == parts_text(parts@.map_values(|p: Part| p@)),
{
    let ghost pv = parts@.map_values(|p: Part| p@);
    let mut out: Vec<char> = Vec::new();
    let mut i: usize = 0;
    while i < parts.len()
        invariant
            i <= parts@.len(),
            pv == parts@.map_values(|p: Part| p@),
            out@ == parts_text(pv.take(i as int)),
        decreases parts@.len() - i,
    {
        assert(pv.take(i + 1).drop_last() =~= pv.take(i as int));
        let p = &parts[i];
        let skip = match p.thought {
            Some(b) => b,
            None => false,
        };
        if !skip {
            match &p.text {
                Some(t) => {
                    let mut c = chars_of(t.as_str());
                    out.append(&mut c);
                },
                None => {},
            }
        }
        proof {
            assert(pv.take(i + 1).last() == parts@[i as int]@);
            assert(out@ =~= parts_text(pv.take(i + 1)));
        }
        i = i + 1;
    }
    assert(pv.take(parts@.len() as int) =~= pv);
    string_of(&out)
}

/// What `serde_json` reads from the data of one streamed Gemini event:
/// `None` when it is not JSON, else the content parts of its first
/// candidate (`None` when there is no parts array).
pub uninterp spec fn gemini_event_parts(data: Seq<char>) -> Option<Option<Seq<PartView>>>;

/// The view of a read event.
pub open spec fn event_view(r: Option<Option<Vec<Part>>>) -> Option<Option<Seq<PartView>>> {
    match r {
        None => None,
        Some(None) => Some(None),
        Some(Some(v)) => Some(Some(v@.map_values(|p: Part| p@))),
    }
}

/// `serde_json::from_str` on an event's data, then the first candidate's
/// content parts, each as its `thought` flag and `text` string; the result
/// depends on the data alone.
#[verifier::external_body]
fn read_gemini_event(data: &str) -> (r: Option<Option<Vec<Part>>>)
    ensures
        event_view(r) == gemini_event_parts(data@),
{
    let v: serde_json::Value = match serde_json::from_str(data) {
        Ok(v) => v,
        Err(_) => return None,
    };
    let parts = v["candidates"][0]["content"]["parts"].as_array();
    Some(parts.map(|ps| ps.iter().map(|p| Part {
        thought: p["thought"].as_bool(),
        text: p["text"].as_str().map(|t| t.to_string()),
    }).collect()))
}

/// The data of a server-sent event line: the trimmed text after `data:`
/// in the trimmed line, when there is some.
pub open spec fn sse_data(line: Seq<char>) -> Option<Seq<char>> {
    let l = trim(line);
    if starts_with(l, "data:"@) {
        let d = trim(l.subrange(5, l.len() as int));
        if d.len() > 0 {
            Some(d)
        } else {
            None
        }
    } else {
        None
    }
}

/// What a line of Gemini's event stream adds to the answer; `None` when
/// the line is skipped (no data, or data that is not JSON).
pub open spec fn gemini_added(line: Seq<char>) -> Option<Seq<char>> {
    match sse_data(line) {
        None => None,
        Some(d) => match gemini_event_parts(d) {
            None => None,
            Some(None) => Some(Seq::empty()),
            Some(Some(ps)) => Some(parts_text(ps)),
        },
    }
}

/// Whether to show the answer so far: after a line that was read, when a
/// push is due and the answer is not blank.
pub open spec fn push_now(read: bool, push_due: bool, acc: Seq<char>) -> bool {
    read && push_due && trim(acc).len() > 0
}

/// Takes one line of Gemini's event stream: adds the answer text it
/// carries to `acc`, and returns the trimmed answer so far when it should
/// be shown now (`push_due`: the last push was long enough ago).
pub fn gemini_line(acc: &mut Vec<char>, line: &str, push_due: bool) -> (r: Option<String>)
    ensures
        final(acc)@ == old(acc)@ + match gemini_added(line@) {
            Some(a) => a,
            None => Seq::empty(),
        },
        r is Some <==> push_now(gemini_added(line@) is Some, push_due, final(acc)@),
        r matches Some(t) ==> t@ == trim(final(acc)@),
{
    let l = trim_str(line);
    if !starts_with_lit(&l, "data:") {
        return None;
    }
    proof {
        reveal_strlit("data:");
    }
    let d = trim_vec(&slice_of(&l, 5, l.len()));
    if d.len() == 0 {
        return None;
    }
    let ds = string_of(&d);
    let added = match read_gemini_event(ds.as_str()) {
        None => {
            return None;
        },
        Some(None) => String::new(),
        Some(Some(ps)) => extract_text(&ps),
    };
    let mut a = chars_of(added.as_str());
    acc.append(&mut a);
    let t = trim_vec(acc);
    if push_due && t.len() > 0 {
        Some(string_of(&t))
    } else {
        None
    }
}

/// The end of Gemini's stream: the trimmed answer, or an error when it is
/// blank (so the question falls back to the local model).
pub fn gemini_finish(acc: &Vec<char>) -> (r: Result<String, String>)
    ensures
        trim(acc@).len() == 0 ==> (r matches Err(e) && e@ == "gemini returned no text"@),
        trim(acc@).len() > 0 ==> (r matches Ok(t) && t@ == trim(acc@)),
{
    let t = trim_vec(acc);
    if t.len() == 0 {
        Err(string_of(&chars_of("gemini returned no text")))
    } else {
        Ok(string_of(&t))
    }
}

/// `s` with every line feed replaced by a space.
pub open spec fn one_line(s: Seq<char>) -> Seq<char> {
    s.map_values(|c: char| if c == '\n' {
        ' '
    } else {
        c
    })
}

/// The error for a refused Gemini request: `http <status>: <body>` with
/// the body on one line.
pub fn http_failure(status: &str, body: &str) -> (r: String)
    ensures
        r@ == "http "@ + status@ + ": "@ + one_line(body@),
{
    let b = chars_of(body);
    let mut flat: Vec<char> = Vec::new();
    let mut i: usize = 0;
    while i < b.len()
        invariant
            i <= b@.len(),
            flat@ == one_line(b@.take(i as int)),
        decreases b@.len() - i,
    {
        let c = if b[i] == '\n' {
            ' '
        } else {
            b[i]
        };
        flat.push(c);
        proof {
            assert(flat@ =~= one_line(b@.take(i + 1)));
        }
        i = i + 1;
    }
    assert(b@.take(b@.len() as int) =~= b@);
    let a = concat("http ", status);
    let a2 = concat(a.as_str(), ": ");
    concat(a2.as_str(), string_of(&flat).as_str())
}

/// What `serde_json` reads from one line of Ollama's stream: `None` when
/// it is not JSON, else its `response` (when a string) and `done` (when a
/// boolean).
pub uninterp spec fn ollama_chunk(line: Seq<char>) -> Option<(Option<Seq<char>>, Option<bool>)>;

/// The view of a read chunk.
pub open spec fn chunk_view(r: Option<(Option<String>, Option<bool>)>) -> Option<(Option<Seq<char>>, Option<bool>)> {
    match r {
        None => None,
        Some((t, d)) => Some((opt_str(t), d)),
    }
}

/// `serde_json::from_str` on a stream line, then its `response` string and
/// `done` flag; the result depends on the line alone.
#[verifier::external_body]
fn read_ollama_chunk(line: &str) -> (r: Option<(Option<String>, Option<bool>)>)
    ensures
        chunk_view(r) == ollama_chunk(line@),
{
    let v: serde_json::Value = match serde_json::from_str(line) {
        Ok(v) => v,
        Err(_) => return None,
    };
    Some((v["response"].as_str().map(|t| t.to_string()), v["done"].as_bool()))
}

/// What a line of Ollama's stream adds to the answer and whether it is the
/// last; `None` when it is skipped (blank, or not JSON).
pub open spec fn ollama_added(line: Seq<char>) -> Option<(Seq<char>, bool)> {
    if trim(line).len() == 0 {
        None
    } else {
        match ollama_chunk(line) {
            None => None,
            Some((t, d)) => Some(
                (
                    match t {
                        Some(x) => x,
                        None => Seq::empty(),
                    },
                    d == Some(true),
                ),
            ),
        }
    }
}

/// Takes one line of Ollama's stream: adds its text to `acc`; returns the
/// trimmed answer so far when it should be shown now, and whether the
/// stream is done.
pub fn ollama_line(acc: &mut Vec<char>, line: &str, push_due: bool) -> (r: (Option<String>, bool))
    ensures
        final(acc)@ == old(acc)@ + match ollama_added(line@) {
            Some(a) => a.0,
            None => Seq::empty(),
        },
        r.0 is Some <==> push_now(ollama_added(line@) is Some, push_due, final(acc)@),
        r.0 matches Some(t) ==> t@ == trim(final(acc)@),
        r.1 == (match ollama_added(line@) {
            Some(a) => a.1,
            None => false,
        }),
{
    if trim_str(line).len() == 0 {
        return (None, false);
    }
    let (t, d) = match read_ollama_chunk(line) {
        None => {
            return (None, false);
        },
        Some(x) => x,
    };
    match t {
        Some(x) => {
            let mut a = chars_of(x.as_str());
            acc.append(&mut a);
        },
        None => {},
    }
    let tr = trim_vec(acc);
    let push = if push_due && tr.len() > 0 {
        Some(string_of(&tr))
    } else {
        None
    };
    let done = match d {
        Some(b) => b,
        None => false,
    };
    (push, done)
}

/// The end of Ollama's stream: the trimmed answer, or `no answer` when it
/// is blank.
pub fn ollama_finish(acc: &Vec<char>) -> (r: String)
    ensures
        r@ == if trim(acc@).len() == 0 {
            "no answer"@
        } else {
            trim(acc@)
        },
{
    let t = trim_vec(acc);
    if t.len() == 0 {
        string_of(&chars_of("no answer"))
    } else {
        string_of(&t)
    }
}

/// What `serde_json` reads from Ollama's (non-streamed) reply body: `None`
/// when it is not JSON, else its `response` (when a string).
pub uninterp spec fn ollama_reply(body: Seq<u8>) -> Option<Option<Seq<char>>>;

/// The view of a read reply.
pub open spec fn reply_view(r: Option<Option<String>>) -> Option<Option<Seq<char>>> {
    match r {
        None => None,
        Some(t) => Some(opt_str(t)),
    }
}

/// `serde_json::from_slice` on the body, then its `response` string; the
/// result depends on the bytes alone.
#[verifier::external_body]
fn read_ollama_reply(body: &[u8]) -> (r: Option<Option<String>>)
    ensures
        reply_view(r) == ollama_reply(body@),
{
    let v: serde_json::Value = match serde_json::from_slice(body) {
        Ok(v) => v,
        Err(_) => return None,
    };
    Some(v["response"].as_str().map(|t| t.to_string()))
}

/// The bubble update after asking the local model for a tip about `state`,
/// given its reply body (`None` when the request failed) and the clock in
/// seconds: the reply's tip and joke; the offline tip and joke when there
/// is no reply or it is not JSON; nothing when the reply's text cannot be
/// read (a tagged line that cannot be sliced after its tag).
pub open spec fn tip_update_spec(body: Option<Seq<u8>>, state: State, secs: u64) -> Option<UpdateView> {
    let offline = UpdateView::TipJoke {
        tip: tips_for(state)[rotation_index(secs, tips_for(state).len())],
        joke: jokes()[rotation_index(secs, jokes().len())],
    };
    match body {
        None => Some(offline),
        Some(b) => match ollama_reply(b) {
            None => Some(offline),
            Some(t) => {
                let raw = match t {
                    Some(x) => x,
                    None => Seq::empty(),
                };
                if reply_ok(raw) {
                    Some(UpdateView::TipJoke { tip: response_spec(raw).0, joke: response_spec(raw).1 })
                } else {
                    None
                }
            },
        },
    }
}

/// The update's view, if any.
pub open spec fn opt_update(r: Option<BubbleUpdate>) -> Option<UpdateView> {
    match r {
        Some(u) => Some(u@),
        None => None,
    }
}

/// The bubble update for a tip request's outcome (see `tip_update_spec`).
pub fn tip_update(body: Option<&[u8]>, state: &State, secs: u64) -> (r: Option<BubbleUpdate>)
    ensures
        opt_update(r) == tip_update_spec(
            match body {
                Some(b) => Some(b@),
                None => None,
            },
            *state,
            secs,
        ),
{
    let reply = match body {
        None => None,
        Some(b) => read_ollama_reply(b),
    };
    match reply {
        None => {
            let tip = string_of(&chars_of(offline_tip_at(state, secs)));
            let joke = string_of(&chars_of(offline_joke_at(secs)));
            Some(BubbleUpdate::TipJoke { tip, joke })
        },
        Some(t) => {
            let raw = match t {
                Some(x) => x,
                None => String::new(),
            };
            match parse_reply(raw.as_str()) {
                Some(x) => Some(BubbleUpdate::TipJoke { tip: x.tip, joke: x.joke }),
                None => None,
            }
        },
    }
}

} // verus!
