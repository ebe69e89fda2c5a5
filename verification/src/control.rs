//! Commands received over the control socket: one text line each, turned
//! into a [`ControlEvent`].

use vstd::prelude::*;
use crate::text::{
    chars_of, eq_lit, first_ws, index_of_ws, lowercase, lowercase_of, slice_of, starts_with,
    starts_with_lit, string_of, trim, trim_str, trim_vec, lemma_trim_idempotent, ascii_text, ascii_lowered,
    lemma_ascii_subrange, lemma_ascii_trim, lemma_first_ws_props,
};

verus! {

/// A command received over the control socket.
#[derive(Debug, Clone)]
pub enum ControlEvent {
    /// Pop up and wave.
    Summon,
    /// Show a one-off message in the bubble.
    Say(String),
    /// Ask the language model a free-form question.
    Ask(String),
    /// Run the configured morning launch routine.
    Morning,
    /// Force a named animation state for a few seconds.
    SetState(String),
    /// Exit the process.
    Quit,
}

/// A control event with its text as characters.
pub enum EventView {
    Summon,
    Say(Seq<char>),
    Ask(Seq<char>),
    Morning,
    SetState(Seq<char>),
    Quit,
}

impl View for ControlEvent {
    type V = EventView;

    open spec fn view(&self) -> EventView {
        match self {
            ControlEvent::Summon => EventView::Summon,
            ControlEvent::Say(s) => EventView::Say(s@),
            ControlEvent::Ask(s) => EventView::Ask(s@),
            ControlEvent::Morning => EventView::Morning,
            ControlEvent::SetState(s) => EventView::SetState(s@),
            ControlEvent::Quit => EventView::Quit,
        }
    }
}

/// A parse result with its strings as characters.
pub open spec fn result_view(r: Result<ControlEvent, String>) -> Result<EventView, Seq<char>> {
    match r {
        Ok(e) => Ok(e@),
        Err(m) => Err(m@),
    }
}

/// The event for a lowercased command word `cmd` and its trimmed argument
/// `arg` (`arg_lower` is `arg` lowercased).
pub open spec fn command_spec(cmd: Seq<char>, arg: Seq<char>, arg_lower: Seq<char>) -> Result<
    EventView,
    Seq<char>,
> {
    if cmd == "summon"@ {
        Ok(EventView::Summon)
    } else if cmd == "morning"@ {
        Ok(EventView::Morning)
    } else if cmd == "quit"@ || cmd == "exit"@ {
        Ok(EventView::Quit)
    } else if cmd == "say"@ {
        if arg.len() > 0 {
            Ok(EventView::Say(arg))
        } else {
            Err("say needs a message"@)
        }
    } else if cmd == "ask"@ {
        if arg.len() > 0 {
            Ok(EventView::Ask(arg))
        } else {
            Err("ask needs a question"@)
        }
    } else if cmd == "state"@ {
        if arg.len() > 0 {
            Ok(EventView::SetState(arg_lower))
        } else {
            Err("state needs a name"@)
        }
    } else {
        Err("unknown command '"@ + cmd + "'"@)
    }
}

/// Each command word means its command: `summon`, `morning`, `quit` and
/// its alias `exit` take no argument; `say` and `ask` carry their
/// argument as given and `state` its lowercased form, each refused with
/// its own message when the argument is empty.
pub proof fn lemma_command_words(arg: Seq<char>, arg_lower: Seq<char>)
    ensures
        command_spec("summon"@, arg, arg_lower) == Ok::<EventView, Seq<char>>(EventView::Summon),
        command_spec("morning"@, arg, arg_lower) == Ok::<EventView, Seq<char>>(EventView::Morning),
        command_spec("quit"@, arg, arg_lower) == Ok::<EventView, Seq<char>>(EventView::Quit),
        command_spec("exit"@, arg, arg_lower) == Ok::<EventView, Seq<char>>(EventView::Quit),
        arg.len() > 0 ==> command_spec("say"@, arg, arg_lower) == Ok::<EventView, Seq<char>>(EventView::Say(arg)),
        arg.len() > 0 ==> command_spec("ask"@, arg, arg_lower) == Ok::<EventView, Seq<char>>(EventView::Ask(arg)),
        arg.len() > 0 ==> command_spec("state"@, arg, arg_lower) == Ok::<EventView, Seq<char>>(
            EventView::SetState(arg_lower),
        ),
        arg.len() == 0 ==> command_spec("say"@, arg, arg_lower) == Err::<EventView, Seq<char>>("say needs a message"@),
        arg.len() == 0 ==> command_spec("ask"@, arg, arg_lower) == Err::<EventView, Seq<char>>("ask needs a question"@),
        arg.len() == 0 ==> command_spec("state"@, arg, arg_lower) == Err::<EventView, Seq<char>>("state needs a name"@),
{
    reveal_strlit("summon");
    reveal_strlit("morning");
    assert("morning"@.len() != "summon"@.len());
    reveal_strlit("quit");
    assert("quit"@.len() != "summon"@.len());
    assert("quit"@.len() != "morning"@.len());
    reveal_strlit("exit");
    assert("exit"@.len() != "summon"@.len());
    assert("exit"@.len() != "morning"@.len());
    assert("exit"@[0] != "quit"@[0]);
    reveal_strlit("say");
    assert("say"@.len() != "summon"@.len());
    assert("say"@.len() != "morning"@.len());
    assert("say"@.len() != "quit"@.len());
    assert("say"@.len() != "exit"@.len());
    reveal_strlit("ask");
    assert("ask"@.len() != "summon"@.len());
    assert("ask"@.len() != "morning"@.len());
    assert("ask"@.len() != "quit"@.len());
    assert("ask"@.len() != "exit"@.len());
    assert("ask"@[0] != "say"@[0]);
    reveal_strlit("state");
    assert("state"@.len() != "summon"@.len());
    assert("state"@.len() != "morning"@.len());
    assert("state"@.len() != "quit"@.len());
    assert("state"@.len() != "exit"@.len());
    assert("state"@.len() != "say"@.len());
    assert("state"@.len() != "ask"@.len());
}

/// The command word of a trimmed line: everything before its first
/// whitespace character.
pub open spec fn command_word(t: Seq<char>) -> Seq<char> {
    t.subrange(0, first_ws(t) as int)
}

/// The argument of a trimmed line: what follows its first whitespace
/// character, trimmed; empty when there is none.
pub open spec fn command_arg(t: Seq<char>) -> Seq<char> {
    let i = first_ws(t) as int;
    if i < t.len() {
        trim(t.subrange(i + 1, t.len() as int))
    } else {
        Seq::empty()
    }
}

/// What one control line means: an empty (all-whitespace) line is an
/// error; otherwise the first word, lowercased, picks the command.
pub open spec fn parse_command_spec(line: Seq<char>) -> Result<EventView, Seq<char>> {
    let t = trim(line);
    if t.len() == 0 {
        Err("empty command"@)
    } else {
        command_spec(
            lowercase_of(command_word(t)),
            command_arg(t),
            lowercase_of(command_arg(t)),
        )
    }
}

/// What one control line of ASCII text means, with the case mapping
/// spelled out: `A`..`Z` lowered in the command word and in the argument.
pub open spec fn parse_ascii_spec(line: Seq<char>) -> Result<EventView, Seq<char>> {
    let t = trim(line);
    if t.len() == 0 {
        Err("empty command"@)
    } else {
        command_spec(
            ascii_lowered(command_word(t)),
            command_arg(t),
            ascii_lowered(command_arg(t)),
        )
    }
}

/// The event for a lowercased command word and its trimmed argument.
pub fn command_for(cmd: &str, arg: &str, arg_lower: &str) -> (r: Result<ControlEvent, String>)
    ensures
        result_view(r) == command_spec(cmd@, arg@, arg_lower@),
{
    let c = chars_of(cmd);
    let a = chars_of(arg);
    if eq_lit(&c, "summon") {
        Ok(ControlEvent::Summon)
    } else if eq_lit(&c, "morning") {
        Ok(ControlEvent::Morning)
    } else if eq_lit(&c, "quit") || eq_lit(&c, "exit") {
        Ok(ControlEvent::Quit)
    } else if eq_lit(&c, "say") {
        if a.len() > 0 {
            Ok(ControlEvent::Say(string_of(&a)))
        } else {
            Err(string_of(&chars_of("say needs a message")))
        }
    } else if eq_lit(&c, "ask") {
        if a.len() > 0 {
            Ok(ControlEvent::Ask(string_of(&a)))
        } else {
            Err(string_of(&chars_of("ask needs a question")))
        }
    } else if eq_lit(&c, "state") {
        if a.len() > 0 {
            Ok(ControlEvent::SetState(string_of(&chars_of(arg_lower))))
        } else {
            Err(string_of(&chars_of("state needs a name")))
        }
    } else {
        let mut m = chars_of("unknown command '");
        let mut cc = c.clone();
        m.append(&mut cc);
        let mut q = chars_of("'");
        m.append(&mut q);
        Err(string_of(&m))
    }
}

/// Parses one command line into a [`ControlEvent`]. The first whitespace
/// splits the command word (case-insensitive) from its argument.
pub fn parse_command(line: &str) -> (r: Result<ControlEvent, String>)
    ensures
        result_view(r) == parse_command_spec(line@),
        ascii_text(line@) ==> result_view(r) == parse_ascii_spec(line@),
{
    let t = trim_str(line);
    if t.len() == 0 {
        return Err(string_of(&chars_of("empty command")));
    }
    let i = index_of_ws(&t);
    let word = slice_of(&t, 0, i);
    let arg = if i < t.len() {
        let rest = slice_of(&t, i + 1, t.len());
        trim_vec(&rest)
    } else {
        Vec::new()
    };
    assert(arg@ == command_arg(t@));
    proof {
        if ascii_text(line@) {
            lemma_ascii_trim(line@);
            lemma_first_ws_props(t@);
            lemma_ascii_subrange(t@, 0, i as int);
            if i < t.len() {
                lemma_ascii_subrange(t@, i + 1, t@.len() as int);
                lemma_ascii_trim(t@.subrange(i + 1, t@.len() as int));
            } else {
                assert(ascii_text(arg@));
            }
        }
    }
    let cmd_lower = lowercase(string_of(&word).as_str());
    let arg_s = string_of(&arg);
    let arg_lower = lowercase(arg_s.as_str());
    command_for(cmd_lower.as_str(), arg_s.as_str(), arg_lower.as_str())
}

/// The socket's reply to a command line: `ok` for a command it accepted,
/// `err: <reason>` otherwise, each ending in a line feed.
pub open spec fn reply_spec(r: Result<EventView, Seq<char>>) -> Seq<char> {
    match r {
        Ok(_) => "ok\n"@,
        Err(m) => "err: "@ + m + "\n"@,
    }
}

/// The reply to send for a parsed command line.
pub fn reply_for(r: &Result<ControlEvent, String>) -> (out: String)
    ensures
        out@ == reply_spec(result_view(*r)),
{
    match r {
        Ok(_) => string_of(&chars_of("ok\n")),
        Err(m) => {
            let mut v = chars_of("err: ");
            let mut w = chars_of(m.as_str());
            let mut nl = chars_of("\n");
            v.append(&mut w);
            v.append(&mut nl);
            string_of(&v)
        },
    }
}

/// Whether the socket's reply (as the client reads it) reports an error:
/// it begins, once trimmed, with `err`.
pub fn reply_is_error(reply: &str) -> (r: bool)
    ensures
        r == starts_with(trim(reply@), "err"@),
{
    starts_with_lit(&trim_str(reply), "err")
}


/// The argument of `say` and `ask` is never blank and already trimmed.
pub proof fn lemma_message_trimmed(line: Seq<char>)
    ensures
        parse_command_spec(line) matches Ok(EventView::Say(m)) ==> m.len() > 0 && trim(m) == m,
        parse_command_spec(line) matches Ok(EventView::Ask(m)) ==> m.len() > 0 && trim(m) == m,
{
    let t = trim(line);
    if t.len() > 0 {
        let i = first_ws(t) as int;
        if i < t.len() {
            lemma_trim_idempotent(t.subrange(i + 1, t.len() as int));
        }
    }
}

/// The command word is matched without regard to case: two lines whose
/// command words lowercase alike and whose arguments agree mean the same.
pub proof fn lemma_command_case_insensitive(l1: Seq<char>, l2: Seq<char>)
    requires
        trim(l1).len() > 0,
        trim(l2).len() > 0,
        lowercase_of(command_word(trim(l1))) == lowercase_of(command_word(trim(l2))),
        command_arg(trim(l1)) == command_arg(trim(l2)),
    ensures
        parse_command_spec(l1) == parse_command_spec(l2),
{
}

} // verus!
