//! Maps the deciding window to a pet state, and decides whether playing
//! media belongs to that window.

use vstd::prelude::*;
use crate::ipc::WindowContext;
use crate::sprites::State;
use crate::text::{chars_of, contains, contains_lit, contains_vec, eq_lit, trim, trim_str, utf8_len, utf8_longer_than};

verus! {

/// Web browser window classes.
pub open spec fn browser_class(c: Seq<char>) -> bool {
    ||| c == "zen"@
    ||| c == "firefox"@
    ||| c == "chromium"@
    ||| c == "google-chrome"@
    ||| c == "brave-browser"@
    ||| c == "qutebrowser"@
}

/// Window classes of dedicated media players.
pub open spec fn player_class(c: Seq<char>) -> bool {
    ||| c == "mpv"@
    ||| c == "vlc"@
    ||| c == "spotify"@
    ||| c == "spotify_player"@
    ||| c == "spotube"@
    ||| c == "ncspot"@
    ||| c == "cmus"@
    ||| c == "audacious"@
    ||| c == "rhythmbox"@
}

/// Terminal emulator window classes.
pub open spec fn terminal_class(c: Seq<char>) -> bool {
    ||| c == "kitty"@
    ||| c == "alacritty"@
    ||| c == "foot"@
    ||| c == "wezterm"@
    ||| c == "ghostty"@
    ||| c == "st"@
    ||| c == "xterm"@
    ||| c == "konsole"@
}

/// MPRIS names of music players that run inside a terminal.
pub open spec fn tui_player_name(p: Seq<char>) -> bool {
    ||| p == "ncspot"@
    ||| p == "cmus"@
    ||| p == "spotify_player"@
    ||| p == "spotifyd"@
    ||| p == "mpd"@
    ||| p == "moc"@
    ||| p == "musikcube"@
    ||| p == "mpv"@
}

/// Editor window classes.
pub open spec fn editor_class(c: Seq<char>) -> bool {
    ||| c == "nvim"@
    ||| c == "neovim"@
    ||| c == "vim"@
    ||| c == "code"@
    ||| c == "code-insiders"@
    ||| c == "code - insiders"@
    ||| c == "vscode"@
    ||| c == "vscodium"@
    ||| c == "codium"@
    ||| c == "emacs"@
    ||| c == "helix"@
    ||| c == "sublime_text"@
    ||| c == "zed"@
}

/// Remote-desktop client window classes.
pub open spec fn remote_class(c: Seq<char>) -> bool {
    ||| c == "xfreerdp"@
    ||| c == "wlfreerdp"@
    ||| c == "freerdp"@
    ||| c == "remmina"@
    ||| c == "org.remmina.remmina"@
}

/// File-manager window classes.
pub open spec fn file_manager_class(c: Seq<char>) -> bool {
    ||| c == "thunar"@
    ||| c == "nautilus"@
    ||| c == "dolphin"@
    ||| c == "nemo"@
    ||| c == "pcmanfm"@
}

/// Document and e-book reader window classes.
pub open spec fn reader_class(c: Seq<char>) -> bool {
    ||| c == "zathura"@
    ||| c == "evince"@
    ||| c == "okular"@
    ||| c == "foliate"@
    ||| c == "calibre"@
    ||| c == "sioyek"@
    ||| c == "mupdf"@
}

/// The title says a training run finished.
pub open spec fn title_training_done(t: Seq<char>) -> bool {
    (contains(t, "training"@) || contains(t, "epoch"@)) && (contains(t, "done"@) || contains(
        t,
        "complete"@,
    ) || contains(t, "finished"@))
}

/// The title reports a passing build or test run.
pub open spec fn title_success(t: Seq<char>) -> bool {
    ||| contains(t, "tests passed"@)
    ||| contains(t, "build succeeded"@)
    ||| contains(t, "compiled successfully"@)
    ||| contains(t, "0 failed"@)
    ||| contains(t, "all tests passing"@)
}

/// The title shows an editor or a cargo build/run.
pub open spec fn title_working(t: Seq<char>) -> bool {
    ||| contains(t, "nvim"@)
    ||| contains(t, "vim"@)
    ||| contains(t, "cargo build"@)
    ||| contains(t, "cargo run"@)
}

/// The state a window puts the pet in. Title rules come first (finished
/// training, then success, then editing), then class rules.
pub open spec fn state_for(class: Seq<char>, title: Seq<char>) -> State {
    if title_training_done(title) {
        State::TrainingDone
    } else if title_success(title) {
        State::Happy
    } else if title_working(title) {
        State::Working
    } else if editor_class(class) || terminal_class(class) || remote_class(class) {
        State::Working
    } else if browser_class(class) {
        State::Alert
    } else if file_manager_class(class) {
        State::Thinking
    } else if player_class(class) {
        State::Jamming
    } else if reader_class(class) {
        State::Cozy
    } else {
        State::Idle
    }
}

/// Whether playing media drives the state for this window: always for a
/// dedicated player; for a terminal when the player is a terminal music
/// app; for a browser only when the trimmed track title is longer than
/// three bytes and appears in the window title.
pub open spec fn media_applies_spec(
    class: Seq<char>,
    title: Seq<char>,
    player_title: Seq<char>,
    player_name: Seq<char>,
) -> bool {
    if player_class(class) {
        true
    } else if terminal_class(class) && tui_player_name(player_name) {
        true
    } else if browser_class(class) {
        utf8_len(trim(player_title)) > 3 && contains(title, trim(player_title))
    } else {
        false
    }
}

/// Whether `class` is a web browser.
pub fn is_browser(class: &str) -> (r: bool)
    ensures
        r == browser_class(class@),
{
    let c = chars_of(class);
    eq_lit(&c, "zen") || eq_lit(&c, "firefox") || eq_lit(&c, "chromium") || eq_lit(
        &c,
        "google-chrome",
    ) || eq_lit(&c, "brave-browser") || eq_lit(&c, "qutebrowser")
}

/// Whether `class` is a dedicated media player.
pub fn is_player_app(class: &str) -> (r: bool)
    ensures
        r == player_class(class@),
{
    let c = chars_of(class);
    eq_lit(&c, "mpv") || eq_lit(&c, "vlc") || eq_lit(&c, "spotify") || eq_lit(&c, "spotify_player")
        || eq_lit(&c, "spotube") || eq_lit(&c, "ncspot") || eq_lit(&c, "cmus") || eq_lit(
        &c,
        "audacious",
    ) || eq_lit(&c, "rhythmbox")
}

/// Whether `class` is a terminal emulator.
pub fn is_terminal(class: &str) -> (r: bool)
    ensures
        r == terminal_class(class@),
{
    let c = chars_of(class);
    eq_lit(&c, "kitty") || eq_lit(&c, "alacritty") || eq_lit(&c, "foot") || eq_lit(&c, "wezterm")
        || eq_lit(&c, "ghostty") || eq_lit(&c, "st") || eq_lit(&c, "xterm") || eq_lit(
        &c,
        "konsole",
    )
}

/// Whether the MPRIS player `player` is a music app that lives in a
/// terminal (its window class is the terminal's).
pub fn is_tui_player(player: &str) -> (r: bool)
    ensures
        r == tui_player_name(player@),
{
    let c = chars_of(player);
    eq_lit(&c, "ncspot") || eq_lit(&c, "cmus") || eq_lit(&c, "spotify_player") || eq_lit(
        &c,
        "spotifyd",
    ) || eq_lit(&c, "mpd") || eq_lit(&c, "moc") || eq_lit(&c, "musikcube") || eq_lit(&c, "mpv")
}

fn is_editor(c: &Vec<char>) -> (r: bool)
    ensures
        r == editor_class(c@),
{
    eq_lit(c, "nvim") || eq_lit(c, "neovim") || eq_lit(c, "vim") || eq_lit(c, "code") || eq_lit(
        c,
        "code-insiders",
    ) || eq_lit(c, "code - insiders") || eq_lit(c, "vscode") || eq_lit(c, "vscodium") || eq_lit(
        c,
        "codium",
    ) || eq_lit(c, "emacs") || eq_lit(c, "helix") || eq_lit(c, "sublime_text") || eq_lit(c, "zed")
}

fn is_remote(c: &Vec<char>) -> (r: bool)
    ensures
        r == remote_class(c@),
{
    eq_lit(c, "xfreerdp") || eq_lit(c, "wlfreerdp") || eq_lit(c, "freerdp") || eq_lit(c, "remmina")
        || eq_lit(c, "org.remmina.remmina")
}

fn is_file_manager(c: &Vec<char>) -> (r: bool)
    ensures
        r == file_manager_class(c@),
{
    eq_lit(c, "thunar") || eq_lit(c, "nautilus") || eq_lit(c, "dolphin") || eq_lit(c, "nemo")
        || eq_lit(c, "pcmanfm")
}

fn is_reader(c: &Vec<char>) -> (r: bool)
    ensures
        r == reader_class(c@),
{
    eq_lit(c, "zathura") || eq_lit(c, "evince") || eq_lit(c, "okular") || eq_lit(c, "foliate")
        || eq_lit(c, "calibre") || eq_lit(c, "sioyek") || eq_lit(c, "mupdf")
}

/// Should the playing media (jamming/cozy) drive state for this deciding
/// window? Dedicated players always; a terminal only when the music comes
/// from a terminal player; a browser (one MPRIS player for all its tabs)
/// only when the playing title matches the shown title.
pub fn media_applies(ctx: &WindowContext, player_title: &str, player_name: &str) -> (r: bool)
    ensures
        r == media_applies_spec(ctx.class@, ctx.title@, player_title@, player_name@),
{
    let class = ctx.class.as_str();
    if is_player_app(class) {
        return true;
    }
    if is_terminal(class) && is_tui_player(player_name) {
        return true;
    }
    if is_browser(class) {
        let pt = trim_str(player_title);
        let title = chars_of(ctx.title.as_str());
        return utf8_longer_than(&pt, 3) && contains_vec(&title, &pt);
    }
    false
}

/// The state the deciding window puts the pet in.
pub fn resolve_state(ctx: &WindowContext) -> (r: State)
    ensures
        r == state_for(ctx.class@, ctx.title@),
{
    let class = chars_of(ctx.class.as_str());
    let title = chars_of(ctx.title.as_str());

    if (contains_lit(&title, "training") || contains_lit(&title, "epoch")) && (contains_lit(
        &title,
        "done",
    ) || contains_lit(&title, "complete") || contains_lit(&title, "finished")) {
        return State::TrainingDone;
    }
    if contains_lit(&title, "tests passed") || contains_lit(&title, "build succeeded")
        || contains_lit(&title, "compiled successfully") || contains_lit(&title, "0 failed")
        || contains_lit(&title, "all tests passing") {
        return State::Happy;
    }
    if contains_lit(&title, "nvim") || contains_lit(&title, "vim") || contains_lit(
        &title,
        "cargo build",
    ) || contains_lit(&title, "cargo run") {
        return State::Working;
    }
    if is_editor(&class) {
        return State::Working;
    }
    if is_terminal(ctx.class.as_str()) {
        return State::Working;
    }
    if is_remote(&class) {
        return State::Working;
    }
    if is_browser(ctx.class.as_str()) {
        return State::Alert;
    }
    if is_file_manager(&class) {
        return State::Thinking;
    }
    if is_player_app(ctx.class.as_str()) {
        return State::Jamming;
    }
    if is_reader(&class) {
        return State::Cozy;
    }
    State::Idle
}


/// No title rule fires for `title`.
pub open spec fn plain_title(title: Seq<char>) -> bool {
    !title_training_done(title) && !title_success(title) && !title_working(title)
}

/// Title rules outrank every class rule: whatever the class, a finished
/// training run gives TrainingDone; otherwise a passing build or test run
/// gives Happy; otherwise an editor or cargo title gives Working.
pub proof fn lemma_title_rules_first(class: Seq<char>, title: Seq<char>)
    ensures
        title_training_done(title) ==> state_for(class, title) == State::TrainingDone,
        !title_training_done(title) && title_success(title) ==> state_for(class, title) == State::Happy,
        !title_training_done(title) && !title_success(title) && title_working(title) ==> state_for(
            class,
            title,
        ) == State::Working,
{
}

/// The class table, for a title that no title rule matches: editors,
/// terminals and remote desktops work; browsers are Alert; file managers
/// Thinking; media players Jamming; readers Cozy; any other class Idle.
/// The class lists do not overlap, so each listed class gets its row.
pub proof fn lemma_class_table(class: Seq<char>, title: Seq<char>)
    requires
        plain_title(title),
    ensures
        editor_class(class) || terminal_class(class) || remote_class(class) ==> state_for(class, title)
            == State::Working,
        browser_class(class) ==> state_for(class, title) == State::Alert,
        file_manager_class(class) ==> state_for(class, title) == State::Thinking,
        player_class(class) ==> state_for(class, title) == State::Jamming,
        reader_class(class) ==> state_for(class, title) == State::Cozy,
        !editor_class(class) && !terminal_class(class) && !remote_class(class) && !browser_class(class)
            && !file_manager_class(class) && !player_class(class) && !reader_class(class) ==> state_for(
            class,
            title,
        ) == State::Idle,
{
    lemma_browser_not_editor(class);
    lemma_browser_not_terminal(class);
    lemma_browser_not_remote(class);
    lemma_file_manager_not_editor(class);
    lemma_file_manager_not_terminal(class);
    lemma_file_manager_not_remote(class);
    lemma_file_manager_not_browser(class);
    lemma_player_not_editor(class);
    lemma_player_not_terminal(class);
    lemma_player_not_remote(class);
    lemma_player_not_browser(class);
    lemma_player_not_file_manager(class);
    lemma_reader_not_editor(class);
    lemma_reader_not_terminal(class);
    lemma_reader_not_remote(class);
    lemma_reader_not_browser(class);
    lemma_reader_not_file_manager(class);
    lemma_reader_not_player(class);
}

/// Every listed window class gets its row of the class table when no
/// title rule fires: editors, terminals and remote desktops work, browsers
/// are Alert, file managers Thinking, media players Jamming, readers Cozy.
pub proof fn lemma_listed_classes(title: Seq<char>)
    requires
        plain_title(title),
    ensures
        state_for("nvim"@, title) == State::Working,
        state_for("neovim"@, title) == State::Working,
        state_for("vim"@, title) == State::Working,
        state_for("code"@, title) == State::Working,
        state_for("code-insiders"@, title) == State::Working,
        state_for("code - insiders"@, title) == State::Working,
        state_for("vscode"@, title) == State::Working,
        state_for("vscodium"@, title) == State::Working,
        state_for("codium"@, title) == State::Working,
        state_for("emacs"@, title) == State::Working,
        state_for("helix"@, title) == State::Working,
        state_for("sublime_text"@, title) == State::Working,
        state_for("zed"@, title) == State::Working,
        state_for("kitty"@, title) == State::Working,
        state_for("alacritty"@, title) == State::Working,
        state_for("foot"@, title) == State::Working,
        state_for("wezterm"@, title) == State::Working,
        state_for("ghostty"@, title) == State::Working,
        state_for("st"@, title) == State::Working,
        state_for("xterm"@, title) == State::Working,
        state_for("konsole"@, title) == State::Working,
        state_for("xfreerdp"@, title) == State::Working,
        state_for("wlfreerdp"@, title) == State::Working,
        state_for("freerdp"@, title) == State::Working,
        state_for("remmina"@, title) == State::Working,
        state_for("org.remmina.remmina"@, title) == State::Working,
        state_for("zen"@, title) == State::Alert,
        state_for("firefox"@, title) == State::Alert,
        state_for("chromium"@, title) == State::Alert,
        state_for("google-chrome"@, title) == State::Alert,
        state_for("brave-browser"@, title) == State::Alert,
        state_for("qutebrowser"@, title) == State::Alert,
        state_for("thunar"@, title) == State::Thinking,
        state_for("nautilus"@, title) == State::Thinking,
        state_for("dolphin"@, title) == State::Thinking,
        state_for("nemo"@, title) == State::Thinking,
        state_for("pcmanfm"@, title) == State::Thinking,
        state_for("mpv"@, title) == State::Jamming,
        state_for("vlc"@, title) == State::Jamming,
        state_for("spotify"@, title) == State::Jamming,
        state_for("spotify_player"@, title) == State::Jamming,
        state_for("spotube"@, title) == State::Jamming,
        state_for("ncspot"@, title) == State::Jamming,
        state_for("cmus"@, title) == State::Jamming,
        state_for("audacious"@, title) == State::Jamming,
        state_for("rhythmbox"@, title) == State::Jamming,
        state_for("zathura"@, title) == State::Cozy,
        state_for("evince"@, title) == State::Cozy,
        state_for("okular"@, title) == State::Cozy,
        state_for("foliate"@, title) == State::Cozy,
        state_for("calibre"@, title) == State::Cozy,
        state_for("sioyek"@, title) == State::Cozy,
        state_for("mupdf"@, title) == State::Cozy,
{
    lemma_class_table("nvim"@, title);
    lemma_class_table("neovim"@, title);
    lemma_class_table("vim"@, title);
    lemma_class_table("code"@, title);
    lemma_class_table("code-insiders"@, title);
    lemma_class_table("code - insiders"@, title);
    lemma_class_table("vscode"@, title);
    lemma_class_table("vscodium"@, title);
    lemma_class_table("codium"@, title);
    lemma_class_table("emacs"@, title);
    lemma_class_table("helix"@, title);
    lemma_class_table("sublime_text"@, title);
    lemma_class_table("zed"@, title);
    lemma_class_table("kitty"@, title);
    lemma_class_table("alacritty"@, title);
    lemma_class_table("foot"@, title);
    lemma_class_table("wezterm"@, title);
    lemma_class_table("ghostty"@, title);
    lemma_class_table("st"@, title);
    lemma_class_table("xterm"@, title);
    lemma_class_table("konsole"@, title);
    lemma_class_table("xfreerdp"@, title);
    lemma_class_table("wlfreerdp"@, title);
    lemma_class_table("freerdp"@, title);
    lemma_class_table("remmina"@, title);
    lemma_class_table("org.remmina.remmina"@, title);
    lemma_class_table("zen"@, title);
    lemma_class_table("firefox"@, title);
    lemma_class_table("chromium"@, title);
    lemma_class_table("google-chrome"@, title);
    lemma_class_table("brave-browser"@, title);
    lemma_class_table("qutebrowser"@, title);
    lemma_class_table("thunar"@, title);
    lemma_class_table("nautilus"@, title);
    lemma_class_table("dolphin"@, title);
    lemma_class_table("nemo"@, title);
    lemma_class_table("pcmanfm"@, title);
    lemma_class_table("mpv"@, title);
    lemma_class_table("vlc"@, title);
    lemma_class_table("spotify"@, title);
    lemma_class_table("spotify_player"@, title);
    lemma_class_table("spotube"@, title);
    lemma_class_table("ncspot"@, title);
    lemma_class_table("cmus"@, title);
    lemma_class_table("audacious"@, title);
    lemma_class_table("rhythmbox"@, title);
    lemma_class_table("zathura"@, title);
    lemma_class_table("evince"@, title);
    lemma_class_table("okular"@, title);
    lemma_class_table("foliate"@, title);
    lemma_class_table("calibre"@, title);
    lemma_class_table("sioyek"@, title);
    lemma_class_table("mupdf"@, title);
}

/// Each title word decides, whatever the class: a training or epoch title
/// that is done, complete or finished gives TrainingDone; otherwise any of
/// the success phrases gives Happy; otherwise an editor or cargo title
/// gives Working.
pub proof fn lemma_title_words(class: Seq<char>, t: Seq<char>)
    ensures
        (contains(t, "training"@) || contains(t, "epoch"@)) && (contains(t, "done"@) || contains(t, "complete"@)
            || contains(t, "finished"@)) ==> state_for(class, t) == State::TrainingDone,
        !title_training_done(t) && (contains(t, "tests passed"@) || contains(t, "build succeeded"@)
            || contains(t, "compiled successfully"@) || contains(t, "0 failed"@) || contains(
            t,
            "all tests passing"@,
        )) ==> state_for(class, t) == State::Happy,
        !title_training_done(t) && !title_success(t) && (contains(t, "nvim"@) || contains(t, "vim"@)
            || contains(t, "cargo build"@) || contains(t, "cargo run"@)) ==> state_for(class, t)
            == State::Working,
{
}

/// Media belongs to the deciding window for every dedicated player, and
/// for a terminal whose player is any of the terminal music players,
/// whatever the titles are.
pub proof fn lemma_media_listed(class: Seq<char>, title: Seq<char>, ptitle: Seq<char>, pname: Seq<char>)
    ensures
        terminal_class(class) ==> media_applies_spec(class, title, ptitle, "ncspot"@),
        terminal_class(class) ==> media_applies_spec(class, title, ptitle, "cmus"@),
        terminal_class(class) ==> media_applies_spec(class, title, ptitle, "spotify_player"@),
        terminal_class(class) ==> media_applies_spec(class, title, ptitle, "spotifyd"@),
        terminal_class(class) ==> media_applies_spec(class, title, ptitle, "mpd"@),
        terminal_class(class) ==> media_applies_spec(class, title, ptitle, "moc"@),
        terminal_class(class) ==> media_applies_spec(class, title, ptitle, "musikcube"@),
        terminal_class(class) ==> media_applies_spec(class, title, ptitle, "mpv"@),
        media_applies_spec("kitty"@, title, ptitle, "ncspot"@),
        media_applies_spec("alacritty"@, title, ptitle, "ncspot"@),
        media_applies_spec("foot"@, title, ptitle, "ncspot"@),
        media_applies_spec("wezterm"@, title, ptitle, "ncspot"@),
        media_applies_spec("ghostty"@, title, ptitle, "ncspot"@),
        media_applies_spec("st"@, title, ptitle, "ncspot"@),
        media_applies_spec("xterm"@, title, ptitle, "ncspot"@),
        media_applies_spec("konsole"@, title, ptitle, "ncspot"@),
        media_applies_spec("mpv"@, title, ptitle, pname),
        media_applies_spec("vlc"@, title, ptitle, pname),
        media_applies_spec("spotify"@, title, ptitle, pname),
        media_applies_spec("spotify_player"@, title, ptitle, pname),
        media_applies_spec("spotube"@, title, ptitle, pname),
        media_applies_spec("ncspot"@, title, ptitle, pname),
        media_applies_spec("cmus"@, title, ptitle, pname),
        media_applies_spec("audacious"@, title, ptitle, pname),
        media_applies_spec("rhythmbox"@, title, ptitle, pname),
{
}

/// In a browser, playing media belongs to the window only when the
/// trimmed track title is longer than three bytes and shows in the window
/// title.
pub proof fn lemma_browser_media(class: Seq<char>, title: Seq<char>, ptitle: Seq<char>, pname: Seq<char>)
    requires
        browser_class(class),
    ensures
        media_applies_spec(class, title, ptitle, pname) <==> (utf8_len(trim(ptitle)) > 3 && contains(
            title,
            trim(ptitle),
        )),
{
    lemma_player_not_browser(class);
    lemma_browser_not_terminal(class);
}

// The class lists are pairwise apart: two names of different lists differ
// in length or at some character.

proof fn lemma_browser_not_editor(c: Seq<char>)
    ensures
        browser_class(c) ==> !editor_class(c),
{
    reveal_strlit("vim");
    reveal_strlit("zed");
    reveal_strlit("code");
    reveal_strlit("nvim");
    reveal_strlit("emacs");
    reveal_strlit("helix");
    reveal_strlit("codium");
    reveal_strlit("neovim");
    reveal_strlit("vscode");
    reveal_strlit("vscodium");
    reveal_strlit("sublime_text");
    reveal_strlit("code-insiders");
    reveal_strlit("code - insiders");
    reveal_strlit("zen");
    assert("zen"@[0] != "vim"@[0]);
    assert("zen"@[2] != "zed"@[2]);
    assert(3 == "zen"@.len());
    reveal_strlit("firefox");
    assert(7 == "firefox"@.len());
    reveal_strlit("chromium");
    assert("chromium"@[0] != "vscodium"@[0]);
    assert(8 == "chromium"@.len());
    reveal_strlit("google-chrome");
    assert("google-chrome"@[0] != "code-insiders"@[0]);
    assert(13 == "google-chrome"@.len());
    reveal_strlit("brave-browser");
    assert("brave-browser"@[0] != "code-insiders"@[0]);
    assert(13 == "brave-browser"@.len());
    reveal_strlit("qutebrowser");
    assert(11 == "qutebrowser"@.len());
}

proof fn lemma_browser_not_terminal(c: Seq<char>)
    ensures
        browser_class(c) ==> !terminal_class(c),
{
    reveal_strlit("st");
    reveal_strlit("foot");
    reveal_strlit("kitty");
    reveal_strlit("xterm");
    reveal_strlit("ghostty");
    reveal_strlit("konsole");
    reveal_strlit("wezterm");
    reveal_strlit("alacritty");
    reveal_strlit("zen");
    assert(3 == "zen"@.len());
    reveal_strlit("firefox");
    assert("firefox"@[0] != "wezterm"@[0]);
    assert("firefox"@[0] != "ghostty"@[0]);
    assert("firefox"@[0] != "konsole"@[0]);
    assert(7 == "firefox"@.len());
    reveal_strlit("chromium");
    assert(8 == "chromium"@.len());
    reveal_strlit("google-chrome");
    assert(13 == "google-chrome"@.len());
    reveal_strlit("brave-browser");
    assert(13 == "brave-browser"@.len());
    reveal_strlit("qutebrowser");
    assert(11 == "qutebrowser"@.len());
}

proof fn lemma_browser_not_remote(c: Seq<char>)
    ensures
        browser_class(c) ==> !remote_class(c),
{
    reveal_strlit("freerdp");
    reveal_strlit("remmina");
    reveal_strlit("xfreerdp");
    reveal_strlit("wlfreerdp");
    reveal_strlit("org.remmina.remmina");
    reveal_strlit("zen");
    assert(3 == "zen"@.len());
    reveal_strlit("firefox");
    assert("firefox"@[1] != "freerdp"@[1]);
    assert("firefox"@[0] != "remmina"@[0]);
    assert(7 == "firefox"@.len());
    reveal_strlit("chromium");
    assert("chromium"@[0] != "xfreerdp"@[0]);
    assert(8 == "chromium"@.len());
    reveal_strlit("google-chrome");
    assert(13 == "google-chrome"@.len());
    reveal_strlit("brave-browser");
    assert(13 == "brave-browser"@.len());
    reveal_strlit("qutebrowser");
    assert(11 == "qutebrowser"@.len());
}

proof fn lemma_file_manager_not_editor(c: Seq<char>)
    ensures
        file_manager_class(c) ==> !editor_class(c),
{
    reveal_strlit("vim");
    reveal_strlit("zed");
    reveal_strlit("code");
    reveal_strlit("nvim");
    reveal_strlit("emacs");
    reveal_strlit("helix");
    reveal_strlit("codium");
    reveal_strlit("neovim");
    reveal_strlit("vscode");
    reveal_strlit("vscodium");
    reveal_strlit("sublime_text");
    reveal_strlit("code-insiders");
    reveal_strlit("code - insiders");
    reveal_strlit("thunar");
    assert("thunar"@[0] != "neovim"@[0]);
    assert("thunar"@[0] != "vscode"@[0]);
    assert("thunar"@[0] != "codium"@[0]);
    assert(6 == "thunar"@.len());
    reveal_strlit("nautilus");
    assert("nautilus"@[0] != "vscodium"@[0]);
    assert(8 == "nautilus"@.len());
    reveal_strlit("dolphin");
    assert(7 == "dolphin"@.len());
    reveal_strlit("nemo");
    assert("nemo"@[1] != "nvim"@[1]);
    assert("nemo"@[0] != "code"@[0]);
    assert(4 == "nemo"@.len());
    reveal_strlit("pcmanfm");
    assert(7 == "pcmanfm"@.len());
}

proof fn lemma_file_manager_not_terminal(c: Seq<char>)
    ensures
        file_manager_class(c) ==> !terminal_class(c),
{
    reveal_strlit("st");
    reveal_strlit("foot");
    reveal_strlit("kitty");
    reveal_strlit("xterm");
    reveal_strlit("ghostty");
    reveal_strlit("konsole");
    reveal_strlit("wezterm");
    reveal_strlit("alacritty");
    reveal_strlit("thunar");
    assert(6 == "thunar"@.len());
    reveal_strlit("nautilus");
    assert(8 == "nautilus"@.len());
    reveal_strlit("dolphin");
    assert("dolphin"@[0] != "wezterm"@[0]);
    assert("dolphin"@[0] != "ghostty"@[0]);
    assert("dolphin"@[0] != "konsole"@[0]);
    assert(7 == "dolphin"@.len());
    reveal_strlit("nemo");
    assert("nemo"@[0] != "foot"@[0]);
    assert(4 == "nemo"@.len());
    reveal_strlit("pcmanfm");
    assert("pcmanfm"@[0] != "wezterm"@[0]);
    assert("pcmanfm"@[0] != "ghostty"@[0]);
    assert("pcmanfm"@[0] != "konsole"@[0]);
    assert(7 == "pcmanfm"@.len());
}

proof fn lemma_file_manager_not_remote(c: Seq<char>)
    ensures
        file_manager_class(c) ==> !remote_class(c),
{
    reveal_strlit("freerdp");
    reveal_strlit("remmina");
    reveal_strlit("xfreerdp");
    reveal_strlit("wlfreerdp");
    reveal_strlit("org.remmina.remmina");
    reveal_strlit("thunar");
    assert(6 == "thunar"@.len());
    reveal_strlit("nautilus");
    assert("nautilus"@[0] != "xfreerdp"@[0]);
    assert(8 == "nautilus"@.len());
    reveal_strlit("dolphin");
    assert("dolphin"@[0] != "freerdp"@[0]);
    assert("dolphin"@[0] != "remmina"@[0]);
    assert(7 == "dolphin"@.len());
    reveal_strlit("nemo");
    assert(4 == "nemo"@.len());
    reveal_strlit("pcmanfm");
    assert("pcmanfm"@[0] != "freerdp"@[0]);
    assert("pcmanfm"@[0] != "remmina"@[0]);
    assert(7 == "pcmanfm"@.len());
}

proof fn lemma_file_manager_not_browser(c: Seq<char>)
    ensures
        file_manager_class(c) ==> !browser_class(c),
{
    reveal_strlit("zen");
    reveal_strlit("firefox");
    reveal_strlit("chromium");
    reveal_strlit("qutebrowser");
    reveal_strlit("brave-browser");
    reveal_strlit("google-chrome");
    reveal_strlit("thunar");
    assert(6 == "thunar"@.len());
    reveal_strlit("nautilus");
    assert("nautilus"@[0] != "chromium"@[0]);
    assert(8 == "nautilus"@.len());
    reveal_strlit("dolphin");
    assert("dolphin"@[0] != "firefox"@[0]);
    assert(7 == "dolphin"@.len());
    reveal_strlit("nemo");
    assert(4 == "nemo"@.len());
    reveal_strlit("pcmanfm");
    assert("pcmanfm"@[0] != "firefox"@[0]);
    assert(7 == "pcmanfm"@.len());
}

proof fn lemma_player_not_editor(c: Seq<char>)
    ensures
        player_class(c) ==> !editor_class(c),
{
    reveal_strlit("vim");
    reveal_strlit("zed");
    reveal_strlit("code");
    reveal_strlit("nvim");
    reveal_strlit("emacs");
    reveal_strlit("helix");
    reveal_strlit("codium");
    reveal_strlit("neovim");
    reveal_strlit("vscode");
    reveal_strlit("vscodium");
    reveal_strlit("sublime_text");
    reveal_strlit("code-insiders");
    reveal_strlit("code - insiders");
    reveal_strlit("mpv");
    assert("mpv"@[0] != "vim"@[0]);
    assert("mpv"@[0] != "zed"@[0]);
    assert(3 == "mpv"@.len());
    reveal_strlit("vlc");
    assert("vlc"@[1] != "vim"@[1]);
    assert("vlc"@[0] != "zed"@[0]);
    assert(3 == "vlc"@.len());
    reveal_strlit("spotify");
    assert(7 == "spotify"@.len());
    reveal_strlit("spotify_player");
    assert(14 == "spotify_player"@.len());
    reveal_strlit("spotube");
    assert(7 == "spotube"@.len());
    reveal_strlit("ncspot");
    assert("ncspot"@[1] != "neovim"@[1]);
    assert("ncspot"@[0] != "vscode"@[0]);
    assert("ncspot"@[0] != "codium"@[0]);
    assert(6 == "ncspot"@.len());
    reveal_strlit("cmus");
    assert("cmus"@[0] != "nvim"@[0]);
    assert("cmus"@[1] != "code"@[1]);
    assert(4 == "cmus"@.len());
    reveal_strlit("audacious");
    assert(9 == "audacious"@.len());
    reveal_strlit("rhythmbox");
    assert(9 == "rhythmbox"@.len());
}

proof fn lemma_player_not_terminal(c: Seq<char>)
    ensures
        player_class(c) ==> !terminal_class(c),
{
    reveal_strlit("st");
    reveal_strlit("foot");
    reveal_strlit("kitty");
    reveal_strlit("xterm");
    reveal_strlit("ghostty");
    reveal_strlit("konsole");
    reveal_strlit("wezterm");
    reveal_strlit("alacritty");
    reveal_strlit("mpv");
    assert(3 == "mpv"@.len());
    reveal_strlit("vlc");
    assert(3 == "vlc"@.len());
    reveal_strlit("spotify");
    assert("spotify"@[0] != "wezterm"@[0]);
    assert("spotify"@[0] != "ghostty"@[0]);
    assert("spotify"@[0] != "konsole"@[0]);
    assert(7 == "spotify"@.len());
    reveal_strlit("spotify_player");
    assert(14 == "spotify_player"@.len());
    reveal_strlit("spotube");
    assert("spotube"@[0] != "wezterm"@[0]);
    assert("spotube"@[0] != "ghostty"@[0]);
    assert("spotube"@[0] != "konsole"@[0]);
    assert(7 == "spotube"@.len());
    reveal_strlit("ncspot");
    assert(6 == "ncspot"@.len());
    reveal_strlit("cmus");
    assert("cmus"@[0] != "foot"@[0]);
    assert(4 == "cmus"@.len());
    reveal_strlit("audacious");
    assert("audacious"@[1] != "alacritty"@[1]);
    assert(9 == "audacious"@.len());
    reveal_strlit("rhythmbox");
    assert("rhythmbox"@[0] != "alacritty"@[0]);
    assert(9 == "rhythmbox"@.len());
}

proof fn lemma_player_not_remote(c: Seq<char>)
    ensures
        player_class(c) ==> !remote_class(c),
{
    reveal_strlit("freerdp");
    reveal_strlit("remmina");
    reveal_strlit("xfreerdp");
    reveal_strlit("wlfreerdp");
    reveal_strlit("org.remmina.remmina");
    reveal_strlit("mpv");
    assert(3 == "mpv"@.len());
    reveal_strlit("vlc");
    assert(3 == "vlc"@.len());
    reveal_strlit("spotify");
    assert("spotify"@[0] != "freerdp"@[0]);
    assert("spotify"@[0] != "remmina"@[0]);
    assert(7 == "spotify"@.len());
    reveal_strlit("spotify_player");
    assert(14 == "spotify_player"@.len());
    reveal_strlit("spotube");
    assert("spotube"@[0] != "freerdp"@[0]);
    assert("spotube"@[0] != "remmina"@[0]);
    assert(7 == "spotube"@.len());
    reveal_strlit("ncspot");
    assert(6 == "ncspot"@.len());
    reveal_strlit("cmus");
    assert(4 == "cmus"@.len());
    reveal_strlit("audacious");
    assert("audacious"@[0] != "wlfreerdp"@[0]);
    assert(9 == "audacious"@.len());
    reveal_strlit("rhythmbox");
    assert("rhythmbox"@[0] != "wlfreerdp"@[0]);
    assert(9 == "rhythmbox"@.len());
}

proof fn lemma_player_not_browser(c: Seq<char>)
    ensures
        player_class(c) ==> !browser_class(c),
{
    reveal_strlit("zen");
    reveal_strlit("firefox");
    reveal_strlit("chromium");
    reveal_strlit("qutebrowser");
    reveal_strlit("brave-browser");
    reveal_strlit("google-chrome");
    reveal_strlit("mpv");
    assert("mpv"@[0] != "zen"@[0]);
    assert(3 == "mpv"@.len());
    reveal_strlit("vlc");
    assert("vlc"@[0] != "zen"@[0]);
    assert(3 == "vlc"@.len());
    reveal_strlit("spotify");
    assert("spotify"@[0] != "firefox"@[0]);
    assert(7 == "spotify"@.len());
    reveal_strlit("spotify_player");
    assert(14 == "spotify_player"@.len());
    reveal_strlit("spotube");
    assert("spotube"@[0] != "firefox"@[0]);
    assert(7 == "spotube"@.len());
    reveal_strlit("ncspot");
    assert(6 == "ncspot"@.len());
    reveal_strlit("cmus");
    assert(4 == "cmus"@.len());
    reveal_strlit("audacious");
    assert(9 == "audacious"@.len());
    reveal_strlit("rhythmbox");
    assert(9 == "rhythmbox"@.len());
}

proof fn lemma_player_not_file_manager(c: Seq<char>)
    ensures
        player_class(c) ==> !file_manager_class(c),
{
    reveal_strlit("nemo");
    reveal_strlit("thunar");
    reveal_strlit("dolphin");
    reveal_strlit("pcmanfm");
    reveal_strlit("nautilus");
    reveal_strlit("mpv");
    assert(3 == "mpv"@.len());
    reveal_strlit("vlc");
    assert(3 == "vlc"@.len());
    reveal_strlit("spotify");
    assert("spotify"@[0] != "dolphin"@[0]);
    assert("spotify"@[0] != "pcmanfm"@[0]);
    assert(7 == "spotify"@.len());
    reveal_strlit("spotify_player");
    assert(14 == "spotify_player"@.len());
    reveal_strlit("spotube");
    assert("spotube"@[0] != "dolphin"@[0]);
    assert("spotube"@[0] != "pcmanfm"@[0]);
    assert(7 == "spotube"@.len());
    reveal_strlit("ncspot");
    assert("ncspot"@[0] != "thunar"@[0]);
    assert(6 == "ncspot"@.len());
    reveal_strlit("cmus");
    assert("cmus"@[0] != "nemo"@[0]);
    assert(4 == "cmus"@.len());
    reveal_strlit("audacious");
    assert(9 == "audacious"@.len());
    reveal_strlit("rhythmbox");
    assert(9 == "rhythmbox"@.len());
}

proof fn lemma_reader_not_editor(c: Seq<char>)
    ensures
        reader_class(c) ==> !editor_class(c),
{
    reveal_strlit("vim");
    reveal_strlit("zed");
    reveal_strlit("code");
    reveal_strlit("nvim");
    reveal_strlit("emacs");
    reveal_strlit("helix");
    reveal_strlit("codium");
    reveal_strlit("neovim");
    reveal_strlit("vscode");
    reveal_strlit("vscodium");
    reveal_strlit("sublime_text");
    reveal_strlit("code-insiders");
    reveal_strlit("code - insiders");
    reveal_strlit("zathura");
    assert(7 == "zathura"@.len());
    reveal_strlit("evince");
    assert("evince"@[0] != "neovim"@[0]);
    assert("evince"@[0] != "vscode"@[0]);
    assert("evince"@[0] != "codium"@[0]);
    assert(6 == "evince"@.len());
    reveal_strlit("okular");
    assert("okular"@[0] != "neovim"@[0]);
    assert("okular"@[0] != "vscode"@[0]);
    assert("okular"@[0] != "codium"@[0]);
    assert(6 == "okular"@.len());
    reveal_strlit("foliate");
    assert(7 == "foliate"@.len());
    reveal_strlit("calibre");
    assert(7 == "calibre"@.len());
    reveal_strlit("sioyek");
    assert("sioyek"@[0] != "neovim"@[0]);
    assert("sioyek"@[0] != "vscode"@[0]);
    assert("sioyek"@[0] != "codium"@[0]);
    assert(6 == "sioyek"@.len());
    reveal_strlit("mupdf");
    assert("mupdf"@[0] != "emacs"@[0]);
    assert("mupdf"@[0] != "helix"@[0]);
    assert(5 == "mupdf"@.len());
}

proof fn lemma_reader_not_terminal(c: Seq<char>)
    ensures
        reader_class(c) ==> !terminal_class(c),
{
    reveal_strlit("st");
    reveal_strlit("foot");
    reveal_strlit("kitty");
    reveal_strlit("xterm");
    reveal_strlit("ghostty");
    reveal_strlit("konsole");
    reveal_strlit("wezterm");
    reveal_strlit("alacritty");
    reveal_strlit("zathura");
    assert("zathura"@[0] != "wezterm"@[0]);
    assert("zathura"@[0] != "ghostty"@[0]);
    assert("zathura"@[0] != "konsole"@[0]);
    assert(7 == "zathura"@.len());
    reveal_strlit("evince");
    assert(6 == "evince"@.len());
    reveal_strlit("okular");
    assert(6 == "okular"@.len());
    reveal_strlit("foliate");
    assert("foliate"@[0] != "wezterm"@[0]);
    assert("foliate"@[0] != "ghostty"@[0]);
    assert("foliate"@[0] != "konsole"@[0]);
    assert(7 == "foliate"@.len());
    reveal_strlit("calibre");
    assert("calibre"@[0] != "wezterm"@[0]);
    assert("calibre"@[0] != "ghostty"@[0]);
    assert("calibre"@[0] != "konsole"@[0]);
    assert(7 == "calibre"@.len());
    reveal_strlit("sioyek");
    assert(6 == "sioyek"@.len());
    reveal_strlit("mupdf");
    assert("mupdf"@[0] != "kitty"@[0]);
    assert("mupdf"@[0] != "xterm"@[0]);
    assert(5 == "mupdf"@.len());
}

proof fn lemma_reader_not_remote(c: Seq<char>)
    ensures
        reader_class(c) ==> !remote_class(c),
{
    reveal_strlit("freerdp");
    reveal_strlit("remmina");
    reveal_strlit("xfreerdp");
    reveal_strlit("wlfreerdp");
    reveal_strlit("org.remmina.remmina");
    reveal_strlit("zathura");
    assert("zathura"@[0] != "freerdp"@[0]);
    assert("zathura"@[0] != "remmina"@[0]);
    assert(7 == "zathura"@.len());
    reveal_strlit("evince");
    assert(6 == "evince"@.len());
    reveal_strlit("okular");
    assert(6 == "okular"@.len());
    reveal_strlit("foliate");
    assert("foliate"@[1] != "freerdp"@[1]);
    assert("foliate"@[0] != "remmina"@[0]);
    assert(7 == "foliate"@.len());
    reveal_strlit("calibre");
    assert("calibre"@[0] != "freerdp"@[0]);
    assert("calibre"@[0] != "remmina"@[0]);
    assert(7 == "calibre"@.len());
    reveal_strlit("sioyek");
    assert(6 == "sioyek"@.len());
    reveal_strlit("mupdf");
    assert(5 == "mupdf"@.len());
}

proof fn lemma_reader_not_browser(c: Seq<char>)
    ensures
        reader_class(c) ==> !browser_class(c),
{
    reveal_strlit("zen");
    reveal_strlit("firefox");
    reveal_strlit("chromium");
    reveal_strlit("qutebrowser");
    reveal_strlit("brave-browser");
    reveal_strlit("google-chrome");
    reveal_strlit("zathura");
    assert("zathura"@[0] != "firefox"@[0]);
    assert(7 == "zathura"@.len());
    reveal_strlit("evince");
    assert(6 == "evince"@.len());
    reveal_strlit("okular");
    assert(6 == "okular"@.len());
    reveal_strlit("foliate");
    assert("foliate"@[1] != "firefox"@[1]);
    assert(7 == "foliate"@.len());
    reveal_strlit("calibre");
    assert("calibre"@[0] != "firefox"@[0]);
    assert(7 == "calibre"@.len());
    reveal_strlit("sioyek");
    assert(6 == "sioyek"@.len());
    reveal_strlit("mupdf");
    assert(5 == "mupdf"@.len());
}

proof fn lemma_reader_not_file_manager(c: Seq<char>)
    ensures
        reader_class(c) ==> !file_manager_class(c),
{
    reveal_strlit("nemo");
    reveal_strlit("thunar");
    reveal_strlit("dolphin");
    reveal_strlit("pcmanfm");
    reveal_strlit("nautilus");
    reveal_strlit("zathura");
    assert("zathura"@[0] != "dolphin"@[0]);
    assert("zathura"@[0] != "pcmanfm"@[0]);
    assert(7 == "zathura"@.len());
    reveal_strlit("evince");
    assert("evince"@[0] != "thunar"@[0]);
    assert(6 == "evince"@.len());
    reveal_strlit("okular");
    assert("okular"@[0] != "thunar"@[0]);
    assert(6 == "okular"@.len());
    reveal_strlit("foliate");
    assert("foliate"@[0] != "dolphin"@[0]);
    assert("foliate"@[0] != "pcmanfm"@[0]);
    assert(7 == "foliate"@.len());
    reveal_strlit("calibre");
    assert("calibre"@[0] != "dolphin"@[0]);
    assert("calibre"@[0] != "pcmanfm"@[0]);
    assert(7 == "calibre"@.len());
    reveal_strlit("sioyek");
    assert("sioyek"@[0] != "thunar"@[0]);
    assert(6 == "sioyek"@.len());
    reveal_strlit("mupdf");
    assert(5 == "mupdf"@.len());
}

proof fn lemma_reader_not_player(c: Seq<char>)
    ensures
        reader_class(c) ==> !player_class(c),
{
    reveal_strlit("mpv");
    reveal_strlit("vlc");
    reveal_strlit("cmus");
    reveal_strlit("ncspot");
    reveal_strlit("spotify");
    reveal_strlit("spotube");
    reveal_strlit("audacious");
    reveal_strlit("rhythmbox");
    reveal_strlit("spotify_player");
    reveal_strlit("zathura");
    assert("zathura"@[0] != "spotify"@[0]);
    assert("zathura"@[0] != "spotube"@[0]);
    assert(7 == "zathura"@.len());
    reveal_strlit("evince");
    assert("evince"@[0] != "ncspot"@[0]);
    assert(6 == "evince"@.len());
    reveal_strlit("okular");
    assert("okular"@[0] != "ncspot"@[0]);
    assert(6 == "okular"@.len());
    reveal_strlit("foliate");
    assert("foliate"@[0] != "spotify"@[0]);
    assert("foliate"@[0] != "spotube"@[0]);
    assert(7 == "foliate"@.len());
    reveal_strlit("calibre");
    assert("calibre"@[0] != "spotify"@[0]);
    assert("calibre"@[0] != "spotube"@[0]);
    assert(7 == "calibre"@.len());
    reveal_strlit("sioyek");
    assert("sioyek"@[0] != "ncspot"@[0]);
    assert(6 == "sioyek"@.len());
    reveal_strlit("mupdf");
    assert(5 == "mupdf"@.len());
}

} // verus!
