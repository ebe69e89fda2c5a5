use linuxpal::context::{media_applies, resolve_state};
use linuxpal::ipc::WindowContext;
use linuxpal::sprites::State;

fn ctx(class: &str, title: &str) -> WindowContext {
    WindowContext { class: class.to_string(), title: title.to_string() }
}

#[test]
fn terminal_tui_player_jams() {
    assert!(media_applies(&ctx("kitty", "ncspot"), "some song", "ncspot"));
    assert!(media_applies(&ctx("alacritty", "tmux"), "track", "cmus"));
    assert!(media_applies(&ctx("kitty", "tmux"), "x", "spotify_player"));
}

#[test]
fn terminal_without_tui_player_does_not_jam() {
    assert!(!media_applies(&ctx("kitty", "tmux"), "ayo cek toco", "firefox"));
    assert!(!media_applies(&ctx("kitty", "nvim"), "song", "spotify"));
}

#[test]
fn dedicated_player_window_always_applies() {
    assert!(media_applies(&ctx("spotify", "Artist - Song"), "", "spotify"));
    assert!(media_applies(&ctx("mpv", "video.mkv"), "", "mpv"));
}

#[test]
fn terminals_and_editors_are_working() {
    assert_eq!(resolve_state(&ctx("kitty", "tmux")), State::Working);
    assert_eq!(resolve_state(&ctx("kitty", "zsh")), State::Working);
    assert_eq!(resolve_state(&ctx("alacritty", "")), State::Working);
    assert_eq!(resolve_state(&ctx("code-insiders", "x")), State::Working);
    assert_eq!(resolve_state(&ctx("code - insiders", "x")), State::Working);
    assert_eq!(resolve_state(&ctx("nvim", "init.lua")), State::Working);
    assert_eq!(resolve_state(&ctx("kitty", "nvim main.rs")), State::Working);
    assert_eq!(resolve_state(&ctx("xfreerdp", "FreeRDP: host")), State::Working);
}

#[test]
fn empty_context_is_idle() {
    assert_eq!(resolve_state(&ctx("", "")), State::Idle);
}

#[test]
fn browser_requires_title_match() {
    assert!(media_applies(&ctx("zen", "my song - youtube"), "my song", "firefox"));
    assert!(!media_applies(&ctx("zen", "github - pull request"), "my song", "firefox"));
}

#[test]
fn browser_title_match_needs_more_than_three_bytes() {
    assert!(!media_applies(&ctx("firefox", "abc - youtube"), "abc", "firefox"));
    assert!(media_applies(&ctx("firefox", "abcd - youtube"), "  abcd ", "firefox"));
}

#[test]
fn title_events_take_precedence() {
    assert_eq!(resolve_state(&ctx("kitty", "training epoch 10 done")), State::TrainingDone);
    assert_eq!(resolve_state(&ctx("kitty", "cargo test: tests passed")), State::Happy);
    assert_eq!(resolve_state(&ctx("firefox", "news")), State::Alert);
}
