use linuxpal::llm::{
    ask_failure_message, ask_prompt, build_prompt, extract_text, gemini_finish, gemini_line, http_failure,
    ollama_finish, ollama_line, parse_reply, parse_response, tip_update, BubbleUpdate, ModelSettings, Part,
    NO_KEY_MSG,
};
use linuxpal::sprites::{offline_joke_at, offline_tip_at, State};

#[test]
fn reply_lines_fill_tip_and_joke() {
    let r = parse_response("TIP:  use rg\nsome chatter\njoke: it works on my machine  \n");
    assert_eq!(r.tip, "use rg");
    assert_eq!(r.joke, "it works on my machine");
}

#[test]
fn missing_lines_get_defaults() {
    let r = parse_response("nothing useful here");
    assert_eq!(r.tip, "try: tldr <command> for quick help");
    assert_eq!(r.joke, "sudo make me a sandwich");
    let r = parse_response("TIP: first\nTIP:\nJOKE: j");
    assert_eq!(r.tip, "try: tldr <command> for quick help");
    assert_eq!(r.joke, "j");
}

#[test]
fn later_tagged_lines_win_and_tags_are_case_blind() {
    let r = parse_response("  Tip: one\r\ntIp: two\nJoke: a\nJOKE:b");
    assert_eq!(r.tip, "two");
    assert_eq!(r.joke, "b");
}

#[test]
fn tags_are_cut_by_their_byte_length() {
    assert_eq!(parse_reply("t\u{0131}p: x").unwrap().tip, ": x");
    assert_eq!(parse_reply("TIP: fine").unwrap().tip, "fine");
}

#[test]
fn prompts_are_exact() {
    assert_eq!(
        build_prompt("kitty - tmux"),
        "Linux desktop pet. User is: kitty - tmux. Reply EXACTLY:\nTIP: <linux tip max 8 words>\nJOKE: <programming joke max 10 words>"
    );
    assert_eq!(
        ask_prompt("why?"),
        "You are LinuxPal, a concise Linux desktop assistant. Answer in plain text (no markdown), at most 40 words.\nQuestion: why?"
    );
}

#[test]
fn settings_are_set_once_with_defaults() {
    let mut s = ModelSettings::new();
    assert_eq!(s.local_model(), "qwen2.5:1.5b");
    assert_eq!(s.gemini_model(), "gemini-flash-latest");
    assert_eq!(
        s.gemini_endpoint(),
        "https://generativelanguage.googleapis.com/v1beta/models/gemini-flash-latest:streamGenerateContent?alt=sse"
    );
    s.set_model("a".to_string());
    s.set_model("b".to_string());
    assert_eq!(s.local_model(), "a");
    s.set_gemini_model("g1".to_string());
    s.set_gemini_model("g2".to_string());
    assert_eq!(s.gemini_model(), "g1");
    assert!(s.gemini_endpoint().ends_with("/g1:streamGenerateContent?alt=sse"));
}

#[test]
fn environment_key_wins_unless_blank() {
    let mut s = ModelSettings::new();
    assert_eq!(s.api_key(None), None);
    assert_eq!(s.api_key(Some("  ")), None);
    s.set_api_key("  ".to_string());
    assert_eq!(s.api_key(None), None);
    let mut s = ModelSettings::new();
    s.set_api_key("cfg".to_string());
    assert_eq!(s.api_key(Some("env")), Some("env".to_string()));
    assert_eq!(s.api_key(Some(" ")), Some("cfg".to_string()));
    assert_eq!(s.api_key(None), Some("cfg".to_string()));
    assert!(NO_KEY_MSG.starts_with("no Gemini API key"));
}

#[test]
fn thoughts_are_left_out_of_answers() {
    let parts = vec![
        Part { thought: Some(true), text: Some("hidden".to_string()) },
        Part { thought: None, text: Some("a".to_string()) },
        Part { thought: Some(false), text: Some("b".to_string()) },
        Part { thought: None, text: None },
    ];
    assert_eq!(extract_text(&parts), "ab");
}

#[test]
fn gemini_stream_lines() {
    let mut acc = Vec::new();
    assert_eq!(gemini_line(&mut acc, ": keep-alive", true), None);
    assert_eq!(gemini_line(&mut acc, "data:   ", true), None);
    assert_eq!(gemini_line(&mut acc, "data: {not json", true), None);
    let l1 = r#"data: {"candidates":[{"content":{"parts":[{"text":" Hello"},{"thought":true,"text":"x"}]}}]}"#;
    assert_eq!(gemini_line(&mut acc, l1, false), None);
    let l2 = r#"  data: {"candidates":[{"content":{"parts":[{"text":" world "}]}}]}"#;
    assert_eq!(gemini_line(&mut acc, l2, true), Some("Hello world".to_string()));
    assert_eq!(acc.iter().collect::<String>(), " Hello world ");
    assert_eq!(gemini_finish(&acc), Ok("Hello world".to_string()));
    assert_eq!(gemini_finish(&vec![' ']), Err("gemini returned no text".to_string()));
}

#[test]
fn ollama_stream_lines() {
    let mut acc = Vec::new();
    assert_eq!(ollama_line(&mut acc, "   ", true), (None, false));
    assert_eq!(ollama_line(&mut acc, "garbage", true), (None, false));
    assert_eq!(ollama_line(&mut acc, r#"{"response":"Hi","done":false}"#, false), (None, false));
    assert_eq!(ollama_line(&mut acc, r#"{"response":" there","done":true}"#, true), (Some("Hi there".to_string()), true));
    assert_eq!(ollama_finish(&acc), "Hi there");
    assert_eq!(ollama_finish(&vec![]), "no answer");
}

#[test]
fn failures_are_explained() {
    assert_eq!(ask_failure_message("http 429 Too Many Requests: x"), "rate limited & local model down \u{2014} try later");
    assert_eq!(ask_failure_message("RESOURCE_EXHAUSTED"), "rate limited & local model down \u{2014} try later");
    assert_eq!(ask_failure_message("http 400: bad key"), "ask failed \u{2014} Gemini error and no local model");
    assert_eq!(http_failure("400 Bad Request", "a\nb\n"), "http 400 Bad Request: a b ");
}

#[test]
fn tip_updates_fall_back_to_the_offline_bank() {
    let offline = tip_update(None, &State::Alert, 12345).unwrap();
    match offline {
        BubbleUpdate::TipJoke { tip, joke } => {
            assert_eq!(tip, offline_tip_at(&State::Alert, 12345));
            assert_eq!(joke, offline_joke_at(12345));
        }
        other => panic!("expected a tip and joke, got {other:?}"),
    }
    assert!(matches!(tip_update(Some(b"<html>"), &State::Idle, 0), Some(BubbleUpdate::TipJoke { .. })));
    match tip_update(Some(br#"{"response":"TIP: ls -la\nJOKE: rm -rf doubts"}"#), &State::Idle, 0) {
        Some(BubbleUpdate::TipJoke { tip, joke }) => {
            assert_eq!(tip, "ls -la");
            assert_eq!(joke, "rm -rf doubts");
        }
        other => panic!("expected a tip and joke, got {other:?}"),
    }
    match tip_update(Some(br#"{"done":true}"#), &State::Idle, 0) {
        Some(BubbleUpdate::TipJoke { tip, .. }) => assert_eq!(tip, "try: tldr <command> for quick help"),
        other => panic!("expected a tip and joke, got {other:?}"),
    }
}
