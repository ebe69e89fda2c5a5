use linuxpal::bubble::{fill_rect, wrap_text, Bubble, BUBBLE_TICKS};
use linuxpal::config::{parse_into, Config};
use linuxpal::context::resolve_state;
use linuxpal::control::{parse_command, ControlEvent};
use linuxpal::ipc::{extract_gdbus_string, WindowContext};
use linuxpal::menu::draw;
use linuxpal::morning::parse;
use linuxpal::renderer::blit_frame;
use linuxpal::sprites::{offline_joke_at, offline_tip_at, Frame, State};

fn ctx(class: &str, title: &str) -> WindowContext {
    WindowContext { class: class.to_string(), title: title.to_string() }
}

#[test]
fn class_table_rows() {
    assert_eq!(resolve_state(&ctx("firefox", "docs")), State::Alert);
    assert_eq!(resolve_state(&ctx("thunar", "home")), State::Thinking);
    assert_eq!(resolve_state(&ctx("spotify", "song")), State::Jamming);
    assert_eq!(resolve_state(&ctx("zathura", "paper.pdf")), State::Cozy);
    assert_eq!(resolve_state(&ctx("kitty", "zsh")), State::Working);
    assert_eq!(resolve_state(&ctx("gimp", "image")), State::Idle);
}

#[test]
fn title_rules_outrank_classes() {
    for class in ["firefox", "thunar", "spotify", "zathura", "kitty", "gimp"] {
        assert_eq!(resolve_state(&ctx(class, "training epoch 9 done")), State::TrainingDone);
        assert_eq!(resolve_state(&ctx(class, "cargo test: tests passed")), State::Happy);
        assert_eq!(resolve_state(&ctx(class, "vim notes")), State::Working);
    }
}

#[test]
fn command_word_ignores_case_and_message_is_trimmed() {
    assert!(matches!(parse_command("SUMMON"), Ok(ControlEvent::Summon)));
    assert!(matches!(parse_command("Quit"), Ok(ControlEvent::Quit)));
    match parse_command("  SAY   Hello There  ") {
        Ok(ControlEvent::Say(m)) => assert_eq!(m, "Hello There"),
        other => panic!("expected Say, got {other:?}"),
    }
    match parse_command("state HAPPY") {
        Ok(ControlEvent::SetState(s)) => assert_eq!(s, "happy"),
        other => panic!("expected SetState, got {other:?}"),
    }
}

#[test]
fn gdbus_reply_text_between_outer_quotes() {
    assert_eq!(extract_gdbus_string(b"('it's',)"), Some("it's".to_string()));
    assert_eq!(extract_gdbus_string(b"('x',)"), Some("x".to_string()));
}

#[test]
fn later_config_line_wins() {
    let mut c = Config::default();
    parse_into("walk_every = 10\nwalk_every = 20\n", &mut c);
    assert_eq!(c.walk_every, 20);
    let mut d = Config::default();
    parse_into("walk_every = 10\r\nwalk_every = oops\n", &mut d);
    assert_eq!(d.walk_every, 10);
}

#[test]
fn morning_keeps_blocks_with_a_command() {
    let apps = parse("cmd = \"early\"\n[[apps]]\nargs = \"x\"\n[[apps]]\ncmd = \"kitty\"\n[[apps]]\ncmd = \"zen\"\ndelay_ms = soon\n");
    assert_eq!(apps.len(), 2);
    assert_eq!(apps[0].cmd, "kitty");
    assert_eq!(apps[1].cmd, "zen");
    assert_eq!(apps[1].delay_ms, 0);
}

#[test]
fn bubble_hidden_for_good_after_its_ticks() {
    let mut b = Bubble::new();
    b.say("hi");
    for n in 1..=300u64 {
        b.tick();
        assert_eq!(b.visible, n <= BUBBLE_TICKS);
        assert_eq!(b.tip, "hi");
    }
}

#[test]
fn wrap_is_greedy_and_joins_back() {
    assert_eq!(wrap_text("aaa bbb ccc", 7), vec!["aaa bbb".to_string(), "ccc".to_string()]);
    let text = "  the quick   brown fox jumps over the lazy dog ";
    let lines = wrap_text(text, 10);
    assert_eq!(lines.join(" "), text.split_whitespace().collect::<Vec<_>>().join(" "));
    assert_eq!(wrap_text("abcdefghijkl x", 5), vec!["abcdefghijkl".to_string(), "x".to_string()]);
}

#[test]
fn fill_rect_is_local_and_idempotent() {
    let stride = 4 * 6;
    let mut buf = vec![1u8; stride * 5];
    fill_rect(&mut buf, stride, 1, 1, 2, 2, 10, 20, 30, 40);
    let once = buf.clone();
    fill_rect(&mut buf, stride, 1, 1, 2, 2, 10, 20, 30, 40);
    assert_eq!(buf, once);
    for row in 0..5 {
        for col in 0..6 {
            let px = &once[row * stride + col * 4..row * stride + col * 4 + 4];
            if (1..3).contains(&row) && (1..3).contains(&col) {
                assert_eq!(px, &[30, 20, 10, 40]);
            } else {
                assert_eq!(px, &[1, 1, 1, 1]);
            }
        }
    }
}

#[test]
fn menu_rows_and_panel() {
    let ox = 3;
    let stride = 4 * (ox + 110);
    let base = vec![5u8; stride * 120];
    let mut none = base.clone();
    draw(&mut none, stride, ox, None);
    let mut far = base.clone();
    draw(&mut far, stride, ox, Some(7));
    assert_eq!(none, far);
    let mut lit = base.clone();
    draw(&mut lit, stride, ox, Some(2));
    let px = |b: &Vec<u8>, x: usize, y: usize| b[y * stride + x * 4..y * stride + x * 4 + 4].to_vec();
    for i in 0..5 {
        let expect = if i == 2 { vec![0x50, 0x5a, 0x2a, 140] } else { vec![0x2a, 0x1e, 0x14, 235] };
        assert_eq!(px(&lit, ox + 2, 21 + 17 * i), expect);
    }
    assert_eq!(px(&lit, ox + 1, 9), vec![0x2a, 0x1e, 0x14, 235]);
    for y in 0..120 {
        for x in 0..(ox + 110) {
            if !(ox..ox + 104).contains(&x) || !(8..111).contains(&y) {
                assert_eq!(px(&lit, x, y), vec![5, 5, 5, 5]);
            }
        }
    }
}

#[test]
fn blit_stays_premultiplied() {
    let frame = Frame { data: vec![255, 200, 100, 50, 9, 9, 9, 0], width: 2, height: 1 };
    let mut buf = vec![3u8; 4 * 4];
    blit_frame(&mut buf, 4, 1, 16, &frame, 1);
    assert_eq!(&buf[0..4], &[3, 3, 3, 3]);
    assert!(buf[4] <= buf[7] && buf[5] <= buf[7] && buf[6] <= buf[7]);
    assert_eq!(buf[7], 50);
    assert_eq!(&buf[8..12], &[0, 0, 0, 0]);
    assert_eq!(&buf[12..16], &[3, 3, 3, 3]);
}

#[test]
fn offline_rotation_holds_within_a_slot() {
    assert_eq!(offline_tip_at(&State::Working, 10), offline_tip_at(&State::Working, 14));
    assert_eq!(offline_tip_at(&State::TrainingDone, 10), offline_tip_at(&State::Working, 10));
    assert_eq!(offline_tip_at(&State::Happy, 42), offline_tip_at(&State::Idle, 42));
    assert_eq!(offline_joke_at(100), offline_joke_at(104));
}
