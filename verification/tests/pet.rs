use linuxpal::config::Config;
use linuxpal::control::ControlEvent;
use linuxpal::events::{KEY_BACKSPACE, KEY_ESCAPE, KEY_RETURN};
use linuxpal::geometry::{OutputInfo, Rect};
use linuxpal::ipc::WindowContext;
use linuxpal::llm::BubbleUpdate;
use linuxpal::menu::MenuAction;
use linuxpal::pet::{Effect, Pet, FORCE_TICKS, GREET_TICKS};
use linuxpal::sprites::{Direction, State};

fn ctx(class: &str, title: &str) -> WindowContext {
    WindowContext { class: class.to_string(), title: title.to_string() }
}

fn pet() -> Pet {
    Pet::new(Config::default(), 0x9e3779b97f4a7c15, false)
}

fn quiet_pet() -> Pet {
    let mut p = pet();
    p.greet_ticks_left = 0;
    p.greeted = true;
    p
}

fn tick(p: &mut Pet, class: &str, title: &str) -> Vec<Effect> {
    p.sync_state(&ctx(class, title), false, false, "", "")
}

#[test]
fn greeting_is_said_once_in_the_happy_pose() {
    let mut p = pet();
    assert!(tick(&mut p, "kitty", "tmux").is_empty());
    assert_eq!(p.animator.state, State::Happy);
    assert_eq!(p.bubble.tip, "hello! lets get some ideas and tasks done!");
    assert!(p.greeted);
    p.bubble.tip = String::from("changed");
    for _ in 1..GREET_TICKS {
        assert!(tick(&mut p, "kitty", "tmux").is_empty());
    }
    assert_eq!(p.bubble.tip, "changed");
    assert_eq!(p.greet_ticks_left, 0);
    assert_eq!(p.idle_ticks, 0);
    assert_eq!(p.working_ticks, 0);
}

#[test]
fn open_menu_freezes_the_state_machine() {
    let mut p = quiet_pet();
    p.menu_open = true;
    p.bubble.visible = true;
    for _ in 0..20 {
        assert!(tick(&mut p, "", "").is_empty());
    }
    assert_eq!(p.animator.state, State::Thinking);
    assert!(!p.bubble.visible);
    assert_eq!(p.idle_ticks, 0);
    assert!(!p.roaming);
}

#[test]
fn a_new_mood_waits_for_the_debounce() {
    let mut p = quiet_pet();
    for i in 0..4 {
        assert!(tick(&mut p, "firefox", "news").is_empty(), "tick {i}");
        assert_eq!(p.animator.state, State::Idle);
    }
    let e = tick(&mut p, "firefox", "news");
    assert_eq!(p.animator.state, State::Alert);
    assert_eq!(e.len(), 1);
    match &e[0] {
        Effect::QueryTip { context, state } => {
            assert_eq!(context, "firefox - news");
            assert_eq!(*state, State::Alert);
        }
        other => panic!("expected a tip query, got {other:?}"),
    }
    assert_eq!(p.bubble.tip, "thinking...");
}

#[test]
fn flapping_windows_do_not_change_the_pose() {
    let mut p = quiet_pet();
    for _ in 0..10 {
        tick(&mut p, "firefox", "a");
        tick(&mut p, "thunar", "b");
    }
    assert_eq!(p.animator.state, State::Idle);
}

#[test]
fn forced_state_holds_for_its_ticks() {
    let mut p = quiet_pet();
    assert!(p.handle_control(&ControlEvent::SetState("jamming".to_string())).is_empty());
    for _ in 0..FORCE_TICKS {
        assert!(tick(&mut p, "firefox", "news").is_empty());
        assert_eq!(p.animator.state, State::Jamming);
    }
    assert_eq!(p.force_ticks_left, 0);
    assert_eq!(p.idle_ticks, 0);
}

#[test]
fn control_commands() {
    let mut p = pet();
    assert!(p.handle_control(&ControlEvent::Summon).is_empty());
    assert_eq!(p.bubble.tip, "hi! ask me:  linuxpal-ctl ask \"...\"");
    assert_eq!(p.force_state, Some(State::Happy));
    assert_eq!(p.greet_ticks_left, 0);
    p.handle_control(&ControlEvent::SetState("sleepy".to_string()));
    assert_eq!(p.bubble.tip, "unknown state: sleepy");
    let e = p.handle_control(&ControlEvent::Ask("why?".to_string()));
    assert!(matches!(&e[..], [Effect::QueryAsk(q)] if q == "why?"));
    assert_eq!(p.bubble.joke, "thinking...");
    assert!(matches!(&p.handle_control(&ControlEvent::Morning)[..], [Effect::RunMorning]));
    assert!(matches!(&p.handle_control(&ControlEvent::Quit)[..], [Effect::Quit]));
    p.handle_control(&ControlEvent::Say("hey".to_string()));
    assert_eq!(p.bubble.tip, "hey");
    assert_eq!(p.bubble.joke, "");
}

#[test]
fn welcome_back_only_after_being_away() {
    let mut p = quiet_pet();
    p.user_resumed();
    assert!(!p.idle_returned);
    p.user_idled();
    p.user_resumed();
    assert!(p.idle_returned);
    tick(&mut p, "", "");
    assert_eq!(p.bubble.tip, "welcome back! ready when you are");
    assert_eq!(p.animator.state, State::Happy);
    assert_eq!(p.force_ticks_left, FORCE_TICKS - 1);
}

#[test]
fn tap_toggles_the_menu_and_rows_run_actions() {
    let mut p = quiet_pet();
    p.bubble.visible = true;
    assert!(p.handle_tap(None).is_empty());
    assert!(p.menu_open);
    assert!(!p.bubble.visible);
    assert!(p.handle_tap(None).is_empty());
    assert!(!p.menu_open);
    p.handle_tap(None);
    let e = p.handle_tap(Some(1));
    assert!(matches!(&e[..], [Effect::Launch(c)] if c == "kitty"));
    assert!(!p.menu_open);
    p.handle_tap(None);
    let e = p.handle_tap(Some(2));
    assert!(matches!(&e[..], [Effect::Launch(c)] if c == "zen-browser"));
    p.handle_tap(None);
    assert!(p.handle_tap(Some(42)).is_empty());
    assert!(!p.menu_open);
}

#[test]
fn typing_a_question() {
    let mut p = quiet_pet();
    let e = p.do_menu_action(MenuAction::Ask);
    assert!(matches!(&e[..], [Effect::SetKeyboard(true)]));
    assert!(p.input_mode);
    p.press_key(0x68, Some(" how\u{7}"));
    p.press_key(0x61, Some("ls?"));
    p.press_key(KEY_BACKSPACE, None);
    assert_eq!(p.input_buf.iter().collect::<String>(), " howls");
    let e = p.press_key(KEY_RETURN, None);
    assert!(matches!(&e[..], [Effect::SetKeyboard(false), Effect::QueryAsk(q)] if q == "howls"));
    assert!(!p.input_mode);
    assert!(p.input_buf.is_empty());
    assert_eq!(p.bubble.tip, "thinking...");
}

#[test]
fn blank_or_abandoned_questions_ask_nothing() {
    let mut p = quiet_pet();
    p.begin_input();
    p.press_key(0x20, Some("   "));
    let e = p.press_key(KEY_RETURN, None);
    assert!(matches!(&e[..], [Effect::SetKeyboard(false)]));
    p.begin_input();
    p.press_key(0x61, Some("abc"));
    let e = p.press_key(KEY_ESCAPE, None);
    assert!(matches!(&e[..], [Effect::SetKeyboard(false)]));
    assert!(p.input_buf.is_empty());
    assert!(p.press_key(0x61, Some("x")).is_empty());
    assert!(p.input_buf.is_empty());
    p.begin_input();
    p.handle_tap(None);
    assert!(!p.input_mode);
    p.begin_input();
    p.keyboard_leave();
    assert!(!p.input_mode);
}

fn info(id: usize, x: i32, y: i32, w: i32, h: i32) -> OutputInfo {
    OutputInfo { id, pos: Some((x, y)), logical_size: Some((w, h)), current_mode: None }
}

#[test]
fn outputs_are_laid_out_left_to_right() {
    let mut p = quiet_pet();
    let infos = vec![
        info(7, 1920, 0, 2560, 1440),
        OutputInfo { id: 8, pos: Some((0, 0)), logical_size: None, current_mode: Some((1920, 1080)) },
        OutputInfo { id: 9, pos: None, logical_size: Some((800, 600)), current_mode: None },
        info(10, 0, -1080, 0, 1080),
    ];
    p.rebuild_outputs(&infos);
    assert_eq!(
        p.outputs,
        vec![
            Rect { id: 8, x: 0, y: 0, w: 1920, h: 1080 },
            Rect { id: 7, x: 1920, y: 0, w: 2560, h: 1440 },
        ]
    );
    assert_eq!((p.pos_x, p.pos_y), (16, 16));
    assert!(p.pos_init);
    p.rebuild_outputs(&vec![]);
    assert_eq!(p.outputs.len(), 2);
}

#[test]
fn drag_moves_the_surface() {
    let mut p = quiet_pet();
    p.rebuild_outputs(&vec![info(0, 100, 50, 1920, 1080)]);
    assert!(p.can_drag(30, -100));
    let e = p.drag_by(30, -100);
    assert!(matches!(&e[..], [Effect::SetMargins { top: 0, left: 46 }]));
    assert_eq!((p.pos_x, p.pos_y), (146, 50));
    assert!(!p.can_drag(i32::MAX, 0));
}

#[test]
fn a_walk_bumps_the_outer_wall_and_stays_on_screen() {
    let mut p = quiet_pet();
    p.rebuild_outputs(&vec![info(0, 0, 0, 1920, 1080)]);
    p.roaming = true;
    p.walk_ticks_left = 100;
    p.pos_x = 1480;
    p.pos_y = 100;
    p.target_x = 5000;
    p.target_y = 100;
    let mut said_wall = false;
    for _ in 0..10 {
        p.advance_walk(false);
        assert!(p.pos_x + 520 - 94 < 1920);
        assert!(p.pos_x >= 0);
        if p.bubble.tip == "a wall here - cant cross this one" {
            said_wall = true;
        }
    }
    assert!(said_wall);
    assert_eq!(p.walk_dir, Direction::Right);
}

#[test]
fn a_walk_crosses_a_doorway_to_the_next_screen() {
    let mut p = quiet_pet();
    p.rebuild_outputs(&vec![info(0, 0, 0, 1920, 1080), info(1, 1920, 0, 1920, 1080)]);
    p.roaming = true;
    p.walk_ticks_left = 100;
    p.pos_x = 1400;
    p.pos_y = 100;
    p.target_x = 3000;
    p.target_y = 100;
    let mut hopped = false;
    for _ in 0..40 {
        let e = p.advance_walk(false);
        if e.iter().any(|x| matches!(x, Effect::PinTo(1))) {
            hopped = true;
            break;
        }
    }
    assert!(hopped);
    assert_eq!(p.cur_idx, 1);
    assert_eq!(p.bubble.tip, "a doorway! crossing to the next screen");
}

#[test]
fn roam_ends_idle_outside_companion_mode() {
    let mut p = quiet_pet();
    p.rebuild_outputs(&vec![info(0, 0, 0, 1920, 1080)]);
    p.roaming = true;
    p.walk_ticks_left = 1;
    p.animator.state = State::Walk(Direction::Left);
    assert!(p.advance_walk(false).is_empty());
    assert!(!p.roaming);
    assert_eq!(p.animator.state, State::Idle);
}

#[test]
fn companion_mode_pauses_with_a_tip() {
    let mut p = Pet::new(Config::default(), 7, true);
    p.greet_ticks_left = 0;
    p.rebuild_outputs(&vec![info(0, 0, 0, 1920, 1080)]);
    assert!(tick(&mut p, "kitty", "tmux").is_empty());
    assert!(p.roaming);
    assert!(matches!(p.animator.state, State::Walk(_)));
    p.walk_ticks_left = 1;
    let e = tick(&mut p, "kitty", "tmux");
    assert!(matches!(&e[..], [Effect::QueryTip { state: State::Working, .. }]));
    assert_eq!(p.animator.state, State::Working);
    assert_eq!(p.park_ticks_left, Config::default().park_duration);
}

#[test]
fn random_values_stay_in_range() {
    let mut p = quiet_pet();
    for _ in 0..200 {
        let v = p.rand_range(-5, 5);
        assert!((-5..=5).contains(&v));
    }
    let before = p.rng;
    assert_eq!(p.rand_range(9, 3), 9);
    assert_eq!(p.rng, before);
    let x = p.rng;
    let mut y = x ^ (x << 13);
    y ^= y >> 7;
    y ^= y << 17;
    assert_eq!(p.rand(), y);
}

#[test]
fn updates_reach_the_bubble() {
    let mut p = quiet_pet();
    p.apply_update(&BubbleUpdate::TipJoke { tip: "t".to_string(), joke: "j".to_string() });
    assert_eq!((p.bubble.tip.as_str(), p.bubble.joke.as_str()), ("t", "j"));
    assert!(!p.bubble.visible);
    p.apply_update(&BubbleUpdate::Plain("answer".to_string()));
    assert_eq!((p.bubble.tip.as_str(), p.bubble.joke.as_str()), ("answer", ""));
    assert!(p.bubble.visible);
}

#[test]
fn closing_the_last_surface_exits_and_otherwise_repins() {
    let mut p = quiet_pet();
    assert!(matches!(&p.surface_closed(&vec![])[..], [Effect::Quit]));
    let e = p.surface_closed(&vec![info(3, 500, 200, 1920, 1080)]);
    assert!(matches!(&e[..], [Effect::PinTo(0)]));
    assert_eq!((p.pos_x, p.pos_y), (516, 216));
    assert_eq!((p.margin_left, p.margin_top), (16, 16));
}
