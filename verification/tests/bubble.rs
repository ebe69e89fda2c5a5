use linuxpal::bubble::{draw_bubble, Bubble, BUBBLE_TICKS};
use linuxpal::menu::{draw, rows_top, PANEL_W};

#[test]
fn a_bubble_stays_up_for_its_ticks_then_hides() {
    let mut b = Bubble::new();
    assert!(!b.visible);
    b.say("hello");
    assert_eq!((b.tip.as_str(), b.joke.as_str()), ("hello", ""));
    for _ in 0..BUBBLE_TICKS {
        b.tick();
        assert!(b.visible);
    }
    b.tick();
    assert!(!b.visible);
    b.show_loading();
    assert_eq!((b.tip.as_str(), b.joke.as_str()), ("thinking...", "thinking..."));
    b.update("t", "j");
    assert!(b.visible);
    assert_eq!(b.ticks_left, BUBBLE_TICKS);
}

fn px(buf: &[u8], stride: usize, x: usize, y: usize) -> [u8; 4] {
    let o = y * stride + x * 4;
    [buf[o], buf[o + 1], buf[o + 2], buf[o + 3]]
}

#[test]
fn bubble_box_border_and_tail_are_drawn_left_of_the_mascot() {
    let stride = 520 * 4;
    let mut buf = vec![0u8; stride * 165];
    draw_bubble(&mut buf, stride, "use rg", "it works on my machine", 300);
    let bx = 300 - 14 - 258;
    assert_eq!(px(&buf, stride, bx, 8), [0x50, 0x5a, 0x2a, 255]);
    assert_eq!(px(&buf, stride, bx + 3, 11), [0x2a, 0x1e, 0x14, 220]);
    assert_eq!(px(&buf, stride, bx - 1, 11), [0, 0, 0, 0]);
    assert_eq!(px(&buf, stride, bx + 258, 51), [0x2a, 0x1e, 0x14, 220]);
}

#[test]
fn menu_panel_is_drawn_at_its_origin() {
    let stride = 520 * 4;
    let mut buf = vec![0u8; stride * 165];
    draw(&mut buf, stride, 222, Some(0));
    assert_eq!(px(&buf, stride, 222 + PANEL_W - 1, 8), [0x50, 0x5a, 0x2a, 255]);
    assert_eq!(px(&buf, stride, 221, 20), [0, 0, 0, 0]);
    assert!(rows_top() > 8);
}
