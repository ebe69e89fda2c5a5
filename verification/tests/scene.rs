use linuxpal::config::Config;
use linuxpal::geometry::{infos_ok_check, OutputInfo};
use linuxpal::pet::Pet;
use linuxpal::sprites::{Sprites, State, SPRITE_COUNT};

fn png(w: u32, h: u32, rgba: [u8; 4]) -> Vec<u8> {
    let img = image::RgbaImage::from_pixel(w, h, image::Rgba(rgba));
    let mut out = std::io::Cursor::new(Vec::new());
    img.write_to(&mut out, image::ImageFormat::Png).unwrap();
    out.into_inner()
}

fn sprites() -> Sprites {
    let files: Vec<Result<Vec<u8>, String>> = (0..SPRITE_COUNT).map(|_| Ok(png(120, 100, [200, 100, 50, 255]))).collect();
    Sprites::load("assets", &files).ok().unwrap()
}

fn px(buf: &[u8], stride: usize, x: usize, y: usize) -> [u8; 4] {
    let o = y * stride + x * 4;
    [buf[o], buf[o + 1], buf[o + 2], buf[o + 3]]
}

#[test]
fn a_frame_shows_the_bubble_and_the_mascot_flush_right() {
    let s = sprites();
    let mut p = Pet::new(Config::default(), 1, false);
    p.bubble.say("hello there");
    let (w, h) = (520u32, 165u32);
    let stride = w as usize * 4;
    let mut canvas = vec![9u8; stride * h as usize];
    assert!(p.can_draw(w, h, &s));
    p.draw(&mut canvas, w, h, &s, None);
    assert_eq!(px(&canvas, stride, 400, 10), [50, 100, 200, 255]);
    assert_eq!(px(&canvas, stride, 399, 10), [0, 0, 0, 0]);
    let bx = 400 - 14 - 258;
    assert_eq!(px(&canvas, stride, bx + 3, 11), [0x2a, 0x1e, 0x14, 220]);
    assert_eq!(px(&canvas, stride, 10, 150), [0, 0, 0, 0]);
    assert_eq!(p.bubble.ticks_left, 79);
}

#[test]
fn the_menu_replaces_the_bubble() {
    let s = sprites();
    let mut p = Pet::new(Config::default(), 1, false);
    p.bubble.say("hidden behind the menu");
    p.menu_open = true;
    p.animator.state = State::Thinking;
    let stride = 520 * 4;
    let mut canvas = vec![0u8; stride * 165];
    p.draw(&mut canvas, 520, 165, &s, Some(1));
    assert_eq!(px(&canvas, stride, 222 + 103, 8), [0x50, 0x5a, 0x2a, 255]);
    let bx = 400 - 14 - 258;
    assert_eq!(px(&canvas, stride, bx + 3, 11), [0, 0, 0, 0]);
}

#[test]
fn output_reports_are_checked_against_the_bound() {
    let ok = OutputInfo { id: 0, pos: Some((-1920, 0)), logical_size: Some((1920, 1080)), current_mode: None };
    let far = OutputInfo { id: 1, pos: Some((i32::MAX, 0)), logical_size: None, current_mode: None };
    assert!(infos_ok_check(&vec![ok]));
    assert!(!infos_ok_check(&vec![ok, far]));
    assert!(infos_ok_check(&vec![]));
}
