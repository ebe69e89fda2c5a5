use linuxpal::sprites::{
    offline_joke_at, offline_tip_at, sprite_name, sprite_path, Animator, Direction, Frame, Sprites, State,
    SPRITE_COUNT,
};

fn png(w: u32, h: u32) -> Vec<u8> {
    let mut img = image::RgbaImage::new(w, h);
    img.put_pixel(0, 0, image::Rgba([1, 2, 3, 4]));
    let mut out = std::io::Cursor::new(Vec::new());
    img.write_to(&mut out, image::ImageFormat::Png).unwrap();
    out.into_inner()
}

#[test]
fn frames_decode_from_png_bytes() {
    let f = Frame::load("a/b.png", &Ok(png(3, 2))).ok().unwrap();
    assert_eq!((f.width, f.height), (3, 2));
    assert_eq!(f.data.len(), 3 * 2 * 4);
    assert_eq!(&f.data[..4], &[1, 2, 3, 4]);
}

#[test]
fn load_errors_name_the_file() {
    let e = Frame::load("x/y.png", &Err("No such file or directory (os error 2)".to_string())).err().unwrap();
    assert_eq!(e, "failed to load x/y.png: No such file or directory (os error 2)");
    let e = Frame::load("x/z.png", &Ok(vec![1, 2, 3])).err().unwrap();
    assert!(e.starts_with("failed to load x/z.png: "));
}

#[test]
fn all_sprites_load_in_order_or_the_first_failure_is_reported() {
    let mut files: Vec<Result<Vec<u8>, String>> = (0..SPRITE_COUNT).map(|i| Ok(png(i as u32 + 1, 1))).collect();
    let s = Sprites::load("dir", &files).ok().unwrap();
    assert_eq!(s.get("idle_open").width, 1);
    assert_eq!(s.get("walk_right_1").width, SPRITE_COUNT as u32);
    assert_eq!(s.get("thinking").width, 4);
    files[5] = Err("gone".to_string());
    files[9] = Err("also gone".to_string());
    let e = Sprites::load("dir", &files).err().unwrap();
    assert_eq!(e, "failed to load dir/happy_sparks.png: gone");
    assert_eq!(sprite_path("dir", 5), "dir/happy_sparks.png");
    assert_eq!(sprite_name(0), "idle_open");
}

#[test]
fn animation_frames_follow_the_clock() {
    let mut a = Animator::new();
    assert_eq!(a.state, State::Idle);
    assert_eq!(a.current_frame(), "idle_blink");
    a.state = State::Jamming;
    let mut seen = Vec::new();
    for _ in 0..8 {
        seen.push(a.current_frame());
        a.advance();
    }
    assert_eq!(seen, vec!["jamming_0", "jamming_0", "jamming_1", "jamming_1", "jamming_2", "jamming_2", "jamming_3", "jamming_3"]);
    a.reset();
    a.state = State::Walk(Direction::Left);
    assert_eq!(a.current_frame(), "walk_left_0");
    a.advance();
    a.advance();
    assert_eq!(a.current_frame(), "walk_left_1");
    a.state = State::WorkingEmpty;
    assert_eq!(a.current_frame(), "working_empty");
}

#[test]
fn offline_bank_rotates_every_five_seconds() {
    assert_eq!(offline_tip_at(&State::Alert, 0), "zen supports vertical tabs");
    assert_eq!(offline_tip_at(&State::Alert, 5), "ctrl+l to focus the address bar");
    assert_eq!(offline_tip_at(&State::Alert, 20), "zen supports vertical tabs");
    assert_eq!(offline_tip_at(&State::Working, 4), "try :Telescope find_files in nvim");
    assert_eq!(offline_joke_at(0), "sudo make me a sandwich");
    assert_eq!(offline_joke_at(25), "rm -rf my_doubts");
}
