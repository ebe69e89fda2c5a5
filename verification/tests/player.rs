use linuxpal::player::{is_music, scan};

#[test]
fn music_is_anything_but_a_plain_youtube_page() {
    assert!(is_music("https://music.youtube.com/watch?v=1"));
    assert!(is_music("file:///home/me/song.flac"));
    assert!(is_music(""));
    assert!(!is_music("https://www.YouTube.com/watch?v=2"));
    assert!(!is_music("https://youtu.be/3"));
}

#[test]
fn only_playing_players_count() {
    let out = b"paused\thttps://music.youtube.com/x\nplaying\thttps://www.youtube.com/watch?v=1\n";
    assert_eq!(scan(out), (false, true));
    let out = b" playing \t file:///a.mp3 \n";
    assert_eq!(scan(out), (true, false));
    assert_eq!(scan(b"Playing\thttps://youtu.be/x"), (false, false));
    assert_eq!(scan(b"playing"), (true, false));
    assert_eq!(scan(b""), (false, false));
}
