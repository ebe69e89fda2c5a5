//! Media playback as MPRIS players report it (through `playerctl`): is
//! music or a plain video playing?

use vstd::prelude::*;
use crate::ipc::{decode_lossy, utf8_lossy};
use crate::text::{
    after_first_line, chars_of, contains, contains_lit, eq_lit, first_index, first_line, index_of,
    lemma_first_index_props, lowercase, lowercase_of, next_line, slice_of, string_of, trim, trim_vec,
};

verus! {

/// Whether a playing source counts as music: anything but a plain YouTube
/// watch page (YouTube Music, Spotify, local files and so on are music).
pub open spec fn music_url(url: Seq<char>) -> bool {
    let u = lowercase_of(url);
    !((contains(u, "youtube.com"@) || contains(u, "youtu.be"@)) && !contains(u, "music.youtube.com"@))
}

/// Whether a playing source's URL counts as music.
pub fn is_music(url: &str) -> (r: bool)
    ensures
        r == music_url(url@),
{
    let u = chars_of(lowercase(url).as_str());
    let plain_yt = (contains_lit(&u, "youtube.com") || contains_lit(&u, "youtu.be")) && !contains_lit(
        &u,
        "music.youtube.com",
    );
    !plain_yt
}

/// What one `status<TAB>url` line reports: `None` unless the (trimmed)
/// status is `playing`; else whether the (trimmed) URL is music. A line
/// without a tab is all status.
pub open spec fn player_line(line: Seq<char>) -> Option<bool> {
    let i = first_index(line, '\t') as int;
    let status = if i < line.len() {
        line.subrange(0, i)
    } else {
        trim(line)
    };
    let url = if i < line.len() {
        line.subrange(i + 1, line.len() as int)
    } else {
        Seq::empty()
    };
    if trim(status) != "playing"@ {
        None
    } else {
        Some(music_url(trim(url)))
    }
}

/// Music and video flags after one more line.
pub open spec fn scan_step(acc: (bool, bool), line: Seq<char>) -> (bool, bool) {
    match player_line(line) {
        None => acc,
        Some(true) => (true, acc.1),
        Some(false) => (acc.0, true),
    }
}

/// Music and video flags after every line of `text`.
pub open spec fn scan_fold(acc: (bool, bool), text: Seq<char>) -> (bool, bool)
    decreases text.len(),
{
    if text.len() == 0 {
        acc
    } else {
        proof {
            lemma_first_index_props(text, '\n');
        }
        scan_fold(scan_step(acc, first_line(text)), after_first_line(text))
    }
}

fn line_flags(line: &Vec<char>) -> (r: Option<bool>)
    ensures
        r == player_line(line@),
{
    let i = index_of(line, '\t');
    proof {
        lemma_first_index_props(line@, '\t');
    }
    let (status, url) = if i < line.len() {
        (slice_of(line, 0, i), slice_of(line, i + 1, line.len()))
    } else {
        (trim_vec(line), Vec::new())
    };
    if !eq_lit(&trim_vec(&status), "playing") {
        return None;
    }
    Some(is_music(string_of(&trim_vec(&url)).as_str()))
}

/// Whether music and whether a plain video is playing, from the output of
/// `playerctl --all-players metadata --format '{{lc(status)}}\t{{xesam:url}}'`
/// (one `status<TAB>url` line per player, decoded leniently).
pub fn scan(stdout: &[u8]) -> (r: (bool, bool))
    ensures
        r == scan_fold((false, false), utf8_lossy(stdout@)),
{
    let text = decode_lossy(stdout);
    let v = chars_of(text.as_str());
    let n = v.len();
    let mut pos: usize = 0;
    let mut music = false;
    let mut video = false;
    assert(v@.subrange(0, n as int) =~= v@);
    while pos < n
        invariant
            n == v@.len(),
            pos <= n,
            v@ == utf8_lossy(stdout@),
            scan_fold((music, video), v@.subrange(pos as int, n as int)) == scan_fold(
                (false, false),
                utf8_lossy(stdout@),
            ),
        decreases n - pos,
    {
        let ghost rest = v@.subrange(pos as int, n as int);
        let (line, next) = next_line(&v, pos);
        match line_flags(&line) {
            Some(true) => {
                music = true;
            },
            Some(false) => {
                video = true;
            },
            None => {},
        }
        pos = next;
        assert(scan_fold((music, video), v@.subrange(pos as int, n as int)) == scan_fold(
            (false, false),
            utf8_lossy(stdout@),
        )) by {
            assert(rest.len() > 0);
        }
    }
    assert(v@.subrange(n as int, n as int) =~= Seq::<char>::empty());
    (music, video)
}

/// A plain YouTube page counts as video, YouTube Music and every source
/// that is not YouTube as music (the URL's case does not matter).
pub proof fn lemma_music_sources(url: Seq<char>)
    ensures
        (contains(lowercase_of(url), "youtube.com"@) || contains(lowercase_of(url), "youtu.be"@))
            && !contains(lowercase_of(url), "music.youtube.com"@) ==> !music_url(url),
        contains(lowercase_of(url), "music.youtube.com"@) ==> music_url(url),
        !contains(lowercase_of(url), "youtube.com"@) && !contains(lowercase_of(url), "youtu.be"@)
            ==> music_url(url),
{
}

/// What one line reports: a playing source sets the music or the video
/// flag by its URL, and any other line changes neither.
pub proof fn lemma_scan_step(acc: (bool, bool), line: Seq<char>)
    ensures
        player_line(line) is None ==> scan_step(acc, line) == acc,
        player_line(line) == Some(true) ==> scan_step(acc, line) == (true, acc.1),
        player_line(line) == Some(false) ==> scan_step(acc, line) == (acc.0, true),
{
}

/// Reading more lines never clears a flag: music or video once seen
/// stays seen.
pub proof fn lemma_scan_keeps_flags(acc: (bool, bool), text: Seq<char>)
    ensures
        acc.0 ==> scan_fold(acc, text).0,
        acc.1 ==> scan_fold(acc, text).1,
    decreases text.len(),
{
    if text.len() > 0 {
        lemma_first_index_props(text, '\n');
        lemma_scan_keeps_flags(scan_step(acc, first_line(text)), after_first_line(text));
    }
}

} // verus!
