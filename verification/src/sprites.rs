//! Pet states, sprite frames and the per-state animation clock.

use vstd::prelude::*;

verus! {

/// Which way the pet faces while walking.
#[derive(Debug, Clone, Copy, PartialEq, Eq, Hash, Structural)]
pub enum Direction {
    Left,
    Right,
}

/// The pet's animation state.
#[derive(Debug, Clone, Copy, PartialEq, Eq, Hash, Structural)]
pub enum State {
    Idle,
    Alert,
    Thinking,
    Happy,
    Working,
    Jamming,
    Cozy,
    Curious,
    WorkingEmpty,
    TrainingDone,
    Walk(Direction),
}

/// An RGBA8 image, row-major, four bytes per pixel.
#[derive(Clone)]
pub struct Frame {
    pub data: Vec<u8>,
    pub width: u32,
    pub height: u32,
}

/// Number of sprite images the pet uses.
pub const SPRITE_COUNT: usize = 23;

/// The sprite names, in load order.
pub open spec fn sprite_names() -> Seq<Seq<char>> {
    seq![
        "idle_open"@,
        "idle_blink"@,
        "alert"@,
        "thinking"@,
        "happy_static"@,
        "happy_sparks"@,
        "working_steam0"@,
        "working_steam1"@,
        "jamming_0"@,
        "jamming_1"@,
        "jamming_2"@,
        "jamming_3"@,
        "cozy_0"@,
        "cozy_1"@,
        "curious_0"@,
        "curious_1"@,
        "working_empty"@,
        "training_done_0"@,
        "training_done_1"@,
        "walk_left_0"@,
        "walk_left_1"@,
        "walk_right_0"@,
        "walk_right_1"@,
    ]
}

/// The name of sprite number `i` (`i < SPRITE_COUNT`).
pub fn sprite_name(i: usize) -> (r: &'static str)
    requires
        i < SPRITE_COUNT,
    ensures
        r@ == sprite_names()[i as int],
{
    match i {
        0 => "idle_open",
        1 => "idle_blink",
        2 => "alert",
        3 => "thinking",
        4 => "happy_static",
        5 => "happy_sparks",
        6 => "working_steam0",
        7 => "working_steam1",
        8 => "jamming_0",
        9 => "jamming_1",
        10 => "jamming_2",
        11 => "jamming_3",
        12 => "cozy_0",
        13 => "cozy_1",
        14 => "curious_0",
        15 => "curious_1",
        16 => "working_empty",
        17 => "training_done_0",
        18 => "training_done_1",
        19 => "walk_left_0",
        20 => "walk_left_1",
        21 => "walk_right_0",
        _ => "walk_right_1",
    }
}

/// `{dir}/{name}.png`, the file sprite number `i` is read from.
pub fn sprite_path(dir: &str, i: usize) -> (r: String)
    requires
        i < SPRITE_COUNT,
    ensures
        r@ == dir@ + "/"@ + sprite_names()[i as int] + ".png"@,
{
    let mut v = crate::text::chars_of(dir);
    let slash = crate::text::chars_of("/");
    let name = crate::text::chars_of(sprite_name(i));
    let ext = crate::text::chars_of(".png");
    v.append(&mut slash.clone());
    v.append(&mut name.clone());
    v.append(&mut ext.clone());
    crate::text::string_of(&v)
}

/// Index of the sprite called `name`, if it is one of the sprite names.
pub open spec fn sprite_index(name: Seq<char>) -> Option<int> {
    if exists|i: int| is_first_sprite_named(i, name) {
        Some(choose|i: int| is_first_sprite_named(i, name))
    } else {
        None
    }
}

/// Sprite `i` is the first one called `name`.
pub open spec fn is_first_sprite_named(i: int, name: Seq<char>) -> bool {
    &&& 0 <= i < SPRITE_COUNT
    &&& sprite_names()[i] == name
    &&& forall|k: int| 0 <= k < i ==> sprite_names()[k] != name
}

/// What the `image` crate decodes from PNG bytes: the image's RGBA8 pixels
/// with its width and height, or the error's message. It depends on the
/// bytes alone.
pub uninterp spec fn png_rgba(bytes: Seq<u8>) -> Result<(Seq<u8>, u32, u32), Seq<char>>;

/// `image::load_from_memory_with_format` as PNG, then `into_rgba8`: the
/// pixels, width and height; or the error's `to_string()`.
#[verifier::external_body]
fn decode_png(bytes: &[u8]) -> (r: Result<Frame, String>)
    ensures
        match r {
            Ok(f) => png_rgba(bytes@) == Ok::<(Seq<u8>, u32, u32), Seq<char>>((f.data@, f.width, f.height)),
            Err(e) => png_rgba(bytes@) == Err::<(Seq<u8>, u32, u32), Seq<char>>(e@),
        },
{
    match image::load_from_memory_with_format(bytes, image::ImageFormat::Png) {
        Ok(img) => {
            let rgba = img.into_rgba8();
            Ok(Frame { width: rgba.width(), height: rgba.height(), data: rgba.into_raw() })
        },
        Err(e) => Err(e.to_string()),
    }
}

/// A file's contents, or the message of the error reading it.
pub open spec fn file_view(f: Result<Vec<u8>, String>) -> Result<Seq<u8>, Seq<char>> {
    match f {
        Ok(b) => Ok(b@),
        Err(m) => Err(m@),
    }
}

/// The frame read from `path`, given the file's contents (or the read
/// error): the decoded PNG, or `failed to load <path>: <reason>`.
pub open spec fn frame_spec(path: Seq<char>, contents: Result<Seq<u8>, Seq<char>>) -> Result<
    (Seq<u8>, u32, u32),
    Seq<char>,
> {
    let decoded = match contents {
        Ok(b) => png_rgba(b),
        Err(m) => Err(m),
    };
    match decoded {
        Ok(t) => Ok(t),
        Err(m) => Err("failed to load "@ + path + ": "@ + m),
    }
}

/// The frame's pixels, width and height.
pub open spec fn frame_view(f: Frame) -> (Seq<u8>, u32, u32) {
    (f.data@, f.width, f.height)
}

impl Frame {
    /// Decodes the PNG read from `path` (`contents`: its bytes, or the read
    /// error's message).
    pub fn load(path: &str, contents: &Result<Vec<u8>, String>) -> (r: Result<Frame, String>)
        ensures
            match r {
                Ok(f) => frame_spec(path@, file_view(*contents)) == Ok::<(Seq<u8>, u32, u32), Seq<char>>(
                    frame_view(f),
                ),
                Err(e) => frame_spec(path@, file_view(*contents)) == Err::<(Seq<u8>, u32, u32), Seq<char>>(
                    e@,
                ),
            },
    {
        let decoded = match contents {
            Ok(b) => decode_png(b.as_slice()),
            Err(m) => Err(crate::text::string_of(&crate::text::chars_of(m.as_str()))),
        };
        match decoded {
            Ok(f) => Ok(f),
            Err(m) => {
                let mut v = crate::text::chars_of("failed to load ");
                let mut p = crate::text::chars_of(path);
                let mut sep = crate::text::chars_of(": ");
                let mut w = crate::text::chars_of(m.as_str());
                v.append(&mut p);
                v.append(&mut sep);
                v.append(&mut w);
                Err(crate::text::string_of(&v))
            },
        }
    }
}

/// Index of the first sprite from `i` on that fails to load from `dir`.
pub open spec fn first_failure(dir: Seq<char>, files: Seq<Result<Seq<u8>, Seq<char>>>, i: nat) -> nat
    decreases SPRITE_COUNT - i,
{
    if i >= SPRITE_COUNT {
        SPRITE_COUNT as nat
    } else if frame_spec(sprite_file(dir, i as int), files[i as int]) is Err {
        i
    } else {
        first_failure(dir, files, i + 1)
    }
}

/// The file sprite number `i` is read from.
pub open spec fn sprite_file(dir: Seq<char>, i: int) -> Seq<char> {
    dir + "/"@ + sprite_names()[i] + ".png"@
}

/// All loaded sprite frames, one per sprite name, in load order.
pub struct Sprites {
    frames: Vec<Frame>,
}

impl Sprites {
    /// The frames, in the order of `sprite_names()`.
    pub closed spec fn frames_view(&self) -> Seq<Frame> {
        self.frames@
    }

    /// Whether this holds one frame per sprite name.
    pub closed spec fn complete(&self) -> bool {
        self.frames@.len() == SPRITE_COUNT
    }

    /// Loads every sprite from `dir`, given each file's contents (or read
    /// error) in the order of `sprite_names()`: all frames, or the first
    /// failure.
    pub fn load(dir: &str, files: &Vec<Result<Vec<u8>, String>>) -> (r: Result<Sprites, String>)
        requires
            files@.len() == SPRITE_COUNT,
        ensures
            ({
                let fv = files@.map_values(|f: Result<Vec<u8>, String>| file_view(f));
                let k = first_failure(dir@, fv, 0);
                &&& (r is Ok <==> k == SPRITE_COUNT)
                &&& (r matches Ok(s) ==> s.complete() && forall|i: int|
                    0 <= i < SPRITE_COUNT ==> frame_spec(sprite_file(dir@, i), fv[i])
                        == Ok::<(Seq<u8>, u32, u32), Seq<char>>(frame_view(#[trigger] s.frames_view()[i])))
                &&& (r matches Err(e) ==> k < SPRITE_COUNT && frame_spec(sprite_file(dir@, k as int), fv[k as int])
                    == Err::<(Seq<u8>, u32, u32), Seq<char>>(e@))
            }),
    {
        let ghost fv = files@.map_values(|f: Result<Vec<u8>, String>| file_view(f));
        let mut frames: Vec<Frame> = Vec::new();
        let mut i: usize = 0;
        while i < SPRITE_COUNT
            invariant
                i <= SPRITE_COUNT,
                files@.len() == SPRITE_COUNT,
                fv == files@.map_values(|f: Result<Vec<u8>, String>| file_view(f)),
                frames@.len() == i,
                first_failure(dir@, fv, i as nat) == first_failure(dir@, fv, 0),
                forall|j: int|
                    0 <= j < i ==> frame_spec(sprite_file(dir@, j), fv[j])
                        == Ok::<(Seq<u8>, u32, u32), Seq<char>>(frame_view(#[trigger] frames@[j])),
            decreases SPRITE_COUNT - i,
        {
            let path = sprite_path(dir, i);
            assert(fv[i as int] == file_view(files@[i as int]));
            match Frame::load(path.as_str(), &files[i]) {
                Ok(f) => {
                    frames.push(f);
                },
                Err(e) => {
                    return Err(e);
                },
            }
            i = i + 1;
        }
        Ok(Sprites { frames })
    }

    /// The frame named `name`. The name must be one of the sprite names.
    pub fn get(&self, name: &str) -> (r: &Frame)
        requires
            self.complete(),
            sprite_index(name@) is Some,
        ensures
            *r == self.frames_view()[sprite_index(name@)->0],
    {
        let mut i: usize = 0;
        while i < SPRITE_COUNT
            invariant
                i <= SPRITE_COUNT,
                self.frames@.len() == SPRITE_COUNT,
                forall|k: int| 0 <= k < i ==> sprite_names()[k] != name@,
                sprite_index(name@) is Some,
            decreases SPRITE_COUNT - i,
        {
            let n = sprite_name(i);
            if crate::text::str_eq(n, name) {
                proof {
                    let j = sprite_index(name@)->0;
                    assert(is_first_sprite_named(i as int, name@));
                    assert(is_first_sprite_named(j, name@));
                    if j < i {
                        assert(sprite_names()[j] != name@);
                    }
                    if i < j {
                        assert(sprite_names()[i as int] != name@);
                    }
                }
                return &self.frames[i];
            }
            i = i + 1;
        }
        proof {
            let j = sprite_index(name@)->0;
            assert(is_first_sprite_named(j, name@));
            assert(sprite_names()[j] != name@);
        }
        &self.frames[0]
    }
}

/// The animation clock for the current state.
pub struct Animator {
    pub state: State,
    pub tick: u64,
}

/// Whether the idle pose blinks at `tick`: a pseudo-random cadence off the
/// tick counter (one blink per ~5 s window, sometimes a double blink).
pub open spec fn idle_blinks(tick: u64) -> bool {
    let cycle = tick / 2;
    let h = ((cycle ^ (cycle >> 3u64)).wrapping_mul(2654435761u64)) >> 8u64;
    let phase = cycle % 50;
    phase < 1 || (h % 7 == 0 && phase % 6 == 0)
}

/// The sprite shown for `state` at animation tick `tick`.
pub open spec fn frame_for(state: State, tick: u64) -> Seq<char> {
    match state {
        State::Idle => if idle_blinks(tick) {
            "idle_blink"@
        } else {
            "idle_open"@
        },
        State::Alert => "alert"@,
        State::Thinking => "thinking"@,
        State::Happy => if (tick / 4) % 2 == 0 {
            "happy_static"@
        } else {
            "happy_sparks"@
        },
        State::Working => if (tick / 8) % 2 == 0 {
            "working_steam0"@
        } else {
            "working_steam1"@
        },
        State::Jamming => if (tick / 2) % 4 == 0 {
            "jamming_0"@
        } else if (tick / 2) % 4 == 1 {
            "jamming_1"@
        } else if (tick / 2) % 4 == 2 {
            "jamming_2"@
        } else {
            "jamming_3"@
        },
        State::Cozy => if (tick / 6) % 2 == 0 {
            "cozy_0"@
        } else {
            "cozy_1"@
        },
        State::Curious => if (tick / 9) % 2 == 0 {
            "curious_0"@
        } else {
            "curious_1"@
        },
        State::WorkingEmpty => "working_empty"@,
        State::TrainingDone => if (tick / 4) % 2 == 0 {
            "training_done_0"@
        } else {
            "training_done_1"@
        },
        State::Walk(Direction::Left) => if (tick / 2) % 2 == 0 {
            "walk_left_0"@
        } else {
            "walk_left_1"@
        },
        State::Walk(Direction::Right) => if (tick / 2) % 2 == 0 {
            "walk_right_0"@
        } else {
            "walk_right_1"@
        },
    }
}

/// The position of `frame_for(state, tick)` among the sprite names.
pub open spec fn frame_slot(state: State, tick: u64) -> int {
    match state {
        State::Idle => if idle_blinks(tick) {
            1
        } else {
            0
        },
        State::Alert => 2,
        State::Thinking => 3,
        State::Happy => if (tick / 4) % 2 == 0 {
            4
        } else {
            5
        },
        State::Working => if (tick / 8) % 2 == 0 {
            6
        } else {
            7
        },
        State::Jamming => 8 + ((tick / 2) % 4) as int,
        State::Cozy => if (tick / 6) % 2 == 0 {
            12
        } else {
            13
        },
        State::Curious => if (tick / 9) % 2 == 0 {
            14
        } else {
            15
        },
        State::WorkingEmpty => 16,
        State::TrainingDone => if (tick / 4) % 2 == 0 {
            17
        } else {
            18
        },
        State::Walk(Direction::Left) => if (tick / 2) % 2 == 0 {
            19
        } else {
            20
        },
        State::Walk(Direction::Right) => if (tick / 2) % 2 == 0 {
            21
        } else {
            22
        },
    }
}

/// No two sprites share a name.
pub proof fn lemma_sprite_names_distinct()
    ensures
        forall|a: int, b: int|
            0 <= a < b < SPRITE_COUNT ==> #[trigger] sprite_names()[a] != #[trigger] sprite_names()[b],
{
    reveal_strlit("idle_open");
    reveal_strlit("idle_blink");
    reveal_strlit("alert");
    reveal_strlit("thinking");
    reveal_strlit("happy_static");
    reveal_strlit("happy_sparks");
    reveal_strlit("working_steam0");
    reveal_strlit("working_steam1");
    reveal_strlit("jamming_0");
    reveal_strlit("jamming_1");
    reveal_strlit("jamming_2");
    reveal_strlit("jamming_3");
    reveal_strlit("cozy_0");
    reveal_strlit("cozy_1");
    reveal_strlit("curious_0");
    reveal_strlit("curious_1");
    reveal_strlit("working_empty");
    reveal_strlit("training_done_0");
    reveal_strlit("training_done_1");
    reveal_strlit("walk_left_0");
    reveal_strlit("walk_left_1");
    reveal_strlit("walk_right_0");
    reveal_strlit("walk_right_1");
    assert forall|a: int, b: int| 0 <= a < b < SPRITE_COUNT implies #[trigger] sprite_names()[a]
        != #[trigger] sprite_names()[b] by {
        let x = sprite_names()[a];
        let y = sprite_names()[b];
        if x == y {
            assert(x.len() == y.len());
            assert(x[0] == y[0]);
            assert(x[x.len() - 1] == y[y.len() - 1]);
        }
    }
}

/// Every frame the animator shows is one of the sprites.
pub proof fn lemma_frame_is_sprite(state: State, tick: u64)
    ensures
        sprite_index(frame_for(state, tick)) == Some(frame_slot(state, tick)),
{
    lemma_sprite_names_distinct();
    let f = frame_for(state, tick);
    let i = frame_slot(state, tick);
    assert(0 <= i < SPRITE_COUNT);
    assert(sprite_names()[i] == f);
    assert(is_first_sprite_named(i, f));
    let j = choose|j: int| is_first_sprite_named(j, f);
    assert(is_first_sprite_named(j, f));
    if j < i {
        assert(sprite_names()[j] != sprite_names()[i]);
    }
    if i < j {
        assert(sprite_names()[i] != sprite_names()[j]);
    }
}

impl Animator {
    /// Ticks since the last reset (wrapping).
    pub open spec fn ticks(&self) -> u64 {
        self.tick
    }

    /// Idle, at tick 0.
    pub fn new() -> (r: Animator)
        ensures
            r.state == State::Idle,
            r.ticks() == 0,
    {
        Animator { state: State::Idle, tick: 0 }
    }

    /// One tick later (wrapping).
    pub fn advance(&mut self)
        ensures
            final(self).state == old(self).state,
            final(self).ticks() == old(self).ticks().wrapping_add(1),
    {
        self.tick = self.tick.wrapping_add(1);
    }

    /// Back to tick 0.
    pub fn reset(&mut self)
        ensures
            final(self).state == old(self).state,
            final(self).ticks() == 0,
    {
        self.tick = 0;
    }

    /// Switches to `s` at tick 0.
    pub fn set(&mut self, s: State)
        ensures
            final(self).state == s,
            final(self).ticks() == 0,
    {
        self.state = s;
        self.tick = 0;
    }

    /// The sprite name for the current state and tick.
    pub fn current_frame(&self) -> (r: &'static str)
        ensures
            r@ == frame_for(self.state, self.ticks()),
    {
        match self.state {
            State::Idle => {
                let cycle = self.tick / 2;
                let h = (cycle ^ (cycle >> 3u64)).wrapping_mul(2654435761u64) >> 8u64;
                let phase = cycle % 50;
                let blink = phase < 1 || (h % 7 == 0 && phase % 6 == 0);
                if blink {
                    "idle_blink"
                } else {
                    "idle_open"
                }
            },
            State::Alert => "alert",
            State::Thinking => "thinking",
            State::Happy => {
                if (self.tick / 4) % 2 == 0 {
                    "happy_static"
                } else {
                    "happy_sparks"
                }
            },
            State::Working => {
                if (self.tick / 8) % 2 == 0 {
                    "working_steam0"
                } else {
                    "working_steam1"
                }
            },
            State::Jamming => {
                let k = (self.tick / 2) % 4;
                if k == 0 {
                    "jamming_0"
                } else if k == 1 {
                    "jamming_1"
                } else if k == 2 {
                    "jamming_2"
                } else {
                    "jamming_3"
                }
            },
            State::Cozy => {
                if (self.tick / 6) % 2 == 0 {
                    "cozy_0"
                } else {
                    "cozy_1"
                }
            },
            State::Curious => {
                if (self.tick / 9) % 2 == 0 {
                    "curious_0"
                } else {
                    "curious_1"
                }
            },
            State::WorkingEmpty => "working_empty",
            State::TrainingDone => {
                if (self.tick / 4) % 2 == 0 {
                    "training_done_0"
                } else {
                    "training_done_1"
                }
            },
            State::Walk(dir) => {
                let even = (self.tick / 2) % 2 == 0;
                match dir {
                    Direction::Left => if even {
                        "walk_left_0"
                    } else {
                        "walk_left_1"
                    },
                    Direction::Right => if even {
                        "walk_right_0"
                    } else {
                        "walk_right_1"
                    },
                }
            },
        }
    }
}

/// The offline tips for a state.
pub open spec fn tips_for(state: State) -> Seq<Seq<char>> {
    match state {
        State::Working | State::WorkingEmpty | State::TrainingDone => seq![
            "try :Telescope find_files in nvim"@,
            "cargo check is faster than build"@,
            "use zoxide for fast dir jumping"@,
            "tmux prefix + z to zoom a pane"@,
            "rg is faster than grep, try it"@,
            "cargo clippy catches common bugs"@,
        ],
        State::Alert => seq![
            "zen supports vertical tabs"@,
            "ctrl+l to focus the address bar"@,
            "use uBlock Origin filter lists"@,
            "middle click to close browser tabs"@,
        ],
        State::Thinking => seq![
            "try: man <command> for any tool"@,
            "use tldr for quick command refs"@,
            "apropos <keyword> finds commands"@,
            "info coreutils has detailed docs"@,
        ],
        State::Jamming => seq![
            "playerctl play-pause from any term"@,
            "mpv --no-video plays audio only"@,
            "spotify_player is a TUI client"@,
            "ncspot is rust-native spotify TUI"@,
        ],
        State::Cozy => seq![
            "zathura: J/K scroll, gg jumps top"@,
            "use foliate for epub reading"@,
            "okular can annotate PDFs"@,
            "sioyek is built for papers"@,
        ],
        _ => seq![
            "hyprctl dispatch workspace 2"@,
            "try: hyprctl clients | grep class"@,
            "wofi --show run for app launcher"@,
            "super+shift+q to close a window"@,
            "hyprctl reload reloads config"@,
        ],
    }
}

/// The offline jokes.
pub open spec fn jokes() -> Seq<Seq<char>> {
    seq![
        "sudo make me a sandwich"@,
        "why do devs hate nature? too many bugs"@,
        "it works on my machine"@,
        "99 little bugs in the code, take one down..."@,
        "a SQL query walks into a bar, joins two tables"@,
        "rm -rf my_doubts"@,
    ]
}

/// Which entry of an `n`-entry list shows at `secs` seconds since the epoch:
/// the list advances every 5 seconds.
pub open spec fn rotation_index(secs: u64, n: nat) -> int {
    (((secs / 5) as usize) as nat % n) as int
}

/// The offline tip lists: Working, WorkingEmpty and TrainingDone share
/// one; Idle, Happy, Curious and every walk share the five Hyprland tips;
/// every list is non-empty.
pub proof fn lemma_tip_lists(state: State, d: Direction)
    ensures
        tips_for(State::WorkingEmpty) == tips_for(State::Working),
        tips_for(State::TrainingDone) == tips_for(State::Working),
        tips_for(State::Happy) == tips_for(State::Idle),
        tips_for(State::Curious) == tips_for(State::Idle),
        tips_for(State::Walk(d)) == tips_for(State::Idle),
        tips_for(State::Idle).len() == 5,
        tips_for(state).len() > 0,
{
}

/// The rotation moves only every 5 seconds: two clock readings in the
/// same 5-second slot pick the same entry, so the same tip and joke.
pub proof fn lemma_same_slot(state: State, a: u64, b: u64)
    requires
        a / 5 == b / 5,
    ensures
        rotation_index(a, tips_for(state).len()) == rotation_index(b, tips_for(state).len()),
        rotation_index(a, jokes().len()) == rotation_index(b, jokes().len()),
{
}

/// Picks from `list` on a 5-second clock.
pub fn rotate_at(list: &[&'static str], secs: u64) -> (r: &'static str)
    requires
        list@.len() > 0,
    ensures
        r == list@[rotation_index(secs, list@.len())],
{
    let idx = ((secs / 5) as usize) % list.len();
    list[idx]
}

/// Seconds since the Unix epoch by the system clock, `0` when the clock is
/// before the epoch.
#[verifier::external_body]
fn unix_secs() -> u64 {
    std::time::SystemTime::now().duration_since(std::time::UNIX_EPOCH).map(|d| d.as_secs()).unwrap_or(0)
}

/// The offline tip for `state` at `secs` seconds since the epoch.
pub fn offline_tip_at(state: &State, secs: u64) -> (r: &'static str)
    ensures
        r@ == tips_for(*state)[rotation_index(secs, tips_for(*state).len())],
{
    match state {
        State::Working | State::WorkingEmpty | State::TrainingDone => {
            let list: [&'static str; 6] = [
                "try :Telescope find_files in nvim",
                "cargo check is faster than build",
                "use zoxide for fast dir jumping",
                "tmux prefix + z to zoom a pane",
                "rg is faster than grep, try it",
                "cargo clippy catches common bugs",
            ];
            let r = rotate_at(&list, secs);
            assert(list@.map_values(|s: &str| s@) =~= tips_for(*state));
            r
        },
        State::Alert => {
            let list: [&'static str; 4] = [
                "zen supports vertical tabs",
                "ctrl+l to focus the address bar",
                "use uBlock Origin filter lists",
                "middle click to close browser tabs",
            ];
            let r = rotate_at(&list, secs);
            assert(list@.map_values(|s: &str| s@) =~= tips_for(*state));
            r
        },
        State::Thinking => {
            let list: [&'static str; 4] = [
                "try: man <command> for any tool",
                "use tldr for quick command refs",
                "apropos <keyword> finds commands",
                "info coreutils has detailed docs",
            ];
            let r = rotate_at(&list, secs);
            assert(list@.map_values(|s: &str| s@) =~= tips_for(*state));
            r
        },
        State::Jamming => {
            let list: [&'static str; 4] = [
                "playerctl play-pause from any term",
                "mpv --no-video plays audio only",
                "spotify_player is a TUI client",
                "ncspot is rust-native spotify TUI",
            ];
            let r = rotate_at(&list, secs);
            assert(list@.map_values(|s: &str| s@) =~= tips_for(*state));
            r
        },
        State::Cozy => {
            let list: [&'static str; 4] = [
                "zathura: J/K scroll, gg jumps top",
                "use foliate for epub reading",
                "okular can annotate PDFs",
                "sioyek is built for papers",
            ];
            let r = rotate_at(&list, secs);
            assert(list@.map_values(|s: &str| s@) =~= tips_for(*state));
            r
        },
        _ => {
            let list: [&'static str; 5] = [
                "hyprctl dispatch workspace 2",
                "try: hyprctl clients | grep class",
                "wofi --show run for app launcher",
                "super+shift+q to close a window",
                "hyprctl reload reloads config",
            ];
            let r = rotate_at(&list, secs);
            assert(list@.map_values(|s: &str| s@) =~= tips_for(*state));
            r
        },
    }
}

/// The offline joke at `secs` seconds since the epoch.
pub fn offline_joke_at(secs: u64) -> (r: &'static str)
    ensures
        r@ == jokes()[rotation_index(secs, jokes().len())],
{
    let list: [&'static str; 6] = [
        "sudo make me a sandwich",
        "why do devs hate nature? too many bugs",
        "it works on my machine",
        "99 little bugs in the code, take one down...",
        "a SQL query walks into a bar, joins two tables",
        "rm -rf my_doubts",
    ];
    let r = rotate_at(&list, secs);
    assert(list@.map_values(|s: &str| s@) =~= jokes());
    r
}

/// A curated tip for `state`, shown when no language model answers; it
/// rotates on the system clock.
pub fn offline_tip(state: &State) -> (r: &'static str)
    ensures
        exists|i: int| 0 <= i < tips_for(*state).len() && r@ == tips_for(*state)[i],
{
    let secs = unix_secs();
    offline_tip_at(state, secs)
}

/// A rotating offline joke.
pub fn offline_joke() -> (r: &'static str)
    ensures
        exists|i: int| 0 <= i < jokes().len() && r@ == jokes()[i],
{
    let secs = unix_secs();
    offline_joke_at(secs)
}

} // verus!
