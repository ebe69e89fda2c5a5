//! The pet's brain: the per-tick state machine (greeting, forced states,
//! window-driven moods with debounce, roaming across outputs) and its
//! reactions to control commands, taps and typing. Each step returns the
//! effects the shell has to carry out (queries, launches, surface moves).

use vstd::prelude::*;
use crate::bubble::{shown, Bubble, BubbleView};
use crate::config::{Config, ConfigView};
use crate::context::{media_applies, media_applies_spec, resolve_state, state_for};
use crate::ipc::WindowContext;
use crate::menu::{action, actions, MenuAction, ITEM_COUNT};
use crate::geometry::{
    center_x, center_y, clamp_pos, coord_ok, max_i, output_at_spec, outputs_ok, pick_target,
    step_axis, wall_pos, Rect, MARGIN, MASCOT_W, POS_LIM, SPRITE_W, STEP_LIM,
};
use crate::sprites::{Animator, Direction, State};
use crate::text::{chars_of, string_of, trim, trim_vec};

verus! {

/// Length of the startup greeting, in ticks.
pub const GREET_TICKS: u32 = 80;
/// Ticks a new base mood must hold before it is shown.
pub const STATE_DEBOUNCE: u32 = 5;
/// Ticks a summoned or forced state is held.
pub const FORCE_TICKS: u32 = 80;
/// Minimum ticks between two wall remarks.
pub const WALL_COOLDOWN: u32 = 30;
/// Ticks of sliding along a wall before a new target is picked.
pub const WALL_SLIDE_MAX: u32 = 20;
/// Gap between the action menu's right edge and the mascot.
pub const MENU_GAP: usize = 6;



/// Something the shell has to do for the pet.
#[derive(Debug, Clone)]
pub enum Effect {
    /// Ask the local model for a tip and joke about `context`, for `state`.
    QueryTip { context: String, state: State },
    /// Ask a free-form question; the answer streams into the bubble.
    QueryAsk(String),
    /// Run the morning launch routine.
    RunMorning,
    /// Launch an app through the compositor.
    Launch(String),
    /// Exit the process.
    Quit,
    /// Recreate the surface on output number `usize` of the layout.
    PinTo(usize),
    /// Move the surface to these top/left margins.
    SetMargins { top: i32, left: i32 },
    /// Grab (true) or release (false) the keyboard.
    SetKeyboard(bool),
}

/// An effect with its text as characters.
pub enum EffectView {
    QueryTip { context: Seq<char>, state: State },
    QueryAsk(Seq<char>),
    RunMorning,
    Launch(Seq<char>),
    Quit,
    PinTo(usize),
    SetMargins { top: i32, left: i32 },
    SetKeyboard(bool),
}

impl View for Effect {
    type V = EffectView;

    open spec fn view(&self) -> EffectView {
        match self {
            Effect::QueryTip { context, state } => EffectView::QueryTip { context: context@, state: *state },
            Effect::QueryAsk(q) => EffectView::QueryAsk(q@),
            Effect::RunMorning => EffectView::RunMorning,
            Effect::Launch(c) => EffectView::Launch(c@),
            Effect::Quit => EffectView::Quit,
            Effect::PinTo(i) => EffectView::PinTo(*i),
            Effect::SetMargins { top, left } => EffectView::SetMargins { top: *top, left: *left },
            Effect::SetKeyboard(on) => EffectView::SetKeyboard(*on),
        }
    }
}

/// The views of a list of effects.
pub open spec fn effects_view(v: Seq<Effect>) -> Seq<EffectView> {
    v.map_values(|e: Effect| e@)
}

/// The pet's whole decision state.
pub struct Pet {
    pub animator: Animator,
    pub bubble: Bubble,
    pub menu_open: bool,
    pub input_mode: bool,
    pub input_buf: Vec<char>,
    pub idle_ticks: u64,
    pub working_ticks: u64,
    pub stable_ticks: u64,
    pub last_base: Option<State>,
    pub roam_mood: State,
    pub last_ctx: Vec<char>,
    pub roaming: bool,
    pub walk_ticks_left: u32,
    pub park_ticks_left: u32,
    pub walk_dir: Direction,
    pub wall_cooldown: u32,
    pub wall_ticks: u32,
    pub user_idle: bool,
    pub idle_returned: bool,
    pub greet_ticks_left: u32,
    pub greeted: bool,
    pub force_state: Option<State>,
    pub force_ticks_left: u32,
    pub pending_state: Option<State>,
    pub pending_count: u32,
    pub outputs: Vec<Rect>,
    pub cur_idx: usize,
    pub pos_init: bool,
    pub pos_x: i32,
    pub pos_y: i32,
    pub target_x: i32,
    pub target_y: i32,
    pub rng: u64,
    pub margin_left: i32,
    pub margin_top: i32,
    pub cfg: Config,
    pub always_roam: bool,
}

/// The pet's state as mathematical values.
pub struct PetView {
    pub state: State,
    pub anim_tick: u64,
    pub bubble: BubbleView,
    pub menu_open: bool,
    pub input_mode: bool,
    pub input_buf: Seq<char>,
    pub idle_ticks: u64,
    pub working_ticks: u64,
    pub stable_ticks: u64,
    pub last_base: Option<State>,
    pub roam_mood: State,
    pub last_ctx: Seq<char>,
    pub roaming: bool,
    pub walk_ticks_left: u32,
    pub park_ticks_left: u32,
    pub walk_dir: Direction,
    pub wall_cooldown: u32,
    pub wall_ticks: u32,
    pub user_idle: bool,
    pub idle_returned: bool,
    pub greet_ticks_left: u32,
    pub greeted: bool,
    pub force_state: Option<State>,
    pub force_ticks_left: u32,
    pub pending_state: Option<State>,
    pub pending_count: u32,
    pub outputs: Seq<Rect>,
    pub cur_idx: usize,
    pub pos_init: bool,
    pub pos_x: i32,
    pub pos_y: i32,
    pub target_x: i32,
    pub target_y: i32,
    pub rng: u64,
    pub margin_left: i32,
    pub margin_top: i32,
    pub cfg: ConfigView,
    pub always_roam: bool,
}

impl View for Pet {
    type V = PetView;

    open spec fn view(&self) -> PetView {
        PetView {
            state: self.animator.state,
            anim_tick: self.animator.tick,
            bubble: self.bubble@,
            menu_open: self.menu_open,
            input_mode: self.input_mode,
            input_buf: self.input_buf@,
            idle_ticks: self.idle_ticks,
            working_ticks: self.working_ticks,
            stable_ticks: self.stable_ticks,
            last_base: self.last_base,
            roam_mood: self.roam_mood,
            last_ctx: self.last_ctx@,
            roaming: self.roaming,
            walk_ticks_left: self.walk_ticks_left,
            park_ticks_left: self.park_ticks_left,
            walk_dir: self.walk_dir,
            wall_cooldown: self.wall_cooldown,
            wall_ticks: self.wall_ticks,
            user_idle: self.user_idle,
            idle_returned: self.idle_returned,
            greet_ticks_left: self.greet_ticks_left,
            greeted: self.greeted,
            force_state: self.force_state,
            force_ticks_left: self.force_ticks_left,
            pending_state: self.pending_state,
            pending_count: self.pending_count,
            outputs: self.outputs@,
            cur_idx: self.cur_idx,
            pos_init: self.pos_init,
            pos_x: self.pos_x,
            pos_y: self.pos_y,
            target_x: self.target_x,
            target_y: self.target_y,
            rng: self.rng,
            margin_left: self.margin_left,
            margin_top: self.margin_top,
            cfg: self.cfg@,
            always_roam: self.always_roam,
        }
    }
}

// ---------------------------------------------------------------------------
// Well-formedness


/// The invariant every step keeps: bounded geometry (so no arithmetic
/// overflows), a bounded debounce counter and wall-slide count, and a
/// positive roam period.
pub open spec fn wf(p: PetView) -> bool {
    &&& outputs_ok(p.outputs)
    &&& coord_ok(p.pos_x) && coord_ok(p.pos_y)
    &&& coord_ok(p.target_x) && coord_ok(p.target_y)
    &&& 0 <= p.margin_left <= 2 * POS_LIM && 0 <= p.margin_top <= 2 * POS_LIM
    &&& p.pending_count < STATE_DEBOUNCE
    &&& p.wall_ticks < WALL_SLIDE_MAX
    &&& p.cfg.walk_every > 0
    &&& -STEP_LIM <= p.cfg.walk_step <= STEP_LIM
}

// ---------------------------------------------------------------------------
// Small pieces


/// A roam is due: the window has been stable for a positive multiple of
/// `every` ticks.
#[verifier::opaque]
pub open spec fn roam_due(stable: u64, every: u64) -> bool {
    stable >= every && stable % every == 0
}


/// The state name a control command may force (not Walk).
pub open spec fn parse_state_spec(name: Seq<char>) -> Option<State> {
    if name == "idle"@ {
        Some(State::Idle)
    } else if name == "alert"@ {
        Some(State::Alert)
    } else if name == "thinking"@ {
        Some(State::Thinking)
    } else if name == "happy"@ {
        Some(State::Happy)
    } else if name == "working"@ {
        Some(State::Working)
    } else if name == "jamming"@ || name == "jam"@ {
        Some(State::Jamming)
    } else if name == "cozy"@ {
        Some(State::Cozy)
    } else if name == "curious"@ {
        Some(State::Curious)
    } else if name == "working_empty"@ || name == "workingempty"@ {
        Some(State::WorkingEmpty)
    } else if name == "training_done"@ || name == "trainingdone"@ {
        Some(State::TrainingDone)
    } else {
        None
    }
}

/// Every state name of the control command, and its short forms, names
/// its state.
pub proof fn lemma_state_names()
    ensures
        parse_state_spec("idle"@) == Some(State::Idle),
        parse_state_spec("alert"@) == Some(State::Alert),
        parse_state_spec("thinking"@) == Some(State::Thinking),
        parse_state_spec("happy"@) == Some(State::Happy),
        parse_state_spec("working"@) == Some(State::Working),
        parse_state_spec("jamming"@) == Some(State::Jamming),
        parse_state_spec("jam"@) == Some(State::Jamming),
        parse_state_spec("cozy"@) == Some(State::Cozy),
        parse_state_spec("curious"@) == Some(State::Curious),
        parse_state_spec("working_empty"@) == Some(State::WorkingEmpty),
        parse_state_spec("workingempty"@) == Some(State::WorkingEmpty),
        parse_state_spec("training_done"@) == Some(State::TrainingDone),
        parse_state_spec("trainingdone"@) == Some(State::TrainingDone),
{
    reveal_strlit("idle");
    reveal_strlit("alert");
    assert("alert"@.len() != "idle"@.len());
    reveal_strlit("thinking");
    assert("thinking"@.len() != "idle"@.len());
    assert("thinking"@.len() != "alert"@.len());
    reveal_strlit("happy");
    assert("happy"@.len() != "idle"@.len());
    assert("happy"@[0] != "alert"@[0]);
    assert("happy"@.len() != "thinking"@.len());
    reveal_strlit("working");
    assert("working"@.len() != "idle"@.len());
    assert("working"@.len() != "alert"@.len());
    assert("working"@.len() != "thinking"@.len());
    assert("working"@.len() != "happy"@.len());
    reveal_strlit("jamming");
    assert("jamming"@.len() != "idle"@.len());
    assert("jamming"@.len() != "alert"@.len());
    assert("jamming"@.len() != "thinking"@.len());
    assert("jamming"@.len() != "happy"@.len());
    assert("jamming"@[0] != "working"@[0]);
    reveal_strlit("jam");
    assert("jam"@.len() != "idle"@.len());
    assert("jam"@.len() != "alert"@.len());
    assert("jam"@.len() != "thinking"@.len());
    assert("jam"@.len() != "happy"@.len());
    assert("jam"@.len() != "working"@.len());
    assert("jam"@.len() != "jamming"@.len());
    reveal_strlit("cozy");
    assert("cozy"@[0] != "idle"@[0]);
    assert("cozy"@.len() != "alert"@.len());
    assert("cozy"@.len() != "thinking"@.len());
    assert("cozy"@.len() != "happy"@.len());
    assert("cozy"@.len() != "working"@.len());
    assert("cozy"@.len() != "jamming"@.len());
    assert("cozy"@.len() != "jam"@.len());
    reveal_strlit("curious");
    assert("curious"@.len() != "idle"@.len());
    assert("curious"@.len() != "alert"@.len());
    assert("curious"@.len() != "thinking"@.len());
    assert("curious"@.len() != "happy"@.len());
    assert("curious"@[0] != "working"@[0]);
    assert("curious"@[0] != "jamming"@[0]);
    assert("curious"@.len() != "jam"@.len());
    assert("curious"@.len() != "cozy"@.len());
    reveal_strlit("working_empty");
    assert("working_empty"@.len() != "idle"@.len());
    assert("working_empty"@.len() != "alert"@.len());
    assert("working_empty"@.len() != "thinking"@.len());
    assert("working_empty"@.len() != "happy"@.len());
    assert("working_empty"@.len() != "working"@.len());
    assert("working_empty"@.len() != "jamming"@.len());
    assert("working_empty"@.len() != "jam"@.len());
    assert("working_empty"@.len() != "cozy"@.len());
    assert("working_empty"@.len() != "curious"@.len());
    reveal_strlit("workingempty");
    assert("workingempty"@.len() != "idle"@.len());
    assert("workingempty"@.len() != "alert"@.len());
    assert("workingempty"@.len() != "thinking"@.len());
    assert("workingempty"@.len() != "happy"@.len());
    assert("workingempty"@.len() != "working"@.len());
    assert("workingempty"@.len() != "jamming"@.len());
    assert("workingempty"@.len() != "jam"@.len());
    assert("workingempty"@.len() != "cozy"@.len());
    assert("workingempty"@.len() != "curious"@.len());
    assert("workingempty"@.len() != "working_empty"@.len());
    reveal_strlit("training_done");
    assert("training_done"@.len() != "idle"@.len());
    assert("training_done"@.len() != "alert"@.len());
    assert("training_done"@.len() != "thinking"@.len());
    assert("training_done"@.len() != "happy"@.len());
    assert("training_done"@.len() != "working"@.len());
    assert("training_done"@.len() != "jamming"@.len());
    assert("training_done"@.len() != "jam"@.len());
    assert("training_done"@.len() != "cozy"@.len());
    assert("training_done"@.len() != "curious"@.len());
    assert("training_done"@[0] != "working_empty"@[0]);
    assert("training_done"@.len() != "workingempty"@.len());
    reveal_strlit("trainingdone");
    assert("trainingdone"@.len() != "idle"@.len());
    assert("trainingdone"@.len() != "alert"@.len());
    assert("trainingdone"@.len() != "thinking"@.len());
    assert("trainingdone"@.len() != "happy"@.len());
    assert("trainingdone"@.len() != "working"@.len());
    assert("trainingdone"@.len() != "jamming"@.len());
    assert("trainingdone"@.len() != "jam"@.len());
    assert("trainingdone"@.len() != "cozy"@.len());
    assert("trainingdone"@.len() != "curious"@.len());
    assert("trainingdone"@.len() != "working_empty"@.len());
    assert("trainingdone"@[0] != "workingempty"@[0]);
    assert("trainingdone"@.len() != "training_done"@.len());
}

/// Maps a state name from a control command to a state.
pub fn parse_state(name: &str) -> (r: Option<State>)
    ensures
        r == parse_state_spec(name@),
{
    let n = chars_of(name);
    if crate::text::eq_lit(&n, "idle") {
        Some(State::Idle)
    } else if crate::text::eq_lit(&n, "alert") {
        Some(State::Alert)
    } else if crate::text::eq_lit(&n, "thinking") {
        Some(State::Thinking)
    } else if crate::text::eq_lit(&n, "happy") {
        Some(State::Happy)
    } else if crate::text::eq_lit(&n, "working") {
        Some(State::Working)
    } else if crate::text::eq_lit(&n, "jamming") || crate::text::eq_lit(&n, "jam") {
        Some(State::Jamming)
    } else if crate::text::eq_lit(&n, "cozy") {
        Some(State::Cozy)
    } else if crate::text::eq_lit(&n, "curious") {
        Some(State::Curious)
    } else if crate::text::eq_lit(&n, "working_empty") || crate::text::eq_lit(&n, "workingempty") {
        Some(State::WorkingEmpty)
    } else if crate::text::eq_lit(&n, "training_done") || crate::text::eq_lit(&n, "trainingdone") {
        Some(State::TrainingDone)
    } else {
        None
    }
}

/// The action menu's left edge: just left of the mascot, which sits
/// flush-right in the surface.
pub fn menu_origin_x() -> (r: usize)
    ensures
        r == 222,
{
    let a = (SPRITE_W as usize) - (MASCOT_W as usize);
    let b = a - (crate::menu::PANEL_W + MENU_GAP);
    if b > 4 {
        b
    } else {
        4
    }
}

// ---------------------------------------------------------------------------
// Spec of the steps

/// After a surface move: margins are the position relative to the current
/// output (never negative).
#[verifier::opaque]
pub open spec fn margins_spec(p: PetView) -> PetView {
    if p.cur_idx < p.outputs.len() {
        let g = p.outputs[p.cur_idx as int];
        PetView { margin_left: max_i((p.pos_x - g.x) as i32, 0), margin_top: max_i((p.pos_y - g.y) as i32, 0), ..p }
    } else {
        p
    }
}

/// The position clamped so the whole surface stays on the current output.
#[verifier::opaque]
pub open spec fn clamp_spec(p: PetView) -> PetView {
    let c = clamp_pos(p.outputs, p.cur_idx, p.pos_x, p.pos_y);
    PetView { pos_x: c.0, pos_y: c.1, ..p }
}


/// The pet with a new random roam target.
#[verifier::opaque]
pub open spec fn pick_spec(p: PetView) -> PetView {
    let t = pick_target(p.outputs, p.rng);
    PetView { rng: t.0, target_x: t.1, target_y: t.2, ..p }
}


/// The surface moved to output `idx` (if it exists): one `PinTo` effect,
/// margins relative to that output.
#[verifier::opaque]
pub open spec fn pin_spec(p: PetView, idx: usize) -> (PetView, Seq<EffectView>) {
    if idx < p.outputs.len() {
        let g = p.outputs[idx as int];
        (
            PetView {
                cur_idx: idx,
                margin_left: max_i((p.pos_x - g.x) as i32, 0),
                margin_top: max_i((p.pos_y - g.y) as i32, 0),
                ..p
            },
            seq![EffectView::PinTo(idx)],
        )
    } else {
        (p, Seq::empty())
    }
}

/// Roam over: back to Idle at tick 0, idle timer restarted.
#[verifier::opaque]
pub open spec fn stop_roam_spec(p: PetView) -> PetView {
    PetView {
        roaming: false,
        park_ticks_left: 0,
        state: State::Idle,
        anim_tick: 0,
        idle_ticks: 0,
        ..p
    }
}

/// A roam begins: a full leg toward a fresh target.
#[verifier::opaque]
pub open spec fn begin_roam_spec(p: PetView) -> PetView {
    pick_spec(PetView { roaming: true, park_ticks_left: 0, walk_ticks_left: p.cfg.walk_duration, ..p })
}

/// A mid-roam pause: pose in the current mood for `park_duration` ticks
/// and ask for a tip about the current context.
#[verifier::opaque]
pub open spec fn roam_tip_spec(p: PetView) -> (PetView, Seq<EffectView>) {
    (
        PetView {
            park_ticks_left: p.cfg.park_duration,
            state: p.roam_mood,
            anim_tick: 0,
            bubble: shown("thinking..."@, "thinking..."@),
            ..p
        },
        seq![EffectView::QueryTip { context: p.last_ctx, state: p.roam_mood }],
    )
}

/// The margins effect after a move.
pub open spec fn margins_effect(p: PetView) -> Seq<EffectView> {
    seq![EffectView::SetMargins { top: p.margin_top, left: p.margin_left }]
}

/// At the target: park and dance when music plays, else pick the next one.
#[verifier::opaque]
pub open spec fn arrive_spec(p: PetView, music: bool) -> PetView {
    if p.pos_x == p.target_x && p.pos_y == p.target_y {
        if music {
            PetView { park_ticks_left: p.cfg.park_duration, state: State::Jamming, ..p }
        } else {
            pick_spec(p)
        }
    } else {
        p
    }
}


/// A step that stays on the current output.
#[verifier::opaque]
pub open spec fn step_on_spec(p2: PetView, nx: i32, ny: i32, music: bool) -> (PetView, Seq<EffectView>) {
    let p3 = margins_spec(PetView { pos_x: nx, pos_y: ny, wall_ticks: 0, ..p2 });
    (arrive_spec(p3, music), margins_effect(p3))
}

/// A step whose mascot centre entered output `i`: say so and hop there.
#[verifier::opaque]
pub open spec fn step_cross_spec(p2: PetView, i: usize, nx: i32, ny: i32, music: bool) -> (
    PetView,
    Seq<EffectView>,
) {
    let p3 = PetView { pos_x: nx, pos_y: ny, bubble: shown(cross_msg(), Seq::empty()), ..p2 };
    let (p4, e) = pin_spec(p3, i);
    (arrive_spec(PetView { wall_ticks: 0, ..p4 }, music), e)
}

/// A step that would leave every output: slide along whichever axis keeps
/// the mascot centre on the current output, stay on it, remark on the wall
/// (at most every `WALL_COOLDOWN` ticks), and give up the target after
/// `WALL_SLIDE_MAX` ticks of sliding.
#[verifier::opaque]
pub open spec fn step_wall_spec(p2: PetView, nx: i32, ny: i32) -> (PetView, Seq<EffectView>) {
    let w = wall_pos(p2.outputs, p2.cur_idx, p2.pos_x, p2.pos_y, nx, ny);
    let p4 = margins_spec(PetView { pos_x: w.0, pos_y: w.1, ..p2 });
    (wall_after(PetView { wall_ticks: (p4.wall_ticks + 1) as u32, ..p4 }), margins_effect(p4))
}

/// After a blocked step: the wall remark (when the cooldown allows) and, at
/// the slide limit, a new target.
#[verifier::opaque]
pub open spec fn wall_after(p5: PetView) -> PetView {
    let p6 = if p5.wall_cooldown == 0 {
        PetView { bubble: shown(wall_msg(), Seq::empty()), wall_cooldown: WALL_COOLDOWN, ..p5 }
    } else {
        p5
    };
    if p6.wall_ticks >= WALL_SLIDE_MAX {
        pick_spec(PetView { wall_ticks: 0, ..p6 })
    } else {
        p6
    }
}

/// The direction faced toward the target (unchanged when level).
pub open spec fn facing(p: PetView) -> Direction {
    if p.target_x > p.pos_x {
        Direction::Right
    } else if p.target_x < p.pos_x {
        Direction::Left
    } else {
        p.walk_dir
    }
}

/// One walking step: face the target, step toward it, then move on the
/// same output, hop to the output the mascot's centre entered, or slide
/// along the wall.
#[verifier::opaque]
pub open spec fn step_spec(p: PetView, music: bool) -> (PetView, Seq<EffectView>) {
    let dir = facing(p);
    let p2 = PetView { walk_dir: dir, state: State::Walk(dir), ..p };
    let nx = step_axis(p.pos_x, p.target_x, p.cfg.walk_step);
    let ny = step_axis(p.pos_y, p.target_y, p.cfg.walk_step);
    match output_at_spec(p.outputs, center_x(nx), center_y(ny)) {
        Some(i) => if i == p.cur_idx {
            step_on_spec(p2, nx, ny, music)
        } else {
            step_cross_spec(p2, i, nx, ny, music)
        },
        None => step_wall_spec(p2, nx, ny),
    }
}

/// The remark when crossing to another output.
pub open spec fn cross_msg() -> Seq<char> {
    "a doorway! crossing to the next screen"@
}

/// The remark when bumping an outer edge.
pub open spec fn wall_msg() -> Seq<char> {
    "a wall here - cant cross this one"@
}

/// The greeting when the user comes back after being away.
pub open spec fn welcome_msg() -> Seq<char> {
    "welcome back! ready when you are"@
}

/// Saturating `- 1`.
pub open spec fn dec(v: u32) -> u32 {
    if v > 0 {
        (v - 1) as u32
    } else {
        0
    }
}

/// One tick of a pause: count it down; when it ends, resume with a fresh
/// leg and target, or end the roam when the music stopped (outside
/// companion mode).
#[verifier::opaque]
pub open spec fn park_spec(p: PetView, music: bool) -> PetView {
    let k = dec(p.park_ticks_left);
    if k == 0 {
        let q = pick_spec(PetView { park_ticks_left: 0, walk_ticks_left: p.cfg.walk_duration, ..p });
        if !p.always_roam && !music {
            stop_roam_spec(q)
        } else {
            q
        }
    } else {
        PetView { park_ticks_left: k, ..p }
    }
}

/// The end of a leg: a tip pause in companion mode, else the roam stops.
#[verifier::opaque]
pub open spec fn leg_end_spec(p: PetView) -> (PetView, Seq<EffectView>) {
    if p.always_roam {
        roam_tip_spec(p)
    } else {
        (stop_roam_spec(p), Seq::empty())
    }
}

/// One roam tick: count down a pause, or count down the leg when no music
/// plays (ending it when it runs out), or take a step.
#[verifier::opaque]
pub open spec fn walk_spec(p: PetView, music: bool) -> (PetView, Seq<EffectView>) {
    if p.park_ticks_left > 0 {
        (park_spec(p, music), Seq::empty())
    } else {
        let p1 = if !music {
            PetView { walk_ticks_left: dec(p.walk_ticks_left), ..p }
        } else {
            p
        };
        if !music && p1.walk_ticks_left == 0 {
            leg_end_spec(p1)
        } else {
            step_spec(PetView { wall_cooldown: dec(p1.wall_cooldown), ..p1 }, music)
        }
    }
}

/// The pose for the main-screen context: music → Jamming, video → Cozy,
/// long work → WorkingEmpty, away or long idle → Curious, else the base.
pub open spec fn mood_spec(p: PetView, base: State, music: bool, video: bool) -> State {
    if music {
        State::Jamming
    } else if video {
        State::Cozy
    } else if base == State::Working && p.working_ticks >= p.cfg.coffee_after {
        State::WorkingEmpty
    } else if p.user_idle || (base == State::Idle && p.idle_ticks >= p.cfg.curious_after) {
        State::Curious
    } else {
        base
    }
}

/// The prompt context for a window: its class, and ` - title` when it has
/// a title.
pub open spec fn context_str(class: Seq<char>, title: Seq<char>) -> Seq<char> {
    if title.len() == 0 {
        class
    } else {
        class + " - "@ + title
    }
}

/// Whether `s` is shown at once rather than after the debounce.
pub open spec fn immediate(s: State) -> bool {
    s is Walk || s == State::Jamming || s == State::Cozy
}

/// Switching the shown state: a tip query and loading bubble unless it is a
/// walk pose; the debounce is cleared.
#[verifier::opaque]
pub open spec fn commit_spec(p: PetView, eff: State, ctx: Seq<char>) -> (PetView, Seq<EffectView>) {
    let q = PetView { state: eff, anim_tick: 0, pending_state: None, pending_count: 0, ..p };
    if eff is Walk {
        (q, Seq::empty())
    } else {
        (
            PetView { bubble: shown("thinking..."@, "thinking..."@), ..q },
            seq![EffectView::QueryTip { context: ctx, state: eff }],
        )
    }
}

/// Showing state `eff`: at once when it is immediate, else only once the
/// same state has been asked for `STATE_DEBOUNCE` ticks in a row; asking
/// for the state already shown clears the debounce.
#[verifier::opaque]
pub open spec fn show_spec(p: PetView, eff: State, ctx: Seq<char>) -> (PetView, Seq<EffectView>) {
    if eff != p.state {
        if immediate(eff) {
            commit_spec(p, eff, ctx)
        } else if p.pending_state == Some(eff) {
            if p.pending_count + 1 >= STATE_DEBOUNCE {
                commit_spec(p, eff, ctx)
            } else {
                (PetView { pending_count: (p.pending_count + 1) as u32, ..p }, Seq::empty())
            }
        } else {
            (PetView { pending_state: Some(eff), pending_count: 1, ..p }, Seq::empty())
        }
    } else {
        (PetView { pending_state: None, pending_count: 0, ..p }, Seq::empty())
    }
}

/// Whether a stroll starts outside companion mode: the window has been
/// stable for a multiple of `walk_every` ticks, and music plays or the
/// base state is Idle or Working.
pub open spec fn stroll_due(p: PetView, base: State, music: bool) -> bool {
    roam_due(p.stable_ticks, p.cfg.walk_every) && (music || base == State::Idle || base
        == State::Working)
}

/// Outside a roam: start a stroll when one is due, otherwise show the mood.
#[verifier::opaque]
pub open spec fn decide_spec(p: PetView, base: State, mood: State, music: bool, ctx: Seq<char>) -> (
    PetView,
    Seq<EffectView>,
) {
    if stroll_due(p, base, music) {
        show_spec(begin_roam_spec(p), State::Walk(p.walk_dir), ctx)
    } else {
        show_spec(p, mood, ctx)
    }
}

/// Saturating `+ 1`.
pub open spec fn inc(v: u64) -> u64 {
    if v == u64::MAX {
        v
    } else {
        (v + 1) as u64
    }
}

/// The idle or working streak after a tick with base state `base`: the
/// matching one grows, the other restarts (both restart otherwise).
#[verifier::opaque]
pub open spec fn streak_spec(p: PetView, base: State) -> PetView {
    if base == State::Idle {
        PetView { idle_ticks: inc(p.idle_ticks), working_ticks: 0, ..p }
    } else if base == State::Working {
        PetView { working_ticks: inc(p.working_ticks), idle_ticks: 0, ..p }
    } else {
        PetView { idle_ticks: 0, working_ticks: 0, ..p }
    }
}

/// The stable count grows while the base state stays the same, and
/// restarts when it changes.
#[verifier::opaque]
pub open spec fn stable_spec(p: PetView, base: State) -> PetView {
    if p.last_base == Some(base) {
        PetView { stable_ticks: inc(p.stable_ticks), ..p }
    } else {
        PetView { stable_ticks: 0, last_base: Some(base), ..p }
    }
}

/// The behaviour timers after a tick with base state `base`.
pub open spec fn timers_spec(p: PetView, base: State) -> PetView {
    stable_spec(streak_spec(p, base), base)
}

/// Companion mode outside a roam: start one at once.
#[verifier::opaque]
pub open spec fn companion_spec(p: PetView) -> PetView {
    PetView { state: State::Walk(p.walk_dir), anim_tick: 0, ..begin_roam_spec(p) }
}

/// After the timers and mood: continue a roam, start one in companion
/// mode, or decide.
#[verifier::opaque]
pub open spec fn route_spec(p3: PetView, base: State, mood: State, music: bool, ctx: Seq<char>) -> (
    PetView,
    Seq<EffectView>,
) {
    if p3.roaming {
        walk_spec(p3, music)
    } else if p3.always_roam {
        (companion_spec(p3), Seq::empty())
    } else {
        decide_spec(p3, base, mood, music, ctx)
    }
}

/// The window-driven part of a tick: timers, stability, mood, then roam
/// or mood display. Media counts only when it belongs to the deciding
/// window.
#[verifier::opaque]
pub open spec fn settle_spec(
    p: PetView,
    class: Seq<char>,
    title: Seq<char>,
    pmusic: bool,
    pvideo: bool,
    ptitle: Seq<char>,
    pname: Seq<char>,
) -> (PetView, Seq<EffectView>) {
    let base = state_for(class, title);
    let ctx = context_str(class, title);
    let media_ok = media_applies_spec(class, title, ptitle, pname);
    let music = pmusic && media_ok;
    let video = pvideo && media_ok;
    let p2 = timers_spec(p, base);
    let mood = mood_spec(p2, base, music, video);
    route_spec(PetView { roam_mood: mood, last_ctx: ctx, ..p2 }, base, mood, music, ctx)
}

/// While the menu is open or a question is typed: the Thinking pose (the
/// menu also hides the bubble).
#[verifier::opaque]
pub open spec fn thinking_spec(p: PetView) -> PetView {
    let b = if p.menu_open {
        BubbleView { visible: false, ..p.bubble }
    } else {
        p.bubble
    };
    if p.state != State::Thinking {
        PetView { bubble: b, state: State::Thinking, anim_tick: 0, ..p }
    } else {
        PetView { bubble: b, ..p }
    }
}

/// A greeting tick: the first one says the greeting in the Happy pose.
#[verifier::opaque]
pub open spec fn greet_spec(p: PetView) -> PetView {
    let k = (p.greet_ticks_left - 1) as u32;
    if !p.greeted {
        PetView {
            bubble: shown(p.cfg.greet_msg, Seq::empty()),
            state: State::Happy,
            anim_tick: 0,
            greeted: true,
            greet_ticks_left: k,
            ..p
        }
    } else {
        PetView { greet_ticks_left: k, ..p }
    }
}

/// A return from being away: welcome back and hold Happy, unless a forced
/// state is running.
#[verifier::opaque]
pub open spec fn welcome_spec(p: PetView) -> PetView {
    if p.idle_returned {
        if p.force_ticks_left == 0 {
            PetView {
                idle_returned: false,
                bubble: shown(welcome_msg(), Seq::empty()),
                force_state: Some(State::Happy),
                force_ticks_left: FORCE_TICKS,
                ..p
            }
        } else {
            PetView { idle_returned: false, ..p }
        }
    } else {
        p
    }
}

/// A tick of a forced state: show it and count the hold down.
#[verifier::opaque]
pub open spec fn hold_spec(p1: PetView) -> PetView {
    let p2 = match p1.force_state {
        Some(s) => if p1.state != s {
            PetView { state: s, anim_tick: 0, ..p1 }
        } else {
            p1
        },
        None => p1,
    };
    PetView { force_ticks_left: (p2.force_ticks_left - 1) as u32, ..p2 }
}

/// One tick of the state machine. While the menu is open or a question is
/// typed the pet holds the Thinking pose and does nothing else; the
/// greeting runs first; a return from being away says welcome back (unless
/// a forced state is running); a forced state holds; otherwise the window
/// decides.
#[verifier::opaque]
pub open spec fn sync_spec(
    p: PetView,
    class: Seq<char>,
    title: Seq<char>,
    pmusic: bool,
    pvideo: bool,
    ptitle: Seq<char>,
    pname: Seq<char>,
) -> (PetView, Seq<EffectView>) {
    if p.menu_open || p.input_mode {
        (thinking_spec(p), Seq::empty())
    } else if p.greet_ticks_left > 0 {
        (greet_spec(p), Seq::empty())
    } else {
        let p1 = welcome_spec(p);
        if p1.force_ticks_left > 0 {
            (hold_spec(p1), Seq::empty())
        } else {
            settle_spec(p1, class, title, pmusic, pvideo, ptitle, pname)
        }
    }
}

// ---------------------------------------------------------------------------
// The machine

/// The state at startup: Idle, greeting pending, no outputs known yet,
/// surface at (`MARGIN`, `MARGIN`).
pub open spec fn init_spec(cfg: ConfigView, seed: u64, always_roam: bool) -> PetView {
    PetView {
        state: State::Idle,
        anim_tick: 0,
        bubble: BubbleView { tip: Seq::empty(), joke: Seq::empty(), visible: false, ticks_left: 0 },
        menu_open: false,
        input_mode: false,
        input_buf: Seq::empty(),
        idle_ticks: 0,
        working_ticks: 0,
        stable_ticks: 0,
        last_base: None,
        roam_mood: State::Idle,
        last_ctx: Seq::empty(),
        roaming: false,
        walk_ticks_left: 0,
        park_ticks_left: 0,
        walk_dir: Direction::Right,
        wall_cooldown: 0,
        wall_ticks: 0,
        user_idle: false,
        idle_returned: false,
        greet_ticks_left: GREET_TICKS,
        greeted: false,
        force_state: None,
        force_ticks_left: 0,
        pending_state: None,
        pending_count: 0,
        outputs: Seq::empty(),
        cur_idx: 0,
        pos_init: false,
        pos_x: MARGIN,
        pos_y: MARGIN,
        target_x: MARGIN,
        target_y: MARGIN,
        rng: seed,
        margin_left: MARGIN,
        margin_top: MARGIN,
        cfg,
        always_roam,
    }
}

/// A `SetMargins` effect for the current margins.
pub fn margins_effect_of(p: &Pet) -> (r: Vec<Effect>)
    ensures
        effects_view(r@) == margins_effect(p@),
{
    let r = vec![Effect::SetMargins { top: p.margin_top, left: p.margin_left }];
    assert(effects_view(r@) =~= margins_effect(p@));
    r
}


} // verus!
