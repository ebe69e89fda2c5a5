//! What holds of the pet across its steps: the modal freeze, the startup
//! greeting, forced states, the anti-flap debounce, companion roaming, the
//! menu toggle, walls and doorways between outputs, and roam targets.

use vstd::prelude::*;
use crate::bubble::{shown, BubbleView};
use crate::control::EventView;
use crate::context::{media_applies_spec, state_for};
use crate::events::{
    begin_input_spec, closed_spec, control_spec, key_spec, layout_spec, rebuild_spec, tap_spec,
};
use crate::geometry::{
    clamp_pos, infos_ok, layout_sorted, lemma_layout_bounds, lemma_outputs_ok, lemma_pick_index,
    lemma_range_value, lemma_sort_layout, lemma_sorted_ok, lemma_usable_ok, max_i, max_right, min_i,
    min_left, outputs_ok, pick_index, pick_target, rand_next, rand_range_spec, sort_layout,
    usable_outputs, OutputInfo, Rect, MARGIN, SPRITE_H, SPRITE_W, WALL_PAD, center_x, center_y,
    output_at_spec, step_axis,
};
use crate::pet::{
    arrive_spec, begin_roam_spec, commit_spec, companion_spec, greet_spec, hold_spec, immediate,
    margins_spec, parse_state_spec, pick_spec, pin_spec, route_spec, settle_spec, show_spec, step_cross_spec,
    step_wall_spec, sync_spec, thinking_spec, wall_after, welcome_spec, wf, EffectView, PetView,
    FORCE_TICKS, STATE_DEBOUNCE, context_str, decide_spec, mood_spec, stable_spec, streak_spec,
    stroll_due, timers_spec, step_spec, step_on_spec, facing, cross_msg, walk_spec, dec,
};
use crate::sprites::State;

verus! {

/// While the menu is open or a question is being typed, a tick only puts
/// on the Thinking pose (the menu also hides the bubble): no timer, roam or
/// position changes, and nothing is asked of the shell.
pub proof fn lemma_modal_freeze(
    p: PetView,
    class: Seq<char>,
    title: Seq<char>,
    pmusic: bool,
    pvideo: bool,
    ptitle: Seq<char>,
    pname: Seq<char>,
)
    requires
        p.menu_open || p.input_mode,
    ensures
        ({
            let (q, e) = sync_spec(p, class, title, pmusic, pvideo, ptitle, pname);
            &&& e == Seq::<EffectView>::empty()
            &&& q.state == State::Thinking
            &&& q == (PetView { state: State::Thinking, anim_tick: q.anim_tick, bubble: q.bubble, ..p })
            &&& q.bubble == (if p.menu_open {
                BubbleView { visible: false, ..p.bubble }
            } else {
                p.bubble
            })
        }),
{
    reveal(sync_spec);
    reveal(thinking_spec);
}

/// The startup greeting: while greeting ticks remain (menu closed, nothing
/// typed), the first tick says the configured greeting in the Happy pose,
/// later ones only count down; no greeting tick asks anything of the shell.
pub proof fn lemma_greeting(
    p: PetView,
    class: Seq<char>,
    title: Seq<char>,
    pmusic: bool,
    pvideo: bool,
    ptitle: Seq<char>,
    pname: Seq<char>,
)
    requires
        !p.menu_open,
        !p.input_mode,
        p.greet_ticks_left > 0,
    ensures
        ({
            let (q, e) = sync_spec(p, class, title, pmusic, pvideo, ptitle, pname);
            &&& e == Seq::<EffectView>::empty()
            &&& q.greeted
            &&& q.greet_ticks_left == p.greet_ticks_left - 1
            &&& !p.greeted ==> q.state == State::Happy && q.bubble == shown(p.cfg.greet_msg, Seq::empty())
            &&& p.greeted ==> q == (PetView { greet_ticks_left: q.greet_ticks_left, ..p })
        }),
{
    reveal(sync_spec);
    reveal(greet_spec);
}

/// A forced state holds: while forced ticks remain and nothing takes
/// precedence (no menu, typing, greeting or return from being away), a
/// tick shows the forced state, uses up one forced tick, asks nothing of
/// the shell and leaves timers, roam and position alone.
pub proof fn lemma_force_holds(
    p: PetView,
    class: Seq<char>,
    title: Seq<char>,
    pmusic: bool,
    pvideo: bool,
    ptitle: Seq<char>,
    pname: Seq<char>,
)
    requires
        !p.menu_open,
        !p.input_mode,
        p.greet_ticks_left == 0,
        !p.idle_returned,
        p.force_ticks_left > 0,
        p.force_state is Some,
    ensures
        ({
            let (q, e) = sync_spec(p, class, title, pmusic, pvideo, ptitle, pname);
            &&& e == Seq::<EffectView>::empty()
            &&& q.state == p.force_state->0
            &&& q == (PetView {
                state: q.state,
                anim_tick: q.anim_tick,
                force_ticks_left: (p.force_ticks_left - 1) as u32,
                ..p
            })
        }),
{
    reveal(sync_spec);
    reveal(welcome_spec);
    reveal(hold_spec);
}

/// Setting a state by name over the control socket forces it: the next
/// tick (nothing else taking precedence) shows it, and it holds for
/// `FORCE_TICKS` ticks.
pub proof fn lemma_set_state_shows(
    p: PetView,
    name: Seq<char>,
    class: Seq<char>,
    title: Seq<char>,
    pmusic: bool,
    pvideo: bool,
    ptitle: Seq<char>,
    pname: Seq<char>,
)
    requires
        parse_state_spec(name) is Some,
        !p.menu_open,
        !p.input_mode,
        p.greet_ticks_left == 0,
        !p.idle_returned,
    ensures
        ({
            let (p1, e1) = control_spec(p, EventView::SetState(name));
            let (q, e) = sync_spec(p1, class, title, pmusic, pvideo, ptitle, pname);
            &&& e1 == Seq::<EffectView>::empty()
            &&& p1.force_ticks_left == FORCE_TICKS
            &&& q.state == parse_state_spec(name)->0
            &&& q.force_ticks_left == FORCE_TICKS - 1
        }),
{
    let (p1, e1) = control_spec(p, EventView::SetState(name));
    lemma_force_holds(p1, class, title, pmusic, pvideo, ptitle, pname);
}

/// A return from being away says welcome back and holds Happy, unless a
/// forced state is already running, which is left to finish.
pub proof fn lemma_welcome_back(
    p: PetView,
    class: Seq<char>,
    title: Seq<char>,
    pmusic: bool,
    pvideo: bool,
    ptitle: Seq<char>,
    pname: Seq<char>,
)
    requires
        !p.menu_open,
        !p.input_mode,
        p.greet_ticks_left == 0,
        p.idle_returned,
    ensures
        ({
            let (q, e) = sync_spec(p, class, title, pmusic, pvideo, ptitle, pname);
            &&& e == Seq::<EffectView>::empty()
            &&& !q.idle_returned
            &&& p.force_ticks_left == 0 ==> q.state == State::Happy && q.bubble == shown(
                "welcome back! ready when you are"@,
                Seq::empty(),
            ) && q.force_ticks_left == FORCE_TICKS - 1
            &&& p.force_ticks_left > 0 && p.force_state is Some ==> q.state == p.force_state->0
                && q.bubble == p.bubble
        }),
{
    reveal(sync_spec);
    reveal(welcome_spec);
    reveal(hold_spec);
}

/// The state after `n` ticks that each ask to show `s`.
pub open spec fn shown_after(p: PetView, s: State, ctx: Seq<char>, n: nat) -> PetView
    decreases n,
{
    if n == 0 {
        p
    } else {
        show_spec(shown_after(p, s, ctx, (n - 1) as nat), s, ctx).0
    }
}

/// Anti-flap debounce: a state that is not shown at once (anything but a
/// walk, Jamming or Cozy) and differs from the one shown appears only when
/// it is asked for on `STATE_DEBOUNCE` ticks in a row: the first four
/// requests change no pose and ask nothing, the fifth shows it and asks
/// for a tip about it.
pub proof fn lemma_debounce(p: PetView, s: State, ctx: Seq<char>)
    requires
        !immediate(s),
        s != p.state,
        p.pending_state != Some(s),
    ensures
        forall|k: nat|
            k < STATE_DEBOUNCE - 1 ==> #[trigger] show_spec(shown_after(p, s, ctx, k), s, ctx).1
                == Seq::<EffectView>::empty() && show_spec(shown_after(p, s, ctx, k), s, ctx).0.state
                == p.state,
        shown_after(p, s, ctx, (STATE_DEBOUNCE - 1) as nat).state == p.state,
        show_spec(shown_after(p, s, ctx, (STATE_DEBOUNCE - 1) as nat), s, ctx).0.state == s,
        show_spec(shown_after(p, s, ctx, (STATE_DEBOUNCE - 1) as nat), s, ctx).1 == seq![
            EffectView::QueryTip { context: ctx, state: s },
        ],
{
    reveal(show_spec);
    reveal(commit_spec);
    reveal_with_fuel(shown_after, 6);
    let p1 = shown_after(p, s, ctx, 1);
    let p2 = shown_after(p, s, ctx, 2);
    let p3 = shown_after(p, s, ctx, 3);
    let p4 = shown_after(p, s, ctx, 4);
    assert(p1.pending_state == Some(s) && p1.pending_count == 1 && p1.state == p.state);
    assert(p2.pending_state == Some(s) && p2.pending_count == 2 && p2.state == p.state);
    assert(p3.pending_state == Some(s) && p3.pending_count == 3 && p3.state == p.state);
    assert(p4.pending_state == Some(s) && p4.pending_count == 4 && p4.state == p.state);
    assert forall|k: nat|
        k < STATE_DEBOUNCE - 1 implies #[trigger] show_spec(shown_after(p, s, ctx, k), s, ctx).1
            == Seq::<EffectView>::empty() && show_spec(shown_after(p, s, ctx, k), s, ctx).0.state
            == p.state by {
        if k == 0 {
        } else if k == 1 {
        } else if k == 2 {
        } else {
            assert(k == 3);
        }
    }
}

/// The debounce never lets a flapping state through: whenever asking to
/// show a state that is not shown at once actually changes the pose, that
/// state had already been asked for on the four ticks before.
pub proof fn lemma_debounce_only_after_streak(p: PetView, s: State, ctx: Seq<char>)
    requires
        wf(p),
        !immediate(s),
        show_spec(p, s, ctx).0.state != p.state,
    ensures
        p.pending_state == Some(s),
        p.pending_count == STATE_DEBOUNCE - 1,
        show_spec(p, s, ctx).0.state == s,
{
    reveal(show_spec);
    reveal(commit_spec);
}

/// Companion mode: outside a roam, a window-driven tick starts roaming at
/// once, in the walking pose, with a full leg ahead.
pub proof fn lemma_companion_roams(p: PetView, base: State, mood: State, music: bool, ctx: Seq<char>)
    requires
        !p.roaming,
        p.always_roam,
    ensures
        ({
            let (q, e) = route_spec(p, base, mood, music, ctx);
            &&& e == Seq::<EffectView>::empty()
            &&& q.roaming
            &&& q.state == State::Walk(p.walk_dir)
            &&& q.walk_ticks_left == p.cfg.walk_duration
            &&& q.park_ticks_left == 0
        }),
{
    reveal(route_spec);
    reveal(companion_spec);
    reveal(begin_roam_spec);
    reveal(pick_spec);
}

/// A tap toggles the menu: with nothing open, a tap opens it and hides the
/// bubble; a second tap that hits no row closes it again, leaving
/// everything else as before. Neither asks anything of the shell.
pub proof fn lemma_tap_toggles_menu(p: PetView)
    requires
        !p.menu_open,
        !p.input_mode,
    ensures
        ({
            let (q, e) = tap_spec(p, None);
            let (r, f) = tap_spec(q, None);
            &&& e == Seq::<EffectView>::empty()
            &&& f == Seq::<EffectView>::empty()
            &&& q.menu_open
            &&& !q.bubble.visible
            &&& !r.menu_open
            &&& r == (PetView { bubble: BubbleView { visible: false, ..p.bubble }, ..p })
        }),
{
}

/// A blocked step never carries the pet off its output: afterwards the
/// whole surface lies on the current output (as far as the output is
/// larger than the surface), and the current output is unchanged.
pub proof fn lemma_wall_keeps_on_output(p: PetView, nx: i32, ny: i32)
    requires
        wf(p),
        p.cur_idx < p.outputs.len(),
    ensures
        ({
            let q = step_wall_spec(p, nx, ny).0;
            let g = p.outputs[p.cur_idx as int];
            &&& q.cur_idx == p.cur_idx
            &&& q.outputs == p.outputs
            &&& g.x <= q.pos_x <= g.x + max_i((g.w - SPRITE_W) as i32, 0)
            &&& g.y <= q.pos_y <= g.y + max_i((g.h - SPRITE_H) as i32, 0)
        }),
{
    reveal(step_wall_spec);
    reveal(wall_after);
    reveal(margins_spec);
    reveal(pick_spec);
    reveal(clamp_pos);
    lemma_outputs_ok(p.outputs, p.cur_idx as int);
}

/// Crossing a doorway: a step whose mascot centre lands on another output
/// moves the pet onto that output, says so, and asks the shell to move the
/// surface there.
pub proof fn lemma_cross_hops(p: PetView, i: usize, nx: i32, ny: i32, music: bool)
    requires
        wf(p),
        i < p.outputs.len(),
    ensures
        ({
            let (q, e) = step_cross_spec(p, i, nx, ny, music);
            &&& q.cur_idx == i
            &&& q.pos_x == nx
            &&& q.pos_y == ny
            &&& e == seq![EffectView::PinTo(i)]
        }),
{
    reveal(step_cross_spec);
    reveal(pin_spec);
    reveal(arrive_spec);
    reveal(pick_spec);
}

/// Roam targets are never in a dead zone: with a known layout, the target
/// keeps the whole surface within the rows of one real output (when that
/// output is tall enough), and it is not left of the layout.
pub proof fn lemma_target_on_output(outs: Seq<Rect>, rng: u64)
    requires
        outputs_ok(outs),
        outs.len() > 0,
    ensures
        ({
            let t = pick_target(outs, rng);
            &&& exists|i: int|
                0 <= i < outs.len() && (outs[i].h >= SPRITE_H ==> outs[i].y <= t.2 <= outs[i].y
                    + outs[i].h - SPRITE_H)
            &&& t.1 >= min_left(outs, outs.len())
        }),
{
    reveal(pick_target);
    let n = outs.len();
    let min_x = min_left(outs, n);
    let max_x = max_right(outs, n);
    lemma_layout_bounds(outs, n);
    let r1 = rand_next(rng);
    let i = pick_index(r1, n);
    lemma_pick_index(r1, n);
    lemma_outputs_ok(outs, i);
    let g = outs[i];
    let lo = max_i((g.x - WALL_PAD) as i32, min_x);
    let hi = min_i((g.x + (g.w - SPRITE_W) + WALL_PAD) as i32, (max_x - SPRITE_W) as i32);
    let h2 = max_i(hi, lo);
    if h2 > lo {
        lemma_range_value(rand_next(r1), lo, h2);
    }
    let r2 = rand_range_spec(r1, lo, h2).0;
    let yhi = (g.y + (g.h - SPRITE_H)) as i32;
    if yhi > g.y {
        lemma_range_value(rand_next(r2), g.y, yhi);
    }
    assert(0 <= i < outs.len() && (outs[i].h >= SPRITE_H ==> outs[i].y <= pick_target(outs, rng).2
        <= outs[i].y + outs[i].h - SPRITE_H));
}

/// Rebuilding the layout from reports with at least one usable output
/// keeps exactly the usable outputs, in layout order (left to right, then
/// top to bottom), with a valid current output.
pub proof fn lemma_rebuild_layout(p: PetView, infos: Seq<OutputInfo>)
    requires
        usable_outputs(infos).len() > 0,
    ensures
        ({
            let q = rebuild_spec(p, infos);
            &&& layout_sorted(q.outputs)
            &&& q.outputs.to_multiset() == usable_outputs(infos).to_multiset()
            &&& q.cur_idx < q.outputs.len()
        }),
{
    reveal(layout_spec);
    lemma_sort_layout(usable_outputs(infos));
}

/// Media counts only for the deciding window: when the playing media does
/// not belong to it, a window-driven tick goes exactly as if nothing were
/// playing.
pub proof fn lemma_foreign_media_ignored(
    p: PetView,
    class: Seq<char>,
    title: Seq<char>,
    pmusic: bool,
    pvideo: bool,
    ptitle: Seq<char>,
    pname: Seq<char>,
)
    requires
        !media_applies_spec(class, title, ptitle, pname),
    ensures
        settle_spec(p, class, title, pmusic, pvideo, ptitle, pname) == settle_spec(
            p,
            class,
            title,
            false,
            false,
            ptitle,
            pname,
        ),
{
    reveal(settle_spec);
}

/// Walking, Jamming and Cozy are shown at once, without the debounce.
pub proof fn lemma_immediate_shown(p: PetView, s: State, ctx: Seq<char>)
    requires
        immediate(s),
        s != p.state,
    ensures
        show_spec(p, s, ctx).0.state == s,
        show_spec(p, s, ctx).0.pending_state is None,
{
    reveal(show_spec);
    reveal(commit_spec);
}

/// A monitor going away does not end the pet while another output is
/// usable: when its surface closes, the pet is re-pinned to the first
/// output of the rebuilt layout, near its corner.
pub proof fn lemma_survives_output_loss(p: PetView, infos: Seq<OutputInfo>)
    requires
        wf(p),
        infos_ok(infos),
        usable_outputs(infos).len() > 0,
    ensures
        ({
            let (q, e) = closed_spec(p, infos);
            &&& e == seq![EffectView::PinTo(0)]
            &&& q.cur_idx == 0
            &&& q.outputs == sort_layout(usable_outputs(infos))
            &&& q.pos_x == q.outputs[0].x + MARGIN
            &&& q.pos_y == q.outputs[0].y + MARGIN
        }),
{
    reveal(layout_spec);
    reveal(pin_spec);
    lemma_usable_ok(infos);
    lemma_sorted_ok(usable_outputs(infos));
    lemma_sort_layout(usable_outputs(infos));
    lemma_outputs_ok(sort_layout(usable_outputs(infos)), 0);
}

/// The keyboard is grabbed only while a question is typed: starting to
/// type grabs it, and every way out of typing (Escape, Return, a tap on
/// the pet) releases it first.
pub proof fn lemma_typing_releases_keyboard(
    p: PetView,
    keysym: u32,
    text: Option<Seq<char>>,
    row: Option<usize>,
)
    requires
        p.input_mode,
    ensures
        begin_input_spec(p).1 == seq![EffectView::SetKeyboard(true)],
        begin_input_spec(p).0.input_mode,
        !key_spec(p, keysym, text).0.input_mode ==> key_spec(p, keysym, text).1.len() > 0
            && key_spec(p, keysym, text).1[0] == EffectView::SetKeyboard(false),
        tap_spec(p, row).1 == seq![EffectView::SetKeyboard(false)],
        !tap_spec(p, row).0.input_mode,
{
}


/// A tick with this window and media reaches the mood display and wants
/// to show `s`: no menu, typing, greeting, return from being away, forced
/// state or roam, no stroll due, and the mood is `s`.
pub open spec fn ticks_to_show(
    p: PetView,
    class: Seq<char>,
    title: Seq<char>,
    pmusic: bool,
    pvideo: bool,
    ptitle: Seq<char>,
    pname: Seq<char>,
    s: State,
) -> bool {
    let base = state_for(class, title);
    let media_ok = media_applies_spec(class, title, ptitle, pname);
    let p2 = timers_spec(p, base);
    &&& !p.menu_open
    &&& !p.input_mode
    &&& p.greet_ticks_left == 0
    &&& !p.idle_returned
    &&& p.force_ticks_left == 0
    &&& !p.roaming
    &&& !p.always_roam
    &&& !stroll_due(p2, base, pmusic && media_ok)
    &&& mood_spec(p2, base, pmusic && media_ok, pvideo && media_ok) == s
}

/// The state after `n` ticks with the same window and media.
pub open spec fn synced_after(
    p: PetView,
    class: Seq<char>,
    title: Seq<char>,
    pmusic: bool,
    pvideo: bool,
    ptitle: Seq<char>,
    pname: Seq<char>,
    n: nat,
) -> PetView
    decreases n,
{
    if n == 0 {
        p
    } else {
        sync_spec(
            synced_after(p, class, title, pmusic, pvideo, ptitle, pname, (n - 1) as nat),
            class,
            title,
            pmusic,
            pvideo,
            ptitle,
            pname,
        ).0
    }
}

/// One tick that wants to show `s` acts on the pose and the debounce as
/// showing `s` does.
proof fn lemma_tick_shows(
    p: PetView,
    class: Seq<char>,
    title: Seq<char>,
    pmusic: bool,
    pvideo: bool,
    ptitle: Seq<char>,
    pname: Seq<char>,
    s: State,
)
    requires
        ticks_to_show(p, class, title, pmusic, pvideo, ptitle, pname, s),
    ensures
        sync_spec(p, class, title, pmusic, pvideo, ptitle, pname).0.state == show_spec(p, s, context_str(class, title)).0.state,
        sync_spec(p, class, title, pmusic, pvideo, ptitle, pname).0.pending_state == show_spec(p, s, context_str(class, title)).0.pending_state,
        sync_spec(p, class, title, pmusic, pvideo, ptitle, pname).0.pending_count == show_spec(p, s, context_str(class, title)).0.pending_count,
        sync_spec(p, class, title, pmusic, pvideo, ptitle, pname).1 == show_spec(p, s, context_str(class, title)).1,
{
    reveal(sync_spec);
    reveal(settle_spec);
    reveal(welcome_spec);
    reveal(route_spec);
    reveal(decide_spec);
    reveal(show_spec);
    reveal(commit_spec);
    reveal(stable_spec);
    reveal(streak_spec);
}

/// The debounce seen from whole ticks: when five ticks in a row with the
/// same window and media each want to show a state `s` that is not shown
/// at once and differs from the one shown (and was not already pending),
/// the first four keep the pose and ask the shell for nothing, and the
/// fifth shows `s` and asks for a tip about it.
pub proof fn lemma_tick_debounce(
    p: PetView,
    class: Seq<char>,
    title: Seq<char>,
    pmusic: bool,
    pvideo: bool,
    ptitle: Seq<char>,
    pname: Seq<char>,
    s: State,
)
    requires
        !immediate(s),
        s != p.state,
        p.pending_state != Some(s),
        forall|k: nat|
            k < STATE_DEBOUNCE ==> ticks_to_show(
                #[trigger] synced_after(p, class, title, pmusic, pvideo, ptitle, pname, k),
                class,
                title,
                pmusic,
                pvideo,
                ptitle,
                pname,
                s,
            ),
    ensures
        forall|k: nat|
            k < STATE_DEBOUNCE - 1 ==> (#[trigger] sync_spec(
                synced_after(p, class, title, pmusic, pvideo, ptitle, pname, k),
                class,
                title,
                pmusic,
                pvideo,
                ptitle,
                pname,
            )).1 == Seq::<EffectView>::empty(),
        forall|k: nat|
            k < STATE_DEBOUNCE ==> (#[trigger] synced_after(p, class, title, pmusic, pvideo, ptitle, pname, k)).state
                == p.state,
        synced_after(p, class, title, pmusic, pvideo, ptitle, pname, STATE_DEBOUNCE as nat).state == s,
        sync_spec(
            synced_after(p, class, title, pmusic, pvideo, ptitle, pname, (STATE_DEBOUNCE - 1) as nat),
            class,
            title,
            pmusic,
            pvideo,
            ptitle,
            pname,
        ).1 == seq![EffectView::QueryTip { context: context_str(class, title), state: s }],
{
    reveal(show_spec);
    reveal(commit_spec);
    reveal_with_fuel(synced_after, 6);
    let ctx = context_str(class, title);
    let q0 = synced_after(p, class, title, pmusic, pvideo, ptitle, pname, 0);
    let q1 = synced_after(p, class, title, pmusic, pvideo, ptitle, pname, 1);
    let q2 = synced_after(p, class, title, pmusic, pvideo, ptitle, pname, 2);
    let q3 = synced_after(p, class, title, pmusic, pvideo, ptitle, pname, 3);
    let q4 = synced_after(p, class, title, pmusic, pvideo, ptitle, pname, 4);
    let q5 = synced_after(p, class, title, pmusic, pvideo, ptitle, pname, 5);
    assert(ticks_to_show(q0, class, title, pmusic, pvideo, ptitle, pname, s));
    lemma_tick_shows(q0, class, title, pmusic, pvideo, ptitle, pname, s);
    assert(q1.pending_state == Some(s) && q1.pending_count == 1 && q1.state == p.state);
    assert(ticks_to_show(q1, class, title, pmusic, pvideo, ptitle, pname, s));
    lemma_tick_shows(q1, class, title, pmusic, pvideo, ptitle, pname, s);
    assert(q2.pending_state == Some(s) && q2.pending_count == 2 && q2.state == p.state);
    assert(ticks_to_show(q2, class, title, pmusic, pvideo, ptitle, pname, s));
    lemma_tick_shows(q2, class, title, pmusic, pvideo, ptitle, pname, s);
    assert(q3.pending_state == Some(s) && q3.pending_count == 3 && q3.state == p.state);
    assert(ticks_to_show(q3, class, title, pmusic, pvideo, ptitle, pname, s));
    lemma_tick_shows(q3, class, title, pmusic, pvideo, ptitle, pname, s);
    assert(q4.pending_state == Some(s) && q4.pending_count == 4 && q4.state == p.state);
    assert(ticks_to_show(q4, class, title, pmusic, pvideo, ptitle, pname, s));
    lemma_tick_shows(q4, class, title, pmusic, pvideo, ptitle, pname, s);
    assert(q5.state == s);
    assert forall|k: nat| k < STATE_DEBOUNCE implies (#[trigger] synced_after(
        p,
        class,
        title,
        pmusic,
        pvideo,
        ptitle,
        pname,
        k,
    )).state == p.state by {
        if k == 0 {
        } else if k == 1 {
        } else if k == 2 {
        } else if k == 3 {
        } else {
            assert(k == 4);
        }
    }
    assert forall|k: nat| k < STATE_DEBOUNCE - 1 implies (#[trigger] sync_spec(
        synced_after(p, class, title, pmusic, pvideo, ptitle, pname, k),
        class,
        title,
        pmusic,
        pvideo,
        ptitle,
        pname,
    )).1 == Seq::<EffectView>::empty() by {
        if k == 0 {
        } else if k == 1 {
        } else if k == 2 {
        } else {
            assert(k == 3);
        }
    }
}


/// Music that belongs to the deciding window always makes the pet jam,
/// whatever the base state, the video flag or the pet's streaks; without
/// music, video makes it cozy.
pub proof fn lemma_music_means_jamming(p: PetView, base: State, video: bool)
    ensures
        mood_spec(p, base, true, video) == State::Jamming,
        mood_spec(p, base, false, true) == State::Cozy,
{
}

/// Without music or video, a long working streak runs out of coffee, and
/// otherwise being away or a long idle streak makes the pet curious; any
/// other base state is shown as it is.
pub proof fn lemma_mood_streaks(p: PetView, base: State)
    ensures
        base == State::Working && p.working_ticks >= p.cfg.coffee_after ==> mood_spec(p, base, false, false)
            == State::WorkingEmpty,
        !(base == State::Working && p.working_ticks >= p.cfg.coffee_after) && (p.user_idle || (base
            == State::Idle && p.idle_ticks >= p.cfg.curious_after)) ==> mood_spec(p, base, false, false)
            == State::Curious,
        !(base == State::Working && p.working_ticks >= p.cfg.coffee_after) && !p.user_idle && !(base
            == State::Idle && p.idle_ticks >= p.cfg.curious_after) ==> mood_spec(p, base, false, false)
            == base,
{
}

/// Distance between two coordinates.
pub open spec fn dist(a: int, b: int) -> int {
    if a >= b {
        a - b
    } else {
        b - a
    }
}

/// Coordinate `new` is one walking step of `step` pixels from `cur`
/// toward `target`: the target itself when within a step, otherwise
/// exactly `step` closer to it, never past it.
pub open spec fn one_step_toward(cur: int, target: int, new: int, step: int) -> bool {
    &&& dist(cur, target) <= step ==> new == target
    &&& dist(cur, target) > step ==> dist(new, target) == dist(cur, target) - step && dist(cur, new)
        == step
}

/// One walking step along an axis, with a positive step that keeps the
/// coordinate in range, is a step toward the target.
proof fn lemma_axis_step(cur: i32, target: i32, step: i32)
    requires
        0 < step,
        -0x800_0000 <= cur <= 0x800_0000,
        -0x800_0000 <= target <= 0x800_0000,
        step <= 0x2000_0000,
    ensures
        one_step_toward(cur as int, target as int, step_axis(cur, target, step) as int, step as int),
{
}

/// A walking step that lands on an output moves the pet one step toward
/// its target on each axis (so, with a positive step, strictly closer on
/// every axis where it is not there yet).
pub proof fn lemma_step_toward_target(p: PetView, music: bool)
    requires
        wf(p),
        p.cfg.walk_step > 0,
        output_at_spec(
            p.outputs,
            center_x(step_axis(p.pos_x, p.target_x, p.cfg.walk_step)),
            center_y(step_axis(p.pos_y, p.target_y, p.cfg.walk_step)),
        ) is Some,
    ensures
        one_step_toward(p.pos_x as int, p.target_x as int, step_spec(p, music).0.pos_x as int, p.cfg.walk_step as int),
        one_step_toward(p.pos_y as int, p.target_y as int, step_spec(p, music).0.pos_y as int, p.cfg.walk_step as int),
        p.pos_x != p.target_x ==> dist(step_spec(p, music).0.pos_x as int, p.target_x as int) < dist(
            p.pos_x as int,
            p.target_x as int,
        ),
        p.pos_y != p.target_y ==> dist(step_spec(p, music).0.pos_y as int, p.target_y as int) < dist(
            p.pos_y as int,
            p.target_y as int,
        ),
{
    lemma_axis_step(p.pos_x, p.target_x, p.cfg.walk_step);
    lemma_axis_step(p.pos_y, p.target_y, p.cfg.walk_step);
    let nx = step_axis(p.pos_x, p.target_x, p.cfg.walk_step);
    let ny = step_axis(p.pos_y, p.target_y, p.cfg.walk_step);
    let q = step_spec(p, music).0;
    let dir = facing(p);
    let p2 = PetView { walk_dir: dir, state: State::Walk(dir), ..p };
    let i = output_at_spec(p.outputs, center_x(nx), center_y(ny))->0;
    if i == p.cur_idx {
        assert(q == step_on_spec(p2, nx, ny, music).0) by {
            reveal(step_spec);
        }
        let p3 = margins_spec(PetView { pos_x: nx, pos_y: ny, wall_ticks: 0, ..p2 });
        assert(p3.pos_x == nx && p3.pos_y == ny) by {
            reveal(margins_spec);
        }
        assert(q == arrive_spec(p3, music)) by {
            reveal(step_on_spec);
        }
        assert(q.pos_x == nx && q.pos_y == ny) by {
            reveal(arrive_spec);
            reveal(pick_spec);
        }
    } else {
        assert(q == step_cross_spec(p2, i, nx, ny, music).0) by {
            reveal(step_spec);
        }
        let p3 = PetView { pos_x: nx, pos_y: ny, bubble: shown(cross_msg(), Seq::empty()), ..p2 };
        let p4 = pin_spec(p3, i).0;
        assert(p4.pos_x == nx && p4.pos_y == ny) by {
            reveal(pin_spec);
        }
        assert(q == arrive_spec(PetView { wall_ticks: 0, ..p4 }, music)) by {
            reveal(step_cross_spec);
        }
        assert(q.pos_x == nx && q.pos_y == ny) by {
            reveal(arrive_spec);
            reveal(pick_spec);
        }
    }
}

/// A roam tick that is not paused and not at the end of its leg takes one
/// walking step; when that step lands on an output, the pet comes one step
/// closer to its target on each axis.
pub proof fn lemma_roam_tick_walks(p: PetView, music: bool)
    requires
        wf(p),
        p.cfg.walk_step > 0,
        p.park_ticks_left == 0,
        music || p.walk_ticks_left > 1,
        output_at_spec(
            p.outputs,
            center_x(step_axis(p.pos_x, p.target_x, p.cfg.walk_step)),
            center_y(step_axis(p.pos_y, p.target_y, p.cfg.walk_step)),
        ) is Some,
    ensures
        one_step_toward(p.pos_x as int, p.target_x as int, walk_spec(p, music).0.pos_x as int, p.cfg.walk_step as int),
        one_step_toward(p.pos_y as int, p.target_y as int, walk_spec(p, music).0.pos_y as int, p.cfg.walk_step as int),
{
    let p1 = if !music {
        PetView { walk_ticks_left: dec(p.walk_ticks_left), ..p }
    } else {
        p
    };
    let p2 = PetView { wall_cooldown: dec(p1.wall_cooldown), ..p1 };
    assert(walk_spec(p, music) == step_spec(p2, music)) by {
        reveal(walk_spec);
    }
    lemma_step_toward_target(p2, music);
}

/// A tick whose window decides (no menu, typing, greeting, return from
/// being away, forced state, roam or due stroll) while music plays that
/// belongs to the window shows Jamming at once, whatever the window.
pub proof fn lemma_music_tick_jams(
    p: PetView,
    class: Seq<char>,
    title: Seq<char>,
    pvideo: bool,
    ptitle: Seq<char>,
    pname: Seq<char>,
)
    requires
        media_applies_spec(class, title, ptitle, pname),
        !p.menu_open,
        !p.input_mode,
        p.greet_ticks_left == 0,
        !p.idle_returned,
        p.force_ticks_left == 0,
        !p.roaming,
        !p.always_roam,
        !stroll_due(timers_spec(p, state_for(class, title)), state_for(class, title), true),
    ensures
        sync_spec(p, class, title, true, pvideo, ptitle, pname).0.state == State::Jamming,
{
    let base = state_for(class, title);
    lemma_music_means_jamming(timers_spec(p, base), base, pvideo);
    assert(ticks_to_show(p, class, title, true, pvideo, ptitle, pname, State::Jamming));
    lemma_tick_shows(p, class, title, true, pvideo, ptitle, pname, State::Jamming);
    reveal(show_spec);
    reveal(commit_spec);
}

/// Reaching the target on the current output while music plays parks the
/// pet there to dance: a full pause, in the Jamming pose.
pub proof fn lemma_arrival_with_music_parks(p: PetView)
    requires
        wf(p),
        p.cfg.walk_step > 0,
        output_at_spec(
            p.outputs,
            center_x(step_axis(p.pos_x, p.target_x, p.cfg.walk_step)),
            center_y(step_axis(p.pos_y, p.target_y, p.cfg.walk_step)),
        ) == Some(p.cur_idx),
        step_axis(p.pos_x, p.target_x, p.cfg.walk_step) == p.target_x,
        step_axis(p.pos_y, p.target_y, p.cfg.walk_step) == p.target_y,
    ensures
        step_spec(p, true).0.park_ticks_left == p.cfg.park_duration,
        step_spec(p, true).0.state == State::Jamming,
        step_spec(p, true).0.pos_x == p.target_x,
        step_spec(p, true).0.pos_y == p.target_y,
{
    let nx = step_axis(p.pos_x, p.target_x, p.cfg.walk_step);
    let ny = step_axis(p.pos_y, p.target_y, p.cfg.walk_step);
    let q = step_spec(p, true).0;
    let dir = facing(p);
    let p2 = PetView { walk_dir: dir, state: State::Walk(dir), ..p };
    assert(q == step_on_spec(p2, nx, ny, true).0) by {
        reveal(step_spec);
    }
    let p3 = margins_spec(PetView { pos_x: nx, pos_y: ny, wall_ticks: 0, ..p2 });
    assert(p3.pos_x == nx && p3.pos_y == ny && p3.target_x == p.target_x && p3.target_y == p.target_y
        && p3.cfg == p.cfg) by {
        reveal(margins_spec);
    }
    assert(q == arrive_spec(p3, true)) by {
        reveal(step_on_spec);
    }
    reveal(arrive_spec);
}

} // verus!
