//! Roaming across the output layout: targets, steps, hops and walls.

use vstd::prelude::*;
use crate::bubble::{shown, Bubble};
use crate::config::Config;
use crate::geometry::{
    clamp_pos, clamp_position, choose_target, contains_pt, coord_ok, center_x, center_y,
    lemma_outputs_ok, max32, near_ok, output_at_spec, output_index, outputs_ok, rand_in, rand_next,
    rand_range_spec, rand_step, slide_pos, slide_position, walk_axis, wall_pos, MARGIN, MASCOT_W,
    POS_LIM, SPRITE_H, SPRITE_W, STEP_LIM,
};
use crate::pet::{
    arrive_spec, begin_roam_spec, clamp_spec, cross_msg, effects_view, facing, init_spec,
    margins_effect, margins_effect_of, margins_spec, pick_spec, pin_spec, roam_tip_spec,
    step_cross_spec, step_on_spec, step_spec, step_wall_spec, stop_roam_spec, walk_spec, wall_after,
    dec, leg_end_spec, park_spec,
    wall_msg, wf, Effect, EffectView, Pet, PetView, GREET_TICKS, WALL_COOLDOWN, WALL_SLIDE_MAX,
};
use crate::sprites::{Animator, Direction, State};
use crate::text::string_of;

verus! {

impl Pet {
    /// The pet at startup with settings `cfg`, random seed `seed`, and
    /// whether it roams all the time.
    pub fn new(cfg: Config, seed: u64, always_roam: bool) -> (r: Pet)
        requires
            cfg.walk_every > 0,
            -STEP_LIM <= cfg.walk_step <= STEP_LIM,
        ensures
            r@ == init_spec(cfg@, seed, always_roam),
            wf(r@),
    {
        proof {
            reveal(outputs_ok);
        }
        Pet {
            animator: Animator::new(),
            bubble: Bubble::new(),
            menu_open: false,
            input_mode: false,
            input_buf: Vec::new(),
            idle_ticks: 0,
            working_ticks: 0,
            stable_ticks: 0,
            last_base: None,
            roam_mood: State::Idle,
            last_ctx: Vec::new(),
            roaming: false,
            walk_ticks_left: 0,
            park_ticks_left: 0,
            walk_dir: Direction::Right,
            wall_cooldown: 0,
            wall_ticks: 0,
            user_idle: false,
            idle_returned: false,
            greet_ticks_left: GREET_TICKS,
            greeted: false,
            force_state: None,
            force_ticks_left: 0,
            pending_state: None,
            pending_count: 0,
            outputs: Vec::new(),
            cur_idx: 0,
            pos_init: false,
            pos_x: MARGIN,
            pos_y: MARGIN,
            target_x: MARGIN,
            target_y: MARGIN,
            rng: seed,
            margin_left: MARGIN,
            margin_top: MARGIN,
            cfg,
            always_roam,
        }
    }

    /// Advances the xorshift64 generator and returns its new state.
    pub fn rand(&mut self) -> (r: u64)
        ensures
            r == rand_next(old(self).rng),
            final(self)@ == (PetView { rng: r, ..old(self)@ }),
    {
        let x = rand_step(self.rng);
        self.rng = x;
        x
    }

    /// A pseudo-random value in `[lo, hi]` (`lo` when the range is empty).
    pub fn rand_range(&mut self, lo: i32, hi: i32) -> (r: i32)
        requires
            -2 * POS_LIM <= lo <= 2 * POS_LIM,
            -2 * POS_LIM <= hi <= 2 * POS_LIM,
        ensures
            (final(self).rng, r) == rand_range_spec(old(self).rng, lo, hi),
            final(self)@ == (PetView { rng: final(self).rng, ..old(self)@ }),
            hi <= lo ==> r == lo,
            hi > lo ==> lo <= r <= hi,
    {
        let (x, v) = rand_in(self.rng, lo, hi);
        self.rng = x;
        v
    }

    /// Index of the first output containing the global point (`x`, `y`).
    pub fn output_at(&self, x: i32, y: i32) -> (r: Option<usize>)
        requires
            wf(self@),
        ensures
            r == output_at_spec(self.outputs@, x as int, y as int),
    {
        output_index(&self.outputs, x, y)
    }

    /// Picks a new random roam target.
    pub fn pick_walk_target(&mut self)
        requires
            wf(old(self)@),
        ensures
            final(self)@ == pick_spec(old(self)@),
            final(self)@ == (PetView {
                rng: final(self).rng,
                target_x: final(self).target_x,
                target_y: final(self).target_y,
                ..old(self)@
            }),
            wf(final(self)@),
    {
        let ghost p = self@;
        let t = choose_target(&self.outputs, self.rng);
        self.rng = t.0;
        self.target_x = t.1;
        self.target_y = t.2;
        assert(self@ == pick_spec(p)) by {
            reveal(pick_spec);
        }
    }

    /// Sets the margins from the position relative to the current output.
    pub fn apply_margins(&mut self) -> (r: Vec<Effect>)
        requires
            wf(old(self)@),
        ensures
            final(self)@ == margins_spec(old(self)@),
            effects_view(r@) == margins_effect(final(self)@),
            wf(final(self)@),
    {
        proof {
            reveal(margins_spec);
        }
        if self.cur_idx < self.outputs.len() {
            let g = self.outputs[self.cur_idx];
            proof { lemma_outputs_ok(self.outputs@, self.cur_idx as int); }
            self.margin_left = max32(self.pos_x - g.x, 0);
            self.margin_top = max32(self.pos_y - g.y, 0);
        }
        margins_effect_of(self)
    }

    /// Keeps the whole surface on the current output. The position may be
    /// up to one step outside the usual bound.
    pub fn clamp_to_cur(&mut self)
        requires
            wf(PetView { pos_x: 0, pos_y: 0, ..old(self)@ }),
            near_ok(old(self).pos_x),
            near_ok(old(self).pos_y),
        ensures
            final(self)@ == clamp_spec(old(self)@),
            old(self).cur_idx < old(self).outputs@.len() || (coord_ok(old(self).pos_x) && coord_ok(
                old(self).pos_y,
            )) ==> wf(final(self)@),
    {
        let ghost p = self@;
        let c = clamp_position(&self.outputs, self.cur_idx, self.pos_x, self.pos_y);
        self.pos_x = c.0;
        self.pos_y = c.1;
        assert(self@ == clamp_spec(p)) by {
            reveal(clamp_spec);
        }
    }

    /// Moves the surface to output `idx`.
    pub fn pin_to(&mut self, idx: usize) -> (r: Vec<Effect>)
        requires
            wf(old(self)@),
        ensures
            (final(self)@, effects_view(r@)) == pin_spec(old(self)@, idx),
            wf(final(self)@),
    {
        proof {
            reveal(pin_spec);
        }
        if idx >= self.outputs.len() {
            let r: Vec<Effect> = Vec::new();
            assert(effects_view(r@) =~= Seq::<EffectView>::empty());
            return r;
        }
        let g = self.outputs[idx];
        proof { lemma_outputs_ok(self.outputs@, idx as int); }
        self.cur_idx = idx;
        self.margin_left = max32(self.pos_x - g.x, 0);
        self.margin_top = max32(self.pos_y - g.y, 0);
        let r = vec![Effect::PinTo(idx)];
        assert(effects_view(r@) =~= seq![EffectView::PinTo(idx)]);
        r
    }

    /// Ends a roam.
    pub fn stop_roam(&mut self)
        requires
            wf(old(self)@),
        ensures
            final(self)@ == stop_roam_spec(old(self)@),
            wf(final(self)@),
    {
        proof {
            reveal(stop_roam_spec);
        }
        self.roaming = false;
        self.park_ticks_left = 0;
        self.animator.set(State::Idle);
        self.idle_ticks = 0;
    }

    /// Starts a roam and returns the walking pose.
    pub fn begin_roam(&mut self) -> (r: State)
        requires
            wf(old(self)@),
        ensures
            final(self)@ == begin_roam_spec(old(self)@),
            r == State::Walk(final(self).walk_dir),
            final(self).walk_dir == old(self).walk_dir,
            wf(final(self)@),
    {
        proof {
            reveal(begin_roam_spec);
        }
        self.roaming = true;
        self.park_ticks_left = 0;
        self.walk_ticks_left = self.cfg.walk_duration;
        self.pick_walk_target();
        State::Walk(self.walk_dir)
    }

    /// Pauses a roam to pose in the current mood and ask for a tip.
    pub fn roam_tip(&mut self) -> (r: Vec<Effect>)
        requires
            wf(old(self)@),
        ensures
            wf(final(self)@),
            (final(self)@, effects_view(r@)) == roam_tip_spec(old(self)@),
    {
        proof {
            reveal(roam_tip_spec);
        }
        let mood = self.roam_mood;
        let ctx = string_of(&self.last_ctx);
        self.park_ticks_left = self.cfg.park_duration;
        self.animator.set(mood);
        self.bubble.show_loading();
        let r = vec![Effect::QueryTip { context: ctx, state: mood }];
        assert(effects_view(r@) =~= seq![EffectView::QueryTip { context: old(self).last_ctx@, state: mood }]);
        r
    }

    fn step_on(&mut self, nx: i32, ny: i32, music: bool) -> (r: Vec<Effect>)
        requires
            wf(old(self)@),
            old(self).cur_idx < old(self).outputs@.len(),
            contains_pt(old(self).outputs@[old(self).cur_idx as int], center_x(nx), center_y(ny)),
        ensures
            (final(self)@, effects_view(r@)) == step_on_spec(old(self)@, nx, ny, music),
            wf(final(self)@),
    {
        proof {
            lemma_outputs_ok(self.outputs@, self.cur_idx as int);
        }
        let ghost p2 = self@;
        self.pos_x = nx;
        self.pos_y = ny;
        self.wall_ticks = 0;
        assert(self@ == PetView { pos_x: nx, pos_y: ny, wall_ticks: 0, ..p2 });
        let e = self.apply_margins();
        let ghost p3 = self@;
        self.arrive(music);
        assert((self@, effects_view(e@)) == step_on_spec(p2, nx, ny, music)) by {
            reveal(step_on_spec);
        }
        e
    }

    fn step_cross(&mut self, i: usize, nx: i32, ny: i32, music: bool) -> (r: Vec<Effect>)
        requires
            wf(old(self)@),
            i < old(self).outputs@.len(),
            contains_pt(old(self).outputs@[i as int], center_x(nx), center_y(ny)),
        ensures
            (final(self)@, effects_view(r@)) == step_cross_spec(old(self)@, i, nx, ny, music),
            wf(final(self)@),
    {
        proof {
            lemma_outputs_ok(self.outputs@, i as int);
        }
        let ghost p2 = self@;
        self.pos_x = nx;
        self.pos_y = ny;
        self.bubble.say("a doorway! crossing to the next screen");
        let ghost p3 = self@;
        assert(p3 == PetView { pos_x: nx, pos_y: ny, bubble: shown(cross_msg(), Seq::empty()), ..p2 });
        let e = self.pin_to(i);
        let ghost p4 = self@;
        assert((p4, effects_view(e@)) == pin_spec(p3, i));
        self.wall_ticks = 0;
        assert(self@ == PetView { wall_ticks: 0, ..p4 });
        self.arrive(music);
        assert((self@, effects_view(e@)) == step_cross_spec(p2, i, nx, ny, music)) by {
            reveal(step_cross_spec);
        }
        e
    }

    fn step_wall(&mut self, nx: i32, ny: i32) -> (r: Vec<Effect>)
        requires
            wf(old(self)@),
            near_ok(nx),
            near_ok(ny),
        ensures
            (final(self)@, effects_view(r@)) == step_wall_spec(old(self)@, nx, ny),
            wf(final(self)@),
    {
        let ghost p2 = self@;
        let s = slide_position(&self.outputs, self.cur_idx, self.pos_x, self.pos_y, nx, ny);
        self.pos_x = s.0;
        self.pos_y = s.1;
        let ghost p3 = self@;
        assert(p3 == PetView { pos_x: s.0, pos_y: s.1, ..p2 });
        self.clamp_to_cur();
        let ghost w = wall_pos(p2.outputs, p2.cur_idx, p2.pos_x, p2.pos_y, nx, ny);
        assert(self@ == PetView { pos_x: w.0, pos_y: w.1, ..p2 }) by {
            reveal(clamp_spec);
        }
        let e = self.apply_margins();
        let ghost p4 = self@;
        self.wall_ticks = self.wall_ticks + 1;
        let ghost p5 = self@;
        assert(p5 == PetView { wall_ticks: (p4.wall_ticks + 1) as u32, ..p4 });
        self.wall_bump();
        assert((self@, effects_view(e@)) == step_wall_spec(p2, nx, ny)) by {
            reveal(step_wall_spec);
        }
        e
    }

    fn wall_bump(&mut self)
        requires
            wf(PetView { wall_ticks: 0, ..old(self)@ }),
            old(self).wall_ticks <= WALL_SLIDE_MAX,
        ensures
            final(self)@ == wall_after(old(self)@),
            wf(final(self)@),
    {
        let ghost p5 = self@;
        if self.wall_cooldown == 0 {
            self.bubble.say("a wall here - cant cross this one");
            self.wall_cooldown = WALL_COOLDOWN;
        }
        let ghost p6 = self@;
        assert(p6 == if p5.wall_cooldown == 0 {
            PetView { bubble: shown(wall_msg(), Seq::empty()), wall_cooldown: WALL_COOLDOWN, ..p5 }
        } else {
            p5
        });
        if self.wall_ticks >= WALL_SLIDE_MAX {
            self.wall_ticks = 0;
            self.pick_walk_target();
        }
        assert(self@ == wall_after(p5)) by {
            reveal(wall_after);
        }
    }

    fn face_target(&mut self)
        ensures
            final(self)@ == (PetView {
                walk_dir: facing(old(self)@),
                state: State::Walk(facing(old(self)@)),
                ..old(self)@
            }),
    {
        if self.target_x > self.pos_x {
            self.walk_dir = Direction::Right;
        } else if self.target_x < self.pos_x {
            self.walk_dir = Direction::Left;
        }
        self.animator.state = State::Walk(self.walk_dir);
    }

    fn step(&mut self, music: bool) -> (r: Vec<Effect>)
        requires
            wf(old(self)@),
        ensures
            (final(self)@, effects_view(r@)) == step_spec(old(self)@, music),
            wf(final(self)@),
    {
        let ghost p = self@;
        self.face_target();
        let step = self.cfg.walk_step;
        let nx = walk_axis(self.pos_x, self.target_x, step);
        let ny = walk_axis(self.pos_y, self.target_y, step);
        let cx = nx + SPRITE_W - MASCOT_W / 2;
        let cy = ny + SPRITE_H / 2;
        let found = output_index(&self.outputs, cx, cy);
        match found {
            Some(i) => {
                if i == self.cur_idx {
                    let r = self.step_on(nx, ny, music);
                    assert((self@, effects_view(r@)) == step_spec(p, music)) by {
                        reveal(step_spec);
                    }
                    r
                } else {
                    let r = self.step_cross(i, nx, ny, music);
                    assert((self@, effects_view(r@)) == step_spec(p, music)) by {
                        reveal(step_spec);
                    }
                    r
                }
            },
            None => {
                let r = self.step_wall(nx, ny);
                assert((self@, effects_view(r@)) == step_spec(p, music)) by {
                    reveal(step_spec);
                }
                r
            },
        }
    }

    /// At the target: park and dance when music plays, else pick the next
    /// target.
    pub fn arrive(&mut self, music: bool)
        requires
            wf(old(self)@),
        ensures
            final(self)@ == arrive_spec(old(self)@, music),
            wf(final(self)@),
    {
        proof {
            reveal(arrive_spec);
        }
        if self.pos_x == self.target_x && self.pos_y == self.target_y {
            if music {
                self.park_ticks_left = self.cfg.park_duration;
                self.animator.state = State::Jamming;
            } else {
                self.pick_walk_target();
            }
        }
    }

    fn park_tick(&mut self, music: bool)
        requires
            wf(old(self)@),
            old(self).park_ticks_left > 0,
        ensures
            final(self)@ == park_spec(old(self)@, music),
            wf(final(self)@),
    {
        let ghost p = self@;
        self.park_ticks_left = self.park_ticks_left - 1;
        if self.park_ticks_left == 0 {
            self.walk_ticks_left = self.cfg.walk_duration;
            let ghost p1 = self@;
            assert(p1 == PetView { park_ticks_left: 0, walk_ticks_left: p.cfg.walk_duration, ..p });
            self.pick_walk_target();
            if !self.always_roam && !music {
                self.stop_roam();
            }
        }
        assert(self@ == park_spec(p, music)) by {
            reveal(park_spec);
        }
    }

    fn leg_end(&mut self) -> (r: Vec<Effect>)
        requires
            wf(old(self)@),
        ensures
            (final(self)@, effects_view(r@)) == leg_end_spec(old(self)@),
            wf(final(self)@),
    {
        proof {
            reveal(leg_end_spec);
        }
        if self.always_roam {
            return self.roam_tip();
        }
        self.stop_roam();
        let r: Vec<Effect> = Vec::new();
        assert(effects_view(r@) =~= Seq::<EffectView>::empty());
        r
    }

    /// One roam tick.
    #[verifier::rlimit(40)]
    pub fn advance_walk(&mut self, music: bool) -> (r: Vec<Effect>)
        requires
            wf(old(self)@),
        ensures
            (final(self)@, effects_view(r@)) == walk_spec(old(self)@, music),
            wf(final(self)@),
    {
        let ghost p = self@;
        if self.park_ticks_left > 0 {
            self.park_tick(music);
            let r: Vec<Effect> = Vec::new();
            assert(effects_view(r@) =~= Seq::<EffectView>::empty());
            assert((self@, effects_view(r@)) == walk_spec(p, music)) by {
                reveal(walk_spec);
            }
            return r;
        }
        if !music {
            self.walk_ticks_left = if self.walk_ticks_left > 0 {
                self.walk_ticks_left - 1
            } else {
                0
            };
        }
        let ghost p1 = self@;
        if !music && self.walk_ticks_left == 0 {
            let r = self.leg_end();
            assert((self@, effects_view(r@)) == walk_spec(p, music)) by {
                reveal(walk_spec);
            }
            return r;
        }
        self.wall_cooldown = if self.wall_cooldown > 0 {
            self.wall_cooldown - 1
        } else {
            0
        };
        let ghost p2 = self@;
        assert(p2 == PetView { wall_cooldown: dec(p1.wall_cooldown), ..p1 });
        let r = self.step(music);
        assert((self@, effects_view(r@)) == walk_spec(p, music)) by {
            reveal(walk_spec);
        }
        r
    }
}

} // verus!
