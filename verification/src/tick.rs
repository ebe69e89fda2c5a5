//! The per-tick decisions: timers, mood, debounce and the tick itself.

use vstd::prelude::*;
use crate::bubble::shown;
use crate::context::{media_applies, resolve_state};
use crate::ipc::WindowContext;
use crate::pet::{
    commit_spec, companion_spec, context_str, decide_spec, effects_view, greet_spec, hold_spec,
    immediate, inc, mood_spec, roam_due, route_spec, settle_spec, show_spec, stable_spec,
    streak_spec, stroll_due, sync_spec, thinking_spec, timers_spec, welcome_msg, welcome_spec, wf, Effect, EffectView, Pet, PetView,
    FORCE_TICKS, STATE_DEBOUNCE,
};
use crate::sprites::State;
use crate::text::{chars_of, string_of};

verus! {

/// The prompt context for a window: its class, and ` - title` when it has
/// a title.
pub fn context_string(ctx: &WindowContext) -> (r: Vec<char>)
    ensures
        r@ == context_str(ctx.class@, ctx.title@),
{
    let class = chars_of(ctx.class.as_str());
    let title = chars_of(ctx.title.as_str());
    if title.len() == 0 {
        return class;
    }
    let mut v = class;
    let mut sep = chars_of(" - ");
    let mut t = title;
    v.append(&mut sep);
    v.append(&mut t);
    v
}

impl Pet {
    fn commit(&mut self, eff: State, ctx: &Vec<char>) -> (r: Vec<Effect>)
        requires
            wf(old(self)@),
        ensures
            wf(final(self)@),
            (final(self)@, effects_view(r@)) == commit_spec(old(self)@, eff, ctx@),
    {
        proof {
            reveal(commit_spec);
        }
        let r = match eff {
            State::Walk(_) => {
                let r: Vec<Effect> = Vec::new();
                assert(effects_view(r@) =~= Seq::<EffectView>::empty());
                r
            },
            _ => {
                self.bubble.show_loading();
                let r = vec![Effect::QueryTip { context: string_of(ctx), state: eff }];
                assert(effects_view(r@) =~= seq![EffectView::QueryTip { context: ctx@, state: eff }]);
                r
            },
        };
        self.animator.set(eff);
        self.pending_state = None;
        self.pending_count = 0;
        r
    }

    /// Shows state `eff`, at once when it is immediate, else after the
    /// debounce.
    pub fn show_state(&mut self, eff: State, ctx: &Vec<char>) -> (r: Vec<Effect>)
        requires
            wf(old(self)@),
        ensures
            (final(self)@, effects_view(r@)) == show_spec(old(self)@, eff, ctx@),
            wf(final(self)@),
    {
        proof {
            reveal(show_spec);
        }
        if eff == self.animator.state {
            self.pending_state = None;
            self.pending_count = 0;
            let r: Vec<Effect> = Vec::new();
            assert(effects_view(r@) =~= Seq::<EffectView>::empty());
            return r;
        }
        let imm = match eff {
            State::Walk(_) => true,
            State::Jamming => true,
            State::Cozy => true,
            _ => false,
        };
        assert(imm == immediate(eff));
        if imm {
            return self.commit(eff, ctx);
        }
        if self.pending_state == Some(eff) {
            if self.pending_count + 1 >= STATE_DEBOUNCE {
                return self.commit(eff, ctx);
            }
            self.pending_count = self.pending_count + 1;
        } else {
            self.pending_state = Some(eff);
            self.pending_count = 1;
        }
        let r: Vec<Effect> = Vec::new();
        assert(effects_view(r@) =~= Seq::<EffectView>::empty());
        r
    }

    fn decide(&mut self, base: State, mood: State, music: bool, ctx: &Vec<char>) -> (r: Vec<Effect>)
        requires
            wf(old(self)@),
        ensures
            (final(self)@, effects_view(r@)) == decide_spec(old(self)@, base, mood, music, ctx@),
            wf(final(self)@),
    {
        let ghost p = self@;
        let trigger = self.stable_ticks >= self.cfg.walk_every && self.stable_ticks % self.cfg.walk_every
            == 0;
        let go = trigger && (music || base == State::Idle || base == State::Working);
        assert(go == stroll_due(p, base, music)) by {
            reveal(roam_due);
        }
        let r = if go {
            let s = self.begin_roam();
            self.show_state(s, ctx)
        } else {
            self.show_state(mood, ctx)
        };
        assert((self@, effects_view(r@)) == decide_spec(p, base, mood, music, ctx@)) by {
            reveal(decide_spec);
        }
        r
    }

    /// The pose for the main-screen context.
    pub fn mood_state(&self, base: State, music: bool, video: bool) -> (r: State)
        ensures
            r == mood_spec(self@, base, music, video),
    {
        if music {
            State::Jamming
        } else if video {
            State::Cozy
        } else if base == State::Working && self.working_ticks >= self.cfg.coffee_after {
            State::WorkingEmpty
        } else if self.user_idle || (base == State::Idle && self.idle_ticks >= self.cfg.curious_after) {
            State::Curious
        } else {
            base
        }
    }

    fn count_streaks(&mut self, base: State)
        requires
            wf(old(self)@),
        ensures
            final(self)@ == streak_spec(old(self)@, base),
            wf(final(self)@),
    {
        proof {
            reveal(streak_spec);
        }
        if base == State::Idle {
            self.idle_ticks = self.idle_ticks.saturating_add(1);
            self.working_ticks = 0;
        } else if base == State::Working {
            self.working_ticks = self.working_ticks.saturating_add(1);
            self.idle_ticks = 0;
        } else {
            self.idle_ticks = 0;
            self.working_ticks = 0;
        }
    }

    fn count_stable(&mut self, base: State)
        requires
            wf(old(self)@),
        ensures
            final(self)@ == stable_spec(old(self)@, base),
            wf(final(self)@),
    {
        proof {
            reveal(stable_spec);
        }
        if self.last_base == Some(base) {
            self.stable_ticks = self.stable_ticks.saturating_add(1);
        } else {
            self.stable_ticks = 0;
            self.last_base = Some(base);
        }
    }

    fn route(&mut self, base: State, mood: State, music: bool, ctx: &Vec<char>) -> (r: Vec<Effect>)
        requires
            wf(old(self)@),
        ensures
            (final(self)@, effects_view(r@)) == route_spec(old(self)@, base, mood, music, ctx@),
            wf(final(self)@),
    {
        proof {
            reveal(route_spec);
        }
        if self.roaming {
            return self.advance_walk(music);
        }
        if self.always_roam {
            let ghost p = self@;
            let s = self.begin_roam();
            self.animator.set(s);
            assert(self@ == companion_spec(p)) by {
                reveal(companion_spec);
            }
            let r: Vec<Effect> = Vec::new();
            assert(effects_view(r@) =~= Seq::<EffectView>::empty());
            return r;
        }
        self.decide(base, mood, music, ctx)
    }

    fn settle(&mut self, ctx: &WindowContext, pmusic: bool, pvideo: bool, ptitle: &str, pname: &str) -> (r:
        Vec<Effect>)
        requires
            wf(old(self)@),
        ensures
            (final(self)@, effects_view(r@)) == settle_spec(
                old(self)@,
                ctx.class@,
                ctx.title@,
                pmusic,
                pvideo,
                ptitle@,
                pname@,
            ),
            wf(final(self)@),
    {
        let ghost p = self@;
        let base = resolve_state(ctx);
        let cs = context_string(ctx);
        let media_ok = media_applies(ctx, ptitle, pname);
        let music = pmusic && media_ok;
        let video = pvideo && media_ok;
        self.count_streaks(base);
        self.count_stable(base);
        let mood = self.mood_state(base, music, video);
        self.roam_mood = mood;
        self.last_ctx = cs.clone();
        let r = self.route(base, mood, music, &cs);
        assert((self@, effects_view(r@)) == settle_spec(
            p,
            ctx.class@,
            ctx.title@,
            pmusic,
            pvideo,
            ptitle@,
            pname@,
        )) by {
            reveal(settle_spec);
        }
        r
    }

    fn hold_thinking(&mut self)
        requires
            wf(old(self)@),
        ensures
            final(self)@ == thinking_spec(old(self)@),
            wf(final(self)@),
    {
        proof {
            reveal(thinking_spec);
        }
        if self.menu_open {
            self.bubble.visible = false;
        }
        if self.animator.state != State::Thinking {
            self.animator.set(State::Thinking);
        }
    }

    fn greet_tick(&mut self)
        requires
            wf(old(self)@),
            old(self).greet_ticks_left > 0,
        ensures
            final(self)@ == greet_spec(old(self)@),
            wf(final(self)@),
    {
        proof {
            reveal(greet_spec);
        }
        if !self.greeted {
            let greet = string_of(&chars_of(self.cfg.greet_msg.as_str()));
            self.bubble.say(greet.as_str());
            self.animator.set(State::Happy);
            self.greeted = true;
        }
        self.greet_ticks_left = self.greet_ticks_left - 1;
    }

    fn welcome_check(&mut self)
        requires
            wf(old(self)@),
        ensures
            final(self)@ == welcome_spec(old(self)@),
            wf(final(self)@),
    {
        proof {
            reveal(welcome_spec);
        }
        if self.idle_returned {
            self.idle_returned = false;
            if self.force_ticks_left == 0 {
                self.bubble.say("welcome back! ready when you are");
                self.force(State::Happy);
            }
        }
    }

    fn hold_forced(&mut self)
        requires
            wf(old(self)@),
            old(self).force_ticks_left > 0,
        ensures
            final(self)@ == hold_spec(old(self)@),
            wf(final(self)@),
    {
        proof {
            reveal(hold_spec);
        }
        match self.force_state {
            Some(s) => {
                if self.animator.state != s {
                    self.animator.set(s);
                }
            },
            None => {},
        }
        self.force_ticks_left = self.force_ticks_left - 1;
    }

    /// One tick of the state machine, given the deciding window and what
    /// the media players report (whether music or video plays, the track
    /// title and the player's name); returns what the shell has to do.
    pub fn sync_state(&mut self, ctx: &WindowContext, pmusic: bool, pvideo: bool, ptitle: &str, pname: &str) -> (r:
        Vec<Effect>)
        requires
            wf(old(self)@),
        ensures
            (final(self)@, effects_view(r@)) == sync_spec(
                old(self)@,
                ctx.class@,
                ctx.title@,
                pmusic,
                pvideo,
                ptitle@,
                pname@,
            ),
            wf(final(self)@),
    {
        let ghost p = self@;
        let r = if self.menu_open || self.input_mode {
            self.hold_thinking();
            Vec::new()
        } else if self.greet_ticks_left > 0 {
            self.greet_tick();
            Vec::new()
        } else {
            self.welcome_check();
            if self.force_ticks_left > 0 {
                self.hold_forced();
                Vec::new()
            } else {
                self.settle(ctx, pmusic, pvideo, ptitle, pname)
            }
        };
        assert((self@, effects_view(r@)) == sync_spec(
            p,
            ctx.class@,
            ctx.title@,
            pmusic,
            pvideo,
            ptitle@,
            pname@,
        )) by {
            reveal(sync_spec);
            assert(effects_view(Seq::<Effect>::empty()) =~= Seq::<EffectView>::empty());
        }
        r
    }

    /// Forces a state for `FORCE_TICKS` ticks.
    pub fn force(&mut self, s: State)
        ensures
            final(self)@ == (PetView { force_state: Some(s), force_ticks_left: FORCE_TICKS, ..old(self)@ }),
    {
        self.force_state = Some(s);
        self.force_ticks_left = FORCE_TICKS;
    }
}

} // verus!
