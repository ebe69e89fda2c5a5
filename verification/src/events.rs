//! The pet's reactions to things that happen outside a tick: control
//! commands, model replies, taps on the pet and its menu, typing a
//! question, dragging, the user going away and coming back, and outputs
//! appearing or disappearing.

use vstd::prelude::*;
use crate::bubble::{shown, BubbleView, BUBBLE_TICKS};
use crate::control::{ControlEvent, EventView};
use crate::geometry::{
    infos_ok, lemma_sorted_ok, lemma_sort_layout, lemma_usable_ok, max_i, outputs_ok, sort_layout,
    sort_outputs, usable_from, usable_outputs, OutputInfo, Rect, GEOM_LIM, MARGIN, POS_LIM,
};
use crate::llm::{BubbleUpdate, UpdateView};
use crate::menu::{actions, MenuAction, ITEM_COUNT};
use crate::pet::{
    effects_view, parse_state, parse_state_spec, pin_spec, wf, Effect, EffectView, Pet, PetView,
    FORCE_TICKS,
};
use crate::sprites::State;
use crate::text::{chars_of, control_char, is_control, string_of, trim, trim_vec};

verus! {

/// Keysym of the Escape key.
pub const KEY_ESCAPE: u32 = 0xff1b;
/// Keysym of the Return key.
pub const KEY_RETURN: u32 = 0xff0d;
/// Keysym of the keypad Enter key.
pub const KEY_KP_ENTER: u32 = 0xff8d;
/// Keysym of the BackSpace key.
pub const KEY_BACKSPACE: u32 = 0xff08;

/// The bubble after an update: a tip and joke replace the content and
/// restart the timer (visibility unchanged); plain text is said.
pub open spec fn update_bubble(b: BubbleView, u: UpdateView) -> BubbleView {
    match u {
        UpdateView::TipJoke { tip, joke } => BubbleView { tip, joke, ticks_left: BUBBLE_TICKS, ..b },
        UpdateView::Plain(t) => shown(t, Seq::empty()),
    }
}

/// What summoning says.
pub open spec fn summon_msg() -> Seq<char> {
    "hi! ask me:  linuxpal-ctl ask \"...\""@
}

/// The pet forcing state `s` for `FORCE_TICKS` ticks.
pub open spec fn forced(p: PetView, s: State) -> PetView {
    PetView { force_state: Some(s), force_ticks_left: FORCE_TICKS, ..p }
}

/// The reaction to a control command: summon waves (Happy, ending a
/// pending greeting), say shows the text, ask shows the loading bubble and
/// asks, morning runs the routine, a state name forces that state (an
/// unknown name is reported in the bubble), quit exits.
pub open spec fn control_spec(p: PetView, ev: EventView) -> (PetView, Seq<EffectView>) {
    match ev {
        EventView::Summon => (
            PetView { bubble: shown(summon_msg(), Seq::empty()), greet_ticks_left: 0, ..forced(p, State::Happy) },
            Seq::empty(),
        ),
        EventView::Say(m) => (PetView { bubble: shown(m, Seq::empty()), ..p }, Seq::empty()),
        EventView::Ask(q) => (
            PetView { bubble: shown("thinking..."@, "thinking..."@), ..p },
            seq![EffectView::QueryAsk(q)],
        ),
        EventView::Morning => (p, seq![EffectView::RunMorning]),
        EventView::SetState(name) => match parse_state_spec(name) {
            Some(s) => (forced(p, s), Seq::empty()),
            None => (PetView { bubble: shown("unknown state: "@ + name, Seq::empty()), ..p }, Seq::empty()),
        },
        EventView::Quit => (p, seq![EffectView::Quit]),
    }
}

/// Starting to type a question: empty buffer, menu closed, keyboard
/// grabbed.
pub open spec fn begin_input_spec(p: PetView) -> (PetView, Seq<EffectView>) {
    (
        PetView { input_mode: true, input_buf: Seq::empty(), menu_open: false, ..p },
        seq![EffectView::SetKeyboard(true)],
    )
}

/// Abandoning the question: empty buffer, keyboard released.
pub open spec fn cancel_input_spec(p: PetView) -> (PetView, Seq<EffectView>) {
    (PetView { input_mode: false, input_buf: Seq::empty(), ..p }, seq![EffectView::SetKeyboard(false)])
}

/// Submitting the question: keyboard released, and unless the trimmed
/// question is empty, the loading bubble and the question.
pub open spec fn submit_input_spec(p: PetView) -> (PetView, Seq<EffectView>) {
    let q = trim(p.input_buf);
    let p1 = PetView { input_mode: false, input_buf: Seq::empty(), ..p };
    if q.len() == 0 {
        (p1, seq![EffectView::SetKeyboard(false)])
    } else {
        (
            PetView { bubble: shown("thinking..."@, "thinking..."@), ..p1 },
            seq![EffectView::SetKeyboard(false), EffectView::QueryAsk(q)],
        )
    }
}

/// The effect of a menu row's action.
pub open spec fn menu_action_spec(p: PetView, a: MenuAction) -> (PetView, Seq<EffectView>) {
    match a {
        MenuAction::Morning => (p, seq![EffectView::RunMorning]),
        MenuAction::Terminal => (p, seq![EffectView::Launch("kitty"@)]),
        MenuAction::Browser => (p, seq![EffectView::Launch("zen-browser"@)]),
        MenuAction::Ask => begin_input_spec(p),
        MenuAction::Quit => (p, seq![EffectView::Quit]),
    }
}

/// A tap on the pet; `row` is the menu row under the tap, if any. While
/// typing, a tap abandons the question; with the menu open, a tap on a row
/// runs its action and any tap closes the menu; otherwise the menu opens
/// in place of the bubble.
pub open spec fn tap_spec(p: PetView, row: Option<usize>) -> (PetView, Seq<EffectView>) {
    if p.input_mode {
        cancel_input_spec(p)
    } else if p.menu_open {
        let (q, e) = match row {
            Some(i) => if i < ITEM_COUNT {
                menu_action_spec(p, actions()[i as int])
            } else {
                (p, Seq::empty())
            },
            None => (p, Seq::empty()),
        };
        (PetView { menu_open: false, ..q }, e)
    } else {
        (PetView { menu_open: true, bubble: BubbleView { visible: false, ..p.bubble }, ..p }, Seq::empty())
    }
}

/// The characters a key press adds to the question: those of its text
/// that are not control characters.
pub open spec fn typed(text: Seq<char>) -> Seq<char> {
    text.filter(|c: char| !control_char(c))
}

/// A key press while typing: Escape abandons, Return or keypad Enter
/// submits, BackSpace removes the last character, any other key adds its
/// text. Outside typing, keys are ignored.
pub open spec fn key_spec(p: PetView, keysym: u32, text: Option<Seq<char>>) -> (PetView, Seq<EffectView>) {
    if !p.input_mode {
        (p, Seq::empty())
    } else if keysym == KEY_ESCAPE {
        cancel_input_spec(p)
    } else if keysym == KEY_RETURN || keysym == KEY_KP_ENTER {
        submit_input_spec(p)
    } else if keysym == KEY_BACKSPACE {
        (
            PetView {
                input_buf: if p.input_buf.len() > 0 {
                    p.input_buf.drop_last()
                } else {
                    p.input_buf
                },
                ..p
            },
            Seq::empty(),
        )
    } else {
        match text {
            Some(t) => (PetView { input_buf: p.input_buf + typed(t), ..p }, Seq::empty()),
            None => (p, Seq::empty()),
        }
    }
}

/// The margins after a drag by (`dx`, `dy`), never negative.
pub open spec fn dragged(p: PetView, dx: i32, dy: i32) -> (i32, i32) {
    (max_i((p.margin_left + dx) as i32, 0), max_i((p.margin_top + dy) as i32, 0))
}

/// A drag keeps the pet within the position bound.
pub open spec fn drag_fits(p: PetView, dx: i32, dy: i32) -> bool {
    &&& -POS_LIM <= dx <= POS_LIM
    &&& -POS_LIM <= dy <= POS_LIM
    &&& dragged(p, dx, dy).0 <= POS_LIM - GEOM_LIM
    &&& dragged(p, dx, dy).1 <= POS_LIM - GEOM_LIM
}

/// Moving the surface by a drag: new margins, the position follows them on
/// the current output, and the surface moves.
pub open spec fn drag_spec(p: PetView, dx: i32, dy: i32) -> (PetView, Seq<EffectView>) {
    let (ml, mt) = dragged(p, dx, dy);
    let q = if p.cur_idx < p.outputs.len() {
        let g = p.outputs[p.cur_idx as int];
        PetView { margin_left: ml, margin_top: mt, pos_x: (g.x + ml) as i32, pos_y: (g.y + mt) as i32, ..p }
    } else {
        PetView { margin_left: ml, margin_top: mt, ..p }
    };
    (q, seq![EffectView::SetMargins { top: mt, left: ml }])
}

/// A new non-empty layout `o` installed: the current index reset when out
/// of range, and the position placed on the current output the first
/// time.
#[verifier::opaque]
pub open spec fn layout_spec(p: PetView, o: Seq<Rect>) -> PetView {
    let c: usize = if p.cur_idx >= o.len() {
        0
    } else {
        p.cur_idx
    };
    let q = PetView { outputs: o, cur_idx: c, ..p };
    if !p.pos_init {
        PetView {
            pos_x: (o[c as int].x + MARGIN) as i32,
            pos_y: (o[c as int].y + MARGIN) as i32,
            pos_init: true,
            ..q
        }
    } else {
        q
    }
}

/// The layout rebuilt from the outputs' reports: nothing changes when none
/// is usable; otherwise the usable ones are installed in layout order.
pub open spec fn rebuild_spec(p: PetView, infos: Seq<OutputInfo>) -> PetView {
    let u = usable_outputs(infos);
    if u.len() == 0 {
        p
    } else {
        layout_spec(p, sort_layout(u))
    }
}

/// The current surface closed (its output went away): rebuild the layout;
/// with no output left, exit; else re-pin to the first output, near its
/// corner.
pub open spec fn closed_spec(p: PetView, infos: Seq<OutputInfo>) -> (PetView, Seq<EffectView>) {
    let q = rebuild_spec(p, infos);
    if q.outputs.len() == 0 {
        (q, seq![EffectView::Quit])
    } else {
        let g = q.outputs[0];
        pin_spec(PetView { cur_idx: 0, pos_x: (g.x + MARGIN) as i32, pos_y: (g.y + MARGIN) as i32, ..q }, 0)
    }
}

impl Pet {
    /// Shows an update from the model (or a status line) in the bubble.
    pub fn apply_update(&mut self, u: &BubbleUpdate)
        requires
            wf(old(self)@),
        ensures
            final(self)@ == (PetView { bubble: update_bubble(old(self)@.bubble, u@), ..old(self)@ }),
            wf(final(self)@),
    {
        match u {
            BubbleUpdate::TipJoke { tip, joke } => self.bubble.update(tip.as_str(), joke.as_str()),
            BubbleUpdate::Plain(t) => self.bubble.say(t.as_str()),
        }
    }

    /// Acts on a command from the control socket.
    pub fn handle_control(&mut self, ev: &ControlEvent) -> (r: Vec<Effect>)
        requires
            wf(old(self)@),
        ensures
            (final(self)@, effects_view(r@)) == control_spec(old(self)@, ev@),
            wf(final(self)@),
    {
        match ev {
            ControlEvent::Summon => {
                self.bubble.say("hi! ask me:  linuxpal-ctl ask \"...\"");
                self.force(State::Happy);
                self.greet_ticks_left = 0;
                let r: Vec<Effect> = Vec::new();
                assert(effects_view(r@) =~= Seq::<EffectView>::empty());
                r
            },
            ControlEvent::Say(msg) => {
                self.bubble.say(msg.as_str());
                let r: Vec<Effect> = Vec::new();
                assert(effects_view(r@) =~= Seq::<EffectView>::empty());
                r
            },
            ControlEvent::Ask(q) => {
                self.bubble.show_loading();
                let r = vec![Effect::QueryAsk(q.clone())];
                assert(effects_view(r@) =~= seq![EffectView::QueryAsk(q@)]);
                r
            },
            ControlEvent::Morning => {
                let r = vec![Effect::RunMorning];
                assert(effects_view(r@) =~= seq![EffectView::RunMorning]);
                r
            },
            ControlEvent::SetState(name) => {
                match parse_state(name.as_str()) {
                    Some(s) => self.force(s),
                    None => {
                        let mut m = chars_of("unknown state: ");
                        let mut n = chars_of(name.as_str());
                        m.append(&mut n);
                        let text = string_of(&m);
                        self.bubble.say(text.as_str());
                    },
                }
                let r: Vec<Effect> = Vec::new();
                assert(effects_view(r@) =~= Seq::<EffectView>::empty());
                r
            },
            ControlEvent::Quit => {
                let r = vec![Effect::Quit];
                assert(effects_view(r@) =~= seq![EffectView::Quit]);
                r
            },
        }
    }

    /// Starts typing a question: clears the buffer and grabs the keyboard.
    pub fn begin_input(&mut self) -> (r: Vec<Effect>)
        requires
            wf(old(self)@),
        ensures
            (final(self)@, effects_view(r@)) == begin_input_spec(old(self)@),
            wf(final(self)@),
    {
        self.input_mode = true;
        self.input_buf.clear();
        self.menu_open = false;
        let r = vec![Effect::SetKeyboard(true)];
        assert(effects_view(r@) =~= seq![EffectView::SetKeyboard(true)]);
        r
    }

    /// Abandons the question.
    pub fn cancel_input(&mut self) -> (r: Vec<Effect>)
        requires
            wf(old(self)@),
        ensures
            (final(self)@, effects_view(r@)) == cancel_input_spec(old(self)@),
            wf(final(self)@),
    {
        self.input_mode = false;
        self.input_buf.clear();
        let r = vec![Effect::SetKeyboard(false)];
        assert(effects_view(r@) =~= seq![EffectView::SetKeyboard(false)]);
        r
    }

    /// Submits the typed question (trimmed), unless it is empty.
    pub fn submit_input(&mut self) -> (r: Vec<Effect>)
        requires
            wf(old(self)@),
        ensures
            (final(self)@, effects_view(r@)) == submit_input_spec(old(self)@),
            wf(final(self)@),
    {
        let q = trim_vec(&self.input_buf);
        self.input_mode = false;
        self.input_buf.clear();
        let mut r = vec![Effect::SetKeyboard(false)];
        if q.len() > 0 {
            self.bubble.show_loading();
            r.push(Effect::QueryAsk(string_of(&q)));
            assert(effects_view(r@) =~= seq![EffectView::SetKeyboard(false), EffectView::QueryAsk(q@)]);
        } else {
            assert(effects_view(r@) =~= seq![EffectView::SetKeyboard(false)]);
        }
        r
    }

    /// Runs the action behind a menu row.
    pub fn do_menu_action(&mut self, a: MenuAction) -> (r: Vec<Effect>)
        requires
            wf(old(self)@),
        ensures
            (final(self)@, effects_view(r@)) == menu_action_spec(old(self)@, a),
            wf(final(self)@),
    {
        match a {
            MenuAction::Morning => {
                let r = vec![Effect::RunMorning];
                assert(effects_view(r@) =~= seq![EffectView::RunMorning]);
                r
            },
            MenuAction::Terminal => {
                let c = string_of(&chars_of("kitty"));
                let r = vec![Effect::Launch(c)];
                assert(effects_view(r@) =~= seq![EffectView::Launch("kitty"@)]);
                r
            },
            MenuAction::Browser => {
                let c = string_of(&chars_of("zen-browser"));
                let r = vec![Effect::Launch(c)];
                assert(effects_view(r@) =~= seq![EffectView::Launch("zen-browser"@)]);
                r
            },
            MenuAction::Ask => self.begin_input(),
            MenuAction::Quit => {
                let r = vec![Effect::Quit];
                assert(effects_view(r@) =~= seq![EffectView::Quit]);
                r
            },
        }
    }

    /// A tap on the pet; `row` is the menu row under it, if any.
    pub fn handle_tap(&mut self, row: Option<usize>) -> (r: Vec<Effect>)
        requires
            wf(old(self)@),
        ensures
            (final(self)@, effects_view(r@)) == tap_spec(old(self)@, row),
            wf(final(self)@),
    {
        if self.input_mode {
            return self.cancel_input();
        }
        if self.menu_open {
            let r = match row {
                Some(i) => match crate::menu::action(i) {
                    Some(a) => self.do_menu_action(a),
                    None => {
                        let r: Vec<Effect> = Vec::new();
                        assert(effects_view(r@) =~= Seq::<EffectView>::empty());
                        r
                    },
                },
                None => {
                    let r: Vec<Effect> = Vec::new();
                    assert(effects_view(r@) =~= Seq::<EffectView>::empty());
                    r
                },
            };
            self.menu_open = false;
            r
        } else {
            self.menu_open = true;
            self.bubble.visible = false;
            let r: Vec<Effect> = Vec::new();
            assert(effects_view(r@) =~= Seq::<EffectView>::empty());
            r
        }
    }

    fn type_text(&mut self, t: &str)
        requires
            wf(old(self)@),
            old(self).input_buf@.len() + t@.len() <= usize::MAX,
        ensures
            final(self)@ == (PetView { input_buf: old(self).input_buf@ + typed(t@), ..old(self)@ }),
            wf(final(self)@),
    {
        let cs = chars_of(t);
        let ghost p = self@;
        let mut i: usize = 0;
        while i < cs.len()
            invariant
                i <= cs@.len(),
                cs@ == t@,
                self@ == (PetView { input_buf: p.input_buf + typed(cs@.take(i as int)), ..p }),
                p.input_buf.len() + cs@.len() <= usize::MAX,
                wf(p),
            decreases cs@.len() - i,
        {
            let c = cs[i];
            proof {
                let s = cs@.take(i as int);
                assert(cs@.take(i + 1) =~= s.push(c));
                s.lemma_filter_push(c, |x: char| !control_char(x));
                s.lemma_filter_len(|x: char| !control_char(x));
            }
            if !is_control(c) {
                self.input_buf.push(c);
            }
            proof {
                let s = cs@.take(i as int);
                assert(self.input_buf@ =~= p.input_buf + typed(cs@.take(i + 1)));
            }
            i = i + 1;
        }
        assert(cs@.take(cs@.len() as int) =~= cs@);
    }

    /// A key press, with the text it produces (if any).
    pub fn press_key(&mut self, keysym: u32, text: Option<&str>) -> (r: Vec<Effect>)
        requires
            wf(old(self)@),
            old(self).input_buf@.len() + (match text {
                Some(t) => t@.len(),
                None => 0,
            }) <= usize::MAX,
        ensures
            (final(self)@, effects_view(r@)) == key_spec(
                old(self)@,
                keysym,
                match text {
                    Some(t) => Some(t@),
                    None => None,
                },
            ),
            wf(final(self)@),
    {
        if !self.input_mode {
            let r: Vec<Effect> = Vec::new();
            assert(effects_view(r@) =~= Seq::<EffectView>::empty());
            return r;
        }
        if keysym == KEY_ESCAPE {
            return self.cancel_input();
        }
        if keysym == KEY_RETURN || keysym == KEY_KP_ENTER {
            return self.submit_input();
        }
        if keysym == KEY_BACKSPACE {
            self.input_buf.pop();
            let r: Vec<Effect> = Vec::new();
            assert(effects_view(r@) =~= Seq::<EffectView>::empty());
            return r;
        }
        match text {
            Some(t) => self.type_text(t),
            None => {},
        }
        let r: Vec<Effect> = Vec::new();
        assert(effects_view(r@) =~= Seq::<EffectView>::empty());
        r
    }

    /// Keyboard focus lost: a question being typed is abandoned.
    pub fn keyboard_leave(&mut self) -> (r: Vec<Effect>)
        requires
            wf(old(self)@),
        ensures
            (final(self)@, effects_view(r@)) == (if old(self).input_mode {
                cancel_input_spec(old(self)@)
            } else {
                (old(self)@, Seq::empty())
            }),
            wf(final(self)@),
    {
        if self.input_mode {
            self.cancel_input()
        } else {
            let r: Vec<Effect> = Vec::new();
            assert(effects_view(r@) =~= Seq::<EffectView>::empty());
            r
        }
    }

    /// The user went idle (away).
    pub fn user_idled(&mut self)
        ensures
            final(self)@ == (PetView { user_idle: true, ..old(self)@ }),
    {
        self.user_idle = true;
    }

    /// Input resumed: only a return after being away counts as one.
    pub fn user_resumed(&mut self)
        ensures
            final(self)@ == (PetView {
                idle_returned: old(self).idle_returned || old(self).user_idle,
                user_idle: false,
                ..old(self)@
            }),
    {
        if self.user_idle {
            self.idle_returned = true;
        }
        self.user_idle = false;
    }

    /// Whether a drag by (`dx`, `dy`) keeps the pet within the position
    /// bound.
    pub fn can_drag(&self, dx: i32, dy: i32) -> (r: bool)
        requires
            wf(self@),
        ensures
            r == drag_fits(self@, dx, dy),
    {
        if dx < -POS_LIM || dx > POS_LIM || dy < -POS_LIM || dy > POS_LIM {
            return false;
        }
        let ml = crate::geometry::max32(self.margin_left + dx, 0);
        let mt = crate::geometry::max32(self.margin_top + dy, 0);
        ml <= POS_LIM - GEOM_LIM && mt <= POS_LIM - GEOM_LIM
    }

    /// Moves the surface by a pointer drag of (`dx`, `dy`).
    pub fn drag_by(&mut self, dx: i32, dy: i32) -> (r: Vec<Effect>)
        requires
            wf(old(self)@),
            drag_fits(old(self)@, dx, dy),
        ensures
            (final(self)@, effects_view(r@)) == drag_spec(old(self)@, dx, dy),
            wf(final(self)@),
    {
        self.margin_left = crate::geometry::max32(self.margin_left + dx, 0);
        self.margin_top = crate::geometry::max32(self.margin_top + dy, 0);
        if self.cur_idx < self.outputs.len() {
            let g = self.outputs[self.cur_idx];
            proof {
                crate::geometry::lemma_outputs_ok(self.outputs@, self.cur_idx as int);
            }
            self.pos_x = g.x + self.margin_left;
            self.pos_y = g.y + self.margin_top;
        }
        let r = vec![Effect::SetMargins { top: self.margin_top, left: self.margin_left }];
        assert(effects_view(r@) =~= seq![EffectView::SetMargins { top: self.margin_top, left: self.margin_left }]);
        r
    }

    fn set_layout(&mut self, o: Vec<Rect>)
        requires
            wf(old(self)@),
            outputs_ok(o@),
            o@.len() > 0,
        ensures
            final(self)@ == layout_spec(old(self)@, o@),
            wf(final(self)@),
    {
        proof {
            reveal(layout_spec);
        }
        self.outputs = o;
        if self.cur_idx >= self.outputs.len() {
            self.cur_idx = 0;
        }
        if !self.pos_init {
            let g = self.outputs[self.cur_idx];
            proof {
                crate::geometry::lemma_outputs_ok(self.outputs@, self.cur_idx as int);
            }
            self.pos_x = g.x + MARGIN;
            self.pos_y = g.y + MARGIN;
            self.pos_init = true;
        }
    }

    /// Rebuilds the output layout from the outputs' reports.
    pub fn rebuild_outputs(&mut self, infos: &Vec<OutputInfo>)
        requires
            wf(old(self)@),
            infos_ok(infos@),
        ensures
            final(self)@ == rebuild_spec(old(self)@, infos@),
            wf(final(self)@),
    {
        let v = usable_from(infos);
        if v.len() == 0 {
            return;
        }
        let sorted = sort_outputs(&v);
        proof {
            lemma_usable_ok(infos@);
            lemma_sorted_ok(v@);
            lemma_sort_layout(v@);
        }
        self.set_layout(sorted);
    }

    /// The current surface closed: rebuilds the layout and re-pins to the
    /// first output, or exits when none is left.
    pub fn surface_closed(&mut self, infos: &Vec<OutputInfo>) -> (r: Vec<Effect>)
        requires
            wf(old(self)@),
            infos_ok(infos@),
        ensures
            (final(self)@, effects_view(r@)) == closed_spec(old(self)@, infos@),
            wf(final(self)@),
    {
        self.rebuild_outputs(infos);
        if self.outputs.len() == 0 {
            let r = vec![Effect::Quit];
            assert(effects_view(r@) =~= seq![EffectView::Quit]);
            return r;
        }
        let g = self.outputs[0];
        proof {
            crate::geometry::lemma_outputs_ok(self.outputs@, 0);
        }
        self.cur_idx = 0;
        self.pos_x = g.x + MARGIN;
        self.pos_y = g.y + MARGIN;
        self.pin_to(0)
    }
}

} // verus!
