//! Drawing one frame of the pet's surface: the action menu, the question
//! being typed or the speech bubble in front, and the mascot flush-right.

use vstd::prelude::*;
use crate::bubble::{
    bubble_fits, bubble_fits_check, bubble_writes, draw_bubble, paint, rect_fits, rect_fits_check,
    tick_spec, PixelWrite,
};
use crate::menu::{draw as draw_menu, menu_writes};
use crate::pet::{menu_origin_x, wf, Pet, PetView};
use crate::renderer::{blit_fits, blit_fits_check, blit_frame, blit_writes, clear, min_u};
use crate::sprites::{frame_slot, lemma_frame_is_sprite, Frame, Sprites};
use crate::text::{chars_of, string_of};

verus! {

/// What the bubble shows while a question is typed: the prompt, the text
/// so far and a cursor.
pub open spec fn prompt_text(buf: Seq<char>) -> Seq<char> {
    "ask> "@ + buf + "_"@
}

/// What is drawn in front of the mascot, whose sprite starts at x =
/// `mascot_left`: the menu (with `hover` lit) while it is open, else the
/// typing bubble while a question is typed, else the bubble when visible.
pub open spec fn overlay_writes(p: PetView, stride: int, mascot_left: usize, hover: Option<usize>) -> Seq<
    PixelWrite,
> {
    if p.menu_open {
        menu_writes(stride, 222, hover)
    } else if p.input_mode {
        bubble_writes(stride, prompt_text(p.input_buf), Seq::empty(), mascot_left)
    } else if p.bubble.visible {
        bubble_writes(stride, p.bubble.tip, p.bubble.joke, mascot_left)
    } else {
        Seq::empty()
    }
}

/// The overlay's pixel offsets fit in `usize`.
pub open spec fn overlay_fits(p: PetView, stride: usize, mascot_left: usize) -> bool {
    if p.menu_open {
        rect_fits(stride, 222, 8, 104, 103)
    } else if p.input_mode {
        bubble_fits(stride, prompt_text(p.input_buf), Seq::empty(), mascot_left)
    } else if p.bubble.visible {
        bubble_fits(stride, p.bubble.tip, p.bubble.joke, mascot_left)
    } else {
        true
    }
}

/// The sprite for the pet's pose.
pub open spec fn shown_frame(p: PetView, frames: Seq<Frame>) -> Frame {
    frames[frame_slot(p.state, p.anim_tick)]
}

/// Where a frame starts when it sits flush-right in a `w`-wide surface.
pub open spec fn flush_right(w: u32, f: Frame) -> usize {
    if w >= f.width {
        (w - f.width) as usize
    } else {
        0
    }
}

/// A frame of a `w` by `h` surface fits in `usize` offsets.
pub open spec fn draw_fits(p: PetView, frames: Seq<Frame>, w: u32, h: u32) -> bool {
    let f = shown_frame(p, frames);
    let x = flush_right(w, f);
    let stride = (w * 4) as usize;
    &&& w * 4 <= usize::MAX
    &&& overlay_fits(p, stride, x)
    &&& blit_fits(
        stride,
        f.width as usize,
        f.height as usize,
        x,
        min_u(f.height as usize, h as usize),
        min_u(f.width as usize, w as usize),
    )
}

/// The surface after drawing: cleared, the overlay, then the mascot.
pub open spec fn scene_spec(p: PetView, frames: Seq<Frame>, w: u32, h: u32, len: nat, hover: Option<usize>) -> Seq<
    u8,
> {
    let f = shown_frame(p, frames);
    let x = flush_right(w, f);
    let stride = w * 4;
    paint(
        paint(Seq::new(len, |i: int| 0u8), overlay_writes(p, stride, x, hover)),
        blit_writes(
            stride,
            f.width as int,
            f.data@,
            x as int,
            min_u(f.height as usize, h as usize) as nat,
            min_u(f.width as usize, w as usize) as nat,
        ),
    )
}

impl Pet {
    /// Whether a frame of a `w` by `h` surface can be drawn.
    pub fn can_draw(&self, w: u32, h: u32, sprites: &Sprites) -> (r: bool)
        requires
            sprites.complete(),
        ensures
            r == draw_fits(self@, sprites.frames_view(), w, h),
    {
        let stride = match (w as usize).checked_mul(4) {
            Some(s) => s,
            None => {
                return false;
            },
        };
        let name = self.animator.current_frame();
        proof {
            lemma_frame_is_sprite(self.animator.state, self.animator.tick);
        }
        let frame = sprites.get(name);
        let x = if w >= frame.width {
            (w - frame.width) as usize
        } else {
            0
        };
        let overlay = if self.menu_open {
            rect_fits_check(stride, menu_origin_x(), 8, 104, 103)
        } else if self.input_mode {
            let text = self.prompt();
            proof {
                reveal_strlit("");
                assert(""@ =~= Seq::<char>::empty());
            }
            bubble_fits_check(stride, text.as_str(), "", x)
        } else if self.bubble.visible {
            bubble_fits_check(stride, self.bubble.tip.as_str(), self.bubble.joke.as_str(), x)
        } else {
            true
        };
        let fw = frame.width as usize;
        let fh = frame.height as usize;
        let rows = if fh < h as usize {
            fh
        } else {
            h as usize
        };
        let cols = if fw < w as usize {
            fw
        } else {
            w as usize
        };
        overlay && blit_fits_check(stride, fw, fh, x, rows, cols)
    }

    fn prompt(&self) -> (r: String)
        ensures
            r@ == prompt_text(self.input_buf@),
    {
        let mut v = chars_of("ask> ");
        let mut b = self.input_buf.clone();
        let mut c = chars_of("_");
        v.append(&mut b);
        v.append(&mut c);
        string_of(&v)
    }

    /// Draws one frame into `canvas` (a `w` by `h` BGRA surface): clears
    /// it, draws the overlay, counts the bubble's timer down, and blits the
    /// mascot flush-right. `hover` is the menu row under the pointer.
    pub fn draw(&mut self, canvas: &mut [u8], w: u32, h: u32, sprites: &Sprites, hover: Option<usize>)
        requires
            sprites.complete(),
            draw_fits(old(self)@, sprites.frames_view(), w, h),
        ensures
            final(canvas)@ == scene_spec(old(self)@, sprites.frames_view(), w, h, old(canvas)@.len(), hover),
            final(self)@ == (PetView { bubble: tick_spec(old(self)@.bubble), ..old(self)@ }),
    {
        let ghost p = self@;
        let ghost n = canvas@.len();
        let stride = (w as usize) * 4;
        clear(canvas);
        assert(canvas@ =~= Seq::new(n, |i: int| 0u8));
        let name = self.animator.current_frame();
        proof {
            lemma_frame_is_sprite(self.animator.state, self.animator.tick);
        }
        let frame = sprites.get(name);
        let x = if w >= frame.width {
            (w - frame.width) as usize
        } else {
            0
        };
        if self.menu_open {
            draw_menu(canvas, stride, menu_origin_x(), hover);
        } else if self.input_mode {
            let text = self.prompt();
            proof {
                reveal_strlit("");
                assert(""@ =~= Seq::<char>::empty());
            }
            draw_bubble(canvas, stride, text.as_str(), "", x);
        } else if self.bubble.visible {
            draw_bubble(canvas, stride, self.bubble.tip.as_str(), self.bubble.joke.as_str(), x);
        }
        self.bubble.tick();
        blit_frame(canvas, w, h, stride, frame, x);
    }
}

} // verus!
