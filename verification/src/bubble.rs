//! The speech bubble: its show/hide timer, and drawing it (box, tail,
//! labels, wrapped text in a 5x7 bitmap font) into a BGRA pixel buffer.

use vstd::prelude::*;
use crate::text::{
    chars_of, first_ws, is_whitespace, is_ws, lemma_first_ws, lemma_first_ws_concat,
    lemma_first_ws_none, lemma_first_ws_props, lemma_lead_ws, lemma_utf8_len_concat, utf8_width, lemma_words_props, no_ws, slice_of,
    string_of, utf8_len, utf8_len_of, words,
};

verus! {

/// How long a bubble stays up: 8 seconds at 10 ticks per second.
pub const BUBBLE_TICKS: u64 = 80;

/// The speech bubble's content and timer.
pub struct Bubble {
    pub tip: String,
    pub joke: String,
    pub visible: bool,
    pub ticks_left: u64,
}

/// The bubble with its text as characters.
pub struct BubbleView {
    pub tip: Seq<char>,
    pub joke: Seq<char>,
    pub visible: bool,
    pub ticks_left: u64,
}

impl View for Bubble {
    type V = BubbleView;

    open spec fn view(&self) -> BubbleView {
        BubbleView {
            tip: self.tip@,
            joke: self.joke@,
            visible: self.visible,
            ticks_left: self.ticks_left,
        }
    }
}

/// The bubble one tick later: a visible bubble counts down, and hides on
/// the tick after its count reaches zero.
pub open spec fn tick_spec(b: BubbleView) -> BubbleView {
    if b.visible {
        if b.ticks_left == 0 {
            BubbleView { visible: false, ..b }
        } else {
            BubbleView { ticks_left: (b.ticks_left - 1) as u64, ..b }
        }
    } else {
        b
    }
}

/// The bubble after `n` ticks.
pub open spec fn ticks_spec(b: BubbleView, n: nat) -> BubbleView
    decreases n,
{
    if n == 0 {
        b
    } else {
        tick_spec(ticks_spec(b, (n - 1) as nat))
    }
}

/// A bubble showing `tip` and `joke` with a full timer.
pub open spec fn shown(tip: Seq<char>, joke: Seq<char>) -> BubbleView {
    BubbleView { tip, joke, visible: true, ticks_left: BUBBLE_TICKS }
}

impl Bubble {
    /// A hidden, empty bubble.
    pub fn new() -> (r: Bubble)
        ensures
            r@ == (BubbleView {
                tip: Seq::empty(),
                joke: Seq::empty(),
                visible: false,
                ticks_left: 0,
            }),
    {
        Bubble { tip: String::new(), joke: String::new(), visible: false, ticks_left: 0 }
    }

    /// Shows the bubble at once with loading placeholders.
    pub fn show_loading(&mut self)
        ensures
            final(self)@ == shown("thinking..."@, "thinking..."@),
    {
        self.tip = string_of(&chars_of("thinking..."));
        self.joke = string_of(&chars_of("thinking..."));
        self.visible = true;
        self.ticks_left = BUBBLE_TICKS;
    }

    /// Shows a one-off remark (no joke line).
    pub fn say(&mut self, msg: &str)
        ensures
            final(self)@ == shown(msg@, Seq::empty()),
    {
        self.tip = string_of(&chars_of(msg));
        self.joke = String::new();
        self.visible = true;
        self.ticks_left = BUBBLE_TICKS;
    }

    /// Replaces the content when the answer arrives and restarts the timer;
    /// visibility is unchanged.
    pub fn update(&mut self, tip: &str, joke: &str)
        ensures
            final(self)@ == (BubbleView {
                tip: tip@,
                joke: joke@,
                visible: old(self).visible,
                ticks_left: BUBBLE_TICKS,
            }),
    {
        self.tip = string_of(&chars_of(tip));
        self.joke = string_of(&chars_of(joke));
        self.ticks_left = BUBBLE_TICKS;
    }

    /// One tick of the show timer.
    pub fn tick(&mut self)
        ensures
            final(self)@ == tick_spec(old(self)@),
    {
        if self.visible {
            if self.ticks_left == 0 {
                self.visible = false;
            } else {
                self.ticks_left = self.ticks_left - 1;
            }
        }
    }
}

/// A visible bubble with `k` ticks left is still visible after `n <= k`
/// ticks, with `k - n` left.
pub proof fn lemma_countdown(b: BubbleView, n: nat)
    requires
        b.visible,
        n <= b.ticks_left,
    ensures
        ticks_spec(b, n) == (BubbleView { ticks_left: (b.ticks_left - n) as u64, ..b }),
    decreases n,
{
    if n > 0 {
        lemma_countdown(b, (n - 1) as nat);
    }
}

/// A shown bubble stays visible for exactly `BUBBLE_TICKS + 1` ticks: it is
/// visible after every tick up to `BUBBLE_TICKS`, and hidden after the next.
pub proof fn lemma_bubble_lifetime(tip: Seq<char>, joke: Seq<char>, n: nat)
    ensures
        n <= BUBBLE_TICKS ==> ticks_spec(shown(tip, joke), n).visible,
        n == BUBBLE_TICKS + 1 ==> !ticks_spec(shown(tip, joke), n).visible,
{
    if n <= BUBBLE_TICKS {
        lemma_countdown(shown(tip, joke), n);
    }
    if n == BUBBLE_TICKS + 1 {
        lemma_countdown(shown(tip, joke), BUBBLE_TICKS as nat);
    }
}

/// A shown bubble (after `say` or `show_loading`) is visible after exactly
/// the first `BUBBLE_TICKS` ticks of any run of ticks, hidden from the
/// next one on, and ticking never changes its tip or joke.
pub proof fn lemma_bubble_visible_for(tip: Seq<char>, joke: Seq<char>, n: nat)
    ensures
        ticks_spec(shown(tip, joke), n).visible == (n <= BUBBLE_TICKS),
        ticks_spec(shown(tip, joke), n).tip == tip,
        ticks_spec(shown(tip, joke), n).joke == joke,
    decreases n,
{
    if n <= BUBBLE_TICKS {
        lemma_countdown(shown(tip, joke), n);
    } else if n == BUBBLE_TICKS + 1 {
        lemma_countdown(shown(tip, joke), BUBBLE_TICKS as nat);
    } else {
        lemma_bubble_visible_for(tip, joke, (n - 1) as nat);
    }
}

// ---------------------------------------------------------------------------
// Pixel buffer model

/// One pixel write: four bytes (blue, green, red, alpha) at byte `off`.
pub struct PixelWrite {
    pub off: int,
    pub b: u8,
    pub g: u8,
    pub r: u8,
    pub a: u8,
}

/// `buf` after one pixel write; a pixel whose last byte lies past the end
/// is skipped.
pub open spec fn put(buf: Seq<u8>, w: PixelWrite) -> Seq<u8> {
    if 0 <= w.off && w.off + 3 < buf.len() {
        buf.update(w.off, w.b).update(w.off + 1, w.g).update(w.off + 2, w.r).update(w.off + 3, w.a)
    } else {
        buf
    }
}

/// `buf` after the writes `ws`, in order.
pub open spec fn paint(buf: Seq<u8>, ws: Seq<PixelWrite>) -> Seq<u8>
    decreases ws.len(),
{
    if ws.len() == 0 {
        buf
    } else {
        put(paint(buf, ws.drop_last()), ws.last())
    }
}

/// Painting two write lists is painting one after the other.
pub proof fn lemma_paint_concat(buf: Seq<u8>, a: Seq<PixelWrite>, b: Seq<PixelWrite>)
    ensures
        paint(buf, a + b) == paint(paint(buf, a), b),
    decreases b.len(),
{
    if b.len() == 0 {
        assert(a + b =~= a);
    } else {
        lemma_paint_concat(buf, a, b.drop_last());
        assert((a + b).drop_last() =~= a + b.drop_last());
    }
}

/// Painting keeps the buffer's length.
pub proof fn lemma_paint_len(buf: Seq<u8>, ws: Seq<PixelWrite>)
    ensures
        paint(buf, ws).len() == buf.len(),
    decreases ws.len(),
{
    if ws.len() > 0 {
        lemma_paint_len(buf, ws.drop_last());
    }
}

/// Write `w` lands in a buffer of `len` bytes and covers byte `i`.
pub open spec fn covers(w: PixelWrite, len: int, i: int) -> bool {
    0 <= w.off && w.off + 3 < len && w.off <= i < w.off + 4
}

/// The byte that write `w` puts at `i` (one of its four channels).
pub open spec fn byte_at(w: PixelWrite, i: int) -> u8 {
    if i == w.off {
        w.b
    } else if i == w.off + 1 {
        w.g
    } else if i == w.off + 2 {
        w.r
    } else {
        w.a
    }
}

/// What the last of `ws` that covers byte `i` puts there, if any does.
pub open spec fn last_byte(ws: Seq<PixelWrite>, len: int, i: int) -> Option<u8>
    decreases ws.len(),
{
    if ws.len() == 0 {
        None
    } else if covers(ws.last(), len, i) {
        Some(byte_at(ws.last(), i))
    } else {
        last_byte(ws.drop_last(), len, i)
    }
}

/// Byte `i` after painting is what the last covering write put there, or
/// the old byte when no write covers it.
pub proof fn lemma_paint_at(buf: Seq<u8>, ws: Seq<PixelWrite>, i: int)
    requires
        0 <= i < buf.len(),
    ensures
        paint(buf, ws)[i] == (match last_byte(ws, buf.len() as int, i) {
            Some(v) => v,
            None => buf[i],
        }),
    decreases ws.len(),
{
    if ws.len() > 0 {
        lemma_paint_at(buf, ws.drop_last(), i);
        lemma_paint_len(buf, ws.drop_last());
    }
}

/// A byte that no write covers keeps its value.
pub proof fn lemma_paint_untouched(buf: Seq<u8>, ws: Seq<PixelWrite>, i: int)
    requires
        0 <= i < buf.len(),
        forall|k: int| 0 <= k < ws.len() ==> !covers(#[trigger] ws[k], buf.len() as int, i),
    ensures
        paint(buf, ws)[i] == buf[i],
    decreases ws.len(),
{
    lemma_paint_at(buf, ws, i);
    lemma_last_byte_none(ws, buf.len() as int, i);
}

proof fn lemma_last_byte_none(ws: Seq<PixelWrite>, len: int, i: int)
    requires
        forall|k: int| 0 <= k < ws.len() ==> !covers(#[trigger] ws[k], len, i),
    ensures
        last_byte(ws, len, i) is None,
    decreases ws.len(),
{
    if ws.len() > 0 {
        assert(!covers(ws[ws.len() - 1], len, i));
        assert forall|k: int| 0 <= k < ws.drop_last().len() implies !covers(
            #[trigger] ws.drop_last()[k],
            len,
            i,
        ) by {
            assert(ws.drop_last()[k] == ws[k]);
        }
        lemma_last_byte_none(ws.drop_last(), len, i);
    }
}

/// Painting the same writes twice paints them once.
pub proof fn lemma_paint_idempotent(buf: Seq<u8>, ws: Seq<PixelWrite>)
    ensures
        paint(paint(buf, ws), ws) == paint(buf, ws),
{
    let once = paint(buf, ws);
    lemma_paint_len(buf, ws);
    lemma_paint_len(once, ws);
    assert forall|i: int| 0 <= i < buf.len() implies #[trigger] paint(once, ws)[i] == once[i] by {
        lemma_paint_at(buf, ws, i);
        lemma_paint_at(once, ws, i);
    }
    assert(paint(once, ws) =~= once);
}

/// An RGBA colour.
pub struct Rgba {
    pub r: u8,
    pub g: u8,
    pub b: u8,
    pub a: u8,
}

/// The write of colour `c` at pixel (`col`, `row`) of a buffer whose rows
/// are `stride` bytes apart.
pub open spec fn pixel(stride: int, col: int, row: int, c: Rgba) -> PixelWrite {
    PixelWrite { off: row * stride + col * 4, b: c.b, g: c.g, r: c.r, a: c.a }
}

/// Pixels `x .. x+w` of row `row`, left to right.
pub open spec fn row_writes(stride: int, x: int, row: int, w: nat, c: Rgba) -> Seq<PixelWrite>
    decreases w,
{
    if w == 0 {
        Seq::empty()
    } else {
        row_writes(stride, x, row, (w - 1) as nat, c).push(pixel(stride, x + w - 1, row, c))
    }
}

/// The `w` by `h` rectangle at (`x`, `y`), row by row.
pub open spec fn rect_writes(stride: int, x: int, y: int, w: nat, h: nat, c: Rgba) -> Seq<
    PixelWrite,
>
    decreases h,
{
    if h == 0 {
        Seq::empty()
    } else {
        rect_writes(stride, x, y, w, (h - 1) as nat, c) + row_writes(stride, x, y + h - 1, w, c)
    }
}

/// The byte offset of the pixel after the rectangle's last one fits.
pub open spec fn rect_fits(stride: usize, x: usize, y: usize, w: usize, h: usize) -> bool {
    &&& y + h <= usize::MAX
    &&& (y + h) * stride + (x + w) * 4 + 4 <= usize::MAX
}

/// The byte offset of pixel (`col`, `row`) in rows `stride` bytes apart.
pub open spec fn pixel_off(stride: int, row: int, col: int) -> int {
    row * stride + col * 4
}

/// Byte `i` is one of the four bytes of pixel (`col`, `row`).
pub open spec fn in_pixel(stride: int, row: int, col: int, i: int) -> bool {
    pixel_off(stride, row, col) <= i < pixel_off(stride, row, col) + 4
}

/// Channel `j` (blue, green, red, alpha) of colour `c`.
pub open spec fn channel(c: Rgba, j: int) -> u8 {
    if j == 0 {
        c.b
    } else if j == 1 {
        c.g
    } else if j == 2 {
        c.r
    } else {
        c.a
    }
}

proof fn lemma_row_index(stride: int, x: int, row: int, w: nat, c: Rgba, q: int)
    requires
        0 <= q < w,
    ensures
        row_writes(stride, x, row, w, c).len() == w,
        row_writes(stride, x, row, w, c)[q] == pixel(stride, x + q, row, c),
    decreases w,
{
    lemma_row_len(stride, x, row, w, c);
    if q < w - 1 {
        lemma_row_index(stride, x, row, (w - 1) as nat, c, q);
    }
}

proof fn lemma_row_len(stride: int, x: int, row: int, w: nat, c: Rgba)
    ensures
        row_writes(stride, x, row, w, c).len() == w,
    decreases w,
{
    if w > 0 {
        lemma_row_len(stride, x, row, (w - 1) as nat, c);
    }
}

proof fn lemma_rect_len(stride: int, x: int, y: int, w: nat, h: nat, c: Rgba)
    ensures
        rect_writes(stride, x, y, w, h, c).len() == w * h,
    decreases h,
{
    if h > 0 {
        lemma_rect_len(stride, x, y, w, (h - 1) as nat, c);
        lemma_row_len(stride, x, y + h - 1, w, c);
        let hm: nat = (h - 1) as nat;
        assert(rect_writes(stride, x, y, w, h, c) == rect_writes(stride, x, y, w, hm, c) + row_writes(
            stride,
            x,
            y + h - 1,
            w,
            c,
        ));
        assert(w * hm + w == w * h) by (nonlinear_arith)
            requires
                hm + 1 == h,
        ;
    } else {
        assert(w * h == 0) by (nonlinear_arith)
            requires
                h == 0,
        ;
    }
}

/// Write `r * w + q` of a rectangle is its pixel (`x + q`, `y + r`).
pub proof fn lemma_rect_index(stride: int, x: int, y: int, w: nat, h: nat, c: Rgba, r: int, q: int)
    requires
        0 <= r < h,
        0 <= q < w,
    ensures
        r * w + q < rect_writes(stride, x, y, w, h, c).len(),
        rect_writes(stride, x, y, w, h, c)[r * w + q] == pixel(stride, x + q, y + r, c),
    decreases h,
{
    lemma_rect_len(stride, x, y, w, h, c);
    lemma_rect_len(stride, x, y, w, (h - 1) as nat, c);
    assert(r * w + q < w * h) by (nonlinear_arith)
        requires
            0 <= r < h,
            0 <= q < w,
    ;
    if r < h - 1 {
        assert(r * w + q < w * (h - 1)) by (nonlinear_arith)
            requires
                0 <= r < h - 1,
                0 <= q < w,
        ;
        lemma_rect_index(stride, x, y, w, (h - 1) as nat, c, r, q);
    } else {
        assert(r * w == w * (h - 1)) by (nonlinear_arith)
            requires
                r == h - 1,
        ;
        lemma_row_index(stride, x, y + h - 1, w, c, q);
    }
}

/// Each write of a rectangle is one of its pixels, in its colour.
pub proof fn lemma_rect_write(stride: int, x: int, y: int, w: nat, h: nat, c: Rgba, k: int) -> (rc: (
    int,
    int,
))
    requires
        0 <= k < rect_writes(stride, x, y, w, h, c).len(),
    ensures
        0 <= rc.0 < h,
        0 <= rc.1 < w,
        rect_writes(stride, x, y, w, h, c)[k] == pixel(stride, x + rc.1, y + rc.0, c),
    decreases h,
{
    lemma_rect_len(stride, x, y, w, (h - 1) as nat, c);
    let pre = rect_writes(stride, x, y, w, (h - 1) as nat, c);
    if k < pre.len() {
        lemma_rect_write(stride, x, y, w, (h - 1) as nat, c, k)
    } else {
        lemma_row_len(stride, x, y + h - 1, w, c);
        lemma_row_index(stride, x, y + h - 1, w, c, k - pre.len());
        ((h - 1) as int, k - pre.len())
    }
}

/// Filling a rectangle changes only the bytes of its pixels: a byte that
/// lies in none of them keeps its value.
pub proof fn lemma_rect_untouched(buf: Seq<u8>, stride: int, x: int, y: int, w: nat, h: nat, c: Rgba, i: int)
    requires
        0 <= i < buf.len(),
        forall|row: int, col: int|
            y <= row < y + h && x <= col < x + w ==> !#[trigger] in_pixel(stride, row, col, i),
    ensures
        paint(buf, rect_writes(stride, x, y, w, h, c))[i] == buf[i],
{
    let ws = rect_writes(stride, x, y, w, h, c);
    assert forall|k: int| 0 <= k < ws.len() implies !covers(#[trigger] ws[k], buf.len() as int, i) by {
        let rc = lemma_rect_write(stride, x, y, w, h, c, k);
        assert(!in_pixel(stride, y + rc.0, x + rc.1, i));
    }
    lemma_paint_untouched(buf, ws, i);
}

/// When every write that covers byte `i` has colour `c` and puts channel
/// `j` there, and one does, byte `i` ends up holding that channel.
proof fn lemma_last_byte_uniform(ws: Seq<PixelWrite>, len: int, i: int, c: Rgba, k0: int, j: int)
    requires
        0 <= k0 < ws.len(),
        covers(ws[k0], len, i),
        0 <= j < 4,
        forall|k: int|
            0 <= k < ws.len() && covers(#[trigger] ws[k], len, i) ==> i - ws[k].off == j && ws[k].b == c.b
                && ws[k].g == c.g && ws[k].r == c.r && ws[k].a == c.a,
    ensures
        last_byte(ws, len, i) == Some(channel(c, j)),
    decreases ws.len(),
{
    let last = ws[ws.len() - 1];
    if !covers(last, len, i) {
        assert forall|k: int|
            0 <= k < ws.drop_last().len() && covers(#[trigger] ws.drop_last()[k], len, i) implies i
                - ws.drop_last()[k].off == j && ws.drop_last()[k].b == c.b && ws.drop_last()[k].g == c.g
                && ws.drop_last()[k].r == c.r && ws.drop_last()[k].a == c.a by {
            assert(ws.drop_last()[k] == ws[k]);
        }
        assert(ws.drop_last()[k0] == ws[k0]);
        lemma_last_byte_uniform(ws.drop_last(), len, i, c, k0, j);
    }
}

proof fn lemma_aligned(stride: int, row: int, col: int)
    requires
        stride % 4 == 0,
    ensures
        pixel_off(stride, row, col) % 4 == 0,
{
    let m = stride / 4;
    assert(row * stride == 4 * (row * m)) by (nonlinear_arith)
        requires
            stride == 4 * m,
    ;
    let t = row * m + col;
    assert(pixel_off(stride, row, col) == 4 * t);
}

/// Each pixel of a filled rectangle that lies in the buffer holds the
/// fill colour, when rows are a whole number of pixels apart or the
/// rectangle ends before the row does (pixels then never overlap).
pub proof fn lemma_rect_colour(buf: Seq<u8>, stride: int, x: int, y: int, w: nat, h: nat, c: Rgba, row: int, col: int, j: int)
    requires
        stride >= 0,
        stride % 4 == 0 || 4 * (x + w) <= stride,
        x >= 0,
        y >= 0,
        y <= row < y + h,
        x <= col < x + w,
        pixel_off(stride, row, col) + 4 <= buf.len(),
        0 <= j < 4,
    ensures
        paint(buf, rect_writes(stride, x, y, w, h, c))[pixel_off(stride, row, col) + j] == channel(c, j),
{
    lemma_rect_last_byte(buf.len() as int, stride, x, y, w, h, c, row, col, j);
    assert(pixel_off(stride, row, col) >= 0) by (nonlinear_arith)
        requires
            row >= 0,
            col >= 0,
            stride >= 0,
    ;
    lemma_paint_at(buf, rect_writes(stride, x, y, w, h, c), pixel_off(stride, row, col) + j);
}

/// Filling the same rectangle twice leaves what filling it once leaves.
pub proof fn lemma_fill_idempotent(buf: Seq<u8>, stride: int, x: int, y: int, w: nat, h: nat, c: Rgba)
    ensures
        paint(paint(buf, rect_writes(stride, x, y, w, h, c)), rect_writes(stride, x, y, w, h, c))
            == paint(buf, rect_writes(stride, x, y, w, h, c)),
{
    lemma_paint_idempotent(buf, rect_writes(stride, x, y, w, h, c));
}

/// Fills a rectangle with one colour; pixels past the buffer's end are
/// skipped.
pub fn fill_rect(
    buf: &mut [u8],
    stride: usize,
    x: usize,
    y: usize,
    w: usize,
    h: usize,
    r: u8,
    g: u8,
    b: u8,
    a: u8,
)
    requires
        rect_fits(stride, x, y, w, h),
    ensures
        final(buf)@ == paint(
            old(buf)@,
            rect_writes(stride as int, x as int, y as int, w as nat, h as nat, Rgba { r, g, b, a }),
        ),
{
    let ghost c = Rgba { r, g, b, a };
    let ghost st = stride as int;
    let mut row = y;
    while row < y + h
        invariant
            y <= row <= y + h,
            rect_fits(stride, x, y, w, h),
            buf@ == paint(old(buf)@, rect_writes(st, x as int, y as int, w as nat, (row - y) as nat, c)),
            st == stride as int,
            c == (Rgba { r, g, b, a }),
        decreases y + h - row,
    {
        proof {
            assert(row * stride <= (y + h) * stride) by (nonlinear_arith)
                requires
                    row <= y + h,
            ;
        }
        let mut col = x;
        while col < x + w
            invariant
                y <= row < y + h,
                x <= col <= x + w,
                rect_fits(stride, x, y, w, h),
                row * stride <= (y + h) * stride,
                st == stride as int,
                c == (Rgba { r, g, b, a }),
                buf@ == paint(
                    old(buf)@,
                    rect_writes(st, x as int, y as int, w as nat, (row - y) as nat, c) + row_writes(
                        st,
                        x as int,
                        row as int,
                        (col - x) as nat,
                        c,
                    ),
                ),
            decreases x + w - col,
        {
            let ghost pre = rect_writes(st, x as int, y as int, w as nat, (row - y) as nat, c);
            let ghost rw = row_writes(st, x as int, row as int, (col - x) as nat, c);
            let ghost px = pixel(st, col as int, row as int, c);
            let off = row * stride + col * 4;
            assert(row_writes(st, x as int, row as int, (col + 1 - x) as nat, c) == rw.push(px));
            assert(pre + rw.push(px) =~= (pre + rw).push(px));
            assert((pre + rw).push(px).drop_last() =~= pre + rw);
            let len = buf.len();
            if off + 3 < len {
                buf[off] = b;
                buf[off + 1] = g;
                buf[off + 2] = r;
                buf[off + 3] = a;
            }
            col = col + 1;
        }
        assert(rect_writes(st, x as int, y as int, w as nat, (row + 1 - y) as nat, c)
            == rect_writes(st, x as int, y as int, w as nat, (row - y) as nat, c) + row_writes(
            st,
            x as int,
            row as int,
            w as nat,
            c,
        ));
        row = row + 1;
    }
}


/// The four two-pixel-wide edges of a `w` by `h` box: top, bottom, left,
/// right.
pub open spec fn border_writes(stride: int, x: int, y: int, w: nat, h: nat, c: Rgba) -> Seq<
    PixelWrite,
> {
    rect_writes(stride, x, y, w, 2, c) + rect_writes(stride, x, y + h - 2, w, 2, c) + rect_writes(
        stride,
        x,
        y,
        2,
        h,
        c,
    ) + rect_writes(stride, x + w - 2, y, 2, h, c)
}

/// Draws a two-pixel opaque border around a `w` by `h` box.
pub fn draw_border(
    buf: &mut [u8],
    stride: usize,
    x: usize,
    y: usize,
    w: usize,
    h: usize,
    r: u8,
    g: u8,
    b: u8,
)
    requires
        w >= 2,
        h >= 2,
        rect_fits(stride, x, y, w, h),
    ensures
        final(buf)@ == paint(
            old(buf)@,
            border_writes(stride as int, x as int, y as int, w as nat, h as nat, Rgba { r, g, b, a: 255 }),
        ),
{
    let ghost c = Rgba { r, g, b, a: 255 };
    let ghost st = stride as int;
    let ghost b0 = buf@;
    proof {
        assert((y + 2) * stride <= (y + h) * stride) by (nonlinear_arith)
            requires
                h >= 2,
        ;
    }
    fill_rect(buf, stride, x, y, w, 2, r, g, b, 255);
    let ghost b1 = buf@;
    fill_rect(buf, stride, x, y + h - 2, w, 2, r, g, b, 255);
    let ghost b2 = buf@;
    fill_rect(buf, stride, x, y, 2, h, r, g, b, 255);
    let ghost b3 = buf@;
    fill_rect(buf, stride, x + w - 2, y, 2, h, r, g, b, 255);
    proof {
        let r1 = rect_writes(st, x as int, y as int, w as nat, 2, c);
        let r2 = rect_writes(st, x as int, y + h - 2, w as nat, 2, c);
        let r3 = rect_writes(st, x as int, y as int, 2, h as nat, c);
        let r4 = rect_writes(st, x + w - 2, y as int, 2, h as nat, c);
        lemma_paint_concat(b0, r1, r2);
        lemma_paint_concat(b0, r1 + r2, r3);
        lemma_paint_concat(b0, r1 + r2 + r3, r4);
    }
}

pub open spec fn glyph_of(c: char) -> Seq<u8> {
    if c == 'a' {
        seq![0b00000u8, 0b01110, 0b00001, 0b01111, 0b10001, 0b10011, 0b01101]
    } else
    if c == 'b' {
        seq![0b10000u8, 0b10000, 0b11110, 0b10001, 0b10001, 0b10001, 0b11110]
    } else
    if c == 'c' {
        seq![0b00000u8, 0b01110, 0b10000, 0b10000, 0b10000, 0b10001, 0b01110]
    } else
    if c == 'd' {
        seq![0b00001u8, 0b00001, 0b01111, 0b10001, 0b10001, 0b10001, 0b01111]
    } else
    if c == 'e' {
        seq![0b00000u8, 0b01110, 0b10001, 0b11111, 0b10000, 0b10001, 0b01110]
    } else
    if c == 'f' {
        seq![0b00110u8, 0b01001, 0b01000, 0b11100, 0b01000, 0b01000, 0b01000]
    } else
    if c == 'g' {
        seq![0b00000u8, 0b01111, 0b10001, 0b10001, 0b01111, 0b00001, 0b01110]
    } else
    if c == 'h' {
        seq![0b10000u8, 0b10000, 0b11110, 0b10001, 0b10001, 0b10001, 0b10001]
    } else
    if c == 'i' {
        seq![0b00100u8, 0b00000, 0b01100, 0b00100, 0b00100, 0b00100, 0b01110]
    } else
    if c == 'j' {
        seq![0b00010u8, 0b00000, 0b00110, 0b00010, 0b00010, 0b10010, 0b01100]
    } else
    if c == 'k' {
        seq![0b10000u8, 0b10010, 0b10100, 0b11000, 0b10100, 0b10010, 0b10001]
    } else
    if c == 'l' {
        seq![0b01100u8, 0b00100, 0b00100, 0b00100, 0b00100, 0b00100, 0b01110]
    } else
    if c == 'm' {
        seq![0b00000u8, 0b11010, 0b10101, 0b10101, 0b10001, 0b10001, 0b10001]
    } else
    if c == 'n' {
        seq![0b00000u8, 0b11110, 0b10001, 0b10001, 0b10001, 0b10001, 0b10001]
    } else
    if c == 'o' {
        seq![0b00000u8, 0b01110, 0b10001, 0b10001, 0b10001, 0b10001, 0b01110]
    } else
    if c == 'p' {
        seq![0b00000u8, 0b11110, 0b10001, 0b10001, 0b11110, 0b10000, 0b10000]
    } else
    if c == 'q' {
        seq![0b00000u8, 0b01110, 0b10001, 0b10001, 0b01111, 0b00001, 0b00001]
    } else
    if c == 'r' {
        seq![0b00000u8, 0b10110, 0b11001, 0b10000, 0b10000, 0b10000, 0b10000]
    } else
    if c == 's' {
        seq![0b00000u8, 0b01111, 0b10000, 0b01110, 0b00001, 0b00001, 0b11110]
    } else
    if c == 't' {
        seq![0b01000u8, 0b01000, 0b11110, 0b01000, 0b01000, 0b01001, 0b00110]
    } else
    if c == 'u' {
        seq![0b00000u8, 0b10001, 0b10001, 0b10001, 0b10001, 0b10011, 0b01101]
    } else
    if c == 'v' {
        seq![0b00000u8, 0b10001, 0b10001, 0b10001, 0b10001, 0b01010, 0b00100]
    } else
    if c == 'w' {
        seq![0b00000u8, 0b10001, 0b10001, 0b10101, 0b10101, 0b10101, 0b01010]
    } else
    if c == 'x' {
        seq![0b00000u8, 0b10001, 0b01010, 0b00100, 0b01010, 0b10001, 0b00000]
    } else
    if c == 'y' {
        seq![0b00000u8, 0b10001, 0b10001, 0b01111, 0b00001, 0b10001, 0b01110]
    } else
    if c == 'z' {
        seq![0b00000u8, 0b11111, 0b00010, 0b00100, 0b01000, 0b10000, 0b11111]
    } else
    if c == 'A' {
        seq![0b00100u8, 0b01010, 0b10001, 0b11111, 0b10001, 0b10001, 0b10001]
    } else
    if c == 'B' {
        seq![0b11110u8, 0b10001, 0b10001, 0b11110, 0b10001, 0b10001, 0b11110]
    } else
    if c == 'C' {
        seq![0b01110u8, 0b10001, 0b10000, 0b10000, 0b10000, 0b10001, 0b01110]
    } else
    if c == 'D' {
        seq![0b11110u8, 0b10001, 0b10001, 0b10001, 0b10001, 0b10001, 0b11110]
    } else
    if c == 'E' {
        seq![0b11111u8, 0b10000, 0b10000, 0b11110, 0b10000, 0b10000, 0b11111]
    } else
    if c == 'F' {
        seq![0b11111u8, 0b10000, 0b10000, 0b11110, 0b10000, 0b10000, 0b10000]
    } else
    if c == 'G' {
        seq![0b01110u8, 0b10001, 0b10000, 0b10111, 0b10001, 0b10001, 0b01110]
    } else
    if c == 'H' {
        seq![0b10001u8, 0b10001, 0b10001, 0b11111, 0b10001, 0b10001, 0b10001]
    } else
    if c == 'I' {
        seq![0b01110u8, 0b00100, 0b00100, 0b00100, 0b00100, 0b00100, 0b01110]
    } else
    if c == 'J' {
        seq![0b00111u8, 0b00010, 0b00010, 0b00010, 0b00010, 0b10010, 0b01100]
    } else
    if c == 'K' {
        seq![0b10001u8, 0b10010, 0b10100, 0b11000, 0b10100, 0b10010, 0b10001]
    } else
    if c == 'L' {
        seq![0b10000u8, 0b10000, 0b10000, 0b10000, 0b10000, 0b10000, 0b11111]
    } else
    if c == 'M' {
        seq![0b10001u8, 0b11011, 0b10101, 0b10001, 0b10001, 0b10001, 0b10001]
    } else
    if c == 'N' {
        seq![0b10001u8, 0b11001, 0b10101, 0b10011, 0b10001, 0b10001, 0b10001]
    } else
    if c == 'O' {
        seq![0b01110u8, 0b10001, 0b10001, 0b10001, 0b10001, 0b10001, 0b01110]
    } else
    if c == 'P' {
        seq![0b11110u8, 0b10001, 0b10001, 0b11110, 0b10000, 0b10000, 0b10000]
    } else
    if c == 'Q' {
        seq![0b01110u8, 0b10001, 0b10001, 0b10001, 0b10101, 0b10010, 0b01101]
    } else
    if c == 'R' {
        seq![0b11110u8, 0b10001, 0b10001, 0b11110, 0b10100, 0b10010, 0b10001]
    } else
    if c == 'S' {
        seq![0b01111u8, 0b10000, 0b10000, 0b01110, 0b00001, 0b00001, 0b11110]
    } else
    if c == 'T' {
        seq![0b11111u8, 0b00100, 0b00100, 0b00100, 0b00100, 0b00100, 0b00100]
    } else
    if c == 'U' {
        seq![0b10001u8, 0b10001, 0b10001, 0b10001, 0b10001, 0b10001, 0b01110]
    } else
    if c == 'V' {
        seq![0b10001u8, 0b10001, 0b10001, 0b10001, 0b10001, 0b01010, 0b00100]
    } else
    if c == 'W' {
        seq![0b10001u8, 0b10001, 0b10001, 0b10101, 0b10101, 0b11011, 0b10001]
    } else
    if c == 'X' {
        seq![0b10001u8, 0b01010, 0b00100, 0b00100, 0b00100, 0b01010, 0b10001]
    } else
    if c == 'Y' {
        seq![0b10001u8, 0b10001, 0b01010, 0b00100, 0b00100, 0b00100, 0b00100]
    } else
    if c == 'Z' {
        seq![0b11111u8, 0b00001, 0b00010, 0b00100, 0b01000, 0b10000, 0b11111]
    } else
    if c == '0' {
        seq![0b01110u8, 0b10011, 0b10101, 0b10101, 0b10101, 0b11001, 0b01110]
    } else
    if c == '1' {
        seq![0b00100u8, 0b01100, 0b00100, 0b00100, 0b00100, 0b00100, 0b01110]
    } else
    if c == '2' {
        seq![0b01110u8, 0b10001, 0b00001, 0b00110, 0b01000, 0b10000, 0b11111]
    } else
    if c == '3' {
        seq![0b11111u8, 0b00001, 0b00010, 0b00110, 0b00001, 0b10001, 0b01110]
    } else
    if c == '4' {
        seq![0b00010u8, 0b00110, 0b01010, 0b10010, 0b11111, 0b00010, 0b00010]
    } else
    if c == '5' {
        seq![0b11111u8, 0b10000, 0b11110, 0b00001, 0b00001, 0b10001, 0b01110]
    } else
    if c == '6' {
        seq![0b00110u8, 0b01000, 0b10000, 0b11110, 0b10001, 0b10001, 0b01110]
    } else
    if c == '7' {
        seq![0b11111u8, 0b00001, 0b00010, 0b00100, 0b01000, 0b01000, 0b01000]
    } else
    if c == '8' {
        seq![0b01110u8, 0b10001, 0b10001, 0b01110, 0b10001, 0b10001, 0b01110]
    } else
    if c == '9' {
        seq![0b01110u8, 0b10001, 0b10001, 0b01111, 0b00001, 0b00010, 0b01100]
    } else
    if c == ':' {
        seq![0b00000u8, 0b00100, 0b00100, 0b00000, 0b00100, 0b00100, 0b00000]
    } else
    if c == '-' {
        seq![0b00000u8, 0b00000, 0b00000, 0b01110, 0b00000, 0b00000, 0b00000]
    } else
    if c == '+' {
        seq![0b00000u8, 0b00100, 0b00100, 0b11111, 0b00100, 0b00100, 0b00000]
    } else
    if c == '/' {
        seq![0b00001u8, 0b00010, 0b00010, 0b00100, 0b01000, 0b01000, 0b10000]
    } else
    if c == '.' {
        seq![0b00000u8, 0b00000, 0b00000, 0b00000, 0b00000, 0b00110, 0b00110]
    } else
    if c == ',' {
        seq![0b00000u8, 0b00000, 0b00000, 0b00000, 0b00110, 0b00100, 0b01000]
    } else
    if c == '!' {
        seq![0b00100u8, 0b00100, 0b00100, 0b00100, 0b00000, 0b00000, 0b00100]
    } else
    if c == '?' {
        seq![0b01110u8, 0b10001, 0b00001, 0b00110, 0b00100, 0b00000, 0b00100]
    } else
    if c == '<' {
        seq![0b00010u8, 0b00100, 0b01000, 0b10000, 0b01000, 0b00100, 0b00010]
    } else
    if c == '>' {
        seq![0b01000u8, 0b00100, 0b00010, 0b00001, 0b00010, 0b00100, 0b01000]
    } else
    if c == '_' {
        seq![0b00000u8, 0b00000, 0b00000, 0b00000, 0b00000, 0b00000, 0b11111]
    } else
    if c == ' ' {
        seq![0b00000u8, 0b00000, 0b00000, 0b00000, 0b00000, 0b00000, 0b00000]
    } else {
        seq![0b11111u8, 0b10001, 0b10001, 0b10001, 0b10001, 0b10001, 0b11111]
    }
}

pub fn get_glyph(c: char) -> (r: [u8; 7])
    ensures
        r@ == glyph_of(c),
{
    match c {
        'a' => [0b00000, 0b01110, 0b00001, 0b01111, 0b10001, 0b10011, 0b01101],
        'b' => [0b10000, 0b10000, 0b11110, 0b10001, 0b10001, 0b10001, 0b11110],
        'c' => [0b00000, 0b01110, 0b10000, 0b10000, 0b10000, 0b10001, 0b01110],
        'd' => [0b00001, 0b00001, 0b01111, 0b10001, 0b10001, 0b10001, 0b01111],
        'e' => [0b00000, 0b01110, 0b10001, 0b11111, 0b10000, 0b10001, 0b01110],
        'f' => [0b00110, 0b01001, 0b01000, 0b11100, 0b01000, 0b01000, 0b01000],
        'g' => [0b00000, 0b01111, 0b10001, 0b10001, 0b01111, 0b00001, 0b01110],
        'h' => [0b10000, 0b10000, 0b11110, 0b10001, 0b10001, 0b10001, 0b10001],
        'i' => [0b00100, 0b00000, 0b01100, 0b00100, 0b00100, 0b00100, 0b01110],
        'j' => [0b00010, 0b00000, 0b00110, 0b00010, 0b00010, 0b10010, 0b01100],
        'k' => [0b10000, 0b10010, 0b10100, 0b11000, 0b10100, 0b10010, 0b10001],
        'l' => [0b01100, 0b00100, 0b00100, 0b00100, 0b00100, 0b00100, 0b01110],
        'm' => [0b00000, 0b11010, 0b10101, 0b10101, 0b10001, 0b10001, 0b10001],
        'n' => [0b00000, 0b11110, 0b10001, 0b10001, 0b10001, 0b10001, 0b10001],
        'o' => [0b00000, 0b01110, 0b10001, 0b10001, 0b10001, 0b10001, 0b01110],
        'p' => [0b00000, 0b11110, 0b10001, 0b10001, 0b11110, 0b10000, 0b10000],
        'q' => [0b00000, 0b01110, 0b10001, 0b10001, 0b01111, 0b00001, 0b00001],
        'r' => [0b00000, 0b10110, 0b11001, 0b10000, 0b10000, 0b10000, 0b10000],
        's' => [0b00000, 0b01111, 0b10000, 0b01110, 0b00001, 0b00001, 0b11110],
        't' => [0b01000, 0b01000, 0b11110, 0b01000, 0b01000, 0b01001, 0b00110],
        'u' => [0b00000, 0b10001, 0b10001, 0b10001, 0b10001, 0b10011, 0b01101],
        'v' => [0b00000, 0b10001, 0b10001, 0b10001, 0b10001, 0b01010, 0b00100],
        'w' => [0b00000, 0b10001, 0b10001, 0b10101, 0b10101, 0b10101, 0b01010],
        'x' => [0b00000, 0b10001, 0b01010, 0b00100, 0b01010, 0b10001, 0b00000],
        'y' => [0b00000, 0b10001, 0b10001, 0b01111, 0b00001, 0b10001, 0b01110],
        'z' => [0b00000, 0b11111, 0b00010, 0b00100, 0b01000, 0b10000, 0b11111],
        'A' => [0b00100, 0b01010, 0b10001, 0b11111, 0b10001, 0b10001, 0b10001],
        'B' => [0b11110, 0b10001, 0b10001, 0b11110, 0b10001, 0b10001, 0b11110],
        'C' => [0b01110, 0b10001, 0b10000, 0b10000, 0b10000, 0b10001, 0b01110],
        'D' => [0b11110, 0b10001, 0b10001, 0b10001, 0b10001, 0b10001, 0b11110],
        'E' => [0b11111, 0b10000, 0b10000, 0b11110, 0b10000, 0b10000, 0b11111],
        'F' => [0b11111, 0b10000, 0b10000, 0b11110, 0b10000, 0b10000, 0b10000],
        'G' => [0b01110, 0b10001, 0b10000, 0b10111, 0b10001, 0b10001, 0b01110],
        'H' => [0b10001, 0b10001, 0b10001, 0b11111, 0b10001, 0b10001, 0b10001],
        'I' => [0b01110, 0b00100, 0b00100, 0b00100, 0b00100, 0b00100, 0b01110],
        'J' => [0b00111, 0b00010, 0b00010, 0b00010, 0b00010, 0b10010, 0b01100],
        'K' => [0b10001, 0b10010, 0b10100, 0b11000, 0b10100, 0b10010, 0b10001],
        'L' => [0b10000, 0b10000, 0b10000, 0b10000, 0b10000, 0b10000, 0b11111],
        'M' => [0b10001, 0b11011, 0b10101, 0b10001, 0b10001, 0b10001, 0b10001],
        'N' => [0b10001, 0b11001, 0b10101, 0b10011, 0b10001, 0b10001, 0b10001],
        'O' => [0b01110, 0b10001, 0b10001, 0b10001, 0b10001, 0b10001, 0b01110],
        'P' => [0b11110, 0b10001, 0b10001, 0b11110, 0b10000, 0b10000, 0b10000],
        'Q' => [0b01110, 0b10001, 0b10001, 0b10001, 0b10101, 0b10010, 0b01101],
        'R' => [0b11110, 0b10001, 0b10001, 0b11110, 0b10100, 0b10010, 0b10001],
        'S' => [0b01111, 0b10000, 0b10000, 0b01110, 0b00001, 0b00001, 0b11110],
        'T' => [0b11111, 0b00100, 0b00100, 0b00100, 0b00100, 0b00100, 0b00100],
        'U' => [0b10001, 0b10001, 0b10001, 0b10001, 0b10001, 0b10001, 0b01110],
        'V' => [0b10001, 0b10001, 0b10001, 0b10001, 0b10001, 0b01010, 0b00100],
        'W' => [0b10001, 0b10001, 0b10001, 0b10101, 0b10101, 0b11011, 0b10001],
        'X' => [0b10001, 0b01010, 0b00100, 0b00100, 0b00100, 0b01010, 0b10001],
        'Y' => [0b10001, 0b10001, 0b01010, 0b00100, 0b00100, 0b00100, 0b00100],
        'Z' => [0b11111, 0b00001, 0b00010, 0b00100, 0b01000, 0b10000, 0b11111],
        '0' => [0b01110, 0b10011, 0b10101, 0b10101, 0b10101, 0b11001, 0b01110],
        '1' => [0b00100, 0b01100, 0b00100, 0b00100, 0b00100, 0b00100, 0b01110],
        '2' => [0b01110, 0b10001, 0b00001, 0b00110, 0b01000, 0b10000, 0b11111],
        '3' => [0b11111, 0b00001, 0b00010, 0b00110, 0b00001, 0b10001, 0b01110],
        '4' => [0b00010, 0b00110, 0b01010, 0b10010, 0b11111, 0b00010, 0b00010],
        '5' => [0b11111, 0b10000, 0b11110, 0b00001, 0b00001, 0b10001, 0b01110],
        '6' => [0b00110, 0b01000, 0b10000, 0b11110, 0b10001, 0b10001, 0b01110],
        '7' => [0b11111, 0b00001, 0b00010, 0b00100, 0b01000, 0b01000, 0b01000],
        '8' => [0b01110, 0b10001, 0b10001, 0b01110, 0b10001, 0b10001, 0b01110],
        '9' => [0b01110, 0b10001, 0b10001, 0b01111, 0b00001, 0b00010, 0b01100],
        ':' => [0b00000, 0b00100, 0b00100, 0b00000, 0b00100, 0b00100, 0b00000],
        '-' => [0b00000, 0b00000, 0b00000, 0b01110, 0b00000, 0b00000, 0b00000],
        '+' => [0b00000, 0b00100, 0b00100, 0b11111, 0b00100, 0b00100, 0b00000],
        '/' => [0b00001, 0b00010, 0b00010, 0b00100, 0b01000, 0b01000, 0b10000],
        '.' => [0b00000, 0b00000, 0b00000, 0b00000, 0b00000, 0b00110, 0b00110],
        ',' => [0b00000, 0b00000, 0b00000, 0b00000, 0b00110, 0b00100, 0b01000],
        '!' => [0b00100, 0b00100, 0b00100, 0b00100, 0b00000, 0b00000, 0b00100],
        '?' => [0b01110, 0b10001, 0b00001, 0b00110, 0b00100, 0b00000, 0b00100],
        '<' => [0b00010, 0b00100, 0b01000, 0b10000, 0b01000, 0b00100, 0b00010],
        '>' => [0b01000, 0b00100, 0b00010, 0b00001, 0b00010, 0b00100, 0b01000],
        '_' => [0b00000, 0b00000, 0b00000, 0b00000, 0b00000, 0b00000, 0b11111],
        ' ' => [0b00000, 0b00000, 0b00000, 0b00000, 0b00000, 0b00000, 0b00000],
        _ => [0b11111, 0b10001, 0b10001, 0b10001, 0b10001, 0b10001, 0b11111],
    }
}

/// Whether bit `col` (counted from the left of five) of a glyph row is set.
pub open spec fn bit_set(bits: u8, col: usize) -> bool {
    bits & (1u8 << (4 - col) as usize) != 0
}

/// The set pixels among the first `k` columns of one glyph row.
pub open spec fn glyph_row_writes(stride: int, cx: int, row: int, bits: u8, k: nat, c: Rgba) -> Seq<
    PixelWrite,
>
    decreases k,
{
    if k == 0 {
        Seq::empty()
    } else {
        glyph_row_writes(stride, cx, row, bits, (k - 1) as nat, c) + if bit_set(
            bits,
            (k - 1) as usize,
        ) {
            seq![pixel(stride, cx + k - 1, row, c)]
        } else {
            Seq::empty()
        }
    }
}

/// The set pixels of the first `n` rows of glyph `g` drawn at (`cx`, `y`).
pub open spec fn glyph_writes(stride: int, cx: int, y: int, g: Seq<u8>, n: nat, c: Rgba) -> Seq<
    PixelWrite,
>
    decreases n,
{
    if n == 0 {
        Seq::empty()
    } else {
        glyph_writes(stride, cx, y, g, (n - 1) as nat, c) + glyph_row_writes(
            stride,
            cx,
            y + n - 1,
            g[n - 1],
            5,
            c,
        )
    }
}

/// The pixels of `text` drawn from (`x`, `y`): each character's glyph in
/// a six-pixel-wide cell, left to right.
pub open spec fn text_writes(stride: int, x: int, y: int, text: Seq<char>, c: Rgba) -> Seq<
    PixelWrite,
>
    decreases text.len(),
{
    if text.len() == 0 {
        Seq::empty()
    } else {
        text_writes(stride, x, y, text.drop_last(), c) + glyph_writes(
            stride,
            x + 6 * (text.len() - 1),
            y,
            glyph_of(text.last()),
            7,
            c,
        )
    }
}

/// A `n`-character line of text at (`x`, `y`) fits the offset range.
pub open spec fn text_fits(stride: usize, x: usize, y: usize, n: nat) -> bool {
    rect_fits(stride, x, y, (6 * n) as usize, 7) && x + 6 * n <= usize::MAX
}

fn draw_glyph(buf: &mut [u8], stride: usize, glyph: &[u8; 7], cx: usize, y: usize, r: u8, g: u8, b: u8)
    requires
        rect_fits(stride, cx, y, 5, 7),
    ensures
        final(buf)@ == paint(
            old(buf)@,
            glyph_writes(stride as int, cx as int, y as int, glyph@, 7, Rgba { r, g, b, a: 255 }),
        ),
{
    let ghost c = Rgba { r, g, b, a: 255 };
    let ghost st = stride as int;
    let mut row: usize = 0;
    while row < 7
        invariant
            row <= 7,
            rect_fits(stride, cx, y, 5, 7),
            st == stride as int,
            c == (Rgba { r, g, b, a: 255 }),
            buf@ == paint(old(buf)@, glyph_writes(st, cx as int, y as int, glyph@, row as nat, c)),
        decreases 7 - row,
    {
        let bits = glyph[row];
        proof {
            assert((y + row) * stride <= (y + 7) * stride) by (nonlinear_arith)
                requires
                    y + row <= y + 7,
            ;
        }
        let mut col: usize = 0;
        while col < 5
            invariant
                row < 7,
                col <= 5,
                rect_fits(stride, cx, y, 5, 7),
                (y + row) * stride <= (y + 7) * stride,
                st == stride as int,
                bits == glyph@[row as int],
                c == (Rgba { r, g, b, a: 255 }),
                buf@ == paint(
                    old(buf)@,
                    glyph_writes(st, cx as int, y as int, glyph@, row as nat, c) + glyph_row_writes(
                        st,
                        cx as int,
                        (y + row) as int,
                        bits,
                        col as nat,
                        c,
                    ),
                ),
            decreases 5 - col,
        {
            let ghost pre = glyph_writes(st, cx as int, y as int, glyph@, row as nat, c);
            let ghost rw = glyph_row_writes(st, cx as int, (y + row) as int, bits, col as nat, c);
            let ghost px = pixel(st, (cx + col) as int, (y + row) as int, c);
            if bits & (1 << (4 - col)) != 0 {
                assert(glyph_row_writes(st, cx as int, (y + row) as int, bits, (col + 1) as nat, c)
                    =~= rw.push(px));
                assert(pre + rw.push(px) =~= (pre + rw).push(px));
                assert((pre + rw).push(px).drop_last() =~= pre + rw);
                let off = (y + row) * stride + (cx + col) * 4;
                let len = buf.len();
                if off + 3 < len {
                    buf[off] = b;
                    buf[off + 1] = g;
                    buf[off + 2] = r;
                    buf[off + 3] = 255;
                }
            } else {
                assert(glyph_row_writes(st, cx as int, (y + row) as int, bits, (col + 1) as nat, c)
                    =~= rw);
            }
            col = col + 1;
        }
        assert(glyph_writes(st, cx as int, y as int, glyph@, (row + 1) as nat, c) == glyph_writes(
            st,
            cx as int,
            y as int,
            glyph@,
            row as nat,
            c,
        ) + glyph_row_writes(st, cx as int, (y + row) as int, glyph@[row as int], 5, c));
        row = row + 1;
    }
}

/// Draws `text` in the 5x7 font from (`x`, `y`), opaque, six pixels per
/// character.
pub fn draw_text(buf: &mut [u8], stride: usize, text: &str, x: usize, y: usize, r: u8, g: u8, b: u8)
    requires
        text_fits(stride, x, y, text@.len()),
    ensures
        final(buf)@ == paint(
            old(buf)@,
            text_writes(stride as int, x as int, y as int, text@, Rgba { r, g, b, a: 255 }),
        ),
{
    let ghost c = Rgba { r, g, b, a: 255 };
    let ghost st = stride as int;
    let chars = chars_of(text);
    let n = chars.len();
    let mut i: usize = 0;
    let mut cx = x;
    while i < n
        invariant
            n == chars@.len() == text@.len(),
            chars@ == text@,
            i <= n,
            cx == x + 6 * i,
            text_fits(stride, x, y, n as nat),
            st == stride as int,
            c == (Rgba { r, g, b, a: 255 }),
            buf@ == paint(old(buf)@, text_writes(st, x as int, y as int, chars@.subrange(0, i as int), c)),
        decreases n - i,
    {
        let glyph = get_glyph(chars[i]);
        proof {
            assert(cx + 5 <= x + 6 * n);
        }
        let ghost before = buf@;
        draw_glyph(buf, stride, &glyph, cx, y, r, g, b);
        proof {
            let p = chars@.subrange(0, i + 1);
            assert(p.drop_last() =~= chars@.subrange(0, i as int));
            assert(p.last() == chars@[i as int]);
            lemma_paint_concat(
                old(buf)@,
                text_writes(st, x as int, y as int, chars@.subrange(0, i as int), c),
                glyph_writes(st, cx as int, y as int, glyph@, 7, c),
            );
        }
        cx = cx + 6;
        i = i + 1;
    }
    assert(chars@.subrange(0, n as int) =~= chars@);
}

/// The wrap state after one more word: a word that would push a non-empty
/// line past `max` bytes (counting the joining space) starts a new line.
pub open spec fn wrap_step(lines: Seq<Seq<char>>, cur: Seq<char>, word: Seq<char>, max: nat) -> (
    Seq<Seq<char>>,
    Seq<char>,
) {
    if utf8_len(cur) + utf8_len(word) + 1 > max && cur.len() > 0 {
        (lines.push(cur), word)
    } else if cur.len() > 0 {
        (lines, cur + " "@ + word)
    } else {
        (lines, word)
    }
}

/// The wrapped lines after the words `ws`; a non-empty last line is kept.
pub open spec fn wrap_words(
    lines: Seq<Seq<char>>,
    cur: Seq<char>,
    ws: Seq<Seq<char>>,
    max: nat,
) -> Seq<Seq<char>>
    decreases ws.len(),
{
    if ws.len() == 0 {
        if cur.len() > 0 {
            lines.push(cur)
        } else {
            lines
        }
    } else {
        let (l2, c2) = wrap_step(lines, cur, ws[0], max);
        wrap_words(l2, c2, ws.drop_first(), max)
    }
}

/// `text` greedily wrapped into lines of at most `max` bytes (a single
/// longer word gets a line of its own).
pub open spec fn wrap_spec(text: Seq<char>, max: nat) -> Seq<Seq<char>> {
    wrap_words(Seq::empty(), Seq::empty(), words(text), max)
}

/// Lines joined by single spaces.
pub open spec fn joined(ls: Seq<Seq<char>>) -> Seq<char>
    decreases ls.len(),
{
    if ls.len() == 0 {
        Seq::empty()
    } else if ls.len() == 1 {
        ls[0]
    } else {
        joined(ls.drop_last()) + " "@ + ls.last()
    }
}

/// The first word of a line.
pub open spec fn first_word(l: Seq<char>) -> Seq<char> {
    l.subrange(0, first_ws(l) as int)
}

/// A wrapped line: not empty, and within `max` bytes unless it is a
/// single word.
pub open spec fn line_ok(l: Seq<char>, max: nat) -> bool {
    l.len() > 0 && (utf8_len(l) <= max || no_ws(l))
}

/// Line `b` could not have joined line `a`: its first word, after a
/// space, would have pushed `a` past `max` bytes.
pub open spec fn greedy_pair(a: Seq<char>, b: Seq<char>, max: nat) -> bool {
    utf8_len(a) + 1 + utf8_len(first_word(b)) > max
}

/// Every line is well formed and every break is forced.
pub open spec fn wrapped_well(ls: Seq<Seq<char>>, max: nat) -> bool {
    &&& forall|k: int| 0 <= k < ls.len() ==> line_ok(#[trigger] ls[k], max)
    &&& forall|k: int| 0 <= k < ls.len() - 1 ==> greedy_pair(#[trigger] ls[k], ls[k + 1], max)
}

/// The line being built, as a list of at most one line.
pub open spec fn cur_part(cur: Seq<char>) -> Seq<Seq<char>> {
    if cur.len() > 0 {
        seq![cur]
    } else {
        Seq::empty()
    }
}

proof fn lemma_joined_concat(a: Seq<Seq<char>>, b: Seq<Seq<char>>)
    requires
        a.len() > 0,
        b.len() > 0,
    ensures
        joined(a + b) == joined(a) + " "@ + joined(b),
    decreases b.len(),
{
    if b.len() == 1 {
        assert((a + b).drop_last() =~= a);
    } else {
        lemma_joined_concat(a, b.drop_last());
        assert((a + b).drop_last() =~= a + b.drop_last());
        assert(joined(a) + " "@ + joined(b.drop_last()) + " "@ + b.last() =~= joined(a) + " "@ + (
        joined(b.drop_last()) + " "@ + b.last()));
    }
}

proof fn lemma_joined_mid(a: Seq<Seq<char>>, m1: Seq<Seq<char>>, m2: Seq<Seq<char>>, b: Seq<Seq<char>>)
    requires
        m1.len() > 0,
        m2.len() > 0,
        joined(m1) == joined(m2),
    ensures
        joined(a + m1 + b) == joined(a + m2 + b),
{
    if a.len() > 0 {
        lemma_joined_concat(a, m1);
        lemma_joined_concat(a, m2);
    }
    if b.len() > 0 {
        lemma_joined_concat(a + m1, b);
        lemma_joined_concat(a + m2, b);
    }
    if a.len() == 0 {
        assert(a + m1 =~= m1);
        assert(a + m2 =~= m2);
    }
    if b.len() == 0 {
        assert(a + m1 + b =~= a + m1);
        assert(a + m2 + b =~= a + m2);
    }
}

proof fn lemma_wrap_words(lines: Seq<Seq<char>>, cur: Seq<char>, ws: Seq<Seq<char>>, max: nat)
    requires
        forall|k: int| 0 <= k < ws.len() ==> (#[trigger] ws[k]).len() > 0 && no_ws(ws[k]),
        wrapped_well(lines, max),
        cur.len() > 0 ==> line_ok(cur, max),
        cur.len() > 0 && lines.len() > 0 ==> greedy_pair(lines.last(), cur, max),
        cur.len() == 0 ==> lines.len() == 0,
    ensures
        wrapped_well(wrap_words(lines, cur, ws, max), max),
        joined(wrap_words(lines, cur, ws, max)) == joined(lines + cur_part(cur) + ws),
    decreases ws.len(),
{
    reveal_strlit(" ");
    if ws.len() == 0 {
        if cur.len() > 0 {
            assert(lines + cur_part(cur) + ws =~= lines.push(cur));
            assert forall|k: int| 0 <= k < lines.push(cur).len() - 1 implies greedy_pair(
                #[trigger] lines.push(cur)[k],
                lines.push(cur)[k + 1],
                max,
            ) by {
                if k < lines.len() - 1 {
                    assert(lines.push(cur)[k] == lines[k]);
                    assert(lines.push(cur)[k + 1] == lines[k + 1]);
                }
            }
        } else {
            assert(lines + cur_part(cur) + ws =~= lines);
        }
    } else {
        let w = ws[0];
        let rest = ws.drop_first();
        assert(ws =~= seq![w] + rest);
        assert forall|k: int| 0 <= k < rest.len() implies (#[trigger] rest[k]).len() > 0 && no_ws(rest[k]) by {
            assert(rest[k] == ws[k + 1]);
        }
        lemma_first_ws_none(w);
        assert(first_word(w) =~= w);
        if utf8_len(cur) + utf8_len(w) + 1 > max && cur.len() > 0 {
            let l2 = lines.push(cur);
            assert forall|k: int| 0 <= k < l2.len() implies line_ok(#[trigger] l2[k], max) by {
                if k < lines.len() {
                    assert(l2[k] == lines[k]);
                }
            }
            assert forall|k: int| 0 <= k < l2.len() - 1 implies greedy_pair(#[trigger] l2[k], l2[k + 1], max) by {
                if k < lines.len() - 1 {
                    assert(l2[k] == lines[k]);
                    assert(l2[k + 1] == lines[k + 1]);
                }
            }
            lemma_wrap_words(l2, w, rest, max);
            assert(l2 + cur_part(w) + rest =~= lines + cur_part(cur) + ws);
        } else if cur.len() > 0 {
            let c2 = cur + " "@ + w;
            lemma_utf8_len_concat(cur, " "@);
            lemma_utf8_len_concat(cur + " "@, w);
            assert(utf8_len(" "@) == 1) by {
                assert(" "@.len() == 1);
                assert(" "@.last() == ' ');
                assert(" "@.drop_last() =~= Seq::<char>::empty());
                assert(utf8_len(Seq::<char>::empty()) == 0);
                assert(utf8_width(' ') == 1);
            }
            lemma_first_ws_concat(cur, " "@ + w);
            assert(c2 =~= cur + (" "@ + w));
            assert(first_word(c2) =~= first_word(cur)) by {
                lemma_first_ws_props(cur);
            }
            lemma_wrap_words(lines, c2, rest, max);
            assert(joined(seq![c2]) == joined(seq![cur, w])) by {
                assert(seq![cur, w].drop_last() =~= seq![cur]);
                assert(joined(seq![cur]) == cur);
                assert(seq![cur, w].last() == w);
                assert(joined(seq![c2]) == c2);
            }
            lemma_joined_mid(lines, seq![c2], seq![cur, w], rest);
            assert(lines + cur_part(c2) + rest =~= lines + seq![c2] + rest);
            assert(lines + seq![cur, w] + rest =~= lines + cur_part(cur) + ws);
        } else {
            lemma_wrap_words(lines, w, rest, max);
            assert(lines + cur_part(w) + rest =~= lines + cur_part(cur) + ws);
        }
    }
}

/// Wrapping loses and adds nothing but breaks: its lines, joined by single
/// spaces, are the text's words joined by single spaces. Every line is
/// non-empty and within `max` bytes unless it is one long word, and every
/// break is forced (greedy): the next line's first word would not have
/// fitted on the line before it.
pub proof fn lemma_wrap_laws(text: Seq<char>, max: nat)
    ensures
        joined(wrap_spec(text, max)) == joined(words(text)),
        wrapped_well(wrap_spec(text, max), max),
{
    lemma_words_props(text);
    lemma_wrap_words(Seq::empty(), Seq::empty(), words(text), max);
    assert(Seq::<Seq<char>>::empty() + cur_part(Seq::empty()) + words(text) =~= words(text));
}

/// The characters of each string.
pub open spec fn strings_view(v: Seq<String>) -> Seq<Seq<char>> {
    v.map_values(|s: String| s@)
}

/// Wraps `text` into lines of at most `max_chars` bytes, breaking at
/// whitespace.
pub fn wrap_text(text: &str, max_chars: usize) -> (r: Vec<String>)
    ensures
        strings_view(r@) == wrap_spec(text@, max_chars as nat),
{
    let v = chars_of(text);
    let n = v.len();
    let mut lines: Vec<String> = Vec::new();
    let mut cur: Vec<char> = Vec::new();
    let mut pos: usize = 0;
    assert(v@.subrange(0, n as int) =~= v@);
    assert(strings_view(lines@) =~= Seq::<Seq<char>>::empty());
    loop
        invariant
            n == v@.len(),
            v@ == text@,
            pos <= n,
            wrap_words(strings_view(lines@), cur@, words(v@.subrange(pos as int, n as int)), max_chars as nat)
                == wrap_spec(text@, max_chars as nat),
        ensures
            wrap_words(strings_view(lines@), cur@, Seq::empty(), max_chars as nat) == wrap_spec(
                text@,
                max_chars as nat,
            ),
        decreases n - pos,
    {
        let ghost rest = v@.subrange(pos as int, n as int);
        let mut i = pos;
        while i < n && is_whitespace(v[i])
            invariant
                pos <= i <= n == v@.len(),
                forall|k: int| pos <= k < i ==> is_ws(#[trigger] v@[k]),
            decreases n - i,
        {
            i = i + 1;
        }
        proof {
            assert forall|k: int| 0 <= k < i - pos implies is_ws(#[trigger] rest[k]) by {
                assert(rest[k] == v@[pos + k]);
            }
            lemma_lead_ws(rest, i - pos);
        }
        if i == n {
            assert(words(rest) =~= Seq::<Seq<char>>::empty());
            break;
        }
        let mut j = i;
        while j < n && !is_whitespace(v[j])
            invariant
                i <= j <= n == v@.len(),
                forall|k: int| i <= k < j ==> !is_ws(#[trigger] v@[k]),
            decreases n - j,
        {
            j = j + 1;
        }
        let word = slice_of(&v, i, j);
        proof {
            let t = rest.subrange(i - pos, rest.len() as int);
            assert(t =~= v@.subrange(i as int, n as int));
            assert forall|k: int| 0 <= k < j - i implies !is_ws(#[trigger] t[k]) by {
                assert(t[k] == v@[i + k]);
            }
            lemma_first_ws(t, j - i);
            assert(t.subrange(0, j - i) =~= word@);
            assert(t.subrange(j - i, t.len() as int) =~= v@.subrange(j as int, n as int));
            assert(words(rest) == seq![word@] + words(v@.subrange(j as int, n as int)));
            assert((seq![word@] + words(v@.subrange(j as int, n as int))).drop_first()
                =~= words(v@.subrange(j as int, n as int)));
        }
        let cl = utf8_len_of(&cur);
        let wl = utf8_len_of(&word);
        let cn = cur.len();
        let wn = word.len();
        assert(cl <= 4 * cn && wl <= 4 * wn);
        if cl + wl + 1 > max_chars as u128 && cur.len() > 0 {
            let ghost old_lines = strings_view(lines@);
            lines.push(string_of(&cur));
            assert(strings_view(lines@) =~= old_lines.push(cur@));
            cur = word;
        } else if cur.len() > 0 {
            let mut sp = chars_of(" ");
            let mut w2 = word;
            cur.append(&mut sp);
            cur.append(&mut w2);
        } else {
            cur = word;
        }
        pos = j;
    }
    if cur.len() > 0 {
        let ghost old_lines = strings_view(lines@);
        lines.push(string_of(&cur));
        assert(strings_view(lines@) =~= old_lines.push(cur@));
    }
    lines
}

/// A rectangle inside one that fits also fits.
pub proof fn lemma_rect_fits_within(
    stride: usize,
    x: usize,
    y: usize,
    w: usize,
    h: usize,
    bx: usize,
    by: usize,
    bw: usize,
    bh: usize,
)
    requires
        rect_fits(stride, bx, by, bw, bh),
        x + w <= bx + bw,
        y + h <= by + bh,
    ensures
        rect_fits(stride, x, y, w, h),
{
    assert((y + h) * stride <= (by + bh) * stride) by (nonlinear_arith)
        requires
            y + h <= by + bh,
    ;
}

/// Bubble box width, height and top edge.
pub const BUBBLE_W: usize = 258;
pub const BUBBLE_H: usize = 100;
pub const BUBBLE_Y: usize = 8;
/// Length of the tail and the gap between its tip and the mascot.
pub const TAIL_LEN: usize = 8;
pub const TAIL_GAP: usize = 6;

/// The bubble box's left edge: its tail tip lands just left of
/// `mascot_left`, and the box never starts left of x = 4.
pub open spec fn bubble_x(mascot_left: usize) -> usize {
    let box_right = if mascot_left >= 14 {
        (mascot_left - 14) as usize
    } else {
        0usize
    };
    let b = if box_right >= 258 {
        (box_right - 258) as usize
    } else {
        0usize
    };
    if b >= 4 {
        b
    } else {
        4
    }
}

pub open spec fn navy() -> Rgba {
    Rgba { r: 0x14, g: 0x1e, b: 0x2a, a: 220 }
}

pub open spec fn teal(a: u8) -> Rgba {
    Rgba { r: 0x2a, g: 0x5a, b: 0x50, a }
}

pub open spec fn cream() -> Rgba {
    Rgba { r: 0xe0, g: 0xd8, b: 0x98, a: 255 }
}

/// The first `k` one-pixel columns of the tail, growing toward the mascot.
pub open spec fn tail_writes(stride: int, bx: int, k: nat) -> Seq<PixelWrite>
    decreases k,
{
    if k == 0 {
        Seq::empty()
    } else {
        let i = k - 1;
        tail_writes(stride, bx, (k - 1) as nat) + rect_writes(
            stride,
            bx + 258 + i,
            51 + i,
            1,
            (2 * i + 2) as nat,
            navy(),
        )
    }
}

/// The first `k` of `lines`, drawn in cream 13 pixels apart from `y0`.
pub open spec fn lines_writes(stride: int, x: int, y0: int, lines: Seq<Seq<char>>, k: nat) -> Seq<
    PixelWrite,
>
    decreases k,
{
    if k == 0 {
        Seq::empty()
    } else {
        lines_writes(stride, x, y0, lines, (k - 1) as nat) + text_writes(
            stride,
            x,
            y0 + 13 * (k - 1),
            lines[k - 1],
            cream(),
        )
    }
}

/// The first `k` of `lines` fit when drawn from (`x`, `y0`).
pub open spec fn lines_fit(stride: usize, x: usize, y0: usize, lines: Seq<Seq<char>>, k: nat) -> bool
    decreases k,
{
    k == 0 || (lines_fit(stride, x, y0, lines, (k - 1) as nat) && y0 + 13 * (k - 1) <= usize::MAX
        && text_fits(stride, x, (y0 + 13 * (k - 1)) as usize, lines[k - 1].len()))
}

/// At most the first two lines.
pub open spec fn two(lines: Seq<Seq<char>>) -> nat {
    if lines.len() < 2 {
        lines.len()
    } else {
        2
    }
}

/// Everything the bubble draws: box, border, tail, the TIP label and two
/// lines of the tip, a divider, the JOKE label and two lines of the joke.
pub open spec fn bubble_writes(stride: int, tip: Seq<char>, joke: Seq<char>, mascot_left: usize) -> Seq<
    PixelWrite,
> {
    let bx = bubble_x(mascot_left) as int;
    let tl = wrap_spec(tip, 28);
    let jl = wrap_spec(joke, 28);
    rect_writes(stride, bx, 8, 258, 100, navy()) + border_writes(stride, bx, 8, 258, 100, teal(255))
        + tail_writes(stride, bx, 8) + text_writes(
        stride,
        bx + 10,
        18,
        "TIP"@,
        Rgba { r: 0xe8, g: 0x94, b: 0x3c, a: 255 },
    ) + lines_writes(stride, bx + 10, 30, tl, two(tl)) + rect_writes(
        stride,
        bx + 8,
        60,
        242,
        1,
        teal(200),
    ) + text_writes(stride, bx + 10, 66, "JOKE"@, Rgba { r: 0x90, g: 0x60, b: 0xc0, a: 255 })
        + lines_writes(stride, bx + 10, 78, jl, two(jl))
}

/// Every part of the bubble lies within the offset range.
pub open spec fn bubble_fits(stride: usize, tip: Seq<char>, joke: Seq<char>, mascot_left: usize) -> bool {
    let bx = bubble_x(mascot_left);
    &&& bx + 266 <= usize::MAX
    &&& rect_fits(stride, bx, 8, 266, 100)
    &&& lines_fit(stride, (bx + 10) as usize, 30, wrap_spec(tip, 28), two(wrap_spec(tip, 28)))
    &&& lines_fit(stride, (bx + 10) as usize, 78, wrap_spec(joke, 28), two(wrap_spec(joke, 28)))
}

/// Whether a rectangle's pixel offsets fit in `usize`.
pub fn rect_fits_check(stride: usize, x: usize, y: usize, w: usize, h: usize) -> (r: bool)
    ensures
        r == rect_fits(stride, x, y, w, h),
{
    let yh = match y.checked_add(h) {
        Some(v) => v,
        None => {
            return false;
        },
    };
    let a = match yh.checked_mul(stride) {
        Some(v) => v,
        None => {
            return false;
        },
    };
    let xw = match x.checked_add(w) {
        Some(v) => v,
        None => {
            return false;
        },
    };
    let b = match xw.checked_mul(4) {
        Some(v) => v,
        None => {
            return false;
        },
    };
    let c = match a.checked_add(b) {
        Some(v) => v,
        None => {
            return false;
        },
    };
    c.checked_add(4).is_some()
}

/// Whether `n` glyphs at (`x`, `y`) fit.
pub fn text_fits_check(stride: usize, x: usize, y: usize, n: usize) -> (r: bool)
    ensures
        r == text_fits(stride, x, y, n as nat),
{
    if n > usize::MAX / 6 {
        return false;
    }
    let m = 6 * n;
    match x.checked_add(m) {
        Some(_) => rect_fits_check(stride, x, y, m, 7),
        None => false,
    }
}

/// Whether the first two of `lines`, from `y0` down, fit.
pub fn lines_fit_check(stride: usize, x: usize, y0: usize, lines: &Vec<String>) -> (r: bool)
    ensures
        r == lines_fit(stride, x, y0, strings_view(lines@), two(strings_view(lines@))),
{
    let ghost ls = strings_view(lines@);
    proof {
        reveal_with_fuel(lines_fit, 3);
    }
    if lines.len() == 0 {
        return true;
    }
    assert(ls[0] == lines@[0]@);
    let n0 = chars_of(lines[0].as_str()).len();
    if !text_fits_check(stride, x, y0, n0) {
        return false;
    }
    if lines.len() == 1 {
        return true;
    }
    assert(ls[1] == lines@[1]@);
    let y1 = match y0.checked_add(13) {
        Some(v) => v,
        None => {
            return false;
        },
    };
    let n1 = chars_of(lines[1].as_str()).len();
    text_fits_check(stride, x, y1, n1)
}

/// Whether a bubble with `tip` and `joke`, its tail at the mascot starting
/// at `mascot_left`, fits.
pub fn bubble_fits_check(stride: usize, tip: &str, joke: &str, mascot_left: usize) -> (r: bool)
    ensures
        r == bubble_fits(stride, tip@, joke@, mascot_left),
{
    let box_right = if mascot_left >= TAIL_LEN + TAIL_GAP {
        mascot_left - (TAIL_LEN + TAIL_GAP)
    } else {
        0
    };
    let b0 = if box_right >= BUBBLE_W {
        box_right - BUBBLE_W
    } else {
        0
    };
    let bx = if b0 >= 4 {
        b0
    } else {
        4
    };
    assert(bx == bubble_x(mascot_left));
    if bx > usize::MAX - 266 {
        return false;
    }
    if !rect_fits_check(stride, bx, 8, 266, 100) {
        return false;
    }
    let tl = wrap_text(tip, 28);
    let jl = wrap_text(joke, 28);
    lines_fit_check(stride, bx + 10, 30, &tl) && lines_fit_check(stride, bx + 10, 78, &jl)
}

fn draw_lines(buf: &mut [u8], stride: usize, lines: &Vec<String>, x: usize, y0: usize)
    requires
        lines_fit(stride, x, y0, strings_view(lines@), two(strings_view(lines@))),
    ensures
        final(buf)@ == paint(
            old(buf)@,
            lines_writes(stride as int, x as int, y0 as int, strings_view(lines@), two(strings_view(lines@))),
        ),
{
    let ghost ls = strings_view(lines@);
    let mut i: usize = 0;
    while i < 2 && i < lines.len()
        invariant
            i <= two(ls),
            ls == strings_view(lines@),
            lines_fit(stride, x, y0, ls, two(ls)),
            buf@ == paint(old(buf)@, lines_writes(stride as int, x as int, y0 as int, ls, i as nat)),
        decreases 2 - i,
    {
        proof {
            lemma_lines_fit_prefix(stride, x, y0, ls, two(ls), (i + 1) as nat);
        }
        let ghost before = buf@;
        let line = lines[i].as_str();
        assert(line@ == ls[i as int]);
        draw_text(buf, stride, line, x, y0 + 13 * i, 0xe0, 0xd8, 0x98);
        proof {
            lemma_paint_concat(
                old(buf)@,
                lines_writes(stride as int, x as int, y0 as int, ls, i as nat),
                text_writes(stride as int, x as int, y0 + 13 * i, ls[i as int], cream()),
            );
        }
        i = i + 1;
    }
}

/// Fitting `k` lines means fitting any fewer.
pub proof fn lemma_lines_fit_prefix(stride: usize, x: usize, y0: usize, lines: Seq<Seq<char>>, k: nat, j: nat)
    requires
        lines_fit(stride, x, y0, lines, k),
        j <= k,
    ensures
        lines_fit(stride, x, y0, lines, j),
    decreases k,
{
    if j < k {
        lemma_lines_fit_prefix(stride, x, y0, lines, (k - 1) as nat, j);
    }
}

/// Draws the two-section bubble (TIP on top, JOKE below) with its box
/// anchored so the tail points right at the mascot, whose sprite starts at
/// x = `mascot_left`.
pub fn draw_bubble(buf: &mut [u8], stride: usize, tip: &str, joke: &str, mascot_left: usize)
    requires
        bubble_fits(stride, tip@, joke@, mascot_left),
    ensures
        final(buf)@ == paint(old(buf)@, bubble_writes(stride as int, tip@, joke@, mascot_left)),
{
    let bw: usize = 258;
    let bh: usize = 100;
    let by: usize = 8;
    let box_right = if mascot_left >= TAIL_LEN + TAIL_GAP {
        mascot_left - (TAIL_LEN + TAIL_GAP)
    } else {
        0
    };
    let b0 = if box_right >= bw {
        box_right - bw
    } else {
        0
    };
    let bx = if b0 >= 4 {
        b0
    } else {
        4
    };
    assert(bx == bubble_x(mascot_left));
    let ghost st = stride as int;
    let ghost o = buf@;

    proof {
        lemma_rect_fits_within(stride, bx, by, bw, bh, bx, 8, 266, 100);
    }
    fill_rect(buf, stride, bx, by, bw, bh, 0x14, 0x1e, 0x2a, 220);
    draw_border(buf, stride, bx, by, bw, bh, 0x2a, 0x5a, 0x50);
    let ghost acc = rect_writes(st, bx as int, 8, 258, 100, navy()) + border_writes(
        st,
        bx as int,
        8,
        258,
        100,
        teal(255),
    );
    proof {
        lemma_paint_concat(
            o,
            rect_writes(st, bx as int, 8, 258, 100, navy()),
            border_writes(st, bx as int, 8, 258, 100, teal(255)),
        );
    }

    let mut i: usize = 0;
    while i < TAIL_LEN
        invariant
            i <= TAIL_LEN,
            bw == 258,
            bh == 100,
            by == 8,
            bx == bubble_x(mascot_left),
            bx + 266 <= usize::MAX,
            rect_fits(stride, bx, 8, 266, 100),
            st == stride as int,
            buf@ == paint(o, acc + tail_writes(st, bx as int, i as nat)),
        decreases TAIL_LEN - i,
    {
        let tx = bx + bw + i;
        let ty = by + bh / 2 - (7 - i);
        let th = if i * 2 + 2 < bh {
            i * 2 + 2
        } else {
            bh
        };
        proof {
            lemma_rect_fits_within(stride, tx, ty, 1, th, bx, 8, 266, 100);
        }
        let ghost before = buf@;
        fill_rect(buf, stride, tx, ty, 1, th, 0x14, 0x1e, 0x2a, 220);
        proof {
            lemma_paint_concat(o, acc + tail_writes(st, bx as int, i as nat), rect_writes(
                st,
                tx as int,
                ty as int,
                1,
                th as nat,
                navy(),
            ));
            assert(acc + tail_writes(st, bx as int, (i + 1) as nat) =~= (acc + tail_writes(
                st,
                bx as int,
                i as nat,
            )) + rect_writes(st, tx as int, ty as int, 1, th as nat, navy()));
        }
        i = i + 1;
    }
    let ghost acc2 = acc + tail_writes(st, bx as int, 8);

    proof {
        reveal_strlit("TIP");
        lemma_rect_fits_within(stride, (bx + 10) as usize, 18, 18, 7, bx, 8, 266, 100);
    }
    draw_text(buf, stride, "TIP", bx + 10, by + 10, 0xe8, 0x94, 0x3c);
    let ghost tipw = text_writes(st, bx + 10, 18, "TIP"@, Rgba { r: 0xe8, g: 0x94, b: 0x3c, a: 255 });
    proof {
        lemma_paint_concat(o, acc2, tipw);
    }

    let tip_lines = wrap_text(tip, 28);
    draw_lines(buf, stride, &tip_lines, bx + 10, by + 22);
    let ghost tl = lines_writes(st, bx + 10, 30, wrap_spec(tip@, 28), two(wrap_spec(tip@, 28)));
    proof {
        lemma_paint_concat(o, acc2 + tipw, tl);
        lemma_rect_fits_within(stride, (bx + 8) as usize, 60, 242, 1, bx, 8, 266, 100);
    }

    fill_rect(buf, stride, bx + 8, by + 52, bw - 16, 1, 0x2a, 0x5a, 0x50, 200);
    let ghost div = rect_writes(st, bx + 8, 60, 242, 1, teal(200));
    proof {
        lemma_paint_concat(o, acc2 + tipw + tl, div);
        reveal_strlit("JOKE");
        lemma_rect_fits_within(stride, (bx + 10) as usize, 66, 24, 7, bx, 8, 266, 100);
    }

    draw_text(buf, stride, "JOKE", bx + 10, by + 58, 0x90, 0x60, 0xc0);
    let ghost jokew = text_writes(st, bx + 10, 66, "JOKE"@, Rgba { r: 0x90, g: 0x60, b: 0xc0, a: 255 });
    proof {
        lemma_paint_concat(o, acc2 + tipw + tl + div, jokew);
    }

    let joke_lines = wrap_text(joke, 28);
    draw_lines(buf, stride, &joke_lines, bx + 10, by + 70);
    let ghost jl = lines_writes(st, bx + 10, 78, wrap_spec(joke@, 28), two(wrap_spec(joke@, 28)));
    proof {
        lemma_paint_concat(o, acc2 + tipw + tl + div + jokew, jl);
        assert(acc2 + tipw + tl + div + jokew + jl =~= bubble_writes(st, tip@, joke@, mascot_left));
    }
}


// ---------------------------------------------------------------------------
// Where the writes land

/// Write `w` is a pixel of the box of columns `x0 .. x1` and rows
/// `y0 .. y1`.
pub open spec fn write_in_box(w: PixelWrite, stride: int, x0: int, y0: int, x1: int, y1: int) -> bool {
    exists|row: int, col: int|
        y0 <= row < y1 && x0 <= col < x1 && #[trigger] pixel_off(stride, row, col) == w.off
}

/// Every write of `ws` is a pixel of the box.
pub open spec fn writes_in_box(ws: Seq<PixelWrite>, stride: int, x0: int, y0: int, x1: int, y1: int) -> bool {
    forall|k: int| 0 <= k < ws.len() ==> write_in_box(#[trigger] ws[k], stride, x0, y0, x1, y1)
}

/// Byte `i` belongs to no pixel of the box.
pub open spec fn outside_box(stride: int, x0: int, y0: int, x1: int, y1: int, i: int) -> bool {
    forall|row: int, col: int|
        y0 <= row < y1 && x0 <= col < x1 ==> !#[trigger] in_pixel(stride, row, col, i)
}

/// Writes that all land in a box leave every byte outside it unchanged.
pub proof fn lemma_box_untouched(
    buf: Seq<u8>,
    ws: Seq<PixelWrite>,
    stride: int,
    x0: int,
    y0: int,
    x1: int,
    y1: int,
    i: int,
)
    requires
        0 <= i < buf.len(),
        writes_in_box(ws, stride, x0, y0, x1, y1),
        outside_box(stride, x0, y0, x1, y1, i),
    ensures
        paint(buf, ws)[i] == buf[i],
{
    assert forall|k: int| 0 <= k < ws.len() implies !covers(#[trigger] ws[k], buf.len() as int, i) by {
        assert(write_in_box(ws[k], stride, x0, y0, x1, y1));
        let (row, col) = choose|row: int, col: int|
            y0 <= row < y1 && x0 <= col < x1 && #[trigger] pixel_off(stride, row, col) == ws[k].off;
        assert(!in_pixel(stride, row, col, i));
    }
    lemma_paint_untouched(buf, ws, i);
}

pub(crate) proof fn lemma_in_box_concat(a: Seq<PixelWrite>, b: Seq<PixelWrite>, stride: int, x0: int, y0: int, x1: int, y1: int)
    requires
        writes_in_box(a, stride, x0, y0, x1, y1),
        writes_in_box(b, stride, x0, y0, x1, y1),
    ensures
        writes_in_box(a + b, stride, x0, y0, x1, y1),
{
    assert forall|k: int| 0 <= k < (a + b).len() implies write_in_box(
        #[trigger] (a + b)[k],
        stride,
        x0,
        y0,
        x1,
        y1,
    ) by {
        if k < a.len() {
            assert((a + b)[k] == a[k]);
        } else {
            assert((a + b)[k] == b[k - a.len()]);
        }
    }
}

pub(crate) proof fn lemma_in_box_widen(
    ws: Seq<PixelWrite>,
    stride: int,
    x0: int,
    y0: int,
    x1: int,
    y1: int,
    u0: int,
    v0: int,
    u1: int,
    v1: int,
)
    requires
        writes_in_box(ws, stride, x0, y0, x1, y1),
        u0 <= x0,
        v0 <= y0,
        x1 <= u1,
        y1 <= v1,
    ensures
        writes_in_box(ws, stride, u0, v0, u1, v1),
{
    assert forall|k: int| 0 <= k < ws.len() implies write_in_box(#[trigger] ws[k], stride, u0, v0, u1, v1) by {
        assert(write_in_box(ws[k], stride, x0, y0, x1, y1));
        let (row, col) = choose|row: int, col: int|
            y0 <= row < y1 && x0 <= col < x1 && #[trigger] pixel_off(stride, row, col) == ws[k].off;
        assert(pixel_off(stride, row, col) == ws[k].off);
    }
}

proof fn lemma_pixel_in_box(stride: int, col: int, row: int, c: Rgba, x0: int, y0: int, x1: int, y1: int)
    requires
        y0 <= row < y1,
        x0 <= col < x1,
    ensures
        writes_in_box(seq![pixel(stride, col, row, c)], stride, x0, y0, x1, y1),
{
    assert(seq![pixel(stride, col, row, c)][0] == pixel(stride, col, row, c));
    assert(pixel_off(stride, row, col) == pixel(stride, col, row, c).off);
}

/// A filled rectangle's writes are its own pixels.
pub proof fn lemma_rect_in_box(stride: int, x: int, y: int, w: nat, h: nat, c: Rgba)
    ensures
        writes_in_box(rect_writes(stride, x, y, w, h, c), stride, x, y, x + w, y + h),
{
    let ws = rect_writes(stride, x, y, w, h, c);
    assert forall|k: int| 0 <= k < ws.len() implies write_in_box(#[trigger] ws[k], stride, x, y, x + w, y + h) by {
        let rc = lemma_rect_write(stride, x, y, w, h, c, k);
        assert(pixel_off(stride, y + rc.0, x + rc.1) == ws[k].off);
    }
}

proof fn lemma_border_in_box(stride: int, x: int, y: int, w: nat, h: nat, c: Rgba)
    requires
        w >= 2,
        h >= 2,
    ensures
        writes_in_box(border_writes(stride, x, y, w, h, c), stride, x, y, x + w, y + h),
{
    lemma_rect_in_box(stride, x, y, w, 2, c);
    lemma_rect_in_box(stride, x, y + h - 2, w, 2, c);
    lemma_rect_in_box(stride, x, y, 2, h, c);
    lemma_rect_in_box(stride, x + w - 2, y, 2, h, c);
    let r1 = rect_writes(stride, x, y, w, 2, c);
    let r2 = rect_writes(stride, x, y + h - 2, w, 2, c);
    let r3 = rect_writes(stride, x, y, 2, h, c);
    let r4 = rect_writes(stride, x + w - 2, y, 2, h, c);
    lemma_in_box_widen(r1, stride, x, y, x + w, y + 2, x, y, x + w, y + h);
    lemma_in_box_widen(r2, stride, x, y + h - 2, x + w, y + h, x, y, x + w, y + h);
    lemma_in_box_widen(r3, stride, x, y, x + 2, y + h, x, y, x + w, y + h);
    lemma_in_box_widen(r4, stride, x + w - 2, y, x + w, y + h, x, y, x + w, y + h);
    lemma_in_box_concat(r1, r2, stride, x, y, x + w, y + h);
    lemma_in_box_concat(r1 + r2, r3, stride, x, y, x + w, y + h);
    lemma_in_box_concat(r1 + r2 + r3, r4, stride, x, y, x + w, y + h);
}

proof fn lemma_glyph_row_in_box(stride: int, cx: int, row: int, bits: u8, k: nat, c: Rgba)
    requires
        k <= 5,
    ensures
        writes_in_box(glyph_row_writes(stride, cx, row, bits, k, c), stride, cx, row, cx + 5, row + 1),
    decreases k,
{
    if k > 0 {
        lemma_glyph_row_in_box(stride, cx, row, bits, (k - 1) as nat, c);
        if bit_set(bits, (k - 1) as usize) {
            lemma_pixel_in_box(stride, cx + k - 1, row, c, cx, row, cx + 5, row + 1);
            lemma_in_box_concat(
                glyph_row_writes(stride, cx, row, bits, (k - 1) as nat, c),
                seq![pixel(stride, cx + k - 1, row, c)],
                stride,
                cx,
                row,
                cx + 5,
                row + 1,
            );
        } else {
            assert(glyph_row_writes(stride, cx, row, bits, k, c) =~= glyph_row_writes(
                stride,
                cx,
                row,
                bits,
                (k - 1) as nat,
                c,
            ));
        }
    }
}

proof fn lemma_glyph_in_box(stride: int, cx: int, y: int, g: Seq<u8>, n: nat, c: Rgba)
    ensures
        writes_in_box(glyph_writes(stride, cx, y, g, n, c), stride, cx, y, cx + 5, y + n),
    decreases n,
{
    if n > 0 {
        lemma_glyph_in_box(stride, cx, y, g, (n - 1) as nat, c);
        lemma_in_box_widen(
            glyph_writes(stride, cx, y, g, (n - 1) as nat, c),
            stride,
            cx,
            y,
            cx + 5,
            y + n - 1,
            cx,
            y,
            cx + 5,
            y + n,
        );
        lemma_glyph_row_in_box(stride, cx, y + n - 1, g[n - 1], 5, c);
        lemma_in_box_widen(
            glyph_row_writes(stride, cx, y + n - 1, g[n - 1], 5, c),
            stride,
            cx,
            y + n - 1,
            cx + 5,
            y + n,
            cx,
            y,
            cx + 5,
            y + n,
        );
        lemma_in_box_concat(
            glyph_writes(stride, cx, y, g, (n - 1) as nat, c),
            glyph_row_writes(stride, cx, y + n - 1, g[n - 1], 5, c),
            stride,
            cx,
            y,
            cx + 5,
            y + n,
        );
    }
}

/// A line of text stays in its cells: six pixels per character, seven
/// rows.
pub proof fn lemma_text_in_box(stride: int, x: int, y: int, text: Seq<char>, c: Rgba)
    ensures
        writes_in_box(text_writes(stride, x, y, text, c), stride, x, y, x + 6 * text.len(), y + 7),
    decreases text.len(),
{
    if text.len() > 0 {
        let n = text.len();
        lemma_text_in_box(stride, x, y, text.drop_last(), c);
        lemma_in_box_widen(
            text_writes(stride, x, y, text.drop_last(), c),
            stride,
            x,
            y,
            x + 6 * (n - 1),
            y + 7,
            x,
            y,
            x + 6 * n,
            y + 7,
        );
        let cx = x + 6 * (n - 1);
        lemma_glyph_in_box(stride, cx, y, glyph_of(text.last()), 7, c);
        lemma_in_box_widen(
            glyph_writes(stride, cx, y, glyph_of(text.last()), 7, c),
            stride,
            cx,
            y,
            cx + 5,
            y + 7,
            x,
            y,
            x + 6 * n,
            y + 7,
        );
        lemma_in_box_concat(
            text_writes(stride, x, y, text.drop_last(), c),
            glyph_writes(stride, cx, y, glyph_of(text.last()), 7, c),
            stride,
            x,
            y,
            x + 6 * n,
            y + 7,
        );
    }
}

proof fn lemma_lines_in_box(stride: int, x: int, y0: int, lines: Seq<Seq<char>>, k: nat, maxc: nat)
    requires
        k <= lines.len(),
        forall|j: int| 0 <= j < k ==> (#[trigger] lines[j]).len() <= maxc,
    ensures
        writes_in_box(lines_writes(stride, x, y0, lines, k), stride, x, y0, x + 6 * maxc, y0 + 13 * k),
    decreases k,
{
    if k > 0 {
        let kk = (k - 1) as nat;
        lemma_lines_in_box(stride, x, y0, lines, kk, maxc);
        lemma_in_box_widen(
            lines_writes(stride, x, y0, lines, kk),
            stride,
            x,
            y0,
            x + 6 * maxc,
            y0 + 13 * kk,
            x,
            y0,
            x + 6 * maxc,
            y0 + 13 * k,
        );
        let l = lines[k - 1];
        lemma_text_in_box(stride, x, y0 + 13 * kk, l, cream());
        lemma_in_box_widen(
            text_writes(stride, x, y0 + 13 * kk, l, cream()),
            stride,
            x,
            y0 + 13 * kk,
            x + 6 * l.len(),
            y0 + 13 * kk + 7,
            x,
            y0,
            x + 6 * maxc,
            y0 + 13 * k,
        );
        lemma_in_box_concat(
            lines_writes(stride, x, y0, lines, kk),
            text_writes(stride, x, y0 + 13 * kk, l, cream()),
            stride,
            x,
            y0,
            x + 6 * maxc,
            y0 + 13 * k,
        );
    }
}

proof fn lemma_tail_in_box(stride: int, bx: int, k: nat)
    requires
        k <= 8,
    ensures
        writes_in_box(tail_writes(stride, bx, k), stride, bx + 258, 51, bx + 266, 75),
    decreases k,
{
    if k > 0 {
        let i = k - 1;
        lemma_tail_in_box(stride, bx, (k - 1) as nat);
        lemma_rect_in_box(stride, bx + 258 + i, 51 + i, 1, (2 * i + 2) as nat, navy());
        lemma_in_box_widen(
            rect_writes(stride, bx + 258 + i, 51 + i, 1, (2 * i + 2) as nat, navy()),
            stride,
            bx + 258 + i,
            51 + i,
            bx + 258 + i + 1,
            51 + i + 2 * i + 2,
            bx + 258,
            51,
            bx + 266,
            75,
        );
        lemma_in_box_concat(
            tail_writes(stride, bx, (k - 1) as nat),
            rect_writes(stride, bx + 258 + i, 51 + i, 1, (2 * i + 2) as nat, navy()),
            stride,
            bx + 258,
            51,
            bx + 266,
            75,
        );
    }
}

/// The shown lines of a wrapped text are at most `maxc` characters long.
pub open spec fn shown_lines_within(text: Seq<char>, maxc: nat) -> bool {
    forall|j: int| 0 <= j < two(wrap_spec(text, 28)) ==> (#[trigger] wrap_spec(text, 28)[j]).len() <= maxc
}

/// The bubble draws only inside its box, columns `bx .. bx + 266` (tail
/// included) and rows `8 .. 108`, as long as each shown line of tip and
/// joke is at most 42 characters (a longer single word runs past the box's
/// right edge): every byte outside keeps its value.
pub proof fn lemma_bubble_stays_in_box(
    buf: Seq<u8>,
    stride: int,
    tip: Seq<char>,
    joke: Seq<char>,
    mascot_left: usize,
    i: int,
)
    requires
        0 <= i < buf.len(),
        shown_lines_within(tip, 42),
        shown_lines_within(joke, 42),
        outside_box(
            stride,
            bubble_x(mascot_left) as int,
            8,
            bubble_x(mascot_left) + 266,
            108,
            i,
        ),
    ensures
        paint(buf, bubble_writes(stride, tip, joke, mascot_left))[i] == buf[i],
{
    let bx = bubble_x(mascot_left) as int;
    let (x0, y0, x1, y1) = (bx, 8int, bx + 266, 108int);
    let tl = wrap_spec(tip, 28);
    let jl = wrap_spec(joke, 28);
    let w1 = rect_writes(stride, bx, 8, 258, 100, navy());
    let w2 = border_writes(stride, bx, 8, 258, 100, teal(255));
    let w3 = tail_writes(stride, bx, 8);
    let w4 = text_writes(stride, bx + 10, 18, "TIP"@, Rgba { r: 0xe8, g: 0x94, b: 0x3c, a: 255 });
    let w5 = lines_writes(stride, bx + 10, 30, tl, two(tl));
    let w6 = rect_writes(stride, bx + 8, 60, 242, 1, teal(200));
    let w7 = text_writes(stride, bx + 10, 66, "JOKE"@, Rgba { r: 0x90, g: 0x60, b: 0xc0, a: 255 });
    let w8 = lines_writes(stride, bx + 10, 78, jl, two(jl));
    reveal_strlit("TIP");
    reveal_strlit("JOKE");
    lemma_rect_in_box(stride, bx, 8, 258, 100, navy());
    lemma_in_box_widen(w1, stride, bx, 8, bx + 258, 108, x0, y0, x1, y1);
    lemma_border_in_box(stride, bx, 8, 258, 100, teal(255));
    lemma_in_box_widen(w2, stride, bx, 8, bx + 258, 108, x0, y0, x1, y1);
    lemma_tail_in_box(stride, bx, 8);
    lemma_in_box_widen(w3, stride, bx + 258, 51, bx + 266, 75, x0, y0, x1, y1);
    lemma_text_in_box(stride, bx + 10, 18, "TIP"@, Rgba { r: 0xe8, g: 0x94, b: 0x3c, a: 255 });
    lemma_in_box_widen(w4, stride, bx + 10, 18, bx + 10 + 18, 25, x0, y0, x1, y1);
    lemma_lines_in_box(stride, bx + 10, 30, tl, two(tl), 42);
    lemma_in_box_widen(w5, stride, bx + 10, 30, bx + 10 + 6 * 42, 30 + 13 * (two(tl) as int), x0, y0, x1, y1);
    lemma_rect_in_box(stride, bx + 8, 60, 242, 1, teal(200));
    lemma_in_box_widen(w6, stride, bx + 8, 60, bx + 250, 61, x0, y0, x1, y1);
    lemma_text_in_box(stride, bx + 10, 66, "JOKE"@, Rgba { r: 0x90, g: 0x60, b: 0xc0, a: 255 });
    lemma_in_box_widen(w7, stride, bx + 10, 66, bx + 10 + 24, 73, x0, y0, x1, y1);
    lemma_lines_in_box(stride, bx + 10, 78, jl, two(jl), 42);
    lemma_in_box_widen(w8, stride, bx + 10, 78, bx + 10 + 6 * 42, 78 + 13 * (two(jl) as int), x0, y0, x1, y1);
    lemma_in_box_concat(w1, w2, stride, x0, y0, x1, y1);
    lemma_in_box_concat(w1 + w2, w3, stride, x0, y0, x1, y1);
    lemma_in_box_concat(w1 + w2 + w3, w4, stride, x0, y0, x1, y1);
    lemma_in_box_concat(w1 + w2 + w3 + w4, w5, stride, x0, y0, x1, y1);
    lemma_in_box_concat(w1 + w2 + w3 + w4 + w5, w6, stride, x0, y0, x1, y1);
    lemma_in_box_concat(w1 + w2 + w3 + w4 + w5 + w6, w7, stride, x0, y0, x1, y1);
    lemma_in_box_concat(w1 + w2 + w3 + w4 + w5 + w6 + w7, w8, stride, x0, y0, x1, y1);
    assert(w1 + w2 + w3 + w4 + w5 + w6 + w7 + w8 == bubble_writes(stride, tip, joke, mascot_left));
    lemma_box_untouched(buf, bubble_writes(stride, tip, joke, mascot_left), stride, x0, y0, x1, y1, i);
}

/// The last covering write of two lists painted in turn is the second
/// list's, if it covers the byte at all.
pub proof fn lemma_last_byte_concat(a: Seq<PixelWrite>, b: Seq<PixelWrite>, len: int, i: int)
    ensures
        last_byte(a + b, len, i) == (match last_byte(b, len, i) {
            Some(v) => Some(v),
            None => last_byte(a, len, i),
        }),
    decreases b.len(),
{
    if b.len() == 0 {
        assert(a + b =~= a);
    } else {
        assert((a + b).drop_last() =~= a + b.drop_last());
        assert((a + b).last() == b.last());
        lemma_last_byte_concat(a, b.drop_last(), len, i);
    }
}

/// Two different pixels that both end within their row share no byte.
pub proof fn lemma_pixels_apart(stride: int, r1: int, c1: int, r2: int, c2: int)
    requires
        r1 >= 0,
        r2 >= 0,
        c1 >= 0,
        c2 >= 0,
        4 * c1 + 4 <= stride,
        4 * c2 + 4 <= stride,
        r1 != r2 || c1 != c2,
    ensures
        pixel_off(stride, r1, c1) + 4 <= pixel_off(stride, r2, c2) || pixel_off(stride, r2, c2) + 4
            <= pixel_off(stride, r1, c1),
{
    if r1 < r2 {
        assert(r1 * stride + stride <= r2 * stride) by (nonlinear_arith)
            requires
                r1 + 1 <= r2,
                stride >= 0,
        ;
    } else if r2 < r1 {
        assert(r2 * stride + stride <= r1 * stride) by (nonlinear_arith)
            requires
                r2 + 1 <= r1,
                stride >= 0,
        ;
    }
}

/// Writes confined to a box that does not hold pixel (`col`, `row`) leave
/// that pixel's bytes alone.
pub proof fn lemma_box_misses(
    ws: Seq<PixelWrite>,
    stride: int,
    x0: int,
    y0: int,
    x1: int,
    y1: int,
    row: int,
    col: int,
    len: int,
    i: int,
)
    requires
        writes_in_box(ws, stride, x0, y0, x1, y1),
        0 <= x0,
        0 <= y0,
        4 * x1 <= stride,
        0 <= row,
        0 <= col,
        4 * col + 4 <= stride,
        !(y0 <= row < y1 && x0 <= col < x1),
        in_pixel(stride, row, col, i),
    ensures
        last_byte(ws, len, i) is None,
{
    assert forall|k: int| 0 <= k < ws.len() implies !covers(#[trigger] ws[k], len, i) by {
        assert(write_in_box(ws[k], stride, x0, y0, x1, y1));
        let (r, c) = choose|r: int, c: int|
            y0 <= r < y1 && x0 <= c < x1 && #[trigger] pixel_off(stride, r, c) == ws[k].off;
        lemma_pixels_apart(stride, r, c, row, col);
    }
    lemma_last_byte_none(ws, len, i);
}

/// The last covering write of a filled rectangle, at any byte of one of
/// its pixels in the buffer, puts the fill colour's channel there, when
/// rows are a whole number of pixels apart or the rectangle ends before
/// the row does.
pub proof fn lemma_rect_last_byte(len: int, stride: int, x: int, y: int, w: nat, h: nat, c: Rgba, row: int, col: int, j: int)
    requires
        stride >= 0,
        stride % 4 == 0 || 4 * (x + w) <= stride,
        x >= 0,
        y >= 0,
        y <= row < y + h,
        x <= col < x + w,
        pixel_off(stride, row, col) + 4 <= len,
        0 <= j < 4,
    ensures
        last_byte(rect_writes(stride, x, y, w, h, c), len, pixel_off(stride, row, col) + j) == Some(channel(c, j)),
{
    let ws = rect_writes(stride, x, y, w, h, c);
    let p = pixel_off(stride, row, col);
    let i = p + j;
    let k0 = (row - y) * w + (col - x);
    lemma_rect_index(stride, x, y, w, h, c, row - y, col - x);
    assert(pixel_off(stride, row, col) >= 0) by (nonlinear_arith)
        requires
            row >= 0,
            col >= 0,
            stride >= 0,
    ;
    assert forall|k: int| 0 <= k < ws.len() && covers(#[trigger] ws[k], len, i) implies i - ws[k].off == j
        && ws[k].b == c.b && ws[k].g == c.g && ws[k].r == c.r && ws[k].a == c.a by {
        let rc = lemma_rect_write(stride, x, y, w, h, c, k);
        let (r2, c2) = (y + rc.0, x + rc.1);
        if stride % 4 == 0 {
            lemma_aligned(stride, r2, c2);
            lemma_aligned(stride, row, col);
            let q = pixel_off(stride, r2, c2);
            assert(q == p) by {
                let a = q / 4;
                let b = p / 4;
                assert(q == 4 * a);
                assert(p == 4 * b);
            }
        } else {
            if r2 != row || c2 != col {
                lemma_pixels_apart(stride, r2, c2, row, col);
            }
        }
    }
    lemma_last_byte_uniform(ws, len, i, c, k0, j);
}

} // verus!
