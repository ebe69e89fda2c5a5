//! The tap-to-open action menu: its rows, the action behind each, and
//! drawing the panel.

use vstd::prelude::*;
use crate::bubble::{
    cream, draw_text, fill_rect, lemma_box_untouched, lemma_in_box_concat, lemma_in_box_widen,
    lemma_paint_concat, lemma_rect_fits_within, lemma_rect_in_box, lemma_text_in_box, navy,
    outside_box, paint, rect_fits, rect_writes, teal, text_writes, writes_in_box, PixelWrite, Rgba,
    channel, in_pixel, last_byte, lemma_box_misses, lemma_last_byte_concat, lemma_paint_at,
    lemma_rect_last_byte, pixel_off,
};

verus! {

/// What a menu row does.
#[derive(Debug, Clone, Copy, PartialEq, Eq, Structural)]
pub enum MenuAction {
    Morning,
    Terminal,
    Browser,
    Ask,
    Quit,
}

/// Rows, top to bottom, with their labels.
pub const ITEMS: [(MenuAction, &'static str); 5] = [
    (MenuAction::Morning, "morning"),
    (MenuAction::Terminal, "terminal"),
    (MenuAction::Browser, "browser"),
    (MenuAction::Ask, "ask"),
    (MenuAction::Quit, "quit"),
];

/// Number of menu rows.
pub const ITEM_COUNT: usize = 5;

/// Panel width in pixels.
pub const PANEL_W: usize = 104;

/// Panel top edge, row height, and header height above the first row.
pub const MENU_Y: usize = 8;
pub const ROW_H: usize = 17;
pub const HEADER_H: usize = 13;

/// The action of each row, top to bottom.
pub open spec fn actions() -> Seq<MenuAction> {
    seq![
        MenuAction::Morning,
        MenuAction::Terminal,
        MenuAction::Browser,
        MenuAction::Ask,
        MenuAction::Quit,
    ]
}

/// The label of each row, top to bottom.
pub open spec fn labels() -> Seq<Seq<char>> {
    seq!["morning"@, "terminal"@, "browser"@, "ask"@, "quit"@]
}

/// Top edge of the first row.
pub fn rows_top() -> (r: usize)
    ensures
        r == MENU_Y + HEADER_H,
{
    MENU_Y + HEADER_H
}

/// Panel height: header, the rows, and a small bottom margin.
pub fn panel_h() -> (r: usize)
    ensures
        r == HEADER_H + ITEM_COUNT * ROW_H + 5,
{
    HEADER_H + ITEM_COUNT * ROW_H + 5
}

/// The action behind row `row`, if there is such a row.
pub fn action(row: usize) -> (r: Option<MenuAction>)
    ensures
        row < ITEM_COUNT ==> r == Some(actions()[row as int]),
        row >= ITEM_COUNT ==> r is None,
{
    match row {
        0 => Some(MenuAction::Morning),
        1 => Some(MenuAction::Terminal),
        2 => Some(MenuAction::Browser),
        3 => Some(MenuAction::Ask),
        4 => Some(MenuAction::Quit),
        _ => None,
    }
}

/// The label of row `row` (`row < ITEM_COUNT`).
pub fn label(row: usize) -> (r: &'static str)
    requires
        row < ITEM_COUNT,
    ensures
        r@ == labels()[row as int],
{
    match row {
        0 => "morning",
        1 => "terminal",
        2 => "browser",
        3 => "ask",
        _ => "quit",
    }
}

/// The highlighted-row band and label of the first `k` rows.
pub open spec fn rows_writes(stride: int, ox: int, highlight: Option<usize>, k: nat) -> Seq<PixelWrite>
    decreases k,
{
    if k == 0 {
        Seq::empty()
    } else {
        let i = k - 1;
        let ry = 21 + 17 * i;
        rows_writes(stride, ox, highlight, (k - 1) as nat) + (if highlight == Some(i as usize) {
            rect_writes(stride, ox + 2, ry, 100, 16, teal(140))
        } else {
            Seq::empty()
        }) + text_writes(stride, ox + 8, ry + 4, labels()[i], cream())
    }
}

/// Everything the panel draws: background, a one-pixel border, the
/// ACTIONS header, then each row (highlight band first when it is the
/// hovered one, then its label).
pub open spec fn menu_writes(stride: int, ox: int, highlight: Option<usize>) -> Seq<PixelWrite> {
    rect_writes(stride, ox, 8, 104, 103, panel_bg()) + rect_writes(
        stride,
        ox,
        8,
        104,
        1,
        teal(255),
    ) + rect_writes(stride, ox, 110, 104, 1, teal(255)) + rect_writes(stride, ox, 8, 1, 103, teal(255))
        + rect_writes(stride, ox + 103, 8, 1, 103, teal(255)) + text_writes(
        stride,
        ox + 6,
        11,
        "ACTIONS"@,
        Rgba { r: 0xe8, g: 0x94, b: 0x3c, a: 255 },
    ) + rows_writes(stride, ox, highlight, 5)
}

/// Draws the panel with its left edge at `ox`; `highlight` lights the row
/// under the cursor.
pub fn draw(buf: &mut [u8], stride: usize, ox: usize, highlight: Option<usize>)
    requires
        ox + PANEL_W <= usize::MAX,
        rect_fits(stride, ox, MENU_Y, PANEL_W, 103),
    ensures
        final(buf)@ == paint(old(buf)@, menu_writes(stride as int, ox as int, highlight)),
{
    let h = panel_h();
    let ghost st = stride as int;
    let ghost o = buf@;
    fill_rect(buf, stride, ox, MENU_Y, PANEL_W, h, 0x14, 0x1e, 0x2a, 235);
    let ghost w0 = rect_writes(st, ox as int, 8, 104, 103, Rgba { a: 235, ..navy() });
    proof {
        lemma_rect_fits_within(stride, ox, MENU_Y, PANEL_W, 1, ox, 8, 104, 103);
    }
    fill_rect(buf, stride, ox, MENU_Y, PANEL_W, 1, 0x2a, 0x5a, 0x50, 255);
    let ghost w1 = rect_writes(st, ox as int, 8, 104, 1, teal(255));
    proof {
        lemma_paint_concat(o, w0, w1);
        lemma_rect_fits_within(stride, ox, 110, PANEL_W, 1, ox, 8, 104, 103);
    }
    fill_rect(buf, stride, ox, MENU_Y + h - 1, PANEL_W, 1, 0x2a, 0x5a, 0x50, 255);
    let ghost w2 = rect_writes(st, ox as int, 110, 104, 1, teal(255));
    proof {
        lemma_paint_concat(o, w0 + w1, w2);
        lemma_rect_fits_within(stride, ox, MENU_Y, 1, 103, ox, 8, 104, 103);
    }
    fill_rect(buf, stride, ox, MENU_Y, 1, h, 0x2a, 0x5a, 0x50, 255);
    let ghost w3 = rect_writes(st, ox as int, 8, 1, 103, teal(255));
    proof {
        lemma_paint_concat(o, w0 + w1 + w2, w3);
        lemma_rect_fits_within(stride, (ox + 103) as usize, MENU_Y, 1, 103, ox, 8, 104, 103);
    }
    fill_rect(buf, stride, ox + PANEL_W - 1, MENU_Y, 1, h, 0x2a, 0x5a, 0x50, 255);
    let ghost w4 = rect_writes(st, ox + 103, 8, 1, 103, teal(255));
    proof {
        lemma_paint_concat(o, w0 + w1 + w2 + w3, w4);
        reveal_strlit("ACTIONS");
        lemma_rect_fits_within(stride, (ox + 6) as usize, 11, 42, 7, ox, 8, 104, 103);
    }
    draw_text(buf, stride, "ACTIONS", ox + 6, MENU_Y + 3, 0xe8, 0x94, 0x3c);
    let ghost w5 = text_writes(st, ox + 6, 11, "ACTIONS"@, Rgba { r: 0xe8, g: 0x94, b: 0x3c, a: 255 });
    proof {
        lemma_paint_concat(o, w0 + w1 + w2 + w3 + w4, w5);
    }
    let ghost head = w0 + w1 + w2 + w3 + w4 + w5;
    let top = rows_top();
    let mut i: usize = 0;
    while i < ITEM_COUNT
        invariant
            i <= ITEM_COUNT,
            top == 21,
            ox + PANEL_W <= usize::MAX,
            rect_fits(stride, ox, MENU_Y, PANEL_W, 103),
            st == stride as int,
            buf@ == paint(o, head + rows_writes(st, ox as int, highlight, i as nat)),
        decreases ITEM_COUNT - i,
    {
        let ry = top + i * ROW_H;
        let ghost before = head + rows_writes(st, ox as int, highlight, i as nat);
        let ghost band = if highlight == Some(i) {
            rect_writes(st, ox + 2, ry as int, 100, 16, teal(140))
        } else {
            Seq::<PixelWrite>::empty()
        };
        if highlight == Some(i) {
            proof {
                lemma_rect_fits_within(stride, (ox + 2) as usize, ry, 100, 16, ox, 8, 104, 103);
            }
            fill_rect(buf, stride, ox + 2, ry, PANEL_W - 4, ROW_H - 1, 0x2a, 0x5a, 0x50, 140);
            proof {
                lemma_paint_concat(o, before, band);
            }
        } else {
            assert(before + band =~= before);
        }
        let lab = label(i);
        proof {
            assert(lab@.len() <= 8) by {
                reveal_strlit("morning");
                reveal_strlit("terminal");
                reveal_strlit("browser");
                reveal_strlit("ask");
                reveal_strlit("quit");
            }
            lemma_rect_fits_within(stride, (ox + 8) as usize, (ry + 4) as usize, (6 * lab@.len()) as usize, 7, ox, 8, 104, 103);
        }
        draw_text(buf, stride, lab, ox + 8, ry + 4, 0xe0, 0xd8, 0x98);
        proof {
            let t = text_writes(st, ox + 8, ry + 4, labels()[i as int], cream());
            lemma_paint_concat(o, before + band, t);
            assert(rows_writes(st, ox as int, highlight, (i + 1) as nat) =~= rows_writes(
                st,
                ox as int,
                highlight,
                i as nat,
            ) + band + t);
            assert(head + rows_writes(st, ox as int, highlight, (i + 1) as nat) =~= before + band + t);
        }
        i = i + 1;
    }
}


/// A highlight past the last row draws nothing extra: the rows look as
/// with no highlight.
pub proof fn lemma_rows_highlight_out_of_range(stride: int, ox: int, k: usize, n: nat)
    requires
        n <= k,
    ensures
        rows_writes(stride, ox, Some(k), n) == rows_writes(stride, ox, None, n),
    decreases n,
{
    if n > 0 {
        lemma_rows_highlight_out_of_range(stride, ox, k, (n - 1) as nat);
    }
}

/// Drawing the panel with a highlighted row past the last one draws
/// exactly what drawing it with no highlight does.
pub proof fn lemma_highlight_out_of_range(stride: int, ox: int, k: usize)
    requires
        k >= ITEM_COUNT,
    ensures
        menu_writes(stride, ox, Some(k)) == menu_writes(stride, ox, None),
{
    lemma_rows_highlight_out_of_range(stride, ox, k, 5);
}

proof fn lemma_rows_in_panel(stride: int, ox: int, highlight: Option<usize>, n: nat)
    requires
        n <= 5,
    ensures
        writes_in_box(rows_writes(stride, ox, highlight, n), stride, ox, 8, ox + 104, 111),
    decreases n,
{
    if n > 0 {
        let i = n - 1;
        let ry = 21 + 17 * i;
        lemma_rows_in_panel(stride, ox, highlight, (n - 1) as nat);
        let band = if highlight == Some(i as usize) {
            rect_writes(stride, ox + 2, ry, 100, 16, teal(140))
        } else {
            Seq::empty()
        };
        lemma_rect_in_box(stride, ox + 2, ry, 100, 16, teal(140));
        lemma_in_box_widen(
            rect_writes(stride, ox + 2, ry, 100, 16, teal(140)),
            stride,
            ox + 2,
            ry,
            ox + 102,
            ry + 16,
            ox,
            8,
            ox + 104,
            111,
        );
        let lab = labels()[i];
        assert(lab.len() <= 8) by {
            reveal_strlit("morning");
            reveal_strlit("terminal");
            reveal_strlit("browser");
            reveal_strlit("ask");
            reveal_strlit("quit");
        }
        let t = text_writes(stride, ox + 8, ry + 4, lab, cream());
        lemma_text_in_box(stride, ox + 8, ry + 4, lab, cream());
        lemma_in_box_widen(t, stride, ox + 8, ry + 4, ox + 8 + 6 * lab.len(), ry + 11, ox, 8, ox + 104, 111);
        lemma_in_box_concat(rows_writes(stride, ox, highlight, (n - 1) as nat), band, stride, ox, 8, ox + 104, 111);
        lemma_in_box_concat(
            rows_writes(stride, ox, highlight, (n - 1) as nat) + band,
            t,
            stride,
            ox,
            8,
            ox + 104,
            111,
        );
    }
}

/// The menu changes only its panel: every byte that lies in no pixel of
/// columns `ox .. ox + 104` and rows `8 .. 111` keeps its value.
pub proof fn lemma_menu_stays_in_panel(buf: Seq<u8>, stride: int, ox: int, highlight: Option<usize>, i: int)
    requires
        0 <= i < buf.len(),
        outside_box(stride, ox, 8, ox + 104, 111, i),
    ensures
        paint(buf, menu_writes(stride, ox, highlight))[i] == buf[i],
{
    let (x0, y0, x1, y1) = (ox, 8int, ox + 104, 111int);
    let w0 = rect_writes(stride, ox, 8, 104, 103, Rgba { a: 235, ..navy() });
    let w1 = rect_writes(stride, ox, 8, 104, 1, teal(255));
    let w2 = rect_writes(stride, ox, 110, 104, 1, teal(255));
    let w3 = rect_writes(stride, ox, 8, 1, 103, teal(255));
    let w4 = rect_writes(stride, ox + 103, 8, 1, 103, teal(255));
    let hc = Rgba { r: 0xe8, g: 0x94, b: 0x3c, a: 255 };
    let w5 = text_writes(stride, ox + 6, 11, "ACTIONS"@, hc);
    let w6 = rows_writes(stride, ox, highlight, 5);
    reveal_strlit("ACTIONS");
    lemma_rect_in_box(stride, ox, 8, 104, 103, Rgba { a: 235, ..navy() });
    lemma_rect_in_box(stride, ox, 8, 104, 1, teal(255));
    lemma_in_box_widen(w1, stride, ox, 8, ox + 104, 9, x0, y0, x1, y1);
    lemma_rect_in_box(stride, ox, 110, 104, 1, teal(255));
    lemma_in_box_widen(w2, stride, ox, 110, ox + 104, 111, x0, y0, x1, y1);
    lemma_rect_in_box(stride, ox, 8, 1, 103, teal(255));
    lemma_in_box_widen(w3, stride, ox, 8, ox + 1, 111, x0, y0, x1, y1);
    lemma_rect_in_box(stride, ox + 103, 8, 1, 103, teal(255));
    lemma_text_in_box(stride, ox + 6, 11, "ACTIONS"@, hc);
    lemma_in_box_widen(w5, stride, ox + 6, 11, ox + 48, 18, x0, y0, x1, y1);
    lemma_rows_in_panel(stride, ox, highlight, 5);
    lemma_in_box_concat(w0, w1, stride, x0, y0, x1, y1);
    lemma_in_box_concat(w0 + w1, w2, stride, x0, y0, x1, y1);
    lemma_in_box_concat(w0 + w1 + w2, w3, stride, x0, y0, x1, y1);
    lemma_in_box_concat(w0 + w1 + w2 + w3, w4, stride, x0, y0, x1, y1);
    lemma_in_box_concat(w0 + w1 + w2 + w3 + w4, w5, stride, x0, y0, x1, y1);
    lemma_in_box_concat(w0 + w1 + w2 + w3 + w4 + w5, w6, stride, x0, y0, x1, y1);
    lemma_box_untouched(buf, menu_writes(stride, ox, highlight), stride, x0, y0, x1, y1, i);
}

/// The background colour of the panel.
pub open spec fn panel_bg() -> Rgba {
    Rgba { a: 235, ..navy() }
}

/// Facts on the label of row `i`: at most eight characters, so it stays
/// within 48 pixels.
proof fn lemma_label_len(i: int)
    requires
        0 <= i < 5,
    ensures
        labels()[i].len() <= 8,
{
    reveal_strlit("morning");
    reveal_strlit("terminal");
    reveal_strlit("browser");
    reveal_strlit("ask");
    reveal_strlit("quit");
}

/// At a byte of pixel (`ox + 2`, `21 + 17 * i`), the rows draw the
/// highlight band's colour when row `i` is highlighted, and nothing else.
proof fn lemma_rows_at_band(
    stride: int,
    ox: int,
    highlight: Option<usize>,
    k: nat,
    i: int,
    j: int,
    len: int,
)
    requires
        k <= 5,
        0 <= i < 5,
        0 <= j < 4,
        ox >= 0,
        4 * (ox + 104) <= stride,
        pixel_off(stride, 21 + 17 * i, ox + 2) + 4 <= len,
    ensures
        last_byte(rows_writes(stride, ox, highlight, k), len, pixel_off(stride, 21 + 17 * i, ox + 2) + j)
            == (if k > i && highlight == Some(i as usize) {
            Some(channel(teal(140), j))
        } else {
            None
        }),
    decreases k,
{
    let at = pixel_off(stride, 21 + 17 * i, ox + 2) + j;
    assert(in_pixel(stride, 21 + 17 * i, ox + 2, at));
    if k == 0 {
    } else {
        let m = k - 1;
        let ry = 21 + 17 * m;
        lemma_rows_at_band(stride, ox, highlight, (k - 1) as nat, i, j, len);
        let prev = rows_writes(stride, ox, highlight, (k - 1) as nat);
        let band = if highlight == Some(m as usize) {
            rect_writes(stride, ox + 2, ry, 100, 16, teal(140))
        } else {
            Seq::empty()
        };
        let lab = labels()[m];
        lemma_label_len(m);
        let t = text_writes(stride, ox + 8, ry + 4, lab, cream());
        lemma_text_in_box(stride, ox + 8, ry + 4, lab, cream());
        lemma_box_misses(t, stride, ox + 8, ry + 4, ox + 8 + 6 * lab.len(), ry + 11, 21 + 17 * i, ox + 2, len, at);
        lemma_last_byte_concat(prev + band, t, len, at);
        lemma_last_byte_concat(prev, band, len, at);
        if highlight == Some(m as usize) {
            if m == i {
                lemma_rect_last_byte(len, stride, ox + 2, ry, 100, 16, teal(140), 21 + 17 * i, ox + 2, j);
            } else {
                lemma_rect_in_box(stride, ox + 2, ry, 100, 16, teal(140));
                lemma_box_misses(band, stride, ox + 2, ry, ox + 102, ry + 16, 21 + 17 * i, ox + 2, len, at);
            }
        }
        assert(rows_writes(stride, ox, highlight, k) == prev + band + t);
    }
}

/// The rows draw nothing above the first row.
proof fn lemma_rows_above(stride: int, ox: int, highlight: Option<usize>, k: nat, row: int, col: int, at: int, len: int)
    requires
        k <= 5,
        0 <= row < 21,
        ox <= col < ox + 104,
        ox >= 0,
        4 * (ox + 104) <= stride,
        in_pixel(stride, row, col, at),
    ensures
        last_byte(rows_writes(stride, ox, highlight, k), len, at) is None,
    decreases k,
{
    if k > 0 {
        let m = k - 1;
        let ry = 21 + 17 * m;
        lemma_rows_above(stride, ox, highlight, (k - 1) as nat, row, col, at, len);
        let prev = rows_writes(stride, ox, highlight, (k - 1) as nat);
        let band = if highlight == Some(m as usize) {
            rect_writes(stride, ox + 2, ry, 100, 16, teal(140))
        } else {
            Seq::empty()
        };
        let lab = labels()[m];
        lemma_label_len(m);
        let t = text_writes(stride, ox + 8, ry + 4, lab, cream());
        lemma_text_in_box(stride, ox + 8, ry + 4, lab, cream());
        lemma_box_misses(t, stride, ox + 8, ry + 4, ox + 8 + 6 * lab.len(), ry + 11, row, col, len, at);
        lemma_last_byte_concat(prev + band, t, len, at);
        lemma_last_byte_concat(prev, band, len, at);
        if highlight == Some(m as usize) {
            lemma_rect_in_box(stride, ox + 2, ry, 100, 16, teal(140));
            lemma_box_misses(band, stride, ox + 2, ry, ox + 102, ry + 16, row, col, len, at);
        }
        assert(rows_writes(stride, ox, highlight, k) == prev + band + t);
    }
}

/// The head of the panel (background, border, header) at a byte of a
/// pixel inside the border, left of the header, and below its top edge:
/// only the background covers it.
proof fn lemma_head_at(stride: int, ox: int, row: int, col: int, j: int, len: int)
    requires
        9 <= row < 110,
        ox + 1 <= col < ox + 6,
        0 <= j < 4,
        ox >= 0,
        4 * (ox + 104) <= stride,
        pixel_off(stride, row, col) + 4 <= len,
    ensures
        last_byte(
            rect_writes(stride, ox, 8, 104, 103, panel_bg()) + rect_writes(stride, ox, 8, 104, 1, teal(255))
                + rect_writes(stride, ox, 110, 104, 1, teal(255)) + rect_writes(stride, ox, 8, 1, 103, teal(255))
                + rect_writes(stride, ox + 103, 8, 1, 103, teal(255)) + text_writes(
                stride,
                ox + 6,
                11,
                "ACTIONS"@,
                Rgba { r: 0xe8, g: 0x94, b: 0x3c, a: 255 },
            ),
            len,
            pixel_off(stride, row, col) + j,
        ) == Some(channel(panel_bg(), j)),
{
    let at = pixel_off(stride, row, col) + j;
    assert(in_pixel(stride, row, col, at));
    let w0 = rect_writes(stride, ox, 8, 104, 103, panel_bg());
    let w1 = rect_writes(stride, ox, 8, 104, 1, teal(255));
    let w2 = rect_writes(stride, ox, 110, 104, 1, teal(255));
    let w3 = rect_writes(stride, ox, 8, 1, 103, teal(255));
    let w4 = rect_writes(stride, ox + 103, 8, 1, 103, teal(255));
    let hc = Rgba { r: 0xe8, g: 0x94, b: 0x3c, a: 255 };
    let w5 = text_writes(stride, ox + 6, 11, "ACTIONS"@, hc);
    reveal_strlit("ACTIONS");
    lemma_rect_last_byte(len, stride, ox, 8, 104, 103, panel_bg(), row, col, j);
    lemma_rect_in_box(stride, ox, 8, 104, 1, teal(255));
    lemma_box_misses(w1, stride, ox, 8, ox + 104, 9, row, col, len, at);
    lemma_rect_in_box(stride, ox, 110, 104, 1, teal(255));
    lemma_box_misses(w2, stride, ox, 110, ox + 104, 111, row, col, len, at);
    lemma_rect_in_box(stride, ox, 8, 1, 103, teal(255));
    lemma_box_misses(w3, stride, ox, 8, ox + 1, 111, row, col, len, at);
    lemma_rect_in_box(stride, ox + 103, 8, 1, 103, teal(255));
    lemma_box_misses(w4, stride, ox + 103, 8, ox + 104, 111, row, col, len, at);
    lemma_text_in_box(stride, ox + 6, 11, "ACTIONS"@, hc);
    lemma_box_misses(w5, stride, ox + 6, 11, ox + 48, 18, row, col, len, at);
    lemma_last_byte_concat(w0, w1, len, at);
    lemma_last_byte_concat(w0 + w1, w2, len, at);
    lemma_last_byte_concat(w0 + w1 + w2, w3, len, at);
    lemma_last_byte_concat(w0 + w1 + w2 + w3, w4, len, at);
    lemma_last_byte_concat(w0 + w1 + w2 + w3 + w4, w5, len, at);
}

/// Row colours: in a buffer whose rows hold the panel, pixel (`ox + 2`, `21 + 17 * i`) of row `i` takes
/// the highlight band's teal when row `i` is the highlighted one, and the
/// panel background otherwise; pixel (`ox + 1`, `9`) takes the
/// background.
pub proof fn lemma_menu_row_colours(buf: Seq<u8>, stride: int, ox: int, highlight: Option<usize>, i: int, j: int)
    requires
        ox >= 0,
        4 * (ox + 104) <= stride,
        0 <= i < 5,
        0 <= j < 4,
        pixel_off(stride, 21 + 17 * i, ox + 2) + 4 <= buf.len(),
    ensures
        paint(buf, menu_writes(stride, ox, highlight))[pixel_off(stride, 21 + 17 * i, ox + 2) + j]
            == channel(
            if highlight == Some(i as usize) {
                teal(140)
            } else {
                panel_bg()
            },
            j,
        ),
        paint(buf, menu_writes(stride, ox, highlight))[pixel_off(stride, 9, ox + 1) + j] == channel(
            panel_bg(),
            j,
        ),
{
    let len = buf.len() as int;
    let hc = Rgba { r: 0xe8, g: 0x94, b: 0x3c, a: 255 };
    let head = rect_writes(stride, ox, 8, 104, 103, panel_bg()) + rect_writes(stride, ox, 8, 104, 1, teal(255))
        + rect_writes(stride, ox, 110, 104, 1, teal(255)) + rect_writes(stride, ox, 8, 1, 103, teal(255))
        + rect_writes(stride, ox + 103, 8, 1, 103, teal(255)) + text_writes(stride, ox + 6, 11, "ACTIONS"@, hc);
    let rows = rows_writes(stride, ox, highlight, 5);
    assert(menu_writes(stride, ox, highlight) == head + rows);
    // The row pixel.
    let at = pixel_off(stride, 21 + 17 * i, ox + 2) + j;
    assert(pixel_off(stride, 21 + 17 * i, ox + 2) >= 0) by (nonlinear_arith)
        requires
            21 + 17 * i >= 0,
            ox + 2 >= 0,
            stride >= 0,
    ;
    lemma_rows_at_band(stride, ox, highlight, 5, i, j, len);
    lemma_head_at(stride, ox, 21 + 17 * i, ox + 2, j, len);
    lemma_last_byte_concat(head, rows, len, at);
    lemma_paint_at(buf, head + rows, at);
    // The pixel under the top border.
    let at2 = pixel_off(stride, 9, ox + 1) + j;
    assert(pixel_off(stride, 9, ox + 1) + 4 <= pixel_off(stride, 21 + 17 * i, ox + 2)) by (nonlinear_arith)
        requires
            i >= 0,
            stride >= 4,
    ;
    assert(pixel_off(stride, 9, ox + 1) >= 0) by (nonlinear_arith)
        requires
            ox + 1 >= 0,
            stride >= 0,
    ;
    assert(in_pixel(stride, 9, ox + 1, at2));
    lemma_rows_above(stride, ox, highlight, 5, 9, ox + 1, at2, len);
    lemma_head_at(stride, ox, 9, ox + 1, j, len);
    lemma_last_byte_concat(head, rows, len, at2);
    lemma_paint_at(buf, head + rows, at2);
}

} // verus!
