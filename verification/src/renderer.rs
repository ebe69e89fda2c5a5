//! Blitting sprite frames into the BGRA surface buffer.

use vstd::prelude::*;
use crate::bubble::{
    lemma_box_untouched, lemma_in_box_concat, outside_box, paint, pixel_off, rect_fits, write_in_box,
    writes_in_box, PixelWrite,
};
use crate::sprites::Frame;

verus! {

/// `v` scaled by alpha `a` (premultiplied), rounded down.
pub open spec fn premul(v: u8, a: u8) -> u8 {
    (v as nat * a as nat / 255) as u8
}

/// The write for source pixel (`col`, `row`) of an RGBA image `fw` pixels
/// wide, placed `x_off` pixels right; none when the source pixel lies past
/// the image data.
pub open spec fn blit_px(stride: int, fw: int, data: Seq<u8>, x_off: int, row: int, col: int) -> Seq<
    PixelWrite,
> {
    let src = (row * fw + col) * 4;
    if src + 3 < data.len() {
        let a = data[src + 3];
        seq![
            PixelWrite {
                off: row * stride + (col + x_off) * 4,
                b: premul(data[src + 2], a),
                g: premul(data[src + 1], a),
                r: premul(data[src], a),
                a,
            },
        ]
    } else {
        Seq::empty()
    }
}

/// The first `k` columns of row `row`.
pub open spec fn blit_row(stride: int, fw: int, data: Seq<u8>, x_off: int, row: int, k: nat) -> Seq<
    PixelWrite,
>
    decreases k,
{
    if k == 0 {
        Seq::empty()
    } else {
        blit_row(stride, fw, data, x_off, row, (k - 1) as nat) + blit_px(
            stride,
            fw,
            data,
            x_off,
            row,
            k - 1,
        )
    }
}

/// The first `rows` rows, each `cols` pixels.
pub open spec fn blit_writes(stride: int, fw: int, data: Seq<u8>, x_off: int, rows: nat, cols: nat) -> Seq<
    PixelWrite,
>
    decreases rows,
{
    if rows == 0 {
        Seq::empty()
    } else {
        blit_writes(stride, fw, data, x_off, (rows - 1) as nat, cols) + blit_row(
            stride,
            fw,
            data,
            x_off,
            rows - 1,
            cols,
        )
    }
}

/// The smaller of two sizes.
pub open spec fn min_u(a: usize, b: usize) -> usize {
    if a < b {
        a
    } else {
        b
    }
}

/// Source and destination offsets of the blitted area fit in `usize`.
pub open spec fn blit_fits(stride: usize, frame_w: usize, frame_h: usize, x_off: usize, rows: usize, cols: usize) -> bool {
    &&& rows * frame_w + cols <= usize::MAX
    &&& (rows * frame_w + cols) * 4 + 4 <= usize::MAX
    &&& rect_fits(stride, x_off, 0, cols, rows)
    &&& cols <= frame_w
}

/// Whether blitting `rows` by `cols` pixels of a `frame_w`-wide frame at
/// `x_off` fits.
pub fn blit_fits_check(stride: usize, frame_w: usize, frame_h: usize, x_off: usize, rows: usize, cols: usize) -> (r:
    bool)
    ensures
        r == blit_fits(stride, frame_w, frame_h, x_off, rows, cols),
{
    if cols > frame_w {
        return false;
    }
    let a = match rows.checked_mul(frame_w) {
        Some(v) => v,
        None => {
            return false;
        },
    };
    let b = match a.checked_add(cols) {
        Some(v) => v,
        None => {
            return false;
        },
    };
    let c = match b.checked_mul(4) {
        Some(v) => v,
        None => {
            return false;
        },
    };
    if c.checked_add(4).is_none() {
        return false;
    }
    crate::bubble::rect_fits_check(stride, x_off, 0, cols, rows)
}

/// Copies `frame` into the buffer at `x_offset`, converting RGBA to
/// premultiplied BGRA and clipping to the buffer's width and height.
pub fn blit_frame(
    buf: &mut [u8],
    buf_width: u32,
    buf_height: u32,
    stride: usize,
    frame: &Frame,
    x_offset: usize,
)
    requires
        blit_fits(
            stride,
            frame.width as usize,
            frame.height as usize,
            x_offset,
            min_u(frame.height as usize, buf_height as usize),
            min_u(frame.width as usize, buf_width as usize),
        ),
    ensures
        final(buf)@ == paint(
            old(buf)@,
            blit_writes(
                stride as int,
                frame.width as int,
                frame.data@,
                x_offset as int,
                min_u(frame.height as usize, buf_height as usize) as nat,
                min_u(frame.width as usize, buf_width as usize) as nat,
            ),
        ),
{
    let fw = frame.width as usize;
    let fh = frame.height as usize;
    let rows = if fh < buf_height as usize {
        fh
    } else {
        buf_height as usize
    };
    let cols = if fw < buf_width as usize {
        fw
    } else {
        buf_width as usize
    };
    let ghost st = stride as int;
    let ghost data = frame.data@;
    let mut row: usize = 0;
    while row < rows
        invariant
            row <= rows,
            blit_fits(stride, fw, fh, x_offset, rows, cols),
            fw == frame.width as usize,
            data == frame.data@,
            st == stride as int,
            buf@ == paint(old(buf)@, blit_writes(st, fw as int, data, x_offset as int, row as nat, cols as nat)),
        decreases rows - row,
    {
        proof {
            assert(row * fw <= rows * fw) by (nonlinear_arith)
                requires
                    row <= rows,
            ;
            assert(row * stride <= rows * stride) by (nonlinear_arith)
                requires
                    row <= rows,
            ;
        }
        let mut col: usize = 0;
        while col < cols
            invariant
                row < rows,
                col <= cols,
                blit_fits(stride, fw, fh, x_offset, rows, cols),
                row * fw <= rows * fw,
                row * stride <= rows * stride,
                fw == frame.width as usize,
                data == frame.data@,
                st == stride as int,
                buf@ == paint(
                    old(buf)@,
                    blit_writes(st, fw as int, data, x_offset as int, row as nat, cols as nat) + blit_row(
                        st,
                        fw as int,
                        data,
                        x_offset as int,
                        row as int,
                        col as nat,
                    ),
                ),
            decreases cols - col,
        {
            let ghost pre = blit_writes(st, fw as int, data, x_offset as int, row as nat, cols as nat);
            let ghost rw = blit_row(st, fw as int, data, x_offset as int, row as int, col as nat);
            let ghost px = blit_px(st, fw as int, data, x_offset as int, row as int, col as int);
            assert(blit_row(st, fw as int, data, x_offset as int, row as int, (col + 1) as nat) == rw + px);
            assert((row + 1) * fw <= rows * fw) by (nonlinear_arith)
                requires
                    row < rows,
            ;
            let src = (row * fw + col) * 4;
            let dst = row * stride + (col + x_offset) * 4;
            let dlen = frame.data.len();
            let blen = buf.len();
            if src + 3 >= dlen || dst + 3 >= blen {
                if src + 3 < dlen {
                    assert(px.len() == 1);
                    assert(px[0].off == dst);
                    assert((pre + rw) + px =~= (pre + rw).push(px[0]));
                    assert((pre + rw).push(px[0]).drop_last() =~= pre + rw);
                } else {
                    assert((pre + rw) + px =~= pre + rw);
                }
            } else {
                let r = frame.data[src];
                let g = frame.data[src + 1];
                let b = frame.data[src + 2];
                let a = frame.data[src + 3];
                assert((pre + rw) + px =~= (pre + rw).push(px[0]));
                assert((pre + rw).push(px[0]).drop_last() =~= pre + rw);
                let aa = a as u32;
                let bb = b as u32;
                let gg = g as u32;
                let rr = r as u32;
                assert(bb * aa <= 255 * 255 && gg * aa <= 255 * 255 && rr * aa <= 255 * 255)
                    by (nonlinear_arith)
                    requires
                        aa <= 255,
                        bb <= 255,
                        gg <= 255,
                        rr <= 255,
                ;
                buf[dst] = (bb * aa / 255) as u8;
                buf[dst + 1] = (gg * aa / 255) as u8;
                buf[dst + 2] = (rr * aa / 255) as u8;
                buf[dst + 3] = a;
            }
            assert(pre + (rw + px) =~= (pre + rw) + px);
            col = col + 1;
        }
        row = row + 1;
    }
}

/// Sets every byte of the buffer to zero.
pub fn clear(buf: &mut [u8])
    ensures
        final(buf)@.len() == old(buf)@.len(),
        forall|i: int| 0 <= i < final(buf)@.len() ==> #[trigger] final(buf)@[i] == 0,
{
    let n = buf.len();
    let mut i: usize = 0;
    while i < n
        invariant
            i <= n == buf@.len(),
            n == old(buf)@.len(),
            forall|k: int| 0 <= k < i ==> #[trigger] buf@[k] == 0,
        decreases n - i,
    {
        buf[i] = 0;
        i = i + 1;
    }
}


/// Every write of the blit is premultiplied: each colour channel is at
/// most its alpha.
pub open spec fn all_premultiplied(ws: Seq<PixelWrite>) -> bool {
    forall|k: int|
        0 <= k < ws.len() ==> (#[trigger] ws[k]).b <= ws[k].a && ws[k].g <= ws[k].a && ws[k].r <= ws[k].a
}

/// A premultiplied channel never exceeds its alpha.
pub proof fn lemma_premul_le(v: u8, a: u8)
    ensures
        premul(v, a) <= a,
{
    assert(v as nat * a as nat <= 255 * a as nat) by (nonlinear_arith)
        requires
            v <= 255,
    ;
    assert(v as nat * a as nat / 255 <= a as nat) by (nonlinear_arith)
        requires
            v as nat * a as nat <= 255 * a as nat,
    ;
}

proof fn lemma_row_facts(stride: int, fw: int, data: Seq<u8>, x_off: int, row: int, k: nat)
    requires
        row >= 0,
    ensures
        writes_in_box(blit_row(stride, fw, data, x_off, row, k), stride, x_off, row, x_off + k, row + 1),
        all_premultiplied(blit_row(stride, fw, data, x_off, row, k)),
    decreases k,
{
    if k > 0 {
        let pre = blit_row(stride, fw, data, x_off, row, (k - 1) as nat);
        let px = blit_px(stride, fw, data, x_off, row, k - 1);
        lemma_row_facts(stride, fw, data, x_off, row, (k - 1) as nat);
        assert(writes_in_box(pre, stride, x_off, row, x_off + k, row + 1)) by {
            assert forall|j: int| 0 <= j < pre.len() implies write_in_box(#[trigger] pre[j], stride, x_off, row, x_off + k, row + 1) by {
                assert(write_in_box(pre[j], stride, x_off, row, x_off + k - 1, row + 1));
                let (r, c) = choose|r: int, c: int|
                    row <= r < row + 1 && x_off <= c < x_off + k - 1 && #[trigger] pixel_off(stride, r, c) == pre[j].off;
                assert(pixel_off(stride, r, c) == pre[j].off);
            }
        }
        if px.len() > 0 {
            let src = (row * fw + (k - 1)) * 4;
            lemma_premul_le(data[src + 2], data[src + 3]);
            lemma_premul_le(data[src + 1], data[src + 3]);
            lemma_premul_le(data[src], data[src + 3]);
            assert(pixel_off(stride, row, x_off + k - 1) == px[0].off);
        }
        lemma_in_box_concat(pre, px, stride, x_off, row, x_off + k, row + 1);
        assert forall|j: int| 0 <= j < (pre + px).len() implies (#[trigger] (pre + px)[j]).b <= (pre + px)[j].a
            && (pre + px)[j].g <= (pre + px)[j].a && (pre + px)[j].r <= (pre + px)[j].a by {
            if j < pre.len() {
                assert((pre + px)[j] == pre[j]);
            } else {
                assert((pre + px)[j] == px[j - pre.len()]);
            }
        }
    }
}

/// The blit writes only pixels of the clipped area (`rows` rows, columns
/// `x_off .. x_off + cols`), each premultiplied.
pub proof fn lemma_blit_facts(stride: int, fw: int, data: Seq<u8>, x_off: int, rows: nat, cols: nat)
    ensures
        writes_in_box(blit_writes(stride, fw, data, x_off, rows, cols), stride, x_off, 0, x_off + cols, rows as int),
        all_premultiplied(blit_writes(stride, fw, data, x_off, rows, cols)),
    decreases rows,
{
    if rows > 0 {
        let pre = blit_writes(stride, fw, data, x_off, (rows - 1) as nat, cols);
        let rw = blit_row(stride, fw, data, x_off, rows - 1, cols);
        lemma_blit_facts(stride, fw, data, x_off, (rows - 1) as nat, cols);
        lemma_row_facts(stride, fw, data, x_off, rows - 1, cols);
        crate::bubble::lemma_in_box_widen(pre, stride, x_off, 0, x_off + cols, rows - 1, x_off, 0, x_off + cols, rows as int);
        crate::bubble::lemma_in_box_widen(rw, stride, x_off, rows - 1, x_off + cols, rows as int, x_off, 0, x_off + cols, rows as int);
        lemma_in_box_concat(pre, rw, stride, x_off, 0, x_off + cols, rows as int);
        assert forall|j: int| 0 <= j < (pre + rw).len() implies (#[trigger] (pre + rw)[j]).b <= (pre + rw)[j].a
            && (pre + rw)[j].g <= (pre + rw)[j].a && (pre + rw)[j].r <= (pre + rw)[j].a by {
            if j < pre.len() {
                assert((pre + rw)[j] == pre[j]);
            } else {
                assert((pre + rw)[j] == rw[j - pre.len()]);
            }
        }
    }
}

/// A blit changes only the clipped area: a byte in no pixel of its
/// `rows` rows and columns `x_off .. x_off + cols` keeps its value.
pub proof fn lemma_blit_untouched(buf: Seq<u8>, stride: int, fw: int, data: Seq<u8>, x_off: int, rows: nat, cols: nat, i: int)
    requires
        0 <= i < buf.len(),
        outside_box(stride, x_off, 0, x_off + cols, rows as int, i),
    ensures
        paint(buf, blit_writes(stride, fw, data, x_off, rows, cols))[i] == buf[i],
{
    lemma_blit_facts(stride, fw, data, x_off, rows, cols);
    lemma_box_untouched(buf, blit_writes(stride, fw, data, x_off, rows, cols), stride, x_off, 0, x_off + cols, rows as int, i);
}

} // verus!
