//! Text layout and compositing: splitting the caption into lines, centering
//! each line around the template's center, and drawing onto a private copy
//! of the template image.
//!
//! Lines are split on newlines only — there is deliberately no word wrap —
//! and every centering step is floor division over the wrapping `u32`
//! arithmetic of the compositor.

use vstd::prelude::*;
use vstd::wrapping::u32_specs;

use crate::bitmap::Bitmap;
use crate::bitmap::DrawCmd;
use crate::bitmap::clone_bitmap;
use crate::bitmap::draw_line_px;
use crate::bitmap::pixel_trace;
use crate::catalog::Meme;
use crate::font::line_height_px;
use crate::font::text_width_px;
use crate::text::trim_spec;
use crate::text::trim_str;

verus! {

/// End (exclusive) of the run of characters before the next newline.
pub open spec fn nonnl_run_end(s: Seq<char>, i: int) -> int
    decreases s.len() - i,
{
    if 0 <= i < s.len() && s[i] != '\n' {
        nonnl_run_end(s, i + 1)
    } else {
        i
    }
}

pub proof fn lemma_nonnl_run_end_bounds(s: Seq<char>, i: int)
    requires
        0 <= i <= s.len(),
    ensures
        i <= nonnl_run_end(s, i) <= s.len(),
        nonnl_run_end(s, i) < s.len() ==> s[nonnl_run_end(s, i)] == '\n',
    decreases s.len() - i,
{
    if i < s.len() && s[i] != '\n' {
        lemma_nonnl_run_end_bounds(s, i + 1);
    }
}

/// A line's content: the segment with a carriage return before the newline
/// dropped.
pub open spec fn strip_cr(l: Seq<char>) -> Seq<char> {
    if l.len() > 0 && l.last() == '\r' {
        l.drop_last()
    } else {
        l
    }
}

/// The lines of `s` from position `i`, split the way `str::lines` splits: at
/// every newline, a carriage return right before a newline dropped, and no
/// empty final line after a trailing newline.
pub open spec fn lines_from(s: Seq<char>, i: int) -> Seq<Seq<char>>
    decreases s.len() - i,
        via lines_from_dec
{
    if 0 <= i < s.len() {
        let e = nonnl_run_end(s, i);
        if e < s.len() {
            seq![strip_cr(s.subrange(i, e))] + lines_from(s, e + 1)
        } else {
            seq![s.subrange(i, e)]
        }
    } else {
        Seq::empty()
    }
}

#[via_fn]
proof fn lines_from_dec(s: Seq<char>, i: int) {
    if 0 <= i < s.len() {
        lemma_nonnl_run_end_bounds(s, i);
    }
}

/// The views of a vector of owned strings.
pub open spec fn str_views(v: Seq<String>) -> Seq<Seq<char>> {
    Seq::new(v.len(), |i: int| v[i]@)
}

fn nonnl_run_end_at(s: &str, i: usize) -> (j: usize)
    requires
        i <= s@.len(),
    ensures
        j == nonnl_run_end(s@, i as int),
        i <= j <= s@.len(),
{
    let n: usize = s.unicode_len();
    let mut j: usize = i;
    loop
        invariant
            i <= j <= n,
            n == s@.len(),
            nonnl_run_end(s@, i as int) == nonnl_run_end(s@, j as int),
        ensures
            j == nonnl_run_end(s@, i as int),
            i <= j <= s@.len(),
        decreases n - j,
    {
        if j == n {
            break ;
        }
        if s.get_char(j) == '\n' {
            break ;
        }
        j = j + 1;
    }
    j
}

/// Splits the caption into its lines, on newlines only.
pub fn split_lines(s: &str) -> (lines: Vec<String>)
    ensures
        str_views(lines@) == lines_from(s@, 0),
{
    let n: usize = s.unicode_len();
    let mut out: Vec<String> = Vec::new();
    let mut i: usize = 0;
    proof {
        assert(str_views(out@) + lines_from(s@, 0) =~= lines_from(s@, 0));
    }
    loop
        invariant
            0 <= i <= n,
            n == s@.len(),
            str_views(out@) + lines_from(s@, i as int) == lines_from(s@, 0),
        ensures
            i == n,
            str_views(out@) + lines_from(s@, i as int) == lines_from(s@, 0),
        decreases n - i,
    {
        if i == n {
            break ;
        }
        let e = nonnl_run_end_at(s, i);
        let ghost before = out@;
        if e < n {
            let line = if e - i > 0 && s.get_char(e - 1) == '\r' {
                s.substring_char(i, e - 1)
            } else {
                s.substring_char(i, e)
            };
            proof {
                if e - i > 0 && s@[e - 1] == '\r' {
                    assert(s@.subrange(i as int, (e - 1) as int) =~= strip_cr(
                        s@.subrange(i as int, e as int),
                    ));
                } else {
                    assert(s@.subrange(i as int, e as int) =~= strip_cr(
                        s@.subrange(i as int, e as int),
                    ));
                }
            }
            out.push(line.to_owned());
            proof {
                assert(str_views(out@) =~= str_views(before) + seq![
                    strip_cr(s@.subrange(i as int, e as int)),
                ]);
                assert(str_views(out@) + lines_from(s@, (e + 1) as int) =~= str_views(before) + (
                seq![strip_cr(s@.subrange(i as int, e as int))] + lines_from(s@, (e + 1) as int)));
            }
            i = e + 1;
        } else {
            out.push(s.substring_char(i, e).to_owned());
            proof {
                assert(lines_from(s@, e as int) =~= Seq::<Seq<char>>::empty());
                assert(str_views(out@) =~= str_views(before) + seq![
                    s@.subrange(i as int, e as int),
                ]);
                assert(str_views(out@) + lines_from(s@, e as int) =~= str_views(before) + seq![
                    s@.subrange(i as int, e as int),
                ]);
            }
            i = e;
        }
    }
    proof {
        assert(lines_from(s@, n as int) =~= Seq::<Seq<char>>::empty());
        assert(str_views(out@) + Seq::<Seq<char>>::empty() =~= str_views(out@));
    }
    out
}

/// Where a centered line starts horizontally: the center minus half the
/// measured width, floor division, in the compositor's wrapping `u32`
/// arithmetic.
pub open spec fn line_x(center_x: u32, width: u32) -> u32 {
    u32_specs::wrapping_sub(center_x, (width / 2) as u32)
}

/// Where the block of lines starts vertically: the center minus half the
/// block height (line height times line count), floor division, wrapping.
pub open spec fn block_y(center_y: u32, line_height: u32, count: u32) -> u32 {
    u32_specs::wrapping_sub(center_y, (u32_specs::wrapping_mul(line_height, count) / 2) as u32)
}

/// Where line `k` of the block sits: the block start plus `k` line heights,
/// wrapping.
pub open spec fn line_y(center_y: u32, line_height: u32, count: u32, k: int) -> u32 {
    ((block_y(center_y, line_height, count) + k * line_height) % 0x1_0000_0000) as u32
}

/// Whenever half the width fits left of the center, the start is exactly
/// `center_x - width / 2`, floor division — a 101-wide line centered at 400
/// starts at 350, since 101/2 truncates to 50.
pub proof fn lemma_line_x_exact(center_x: u32, width: u32)
    requires
        width / 2 <= center_x,
    ensures
        line_x(center_x, width) == center_x - width / 2,
{
}

/// Whenever the block fits above the center without wrapping, line `k` sits
/// exactly at `center_y - (line_height * count) / 2 + k * line_height`.
pub proof fn lemma_line_y_exact(center_y: u32, line_height: u32, count: u32, k: int)
    requires
        0 <= k < count,
        line_height * count <= u32::MAX,
        (line_height * count) / 2 <= center_y,
        center_y - (line_height * count) / 2 + k * line_height <= u32::MAX,
    ensures
        line_y(center_y, line_height, count, k) == center_y - (line_height * count) / 2 + k
            * line_height,
{
    assert(u32_specs::wrapping_mul(line_height, count) == line_height * count) by {
        assert(line_height * count >= 0) by (nonlinear_arith)
            requires
                line_height >= 0,
                count >= 0,
        ;
    }
    assert(0 <= k * line_height <= count * line_height) by (nonlinear_arith)
        requires
            0 <= k < count,
            line_height >= 0,
    ;
    assert(count * line_height == line_height * count) by (nonlinear_arith);
}

/// The draw position of every line of a block, given the measured widths:
/// line `k` starts at `line_x(center_x, widths[k])` and sits at
/// `line_y(center_y, line_height, count, k)`, where `count` is the length of
/// `widths` in the compositor's `u32` arithmetic.
pub fn layout_positions(widths: &Vec<u32>, line_height: u32, center_x: u32, center_y: u32) -> (pos:
    Vec<(u32, u32)>)
    ensures
        pos@.len() == widths@.len(),
        forall|k: int|
            0 <= k < pos@.len() ==> (#[trigger] pos@[k]).0 == line_x(center_x, widths@[k]),
        forall|k: int|
            0 <= k < pos@.len() ==> (#[trigger] pos@[k]).1 == line_y(
                center_y,
                line_height,
                widths@.len() as u32,
                k,
            ),
{
    let count: u32 = #[verifier::truncate] (widths.len() as u32);
    let mut pos: Vec<(u32, u32)> = Vec::new();
    let mut y: u32 = center_y.wrapping_sub(line_height.wrapping_mul(count) / 2);
    let mut k: usize = 0;
    while k < widths.len()
        invariant
            0 <= k <= widths@.len(),
            count == widths@.len() as u32,
            pos@.len() == k,
            y == line_y(center_y, line_height, count, k as int),
            forall|t: int| 0 <= t < k ==> (#[trigger] pos@[t]).0 == line_x(center_x, widths@[t]),
            forall|t: int|
                0 <= t < k ==> (#[trigger] pos@[t]).1 == line_y(
                    center_y,
                    line_height,
                    count,
                    t,
                ),
        decreases widths@.len() - k,
    {
        let x = center_x.wrapping_sub(widths[k] / 2);
        pos.push((x, y));
        proof {
            let m = 0x1_0000_0000int;
            let b = block_y(center_y, line_height, count) as int;
            vstd::arithmetic::div_mod::lemma_add_mod_noop(
                b + (k as int) * line_height,
                line_height as int,
                m,
            );
            vstd::arithmetic::div_mod::lemma_small_mod(line_height as nat, m as nat);
            assert((k as int) * line_height + line_height == ((k + 1) as int) * line_height)
                by (nonlinear_arith);
        }
        y = y.wrapping_add(line_height);
        k = k + 1;
    }
    pos
}

/// The trace `out` extends `base` by exactly the caption's lines, drawn
/// with line height `lh` and measured widths `ws`: line `k`, trimmed, in
/// opaque black at its centered position, at scale `size`.
pub open spec fn drawn_with(
    out: Seq<DrawCmd>,
    base: Seq<DrawCmd>,
    cx: u32,
    cy: u32,
    size: u32,
    text: Seq<char>,
    lh: u32,
    ws: Seq<u32>,
) -> bool {
    let lines = lines_from(text, 0);
    &&& ws.len() == lines.len()
    &&& out.len() == base.len() + lines.len()
    &&& out.subrange(0, base.len() as int) == base
    &&& forall|k: int|
        0 <= k < lines.len() ==> #[trigger] out[base.len() + k] == (DrawCmd {
            x: line_x(cx, ws[k]),
            y: line_y(cy, lh, lines.len() as u32, k),
            red: 0u8,
            green: 0u8,
            blue: 0u8,
            alpha: 255u8,
            size,
            text: trim_spec(lines[k]),
        })
}

/// The compositor's drawing work, over the trace: the result extends the
/// template's trace by one opaque-black command per caption line — the
/// trimmed line at its centered position, at the template's scale — for
/// some measured widths and line height (the measurements come from the
/// font engine and are not pinned).
pub open spec fn drawn_lines(
    out: Seq<DrawCmd>,
    base: Seq<DrawCmd>,
    cx: u32,
    cy: u32,
    size: u32,
    text: Seq<char>,
) -> bool {
    exists|lh: u32, ws: Seq<u32>| #[trigger] drawn_with(out, base, cx, cy, size, text, lh, ws)
}

/// Renders `text` onto a private copy of the template's image: the text is
/// split on newlines only, each line is trimmed of surrounding whitespace,
/// measured, centered around the template's center, and drawn top to bottom
/// in opaque black at the font's line height. The copy keeps the image's
/// dimensions, its trace records exactly those drawing commands, and the
/// catalog's own bitmap is never touched. An empty text still lays out
/// (zero lines, nothing drawn); there is no word wrap.
pub fn render(meme: &Meme, font: &rusttype::Font<'static>, text: &str) -> (out: Bitmap)
    ensures
        out.width == meme.image.width,
        out.height == meme.image.height,
        drawn_lines(
            pixel_trace(out.pixels),
            pixel_trace(meme.image.pixels),
            meme.center_x,
            meme.center_y,
            meme.font_size,
            text@,
        ),
{
    let raw_lines = split_lines(text);
    let mut lines: Vec<String> = Vec::new();
    let mut widths: Vec<u32> = Vec::new();
    let line_height = line_height_px(font, meme.font_size);
    let mut k: usize = 0;
    while k < raw_lines.len()
        invariant
            lines@.len() == k,
            widths@.len() == k,
            0 <= k <= raw_lines@.len(),
            forall|t: int| 0 <= t < k ==> (#[trigger] lines@[t])@ == trim_spec(raw_lines@[t]@),
        decreases raw_lines@.len() - k,
    {
        let line = trim_str(raw_lines[k].as_str());
        widths.push(text_width_px(font, meme.font_size, line.as_str()));
        lines.push(line);
        k = k + 1;
    }
    let pos = layout_positions(&widths, line_height, meme.center_x, meme.center_y);
    let mut out = clone_bitmap(&meme.image);
    let ghost base = pixel_trace(meme.image.pixels);
    let mut t: usize = 0;
    while t < lines.len()
        invariant
            pos@.len() == lines@.len(),
            0 <= t <= lines@.len(),
            out.width == meme.image.width,
            out.height == meme.image.height,
            base == pixel_trace(meme.image.pixels),
            pixel_trace(out.pixels).len() == base.len() + t,
            pixel_trace(out.pixels).subrange(0, base.len() as int) == base,
            forall|j: int|
                0 <= j < t ==> #[trigger] pixel_trace(out.pixels)[base.len() + j] == (DrawCmd {
                    x: pos@[j].0,
                    y: pos@[j].1,
                    red: 0u8,
                    green: 0u8,
                    blue: 0u8,
                    alpha: 255u8,
                    size: meme.font_size,
                    text: lines@[j]@,
                }),
        decreases lines@.len() - t,
    {
        let ghost before = pixel_trace(out.pixels);
        out = draw_line_px(
            out,
            0,
            0,
            0,
            255,
            pos[t].0,
            pos[t].1,
            meme.font_size,
            font,
            lines[t].as_str(),
        );
        proof {
            assert(pixel_trace(out.pixels).subrange(0, base.len() as int) =~= before.subrange(
                0,
                base.len() as int,
            ));
        }
        t = t + 1;
    }
    proof {
        let lines_spec = lines_from(text@, 0);
        assert(str_views(raw_lines@).len() == lines_spec.len());
        assert forall|k2: int| 0 <= k2 < lines_spec.len() implies pixel_trace(out.pixels)[base.len()
            + k2] == (DrawCmd {
            x: line_x(meme.center_x, widths@[k2]),
            y: line_y(meme.center_y, line_height, lines_spec.len() as u32, k2),
            red: 0u8,
            green: 0u8,
            blue: 0u8,
            alpha: 255u8,
            size: meme.font_size,
            text: trim_spec(lines_spec[k2]),
        }) by {
            assert(str_views(raw_lines@)[k2] == raw_lines@[k2]@);
            assert(lines@[k2]@ == trim_spec(raw_lines@[k2]@));
        }
        assert(drawn_with(
            pixel_trace(out.pixels),
            base,
            meme.center_x,
            meme.center_y,
            meme.font_size,
            text@,
            line_height,
            widths@,
        ));
    }
    out
}

} // verus!
