//! The contact sheet: the sampled frames laid out four to a row, each with a
//! black label bar naming the frame, its time and how it was chosen.

use vstd::prelude::*;
use crate::deep_video::time_format::{push_seconds, seconds_text};
use crate::deep_video::types::{frame_source_name, EvidenceFrame};
use crate::text::chars_of;

verus! {

/// The width of a cell of the sheet.
pub const CELL_WIDTH: u32 = 240;
/// The height of a cell, label bar included.
pub const CELL_HEIGHT: u32 = 170;
/// The height of the label bar at the bottom of a cell.
pub const LABEL_HEIGHT: u32 = 26;
/// The cells in a row of the sheet.
pub const COLUMNS: u32 = 4;

/// An RGB picture, one vector of pixels per row.
pub struct RgbCanvas {
    pub width: u32,
    pub height: u32,
    pub rows: Vec<Vec<(u8, u8, u8)>>,
}

/// Rows of pixels taken as sequences.
pub open spec fn rows_view(rows: Seq<Vec<(u8, u8, u8)>>) -> Seq<Seq<(u8, u8, u8)>> {
    rows.map_values(|r: Vec<(u8, u8, u8)>| r@)
}

/// The pixels of a canvas, row by row.
pub open spec fn canvas_pixels(c: RgbCanvas) -> Seq<Seq<(u8, u8, u8)>> {
    rows_view(c.rows@)
}

/// A picture of `width` by `height` pixels, row by row.
pub open spec fn is_picture(p: Seq<Seq<(u8, u8, u8)>>, width: int, height: int) -> bool {
    &&& p.len() == height
    &&& forall|y: int| 0 <= y < height ==> (#[trigger] p[y]).len() == width
}

/// The canvas holds `height` rows of `width` pixels.
pub open spec fn canvas_wf(c: RgbCanvas) -> bool {
    is_picture(canvas_pixels(c), c.width as int, c.height as int)
}

/// A picture of one color.
pub open spec fn uniform(width: int, height: int, color: (u8, u8, u8)) -> Seq<Seq<(u8, u8, u8)>> {
    Seq::new(height as nat, |_y: int| Seq::new(width as nat, |_x: int| color))
}

/// `p` with the pixels of the rectangle `[x0, x1) × [y0, y1)` set to `color`
/// (the part of it inside the picture).
pub open spec fn rect_filled(p: Seq<Seq<(u8, u8, u8)>>, x0: int, y0: int, x1: int, y1: int, color: (u8, u8, u8)) -> Seq<Seq<(u8, u8, u8)>> {
    Seq::new(
        p.len(),
        |py: int| Seq::new(p[py].len(), |px: int| if x0 <= px < x1 && y0 <= py < y1 { color } else { p[py][px] }),
    )
}

/// `p` with the picture `o` (`ow` by `oh`) copied in with its top left corner at `(x, y)`.
pub open spec fn pasted(p: Seq<Seq<(u8, u8, u8)>>, o: Seq<Seq<(u8, u8, u8)>>, ow: int, oh: int, x: int, y: int) -> Seq<Seq<(u8, u8, u8)>> {
    Seq::new(
        p.len(),
        |py: int| Seq::new(
            p[py].len(),
            |px: int| if x <= px < x + ow && y <= py < y + oh { o[py - y][px - x] } else { p[py][px] },
        ),
    )
}

/// Bit `col` of row `row` of an 8×8 glyph is set.
pub open spec fn glyph_on(g: Seq<u8>, col: int, row: int) -> bool {
    0 <= row < 8 && 0 <= col < 8 && (g[row] & (1u8 << (col as u8))) != 0u8
}

/// `p` with the glyph drawn in `color` with its top left corner at `(x, y)`;
/// a character without a glyph draws nothing.
pub open spec fn glyph_drawn(p: Seq<Seq<(u8, u8, u8)>>, x: int, y: int, glyph: Option<Seq<u8>>, color: (u8, u8, u8)) -> Seq<Seq<(u8, u8, u8)>> {
    match glyph {
        Some(g) => Seq::new(
            p.len(),
            |py: int| Seq::new(p[py].len(), |px: int| if glyph_on(g, px - x, py - y) { color } else { p[py][px] }),
        ),
        None => p,
    }
}

/// The 8×8 glyph of a character in font8x8's basic table.
pub uninterp spec fn basic_glyph(c: char) -> Option<Seq<u8>>;

/// Looks the character up in font8x8's `BASIC_FONTS` through
/// `UnicodeFonts::get`. The table holds the characters U+0000 to U+007F in
/// order, so a glyph comes back exactly for those; the glyphs' bits are named
/// (`basic_glyph`), not stated.
#[verifier::external_body]
fn basic_font_glyph(c: char) -> (r: Option<[u8; 8]>)
    ensures
        r is Some <==> (c as u32) < 128,
        match r {
            Some(g) => basic_glyph(c) == Some(g@),
            None => basic_glyph(c) is None,
        },
{
    font8x8::UnicodeFonts::get(&font8x8::BASIC_FONTS, c)
}

/// `text` drawn from `(x, y)` on a picture `width` wide: each character 8
/// pixels right of the one before, stopping once the next would start within
/// 8 pixels of the right edge.
pub open spec fn text_drawn(p: Seq<Seq<(u8, u8, u8)>>, width: int, x: int, y: int, text: Seq<char>, color: (u8, u8, u8)) -> Seq<Seq<(u8, u8, u8)>>
    decreases text.len(),
{
    if text.len() == 0 {
        p
    } else {
        let q = glyph_drawn(p, x, y, basic_glyph(text[0]), color);
        if x + 8 + 8 >= width {
            q
        } else {
            text_drawn(q, width, x + 8, y, text.drop_first(), color)
        }
    }
}

/// The label of a frame: its identifier, its time (or `time unknown`) and how it was chosen.
pub open spec fn frame_label(f: EvidenceFrame) -> Seq<char> {
    f.frame_id@ + " "@ + match f.timestamp_ms {
        Some(ms) => seconds_text(ms as int),
        None => "time unknown"@,
    } + " "@ + frame_source_name(f.source)
}

/// The rows of cells of a sheet of `n` frames.
pub open spec fn sheet_rows(n: int) -> int {
    (n + COLUMNS - 1) / COLUMNS as int
}

/// The top left corner of the cell at `position`.
pub open spec fn cell_origin(position: int) -> (int, int) {
    ((position % COLUMNS as int) * CELL_WIDTH, (position / COLUMNS as int) * CELL_HEIGHT)
}

/// The background of the sheet.
pub open spec fn sheet_background() -> (u8, u8, u8) {
    (18u8, 18u8, 20u8)
}

/// One cell drawn: the resized frame pasted at the cell's corner, the label
/// bar blackened, the label written in white.
pub open spec fn cell_drawn(p: Seq<Seq<(u8, u8, u8)>>, width: int, position: int, frame: EvidenceFrame, picture: Seq<Seq<(u8, u8, u8)>>, pw: int, ph: int) -> Seq<Seq<(u8, u8, u8)>> {
    let (x, y) = cell_origin(position);
    let bar_y = y + CELL_HEIGHT - LABEL_HEIGHT;
    let with_frame = pasted(p, picture, pw, ph, x, y);
    let with_bar = rect_filled(with_frame, x, bar_y, x + CELL_WIDTH, bar_y + LABEL_HEIGHT, (0u8, 0u8, 0u8));
    text_drawn(with_bar, width, x + 6, bar_y + 7, frame_label(frame), (255u8, 255u8, 255u8))
}

/// The first `k` cells drawn on the background.
pub open spec fn sheet_after(frames: Seq<EvidenceFrame>, pictures: Seq<RgbCanvas>, width: int, height: int, k: int) -> Seq<Seq<(u8, u8, u8)>>
    decreases k,
{
    if k <= 0 {
        uniform(width, height, sheet_background())
    } else {
        let c = pictures[k - 1];
        cell_drawn(
            sheet_after(frames, pictures, width, height, k - 1),
            width,
            k - 1,
            frames[k - 1],
            canvas_pixels(c),
            c.width as int,
            c.height as int,
        )
    }
}

/// A picture that fits the frame area of a cell.
pub open spec fn fits_cell(c: RgbCanvas) -> bool {
    &&& canvas_wf(c)
    &&& c.width <= CELL_WIDTH
    &&& c.height <= CELL_HEIGHT - LABEL_HEIGHT
}

/// Cells the sheet can hold: its height must fit in `u32`.
pub open spec fn sheet_fits(n: int) -> bool {
    sheet_rows(n) * CELL_HEIGHT <= u32::MAX
}

impl RgbCanvas {
    /// A canvas of one color.
    pub fn filled(width: u32, height: u32, color: (u8, u8, u8)) -> (r: Self)
        ensures
            r.width == width,
            r.height == height,
            canvas_wf(r),
            canvas_pixels(r) == uniform(width as int, height as int, color),
    {
        let mut rows: Vec<Vec<(u8, u8, u8)>> = Vec::new();
        let mut y: u32 = 0;
        while y < height
            invariant
                y <= height,
                rows_view(rows@) == uniform(width as int, y as int, color),
            decreases height - y,
        {
            let mut row: Vec<(u8, u8, u8)> = Vec::new();
            let mut x: u32 = 0;
            while x < width
                invariant
                    x <= width,
                    row@ == Seq::new(x as nat, |_x: int| color),
                decreases width - x,
            {
                row.push(color);
                x = x + 1;
                assert(row@ =~= Seq::new(x as nat, |_x: int| color));
            }
            let ghost prev = rows_view(rows@);
            assert(row@ =~= Seq::new(width as nat, |_x: int| color));
            rows.push(row);
            assert(rows_view(rows@) =~= prev.push(row@));
            y = y + 1;
            assert(rows_view(rows@) =~= uniform(width as int, y as int, color));
        }
        let r = RgbCanvas { width, height, rows };
        assert(canvas_pixels(r) =~= uniform(width as int, height as int, color));
        r
    }

    /// Sets the pixels of `[x0, x1) × [y0, y1)` inside the canvas to `color`.
    pub fn fill_rect(&mut self, x0: u32, y0: u32, x1: u32, y1: u32, color: (u8, u8, u8))
        requires
            canvas_wf(*old(self)),
        ensures
            final(self).width == old(self).width,
            final(self).height == old(self).height,
            canvas_wf(*final(self)),
            canvas_pixels(*final(self)) == rect_filled(canvas_pixels(*old(self)), x0 as int, y0 as int, x1 as int, y1 as int, color),
    {
        let ghost p0 = canvas_pixels(*self);
        let ghost target = rect_filled(p0, x0 as int, y0 as int, x1 as int, y1 as int, color);
        let mut y: u32 = y0;
        while y < y1 && y < self.height
            invariant
                y0 <= y,
                self.width == old(self).width,
                self.height == old(self).height,
                canvas_wf(*self),
                p0 == canvas_pixels(*old(self)),
                is_picture(p0, self.width as int, self.height as int),
                target == rect_filled(p0, x0 as int, y0 as int, x1 as int, y1 as int, color),
                forall|py: int| 0 <= py < self.height ==> #[trigger] canvas_pixels(*self)[py] == if y0 <= py < y {
                    target[py]
                } else {
                    p0[py]
                },
            decreases self.height - y,
        {
            let mut row: Vec<(u8, u8, u8)> = Vec::new();
            let mut x: u32 = 0;
            let ghost old_row = canvas_pixels(*self)[y as int];
            while x < self.width
                invariant
                    x <= self.width,
                    y < self.height,
                    y0 <= y < y1,
                    canvas_wf(*self),
                    old_row == canvas_pixels(*self)[y as int],
                    row@ == Seq::new(x as nat, |px: int| if x0 <= px < x1 && y0 <= y < y1 { color } else { old_row[px] }),
                decreases self.width - x,
            {
                let px = if x0 <= x && x < x1 {
                    color
                } else {
                    self.rows[y as usize][x as usize]
                };
                row.push(px);
                x = x + 1;
                assert(row@ =~= Seq::new(x as nat, |q: int| if x0 <= q < x1 && y0 <= y < y1 { color } else { old_row[q] }));
            }
            proof {
                assert(old_row == p0[y as int]);
                assert(p0[y as int].len() == self.width);
                assert(row@ =~= target[y as int]);
            }
            let ghost before = canvas_pixels(*self);
            self.rows.set(y as usize, row);
            assert(canvas_pixels(*self) =~= before.update(y as int, row@));
            y = y + 1;
        }
        assert forall|py: int| 0 <= py < self.height implies #[trigger] canvas_pixels(*self)[py] =~= target[py] by {
            if !(y0 <= py < y) {
                assert(target[py] =~= p0[py]);
            }
        }
        assert(canvas_pixels(*self) =~= target);
    }
}


/// The outcome of resizing a picture `width` by `height` to fit within
/// `nwidth` by `nheight` with the image crate: its width, height and pixels.
pub uninterp spec fn resized(pixels: Seq<Seq<(u8, u8, u8)>>, width: u32, height: u32, nwidth: u32, nheight: u32) -> (u32, u32, Seq<Seq<(u8, u8, u8)>>);

/// Resizes the picture with `DynamicImage::resize` of the image crate (triangle
/// filter), which keeps the aspect ratio and, as its documentation says, gives
/// the largest picture that fits within `nwidth` by `nheight`. The pixels are
/// named (`resized`), not stated.
#[verifier::external_body]
pub(crate) fn resize_picture(picture: &RgbCanvas, nwidth: u32, nheight: u32) -> (r: RgbCanvas)
    requires
        canvas_wf(*picture),
        picture.width > 0,
        picture.height > 0,
        nwidth > 0,
        nheight > 0,
    ensures
        canvas_wf(r),
        r.width <= nwidth,
        r.height <= nheight,
        (r.width, r.height, canvas_pixels(r)) == resized(canvas_pixels(*picture), picture.width, picture.height, nwidth, nheight),
{
    let source = image::RgbImage::from_fn(picture.width, picture.height, |x, y| {
        let p = picture.rows[y as usize][x as usize];
        image::Rgb([p.0, p.1, p.2])
    });
    let out = image::DynamicImage::ImageRgb8(source).resize(nwidth, nheight, image::imageops::FilterType::Triangle).to_rgb8();
    let rows = (0..out.height()).map(|y| (0..out.width()).map(|x| {
        let p = out.get_pixel(x, y).0;
        (p[0], p[1], p[2])
    }).collect()).collect();
    RgbCanvas { width: out.width(), height: out.height(), rows }
}

impl RgbCanvas {
    /// Copies `other` in with its top left corner at `(x, y)`; it must fit.
    pub fn paste(&mut self, other: &RgbCanvas, x: u32, y: u32)
        requires
            canvas_wf(*old(self)),
            canvas_wf(*other),
            x + other.width <= old(self).width,
            y + other.height <= old(self).height,
        ensures
            final(self).width == old(self).width,
            final(self).height == old(self).height,
            canvas_wf(*final(self)),
            canvas_pixels(*final(self)) == pasted(
                canvas_pixels(*old(self)),
                canvas_pixels(*other),
                other.width as int,
                other.height as int,
                x as int,
                y as int,
            ),
    {
        let ghost p0 = canvas_pixels(*self);
        let ghost o = canvas_pixels(*other);
        let ghost target = pasted(p0, o, other.width as int, other.height as int, x as int, y as int);
        let y_end = y + other.height;
        let mut py: u32 = y;
        while py < y_end
            invariant
                y <= py <= y_end,
                y_end == y + other.height,
                y_end <= self.height,
                x + other.width <= self.width,
                self.width == old(self).width,
                self.height == old(self).height,
                canvas_wf(*self),
                canvas_wf(*other),
                o == canvas_pixels(*other),
                is_picture(p0, self.width as int, self.height as int),
                target == pasted(p0, o, other.width as int, other.height as int, x as int, y as int),
                forall|q: int| 0 <= q < self.height ==> #[trigger] canvas_pixels(*self)[q] == if y <= q < py {
                    target[q]
                } else {
                    p0[q]
                },
            decreases y_end - py,
        {
            let ghost old_row = canvas_pixels(*self)[py as int];
            let ghost src_row = o[py - y];
            let mut row: Vec<(u8, u8, u8)> = Vec::new();
            let mut px: u32 = 0;
            while px < self.width
                invariant
                    px <= self.width,
                    y <= py < y_end,
                    y_end == y + other.height,
                    y_end <= self.height,
                    x + other.width <= self.width,
                    canvas_wf(*self),
                    canvas_wf(*other),
                    old_row == canvas_pixels(*self)[py as int],
                    src_row == canvas_pixels(*other)[py - y],
                    row@ == Seq::new(
                        px as nat,
                        |q: int| if x <= q < x + other.width { src_row[q - x] } else { old_row[q] },
                    ),
                decreases self.width - px,
            {
                let v = if x <= px && px < x + other.width {
                    other.rows[(py - y) as usize][(px - x) as usize]
                } else {
                    self.rows[py as usize][px as usize]
                };
                row.push(v);
                px = px + 1;
                assert(row@ =~= Seq::new(
                    px as nat,
                    |q: int| if x <= q < x + other.width { src_row[q - x] } else { old_row[q] },
                ));
            }
            proof {
                assert(old_row == p0[py as int]);
                assert(row@ =~= target[py as int]);
            }
            let ghost before = canvas_pixels(*self);
            self.rows.set(py as usize, row);
            assert(canvas_pixels(*self) =~= before.update(py as int, row@));
            py = py + 1;
        }
        assert forall|q: int| 0 <= q < self.height implies #[trigger] canvas_pixels(*self)[q] =~= target[q] by {
            if !(y <= q < py) {
                assert(target[q] =~= p0[q]);
            }
        }
        assert(canvas_pixels(*self) =~= target);
    }

    /// Draws the basic font8x8 glyph of `c` in `color` with its top left
    /// corner at `(x, y)`, clipped to the canvas.
    pub fn draw_char(&mut self, x: u32, y: u32, c: char, color: (u8, u8, u8))
        requires
            canvas_wf(*old(self)),
            x + 8 <= u32::MAX,
            y + 8 <= u32::MAX,
        ensures
            final(self).width == old(self).width,
            final(self).height == old(self).height,
            canvas_wf(*final(self)),
            canvas_pixels(*final(self)) == glyph_drawn(canvas_pixels(*old(self)), x as int, y as int, basic_glyph(c), color),
    {
        let glyph = match basic_font_glyph(c) {
            Some(g) => g,
            None => {
                return;
            },
        };
        let ghost g = glyph@;
        let ghost p0 = canvas_pixels(*self);
        let ghost target = glyph_drawn(p0, x as int, y as int, Some(g), color);
        let mut py: u32 = y;
        while py < y + 8 && py < self.height
            invariant
                y <= py <= y + 8,
                y + 8 <= u32::MAX,
                x + 8 <= u32::MAX,
                self.width == old(self).width,
                self.height == old(self).height,
                canvas_wf(*self),
                g == glyph@,
                g.len() == 8,
                is_picture(p0, self.width as int, self.height as int),
                target == glyph_drawn(p0, x as int, y as int, Some(g), color),
                forall|q: int| 0 <= q < self.height ==> #[trigger] canvas_pixels(*self)[q] == if y <= q < py {
                    target[q]
                } else {
                    p0[q]
                },
            decreases self.height - py,
        {
            let ghost old_row = canvas_pixels(*self)[py as int];
            let bits = glyph[(py - y) as usize];
            let mut row: Vec<(u8, u8, u8)> = Vec::new();
            let mut px: u32 = 0;
            while px < self.width
                invariant
                    px <= self.width,
                    y <= py < y + 8,
                    py < self.height,
                    x + 8 <= u32::MAX,
                    canvas_wf(*self),
                    g.len() == 8,
                    bits == g[py - y],
                    old_row == canvas_pixels(*self)[py as int],
                    row@ == Seq::new(
                        px as nat,
                        |q: int| if glyph_on(g, q - x, py - y) { color } else { old_row[q] },
                    ),
                decreases self.width - px,
            {
                let on = if x <= px && px < x + 8 {
                    let col = (px - x) as u8;
                    (bits & (1u8 << col)) != 0u8
                } else {
                    false
                };
                let v = if on {
                    color
                } else {
                    self.rows[py as usize][px as usize]
                };
                row.push(v);
                px = px + 1;
                assert(row@ =~= Seq::new(
                    px as nat,
                    |q: int| if glyph_on(g, q - x, py - y) { color } else { old_row[q] },
                ));
            }
            proof {
                assert(old_row == p0[py as int]);
                assert(row@ =~= target[py as int]);
            }
            let ghost before = canvas_pixels(*self);
            self.rows.set(py as usize, row);
            assert(canvas_pixels(*self) =~= before.update(py as int, row@));
            py = py + 1;
        }
        assert forall|q: int| 0 <= q < self.height implies #[trigger] canvas_pixels(*self)[q] =~= target[q] by {
            if !(y <= q < py) {
                assert(target[q] =~= p0[q]);
            }
        }
        assert(canvas_pixels(*self) =~= target);
    }
}


impl RgbCanvas {
    /// Writes `text` from `(x, y)`: each character 8 pixels right of the one
    /// before, stopping once the next would start within 8 pixels of the
    /// right edge (see `text_drawn`).
    pub fn draw_text(&mut self, x: u32, y: u32, text: &str, color: (u8, u8, u8))
        requires
            canvas_wf(*old(self)),
            x + 16 <= u32::MAX,
            y + 8 <= u32::MAX,
            old(self).width + 16 <= u32::MAX,
        ensures
            final(self).width == old(self).width,
            final(self).height == old(self).height,
            canvas_wf(*final(self)),
            canvas_pixels(*final(self)) == text_drawn(canvas_pixels(*old(self)), old(self).width as int, x as int, y as int, text@, color),
    {
        let chars = chars_of(text);
        let ghost w = self.width as int;
        let ghost goal = text_drawn(canvas_pixels(*self), w, x as int, y as int, chars@, color);
        let mut cursor: u32 = x;
        let mut i: usize = 0;
        assert(chars@.skip(0) =~= chars@);
        while i < chars.len()
            invariant_except_break
                goal == text_drawn(canvas_pixels(*self), w, cursor as int, y as int, chars@.skip(i as int), color),
                cursor + 16 <= u32::MAX,
            invariant
                i <= chars@.len(),
                w == self.width,
                self.width == old(self).width,
                self.height == old(self).height,
                canvas_wf(*self),
                y + 8 <= u32::MAX,
                self.width + 16 <= u32::MAX,
            ensures
                goal == canvas_pixels(*self) || (i >= chars@.len() && goal == text_drawn(canvas_pixels(*self), w, cursor as int, y as int, chars@.skip(i as int), color)),
            decreases chars.len() - i,
        {
            let ghost rest = chars@.skip(i as int);
            let ghost before = canvas_pixels(*self);
            proof {
                assert(rest[0] == chars@[i as int]);
                assert(rest.drop_first() =~= chars@.skip(i + 1));
            }
            self.draw_char(cursor, y, chars[i], color);
            cursor = cursor + 8;
            i = i + 1;
            if cursor + 8 >= self.width {
                break;
            }
        }
        proof {
            if !(goal == canvas_pixels(*self)) {
                assert(chars@.skip(i as int).len() == 0);
            }
        }
    }
}

/// A frame picture resized to fit the picture area of a cell, as the image
/// crate resizes it (see `resize_picture`).
pub fn fit_to_cell(picture: &RgbCanvas) -> (r: RgbCanvas)
    requires
        canvas_wf(*picture),
        picture.width > 0,
        picture.height > 0,
    ensures
        fits_cell(r),
        (r.width, r.height, canvas_pixels(r)) == resized(
            canvas_pixels(*picture),
            picture.width,
            picture.height,
            CELL_WIDTH,
            (CELL_HEIGHT - LABEL_HEIGHT) as u32,
        ),
{
    resize_picture(picture, CELL_WIDTH, CELL_HEIGHT - LABEL_HEIGHT)
}

/// Appends `s`.
fn push_str(out: &mut String, s: &str)
    ensures
        final(out)@ == old(out)@ + s@,
{
    out.append(s);
}

/// The label of a frame (see `frame_label`).
pub fn build_frame_label(frame: &EvidenceFrame) -> (r: String)
    ensures
        r@ == frame_label(*frame),
{
    let mut out = String::new();
    push_str(&mut out, frame.frame_id.as_str());
    push_str(&mut out, " ");
    match frame.timestamp_ms {
        Some(ms) => push_seconds(&mut out, ms),
        None => push_str(&mut out, "time unknown"),
    }
    push_str(&mut out, " ");
    push_str(&mut out, frame.source.name());
    assert(out@ =~= frame_label(*frame));
    out
}

proof fn lemma_cell_in_sheet(position: int, n: int)
    requires
        0 <= position < n,
    ensures
        0 <= position / 4 < (n + 3) / 4,
        (position / 4) * 170 + 170 <= ((n + 3) / 4) * 170,
        0 <= position % 4 < 4,
        (position % 4) * 240 + 240 <= 960,
{
    assert(position / 4 < (n + 3) / 4) by (nonlinear_arith)
        requires
            0 <= position < n,
    ;
    assert((position / 4) * 170 + 170 <= ((n + 3) / 4) * 170) by (nonlinear_arith)
        requires
            position / 4 < (n + 3) / 4,
            0 <= position,
    ;
    assert((position % 4) * 240 + 240 <= 960) by (nonlinear_arith)
        requires
            0 <= position % 4 < 4,
    ;
}

/// Draws the contact sheet of the frames, each frame's picture already
/// resized to its cell: `COLUMNS` cells to a row on a dark background.
/// Without frames there is nothing to draw.
pub fn render_contact_sheet(frames: &[EvidenceFrame], pictures: &[RgbCanvas]) -> (r: Result<RgbCanvas, String>)
    requires
        pictures@.len() == frames@.len(),
        forall|i: int| 0 <= i < pictures@.len() ==> fits_cell(#[trigger] pictures@[i]),
        sheet_fits(frames@.len() as int),
    ensures
        frames@.len() == 0 ==> r is Err && r->Err_0@ == "No frames available for contact sheet"@,
        frames@.len() > 0 ==> r is Ok && r->Ok_0.width == COLUMNS * CELL_WIDTH && r->Ok_0.height == sheet_rows(frames@.len() as int) * CELL_HEIGHT
            && canvas_wf(r->Ok_0) && canvas_pixels(r->Ok_0) == sheet_after(
            frames@,
            pictures@,
            (COLUMNS * CELL_WIDTH) as int,
            sheet_rows(frames@.len() as int) * CELL_HEIGHT,
            frames@.len() as int,
        ),
{
    if frames.len() == 0 {
        let mut msg = String::new();
        msg.append("No frames available for contact sheet");
        return Err(msg);
    }
    let n = frames.len();
    let rows_count: usize = (n + 3) / 4;
    assert(rows_count as int == sheet_rows(n as int));
    let height: u32 = (rows_count as u32) * CELL_HEIGHT;
    let width: u32 = COLUMNS * CELL_WIDTH;
    let mut sheet = RgbCanvas::filled(width, height, (18u8, 18u8, 20u8));
    let mut position: usize = 0;
    while position < n
        invariant
            n == frames@.len(),
            n == pictures@.len(),
            position <= n,
            sheet.width == width,
            sheet.height == height,
            width == 960,
            height as int == ((n + 3) / 4) * 170,
            canvas_wf(sheet),
            forall|i: int| 0 <= i < pictures@.len() ==> fits_cell(#[trigger] pictures@[i]),
            canvas_pixels(sheet) == sheet_after(frames@, pictures@, width as int, height as int, position as int),
        decreases n - position,
    {
        proof {
            lemma_cell_in_sheet(position as int, n as int);
        }
        let col = (position % 4) as u32;
        let row = (position / 4) as u32;
        let x: u32 = col * CELL_WIDTH;
        let y: u32 = row * CELL_HEIGHT;
        let picture = &pictures[position];
        assert(fits_cell(*picture));
        sheet.paste(picture, x, y);
        let bar_y = y + (CELL_HEIGHT - LABEL_HEIGHT);
        sheet.fill_rect(x, bar_y, x + CELL_WIDTH, bar_y + LABEL_HEIGHT, (0u8, 0u8, 0u8));
        let label = build_frame_label(&frames[position]);
        sheet.draw_text(x + 6, bar_y + 7, label.as_str(), (255u8, 255u8, 255u8));
        position = position + 1;
    }
    Ok(sheet)
}
} // verus!
