//! Measure layout engine for symbolic music scores.
//!
//! Turns measures holding pitched notes and rests, each with an exact
//! rational duration, into positioned drawing primitives: glyph references,
//! stems, barlines, staff lines and a cursor highlight.

mod fraction;
mod glyph;
mod notator;
mod numfmt;
mod svg;

pub use fraction::Fraction;
pub use glyph::GlyphId;
pub use notator::{decompose, Notator};
pub use svg::{Element, Group, Path, Rect, Use};

use crate::glyph::is_duration_class;
use crate::notator::{
    marking_units, marking_v, marking_wf, markings_units_upto, markings_v_upto, units_of_width,
    width_wf,
};
use crate::numfmt::{hex_seq, int_seq};
use crate::svg::{elems_view, lemma_elems_view_push, ElementV, PathV, RectV, UseV};
use crate::svg::{elements_str, lemma_elements_str_push, path_view};
use vstd::prelude::*;

verus! {

/// Width of one bar (measure).
pub const BAR_WIDTH: i32 = 3200;

/// Width of the barline.
pub const BARLINE_WIDTH: i32 = 36;

/// Space before each note.
pub const NOTE_MARGIN: i32 = 250;

/// Color of the cursor highlight.
pub const CURSOR_COLOR: u32 = 0xFF9AF0;

/// Width of a whole rest (in font units).
pub const WHOLE_REST_WIDTH: i32 = 230;

/// A half or whole step visual distance in the measure.
pub const STEP_DY: i32 = 125;

/// Vertical margin above the staff.
pub const MARGIN_Y: i32 = STEP_DY * 6;

/// Width of staff lines (looks best if it matches `BARLINE_WIDTH`).
pub const LINE_WIDTH: i32 = BARLINE_WIDTH;

/// Width of stems.
pub const STEM_WIDTH: u32 = 30;

/// Length of stems: seven visual steps.
pub const STEM_LENGTH: u32 = 875;

/// Width of a note head.
pub const HEAD_WIDTH: i32 = 263;

/// Horizontal width taken by a leading clef and time signature.
pub const SIGNATURE_WIDTH: i32 = 1640;

/// Coordinates the layout engine works in stay within this bound, which
/// leaves all of its fixed offsets free of overflow.
pub const COORD_LIMIT: i32 = 100_000_000;

/// Staff lines.
pub struct Staff {
    /// Number of lines on staff.
    pub lines: i32,
    /// Number of steps from middle C to middle staff line.
    pub steps: i32,
}

impl Staff {
    /// The staff configurations the layout engine accepts: enough room in a
    /// machine integer for every derived coordinate.
    pub open spec fn wf(self) -> bool {
        self.lines <= 32767 && -32767 <= self.steps <= 32767
    }

    /// Height of the staff: two visual steps per space between lines.
    pub open spec fn spec_height(self) -> int {
        if self.lines > 0 {
            STEP_DY * (self.lines - 1) * 2
        } else {
            0
        }
    }

    /// Height of the staff plus the margins above and below.
    pub open spec fn spec_virtual_height(self) -> int {
        self.spec_height() + MARGIN_Y * 2
    }

    /// The vertical middle of the staff.
    pub open spec fn spec_middle(self) -> int {
        MARGIN_Y + self.spec_height() / 2
    }

    /// The vertical position of middle C.
    pub open spec fn spec_middle_c(self) -> int {
        self.spec_middle() + STEP_DY * self.steps
    }

    /// Create a new staff.
    pub fn new(lines: i32, steps: i32) -> (r: Self)
        ensures
            r.lines == lines,
            r.steps == steps,
    {
        Staff { lines, steps }
    }

    /// Get the height of the staff.
    pub fn height(&self) -> (r: i32)
        requires
            self.wf(),
        ensures
            r == self.spec_height(),
    {
        if self.lines > 0 {
            let spaces = self.lines - 1;
            STEP_DY * spaces * 2
        } else {
            0
        }
    }

    /// Get the height of the staff plus any related glyphs below or above.
    pub fn virtual_height(&self) -> (r: i32)
        requires
            self.wf(),
        ensures
            r == self.spec_virtual_height(),
    {
        self.height() + MARGIN_Y * 2
    }

    /// Get the middle of the staff.
    pub fn middle(&self) -> (r: i32)
        requires
            self.wf(),
        ensures
            r == self.spec_middle(),
    {
        MARGIN_Y + self.height() / 2
    }

    /// Get the Y value of middle C relative to the staff.
    pub fn middle_c(&self) -> (r: i32)
        requires
            self.wf(),
        ensures
            r == self.spec_middle_c(),
    {
        self.middle() + STEP_DY * self.steps
    }

    /// The path text of one staff line: a bar of fixed stroke width.
    pub open spec fn line_str(self, width: int, i: int) -> Seq<char> {
        "M"@ + int_seq(BARLINE_WIDTH as int) + " "@ + int_seq(
            MARGIN_Y + STEP_DY * (i * 2) - LINE_WIDTH / 2,
        ) + "h"@ + int_seq(width) + "v"@ + int_seq(LINE_WIDTH as int) + "h-"@ + int_seq(width)
            + "v-"@ + int_seq(LINE_WIDTH as int) + "z"@
    }

    /// The path text of the first `n` staff lines, top to bottom.
    pub open spec fn lines_str(self, width: int, n: int) -> Seq<char>
        decreases n,
    {
        if n <= 0 {
            Seq::empty()
        } else {
            self.lines_str(width, n - 1) + self.line_str(width, n - 1)
        }
    }

    /// Create a staff path.
    pub fn path(&self, width: i32) -> (r: Path)
        requires
            self.wf(),
        ensures
            path_view(r).id is None,
            path_view(r).d == self.lines_str(width as int, self.lines as int),
    {
        let mut d = String::new();
        let mut i: i32 = 0;
        while i < self.lines
            invariant
                self.wf(),
                0 <= i,
                i <= self.lines || i == 0,
                d@ == self.lines_str(width as int, i as int),
            decreases self.lines - i,
        {
            let x = BARLINE_WIDTH;
            let y = MARGIN_Y + STEP_DY * (i * 2) - LINE_WIDTH / 2;
            d.append("M");
            crate::numfmt::append_dec_i32(&mut d, x);
            d.append(" ");
            crate::numfmt::append_dec_i32(&mut d, y);
            d.append("h");
            crate::numfmt::append_dec_i32(&mut d, width);
            d.append("v");
            crate::numfmt::append_dec_i32(&mut d, LINE_WIDTH);
            d.append("h-");
            crate::numfmt::append_dec_i32(&mut d, width);
            d.append("v-");
            crate::numfmt::append_dec_i32(&mut d, LINE_WIDTH);
            d.append("z");
            proof {
                assert(d@ =~= self.lines_str(width as int, i as int) + self.line_str(
                    width as int,
                    i as int,
                ));
            }
            i = i + 1;
        }
        Path::new(None, d)
    }
}

/// A position in the score: channel, measure and marking index. Two cursors
/// point at the same marking exactly when all three parts agree.
#[derive(Clone, Copy, Debug, PartialEq, Eq, Structural)]
pub struct Cursor {
    /// Channel (voice) index.
    pub chan: usize,
    /// Measure (bar) index within the channel.
    pub bar: usize,
    /// Marking index within the measure.
    pub marking: usize,
}

impl Cursor {
    /// Create a new cursor.
    pub fn new(chan: usize, bar: usize, marking: usize) -> (r: Self)
        ensures
            r.chan == chan,
            r.bar == bar,
            r.marking == marking,
    {
        Cursor { chan, bar, marking }
    }

    /// Whether the cursor stands in the first measure.
    pub fn is_first_bar(&self) -> (r: bool)
        ensures
            r == (self.bar == 0),
    {
        self.bar == 0
    }
}

/// A note or rest: an exact duration, and for a pitched note the visual
/// distance of its pitch from middle C, in staff steps.
#[derive(Clone, Copy, Debug)]
pub struct Note {
    /// Steps from middle C, or `None` for a rest.
    pub pitch: Option<i32>,
    /// Duration as a fraction of a whole note.
    pub duration: Fraction,
}

/// A score event within a measure body. Only notes and rests reach measure
/// layout.
#[derive(Clone, Copy, Debug)]
pub enum Marking {
    Note(Note),
}

/// Whether every marking of a measure is acceptable to the layout engine.
pub open spec fn markings_wf(ms: Seq<Marking>) -> bool {
    forall|i: int| 0 <= i < ms.len() ==> marking_wf(#[trigger] ms[i])
}

/// The duration of a marking as a span of horizontal units: its fraction of
/// the bar width, rounded toward zero.
pub open spec fn marking_px(m: Marking) -> int {
    match m {
        Marking::Note(n) => (n.duration.num as int) * (BAR_WIDTH as int) / (n.duration.den as int),
    }
}

/// The horizontal units taken by the first `j` markings.
pub open spec fn markings_px_upto(ms: Seq<Marking>, j: int) -> int
    decreases j,
{
    if j <= 0 {
        0
    } else {
        markings_px_upto(ms, j - 1) + marking_px(ms[j - 1])
    }
}

/// An acceptable marking's width in horizontal units is exactly 25 per
/// 128th note of its duration: the bar width of 3200 split into 128 slots.
pub proof fn lemma_marking_px_units(m: Marking)
    requires
        marking_wf(m),
    ensures
        marking_px(m) == 25 * marking_units(m),
{
    match m {
        Marking::Note(n) => {
            let num = n.duration.num as int;
            let den = n.duration.den as int;
            let u = num * 128 / den;
            vstd::arithmetic::div_mod::lemma_fundamental_div_mod(num * 128, den);
            assert(num * 128 == den * u) by (nonlinear_arith)
                requires
                    num * 128 == den * (num * 128 / den) + num * 128 % den,
                    num * 128 % den == 0,
                    u == num * 128 / den,
            ;
            assert(num * 3200 == (25 * u) * den) by (nonlinear_arith)
                requires
                    num * 128 == den * u,
            ;
            vstd::arithmetic::div_mod::lemma_div_multiples_vanish(25 * u, den);
            assert(den * (25 * u) == (25 * u) * den) by (nonlinear_arith);
        },
    }
}

/// The running duration of a measure's markings never decreases and never
/// passes the total.
pub proof fn lemma_markings_units_bounds(ms: Seq<Marking>, i: int)
    requires
        markings_wf(ms),
        0 <= i <= ms.len(),
    ensures
        markings_units_upto(ms, i) <= markings_units_upto(ms, ms.len() as int),
        i < ms.len() ==> markings_units_upto(ms, i) + marking_units(ms[i])
            <= markings_units_upto(ms, ms.len() as int),
    decreases ms.len() - i,
{
    if i < ms.len() {
        assert(marking_wf(ms[i]));
        lemma_markings_units_bounds(ms, i + 1);
    }
}

/// The running duration of a measure's markings starts at zero and stays
/// nonnegative.
pub proof fn lemma_markings_units_nonneg(ms: Seq<Marking>, i: int)
    requires
        markings_wf(ms),
        0 <= i <= ms.len(),
    ensures
        0 <= markings_units_upto(ms, i),
    decreases i,
{
    if i > 0 {
        assert(marking_wf(ms[i - 1]));
        lemma_markings_units_nonneg(ms, i - 1);
    }
}

/// The running pixel width of a measure's markings never decreases and
/// never passes the total.
pub proof fn lemma_markings_px_bounds(ms: Seq<Marking>, i: int)
    requires
        markings_wf(ms),
        0 <= i <= ms.len(),
    ensures
        markings_px_upto(ms, i) <= markings_px_upto(ms, ms.len() as int),
        i < ms.len() ==> markings_px_upto(ms, i) + marking_px(ms[i])
            <= markings_px_upto(ms, ms.len() as int),
    decreases ms.len() - i,
{
    if i < ms.len() {
        assert(marking_wf(ms[i]));
        lemma_marking_px_units(ms[i]);
        lemma_markings_px_bounds(ms, i + 1);
    }
}

/// The running pixel width of a measure's markings starts at zero and
/// stays nonnegative.
pub proof fn lemma_markings_px_nonneg(ms: Seq<Marking>, i: int)
    requires
        markings_wf(ms),
        0 <= i <= ms.len(),
    ensures
        0 <= markings_px_upto(ms, i),
    decreases i,
{
    if i > 0 {
        assert(marking_wf(ms[i - 1]));
        lemma_marking_px_units(ms[i - 1]);
        lemma_markings_px_nonneg(ms, i - 1);
    }
}

/// The count of rectangle primitives in a run of drawing primitives. Within
/// the primitives of one pitched symbol, the rectangles are exactly the
/// stems.
pub open spec fn count_rects(s: Seq<ElementV>) -> int
    decreases s.len(),
{
    if s.len() == 0 {
        0
    } else {
        (if s[0] is Rect {
            1int
        } else {
            0int
        }) + count_rects(s.subrange(1, s.len() as int))
    }
}

/// Law: a pitched symbol of duration class 1 (a whole note) carries no stem
/// rectangle; a pitched symbol of every other duration class carries
/// exactly one.
pub proof fn lemma_whole_note_stemless(staff: Staff, class: u8, w: int, vd: int)
    requires
        is_duration_class(class),
    ensures
        count_rects(pitch_symbol_v(staff, class, w, vd)) == (if class == 1 {
            0int
        } else {
            1int
        }),
{
    let s = pitch_symbol_v(staff, class, w, vd);
    if class == 1 {
        assert(s.len() == 1);
        assert(s[0] is Use);
        assert(s.subrange(1, 1) =~= Seq::<ElementV>::empty());
        assert(count_rects(s.subrange(1, 1)) == 0);
    } else {
        assert(s.len() == 2);
        assert(s[0] is Use);
        assert(s[1] is Rect);
        let t = s.subrange(1, 2);
        assert(t[0] == s[1]);
        assert(t.subrange(1, 1) =~= Seq::<ElementV>::empty());
        assert(count_rects(t.subrange(1, 1)) == 0);
        assert(count_rects(t) == 1);
        assert(count_rects(s.subrange(1, 2)) == 1);
    }
}

/// The rectangle `add_rect` emits: barlines and staff-height bars sit
/// between the vertical margins, "long" rectangles span the full virtual
/// height.
pub open spec fn plain_rect_v(
    staff: Staff,
    x: int,
    width: int,
    fill: Option<u32>,
    long: bool,
) -> ElementV {
    ElementV::Rect(
        RectV {
            x: x,
            y: if long {
                0
            } else {
                MARGIN_Y as int
            },
            width: width,
            height: if long {
                staff.spec_virtual_height()
            } else {
                staff.spec_height()
            },
            rx: None,
            ry: None,
            fill: match fill {
                Some(f) => Some(seq!['#'] + hex_seq(f as int)),
                None => None,
            },
        },
    )
}

/// The glyph reference `add_use` emits.
pub open spec fn use_v(glyph: GlyphId, x: int, y: int) -> ElementV {
    ElementV::Use(UseV { x: x, y: y, glyph: glyph })
}

/// The stem rectangle for a notehead at `(x, y)`: rising from the notehead's
/// right edge when the head sits below the middle line, hanging at the
/// notehead otherwise.
pub open spec fn stem_v(staff: Staff, x: int, y: int) -> ElementV {
    if y > staff.spec_middle() {
        ElementV::Rect(
            RectV {
                x: x + HEAD_WIDTH,
                y: y - STEM_LENGTH,
                width: STEM_WIDTH as int,
                height: STEM_LENGTH as int,
                rx: Some((STEM_WIDTH / 2) as int),
                ry: Some(STEM_WIDTH as int),
                fill: None,
            },
        )
    } else {
        ElementV::Rect(
            RectV {
                x: x,
                y: y,
                width: STEM_WIDTH as int,
                height: STEM_LENGTH as int,
                rx: Some((STEM_WIDTH / 2) as int),
                ry: Some(STEM_WIDTH as int),
                fill: None,
            },
        )
    }
}

/// The primitives of one pitched symbol of duration class `class` drawn at
/// running offset `w`: a notehead, and a stem unless the class is a whole
/// note.
pub open spec fn pitch_symbol_v(staff: Staff, class: u8, w: int, vd: int) -> Seq<ElementV> {
    let y = staff.spec_middle_c() + STEP_DY * vd;
    let head = use_v(
        GlyphId::spec_notehead_variants(
            GlyphId::NoteheadWhole,
            GlyphId::NoteheadHalf,
            GlyphId::NoteheadFill,
            class,
        ),
        NOTE_MARGIN + w,
        y,
    );
    if class == 1 {
        seq![head]
    } else {
        seq![head, stem_v(staff, NOTE_MARGIN + w, y)]
    }
}

/// The primitive of one rest symbol of duration class `class` drawn at
/// running offset `w`; a whole rest hangs two steps above the middle line.
pub open spec fn rest_symbol_v(staff: Staff, class: u8, w: int) -> Seq<ElementV> {
    let y = staff.spec_middle() + (if class == 1 {
        -(2 * STEP_DY as int)
    } else {
        0
    });
    seq![use_v(GlyphId::spec_rest_duration(class), NOTE_MARGIN + w, y)]
}

/// The centered whole-measure-rest primitive, used only for a measure with
/// no markings at all.
pub open spec fn whole_measure_rest_v(staff: Staff) -> ElementV {
    use_v(
        GlyphId::Rest1,
        (BAR_WIDTH - WHOLE_REST_WIDTH) as int / 2,
        staff.spec_middle() - 2 * STEP_DY as int,
    )
}

/// A measure element: the running layout state for one measure, and the
/// drawing primitives emitted so far.
pub struct MeasureElem {
    /// The staff the measure is drawn on.
    pub staff: Staff,
    /// The drawing primitives emitted so far, in draw order.
    pub elements: Vec<Element>,
    /// The running horizontal offset (width laid out so far).
    pub width: i32,
}

impl MeasureElem {
    /// The mathematical image of the emitted primitives, in order.
    pub open spec fn elems(self) -> Seq<ElementV> {
        elems_view(self.elements@)
    }

    /// Create a new measure element.
    pub fn new(staff: Staff) -> (r: Self)
        ensures
            r.staff == staff,
            r.elems() == Seq::<ElementV>::empty(),
            r.width == 0,
    {
        let elements = vec![];
        let width: i32 = 0;
        MeasureElem { staff, elements, width }
    }

    /// Add a rectangle from top to bottom of the staff; a "long" rectangle
    /// spans the margins too.
    pub(crate) fn add_rect(&mut self, x: i32, width: u32, fill: Option<u32>, long: bool)
        requires
            old(self).staff.wf(),
        ensures
            final(self).staff == old(self).staff,
            final(self).width == old(self).width,
            final(self).elems() == old(self).elems().push(
                plain_rect_v(old(self).staff, x as int, width as int, fill, long),
            ),
    {
        let (y, height) = if long {
            (0, self.staff.virtual_height() as u32)
        } else {
            (MARGIN_Y, self.staff.height() as u32)
        };
        let rect = Rect::new(x, y, width, height, None, None, fill);
        proof {
            lemma_elems_view_push(self.elements@, Element::Rect(rect));
        }
        self.elements.push(Element::Rect(rect));
    }

    /// Add a use element.
    pub(crate) fn add_use(&mut self, glyph: GlyphId, x: i32, y: i32)
        ensures
            final(self).staff == old(self).staff,
            final(self).width == old(self).width,
            final(self).elems() == old(self).elems().push(use_v(glyph, x as int, y as int)),
    {
        let u = Use::new(x, y, glyph);
        proof {
            lemma_elems_view_push(self.elements@, Element::Use(u));
        }
        self.elements.push(Element::Use(u));
    }

    /// Add a stem, upwards when the notehead sits below the middle line,
    /// else downwards.
    pub(crate) fn add_stem(&mut self, x: i32, y: i32)
        requires
            old(self).staff.wf(),
            -2 * COORD_LIMIT <= x <= 2 * COORD_LIMIT,
            -2 * COORD_LIMIT <= y <= 2 * COORD_LIMIT,
        ensures
            final(self).staff == old(self).staff,
            final(self).width == old(self).width,
            final(self).elems() == old(self).elems().push(
                stem_v(old(self).staff, x as int, y as int),
            ),
    {
        if y > self.staff.middle() {
            self.add_stem_up(x, y);
        } else {
            self.add_stem_down(x, y);
        }
    }

    /// Add a stem downwards.
    pub(crate) fn add_stem_down(&mut self, x: i32, y: i32)
        requires
            old(self).staff.wf(),
            -2 * COORD_LIMIT <= x <= 2 * COORD_LIMIT,
            -2 * COORD_LIMIT <= y <= 2 * COORD_LIMIT,
            y <= old(self).staff.spec_middle(),
        ensures
            final(self).staff == old(self).staff,
            final(self).width == old(self).width,
            final(self).elems() == old(self).elems().push(
                stem_v(old(self).staff, x as int, y as int),
            ),
    {
        let rx = Some(STEM_WIDTH / 2);
        let ry = Some(STEM_WIDTH);
        let rect = Rect::new(x, y, STEM_WIDTH, STEM_LENGTH, rx, ry, None);
        proof {
            lemma_elems_view_push(self.elements@, Element::Rect(rect));
        }
        self.elements.push(Element::Rect(rect));
    }

    /// Add a stem upwards.
    pub(crate) fn add_stem_up(&mut self, x: i32, y: i32)
        requires
            old(self).staff.wf(),
            -2 * COORD_LIMIT <= x <= 2 * COORD_LIMIT,
            -2 * COORD_LIMIT <= y <= 2 * COORD_LIMIT,
            y > old(self).staff.spec_middle(),
        ensures
            final(self).staff == old(self).staff,
            final(self).width == old(self).width,
            final(self).elems() == old(self).elems().push(
                stem_v(old(self).staff, x as int, y as int),
            ),
    {
        let rx = Some(STEM_WIDTH / 2);
        let ry = Some(STEM_WIDTH);
        let rect = Rect::new(
            x + HEAD_WIDTH,
            y - (STEM_LENGTH as i32),
            STEM_WIDTH,
            STEM_LENGTH,
            rx,
            ry,
            None,
        );
        proof {
            lemma_elems_view_push(self.elements@, Element::Rect(rect));
        }
        self.elements.push(Element::Rect(rect));
    }

    /// Add the elements of one pitched symbol: a notehead, and a stem unless
    /// the class is a whole note.
    pub(crate) fn add_pitch(&mut self, class: u8, visual_distance: i32)
        requires
            old(self).staff.wf(),
            is_duration_class(class),
            -32767 <= visual_distance <= 32767,
            0 <= old(self).width <= COORD_LIMIT,
        ensures
            final(self).staff == old(self).staff,
            final(self).width == old(self).width,
            final(self).elems() == old(self).elems() + pitch_symbol_v(
                old(self).staff,
                class,
                old(self).width as int,
                visual_distance as int,
            ),
    {
        let y = self.middle_c_y(visual_distance);
        let cp = GlyphId::notehead_duration(class);
        let x = NOTE_MARGIN + self.width;
        self.add_use(cp, x, y);
        if class != 1 {
            self.add_stem(x, y);
            proof {
                assert(final(self).elems() =~= old(self).elems() + pitch_symbol_v(
                    old(self).staff,
                    class,
                    old(self).width as int,
                    visual_distance as int,
                ));
            }
        } else {
            proof {
                assert(final(self).elems() =~= old(self).elems() + pitch_symbol_v(
                    old(self).staff,
                    class,
                    old(self).width as int,
                    visual_distance as int,
                ));
            }
        }
    }

    /// The vertical position of a pitch at a visual distance from middle C.
    fn middle_c_y(&self, visual_distance: i32) -> (r: i32)
        requires
            self.staff.wf(),
            -32767 <= visual_distance <= 32767,
        ensures
            r == self.staff.spec_middle_c() + STEP_DY * visual_distance,
    {
        self.staff.middle_c() + STEP_DY * visual_distance
    }

    /// The middle of this measure's staff.
    fn middle(&self) -> (r: i32)
        requires
            self.staff.wf(),
        ensures
            r == self.staff.spec_middle(),
    {
        self.staff.middle()
    }

    /// Add the use element for a rest: one of duration class `class` at the
    /// running offset, or, for `None`, the centered whole-measure rest.
    pub(crate) fn add_rest(&mut self, class: Option<u8>)
        requires
            old(self).staff.wf(),
            (match class {
                Some(c) => is_duration_class(c),
                None => true,
            }),
            0 <= old(self).width <= COORD_LIMIT,
        ensures
            final(self).staff == old(self).staff,
            final(self).width == old(self).width,
            final(self).elems() == old(self).elems() + (match class {
                Some(c) => rest_symbol_v(old(self).staff, c, old(self).width as int),
                None => seq![whole_measure_rest_v(old(self).staff)],
            }),
    {
        let class = if let Some(class) = class {
            class
        } else {
            let x = (BAR_WIDTH - WHOLE_REST_WIDTH) / 2;
            let y = self.middle() - STEP_DY * 2;
            self.add_use(GlyphId::Rest1, x, y);
            proof {
                assert(final(self).elems() =~= old(self).elems() + seq![
                    whole_measure_rest_v(old(self).staff),
                ]);
            }
            return ;
        };
        let glyph = GlyphId::rest_duration(class);
        let x = NOTE_MARGIN + self.width;
        let mut y = self.middle();
        if class == 1 {
            y -= STEP_DY * 2;
        }
        self.add_use(glyph, x, y);
        proof {
            assert(final(self).elems() =~= old(self).elems() + rest_symbol_v(
                old(self).staff,
                class,
                old(self).width as int,
            ));
        }
    }

    /// Add the staff lines across the width laid out so far.
    pub fn add_staff(&mut self)
        requires
            old(self).staff.wf(),
        ensures
            final(self).staff == old(self).staff,
            final(self).width == old(self).width,
            final(self).elems() == old(self).elems().push(
                ElementV::Path(
                    PathV {
                        id: None,
                        d: old(self).staff.lines_str(
                            old(self).width as int,
                            old(self).staff.lines as int,
                        ),
                    },
                ),
            ),
    {
        let path = self.staff.path(self.width);
        proof {
            lemma_elems_view_push(self.elements@, Element::Path(path));
        }
        self.elements.push(Element::Path(path));
    }

    /// Add a clef.
    pub fn add_clef(&mut self)
        requires
            old(self).staff.wf(),
            0 <= old(self).width <= COORD_LIMIT,
        ensures
            final(self).staff == old(self).staff,
            final(self).width == old(self).width + 1000,
            final(self).elems() == old(self).elems().push(
                use_v(GlyphId::ClefC, BARLINE_WIDTH as int, old(self).staff.spec_middle()),
            ),
    {
        let y = self.middle();
        self.add_use(GlyphId::ClefC, BARLINE_WIDTH, y);
        self.width += 1000;
    }

    /// Add a time signature.
    pub fn add_time(&mut self)
        requires
            old(self).staff.wf(),
            0 <= old(self).width <= COORD_LIMIT,
        ensures
            final(self).staff == old(self).staff,
            final(self).width == old(self).width + 640,
            final(self).elems() == old(self).elems().push(
                use_v(
                    GlyphId::TimeSig3,
                    BARLINE_WIDTH + old(self).width as int,
                    old(self).staff.spec_middle() - 2 * STEP_DY as int,
                ),
            ).push(
                use_v(
                    GlyphId::TimeSig4,
                    BARLINE_WIDTH + old(self).width as int - (470 - 421) / 2,
                    old(self).staff.spec_middle() + 2 * STEP_DY as int,
                ),
            ),
    {
        let mid = self.middle();
        self.add_use(GlyphId::TimeSig3, BARLINE_WIDTH + self.width, mid - STEP_DY * 2);
        self.add_use(
            GlyphId::TimeSig4,
            BARLINE_WIDTH + self.width - ((470 - 421) / 2),
            mid + STEP_DY * 2,
        );
        self.width += 640;
    }

    /// Add clef & time signature.
    pub fn add_signature(&mut self)
        requires
            old(self).staff.wf(),
            0 <= old(self).width,
            old(self).width + SIGNATURE_WIDTH <= COORD_LIMIT,
        ensures
            final(self).staff == old(self).staff,
            final(self).width == old(self).width + SIGNATURE_WIDTH,
            final(self).elems() == old(self).elems().push(
                use_v(GlyphId::ClefC, BARLINE_WIDTH as int, old(self).staff.spec_middle()),
            ).push(
                use_v(
                    GlyphId::TimeSig3,
                    BARLINE_WIDTH + old(self).width + 1000,
                    old(self).staff.spec_middle() - 2 * STEP_DY as int,
                ),
            ).push(
                use_v(
                    GlyphId::TimeSig4,
                    BARLINE_WIDTH + old(self).width + 1000 - (470 - 421) / 2,
                    old(self).staff.spec_middle() + 2 * STEP_DY as int,
                ),
            ),
    {
        self.add_clef();
        self.add_time();
    }

    /// Add markings: lay out each of the measure's markings in order,
    /// decomposed into canonical symbols; an empty measure gets the single
    /// centered whole-measure rest instead, and a trailing barline closes
    /// the measure either way.
    pub fn add_markings(&mut self, markings: &Vec<Marking>)
        requires
            old(self).staff.wf(),
            markings_wf(markings@),
            0 <= old(self).width,
            old(self).width + 25 * markings_units_upto(markings@, markings@.len() as int)
                + BAR_WIDTH <= COORD_LIMIT,
        ensures
            final(self).staff == old(self).staff,
            final(self).width == old(self).width + (if markings@.len() == 0 {
                BAR_WIDTH as int
            } else {
                25 * markings_units_upto(markings@, markings@.len() as int)
            }),
            final(self).elems() == (old(self).elems() + (if markings@.len() == 0 {
                seq![whole_measure_rest_v(old(self).staff)]
            } else {
                markings_v_upto(
                    old(self).staff,
                    markings@,
                    markings@.len() as int,
                    old(self).width as int,
                )
            })).push(
                plain_rect_v(
                    old(self).staff,
                    final(self).width as int,
                    BARLINE_WIDTH as int,
                    None,
                    false,
                ),
            ),
    {
        proof {
            lemma_markings_units_nonneg(markings@, markings@.len() as int);
        }
        let mut notator = Notator::new();
        let mut i: usize = 0;
        while i < markings.len()
            invariant
                self.staff == old(self).staff,
                self.staff.wf(),
                markings_wf(markings@),
                i <= markings.len(),
                0 <= old(self).width,
                old(self).width + 25 * markings_units_upto(markings@, markings@.len() as int)
                    + BAR_WIDTH <= COORD_LIMIT,
                self.width == old(self).width + 25 * markings_units_upto(markings@, i as int),
                self.elems() == old(self).elems() + markings_v_upto(
                    old(self).staff,
                    markings@,
                    i as int,
                    old(self).width as int,
                ),
                width_wf(notator.width),
                units_of_width(notator.width) == markings_units_upto(markings@, i as int),
            decreases markings.len() - i,
        {
            proof {
                lemma_markings_units_bounds(markings@, i as int);
                lemma_markings_units_nonneg(markings@, i as int);
                assert(marking_wf(markings@[i as int]));
            }
            let Marking::Note(note) = &markings[i];
            proof {
                assert(markings@[i as int] == Marking::Note(*note));
            }
            notator.notate(self, note);
            proof {
                assert(self.elems() =~= old(self).elems() + markings_v_upto(
                    old(self).staff,
                    markings@,
                    i as int + 1,
                    old(self).width as int,
                ));
            }
            i += 1;
        }
        if markings.len() == 0 {
            self.add_rest(None);
            self.width += BAR_WIDTH;
        }
        let ghost before_bar = *self;
        self.add_rect(self.width, BARLINE_WIDTH as u32, None, false);
        proof {
            if markings@.len() == 0 {
                assert(before_bar.elems() =~= old(self).elems() + seq![
                    whole_measure_rest_v(old(self).staff),
                ]);
            }
        }
    }

    /// Add the cursor rectangle for one marking's span: when `add` holds
    /// and the span is wider than the barline, a full-height highlight; the
    /// running cursor width advances by the span either way.
    pub(crate) fn add_cursor_rect(&mut self, fraction: Fraction, width: &mut i32, add: bool)
        requires
            old(self).staff.wf(),
            fraction.den > 0,
            0 <= *old(width),
            (fraction.num as int) * (BAR_WIDTH as int) / (fraction.den as int) <= COORD_LIMIT,
            *old(width) + (fraction.num as int) * (BAR_WIDTH as int) / (fraction.den as int)
                <= COORD_LIMIT,
        ensures
            final(self).staff == old(self).staff,
            final(self).width == old(self).width,
            *final(width) == *old(width) + (fraction.num as int) * (BAR_WIDTH as int) / (
            fraction.den as int),
            final(self).elems() == (if add && (fraction.num as int) * (BAR_WIDTH as int) / (
            fraction.den as int) - BARLINE_WIDTH > 0 {
                old(self).elems().push(
                    plain_rect_v(
                        old(self).staff,
                        *old(width) + BARLINE_WIDTH,
                        (fraction.num as int) * (BAR_WIDTH as int) / (fraction.den as int)
                            - BARLINE_WIDTH,
                        Some(CURSOR_COLOR),
                        true,
                    ),
                )
            } else {
                old(self).elems()
            }),
    {
        if add {
            let x = *width + BARLINE_WIDTH;
            let w = fraction.scale(BAR_WIDTH) - BARLINE_WIDTH;
            if w > 0 {
                self.add_rect(x, w as u32, Some(CURSOR_COLOR), true);
            }
        }
        *width += fraction.scale(BAR_WIDTH);
    }

    /// Add a cursor: walk the markings of the measure at `(chan, bar)` and
    /// emit a full-height highlight exactly where the cursor's channel,
    /// measure and marking index all match, sized to that marking's span
    /// less the barline width and suppressed when nothing would be visible.
    /// Call it before `add_markings`, so that the highlight renders
    /// beneath the note and rest glyphs.
    pub fn add_cursor(&mut self, chan: usize, bar: usize, markings: &Vec<Marking>, cursor: &Cursor)
        requires
            old(self).staff.wf(),
            markings_wf(markings@),
            SIGNATURE_WIDTH + markings_px_upto(markings@, markings@.len() as int) <= COORD_LIMIT,
        ensures
            final(self).staff == old(self).staff,
            final(self).width == old(self).width,
            final(self).elems() == (if cursor.chan == chan && cursor.bar == bar
                && cursor.marking < markings@.len() && marking_px(
                markings@[cursor.marking as int],
            ) - BARLINE_WIDTH > 0 {
                old(self).elems().push(
                    plain_rect_v(
                        old(self).staff,
                        (if cursor.bar == 0 {
                            SIGNATURE_WIDTH as int
                        } else {
                            0
                        }) + markings_px_upto(markings@, cursor.marking as int) + BARLINE_WIDTH,
                        marking_px(markings@[cursor.marking as int]) - BARLINE_WIDTH,
                        Some(CURSOR_COLOR),
                        true,
                    ),
                )
            } else {
                old(self).elems()
            }),
    {
        if cursor.chan != chan || cursor.bar != bar {
            return ;
        }
        let ghost x0: int = if cursor.bar == 0 {
            SIGNATURE_WIDTH as int
        } else {
            0
        };
        let mut width: i32 = 0;
        if cursor.is_first_bar() {
            width += SIGNATURE_WIDTH;
        }
        let mut i: usize = 0;
        while i < markings.len() && i <= cursor.marking
            invariant
                self.staff == old(self).staff,
                self.staff.wf(),
                markings_wf(markings@),
                SIGNATURE_WIDTH + markings_px_upto(markings@, markings@.len() as int)
                    <= COORD_LIMIT,
                i <= markings.len(),
                i <= cursor.marking + 1,
                self.width == old(self).width,
                x0 == (if cursor.bar == 0 {
                    SIGNATURE_WIDTH as int
                } else {
                    0int
                }),
                width == x0 + markings_px_upto(markings@, i as int),
                (if i <= cursor.marking {
                    self.elems() == old(self).elems()
                } else {
                    i == cursor.marking + 1 && cursor.marking < markings@.len() && self.elems()
                        == (if marking_px(markings@[cursor.marking as int]) - BARLINE_WIDTH > 0 {
                        old(self).elems().push(
                            plain_rect_v(
                                old(self).staff,
                                x0 + markings_px_upto(markings@, cursor.marking as int)
                                    + BARLINE_WIDTH,
                                marking_px(markings@[cursor.marking as int]) - BARLINE_WIDTH,
                                Some(CURSOR_COLOR),
                                true,
                            ),
                        )
                    } else {
                        old(self).elems()
                    })
                }),
            decreases markings.len() - i,
        {
            proof {
                lemma_markings_px_bounds(markings@, i as int);
                lemma_markings_px_nonneg(markings@, i as int);
                assert(marking_wf(markings@[i as int]));
                lemma_marking_px_units(markings@[i as int]);
                assert(marking_units(markings@[i as int]) >= 1);
            }
            let add = cursor.marking == i;
            let Marking::Note(note) = &markings[i];
            proof {
                assert(markings@[i as int] == Marking::Note(*note));
            }
            self.add_cursor_rect(note.duration, &mut width, add);
            i += 1;
        }
    }

    /// The markup text of all emitted primitives, in order.
    pub fn to_string(&self) -> (res: String)
        ensures
            res@ == elements_str(self.elems()),
    {
        let mut s = String::new();
        let mut i: usize = 0;
        while i < self.elements.len()
            invariant
                i <= self.elements.len(),
                s@ == elements_str(elems_view(self.elements@.subrange(0, i as int))),
            decreases self.elements.len() - i,
        {
            let piece = self.elements[i].to_string();
            s.append(piece.as_str());
            proof {
                lemma_elems_view_push(
                    self.elements@.subrange(0, i as int),
                    self.elements@[i as int],
                );
                lemma_elements_str_push(
                    elems_view(self.elements@.subrange(0, i as int)),
                    crate::svg::elem_view(self.elements@[i as int]),
                );
                assert(self.elements@.subrange(0, i as int).push(self.elements@[i as int])
                    =~= self.elements@.subrange(0, i as int + 1));
            }
            i += 1;
        }
        proof {
            assert(self.elements@.subrange(0, self.elements@.len() as int) =~= self.elements@);
        }
        s
    }
}

} // verus!
