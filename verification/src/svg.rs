//! Drawing primitives and their markup text forms: rectangles, glyph
//! references, groups and raw paths.

use crate::glyph::GlyphId;
use crate::numfmt::{append_dec_i32, append_dec_u32, append_hex_u32, dec_seq, hex_seq, int_seq};
use vstd::prelude::*;

verus! {

/// A rectangle: stems, barlines, staff line strokes and the cursor
/// highlight are all drawn as rectangles.
pub struct Rect {
    pub x: i32,
    pub y: i32,
    pub width: u32,
    pub height: u32,
    pub rx: Option<u32>,
    pub ry: Option<u32>,
    pub fill: Option<String>,
}

/// A reference to a glyph placed at a position.
pub struct Use {
    pub x: i32,
    pub y: i32,
    pub glyph: GlyphId,
}

/// A group of primitives, optionally translated.
pub struct Group {
    pub x: i32,
    pub y: i32,
    pub elements: Vec<Element>,
}

/// A raw outline path.
pub struct Path {
    pub id: Option<String>,
    pub d: String,
}

/// One drawing primitive.
pub enum Element {
    Group(Group),
    Rect(Rect),
    Use(Use),
    Path(Path),
}

/// Mathematical image of a `Rect`.
pub ghost struct RectV {
    pub x: int,
    pub y: int,
    pub width: int,
    pub height: int,
    pub rx: Option<int>,
    pub ry: Option<int>,
    pub fill: Option<Seq<char>>,
}

/// Mathematical image of a `Use`.
pub ghost struct UseV {
    pub x: int,
    pub y: int,
    pub glyph: GlyphId,
}

/// Mathematical image of a `Group`.
pub ghost struct GroupV {
    pub x: int,
    pub y: int,
    pub elements: Seq<ElementV>,
}

/// Mathematical image of a `Path`.
pub ghost struct PathV {
    pub id: Option<Seq<char>>,
    pub d: Seq<char>,
}

/// Mathematical image of an `Element`.
pub ghost enum ElementV {
    Group(GroupV),
    Rect(RectV),
    Use(UseV),
    Path(PathV),
}

/// The image of a rectangle.
pub open spec fn rect_view(r: Rect) -> RectV {
    RectV {
        x: r.x as int,
        y: r.y as int,
        width: r.width as int,
        height: r.height as int,
        rx: match r.rx {
            Some(v) => Some(v as int),
            None => None,
        },
        ry: match r.ry {
            Some(v) => Some(v as int),
            None => None,
        },
        fill: match r.fill {
            Some(s) => Some(s@),
            None => None,
        },
    }
}

/// The image of a glyph reference.
pub open spec fn use_view(u: Use) -> UseV {
    UseV { x: u.x as int, y: u.y as int, glyph: u.glyph }
}

/// The image of a path.
pub open spec fn path_view(p: Path) -> PathV {
    PathV {
        id: match p.id {
            Some(s) => Some(s@),
            None => None,
        },
        d: p.d@,
    }
}

/// The image of one element.
pub open spec fn elem_view(e: Element) -> ElementV
    decreases e,
{
    match e {
        Element::Group(g) => ElementV::Group(group_view(g)),
        Element::Rect(r) => ElementV::Rect(rect_view(r)),
        Element::Use(u) => ElementV::Use(use_view(u)),
        Element::Path(p) => ElementV::Path(path_view(p)),
    }
}

/// The image of a group.
pub open spec fn group_view(g: Group) -> GroupV
    decreases g,
{
    GroupV { x: g.x as int, y: g.y as int, elements: elems_view(g.elements@) }
}

/// The images of a sequence of elements, in order.
pub open spec fn elems_view(s: Seq<Element>) -> Seq<ElementV>
    decreases s,
{
    if s.len() == 0 {
        Seq::empty()
    } else {
        seq![elem_view(s[0])] + elems_view(s.subrange(1, s.len() as int))
    }
}

/// The markup text of a rectangle.
pub open spec fn rect_str(r: RectV) -> Seq<char> {
    "<rect x='"@ + int_seq(r.x) + "' y='"@ + int_seq(r.y) + "' width='"@ + dec_seq(r.width)
        + "' height='"@ + dec_seq(r.height) + "'"@ + (match r.rx {
        Some(v) => " rx='"@ + dec_seq(v) + "'"@,
        None => Seq::<char>::empty(),
    }) + (match r.ry {
        Some(v) => " ry='"@ + dec_seq(v) + "'"@,
        None => Seq::<char>::empty(),
    }) + (match r.fill {
        Some(f) => " fill='"@ + f + "'"@,
        None => Seq::<char>::empty(),
    }) + "/>"@
}

/// The markup text of a glyph reference.
pub open spec fn use_str(u: UseV) -> Seq<char> {
    "<use x='"@ + int_seq(u.x) + "' y='"@ + int_seq(u.y) + "' xlink:href='#"@ + hex_seq(
        u.glyph.spec_code() as int,
    ) + "'/>"@
}

/// The markup text of a path.
pub open spec fn path_str(p: PathV) -> Seq<char> {
    "<path"@ + (match p.id {
        Some(i) => " id='"@ + i + "'"@,
        None => Seq::<char>::empty(),
    }) + " d='"@ + p.d + "'/>"@
}

/// The markup text of a group: its elements in order, inside a tag that
/// carries a translation only when both offsets are nonzero.
pub open spec fn group_str(g: GroupV) -> Seq<char>
    decreases g,
{
    "<g"@ + (if g.x != 0 && g.y != 0 {
        " transform='translate("@ + int_seq(g.x) + " "@ + int_seq(g.y) + ")'>"@
    } else {
        ">"@
    }) + elements_str(g.elements) + "</g>"@
}

/// The markup text of a sequence of elements, in order.
pub open spec fn elements_str(s: Seq<ElementV>) -> Seq<char>
    decreases s,
{
    if s.len() == 0 {
        Seq::empty()
    } else {
        element_str(s[0]) + elements_str(s.subrange(1, s.len() as int))
    }
}

/// The markup text of one element.
pub open spec fn element_str(e: ElementV) -> Seq<char>
    decreases e,
{
    match e {
        ElementV::Group(g) => group_str(g),
        ElementV::Rect(r) => rect_str(r),
        ElementV::Use(u) => use_str(u),
        ElementV::Path(p) => path_str(p),
    }
}

/// The images of a sequence are as long as the sequence.
pub proof fn lemma_elems_view_len(s: Seq<Element>)
    ensures
        elems_view(s).len() == s.len(),
    decreases s.len(),
{
    if s.len() > 0 {
        lemma_elems_view_len(s.subrange(1, s.len() as int));
    }
}

/// The images of a sequence are the images of its elements, in place.
pub proof fn lemma_elems_view_index(s: Seq<Element>, i: int)
    requires
        0 <= i < s.len(),
    ensures
        elems_view(s).len() == s.len(),
        elems_view(s)[i] == elem_view(s[i]),
    decreases s.len(),
{
    lemma_elems_view_len(s);
    if i > 0 {
        lemma_elems_view_index(s.subrange(1, s.len() as int), i - 1);
    }
}

/// Appending one element appends its image.
pub proof fn lemma_elems_view_push(s: Seq<Element>, e: Element)
    ensures
        elems_view(s.push(e)) == elems_view(s).push(elem_view(e)),
{
    lemma_elems_view_len(s);
    lemma_elems_view_len(s.push(e));
    assert forall|i: int| 0 <= i < s.len() + 1 implies elems_view(s.push(e))[i] == elems_view(
        s,
    ).push(elem_view(e))[i] by {
        lemma_elems_view_index(s.push(e), i);
        if i < s.len() {
            lemma_elems_view_index(s, i);
            assert(s.push(e)[i] == s[i]);
        }
    }
    assert(elems_view(s.push(e)) =~= elems_view(s).push(elem_view(e)));
}

/// Appending one element appends its text.
pub proof fn lemma_elements_str_push(s: Seq<ElementV>, e: ElementV)
    ensures
        elements_str(s.push(e)) == elements_str(s) + element_str(e),
    decreases s.len(),
{
    if s.len() == 0 {
        assert(s.push(e).subrange(1, 1) =~= Seq::<ElementV>::empty());
        assert(s.push(e)[0] == e);
        assert(elements_str(s.push(e)) == element_str(e) + elements_str(
            s.push(e).subrange(1, 1),
        ));
        assert(elements_str(s.push(e)) =~= elements_str(s) + element_str(e));
    } else {
        let t = s.subrange(1, s.len() as int);
        lemma_elements_str_push(t, e);
        assert(s.push(e).subrange(1, s.len() as int + 1) =~= t.push(e));
        assert(s.push(e)[0] == s[0]);
        assert(elements_str(s.push(e)) == element_str(s[0]) + (elements_str(t) + element_str(e)));
        assert(elements_str(s.push(e)) =~= elements_str(s) + element_str(e));
    }
}

impl Rect {
    /// Build a rectangle; a numeric fill color becomes a `#`-prefixed
    /// lowercase hexadecimal fill.
    pub fn new(x: i32, y: i32, width: u32, height: u32, rx: Option<u32>, ry: Option<u32>, fill: Option<u32>) -> (r: Self)
        ensures
            r.x == x,
            r.y == y,
            r.width == width,
            r.height == height,
            r.rx == rx,
            r.ry == ry,
            fill is Some ==> r.fill is Some && r.fill->0@ == seq!['#'] + hex_seq(fill->0 as int),
            fill is None ==> r.fill is None,
    {
        let fill = match fill {
            Some(f) => {
                let mut fs = String::new();
                fs.append("#");
                append_hex_u32(&mut fs, f);
                proof {
                    reveal_strlit("#");
                    assert(fs@ =~= seq!['#'] + hex_seq(f as int));
                }
                Some(fs)
            },
            None => None,
        };
        Rect { x, y, width, height, rx, ry, fill }
    }

    /// The markup text of this rectangle.
    pub fn to_string(&self) -> (res: String)
        ensures
            res@ == rect_str(rect_view(*self)),
    {
        let mut s = String::new();
        s.append("<rect x='");
        append_dec_i32(&mut s, self.x);
        s.append("' y='");
        append_dec_i32(&mut s, self.y);
        s.append("' width='");
        append_dec_u32(&mut s, self.width);
        s.append("' height='");
        append_dec_u32(&mut s, self.height);
        s.append("'");
        if let Some(rx) = self.rx {
            s.append(" rx='");
            append_dec_u32(&mut s, rx);
            s.append("'");
        }
        if let Some(ry) = self.ry {
            s.append(" ry='");
            append_dec_u32(&mut s, ry);
            s.append("'");
        }
        match &self.fill {
            Some(fill) => {
                s.append(" fill='");
                s.append(fill.as_str());
                s.append("'");
            },
            None => {},
        }
        s.append("/>");
        proof {
            assert(s@ =~= rect_str(rect_view(*self)));
        }
        s
    }
}

impl Use {
    /// Build a glyph reference.
    pub fn new(x: i32, y: i32, glyph: GlyphId) -> (r: Self)
        ensures
            r.x == x,
            r.y == y,
            r.glyph == glyph,
    {
        Use { x, y, glyph }
    }

    /// The markup text of this glyph reference.
    pub fn to_string(&self) -> (res: String)
        ensures
            res@ == use_str(use_view(*self)),
    {
        let mut s = String::new();
        s.append("<use x='");
        append_dec_i32(&mut s, self.x);
        s.append("' y='");
        append_dec_i32(&mut s, self.y);
        s.append("' xlink:href='#");
        append_hex_u32(&mut s, self.glyph.code());
        s.append("'/>");
        proof {
            assert(s@ =~= use_str(use_view(*self)));
        }
        s
    }
}

impl Path {
    /// Build a path.
    pub fn new(id: Option<String>, d: String) -> (r: Self)
        ensures
            path_view(r).id == (match id {
                Some(s) => Some(s@),
                None => None::<Seq<char>>,
            }),
            path_view(r).d == d@,
    {
        Path { id, d }
    }

    /// The markup text of this path.
    pub fn to_string(&self) -> (res: String)
        ensures
            res@ == path_str(path_view(*self)),
    {
        let mut s = String::new();
        s.append("<path");
        match &self.id {
            Some(id) => {
                s.append(" id='");
                s.append(id.as_str());
                s.append("'");
            },
            None => {},
        }
        s.append(" d='");
        s.append(self.d.as_str());
        s.append("'/>");
        proof {
            assert(s@ =~= path_str(path_view(*self)));
        }
        s
    }
}

impl Group {
    /// Build an empty group at an offset.
    pub fn new(x: i32, y: i32) -> (r: Self)
        ensures
            r.x == x,
            r.y == y,
            r.elements@ == Seq::<Element>::empty(),
    {
        let elements = Vec::new();
        Group { x, y, elements }
    }

    /// Add an element to the end of the group.
    pub fn push(&mut self, elem: Element)
        ensures
            final(self).x == old(self).x,
            final(self).y == old(self).y,
            final(self).elements@ == old(self).elements@.push(elem),
    {
        self.elements.push(elem);
    }

    /// The markup text of this group.
    pub fn to_string(&self) -> (res: String)
        ensures
            res@ == group_str(group_view(*self)),
        decreases *self,
    {
        let mut s = String::new();
        s.append("<g");
        if self.x != 0 && self.y != 0 {
            s.append(" transform='translate(");
            append_dec_i32(&mut s, self.x);
            s.append(" ");
            append_dec_i32(&mut s, self.y);
            s.append(")'>");
        } else {
            s.append(">");
        }
        let ghost header = s@;
        let mut i: usize = 0;
        while i < self.elements.len()
            invariant
                i <= self.elements.len(),
                s@ == header + elements_str(elems_view(self.elements@.subrange(0, i as int))),
            decreases self.elements.len() - i,
        {
            proof {
                assert(decreases_to!(*self => self.elements));
                assert(decreases_to!(self.elements => self.elements@));
                assert(decreases_to!(self.elements@ => self.elements@[i as int]));
            }
            let piece = self.elements[i].to_string();
            s.append(piece.as_str());
            proof {
                lemma_elems_view_push(self.elements@.subrange(0, i as int), self.elements@[i as int]);
                lemma_elements_str_push(
                    elems_view(self.elements@.subrange(0, i as int)),
                    elem_view(self.elements@[i as int]),
                );
                assert(self.elements@.subrange(0, i as int).push(self.elements@[i as int])
                    =~= self.elements@.subrange(0, i + 1));
            }
            i += 1;
        }
        s.append("</g>");
        proof {
            assert(self.elements@.subrange(0, self.elements@.len() as int) =~= self.elements@);
            assert(s@ =~= group_str(group_view(*self)));
        }
        s
    }
}

impl Element {
    /// The markup text of this element.
    pub fn to_string(&self) -> (res: String)
        ensures
            res@ == element_str(elem_view(*self)),
        decreases *self,
    {
        match self {
            Element::Group(g) => g.to_string(),
            Element::Rect(r) => r.to_string(),
            Element::Use(u) => u.to_string(),
            Element::Path(p) => p.to_string(),
        }
    }
}

} // verus!
