use notate::{Element, GlyphId, Group, Path, Rect, Use};

#[test]
fn rect() {
    assert_eq!(
        Rect::new(10, 12, 25, 20, None, None, None).to_string(),
        "<rect x='10' y='12' width='25' height='20'/>"
    );
}

#[test]
fn glyph() {
    assert_eq!(
        Use::new(37, 21, GlyphId::StemHarpStringNoise).to_string(),
        "<use x='37' y='21' xlink:href='#e21f'/>"
    );
}

#[test]
fn group() {
    let mut group = Group::new(0, 0);
    group.push(Element::Use(Use::new(2, 3, GlyphId::NoteheadWhole)));
    assert_eq!(group.to_string(), "<g><use x='2' y='3' xlink:href='#e0a2'/></g>");
}

#[test]
fn rect_full() {
    assert_eq!(
        Rect::new(-5, 0, 1, 2, Some(3), Some(4), Some(0xFF9AF0)).to_string(),
        "<rect x='-5' y='0' width='1' height='2' rx='3' ry='4' fill='#ff9af0'/>"
    );
}

#[test]
fn glyph_negative_position() {
    assert_eq!(
        Use::new(-37, -210, GlyphId::Barline).to_string(),
        "<use x='-37' y='-210' xlink:href='#e030'/>"
    );
}

#[test]
fn group_translated() {
    let mut group = Group::new(10, 20);
    group.push(Element::Rect(Rect::new(1, 2, 3, 4, None, None, None)));
    assert_eq!(
        group.to_string(),
        "<g transform='translate(10 20)'><rect x='1' y='2' width='3' height='4'/></g>"
    );
}

#[test]
fn group_nested() {
    let mut inner = Group::new(0, 0);
    inner.push(Element::Use(Use::new(2, 3, GlyphId::NoteheadWhole)));
    let mut outer = Group::new(0, 0);
    outer.push(Element::Group(inner));
    assert_eq!(outer.to_string(), "<g><g><use x='2' y='3' xlink:href='#e0a2'/></g></g>");
}

#[test]
fn path_with_id() {
    let p = Path::new(Some(String::from("glyph0")), String::from("M0 0h10z"));
    assert_eq!(p.to_string(), "<path id='glyph0' d='M0 0h10z'/>");
}

#[test]
fn path_without_id() {
    let p = Path::new(None, String::from("M1 2v3z"));
    assert_eq!(p.to_string(), "<path d='M1 2v3z'/>");
}
