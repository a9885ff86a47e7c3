use notate::{Cursor, Element, Fraction, Marking, MeasureElem, Notator, Note, Staff};

fn staff5() -> Staff {
    // Five lines, middle C on the middle line: height 1000, middle 1250.
    Staff::new(5, 0)
}

fn note(num: u64, den: u64, pitch: Option<i32>) -> Marking {
    Marking::Note(Note { pitch, duration: Fraction::new(num, den) })
}

fn use_at(e: &Element) -> (i32, i32, u32) {
    if let Element::Use(u) = e {
        (u.x, u.y, u.glyph.code())
    } else {
        panic!("expected a glyph reference");
    }
}

fn rect_at(e: &Element) -> (i32, i32, u32, u32) {
    if let Element::Rect(r) = e {
        (r.x, r.y, r.width, r.height)
    } else {
        panic!("expected a rectangle");
    }
}

#[test]
fn staff_geometry() {
    let staff = staff5();
    assert_eq!(staff.height(), 1000);
    assert_eq!(staff.virtual_height(), 2500);
    assert_eq!(staff.middle(), 1250);
    assert_eq!(staff.middle_c(), 1250);
    // A staff a third lower has its middle C three steps below the middle.
    let alto = Staff::new(5, 3);
    assert_eq!(alto.middle_c(), 1625);
}

#[test]
fn staff_path_lines() {
    let p = Staff::new(5, 0).path(3200);
    let mut expected = String::new();
    for i in 0..5 {
        expected += &format!("M36 {}h3200v36h-3200v-36z", 732 + 250 * i);
    }
    assert_eq!(p.to_string(), format!("<path d='{}'/>", expected));
}

#[test]
fn decompose_dotted_quarter() {
    // 3/8 of a whole note is 48 units of 128ths: a quarter (32) then an
    // eighth (16), in that order.
    assert_eq!(notate::decompose(48), vec![32, 16]);
}

#[test]
fn decompose_single_classes() {
    for s in [1u8, 2, 4, 8, 16, 32, 64, 128] {
        assert_eq!(notate::decompose(s), vec![s]);
    }
}

#[test]
fn decompose_sums_and_descends() {
    assert_eq!(notate::decompose(255), vec![128, 64, 32, 16, 8, 4, 2, 1]);
    let parts = notate::decompose(100);
    assert_eq!(parts, vec![64, 32, 4]);
    assert_eq!(parts.iter().map(|&s| s as u32).sum::<u32>(), 100);
}

#[test]
fn empty_measure_gets_centered_whole_measure_rest() {
    let mut m = MeasureElem::new(staff5());
    m.add_markings(&vec![]);
    assert_eq!(m.elements.len(), 2);
    // The whole-measure rest is centered in the bar, not at the running
    // offset, and sits two steps above the middle line.
    assert_eq!(use_at(&m.elements[0]), (1485, 1000, 0xE4E3));
    // The measure spans exactly one bar width, closed by a barline.
    assert_eq!(m.width, 3200);
    assert_eq!(rect_at(&m.elements[1]), (3200, 750, 36, 1000));
}

#[test]
fn whole_rest_in_nonempty_measure_is_left_aligned() {
    let mut m = MeasureElem::new(staff5());
    m.add_markings(&vec![note(1, 1, None)]);
    assert_eq!(m.elements.len(), 2);
    // One whole-rest symbol at the running offset plus the note margin,
    // not centered.
    assert_eq!(use_at(&m.elements[0]), (250, 1000, 0xE4E3));
    assert_eq!(m.width, 3200);
}

#[test]
fn dotted_quarter_decomposes_into_two_symbols() {
    let mut m = MeasureElem::new(staff5());
    m.add_markings(&vec![note(3, 8, Some(0))]);
    // Quarter head, stem, eighth head, stem, barline.
    assert_eq!(m.elements.len(), 5);
    assert_eq!(use_at(&m.elements[0]), (250, 1250, 0xE0A4));
    assert_eq!(use_at(&m.elements[2]), (1050, 1250, 0xE0A4));
    assert_eq!(m.width, 1200);
    assert_eq!(rect_at(&m.elements[4]), (1200, 750, 36, 1000));
}

#[test]
fn whole_note_has_no_stem() {
    let mut m = MeasureElem::new(staff5());
    m.add_markings(&vec![note(1, 1, Some(0))]);
    // Just the whole notehead and the barline: no stem rectangle.
    assert_eq!(m.elements.len(), 2);
    assert_eq!(use_at(&m.elements[0]), (250, 1250, 0xE0A2));
}

#[test]
fn half_note_has_one_stem() {
    let mut m = MeasureElem::new(staff5());
    m.add_markings(&vec![note(1, 2, Some(0))]);
    assert_eq!(m.elements.len(), 3);
    assert_eq!(use_at(&m.elements[0]), (250, 1250, 0xE0A3));
    // The head sits on the middle line, so the stem hangs downward from
    // the notehead's position.
    assert_eq!(rect_at(&m.elements[1]), (250, 1250, 30, 875));
}

#[test]
fn stem_points_up_below_the_middle_line() {
    let mut m = MeasureElem::new(staff5());
    m.add_markings(&vec![note(1, 4, Some(2))]);
    // The head is below the middle line (y grows downward), so the stem
    // rises from the head's right edge.
    assert_eq!(use_at(&m.elements[0]), (250, 1500, 0xE0A4));
    assert_eq!(rect_at(&m.elements[1]), (513, 625, 30, 875));
}

#[test]
fn notator_width_stays_in_lowest_terms() {
    let mut m = MeasureElem::new(staff5());
    let mut n = Notator::new();
    assert_eq!(n.width, Fraction::new(0, 1));
    n.notate(&mut m, &Note { pitch: Some(0), duration: Fraction::new(3, 8) });
    assert_eq!(n.width, Fraction::new(3, 8));
    n.notate(&mut m, &Note { pitch: None, duration: Fraction::new(1, 8) });
    assert_eq!(n.width, Fraction::new(1, 2));
}

#[test]
fn cursor_highlight_on_match() {
    let mut m = MeasureElem::new(staff5());
    let markings = vec![note(1, 4, Some(0))];
    m.add_cursor(0, 1, &markings, &Cursor::new(0, 1, 0));
    assert_eq!(m.elements.len(), 1);
    if let Element::Rect(r) = &m.elements[0] {
        // The quarter note spans 800 units; the highlight loses the
        // barline width and covers the full virtual height.
        assert_eq!((r.x, r.y, r.width, r.height), (36, 0, 764, 2500));
        assert_eq!(r.fill.as_deref(), Some("#ff9af0"));
    } else {
        panic!("expected the highlight rectangle");
    }
}

#[test]
fn cursor_highlight_offsets() {
    // In the first measure the clef and time signature shift the cursor.
    let mut m = MeasureElem::new(staff5());
    let markings = vec![note(1, 4, Some(0))];
    m.add_cursor(0, 0, &markings, &Cursor::new(0, 0, 0));
    assert_eq!(rect_at(&m.elements[0]), (1676, 0, 764, 2500));
    // A later marking's highlight starts after the spans before it.
    let mut m = MeasureElem::new(staff5());
    let markings = vec![note(1, 128, None), note(1, 4, Some(0))];
    m.add_cursor(0, 1, &markings, &Cursor::new(0, 1, 1));
    assert_eq!(m.elements.len(), 1);
    assert_eq!(rect_at(&m.elements[0]), (61, 0, 764, 2500));
}

#[test]
fn cursor_highlight_only_on_full_match() {
    let markings = vec![note(1, 4, Some(0))];
    // Wrong channel.
    let mut m = MeasureElem::new(staff5());
    m.add_cursor(0, 1, &markings, &Cursor::new(1, 1, 0));
    assert_eq!(m.elements.len(), 0);
    // Wrong measure.
    let mut m = MeasureElem::new(staff5());
    m.add_cursor(0, 1, &markings, &Cursor::new(0, 2, 0));
    assert_eq!(m.elements.len(), 0);
    // Marking index past the end.
    let mut m = MeasureElem::new(staff5());
    m.add_cursor(0, 1, &markings, &Cursor::new(0, 1, 1));
    assert_eq!(m.elements.len(), 0);
}

#[test]
fn cursor_highlight_suppressed_when_degenerate() {
    // A 128th note spans 25 units, less than the barline width of 36, so
    // no highlight is drawn at all.
    let mut m = MeasureElem::new(staff5());
    let markings = vec![note(1, 128, None)];
    m.add_cursor(0, 1, &markings, &Cursor::new(0, 1, 0));
    assert_eq!(m.elements.len(), 0);
}

#[test]
fn signature_layout() {
    let mut m = MeasureElem::new(staff5());
    m.add_signature();
    assert_eq!(m.width, 1640);
    assert_eq!(m.elements.len(), 3);
    assert_eq!(use_at(&m.elements[0]), (36, 1250, 0xE05C));
    assert_eq!(use_at(&m.elements[1]), (1036, 1000, 0xE083));
    assert_eq!(use_at(&m.elements[2]), (1012, 1500, 0xE084));
}

#[test]
fn add_staff_emits_the_line_path() {
    let mut m = MeasureElem::new(staff5());
    m.add_markings(&vec![]);
    m.add_staff();
    assert_eq!(m.elements.len(), 3);
    assert!(matches!(&m.elements[2], Element::Path(_)));
}

#[test]
fn measure_markup_text() {
    let mut m = MeasureElem::new(staff5());
    m.add_markings(&vec![]);
    assert_eq!(
        m.to_string(),
        "<use x='1485' y='1000' xlink:href='#e4e3'/><rect x='3200' y='750' width='36' height='1000'/>"
    );
}

#[test]
fn cursor_identity() {
    let c = Cursor::new(2, 0, 7);
    assert_eq!((c.chan, c.bar, c.marking), (2, 0, 7));
    assert!(c.is_first_bar());
    assert!(!Cursor::new(2, 1, 7).is_first_bar());
    assert_eq!(c, Cursor::new(2, 0, 7));
    assert_ne!(c, Cursor::new(2, 0, 8));
}

#[test]
fn markings_accumulate_left_to_right() {
    let mut m = MeasureElem::new(staff5());
    m.add_markings(&vec![note(1, 4, Some(0)), note(1, 4, Some(2))]);
    // Two quarter notes: head, stem, head, stem, barline.
    assert_eq!(m.elements.len(), 5);
    assert_eq!(use_at(&m.elements[0]), (250, 1250, 0xE0A4));
    assert_eq!(use_at(&m.elements[2]), (1050, 1500, 0xE0A4));
    assert_eq!(m.width, 1600);
    assert_eq!(rect_at(&m.elements[4]), (1600, 750, 36, 1000));
}

#[test]
fn tied_duration_spans_more_than_a_whole_note() {
    // Five quarters last longer than one whole note: the decomposition
    // emits a whole-note symbol and then a quarter symbol.
    assert_eq!(notate::decompose(160), vec![128, 32]);
    let mut m = MeasureElem::new(staff5());
    m.add_markings(&vec![note(5, 4, Some(0))]);
    // Whole head (no stem), quarter head, its stem, barline.
    assert_eq!(m.elements.len(), 4);
    assert_eq!(use_at(&m.elements[0]), (250, 1250, 0xE0A2));
    assert_eq!(use_at(&m.elements[1]), (3450, 1250, 0xE0A4));
    assert_eq!(m.width, 4000);
}

#[test]
fn decompose_is_deterministic() {
    for u in 1..=255u8 {
        assert_eq!(notate::decompose(u), notate::decompose(u));
        let parts = notate::decompose(u);
        assert_eq!(parts.iter().map(|&s| s as u32).sum::<u32>(), u as u32);
        for pair in parts.windows(2) {
            assert!(pair[0] > pair[1]);
        }
    }
}
