use notate::GlyphId;

#[test]
fn rest_glyphs_by_class() {
    assert_eq!(GlyphId::rest_duration(1).code(), 0xE4E3);
    assert_eq!(GlyphId::rest_duration(2).code(), 0xE4E4);
    assert_eq!(GlyphId::rest_duration(4).code(), 0xE4E5);
    assert_eq!(GlyphId::rest_duration(8).code(), 0xE4E6);
    assert_eq!(GlyphId::rest_duration(16).code(), 0xE4E7);
    assert_eq!(GlyphId::rest_duration(32).code(), 0xE4E8);
    assert_eq!(GlyphId::rest_duration(64).code(), 0xE4E9);
    assert_eq!(GlyphId::rest_duration(128).code(), 0xE4EA);
}

#[test]
fn no_flag_for_quarter_and_longer() {
    assert!(GlyphId::flag_duration(1, true).is_none());
    assert!(GlyphId::flag_duration(2, false).is_none());
    assert!(GlyphId::flag_duration(4, true).is_none());
}

#[test]
fn flags_by_class_and_direction() {
    assert_eq!(GlyphId::flag_duration(8, true).unwrap().code(), 0xE240);
    assert_eq!(GlyphId::flag_duration(8, false).unwrap().code(), 0xE241);
    assert_eq!(GlyphId::flag_duration(32, true).unwrap().code(), 0xE244);
    assert_eq!(GlyphId::flag_duration(128, false).unwrap().code(), 0xE249);
}

#[test]
fn noteheads_by_class() {
    assert_eq!(GlyphId::notehead_duration(1).code(), 0xE0A2);
    assert_eq!(GlyphId::notehead_duration(2).code(), 0xE0A3);
    assert_eq!(GlyphId::notehead_duration(4).code(), 0xE0A4);
    // Everything finer than a quarter maps to the filled head.
    assert_eq!(GlyphId::notehead_duration(8).code(), 0xE0A4);
    assert_eq!(GlyphId::notehead_duration(128).code(), 0xE0A4);
}

#[test]
fn notehead_variant_families() {
    assert_eq!(GlyphId::x_notehead_duration(1).code(), 0xE0A7);
    assert_eq!(GlyphId::x_notehead_duration(16).code(), 0xE0A9);
    assert_eq!(GlyphId::square_notehead_duration(2).code(), 0xE0B8);
    assert_eq!(GlyphId::square_notehead_duration(4).code(), 0xE0B9);
    assert_eq!(GlyphId::large_square_notehead_duration(1).code(), 0xE11B);
    assert_eq!(GlyphId::large_square_notehead_duration(8).code(), 0xE11A);
}
