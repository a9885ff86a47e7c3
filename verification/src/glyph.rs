//! The catalog of drawable music glyphs, and the lookup rules that pick a
//! glyph for a duration class.

use vstd::prelude::*;

verus! {

/// Whether `d` is a duration class: the denominator of one of the eight
/// power-of-two note lengths a single glyph can stand for, from a whole
/// note (1) down to a 128th note (128).
pub open spec fn is_duration_class(d: u8) -> bool {
    d == 1 || d == 2 || d == 4 || d == 8 || d == 16 || d == 32 || d == 64 || d == 128
}

/// Different parts of the music that can be drawn.
///
/// The code of each glyph matches SMuFL.
#[derive(Clone, Copy, Debug)]
pub enum GlyphId {
    Barline,
    Stem,
    StemBuzzRoll,
    StemDamp,
    StemHarpStringNoise,
    StemRimShot,
    StemBowBridge,
    StemBowTailpiece,
    FlagUp8,
    FlagDown8,
    FlagUp16,
    FlagDown16,
    FlagUp32,
    FlagDown32,
    FlagUp64,
    FlagDown64,
    FlagUp128,
    FlagDown128,
    NoteheadDoubleWhole,
    NoteheadDoubleWholeX,
    NoteheadDoubleWholeSquare,
    NoteheadDoubleWholeWithX,
    NoteheadOutlineSquare,
    NoteheadOutlineLargeSquare,
    NoteheadWhole,
    NoteheadWholeX,
    NoteheadHalf,
    NoteheadHalfX,
    NoteheadFill,
    NoteheadFillX,
    NoteheadSquare,
    NoteheadLargeSquare,
    Rest1,
    Rest2,
    Rest4,
    Rest4Old,
    Rest8,
    Rest16,
    Rest32,
    Rest64,
    Rest128,
    PitchPlop,
    PitchScoop,
    PitchSmear,
    Coda,
    CodaSquare,
    Segno,
    MeasureRepeatUpper,
    MeasureRepeatSlash,
    MeasureRepeatLower,
    RepeatOpen,
    RepeatClose,
    RepeatCloseOpen,
    FlatDouble,
    FlatDoubleEqual,
    FlatDoubleFlatComma1,
    FlatDoubleSharpComma1,
    FlatDoubleFlatComma2,
    FlatDoubleSharpComma2,
    FlatDoubleFlatComma3,
    FlatDoubleSharpComma3,
    Flat,
    FlatEqual,
    FlatFlatComma1,
    FlatSharpComma1,
    FlatFlatComma2,
    FlatSharpComma2,
    FlatFlatComma3,
    FlatSharpComma3,
    Natural,
    NaturalEqual,
    NaturalFlatComma1,
    NaturalSharpComma1,
    NaturalFlatComma2,
    NaturalSharpComma2,
    NaturalFlatComma3,
    NaturalSharpComma3,
    Sharp,
    SharpEqual,
    SharpFlatComma1,
    SharpSharpComma1,
    SharpFlatComma2,
    SharpSharpComma2,
    SharpFlatComma3,
    SharpSharpComma3,
    SharpDouble,
    SharpDoubleEqual,
    SharpDoubleFlatComma1,
    SharpDoubleSharpComma1,
    SharpDoubleFlatComma2,
    SharpDoubleSharpComma2,
    SharpDoubleFlatComma3,
    SharpDoubleSharpComma3,
    SharpQuarter3,
    SharpQuarter3SteinZimmerman,
    SharpQuarter3Busotti,
    FlatQuarter3,
    FlatQuarter3SteinZimmerman,
    FlatQuarter1,
    FlatQuarter1SteinZimmerman,
    FlatQuarter1Iranian,
    FlatQuarter1Numeric,
    SharpQuarter1,
    SharpQuarter1SteinZimmerman,
    SharpQuarter1Iranian,
    SharpQuarter1Numeric,
    FlatQuarter1Tridecimal,
    FlatQuarter1Undecimal,
    SharpThird1,
    SharpThird1Ferneyhough,
    FlatThird1Ferneyhough,
    SharpThird2,
    SharpThird2Ferneyhough,
    FlatThird2Ferneyhough,
    GraceNoteSlashStemUp,
    GraceNoteSlashStemDown,
    ClefTab4,
    ClefTab6,
    ClefC,
    ClefCChange,
    ClefG,
    ClefGChange,
    ClefF,
    ClefFChange,
    Clef8,
    Clef15,
    ClefLParens,
    ClefRParens,
    TimeSig0,
    TimeSig1,
    TimeSig2,
    TimeSig3,
    TimeSig4,
    TimeSig5,
    TimeSig6,
    TimeSig7,
    TimeSig8,
    TimeSig9,
    TimeSigCommon,
    TimeSigCut,
    TimeSigPlus,
    TimeSigNumPlus,
    Tremelo1,
    Tremelo2,
    Tremelo3,
    Tremelo4,
    Tremelo5,
    P,
    M,
    F,
    R,
    S,
    Z,
    N,
    GlissUpShort,
    GlissUpMedium,
    GlissUpLong,
    GlissDownShort,
    GlissDownMedium,
    GlissDownLong,
    GlissUpShortStyleB,
    GlissUpMediumStyleB,
    GlissUpLongStyleB,
    GlissDownShortStyleB,
    GlissDownMediumStyleB,
    GlissDownLongStyleB,
    Tuplet0,
    Tuplet1,
    Tuplet2,
    Tuplet3,
    Tuplet4,
    Tuplet5,
    Tuplet6,
    Tuplet7,
    Tuplet8,
    Tuplet9,
    TupletColon,
}

impl GlyphId {
    /// The SMuFL code point of this glyph.
    pub open spec fn spec_code(self) -> u32 {
        match self {
            GlyphId::Barline => 0xE030,
            GlyphId::Stem => 0xE210,
            GlyphId::StemBuzzRoll => 0xE217,
            GlyphId::StemDamp => 0xE218,
            GlyphId::StemHarpStringNoise => 0xE21F,
            GlyphId::StemRimShot => 0xE21E,
            GlyphId::StemBowBridge => 0xE215,
            GlyphId::StemBowTailpiece => 0xE216,
            GlyphId::FlagUp8 => 0xE240,
            GlyphId::FlagDown8 => 0xE241,
            GlyphId::FlagUp16 => 0xE242,
            GlyphId::FlagDown16 => 0xE243,
            GlyphId::FlagUp32 => 0xE244,
            GlyphId::FlagDown32 => 0xE245,
            GlyphId::FlagUp64 => 0xE246,
            GlyphId::FlagDown64 => 0xE247,
            GlyphId::FlagUp128 => 0xE248,
            GlyphId::FlagDown128 => 0xE249,
            GlyphId::NoteheadDoubleWhole => 0xE0A0,
            GlyphId::NoteheadDoubleWholeX => 0xE0A6,
            GlyphId::NoteheadDoubleWholeSquare => 0xE0A1,
            GlyphId::NoteheadDoubleWholeWithX => 0xE0B4,
            GlyphId::NoteheadOutlineSquare => 0xE0B8,
            GlyphId::NoteheadOutlineLargeSquare => 0xE11B,
            GlyphId::NoteheadWhole => 0xE0A2,
            GlyphId::NoteheadWholeX => 0xE0A7,
            GlyphId::NoteheadHalf => 0xE0A3,
            GlyphId::NoteheadHalfX => 0xE0A8,
            GlyphId::NoteheadFill => 0xE0A4,
            GlyphId::NoteheadFillX => 0xE0A9,
            GlyphId::NoteheadSquare => 0xE0B9,
            GlyphId::NoteheadLargeSquare => 0xE11A,
            GlyphId::Rest1 => 0xE4E3,
            GlyphId::Rest2 => 0xE4E4,
            GlyphId::Rest4 => 0xE4E5,
            GlyphId::Rest4Old => 0xE4F2,
            GlyphId::Rest8 => 0xE4E6,
            GlyphId::Rest16 => 0xE4E7,
            GlyphId::Rest32 => 0xE4E8,
            GlyphId::Rest64 => 0xE4E9,
            GlyphId::Rest128 => 0xE4EA,
            GlyphId::PitchPlop => 0xE5E0,
            GlyphId::PitchScoop => 0xE5D0,
            GlyphId::PitchSmear => 0xE5E2,
            GlyphId::Coda => 0xE048,
            GlyphId::CodaSquare => 0xE049,
            GlyphId::Segno => 0xE047,
            GlyphId::MeasureRepeatUpper => 0xE503,
            GlyphId::MeasureRepeatSlash => 0xE504,
            GlyphId::MeasureRepeatLower => 0xE505,
            GlyphId::RepeatOpen => 0xE040,
            GlyphId::RepeatClose => 0xE041,
            GlyphId::RepeatCloseOpen => 0xE042,
            GlyphId::FlatDouble => 0xE264,
            GlyphId::FlatDoubleEqual => 0xE2F0,
            GlyphId::FlatDoubleFlatComma1 => 0xE2C0,
            GlyphId::FlatDoubleSharpComma1 => 0xE2C5,
            GlyphId::FlatDoubleFlatComma2 => 0xE2CA,
            GlyphId::FlatDoubleSharpComma2 => 0xE2CF,
            GlyphId::FlatDoubleFlatComma3 => 0xE2D4,
            GlyphId::FlatDoubleSharpComma3 => 0xE2D9,
            GlyphId::Flat => 0xE260,
            GlyphId::FlatEqual => 0xE2F1,
            GlyphId::FlatFlatComma1 => 0xE2C1,
            GlyphId::FlatSharpComma1 => 0xE2C6,
            GlyphId::FlatFlatComma2 => 0xE2CB,
            GlyphId::FlatSharpComma2 => 0xE2D0,
            GlyphId::FlatFlatComma3 => 0xE2D5,
            GlyphId::FlatSharpComma3 => 0xE2DA,
            GlyphId::Natural => 0xE261,
            GlyphId::NaturalEqual => 0xE2F2,
            GlyphId::NaturalFlatComma1 => 0xE2C2,
            GlyphId::NaturalSharpComma1 => 0xE2C7,
            GlyphId::NaturalFlatComma2 => 0xE2CC,
            GlyphId::NaturalSharpComma2 => 0xE2D1,
            GlyphId::NaturalFlatComma3 => 0xE2D6,
            GlyphId::NaturalSharpComma3 => 0xE2DB,
            GlyphId::Sharp => 0xE262,
            GlyphId::SharpEqual => 0xE2F3,
            GlyphId::SharpFlatComma1 => 0xE2C3,
            GlyphId::SharpSharpComma1 => 0xE2C8,
            GlyphId::SharpFlatComma2 => 0xE2CD,
            GlyphId::SharpSharpComma2 => 0xE2D2,
            GlyphId::SharpFlatComma3 => 0xE2D7,
            GlyphId::SharpSharpComma3 => 0xE2DC,
            GlyphId::SharpDouble => 0xE263,
            GlyphId::SharpDoubleEqual => 0xE2F4,
            GlyphId::SharpDoubleFlatComma1 => 0xE2C4,
            GlyphId::SharpDoubleSharpComma1 => 0xE2C9,
            GlyphId::SharpDoubleFlatComma2 => 0xE2CE,
            GlyphId::SharpDoubleSharpComma2 => 0xE2D3,
            GlyphId::SharpDoubleFlatComma3 => 0xE2D8,
            GlyphId::SharpDoubleSharpComma3 => 0xE2DD,
            GlyphId::SharpQuarter3 => 0xED37,
            GlyphId::SharpQuarter3SteinZimmerman => 0xE283,
            GlyphId::SharpQuarter3Busotti => 0xE474,
            GlyphId::FlatQuarter3 => 0xED31,
            GlyphId::FlatQuarter3SteinZimmerman => 0xE281,
            GlyphId::FlatQuarter1 => 0xED33,
            GlyphId::FlatQuarter1SteinZimmerman => 0xE280,
            GlyphId::FlatQuarter1Iranian => 0xE460,
            GlyphId::FlatQuarter1Numeric => 0xE47F,
            GlyphId::SharpQuarter1 => 0xED35,
            GlyphId::SharpQuarter1SteinZimmerman => 0xE282,
            GlyphId::SharpQuarter1Iranian => 0xE461,
            GlyphId::SharpQuarter1Numeric => 0xE47E,
            GlyphId::FlatQuarter1Tridecimal => 0xE2E4,
            GlyphId::FlatQuarter1Undecimal => 0xE2E2,
            GlyphId::SharpThird1 => 0xE470,
            GlyphId::SharpThird1Ferneyhough => 0xE48A,
            GlyphId::FlatThird1Ferneyhough => 0xE48B,
            GlyphId::SharpThird2 => 0xE471,
            GlyphId::SharpThird2Ferneyhough => 0xE48C,
            GlyphId::FlatThird2Ferneyhough => 0xE48D,
            GlyphId::GraceNoteSlashStemUp => 0xE564,
            GlyphId::GraceNoteSlashStemDown => 0xE565,
            GlyphId::ClefTab4 => 0xE06E,
            GlyphId::ClefTab6 => 0xE06D,
            GlyphId::ClefC => 0xE05C,
            GlyphId::ClefCChange => 0xE07B,
            GlyphId::ClefG => 0xE050,
            GlyphId::ClefGChange => 0xE07A,
            GlyphId::ClefF => 0xE062,
            GlyphId::ClefFChange => 0xE07C,
            GlyphId::Clef8 => 0xE07D,
            GlyphId::Clef15 => 0xE07E,
            GlyphId::ClefLParens => 0xE51A,
            GlyphId::ClefRParens => 0xE51B,
            GlyphId::TimeSig0 => 0xE080,
            GlyphId::TimeSig1 => 0xE081,
            GlyphId::TimeSig2 => 0xE082,
            GlyphId::TimeSig3 => 0xE083,
            GlyphId::TimeSig4 => 0xE084,
            GlyphId::TimeSig5 => 0xE085,
            GlyphId::TimeSig6 => 0xE086,
            GlyphId::TimeSig7 => 0xE087,
            GlyphId::TimeSig8 => 0xE088,
            GlyphId::TimeSig9 => 0xE089,
            GlyphId::TimeSigCommon => 0xE08A,
            GlyphId::TimeSigCut => 0xE08B,
            GlyphId::TimeSigPlus => 0xE08C,
            GlyphId::TimeSigNumPlus => 0xE08D,
            GlyphId::Tremelo1 => 0xE220,
            GlyphId::Tremelo2 => 0xE221,
            GlyphId::Tremelo3 => 0xE222,
            GlyphId::Tremelo4 => 0xE223,
            GlyphId::Tremelo5 => 0xE224,
            GlyphId::P => 0xE520,
            GlyphId::M => 0xE521,
            GlyphId::F => 0xE522,
            GlyphId::R => 0xE523,
            GlyphId::S => 0xE524,
            GlyphId::Z => 0xE525,
            GlyphId::N => 0xE526,
            GlyphId::GlissUpShort => 0xE5D1,
            GlyphId::GlissUpMedium => 0xE5D2,
            GlyphId::GlissUpLong => 0xE5D3,
            GlyphId::GlissDownShort => 0xE5DD,
            GlyphId::GlissDownMedium => 0xE5DE,
            GlyphId::GlissDownLong => 0xE5DF,
            GlyphId::GlissUpShortStyleB => 0xE5EC,
            GlyphId::GlissUpMediumStyleB => 0xE5ED,
            GlyphId::GlissUpLongStyleB => 0xE5EF,
            GlyphId::GlissDownShortStyleB => 0xE5DA,
            GlyphId::GlissDownMediumStyleB => 0xE5DB,
            GlyphId::GlissDownLongStyleB => 0xE5DC,
            GlyphId::Tuplet0 => 0xE880,
            GlyphId::Tuplet1 => 0xE881,
            GlyphId::Tuplet2 => 0xE882,
            GlyphId::Tuplet3 => 0xE883,
            GlyphId::Tuplet4 => 0xE884,
            GlyphId::Tuplet5 => 0xE885,
            GlyphId::Tuplet6 => 0xE886,
            GlyphId::Tuplet7 => 0xE887,
            GlyphId::Tuplet8 => 0xE888,
            GlyphId::Tuplet9 => 0xE889,
            GlyphId::TupletColon => 0xE88A,
        }
    }

    /// The SMuFL code point of this glyph.
    pub fn code(self) -> (r: u32)
        ensures
            r == self.spec_code(),
    {
        match self {
            GlyphId::Barline => 0xE030,
            GlyphId::Stem => 0xE210,
            GlyphId::StemBuzzRoll => 0xE217,
            GlyphId::StemDamp => 0xE218,
            GlyphId::StemHarpStringNoise => 0xE21F,
            GlyphId::StemRimShot => 0xE21E,
            GlyphId::StemBowBridge => 0xE215,
            GlyphId::StemBowTailpiece => 0xE216,
            GlyphId::FlagUp8 => 0xE240,
            GlyphId::FlagDown8 => 0xE241,
            GlyphId::FlagUp16 => 0xE242,
            GlyphId::FlagDown16 => 0xE243,
            GlyphId::FlagUp32 => 0xE244,
            GlyphId::FlagDown32 => 0xE245,
            GlyphId::FlagUp64 => 0xE246,
            GlyphId::FlagDown64 => 0xE247,
            GlyphId::FlagUp128 => 0xE248,
            GlyphId::FlagDown128 => 0xE249,
            GlyphId::NoteheadDoubleWhole => 0xE0A0,
            GlyphId::NoteheadDoubleWholeX => 0xE0A6,
            GlyphId::NoteheadDoubleWholeSquare => 0xE0A1,
            GlyphId::NoteheadDoubleWholeWithX => 0xE0B4,
            GlyphId::NoteheadOutlineSquare => 0xE0B8,
            GlyphId::NoteheadOutlineLargeSquare => 0xE11B,
            GlyphId::NoteheadWhole => 0xE0A2,
            GlyphId::NoteheadWholeX => 0xE0A7,
            GlyphId::NoteheadHalf => 0xE0A3,
            GlyphId::NoteheadHalfX => 0xE0A8,
            GlyphId::NoteheadFill => 0xE0A4,
            GlyphId::NoteheadFillX => 0xE0A9,
            GlyphId::NoteheadSquare => 0xE0B9,
            GlyphId::NoteheadLargeSquare => 0xE11A,
            GlyphId::Rest1 => 0xE4E3,
            GlyphId::Rest2 => 0xE4E4,
            GlyphId::Rest4 => 0xE4E5,
            GlyphId::Rest4Old => 0xE4F2,
            GlyphId::Rest8 => 0xE4E6,
            GlyphId::Rest16 => 0xE4E7,
            GlyphId::Rest32 => 0xE4E8,
            GlyphId::Rest64 => 0xE4E9,
            GlyphId::Rest128 => 0xE4EA,
            GlyphId::PitchPlop => 0xE5E0,
            GlyphId::PitchScoop => 0xE5D0,
            GlyphId::PitchSmear => 0xE5E2,
            GlyphId::Coda => 0xE048,
            GlyphId::CodaSquare => 0xE049,
            GlyphId::Segno => 0xE047,
            GlyphId::MeasureRepeatUpper => 0xE503,
            GlyphId::MeasureRepeatSlash => 0xE504,
            GlyphId::MeasureRepeatLower => 0xE505,
            GlyphId::RepeatOpen => 0xE040,
            GlyphId::RepeatClose => 0xE041,
            GlyphId::RepeatCloseOpen => 0xE042,
            GlyphId::FlatDouble => 0xE264,
            GlyphId::FlatDoubleEqual => 0xE2F0,
            GlyphId::FlatDoubleFlatComma1 => 0xE2C0,
            GlyphId::FlatDoubleSharpComma1 => 0xE2C5,
            GlyphId::FlatDoubleFlatComma2 => 0xE2CA,
            GlyphId::FlatDoubleSharpComma2 => 0xE2CF,
            GlyphId::FlatDoubleFlatComma3 => 0xE2D4,
            GlyphId::FlatDoubleSharpComma3 => 0xE2D9,
            GlyphId::Flat => 0xE260,
            GlyphId::FlatEqual => 0xE2F1,
            GlyphId::FlatFlatComma1 => 0xE2C1,
            GlyphId::FlatSharpComma1 => 0xE2C6,
            GlyphId::FlatFlatComma2 => 0xE2CB,
            GlyphId::FlatSharpComma2 => 0xE2D0,
            GlyphId::FlatFlatComma3 => 0xE2D5,
            GlyphId::FlatSharpComma3 => 0xE2DA,
            GlyphId::Natural => 0xE261,
            GlyphId::NaturalEqual => 0xE2F2,
            GlyphId::NaturalFlatComma1 => 0xE2C2,
            GlyphId::NaturalSharpComma1 => 0xE2C7,
            GlyphId::NaturalFlatComma2 => 0xE2CC,
            GlyphId::NaturalSharpComma2 => 0xE2D1,
            GlyphId::NaturalFlatComma3 => 0xE2D6,
            GlyphId::NaturalSharpComma3 => 0xE2DB,
            GlyphId::Sharp => 0xE262,
            GlyphId::SharpEqual => 0xE2F3,
            GlyphId::SharpFlatComma1 => 0xE2C3,
            GlyphId::SharpSharpComma1 => 0xE2C8,
            GlyphId::SharpFlatComma2 => 0xE2CD,
            GlyphId::SharpSharpComma2 => 0xE2D2,
            GlyphId::SharpFlatComma3 => 0xE2D7,
            GlyphId::SharpSharpComma3 => 0xE2DC,
            GlyphId::SharpDouble => 0xE263,
            GlyphId::SharpDoubleEqual => 0xE2F4,
            GlyphId::SharpDoubleFlatComma1 => 0xE2C4,
            GlyphId::SharpDoubleSharpComma1 => 0xE2C9,
            GlyphId::SharpDoubleFlatComma2 => 0xE2CE,
            GlyphId::SharpDoubleSharpComma2 => 0xE2D3,
            GlyphId::SharpDoubleFlatComma3 => 0xE2D8,
            GlyphId::SharpDoubleSharpComma3 => 0xE2DD,
            GlyphId::SharpQuarter3 => 0xED37,
            GlyphId::SharpQuarter3SteinZimmerman => 0xE283,
            GlyphId::SharpQuarter3Busotti => 0xE474,
            GlyphId::FlatQuarter3 => 0xED31,
            GlyphId::FlatQuarter3SteinZimmerman => 0xE281,
            GlyphId::FlatQuarter1 => 0xED33,
            GlyphId::FlatQuarter1SteinZimmerman => 0xE280,
            GlyphId::FlatQuarter1Iranian => 0xE460,
            GlyphId::FlatQuarter1Numeric => 0xE47F,
            GlyphId::SharpQuarter1 => 0xED35,
            GlyphId::SharpQuarter1SteinZimmerman => 0xE282,
            GlyphId::SharpQuarter1Iranian => 0xE461,
            GlyphId::SharpQuarter1Numeric => 0xE47E,
            GlyphId::FlatQuarter1Tridecimal => 0xE2E4,
            GlyphId::FlatQuarter1Undecimal => 0xE2E2,
            GlyphId::SharpThird1 => 0xE470,
            GlyphId::SharpThird1Ferneyhough => 0xE48A,
            GlyphId::FlatThird1Ferneyhough => 0xE48B,
            GlyphId::SharpThird2 => 0xE471,
            GlyphId::SharpThird2Ferneyhough => 0xE48C,
            GlyphId::FlatThird2Ferneyhough => 0xE48D,
            GlyphId::GraceNoteSlashStemUp => 0xE564,
            GlyphId::GraceNoteSlashStemDown => 0xE565,
            GlyphId::ClefTab4 => 0xE06E,
            GlyphId::ClefTab6 => 0xE06D,
            GlyphId::ClefC => 0xE05C,
            GlyphId::ClefCChange => 0xE07B,
            GlyphId::ClefG => 0xE050,
            GlyphId::ClefGChange => 0xE07A,
            GlyphId::ClefF => 0xE062,
            GlyphId::ClefFChange => 0xE07C,
            GlyphId::Clef8 => 0xE07D,
            GlyphId::Clef15 => 0xE07E,
            GlyphId::ClefLParens => 0xE51A,
            GlyphId::ClefRParens => 0xE51B,
            GlyphId::TimeSig0 => 0xE080,
            GlyphId::TimeSig1 => 0xE081,
            GlyphId::TimeSig2 => 0xE082,
            GlyphId::TimeSig3 => 0xE083,
            GlyphId::TimeSig4 => 0xE084,
            GlyphId::TimeSig5 => 0xE085,
            GlyphId::TimeSig6 => 0xE086,
            GlyphId::TimeSig7 => 0xE087,
            GlyphId::TimeSig8 => 0xE088,
            GlyphId::TimeSig9 => 0xE089,
            GlyphId::TimeSigCommon => 0xE08A,
            GlyphId::TimeSigCut => 0xE08B,
            GlyphId::TimeSigPlus => 0xE08C,
            GlyphId::TimeSigNumPlus => 0xE08D,
            GlyphId::Tremelo1 => 0xE220,
            GlyphId::Tremelo2 => 0xE221,
            GlyphId::Tremelo3 => 0xE222,
            GlyphId::Tremelo4 => 0xE223,
            GlyphId::Tremelo5 => 0xE224,
            GlyphId::P => 0xE520,
            GlyphId::M => 0xE521,
            GlyphId::F => 0xE522,
            GlyphId::R => 0xE523,
            GlyphId::S => 0xE524,
            GlyphId::Z => 0xE525,
            GlyphId::N => 0xE526,
            GlyphId::GlissUpShort => 0xE5D1,
            GlyphId::GlissUpMedium => 0xE5D2,
            GlyphId::GlissUpLong => 0xE5D3,
            GlyphId::GlissDownShort => 0xE5DD,
            GlyphId::GlissDownMedium => 0xE5DE,
            GlyphId::GlissDownLong => 0xE5DF,
            GlyphId::GlissUpShortStyleB => 0xE5EC,
            GlyphId::GlissUpMediumStyleB => 0xE5ED,
            GlyphId::GlissUpLongStyleB => 0xE5EF,
            GlyphId::GlissDownShortStyleB => 0xE5DA,
            GlyphId::GlissDownMediumStyleB => 0xE5DB,
            GlyphId::GlissDownLongStyleB => 0xE5DC,
            GlyphId::Tuplet0 => 0xE880,
            GlyphId::Tuplet1 => 0xE881,
            GlyphId::Tuplet2 => 0xE882,
            GlyphId::Tuplet3 => 0xE883,
            GlyphId::Tuplet4 => 0xE884,
            GlyphId::Tuplet5 => 0xE885,
            GlyphId::Tuplet6 => 0xE886,
            GlyphId::Tuplet7 => 0xE887,
            GlyphId::Tuplet8 => 0xE888,
            GlyphId::Tuplet9 => 0xE889,
            GlyphId::TupletColon => 0xE88A,
        }
    }

    /// The rest glyph for a duration class.
    pub open spec fn spec_rest_duration(duration: u8) -> GlyphId {
        if duration == 1 {
            GlyphId::Rest1
        } else if duration == 2 {
            GlyphId::Rest2
        } else if duration == 4 {
            GlyphId::Rest4
        } else if duration == 8 {
            GlyphId::Rest8
        } else if duration == 16 {
            GlyphId::Rest16
        } else if duration == 32 {
            GlyphId::Rest32
        } else if duration == 64 {
            GlyphId::Rest64
        } else {
            GlyphId::Rest128
        }
    }

    /// Get the glyph for a rest with a specific duration class.
    pub fn rest_duration(duration: u8) -> (r: Self)
        requires
            is_duration_class(duration),
        ensures
            r == Self::spec_rest_duration(duration),
    {
        if duration == 1 {
            GlyphId::Rest1
        } else if duration == 2 {
            GlyphId::Rest2
        } else if duration == 4 {
            GlyphId::Rest4
        } else if duration == 8 {
            GlyphId::Rest8
        } else if duration == 16 {
            GlyphId::Rest16
        } else if duration == 32 {
            GlyphId::Rest32
        } else if duration == 64 {
            GlyphId::Rest64
        } else {
            GlyphId::Rest128
        }
    }

    /// The flag glyph, if any, for a duration class and stem direction:
    /// whole, half and quarter notes carry no flag.
    pub open spec fn spec_flag_duration(duration: u8, up: bool) -> Option<GlyphId> {
        if duration == 1 || duration == 2 || duration == 4 {
            None
        } else if duration == 8 {
            Some(if up { GlyphId::FlagUp8 } else { GlyphId::FlagDown8 })
        } else if duration == 16 {
            Some(if up { GlyphId::FlagUp16 } else { GlyphId::FlagDown16 })
        } else if duration == 32 {
            Some(if up { GlyphId::FlagUp32 } else { GlyphId::FlagDown32 })
        } else if duration == 64 {
            Some(if up { GlyphId::FlagUp64 } else { GlyphId::FlagDown64 })
        } else {
            Some(if up { GlyphId::FlagUp128 } else { GlyphId::FlagDown128 })
        }
    }

    /// Get the flag glyph for a note with a specific duration class.
    pub fn flag_duration(duration: u8, up: bool) -> (r: Option<Self>)
        requires
            is_duration_class(duration),
        ensures
            r == Self::spec_flag_duration(duration, up),
    {
        if duration == 1 || duration == 2 || duration == 4 {
            None
        } else if duration == 8 {
            Some(if up { GlyphId::FlagUp8 } else { GlyphId::FlagDown8 })
        } else if duration == 16 {
            Some(if up { GlyphId::FlagUp16 } else { GlyphId::FlagDown16 })
        } else if duration == 32 {
            Some(if up { GlyphId::FlagUp32 } else { GlyphId::FlagDown32 })
        } else if duration == 64 {
            Some(if up { GlyphId::FlagUp64 } else { GlyphId::FlagDown64 })
        } else {
            Some(if up { GlyphId::FlagUp128 } else { GlyphId::FlagDown128 })
        }
    }

    /// Given a duration class and a set of notehead glyphs, the appropriate
    /// glyph: the outline heads for whole and half notes, the filled head
    /// for a quarter note and everything finer.
    pub open spec fn spec_notehead_variants(
        whole: GlyphId,
        half: GlyphId,
        fill: GlyphId,
        duration: u8,
    ) -> GlyphId {
        if duration > 4 {
            fill
        } else if duration == 1 {
            whole
        } else if duration == 2 {
            half
        } else {
            fill
        }
    }

    /// Given a duration class and set of notehead glyphs, choose the
    /// appropriate glyph.
    pub fn notehead_variants(whole: GlyphId, half: GlyphId, fill: GlyphId, duration: u8) -> (r:
        Self)
        requires
            is_duration_class(duration),
        ensures
            r == Self::spec_notehead_variants(whole, half, fill, duration),
    {
        if duration > 4 {
            fill
        } else if duration == 1 {
            whole
        } else if duration == 2 {
            half
        } else {
            fill
        }
    }

    /// Get the notehead glyph for a note with a specific duration class.
    pub fn notehead_duration(duration: u8) -> (r: Self)
        requires
            is_duration_class(duration),
        ensures
            r == Self::spec_notehead_variants(
                GlyphId::NoteheadWhole,
                GlyphId::NoteheadHalf,
                GlyphId::NoteheadFill,
                duration,
            ),
    {
        Self::notehead_variants(
            GlyphId::NoteheadWhole,
            GlyphId::NoteheadHalf,
            GlyphId::NoteheadFill,
            duration,
        )
    }

    /// Get the x notehead glyph for a note with a specific duration class.
    pub fn x_notehead_duration(duration: u8) -> (r: Self)
        requires
            is_duration_class(duration),
        ensures
            r == Self::spec_notehead_variants(
                GlyphId::NoteheadWholeX,
                GlyphId::NoteheadHalfX,
                GlyphId::NoteheadFillX,
                duration,
            ),
    {
        Self::notehead_variants(
            GlyphId::NoteheadWholeX,
            GlyphId::NoteheadHalfX,
            GlyphId::NoteheadFillX,
            duration,
        )
    }

    /// Get the square notehead glyph for a note with a specific duration
    /// class.
    pub fn square_notehead_duration(duration: u8) -> (r: Self)
        requires
            is_duration_class(duration),
        ensures
            r == Self::spec_notehead_variants(
                GlyphId::NoteheadOutlineSquare,
                GlyphId::NoteheadOutlineSquare,
                GlyphId::NoteheadSquare,
                duration,
            ),
    {
        Self::notehead_variants(
            GlyphId::NoteheadOutlineSquare,
            GlyphId::NoteheadOutlineSquare,
            GlyphId::NoteheadSquare,
            duration,
        )
    }

    /// Get the large square notehead glyph for a note with a specific
    /// duration class.
    pub fn large_square_notehead_duration(duration: u8) -> (r: Self)
        requires
            is_duration_class(duration),
        ensures
            r == Self::spec_notehead_variants(
                GlyphId::NoteheadOutlineLargeSquare,
                GlyphId::NoteheadOutlineLargeSquare,
                GlyphId::NoteheadLargeSquare,
                duration,
            ),
    {
        Self::notehead_variants(
            GlyphId::NoteheadOutlineLargeSquare,
            GlyphId::NoteheadOutlineLargeSquare,
            GlyphId::NoteheadLargeSquare,
            duration,
        )
    }
}

} // verus!
