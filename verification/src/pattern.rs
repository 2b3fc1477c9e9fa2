use vstd::prelude::*;

verus! {

/// The full-screen calibration patterns that the calibration helper can show.
#[derive(Clone, Copy, Debug, PartialEq, Eq, Structural)]
pub enum CalibPattern {
    Black,
    DarkGray,
    Gray50,
    White,
    Red,
    Green,
    Blue,
    SdrHdrSplit,
}

/// The button caption of each pattern.
pub open spec fn pattern_label(p: CalibPattern) -> Seq<char> {
    match p {
        CalibPattern::Black => "Black"@,
        CalibPattern::DarkGray => "5% Gray"@,
        CalibPattern::Gray50 => "50% Gray"@,
        CalibPattern::White => "White"@,
        CalibPattern::Red => "Red"@,
        CalibPattern::Green => "Green"@,
        CalibPattern::Blue => "Blue"@,
        CalibPattern::SdrHdrSplit => "SDR│HDR"@,
    }
}

/// The command-line argument that selects each pattern in the calibration helper.
pub open spec fn pattern_arg(p: CalibPattern) -> Seq<char> {
    match p {
        CalibPattern::Black => "black"@,
        CalibPattern::DarkGray => "darkgray"@,
        CalibPattern::Gray50 => "gray50"@,
        CalibPattern::White => "white"@,
        CalibPattern::Red => "red"@,
        CalibPattern::Green => "green"@,
        CalibPattern::Blue => "blue"@,
        CalibPattern::SdrHdrSplit => "sdr_hdr"@,
    }
}

/// Each pattern has its own argument, so the helper is never asked for one
/// pattern in place of another.
pub proof fn lemma_pattern_args_distinct(p: CalibPattern, q: CalibPattern)
    ensures
        p != q ==> pattern_arg(p) != pattern_arg(q),
{
    reveal_strlit("black");
    reveal_strlit("darkgray");
    reveal_strlit("gray50");
    reveal_strlit("white");
    reveal_strlit("red");
    reveal_strlit("green");
    reveal_strlit("blue");
    reveal_strlit("sdr_hdr");
    if p != q && pattern_arg(p) == pattern_arg(q) {
        assert(pattern_arg(p).len() == pattern_arg(q).len());
        assert(pattern_arg(p)[0] == pattern_arg(q)[0]);
        assert(pattern_arg(p)[1] == pattern_arg(q)[1]);
    }
}

/// The eight captions are distinct and none is empty, so each button is
/// labelled and no two look alike.
pub proof fn lemma_pattern_labels_distinct(p: CalibPattern, q: CalibPattern)
    ensures
        pattern_label(p).len() > 0,
        p != q ==> pattern_label(p) != pattern_label(q),
{
    reveal_strlit("Black");
    reveal_strlit("5% Gray");
    reveal_strlit("50% Gray");
    reveal_strlit("White");
    reveal_strlit("Red");
    reveal_strlit("Green");
    reveal_strlit("Blue");
    reveal_strlit("SDR│HDR");
    if p != q && pattern_label(p) == pattern_label(q) {
        assert(pattern_label(p).len() == pattern_label(q).len());
        assert(pattern_label(p)[0] == pattern_label(q)[0]);
        assert(pattern_label(p)[1] == pattern_label(q)[1]);
    }
}

impl CalibPattern {
    pub fn label(self) -> (r: &'static str)
        ensures
            r@ == pattern_label(self),
    {
        match self {
            CalibPattern::Black => "Black",
            CalibPattern::DarkGray => "5% Gray",
            CalibPattern::Gray50 => "50% Gray",
            CalibPattern::White => "White",
            CalibPattern::Red => "Red",
            CalibPattern::Green => "Green",
            CalibPattern::Blue => "Blue",
            CalibPattern::SdrHdrSplit => "SDR│HDR",
        }
    }

    pub fn arg(self) -> (r: &'static str)
        ensures
            r@ == pattern_arg(self),
    {
        match self {
            CalibPattern::Black => "black",
            CalibPattern::DarkGray => "darkgray",
            CalibPattern::Gray50 => "gray50",
            CalibPattern::White => "white",
            CalibPattern::Red => "red",
            CalibPattern::Green => "green",
            CalibPattern::Blue => "blue",
            CalibPattern::SdrHdrSplit => "sdr_hdr",
        }
    }
}

} // verus!
