use cosmic_hdr::pattern::CalibPattern;

const ALL: [CalibPattern; 8] = [
    CalibPattern::Black, CalibPattern::DarkGray, CalibPattern::Gray50, CalibPattern::White,
    CalibPattern::Red, CalibPattern::Green, CalibPattern::Blue, CalibPattern::SdrHdrSplit,
];

#[test]
fn labels() {
    let labels: Vec<&str> = ALL.iter().map(|p| p.label()).collect();
    assert_eq!(labels, vec!["Black", "5% Gray", "50% Gray", "White", "Red", "Green", "Blue", "SDR│HDR"]);
}

#[test]
fn args() {
    let args: Vec<&str> = ALL.iter().map(|p| p.arg()).collect();
    assert_eq!(args, vec!["black", "darkgray", "gray50", "white", "red", "green", "blue", "sdr_hdr"]);
}

#[test]
fn args_are_distinct() {
    for (i, a) in ALL.iter().enumerate() {
        for (j, b) in ALL.iter().enumerate() {
            assert_eq!(i == j, a.arg() == b.arg());
        }
    }
}

#[test]
fn labels_are_distinct_and_non_empty() {
    for (i, a) in ALL.iter().enumerate() {
        assert!(!a.label().is_empty());
        for (j, b) in ALL.iter().enumerate() {
            assert_eq!(i == j, a.label() == b.label());
        }
    }
}
