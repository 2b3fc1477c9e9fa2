use cosmic_hdr::config::{calibrate_args, is_active_output, parse_conf, reset_args, save_args, HdrConf};
use cosmic_hdr::text::decimal_string;

fn assert_conf(c: &HdrConf, sdr: u32, peak: u32, gamut: u32, bpc: u32, mode: &str) {
    assert_eq!(c.sdr_nits, sdr);
    assert_eq!(c.peak_nits, peak);
    assert_eq!(c.gamut, gamut);
    assert_eq!(c.max_bpc, bpc);
    assert_eq!(c.gamut_mode, mode);
}

#[test]
fn default_conf_values() {
    let c = HdrConf::default();
    assert_conf(&c, 203, 800, 100, 10, "bt2020");
}

#[test]
fn empty_text_gives_defaults() {
    assert_conf(&parse_conf(""), 203, 800, 100, 10, "bt2020");
}

#[test]
fn parses_all_keys() {
    let text = "SDR_NITS=250\nPEAK_NITS=1000\nGAMUT=75\nMAX_BPC=12\nGAMUT_MODE=dci-p3\n";
    assert_conf(&parse_conf(text), 250, 1000, 75, 12, "dci-p3");
}

#[test]
fn trims_keys_and_values_and_crlf() {
    let text = "  SDR_NITS = 300 \r\nGAMUT_MODE =  srgb \r\n";
    assert_conf(&parse_conf(text), 300, 800, 100, 10, "srgb");
}

#[test]
fn trims_unicode_whitespace() {
    let text = "\u{3000}GAMUT\u{a0}= 42\u{2009}\nGAMUT_MODE=\u{85}bt2020\u{205f}";
    assert_conf(&parse_conf(text), 203, 800, 42, 10, "bt2020");
}

#[test]
fn unparsable_numbers_keep_previous_value() {
    let text = "SDR_NITS=abc\nPEAK_NITS=-5\nGAMUT=\nMAX_BPC=+\nSDR_NITS=4294967296";
    assert_conf(&parse_conf(text), 203, 800, 100, 10, "bt2020");
}

#[test]
fn plus_sign_and_limits() {
    let text = "SDR_NITS=+120\nPEAK_NITS=4294967295\nGAMUT=007";
    assert_conf(&parse_conf(text), 120, 4294967295, 7, 10, "bt2020");
}

#[test]
fn later_lines_override_earlier() {
    let text = "SDR_NITS=100\nSDR_NITS=200\nGAMUT_MODE=srgb\nGAMUT_MODE=dci-p3";
    assert_conf(&parse_conf(text), 200, 800, 100, 10, "dci-p3");
}

#[test]
fn ignores_unknown_keys_and_lines_without_equals() {
    let text = "# comment\nFOO=1\nsdr_nits=5\nSDR_NITS\nPEAK_NITS=900=1\nGAMUT_MODE=a=b";
    // `PEAK_NITS=900=1` splits at the first `=`, so its value `900=1` is no number.
    assert_conf(&parse_conf(text), 203, 800, 100, 10, "a=b");
}

#[test]
fn empty_gamut_mode_value_is_taken() {
    assert_conf(&parse_conf("GAMUT_MODE=   "), 203, 800, 100, 10, "");
}

fn strings(v: &[&str]) -> Vec<String> {
    v.iter().map(|s| s.to_string()).collect()
}

#[test]
fn save_args_list() {
    let c = parse_conf("SDR_NITS=250\nPEAK_NITS=1000\nGAMUT=75\nMAX_BPC=12\nGAMUT_MODE=srgb");
    assert_eq!(
        save_args(&c),
        strings(&[
            "/usr/local/bin/kms-hdr", "--save", "--sdr-nits", "250", "--peak-nits", "1000",
            "--gamut", "75", "--bpc", "12", "--gamut-mode", "srgb",
        ])
    );
}

#[test]
fn reset_args_list() {
    assert_eq!(reset_args(), strings(&["/usr/local/bin/kms-hdr", "reset"]));
}

#[test]
fn calibrate_args_list() {
    let c = HdrConf::default();
    assert_eq!(
        calibrate_args(&c),
        strings(&[
            "/usr/local/lib/cosmic-hdr/hdr-cal.py", "--calibrate", "--sdr-nits", "203",
            "--peak-nits", "800", "--gamut", "100", "--bpc", "10", "--gamut-mode", "bt2020",
        ])
    );
}

#[test]
fn decimal_formatting() {
    assert_eq!(decimal_string(0), "0");
    assert_eq!(decimal_string(7), "7");
    assert_eq!(decimal_string(10), "10");
    assert_eq!(decimal_string(4294967295), "4294967295");
}

#[test]
fn decimal_roundtrip_through_config() {
    for n in [0u32, 9, 10, 203, 65536, 4294967295] {
        let text = format!("SDR_NITS={}", decimal_string(n));
        assert_eq!(parse_conf(&text).sdr_nits, n);
    }
}

#[test]
fn service_activity() {
    assert!(is_active_output(b"active\n"));
    assert!(!is_active_output(b"activating\n"));
    assert!(is_active_output(b"active (running)"));
    assert!(!is_active_output(b"inactive\n"));
    assert!(!is_active_output(b"failed\n"));
    assert!(!is_active_output(b"activ"));
    assert!(!is_active_output(b""));
}
