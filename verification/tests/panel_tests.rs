use cosmic_hdr::config::HdrConf;
use cosmic_hdr::panel::{
    bpc_selection, capability_text, display_description, gamut_selection, interface_label,
    nits_text, percent_text, Action, Message, PanelState,
};
use cosmic_hdr::edid::parse_display_info;
use cosmic_hdr::pattern::CalibPattern;

fn panel() -> PanelState {
    PanelState::new(HdrConf::default(), false, None)
}

#[test]
fn new_panel() {
    let p = panel();
    assert!(!p.hdr_enabled);
    assert!(p.status.is_none());
    assert!(!p.calibration_open);
    assert_eq!(p.conf.sdr_nits, 203);
}

#[test]
fn toggle_on_sends_settings() {
    let mut p = panel();
    p.update(Message::SdrNits(300));
    match p.update(Message::HdrToggle(true)) {
        Action::SaveAndApply(c) => assert_eq!(c.sdr_nits, 300),
        other => panic!("unexpected {:?}", other),
    }
    assert!(p.hdr_enabled);
    assert!(p.status.is_none());
}

#[test]
fn toggle_off_resets() {
    let mut p = PanelState::new(HdrConf::default(), true, None);
    assert!(matches!(p.update(Message::HdrToggle(false)), Action::ResetHdr));
    assert!(!p.hdr_enabled);
}

#[test]
fn sliders_change_one_setting() {
    let mut p = panel();
    assert!(matches!(p.update(Message::PeakNits(1000)), Action::Nothing));
    assert!(matches!(p.update(Message::Gamut(50)), Action::Nothing));
    assert_eq!(p.conf.peak_nits, 1000);
    assert_eq!(p.conf.gamut, 50);
    assert_eq!(p.conf.sdr_nits, 203);
}

#[test]
fn dropdowns_clamp() {
    let mut p = panel();
    p.update(Message::GamutMode(1));
    assert_eq!(p.conf.gamut_mode, "dci-p3");
    assert_eq!(gamut_selection(&p.conf.gamut_mode), 1);
    p.update(Message::GamutMode(9));
    assert_eq!(p.conf.gamut_mode, "srgb");
    assert_eq!(gamut_selection(&p.conf.gamut_mode), 2);
    p.update(Message::GamutMode(0));
    assert_eq!(p.conf.gamut_mode, "bt2020");
    p.update(Message::BitDepth(0));
    assert_eq!(p.conf.max_bpc, 8);
    assert_eq!(bpc_selection(p.conf.max_bpc), 0);
    p.update(Message::BitDepth(5));
    assert_eq!(p.conf.max_bpc, 12);
    assert_eq!(bpc_selection(p.conf.max_bpc), 2);
}

#[test]
fn selections_of_other_values() {
    assert_eq!(gamut_selection("rec709"), 0);
    assert_eq!(gamut_selection("bt2020"), 0);
    assert_eq!(bpc_selection(10), 1);
    assert_eq!(bpc_selection(9), 1);
}

#[test]
fn apply_and_reset_status() {
    let mut p = panel();
    assert!(matches!(p.update(Message::Apply), Action::SaveAndApply(_)));
    assert_eq!(p.status.as_deref(), Some("Applying…"));
    p.update(Message::Applied(Ok(())));
    assert_eq!(p.status.as_deref(), Some("Applied ✓"));
    p.hdr_enabled = true;
    assert!(matches!(p.update(Message::Reset), Action::ResetHdr));
    assert!(!p.hdr_enabled);
    assert_eq!(p.status.as_deref(), Some("Resetting…"));
    p.update(Message::Applied(Err("kms-hdr exited 1".to_string())));
    assert_eq!(p.status.as_deref(), Some("Error: kms-hdr exited 1"));
}

#[test]
fn calibration_patterns() {
    let mut p = panel();
    match p.update(Message::ShowCalPat(CalibPattern::Red)) {
        Action::LaunchCalibration(args) => {
            assert_eq!(args, vec!["/usr/local/lib/cosmic-hdr/hdr-cal.py".to_string(), "red".to_string()])
        }
        other => panic!("unexpected {:?}", other),
    }
    p.calibration_started(Ok(()));
    assert!(p.calibration_open);
    assert!(matches!(p.update(Message::CloseCalPat), Action::CloseCalibration));
    assert!(!p.calibration_open);
    p.update(Message::CalibrateHdr);
    p.calibration_started(Err("No such file or directory (os error 2)".to_string()));
    assert!(!p.calibration_open);
    assert_eq!(p.status.as_deref(), Some("hdr-cal: No such file or directory (os error 2)"));
}

#[test]
fn calibrate_uses_settings() {
    let mut p = panel();
    p.update(Message::BitDepth(2));
    match p.update(Message::CalibrateHdr) {
        Action::LaunchCalibration(args) => {
            assert_eq!(args[1], "--calibrate");
            assert_eq!(args[9], "12");
        }
        other => panic!("unexpected {:?}", other),
    }
}

#[test]
fn badge_and_description_texts() {
    assert_eq!(capability_text("HDR10", true), "HDR10 ✓");
    assert_eq!(capability_text("DSC", false), "DSC —");
    assert_eq!(display_description("HDMI 2.1", 800), "HDMI 2.1 · EDID peak 800 nits");
    assert_eq!(display_description("?", 0), "? · peak luminance not specified in EDID");
    assert_eq!(nits_text(203), "203 nits");
    assert_eq!(percent_text(100), "100%");
}

#[test]
fn interface_labels() {
    let raw = vec![0u8; 128];
    let dp = parse_display_info(&raw, "card0-DP-1", false, &[0x12], false);
    assert_eq!(interface_label(&dp), "DP 1.2");
    let none = parse_display_info(&raw, "card0-HDMI-A-1", false, &[], false);
    assert_eq!(interface_label(&none), "?");
}
