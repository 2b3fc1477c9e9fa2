use cosmic_hdr::edid::{
    decode_caps, display_name, dp_version_label, monitor_name_bytes, parse_display_info, HdmiGen,
};

/// A 128-byte base block whose first display descriptor (offset 54) is a
/// monitor name descriptor holding `name`.
fn base_block(name: Option<&[u8]>) -> Vec<u8> {
    let mut raw = vec![0u8; 128];
    raw[0..8].copy_from_slice(&[0x00, 0xff, 0xff, 0xff, 0xff, 0xff, 0xff, 0x00]);
    // First descriptor: a detailed timing (non-zero pixel clock).
    raw[54] = 0x01;
    raw[55] = 0x1d;
    if let Some(name) = name {
        // Second descriptor at 72 holds the name.
        let d = 72;
        raw[d..d + 5].copy_from_slice(&[0x00, 0x00, 0x00, 0xfc, 0x00]);
        for k in 0..13 {
            raw[d + 5 + k] = if k < name.len() { name[k] } else { 0x20 };
        }
    }
    raw
}

/// A CTA-861 extension block holding the given data blocks.
fn cta_block(blocks: &[&[u8]]) -> Vec<u8> {
    let mut ext = vec![0u8; 128];
    ext[0] = 0x02;
    ext[1] = 0x03;
    let mut i = 4;
    for b in blocks {
        ext[i..i + b.len()].copy_from_slice(b);
        i += b.len();
    }
    ext[2] = i as u8;
    ext
}

fn full_edid() -> Vec<u8> {
    let mut raw = base_block(Some(b"DELL U2720Q\n"));
    raw.extend(cta_block(&[
        // HDR static metadata: SDR + HDR10 EOTFs, max luminance code 120.
        &[0xE4, 0x06, 0x05, 0x01, 0x78],
        // Colorimetry: BT.2020 RGB and DCI-P3.
        &[0xE3, 0x05, 0x82, 0x00],
        // Extended tag 13.
        &[0xE1, 0x0D],
        // HDMI Forum VSDB: 600 MHz TMDS, DSC 1.2.
        &[0x69, 0x00, 0x5D, 0xC4, 0x01, 0x78, 0x00, 0x00, 0x00, 0x80],
        // HDMI Licensing VSDB after it: the generation stays 2.1.
        &[0x65, 0x03, 0x0C, 0x00, 0x10, 0x00],
        // Dolby Vision VSVDB.
        &[0xE4, 0x01, 0x46, 0xD0, 0x00],
    ]));
    raw
}

#[test]
fn decodes_full_edid() {
    let info = parse_display_info(&full_edid(), "card1-HDMI-A-2", false, &[], true);
    assert_eq!(info.name, "DELL U2720Q");
    assert_eq!(info.connector_dir, "card1-HDMI-A-2");
    assert!(info.hdr10);
    assert!(!info.hlg);
    assert!(info.hdr10plus);
    assert!(info.dolby);
    assert!(info.bt2020);
    assert!(info.dci_p3);
    assert!(info.dsc);
    assert!(info.cec);
    assert_eq!(info.max_lum_code, 120);
    assert_eq!(info.hdmi_ver.as_deref(), Some("HDMI 2.1"));
    assert_eq!(info.dp_ver, None);
}

#[test]
fn hdmi_licensing_alone_is_hdmi_14() {
    let mut raw = base_block(None);
    raw.extend(cta_block(&[&[0x65, 0x03, 0x0C, 0x00, 0x10, 0x00]]));
    assert_eq!(decode_caps(&raw).hdmi, HdmiGen::Hdmi14);
}

#[test]
fn hdmi_forum_low_tmds_is_hdmi_20() {
    let mut raw = base_block(None);
    raw.extend(cta_block(&[&[0x65, 0x03, 0x0C, 0x00, 0x10, 0x00], &[0x64, 0x00, 0x5D, 0xC4, 0x01, 0x77]]));
    let caps = decode_caps(&raw);
    assert_eq!(caps.hdmi, HdmiGen::Hdmi20);
    assert!(!caps.dsc);
}

#[test]
fn hlg_and_zero_luminance_code() {
    let mut raw = base_block(None);
    raw.extend(cta_block(&[&[0xE4, 0x06, 0x0C, 0x01, 0x00], &[0xE3, 0x05, 0x40, 0x00]]));
    let caps = decode_caps(&raw);
    assert!(caps.hlg);
    assert!(caps.hdr10);
    assert_eq!(caps.max_lum_code, 0);
    assert!(!caps.bt2020);
    assert!(!caps.dci_p3);
}

#[test]
fn later_hdr_block_without_luminance_keeps_code() {
    let mut raw = base_block(None);
    raw.extend(cta_block(&[&[0xE4, 0x06, 0x04, 0x01, 0x60], &[0xE2, 0x06, 0x08]]));
    let caps = decode_caps(&raw);
    assert_eq!(caps.max_lum_code, 0x60);
    assert!(caps.hlg);
    assert!(!caps.hdr10);
}

#[test]
fn dolby_vendor_block() {
    let mut raw = base_block(None);
    raw.extend(cta_block(&[&[0x63, 0x46, 0xD0, 0x00]]));
    assert!(decode_caps(&raw).dolby);
}

#[test]
fn non_cta_extension_is_skipped() {
    let mut raw = base_block(None);
    let mut ext = cta_block(&[&[0xE1, 0x0D]]);
    ext[0] = 0x70;
    raw.extend(ext);
    raw.extend(cta_block(&[&[0x63, 0x46, 0xD0, 0x00]]));
    let caps = decode_caps(&raw);
    assert!(!caps.hdr10plus);
    assert!(caps.dolby);
}

#[test]
fn truncated_block_stops_walk() {
    let mut raw = base_block(None);
    let mut ext = cta_block(&[]);
    // A block at offset 124 claiming 8 bytes runs past the end of the EDID.
    ext[2] = 127;
    ext[124] = 0xE8;
    ext[125] = 0x0D;
    raw.extend(ext);
    assert!(!decode_caps(&raw).hdr10plus);
}

#[test]
fn data_blocks_stop_at_dtd_offset() {
    let mut raw = base_block(None);
    let mut ext = cta_block(&[&[0xE1, 0x0D]]);
    ext[2] = 4;
    raw.extend(ext);
    assert!(!decode_caps(&raw).hdr10plus);
}

#[test]
fn base_block_only_has_no_caps() {
    let raw = base_block(Some(b"X"));
    let caps = decode_caps(&raw);
    assert!(!caps.hdr10 && !caps.dolby && !caps.dsc);
    assert_eq!(caps.hdmi, HdmiGen::Unknown);
}

#[test]
fn name_descriptor_bytes() {
    let raw = base_block(Some(b"LG TV\n"));
    assert_eq!(monitor_name_bytes(&raw), Some(b"LG TV".to_vec()));
    let raw = base_block(Some(b"ABCDEFGHIJKLMNOP"));
    assert_eq!(monitor_name_bytes(&raw), Some(b"ABCDEFGHIJKLM".to_vec()));
    assert_eq!(monitor_name_bytes(&base_block(None)), None);
    assert_eq!(monitor_name_bytes(&[0u8; 70]), None);
}

#[test]
fn fallback_names() {
    let info = parse_display_info(&base_block(None), "card1-HDMI-A-2", false, &[], false);
    assert_eq!(info.name, "HDMI A 2");
    assert_eq!(display_name(None, "card0"), "Display");
    assert_eq!(display_name(Some("   "), "card0-DP-1"), "DP 1");
    assert_eq!(display_name(Some("  Monitor \t"), "card0-DP-1"), "Monitor");
}

#[test]
fn invalid_utf8_name_is_replaced() {
    let info = parse_display_info(&base_block(Some(&[0xff, b'A', b'\n'])), "card0-DP-1", false, &[], false);
    assert_eq!(info.name, "\u{FFFD}A");
}

#[test]
fn displayport_versions() {
    let raw = base_block(None);
    let info = parse_display_info(&raw, "card0-DP-1", true, &[0x14, 0x1e], false);
    assert_eq!(info.dp_ver.as_deref(), Some("DP 1.4"));
    assert!(info.dsc);
    let info = parse_display_info(&raw, "card0-DP-1", false, &[], false);
    assert_eq!(info.dp_ver, None);
    let info = parse_display_info(&raw, "card0-HDMI-A-1", false, &[0x14], false);
    assert_eq!(info.dp_ver, None);
    assert_eq!(dp_version_label(0x10), "DP 1.0");
    assert_eq!(dp_version_label(0x12), "DP 1.2");
    assert_eq!(dp_version_label(0x20), "DP 2.x (UHBR)");
    assert_eq!(dp_version_label(0xff), "DP 2.x (UHBR)");
    assert_eq!(dp_version_label(0x0f), "DP (DPCD 0x0f)");
    assert_eq!(dp_version_label(0x1a), "DP (DPCD 0x1a)");
    assert_eq!(dp_version_label(0x00), "DP (DPCD 0x00)");
}

#[test]
fn announced_features_stay_announced() {
    let mut raw = base_block(None);
    raw.extend(cta_block(&[
        &[0x69, 0x00, 0x5D, 0xC4, 0x01, 0x78, 0x00, 0x00, 0x00, 0x80],
        &[0x63, 0x46, 0xD0, 0x00],
        &[0x64, 0x00, 0x5D, 0xC4, 0x01, 0x10],
    ]));
    let caps = decode_caps(&raw);
    assert!(caps.dsc);
    assert!(caps.dolby);
    assert_eq!(caps.hdmi, HdmiGen::Hdmi20);
}
