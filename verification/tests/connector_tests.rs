use cosmic_hdr::connector::{edid_path, entry_is_connector, is_dp_connector, select_connector, ConnectorEntry};

fn entry(name: &str, len: Option<usize>) -> ConnectorEntry {
    ConnectorEntry { name: name.to_string(), edid_len: len }
}

#[test]
fn edid_path_format() {
    assert_eq!(edid_path("card1-HDMI-A-2"), "/sys/class/drm/card1-HDMI-A-2/edid");
}

#[test]
fn connector_filter() {
    assert!(entry_is_connector("card1-HDMI-A-2", Some(256)));
    assert!(entry_is_connector("card0-DP-1", Some(128)));
    assert!(!entry_is_connector("card0-DP-1", Some(127)));
    assert!(!entry_is_connector("card0-DP-1", None));
    assert!(!entry_is_connector("card0", Some(256)));
    assert!(!entry_is_connector("renderD128-x", Some(256)));
    assert!(!entry_is_connector("version", Some(256)));
}

#[test]
fn selects_least_path() {
    let entries = vec![
        entry("card1-HDMI-A-2", Some(256)),
        entry("card0", Some(256)),
        entry("card0-DP-3", Some(0)),
        entry("card0-eDP-1", Some(256)),
        entry("card1-DP-1", Some(384)),
    ];
    let (path, name) = select_connector(&entries).unwrap();
    assert_eq!(path, "/sys/class/drm/card0-eDP-1/edid");
    assert_eq!(name, "card0-eDP-1");
}

#[test]
fn compares_whole_paths() {
    // As strings "card1-A" < "card1-A-B", but the EDID paths compare
    // "card1-A-B/edid" < "card1-A/edid" since '-' sorts before '/'.
    let entries = vec![entry("card1-A", Some(128)), entry("card1-A-B", Some(128))];
    let (_, name) = select_connector(&entries).unwrap();
    assert_eq!(name, "card1-A-B");
}

#[test]
fn selection_ignores_listing_order() {
    let a = vec![entry("card2-DP-1", Some(128)), entry("card1-HDMI-A-1", Some(128)), entry("card1-DP-2", Some(128))];
    let b = vec![entry("card1-DP-2", Some(128)), entry("card2-DP-1", Some(128)), entry("card1-HDMI-A-1", Some(128))];
    assert_eq!(select_connector(&a), select_connector(&b));
    assert_eq!(select_connector(&a).unwrap().1, "card1-DP-2");
}

#[test]
fn no_connector() {
    let entries = vec![entry("card0", Some(256)), entry("card0-DP-1", None)];
    assert_eq!(select_connector(&entries), None);
    assert_eq!(select_connector(&Vec::new()), None);
}

#[test]
fn displayport_detection() {
    assert!(is_dp_connector("card0-DP-1"));
    assert!(is_dp_connector("card1-eDP-1"));
    assert!(!is_dp_connector("card1-HDMI-A-1"));
    assert!(!is_dp_connector("card0-DP"));
}
