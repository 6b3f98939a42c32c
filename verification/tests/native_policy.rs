use astera::native_policy::{
    choose_edid, mode_place, scan_outputs, select_mode, stable_output_key, ConnectorSnapshot,
    ModeCandidate, NativeDeviceIo, PropertyRead,
};

struct MockDevice {
    connectors: Vec<ConnectorSnapshot>,
}

impl NativeDeviceIo for MockDevice {
    type Error = std::convert::Infallible;

    fn connector_snapshots(&self) -> Result<Vec<ConnectorSnapshot>, Self::Error> {
        Ok(self.connectors.clone())
    }
}

fn edid_fixture() -> Vec<u8> {
    let mut edid = vec![0_u8; 128];
    edid[8..10].copy_from_slice(&0x1234_u16.to_be_bytes());
    edid[10..12].copy_from_slice(&0x5678_u16.to_le_bytes());
    edid[12..16].copy_from_slice(&0x90abcdef_u32.to_le_bytes());
    edid
}

#[test]
fn preferred_mode_wins_over_larger_fallback() {
    let modes = [
        ModeCandidate {
            width: 3840,
            height: 2160,
            refresh_millihz: 60_000,
            preferred: false,
        },
        ModeCandidate {
            width: 2560,
            height: 1440,
            refresh_millihz: 144_000,
            preferred: true,
        },
    ];
    assert_eq!(select_mode(&modes), Some(1));
}

#[test]
fn best_fallback_is_deterministic() {
    let modes = [
        ModeCandidate {
            width: 1920,
            height: 1080,
            refresh_millihz: 60_000,
            preferred: false,
        },
        ModeCandidate {
            width: 1920,
            height: 1080,
            refresh_millihz: 120_000,
            preferred: false,
        },
    ];
    assert_eq!(select_mode(&modes), Some(1));
    assert_eq!(select_mode(&[]), None);
}

#[test]
fn edid_fixture_produces_stable_identity() {
    let edid = edid_fixture();
    let first = stable_output_key(Some(&edid), "card0-DP-1");
    assert_eq!(first, stable_output_key(Some(&edid), "another-fallback"));
    assert!(first.starts_with("edid:1234:5678:90abcdef:"));
    assert_eq!(stable_output_key(Some(&edid[..8]), "DP-1"), "DP-1");
}

#[test]
fn mock_device_scans_connected_outputs_without_kms() {
    let preferred = ModeCandidate {
        width: 2560,
        height: 1440,
        refresh_millihz: 144_000,
        preferred: true,
    };
    let device = MockDevice {
        connectors: vec![
            ConnectorSnapshot {
                connector: "HDMI-A-1".into(),
                edid: None,
                modes: Vec::new(),
                non_desktop: false,
            },
            ConnectorSnapshot {
                connector: "DP-1".into(),
                edid: Some(edid_fixture()),
                modes: vec![
                    ModeCandidate {
                        width: 3840,
                        height: 2160,
                        refresh_millihz: 60_000,
                        preferred: false,
                    },
                    preferred,
                ],
                non_desktop: false,
            },
        ],
    };

    let outputs = scan_outputs(&device).unwrap();
    assert_eq!(outputs.len(), 1, "mode-less connectors are ignored");
    assert_eq!(outputs[0].connector, "DP-1");
    assert_eq!(outputs[0].mode, preferred);
    assert!(
        outputs[0]
            .stable_key
            .starts_with("edid:1234:5678:90abcdef:")
    );
}

#[test]
fn mock_device_falls_back_to_connector_identity() {
    let mode = ModeCandidate {
        width: 1920,
        height: 1080,
        refresh_millihz: 60_000,
        preferred: true,
    };
    let outputs = scan_outputs(&MockDevice {
        connectors: vec![ConnectorSnapshot {
            connector: "eDP-1".into(),
            edid: None,
            modes: vec![mode],
            non_desktop: false,
        }],
    })
    .unwrap();
    assert_eq!(outputs[0].stable_key, "eDP-1");
    assert_eq!(outputs[0].mode, mode);
}

#[test]
fn non_desktop_connector_is_reserved_instead_of_planned_as_output() {
    let outputs = scan_outputs(&MockDevice {
        connectors: vec![ConnectorSnapshot {
            connector: "DP-2".into(),
            edid: None,
            modes: vec![ModeCandidate {
                width: 2160,
                height: 1200,
                refresh_millihz: 90_000,
                preferred: true,
            }],
            non_desktop: true,
        }],
    })
    .unwrap();
    assert!(outputs.is_empty());
}

#[test]
fn the_first_edid_that_is_long_enough_is_taken() {
    let edid = |blob, length: usize| PropertyRead::Edid { blob, bytes: Some(vec![blob as u8; length]) };
    let taken = |properties: Vec<PropertyRead>| choose_edid(&properties).cloned();
    assert_eq!(taken(vec![]), None);
    assert_eq!(
        taken(vec![PropertyRead::Other, edid(0, 128), edid(1, 15), edid(2, 16), edid(3, 128)]),
        Some(vec![2; 16])
    );
    assert_eq!(taken(vec![PropertyRead::Failed, edid(2, 16)]), None);
    assert_eq!(taken(vec![PropertyRead::Edid { blob: 5, bytes: None }, edid(2, 16)]), None);
}

#[test]
fn a_mode_is_found_where_it_stands_first() {
    let mode = |width| ModeCandidate { width, height: 1080, refresh_millihz: 60_000, preferred: false };
    let modes = [mode(800), mode(1920), mode(1920)];
    assert_eq!(mode_place(&modes, mode(1920)), Some(1));
    assert_eq!(mode_place(&modes, mode(1024)), None);
}
