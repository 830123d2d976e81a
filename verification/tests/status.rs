use corne_rmk::status::{battery_icon, battery_level, num_str, pct_str, BatteryStatus, Shape};

#[test]
fn battery_level_reads_known_levels() {
    assert_eq!(battery_level(BatteryStatus::Available { level: Some(87) }), Some(87));
    assert_eq!(battery_level(BatteryStatus::Available { level: None }), None);
    assert_eq!(battery_level(BatteryStatus::Unavailable), None);
}

#[test]
fn pct_str_texts() {
    assert_eq!(pct_str(None), b"--".to_vec());
    assert_eq!(pct_str(Some(0)), b"0%".to_vec());
    assert_eq!(pct_str(Some(7)), b"7%".to_vec());
    assert_eq!(pct_str(Some(10)), b"10%".to_vec());
    assert_eq!(pct_str(Some(42)), b"42%".to_vec());
    assert_eq!(pct_str(Some(99)), b"99%".to_vec());
    assert_eq!(pct_str(Some(100)), b"100%".to_vec());
    assert_eq!(pct_str(Some(255)), b"100%".to_vec());
}

#[test]
fn num_str_texts() {
    assert_eq!(num_str(0), b"0".to_vec());
    assert_eq!(num_str(7), b"7".to_vec());
    assert_eq!(num_str(10), b"10".to_vec());
    assert_eq!(num_str(100), b"100".to_vec());
    assert_eq!(num_str(12345), b"12345".to_vec());
    assert_eq!(num_str(65535), b"65535".to_vec());
}

#[test]
fn num_str_round_trips() {
    for n in [0u16, 1, 9, 10, 99, 101, 999, 1000, 4096, 9999, 10000, 65534, 65535] {
        let s = String::from_utf8(num_str(n)).unwrap();
        assert_eq!(s.parse::<u16>().unwrap(), n);
        assert_eq!(s, n.to_string());
    }
}

#[test]
fn battery_icon_half_full() {
    let shapes = battery_icon(14, 2, 22, 11, Some(50));
    assert_eq!(
        shapes,
        vec![
            Shape::Outline { x: 14, y: 2, w: 22, h: 11 },
            Shape::Fill { x: 36, y: 4, w: 2, h: 5 },
            Shape::Fill { x: 16, y: 4, w: 9, h: 7 },
        ]
    );
}

#[test]
fn battery_icon_full_and_over() {
    let full = battery_icon(14, 2, 22, 11, Some(100));
    assert_eq!(full[2], Shape::Fill { x: 16, y: 4, w: 18, h: 7 });
    assert_eq!(battery_icon(14, 2, 22, 11, Some(200)), full);
}

#[test]
fn battery_icon_empty_has_no_bar() {
    assert_eq!(battery_icon(14, 2, 22, 11, Some(0)).len(), 2);
    // 18 * 5 / 100 rounds down to 0
    assert_eq!(battery_icon(14, 2, 22, 11, Some(5)).len(), 2);
    assert_eq!(battery_icon(14, 2, 22, 11, Some(6)).len(), 3);
}

#[test]
fn battery_icon_unknown_level() {
    let shapes = battery_icon(14, 2, 22, 11, None);
    assert_eq!(shapes.len(), 3);
    assert_eq!(shapes[2], Shape::Text { text: b"?".to_vec(), x: 22, y: 2, big: false });
}

#[test]
fn dfu_magic() {
    assert_eq!(corne_rmk::dfu::GPREGRET_ADDR, 0x4000_051C);
    assert_eq!(corne_rmk::dfu::DFU_MAGIC_UF2_RESET, 0x57);
}
