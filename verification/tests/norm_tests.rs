use loudnorm::norm::{clamp_gain, format_normalization, hex8, write_normalization, NormParams};

/// The gain field of the comment: `min(round(10^(-gain/10) * base), 65534)`.
/// The power computation is floating point and lives with the caller; the
/// cap is the library's.
fn adjust_gain(gain: f64, base: f64) -> u32 {
    clamp_gain((10f64.powf(-gain / 10.0) * base).round() as u64)
}

#[test]
fn hex8_writes_eight_uppercase_digits() {
    assert_eq!(hex8(0), "00000000");
    assert_eq!(hex8(1000), "000003E8");
    assert_eq!(hex8(2500), "000009C4");
    assert_eq!(hex8(65534), "0000FFFE");
    assert_eq!(hex8(0xDEADBEEF), "DEADBEEF");
    assert_eq!(hex8(u32::MAX), "FFFFFFFF");
}

#[test]
fn format_places_ten_fields() {
    let s = format_normalization(1000, 1000, 2500, 2500, 0, 0);
    assert_eq!(
        s,
        " 000003E8 000003E8 000009C4 000009C4 00000000 00000000 00000000 00000000 00000000 00000000"
    );
}

#[test]
fn comment_shape() {
    let track = NormParams { gain_1000: 4117, gain_2500: 10292, peak: 21053 };
    let s = write_normalization(track, None);
    assert_eq!(s.len(), 90);
    assert!(s.starts_with(' '));
    let fields: Vec<&str> = s.split_whitespace().collect();
    assert_eq!(fields.len(), 10);
    for f in fields {
        assert_eq!(f.len(), 8);
        assert!(f.chars().all(|c| c.is_ascii_hexdigit() && !c.is_ascii_lowercase()));
    }
}

#[test]
fn adjust_gain_values() {
    assert_eq!(adjust_gain(0.0, 1000.0), 1000);
    assert_eq!(adjust_gain(-10.0, 1000.0), 10000);
    assert_eq!(adjust_gain(-30.0, 1000.0), 65534);
    assert_eq!(adjust_gain(0.0, 2500.0), 2500);
}

#[test]
fn clamp_gain_caps_at_65534() {
    assert_eq!(clamp_gain(0), 0);
    assert_eq!(clamp_gain(65534), 65534);
    assert_eq!(clamp_gain(65535), 65534);
    assert_eq!(clamp_gain(1_000_000), 65534);
}

#[test]
fn lone_track_repeats_its_fields() {
    let track = NormParams { gain_1000: 4117, gain_2500: 10292, peak: 21053 };
    let s = write_normalization(track, None);
    // Field layout: ten fields of nine characters each, " XXXXXXXX".
    let a = &s[1..9];
    let b = &s[10..18];
    let c = &s[19..27];
    let d = &s[28..36];
    let e = &s[55..63];
    let f = &s[64..72];
    assert_eq!(a, b);
    assert_eq!(c, d);
    assert_eq!(e, f);
    assert_eq!(a, hex8(4117));
    assert_eq!(e, hex8(21053));
}

#[test]
fn grouped_tracks_share_album_fields() {
    let t1 = NormParams { gain_1000: 4117, gain_2500: 10292, peak: 21053 };
    let t2 = NormParams { gain_1000: 900, gain_2500: 2200, peak: 30000 };
    let alb = NormParams { gain_1000: 2000, gain_2500: 5000, peak: 30000 };
    let s1 = write_normalization(t1, Some(alb));
    let s2 = write_normalization(t2, Some(alb));
    assert_eq!(&s1[10..18], &s2[10..18]);
    assert_eq!(&s1[28..36], &s2[28..36]);
    assert_eq!(&s1[64..72], &s2[64..72]);
    assert_eq!(&s1[10..18], hex8(2000));
    assert_eq!(&s1[28..36], hex8(5000));
    assert_eq!(&s1[64..72], hex8(30000));
    // The track fields still differ.
    assert_ne!(&s1[1..9], &s2[1..9]);
}
