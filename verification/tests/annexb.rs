//! Tests for the AVCC to Annex-B conversion.

use serialwarp::annexb::{avcc_to_annex_b, keyframe_annex_b};

#[test]
fn avcc_two_nal_units() {
    let avcc = vec![
        0, 0, 0, 3, 0xAA, 0xBB, 0xCC, // first NAL, length 3
        0, 0, 0, 2, 0xDD, 0xEE, // second NAL, length 2
    ];
    let annex_b = avcc_to_annex_b(&avcc);
    assert_eq!(
        annex_b,
        vec![0, 0, 0, 1, 0xAA, 0xBB, 0xCC, 0, 0, 0, 1, 0xDD, 0xEE]
    );
}

#[test]
fn avcc_truncated_nal_ends_the_stream() {
    let avcc = vec![
        0, 0, 0, 2, 0xAA, 0xBB, // complete NAL
        0, 0, 0, 5, 0xCC, // length 5 promised, 1 byte present
    ];
    let annex_b = avcc_to_annex_b(&avcc);
    assert_eq!(annex_b, vec![0, 0, 0, 1, 0xAA, 0xBB]);
}

#[test]
fn avcc_empty_and_short_inputs() {
    assert!(avcc_to_annex_b(&[]).is_empty());
    assert!(avcc_to_annex_b(&[0, 0, 1]).is_empty());
}

#[test]
fn keyframe_prepends_parameter_sets() {
    let sps = vec![0x67, 0x42];
    let pps = vec![0x68, 0xCE];
    let avcc = vec![0, 0, 0, 1, 0x65];
    let annex_b = keyframe_annex_b(&sps, &pps, &avcc);
    assert_eq!(
        annex_b,
        vec![0, 0, 0, 1, 0x67, 0x42, 0, 0, 0, 1, 0x68, 0xCE, 0, 0, 0, 1, 0x65]
    );
}
