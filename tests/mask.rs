use ignition_core::mask::{mask_apply, mask_apply_scalar, LANE_WIDTH};
use ignition_core::IgnitionRewriter;

fn sample(len: usize) -> Vec<u8> {
    (0..len).map(|i| (i * 37 + 11) as u8).collect()
}

#[test]
fn mask_exact_values() {
    let mut data = vec![0x00u8, 0xff, 0x0f];
    mask_apply(&mut data, 0xaa);
    assert_eq!(data, vec![0xaa, 0x55, 0xa5]);
}

#[test]
fn mask_involution_various_lengths() {
    for len in [0usize, 1, 15, 16, 17, 31, 32, 33, 100] {
        for key in [0u8, 1, 0x5a, 0xff] {
            let original = sample(len);
            let mut data = original.clone();
            mask_apply(&mut data, key);
            mask_apply(&mut data, key);
            assert_eq!(data, original);
        }
    }
}

#[test]
fn mask_preserves_length() {
    for len in [0usize, 1, 7, 15, 16, 17, 33] {
        let mut data = sample(len);
        mask_apply(&mut data, 0x3c);
        assert_eq!(data.len(), len);
    }
}

#[test]
fn mask_lane_and_scalar_paths_agree() {
    for len in 0..=(2 * LANE_WIDTH + 3) {
        let mut lanes = sample(len);
        let mut scalar = sample(len);
        mask_apply(&mut lanes, 0xa7);
        mask_apply_scalar(&mut scalar, 0xa7);
        assert_eq!(lanes, scalar);
        let expected: Vec<u8> = sample(len).iter().map(|b| b ^ 0xa7).collect();
        assert_eq!(lanes, expected);
    }
}

#[test]
fn mask_with_zero_key_is_identity() {
    let mut data = sample(40);
    mask_apply(&mut data, 0);
    assert_eq!(data, sample(40));
}

#[test]
fn session_masks_with_its_key() {
    let session = IgnitionRewriter::new(0x0f).unwrap();
    let mut data = vec![0xf0u8; 20];
    session.rewrite_bytes(&mut data);
    assert_eq!(data, vec![0xffu8; 20]);
}

#[test]
fn rotated_key_is_used() {
    let mut session = IgnitionRewriter::new(1).unwrap();
    session.rotate_key(2);
    let mut data = vec![0u8, 0, 0];
    session.rewrite_bytes(&mut data);
    assert_eq!(data, vec![2u8, 2, 2]);
    assert_ne!(data, vec![1u8, 1, 1]);
}
