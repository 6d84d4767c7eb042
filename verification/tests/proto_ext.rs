use hbb_common::proto_ext::{ControllingStrategy, Feature};

fn strategy(mask: &[u8]) -> ControllingStrategy {
    ControllingStrategy { disabled_features: mask.to_vec() }
}

fn feature(value: i32) -> Feature {
    Feature { value }
}

#[test]
fn disable_grows_the_mask_and_sets_one_bit() {
    let mut s = strategy(&[]);
    s.disable_feature(feature(0));
    assert_eq!(s.disabled_features, [0x01]);
    s.disable_feature(feature(17));
    assert_eq!(s.disabled_features, [0x01, 0x00, 0x02]);
    s.disable_feature(feature(17));
    assert_eq!(s.disabled_features, [0x01, 0x00, 0x02]);
    assert!(s.is_feature_disabled(feature(0)));
    assert!(s.is_feature_disabled(feature(17)));
    assert!(!s.is_feature_disabled(feature(1)));
    assert!(!s.is_feature_disabled(feature(1000)));
}

#[test]
fn enable_clears_one_bit_and_never_grows_the_mask() {
    let mut s = strategy(&[0xFF, 0xFF]);
    s.enable_feature(feature(9));
    assert_eq!(s.disabled_features, [0xFF, 0xFD]);
    assert!(!s.is_feature_disabled(feature(9)));
    assert!(s.is_feature_disabled(feature(8)));
    s.enable_feature(feature(100));
    assert_eq!(s.disabled_features, [0xFF, 0xFD]);
}

#[test]
fn known_disabled_features_are_listed_in_order() {
    let s = strategy(&[0b1000_0101, 0b0000_0010]);
    let known = [feature(9), feature(2), feature(0), feature(1)];
    assert_eq!(s.get_disabled_features(&known), [feature(0), feature(2), feature(9)]);
    assert!(s.get_disabled_features(&[]).is_empty());
    assert!(strategy(&[]).get_disabled_features(&known).is_empty());
}

#[test]
fn disabling_and_enabling_undo_each_other() {
    for bit in [0, 3, 7, 8, 20] {
        let mut s = strategy(&[0b0101_0010, 0, 0]);
        let was = s.is_feature_disabled(feature(bit));
        s.disable_feature(feature(bit));
        assert!(s.is_feature_disabled(feature(bit)));
        s.enable_feature(feature(bit));
        assert!(!s.is_feature_disabled(feature(bit)));
        if was {
            s.disable_feature(feature(bit));
        }
        assert_eq!(s.disabled_features, [0b0101_0010, 0, 0]);
    }
}

#[test]
fn negative_numbers_have_no_bit() {
    for number in [-1, -8, i32::MIN] {
        let mut s = strategy(&[0xFF, 0x01]);
        assert!(!s.is_feature_disabled(feature(number)));
        s.enable_feature(feature(number));
        assert_eq!(s.disabled_features, [0xFF, 0x01]);
        let mut empty = strategy(&[]);
        assert!(!empty.is_feature_disabled(feature(number)));
        empty.enable_feature(feature(number));
        assert!(empty.disabled_features.is_empty());
    }
}

#[test]
fn listed_features_increase() {
    let known: Vec<Feature> = (0..24).rev().map(feature).collect();
    let listed = strategy(&[0xFF, 0x5A, 0x81]).get_disabled_features(&known);
    assert_eq!(listed.len(), 14);
    assert!(listed.windows(2).all(|pair| pair[0].value < pair[1].value));
}
