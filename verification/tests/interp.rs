use bc7_unorm::color::{interpolate_u8, AlphaInterval, RGBInterval, RGB};

#[test]
fn test_interp() {
    assert_eq!(interpolate_u8(0, 255, 0), 0);
    assert_eq!(interpolate_u8(0, 255, 255), 255);
    assert_eq!(interpolate_u8(0, 128, 255), 128);
    assert_eq!(interpolate_u8(32, 64, 128), 48);
}

#[test]
fn interpolate_orders_its_endpoints() {
    assert_eq!(interpolate_u8(64, 32, 128), 48);
    assert_eq!(interpolate_u8(255, 0, 0), 0);
    assert_eq!(interpolate_u8(255, 0, 255), 255);
    assert_eq!(interpolate_u8(200, 100, 51), 120);
}

#[test]
fn interpolate_equal_endpoints_is_constant() {
    for t in [0u8, 1, 3, 7, 128, 255] {
        assert_eq!(interpolate_u8(128, 128, t), 128);
    }
}

#[test]
fn interpolate_stays_between_endpoints() {
    for min in [0u8, 17, 128, 254, 255] {
        for max in [0u8, 3, 128, 200, 255] {
            for t in [0u8, 1, 2, 3, 7, 100, 254, 255] {
                let out = interpolate_u8(min, max, t);
                let low = min.min(max);
                let high = min.max(max);
                assert!(low <= out && out <= high);
                assert_eq!(out, interpolate_u8(max, min, t));
            }
        }
    }
}

#[test]
fn interpolate_takes_the_index_unscaled() {
    // A three-bit index of 7 is 7/255 of the way, not all of it.
    assert_eq!(interpolate_u8(0, 255, 7), 7);
    assert_eq!(interpolate_u8(0, 255, 3), 3);
    assert_eq!(interpolate_u8(0, 248, 3), 2);
    assert_eq!(interpolate_u8(0, 252, 7), 6);
    assert_eq!(interpolate_u8(10, 110, 3), 11);
}

#[test]
fn lerp_samples_each_channel() {
    let interval = RGBInterval {
        min: RGB { r: 0, g: 64, b: 200 },
        max: RGB { r: 255, g: 32, b: 200 },
    };
    assert_eq!(interval.lerp(0), RGB { r: 0, g: 32, b: 200 });
    assert_eq!(interval.lerp(255), RGB { r: 255, g: 64, b: 200 });
    assert_eq!(interval.lerp(128), RGB { r: 128, g: 48, b: 200 });
}

#[test]
fn alpha_lerp_samples_the_interval() {
    let interval = AlphaInterval { min: 252, max: 0 };
    assert_eq!(interval.lerp(0), 0);
    assert_eq!(interval.lerp(255), 252);
    assert_eq!(interval.lerp(7), 6);
}
