use bc7_unorm::error::DecodeError;
use bc7_unorm::layout::{mode_layout, ModeLayout};

#[test]
fn layout_of_mode_zero() {
    assert_eq!(
        mode_layout(0),
        Ok(ModeLayout {
            partition_bits: 4,
            subset_count: 3,
            color_bits: 4,
            alpha_bits: 0,
            has_parity_bit: true,
            parity_shared: false,
            primary_index_bits: 3,
            secondary_index_bits: 0,
            has_rotation: false,
            has_index_selector: false,
        })
    );
}

#[test]
fn layout_of_mode_one() {
    assert_eq!(
        mode_layout(1),
        Ok(ModeLayout {
            partition_bits: 6,
            subset_count: 2,
            color_bits: 6,
            alpha_bits: 0,
            has_parity_bit: true,
            parity_shared: true,
            primary_index_bits: 3,
            secondary_index_bits: 0,
            has_rotation: false,
            has_index_selector: false,
        })
    );
}

#[test]
fn layout_of_mode_two() {
    assert_eq!(
        mode_layout(2),
        Ok(ModeLayout {
            partition_bits: 6,
            subset_count: 3,
            color_bits: 5,
            alpha_bits: 0,
            has_parity_bit: false,
            parity_shared: false,
            primary_index_bits: 2,
            secondary_index_bits: 0,
            has_rotation: false,
            has_index_selector: false,
        })
    );
}

#[test]
fn layout_of_mode_three() {
    assert_eq!(
        mode_layout(3),
        Ok(ModeLayout {
            partition_bits: 6,
            subset_count: 2,
            color_bits: 7,
            alpha_bits: 0,
            has_parity_bit: true,
            parity_shared: false,
            primary_index_bits: 2,
            secondary_index_bits: 0,
            has_rotation: false,
            has_index_selector: false,
        })
    );
}

#[test]
fn layout_of_mode_four() {
    assert_eq!(
        mode_layout(4),
        Ok(ModeLayout {
            partition_bits: 0,
            subset_count: 1,
            color_bits: 5,
            alpha_bits: 6,
            has_parity_bit: false,
            parity_shared: false,
            primary_index_bits: 2,
            secondary_index_bits: 3,
            has_rotation: true,
            has_index_selector: true,
        })
    );
}

#[test]
fn modes_above_four_have_no_layout() {
    for mode in [5usize, 6, 7, 8, 127, usize::MAX] {
        assert_eq!(mode_layout(mode), Err(DecodeError::UnsupportedMode { mode: Some(mode) }));
    }
}

#[test]
fn every_layout_fills_the_block() {
    for mode in 0..=4usize {
        let layout = mode_layout(mode).unwrap();
        let endpoints = 2 * layout.subset_count;
        let parity = if !layout.has_parity_bit {
            0
        } else if layout.parity_shared {
            layout.subset_count
        } else {
            endpoints
        };
        let mut bits = mode + 1 + layout.partition_bits;
        bits += if layout.has_rotation { 2 } else { 0 };
        bits += if layout.has_index_selector { 1 } else { 0 };
        bits += 3 * endpoints * layout.color_bits + endpoints * layout.alpha_bits + parity;
        bits += 16 * layout.primary_index_bits - layout.subset_count;
        if layout.secondary_index_bits > 0 {
            bits += 16 * layout.secondary_index_bits - layout.subset_count;
        }
        assert_eq!(bits, 128);
    }
}
