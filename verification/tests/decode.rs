use bc7_unorm::bits::BitCursor;
use bc7_unorm::color::{interpolate_u8, RGB, RGBA};
use bc7_unorm::decode::{
    decode_at, decode_block, decode_block_mode_0, decode_block_mode_1, decode_block_mode_2,
    decode_block_mode_3, decode_block_mode_4, decode_blocks, read_mode, DecodedBlock,
};
use bc7_unorm::error::{DecodeError, Field};
use bc7_unorm::fields::read_fields;
use bc7_unorm::layout::{mode_layout, ModeLayout};

fn pack(fields: &[(u64, usize)]) -> [u8; 16] {
    let mut out = [0u8; 16];
    let mut pos = 0;
    for &(value, width) in fields {
        for i in 0..width {
            if (value >> i) & 1 == 1 {
                out[pos / 8] |= 1 << (pos % 8);
            }
            pos += 1;
        }
    }
    assert_eq!(pos, 128);
    out
}

fn overrun<T>(field: Field) -> Result<T, DecodeError> {
    Err(DecodeError::FieldOverrun { field })
}

/// A block of mode 0 whose 18 colour values are all `raw`, with the given
/// parity bits and indices; the anchors of shape `shape` take two bits.
fn mode_zero_block(shape: u64, raw: u64, parity: u64, anchors: [usize; 3], index: u64) -> [u8; 16] {
    let mut fields = vec![(1u64, 1usize), (shape, 4)];
    for _ in 0..18 {
        fields.push((raw, 4));
    }
    for _ in 0..6 {
        fields.push((parity, 1));
    }
    for t in 0..16 {
        if anchors.contains(&t) {
            fields.push((index & 1, 2));
        } else {
            fields.push((index, 3));
        }
    }
    pack(&fields)
}

#[test]
fn test_mode0() {
    let block = mode_zero_block(0, 8, 0, [0, 3, 15], 0);
    assert_eq!(block[0] & 1, 1);
    let texels = decode_block_mode_0(&block).unwrap();
    assert_eq!(texels.len(), 16);
    assert_eq!(texels[0], RGB { r: 128, g: 128, b: 128 });
}

#[test]
fn uniform_endpoints_decode_to_one_colour() {
    let block = mode_zero_block(0, 8, 0, [0, 3, 15], 0);
    let grey = RGB { r: 128, g: 128, b: 128 };
    assert_eq!(decode_block_mode_0(&block), Ok([grey; 16]));
    assert_eq!(decode_block(&block, None), Ok(DecodedBlock::Rgb([grey; 16])));
}

#[test]
fn uniform_endpoints_ignore_the_index() {
    let grey = RGB { r: 128, g: 128, b: 128 };
    for index in 0..8u64 {
        let block = mode_zero_block(0, 8, 0, [0, 3, 15], index);
        assert_eq!(decode_block_mode_0(&block), Ok([grey; 16]));
    }
    let lifted = RGB { r: 136, g: 136, b: 136 };
    for index in 0..8u64 {
        let block = mode_zero_block(0, 8, 1, [0, 3, 15], index);
        assert_eq!(decode_block_mode_0(&block), Ok([lifted; 16]));
    }
}

#[test]
fn mode_four_without_rotation_or_swap() {
    // Colours from (0, 0, 0) to (248, 248, 248), alpha from 0 to 252; every
    // colour index as high as its field allows, every alpha index 0.
    let mut fields = vec![(16u64, 5usize), (0, 2), (0, 1)];
    for _ in 0..3 {
        fields.push((0, 5));
        fields.push((31, 5));
    }
    fields.push((0, 6));
    fields.push((63, 6));
    fields.push((1, 1));
    for _ in 1..16 {
        fields.push((3, 2));
    }
    fields.push((0, 2));
    for _ in 1..16 {
        fields.push((0, 3));
    }
    let block = pack(&fields);
    let texels = decode_block_mode_4(&block).unwrap();
    let at_one = interpolate_u8(0, 248, 1);
    let at_three = interpolate_u8(0, 248, 3);
    let alpha = interpolate_u8(0, 252, 0);
    assert_eq!(at_one, 0);
    assert_eq!(at_three, 2);
    assert_eq!(alpha, 0);
    assert_eq!(texels[0], RGBA { r: at_one, g: at_one, b: at_one, a: alpha });
    for t in 1..16 {
        assert_eq!(texels[t], RGBA { r: at_three, g: at_three, b: at_three, a: alpha });
    }
    assert_eq!(decode_block(&block, Some(4)), Ok(DecodedBlock::Rgba(texels)));
}

#[test]
fn mode_four_rotation_swaps_a_channel_with_alpha() {
    let build = |rotation: u64| {
        let mut fields = vec![(16u64, 5usize), (rotation, 2), (0, 1)];
        for color in [10u64, 10, 20, 20, 30, 30] {
            fields.push((color, 5));
        }
        fields.push((40, 6));
        fields.push((40, 6));
        fields.push((0, 31));
        fields.push((0, 47));
        pack(&fields)
    };
    assert_eq!(decode_block_mode_4(&build(0)), Ok([RGBA { r: 80, g: 160, b: 240, a: 160 }; 16]));
    assert_eq!(decode_block_mode_4(&build(1)), Ok([RGBA { r: 160, g: 160, b: 240, a: 80 }; 16]));
    assert_eq!(decode_block_mode_4(&build(2)), Ok([RGBA { r: 80, g: 160, b: 240, a: 160 }; 16]));
    assert_eq!(decode_block_mode_4(&build(3)), Ok([RGBA { r: 80, g: 160, b: 160, a: 240 }; 16]));
}

#[test]
fn mode_four_selector_swaps_the_index_widths() {
    // With the selector set the first stream holds three-bit colour indices
    // and the second two-bit alpha indices.
    let mut fields = vec![(16u64, 5usize), (0, 2), (1, 1)];
    for _ in 0..3 {
        fields.push((0, 5));
        fields.push((31, 5));
    }
    fields.push((0, 6));
    fields.push((63, 6));
    fields.push((3, 2));
    for _ in 1..16 {
        fields.push((7, 3));
    }
    fields.push((1, 1));
    for _ in 1..16 {
        fields.push((2, 2));
    }
    let block = pack(&fields);
    let texels = decode_block_mode_4(&block).unwrap();
    assert_eq!(texels[0], RGBA { r: 2, g: 2, b: 2, a: 0 });
    for t in 1..16 {
        assert_eq!(texels[t], RGBA { r: 6, g: 6, b: 6, a: 1 });
    }
}

#[test]
fn wrong_lengths_are_refused_first() {
    let block = mode_zero_block(0, 8, 0, [0, 3, 15], 0);
    for len in [0usize, 1, 15] {
        let expected = Err(DecodeError::InvalidLength { len });
        assert_eq!(decode_block(&block[..len], None), expected);
        assert_eq!(decode_block(&block[..len], Some(0)), expected);
        assert_eq!(decode_block(&block[..len], Some(3)), expected);
        assert_eq!(decode_block_mode_0(&block[..len]), Err(DecodeError::InvalidLength { len }));
        assert_eq!(decode_block_mode_4(&block[..len]), Err(DecodeError::InvalidLength { len }));
    }
    let long = [1u8; 17];
    assert_eq!(decode_block(&long, None), Err(DecodeError::InvalidLength { len: 17 }));
    let empty_long = [0u8; 32];
    assert_eq!(decode_block(&empty_long, Some(9)), Err(DecodeError::InvalidLength { len: 32 }));
}

#[test]
fn modes_without_layout_are_refused() {
    for mode in 5..128usize {
        let mut block = [0xFFu8; 16];
        for bit in 0..mode {
            block[bit / 8] &= !(1 << (bit % 8));
        }
        let expected = Err(DecodeError::UnsupportedMode { mode: Some(mode) });
        assert_eq!(decode_block(&block, None), expected);
        assert_eq!(decode_block(&block, Some(mode)), expected);
        assert_eq!(decode_block(&block, Some(0)), expected);
        assert_eq!(decode_block_mode_2(&block), Err(DecodeError::UnsupportedMode { mode: Some(mode) }));
    }
}

#[test]
fn a_block_without_a_set_bit_is_refused() {
    let block = [0u8; 16];
    let expected = Err(DecodeError::UnsupportedMode { mode: None });
    assert_eq!(decode_block(&block, None), expected);
    assert_eq!(decode_block(&block, Some(0)), expected);
    assert_eq!(decode_block_mode_0(&block), Err(DecodeError::UnsupportedMode { mode: None }));
    assert_eq!(decode_block_mode_4(&block), Err(DecodeError::UnsupportedMode { mode: None }));
}

#[test]
fn an_unexpected_mode_is_reported() {
    let block = mode_zero_block(0, 8, 0, [0, 3, 15], 0);
    for expected in [1usize, 2, 3, 4, 5, 200] {
        assert_eq!(
            decode_block(&block, Some(expected)),
            Err(DecodeError::ModeMismatch { expected, found: 0 })
        );
    }
    assert_eq!(decode_block_mode_1(&block), Err(DecodeError::ModeMismatch { expected: 1, found: 0 }));
    assert_eq!(decode_block_mode_3(&block), Err(DecodeError::ModeMismatch { expected: 3, found: 0 }));
    assert_eq!(decode_block_mode_4(&block), Err(DecodeError::ModeMismatch { expected: 4, found: 0 }));
    let mut other = [0u8; 16];
    other[0] = 0b0000_1000;
    assert_eq!(decode_block_mode_0(&other), Err(DecodeError::ModeMismatch { expected: 0, found: 3 }));
    assert!(decode_block_mode_3(&other).is_ok());
}

#[test]
fn the_mode_is_the_first_set_bit() {
    for mode in 0..=4usize {
        for filler in [0u8, 0xFF, 0xA5] {
            let mut block = [filler; 16];
            block[0] = (filler & !((1u8 << (mode + 1)) - 1)) | (1 << mode);
            let cursor = BitCursor::new(&block).unwrap();
            assert_eq!(cursor.first_set(), Some(mode));
            assert_eq!(read_mode(&cursor, None), Ok(mode));
            assert_eq!(read_mode(&cursor, Some(mode)), Ok(mode));
            assert!(decode_block(&block, None).is_ok());
            assert_eq!(decode_block(&block, None), decode_block(&block, Some(mode)));
        }
    }
}

#[test]
fn decoding_twice_gives_the_same_result() {
    let mut block = [0u8; 16];
    let mut state = 0x1234_5678_9ABC_DEF0u64;
    for _ in 0..200 {
        for byte in block.iter_mut() {
            state ^= state << 13;
            state ^= state >> 7;
            state ^= state << 17;
            *byte = (state >> 24) as u8;
        }
        assert_eq!(decode_block(&block, None), decode_block(&block, None));
        assert!(!matches!(
            decode_block(&block, None),
            Err(DecodeError::FieldOverrun { .. })
        ));
    }
}

#[test]
fn every_supported_block_is_read_to_its_last_bit() {
    let mut block = [0u8; 16];
    let mut state = 0x0F1E_2D3C_4B5A_6978u64;
    for round in 0..500 {
        for byte in block.iter_mut() {
            state ^= state << 13;
            state ^= state >> 7;
            state ^= state << 17;
            *byte = (state >> 32) as u8;
        }
        let mode = round % 5;
        block[0] = (block[0] & !((1u8 << (mode + 1)) - 1)) | (1 << mode);
        let layout = mode_layout(mode).unwrap();
        let mut cursor = BitCursor::new(&block).unwrap();
        assert!(read_fields(&mut cursor, mode, &layout).is_ok());
        assert_eq!(cursor.pos(), 128);
        let mut cursor = BitCursor::new(&block).unwrap();
        assert_eq!(decode_at(&mut cursor, mode, &layout), decode_block(&block, None));
        assert_eq!(cursor.pos(), 128);
    }
}

#[test]
fn a_layout_that_does_not_fit_overruns() {
    let block = [0xFFu8; 16];
    let layout = mode_layout(0).unwrap();
    let mut cursor = BitCursor::new(&block).unwrap();
    // The fields of mode 0 read from bit 2 on would end at bit 129.
    assert_eq!(decode_at(&mut cursor, 1, &layout), overrun(Field::PrimaryIndex));
    assert_eq!(cursor.pos(), 0);
    assert_eq!(read_fields(&mut cursor, 50, &layout), overrun(Field::Parity));
    assert_eq!(read_fields(&mut cursor, 60, &layout), overrun(Field::Color));
    assert_eq!(read_fields(&mut cursor, 127, &layout), overrun(Field::Partition));
    assert_eq!(read_fields(&mut cursor, 128, &layout), overrun(Field::Mode));
    assert_eq!(read_fields(&mut cursor, usize::MAX, &layout), overrun(Field::Mode));
    assert_eq!(cursor.pos(), 0);
    let wide = ModeLayout {
        partition_bits: 6,
        subset_count: 3,
        color_bits: 7,
        alpha_bits: 0,
        has_parity_bit: true,
        parity_shared: false,
        primary_index_bits: 4,
        secondary_index_bits: 0,
        has_rotation: false,
        has_index_selector: false,
    };
    assert!(cursor.seek(17));
    assert_eq!(decode_at(&mut cursor, 0, &wide), overrun(Field::Color));
    assert_eq!(cursor.pos(), 17);
}

#[test]
fn an_overrun_names_the_first_field_that_does_not_fit() {
    let ones = [0xFFu8; 16];
    let zeros = [0u8; 16];
    let layout = mode_layout(4).unwrap();
    let mut cursor = BitCursor::new(&ones).unwrap();
    assert_eq!(read_fields(&mut cursor, 126, &layout), overrun(Field::Rotation));
    assert_eq!(read_fields(&mut cursor, 125, &layout), overrun(Field::IndexSelector));
    assert_eq!(read_fields(&mut cursor, 124, &layout), overrun(Field::Color));
    assert_eq!(read_fields(&mut cursor, 90, &layout), overrun(Field::Alpha));
    assert_eq!(read_fields(&mut cursor, 5, &layout), overrun(Field::SecondaryIndex));
    // From bit 90 on the two-bit stream fits and the three-bit one does
    // not; the index selector decides which of them comes first.
    assert_eq!(read_fields(&mut cursor, 44, &layout), overrun(Field::PrimaryIndex));
    let mut cursor = BitCursor::new(&zeros).unwrap();
    assert_eq!(read_fields(&mut cursor, 44, &layout), overrun(Field::SecondaryIndex));
    assert_eq!(read_fields(&mut cursor, 5, &layout), overrun(Field::SecondaryIndex));
    assert!(read_fields(&mut cursor, 4, &layout).is_ok());
    assert_eq!(cursor.pos(), 128);
}

#[test]
fn a_shorter_layout_stops_before_the_end() {
    let block = [0xFFu8; 16];
    let narrow = ModeLayout {
        partition_bits: 0,
        subset_count: 1,
        color_bits: 8,
        alpha_bits: 0,
        has_parity_bit: false,
        parity_shared: false,
        primary_index_bits: 1,
        secondary_index_bits: 0,
        has_rotation: false,
        has_index_selector: false,
    };
    let mut cursor = BitCursor::new(&block).unwrap();
    let decoded = decode_at(&mut cursor, 0, &narrow).unwrap();
    assert_eq!(cursor.pos(), 1 + 48 + 15);
    let mut expected = [RGB { r: 255, g: 255, b: 255 }; 16];
    expected[0] = RGB { r: 255, g: 255, b: 255 };
    assert_eq!(decoded, DecodedBlock::Rgb(expected));
}

#[test]
fn one_bad_block_does_not_touch_the_others() {
    let good = mode_zero_block(0, 8, 0, [0, 3, 15], 0);
    let grey = DecodedBlock::Rgb([RGB { r: 128, g: 128, b: 128 }; 16]);
    for bad in 0..5usize {
        let mut blocks: Vec<&[u8]> = Vec::new();
        for k in 0..5usize {
            if k == bad {
                blocks.push(&good[..11]);
            } else {
                blocks.push(&good[..]);
            }
        }
        let out = decode_blocks(&blocks, None);
        assert_eq!(out.len(), 5);
        for k in 0..5usize {
            if k == bad {
                assert_eq!(out[k], Err(DecodeError::InvalidLength { len: 11 }));
            } else {
                assert_eq!(out[k], Ok(grey));
            }
        }
        assert_eq!(out.iter().filter(|r| r.is_err()).count(), 1);
    }
}

#[test]
fn a_run_of_blocks_is_decoded_block_by_block() {
    let first = mode_zero_block(0, 8, 1, [0, 3, 15], 5);
    let mut second = [0u8; 16];
    second[0] = 0b0010_0000;
    let third = [0u8; 16];
    let mut fourth = [0x55u8; 16];
    fourth[0] = 0b0101_0100;
    let blocks: Vec<&[u8]> = vec![&first, &second, &third, &fourth];
    let out = decode_blocks(&blocks, None);
    assert_eq!(out.len(), 4);
    for k in 0..4 {
        assert_eq!(out[k], decode_block(blocks[k], None));
    }
    assert_eq!(out[1], Err(DecodeError::UnsupportedMode { mode: Some(5) }));
    assert_eq!(out[2], Err(DecodeError::UnsupportedMode { mode: None }));
    assert!(out[3].is_ok());
    let expecting = decode_blocks(&blocks, Some(0));
    assert!(expecting[0].is_ok());
    assert_eq!(expecting[3], Err(DecodeError::ModeMismatch { expected: 0, found: 2 }));
    assert_eq!(decode_blocks(&[], None), vec![]);
}
