use bc7_unorm::bits::BitCursor;
use bc7_unorm::error::{DecodeError, Field};
use bc7_unorm::index::read_indices;

fn pack_from(start: usize, fields: &[(u64, usize)]) -> [u8; 16] {
    let mut out = [0u8; 16];
    let mut pos = start;
    for &(value, width) in fields {
        for i in 0..width {
            if (value >> i) & 1 == 1 {
                out[pos / 8] |= 1 << (pos % 8);
            }
            pos += 1;
        }
    }
    assert!(pos <= 128);
    out
}

#[test]
fn anchors_are_one_bit_narrower() {
    // Three subsets with the anchors 0, 3 and 15; three-bit indices.
    let anchors = [0usize, 3, 15];
    let values: [u64; 16] = [3, 7, 6, 2, 5, 4, 7, 1, 0, 7, 3, 5, 6, 7, 2, 1];
    let fields: Vec<(u64, usize)> = values
        .iter()
        .enumerate()
        .map(|(t, &v)| (v, if anchors.contains(&t) { 2 } else { 3 }))
        .collect();
    let block = pack_from(83, &fields);
    let mut cursor = BitCursor::new(&block).unwrap();
    assert!(cursor.seek(83));
    let indices = read_indices(&mut cursor, Field::PrimaryIndex, 3, &anchors, 3).unwrap();
    assert_eq!(indices, [3, 7, 6, 2, 5, 4, 7, 1, 0, 7, 3, 5, 6, 7, 2, 1]);
    assert_eq!(cursor.pos(), 128);
}

#[test]
fn only_the_anchors_of_the_subsets_in_use_count() {
    // Two subsets: the third anchor, texel 8, keeps its full width.
    let anchors = [0usize, 15, 8];
    let values: [u64; 16] = [1, 3, 2, 1, 0, 3, 2, 1, 3, 0, 1, 2, 3, 0, 2, 1];
    let fields: Vec<(u64, usize)> = values
        .iter()
        .enumerate()
        .map(|(t, &v)| (v, if t == 0 || t == 15 { 1 } else { 2 }))
        .collect();
    let block = pack_from(98, &fields);
    let mut cursor = BitCursor::new(&block).unwrap();
    assert!(cursor.seek(98));
    let indices = read_indices(&mut cursor, Field::PrimaryIndex, 2, &anchors, 2).unwrap();
    assert_eq!(indices, [1, 3, 2, 1, 0, 3, 2, 1, 3, 0, 1, 2, 3, 0, 2, 1]);
    assert_eq!(cursor.pos(), 128);
}

#[test]
fn a_single_subset_has_texel_zero_as_its_anchor() {
    let anchors = [0usize, 0, 0];
    let mut fields = vec![(1u64, 1usize)];
    for _ in 1..16 {
        fields.push((2, 2));
    }
    let block = pack_from(50, &fields);
    let mut cursor = BitCursor::new(&block).unwrap();
    assert!(cursor.seek(50));
    let indices = read_indices(&mut cursor, Field::PrimaryIndex, 2, &anchors, 1).unwrap();
    assert_eq!(indices, [1, 2, 2, 2, 2, 2, 2, 2, 2, 2, 2, 2, 2, 2, 2, 2]);
    assert_eq!(cursor.pos(), 81);
    let indices = read_indices(&mut cursor, Field::SecondaryIndex, 3, &anchors, 1).unwrap();
    assert_eq!(indices, [0u8; 16]);
    assert_eq!(cursor.pos(), 128);
}

#[test]
fn a_stream_that_passes_the_end_is_refused() {
    let block = [0xFFu8; 16];
    let anchors = [0usize, 3, 15];
    let mut cursor = BitCursor::new(&block).unwrap();
    assert!(cursor.seek(84));
    assert_eq!(read_indices(&mut cursor, Field::PrimaryIndex, 3, &anchors, 3),
        Err(DecodeError::FieldOverrun { field: Field::PrimaryIndex })
    );
    assert_eq!(cursor.pos(), 84);
    assert!(cursor.seek(83));
    let indices = read_indices(&mut cursor, Field::PrimaryIndex, 3, &anchors, 3).unwrap();
    assert_eq!(indices, [3, 7, 7, 3, 7, 7, 7, 7, 7, 7, 7, 7, 7, 7, 7, 3]);
}

#[test]
fn one_bit_indices_leave_the_anchor_without_bits() {
    let block = [0xFFu8; 16];
    let anchors = [0usize, 0, 0];
    let mut cursor = BitCursor::new(&block).unwrap();
    let indices = read_indices(&mut cursor, Field::PrimaryIndex, 1, &anchors, 1).unwrap();
    assert_eq!(indices, [0, 1, 1, 1, 1, 1, 1, 1, 1, 1, 1, 1, 1, 1, 1, 1]);
    assert_eq!(cursor.pos(), 15);
}
