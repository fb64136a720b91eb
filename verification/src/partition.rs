use vstd::prelude::*;

verus! {

/// The number of texels in a block.
pub const TEXELS: usize = 16;

/// The number of shapes in each partition table.
pub const SHAPES: usize = 64;

/// The subset of each texel, for each of the 64 shapes that split a block
/// into three subsets.
pub const PARTITION_TABLE_3: [[usize; 16]; 64] = [
    [0, 0, 1, 1, 0, 0, 1, 1, 0, 2, 2, 1, 2, 2, 2, 2],
    [0, 0, 0, 1, 0, 0, 1, 1, 2, 2, 1, 1, 2, 2, 2, 1],
    [0, 0, 0, 0, 2, 0, 0, 1, 2, 2, 1, 1, 2, 2, 1, 1],
    [0, 2, 2, 2, 0, 0, 2, 2, 0, 0, 1, 1, 0, 1, 1, 1],
    [0, 0, 0, 0, 0, 0, 0, 0, 1, 1, 2, 2, 1, 1, 2, 2],
    [0, 0, 1, 1, 0, 0, 1, 1, 0, 0, 2, 2, 0, 0, 2, 2],
    [0, 0, 2, 2, 0, 0, 2, 2, 1, 1, 1, 1, 1, 1, 1, 1],
    [0, 0, 1, 1, 0, 0, 1, 1, 2, 2, 1, 1, 2, 2, 1, 1],
    [0, 0, 0, 0, 0, 0, 0, 0, 1, 1, 1, 1, 2, 2, 2, 2],
    [0, 0, 0, 0, 1, 1, 1, 1, 1, 1, 1, 1, 2, 2, 2, 2],
    [0, 0, 0, 0, 1, 1, 1, 1, 2, 2, 2, 2, 2, 2, 2, 2],
    [0, 0, 1, 2, 0, 0, 1, 2, 0, 0, 1, 2, 0, 0, 1, 2],
    [0, 1, 1, 2, 0, 1, 1, 2, 0, 1, 1, 2, 0, 1, 1, 2],
    [0, 1, 2, 2, 0, 1, 2, 2, 0, 1, 2, 2, 0, 1, 2, 2],
    [0, 0, 1, 1, 0, 1, 1, 2, 1, 1, 2, 2, 1, 2, 2, 2],
    [0, 0, 1, 1, 2, 0, 0, 1, 2, 2, 0, 0, 2, 2, 2, 0],
    [0, 0, 0, 1, 0, 0, 1, 1, 0, 1, 1, 2, 1, 1, 2, 2],
    [0, 1, 1, 1, 0, 0, 1, 1, 2, 0, 0, 1, 2, 2, 0, 0],
    [0, 0, 0, 0, 1, 1, 2, 2, 1, 1, 2, 2, 1, 1, 2, 2],
    [0, 0, 2, 2, 0, 0, 2, 2, 0, 0, 2, 2, 1, 1, 1, 1],
    [0, 1, 1, 1, 0, 1, 1, 1, 0, 2, 2, 2, 0, 2, 2, 2],
    [0, 0, 0, 1, 0, 0, 0, 1, 2, 2, 2, 1, 2, 2, 2, 1],
    [0, 0, 0, 0, 0, 0, 1, 1, 0, 1, 2, 2, 0, 1, 2, 2],
    [0, 0, 0, 0, 1, 1, 0, 0, 2, 2, 1, 0, 2, 2, 1, 0],
    [0, 1, 2, 2, 0, 1, 2, 2, 0, 0, 1, 1, 0, 0, 0, 0],
    [0, 0, 1, 2, 0, 0, 1, 2, 1, 1, 2, 2, 2, 2, 2, 2],
    [0, 1, 1, 0, 1, 2, 2, 1, 1, 2, 2, 1, 0, 1, 1, 0],
    [0, 0, 0, 0, 0, 1, 1, 0, 1, 2, 2, 1, 1, 2, 2, 1],
    [0, 0, 2, 2, 1, 1, 0, 2, 1, 1, 0, 2, 0, 0, 2, 2],
    [0, 1, 1, 0, 0, 1, 1, 0, 2, 0, 0, 2, 2, 2, 2, 2],
    [0, 0, 1, 1, 0, 1, 2, 2, 0, 1, 2, 2, 0, 0, 1, 1],
    [0, 0, 0, 0, 2, 0, 0, 0, 2, 2, 1, 1, 2, 2, 2, 1],
    [0, 0, 0, 0, 0, 0, 0, 2, 1, 1, 2, 2, 1, 2, 2, 2],
    [0, 2, 2, 2, 0, 0, 2, 2, 0, 0, 1, 2, 0, 0, 1, 1],
    [0, 0, 1, 1, 0, 0, 1, 2, 0, 0, 2, 2, 0, 2, 2, 2],
    [0, 1, 2, 0, 0, 1, 2, 0, 0, 1, 2, 0, 0, 1, 2, 0],
    [0, 0, 0, 0, 1, 1, 1, 1, 2, 2, 2, 2, 0, 0, 0, 0],
    [0, 1, 2, 0, 1, 2, 0, 1, 2, 0, 1, 2, 0, 1, 2, 0],
    [0, 1, 2, 0, 2, 0, 1, 2, 1, 2, 0, 1, 0, 1, 2, 0],
    [0, 0, 1, 1, 2, 2, 0, 0, 1, 1, 2, 2, 0, 0, 1, 1],
    [0, 0, 1, 1, 1, 1, 2, 2, 2, 2, 0, 0, 0, 0, 1, 1],
    [0, 1, 0, 1, 0, 1, 0, 1, 2, 2, 2, 2, 2, 2, 2, 2],
    [0, 0, 0, 0, 0, 0, 0, 0, 2, 1, 2, 1, 2, 1, 2, 1],
    [0, 0, 2, 2, 1, 1, 2, 2, 0, 0, 2, 2, 1, 1, 2, 2],
    [0, 0, 2, 2, 0, 0, 1, 1, 0, 0, 2, 2, 0, 0, 1, 1],
    [0, 2, 2, 0, 1, 2, 2, 1, 0, 2, 2, 0, 1, 2, 2, 1],
    [0, 1, 0, 1, 2, 2, 2, 2, 2, 2, 2, 2, 0, 1, 0, 1],
    [0, 0, 0, 0, 2, 1, 2, 1, 2, 1, 2, 1, 2, 1, 2, 1],
    [0, 1, 0, 1, 0, 1, 0, 1, 0, 1, 0, 1, 2, 2, 2, 2],
    [0, 2, 2, 2, 0, 1, 1, 1, 0, 2, 2, 2, 0, 1, 1, 1],
    [0, 0, 0, 2, 1, 1, 1, 2, 0, 0, 0, 2, 1, 1, 1, 2],
    [0, 0, 0, 0, 2, 1, 1, 2, 2, 1, 1, 2, 2, 1, 1, 2],
    [0, 2, 2, 2, 0, 1, 1, 1, 0, 1, 1, 1, 0, 2, 2, 2],
    [0, 0, 0, 2, 1, 1, 1, 2, 1, 1, 1, 2, 0, 0, 0, 2],
    [0, 1, 1, 0, 0, 1, 1, 0, 0, 1, 1, 0, 2, 2, 2, 2],
    [0, 0, 0, 0, 0, 0, 0, 0, 2, 1, 1, 2, 2, 1, 1, 2],
    [0, 1, 1, 0, 0, 1, 1, 0, 2, 2, 2, 2, 2, 2, 2, 2],
    [0, 0, 2, 2, 0, 0, 1, 1, 0, 0, 1, 1, 0, 0, 2, 2],
    [0, 0, 2, 2, 1, 1, 2, 2, 1, 1, 2, 2, 0, 0, 2, 2],
    [0, 0, 0, 0, 0, 0, 0, 0, 0, 0, 0, 0, 2, 1, 1, 2],
    [0, 0, 0, 2, 0, 0, 0, 1, 0, 0, 0, 2, 0, 0, 0, 1],
    [0, 2, 2, 2, 1, 2, 2, 2, 0, 2, 2, 2, 1, 2, 2, 2],
    [0, 1, 0, 1, 2, 2, 2, 2, 2, 2, 2, 2, 2, 2, 2, 2],
    [0, 1, 1, 1, 2, 0, 1, 1, 2, 2, 0, 1, 2, 2, 2, 0],
];

/// The subset of each texel, for each of the 64 shapes that split a block
/// into two subsets.
pub const PARTITION_TABLE_2: [[usize; 16]; 64] = [
    [0, 0, 1, 1, 0, 0, 1, 1, 0, 0, 1, 1, 0, 0, 1, 1],
    [0, 0, 0, 1, 0, 0, 0, 1, 0, 0, 0, 1, 0, 0, 0, 1],
    [0, 1, 1, 1, 0, 1, 1, 1, 0, 1, 1, 1, 0, 1, 1, 1],
    [0, 0, 0, 1, 0, 0, 1, 1, 0, 0, 1, 1, 0, 1, 1, 1],
    [0, 0, 0, 0, 0, 0, 0, 1, 0, 0, 0, 1, 0, 0, 1, 1],
    [0, 0, 1, 1, 0, 1, 1, 1, 0, 1, 1, 1, 1, 1, 1, 1],
    [0, 0, 0, 1, 0, 0, 1, 1, 0, 1, 1, 1, 1, 1, 1, 1],
    [0, 0, 0, 0, 0, 0, 0, 1, 0, 0, 1, 1, 0, 1, 1, 1],
    [0, 0, 0, 0, 0, 0, 0, 0, 0, 0, 0, 1, 0, 0, 1, 1],
    [0, 0, 1, 1, 0, 1, 1, 1, 1, 1, 1, 1, 1, 1, 1, 1],
    [0, 0, 0, 0, 0, 0, 0, 1, 0, 1, 1, 1, 1, 1, 1, 1],
    [0, 0, 0, 0, 0, 0, 0, 0, 0, 0, 0, 1, 0, 1, 1, 1],
    [0, 0, 0, 1, 0, 1, 1, 1, 1, 1, 1, 1, 1, 1, 1, 1],
    [0, 0, 0, 0, 0, 0, 0, 0, 1, 1, 1, 1, 1, 1, 1, 1],
    [0, 0, 0, 0, 1, 1, 1, 1, 1, 1, 1, 1, 1, 1, 1, 1],
    [0, 0, 0, 0, 0, 0, 0, 0, 0, 0, 0, 0, 1, 1, 1, 1],
    [0, 0, 0, 0, 1, 0, 0, 0, 1, 1, 1, 0, 1, 1, 1, 1],
    [0, 1, 1, 1, 0, 0, 0, 1, 0, 0, 0, 0, 0, 0, 0, 0],
    [0, 0, 0, 0, 0, 0, 0, 0, 1, 0, 0, 0, 1, 1, 1, 0],
    [0, 1, 1, 1, 0, 0, 1, 1, 0, 0, 0, 1, 0, 0, 0, 0],
    [0, 0, 1, 1, 0, 0, 0, 1, 0, 0, 0, 0, 0, 0, 0, 0],
    [0, 0, 0, 0, 1, 0, 0, 0, 1, 1, 0, 0, 1, 1, 1, 0],
    [0, 0, 0, 0, 0, 0, 0, 0, 1, 0, 0, 0, 1, 1, 0, 0],
    [0, 1, 1, 1, 0, 0, 1, 1, 0, 0, 1, 1, 0, 0, 0, 1],
    [0, 0, 1, 1, 0, 0, 0, 1, 0, 0, 0, 1, 0, 0, 0, 0],
    [0, 0, 0, 0, 1, 0, 0, 0, 1, 0, 0, 0, 1, 1, 0, 0],
    [0, 1, 1, 0, 0, 1, 1, 0, 0, 1, 1, 0, 0, 1, 1, 0],
    [0, 0, 1, 1, 0, 1, 1, 0, 0, 1, 1, 0, 1, 1, 0, 0],
    [0, 0, 0, 1, 0, 1, 1, 1, 1, 1, 1, 0, 1, 0, 0, 0],
    [0, 0, 0, 0, 1, 1, 1, 1, 1, 1, 1, 1, 0, 0, 0, 0],
    [0, 1, 1, 1, 0, 0, 0, 1, 1, 0, 0, 0, 1, 1, 1, 0],
    [0, 0, 1, 1, 1, 0, 0, 1, 1, 0, 0, 1, 1, 1, 0, 0],
    [0, 1, 0, 1, 0, 1, 0, 1, 0, 1, 0, 1, 0, 1, 0, 1],
    [0, 0, 0, 0, 1, 1, 1, 1, 0, 0, 0, 0, 1, 1, 1, 1],
    [0, 1, 0, 1, 1, 0, 1, 0, 0, 1, 0, 1, 1, 0, 1, 0],
    [0, 0, 1, 1, 0, 0, 1, 1, 1, 1, 0, 0, 1, 1, 0, 0],
    [0, 0, 1, 1, 1, 1, 0, 0, 0, 0, 1, 1, 1, 1, 0, 0],
    [0, 1, 0, 1, 0, 1, 0, 1, 1, 0, 1, 0, 1, 0, 1, 0],
    [0, 1, 1, 0, 1, 0, 0, 1, 0, 1, 1, 0, 1, 0, 0, 1],
    [0, 1, 0, 1, 1, 0, 1, 0, 1, 0, 1, 0, 0, 1, 0, 1],
    [0, 1, 1, 1, 0, 0, 1, 1, 1, 1, 0, 0, 1, 1, 1, 0],
    [0, 0, 0, 1, 0, 0, 1, 1, 1, 1, 0, 0, 1, 0, 0, 0],
    [0, 0, 1, 1, 0, 0, 1, 0, 0, 1, 0, 0, 1, 1, 0, 0],
    [0, 0, 1, 1, 1, 0, 1, 1, 1, 1, 0, 1, 1, 1, 0, 0],
    [0, 1, 1, 0, 1, 0, 0, 1, 1, 0, 0, 1, 0, 1, 1, 0],
    [0, 0, 1, 1, 1, 1, 0, 0, 1, 1, 0, 0, 0, 0, 1, 1],
    [0, 1, 1, 0, 0, 1, 1, 0, 1, 0, 0, 1, 1, 0, 0, 1],
    [0, 0, 0, 0, 0, 1, 1, 0, 0, 1, 1, 0, 0, 0, 0, 0],
    [0, 1, 0, 0, 1, 1, 1, 0, 0, 1, 0, 0, 0, 0, 0, 0],
    [0, 0, 1, 0, 0, 1, 1, 1, 0, 0, 1, 0, 0, 0, 0, 0],
    [0, 0, 0, 0, 0, 0, 1, 0, 0, 1, 1, 1, 0, 0, 1, 0],
    [0, 0, 0, 0, 0, 1, 0, 0, 1, 1, 1, 0, 0, 1, 0, 0],
    [0, 1, 1, 0, 1, 1, 0, 0, 1, 0, 0, 1, 0, 0, 1, 1],
    [0, 0, 1, 1, 0, 1, 1, 0, 1, 1, 0, 0, 1, 0, 0, 1],
    [0, 1, 1, 0, 0, 0, 1, 1, 1, 0, 0, 1, 1, 1, 0, 0],
    [0, 0, 1, 1, 1, 0, 0, 1, 1, 1, 0, 0, 0, 1, 1, 0],
    [0, 1, 1, 0, 1, 1, 0, 0, 1, 1, 0, 0, 1, 0, 0, 1],
    [0, 1, 1, 0, 0, 0, 1, 1, 0, 0, 1, 1, 1, 0, 0, 1],
    [0, 1, 1, 1, 1, 1, 1, 0, 1, 0, 0, 0, 0, 0, 0, 1],
    [0, 0, 0, 1, 1, 0, 0, 0, 1, 1, 1, 0, 0, 1, 1, 1],
    [0, 0, 0, 0, 1, 1, 1, 1, 0, 0, 1, 1, 0, 0, 1, 1],
    [0, 0, 1, 1, 0, 0, 1, 1, 1, 1, 1, 1, 0, 0, 0, 0],
    [0, 0, 1, 0, 0, 0, 1, 0, 1, 1, 1, 0, 1, 1, 1, 0],
    [0, 1, 0, 0, 0, 1, 0, 0, 0, 1, 1, 1, 0, 1, 1, 1],
];

/// The anchor texels of each shape: entry 0 is the anchor of subset 0 and is
/// always texel 0, entries 1 and 2 are the anchors of subsets 1 and 2.
pub const FIXUP_TABLE: [[usize; 3]; 64] = [
    [0, 3, 15],
    [0, 3, 8],
    [0, 15, 8],
    [0, 15, 3],
    [0, 8, 15],
    [0, 3, 15],
    [0, 15, 3],
    [0, 15, 8],
    [0, 8, 15],
    [0, 8, 15],
    [0, 6, 15],
    [0, 6, 15],
    [0, 6, 15],
    [0, 5, 15],
    [0, 3, 15],
    [0, 3, 8],
    [0, 3, 15],
    [0, 3, 8],
    [0, 8, 15],
    [0, 15, 3],
    [0, 3, 15],
    [0, 3, 8],
    [0, 6, 15],
    [0, 10, 8],
    [0, 5, 3],
    [0, 8, 15],
    [0, 8, 6],
    [0, 6, 10],
    [0, 8, 15],
    [0, 5, 15],
    [0, 15, 10],
    [0, 15, 8],
    [0, 8, 15],
    [0, 15, 3],
    [0, 3, 15],
    [0, 5, 10],
    [0, 6, 10],
    [0, 10, 8],
    [0, 8, 9],
    [0, 15, 10],
    [0, 15, 6],
    [0, 3, 15],
    [0, 15, 8],
    [0, 5, 15],
    [0, 15, 3],
    [0, 15, 6],
    [0, 15, 6],
    [0, 15, 8],
    [0, 3, 15],
    [0, 15, 3],
    [0, 5, 15],
    [0, 5, 15],
    [0, 5, 15],
    [0, 8, 15],
    [0, 5, 15],
    [0, 10, 15],
    [0, 5, 15],
    [0, 10, 15],
    [0, 8, 15],
    [0, 13, 15],
    [0, 15, 3],
    [0, 12, 15],
    [0, 3, 15],
    [0, 3, 8],
];

/// The subset of each texel under shape `selector`: a row of the three-subset
/// table when there are three subsets, else a row of the two-subset table.
pub open spec fn assignment_of(selector: int, subset_count: int) -> [usize; 16] {
    if subset_count == 3 {
        PARTITION_TABLE_3[selector]
    } else {
        PARTITION_TABLE_2[selector]
    }
}

/// The anchor texels of shape `selector`, the same for every subset count.
pub open spec fn anchors_of(selector: int) -> [usize; 3] {
    FIXUP_TABLE[selector]
}

/// The first `subset_count` anchors are texels of the block, no two of them
/// the same, and the first is texel 0.
pub open spec fn anchors_distinct(anchors: [usize; 3], subset_count: int) -> bool {
    &&& anchors[0] == 0
    &&& subset_count >= 2 ==> 0 < anchors[1] < TEXELS
    &&& subset_count >= 3 ==> 0 < anchors[2] < TEXELS && anchors[2] != anchors[1]
}

/// Texel `texel` is the anchor of one of the first `subset_count` subsets.
/// An anchor counts by its position alone: in some two-subset shapes the
/// second anchor is a texel of subset 0, and it is an anchor all the same.
pub open spec fn is_anchor(anchors: [usize; 3], subset_count: int, texel: int) -> bool {
    ||| texel == anchors[0]
    ||| subset_count >= 2 && texel == anchors[1]
    ||| subset_count >= 3 && texel == anchors[2]
}

/// Looks up the subset of each texel for a shape.
pub fn partition_assignment(selector: usize, subset_count: usize) -> (row: [usize; 16])
    requires
        selector < SHAPES,
    ensures
        row == assignment_of(selector as int, subset_count as int),
        subset_count == 2 || subset_count == 3 ==> forall|t: int|
            0 <= t < TEXELS ==> #[trigger] row[t] < subset_count,
{
    proof {
        assert forall|t: int| 0 <= t < TEXELS implies #[trigger] assignment_of(
            selector as int,
            3,
        )[t] < 3 by {
            lemma_three_subset_ids(selector as int, t);
        }
        assert forall|t: int| 0 <= t < TEXELS implies #[trigger] assignment_of(
            selector as int,
            2,
        )[t] < 2 by {
            lemma_two_subset_ids(selector as int, t);
        }
    }
    if subset_count == 3 {
        PARTITION_TABLE_3[selector]
    } else {
        PARTITION_TABLE_2[selector]
    }
}

/// Looks up the anchor texels of a shape.
pub fn fixup_anchors(selector: usize) -> (row: [usize; 3])
    requires
        selector < SHAPES,
    ensures
        row == anchors_of(selector as int),
        anchors_distinct(row, 3),
{
    proof {
        lemma_anchors_distinct(selector as int);
    }
    FIXUP_TABLE[selector]
}

/// Every entry of the three-subset table names subset 0, 1 or 2.
pub proof fn lemma_three_subset_ids(selector: int, texel: int)
    requires
        0 <= selector < SHAPES,
        0 <= texel < TEXELS,
    ensures
        PARTITION_TABLE_3[selector][texel] < 3,
{
}

/// Every entry of the two-subset table names subset 0 or 1.
pub proof fn lemma_two_subset_ids(selector: int, texel: int)
    requires
        0 <= selector < SHAPES,
        0 <= texel < TEXELS,
    ensures
        PARTITION_TABLE_2[selector][texel] < 2,
{
}

/// In every shape the three anchors are three different texels, the first of
/// them texel 0.
pub proof fn lemma_anchors_distinct(selector: int)
    requires
        0 <= selector < SHAPES,
    ensures
        anchors_distinct(anchors_of(selector), 3),
        anchors_distinct(anchors_of(selector), 2),
        anchors_distinct(anchors_of(selector), 1),
{
}

/// In every three-subset shape each anchor is a texel of the subset that it
/// anchors.
pub proof fn lemma_anchor_in_own_subset(selector: int)
    requires
        0 <= selector < SHAPES,
    ensures
        PARTITION_TABLE_3[selector][anchors_of(selector)[0] as int] == 0,
        PARTITION_TABLE_3[selector][anchors_of(selector)[1] as int] == 1,
        PARTITION_TABLE_3[selector][anchors_of(selector)[2] as int] == 2,
{
}

/// Where each anchor lies in the subset that it anchors, a texel is an anchor
/// exactly when it is the anchor of its own subset. This holds of every
/// three-subset shape; of the two-subset shapes it holds of those whose
/// second anchor lies in subset 1.
pub proof fn lemma_anchor_of_own_subset(
    anchors: [usize; 3],
    assignment: [usize; 16],
    subset_count: int,
    texel: int,
)
    requires
        1 <= subset_count <= 3,
        0 <= texel < TEXELS,
        assignment[texel] < subset_count,
        forall|s: int|
            0 <= s < subset_count ==> 0 <= #[trigger] anchors[s] < TEXELS
                && assignment[anchors[s] as int] == s,
    ensures
        is_anchor(anchors, subset_count, texel) <==> texel == anchors[assignment[texel] as int],
{
    if is_anchor(anchors, subset_count, texel) {
        if texel == anchors[0] {
            assert(assignment[anchors[0] as int] == 0);
        } else if subset_count >= 2 && texel == anchors[1] {
            assert(assignment[anchors[1] as int] == 1);
        } else {
            assert(assignment[anchors[2] as int] == 2);
        }
    }
}

/// In every three-subset shape a texel is an anchor exactly when it is the
/// anchor of the subset that it lies in.
pub proof fn lemma_three_subset_anchor_rule(selector: int, texel: int)
    requires
        0 <= selector < SHAPES,
        0 <= texel < TEXELS,
    ensures
        is_anchor(anchors_of(selector), 3, texel) <==> texel == anchors_of(
            selector,
        )[assignment_of(selector, 3)[texel] as int],
{
    lemma_anchor_in_own_subset(selector);
    lemma_anchors_distinct(selector);
    lemma_three_subset_ids(selector, texel);
    let anchors = anchors_of(selector);
    let assignment = assignment_of(selector, 3);
    assert forall|s: int| 0 <= s < 3 implies 0 <= #[trigger] anchors[s] < TEXELS
        && assignment[anchors[s] as int] == s by {
        if s == 0 {
        } else if s == 1 {
        } else {
        }
    }
    lemma_anchor_of_own_subset(anchors, assignment, 3, texel);
}

} // verus!
