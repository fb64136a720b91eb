use crate::bits::BLOCK_BITS;
use crate::error::DecodeError;
use crate::partition::TEXELS;
use vstd::prelude::*;

verus! {

/// The field widths of one mode. The fields of a block follow each other
/// without gaps, in this order: the mode bits, the partition selector, the
/// rotation, the index selector, the red, green and blue endpoint values,
/// the alpha endpoint values, the parity bits, the primary indices and the
/// secondary indices.
#[derive(Debug, Clone, Copy, PartialEq, Eq, Structural)]
pub struct ModeLayout {
    /// Width of the partition selector; 0 when the mode has none.
    pub partition_bits: usize,
    /// Number of subsets, 1 to 3.
    pub subset_count: usize,
    /// Width of one colour endpoint component.
    pub color_bits: usize,
    /// Width of one alpha endpoint value; 0 when the mode has no alpha.
    pub alpha_bits: usize,
    /// Whether endpoint values are extended by a parity bit.
    pub has_parity_bit: bool,
    /// Whether the two endpoints of a subset share one parity bit; otherwise
    /// each endpoint has its own.
    pub parity_shared: bool,
    /// Width of an index of the primary stream.
    pub primary_index_bits: usize,
    /// Width of an index of the secondary stream; 0 when there is none.
    pub secondary_index_bits: usize,
    /// Whether a two-bit rotation field is present.
    pub has_rotation: bool,
    /// Whether a one-bit index selector is present.
    pub has_index_selector: bool,
}

/// The highest mode that has a layout.
pub const MAX_MODE: usize = 4;

/// Width of the partition selector, by mode.
pub const PARTITION_BITS: [usize; 5] = [4, 6, 6, 6, 0];

/// Number of subsets, by mode.
pub const SUBSET_COUNT: [usize; 5] = [3, 2, 3, 2, 1];

/// Width of a colour endpoint component, by mode.
pub const COLOR_BITS: [usize; 5] = [4, 6, 5, 7, 5];

/// Width of an alpha endpoint value, by mode.
pub const ALPHA_BITS: [usize; 5] = [0, 0, 0, 0, 6];

/// Whether endpoint values carry a parity bit, by mode.
pub const HAS_PARITY_BIT: [bool; 5] = [true, true, false, true, false];

/// Whether the endpoints of a subset share their parity bit, by mode.
pub const PARITY_SHARED: [bool; 5] = [false, true, false, false, false];

/// Width of a primary index, by mode.
pub const PRIMARY_INDEX_BITS: [usize; 5] = [3, 3, 2, 2, 2];

/// Width of a secondary index, by mode.
pub const SECONDARY_INDEX_BITS: [usize; 5] = [0, 0, 0, 0, 3];

/// Whether a rotation field is present, by mode.
pub const HAS_ROTATION: [bool; 5] = [false, false, false, false, true];

/// Whether an index selector is present, by mode.
pub const HAS_INDEX_SELECTOR: [bool; 5] = [false, false, false, false, true];

/// The layout of each mode from 0 to 4.
pub open spec fn layout_of(mode: int) -> ModeLayout {
    ModeLayout {
        partition_bits: PARTITION_BITS[mode],
        subset_count: SUBSET_COUNT[mode],
        color_bits: COLOR_BITS[mode],
        alpha_bits: ALPHA_BITS[mode],
        has_parity_bit: HAS_PARITY_BIT[mode],
        parity_shared: PARITY_SHARED[mode],
        primary_index_bits: PRIMARY_INDEX_BITS[mode],
        secondary_index_bits: SECONDARY_INDEX_BITS[mode],
        has_rotation: HAS_ROTATION[mode],
        has_index_selector: HAS_INDEX_SELECTOR[mode],
    }
}

impl ModeLayout {
    /// 1 when endpoint values carry a parity bit, else 0.
    pub open spec fn parity_width(self) -> int {
        if self.has_parity_bit {
            1
        } else {
            0
        }
    }

    /// The widths are such that every endpoint value and every index fits
    /// in eight bits and every shape selector names a shape.
    pub open spec fn wf(self) -> bool {
        &&& self.partition_bits <= 6
        &&& 1 <= self.subset_count <= 3
        &&& 1 <= self.color_bits
        &&& self.color_bits + self.parity_width() <= 8
        &&& self.alpha_bits + self.parity_width() <= 8
        &&& 1 <= self.primary_index_bits <= 8
        &&& self.secondary_index_bits <= 8
        &&& self.has_index_selector ==> self.secondary_index_bits >= 1
    }

    /// Whether the mode gives its texels an alpha value.
    pub open spec fn has_alpha(self) -> bool {
        self.alpha_bits > 0
    }

    /// Whether the mode has a second index stream.
    pub open spec fn has_secondary(self) -> bool {
        self.secondary_index_bits > 0
    }

    /// The number of parity bits: none, one for each subset, or one for each
    /// endpoint.
    pub open spec fn parity_count(self) -> int {
        if !self.has_parity_bit {
            0
        } else if self.parity_shared {
            self.subset_count as int
        } else {
            2 * self.subset_count
        }
    }

    /// The number of endpoints: two for each subset.
    pub open spec fn endpoint_count(self) -> int {
        2 * self.subset_count
    }

    /// Where the partition selector begins in a block of mode `mode`: after
    /// the clear bits and the set bit that spell the mode.
    pub open spec fn partition_start(self, mode: int) -> int {
        mode + 1
    }

    /// Where the rotation field begins.
    pub open spec fn rotation_start(self, mode: int) -> int {
        self.partition_start(mode) + self.partition_bits
    }

    /// Where the index selector begins.
    pub open spec fn selector_start(self, mode: int) -> int {
        self.rotation_start(mode) + if self.has_rotation {
            2int
        } else {
            0int
        }
    }

    /// Where the colour endpoint values begin.
    pub open spec fn color_start(self, mode: int) -> int {
        self.selector_start(mode) + if self.has_index_selector {
            1int
        } else {
            0int
        }
    }

    /// Where the alpha endpoint values begin.
    pub open spec fn alpha_start(self, mode: int) -> int {
        self.color_start(mode) + 3 * self.endpoint_count() * self.color_bits
    }

    /// Where the parity bits begin.
    pub open spec fn parity_start(self, mode: int) -> int {
        self.alpha_start(mode) + self.endpoint_count() * self.alpha_bits
    }

    /// Where the primary index stream begins.
    pub open spec fn index_start(self, mode: int) -> int {
        self.parity_start(mode) + self.parity_count()
    }

    /// The length of an index stream whose indices are `width` bits wide: 16
    /// indices, of which the anchor of each subset is one bit narrower.
    pub open spec fn stream_bits(self, width: int) -> int {
        TEXELS * width - self.subset_count
    }

    /// Where the secondary index stream begins, or where it would.
    pub open spec fn secondary_start(self, mode: int, primary_width: int) -> int {
        self.index_start(mode) + self.stream_bits(primary_width)
    }

    /// Where the last field ends. The index selector may swap the widths of
    /// the two streams; their sum stays the same.
    pub open spec fn end(self, mode: int) -> int {
        self.index_start(mode) + self.stream_bits(self.primary_index_bits as int)
            + if self.has_secondary() {
            self.stream_bits(self.secondary_index_bits as int)
        } else {
            0
        }
    }
}

/// The layout of a mode; the modes above 4 have none.
pub fn mode_layout(mode: usize) -> (r: Result<ModeLayout, DecodeError>)
    ensures
        mode <= MAX_MODE ==> r == Ok::<ModeLayout, DecodeError>(layout_of(mode as int)),
        mode > MAX_MODE ==> r == Err::<ModeLayout, DecodeError>(
            DecodeError::UnsupportedMode { mode: Some(mode) },
        ),
        r matches Ok(layout) ==> layout.wf(),
{
    if mode > MAX_MODE {
        return Err(DecodeError::UnsupportedMode { mode: Some(mode) });
    }
    proof {
        lemma_layout_fills_block(mode as int);
    }
    Ok(
        ModeLayout {
            partition_bits: PARTITION_BITS[mode],
            subset_count: SUBSET_COUNT[mode],
            color_bits: COLOR_BITS[mode],
            alpha_bits: ALPHA_BITS[mode],
            has_parity_bit: HAS_PARITY_BIT[mode],
            parity_shared: PARITY_SHARED[mode],
            primary_index_bits: PRIMARY_INDEX_BITS[mode],
            secondary_index_bits: SECONDARY_INDEX_BITS[mode],
            has_rotation: HAS_ROTATION[mode],
            has_index_selector: HAS_INDEX_SELECTOR[mode],
        },
    )
}

/// In each of the modes 0 to 4 the fields fill the block exactly: the last
/// one ends at bit 128, whatever shape the block selects.
pub proof fn lemma_layout_fills_block(mode: int)
    requires
        0 <= mode <= MAX_MODE,
    ensures
        layout_of(mode).wf(),
        layout_of(mode).end(mode) == BLOCK_BITS,
{
    let l = layout_of(mode);
    if mode == 0 {
        assert(l.alpha_start(mode) == 5 + 3 * 6 * 4);
    } else if mode == 1 {
        assert(l.alpha_start(mode) == 8 + 3 * 4 * 6);
    } else if mode == 2 {
        assert(l.alpha_start(mode) == 9 + 3 * 6 * 5);
    } else if mode == 3 {
        assert(l.alpha_start(mode) == 10 + 3 * 4 * 7);
    } else {
        assert(l.alpha_start(mode) == 8 + 3 * 2 * 5);
        assert(l.parity_start(mode) == 38 + 2 * 6);
    }
}

} // verus!
