use crate::bits::{field_value, lemma_single_bit, BitCursor, BLOCK_BITS};
use crate::color::{RGB, RGBA};
use crate::endpoint::{
    endpoint_overrun, read_endpoints, subset_alphas, subset_colors, Endpoints,
};
use crate::error::{DecodeError, Field};
use crate::index::{index_offset, index_value, lemma_stream_length, read_indices};
use crate::layout::ModeLayout;
use crate::partition::{
    anchors_distinct, anchors_of, assignment_of, fixup_anchors, partition_assignment, SHAPES,
    TEXELS,
};
use vstd::arithmetic::power2::{lemma2_to64, lemma_pow2_strictly_increases};
use vstd::prelude::*;

verus! {


/// The anchors of a block with a single subset: texel 0 and no other.
pub const SINGLE_ANCHORS: [usize; 3] = [0, 0, 0];

/// The subsets of a block with a single subset: every texel lies in subset 0.
pub const SINGLE_SUBSET: [usize; 16] = [0, 0, 0, 0, 0, 0, 0, 0, 0, 0, 0, 0, 0, 0, 0, 0];

/// The shape that a block selects; shape 0 where the mode has no selector.
pub open spec fn shape_of(bits: Seq<bool>, mode: int, layout: ModeLayout) -> int {
    field_value(bits, layout.partition_start(mode), layout.partition_bits as int) as int
}

/// The anchors of a block: with more than one subset those of its shape,
/// of which the first `subset_count` count.
pub open spec fn block_anchors(bits: Seq<bool>, mode: int, layout: ModeLayout) -> [usize; 3] {
    if layout.subset_count == 1 {
        SINGLE_ANCHORS
    } else {
        anchors_of(shape_of(bits, mode, layout))
    }
}

/// The subset of each texel of a block.
pub open spec fn block_assignment(bits: Seq<bool>, mode: int, layout: ModeLayout) -> [usize; 16] {
    if layout.subset_count == 1 {
        SINGLE_SUBSET
    } else {
        assignment_of(shape_of(bits, mode, layout), layout.subset_count as int)
    }
}

/// The rotation of a block, 0 to 3; 0 where the mode has no rotation field.
pub open spec fn rotation_of(bits: Seq<bool>, mode: int, layout: ModeLayout) -> int {
    if layout.has_rotation {
        field_value(bits, layout.rotation_start(mode), 2) as int
    } else {
        0
    }
}

/// Whether the index selector of a block is set, which swaps the widths of
/// the colour and alpha indices.
pub open spec fn index_swap(bits: Seq<bool>, mode: int, layout: ModeLayout) -> bool {
    layout.has_index_selector && bits[layout.selector_start(mode)]
}

/// The width of the colour indices of a block, which form its first stream.
pub open spec fn color_index_bits(bits: Seq<bool>, mode: int, layout: ModeLayout) -> int {
    if index_swap(bits, mode, layout) {
        layout.secondary_index_bits as int
    } else {
        layout.primary_index_bits as int
    }
}

/// The width of the alpha indices of a block, which form its second stream.
pub open spec fn alpha_index_bits(bits: Seq<bool>, mode: int, layout: ModeLayout) -> int {
    if index_swap(bits, mode, layout) {
        layout.primary_index_bits as int
    } else {
        layout.secondary_index_bits as int
    }
}

/// The colour index of a texel.
pub open spec fn color_index(bits: Seq<bool>, mode: int, layout: ModeLayout, texel: int) -> nat {
    index_value(
        bits,
        layout.index_start(mode),
        color_index_bits(bits, mode, layout),
        block_anchors(bits, mode, layout),
        layout.subset_count as int,
        texel,
    )
}

/// Where the second index stream of a block begins: right after the first.
pub open spec fn alpha_stream_start(bits: Seq<bool>, mode: int, layout: ModeLayout) -> int {
    layout.index_start(mode) + index_offset(
        color_index_bits(bits, mode, layout),
        block_anchors(bits, mode, layout),
        layout.subset_count as int,
        TEXELS as int,
    )
}

/// The alpha index of a texel: from the second stream where the mode has
/// one, else the colour index.
pub open spec fn alpha_index(bits: Seq<bool>, mode: int, layout: ModeLayout, texel: int) -> nat {
    if layout.has_secondary() {
        index_value(
            bits,
            alpha_stream_start(bits, mode, layout),
            alpha_index_bits(bits, mode, layout),
            block_anchors(bits, mode, layout),
            layout.subset_count as int,
            texel,
        )
    } else {
        color_index(bits, mode, layout, texel)
    }
}

/// The colour of a texel: the interval of its subset sampled at its index.
pub open spec fn texel_color(bits: Seq<bool>, mode: int, layout: ModeLayout, texel: int) -> RGB {
    subset_colors(
        bits,
        mode,
        layout,
        block_assignment(bits, mode, layout)[texel] as int,
    ).lerp_spec(color_index(bits, mode, layout, texel) as u8)
}

/// The alpha of a texel: the interval of its subset sampled at its index.
pub open spec fn texel_alpha(bits: Seq<bool>, mode: int, layout: ModeLayout, texel: int) -> u8 {
    subset_alphas(
        bits,
        mode,
        layout,
        block_assignment(bits, mode, layout)[texel] as int,
    ).lerp_spec(alpha_index(bits, mode, layout, texel) as u8)
}

/// A colour and an alpha as one texel, after the rotation: 0 leaves the
/// channels in place, 1 swaps red with alpha, 2 green and 3 blue.
pub open spec fn rotated(color: RGB, alpha: u8, rotation: int) -> RGBA {
    if rotation == 1 {
        RGBA { r: alpha, g: color.g, b: color.b, a: color.r }
    } else if rotation == 2 {
        RGBA { r: color.r, g: alpha, b: color.b, a: color.g }
    } else if rotation == 3 {
        RGBA { r: color.r, g: color.g, b: alpha, a: color.b }
    } else {
        RGBA { r: color.r, g: color.g, b: color.b, a: alpha }
    }
}

/// A texel of a block whose mode has alpha.
pub open spec fn texel_rgba(bits: Seq<bool>, mode: int, layout: ModeLayout, texel: int) -> RGBA {
    rotated(
        texel_color(bits, mode, layout, texel),
        texel_alpha(bits, mode, layout, texel),
        rotation_of(bits, mode, layout),
    )
}

/// What the fields of a block hold, before interpolation.
#[derive(Debug, Clone, Copy, PartialEq, Eq)]
pub struct Fields {
    /// The endpoint intervals of the subsets.
    pub endpoints: Endpoints,
    /// The subset of each texel.
    pub assignment: [usize; 16],
    /// The colour index of each texel.
    pub color_indices: [u8; 16],
    /// The alpha index of each texel.
    pub alpha_indices: [u8; 16],
    /// The rotation, 0 to 3.
    pub rotation: u8,
}

impl Fields {
    /// The fields are those that the bits of a block hold under a layout.
    pub open spec fn decodes(self, bits: Seq<bool>, mode: int, layout: ModeLayout) -> bool {
        &&& self.endpoints.decodes(bits, mode, layout)
        &&& self.assignment == block_assignment(bits, mode, layout)
        &&& forall|t: int| 0 <= t < TEXELS ==> #[trigger] self.assignment[t] < layout.subset_count
        &&& forall|t: int|
            0 <= t < TEXELS ==> #[trigger] self.color_indices[t] == color_index(
                bits,
                mode,
                layout,
                t,
            )
        &&& forall|t: int|
            0 <= t < TEXELS ==> #[trigger] self.alpha_indices[t] == alpha_index(
                bits,
                mode,
                layout,
                t,
            )
        &&& self.rotation == rotation_of(bits, mode, layout)
    }
}

/// The first field of a block of mode `mode` that would end past the block
/// under `layout`, where one would. The first index stream is the one of
/// the colour indices, whose width the index selector decides.
pub open spec fn first_overrun(bits: Seq<bool>, mode: int, layout: ModeLayout) -> Field {
    if layout.partition_start(mode) > BLOCK_BITS {
        Field::Mode
    } else if layout.rotation_start(mode) > BLOCK_BITS {
        Field::Partition
    } else if layout.selector_start(mode) > BLOCK_BITS {
        Field::Rotation
    } else if layout.color_start(mode) > BLOCK_BITS {
        Field::IndexSelector
    } else if layout.index_start(mode) > BLOCK_BITS {
        endpoint_overrun(mode, layout)
    } else if layout.secondary_start(mode, color_index_bits(bits, mode, layout)) > BLOCK_BITS {
        Field::PrimaryIndex
    } else {
        Field::SecondaryIndex
    }
}

/// Reads every field of a block of mode `mode` under `layout`, from the bit
/// after the mode bits on. The read succeeds when the last field ends within
/// the block and then leaves the cursor at that end; a read that fails
/// leaves the cursor where it was.
pub fn read_fields(cursor: &mut BitCursor, mode: usize, layout: &ModeLayout) -> (r: Result<
    Fields,
    DecodeError,
>)
    requires
        old(cursor).wf(),
        layout.wf(),
    ensures
        final(cursor).wf(),
        final(cursor)@ == old(cursor)@,
        layout.end(mode as int) <= BLOCK_BITS ==> {
            &&& r matches Ok(fields)
            &&& fields.decodes(old(cursor)@, mode as int, *layout)
            &&& final(cursor).position() == layout.end(mode as int)
        },
        layout.end(mode as int) > BLOCK_BITS ==> {
            &&& r == Err::<Fields, DecodeError>(
                DecodeError::FieldOverrun {
                    field: first_overrun(old(cursor)@, mode as int, *layout),
                },
            )
            &&& final(cursor).position() == old(cursor).position()
        },
{
    let origin = cursor.pos();
    let r = read_fields_in_order(cursor, mode, layout);
    match r {
        Ok(_) => {},
        Err(_) => {
            cursor.seek(origin);
        },
    }
    r
}

/// Reads the fields of a block one after the other and stops at the first
/// that does not fit.
fn read_fields_in_order(cursor: &mut BitCursor, mode: usize, layout: &ModeLayout) -> (r: Result<
    Fields,
    DecodeError,
>)
    requires
        old(cursor).wf(),
        layout.wf(),
    ensures
        final(cursor).wf(),
        final(cursor)@ == old(cursor)@,
        layout.end(mode as int) <= BLOCK_BITS ==> {
            &&& r matches Ok(fields)
            &&& fields.decodes(old(cursor)@, mode as int, *layout)
            &&& final(cursor).position() == layout.end(mode as int)
        },
        layout.end(mode as int) > BLOCK_BITS ==> r == Err::<Fields, DecodeError>(
            DecodeError::FieldOverrun {
                field: first_overrun(old(cursor)@, mode as int, *layout),
            },
        ),
{
    let ghost bits = cursor@;
    let ghost m = mode as int;
    let count = layout.subset_count;
    proof {
        let ec = layout.endpoint_count();
        let cb = layout.color_bits as int;
        let ab = layout.alpha_bits as int;
        assert(0 <= 3 * ec * cb) by (nonlinear_arith)
            requires
                0 <= ec,
                0 <= cb,
        ;
        assert(0 <= ec * ab) by (nonlinear_arith)
            requires
                0 <= ec,
                0 <= ab,
        ;
        lemma2_to64();
    }
    if mode >= BLOCK_BITS {
        return Err(DecodeError::FieldOverrun { field: Field::Mode });
    }
    cursor.seek(mode + 1);
    let shape = cursor.read(Field::Partition, layout.partition_bits)? as usize;
    proof {
        if layout.partition_bits < 6 {
            lemma_pow2_strictly_increases(layout.partition_bits as nat, 6);
        }
        assert(shape == shape_of(bits, m, *layout));
        assert(shape < SHAPES);
    }
    let rotation = if layout.has_rotation {
        cursor.read(Field::Rotation, 2)? as u8
    } else {
        0
    };
    let swap = if layout.has_index_selector {
        cursor.read(Field::IndexSelector, 1)? == 1
    } else {
        false
    };
    proof {
        if layout.has_index_selector {
            lemma_single_bit(bits, layout.selector_start(m));
        }
        assert(swap == index_swap(bits, m, *layout));
    }
    let endpoints = read_endpoints(cursor, mode, layout)?;
    let anchors = if count == 1 {
        SINGLE_ANCHORS
    } else {
        fixup_anchors(shape)
    };
    let assignment = if count == 1 {
        SINGLE_SUBSET
    } else {
        partition_assignment(shape, count)
    };
    let color_bits = if swap {
        layout.secondary_index_bits
    } else {
        layout.primary_index_bits
    };
    let alpha_bits = if swap {
        layout.primary_index_bits
    } else {
        layout.secondary_index_bits
    };
    proof {
        assert(anchors == block_anchors(bits, m, *layout));
        assert(anchors_distinct(anchors, count as int));
        lemma_stream_length(color_bits as int, anchors, count as int);
        lemma_stream_length(alpha_bits as int, anchors, count as int);
    }
    let color_indices = read_indices(
        cursor,
        Field::PrimaryIndex,
        color_bits,
        &anchors,
        count,
    )?;
    let alpha_indices = if layout.secondary_index_bits > 0 {
        read_indices(cursor, Field::SecondaryIndex, alpha_bits, &anchors, count)?
    } else {
        color_indices
    };
    Ok(Fields { endpoints, assignment, color_indices, alpha_indices, rotation })
}

impl Fields {
    /// The subsets named by the assignment are among the three that have
    /// endpoints.
    pub open spec fn wf(self) -> bool {
        forall|t: int| 0 <= t < TEXELS ==> #[trigger] self.assignment[t] < 3
    }

    /// The colour of a texel: the interval of its subset sampled at its
    /// colour index.
    pub open spec fn color_at(self, texel: int) -> RGB {
        self.endpoints.colors[self.assignment[texel] as int].lerp_spec(self.color_indices[texel])
    }

    /// The alpha of a texel: the interval of its subset sampled at its alpha
    /// index.
    pub open spec fn alpha_at(self, texel: int) -> u8 {
        self.endpoints.alphas[self.assignment[texel] as int].lerp_spec(self.alpha_indices[texel])
    }

    /// Interpolates the colour of each texel.
    pub fn color_texels(&self) -> (out: [RGB; 16])
        requires
            self.wf(),
        ensures
            forall|t: int| 0 <= t < TEXELS ==> #[trigger] out[t] == self.color_at(t),
    {
        let mut out = [RGB { r: 0, g: 0, b: 0 };16];
        let mut t: usize = 0;
        while t < TEXELS
            invariant
                t <= TEXELS,
                self.wf(),
                forall|u: int| 0 <= u < t ==> #[trigger] out[u] == self.color_at(u),
            decreases TEXELS - t,
        {
            let subset = self.assignment[t];
            out[t] = self.endpoints.colors[subset].lerp(self.color_indices[t]);
            t += 1;
        }
        out
    }

    /// Interpolates the colour and the alpha of each texel and applies the
    /// rotation.
    pub fn alpha_texels(&self) -> (out: [RGBA; 16])
        requires
            self.wf(),
        ensures
            forall|t: int|
                0 <= t < TEXELS ==> #[trigger] out[t] == rotated(
                    self.color_at(t),
                    self.alpha_at(t),
                    self.rotation as int,
                ),
    {
        let mut out = [RGBA { r: 0, g: 0, b: 0, a: 0 };16];
        let mut t: usize = 0;
        while t < TEXELS
            invariant
                t <= TEXELS,
                self.wf(),
                forall|u: int|
                    0 <= u < t ==> #[trigger] out[u] == rotated(
                        self.color_at(u),
                        self.alpha_at(u),
                        self.rotation as int,
                    ),
            decreases TEXELS - t,
        {
            let subset = self.assignment[t];
            let color = self.endpoints.colors[subset].lerp(self.color_indices[t]);
            let alpha = self.endpoints.alphas[subset].lerp(self.alpha_indices[t]);
            out[t] = if self.rotation == 1 {
                RGBA { r: alpha, g: color.g, b: color.b, a: color.r }
            } else if self.rotation == 2 {
                RGBA { r: color.r, g: alpha, b: color.b, a: color.g }
            } else if self.rotation == 3 {
                RGBA { r: color.r, g: color.g, b: alpha, a: color.b }
            } else {
                RGBA { r: color.r, g: color.g, b: color.b, a: alpha }
            };
            t += 1;
        }
        out
    }
}

/// The fields read from a block give the texels that the block decodes to.
pub proof fn lemma_fields_texels(fields: Fields, bits: Seq<bool>, mode: int, layout: ModeLayout)
    requires
        fields.decodes(bits, mode, layout),
        layout.wf(),
    ensures
        fields.wf(),
        forall|t: int|
            0 <= t < TEXELS ==> #[trigger] fields.color_at(t) == texel_color(
                bits,
                mode,
                layout,
                t,
            ),
        forall|t: int|
            0 <= t < TEXELS ==> #[trigger] fields.alpha_at(t) == texel_alpha(
                bits,
                mode,
                layout,
                t,
            ),
{
    assert forall|t: int| 0 <= t < TEXELS implies #[trigger] fields.color_at(t) == texel_color(
        bits,
        mode,
        layout,
        t,
    ) && fields.alpha_at(t) == texel_alpha(bits, mode, layout, t) by {
        let s = fields.assignment[t] as int;
        assert(s < layout.subset_count);
        assert(fields.endpoints.colors[s] == subset_colors(bits, mode, layout, s));
        assert(fields.endpoints.alphas[s] == subset_alphas(bits, mode, layout, s));
        assert(fields.color_indices[t] == color_index(bits, mode, layout, t));
        assert(fields.alpha_indices[t] == alpha_index(bits, mode, layout, t));
    }
}

} // verus!
