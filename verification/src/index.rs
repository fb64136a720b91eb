use crate::bits::{field_value, BitCursor, BLOCK_BITS};
use crate::error::{DecodeError, Field};
use crate::partition::{anchors_distinct, is_anchor, TEXELS};
use vstd::arithmetic::power2::{lemma2_to64, lemma_pow2_strictly_increases};
use vstd::prelude::*;

verus! {

/// The width of the index of a texel in a stream of `width`-bit indices: an
/// anchor's index is stored without its highest bit, which is always clear.
pub open spec fn index_width(width: int, anchors: [usize; 3], subset_count: int, texel: int) -> int {
    if is_anchor(anchors, subset_count, texel) {
        width - 1
    } else {
        width
    }
}

/// Where the index of a texel begins within its stream: after the indices of
/// the texels before it, which follow each other without gaps.
pub open spec fn index_offset(
    width: int,
    anchors: [usize; 3],
    subset_count: int,
    texel: int,
) -> int
    decreases texel,
{
    if texel <= 0 {
        0
    } else {
        index_offset(width, anchors, subset_count, texel - 1) + index_width(
            width,
            anchors,
            subset_count,
            texel - 1,
        )
    }
}

/// The index of a texel in the stream that begins at bit `start`.
pub open spec fn index_value(
    bits: Seq<bool>,
    start: int,
    width: int,
    anchors: [usize; 3],
    subset_count: int,
    texel: int,
) -> nat {
    field_value(
        bits,
        start + index_offset(width, anchors, subset_count, texel),
        index_width(width, anchors, subset_count, texel),
    )
}

/// The number of anchors among the texels before `texel`.
pub open spec fn anchors_before(anchors: [usize; 3], subset_count: int, texel: int) -> int {
    (if anchors[0] < texel {
        1int
    } else {
        0int
    }) + (if subset_count >= 2 && anchors[1] < texel {
        1int
    } else {
        0int
    }) + (if subset_count >= 3 && anchors[2] < texel {
        1int
    } else {
        0int
    })
}

/// With anchors that are all different, the index of a texel begins as many
/// bits into the stream as full-width indices before it would take, less one
/// bit for each anchor before it.
pub proof fn lemma_index_offset(width: int, anchors: [usize; 3], subset_count: int, texel: int)
    requires
        anchors_distinct(anchors, subset_count),
        1 <= subset_count <= 3,
        0 <= texel,
    ensures
        index_offset(width, anchors, subset_count, texel) == texel * width - anchors_before(
            anchors,
            subset_count,
            texel,
        ),
    decreases texel,
{
    if texel > 0 {
        lemma_index_offset(width, anchors, subset_count, texel - 1);
        assert(texel * width == (texel - 1) * width + width) by (nonlinear_arith);
        assert(anchors_before(anchors, subset_count, texel) == anchors_before(
            anchors,
            subset_count,
            texel - 1,
        ) + if is_anchor(anchors, subset_count, texel - 1) {
            1int
        } else {
            0int
        });
    } else {
        assert(texel * width == 0) by (nonlinear_arith)
            requires
                texel == 0,
        ;
    }
}

/// With anchors that are all different, a stream of 16 indices is 16 widths
/// long less one bit for each subset.
pub proof fn lemma_stream_length(width: int, anchors: [usize; 3], subset_count: int)
    requires
        anchors_distinct(anchors, subset_count),
        1 <= subset_count <= 3,
    ensures
        index_offset(width, anchors, subset_count, TEXELS as int) == TEXELS * width
            - subset_count,
{
    lemma_index_offset(width, anchors, subset_count, TEXELS as int);
}

/// The offsets of a stream grow from texel to texel.
pub proof fn lemma_index_offset_monotone(
    width: int,
    anchors: [usize; 3],
    subset_count: int,
    a: int,
    b: int,
)
    requires
        1 <= width,
        0 <= a <= b,
    ensures
        0 <= index_offset(width, anchors, subset_count, a) <= index_offset(
            width,
            anchors,
            subset_count,
            b,
        ),
    decreases b,
{
    if a < b {
        lemma_index_offset_monotone(width, anchors, subset_count, a, b - 1);
    } else if a > 0 {
        lemma_index_offset_monotone(width, anchors, subset_count, a - 1, a - 1);
    }
}

/// Reads one stream of 16 indices of `width` bits, the anchors one bit
/// narrower, from where the cursor stands. `field` says which stream it is,
/// for the error.
pub fn read_indices(
    cursor: &mut BitCursor,
    field: Field,
    width: usize,
    anchors: &[usize; 3],
    subset_count: usize,
) -> (r: Result<[u8; 16], DecodeError>)
    requires
        old(cursor).wf(),
        1 <= width <= 8,
    ensures
        final(cursor).wf(),
        final(cursor)@ == old(cursor)@,
        old(cursor).position() + index_offset(
            width as int,
            *anchors,
            subset_count as int,
            TEXELS as int,
        ) <= BLOCK_BITS ==> {
            &&& r matches Ok(indices)
            &&& final(cursor).position() == old(cursor).position() + index_offset(
                width as int,
                *anchors,
                subset_count as int,
                TEXELS as int,
            )
            &&& forall|t: int|
                0 <= t < TEXELS ==> #[trigger] indices[t] == index_value(
                    old(cursor)@,
                    old(cursor).position(),
                    width as int,
                    *anchors,
                    subset_count as int,
                    t,
                )
        },
        old(cursor).position() + index_offset(
            width as int,
            *anchors,
            subset_count as int,
            TEXELS as int,
        ) > BLOCK_BITS ==> {
            &&& r == Err::<[u8; 16], DecodeError>(DecodeError::FieldOverrun { field })
            &&& final(cursor).position() == old(cursor).position()
        },
{
    let ghost bits = cursor@;
    let ghost start = cursor.position();
    let origin = cursor.pos();
    let ghost w = width as int;
    let ghost n = subset_count as int;
    let mut indices = [0u8; 16];
    let mut t: usize = 0;
    while t < TEXELS
        invariant
            t <= TEXELS,
            1 <= width <= 8,
            w == width,
            n == subset_count,
            cursor.wf(),
            cursor@ == bits,
            bits == old(cursor)@,
            start == old(cursor).position(),
            origin == start,
            cursor.position() == start + index_offset(w, *anchors, n, t as int),
            forall|u: int|
                0 <= u < t ==> #[trigger] indices[u] == index_value(bits, start, w, *anchors, n, u),
        decreases TEXELS - t,
    {
        let anchor = t == anchors[0] || (subset_count >= 2 && t == anchors[1]) || (subset_count
            >= 3 && t == anchors[2]);
        let bits_here = if anchor {
            width - 1
        } else {
            width
        };
        proof {
            assert(anchor == is_anchor(*anchors, n, t as int));
            assert(index_offset(w, *anchors, n, t + 1) == index_offset(w, *anchors, n, t as int)
                + bits_here);
            lemma_index_offset_monotone(w, *anchors, n, t + 1, TEXELS as int);
            lemma2_to64();
            if bits_here < 8 {
                lemma_pow2_strictly_increases(bits_here as nat, 8);
            }
        }
        match cursor.read(field, bits_here) {
            Ok(v) => {
                indices[t] = v as u8;
            },
            Err(e) => {
                proof {
                    lemma_index_offset_monotone(w, *anchors, n, 0, t as int);
                }
                cursor.seek(origin);
                return Err(e);
            },
        }
        t += 1;
    }
    Ok(indices)
}

} // verus!
