use crate::bits::{
    bytes_to_bits, first_set_bit, lemma_mode_round_trip, BitCursor, BLOCK_BITS, BLOCK_BYTES,
};
use crate::color::{RGB, RGBA};
use crate::error::DecodeError;
use crate::fields::{
    first_overrun, lemma_fields_texels, read_fields, texel_color, texel_rgba, SINGLE_ANCHORS,
};
use crate::index::{index_offset, index_width, lemma_stream_length};
use crate::layout::{layout_of, lemma_layout_fills_block, mode_layout, ModeLayout, MAX_MODE};
use crate::partition::{anchors_of, is_anchor, lemma_anchors_distinct, SHAPES, TEXELS};
use vstd::prelude::*;

verus! {

/// The 16 texels of a decoded block in raster order: texel `4 * y + x` is
/// the one in row `y` and column `x`.
#[derive(Debug, Clone, Copy, PartialEq, Eq)]
pub enum DecodedBlock {
    /// The texels of a mode without alpha.
    Rgb([RGB; 16]),
    /// The texels of a mode with alpha.
    Rgba([RGBA; 16]),
}

/// The texels of a decoded block as sequences.
pub enum Texels {
    /// The texels of a mode without alpha.
    Rgb(Seq<RGB>),
    /// The texels of a mode with alpha.
    Rgba(Seq<RGBA>),
}

impl View for DecodedBlock {
    type V = Texels;

    open spec fn view(&self) -> Texels {
        match *self {
            DecodedBlock::Rgb(texels) => Texels::Rgb(texels@),
            DecodedBlock::Rgba(texels) => Texels::Rgba(texels@),
        }
    }
}

/// The outcome of a decoding, its texels as sequences.
pub open spec fn outcome(r: Result<DecodedBlock, DecodeError>) -> Result<Texels, DecodeError> {
    match r {
        Ok(block) => Ok(block@),
        Err(e) => Err(e),
    }
}

/// The outcome of a decoding without alpha, its texels as a sequence.
pub open spec fn rgb_outcome(r: Result<[RGB; 16], DecodeError>) -> Result<Texels, DecodeError> {
    match r {
        Ok(texels) => Ok(Texels::Rgb(texels@)),
        Err(e) => Err(e),
    }
}

/// The outcome of a decoding with alpha, its texels as a sequence.
pub open spec fn rgba_outcome(r: Result<[RGBA; 16], DecodeError>) -> Result<Texels, DecodeError> {
    match r {
        Ok(texels) => Ok(Texels::Rgba(texels@)),
        Err(e) => Err(e),
    }
}

/// The colours of the 16 texels of a block.
pub open spec fn rgb_texels(bits: Seq<bool>, mode: int, layout: ModeLayout) -> Seq<RGB> {
    Seq::new(TEXELS as nat, |t: int| texel_color(bits, mode, layout, t))
}

/// The 16 texels of a block whose mode has alpha.
pub open spec fn rgba_texels(bits: Seq<bool>, mode: int, layout: ModeLayout) -> Seq<RGBA> {
    Seq::new(TEXELS as nat, |t: int| texel_rgba(bits, mode, layout, t))
}

/// What the fields of a block of mode `mode` decode to under `layout`: its
/// texels, with alpha where the layout has alpha, unless the last field
/// would end past the block.
pub open spec fn decode_fields(bits: Seq<bool>, mode: int, layout: ModeLayout) -> Result<
    Texels,
    DecodeError,
> {
    if layout.end(mode) > BLOCK_BITS {
        Err(DecodeError::FieldOverrun { field: first_overrun(bits, mode, layout) })
    } else if layout.has_alpha() {
        Ok(Texels::Rgba(rgba_texels(bits, mode, layout)))
    } else {
        Ok(Texels::Rgb(rgb_texels(bits, mode, layout)))
    }
}

/// Decodes the fields of a block of mode `mode` under `layout`, from the bit
/// after the mode bits on. On success the cursor stands where the last field
/// ends.
pub fn decode_at(cursor: &mut BitCursor, mode: usize, layout: &ModeLayout) -> (r: Result<
    DecodedBlock,
    DecodeError,
>)
    requires
        old(cursor).wf(),
        layout.wf(),
    ensures
        final(cursor).wf(),
        final(cursor)@ == old(cursor)@,
        outcome(r) == decode_fields(old(cursor)@, mode as int, *layout),
        r is Ok ==> final(cursor).position() == layout.end(mode as int),
        r is Err ==> final(cursor).position() == old(cursor).position(),
{
    let ghost bits = cursor@;
    let fields = read_fields(cursor, mode, layout)?;
    proof {
        lemma_fields_texels(fields, bits, mode as int, *layout);
    }
    if layout.alpha_bits > 0 {
        let texels = fields.alpha_texels();
        assert(texels@ =~= rgba_texels(bits, mode as int, *layout));
        Ok(DecodedBlock::Rgba(texels))
    } else {
        let texels = fields.color_texels();
        assert(texels@ =~= rgb_texels(bits, mode as int, *layout));
        Ok(DecodedBlock::Rgb(texels))
    }
}

/// The mode of a block as far as it can be decoded: the position of its
/// first set bit, refused when no bit is set or the mode is above 4, and
/// then when the caller expected another mode.
pub open spec fn block_mode(bits: Seq<bool>, expected: Option<usize>) -> Result<
    usize,
    DecodeError,
> {
    match first_set_bit(bits) {
        None => Err(DecodeError::UnsupportedMode { mode: None }),
        Some(found) => if found > MAX_MODE {
            Err(DecodeError::UnsupportedMode { mode: Some(found as usize) })
        } else if expected is Some && expected->0 != found {
            Err(DecodeError::ModeMismatch { expected: expected->0, found: found as usize })
        } else {
            Ok(found as usize)
        },
    }
}

/// Finds the mode of a block and holds it against the mode that the caller
/// expected, if any.
pub fn read_mode(cursor: &BitCursor, expected_mode: Option<usize>) -> (r: Result<
    usize,
    DecodeError,
>)
    requires
        cursor.wf(),
    ensures
        r == block_mode(cursor@, expected_mode),
        r matches Ok(mode) ==> mode <= MAX_MODE,
{
    let found = match cursor.first_set() {
        Some(found) => found,
        None => {
            return Err(DecodeError::UnsupportedMode { mode: None });
        },
    };
    if found > MAX_MODE {
        return Err(DecodeError::UnsupportedMode { mode: Some(found) });
    }
    match expected_mode {
        Some(expected) => {
            if expected != found {
                return Err(DecodeError::ModeMismatch { expected, found });
            }
        },
        None => {},
    }
    Ok(found)
}

/// What a block decodes to. An input that is not 16 bytes long is refused
/// before anything else is looked at; then the mode is found and checked;
/// then the fields are decoded under the layout of the mode.
pub open spec fn decode_spec(bytes: Seq<u8>, expected: Option<usize>) -> Result<
    Texels,
    DecodeError,
> {
    if bytes.len() != BLOCK_BYTES {
        Err(DecodeError::InvalidLength { len: bytes.len() as usize })
    } else {
        match block_mode(bytes_to_bits(bytes), expected) {
            Err(e) => Err(e),
            Ok(mode) => decode_fields(bytes_to_bits(bytes), mode as int, layout_of(mode as int)),
        }
    }
}

/// Decodes one block of 16 bytes. `expected_mode`, where given, is the mode
/// that the caller found for this block beforehand.
pub fn decode_block(block: &[u8], expected_mode: Option<usize>) -> (r: Result<
    DecodedBlock,
    DecodeError,
>)
    ensures
        outcome(r) == decode_spec(block@, expected_mode),
        block@.len() != BLOCK_BYTES ==> r == Err::<DecodedBlock, DecodeError>(
            DecodeError::InvalidLength { len: block.len() },
        ),
        !(r matches Err(DecodeError::FieldOverrun { .. })),
{
    let mut cursor = BitCursor::new(block)?;
    let mode = read_mode(&cursor, expected_mode)?;
    let layout = mode_layout(mode)?;
    proof {
        lemma_layout_fills_block(mode as int);
    }
    decode_at(&mut cursor, mode, &layout)
}

/// Decodes a block that the caller expects to be of a mode without alpha.
fn decode_color_mode(block: &[u8], mode: usize) -> (r: Result<[RGB; 16], DecodeError>)
    requires
        mode <= MAX_MODE,
        !layout_of(mode as int).has_alpha(),
    ensures
        rgb_outcome(r) == decode_spec(block@, Some(mode)),
{
    let mut cursor = BitCursor::new(block)?;
    let found = read_mode(&cursor, Some(mode))?;
    let layout = mode_layout(found)?;
    let ghost bits = cursor@;
    proof {
        lemma_layout_fills_block(found as int);
    }
    let fields = read_fields(&mut cursor, found, &layout)?;
    proof {
        lemma_fields_texels(fields, bits, found as int, layout);
    }
    let texels = fields.color_texels();
    assert(texels@ =~= rgb_texels(bits, found as int, layout));
    Ok(texels)
}

/// Decodes a block that the caller expects to be of a mode with alpha.
fn decode_alpha_mode(block: &[u8], mode: usize) -> (r: Result<[RGBA; 16], DecodeError>)
    requires
        mode <= MAX_MODE,
        layout_of(mode as int).has_alpha(),
    ensures
        rgba_outcome(r) == decode_spec(block@, Some(mode)),
{
    let mut cursor = BitCursor::new(block)?;
    let found = read_mode(&cursor, Some(mode))?;
    let layout = mode_layout(found)?;
    let ghost bits = cursor@;
    proof {
        lemma_layout_fills_block(found as int);
    }
    let fields = read_fields(&mut cursor, found, &layout)?;
    proof {
        lemma_fields_texels(fields, bits, found as int, layout);
    }
    let texels = fields.alpha_texels();
    assert(texels@ =~= rgba_texels(bits, found as int, layout));
    Ok(texels)
}

/// Decodes a block of mode 0: three subsets, four-bit colours with a parity
/// bit for each endpoint, three-bit indices.
pub fn decode_block_mode_0(block: &[u8]) -> (r: Result<[RGB; 16], DecodeError>)
    ensures
        rgb_outcome(r) == decode_spec(block@, Some(0usize)),
{
    decode_color_mode(block, 0)
}

/// Decodes a block of mode 1: two subsets, six-bit colours with a parity bit
/// for each subset, three-bit indices.
pub fn decode_block_mode_1(block: &[u8]) -> (r: Result<[RGB; 16], DecodeError>)
    ensures
        rgb_outcome(r) == decode_spec(block@, Some(1usize)),
{
    decode_color_mode(block, 1)
}

/// Decodes a block of mode 2: three subsets, five-bit colours without parity
/// bits, two-bit indices.
pub fn decode_block_mode_2(block: &[u8]) -> (r: Result<[RGB; 16], DecodeError>)
    ensures
        rgb_outcome(r) == decode_spec(block@, Some(2usize)),
{
    decode_color_mode(block, 2)
}

/// Decodes a block of mode 3: two subsets, seven-bit colours with a parity
/// bit for each endpoint, two-bit indices.
pub fn decode_block_mode_3(block: &[u8]) -> (r: Result<[RGB; 16], DecodeError>)
    ensures
        rgb_outcome(r) == decode_spec(block@, Some(3usize)),
{
    decode_color_mode(block, 3)
}

/// Decodes a block of mode 4: one subset, five-bit colours and six-bit
/// alphas, a rotation, and two index streams whose widths the index selector
/// may swap.
pub fn decode_block_mode_4(block: &[u8]) -> (r: Result<[RGBA; 16], DecodeError>)
    ensures
        rgba_outcome(r) == decode_spec(block@, Some(4usize)),
{
    decode_alpha_mode(block, 4)
}

/// Decodes a run of blocks, each on its own: the outcome at a position is
/// what the block at that position decodes to, whatever the others hold.
pub fn decode_blocks(blocks: &[&[u8]], expected_mode: Option<usize>) -> (out: Vec<
    Result<DecodedBlock, DecodeError>,
>)
    ensures
        out@.len() == blocks@.len(),
        forall|i: int|
            0 <= i < blocks@.len() ==> outcome(#[trigger] out@[i]) == decode_spec(
                blocks@[i]@,
                expected_mode,
            ),
{
    let mut out: Vec<Result<DecodedBlock, DecodeError>> = Vec::new();
    let mut i: usize = 0;
    while i < blocks.len()
        invariant
            i <= blocks@.len(),
            out@.len() == i,
            forall|j: int|
                0 <= j < i ==> outcome(#[trigger] out@[j]) == decode_spec(
                    blocks@[j]@,
                    expected_mode,
                ),
        decreases blocks@.len() - i,
    {
        out.push(decode_block(blocks[i], expected_mode));
        i += 1;
    }
    out
}

/// Decoding is a function of the block and the expected mode: two results
/// for the same input are the same result.
pub proof fn lemma_decode_deterministic(
    block: Seq<u8>,
    expected: Option<usize>,
    first: Result<DecodedBlock, DecodeError>,
    second: Result<DecodedBlock, DecodeError>,
)
    requires
        outcome(first) == decode_spec(block, expected),
        outcome(second) == decode_spec(block, expected),
    ensures
        first == second,
{
    match (first, second) {
        (Ok(DecodedBlock::Rgb(a)), Ok(DecodedBlock::Rgb(b))) => {
            assert(a@ == b@);
            assert(a =~= b);
        },
        (Ok(DecodedBlock::Rgba(a)), Ok(DecodedBlock::Rgba(b))) => {
            assert(a@ == b@);
            assert(a =~= b);
        },
        _ => {},
    }
}

/// An input of any length but 16 bytes is refused for its length, whatever
/// it holds and whatever mode was expected.
pub proof fn lemma_wrong_length_refused(block: Seq<u8>, expected: Option<usize>)
    requires
        block.len() != BLOCK_BYTES,
    ensures
        decode_spec(block, expected) == Err::<Texels, DecodeError>(
            DecodeError::InvalidLength { len: block.len() as usize },
        ),
{
}

/// A block built for a mode from 0 to 4, with that many clear bits and then
/// a set bit, is found to be of that mode, and it decodes: the fields of the
/// mode end at the last bit of the block.
pub proof fn lemma_built_mode_decodes(block: Seq<u8>, mode: usize)
    requires
        block.len() == BLOCK_BYTES,
        mode <= MAX_MODE,
        bytes_to_bits(block)[mode as int],
        forall|j: int| 0 <= j < mode ==> !bytes_to_bits(block)[j],
    ensures
        block_mode(bytes_to_bits(block), None) == Ok::<usize, DecodeError>(mode),
        block_mode(bytes_to_bits(block), Some(mode)) == Ok::<usize, DecodeError>(mode),
        decode_spec(block, None) is Ok,
        decode_spec(block, None) == decode_spec(block, Some(mode)),
{
    lemma_mode_round_trip(bytes_to_bits(block), mode as int);
    lemma_layout_fills_block(mode as int);
}

/// A block whose first set bit lies past bit 4, or which has no set bit, is
/// refused for its mode, whatever mode was expected.
pub proof fn lemma_unsupported_mode_refused(block: Seq<u8>, expected: Option<usize>)
    requires
        block.len() == BLOCK_BYTES,
        first_set_bit(bytes_to_bits(block)) matches Some(found) ==> found > MAX_MODE,
    ensures
        decode_spec(block, expected) == Err::<Texels, DecodeError>(
            DecodeError::UnsupportedMode {
                mode: match first_set_bit(bytes_to_bits(block)) {
                    Some(found) => Some(found as usize),
                    None => None,
                },
            },
        ),
{
}

/// In the modes 0 to 4 the fields use up the block to its last bit for every
/// shape, and in an index stream of any width the anchors of the subsets,
/// and no other texels, have an index one bit narrower.
pub proof fn lemma_block_consumed(mode: int, shape: int, width: int)
    requires
        0 <= mode <= MAX_MODE,
        0 <= shape < SHAPES,
    ensures
        ({
            let layout = layout_of(mode);
            let count = layout.subset_count as int;
            let anchors = if count == 1 {
                SINGLE_ANCHORS
            } else {
                anchors_of(shape)
            };
            let first = layout.primary_index_bits as int;
            let second = layout.secondary_index_bits as int;
            &&& layout.index_start(mode) + index_offset(first, anchors, count, TEXELS as int) + (
            if layout.has_secondary() {
                index_offset(second, anchors, count, TEXELS as int)
            } else {
                0
            }) == BLOCK_BITS
            &&& index_offset(width, anchors, count, TEXELS as int) == TEXELS * width - count
            &&& forall|s: int|
                0 <= s < count ==> index_width(width, anchors, count, #[trigger] anchors[s] as int)
                    == width - 1
            &&& forall|t: int|
                0 <= t < TEXELS && !is_anchor(anchors, count, t) ==> #[trigger] index_width(
                    width,
                    anchors,
                    count,
                    t,
                ) == width
        }),
{
    let layout = layout_of(mode);
    let count = layout.subset_count as int;
    let anchors = if count == 1 {
        SINGLE_ANCHORS
    } else {
        anchors_of(shape)
    };
    lemma_anchors_distinct(shape);
    lemma_layout_fills_block(mode);
    lemma_stream_length(layout.primary_index_bits as int, anchors, count);
    lemma_stream_length(layout.secondary_index_bits as int, anchors, count);
    lemma_stream_length(width, anchors, count);
}

/// In a run of blocks of which one has a wrong length and every other one
/// decodes, the outcomes hold one error, at the place of that block, and
/// elsewhere what each block decodes to on its own.
pub proof fn lemma_batch_isolation(
    blocks: Seq<Seq<u8>>,
    expected: Option<usize>,
    outcomes: Seq<Result<Texels, DecodeError>>,
    bad: int,
)
    requires
        0 <= bad < blocks.len(),
        outcomes.len() == blocks.len(),
        forall|i: int|
            0 <= i < blocks.len() ==> #[trigger] outcomes[i] == decode_spec(blocks[i], expected),
        blocks[bad].len() != BLOCK_BYTES,
        forall|i: int|
            0 <= i < blocks.len() && i != bad ==> #[trigger] decode_spec(blocks[i], expected)
                is Ok,
    ensures
        outcomes[bad] == Err::<Texels, DecodeError>(
            DecodeError::InvalidLength { len: blocks[bad].len() as usize },
        ),
        forall|i: int| 0 <= i < outcomes.len() ==> (#[trigger] outcomes[i] is Err <==> i == bad),
{
    assert forall|i: int| 0 <= i < outcomes.len() implies (#[trigger] outcomes[i] is Err <==> i
        == bad) by {
        assert(outcomes[i] == decode_spec(blocks[i], expected));
    }
}

} // verus!
