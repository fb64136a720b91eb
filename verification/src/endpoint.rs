use crate::bits::{field_value, lemma_single_bit, BitCursor, BLOCK_BITS};
use crate::color::{AlphaInterval, RGBInterval, RGB};
use crate::error::{DecodeError, Field};
use crate::layout::ModeLayout;
use vstd::arithmetic::power2::{
    lemma2_to64, lemma_pow2_adds, lemma_pow2_pos, lemma_pow2_strictly_increases, pow2,
};
use vstd::bits::lemma_u8_shl_is_mul;
use vstd::prelude::*;

verus! {

/// The number that a parity bit adds: 1 when set, 0 when clear.
pub open spec fn parity_value(parity: bool) -> int {
    if parity {
        1
    } else {
        0
    }
}

/// An endpoint value of `bits` bits brought to eight bits. With a parity bit
/// the value is doubled and the bit becomes its lowest bit; the result is then
/// moved up until its highest bit is bit 7.
pub open spec fn expand(raw: int, parity: bool, bits: int, has_parity: bool) -> int {
    if has_parity {
        (2 * raw + parity_value(parity)) * pow2((7 - bits) as nat)
    } else {
        raw * pow2((8 - bits) as nat)
    }
}

/// An expanded endpoint value fits in eight bits.
pub proof fn lemma_expand_bound(raw: int, parity: bool, bits: int, has_parity: bool)
    requires
        0 <= bits,
        bits + parity_value(has_parity) <= 8,
        0 <= raw < pow2(bits as nat),
    ensures
        0 <= expand(raw, parity, bits, has_parity) < 256,
{
    lemma2_to64();
    if has_parity {
        let shift = (7 - bits) as nat;
        let wide = 2 * raw + parity_value(parity);
        lemma_pow2_adds(1, bits as nat);
        lemma_pow2_adds((bits + 1) as nat, shift);
        lemma_pow2_pos(shift);
        assert(wide + 1 <= pow2((bits + 1) as nat));
        assert(wide * pow2(shift) < pow2((bits + 1) as nat) * pow2(shift)) by (nonlinear_arith)
            requires
                0 <= wide,
                wide + 1 <= pow2((bits + 1) as nat),
                pow2(shift) > 0,
        ;
        assert(0 <= wide * pow2(shift)) by (nonlinear_arith)
            requires
                0 <= wide,
                pow2(shift) > 0,
        ;
    } else {
        let shift = (8 - bits) as nat;
        lemma_pow2_adds(bits as nat, shift);
        lemma_pow2_pos(shift);
        assert(raw * pow2(shift) < pow2(bits as nat) * pow2(shift)) by (nonlinear_arith)
            requires
                0 <= raw < pow2(bits as nat),
                pow2(shift) > 0,
        ;
        assert(0 <= raw * pow2(shift)) by (nonlinear_arith)
            requires
                0 <= raw,
                pow2(shift) > 0,
        ;
    }
}

/// Expansion keeps the order of two raw values. A smaller raw value stays
/// smaller whatever the parity bits are; two equal raw values are ordered by
/// their parity bits, which is the one way in which a minimum can end up
/// above its maximum.
pub proof fn lemma_expand_monotone(
    low: int,
    low_parity: bool,
    high: int,
    high_parity: bool,
    bits: int,
    has_parity: bool,
)
    requires
        0 <= bits,
        bits + parity_value(has_parity) <= 8,
        0 <= low <= high,
    ensures
        low < high ==> expand(low, low_parity, bits, has_parity) < expand(
            high,
            high_parity,
            bits,
            has_parity,
        ),
        !has_parity || parity_value(low_parity) <= parity_value(high_parity) ==> expand(
            low,
            low_parity,
            bits,
            has_parity,
        ) <= expand(high, high_parity, bits, has_parity),
        low == high && has_parity && low_parity && !high_parity ==> expand(
            low,
            low_parity,
            bits,
            has_parity,
        ) > expand(high, high_parity, bits, has_parity),
{
    if has_parity {
        let scale = pow2((7 - bits) as nat);
        lemma_pow2_pos((7 - bits) as nat);
        let a = 2 * low + parity_value(low_parity);
        let b = 2 * high + parity_value(high_parity);
        assert(a < b ==> a * scale < b * scale) by (nonlinear_arith)
            requires
                scale > 0,
        ;
        assert(a <= b ==> a * scale <= b * scale) by (nonlinear_arith)
            requires
                scale > 0,
        ;
        assert(a > b ==> a * scale > b * scale) by (nonlinear_arith)
            requires
                scale > 0,
        ;
    } else {
        let scale = pow2((8 - bits) as nat);
        lemma_pow2_pos((8 - bits) as nat);
        assert(low < high ==> low * scale < high * scale) by (nonlinear_arith)
            requires
                scale > 0,
        ;
        assert(low <= high ==> low * scale <= high * scale) by (nonlinear_arith)
            requires
                scale > 0,
        ;
    }
}

/// Brings an endpoint value of `bits` bits to eight bits.
pub fn expand_endpoint(raw: u8, parity: bool, bits: usize, has_parity: bool) -> (out: u8)
    requires
        bits + parity_value(has_parity) <= 8,
        raw < pow2(bits as nat),
    ensures
        out == expand(raw as int, parity, bits as int, has_parity),
{
    proof {
        lemma_expand_bound(raw as int, parity, bits as int, has_parity);
        lemma2_to64();
    }
    if has_parity {
        let low_bit: u8 = if parity {
            1
        } else {
            0
        };
        proof {
            lemma_pow2_adds(bits as nat, (7 - bits) as nat);
            lemma_pow2_pos((7 - bits) as nat);
            assert(raw < 128) by (nonlinear_arith)
                requires
                    raw < pow2(bits as nat),
                    pow2(bits as nat) * pow2((7 - bits) as nat) == 128,
                    pow2((7 - bits) as nat) >= 1,
            ;
        }
        let wide: u8 = (raw << 1) | low_bit;
        assert(wide == 2 * raw + low_bit) by (bit_vector)
            requires
                wide == (raw << 1) | low_bit,
                raw < 128,
                low_bit <= 1,
        ;
        let shift: u8 = (7 - bits) as u8;
        proof {
            assert(shift as nat == (7 - bits) as nat);
            lemma_u8_shl_is_mul(wide, shift);
        }
        wide << shift
    } else if bits == 0 {
        assert(raw == 0);
        assert(raw * pow2(8) == 0) by (nonlinear_arith)
            requires
                raw == 0,
        ;
        0
    } else {
        let shift: u8 = (8 - bits) as u8;
        proof {
            assert(shift as nat == (8 - bits) as nat);
            lemma_u8_shl_is_mul(raw, shift);
        }
        raw << shift
    }
}

/// The most values that one run of endpoint fields holds: three channels of
/// six endpoints.
pub const RUN_MAX: usize = 18;

/// Reads `count` values of `width` bits each, one after the other. The
/// result holds them in order and is 0 from `count` on. `field` says what
/// the values are, for the error.
pub fn read_values(
    cursor: &mut BitCursor,
    field: Field,
    count: usize,
    width: usize,
) -> (r: Result<[u8; 18], DecodeError>)
    requires
        old(cursor).wf(),
        count <= RUN_MAX,
        width <= 8,
    ensures
        final(cursor).wf(),
        final(cursor)@ == old(cursor)@,
        old(cursor).position() + count * width <= BLOCK_BITS ==> {
            &&& r matches Ok(values)
            &&& final(cursor).position() == old(cursor).position() + count * width
            &&& forall|j: int|
                0 <= j < count ==> #[trigger] values[j] == field_value(
                    old(cursor)@,
                    old(cursor).position() + j * width,
                    width as int,
                ) && values[j] < pow2(width as nat)
            &&& forall|j: int| count <= j < RUN_MAX ==> #[trigger] values[j] == 0
        },
        old(cursor).position() + count * width > BLOCK_BITS ==> {
            &&& r == Err::<[u8; 18], DecodeError>(DecodeError::FieldOverrun { field })
            &&& final(cursor).position() == old(cursor).position()
        },
{
    let ghost start = cursor.position();
    let ghost bits = cursor@;
    let origin = cursor.pos();
    let mut values = [0u8; 18];
    let mut k: usize = 0;
    while k < count
        invariant
            k <= count <= RUN_MAX,
            width <= 8,
            cursor.wf(),
            cursor@ == bits,
            bits == old(cursor)@,
            start == old(cursor).position(),
            origin == start,
            cursor.position() == start + k * width,
            forall|j: int|
                0 <= j < k ==> #[trigger] values[j] == field_value(
                    bits,
                    start + j * width,
                    width as int,
                ) && values[j] < pow2(width as nat),
            forall|j: int| k <= j < RUN_MAX ==> #[trigger] values[j] == 0,
        decreases count - k,
    {
        proof {
            assert((k + 1) * width == k * width + width) by (nonlinear_arith);
            assert((k + 1) * width <= count * width) by (nonlinear_arith)
                requires
                    k + 1 <= count,
                    0 <= width,
            ;
            lemma2_to64();
            if width < 8 {
                lemma_pow2_strictly_increases(width as nat, 8);
            }
        }
        match cursor.read(field, width) {
            Ok(v) => {
                values[k] = v as u8;
            },
            Err(e) => {
                proof {
                    assert(0 <= k * width) by (nonlinear_arith)
                        requires
                            0 <= k,
                            0 <= width,
                    ;
                }
                cursor.seek(origin);
                return Err(e);
            },
        }
        k += 1;
    }
    Ok(values)
}

/// The raw value of one colour component: the red values of all endpoints
/// come first, then the green ones, then the blue ones.
pub open spec fn raw_color(
    bits: Seq<bool>,
    mode: int,
    layout: ModeLayout,
    channel: int,
    endpoint: int,
) -> nat {
    field_value(
        bits,
        layout.color_start(mode) + (channel * layout.endpoint_count() + endpoint)
            * layout.color_bits,
        layout.color_bits as int,
    )
}

/// The raw alpha value of one endpoint.
pub open spec fn raw_alpha(bits: Seq<bool>, mode: int, layout: ModeLayout, endpoint: int) -> nat {
    field_value(
        bits,
        layout.alpha_start(mode) + endpoint * layout.alpha_bits,
        layout.alpha_bits as int,
    )
}

/// Which parity bit belongs to an endpoint: its own, or the one that it
/// shares with the other endpoint of its subset.
pub open spec fn parity_index(layout: ModeLayout, endpoint: int) -> int {
    if layout.parity_shared {
        endpoint / 2
    } else {
        endpoint
    }
}

/// The parity bit of an endpoint; clear where the mode has none.
pub open spec fn parity_bit(bits: Seq<bool>, mode: int, layout: ModeLayout, endpoint: int) -> bool {
    layout.has_parity_bit && bits[layout.parity_start(mode) + parity_index(layout, endpoint)]
}

/// One colour component of an endpoint, expanded to eight bits.
pub open spec fn color_component(
    bits: Seq<bool>,
    mode: int,
    layout: ModeLayout,
    channel: int,
    endpoint: int,
) -> int {
    expand(
        raw_color(bits, mode, layout, channel, endpoint) as int,
        parity_bit(bits, mode, layout, endpoint),
        layout.color_bits as int,
        layout.has_parity_bit,
    )
}

/// The alpha of an endpoint, expanded to eight bits as the colours are; 0
/// where the mode has no alpha.
pub open spec fn alpha_component(
    bits: Seq<bool>,
    mode: int,
    layout: ModeLayout,
    endpoint: int,
) -> int {
    if layout.has_alpha() {
        expand(
            raw_alpha(bits, mode, layout, endpoint) as int,
            parity_bit(bits, mode, layout, endpoint),
            layout.alpha_bits as int,
            layout.has_parity_bit,
        )
    } else {
        0
    }
}

/// The colour of an endpoint.
pub open spec fn endpoint_color(bits: Seq<bool>, mode: int, layout: ModeLayout, endpoint: int) -> RGB {
    RGB {
        r: color_component(bits, mode, layout, 0, endpoint) as u8,
        g: color_component(bits, mode, layout, 1, endpoint) as u8,
        b: color_component(bits, mode, layout, 2, endpoint) as u8,
    }
}

/// The colour endpoints of a subset: endpoint `2 * subset` is its minimum and
/// the next one its maximum.
pub open spec fn subset_colors(
    bits: Seq<bool>,
    mode: int,
    layout: ModeLayout,
    subset: int,
) -> RGBInterval {
    RGBInterval {
        min: endpoint_color(bits, mode, layout, 2 * subset),
        max: endpoint_color(bits, mode, layout, 2 * subset + 1),
    }
}

/// The alpha endpoints of a subset.
pub open spec fn subset_alphas(
    bits: Seq<bool>,
    mode: int,
    layout: ModeLayout,
    subset: int,
) -> AlphaInterval {
    AlphaInterval {
        min: alpha_component(bits, mode, layout, 2 * subset) as u8,
        max: alpha_component(bits, mode, layout, 2 * subset + 1) as u8,
    }
}

/// The endpoint intervals of a block, one for each subset. The entries from
/// the subset count on are not part of the block and are all zero.
#[derive(Debug, Clone, Copy, PartialEq, Eq)]
pub struct Endpoints {
    pub colors: [RGBInterval; 3],
    pub alphas: [AlphaInterval; 3],
}

impl Endpoints {
    /// The intervals are those that the bits of a block hold under a layout.
    pub open spec fn decodes(self, bits: Seq<bool>, mode: int, layout: ModeLayout) -> bool {
        forall|s: int|
            #![trigger self.colors[s]]
            #![trigger self.alphas[s]]
            0 <= s < 3 ==> if s < layout.subset_count {
                &&& self.colors[s] == subset_colors(bits, mode, layout, s)
                &&& self.alphas[s] == subset_alphas(bits, mode, layout, s)
            } else {
                &&& self.colors[s] == zero_colors()
                &&& self.alphas[s] == zero_alphas()
            }
    }
}

/// The colour interval of an unused subset.
pub open spec fn zero_colors() -> RGBInterval {
    RGBInterval { min: RGB { r: 0, g: 0, b: 0 }, max: RGB { r: 0, g: 0, b: 0 } }
}

/// The alpha interval of an unused subset.
pub open spec fn zero_alphas() -> AlphaInterval {
    AlphaInterval { min: 0, max: 0 }
}

/// The raw values read for the endpoints of a block are the ones that its
/// bits hold under a layout.
pub open spec fn raw_values_match(
    colors: [u8; 18],
    alphas: [u8; 18],
    parities: [u8; 18],
    bits: Seq<bool>,
    mode: int,
    layout: ModeLayout,
) -> bool {
    &&& forall|c: int, e: int|
        0 <= c < 3 && 0 <= e < layout.endpoint_count() ==> #[trigger] colors[c
            * layout.endpoint_count() + e] == raw_color(bits, mode, layout, c, e) && colors[c
            * layout.endpoint_count() + e] < pow2(layout.color_bits as nat)
    &&& forall|e: int|
        0 <= e < layout.endpoint_count() ==> #[trigger] alphas[e] == raw_alpha(
            bits,
            mode,
            layout,
            e,
        ) && alphas[e] < pow2(layout.alpha_bits as nat)
    &&& forall|j: int|
        0 <= j < layout.parity_count() ==> (#[trigger] parities[j] == 1) == bits[layout.parity_start(
            mode,
        ) + j]
}

/// Expands the raw values of one endpoint to its colour and its alpha.
fn build_endpoint(
    colors: &[u8; 18],
    alphas: &[u8; 18],
    parities: &[u8; 18],
    layout: &ModeLayout,
    endpoint: usize,
    Ghost(bits): Ghost<Seq<bool>>,
    Ghost(mode): Ghost<int>,
) -> (out: (RGB, u8))
    requires
        layout.wf(),
        endpoint < layout.endpoint_count(),
        raw_values_match(*colors, *alphas, *parities, bits, mode, *layout),
        0 <= layout.color_start(mode),
        layout.index_start(mode) <= BLOCK_BITS,
        bits.len() == BLOCK_BITS,
    ensures
        out.0 == endpoint_color(bits, mode, *layout, endpoint as int),
        out.1 == alpha_component(bits, mode, *layout, endpoint as int),
{
    let count = 2 * layout.subset_count;
    let slot = if layout.parity_shared {
        endpoint / 2
    } else {
        endpoint
    };
    let parity = layout.has_parity_bit && parities[slot] == 1;
    proof {
        let e = endpoint as int;
        assert(colors[0 * layout.endpoint_count() + e] == raw_color(bits, mode, *layout, 0, e));
        assert(colors[1 * layout.endpoint_count() + e] == raw_color(bits, mode, *layout, 1, e));
        assert(colors[2 * layout.endpoint_count() + e] == raw_color(bits, mode, *layout, 2, e));
        assert(alphas[e] == raw_alpha(bits, mode, *layout, e));
        if layout.has_parity_bit {
            assert((parities[slot as int] == 1) == bits[layout.parity_start(mode) + slot]);
        }
    }
    let color = RGB {
        r: expand_endpoint(colors[endpoint], parity, layout.color_bits, layout.has_parity_bit),
        g: expand_endpoint(
            colors[count + endpoint],
            parity,
            layout.color_bits,
            layout.has_parity_bit,
        ),
        b: expand_endpoint(
            colors[2 * count + endpoint],
            parity,
            layout.color_bits,
            layout.has_parity_bit,
        ),
    };
    let alpha = if layout.alpha_bits > 0 {
        expand_endpoint(alphas[endpoint], parity, layout.alpha_bits, layout.has_parity_bit)
    } else {
        0
    };
    (color, alpha)
}

/// The first of the endpoint fields that would end past the block, where
/// one of them would.
pub open spec fn endpoint_overrun(mode: int, layout: ModeLayout) -> Field {
    if layout.alpha_start(mode) > BLOCK_BITS {
        Field::Color
    } else if layout.parity_start(mode) > BLOCK_BITS {
        Field::Alpha
    } else {
        Field::Parity
    }
}

/// Reads the endpoint fields of a block, from the first colour value to the
/// last parity bit, and expands them to one interval for each subset.
pub fn read_endpoints(cursor: &mut BitCursor, mode: usize, layout: &ModeLayout) -> (r: Result<
    Endpoints,
    DecodeError,
>)
    requires
        old(cursor).wf(),
        layout.wf(),
        old(cursor).position() == layout.color_start(mode as int),
    ensures
        final(cursor).wf(),
        final(cursor)@ == old(cursor)@,
        layout.index_start(mode as int) <= BLOCK_BITS ==> {
            &&& r matches Ok(endpoints)
            &&& endpoints.decodes(old(cursor)@, mode as int, *layout)
            &&& final(cursor).position() == layout.index_start(mode as int)
        },
        layout.index_start(mode as int) > BLOCK_BITS ==> {
            &&& r == Err::<Endpoints, DecodeError>(
                DecodeError::FieldOverrun { field: endpoint_overrun(mode as int, *layout) },
            )
            &&& final(cursor).position() == old(cursor).position()
        },
{
    let ghost bits = cursor@;
    let ghost m = mode as int;
    let origin = cursor.pos();
    let count = 2 * layout.subset_count;
    let parity_count = if !layout.has_parity_bit {
        0
    } else if layout.parity_shared {
        layout.subset_count
    } else {
        count
    };
    proof {
        let ec = layout.endpoint_count();
        let cb = layout.color_bits as int;
        let ab = layout.alpha_bits as int;
        assert(0 <= (3 * ec) * cb) by (nonlinear_arith)
            requires
                0 <= ec,
                0 <= cb,
        ;
        assert(0 <= ec * ab) by (nonlinear_arith)
            requires
                0 <= ec,
                0 <= ab,
        ;
        assert(parity_count * 1 == parity_count);
    }
    let colors = read_values(cursor, Field::Color, 3 * count, layout.color_bits)?;
    let alphas = match read_values(cursor, Field::Alpha, count, layout.alpha_bits) {
        Ok(values) => values,
        Err(e) => {
            cursor.seek(origin);
            return Err(e);
        },
    };
    let parities = match read_values(cursor, Field::Parity, parity_count, 1) {
        Ok(values) => values,
        Err(e) => {
            cursor.seek(origin);
            return Err(e);
        },
    };
    proof {
        let ec = layout.endpoint_count();
        assert forall|c: int, e: int| 0 <= c < 3 && 0 <= e < ec implies #[trigger] colors[c * ec
            + e] == raw_color(bits, m, *layout, c, e) && colors[c * ec + e] < pow2(
            layout.color_bits as nat,
        ) by {
            let j = c * ec + e;
            assert(0 <= j < 3 * ec) by (nonlinear_arith)
                requires
                    j == c * ec + e,
                    0 <= c < 3,
                    0 <= e < ec,
            ;
            assert(colors[j] == field_value(
                bits,
                layout.color_start(m) + j * layout.color_bits,
                layout.color_bits as int,
            ));
        }
        assert forall|j: int| 0 <= j < layout.parity_count() implies (#[trigger] parities[j] == 1)
            == bits[layout.parity_start(m) + j] by {
            assert(parities[j] == field_value(bits, layout.parity_start(m) + j * 1, 1));
            lemma_single_bit(bits, layout.parity_start(m) + j);
        }
        assert(raw_values_match(colors, alphas, parities, bits, m, *layout));
    }
    let zero = RGB { r: 0, g: 0, b: 0 };
    let mut endpoints = Endpoints {
        colors: [RGBInterval { min: zero, max: zero };3],
        alphas: [AlphaInterval { min: 0, max: 0 };3],
    };
    let mut s: usize = 0;
    while s < layout.subset_count
        invariant
            s <= layout.subset_count <= 3,
            layout.wf(),
            bits.len() == BLOCK_BITS,
            0 <= layout.color_start(m),
            layout.index_start(m) <= BLOCK_BITS,
            raw_values_match(colors, alphas, parities, bits, m, *layout),
            forall|t: int|
                #![trigger endpoints.colors[t]]
                #![trigger endpoints.alphas[t]]
                0 <= t < 3 ==> if t < s {
                    &&& endpoints.colors[t] == subset_colors(bits, m, *layout, t)
                    &&& endpoints.alphas[t] == subset_alphas(bits, m, *layout, t)
                } else {
                    &&& endpoints.colors[t] == zero_colors()
                    &&& endpoints.alphas[t] == zero_alphas()
                },
        decreases layout.subset_count - s,
    {
        let low = build_endpoint(
            &colors,
            &alphas,
            &parities,
            layout,
            2 * s,
            Ghost(bits),
            Ghost(m),
        );
        let high = build_endpoint(
            &colors,
            &alphas,
            &parities,
            layout,
            2 * s + 1,
            Ghost(bits),
            Ghost(m),
        );
        endpoints.colors[s] = RGBInterval { min: low.0, max: high.0 };
        endpoints.alphas[s] = AlphaInterval { min: low.1, max: high.1 };
        s += 1;
    }
    Ok(endpoints)
}

} // verus!
