use crate::error::{DecodeError, Field};
use bitvec::field::BitField;
use bitvec::order::Lsb0;
use bitvec::slice::BitSlice;
use bitvec::view::BitView;
use vstd::arithmetic::power2::{lemma2_to64, lemma_pow2_unfold, pow2};
use vstd::prelude::*;

verus! {

/// The number of bytes in a block.
pub const BLOCK_BYTES: usize = 16;

/// The number of bits in a block.
pub const BLOCK_BITS: usize = 128;

/// The number that a run of bits spells, the first bit being the least
/// significant one.
pub open spec fn bits_value(s: Seq<bool>) -> nat
    decreases s.len(),
{
    if s.len() == 0 {
        0
    } else {
        (if s[0] {
            1nat
        } else {
            0nat
        }) + 2 * bits_value(s.drop_first())
    }
}

/// The number held in the `width` bits of `bits` that begin at `start`.
pub open spec fn field_value(bits: Seq<bool>, start: int, width: int) -> nat {
    bits_value(bits.subrange(start, start + width))
}

/// Bit `i` of a byte, bit 0 being the least significant one.
pub open spec fn byte_bit(byte: u8, i: int) -> bool {
    (byte >> (i as u8)) & 1u8 == 1u8
}

/// The bits of a run of bytes: bit `k` is bit `k % 8` of byte `k / 8`.
pub open spec fn bytes_to_bits(bytes: Seq<u8>) -> Seq<bool> {
    Seq::new(8 * bytes.len(), |k: int| byte_bit(bytes[k / 8], k % 8))
}

/// Bit `i` is set and no bit before it is.
pub open spec fn is_first_set(bits: Seq<bool>, i: int) -> bool {
    &&& 0 <= i < bits.len()
    &&& bits[i]
    &&& forall|j: int| 0 <= j < i ==> !bits[j]
}

/// No bit is set.
pub open spec fn all_clear(bits: Seq<bool>) -> bool {
    forall|j: int| 0 <= j < bits.len() ==> !bits[j]
}

/// The position of the first set bit, if any bit is set.
pub open spec fn first_set_bit(bits: Seq<bool>) -> Option<int> {
    if exists|i: int| is_first_set(bits, i) {
        Some(choose|i: int| is_first_set(bits, i))
    } else {
        None
    }
}

/// A borrowed run of bits. It holds a `bitvec::slice::BitSlice<u8, Lsb0>`,
/// which the verifier does not look into; what is known of it is what
/// [`bits_of`] names.
#[verifier::external_body]
pub struct Bits<'a> {
    inner: &'a BitSlice<u8, Lsb0>,
}

/// The bits that a [`Bits`] holds, in index order.
pub uninterp spec fn bits_of(b: Bits) -> Seq<bool>;

/// `BitView::view_bits::<Lsb0>` on a byte slice: the bits of the bytes in
/// order, each byte from its least significant bit up. The call panics on
/// a slice too long for a bit index; the bound asked for here is far below
/// that limit on 32-bit and 64-bit machines.
#[verifier::external_body]
fn view_bits(bytes: &[u8]) -> (b: Bits<'_>)
    requires
        bytes@.len() <= 0x0100_0000,
    ensures
        bits_of(b) == bytes_to_bits(bytes@),
{
    Bits { inner: bytes.view_bits::<Lsb0>() }
}

/// `BitSlice::first_one`: the index of the first set bit, `None` when no bit
/// is set.
#[verifier::external_body]
fn first_one(b: &Bits) -> (r: Option<usize>)
    ensures
        match r {
            Some(i) => is_first_set(bits_of(*b), i as int),
            None => all_clear(bits_of(*b)),
        },
{
    b.inner.first_one()
}

/// Indexing a `BitSlice` by `start..end`: the bits from `start` up to, not
/// including, `end`. The call panics unless `start <= end <= len`.
#[verifier::external_body]
fn sub_bits<'a>(b: &Bits<'a>, start: usize, end: usize) -> (r: Bits<'a>)
    requires
        start <= end <= bits_of(*b).len(),
    ensures
        bits_of(r) == bits_of(*b).subrange(start as int, end as int),
{
    Bits { inner: &b.inner[start..end] }
}

/// `BitField::load_le::<u64>` on an `Lsb0` slice over bytes: the bits read as
/// an unsigned number whose least significant bit is the first bit of the
/// slice. The call panics on an empty slice and on one of more than 64 bits.
#[verifier::external_body]
fn load_le(b: &Bits) -> (v: u64)
    requires
        1 <= bits_of(*b).len() <= 64,
    ensures
        v == bits_value(bits_of(*b)),
{
    b.inner.load_le::<u64>()
}

/// A run of `n` bits spells a number below 2 to the power `n`.
pub proof fn lemma_bits_value_bound(s: Seq<bool>)
    ensures
        bits_value(s) < pow2(s.len()),
    decreases s.len(),
{
    if s.len() > 0 {
        lemma_bits_value_bound(s.drop_first());
        lemma_pow2_unfold(s.len());
    } else {
        lemma2_to64();
    }
}

/// One bit spells 1 when set and 0 when clear.
pub proof fn lemma_single_bit(bits: Seq<bool>, at: int)
    requires
        0 <= at < bits.len(),
    ensures
        field_value(bits, at, 1) == if bits[at] {
            1nat
        } else {
            0nat
        },
{
    let s = bits.subrange(at, at + 1);
    assert(s.drop_first().len() == 0);
    assert(bits_value(s.drop_first()) == 0);
    assert(s[0] == bits[at]);
}

/// At most one position is the first set bit.
pub proof fn lemma_first_set_unique(bits: Seq<bool>, i: int, j: int)
    requires
        is_first_set(bits, i),
        is_first_set(bits, j),
    ensures
        i == j,
{
    if i < j {
        assert(!bits[i]);
    } else if j < i {
        assert(!bits[j]);
    }
}

/// A block built with `m` clear bits and then a set bit gives `m` back as the
/// position of its first set bit, whatever the bits after it hold.
pub proof fn lemma_mode_round_trip(bits: Seq<bool>, m: int)
    requires
        0 <= m < bits.len(),
        bits[m],
        forall|j: int| 0 <= j < m ==> !bits[j],
    ensures
        first_set_bit(bits) == Some(m),
{
    assert(is_first_set(bits, m));
    let c = choose|i: int| is_first_set(bits, i);
    lemma_first_set_unique(bits, c, m);
}

/// A block without a set bit has no first set bit.
pub proof fn lemma_all_clear_no_first(bits: Seq<bool>)
    requires
        all_clear(bits),
    ensures
        first_set_bit(bits) is None,
{
    if exists|i: int| is_first_set(bits, i) {
        let c = choose|i: int| is_first_set(bits, i);
        assert(!bits[c]);
    }
}

/// A cursor over the 128 bits of one block: it reads fields one after the
/// other and refuses a read that would pass the end of the block.
pub struct BitCursor<'a> {
    bits: Bits<'a>,
    pos: usize,
}

impl<'a> BitCursor<'a> {
    /// The bits of the block.
    pub closed spec fn view(&self) -> Seq<bool> {
        bits_of(self.bits)
    }

    /// The position of the next bit to be read.
    pub closed spec fn position(&self) -> int {
        self.pos as int
    }

    /// The block has 128 bits and the position lies within it or at its end.
    pub open spec fn wf(&self) -> bool {
        &&& self@.len() == BLOCK_BITS
        &&& 0 <= self.position() <= BLOCK_BITS
    }

    /// A cursor at the first bit of a block of 16 bytes; any other length is
    /// refused.
    pub fn new(block: &'a [u8]) -> (r: Result<BitCursor<'a>, DecodeError>)
        ensures
            match r {
                Ok(c) => {
                    &&& block@.len() == BLOCK_BYTES
                    &&& c.wf()
                    &&& c@ == bytes_to_bits(block@)
                    &&& c.position() == 0
                },
                Err(e) => {
                    &&& block@.len() != BLOCK_BYTES
                    &&& e == (DecodeError::InvalidLength { len: block.len() })
                },
            },
    {
        if block.len() != BLOCK_BYTES {
            return Err(DecodeError::InvalidLength { len: block.len() });
        }
        Ok(BitCursor { bits: view_bits(block), pos: 0 })
    }

    /// The position of the next bit to be read.
    pub fn pos(&self) -> (p: usize)
        ensures
            p == self.position(),
    {
        self.pos
    }

    /// Moves the cursor to bit `pos` and says whether it did; a place past
    /// the end of the block leaves the cursor where it was.
    pub fn seek(&mut self, pos: usize) -> (moved: bool)
        requires
            old(self).wf(),
        ensures
            final(self).wf(),
            final(self)@ == old(self)@,
            moved == (pos <= BLOCK_BITS),
            moved ==> final(self).position() == pos,
            !moved ==> final(self).position() == old(self).position(),
    {
        if pos > BLOCK_BITS {
            return false;
        }
        self.pos = pos;
        true
    }

    /// The position of the first set bit of the block, `None` when no bit is
    /// set.
    pub fn first_set(&self) -> (r: Option<usize>)
        requires
            self.wf(),
        ensures
            match r {
                Some(i) => first_set_bit(self@) == Some(i as int) && i < BLOCK_BITS,
                None => first_set_bit(self@) is None && all_clear(self@),
            },
    {
        let r = first_one(&self.bits);
        proof {
            match r {
                Some(i) => {
                    lemma_mode_round_trip(self@, i as int);
                },
                None => {
                    lemma_all_clear_no_first(self@);
                },
            }
        }
        r
    }

    /// Reads the `width` bits that begin at `start`, wherever the cursor
    /// stands, as a number whose least significant bit comes first. `field`
    /// says what is being read, for the error.
    pub fn read_at(&self, field: Field, start: usize, width: usize) -> (r: Result<
        u64,
        DecodeError,
    >)
        requires
            self.wf(),
            width <= 64,
        ensures
            start + width <= BLOCK_BITS ==> r == Ok::<u64, DecodeError>(
                field_value(self@, start as int, width as int) as u64,
            ) && field_value(self@, start as int, width as int) < pow2(width as nat),
            start + width > BLOCK_BITS ==> r == Err::<u64, DecodeError>(
                DecodeError::FieldOverrun { field },
            ),
    {
        if start > BLOCK_BITS || width > BLOCK_BITS - start {
            return Err(DecodeError::FieldOverrun { field });
        }
        proof {
            lemma_bits_value_bound(self@.subrange(start as int, start + width));
        }
        if width == 0 {
            return Ok(0);
        }
        let part = sub_bits(&self.bits, start, start + width);
        Ok(load_le(&part))
    }

    /// Reads the next `width` bits and moves past them. A read that would
    /// pass the end of the block is refused and leaves the cursor where it
    /// was.
    pub fn read(&mut self, field: Field, width: usize) -> (r: Result<u64, DecodeError>)
        requires
            old(self).wf(),
            width <= 64,
        ensures
            final(self).wf(),
            final(self)@ == old(self)@,
            old(self).position() + width <= BLOCK_BITS ==> {
                &&& r == Ok::<u64, DecodeError>(
                    field_value(old(self)@, old(self).position(), width as int) as u64,
                )
                &&& field_value(old(self)@, old(self).position(), width as int) < pow2(
                    width as nat,
                )
                &&& final(self).position() == old(self).position() + width
            },
            old(self).position() + width > BLOCK_BITS ==> {
                &&& r == Err::<u64, DecodeError>(DecodeError::FieldOverrun { field })
                &&& final(self).position() == old(self).position()
            },
    {
        let r = self.read_at(field, self.pos, width);
        if r.is_ok() {
            self.pos = self.pos + width;
        }
        r
    }
}

} // verus!
