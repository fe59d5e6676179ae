//! The variable-length integer `x(i)` of the QUIC and MOQT RFCs.
use crate::bits::{
    bit_at, bits_of, byte_bits, exp2, lemma_bits_of_concat, lemma_bits_of_single,
    lemma_exp2_add, lemma_exp2_mono, lemma_exp2_values, lemma_to_bits, lemma_to_bits_len,
    lemma_value_bound, lemma_value_concat, lemma_value_injective, padded_bits, to_bits,
    value_of, zeros,
};
use crate::bitstore::{bit_len, lemma_bit_len, left_aligned, BitStore};
use crate::buffers::bytes_to_vec;
use crate::reader::{Reader, ReaderError};
use crate::unsigned::Unsigned;
use crate::writer::{Writer, WriterError};
use crate::VarInt;
use crate::parse::{number_from_str, prefix_radix, radix_number};
use vstd::prelude::*;
use vstd::string::StringSliceAdditionalSpecFns;
use vstd::utf8::decode_utf8;

verus! {

/// The largest number of the one byte encoding.
pub const MAX_U6: u64 = 0x3F;

/// The largest number of the two byte encoding.
pub const MAX_U14: u64 = 0x3FFF;

/// The largest number of the four byte encoding.
pub const MAX_U30: u64 = 0x3FFF_FFFF;

/// The largest number of the eight byte encoding, the largest number a
/// [Number] can hold.
pub const MAX_U62: u64 = 0x3FFF_FFFF_FFFF_FFFF;

/// The number of value bits in the encoding of `v`.
pub open spec fn varint_width(v: nat) -> nat {
    if v <= MAX_U6 {
        6
    } else if v <= MAX_U14 {
        14
    } else if v <= MAX_U30 {
        30
    } else {
        62
    }
}

/// The two leading bits in the encoding of `v`.
pub open spec fn varint_tag(v: nat) -> nat {
    if v <= MAX_U6 {
        0
    } else if v <= MAX_U14 {
        1
    } else if v <= MAX_U30 {
        2
    } else {
        3
    }
}

/// The number of value bits that follow the two leading bits `t`.
pub open spec fn tag_width(t: nat) -> nat {
    if t == 0 {
        6
    } else if t == 1 {
        14
    } else if t == 2 {
        30
    } else {
        62
    }
}

/// The encoding of `v`: two leading bits giving the size, then `v` in
/// the fewest of 6, 14, 30 or 62 bits that hold it.
pub open spec fn varint_bits(v: nat) -> Seq<bool> {
    to_bits(varint_tag(v), 2) + to_bits(v, varint_width(v))
}

/// The encoding of a number takes one, two, four or eight whole bytes.
pub proof fn lemma_varint_bits_len(v: nat)
    ensures
        varint_bits(v).len() == 2 + varint_width(v),
        varint_bits(v).len() % 8 == 0,
        8 <= varint_bits(v).len() <= 64,
{
    lemma_to_bits_len(varint_tag(v), 2);
    lemma_to_bits_len(v, varint_width(v));
}

/// The error of a [Number] operation.
#[derive(Debug, Clone, PartialEq)]
pub enum NumberError {
    /// Decoding Error
    Reader { source: ReaderError },
    /// Encoding Error
    Writer { source: WriterError },
    /// Internal Error
    BitStore { source: crate::bitstore::Error },
    /// Trying to create a VarInt with a too large value
    TooLarge { num: u128 },
    /// Failed FromStr
    String { source: crate::StringError },
}

/// An unsigned integer of at most 32 bits, which always fits into a [Number].
pub trait AtMost32: Unsigned {
    proof fn lemma_at_most_32(self)
        ensures
            self.as_nat() <= u32::MAX,
    ;
}

impl AtMost32 for u8 {
    proof fn lemma_at_most_32(self) {
    }
}

impl AtMost32 for u16 {
    proof fn lemma_at_most_32(self) {
    }
}

impl AtMost32 for u32 {
    proof fn lemma_at_most_32(self) {
    }
}

/// This is the quintessential
/// `VarInt` type of this crate. In the QUIC
/// and MOQT RFCs they are denoted by `x(i)`.
///
/// It has four possible sizes, identified
/// by the first 2 bits on the wire:
///
/// - `0b00`: next 6 bits are the number
/// - `0b01`: next 14 bits are the number
/// - `0b10`: next 30 bits are the number
/// - `0b11`: next 62 bits are the number
#[derive(Debug, PartialEq, Eq, PartialOrd, Ord)]
pub struct Number {
    data: BitStore<6, 62>,
}

impl Number {
    #[verifier::type_invariant]
    closed spec fn inv(self) -> bool {
        self.data.len() <= 62
    }

    /// The number held.
    pub closed spec fn value(&self) -> nat {
        self.data.value()
    }

    proof fn lemma_value_range(&self)
        requires
            self.data.len() <= 62,
        ensures
            self.value() <= MAX_U62,
    {
        lemma_value_bound(self.data.bits_view());
        lemma_exp2_mono(self.data.len(), 62);
        assert(exp2(62) == 0x4000_0000_0000_0000) by {
            lemma_exp2_values();
            lemma_exp2_add(8, 8);
            lemma_exp2_add(16, 16);
            lemma_exp2_add(32, 30);
            lemma_exp2_add(8, 22);
            lemma_exp2_add(16, 6);
            lemma_exp2_add(8, 8);
            let a = exp2(8);
            let b = exp2(16);
            let c = exp2(32);
            let d = exp2(30);
            let e = exp2(22);
            let f = exp2(6);
            assert(b == 0x1_0000) by (nonlinear_arith)
                requires
                    b == a * a,
                    a == 256,
            ;
            assert(c == 0x1_0000_0000) by (nonlinear_arith)
                requires
                    c == b * b,
                    b == 0x1_0000,
            ;
            assert(e == 0x40_0000) by (nonlinear_arith)
                requires
                    e == b * f,
                    b == 0x1_0000,
                    f == 64,
            ;
            assert(d == 0x4000_0000) by (nonlinear_arith)
                requires
                    d == a * e,
                    a == 256,
                    e == 0x40_0000,
            ;
            assert(exp2(62) == 0x4000_0000_0000_0000) by (nonlinear_arith)
                requires
                    exp2(62) == c * d,
                    c == 0x1_0000_0000,
                    d == 0x4000_0000,
            ;
        }
    }

    /// The number zero.
    pub fn zero() -> (r: Self)
        ensures
            r.value() == 0,
    {
        Number { data: BitStore::new() }
    }

    /// Creates a new VarInt.
    ///
    /// This function only accept `u8`, `u16`
    /// and `u32` to provide an infallible
    /// constructor method.
    pub fn new<U: AtMost32>(v: U) -> (r: Self)
        ensures
            r.value() == v.as_nat(),
    {
        let mut this = Self::zero();
        proof {
            v.lemma_at_most_32();
        }
        let _ = this.set_number(v, None);
        this
    }

    /// Tries to construct a new VarInt from any
    /// unsigned integer.
    pub fn try_new<U: Unsigned>(v: U) -> (r: Result<Self, NumberError>)
        ensures
            v.as_nat() <= MAX_U62 ==> (r matches Ok(n) && n.value() == v.as_nat()),
            v.as_nat() > MAX_U62 ==> r == Err::<Self, NumberError>(
                NumberError::TooLarge { num: v.as_nat() as u128 },
            ),
    {
        Self::new_number(v, None)
    }

    /// Constructs a VarInt holding `v`; the bit count `n` is ignored, the
    /// size follows from the value.
    pub fn new_number<U: Unsigned>(v: U, n: Option<usize>) -> (r: Result<Self, NumberError>)
        ensures
            v.as_nat() <= MAX_U62 ==> (r matches Ok(num) && num.value() == v.as_nat()),
            v.as_nat() > MAX_U62 ==> r == Err::<Self, NumberError>(
                NumberError::TooLarge { num: v.as_nat() as u128 },
            ),
    {
        let mut this = Self::zero();
        match this.set_number(v, n) {
            Ok(_) => Ok(this),
            Err(e) => Err(e),
        }
    }

    /// Returns the value of the VarInt, or zero where it does not fit into `U`.
    ///
    /// Tip: using `number::<u64>()` will
    /// ensure to always get the full value.
    pub fn number<U: Unsigned>(&self) -> (r: U)
        ensures
            r.as_nat() == if self.value() <= U::max_nat() {
                self.value()
            } else {
                0
            },
            self.value() <= MAX_U62,
    {
        proof {
            use_type_invariant(self);
            self.lemma_value_range();
        }
        self.data.number()
    }

    /// Set the inner value to `v`.
    ///
    /// # Error
    ///
    /// This will return an Error when `v`
    /// is larger than a VarInt can be.
    ///
    /// Maximum: 4_611_686_018_427_387_903 (2^62-1)
    ///
    /// On success the number itself is handed back, for chaining.
    pub fn set_number<U: Unsigned>(&mut self, v: U, _n: Option<usize>) -> (r: Result<&mut Self, NumberError>)
        ensures
            v.as_nat() <= MAX_U62 ==> (r matches Ok(s) && s.value() == v.as_nat()
                && *final(self) == *final(s)),
            v.as_nat() > MAX_U62 ==> r == Err::<&mut Self, NumberError>(
                NumberError::TooLarge { num: v.as_nat() as u128 },
            ) && *final(self) == *old(self),
    {
        proof {
            use_type_invariant(&*self);
        }
        let x = v.as_u128();
        if x > MAX_U62 as u128 {
            return Err(NumberError::TooLarge { num: x });
        }
        let len: usize = if x <= MAX_U6 as u128 {
            6
        } else if x <= MAX_U14 as u128 {
            14
        } else if x <= MAX_U30 as u128 {
            30
        } else {
            62
        };
        proof {
            lemma_width_fits(x as nat, len as nat);
        }
        let mut data = BitStore::new();
        std::mem::swap(&mut data, &mut self.data);
        let r = match data.set_number(v, Some(len)) {
            Ok(_) => Ok(()),
            Err(e) => Err(e),
        };
        std::mem::swap(&mut data, &mut self.data);
        match r {
            Ok(()) => Ok(self),
            Err(e) => Err(NumberError::BitStore { source: e }),
        }
    }
}

/// A number no larger than the largest of its size needs no more bits than that size.
pub proof fn lemma_width_fits(x: nat, len: nat)
    requires
        x <= MAX_U62,
        len == varint_width(x),
    ensures
        bit_len(x) <= len,
        x < exp2(len),
{
    lemma_exp2_values();
    lemma_exp2_add(8, 6);
    lemma_exp2_add(16, 14);
    lemma_exp2_add(32, 30);
    lemma_exp2_add(8, 8);
    lemma_exp2_add(16, 16);
    assert(exp2(16) == 0x1_0000) by (nonlinear_arith)
        requires
            exp2(16) == exp2(8) * exp2(8),
            exp2(8) == 256,
    ;
    assert(exp2(14) == 0x4000) by (nonlinear_arith)
        requires
            exp2(14) == exp2(8) * exp2(6),
            exp2(8) == 256,
            exp2(6) == 64,
    ;
    assert(exp2(30) == 0x4000_0000) by (nonlinear_arith)
        requires
            exp2(30) == exp2(16) * exp2(14),
            exp2(16) == 0x1_0000,
            exp2(14) == 0x4000,
    ;
    assert(exp2(32) == 0x1_0000_0000) by (nonlinear_arith)
        requires
            exp2(32) == exp2(16) * exp2(16),
            exp2(16) == 0x1_0000,
    ;
    assert(exp2(62) == 0x4000_0000_0000_0000) by (nonlinear_arith)
        requires
            exp2(62) == exp2(32) * exp2(30),
            exp2(32) == 0x1_0000_0000,
            exp2(30) == 0x4000_0000,
    ;
    lemma_bit_len(x, len);
}

impl Clone for Number {
    fn clone(&self) -> (r: Self)
        ensures
            r.value() == self.value(),
    {
        proof {
            use_type_invariant(self);
        }
        Number { data: self.data.clone() }
    }
}

impl Default for Number {
    fn default() -> (r: Self)
        ensures
            r.value() == 0,
    {
        Self::zero()
    }
}

} // verus!

verus! {

/// A tag in the two leading bits, followed by `w` bits of `v`.
pub proof fn lemma_tagged_bits(t: nat, v: nat, w: nat)
    requires
        t < 4,
        v < exp2(w),
    ensures
        to_bits(t * exp2(w) + v, w + 2) == to_bits(t, 2) + to_bits(v, w),
        t * exp2(w) + v < exp2(w + 2),
{
    lemma_exp2_values();
    lemma_to_bits(t, 2);
    lemma_to_bits(v, w);
    lemma_value_concat(to_bits(t, 2), to_bits(v, w));
    lemma_exp2_add(w, 2);
    let e = exp2(w);
    assert(t * e + v < e * 4) by (nonlinear_arith)
        requires
            t < 4,
            v < e,
    ;
    assert(e * exp2(2) == e * 4);
    lemma_to_bits(t * e + v, w + 2);
    lemma_value_injective(to_bits(t * e + v, w + 2), to_bits(t, 2) + to_bits(v, w));
}

/// The bytes of the encoding of `value`.
fn encoding(value: u64) -> (buf: Vec<u8>)
    requires
        value <= MAX_U62,
    ensures
        bits_of(buf@) == varint_bits(value as nat),
        8 * buf@.len() == varint_bits(value as nat).len(),
{
    proof {
        lemma_width_fits(value as nat, varint_width(value as nat));
        lemma_exp2_values();
        lemma_exp2_add(8, 6);
        lemma_exp2_add(16, 14);
        lemma_exp2_add(32, 30);
        lemma_tagged_bits(varint_tag(value as nat), value as nat, varint_width(value as nat));
    }
    let buf = if value <= MAX_U6 {
        proof {
            assert(0 * exp2(6) + value == value) by (nonlinear_arith);
        }
        left_aligned(value as u128, 8)
    } else if value <= MAX_U14 {
        proof {
            assert(1 * exp2(14) == 0x4000) by (nonlinear_arith)
                requires
                    exp2(14) == exp2(8) * exp2(6),
                    exp2(8) == 256,
                    exp2(6) == 64,
            ;
        }
        left_aligned((0x4000u64 + value) as u128, 16)
    } else if value <= MAX_U30 {
        proof {
            lemma_exp2_add(8, 8);
            assert(exp2(16) == 0x1_0000) by (nonlinear_arith)
                requires
                    exp2(16) == exp2(8) * exp2(8),
                    exp2(8) == 256,
            ;
            assert(2 * exp2(30) == 0x8000_0000) by (nonlinear_arith)
                requires
                    exp2(30) == exp2(16) * exp2(14),
                    exp2(16) == 0x1_0000,
                    exp2(14) == exp2(8) * exp2(6),
                    exp2(8) == 256,
                    exp2(6) == 64,
            ;
        }
        left_aligned((0x8000_0000u64 + value) as u128, 32)
    } else {
        proof {
            lemma_exp2_add(8, 8);
            lemma_exp2_add(16, 16);
            assert(3 * exp2(62) == 0xC000_0000_0000_0000) by (nonlinear_arith)
                requires
                    exp2(62) == exp2(32) * exp2(30),
                    exp2(32) == exp2(16) * exp2(16),
                    exp2(30) == exp2(16) * exp2(14),
                    exp2(16) == exp2(8) * exp2(8),
                    exp2(14) == exp2(8) * exp2(6),
                    exp2(8) == 256,
                    exp2(6) == 64,
            ;
        }
        left_aligned((0xC000_0000_0000_0000u64 + value) as u128, 64)
    };
    proof {
        let w = varint_width(value as nat);
        assert(bits_of(buf@) == varint_bits(value as nat) + zeros(0));
        assert(varint_bits(value as nat) + zeros(0) =~= varint_bits(value as nat));
        lemma_to_bits_len(varint_tag(value as nat), 2);
        lemma_to_bits_len(value as nat, w);
    }
    buf
}

/// The bits of the two leading bits of a byte, read as a number.
proof fn lemma_size_bits(x: u8)
    ensures
        ((x & 0xC0u8) >> 6u8) as nat == value_of(byte_bits(x).take(2)),
        byte_bits(x & 0x3Fu8) == seq![false, false] + byte_bits(x).skip(2),
{
    let t = byte_bits(x).take(2);
    assert(t.drop_last() =~= seq![bit_at(x, 0)]);
    assert(t.drop_last().drop_last() =~= Seq::<bool>::empty());
    assert(value_of(t.drop_last().drop_last()) == 0);
    assert(value_of(t.drop_last()) == if bit_at(x, 0) { 1nat } else { 0nat });
    assert(t.last() == bit_at(x, 1));
    assert(value_of(t) == 2 * value_of(t.drop_last()) + if bit_at(x, 1) { 1nat } else { 0nat });
    assert(((x & 0xC0u8) >> 6u8) as int == (if bit_at(x, 0) {
        2int
    } else {
        0
    }) + (if bit_at(x, 1) {
        1int
    } else {
        0
    })) by (bit_vector);
    assert forall|i: int| 0 <= i < 8 implies byte_bits(x & 0x3Fu8)[i] == (seq![false, false]
        + byte_bits(x).skip(2))[i] by {
        let j = i as u8;
        assert(bit_at(x & 0x3Fu8, j) == (j >= 2 && bit_at(x, j))) by (bit_vector)
            requires
                j < 8,
        ;
    }
    assert(byte_bits(x & 0x3Fu8) =~= seq![false, false] + byte_bits(x).skip(2));
}

/// Shifting two bytes together by two bits.
proof fn lemma_shift_two_bits(cur: u8, next: u8, p: u8)
    requires
        p < 8,
    ensures
        (cur << 2u8) as int + (next >> 6u8) as int <= 255,
        bit_at(((cur << 2u8) + (next >> 6u8)) as u8, p) == if p < 6 {
            bit_at(cur, (p + 2) as u8)
        } else {
            bit_at(next, (p - 6) as u8)
        },
{
    assert((cur << 2u8) as int + (next >> 6u8) as int <= 255) by (bit_vector);
    assert(bit_at(((cur << 2u8) + (next >> 6u8)) as u8, p) == if p < 6 {
        bit_at(cur, (p + 2) as u8)
    } else {
        bit_at(next, (p - 6) as u8)
    }) by (bit_vector)
        requires
            p < 8,
    ;
}

/// Shifts the bits of `v` two places towards the front; zeros come in at the end.
fn shift_left_two(v: &mut Vec<u8>)
    requires
        old(v)@.len() >= 1,
    ensures
        final(v)@.len() == old(v)@.len(),
        bits_of(final(v)@) == bits_of(old(v)@).skip(2) + zeros(2),
{
    let ghost q = bits_of(old(v)@).skip(2) + zeros(2);
    let ghost o = old(v)@;
    let len = v.len();
    let mut i: usize = 0;
    while i < len
        invariant
            i <= len,
            len == o.len(),
            v@.len() == len,
            q == bits_of(o).skip(2) + zeros(2),
            forall|j: int| i <= j < len ==> v@[j] == o[j],
            forall|j: int| 0 <= j < i ==> byte_bits(#[trigger] v@[j]) == q.subrange(8 * j, 8 * j + 8),
        decreases len - i,
    {
        let cur = v[i];
        let next = if i + 1 < len {
            v[i + 1]
        } else {
            0
        };
        proof {
            lemma_shift_two_bits(cur, next, 0);
        }
        let shifted: u8 = (cur << 2) + (next >> 6);
        proof {
            assert forall|p: int| 0 <= p < 8 implies byte_bits(shifted)[p] == q.subrange(
                8 * i,
                8 * i + 8,
            )[p] by {
                lemma_shift_two_bits(cur, next, p as u8);
                let k = 8 * i + p + 2;
                if p < 6 {
                    assert(k / 8 == i && k % 8 == p + 2) by (nonlinear_arith)
                        requires
                            k == 8 * i + p + 2,
                            0 <= p < 6,
                    ;
                    assert(k < 8 * len);
                } else {
                    assert(k / 8 == i + 1 && k % 8 == p - 6) by (nonlinear_arith)
                        requires
                            k == 8 * i + p + 2,
                            6 <= p < 8,
                    ;
                    if i + 1 < len {
                        assert(k < 8 * len);
                    } else {
                        assert(!bit_at(0u8, (p - 6) as u8)) by {
                            let j = (p - 6) as u8;
                            assert(!bit_at(0u8, j)) by (bit_vector);
                        }
                    }
                }
            }
            assert(byte_bits(shifted) =~= q.subrange(8 * i, 8 * i + 8));
        }
        v.set(i, shifted);
        i = i + 1;
    }
    proof {
        assert forall|k: int| 0 <= k < 8 * len implies bits_of(v@)[k] == q[k] by {
            let j = k / 8;
            assert(0 <= j < len && 8 * j <= k < 8 * j + 8) by (nonlinear_arith)
                requires
                    0 <= k < 8 * len,
                    j == k / 8,
            ;
            assert(byte_bits(v@[j]) == q.subrange(8 * j, 8 * j + 8));
            assert(k % 8 == k - 8 * j);
            assert(bits_of(v@)[k] == bit_at(v@[k / 8], (k % 8) as u8));
            assert(byte_bits(v@[j])[k - 8 * j] == bit_at(v@[j], (k - 8 * j) as u8));
            assert(q.subrange(8 * j, 8 * j + 8)[k - 8 * j] == q[k]);
        }
        assert(bits_of(v@) =~= q);
    }
}

} // verus!

verus! {

/// Whether `u` starts with a whole encoded number on a byte boundary.
pub open spec fn decodable(u: Seq<bool>) -> bool {
    &&& u.len() % 8 == 0
    &&& u.len() >= 8
    &&& u.len() >= 2 + tag_width(value_of(u.take(2)))
}

/// The reader error that ends a read of a number at the front of `u` where
/// none is there whole: the first byte is missing, or the bytes its tag
/// asks for after it.
pub open spec fn number_read_error<R: Reader>(u: Seq<bool>) -> ReaderError {
    if u.len() % 8 == 0 && u.len() >= 8 {
        R::read_bytes_error(u.skip(8), ((tag_width(value_of(u.take(2))) + 2) / 8 - 1) as usize)
    } else {
        R::read_bytes_error(u, 1)
    }
}

impl VarInt for Number {
    type Error = NumberError;

    open spec fn measurable(&self) -> bool {
        true
    }

    open spec fn encodable(&self, length: Option<usize>) -> bool {
        true
    }

    fn decode<R: Reader>(reader: &mut R, _length: Option<usize>) -> (r: Result<(Self, usize), NumberError>)
        ensures
            ({
                let u = old(reader).unread();
                let w = tag_width(value_of(u.take(2)));
                &&& r is Ok <==> decodable(u)
                &&& r matches Ok((n, bits)) ==> {
                    &&& bits == w + 2
                    &&& n.value() == value_of(u.subrange(2, bits as int))
                    &&& final(reader).unread() == u.skip(bits as int)
                }
                &&& r matches Err(e) ==> e == NumberError::Reader {
                    source: number_read_error::<R>(u),
                }
            }),
    {
        let ghost u = reader.unread();
        // first byte contains the size and (part
        // of) the number
        let first = match reader.read_bytes(1) {
            Ok(b) => b,
            Err(e) => return Err(NumberError::Reader { source: e }),
        };
        let fv = bytes_to_vec(&first);
        proof {
            assert(bits_of(fv@).len() == 8 * fv@.len());
            assert(fv@.len() == 1);
            assert(fv@ =~= seq![fv@[0]]);
            lemma_bits_of_single(fv@[0]);
        }
        let byte0 = fv[0];
        // first two bits denote how many bits are
        // part of the number
        let size = (byte0 & 0b1100_0000) >> 6;
        // start of the number
        let byte = byte0 & 0b0011_1111;
        proof {
            lemma_size_bits(byte0);
            assert(byte_bits(byte0).take(2) =~= u.take(2));
            assert(size <= 3) by (bit_vector)
                requires
                    size == (byte0 & 0b1100_0000) >> 6,
            ;
        }
        let mut vec: Vec<u8> = Vec::new();
        vec.push(byte);
        let ghost u1 = reader.unread();
        let extra: usize = if size == 0 {
            0
        } else if size == 1 {
            1
        } else if size == 2 {
            3
        } else {
            7
        };
        let bits: usize = if size == 0 {
            6
        } else if size == 1 {
            14
        } else if size == 2 {
            30
        } else {
            62
        };
        if extra > 0 {
            let ext = match reader.read_bytes(extra) {
                Ok(b) => b,
                Err(e) => return Err(NumberError::Reader { source: e }),
            };
            let mut ev = bytes_to_vec(&ext);
            proof {
                assert(bits_of(ev@).len() == 8 * ev@.len());
            }
            let ghost v0 = vec@;
            let ghost e0 = ev@;
            vec.append(&mut ev);
            proof {
                assert(vec@ =~= v0 + e0);
                assert(vec@.skip(1) =~= e0);
            }
        } else {
            proof {
                assert(u1.skip(0) =~= u1);
                assert(vec@.skip(1) =~= Seq::<u8>::empty());
                crate::bits::lemma_bits_of_empty();
            }
        }
        let ghost pre_shift = vec@;
        proof {
            assert(pre_shift =~= seq![byte] + pre_shift.skip(1));
            lemma_bits_of_concat(seq![byte], pre_shift.skip(1));
            lemma_bits_of_single(byte);
            assert(bits_of(pre_shift) =~= seq![false, false] + u.subrange(2, bits + 2));
        }
        shift_left_two(&mut vec);
        let mut store: BitStore<6, 62> = BitStore::new();
        let _ = store.set_bits(&vec, bits);
        proof {
            assert(bits_of(vec@) =~= u.subrange(2, bits + 2) + zeros(2));
            crate::bits::lemma_padded_prefix(vec@, bits as nat);
            assert(bits_of(vec@).take(bits as int) =~= u.subrange(2, bits + 2));
            assert(padded_bits(vec@, bits as nat) =~= u.subrange(2, bits + 2));
            assert(u1.skip(8 * extra) =~= u.skip(bits + 2));
        }
        Ok((Number { data: store }, bits + 2))
    }

    fn encode<W: Writer>(&self, writer: &mut W, _length: Option<usize>) -> (r: Result<usize, NumberError>)
        ensures
            r is Ok <==> old(writer).written().len() % 8 == 0,
            r matches Ok(n) ==> n == varint_bits(self.value()).len() && final(writer).written()
                == old(writer).written() + varint_bits(self.value()),
            r matches Err(e) ==> e == (NumberError::Writer {
                source: W::write_bytes_error(old(writer).written()),
            }) && final(writer).written() == old(writer).written(),
    {
        let value = self.number::<u64>();
        let buf = encoding(value);
        proof {
            lemma_to_bits_len(varint_tag(value as nat), 2);
            lemma_to_bits_len(value as nat, varint_width(value as nat));
        }
        match writer.write_bytes(buf.as_slice()) {
            Ok(_) => Ok(buf.len() * 8),
            Err(e) => Err(NumberError::Writer { source: e }),
        }
    }

    /// Returns the number of bits required to represent
    /// the data as VarInt.
    ///
    /// This function is **Infallible**!
    fn len_bits(&self) -> (r: Result<usize, NumberError>)
        ensures
            r matches Ok(n) && n == varint_bits(self.value()).len(),
    {
        let value = self.number::<u64>();
        proof {
            lemma_to_bits_len(varint_tag(value as nat), 2);
            lemma_to_bits_len(value as nat, varint_width(value as nat));
        }
        Ok(if value <= MAX_U6 {
            8
        } else if value <= MAX_U14 {
            16
        } else if value <= MAX_U30 {
            32
        } else {
            64
        })
    }

    fn length_required() -> (r: bool)
        ensures
            !r,
    {
        // length is provided by the two MSB bits of the first byte
        false
    }
}

impl std::str::FromStr for Number {
    type Err = NumberError;

    /// Reads a number as [number_from_str](crate::parse::number_from_str)
    /// reads a `u64`.
    fn from_str(s: &str) -> (r: Result<Self, NumberError>)
        ensures
            ({
                let b = s.spec_bytes();
                let (src, radix) = prefix_radix(b);
                if b.len() > 0 && b[0] == 45 {
                    r == Err::<Self, NumberError>(
                        NumberError::String { source: crate::StringError::IsNegative },
                    )
                } else {
                    let fails = r matches Err(NumberError::String { source }) && source
                        matches crate::StringError::NumberError { input, source: e } && input@
                        == s@ && e == crate::parse::u64_parse_error(decode_utf8(src), radix as u32);
                    match radix_number(src, radix, false) {
                        Some(v) => if v <= MAX_U62 {
                            r matches Ok(n) && n.value() == v
                        } else if v <= u64::MAX {
                            r == Err::<Self, NumberError>(NumberError::TooLarge { num: v as u128 })
                        } else {
                            fails
                        },
                        None => fails,
                    }
                }
            }),
    {
        let num: u64 = match number_from_str(s) {
            Ok(n) => n,
            Err(e) => return Err(NumberError::String { source: e }),
        };
        Self::new_number(num, None)
    }
}

} // verus!
