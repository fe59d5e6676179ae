//! A byte that is read or written a few bits at a time.
use crate::bits::{bit_at, byte_bits, zeros};
use vstd::prelude::*;

verus! {

/// Partial Reader and Writer
///
/// Used by the reference [Reader](crate::ReferenceReader)
/// and [Writer](crate::ReferenceWriter).
///
/// When writing, the first `index` bits of `byte` are the cached bits and
/// the others are zero. When reading, the first `index` bits have been read
/// (and cleared) and the others are still to be read.
#[derive(Debug, PartialEq, Eq, Structural)]
pub struct PartialByte {
    /// the partial byte
    pub byte: u8,
    /// the current position
    pub index: u8,
}

/// Error when Partial Byte reading fails
#[derive(Debug, Clone, PartialEq, Eq, PartialOrd, Ord)]
pub enum PartialByteError {
    /// tried to read invalid number of bits
    InvalidN { n: u8 },
    /// tried to overwrite cached bits
    OverrideForbidden,
}

impl Default for PartialByte {
    fn default() -> (r: Self)
        ensures
            r.byte == 0 && r.index == 0,
    {
        PartialByte { byte: 0, index: 0 }
    }
}

/// Whether `n` is a valid number of bits for a partial read: 1 to 7.
pub open spec fn is_valid_n(n: u8) -> bool {
    1 <= n <= 7
}

/// The mask of the `n` bits from `index` on, most significant first.
pub open spec fn read_mask(index: u8, n: u8) -> u8 {
    ((0xFFu8 >> ((8 - n) as u8)) << ((8 - (n + index)) as u8)) as u8
}

/// What reading `n` bits from `index` on of `byte` hands out: those bits,
/// moved to the most significant end.
pub open spec fn read_value(byte: u8, index: u8, n: u8) -> u8 {
    ((byte & read_mask(index, n)) << index) as u8
}

/// The partial byte after reading `n` bits of `p`: those bits cleared, and
/// the index past them.
pub open spec fn after_read(p: PartialByte, n: u8) -> PartialByte {
    PartialByte { byte: p.byte & !read_mask(p.index, n), index: ((p.index + n) % 8) as u8 }
}

/// Reading `a` bits and then `b` bits hands out what reading `a + b` bits
/// at once hands out, the second read's bits following the first's, and
/// leaves the same partial byte.
pub proof fn law_read_split(p: PartialByte, a: u8, b: u8)
    requires
        is_valid_n(a),
        is_valid_n(b),
        a + b <= 7,
        p.index + a + b <= 8,
    ensures
        read_value(p.byte, p.index, (a + b) as u8) == read_value(p.byte, p.index, a) | (read_value(
            after_read(p, a).byte,
            after_read(p, a).index,
            b,
        ) >> a),
        after_read(after_read(p, a), b) == after_read(p, (a + b) as u8),
{
    let x = p.byte;
    let i = p.index;
    assert(((x & read_mask(i, (a + b) as u8)) << i) as u8 == ((x & read_mask(i, a)) << i) as u8 | ((((x
        & !read_mask(i, a)) & read_mask((i + a) as u8, b)) << ((i + a) as u8)) as u8 >> a)) by (bit_vector)
        requires
            1 <= a <= 7,
            1 <= b <= 7,
            a + b <= 7,
            i + a + b <= 8,
    ;
    assert((x & !read_mask(i, a)) & !read_mask((i + a) as u8, b) == x & !read_mask(i, (a + b) as u8))
        by (bit_vector)
        requires
            1 <= a <= 7,
            1 <= b <= 7,
            a + b <= 7,
            i + a + b <= 8,
    ;
}

impl PartialByte {
    /// No bit is cached or pending.
    pub open spec fn on_boundary(&self) -> bool {
        self.byte == 0 && self.index == 0
    }

    /// Writing shape: the bits past `index` are zero.
    pub open spec fn write_wf(&self) -> bool {
        &&& self.index < 8
        &&& self.byte & (0xFFu8 >> self.index) == 0
    }

    /// The bits cached by a writer.
    pub open spec fn cached_bits(&self) -> Seq<bool> {
        byte_bits(self.byte).take(self.index as int)
    }

    /// Reading shape: the bits before `index` have been cleared, and a byte
    /// that has been read to its end is zero.
    pub open spec fn read_wf(&self) -> bool {
        &&& self.index < 8
        &&& byte_bits(self.byte).take(self.index as int) == zeros(self.index as nat)
        &&& self.index == 0 ==> self.byte == 0
    }

    /// The bits a reader still has to hand out from this byte.
    pub open spec fn pending_bits(&self) -> Seq<bool> {
        if self.index == 0 {
            Seq::empty()
        } else {
            byte_bits(self.byte).skip(self.index as int)
        }
    }

    /// Checks if no partial byte has been read.
    ///
    /// Signifies full bytes can be read.
    pub fn is_on_byte_boundary(&self) -> (r: bool)
        ensures
            r == self.on_boundary(),
        no_unwind
    {
        self.byte == 0 && self.index == 0
    }

    /// Initializes a [PartialByte] read and returns
    /// `n` MSB from `byte`.
    ///
    /// The bits will be aligned to the left.
    ///
    /// # Errors
    ///
    /// 1. a previous `set_read` has not ended on a byte boundary
    /// 2. `n` is not \[1; 7\]
    pub fn set_read(&mut self, byte: u8, n: u8) -> (r: Result<u8, PartialByteError>)
        ensures
            !old(self).on_boundary() ==> r == Err::<u8, PartialByteError>(
                PartialByteError::OverrideForbidden,
            ) && *final(self) == *old(self),
            old(self).on_boundary() && !is_valid_n(n) ==> r == Err::<u8, PartialByteError>(
                PartialByteError::InvalidN { n },
            ) && *final(self) == *old(self),
            old(self).on_boundary() && is_valid_n(n) ==> {
                &&& r matches Ok(b) && byte_bits(b) == byte_bits(byte).take(n as int) + zeros(
                    (8 - n) as nat,
                )
                &&& final(self).index == n
                &&& final(self).read_wf()
                &&& final(self).pending_bits() == byte_bits(byte).skip(n as int)
            },
        no_unwind
    {
        if !self.is_on_byte_boundary() {
            return Err(PartialByteError::OverrideForbidden);
        }
        if let Err(e) = valid_n(n) {
            return Err(e);
        }
        self.byte = byte;
        let r = self.read(n);
        proof {
            assert(byte_bits(byte).subrange(0, n as int) =~= byte_bits(byte).take(n as int));
            assert(byte_bits(self.byte).take(n as int) =~= zeros(n as nat));
            assert(byte_bits(self.byte).skip(n as int) =~= byte_bits(byte).skip(n as int));
        }
        r
    }

    /// Reads `n` from the cached byte.
    ///
    /// The bits will be aligned to the left.
    ///
    /// # Errors
    ///
    /// 1. `n` is not \[1; 7\]
    pub fn read(&mut self, n: u8) -> (r: Result<u8, PartialByteError>)
        requires
            is_valid_n(n) ==> old(self).index + n <= 8,
        ensures
            !is_valid_n(n) ==> r == Err::<u8, PartialByteError>(PartialByteError::InvalidN { n })
                && *final(self) == *old(self),
            is_valid_n(n) ==> {
                &&& r matches Ok(b) && byte_bits(b) == byte_bits(old(self).byte).subrange(
                    old(self).index as int,
                    old(self).index + n,
                ) + zeros((8 - n) as nat)
                &&& byte_bits(final(self).byte) == Seq::new(
                    8,
                    |i: int|
                        bit_at(old(self).byte, i as u8) && !(old(self).index <= i
                            < old(self).index + n),
                )
                &&& final(self).index == (old(self).index + n) % 8
                &&& r == Ok::<u8, PartialByteError>(read_value(old(self).byte, old(self).index, n))
                &&& *final(self) == after_read(*old(self), n)
            },
        no_unwind
    {
        if let Err(e) = valid_n(n) {
            return Err(e);
        }
        let ghost ob = self.byte;
        let ghost oi = self.index;
        // create a mask to extract the bit range of interest
        // 0xFF right shift to get the number of bits required
        // shift that back to the left to move it to the starting
        // point of the bit range
        let mask: u8 = (0xFFu8 >> (8 - n)) << (8 - (n + self.index));
        // partial byte AND mask extracts the bit range
        // left shift by index to left aligned the bit range
        let partial: u8 = (self.byte & mask) << self.index;

        // NAND the byte with mask to remove the extracted bits
        self.byte = self.byte & !mask;
        // increment index by n, MOD 8 for rollover
        self.index = (self.index + n) % 8;

        proof {
            assert(byte_bits(partial) =~= byte_bits(ob).subrange(oi as int, oi + n) + zeros(
                (8 - n) as nat,
            )) by {
                assert forall|i: int| 0 <= i < 8 implies byte_bits(partial)[i] == (
                byte_bits(ob).subrange(oi as int, oi + n) + zeros((8 - n) as nat))[i] by {
                    lemma_read_bit(ob, oi, n, i as u8);
                }
            }
            assert(byte_bits(self.byte) =~= Seq::new(
                8,
                |i: int| bit_at(ob, i as u8) && !(oi <= i < oi + n),
            )) by {
                assert forall|i: int| 0 <= i < 8 implies byte_bits(self.byte)[i] == (bit_at(
                    ob,
                    i as u8,
                ) && !(oi <= i < oi + n)) by {
                    lemma_read_bit(ob, oi, n, i as u8);
                }
            }
        }
        Ok(partial)
    }

    /// Write `n` bits of `byte`.
    ///
    /// Returns a fully written byte when
    /// a byte boundary is surpassed, otherwise
    /// returns None.
    pub fn write(&mut self, byte: u8, n: u8) -> (r: Option<u8>)
        requires
            n <= 8,
            n > 0 ==> old(self).index < 8 && old(self).byte as int + ((((byte >> ((8 - n) as u8)) << ((8 - n) as u8)) as u8)
                >> old(self).index) as int <= 255,
        ensures
            n == 0 ==> r is None && *final(self) == *old(self),
            n > 0 ==> final(self).index == (old(self).index + n) % 8 && (r is Some <==> old(
                self,
            ).index + n >= 8),
            n > 0 && old(self).write_wf() ==> {
                let c = old(self).cached_bits() + byte_bits(byte).take(n as int);
                &&& final(self).write_wf()
                &&& c.len() >= 8 ==> (r matches Some(b) && byte_bits(b) == c.take(8)
                    && final(self).cached_bits() == c.skip(8))
                &&& c.len() < 8 ==> final(self).cached_bits() == c
            },
        no_unwind
    {
        if n == 0 {
            return None;
        }
        let ghost ob = self.byte;
        let ghost oi = self.index;
        let ghost input = byte;

        // extract the first n bits
        let byte: u8 = (byte >> (8 - n)) << (8 - n);
        proof {
            assert(byte == ((byte >> ((8 - n) as u8)) << ((8 - n) as u8)) as u8) by (bit_vector)
                requires
                    byte == ((input >> ((8 - n) as u8)) << ((8 - n) as u8)) as u8,
                    1 <= n <= 8,
            ;
            assert forall|i: int| 0 <= i < n implies byte_bits(byte).take(n as int)[i]
                == byte_bits(input).take(n as int)[i] by {
                lemma_masked_bit(input, n, i as u8);
            }
            assert(byte_bits(byte).take(n as int) =~= byte_bits(input).take(n as int));
        }

        // append upper half of byte to the cached bits
        let full: u8 = self.byte + (byte >> self.index);

        // advance index
        let idx: u8 = self.index + n;
        self.index = idx % 8;

        if idx >= 8 {
            // byte boundary surpassed
            // lower half of byte becomes cached bits; a whole byte written
            // at a boundary leaves none
            let shift: u8 = n - self.index;
            self.byte = if shift >= 8 {
                0
            } else {
                byte << shift
            };
            proof {
                assert(shift == 8 - oi);
                if shift >= 8 {
                    assert(((byte << 8u8) as u8) == 0u8) by (bit_vector);
                }
                if old(self).write_wf() {
                    lemma_write_full(ob, byte, oi, n, full);
                }
            }
            // return full byte
            Some(full)
        } else {
            // no full byte written
            self.byte = full;
            proof {
                if old(self).write_wf() {
                    lemma_write_partial(ob, byte, oi, n, full);
                }
            }
            None
        }
    }

    /// Returns the amount of remaining bits
    /// that can be read from the partial
    /// byte until the next byte boundary.
    pub fn remaining(&self) -> (r: u8)
        requires
            self.on_boundary() || self.index <= 8,
        ensures
            r == if self.on_boundary() {
                0
            } else {
                8 - self.index
            },
    {
        if self.is_on_byte_boundary() {
            // partial byte is uninitialized,
            // nothing can be read
            return 0;
        }
        8 - self.index
    }
}

/// A partial byte in writing shape accepts a write of up to 8 bits.
pub proof fn lemma_write_fits(byte: u8, index: u8, x: u8, n: u8)
    requires
        index < 8,
        byte & (0xFFu8 >> index) == 0,
        1 <= n <= 8,
    ensures
        byte as int + ((((x >> ((8 - n) as u8)) << ((8 - n) as u8)) as u8) >> index) as int <= 255,
{
    assert(byte as int + ((((x >> ((8 - n) as u8)) << ((8 - n) as u8)) as u8) >> index) as int
        <= 255) by (bit_vector)
        requires
            index < 8,
            byte & (0xFFu8 >> index) == 0,
            1 <= n <= 8,
    ;
}

/// A partial byte in writing shape holds its cached bits followed by zeros.
pub proof fn lemma_write_wf_bits(byte: u8, index: u8)
    requires
        index < 8,
        byte & (0xFFu8 >> index) == 0,
    ensures
        byte_bits(byte) == byte_bits(byte).take(index as int) + zeros((8 - index) as nat),
{
    assert forall|i: int| index <= i < 8 implies !byte_bits(byte)[i] by {
        let j = i as u8;
        assert(!bit_at(byte, j)) by (bit_vector)
            requires
                index <= j < 8,
                byte & (0xFFu8 >> index) == 0,
        ;
    }
    assert(byte_bits(byte) =~= byte_bits(byte).take(index as int) + zeros((8 - index) as nat));
}

/// A byte whose bits are all zero is zero.
pub proof fn lemma_zero_byte(byte: u8)
    requires
        byte_bits(byte) == zeros(8),
    ensures
        byte == 0,
{
    assert(byte_bits(0u8) =~= zeros(8)) by {
        assert forall|i: int| 0 <= i < 8 implies !#[trigger] byte_bits(0u8)[i] by {
            let j = i as u8;
            assert(!bit_at(0u8, j)) by (bit_vector);
        }
    }
    crate::bits::lemma_byte_bits_injective(byte, 0u8);
}

/// Helper method to check if `n` is
/// between 1 and 7.
pub fn valid_n(n: u8) -> (r: Result<(), PartialByteError>)
    ensures
        r == if is_valid_n(n) {
            Ok::<(), PartialByteError>(())
        } else {
            Err(PartialByteError::InvalidN { n })
        },
    no_unwind
{
    if 1 <= n && n < 8 {
        Ok(())
    } else {
        Err(PartialByteError::InvalidN { n })
    }
}

/// The bits a partial read hands out and the bits it leaves.
proof fn lemma_read_bit(byte: u8, index: u8, n: u8, i: u8)
    requires
        1 <= n <= 7,
        index + n <= 8,
        i < 8,
    ensures
        bit_at(((byte & (((0xFFu8 >> ((8 - n) as u8)) << ((8 - (n + index)) as u8)) as u8))
            << index) as u8, i) == (i < n && bit_at(byte, (index + i) as u8)),
        bit_at(
            byte & !(((0xFFu8 >> ((8 - n) as u8)) << ((8 - (n + index)) as u8)) as u8),
            i,
        ) == (bit_at(byte, i) && !(index <= i && i < index + n)),
{
    assert(bit_at(((byte & (((0xFFu8 >> ((8 - n) as u8)) << ((8 - (n + index)) as u8)) as u8))
        << index) as u8, i) == (i < n && bit_at(byte, (index + i) as u8))) by (bit_vector)
        requires
            1 <= n <= 7,
            index + n <= 8,
            i < 8,
    ;
    assert(bit_at(byte & !(((0xFFu8 >> ((8 - n) as u8)) << ((8 - (n + index)) as u8)) as u8), i)
        == (bit_at(byte, i) && !(index <= i && i < index + n))) by (bit_vector)
        requires
            1 <= n <= 7,
            index + n <= 8,
            i < 8,
    ;
}

/// Bit-level facts of a write that completes a byte.
proof fn lemma_write_full_bits(ob: u8, b: u8, index: u8, n: u8, i: u8)
    requires
        index < 8,
        1 <= n <= 8,
        index + n >= 8,
        ob & (0xFFu8 >> index) == 0,
        b == ((b >> ((8 - n) as u8)) << ((8 - n) as u8)) as u8,
        i < 8,
    ensures
        bit_at((ob + (b >> index)) as u8, i) == if i < index {
            bit_at(ob, i)
        } else {
            bit_at(b, (i - index) as u8)
        },
        bit_at((b << ((8 - index) as u8)) as u8, i) == (i + 8 - index < n && bit_at(
            b,
            (i + 8 - index) as u8,
        )),
        ob + (b >> index) <= 255,
{
    assert(ob + (b >> index) <= 255) by (bit_vector)
        requires
            index < 8,
            ob & (0xFFu8 >> index) == 0,
    ;
    assert(bit_at((ob + (b >> index)) as u8, i) == if i < index {
        bit_at(ob, i)
    } else {
        bit_at(b, (i - index) as u8)
    }) by (bit_vector)
        requires
            index < 8,
            ob & (0xFFu8 >> index) == 0,
            i < 8,
    ;
    assert(bit_at((b << ((8 - index) as u8)) as u8, i) == (i + 8 - index < n && bit_at(
        b,
        (i + 8 - index) as u8,
    ))) by (bit_vector)
        requires
            index < 8,
            1 <= n <= 8,
            index + n >= 8,
            b == ((b >> ((8 - n) as u8)) << ((8 - n) as u8)) as u8,
            i < 8,
    ;
}

/// Bit-level facts of the masked input byte.
proof fn lemma_masked_bit(x: u8, n: u8, i: u8)
    requires
        1 <= n <= 8,
        i < 8,
    ensures
        bit_at(((x >> ((8 - n) as u8)) << ((8 - n) as u8)) as u8, i) == (i < n && bit_at(x, i)),
{
    assert(bit_at(((x >> ((8 - n) as u8)) << ((8 - n) as u8)) as u8, i) == (i < n && bit_at(x, i)))
        by (bit_vector)
        requires
            1 <= n <= 8,
            i < 8,
    ;
}

proof fn lemma_write_full(ob: u8, b: u8, index: u8, n: u8, full: u8)
    requires
        index < 8,
        1 <= n <= 8,
        index + n >= 8,
        ob & (0xFFu8 >> index) == 0,
        b == ((b >> ((8 - n) as u8)) << ((8 - n) as u8)) as u8,
        full == ob + (b >> index),
    ensures
        ({
            let c = byte_bits(ob).take(index as int) + byte_bits(b).take(n as int);
            let nb = (b << ((8 - index) as u8)) as u8;
            let ni = ((index + n) % 8) as u8;
            &&& byte_bits(full) == c.take(8)
            &&& byte_bits(nb).take(ni as int) == c.skip(8)
            &&& nb & (0xFFu8 >> ni) == 0
        }),
{
    let c = byte_bits(ob).take(index as int) + byte_bits(b).take(n as int);
    let nb = (b << ((8 - index) as u8)) as u8;
    let ni = ((index + n) % 8) as u8;
    assert forall|i: int| 0 <= i < 8 implies byte_bits(full)[i] == c.take(8)[i] by {
        lemma_write_full_bits(ob, b, index, n, i as u8);
        if i >= index {
            lemma_masked_bit(b, n, (i - index) as u8);
        }
    }
    assert(byte_bits(full) =~= c.take(8));
    assert forall|i: int| 0 <= i < ni implies byte_bits(nb).take(ni as int)[i] == c.skip(8)[i] by {
        lemma_write_full_bits(ob, b, index, n, i as u8);
    }
    assert(byte_bits(nb).take(ni as int) =~= c.skip(8));
    assert(nb & (0xFFu8 >> ni) == 0) by (bit_vector)
        requires
            index < 8,
            1 <= n <= 8,
            index + n >= 8,
            b == ((b >> ((8 - n) as u8)) << ((8 - n) as u8)) as u8,
            nb == (b << ((8 - index) as u8)) as u8,
            ni == ((index + n) % 8) as u8,
    ;
}

proof fn lemma_write_partial(ob: u8, b: u8, index: u8, n: u8, full: u8)
    requires
        index < 8,
        1 <= n <= 8,
        index + n < 8,
        ob & (0xFFu8 >> index) == 0,
        b == ((b >> ((8 - n) as u8)) << ((8 - n) as u8)) as u8,
        full == ob + (b >> index),
    ensures
        ({
            let c = byte_bits(ob).take(index as int) + byte_bits(b).take(n as int);
            let ni = (index + n) as u8;
            &&& byte_bits(full).take(ni as int) == c
            &&& full & (0xFFu8 >> ni) == 0
        }),
{
    let c = byte_bits(ob).take(index as int) + byte_bits(b).take(n as int);
    let ni = (index + n) as u8;
    assert forall|i: int| 0 <= i < ni implies byte_bits(full).take(ni as int)[i] == c[i] by {
        lemma_write_full_bits_low(ob, b, index, n, i as u8);
        if i >= index {
            lemma_masked_bit(b, n, (i - index) as u8);
        }
    }
    assert(byte_bits(full).take(ni as int) =~= c);
    assert(full & (0xFFu8 >> ni) == 0) by (bit_vector)
        requires
            index < 8,
            1 <= n <= 8,
            index + n < 8,
            ob & (0xFFu8 >> index) == 0,
            b == ((b >> ((8 - n) as u8)) << ((8 - n) as u8)) as u8,
            full == ob + (b >> index),
            ni == (index + n) as u8,
    ;
}

/// The bits of a cached byte plus a shifted input, without completing a byte.
proof fn lemma_write_full_bits_low(ob: u8, b: u8, index: u8, n: u8, i: u8)
    requires
        index < 8,
        1 <= n <= 8,
        ob & (0xFFu8 >> index) == 0,
        i < 8,
    ensures
        bit_at((ob + (b >> index)) as u8, i) == if i < index {
            bit_at(ob, i)
        } else {
            bit_at(b, (i - index) as u8)
        },
{
    assert(bit_at((ob + (b >> index)) as u8, i) == if i < index {
        bit_at(ob, i)
    } else {
        bit_at(b, (i - index) as u8)
    }) by (bit_vector)
        requires
            index < 8,
            ob & (0xFFu8 >> index) == 0,
            i < 8,
    ;
}

} // verus!
