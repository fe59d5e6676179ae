//! Reading bits and bytes from a buffer.
use crate::bits::{
    bit_at, lemma_value_concat, lemma_zeros_value, value_of,
    bits_of, byte_bits, bytes_for, lemma_bits_of_concat, lemma_bits_of_empty, lemma_bits_of_push,
    lemma_bits_of_single, zeros,
};
use crate::buffers::{
    bytes_from_vec, bytes_mut_copy_to_bytes, bytes_mut_from_slice, bytes_mut_new,
    bytes_mut_remaining, bytes_mut_view, bytes_to_vec, bytes_view,
};
use crate::partial::{lemma_write_wf_bits, lemma_zero_byte, PartialByte, PartialByteError};
use bytes::{Bytes, BytesMut};
use vstd::prelude::*;

verus! {

/// The Reader Trait needed for the [VarInt](crate::VarInt::decode)
/// decoding method.
///
/// [Reference](crate::ReferenceReader) implementation
pub trait Reader: Sized {
    /// The bits still to be read, in order.
    spec fn unread(&self) -> Seq<bool>;

    /// The error a read of `n` bits gives where `unread` holds fewer.
    spec fn read_bits_error(unread: Seq<bool>, n: usize) -> ReaderError;

    /// The error a read of `n` bytes gives where it fails on `unread`.
    spec fn read_bytes_error(unread: Seq<bool>, n: usize) -> ReaderError;

    /// On success this should guarantee to always read `n` Bits.
    ///
    /// When reading a partial Byte, the next read operation must
    /// continue where the previous read ended.
    ///
    /// The bits are handed out as a big-endian number: right-aligned,
    /// after zeros up to a byte boundary; see [read_bits_result].
    fn read_bits(&mut self, n: usize) -> (r: Result<Bytes, ReaderError>)
        ensures
            r is Ok <==> n <= old(self).unread().len(),
            r matches Ok(b) ==> {
                &&& n <= old(self).unread().len()
                &&& bits_of(bytes_view(b)) == read_bits_result(old(self).unread(), n as nat)
                &&& final(self).unread() == old(self).unread().skip(n as int)
            },
            r matches Err(e) ==> e == Self::read_bits_error(old(self).unread(), n),
    ;

    /// On success this should guarantee to always read `n` Bytes.
    ///
    /// This should always start on a Byte boundary. An Error
    /// must be returned when the internal partial bit index
    /// signifies to continue at a partial Byte.
    fn read_bytes(&mut self, n: usize) -> (r: Result<Bytes, ReaderError>)
        ensures
            r is Ok <==> old(self).unread().len() % 8 == 0 && 8 * n <= old(self).unread().len(),
            r matches Ok(b) ==> {
                &&& bits_of(bytes_view(b)) == old(self).unread().take(8 * n)
                &&& final(self).unread() == old(self).unread().skip(8 * n)
            },
            r is Err ==> final(self).unread() == old(self).unread(),
            r matches Err(e) ==> e == Self::read_bytes_error(old(self).unread(), n),
    ;
}

/// The bits [read_bits](Reader::read_bits) hands out when reading `n` bits
/// of `u`: the `n` bits right-aligned in whole bytes, after zeros. Where
/// `u` starts inside a byte, the result takes as many bytes as the bits past
/// that byte fill (at least one), and one more only where the number needs
/// it.
pub open spec fn read_bits_result(u: Seq<bool>, n: nat) -> Seq<bool> {
    let full = zeros((8 * bytes_for(n) - n) as nat) + u.take(n as int);
    let p = u.len() % 8;
    let k = if n <= p {
        1
    } else {
        bytes_for((n - p) as nat)
    };
    if p > 0 && bytes_for(n) > k && full.take(8) == zeros(8) {
        full.skip(8)
    } else {
        full
    }
}

/// The last `n` bits of `b`, after zeros where `b` is shorter: the `n`-bit
/// number that `b` spells.
pub open spec fn last_bits(b: Seq<bool>, n: nat) -> Seq<bool> {
    if b.len() >= n {
        b.skip(b.len() - n)
    } else {
        zeros((n - b.len()) as nat) + b
    }
}

/// What a read of `n` bits hands out spells those `n` bits: they are its
/// last `n` bits, and read as a big-endian number it is the number they
/// spell.
pub proof fn lemma_read_bits_result(u: Seq<bool>, n: nat)
    requires
        n <= u.len(),
    ensures
        last_bits(read_bits_result(u, n), n) == u.take(n as int),
        value_of(read_bits_result(u, n)) == value_of(u.take(n as int)),
        read_bits_result(u, n).len() % 8 == 0,
        read_bits_result(u, n).len() <= 8 * bytes_for(n),
{
    let pad = (8 * bytes_for(n) - n) as nat;
    let full = zeros(pad) + u.take(n as int);
    assert(pad < 8);
    lemma_zeros_value(pad);
    lemma_value_concat(zeros(pad), u.take(n as int));
    let r = read_bits_result(u, n);
    if r != full {
        assert(full =~= full.take(8) + full.skip(8));
        lemma_zeros_value(8);
        lemma_value_concat(full.take(8), full.skip(8));
    }
    if r == full {
        assert(full.skip(pad as int) =~= u.take(n as int));
    } else {
        assert(full.len() >= 16);
        assert(r == full.skip(8));
        assert forall|i: int| 0 <= i < n implies last_bits(r, n)[i] == u.take(n as int)[i] by {
            if i < 8 - pad {
                assert(full.take(8)[pad + i] == full[pad + i]);
            }
        }
        assert(last_bits(r, n) =~= u.take(n as int));
    }
}

/// Error returned by [Reader](crate::Reader).
#[derive(Debug, Clone, PartialEq)]
pub enum ReaderError {
    /// trying to read more bytes than available
    MissingBytes { needs: usize, left: usize },
    /// previous [read_bits](crate::Reader::read_bits) didn't end
    /// on a byte boundary
    LoosePartialByte,
    /// error related to a partial byte read
    PartialRead { source: PartialByteError },
    /// a bit shift needs at least two bytes
    InvalidShift,
}

/// Reference Implementation of the [Reader](crate::Reader)
/// trait.
#[derive(Debug)]
pub struct ReferenceReader {
    inner: BytesMut,
    partial: PartialByte,
}

impl ReferenceReader {
    /// The partial byte stays in reading shape.
    #[verifier::type_invariant]
    closed spec fn inv(self) -> bool {
        self.partial.read_wf()
    }

    /// The whole bytes not yet touched.
    pub closed spec fn untouched(&self) -> Seq<u8> {
        bytes_mut_view(self.inner)
    }

    /// The bits left of a partially read byte.
    pub closed spec fn pending(&self) -> Seq<bool> {
        self.partial.pending_bits()
    }

    /// Constructs a new Reader.
    pub fn new(buf: &[u8]) -> (r: Self)
        ensures
            r.unread() == bits_of(buf@),
    {
        let p = PartialByte::default();
        proof {
            assert(byte_bits(p.byte).take(0) =~= zeros(0));
        }
        let r = ReferenceReader { inner: bytes_mut_from_slice(buf), partial: p };
        proof {
            assert(r.pending() =~= Seq::<bool>::empty());
            assert(r.unread() =~= bits_of(buf@));
        }
        r
    }

    proof fn lemma_shape(&self)
        requires
            self.partial.read_wf(),
        ensures
            self.pending().len() == if self.partial.index == 0 {
                0
            } else {
                8 - self.partial.index
            },
            self.unread().len() == self.pending().len() + 8 * self.untouched().len(),
            self.unread().len() % 8 == self.pending().len(),
            self.partial.on_boundary() <==> self.pending().len() == 0,
    {
    }

    /// Takes the first untouched byte.
    fn take_byte(&mut self) -> (x: u8)
        requires
            old(self).untouched().len() > 0,
        ensures
            x == old(self).untouched()[0],
            final(self).untouched() == old(self).untouched().drop_first(),
            final(self).partial == old(self).partial,
    {
        proof {
            use_type_invariant(&*self);
        }
        let mut inner = bytes_mut_new();
        std::mem::swap(&mut inner, &mut self.inner);
        let b = bytes_mut_copy_to_bytes(&mut inner, 1);
        std::mem::swap(&mut inner, &mut self.inner);
        let v = bytes_to_vec(&b);
        v[0]
    }

    /// Reads the next bit, handed out as the most significant bit of a byte.
    fn read_one_bit(&mut self) -> (b: u8)
        requires
            old(self).unread().len() > 0,
        ensures
            byte_bits(b).take(1) == seq![old(self).unread()[0]],
            final(self).unread() == old(self).unread().drop_first(),
    {
        proof {
            use_type_invariant(&*self);
            self.lemma_shape();
        }
        if self.partial.is_on_byte_boundary() {
            let ghost u0 = self.untouched();
            let x = self.take_byte();
            proof {
                assert(u0 =~= seq![x] + u0.drop_first());
                lemma_bits_of_concat(seq![x], u0.drop_first());
                lemma_bits_of_single(x);
                assert(old(self).pending() =~= Seq::<bool>::empty());
            }
            let r = self.partial.set_read(x, 1);
            let b = match r {
                Ok(b) => b,
                Err(_) => 0,
            };
            proof {
                assert(byte_bits(b).take(1) =~= seq![byte_bits(x)[0]]);
                assert(self.unread() =~= old(self).unread().drop_first());
            }
            b
        } else {
            let ghost ob = self.partial.byte;
            let ghost oi = self.partial.index;
            let mut p = PartialByte::default();
            proof {
                assert(byte_bits(p.byte).take(0) =~= zeros(0));
            }
            std::mem::swap(&mut p, &mut self.partial);
            let r = p.read(1);
            let b = match r {
                Ok(b) => b,
                Err(_) => 0,
            };
            proof {
                assert(byte_bits(b).take(1) =~= seq![byte_bits(ob)[oi as int]]);
                let nb = p.byte;
                if oi == 7 {
                    assert(byte_bits(nb) =~= zeros(8)) by {
                        assert(byte_bits(ob).take(7) == zeros(7));
                        assert forall|i: int| 0 <= i < 8 implies !byte_bits(nb)[i] by {
                            if i < 7 {
                                assert(!byte_bits(ob).take(7)[i]);
                            }
                        }
                    }
                    lemma_zero_byte(nb);
                    assert(p.pending_bits() =~= Seq::<bool>::empty());
                    assert(byte_bits(nb).take(0) =~= zeros(0));
                } else {
                    assert(byte_bits(nb).take(oi + 1) =~= zeros((oi + 1) as nat)) by {
                        assert forall|i: int| 0 <= i < oi + 1 implies !byte_bits(nb)[i] by {
                            if i < oi {
                                assert(!byte_bits(ob).take(oi as int)[i]);
                            }
                        }
                    }
                    assert(p.pending_bits() =~= old(self).pending().drop_first());
                }
            }
            std::mem::swap(&mut p, &mut self.partial);
            proof {
                assert(self.unread() =~= old(self).unread().drop_first());
            }
            b
        }
    }
    /// Reads `n` bits, one at a time, into bytes, right-aligned after zeros.
    fn collect_bits(&mut self, n: usize) -> (out: Vec<u8>)
        requires
            n <= old(self).unread().len(),
        ensures
            bits_of(out@) == zeros((8 * bytes_for(n as nat) - n) as nat) + old(self).unread().take(
                n as int,
            ),
            out@.len() == bytes_for(n as nat),
            final(self).unread() == old(self).unread().skip(n as int),
    {
        let ghost u0 = self.unread();
        let pad: u8 = if n % 8 == 0 {
            0
        } else {
            (8 - n % 8) as u8
        };
        let mut out: Vec<u8> = Vec::new();
        let mut acc = PartialByte { byte: 0, index: pad };
        proof {
            assert(0u8 & (0xFFu8 >> pad) == 0u8) by (bit_vector);
            lemma_bits_of_empty();
            assert(byte_bits(0u8) =~= zeros(8)) by {
                assert forall|j: int| 0 <= j < 8 implies !#[trigger] byte_bits(0u8)[j] by {
                    let k = j as u8;
                    assert(!bit_at(0u8, k)) by (bit_vector);
                }
            }
            assert(acc.cached_bits() =~= zeros(pad as nat));
            assert(8 * bytes_for(n as nat) - n == pad);
            assert(u0.take(0) =~= Seq::<bool>::empty());
            assert(zeros(pad as nat) + u0.take(0) =~= zeros(pad as nat));
        }
        let mut i: usize = 0;
        while i < n
            invariant
                0 <= i <= n,
                n <= u0.len(),
                pad < 8,
                8 * bytes_for(n as nat) == pad + n,
                acc.write_wf(),
                8 * out@.len() + acc.index == pad + i,
                bits_of(out@) + acc.cached_bits() == zeros(pad as nat) + u0.take(i as int),
                self.unread() == u0.skip(i as int),
            decreases n - i,
        {
            let bit = self.read_one_bit();
            proof {
                crate::partial::lemma_write_fits(acc.byte, acc.index, bit, 1);
            }
            let ghost o0 = out@;
            let ghost c = acc.cached_bits() + byte_bits(bit).take(1);
            let w = acc.write(bit, 1);
            if let Some(b) = w {
                out.push(b);
                proof {
                    assert(c.take(8) + c.skip(8) =~= c);
                    lemma_bits_of_push(o0, b);
                }
            }
            proof {
                assert(bits_of(out@) + acc.cached_bits() =~= bits_of(o0) + c);
                assert(zeros(pad as nat) + u0.take(i as int + 1) =~= zeros(pad as nat) + u0.take(
                    i as int,
                ) + seq![u0[i as int]]);
                assert(u0.skip(i as int).drop_first() =~= u0.skip(i as int + 1));
            }
            i = i + 1;
        }
        proof {
            assert(acc.index == 0);
            assert(acc.cached_bits() =~= Seq::<bool>::empty());
            assert(bits_of(out@) =~= zeros(pad as nat) + u0.take(n as int));
            assert(bits_of(out@).len() == 8 * out@.len());
        }
        out
    }
}

impl Reader for ReferenceReader {
    open spec fn unread(&self) -> Seq<bool> {
        self.pending() + bits_of(self.untouched())
    }

    /// The whole bytes past the pending bits are too few: how many the
    /// read needs past them, and how many are left.
    open spec fn read_bits_error(unread: Seq<bool>, n: usize) -> ReaderError {
        let rem = unread.len() % 8;
        ReaderError::MissingBytes {
            needs: bytes_for((n - rem) as nat) as usize,
            left: ((unread.len() - rem) / 8) as usize,
        }
    }

    /// A read inside a byte is refused; otherwise too few bytes are left.
    open spec fn read_bytes_error(unread: Seq<bool>, n: usize) -> ReaderError {
        if unread.len() % 8 != 0 {
            ReaderError::LoosePartialByte
        } else {
            ReaderError::MissingBytes { needs: n, left: (unread.len() / 8) as usize }
        }
    }

    fn read_bits(&mut self, n: usize) -> (r: Result<Bytes, ReaderError>)
        ensures
            r is Err ==> final(self).unread() == old(self).unread().skip(
                (old(self).unread().len() % 8) as int,
            ),
    {
        proof {
            use_type_invariant(&*self);
            self.lemma_shape();
        }
        if n == 0 {
            proof {
                lemma_bits_of_empty();
                assert(old(self).unread().take(0) + zeros(0) =~= Seq::<bool>::empty());
                assert(old(self).unread().skip(0) =~= old(self).unread());
            }
            return Ok(bytes_from_vec(Vec::new()));
        }
        let rem = self.partial.remaining() as usize;
        if n > rem {
            let avail = bytes_mut_remaining(&self.inner);
            let rest = n - rem;
            let needs = if rest % 8 == 0 {
                rest / 8
            } else {
                rest / 8 + 1
            };
            if needs > avail {
                // the pending bits of the partial byte are consumed
                let p = PartialByte::default();
                proof {
                    assert(byte_bits(p.byte).take(0) =~= zeros(0));
                }
                self.partial = p;
                proof {
                    assert(self.pending() =~= Seq::<bool>::empty());
                    assert(self.unread() =~= old(self).unread().skip(rem as int));
                }
                return Err(ReaderError::MissingBytes { needs, left: avail });
            }
        }
        if self.partial.is_on_byte_boundary() && n % 8 == 0 {
            // reading only full bytes
            proof {
                assert(zeros(0) + old(self).unread().take(n as int) =~= old(self).unread().take(
                    n as int,
                ));
            }
            return self.read_bytes(n / 8);
        }
        let ghost u0 = self.unread();
        let mut out = self.collect_bits(n);
        // after a partial byte, the bytes past it hold the number where
        // they can
        let k: usize = if n <= rem {
            1
        } else {
            let rest = n - rem;
            if rest % 8 == 0 {
                rest / 8
            } else {
                rest / 8 + 1
            }
        };
        let ghost full = bits_of(out@);
        proof {
            assert(rem == u0.len() % 8);
            if out@.len() > 0 {
                crate::bits::lemma_bits_of_byte(out@, 0);
                assert(full.take(8) =~= full.subrange(0, 8));
                if full.take(8) == zeros(8) {
                    lemma_zero_byte(out@[0]);
                }
            }
        }
        if rem > 0 && out.len() > k && out[0] == 0 {
            let ghost o = out@;
            out.remove(0);
            proof {
                assert(o =~= seq![o[0]] + out@);
                lemma_bits_of_concat(seq![o[0]], out@);
                lemma_bits_of_single(o[0]);
                assert(byte_bits(0u8) =~= zeros(8)) by {
                    assert forall|i: int| 0 <= i < 8 implies !#[trigger] byte_bits(0u8)[i] by {
                        let j = i as u8;
                        assert(!bit_at(0u8, j)) by (bit_vector);
                    }
                }
                assert(full.take(8) == zeros(8));
                assert(bits_of(out@) =~= full.skip(8));
            }
        } else {
            proof {
                if rem > 0 && out@.len() > k {
                    assert(out@[0] != 0);
                    assert(full.take(8) != zeros(8));
                }
            }
        }
        Ok(bytes_from_vec(out))
    }

    fn read_bytes(&mut self, n: usize) -> (r: Result<Bytes, ReaderError>)
    {
        proof {
            use_type_invariant(&*self);
            self.lemma_shape();
        }
        if !self.partial.is_on_byte_boundary() {
            return Err(ReaderError::LoosePartialByte);
        }
        let left = bytes_mut_remaining(&self.inner);
        if left < n {
            return Err(ReaderError::MissingBytes { needs: n, left });
        }
        let ghost u0 = self.untouched();
        let mut inner = bytes_mut_new();
        std::mem::swap(&mut inner, &mut self.inner);
        let b = bytes_mut_copy_to_bytes(&mut inner, n);
        std::mem::swap(&mut inner, &mut self.inner);
        proof {
            assert(u0 =~= u0.take(n as int) + u0.skip(n as int));
            lemma_bits_of_concat(u0.take(n as int), u0.skip(n as int));
            assert(old(self).pending() =~= Seq::<bool>::empty());
            assert(self.pending() =~= Seq::<bool>::empty());
            assert(old(self).unread() =~= bits_of(u0));
            assert(bits_of(u0.take(n as int)).len() == 8 * n);
            assert(bits_of(u0).take(8 * n) =~= bits_of(u0.take(n as int)));
            assert(self.unread() =~= old(self).unread().skip(8 * n));
        }
        Ok(b)
    }
}

/// Appends one bit to the bytes `out` and the partial byte `acc` after them.
fn push_bit(out: &mut Vec<u8>, acc: &mut PartialByte, bit: bool)
    requires
        old(acc).write_wf(),
    ensures
        final(acc).write_wf(),
        bits_of(final(out)@) + final(acc).cached_bits() == bits_of(old(out)@) + old(
            acc,
        ).cached_bits() + seq![bit],
        8 * final(out)@.len() + final(acc).index == 8 * old(out)@.len() + old(acc).index + 1,
{
    let x: u8 = if bit {
        0x80
    } else {
        0
    };
    proof {
        assert(byte_bits(x).take(1) =~= seq![bit]) by {
            assert(bit_at(0x80u8, 0)) by (bit_vector);
            assert(!bit_at(0u8, 0)) by (bit_vector);
        }
        crate::partial::lemma_write_fits(acc.byte, acc.index, x, 1);
    }
    let ghost o0 = out@;
    let ghost c = acc.cached_bits() + byte_bits(x).take(1);
    let w = acc.write(x, 1);
    if let Some(b) = w {
        out.push(b);
        proof {
            assert(c.take(8) + c.skip(8) =~= c);
            lemma_bits_of_push(o0, b);
        }
    }
    proof {
        assert(bits_of(out@) + acc.cached_bits() =~= bits_of(o0) + c);
    }
}

/// The bytes `b` read as an `n`-bit number, laid out again as `n` bits from
/// the most significant end, followed by zeros up to a byte boundary.
pub(crate) fn left_align(b: &[u8], n: usize) -> (out: Vec<u8>)
    requires
        b@.len() <= bytes_for(n as nat),
    ensures
        bits_of(out@) == last_bits(bits_of(b@), n as nat) + zeros(
            (8 * bytes_for(n as nat) - n) as nat,
        ),
        out@.len() == bytes_for(n as nat),
{
    let full: usize = if n % 8 == 0 {
        n / 8
    } else {
        n / 8 + 1
    };
    let (skip, lead): (usize, usize) = if b.len() == full {
        (if n % 8 == 0 {
            0
        } else {
            8 - n % 8
        }, 0)
    } else {
        (0, n - 8 * b.len())
    };
    let ghost bb = bits_of(b@);
    proof {
        assert(bb.len() == 8 * b@.len());
        assert(full == bytes_for(n as nat));
        if b@.len() == full {
            assert(last_bits(bb, n as nat) =~= zeros(lead as nat) + bb.subrange(
                skip as int,
                bb.len() as int,
            ));
        } else {
            assert(last_bits(bb, n as nat) =~= zeros(lead as nat) + bb.subrange(
                skip as int,
                bb.len() as int,
            ));
        }
    }
    let mut out: Vec<u8> = Vec::new();
    let mut acc = PartialByte::default();
    proof {
        assert(0u8 & (0xFFu8 >> 0u8) == 0u8) by (bit_vector);
        lemma_bits_of_empty();
        assert(acc.cached_bits() =~= Seq::<bool>::empty());
        assert(zeros(0) =~= Seq::<bool>::empty());
    }
    let mut j: usize = 0;
    while j < lead
        invariant
            j <= lead,
            acc.write_wf(),
            8 * out@.len() + acc.index == j,
            bits_of(out@) + acc.cached_bits() == zeros(j as nat),
        decreases lead - j,
    {
        push_bit(&mut out, &mut acc, false);
        proof {
            assert(zeros(j as nat) + seq![false] =~= zeros(j as nat + 1));
        }
        j = j + 1;
    }
    let mut t: usize = 0;
    let mut s: usize = skip;
    proof {
        assert(zeros(lead as nat) + bb.subrange(skip as int, (8 * t + s) as int) =~= zeros(
            lead as nat,
        ));
    }
    while t < b.len()
        invariant
            b@.len() <= full,
            bb == bits_of(b@),
            bb.len() == 8 * b@.len(),
            skip < 8,
            s < 8,
            t == 0 ==> s >= skip,
            t <= b@.len(),
            t == b@.len() ==> s == 0,
            acc.write_wf(),
            8 * out@.len() + acc.index == lead + 8 * t + s - skip,
            bits_of(out@) + acc.cached_bits() == zeros(lead as nat) + bb.subrange(
                skip as int,
                (8 * t + s) as int,
            ),
        decreases b@.len() - t, 8 - s,
    {
        let byte = b[t];
        let bit = (byte >> (7 - s) as u8) & 1u8 == 1u8;
        proof {
            assert((8 * t + s) / 8 == t && (8 * t + s) % 8 == s) by (nonlinear_arith)
                requires
                    s < 8,
            ;
            assert(bb[(8 * t + s) as int] == bit);
            assert(bb.subrange(skip as int, (8 * t + s + 1) as int) =~= bb.subrange(
                skip as int,
                (8 * t + s) as int,
            ) + seq![bit]);
        }
        push_bit(&mut out, &mut acc, bit);
        proof {
            assert(zeros(lead as nat) + bb.subrange(skip as int, (8 * t + s) as int) + seq![bit]
                =~= zeros(lead as nat) + bb.subrange(skip as int, (8 * t + s + 1) as int));
        }
        if s == 7 {
            s = 0;
            t = t + 1;
        } else {
            s = s + 1;
        }
    }
    proof {
        assert(lead + 8 * b@.len() - skip == n);
    }
    if acc.index > 0 {
        let ghost o0 = out@;
        out.push(acc.byte);
        proof {
            lemma_bits_of_push(o0, acc.byte);
            lemma_write_wf_bits(acc.byte, acc.index);
        }
    }
    proof {
        let pad = (8 * bytes_for(n as nat) - n) as nat;
        if acc.index == 0 {
            assert(acc.cached_bits() =~= Seq::<bool>::empty());
            assert(bits_of(out@) =~= last_bits(bb, n as nat) + zeros(pad));
        } else {
            assert(bits_of(out@) =~= last_bits(bb, n as nat) + zeros(pad));
        }
        assert(bits_of(out@).len() == 8 * out@.len());
    }
    out
}

} // verus!
