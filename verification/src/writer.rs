//! Writing bits and bytes into a buffer.
use crate::bits::{bits_of, byte_bits, bytes_for, lemma_bits_of_prefix, lemma_bits_of_push, lemma_bits_of_concat, lemma_bits_take_split, lemma_bits_of_empty};
use crate::buffers::{
    bytes_mut_as_slice, bytes_mut_freeze, bytes_mut_new, bytes_mut_put_slice, bytes_mut_put_u8, bytes_mut_view,
    bytes_mut_with_capacity, bytes_view,
};
use crate::partial::{lemma_write_fits, PartialByte, PartialByteError};
use bytes::{Bytes, BytesMut};
use vstd::prelude::*;

verus! {

/// The Writer Trait needed for the [VarInt](crate::VarInt::encode)
/// encoding function.
///
/// [Reference](crate::ReferenceWriter) implementation
pub trait Writer: Sized {
    /// The bits written so far, in order.
    spec fn written(&self) -> Seq<bool>;

    /// The error a write of bytes gives after `written`, inside a byte.
    spec fn write_bytes_error(written: Seq<bool>) -> WriterError;

    /// Finalize the writing process, returning the written buffer.
    ///
    /// Guaranteed to end on a Byte boundary.
    fn finish(self) -> (r: Result<Bytes, WriterError>)
        ensures
            r is Ok <==> self.written().len() % 8 == 0,
            r matches Ok(b) ==> bits_of(bytes_view(b)) == self.written(),
    ;

    /// This should guarantee to always write `n` Bits
    /// from `bits[..n]`.
    ///
    /// When writing a partial Byte, the next write operation must
    /// continue where the previous write ended.
    ///
    /// Partial bytes should remain in an internal buffer until a
    /// byte boundary has been reached.
    ///
    /// To write a partial byte with just bits, the partial byte must
    /// be in Big Endian: the bits to write are the most significant ones.
    ///
    /// The writer itself is handed back, for chaining.
    fn write_bits(&mut self, n: usize, bits: &[u8]) -> (r: &mut Self)
        requires
            bytes_for(n as nat) <= bits@.len(),
        ensures
            r.written() == old(self).written() + bits_of(bits@).take(n as int),
            *final(self) == *final(r),
    ;

    /// On success this should guarantee to always write `n` Bytes.
    ///
    /// This should always start on a Byte boundary. An Error
    /// must be returned when the previous write didn't end on
    /// on a byte boundary.
    ///
    /// On success the writer itself is handed back, for chaining.
    fn write_bytes(&mut self, bytes: &[u8]) -> (r: Result<&mut Self, WriterError>)
        ensures
            r is Ok <==> old(self).written().len() % 8 == 0,
            r matches Ok(s) ==> s.written() == old(self).written() + bits_of(bytes@) && *final(self)
                == *final(s),
            r is Err ==> final(self).written() == old(self).written(),
            r matches Err(e) ==> e == Self::write_bytes_error(old(self).written()),
    ;
}

/// Error returned by [Writer](crate::Writer).
#[derive(Debug, Clone, PartialEq)]
pub enum WriterError {
    /// previous [write_bits](crate::Writer::write_bits) didn't end
    /// on a byte boundary
    LoosePartialByte,
    /// error related to a partial byte read
    PartialRead { source: PartialByteError },
}

/// Reference Implementation of the [Writer](crate::Writer)
/// trait.
#[derive(Debug, PartialEq)]
pub struct ReferenceWriter {
    inner: BytesMut,
    partial: PartialByte,
}

impl ReferenceWriter {
    /// The partial byte stays in writing shape.
    #[verifier::type_invariant]
    closed spec fn inv(self) -> bool {
        self.partial.write_wf()
    }

    /// The bytes completed so far.
    pub closed spec fn completed(&self) -> Seq<u8> {
        bytes_mut_view(self.inner)
    }

    /// The bits written but not yet completed into a byte.
    pub closed spec fn pending(&self) -> Seq<bool> {
        self.partial.cached_bits()
    }

    /// Construct a new empty Writer.
    pub fn new() -> (r: Self)
        ensures
            r.written() == Seq::<bool>::empty(),
    {
        let p = PartialByte::default();
        proof {
            assert(0u8 & (0xFFu8 >> 0u8) == 0u8) by (bit_vector);
        }
        let r = ReferenceWriter { inner: bytes_mut_new(), partial: p };
        proof {
            lemma_bits_of_empty();
            assert(r.partial.cached_bits() =~= Seq::<bool>::empty());
        }
        r
    }

    /// Construct a new Writer with an initial capacity, which can be at
    /// most `isize::MAX`.
    pub fn with_capacity(cap: usize) -> (r: Self)
        requires
            cap <= isize::MAX,
        ensures
            r.written() == Seq::<bool>::empty(),
    {
        let p = PartialByte::default();
        proof {
            assert(0u8 & (0xFFu8 >> 0u8) == 0u8) by (bit_vector);
        }
        let r = ReferenceWriter { inner: bytes_mut_with_capacity(cap), partial: p };
        proof {
            lemma_bits_of_empty();
            assert(r.partial.cached_bits() =~= Seq::<bool>::empty());
        }
        r
    }

    /// The partial byte being filled.
    pub closed spec fn partial_state(&self) -> PartialByte {
        self.partial
    }

    /// The bytes completed so far.
    pub fn inner(&self) -> (r: &[u8])
        ensures
            r@ == self.completed(),
    {
        bytes_mut_as_slice(&self.inner)
    }

    /// The partial byte being filled: its first `index` bits are the bits
    /// written after the completed bytes.
    pub fn partial(&self) -> (r: PartialByte)
        ensures
            r == self.partial_state(),
            r.cached_bits() == self.pending(),
    {
        PartialByte { byte: self.partial.byte, index: self.partial.index }
    }

    /// Whether the writer stands on a byte boundary.
    pub fn is_on_byte_boundary(&self) -> (r: bool)
        ensures
            r == (self.written().len() % 8 == 0),
    {
        proof {
            use_type_invariant(self);
            self.lemma_written_len();
        }
        self.partial.is_on_byte_boundary()
    }

    /// Appends a completed byte.
    fn push_byte(&mut self, b: u8)
        ensures
            final(self).completed() == old(self).completed().push(b),
            final(self).partial == old(self).partial,
    {
        proof {
            use_type_invariant(&*self);
        }
        let mut inner = bytes_mut_new();
        std::mem::swap(&mut inner, &mut self.inner);
        bytes_mut_put_u8(&mut inner, b);
        std::mem::swap(&mut inner, &mut self.inner);
    }

    proof fn lemma_written_len(&self)
        requires
            self.partial.write_wf(),
        ensures
            self.written().len() == 8 * self.completed().len() + self.partial.index,
            self.written().len() % 8 == self.partial.index,
            self.partial.on_boundary() <==> self.partial.index == 0,
    {
        let b = self.partial.byte;
        let i = self.partial.index;
        assert(i == 0 ==> b == 0) by (bit_vector)
            requires
                b & (0xFFu8 >> i) == 0,
        ;
    }
}

impl Writer for ReferenceWriter {
    open spec fn written(&self) -> Seq<bool> {
        bits_of(self.completed()) + self.pending()
    }

    /// A partial byte is still pending.
    open spec fn write_bytes_error(written: Seq<bool>) -> WriterError {
        WriterError::LoosePartialByte
    }

    fn finish(self) -> (r: Result<Bytes, WriterError>)
        ensures
            r == Err::<Bytes, WriterError>(WriterError::LoosePartialByte) <==> r is Err,
    {
        proof {
            use_type_invariant(&self);
            self.lemma_written_len();
        }
        if !self.partial.is_on_byte_boundary() {
            return Err(WriterError::LoosePartialByte);
        }
        proof {
            assert(self.pending() =~= Seq::<bool>::empty());
            assert(self.written() =~= bits_of(self.completed()));
        }
        Ok(bytes_mut_freeze(self.inner))
    }

    fn write_bits(&mut self, n: usize, bits: &[u8]) -> (r: &mut Self) {
        self.put_bits(n, bits);
        self
    }

    fn write_bytes(&mut self, bytes: &[u8]) -> (r: Result<&mut Self, WriterError>) {
        match self.put_bytes(bytes) {
            Ok(()) => Ok(self),
            Err(e) => Err(e),
        }
    }
}

impl ReferenceWriter {
    /// Writes the first `n` bits of `bits`.
    fn put_bits(&mut self, n: usize, bits: &[u8])
        requires
            bytes_for(n as nat) <= bits@.len(),
        ensures
            final(self).written() == old(self).written() + bits_of(bits@).take(n as int),
    {
        proof {
            use_type_invariant(&*self);
            self.lemma_written_len();
        }
        if n == 0 {
            assert(bits_of(bits@).take(0) =~= Seq::<bool>::empty());
            assert(self.written() + bits_of(bits@).take(0) =~= self.written());
            return ;
        }
        let num_bytes = n / 8;
        let num_bits = n % 8;
        let ghost w0 = self.written();
        proof {
            assert(bits_of(bits@).len() == 8 * bits@.len());
        }

        if self.partial.is_on_byte_boundary() {
            let (full, _rest) = bits.split_at(num_bytes);
            // write all full bytes
            let mut inner = bytes_mut_new();
            std::mem::swap(&mut inner, &mut self.inner);
            bytes_mut_put_slice(&mut inner, full);
            std::mem::swap(&mut inner, &mut self.inner);
            proof {
                lemma_bits_of_prefix(bits@, num_bytes as int);
                lemma_bits_of_concat(old(self).completed(), full@);
                assert(old(self).pending() =~= Seq::<bool>::empty());
            }
            if num_bits > 0 {
                // set partial byte
                proof {
                    lemma_write_fits(self.partial.byte, self.partial.index, bits[num_bytes as int], num_bits as u8);
                    lemma_bits_take_split(bits@, num_bytes as int, num_bits as int);
                }
                let _ = self.partial.write(bits[num_bytes], num_bits as u8);
                proof {
                    assert(old(self).partial.cached_bits() =~= Seq::<bool>::empty());
                    assert(Seq::<bool>::empty() + byte_bits(bits@[num_bytes as int]).take(num_bits as int)
                        =~= byte_bits(bits@[num_bytes as int]).take(num_bits as int));
                }
            }
            proof {
                assert(self.written() =~= w0 + bits_of(bits@).take(n as int));
            }
            return ;
        }
        // write all full bytes, the partial byte carries over
        let mut i: usize = 0;
        while i < num_bytes
            invariant
                self.partial.write_wf(),
                self.partial.index == old(self).partial.index,
                1 <= self.partial.index,
                0 <= i <= num_bytes,
                num_bytes == n / 8,
                bytes_for(n as nat) <= bits@.len(),
                self.written() == w0 + bits_of(bits@).take(8 * i),
            decreases num_bytes - i,
        {
            proof {
                lemma_write_fits(self.partial.byte, self.partial.index, bits[i as int], 8);
            }
            let ghost wi = self.written();
            let ghost c0 = self.inner;
            let ghost c = self.partial.cached_bits() + byte_bits(bits@[i as int]).take(8);
            let r = self.partial.write(bits[i], 8);
            if let Some(b) = r {
                self.push_byte(b);
            }
            proof {
                assert(c.take(8) + c.skip(8) =~= c);
                lemma_bits_of_push(bytes_mut_view(c0), r.unwrap());
                assert(bits_of(self.completed()) + self.pending() =~= bits_of(bytes_mut_view(c0)) + c);
                lemma_bits_take_split(bits@, i as int, 8);
                assert(bits_of(bytes_mut_view(c0)) + c =~= wi + byte_bits(bits@[i as int]).take(8));
                assert(w0 + bits_of(bits@).take(8 * i) + byte_bits(bits@[i as int]).take(8) =~= w0
                    + bits_of(bits@).take(8 * i + 8));
            }
            i = i + 1;
            proof {
                assert(self.written() =~= w0 + bits_of(bits@).take(8 * i));
            }
        }
        // partially write the final byte
        if num_bits > 0 {
            proof {
                lemma_write_fits(self.partial.byte, self.partial.index, bits@[num_bytes as int], num_bits as u8);
                lemma_bits_take_split(bits@, num_bytes as int, num_bits as int);
            }
            let ghost wi = self.written();
            let ghost c0 = self.inner;
            let ghost c = self.partial.cached_bits() + byte_bits(bits@[num_bytes as int]).take(num_bits as int);
            let r = self.partial.write(bits[num_bytes], num_bits as u8);
            if let Some(b) = r {
                self.push_byte(b);
                proof {
                    assert(c.take(8) + c.skip(8) =~= c);
                    lemma_bits_of_push(bytes_mut_view(c0), b);
                }
            }
            proof {
                assert(bits_of(self.completed()) + self.pending() =~= bits_of(bytes_mut_view(c0)) + c);
                assert(bits_of(bytes_mut_view(c0)) + c =~= wi + byte_bits(bits@[num_bytes as int]).take(num_bits as int));
                assert(self.written() =~= w0 + bits_of(bits@).take(n as int));
            }
        } else {
            proof {
                assert(8 * num_bytes == n);
            }
        }
    }

    /// Writes the bytes `bytes`, where no partial byte is pending.
    fn put_bytes(&mut self, bytes: &[u8]) -> (r: Result<(), WriterError>)
        ensures
            r is Ok <==> old(self).written().len() % 8 == 0,
            r is Ok ==> final(self).written() == old(self).written() + bits_of(bytes@),
            r is Err ==> final(self).written() == old(self).written(),
            r matches Err(e) ==> e == WriterError::LoosePartialByte,
    {
        proof {
            use_type_invariant(&*self);
            self.lemma_written_len();
        }
        if !self.partial.is_on_byte_boundary() {
            return Err(WriterError::LoosePartialByte);
        }
        let mut inner = bytes_mut_new();
        std::mem::swap(&mut inner, &mut self.inner);
        bytes_mut_put_slice(&mut inner, bytes);
        std::mem::swap(&mut inner, &mut self.inner);
        proof {
            lemma_bits_of_concat(old(self).completed(), bytes@);
            assert(self.pending() =~= Seq::<bool>::empty());
            assert(self.written() =~= old(self).written() + bits_of(bytes@));
        }
        Ok(())
    }
}

} // verus!
