//! The bit-level model shared by the readers, writers and number types.
//!
//! A byte is read most significant bit first; a byte buffer is the
//! concatenation of the bits of its bytes; a bit sequence denotes the
//! unsigned number it spells in big-endian order.
use vstd::prelude::*;

verus! {

/// `2^n`
pub open spec fn exp2(n: nat) -> nat
    decreases n,
{
    if n == 0 {
        1
    } else {
        2 * exp2((n - 1) as nat)
    }
}

/// Bit `i` of byte `b`, counted from the most significant bit.
pub open spec fn bit_at(b: u8, i: u8) -> bool {
    ((b >> ((7 - i) as u8)) & 1u8) == 1u8
}

/// The eight bits of a byte, most significant first.
pub open spec fn byte_bits(b: u8) -> Seq<bool> {
    Seq::new(8, |i: int| bit_at(b, i as u8))
}

/// The bits of a byte buffer, most significant bit of the first byte first.
pub open spec fn bits_of(s: Seq<u8>) -> Seq<bool> {
    Seq::new(8 * s.len(), |i: int| bit_at(s[i / 8], (i % 8) as u8))
}

/// The first `n` bits of `s`, where bits past the end of `s` read as zero.
pub open spec fn padded_bits(s: Seq<u8>, n: nat) -> Seq<bool> {
    Seq::new(n, |i: int| i < 8 * s.len() && bit_at(s[i / 8], (i % 8) as u8))
}

/// Number of bytes needed to hold `n` bits.
pub open spec fn bytes_for(n: nat) -> nat {
    if n % 8 == 0 {
        n / 8
    } else {
        n / 8 + 1
    }
}

/// The unsigned number spelled by a bit sequence, most significant bit first.
pub open spec fn value_of(b: Seq<bool>) -> nat
    decreases b.len(),
{
    if b.len() == 0 {
        0
    } else {
        2 * value_of(b.drop_last()) + if b.last() {
            1nat
        } else {
            0nat
        }
    }
}

/// The `n` low bits of `v`, most significant first.
pub open spec fn to_bits(v: nat, n: nat) -> Seq<bool>
    decreases n,
{
    if n == 0 {
        Seq::empty()
    } else {
        to_bits(v / 2, (n - 1) as nat).push(v % 2 == 1)
    }
}

/// A bit sequence of `n` zeros.
pub open spec fn zeros(n: nat) -> Seq<bool> {
    Seq::new(n, |i: int| false)
}

/// The big-endian number spelled by a byte buffer.
pub open spec fn be_value(s: Seq<u8>) -> nat
    decreases s.len(),
{
    if s.len() == 0 {
        0
    } else {
        256 * be_value(s.drop_last()) + s.last() as nat
    }
}

/// Powers of two are positive.
pub proof fn lemma_exp2_pos(n: nat)
    ensures
        exp2(n) >= 1,
    decreases n,
{
    if n > 0 {
        lemma_exp2_pos((n - 1) as nat);
    }
}

/// `2^(a+b) = 2^a * 2^b`.
pub proof fn lemma_exp2_add(a: nat, b: nat)
    ensures
        exp2(a + b) == exp2(a) * exp2(b),
    decreases b,
{
    if b > 0 {
        lemma_exp2_add(a, (b - 1) as nat);
        assert(exp2(a + b) == 2 * exp2((a + b - 1) as nat));
        assert((a + b - 1) as nat == a + (b - 1) as nat);
        let x = exp2(a);
        let y = exp2((b - 1) as nat);
        assert(2 * (x * y) == x * (2 * y)) by (nonlinear_arith);
        assert(exp2(b) == 2 * y);
        assert(exp2(a + (b - 1) as nat) == x * y);
        assert(exp2(a + b) == x * exp2(b));
    } else {
        assert(exp2(0) == 1);
        assert(a + b == a);
        assert(exp2(a) * 1 == exp2(a));
    }
}

/// Powers of two grow with the exponent.
pub proof fn lemma_exp2_mono(a: nat, b: nat)
    requires
        a <= b,
    ensures
        exp2(a) <= exp2(b),
    decreases b,
{
    if a < b {
        lemma_exp2_mono(a, (b - 1) as nat);
        lemma_exp2_pos((b - 1) as nat);
    }
}

/// The powers of two up to `2^8`.
pub proof fn lemma_exp2_values()
    ensures
        exp2(0) == 1,
        exp2(1) == 2,
        exp2(2) == 4,
        exp2(3) == 8,
        exp2(4) == 16,
        exp2(5) == 32,
        exp2(6) == 64,
        exp2(7) == 128,
        exp2(8) == 256,
{
    reveal_with_fuel(exp2, 9);
}

/// The number of a concatenation.
pub proof fn lemma_value_concat(a: Seq<bool>, b: Seq<bool>)
    ensures
        value_of(a + b) == value_of(a) * exp2(b.len()) + value_of(b),
    decreases b.len(),
{
    if b.len() == 0 {
        assert(a + b =~= a);
        assert(value_of(b) == 0);
        assert(exp2(0) == 1);
        assert(value_of(a) * 1 == value_of(a));
    } else {
        let b1 = b.drop_last();
        assert((a + b).drop_last() =~= a + b1);
        assert((a + b).last() == b.last());
        lemma_value_concat(a, b1);
        let x = value_of(a);
        let p = exp2(b1.len());
        assert(2 * (x * p) == x * (2 * p)) by (nonlinear_arith);
        assert(exp2(b.len()) == 2 * p);
        assert(value_of(a + b) == 2 * value_of(a + b1) + if b.last() { 1nat } else { 0nat });
        assert(value_of(b) == 2 * value_of(b1) + if b.last() { 1nat } else { 0nat });
    }
}

/// A bit sequence of length `n` spells a number below `2^n`.
pub proof fn lemma_value_bound(b: Seq<bool>)
    ensures
        value_of(b) < exp2(b.len()),
    decreases b.len(),
{
    if b.len() > 0 {
        lemma_value_bound(b.drop_last());
    }
}

/// Two bit sequences of one length that spell one number are equal.
pub proof fn lemma_value_injective(a: Seq<bool>, b: Seq<bool>)
    requires
        a.len() == b.len(),
        value_of(a) == value_of(b),
    ensures
        a == b,
    decreases a.len(),
{
    if a.len() > 0 {
        lemma_value_injective(a.drop_last(), b.drop_last());
        assert(a.last() == b.last());
        assert(a =~= a.drop_last().push(a.last()));
        assert(b =~= b.drop_last().push(b.last()));
    } else {
        assert(a =~= b);
    }
}

/// `to_bits` spells its number, when the number fits.
pub proof fn lemma_to_bits(v: nat, n: nat)
    requires
        v < exp2(n),
    ensures
        to_bits(v, n).len() == n,
        value_of(to_bits(v, n)) == v,
    decreases n,
{
    if n > 0 {
        lemma_to_bits(v / 2, (n - 1) as nat);
        let s = to_bits(v, n);
        assert(s.drop_last() =~= to_bits(v / 2, (n - 1) as nat));
    }
}

/// `to_bits` gives as many bits as asked for.
pub proof fn lemma_to_bits_len(v: nat, n: nat)
    ensures
        to_bits(v, n).len() == n,
    decreases n,
{
    if n > 0 {
        lemma_to_bits_len(v / 2, (n - 1) as nat);
    }
}

/// A run of zeros spells zero.
pub proof fn lemma_zeros_value(n: nat)
    ensures
        value_of(zeros(n)) == 0,
    decreases n,
{
    if n > 0 {
        assert(zeros(n).drop_last() =~= zeros((n - 1) as nat));
        lemma_zeros_value((n - 1) as nat);
    }
}

proof fn lemma_byte_bits_arith(x: u8)
    ensures
        x as int == (if bit_at(x, 0) {
            128int
        } else {
            0
        }) + (if bit_at(x, 1) {
            64int
        } else {
            0
        }) + (if bit_at(x, 2) {
            32int
        } else {
            0
        }) + (if bit_at(x, 3) {
            16int
        } else {
            0
        }) + (if bit_at(x, 4) {
            8int
        } else {
            0
        }) + (if bit_at(x, 5) {
            4int
        } else {
            0
        }) + (if bit_at(x, 6) {
            2int
        } else {
            0
        }) + (if bit_at(x, 7) {
            1int
        } else {
            0
        }),
{
    assert(x as int == (if ((x >> 7u8) & 1u8) == 1u8 {
        128int
    } else {
        0
    }) + (if ((x >> 6u8) & 1u8) == 1u8 {
        64int
    } else {
        0
    }) + (if ((x >> 5u8) & 1u8) == 1u8 {
        32int
    } else {
        0
    }) + (if ((x >> 4u8) & 1u8) == 1u8 {
        16int
    } else {
        0
    }) + (if ((x >> 3u8) & 1u8) == 1u8 {
        8int
    } else {
        0
    }) + (if ((x >> 2u8) & 1u8) == 1u8 {
        4int
    } else {
        0
    }) + (if ((x >> 1u8) & 1u8) == 1u8 {
        2int
    } else {
        0
    }) + (if ((x >> 0u8) & 1u8) == 1u8 {
        1int
    } else {
        0
    })) by (bit_vector);
}

/// The eight bits of a byte spell the byte.
pub proof fn lemma_byte_value(x: u8)
    ensures
        value_of(byte_bits(x)) == x as nat,
{
    let s = byte_bits(x);
    lemma_byte_bits_arith(x);
    let s7 = s.drop_last();
    let s6 = s7.drop_last();
    let s5 = s6.drop_last();
    let s4 = s5.drop_last();
    let s3 = s4.drop_last();
    let s2 = s3.drop_last();
    let s1 = s2.drop_last();
    let s0 = s1.drop_last();
    assert(s0.len() == 0);
    assert(value_of(s0) == 0);
    assert(s1.last() == s[0]);
    assert(s2.last() == s[1]);
    assert(s3.last() == s[2]);
    assert(s4.last() == s[3]);
    assert(s5.last() == s[4]);
    assert(s6.last() == s[5]);
    assert(s7.last() == s[6]);
    assert(value_of(s1) == if s[0] { 1nat } else { 0nat });
    assert(value_of(s2) == 2 * value_of(s1) + if s[1] { 1nat } else { 0nat });
    assert(value_of(s3) == 2 * value_of(s2) + if s[2] { 1nat } else { 0nat });
    assert(value_of(s4) == 2 * value_of(s3) + if s[3] { 1nat } else { 0nat });
    assert(value_of(s5) == 2 * value_of(s4) + if s[4] { 1nat } else { 0nat });
    assert(value_of(s6) == 2 * value_of(s5) + if s[5] { 1nat } else { 0nat });
    assert(value_of(s7) == 2 * value_of(s6) + if s[6] { 1nat } else { 0nat });
    assert(value_of(s) == 2 * value_of(s7) + if s[7] { 1nat } else { 0nat });
}

/// A byte is determined by its bits.
pub proof fn lemma_byte_bits_injective(x: u8, y: u8)
    requires
        byte_bits(x) == byte_bits(y),
    ensures
        x == y,
{
    lemma_byte_value(x);
    lemma_byte_value(y);
}

/// An empty buffer has no bits.
pub proof fn lemma_bits_of_empty()
    ensures
        bits_of(Seq::<u8>::empty()) == Seq::<bool>::empty(),
{
    assert(bits_of(Seq::<u8>::empty()) =~= Seq::<bool>::empty());
}

/// The bits of a buffer with one more byte.
pub proof fn lemma_bits_of_push(s: Seq<u8>, x: u8)
    ensures
        bits_of(s.push(x)) == bits_of(s) + byte_bits(x),
{
    let l = bits_of(s.push(x));
    let r = bits_of(s) + byte_bits(x);
    assert forall|i: int| 0 <= i < l.len() implies l[i] == r[i] by {
        if i < 8 * s.len() {
            assert(i / 8 < s.len()) by (nonlinear_arith)
                requires
                    0 <= i < 8 * s.len(),
            ;
            assert(s.push(x)[i / 8] == s[i / 8]);
        } else {
            assert(i / 8 == s.len()) by (nonlinear_arith)
                requires
                    8 * s.len() <= i < 8 * s.len() + 8,
            ;
            assert(i % 8 == i - 8 * s.len()) by (nonlinear_arith)
                requires
                    8 * s.len() <= i < 8 * s.len() + 8,
            ;
        }
    }
    assert(l =~= r);
}

/// The bits of a concatenation of buffers.
pub proof fn lemma_bits_of_concat(a: Seq<u8>, b: Seq<u8>)
    ensures
        bits_of(a + b) == bits_of(a) + bits_of(b),
    decreases b.len(),
{
    if b.len() == 0 {
        assert(a + b =~= a);
        lemma_bits_of_empty();
        assert(bits_of(a) + bits_of(b) =~= bits_of(a));
    } else {
        let b1 = b.drop_last();
        assert(a + b =~= (a + b1).push(b.last()));
        assert(b =~= b1.push(b.last()));
        lemma_bits_of_concat(a, b1);
        lemma_bits_of_push(a + b1, b.last());
        lemma_bits_of_push(b1, b.last());
        assert(bits_of(a) + bits_of(b1) + byte_bits(b.last()) =~= bits_of(a) + (bits_of(b1)
            + byte_bits(b.last())));
    }
}

/// The bits of a buffer spell its big-endian number.
pub proof fn lemma_bits_of_value(s: Seq<u8>)
    ensures
        value_of(bits_of(s)) == be_value(s),
        bits_of(s).len() == 8 * s.len(),
    decreases s.len(),
{
    if s.len() == 0 {
        lemma_bits_of_empty();
    } else {
        let s1 = s.drop_last();
        assert(s =~= s1.push(s.last()));
        lemma_bits_of_push(s1, s.last());
        lemma_bits_of_value(s1);
        lemma_value_concat(bits_of(s1), byte_bits(s.last()));
        lemma_byte_value(s.last());
        lemma_exp2_values();
        assert(byte_bits(s.last()).len() == 8);
        let v = value_of(bits_of(s1));
        assert(v * exp2(8) == 256 * v);
        assert(bits_of(s) == bits_of(s1) + byte_bits(s.last()));
    }
}

/// The bits of a single byte buffer.
pub proof fn lemma_bits_of_single(x: u8)
    ensures
        bits_of(seq![x]) == byte_bits(x),
{
    lemma_bits_of_push(Seq::<u8>::empty(), x);
    lemma_bits_of_empty();
    assert(Seq::<u8>::empty().push(x) =~= seq![x]);
    assert(Seq::<bool>::empty() + byte_bits(x) =~= byte_bits(x));
}

/// Padded bits within the buffer are a prefix of its bits.
pub proof fn lemma_padded_prefix(s: Seq<u8>, n: nat)
    requires
        n <= 8 * s.len(),
    ensures
        padded_bits(s, n) == bits_of(s).take(n as int),
{
    assert(padded_bits(s, n) =~= bits_of(s).take(n as int));
}

} // verus!

verus! {

/// The bits of a prefix of a buffer.
pub proof fn lemma_bits_of_prefix(s: Seq<u8>, k: int)
    requires
        0 <= k <= s.len(),
    ensures
        bits_of(s.subrange(0, k)) == bits_of(s).take(8 * k),
{
    let l = bits_of(s.subrange(0, k));
    let r = bits_of(s).take(8 * k);
    assert forall|i: int| 0 <= i < 8 * k implies l[i] == r[i] by {
        assert(i / 8 < k) by (nonlinear_arith)
            requires
                0 <= i < 8 * k,
        ;
    }
    assert(l =~= r);
}

/// The bits of one byte of a buffer.
pub proof fn lemma_bits_of_byte(s: Seq<u8>, k: int)
    requires
        0 <= k < s.len(),
    ensures
        bits_of(s).subrange(8 * k, 8 * k + 8) == byte_bits(s[k]),
{
    let l = bits_of(s).subrange(8 * k, 8 * k + 8);
    assert forall|i: int| 0 <= i < 8 implies l[i] == byte_bits(s[k])[i] by {
        assert((8 * k + i) / 8 == k) by (nonlinear_arith)
            requires
                0 <= i < 8,
        ;
        assert((8 * k + i) % 8 == i) by (nonlinear_arith)
            requires
                0 <= i < 8,
        ;
        assert(8 * k + i < 8 * s.len()) by (nonlinear_arith)
            requires
                0 <= i < 8,
                k < s.len(),
        ;
    }
    assert(l =~= byte_bits(s[k]));
}

/// Taking `8k + m` bits of a buffer is taking `8k` of them and `m` bits of byte `k`.
pub proof fn lemma_bits_take_split(s: Seq<u8>, k: int, m: int)
    requires
        0 <= k < s.len(),
        0 <= m <= 8,
    ensures
        bits_of(s).take(8 * k + m) == bits_of(s).take(8 * k) + byte_bits(s[k]).take(m),
{
    lemma_bits_of_byte(s, k);
    assert(8 * k + 8 <= 8 * s.len()) by (nonlinear_arith)
        requires
            k < s.len(),
    ;
    assert(bits_of(s).take(8 * k + m) =~= bits_of(s).take(8 * k) + byte_bits(s[k]).take(m));
}

} // verus!

verus! {

/// The bits of zero bytes are zeros.
pub proof fn lemma_bits_of_zero_bytes(n: nat)
    ensures
        bits_of(Seq::new(n, |i: int| 0u8)) == zeros(8 * n),
{
    let s = Seq::new(n, |i: int| 0u8);
    assert forall|k: int| 0 <= k < 8 * n implies !bits_of(s)[k] by {
        assert(k / 8 < n) by (nonlinear_arith)
            requires
                0 <= k < 8 * n,
        ;
        let j = (k % 8) as u8;
        assert(!bit_at(0u8, j)) by (bit_vector);
    }
    assert(bits_of(s) =~= zeros(8 * n));
}

/// A buffer is determined by its bits.
pub proof fn lemma_bits_of_injective(a: Seq<u8>, b: Seq<u8>)
    requires
        bits_of(a) == bits_of(b),
    ensures
        a == b,
{
    assert(bits_of(a).len() == 8 * a.len());
    assert(bits_of(b).len() == 8 * b.len());
    assert(a.len() == b.len());
    assert forall|k: int| 0 <= k < a.len() implies a[k] == b[k] by {
        lemma_bits_of_byte(a, k);
        lemma_bits_of_byte(b, k);
        lemma_byte_bits_injective(a[k], b[k]);
    }
    assert(a =~= b);
}

} // verus!
