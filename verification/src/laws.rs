//! What holds across the library's operations: above all, that decoding
//! what was encoded gives back the value, and leaves what followed.
use crate::binary_data::{as_count, binary_bits, header_len, header_value, parse_binary};
use crate::bits::{
    bits_of, bytes_for, exp2, lemma_exp2_add, lemma_exp2_values, lemma_padded_prefix, lemma_to_bits, padded_bits,
    to_bits, value_of,
};
use crate::reader::{last_bits, lemma_read_bits_result, read_bits_result};
use crate::number::{
    Number, decodable, lemma_varint_bits_len, lemma_width_fits, tag_width, varint_bits, varint_tag,
    varint_width, MAX_U62,
};
use crate::convert::{
    bit_number_to_int, bit_range_to_int, number_from_int, number_to_int, BitRangeConversion,
    ConversionError, NumberConversion,
};
use crate::key_value::{kvp_bits, kvp_len, Value};
use crate::parse::{digit_value, digits_value, prefix_radix, radix_number, Integral};
use crate::track::name_bits;
use crate::tuple::{items_bits, parse_items, tuple_bits};
use vstd::arithmetic::power::{lemma_pow0, lemma_pow1, lemma_pow_adds, pow};
use vstd::prelude::*;

verus! {

/// Decoding a number reads back what encoding it wrote: the bits that
/// encoding `v` writes, followed by whole bytes `rest`, start with a whole
/// encoded number, whose two leading bits give the size that encoding
/// chose, whose value is `v`, and after which `rest` is left.
pub proof fn law_number_round_trip(v: nat, rest: Seq<bool>)
    requires
        v <= MAX_U62,
        rest.len() % 8 == 0,
    ensures
        ({
            let u = varint_bits(v) + rest;
            let bits = varint_bits(v).len();
            &&& decodable(u)
            &&& 2 + tag_width(value_of(u.take(2))) == bits
            &&& value_of(u.subrange(2, bits as int)) == v
            &&& u.skip(bits as int) == rest
        }),
{
    let u = varint_bits(v) + rest;
    let t = varint_tag(v);
    let w = varint_width(v);
    lemma_varint_bits_len(v);
    lemma_width_fits(v, w);
    lemma_exp2_values();
    lemma_to_bits(t, 2);
    lemma_to_bits(v, w);
    assert(u.take(2) =~= to_bits(t, 2));
    assert(u.subrange(2, (2 + w) as int) =~= to_bits(v, w));
    assert(u.skip((2 + w) as int) =~= rest);
}

/// Decoding a byte string reads back what encoding it wrote: the byte
/// string at the front of its wire form, followed by whole bytes `rest`,
/// has the bits of `d` as payload and ends where the wire form ends.
pub proof fn law_binary_round_trip(d: Seq<u8>, rest: Seq<bool>)
    requires
        d.len() <= MAX_U62,
        d.len() <= usize::MAX,
        rest.len() % 8 == 0,
    ensures
        parse_binary(binary_bits(d) + rest) == Some((bits_of(d), binary_bits(d).len())),
        (binary_bits(d) + rest).skip(binary_bits(d).len() as int) == rest,
{
    let u = binary_bits(d) + rest;
    let h = varint_bits(d.len()).len();
    lemma_varint_bits_len(d.len());
    assert(u =~= varint_bits(d.len()) + (bits_of(d) + rest));
    law_number_round_trip(d.len(), bits_of(d) + rest);
    assert(header_len(u) == h);
    assert(header_value(u) == d.len());
    assert(as_count(header_value(u)) == d.len());
    assert(u.subrange(h as int, (h + 8 * d.len()) as int) =~= bits_of(d));
    assert(u.skip(binary_bits(d).len() as int) =~= rest);
}

/// The wire forms of two lists of byte strings, one after the other, are
/// the wire form of the joined list.
pub proof fn lemma_items_bits_concat(a: Seq<Seq<u8>>, b: Seq<Seq<u8>>)
    ensures
        items_bits(a + b) == items_bits(a) + items_bits(b),
    decreases b.len(),
{
    if b.len() == 0 {
        assert(a + b =~= a);
        assert(items_bits(a) + items_bits(b) =~= items_bits(a));
    } else {
        lemma_items_bits_concat(a, b.drop_last());
        assert((a + b).drop_last() =~= a + b.drop_last());
        assert((a + b).last() == b.last());
        assert(items_bits(a) + (items_bits(b.drop_last()) + binary_bits(b.last())) =~= items_bits(
            a,
        ) + items_bits(b.drop_last()) + binary_bits(b.last()));
    }
}

/// The wire form of a list, split at its `j`th byte string.
proof fn lemma_items_bits_split(items: Seq<Seq<u8>>, j: int)
    requires
        0 <= j < items.len(),
    ensures
        items_bits(items) == items_bits(items.take(j)) + (binary_bits(items[j]) + items_bits(
            items.skip(j + 1),
        )),
{
    let d = items[j];
    let one = seq![d];
    assert(items =~= items.take(j) + (one + items.skip(j + 1)));
    lemma_items_bits_concat(items.take(j), one + items.skip(j + 1));
    lemma_items_bits_concat(one, items.skip(j + 1));
    assert(one.drop_last() =~= Seq::<Seq<u8>>::empty());
    assert(items_bits(Seq::<Seq<u8>>::empty()) =~= Seq::<bool>::empty());
    assert(items_bits(one) =~= binary_bits(d));
}

/// The first `k` byte strings read from the wire form of a list, followed
/// by whole bytes, are the first `k` of the list.
proof fn lemma_parse_items_prefix(items: Seq<Seq<u8>>, rest: Seq<bool>, k: nat)
    requires
        k <= items.len(),
        forall|i: int| 0 <= i < items.len() ==> (#[trigger] items[i]).len() <= MAX_U62,
        forall|i: int| 0 <= i < items.len() ==> (#[trigger] items[i]).len() <= usize::MAX,
        rest.len() % 8 == 0,
    ensures
        parse_items(items_bits(items) + rest, k) == Some(
            (
                items.take(k as int).map_values(|d: Seq<u8>| bits_of(d)),
                items_bits(items.take(k as int)).len(),
            ),
        ),
    decreases k,
{
    let u = items_bits(items) + rest;
    if k == 0 {
        assert(items.take(0) =~= Seq::<Seq<u8>>::empty());
        assert(items.take(0).map_values(|d: Seq<u8>| bits_of(d)) =~= Seq::<Seq<bool>>::empty());
    } else {
        let j = (k - 1) as nat;
        lemma_parse_items_prefix(items, rest, j);
        let l = items_bits(items.take(j as int)).len();
        let d = items[j as int];
        let after = items_bits(items.skip(k as int)) + rest;
        lemma_items_bits_split(items, j as int);
        crate::tuple::lemma_items_bits_whole_bytes(items.skip(k as int));
        assert(u.skip(l as int) =~= binary_bits(d) + after);
        law_binary_round_trip(d, after);
        crate::tuple::lemma_items_bits_take(items, j as int);
        assert(items.take(k as int).map_values(|d: Seq<u8>| bits_of(d)) =~= items.take(
            j as int,
        ).map_values(|d: Seq<u8>| bits_of(d)).push(bits_of(d)));
    }
}

/// Decoding a tuple reads back what encoding it wrote: the wire form of
/// `items`, followed by whole bytes `rest`, starts with their count, and the
/// byte strings that follow it are `items`, ending where the wire form ends.
pub proof fn law_tuple_round_trip(items: Seq<Seq<u8>>, rest: Seq<bool>)
    requires
        items.len() <= MAX_U62,
        items.len() <= usize::MAX,
        forall|i: int| 0 <= i < items.len() ==> (#[trigger] items[i]).len() <= MAX_U62,
        forall|i: int| 0 <= i < items.len() ==> (#[trigger] items[i]).len() <= usize::MAX,
        rest.len() % 8 == 0,
    ensures
        ({
            let u = tuple_bits(items) + rest;
            let h = header_len(u);
            &&& decodable(u)
            &&& h == varint_bits(items.len()).len()
            &&& as_count(header_value(u)) == items.len()
            &&& parse_items(u.skip(h as int), items.len()) == Some(
                (items.map_values(|d: Seq<u8>| bits_of(d)), items_bits(items).len()),
            )
            &&& u.skip(tuple_bits(items).len() as int) == rest
        }),
{
    let u = tuple_bits(items) + rest;
    crate::tuple::lemma_items_bits_whole_bytes(items);
    assert(u =~= varint_bits(items.len()) + (items_bits(items) + rest));
    law_number_round_trip(items.len(), items_bits(items) + rest);
    lemma_parse_items_prefix(items, rest, items.len());
    assert(items.take(items.len() as int) =~= items);
    assert(u.skip(varint_bits(items.len()).len() as int) =~= items_bits(items) + rest);
    assert(u.skip(tuple_bits(items).len() as int) =~= rest);
}

/// A read gives back what a write wrote: where the unread bits start with
/// the `n` bits that writing `n` bits of `bits` added, followed by `rest`,
/// reading `n` bits hands out bytes whose last `n` bits are those bits, and
/// which read as a big-endian number give the number they spell; `rest` is
/// left to read.
pub proof fn law_read_back_written(bits: Seq<u8>, n: nat, rest: Seq<bool>)
    requires
        bytes_for(n) <= bits.len(),
    ensures
        ({
            let w = bits_of(bits).take(n as int);
            &&& last_bits(read_bits_result(w + rest, n), n) == w
            &&& value_of(read_bits_result(w + rest, n)) == value_of(w)
            &&& (w + rest).skip(n as int) == rest
        }),
{
    let w = bits_of(bits).take(n as int);
    assert(bits_of(bits).len() == 8 * bits.len());
    assert((w + rest).take(n as int) =~= w);
    assert((w + rest).skip(n as int) =~= rest);
    lemma_read_bits_result(w + rest, n);
}

/// Decoding a range of `l` bits reads back what encoding it with `l` wrote:
/// where the stored bytes hold all `l` bits, the bits written are the
/// range's bits, and the first `l` bits of them followed by anything are
/// those bits again.
pub proof fn law_bit_range_round_trip(stored: Seq<u8>, l: nat, rest: Seq<bool>)
    requires
        bytes_for(l) <= stored.len(),
    ensures
        bits_of(stored).take(l as int) == padded_bits(stored, l),
        (bits_of(stored).take(l as int) + rest).take(l as int) == padded_bits(stored, l),
        (bits_of(stored).take(l as int) + rest).skip(l as int) == rest,
{
    assert(l <= 8 * stored.len());
    lemma_padded_prefix(stored, l);
    assert(bits_of(stored).len() == 8 * stored.len());
    assert((bits_of(stored).take(l as int) + rest).take(l as int) =~= bits_of(stored).take(
        l as int,
    ));
    assert((bits_of(stored).take(l as int) + rest).skip(l as int) =~= rest);
}

/// Decoding a track name reads back what encoding it wrote, for names of
/// whole bytes: the wire form, followed by whole bytes `rest`, starts with
/// the byte count of the name, followed by the name's bits.
pub proof fn law_name_round_trip(stored: Seq<u8>, l: nat, rest: Seq<bool>)
    requires
        l % 8 == 0,
        l / 8 <= MAX_U62,
        l / 8 <= usize::MAX,
        bytes_for(l) <= stored.len(),
        rest.len() % 8 == 0,
    ensures
        ({
            let u = name_bits(stored, l) + rest;
            let h = header_len(u);
            let n = as_count(header_value(u));
            &&& decodable(u)
            &&& h + 8 * n <= u.len()
            &&& 8 * n == l
            &&& u.subrange(h as int, (h + 8 * n) as int) == padded_bits(stored, l)
            &&& h + 8 * n == name_bits(stored, l).len()
            &&& u.skip(name_bits(stored, l).len() as int) == rest
        }),
{
    let u = name_bits(stored, l) + rest;
    let body = bits_of(stored).take(l as int);
    assert(l <= 8 * stored.len());
    assert(bits_of(stored).len() == 8 * stored.len());
    assert(body.len() == l);
    assert(u =~= varint_bits(l / 8) + (body + rest));
    law_number_round_trip(l / 8, body + rest);
    lemma_varint_bits_len(l / 8);
    let h = varint_bits(l / 8).len();
    lemma_padded_prefix(stored, l);
    assert(u.subrange(h as int, (h + l) as int) =~= body);
    assert(u.skip((h + l) as int) =~= rest);
}

/// Decoding a number of `n` bits reads back what encoding it wrote:
/// encoding a number `v` of `n` bits writes `v` in `n` bits; the first `n`
/// bits of that, followed by `rest`, spell `v` again, and `rest` is left.
pub proof fn law_bit_number_round_trip(v: nat, n: nat, rest: Seq<bool>)
    requires
        v < exp2(n),
    ensures
        value_of((to_bits(v, n) + rest).take(n as int)) == v,
        (to_bits(v, n) + rest).skip(n as int) == rest,
{
    lemma_to_bits(v, n);
    assert((to_bits(v, n) + rest).take(n as int) =~= to_bits(v, n));
    assert((to_bits(v, n) + rest).skip(n as int) =~= rest);
}

/// Decoding a parameter with an even key reads back what encoding it wrote:
/// the key, then the number value, then `rest`.
pub proof fn law_kvp_number_round_trip(key: nat, v: nat, rest: Seq<bool>)
    requires
        key <= MAX_U62,
        v <= MAX_U62,
        rest.len() % 8 == 0,
    ensures
        ({
            let u = varint_bits(key) + varint_bits(v) + rest;
            let h1 = header_len(u);
            let w = u.skip(h1 as int);
            &&& decodable(u)
            &&& header_value(u) == key
            &&& h1 == varint_bits(key).len()
            &&& decodable(w)
            &&& header_value(w) == v
            &&& header_len(w) == varint_bits(v).len()
            &&& w.skip(header_len(w) as int) == rest
        }),
{
    let u = varint_bits(key) + varint_bits(v) + rest;
    lemma_varint_bits_len(v);
    assert(u =~= varint_bits(key) + (varint_bits(v) + rest));
    law_number_round_trip(key, varint_bits(v) + rest);
    law_number_round_trip(v, rest);
}

/// Decoding a parameter with an odd key reads back what encoding it wrote,
/// for byte values of whole bytes: the key, then the byte count, then the
/// bytes, then `rest`.
pub proof fn law_kvp_bytes_round_trip(key: nat, stored: Seq<u8>, l: nat, rest: Seq<bool>)
    requires
        key <= MAX_U62,
        l % 8 == 0,
        l / 8 <= MAX_U62,
        l / 8 <= usize::MAX,
        bytes_for(l) <= stored.len(),
        rest.len() % 8 == 0,
    ensures
        ({
            let u = varint_bits(key) + name_bits(stored, l) + rest;
            let h1 = header_len(u);
            let w = u.skip(h1 as int);
            let h2 = header_len(w);
            let n = as_count(header_value(w));
            &&& decodable(u)
            &&& header_value(u) == key
            &&& h1 == varint_bits(key).len()
            &&& decodable(w)
            &&& 8 * n == l
            &&& h2 + 8 * n <= w.len()
            &&& w.subrange(h2 as int, (h2 + 8 * n) as int) == padded_bits(stored, l)
            &&& w.skip((h2 + 8 * n) as int) == rest
        }),
{
    let u = varint_bits(key) + name_bits(stored, l) + rest;
    law_name_round_trip(stored, l, rest);
    crate::bits::lemma_bits_of_value(stored);
    assert(l <= 8 * stored.len());
    lemma_varint_bits_len(l / 8);
    assert(name_bits(stored, l).len() == varint_bits(l / 8).len() + l);
    assert((name_bits(stored, l) + rest).len() % 8 == 0);
    assert(u =~= varint_bits(key) + (name_bits(stored, l) + rest));
    law_number_round_trip(key, name_bits(stored, l) + rest);
}

/// Converting a number `v` into a primitive integer type succeeds exactly
/// when `v` is no larger than the type's largest value, and then gives `v`;
/// otherwise the error holds the number and that largest value.
pub proof fn law_number_to_int<T: Integral>(v: nat, r: Result<T, NumberConversion<T>>)
    requires
        v <= MAX_U62,
        number_to_int(v, r),
    ensures
        r is Ok <==> v <= T::max_int(),
        r matches Ok(x) ==> x.as_int() == v,
        r matches Err(e) ==> (e matches NumberConversion::UnFit { value, max } && value.value() == v
            && max.as_int() == T::max_int()),
{
    let x: T = arbitrary();
    x.lemma_int_range();
}

/// Converting a primitive integer into a number succeeds exactly when the
/// integer is not negative and no larger than the largest number, and then
/// gives the integer.
pub proof fn law_number_from_int<T: Integral>(value: T, r: Result<Number, NumberConversion<T>>)
    requires
        number_from_int(value, r),
    ensures
        r is Ok <==> 0 <= value.as_int() <= MAX_U62,
        r matches Ok(n) ==> n.value() == value.as_int(),
{
}

/// Converting the number `v` of a fixed-width number into a primitive
/// integer type succeeds exactly when `v` is no larger than the type's
/// largest value, and then gives `v`.
pub proof fn law_bit_number_to_int<T: Integral>(v: nat, r: Result<T, ConversionError<T>>)
    requires
        v <= u128::MAX,
        bit_number_to_int(v, r),
    ensures
        r is Ok <==> v <= T::max_int(),
        r matches Ok(x) ==> x.as_int() == v,
{
}

/// Converting the number `v` of a bit range into a primitive integer type
/// succeeds exactly when `v` is no larger than the type's largest value, and
/// then gives `v`.
pub proof fn law_bit_range_to_int<T: Integral>(v: nat, r: Result<T, BitRangeConversion<T>>)
    requires
        v <= u128::MAX,
        bit_range_to_int(v, r),
    ensures
        r is Ok <==> v <= T::max_int(),
        r matches Ok(x) ==> x.as_int() == v,
{
}

/// The bit count of a parameter is the length of what encoding it writes:
/// the key as a number, then a number value as a number, or the byte count
/// and the bits of a byte value.
pub proof fn law_kvp_len(key: nat, value: Value)
    requires
        value matches Value::Bytes(b) ==> bytes_for(b.bit_count()) <= b.stored().len(),
    ensures
        kvp_len(key, value) == kvp_bits(key, value).len(),
        value matches Value::Number(n) ==> kvp_len(key, value) == varint_bits(key).len()
            + varint_bits(n.value()).len(),
{
    match value {
        Value::Number(n) => {},
        Value::Bytes(b) => {
            assert(bits_of(b.stored()).len() == 8 * b.stored().len());
            assert(name_bits(b.stored(), b.bit_count()).len() == varint_bits(b.bit_count() / 8).len()
                + b.bit_count());
        },
    }
}

/// A text of decimal digits is read whole, in base 10, as the number its
/// digits spell: a leading zero picks no other base.
pub proof fn law_decimal_text(s: Seq<u8>, signed: bool)
    requires
        s.len() > 0,
        forall|i: int| 0 <= i < s.len() ==> 48 <= #[trigger] s[i] <= 57,
    ensures
        prefix_radix(s) == (s, 10nat),
        radix_number(prefix_radix(s).0, prefix_radix(s).1, signed) == Some(
            digits_value(s, 10) as int,
        ),
{
}

/// A `0b`, `0o` or `0x` prefix picks base 2, 8 or 16 for the digits after it.
pub proof fn law_radix_prefix(d: Seq<u8>)
    ensures
        prefix_radix(seq![48u8, 98u8] + d) == (d, 2nat),
        prefix_radix(seq![48u8, 111u8] + d) == (d, 8nat),
        prefix_radix(seq![48u8, 120u8] + d) == (d, 16nat),
{
    assert((seq![48u8, 98u8] + d).skip(2) =~= d);
    assert((seq![48u8, 111u8] + d).skip(2) =~= d);
    assert((seq![48u8, 120u8] + d).skip(2) =~= d);
}

/// Digits are read most significant first: the digits `a` followed by the
/// digits `b` spell the number of `a`, shifted past the digits of `b`, plus
/// the number of `b`.
pub proof fn law_digits_concat(a: Seq<u8>, b: Seq<u8>, radix: nat)
    ensures
        digits_value(a + b, radix) == digits_value(a, radix) * pow(radix as int, b.len())
            + digits_value(b, radix),
    decreases b.len(),
{
    if b.len() == 0 {
        lemma_pow0(radix as int);
        assert(a + b =~= a);
    } else {
        let b1 = b.drop_last();
        assert((a + b).drop_last() =~= a + b1);
        assert((a + b).last() == b.last());
        law_digits_concat(a, b1, radix);
        let x = digits_value(a, radix);
        let p = pow(radix as int, b1.len());
        let y = digits_value(b1, radix);
        lemma_pow_adds(radix as int, b1.len(), 1);
        lemma_pow1(radix as int);
        assert(b1.len() + 1 == b.len());
        assert(pow(radix as int, b.len()) == p * radix);
        assert(p * radix == radix * p) by (nonlinear_arith);
        assert(digits_value(b, radix) == y * radix + digit_value(b.last()));
        assert(digits_value(a + b, radix) == digits_value(a + b1, radix) * radix + digit_value(
            b.last(),
        ));
        assert((x * p + y) * radix == x * (radix * p) + y * radix) by (nonlinear_arith);
    }
}

/// A number is encoded in the fewest of one, two, four or eight bytes
/// whose value bits (two fewer than the bits of the bytes) hold it.
pub proof fn law_number_smallest_encoding(v: nat)
    requires
        v <= MAX_U62,
    ensures
        ({
            let k = varint_bits(v).len();
            &&& k == 8 || k == 16 || k == 32 || k == 64
            &&& v < exp2((k - 2) as nat)
            &&& k > 8 ==> v >= exp2(6)
            &&& k > 16 ==> v >= exp2(14)
            &&& k > 32 ==> v >= exp2(30)
        }),
{
    lemma_varint_bits_len(v);
    lemma_exp2_values();
    lemma_exp2_add(8, 6);
    lemma_exp2_add(8, 8);
    assert(exp2(14) == 16384);
    assert(exp2(16) == 65536);
    lemma_exp2_add(16, 14);
    assert(exp2(30) == exp2(16) * exp2(14));
    assert(exp2(30) == 0x4000_0000);
    lemma_exp2_add(16, 16);
    assert(exp2(32) == exp2(16) * exp2(16));
    assert(exp2(32) == 0x1_0000_0000);
    lemma_exp2_add(30, 32);
    assert(exp2(62) == exp2(30) * exp2(32));
    assert(exp2(62) == 0x4000_0000_0000_0000);
}

} // verus!
