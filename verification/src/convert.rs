//! Comparing the library's numbers with primitive integers, and converting
//! between the two.
use crate::bit_number::{BitNumber, BitNumberError};
use crate::bit_range::{BitRange, BitRangeError};
use crate::number::{Number, NumberError, MAX_U62};
use crate::parse::Integral;
use std::time::Duration;
use vstd::prelude::*;
use vstd::std_specs::cmp::PartialEqSpecImpl;
use vstd::std_specs::convert::{FromSpecImpl, TryFromSpecImpl};

verus! {

/// The low 64 bits of `o`: what is left of a primitive integer once it is
/// cut to a `u64`, as [Number] reads the integers it meets.
pub open spec fn low_u64(o: int) -> int {
    o % 0x1_0000_0000_0000_0000
}

/// What a number reads as once taken as a `u128`: the number itself, or zero
/// where it does not fit.
pub open spec fn as_u128_or_zero(v: nat) -> nat {
    if v <= u128::MAX {
        v
    } else {
        0
    }
}

/// The low 64 bits of `o`.
pub(crate) fn low_bits_u64(o: u128) -> (r: u64)
    ensures
        r == low_u64(o as int),
{
    let r = o as u64;
    assert(r == o % 0x1_0000_0000_0000_0000) by (bit_vector)
        requires
            r == o as u64,
    ;
    r
}

/// Error for TryFrom/Into of [Number]
#[derive(Debug, PartialEq, Clone)]
pub enum NumberConversion<I: Integral> {
    /// Error when trying to create a [Number] from a negative integer
    IsNegative { value: I },
    /// Error when [Number] cannot be created from value
    Invalid { value: I, source: NumberError },
    /// Error when trying to cast a Number into a too small type
    UnFit { value: Number, max: I },
}

/// Error for TryFrom/Into of [BitNumber]
#[derive(Debug, PartialEq)]
pub enum ConversionError<I: Integral> {
    /// Error when trying to create a [BitNumber] from a negative integer
    IsNegative { value: I },
    /// Error when [BitNumber::new] fails
    Invalid { value: I, source: BitNumberError<u128> },
    /// Error when trying to cast a BitNumber into a too small type
    UnFit { value: u128, max: I },
}

/// Error for TryFrom/Into of [BitRange]
#[derive(Debug, PartialEq, Clone)]
pub enum BitRangeConversion<I: Integral> {
    /// Error when trying to create a [BitRange] from a negative integer
    IsNegative { value: I },
    /// Error when [BitRange] cannot be created from value
    Invalid { value: I, source: BitRangeError },
    /// Error when trying to cast a BitRange into a too small type
    UnFit { value: u128, max: I },
}

/// What converting `value` into a [Number] gives: an error for a negative
/// value or one larger than a number can hold; otherwise the value.
pub open spec fn number_from_int<T: Integral>(value: T, r: Result<Number, NumberConversion<T>>) -> bool {
    let t = value.as_int();
    if value.as_int() < 0 {
        r == Err::<Number, NumberConversion<T>>(NumberConversion::IsNegative { value })
    } else if t <= MAX_U62 {
        r matches Ok(n) && n.value() == t
    } else {
        r == Err::<Number, NumberConversion<T>>(
            NumberConversion::Invalid { value, source: NumberError::TooLarge { num: t as u128 } },
        )
    }
}

/// What converting the number `v` into a `T` gives: the number, where it is
/// no larger than the low 64 bits of `T`'s largest value.
pub open spec fn number_to_int<T: Integral>(v: nat, r: Result<T, NumberConversion<T>>) -> bool {
    if v <= low_u64(T::max_int()) {
        r matches Ok(x) && x.as_int() == v
    } else {
        r matches Err(NumberConversion::UnFit { value, max }) && value.value() == v && max.as_int()
            == T::max_int()
    }
}

/// What converting `value` into a [BitNumber] gives: an error for a negative
/// value, else what [BitNumber::new] gives for it.
pub open spec fn bit_number_from_int<T: Integral, const N: usize, const MIN: u128, const MAX: u128>(
    value: T,
    r: Result<BitNumber<N, MIN, MAX>, ConversionError<T>>,
) -> bool {
    if value.as_int() < 0 {
        r == Err::<BitNumber<N, MIN, MAX>, ConversionError<T>>(
            ConversionError::IsNegative { value },
        )
    } else {
        match BitNumber::<N, MIN, MAX>::set_error(value.as_int() as u128) {
            None => r matches Ok(n) && n.value() == value.as_int(),
            Some(e) => r == Err::<BitNumber<N, MIN, MAX>, ConversionError<T>>(
                ConversionError::Invalid { value, source: e },
            ),
        }
    }
}

/// What converting a number `v` of a [BitNumber] into a `T` gives: the
/// number as a `u128` reads it, where `T` holds that.
pub open spec fn bit_number_to_int<T: Integral>(v: nat, r: Result<T, ConversionError<T>>) -> bool {
    let w = as_u128_or_zero(v);
    if w <= T::max_int() {
        r matches Ok(x) && x.as_int() == w
    } else {
        r matches Err(ConversionError::UnFit { value, max }) && value == w && max.as_int()
            == T::max_int()
    }
}

/// What converting `value` into a [BitRange] gives: an error for a negative
/// value, else what [BitRange::new_number] gives for it.
pub open spec fn bit_range_from_int<T: Integral, const MIN: usize, const MAX: usize>(
    value: T,
    r: Result<BitRange<MIN, MAX>, BitRangeConversion<T>>,
) -> bool {
    if value.as_int() < 0 {
        r == Err::<BitRange<MIN, MAX>, BitRangeConversion<T>>(
            BitRangeConversion::IsNegative { value },
        )
    } else {
        match BitRange::<MIN, MAX>::set_number_error(value.as_int() as nat, None) {
            None => r matches Ok(b) && b.value() == value.as_int(),
            Some(e) => r == Err::<BitRange<MIN, MAX>, BitRangeConversion<T>>(
                BitRangeConversion::Invalid { value, source: e },
            ),
        }
    }
}

/// What converting a number `v` of a [BitRange] into a `T` gives: the number
/// as a `u128` reads it, where `T` holds that.
pub open spec fn bit_range_to_int<T: Integral>(v: nat, r: Result<T, BitRangeConversion<T>>) -> bool {
    let w = as_u128_or_zero(v);
    if w <= T::max_int() {
        r matches Ok(x) && x.as_int() == w
    } else {
        r matches Err(BitRangeConversion::UnFit { value, max }) && value == w && max.as_int()
            == T::max_int()
    }
}

impl Number {
    /// Converts a primitive integer into a number.
    pub fn try_from_int<T: Integral>(value: T) -> (r: Result<Number, NumberConversion<T>>)
        ensures
            number_from_int(value, r),
    {
        let o = match value.to_u128() {
            Some(o) => o,
            None => return Err(NumberConversion::IsNegative { value }),
        };
        proof {
            value.lemma_int_range();
        }
        match Number::new_number(o, None) {
            Ok(n) => Ok(n),
            Err(e) => Err(NumberConversion::Invalid { value, source: e }),
        }
    }

    /// Converts the number into a primitive integer.
    pub fn to_int<T: Integral>(&self) -> (r: Result<T, NumberConversion<T>>)
        ensures
            number_to_int(self.value(), r),
    {
        let max = T::max_value();
        proof {
            max.lemma_int_range();
        }
        let m = match max.to_u128() {
            Some(m) => m,
            None => return Err(NumberConversion::UnFit { value: self.clone(), max }),
        };
        let v = self.number::<u64>();
        if v > low_bits_u64(m) {
            return Err(NumberConversion::UnFit { value: self.clone(), max });
        }
        proof {
            assert(low_u64(m as int) <= m);
        }
        Ok(T::from_u128(v as u128))
    }
}

impl<const N: usize, const MIN: u128, const MAX: u128> BitNumber<N, MIN, MAX> {
    /// Converts a primitive integer into a number of `N` bits.
    pub fn try_from_int<T: Integral>(value: T) -> (r: Result<Self, ConversionError<T>>)
        ensures
            bit_number_from_int(value, r),
    {
        let o = match value.to_u128() {
            Some(o) => o,
            None => return Err(ConversionError::IsNegative { value }),
        };
        match Self::new(o) {
            Ok(n) => Ok(n),
            Err(e) => Err(ConversionError::Invalid { value, source: e }),
        }
    }

    /// Converts the number into a primitive integer.
    pub fn to_int<T: Integral>(&self) -> (r: Result<T, ConversionError<T>>)
        ensures
            bit_number_to_int(self.value(), r),
    {
        let max = T::max_value();
        proof {
            max.lemma_int_range();
        }
        let m = match max.to_u128() {
            Some(m) => m,
            None => return Err(ConversionError::UnFit { value: self.number::<u128>(), max }),
        };
        let v = self.number::<u128>();
        if v > m {
            return Err(ConversionError::UnFit { value: v, max });
        }
        Ok(T::from_u128(v))
    }
}

impl<const MIN: usize, const MAX: usize> BitRange<MIN, MAX> {
    /// Converts a primitive integer into a range of as many bits as it needs.
    pub fn try_from_int<T: Integral>(value: T) -> (r: Result<Self, BitRangeConversion<T>>)
        ensures
            bit_range_from_int(value, r),
    {
        let o = match value.to_u128() {
            Some(o) => o,
            None => return Err(BitRangeConversion::IsNegative { value }),
        };
        match Self::new_number(o, None) {
            Ok(n) => Ok(n),
            Err(e) => Err(BitRangeConversion::Invalid { value, source: e }),
        }
    }

    /// Converts the number held into a primitive integer.
    pub fn to_int<T: Integral>(&self) -> (r: Result<T, BitRangeConversion<T>>)
        ensures
            bit_range_to_int(self.value(), r),
    {
        let max = T::max_value();
        proof {
            max.lemma_int_range();
        }
        let m = match max.to_u128() {
            Some(m) => m,
            None => return Err(BitRangeConversion::UnFit { value: self.number::<u128>(), max }),
        };
        let v = self.number::<u128>();
        if v > m {
            return Err(BitRangeConversion::UnFit { value: v, max });
        }
        Ok(T::from_u128(v))
    }
}

impl<T: Integral> PartialEq<T> for Number {
    fn eq(&self, other: &T) -> (r: bool) {
        match other.to_u128() {
            None => false,
            Some(o) => {
                let v = self.number::<u64>();
                o == v as u128
            },
        }
    }
}

impl<T: Integral> PartialEqSpecImpl<T> for Number {
    open spec fn obeys_eq_spec() -> bool {
        true
    }

    open spec fn eq_spec(&self, other: &T) -> bool {
        other.as_int() == self.value()
    }
}

impl<T: Integral, const N: usize, const MIN: u128, const MAX: u128> PartialEq<T> for BitNumber<N, MIN, MAX> {
    fn eq(&self, other: &T) -> (r: bool) {
        match other.to_u128() {
            None => false,
            Some(o) => o == self.number::<u128>(),
        }
    }
}

impl<T: Integral, const N: usize, const MIN: u128, const MAX: u128> PartialEqSpecImpl<T> for BitNumber<N, MIN, MAX> {
    open spec fn obeys_eq_spec() -> bool {
        true
    }

    open spec fn eq_spec(&self, other: &T) -> bool {
        other.as_int() >= 0 && other.as_int() == as_u128_or_zero(self.value())
    }
}

impl<T: Integral, const MIN: usize, const MAX: usize> PartialEq<T> for BitRange<MIN, MAX> {
    fn eq(&self, other: &T) -> (r: bool) {
        match other.to_u128() {
            None => false,
            Some(o) => o == self.number::<u128>(),
        }
    }
}

impl<T: Integral, const MIN: usize, const MAX: usize> PartialEqSpecImpl<T> for BitRange<MIN, MAX> {
    open spec fn obeys_eq_spec() -> bool {
        true
    }

    open spec fn eq_spec(&self, other: &T) -> bool {
        other.as_int() >= 0 && other.as_int() == as_u128_or_zero(self.value())
    }
}

/// The whole milliseconds of a duration, as `Duration::as_millis` gives them.
pub uninterp spec fn duration_millis(d: Duration) -> u128;

/// `Duration::from_millis`: a duration of `ms` milliseconds, whose whole
/// milliseconds are `ms` again.
#[verifier::external_body]
fn duration_from_millis(ms: u64) -> (r: Duration)
    ensures
        duration_millis(r) == ms,
{
    Duration::from_millis(ms)
}

/// `Duration::as_millis`: the total number of whole milliseconds.
#[verifier::external_body]
fn duration_as_millis(d: &Duration) -> (r: u128)
    ensures
        r == duration_millis(*d),
{
    d.as_millis()
}

impl From<Number> for Duration {
    /// A number read as milliseconds.
    fn from(value: Number) -> (r: Self)
        ensures
            duration_millis(r) == value.value(),
    {
        duration_from_millis(value.number())
    }
}

/// The impl's own `ensures` says what the conversion gives.
impl FromSpecImpl<Number> for Duration {
    open spec fn obeys_from_spec() -> bool {
        false
    }

    open spec fn from_spec(v: Number) -> Self {
        arbitrary()
    }
}

impl TryFrom<Duration> for Number {
    type Error = NumberError;

    /// The whole milliseconds of a duration, where a number can hold them.
    fn try_from(value: Duration) -> (r: Result<Self, NumberError>)
        ensures
            duration_millis(value) <= MAX_U62 ==> (r matches Ok(n) && n.value() == duration_millis(
                value,
            )),
            duration_millis(value) > MAX_U62 ==> r == Err::<Self, NumberError>(
                NumberError::TooLarge { num: duration_millis(value) },
            ),
    {
        Number::new_number(duration_as_millis(&value), None)
    }
}

/// The impl's own `ensures` says what the conversion gives.
impl TryFromSpecImpl<Duration> for Number {
    open spec fn obeys_try_from_spec() -> bool {
        false
    }

    open spec fn try_from_spec(v: Duration) -> Result<Self, NumberError> {
        arbitrary()
    }
}

impl From<u8> for Number {
    fn from(value: u8) -> (r: Self)
        ensures
            r.value() == value,
    {
        Self::new(value)
    }
}

/// A number's store is built afresh, so the impl's own `ensures` says what
/// the conversion gives.
impl FromSpecImpl<u8> for Number {
    open spec fn obeys_from_spec() -> bool {
        false
    }

    open spec fn from_spec(v: u8) -> Self {
        arbitrary()
    }
}

impl From<u16> for Number {
    fn from(value: u16) -> (r: Self)
        ensures
            r.value() == value,
    {
        Self::new(value)
    }
}

/// See the conversion from `u8`.
impl FromSpecImpl<u16> for Number {
    open spec fn obeys_from_spec() -> bool {
        false
    }

    open spec fn from_spec(v: u16) -> Self {
        arbitrary()
    }
}

impl From<u32> for Number {
    fn from(value: u32) -> (r: Self)
        ensures
            r.value() == value,
    {
        Self::new(value)
    }
}

/// See the conversion from `u8`.
impl FromSpecImpl<u32> for Number {
    open spec fn obeys_from_spec() -> bool {
        false
    }

    open spec fn from_spec(v: u32) -> Self {
        arbitrary()
    }
}

impl From<Number> for u64 {
    fn from(value: Number) -> (r: Self) {
        value.number()
    }
}

impl FromSpecImpl<Number> for u64 {
    open spec fn obeys_from_spec() -> bool {
        true
    }

    open spec fn from_spec(v: Number) -> Self {
        v.value() as u64
    }
}

impl From<Number> for u128 {
    fn from(value: Number) -> (r: Self) {
        value.number()
    }
}

impl FromSpecImpl<Number> for u128 {
    open spec fn obeys_from_spec() -> bool {
        true
    }

    open spec fn from_spec(v: Number) -> Self {
        v.value() as u128
    }
}

impl TryFrom<u64> for Number {
    type Error = NumberConversion<u64>;

    fn try_from(value: u64) -> (r: Result<Self, NumberConversion<u64>>)
        ensures
            number_from_int(value, r),
    {
        Self::try_from_int(value)
    }
}

/// The conversion's own `ensures` says what it gives.
impl TryFromSpecImpl<u64> for Number {
    open spec fn obeys_try_from_spec() -> bool {
        false
    }

    open spec fn try_from_spec(v: u64) -> Result<Self, NumberConversion<u64>> {
        arbitrary()
    }
}

impl TryFrom<u128> for Number {
    type Error = NumberConversion<u128>;

    fn try_from(value: u128) -> (r: Result<Self, NumberConversion<u128>>)
        ensures
            number_from_int(value, r),
    {
        Self::try_from_int(value)
    }
}

/// The conversion's own `ensures` says what it gives.
impl TryFromSpecImpl<u128> for Number {
    open spec fn obeys_try_from_spec() -> bool {
        false
    }

    open spec fn try_from_spec(v: u128) -> Result<Self, NumberConversion<u128>> {
        arbitrary()
    }
}

impl TryFrom<usize> for Number {
    type Error = NumberConversion<usize>;

    fn try_from(value: usize) -> (r: Result<Self, NumberConversion<usize>>)
        ensures
            number_from_int(value, r),
    {
        Self::try_from_int(value)
    }
}

/// The conversion's own `ensures` says what it gives.
impl TryFromSpecImpl<usize> for Number {
    open spec fn obeys_try_from_spec() -> bool {
        false
    }

    open spec fn try_from_spec(v: usize) -> Result<Self, NumberConversion<usize>> {
        arbitrary()
    }
}

impl TryFrom<i8> for Number {
    type Error = NumberConversion<i8>;

    fn try_from(value: i8) -> (r: Result<Self, NumberConversion<i8>>)
        ensures
            number_from_int(value, r),
    {
        Self::try_from_int(value)
    }
}

/// The conversion's own `ensures` says what it gives.
impl TryFromSpecImpl<i8> for Number {
    open spec fn obeys_try_from_spec() -> bool {
        false
    }

    open spec fn try_from_spec(v: i8) -> Result<Self, NumberConversion<i8>> {
        arbitrary()
    }
}

impl TryFrom<i16> for Number {
    type Error = NumberConversion<i16>;

    fn try_from(value: i16) -> (r: Result<Self, NumberConversion<i16>>)
        ensures
            number_from_int(value, r),
    {
        Self::try_from_int(value)
    }
}

/// The conversion's own `ensures` says what it gives.
impl TryFromSpecImpl<i16> for Number {
    open spec fn obeys_try_from_spec() -> bool {
        false
    }

    open spec fn try_from_spec(v: i16) -> Result<Self, NumberConversion<i16>> {
        arbitrary()
    }
}

impl TryFrom<i32> for Number {
    type Error = NumberConversion<i32>;

    fn try_from(value: i32) -> (r: Result<Self, NumberConversion<i32>>)
        ensures
            number_from_int(value, r),
    {
        Self::try_from_int(value)
    }
}

/// The conversion's own `ensures` says what it gives.
impl TryFromSpecImpl<i32> for Number {
    open spec fn obeys_try_from_spec() -> bool {
        false
    }

    open spec fn try_from_spec(v: i32) -> Result<Self, NumberConversion<i32>> {
        arbitrary()
    }
}

impl TryFrom<i64> for Number {
    type Error = NumberConversion<i64>;

    fn try_from(value: i64) -> (r: Result<Self, NumberConversion<i64>>)
        ensures
            number_from_int(value, r),
    {
        Self::try_from_int(value)
    }
}

/// The conversion's own `ensures` says what it gives.
impl TryFromSpecImpl<i64> for Number {
    open spec fn obeys_try_from_spec() -> bool {
        false
    }

    open spec fn try_from_spec(v: i64) -> Result<Self, NumberConversion<i64>> {
        arbitrary()
    }
}

impl TryFrom<i128> for Number {
    type Error = NumberConversion<i128>;

    fn try_from(value: i128) -> (r: Result<Self, NumberConversion<i128>>)
        ensures
            number_from_int(value, r),
    {
        Self::try_from_int(value)
    }
}

/// The conversion's own `ensures` says what it gives.
impl TryFromSpecImpl<i128> for Number {
    open spec fn obeys_try_from_spec() -> bool {
        false
    }

    open spec fn try_from_spec(v: i128) -> Result<Self, NumberConversion<i128>> {
        arbitrary()
    }
}

impl TryFrom<isize> for Number {
    type Error = NumberConversion<isize>;

    fn try_from(value: isize) -> (r: Result<Self, NumberConversion<isize>>)
        ensures
            number_from_int(value, r),
    {
        Self::try_from_int(value)
    }
}

/// The conversion's own `ensures` says what it gives.
impl TryFromSpecImpl<isize> for Number {
    open spec fn obeys_try_from_spec() -> bool {
        false
    }

    open spec fn try_from_spec(v: isize) -> Result<Self, NumberConversion<isize>> {
        arbitrary()
    }
}

impl TryFrom<Number> for u8 {
    type Error = NumberConversion<u8>;

    fn try_from(value: Number) -> (r: Result<Self, NumberConversion<u8>>)
        ensures
            number_to_int(value.value(), r),
    {
        value.to_int()
    }
}

/// The conversion's own `ensures` says what it gives.
impl TryFromSpecImpl<Number> for u8 {
    open spec fn obeys_try_from_spec() -> bool {
        false
    }

    open spec fn try_from_spec(v: Number) -> Result<Self, NumberConversion<u8>> {
        arbitrary()
    }
}

impl TryFrom<Number> for u16 {
    type Error = NumberConversion<u16>;

    fn try_from(value: Number) -> (r: Result<Self, NumberConversion<u16>>)
        ensures
            number_to_int(value.value(), r),
    {
        value.to_int()
    }
}

/// The conversion's own `ensures` says what it gives.
impl TryFromSpecImpl<Number> for u16 {
    open spec fn obeys_try_from_spec() -> bool {
        false
    }

    open spec fn try_from_spec(v: Number) -> Result<Self, NumberConversion<u16>> {
        arbitrary()
    }
}

impl TryFrom<Number> for u32 {
    type Error = NumberConversion<u32>;

    fn try_from(value: Number) -> (r: Result<Self, NumberConversion<u32>>)
        ensures
            number_to_int(value.value(), r),
    {
        value.to_int()
    }
}

/// The conversion's own `ensures` says what it gives.
impl TryFromSpecImpl<Number> for u32 {
    open spec fn obeys_try_from_spec() -> bool {
        false
    }

    open spec fn try_from_spec(v: Number) -> Result<Self, NumberConversion<u32>> {
        arbitrary()
    }
}

impl TryFrom<Number> for usize {
    type Error = NumberConversion<usize>;

    fn try_from(value: Number) -> (r: Result<Self, NumberConversion<usize>>)
        ensures
            number_to_int(value.value(), r),
    {
        value.to_int()
    }
}

/// The conversion's own `ensures` says what it gives.
impl TryFromSpecImpl<Number> for usize {
    open spec fn obeys_try_from_spec() -> bool {
        false
    }

    open spec fn try_from_spec(v: Number) -> Result<Self, NumberConversion<usize>> {
        arbitrary()
    }
}

impl TryFrom<Number> for i8 {
    type Error = NumberConversion<i8>;

    fn try_from(value: Number) -> (r: Result<Self, NumberConversion<i8>>)
        ensures
            number_to_int(value.value(), r),
    {
        value.to_int()
    }
}

/// The conversion's own `ensures` says what it gives.
impl TryFromSpecImpl<Number> for i8 {
    open spec fn obeys_try_from_spec() -> bool {
        false
    }

    open spec fn try_from_spec(v: Number) -> Result<Self, NumberConversion<i8>> {
        arbitrary()
    }
}

impl TryFrom<Number> for i16 {
    type Error = NumberConversion<i16>;

    fn try_from(value: Number) -> (r: Result<Self, NumberConversion<i16>>)
        ensures
            number_to_int(value.value(), r),
    {
        value.to_int()
    }
}

/// The conversion's own `ensures` says what it gives.
impl TryFromSpecImpl<Number> for i16 {
    open spec fn obeys_try_from_spec() -> bool {
        false
    }

    open spec fn try_from_spec(v: Number) -> Result<Self, NumberConversion<i16>> {
        arbitrary()
    }
}

impl TryFrom<Number> for i32 {
    type Error = NumberConversion<i32>;

    fn try_from(value: Number) -> (r: Result<Self, NumberConversion<i32>>)
        ensures
            number_to_int(value.value(), r),
    {
        value.to_int()
    }
}

/// The conversion's own `ensures` says what it gives.
impl TryFromSpecImpl<Number> for i32 {
    open spec fn obeys_try_from_spec() -> bool {
        false
    }

    open spec fn try_from_spec(v: Number) -> Result<Self, NumberConversion<i32>> {
        arbitrary()
    }
}

impl TryFrom<Number> for i64 {
    type Error = NumberConversion<i64>;

    fn try_from(value: Number) -> (r: Result<Self, NumberConversion<i64>>)
        ensures
            number_to_int(value.value(), r),
    {
        value.to_int()
    }
}

/// The conversion's own `ensures` says what it gives.
impl TryFromSpecImpl<Number> for i64 {
    open spec fn obeys_try_from_spec() -> bool {
        false
    }

    open spec fn try_from_spec(v: Number) -> Result<Self, NumberConversion<i64>> {
        arbitrary()
    }
}

impl TryFrom<Number> for i128 {
    type Error = NumberConversion<i128>;

    fn try_from(value: Number) -> (r: Result<Self, NumberConversion<i128>>)
        ensures
            number_to_int(value.value(), r),
    {
        value.to_int()
    }
}

/// The conversion's own `ensures` says what it gives.
impl TryFromSpecImpl<Number> for i128 {
    open spec fn obeys_try_from_spec() -> bool {
        false
    }

    open spec fn try_from_spec(v: Number) -> Result<Self, NumberConversion<i128>> {
        arbitrary()
    }
}

impl TryFrom<Number> for isize {
    type Error = NumberConversion<isize>;

    fn try_from(value: Number) -> (r: Result<Self, NumberConversion<isize>>)
        ensures
            number_to_int(value.value(), r),
    {
        value.to_int()
    }
}

/// The conversion's own `ensures` says what it gives.
impl TryFromSpecImpl<Number> for isize {
    open spec fn obeys_try_from_spec() -> bool {
        false
    }

    open spec fn try_from_spec(v: Number) -> Result<Self, NumberConversion<isize>> {
        arbitrary()
    }
}

impl<const N: usize, const MIN: u128, const MAX: u128> TryFrom<u8> for BitNumber<N, MIN, MAX> {
    type Error = ConversionError<u8>;

    fn try_from(value: u8) -> (r: Result<Self, ConversionError<u8>>)
        ensures
            bit_number_from_int(value, r),
    {
        Self::try_from_int(value)
    }
}

/// The conversion's own `ensures` says what it gives.
impl<const N: usize, const MIN: u128, const MAX: u128> TryFromSpecImpl<u8> for BitNumber<N, MIN, MAX> {
    open spec fn obeys_try_from_spec() -> bool {
        false
    }

    open spec fn try_from_spec(v: u8) -> Result<Self, ConversionError<u8>> {
        arbitrary()
    }
}

impl<const N: usize, const MIN: u128, const MAX: u128> TryFrom<u16> for BitNumber<N, MIN, MAX> {
    type Error = ConversionError<u16>;

    fn try_from(value: u16) -> (r: Result<Self, ConversionError<u16>>)
        ensures
            bit_number_from_int(value, r),
    {
        Self::try_from_int(value)
    }
}

/// The conversion's own `ensures` says what it gives.
impl<const N: usize, const MIN: u128, const MAX: u128> TryFromSpecImpl<u16> for BitNumber<N, MIN, MAX> {
    open spec fn obeys_try_from_spec() -> bool {
        false
    }

    open spec fn try_from_spec(v: u16) -> Result<Self, ConversionError<u16>> {
        arbitrary()
    }
}

impl<const N: usize, const MIN: u128, const MAX: u128> TryFrom<u32> for BitNumber<N, MIN, MAX> {
    type Error = ConversionError<u32>;

    fn try_from(value: u32) -> (r: Result<Self, ConversionError<u32>>)
        ensures
            bit_number_from_int(value, r),
    {
        Self::try_from_int(value)
    }
}

/// The conversion's own `ensures` says what it gives.
impl<const N: usize, const MIN: u128, const MAX: u128> TryFromSpecImpl<u32> for BitNumber<N, MIN, MAX> {
    open spec fn obeys_try_from_spec() -> bool {
        false
    }

    open spec fn try_from_spec(v: u32) -> Result<Self, ConversionError<u32>> {
        arbitrary()
    }
}

impl<const N: usize, const MIN: u128, const MAX: u128> TryFrom<u64> for BitNumber<N, MIN, MAX> {
    type Error = ConversionError<u64>;

    fn try_from(value: u64) -> (r: Result<Self, ConversionError<u64>>)
        ensures
            bit_number_from_int(value, r),
    {
        Self::try_from_int(value)
    }
}

/// The conversion's own `ensures` says what it gives.
impl<const N: usize, const MIN: u128, const MAX: u128> TryFromSpecImpl<u64> for BitNumber<N, MIN, MAX> {
    open spec fn obeys_try_from_spec() -> bool {
        false
    }

    open spec fn try_from_spec(v: u64) -> Result<Self, ConversionError<u64>> {
        arbitrary()
    }
}

impl<const N: usize, const MIN: u128, const MAX: u128> TryFrom<u128> for BitNumber<N, MIN, MAX> {
    type Error = ConversionError<u128>;

    fn try_from(value: u128) -> (r: Result<Self, ConversionError<u128>>)
        ensures
            bit_number_from_int(value, r),
    {
        Self::try_from_int(value)
    }
}

/// The conversion's own `ensures` says what it gives.
impl<const N: usize, const MIN: u128, const MAX: u128> TryFromSpecImpl<u128> for BitNumber<N, MIN, MAX> {
    open spec fn obeys_try_from_spec() -> bool {
        false
    }

    open spec fn try_from_spec(v: u128) -> Result<Self, ConversionError<u128>> {
        arbitrary()
    }
}

impl<const N: usize, const MIN: u128, const MAX: u128> TryFrom<usize> for BitNumber<N, MIN, MAX> {
    type Error = ConversionError<usize>;

    fn try_from(value: usize) -> (r: Result<Self, ConversionError<usize>>)
        ensures
            bit_number_from_int(value, r),
    {
        Self::try_from_int(value)
    }
}

/// The conversion's own `ensures` says what it gives.
impl<const N: usize, const MIN: u128, const MAX: u128> TryFromSpecImpl<usize> for BitNumber<N, MIN, MAX> {
    open spec fn obeys_try_from_spec() -> bool {
        false
    }

    open spec fn try_from_spec(v: usize) -> Result<Self, ConversionError<usize>> {
        arbitrary()
    }
}

impl<const N: usize, const MIN: u128, const MAX: u128> TryFrom<i8> for BitNumber<N, MIN, MAX> {
    type Error = ConversionError<i8>;

    fn try_from(value: i8) -> (r: Result<Self, ConversionError<i8>>)
        ensures
            bit_number_from_int(value, r),
    {
        Self::try_from_int(value)
    }
}

/// The conversion's own `ensures` says what it gives.
impl<const N: usize, const MIN: u128, const MAX: u128> TryFromSpecImpl<i8> for BitNumber<N, MIN, MAX> {
    open spec fn obeys_try_from_spec() -> bool {
        false
    }

    open spec fn try_from_spec(v: i8) -> Result<Self, ConversionError<i8>> {
        arbitrary()
    }
}

impl<const N: usize, const MIN: u128, const MAX: u128> TryFrom<i16> for BitNumber<N, MIN, MAX> {
    type Error = ConversionError<i16>;

    fn try_from(value: i16) -> (r: Result<Self, ConversionError<i16>>)
        ensures
            bit_number_from_int(value, r),
    {
        Self::try_from_int(value)
    }
}

/// The conversion's own `ensures` says what it gives.
impl<const N: usize, const MIN: u128, const MAX: u128> TryFromSpecImpl<i16> for BitNumber<N, MIN, MAX> {
    open spec fn obeys_try_from_spec() -> bool {
        false
    }

    open spec fn try_from_spec(v: i16) -> Result<Self, ConversionError<i16>> {
        arbitrary()
    }
}

impl<const N: usize, const MIN: u128, const MAX: u128> TryFrom<i32> for BitNumber<N, MIN, MAX> {
    type Error = ConversionError<i32>;

    fn try_from(value: i32) -> (r: Result<Self, ConversionError<i32>>)
        ensures
            bit_number_from_int(value, r),
    {
        Self::try_from_int(value)
    }
}

/// The conversion's own `ensures` says what it gives.
impl<const N: usize, const MIN: u128, const MAX: u128> TryFromSpecImpl<i32> for BitNumber<N, MIN, MAX> {
    open spec fn obeys_try_from_spec() -> bool {
        false
    }

    open spec fn try_from_spec(v: i32) -> Result<Self, ConversionError<i32>> {
        arbitrary()
    }
}

impl<const N: usize, const MIN: u128, const MAX: u128> TryFrom<i64> for BitNumber<N, MIN, MAX> {
    type Error = ConversionError<i64>;

    fn try_from(value: i64) -> (r: Result<Self, ConversionError<i64>>)
        ensures
            bit_number_from_int(value, r),
    {
        Self::try_from_int(value)
    }
}

/// The conversion's own `ensures` says what it gives.
impl<const N: usize, const MIN: u128, const MAX: u128> TryFromSpecImpl<i64> for BitNumber<N, MIN, MAX> {
    open spec fn obeys_try_from_spec() -> bool {
        false
    }

    open spec fn try_from_spec(v: i64) -> Result<Self, ConversionError<i64>> {
        arbitrary()
    }
}

impl<const N: usize, const MIN: u128, const MAX: u128> TryFrom<i128> for BitNumber<N, MIN, MAX> {
    type Error = ConversionError<i128>;

    fn try_from(value: i128) -> (r: Result<Self, ConversionError<i128>>)
        ensures
            bit_number_from_int(value, r),
    {
        Self::try_from_int(value)
    }
}

/// The conversion's own `ensures` says what it gives.
impl<const N: usize, const MIN: u128, const MAX: u128> TryFromSpecImpl<i128> for BitNumber<N, MIN, MAX> {
    open spec fn obeys_try_from_spec() -> bool {
        false
    }

    open spec fn try_from_spec(v: i128) -> Result<Self, ConversionError<i128>> {
        arbitrary()
    }
}

impl<const N: usize, const MIN: u128, const MAX: u128> TryFrom<isize> for BitNumber<N, MIN, MAX> {
    type Error = ConversionError<isize>;

    fn try_from(value: isize) -> (r: Result<Self, ConversionError<isize>>)
        ensures
            bit_number_from_int(value, r),
    {
        Self::try_from_int(value)
    }
}

/// The conversion's own `ensures` says what it gives.
impl<const N: usize, const MIN: u128, const MAX: u128> TryFromSpecImpl<isize> for BitNumber<N, MIN, MAX> {
    open spec fn obeys_try_from_spec() -> bool {
        false
    }

    open spec fn try_from_spec(v: isize) -> Result<Self, ConversionError<isize>> {
        arbitrary()
    }
}

impl<const MIN: usize, const MAX: usize> TryFrom<u8> for BitRange<MIN, MAX> {
    type Error = BitRangeConversion<u8>;

    fn try_from(value: u8) -> (r: Result<Self, BitRangeConversion<u8>>)
        ensures
            bit_range_from_int(value, r),
    {
        Self::try_from_int(value)
    }
}

/// The conversion's own `ensures` says what it gives.
impl<const MIN: usize, const MAX: usize> TryFromSpecImpl<u8> for BitRange<MIN, MAX> {
    open spec fn obeys_try_from_spec() -> bool {
        false
    }

    open spec fn try_from_spec(v: u8) -> Result<Self, BitRangeConversion<u8>> {
        arbitrary()
    }
}

impl<const MIN: usize, const MAX: usize> TryFrom<u16> for BitRange<MIN, MAX> {
    type Error = BitRangeConversion<u16>;

    fn try_from(value: u16) -> (r: Result<Self, BitRangeConversion<u16>>)
        ensures
            bit_range_from_int(value, r),
    {
        Self::try_from_int(value)
    }
}

/// The conversion's own `ensures` says what it gives.
impl<const MIN: usize, const MAX: usize> TryFromSpecImpl<u16> for BitRange<MIN, MAX> {
    open spec fn obeys_try_from_spec() -> bool {
        false
    }

    open spec fn try_from_spec(v: u16) -> Result<Self, BitRangeConversion<u16>> {
        arbitrary()
    }
}

impl<const MIN: usize, const MAX: usize> TryFrom<u32> for BitRange<MIN, MAX> {
    type Error = BitRangeConversion<u32>;

    fn try_from(value: u32) -> (r: Result<Self, BitRangeConversion<u32>>)
        ensures
            bit_range_from_int(value, r),
    {
        Self::try_from_int(value)
    }
}

/// The conversion's own `ensures` says what it gives.
impl<const MIN: usize, const MAX: usize> TryFromSpecImpl<u32> for BitRange<MIN, MAX> {
    open spec fn obeys_try_from_spec() -> bool {
        false
    }

    open spec fn try_from_spec(v: u32) -> Result<Self, BitRangeConversion<u32>> {
        arbitrary()
    }
}

impl<const MIN: usize, const MAX: usize> TryFrom<u64> for BitRange<MIN, MAX> {
    type Error = BitRangeConversion<u64>;

    fn try_from(value: u64) -> (r: Result<Self, BitRangeConversion<u64>>)
        ensures
            bit_range_from_int(value, r),
    {
        Self::try_from_int(value)
    }
}

/// The conversion's own `ensures` says what it gives.
impl<const MIN: usize, const MAX: usize> TryFromSpecImpl<u64> for BitRange<MIN, MAX> {
    open spec fn obeys_try_from_spec() -> bool {
        false
    }

    open spec fn try_from_spec(v: u64) -> Result<Self, BitRangeConversion<u64>> {
        arbitrary()
    }
}

impl<const MIN: usize, const MAX: usize> TryFrom<u128> for BitRange<MIN, MAX> {
    type Error = BitRangeConversion<u128>;

    fn try_from(value: u128) -> (r: Result<Self, BitRangeConversion<u128>>)
        ensures
            bit_range_from_int(value, r),
    {
        Self::try_from_int(value)
    }
}

/// The conversion's own `ensures` says what it gives.
impl<const MIN: usize, const MAX: usize> TryFromSpecImpl<u128> for BitRange<MIN, MAX> {
    open spec fn obeys_try_from_spec() -> bool {
        false
    }

    open spec fn try_from_spec(v: u128) -> Result<Self, BitRangeConversion<u128>> {
        arbitrary()
    }
}

impl<const MIN: usize, const MAX: usize> TryFrom<usize> for BitRange<MIN, MAX> {
    type Error = BitRangeConversion<usize>;

    fn try_from(value: usize) -> (r: Result<Self, BitRangeConversion<usize>>)
        ensures
            bit_range_from_int(value, r),
    {
        Self::try_from_int(value)
    }
}

/// The conversion's own `ensures` says what it gives.
impl<const MIN: usize, const MAX: usize> TryFromSpecImpl<usize> for BitRange<MIN, MAX> {
    open spec fn obeys_try_from_spec() -> bool {
        false
    }

    open spec fn try_from_spec(v: usize) -> Result<Self, BitRangeConversion<usize>> {
        arbitrary()
    }
}

impl<const MIN: usize, const MAX: usize> TryFrom<i8> for BitRange<MIN, MAX> {
    type Error = BitRangeConversion<i8>;

    fn try_from(value: i8) -> (r: Result<Self, BitRangeConversion<i8>>)
        ensures
            bit_range_from_int(value, r),
    {
        Self::try_from_int(value)
    }
}

/// The conversion's own `ensures` says what it gives.
impl<const MIN: usize, const MAX: usize> TryFromSpecImpl<i8> for BitRange<MIN, MAX> {
    open spec fn obeys_try_from_spec() -> bool {
        false
    }

    open spec fn try_from_spec(v: i8) -> Result<Self, BitRangeConversion<i8>> {
        arbitrary()
    }
}

impl<const MIN: usize, const MAX: usize> TryFrom<i16> for BitRange<MIN, MAX> {
    type Error = BitRangeConversion<i16>;

    fn try_from(value: i16) -> (r: Result<Self, BitRangeConversion<i16>>)
        ensures
            bit_range_from_int(value, r),
    {
        Self::try_from_int(value)
    }
}

/// The conversion's own `ensures` says what it gives.
impl<const MIN: usize, const MAX: usize> TryFromSpecImpl<i16> for BitRange<MIN, MAX> {
    open spec fn obeys_try_from_spec() -> bool {
        false
    }

    open spec fn try_from_spec(v: i16) -> Result<Self, BitRangeConversion<i16>> {
        arbitrary()
    }
}

impl<const MIN: usize, const MAX: usize> TryFrom<i32> for BitRange<MIN, MAX> {
    type Error = BitRangeConversion<i32>;

    fn try_from(value: i32) -> (r: Result<Self, BitRangeConversion<i32>>)
        ensures
            bit_range_from_int(value, r),
    {
        Self::try_from_int(value)
    }
}

/// The conversion's own `ensures` says what it gives.
impl<const MIN: usize, const MAX: usize> TryFromSpecImpl<i32> for BitRange<MIN, MAX> {
    open spec fn obeys_try_from_spec() -> bool {
        false
    }

    open spec fn try_from_spec(v: i32) -> Result<Self, BitRangeConversion<i32>> {
        arbitrary()
    }
}

impl<const MIN: usize, const MAX: usize> TryFrom<i64> for BitRange<MIN, MAX> {
    type Error = BitRangeConversion<i64>;

    fn try_from(value: i64) -> (r: Result<Self, BitRangeConversion<i64>>)
        ensures
            bit_range_from_int(value, r),
    {
        Self::try_from_int(value)
    }
}

/// The conversion's own `ensures` says what it gives.
impl<const MIN: usize, const MAX: usize> TryFromSpecImpl<i64> for BitRange<MIN, MAX> {
    open spec fn obeys_try_from_spec() -> bool {
        false
    }

    open spec fn try_from_spec(v: i64) -> Result<Self, BitRangeConversion<i64>> {
        arbitrary()
    }
}

impl<const MIN: usize, const MAX: usize> TryFrom<i128> for BitRange<MIN, MAX> {
    type Error = BitRangeConversion<i128>;

    fn try_from(value: i128) -> (r: Result<Self, BitRangeConversion<i128>>)
        ensures
            bit_range_from_int(value, r),
    {
        Self::try_from_int(value)
    }
}

/// The conversion's own `ensures` says what it gives.
impl<const MIN: usize, const MAX: usize> TryFromSpecImpl<i128> for BitRange<MIN, MAX> {
    open spec fn obeys_try_from_spec() -> bool {
        false
    }

    open spec fn try_from_spec(v: i128) -> Result<Self, BitRangeConversion<i128>> {
        arbitrary()
    }
}

impl<const MIN: usize, const MAX: usize> TryFrom<isize> for BitRange<MIN, MAX> {
    type Error = BitRangeConversion<isize>;

    fn try_from(value: isize) -> (r: Result<Self, BitRangeConversion<isize>>)
        ensures
            bit_range_from_int(value, r),
    {
        Self::try_from_int(value)
    }
}

/// The conversion's own `ensures` says what it gives.
impl<const MIN: usize, const MAX: usize> TryFromSpecImpl<isize> for BitRange<MIN, MAX> {
    open spec fn obeys_try_from_spec() -> bool {
        false
    }

    open spec fn try_from_spec(v: isize) -> Result<Self, BitRangeConversion<isize>> {
        arbitrary()
    }
}

impl<const N: usize, const MIN: u128, const MAX: u128> TryFrom<BitNumber<N, MIN, MAX>> for u8 {
    type Error = ConversionError<u8>;

    fn try_from(value: BitNumber<N, MIN, MAX>) -> (r: Result<Self, ConversionError<u8>>)
        ensures
            bit_number_to_int(value.value(), r),
    {
        value.to_int()
    }
}

/// The conversion's own `ensures` says what it gives.
impl<const N: usize, const MIN: u128, const MAX: u128> TryFromSpecImpl<BitNumber<N, MIN, MAX>> for u8 {
    open spec fn obeys_try_from_spec() -> bool {
        false
    }

    open spec fn try_from_spec(v: BitNumber<N, MIN, MAX>) -> Result<Self, ConversionError<u8>> {
        arbitrary()
    }
}

impl<const N: usize, const MIN: u128, const MAX: u128> TryFrom<BitNumber<N, MIN, MAX>> for u16 {
    type Error = ConversionError<u16>;

    fn try_from(value: BitNumber<N, MIN, MAX>) -> (r: Result<Self, ConversionError<u16>>)
        ensures
            bit_number_to_int(value.value(), r),
    {
        value.to_int()
    }
}

/// The conversion's own `ensures` says what it gives.
impl<const N: usize, const MIN: u128, const MAX: u128> TryFromSpecImpl<BitNumber<N, MIN, MAX>> for u16 {
    open spec fn obeys_try_from_spec() -> bool {
        false
    }

    open spec fn try_from_spec(v: BitNumber<N, MIN, MAX>) -> Result<Self, ConversionError<u16>> {
        arbitrary()
    }
}

impl<const N: usize, const MIN: u128, const MAX: u128> TryFrom<BitNumber<N, MIN, MAX>> for u32 {
    type Error = ConversionError<u32>;

    fn try_from(value: BitNumber<N, MIN, MAX>) -> (r: Result<Self, ConversionError<u32>>)
        ensures
            bit_number_to_int(value.value(), r),
    {
        value.to_int()
    }
}

/// The conversion's own `ensures` says what it gives.
impl<const N: usize, const MIN: u128, const MAX: u128> TryFromSpecImpl<BitNumber<N, MIN, MAX>> for u32 {
    open spec fn obeys_try_from_spec() -> bool {
        false
    }

    open spec fn try_from_spec(v: BitNumber<N, MIN, MAX>) -> Result<Self, ConversionError<u32>> {
        arbitrary()
    }
}

impl<const N: usize, const MIN: u128, const MAX: u128> TryFrom<BitNumber<N, MIN, MAX>> for u64 {
    type Error = ConversionError<u64>;

    fn try_from(value: BitNumber<N, MIN, MAX>) -> (r: Result<Self, ConversionError<u64>>)
        ensures
            bit_number_to_int(value.value(), r),
    {
        value.to_int()
    }
}

/// The conversion's own `ensures` says what it gives.
impl<const N: usize, const MIN: u128, const MAX: u128> TryFromSpecImpl<BitNumber<N, MIN, MAX>> for u64 {
    open spec fn obeys_try_from_spec() -> bool {
        false
    }

    open spec fn try_from_spec(v: BitNumber<N, MIN, MAX>) -> Result<Self, ConversionError<u64>> {
        arbitrary()
    }
}

impl<const N: usize, const MIN: u128, const MAX: u128> TryFrom<BitNumber<N, MIN, MAX>> for u128 {
    type Error = ConversionError<u128>;

    fn try_from(value: BitNumber<N, MIN, MAX>) -> (r: Result<Self, ConversionError<u128>>)
        ensures
            bit_number_to_int(value.value(), r),
    {
        value.to_int()
    }
}

/// The conversion's own `ensures` says what it gives.
impl<const N: usize, const MIN: u128, const MAX: u128> TryFromSpecImpl<BitNumber<N, MIN, MAX>> for u128 {
    open spec fn obeys_try_from_spec() -> bool {
        false
    }

    open spec fn try_from_spec(v: BitNumber<N, MIN, MAX>) -> Result<Self, ConversionError<u128>> {
        arbitrary()
    }
}

impl<const N: usize, const MIN: u128, const MAX: u128> TryFrom<BitNumber<N, MIN, MAX>> for usize {
    type Error = ConversionError<usize>;

    fn try_from(value: BitNumber<N, MIN, MAX>) -> (r: Result<Self, ConversionError<usize>>)
        ensures
            bit_number_to_int(value.value(), r),
    {
        value.to_int()
    }
}

/// The conversion's own `ensures` says what it gives.
impl<const N: usize, const MIN: u128, const MAX: u128> TryFromSpecImpl<BitNumber<N, MIN, MAX>> for usize {
    open spec fn obeys_try_from_spec() -> bool {
        false
    }

    open spec fn try_from_spec(v: BitNumber<N, MIN, MAX>) -> Result<Self, ConversionError<usize>> {
        arbitrary()
    }
}

impl<const N: usize, const MIN: u128, const MAX: u128> TryFrom<BitNumber<N, MIN, MAX>> for i8 {
    type Error = ConversionError<i8>;

    fn try_from(value: BitNumber<N, MIN, MAX>) -> (r: Result<Self, ConversionError<i8>>)
        ensures
            bit_number_to_int(value.value(), r),
    {
        value.to_int()
    }
}

/// The conversion's own `ensures` says what it gives.
impl<const N: usize, const MIN: u128, const MAX: u128> TryFromSpecImpl<BitNumber<N, MIN, MAX>> for i8 {
    open spec fn obeys_try_from_spec() -> bool {
        false
    }

    open spec fn try_from_spec(v: BitNumber<N, MIN, MAX>) -> Result<Self, ConversionError<i8>> {
        arbitrary()
    }
}

impl<const N: usize, const MIN: u128, const MAX: u128> TryFrom<BitNumber<N, MIN, MAX>> for i16 {
    type Error = ConversionError<i16>;

    fn try_from(value: BitNumber<N, MIN, MAX>) -> (r: Result<Self, ConversionError<i16>>)
        ensures
            bit_number_to_int(value.value(), r),
    {
        value.to_int()
    }
}

/// The conversion's own `ensures` says what it gives.
impl<const N: usize, const MIN: u128, const MAX: u128> TryFromSpecImpl<BitNumber<N, MIN, MAX>> for i16 {
    open spec fn obeys_try_from_spec() -> bool {
        false
    }

    open spec fn try_from_spec(v: BitNumber<N, MIN, MAX>) -> Result<Self, ConversionError<i16>> {
        arbitrary()
    }
}

impl<const N: usize, const MIN: u128, const MAX: u128> TryFrom<BitNumber<N, MIN, MAX>> for i32 {
    type Error = ConversionError<i32>;

    fn try_from(value: BitNumber<N, MIN, MAX>) -> (r: Result<Self, ConversionError<i32>>)
        ensures
            bit_number_to_int(value.value(), r),
    {
        value.to_int()
    }
}

/// The conversion's own `ensures` says what it gives.
impl<const N: usize, const MIN: u128, const MAX: u128> TryFromSpecImpl<BitNumber<N, MIN, MAX>> for i32 {
    open spec fn obeys_try_from_spec() -> bool {
        false
    }

    open spec fn try_from_spec(v: BitNumber<N, MIN, MAX>) -> Result<Self, ConversionError<i32>> {
        arbitrary()
    }
}

impl<const N: usize, const MIN: u128, const MAX: u128> TryFrom<BitNumber<N, MIN, MAX>> for i64 {
    type Error = ConversionError<i64>;

    fn try_from(value: BitNumber<N, MIN, MAX>) -> (r: Result<Self, ConversionError<i64>>)
        ensures
            bit_number_to_int(value.value(), r),
    {
        value.to_int()
    }
}

/// The conversion's own `ensures` says what it gives.
impl<const N: usize, const MIN: u128, const MAX: u128> TryFromSpecImpl<BitNumber<N, MIN, MAX>> for i64 {
    open spec fn obeys_try_from_spec() -> bool {
        false
    }

    open spec fn try_from_spec(v: BitNumber<N, MIN, MAX>) -> Result<Self, ConversionError<i64>> {
        arbitrary()
    }
}

impl<const N: usize, const MIN: u128, const MAX: u128> TryFrom<BitNumber<N, MIN, MAX>> for i128 {
    type Error = ConversionError<i128>;

    fn try_from(value: BitNumber<N, MIN, MAX>) -> (r: Result<Self, ConversionError<i128>>)
        ensures
            bit_number_to_int(value.value(), r),
    {
        value.to_int()
    }
}

/// The conversion's own `ensures` says what it gives.
impl<const N: usize, const MIN: u128, const MAX: u128> TryFromSpecImpl<BitNumber<N, MIN, MAX>> for i128 {
    open spec fn obeys_try_from_spec() -> bool {
        false
    }

    open spec fn try_from_spec(v: BitNumber<N, MIN, MAX>) -> Result<Self, ConversionError<i128>> {
        arbitrary()
    }
}

impl<const N: usize, const MIN: u128, const MAX: u128> TryFrom<BitNumber<N, MIN, MAX>> for isize {
    type Error = ConversionError<isize>;

    fn try_from(value: BitNumber<N, MIN, MAX>) -> (r: Result<Self, ConversionError<isize>>)
        ensures
            bit_number_to_int(value.value(), r),
    {
        value.to_int()
    }
}

/// The conversion's own `ensures` says what it gives.
impl<const N: usize, const MIN: u128, const MAX: u128> TryFromSpecImpl<BitNumber<N, MIN, MAX>> for isize {
    open spec fn obeys_try_from_spec() -> bool {
        false
    }

    open spec fn try_from_spec(v: BitNumber<N, MIN, MAX>) -> Result<Self, ConversionError<isize>> {
        arbitrary()
    }
}

impl<const MIN: usize, const MAX: usize> TryFrom<BitRange<MIN, MAX>> for u8 {
    type Error = BitRangeConversion<u8>;

    fn try_from(value: BitRange<MIN, MAX>) -> (r: Result<Self, BitRangeConversion<u8>>)
        ensures
            bit_range_to_int(value.value(), r),
    {
        value.to_int()
    }
}

/// The conversion's own `ensures` says what it gives.
impl<const MIN: usize, const MAX: usize> TryFromSpecImpl<BitRange<MIN, MAX>> for u8 {
    open spec fn obeys_try_from_spec() -> bool {
        false
    }

    open spec fn try_from_spec(v: BitRange<MIN, MAX>) -> Result<Self, BitRangeConversion<u8>> {
        arbitrary()
    }
}

impl<const MIN: usize, const MAX: usize> TryFrom<BitRange<MIN, MAX>> for u16 {
    type Error = BitRangeConversion<u16>;

    fn try_from(value: BitRange<MIN, MAX>) -> (r: Result<Self, BitRangeConversion<u16>>)
        ensures
            bit_range_to_int(value.value(), r),
    {
        value.to_int()
    }
}

/// The conversion's own `ensures` says what it gives.
impl<const MIN: usize, const MAX: usize> TryFromSpecImpl<BitRange<MIN, MAX>> for u16 {
    open spec fn obeys_try_from_spec() -> bool {
        false
    }

    open spec fn try_from_spec(v: BitRange<MIN, MAX>) -> Result<Self, BitRangeConversion<u16>> {
        arbitrary()
    }
}

impl<const MIN: usize, const MAX: usize> TryFrom<BitRange<MIN, MAX>> for u32 {
    type Error = BitRangeConversion<u32>;

    fn try_from(value: BitRange<MIN, MAX>) -> (r: Result<Self, BitRangeConversion<u32>>)
        ensures
            bit_range_to_int(value.value(), r),
    {
        value.to_int()
    }
}

/// The conversion's own `ensures` says what it gives.
impl<const MIN: usize, const MAX: usize> TryFromSpecImpl<BitRange<MIN, MAX>> for u32 {
    open spec fn obeys_try_from_spec() -> bool {
        false
    }

    open spec fn try_from_spec(v: BitRange<MIN, MAX>) -> Result<Self, BitRangeConversion<u32>> {
        arbitrary()
    }
}

impl<const MIN: usize, const MAX: usize> TryFrom<BitRange<MIN, MAX>> for u64 {
    type Error = BitRangeConversion<u64>;

    fn try_from(value: BitRange<MIN, MAX>) -> (r: Result<Self, BitRangeConversion<u64>>)
        ensures
            bit_range_to_int(value.value(), r),
    {
        value.to_int()
    }
}

/// The conversion's own `ensures` says what it gives.
impl<const MIN: usize, const MAX: usize> TryFromSpecImpl<BitRange<MIN, MAX>> for u64 {
    open spec fn obeys_try_from_spec() -> bool {
        false
    }

    open spec fn try_from_spec(v: BitRange<MIN, MAX>) -> Result<Self, BitRangeConversion<u64>> {
        arbitrary()
    }
}

impl<const MIN: usize, const MAX: usize> TryFrom<BitRange<MIN, MAX>> for u128 {
    type Error = BitRangeConversion<u128>;

    fn try_from(value: BitRange<MIN, MAX>) -> (r: Result<Self, BitRangeConversion<u128>>)
        ensures
            bit_range_to_int(value.value(), r),
    {
        value.to_int()
    }
}

/// The conversion's own `ensures` says what it gives.
impl<const MIN: usize, const MAX: usize> TryFromSpecImpl<BitRange<MIN, MAX>> for u128 {
    open spec fn obeys_try_from_spec() -> bool {
        false
    }

    open spec fn try_from_spec(v: BitRange<MIN, MAX>) -> Result<Self, BitRangeConversion<u128>> {
        arbitrary()
    }
}

impl<const MIN: usize, const MAX: usize> TryFrom<BitRange<MIN, MAX>> for usize {
    type Error = BitRangeConversion<usize>;

    fn try_from(value: BitRange<MIN, MAX>) -> (r: Result<Self, BitRangeConversion<usize>>)
        ensures
            bit_range_to_int(value.value(), r),
    {
        value.to_int()
    }
}

/// The conversion's own `ensures` says what it gives.
impl<const MIN: usize, const MAX: usize> TryFromSpecImpl<BitRange<MIN, MAX>> for usize {
    open spec fn obeys_try_from_spec() -> bool {
        false
    }

    open spec fn try_from_spec(v: BitRange<MIN, MAX>) -> Result<Self, BitRangeConversion<usize>> {
        arbitrary()
    }
}

impl<const MIN: usize, const MAX: usize> TryFrom<BitRange<MIN, MAX>> for i8 {
    type Error = BitRangeConversion<i8>;

    fn try_from(value: BitRange<MIN, MAX>) -> (r: Result<Self, BitRangeConversion<i8>>)
        ensures
            bit_range_to_int(value.value(), r),
    {
        value.to_int()
    }
}

/// The conversion's own `ensures` says what it gives.
impl<const MIN: usize, const MAX: usize> TryFromSpecImpl<BitRange<MIN, MAX>> for i8 {
    open spec fn obeys_try_from_spec() -> bool {
        false
    }

    open spec fn try_from_spec(v: BitRange<MIN, MAX>) -> Result<Self, BitRangeConversion<i8>> {
        arbitrary()
    }
}

impl<const MIN: usize, const MAX: usize> TryFrom<BitRange<MIN, MAX>> for i16 {
    type Error = BitRangeConversion<i16>;

    fn try_from(value: BitRange<MIN, MAX>) -> (r: Result<Self, BitRangeConversion<i16>>)
        ensures
            bit_range_to_int(value.value(), r),
    {
        value.to_int()
    }
}

/// The conversion's own `ensures` says what it gives.
impl<const MIN: usize, const MAX: usize> TryFromSpecImpl<BitRange<MIN, MAX>> for i16 {
    open spec fn obeys_try_from_spec() -> bool {
        false
    }

    open spec fn try_from_spec(v: BitRange<MIN, MAX>) -> Result<Self, BitRangeConversion<i16>> {
        arbitrary()
    }
}

impl<const MIN: usize, const MAX: usize> TryFrom<BitRange<MIN, MAX>> for i32 {
    type Error = BitRangeConversion<i32>;

    fn try_from(value: BitRange<MIN, MAX>) -> (r: Result<Self, BitRangeConversion<i32>>)
        ensures
            bit_range_to_int(value.value(), r),
    {
        value.to_int()
    }
}

/// The conversion's own `ensures` says what it gives.
impl<const MIN: usize, const MAX: usize> TryFromSpecImpl<BitRange<MIN, MAX>> for i32 {
    open spec fn obeys_try_from_spec() -> bool {
        false
    }

    open spec fn try_from_spec(v: BitRange<MIN, MAX>) -> Result<Self, BitRangeConversion<i32>> {
        arbitrary()
    }
}

impl<const MIN: usize, const MAX: usize> TryFrom<BitRange<MIN, MAX>> for i64 {
    type Error = BitRangeConversion<i64>;

    fn try_from(value: BitRange<MIN, MAX>) -> (r: Result<Self, BitRangeConversion<i64>>)
        ensures
            bit_range_to_int(value.value(), r),
    {
        value.to_int()
    }
}

/// The conversion's own `ensures` says what it gives.
impl<const MIN: usize, const MAX: usize> TryFromSpecImpl<BitRange<MIN, MAX>> for i64 {
    open spec fn obeys_try_from_spec() -> bool {
        false
    }

    open spec fn try_from_spec(v: BitRange<MIN, MAX>) -> Result<Self, BitRangeConversion<i64>> {
        arbitrary()
    }
}

impl<const MIN: usize, const MAX: usize> TryFrom<BitRange<MIN, MAX>> for i128 {
    type Error = BitRangeConversion<i128>;

    fn try_from(value: BitRange<MIN, MAX>) -> (r: Result<Self, BitRangeConversion<i128>>)
        ensures
            bit_range_to_int(value.value(), r),
    {
        value.to_int()
    }
}

/// The conversion's own `ensures` says what it gives.
impl<const MIN: usize, const MAX: usize> TryFromSpecImpl<BitRange<MIN, MAX>> for i128 {
    open spec fn obeys_try_from_spec() -> bool {
        false
    }

    open spec fn try_from_spec(v: BitRange<MIN, MAX>) -> Result<Self, BitRangeConversion<i128>> {
        arbitrary()
    }
}

impl<const MIN: usize, const MAX: usize> TryFrom<BitRange<MIN, MAX>> for isize {
    type Error = BitRangeConversion<isize>;

    fn try_from(value: BitRange<MIN, MAX>) -> (r: Result<Self, BitRangeConversion<isize>>)
        ensures
            bit_range_to_int(value.value(), r),
    {
        value.to_int()
    }
}

/// The conversion's own `ensures` says what it gives.
impl<const MIN: usize, const MAX: usize> TryFromSpecImpl<BitRange<MIN, MAX>> for isize {
    open spec fn obeys_try_from_spec() -> bool {
        false
    }

    open spec fn try_from_spec(v: BitRange<MIN, MAX>) -> Result<Self, BitRangeConversion<isize>> {
        arbitrary()
    }
}

} // verus!
