//! Reading integers from text, in decimal or with a `0b`, `0o` or `0x` prefix.
use crate::StringError;
use std::num::ParseIntError;
use vstd::prelude::*;
use vstd::string::StringSliceAdditionalSpecFns;
use vstd::utf8::{
    decode_utf8, encode_utf8_decode_utf8, encode_utf8_valid_utf8, is_char_boundary, length_of_first_scalar,
    pop_first_scalar, valid_utf8,
};

verus! {

/// The value of the digit `c` in bases up to 36: `0`-`9`, then the letters
/// in either case; 36 for a byte that is no digit.
pub open spec fn digit_value(c: u8) -> nat {
    if 48 <= c <= 57 {
        (c - 48) as nat
    } else if 97 <= c <= 122 {
        (c - 97 + 10) as nat
    } else if 65 <= c <= 90 {
        (c - 65 + 10) as nat
    } else {
        36
    }
}

/// Whether `s` is a non-empty run of digits of base `radix`.
pub open spec fn all_digits(s: Seq<u8>, radix: nat) -> bool {
    s.len() > 0 && forall|i: int| 0 <= i < s.len() ==> digit_value(#[trigger] s[i]) < radix
}

/// The number the digits `s` spell in base `radix`, most significant first.
pub open spec fn digits_value(s: Seq<u8>, radix: nat) -> nat
    decreases s.len(),
{
    if s.len() == 0 {
        0
    } else {
        digits_value(s.drop_last(), radix) * radix + digit_value(s.last())
    }
}

/// The number `s` spells in base `radix` as `from_str_radix` reads it: an
/// optional `+` (or `-` where `signed`), then digits; `None` where it is
/// not such a text.
pub open spec fn radix_number(s: Seq<u8>, radix: nat, signed: bool) -> Option<int> {
    if s.len() > 0 && s[0] == 43 {
        if all_digits(s.skip(1), radix) {
            Some(digits_value(s.skip(1), radix) as int)
        } else {
            None
        }
    } else if s.len() > 0 && s[0] == 45 && signed {
        if all_digits(s.skip(1), radix) {
            Some(-(digits_value(s.skip(1), radix) as int))
        } else {
            None
        }
    } else if all_digits(s, radix) {
        Some(digits_value(s, radix) as int)
    } else {
        None
    }
}

/// A primitive integer: it can be read from text, and compared with and
/// converted to and from the numbers of this library.
pub trait Integral: Sized + Copy {
    /// The value as an integer.
    spec fn as_int(self) -> int;

    /// The smallest value of the type.
    spec fn min_int() -> int;

    /// The largest value of the type.
    spec fn max_int() -> int;

    /// Whether the type has negative values.
    spec fn signed() -> bool;

    /// Every value lies between the smallest and the largest, and every
    /// type's range lies within `i128::MIN..=u128::MAX`, around zero. The
    /// largest value is all ones in binary, so where it reaches 64 bits its
    /// low 64 bits are all ones.
    proof fn lemma_int_range(self)
        ensures
            Self::min_int() <= self.as_int() <= Self::max_int(),
            i128::MIN <= Self::min_int() <= 0,
            0 < Self::max_int() <= u128::MAX,
            Self::max_int() >= 0xFFFF_FFFF_FFFF_FFFF ==> Self::max_int() % 0x1_0000_0000_0000_0000
                == 0xFFFF_FFFF_FFFF_FFFF,
    ;

    /// The value as a `u128`, where it is not negative.
    fn to_u128(self) -> (r: Option<u128>)
        ensures
            match r {
                Some(v) => self.as_int() >= 0 && v == self.as_int(),
                None => self.as_int() < 0,
            },
    ;

    /// The largest value of the type.
    fn max_value() -> (r: Self)
        ensures
            r.as_int() == Self::max_int(),
    ;

    /// `v` as a value of the type, which it must fit.
    fn from_u128(v: u128) -> (r: Self)
        requires
            v <= Self::max_int(),
        ensures
            r.as_int() == v,
    ;

    /// The error reading the text `src` in base `radix` gives where it
    /// spells no value of the type.
    spec fn parse_error(src: Seq<char>, radix: u32) -> ParseIntError;

    /// Reads `src` in base `radix`: the value where `src` spells one of the
    /// type, the error [Integral::parse_error] names otherwise.
    fn from_str_radix(src: &str, radix: u32) -> (r: Result<Self, ParseIntError>)
        requires
            2 <= radix <= 36,
        ensures
            match radix_number(src.spec_bytes(), radix as nat, Self::signed()) {
                Some(v) => if Self::min_int() <= v && v <= Self::max_int() {
                    r matches Ok(x) && x.as_int() == v
                } else {
                    r is Err
                },
                None => r is Err,
            },
            r matches Err(e) ==> e == Self::parse_error(src@, radix),
    ;
}

/// What `u8::from_str_radix` gives for a text that spells no `u8` in a
/// base: an error determined by the text and the base alone.
pub uninterp spec fn u8_parse_error(src: Seq<char>, radix: u32) -> ParseIntError;

/// `u8::from_str_radix`: the value where `src` spells a `u8` in base
/// `radix`; otherwise the error [u8_parse_error] names for `src` and
/// `radix`. It panics for a base outside `2..=36`.
#[verifier::external_body]
fn u8_from_str_radix(src: &str, radix: u32) -> (r: Result<u8, ParseIntError>)
    requires
        2 <= radix <= 36,
    ensures
        match radix_number(src.spec_bytes(), radix as nat, false) {
            Some(v) => if u8::MIN <= v && v <= u8::MAX {
                r matches Ok(x) && x == v
            } else {
                r is Err
            },
            None => r is Err,
        },
        r matches Err(e) ==> e == u8_parse_error(src@, radix),
{
    u8::from_str_radix(src, radix)
}

/// What `u16::from_str_radix` gives for a text that spells no `u16` in a
/// base: an error determined by the text and the base alone.
pub uninterp spec fn u16_parse_error(src: Seq<char>, radix: u32) -> ParseIntError;

/// `u16::from_str_radix`: the value where `src` spells a `u16` in base
/// `radix`; otherwise the error [u16_parse_error] names for `src` and
/// `radix`. It panics for a base outside `2..=36`.
#[verifier::external_body]
fn u16_from_str_radix(src: &str, radix: u32) -> (r: Result<u16, ParseIntError>)
    requires
        2 <= radix <= 36,
    ensures
        match radix_number(src.spec_bytes(), radix as nat, false) {
            Some(v) => if u16::MIN <= v && v <= u16::MAX {
                r matches Ok(x) && x == v
            } else {
                r is Err
            },
            None => r is Err,
        },
        r matches Err(e) ==> e == u16_parse_error(src@, radix),
{
    u16::from_str_radix(src, radix)
}

/// What `u32::from_str_radix` gives for a text that spells no `u32` in a
/// base: an error determined by the text and the base alone.
pub uninterp spec fn u32_parse_error(src: Seq<char>, radix: u32) -> ParseIntError;

/// `u32::from_str_radix`: the value where `src` spells a `u32` in base
/// `radix`; otherwise the error [u32_parse_error] names for `src` and
/// `radix`. It panics for a base outside `2..=36`.
#[verifier::external_body]
fn u32_from_str_radix(src: &str, radix: u32) -> (r: Result<u32, ParseIntError>)
    requires
        2 <= radix <= 36,
    ensures
        match radix_number(src.spec_bytes(), radix as nat, false) {
            Some(v) => if u32::MIN <= v && v <= u32::MAX {
                r matches Ok(x) && x == v
            } else {
                r is Err
            },
            None => r is Err,
        },
        r matches Err(e) ==> e == u32_parse_error(src@, radix),
{
    u32::from_str_radix(src, radix)
}

/// What `u64::from_str_radix` gives for a text that spells no `u64` in a
/// base: an error determined by the text and the base alone.
pub uninterp spec fn u64_parse_error(src: Seq<char>, radix: u32) -> ParseIntError;

/// `u64::from_str_radix`: the value where `src` spells a `u64` in base
/// `radix`; otherwise the error [u64_parse_error] names for `src` and
/// `radix`. It panics for a base outside `2..=36`.
#[verifier::external_body]
fn u64_from_str_radix(src: &str, radix: u32) -> (r: Result<u64, ParseIntError>)
    requires
        2 <= radix <= 36,
    ensures
        match radix_number(src.spec_bytes(), radix as nat, false) {
            Some(v) => if u64::MIN <= v && v <= u64::MAX {
                r matches Ok(x) && x == v
            } else {
                r is Err
            },
            None => r is Err,
        },
        r matches Err(e) ==> e == u64_parse_error(src@, radix),
{
    u64::from_str_radix(src, radix)
}

/// What `u128::from_str_radix` gives for a text that spells no `u128` in a
/// base: an error determined by the text and the base alone.
pub uninterp spec fn u128_parse_error(src: Seq<char>, radix: u32) -> ParseIntError;

/// `u128::from_str_radix`: the value where `src` spells a `u128` in base
/// `radix`; otherwise the error [u128_parse_error] names for `src` and
/// `radix`. It panics for a base outside `2..=36`.
#[verifier::external_body]
fn u128_from_str_radix(src: &str, radix: u32) -> (r: Result<u128, ParseIntError>)
    requires
        2 <= radix <= 36,
    ensures
        match radix_number(src.spec_bytes(), radix as nat, false) {
            Some(v) => if u128::MIN <= v && v <= u128::MAX {
                r matches Ok(x) && x == v
            } else {
                r is Err
            },
            None => r is Err,
        },
        r matches Err(e) ==> e == u128_parse_error(src@, radix),
{
    u128::from_str_radix(src, radix)
}

/// What `usize::from_str_radix` gives for a text that spells no `usize` in a
/// base: an error determined by the text and the base alone.
pub uninterp spec fn usize_parse_error(src: Seq<char>, radix: u32) -> ParseIntError;

/// `usize::from_str_radix`: the value where `src` spells a `usize` in base
/// `radix`; otherwise the error [usize_parse_error] names for `src` and
/// `radix`. It panics for a base outside `2..=36`.
#[verifier::external_body]
fn usize_from_str_radix(src: &str, radix: u32) -> (r: Result<usize, ParseIntError>)
    requires
        2 <= radix <= 36,
    ensures
        match radix_number(src.spec_bytes(), radix as nat, false) {
            Some(v) => if usize::MIN <= v && v <= usize::MAX {
                r matches Ok(x) && x == v
            } else {
                r is Err
            },
            None => r is Err,
        },
        r matches Err(e) ==> e == usize_parse_error(src@, radix),
{
    usize::from_str_radix(src, radix)
}

/// What `i8::from_str_radix` gives for a text that spells no `i8` in a
/// base: an error determined by the text and the base alone.
pub uninterp spec fn i8_parse_error(src: Seq<char>, radix: u32) -> ParseIntError;

/// `i8::from_str_radix`: the value where `src` spells an `i8` in base
/// `radix`; otherwise the error [i8_parse_error] names for `src` and
/// `radix`. It panics for a base outside `2..=36`.
#[verifier::external_body]
fn i8_from_str_radix(src: &str, radix: u32) -> (r: Result<i8, ParseIntError>)
    requires
        2 <= radix <= 36,
    ensures
        match radix_number(src.spec_bytes(), radix as nat, true) {
            Some(v) => if i8::MIN <= v && v <= i8::MAX {
                r matches Ok(x) && x == v
            } else {
                r is Err
            },
            None => r is Err,
        },
        r matches Err(e) ==> e == i8_parse_error(src@, radix),
{
    i8::from_str_radix(src, radix)
}

/// What `i16::from_str_radix` gives for a text that spells no `i16` in a
/// base: an error determined by the text and the base alone.
pub uninterp spec fn i16_parse_error(src: Seq<char>, radix: u32) -> ParseIntError;

/// `i16::from_str_radix`: the value where `src` spells an `i16` in base
/// `radix`; otherwise the error [i16_parse_error] names for `src` and
/// `radix`. It panics for a base outside `2..=36`.
#[verifier::external_body]
fn i16_from_str_radix(src: &str, radix: u32) -> (r: Result<i16, ParseIntError>)
    requires
        2 <= radix <= 36,
    ensures
        match radix_number(src.spec_bytes(), radix as nat, true) {
            Some(v) => if i16::MIN <= v && v <= i16::MAX {
                r matches Ok(x) && x == v
            } else {
                r is Err
            },
            None => r is Err,
        },
        r matches Err(e) ==> e == i16_parse_error(src@, radix),
{
    i16::from_str_radix(src, radix)
}

/// What `i32::from_str_radix` gives for a text that spells no `i32` in a
/// base: an error determined by the text and the base alone.
pub uninterp spec fn i32_parse_error(src: Seq<char>, radix: u32) -> ParseIntError;

/// `i32::from_str_radix`: the value where `src` spells an `i32` in base
/// `radix`; otherwise the error [i32_parse_error] names for `src` and
/// `radix`. It panics for a base outside `2..=36`.
#[verifier::external_body]
fn i32_from_str_radix(src: &str, radix: u32) -> (r: Result<i32, ParseIntError>)
    requires
        2 <= radix <= 36,
    ensures
        match radix_number(src.spec_bytes(), radix as nat, true) {
            Some(v) => if i32::MIN <= v && v <= i32::MAX {
                r matches Ok(x) && x == v
            } else {
                r is Err
            },
            None => r is Err,
        },
        r matches Err(e) ==> e == i32_parse_error(src@, radix),
{
    i32::from_str_radix(src, radix)
}

/// What `i64::from_str_radix` gives for a text that spells no `i64` in a
/// base: an error determined by the text and the base alone.
pub uninterp spec fn i64_parse_error(src: Seq<char>, radix: u32) -> ParseIntError;

/// `i64::from_str_radix`: the value where `src` spells an `i64` in base
/// `radix`; otherwise the error [i64_parse_error] names for `src` and
/// `radix`. It panics for a base outside `2..=36`.
#[verifier::external_body]
fn i64_from_str_radix(src: &str, radix: u32) -> (r: Result<i64, ParseIntError>)
    requires
        2 <= radix <= 36,
    ensures
        match radix_number(src.spec_bytes(), radix as nat, true) {
            Some(v) => if i64::MIN <= v && v <= i64::MAX {
                r matches Ok(x) && x == v
            } else {
                r is Err
            },
            None => r is Err,
        },
        r matches Err(e) ==> e == i64_parse_error(src@, radix),
{
    i64::from_str_radix(src, radix)
}

/// What `i128::from_str_radix` gives for a text that spells no `i128` in a
/// base: an error determined by the text and the base alone.
pub uninterp spec fn i128_parse_error(src: Seq<char>, radix: u32) -> ParseIntError;

/// `i128::from_str_radix`: the value where `src` spells an `i128` in base
/// `radix`; otherwise the error [i128_parse_error] names for `src` and
/// `radix`. It panics for a base outside `2..=36`.
#[verifier::external_body]
fn i128_from_str_radix(src: &str, radix: u32) -> (r: Result<i128, ParseIntError>)
    requires
        2 <= radix <= 36,
    ensures
        match radix_number(src.spec_bytes(), radix as nat, true) {
            Some(v) => if i128::MIN <= v && v <= i128::MAX {
                r matches Ok(x) && x == v
            } else {
                r is Err
            },
            None => r is Err,
        },
        r matches Err(e) ==> e == i128_parse_error(src@, radix),
{
    i128::from_str_radix(src, radix)
}

/// What `isize::from_str_radix` gives for a text that spells no `isize` in a
/// base: an error determined by the text and the base alone.
pub uninterp spec fn isize_parse_error(src: Seq<char>, radix: u32) -> ParseIntError;

/// `isize::from_str_radix`: the value where `src` spells an `isize` in base
/// `radix`; otherwise the error [isize_parse_error] names for `src` and
/// `radix`. It panics for a base outside `2..=36`.
#[verifier::external_body]
fn isize_from_str_radix(src: &str, radix: u32) -> (r: Result<isize, ParseIntError>)
    requires
        2 <= radix <= 36,
    ensures
        match radix_number(src.spec_bytes(), radix as nat, true) {
            Some(v) => if isize::MIN <= v && v <= isize::MAX {
                r matches Ok(x) && x == v
            } else {
                r is Err
            },
            None => r is Err,
        },
        r matches Err(e) ==> e == isize_parse_error(src@, radix),
{
    isize::from_str_radix(src, radix)
}

impl Integral for u8 {
    open spec fn as_int(self) -> int {
        self as int
    }

    open spec fn min_int() -> int {
        u8::MIN as int
    }

    open spec fn max_int() -> int {
        u8::MAX as int
    }

    open spec fn signed() -> bool {
        false
    }

    open spec fn parse_error(src: Seq<char>, radix: u32) -> ParseIntError {
        u8_parse_error(src, radix)
    }

    fn from_str_radix(src: &str, radix: u32) -> (r: Result<Self, ParseIntError>) {
        u8_from_str_radix(src, radix)
    }

    proof fn lemma_int_range(self) {
    }

    fn to_u128(self) -> (r: Option<u128>) {
        Some(self as u128)
    }

    fn max_value() -> (r: Self) {
        u8::MAX
    }

    fn from_u128(v: u128) -> (r: Self) {
        v as u8
    }
}

impl Integral for u16 {
    open spec fn as_int(self) -> int {
        self as int
    }

    open spec fn min_int() -> int {
        u16::MIN as int
    }

    open spec fn max_int() -> int {
        u16::MAX as int
    }

    open spec fn signed() -> bool {
        false
    }

    open spec fn parse_error(src: Seq<char>, radix: u32) -> ParseIntError {
        u16_parse_error(src, radix)
    }

    fn from_str_radix(src: &str, radix: u32) -> (r: Result<Self, ParseIntError>) {
        u16_from_str_radix(src, radix)
    }

    proof fn lemma_int_range(self) {
    }

    fn to_u128(self) -> (r: Option<u128>) {
        Some(self as u128)
    }

    fn max_value() -> (r: Self) {
        u16::MAX
    }

    fn from_u128(v: u128) -> (r: Self) {
        v as u16
    }
}

impl Integral for u32 {
    open spec fn as_int(self) -> int {
        self as int
    }

    open spec fn min_int() -> int {
        u32::MIN as int
    }

    open spec fn max_int() -> int {
        u32::MAX as int
    }

    open spec fn signed() -> bool {
        false
    }

    open spec fn parse_error(src: Seq<char>, radix: u32) -> ParseIntError {
        u32_parse_error(src, radix)
    }

    fn from_str_radix(src: &str, radix: u32) -> (r: Result<Self, ParseIntError>) {
        u32_from_str_radix(src, radix)
    }

    proof fn lemma_int_range(self) {
    }

    fn to_u128(self) -> (r: Option<u128>) {
        Some(self as u128)
    }

    fn max_value() -> (r: Self) {
        u32::MAX
    }

    fn from_u128(v: u128) -> (r: Self) {
        v as u32
    }
}

impl Integral for u64 {
    open spec fn as_int(self) -> int {
        self as int
    }

    open spec fn min_int() -> int {
        u64::MIN as int
    }

    open spec fn max_int() -> int {
        u64::MAX as int
    }

    open spec fn signed() -> bool {
        false
    }

    open spec fn parse_error(src: Seq<char>, radix: u32) -> ParseIntError {
        u64_parse_error(src, radix)
    }

    fn from_str_radix(src: &str, radix: u32) -> (r: Result<Self, ParseIntError>) {
        u64_from_str_radix(src, radix)
    }

    proof fn lemma_int_range(self) {
    }

    fn to_u128(self) -> (r: Option<u128>) {
        Some(self as u128)
    }

    fn max_value() -> (r: Self) {
        u64::MAX
    }

    fn from_u128(v: u128) -> (r: Self) {
        v as u64
    }
}

impl Integral for u128 {
    open spec fn as_int(self) -> int {
        self as int
    }

    open spec fn min_int() -> int {
        u128::MIN as int
    }

    open spec fn max_int() -> int {
        u128::MAX as int
    }

    open spec fn signed() -> bool {
        false
    }

    open spec fn parse_error(src: Seq<char>, radix: u32) -> ParseIntError {
        u128_parse_error(src, radix)
    }

    fn from_str_radix(src: &str, radix: u32) -> (r: Result<Self, ParseIntError>) {
        u128_from_str_radix(src, radix)
    }

    proof fn lemma_int_range(self) {
    }

    fn to_u128(self) -> (r: Option<u128>) {
        Some(self as u128)
    }

    fn max_value() -> (r: Self) {
        u128::MAX
    }

    fn from_u128(v: u128) -> (r: Self) {
        v as u128
    }
}

impl Integral for usize {
    open spec fn as_int(self) -> int {
        self as int
    }

    open spec fn min_int() -> int {
        usize::MIN as int
    }

    open spec fn max_int() -> int {
        usize::MAX as int
    }

    open spec fn signed() -> bool {
        false
    }

    open spec fn parse_error(src: Seq<char>, radix: u32) -> ParseIntError {
        usize_parse_error(src, radix)
    }

    fn from_str_radix(src: &str, radix: u32) -> (r: Result<Self, ParseIntError>) {
        usize_from_str_radix(src, radix)
    }

    proof fn lemma_int_range(self) {
    }

    fn to_u128(self) -> (r: Option<u128>) {
        Some(self as u128)
    }

    fn max_value() -> (r: Self) {
        usize::MAX
    }

    fn from_u128(v: u128) -> (r: Self) {
        v as usize
    }
}

impl Integral for i8 {
    open spec fn as_int(self) -> int {
        self as int
    }

    open spec fn min_int() -> int {
        i8::MIN as int
    }

    open spec fn max_int() -> int {
        i8::MAX as int
    }

    open spec fn signed() -> bool {
        true
    }

    open spec fn parse_error(src: Seq<char>, radix: u32) -> ParseIntError {
        i8_parse_error(src, radix)
    }

    fn from_str_radix(src: &str, radix: u32) -> (r: Result<Self, ParseIntError>) {
        i8_from_str_radix(src, radix)
    }

    proof fn lemma_int_range(self) {
    }

    fn to_u128(self) -> (r: Option<u128>) {
        if self < 0 {
            None
        } else {
            Some(self as u128)
        }
    }

    fn max_value() -> (r: Self) {
        i8::MAX
    }

    fn from_u128(v: u128) -> (r: Self) {
        v as i8
    }
}

impl Integral for i16 {
    open spec fn as_int(self) -> int {
        self as int
    }

    open spec fn min_int() -> int {
        i16::MIN as int
    }

    open spec fn max_int() -> int {
        i16::MAX as int
    }

    open spec fn signed() -> bool {
        true
    }

    open spec fn parse_error(src: Seq<char>, radix: u32) -> ParseIntError {
        i16_parse_error(src, radix)
    }

    fn from_str_radix(src: &str, radix: u32) -> (r: Result<Self, ParseIntError>) {
        i16_from_str_radix(src, radix)
    }

    proof fn lemma_int_range(self) {
    }

    fn to_u128(self) -> (r: Option<u128>) {
        if self < 0 {
            None
        } else {
            Some(self as u128)
        }
    }

    fn max_value() -> (r: Self) {
        i16::MAX
    }

    fn from_u128(v: u128) -> (r: Self) {
        v as i16
    }
}

impl Integral for i32 {
    open spec fn as_int(self) -> int {
        self as int
    }

    open spec fn min_int() -> int {
        i32::MIN as int
    }

    open spec fn max_int() -> int {
        i32::MAX as int
    }

    open spec fn signed() -> bool {
        true
    }

    open spec fn parse_error(src: Seq<char>, radix: u32) -> ParseIntError {
        i32_parse_error(src, radix)
    }

    fn from_str_radix(src: &str, radix: u32) -> (r: Result<Self, ParseIntError>) {
        i32_from_str_radix(src, radix)
    }

    proof fn lemma_int_range(self) {
    }

    fn to_u128(self) -> (r: Option<u128>) {
        if self < 0 {
            None
        } else {
            Some(self as u128)
        }
    }

    fn max_value() -> (r: Self) {
        i32::MAX
    }

    fn from_u128(v: u128) -> (r: Self) {
        v as i32
    }
}

impl Integral for i64 {
    open spec fn as_int(self) -> int {
        self as int
    }

    open spec fn min_int() -> int {
        i64::MIN as int
    }

    open spec fn max_int() -> int {
        i64::MAX as int
    }

    open spec fn signed() -> bool {
        true
    }

    open spec fn parse_error(src: Seq<char>, radix: u32) -> ParseIntError {
        i64_parse_error(src, radix)
    }

    fn from_str_radix(src: &str, radix: u32) -> (r: Result<Self, ParseIntError>) {
        i64_from_str_radix(src, radix)
    }

    proof fn lemma_int_range(self) {
    }

    fn to_u128(self) -> (r: Option<u128>) {
        if self < 0 {
            None
        } else {
            Some(self as u128)
        }
    }

    fn max_value() -> (r: Self) {
        i64::MAX
    }

    fn from_u128(v: u128) -> (r: Self) {
        v as i64
    }
}

impl Integral for i128 {
    open spec fn as_int(self) -> int {
        self as int
    }

    open spec fn min_int() -> int {
        i128::MIN as int
    }

    open spec fn max_int() -> int {
        i128::MAX as int
    }

    open spec fn signed() -> bool {
        true
    }

    open spec fn parse_error(src: Seq<char>, radix: u32) -> ParseIntError {
        i128_parse_error(src, radix)
    }

    fn from_str_radix(src: &str, radix: u32) -> (r: Result<Self, ParseIntError>) {
        i128_from_str_radix(src, radix)
    }

    proof fn lemma_int_range(self) {
    }

    fn to_u128(self) -> (r: Option<u128>) {
        if self < 0 {
            None
        } else {
            Some(self as u128)
        }
    }

    fn max_value() -> (r: Self) {
        i128::MAX
    }

    fn from_u128(v: u128) -> (r: Self) {
        v as i128
    }
}

impl Integral for isize {
    open spec fn as_int(self) -> int {
        self as int
    }

    open spec fn min_int() -> int {
        isize::MIN as int
    }

    open spec fn max_int() -> int {
        isize::MAX as int
    }

    open spec fn signed() -> bool {
        true
    }

    open spec fn parse_error(src: Seq<char>, radix: u32) -> ParseIntError {
        isize_parse_error(src, radix)
    }

    fn from_str_radix(src: &str, radix: u32) -> (r: Result<Self, ParseIntError>) {
        isize_from_str_radix(src, radix)
    }

    proof fn lemma_int_range(self) {
    }

    fn to_u128(self) -> (r: Option<u128>) {
        if self < 0 {
            None
        } else {
            Some(self as u128)
        }
    }

    fn max_value() -> (r: Self) {
        isize::MAX
    }

    fn from_u128(v: u128) -> (r: Self) {
        v as isize
    }
}

/// The digits of `s` and their base: after a `0b`, `0o` or `0x` prefix in
/// base 2, 8 or 16, else all of `s` in base 10.
pub open spec fn prefix_radix(s: Seq<u8>) -> (Seq<u8>, nat) {
    if s.len() >= 2 && s[0] == 48 && s[1] == 98 {
        (s.skip(2), 2)
    } else if s.len() >= 2 && s[0] == 48 && s[1] == 111 {
        (s.skip(2), 8)
    } else if s.len() >= 2 && s[0] == 48 && s[1] == 120 {
        (s.skip(2), 16)
    } else {
        (s, 10)
    }
}

/// Two leading ASCII bytes end on a character boundary.
proof fn lemma_ascii_pair_boundary(b: Seq<u8>)
    requires
        valid_utf8(b),
        b.len() >= 2,
        b[0] < 128,
        b[1] < 128,
    ensures
        is_char_boundary(b, 2),
{
    reveal_with_fuel(is_char_boundary, 3);
    let p1 = pop_first_scalar(b);
    assert(length_of_first_scalar(b) == 1);
    assert(valid_utf8(p1));
    assert(p1[0] == b[1]);
    assert(length_of_first_scalar(p1) == 1);
    assert(valid_utf8(pop_first_scalar(p1)));
}

/// Reads a non-negative integer from `s`: decimal, or binary, octal or
/// hexadecimal after a `0b`, `0o` or `0x` prefix.
pub fn number_from_str<N: Integral>(s: &str) -> (r: Result<N, StringError>)
    ensures
        ({
            let b = s.spec_bytes();
            let (src, radix) = prefix_radix(b);
            if b.len() > 0 && b[0] == 45 {
                r == Err::<N, StringError>(StringError::IsNegative)
            } else {
                let fails = r matches Err(StringError::NumberError { input, source }) && input@
                    == s@ && source == N::parse_error(decode_utf8(src), radix as u32);
                match radix_number(src, radix, N::signed()) {
                    Some(v) => if N::min_int() <= v && v <= N::max_int() {
                        r matches Ok(x) && x.as_int() == v
                    } else {
                        fails
                    },
                    None => fails,
                }
            }
        }),
{
    let bytes = s.as_bytes();
    if bytes.len() > 0 && bytes[0] == 45 {
        return Err(StringError::IsNegative);
    }
    let radix: u32 = if bytes.len() >= 2 && bytes[0] == 48 && bytes[1] == 98 {
        // binary
        2
    } else if bytes.len() >= 2 && bytes[0] == 48 && bytes[1] == 111 {
        // octal
        8
    } else if bytes.len() >= 2 && bytes[0] == 48 && bytes[1] == 120 {
        // hexadecimal
        16
    } else {
        // decimal
        10
    };
    let src = if radix == 10 {
        s
    } else {
        proof {
            encode_utf8_valid_utf8(s@);
            lemma_ascii_pair_boundary(s.spec_bytes());
        }
        let (_, rest) = s.split_at(2);
        proof {
            assert(rest.spec_bytes() =~= s.spec_bytes().skip(2));
            encode_utf8_decode_utf8(rest@);
        }
        rest
    };
    proof {
        encode_utf8_decode_utf8(src@);
    }
    match N::from_str_radix(src, radix) {
        Ok(v) => Ok(v),
        Err(e) => Err(StringError::NumberError { input: s.to_owned(), source: e }),
    }
}

} // verus!
