//! The integer type of a memory cell.

use vstd::prelude::*;
use crate::number::{number_of, parse_integer, NumberError};

verus! {

/// What the sixteen-bit view of an integer is: the number itself where it
/// lies in `0..=u16::MAX`, nothing otherwise.
pub open spec fn narrow_u16(v: int) -> Option<u16> {
    if 0 <= v <= u16::MAX {
        Some(v as u16)
    } else {
        None
    }
}

/// What the address-sized view of an integer is: the number itself where it
/// lies in `0..=usize::MAX`, nothing otherwise.
pub open spec fn narrow_usize(v: int) -> Option<usize> {
    if 0 <= v <= usize::MAX {
        Some(v as usize)
    } else {
        None
    }
}

/// An integer type that can serve as the cell of a memory.
///
/// Every cell stands for a mathematical integer, its `value`. Arithmetic is
/// that of the type's width: a sum or product that leaves the width is reduced
/// by `wraps`.
pub trait Cell: Copy + Sized {
    /// The integer that the cell stands for.
    spec fn value(&self) -> int;

    /// The integer that the width's arithmetic makes of `v`.
    spec fn wraps(v: int) -> int;

    /// Two cells that stand for the same integer are the same cell.
    proof fn lemma_value_determines_cell(a: Self, b: Self)
        requires
            a.value() == b.value(),
        ensures
            a == b,
    ;

    /// The cell that stands for zero.
    spec fn zero_spec() -> Self;

    /// The least integer that a cell can stand for.
    spec fn lowest() -> int;

    /// The greatest integer that a cell can stand for.
    spec fn highest() -> int;

    /// An integer that a cell stands for is left alone by `wraps`.
    proof fn lemma_wraps_keeps_values(a: Self)
        ensures
            Self::wraps(a.value()) == a.value(),
    ;

    /// The zero cell stands for zero.
    proof fn lemma_zero_spec_is_zero()
        ensures
            Self::zero_spec().value() == 0,
    ;

    fn zero() -> (r: Self)
        ensures
            r == Self::zero_spec(),
            r.value() == 0,
    ;

    fn one() -> (r: Self)
        ensures
            r.value() == 1,
    ;

    fn wrapping_sum(self, other: Self) -> (r: Self)
        ensures
            r.value() == Self::wraps(self.value() + other.value()),
    ;

    fn wrapping_product(self, other: Self) -> (r: Self)
        ensures
            r.value() == Self::wraps(self.value() * other.value()),
    ;

    fn is_less_than(self, other: Self) -> (r: bool)
        ensures
            r == (self.value() < other.value()),
    ;

    fn is_same_as(self, other: Self) -> (r: bool)
        ensures
            r == (self.value() == other.value()),
    ;

    fn as_u16(self) -> (r: Option<u16>)
        ensures
            r == narrow_u16(self.value()),
    ;

    fn as_usize(self) -> (r: Option<usize>)
        ensures
            r == narrow_usize(self.value()),
    ;

    /// Reads a cell from its decimal form: digits, after at most one sign.
    fn parse(text: &[char]) -> (r: Result<Self, NumberError>)
        ensures
            match number_of(text@, Self::lowest(), Self::highest()) {
                Ok(v) => r matches Ok(cell) && cell.value() == v,
                Err(error) => r matches Err(e) && e == error,
            },
    ;
}

/// `num::ToPrimitive::to_u16` on an `i64`: the value as a `u16` when it lies
/// in `0..=u16::MAX`, and `None` for every other value.
#[verifier::external_body]
fn i64_to_u16(x: i64) -> (r: Option<u16>)
    ensures
        r == narrow_u16(x as int),
{
    num::ToPrimitive::to_u16(&x)
}

/// `num::ToPrimitive::to_usize` on an `i64`: the value as a `usize` when it
/// is not negative and fits the machine word, and `None` otherwise.
#[verifier::external_body]
fn i64_to_usize(x: i64) -> (r: Option<usize>)
    ensures
        r == narrow_usize(x as int),
{
    num::ToPrimitive::to_usize(&x)
}

impl Cell for i64 {
    open spec fn value(&self) -> int {
        *self as int
    }

    open spec fn wraps(v: int) -> int {
        vstd::wrapping::i64_specs::signed_crop(v) as int
    }

    open spec fn zero_spec() -> Self {
        0
    }

    proof fn lemma_zero_spec_is_zero() {
    }

    open spec fn lowest() -> int {
        i64::MIN as int
    }

    open spec fn highest() -> int {
        i64::MAX as int
    }

    proof fn lemma_value_determines_cell(a: Self, b: Self) {
    }

    proof fn lemma_wraps_keeps_values(a: Self) {
    }

    fn zero() -> (r: Self) {
        0
    }

    fn one() -> (r: Self) {
        1
    }

    fn wrapping_sum(self, other: Self) -> (r: Self) {
        self.wrapping_add(other)
    }

    fn wrapping_product(self, other: Self) -> (r: Self) {
        self.wrapping_mul(other)
    }

    fn is_less_than(self, other: Self) -> (r: bool) {
        self < other
    }

    fn is_same_as(self, other: Self) -> (r: bool) {
        self == other
    }

    fn as_u16(self) -> (r: Option<u16>) {
        i64_to_u16(self)
    }

    fn as_usize(self) -> (r: Option<usize>) {
        i64_to_usize(self)
    }

    fn parse(text: &[char]) -> (r: Result<Self, NumberError>) {
        match parse_integer(text, i64::MIN as i128, i64::MAX as i128) {
            Ok(v) => Ok(v as i64),
            Err(error) => Err(error),
        }
    }
}

/// `num::ToPrimitive::to_u16` on an `i32`: the value as a `u16` when it lies
/// in `0..=u16::MAX`, and `None` for every other value.
#[verifier::external_body]
fn i32_to_u16(x: i32) -> (r: Option<u16>)
    ensures
        r == narrow_u16(x as int),
{
    num::ToPrimitive::to_u16(&x)
}

/// `num::ToPrimitive::to_usize` on an `i32`: the value as a `usize` when it
/// is not negative, and `None` otherwise. A machine word holds every `i32`
/// that is not negative.
#[verifier::external_body]
fn i32_to_usize(x: i32) -> (r: Option<usize>)
    ensures
        r == narrow_usize(x as int),
{
    num::ToPrimitive::to_usize(&x)
}

impl Cell for i32 {
    open spec fn value(&self) -> int {
        *self as int
    }

    open spec fn wraps(v: int) -> int {
        vstd::wrapping::i32_specs::signed_crop(v) as int
    }

    open spec fn zero_spec() -> Self {
        0
    }

    proof fn lemma_zero_spec_is_zero() {
    }

    open spec fn lowest() -> int {
        i32::MIN as int
    }

    open spec fn highest() -> int {
        i32::MAX as int
    }

    proof fn lemma_value_determines_cell(a: Self, b: Self) {
    }

    proof fn lemma_wraps_keeps_values(a: Self) {
    }

    fn zero() -> (r: Self) {
        0
    }

    fn one() -> (r: Self) {
        1
    }

    fn wrapping_sum(self, other: Self) -> (r: Self) {
        self.wrapping_add(other)
    }

    fn wrapping_product(self, other: Self) -> (r: Self) {
        self.wrapping_mul(other)
    }

    fn is_less_than(self, other: Self) -> (r: bool) {
        self < other
    }

    fn is_same_as(self, other: Self) -> (r: bool) {
        self == other
    }

    fn as_u16(self) -> (r: Option<u16>) {
        i32_to_u16(self)
    }

    fn as_usize(self) -> (r: Option<usize>) {
        i32_to_usize(self)
    }

    fn parse(text: &[char]) -> (r: Result<Self, NumberError>) {
        match parse_integer(text, i32::MIN as i128, i32::MAX as i128) {
            Ok(v) => Ok(v as i32),
            Err(error) => Err(error),
        }
    }
}

} // verus!
