use vstd::prelude::*;
use crate::text::{decimal, decimal_of_signed, decimal_of_unsigned};

verus! {

/// What a matrix or vector element must offer: a zero, addition and
/// multiplication that agree with the integers the elements stand for and
/// report when a result cannot be held, and a decimal text.
pub trait Element: Copy + Sized {
    /// The integer this element stands for.
    spec fn value(self) -> int;

    /// Whether the type can hold the integer `v`.
    spec fn in_range(v: int) -> bool;

    /// Two elements that stand for the same integer are the same element.
    proof fn lemma_value_injective(a: Self, b: Self)
        requires
            a.value() == b.value(),
        ensures
            a == b,
    ;

    /// The additive identity.
    fn zero() -> (z: Self)
        ensures
            z.value() == 0,
    ;

    /// The sum of two elements, or `None` if the type cannot hold it.
    fn checked_plus(self, rhs: Self) -> (r: Option<Self>)
        ensures
            Self::in_range(self.value() + rhs.value()) ==> r is Some && r->Some_0.value()
                == self.value() + rhs.value(),
            !Self::in_range(self.value() + rhs.value()) ==> r is None,
    ;

    /// The product of two elements, or `None` if the type cannot hold it.
    fn checked_times(self, rhs: Self) -> (r: Option<Self>)
        ensures
            Self::in_range(self.value() * rhs.value()) ==> r is Some && r->Some_0.value()
                == self.value() * rhs.value(),
            !Self::in_range(self.value() * rhs.value()) ==> r is None,
    ;

    /// The element written in decimal.
    fn to_text(self) -> (s: String)
        ensures
            s@ == decimal(self.value()),
    ;
}

impl Element for i8 {
    open spec fn value(self) -> int {
        self as int
    }

    open spec fn in_range(v: int) -> bool {
        i8::MIN <= v <= i8::MAX
    }

    proof fn lemma_value_injective(a: Self, b: Self) {
    }

    fn zero() -> (z: Self) {
        0
    }

    fn checked_plus(self, rhs: Self) -> (r: Option<Self>) {
        self.checked_add(rhs)
    }

    fn checked_times(self, rhs: Self) -> (r: Option<Self>) {
        self.checked_mul(rhs)
    }

    fn to_text(self) -> (s: String) {
        decimal_of_signed(self as i128)
    }
}

impl Element for i16 {
    open spec fn value(self) -> int {
        self as int
    }

    open spec fn in_range(v: int) -> bool {
        i16::MIN <= v <= i16::MAX
    }

    proof fn lemma_value_injective(a: Self, b: Self) {
    }

    fn zero() -> (z: Self) {
        0
    }

    fn checked_plus(self, rhs: Self) -> (r: Option<Self>) {
        self.checked_add(rhs)
    }

    fn checked_times(self, rhs: Self) -> (r: Option<Self>) {
        self.checked_mul(rhs)
    }

    fn to_text(self) -> (s: String) {
        decimal_of_signed(self as i128)
    }
}

impl Element for i32 {
    open spec fn value(self) -> int {
        self as int
    }

    open spec fn in_range(v: int) -> bool {
        i32::MIN <= v <= i32::MAX
    }

    proof fn lemma_value_injective(a: Self, b: Self) {
    }

    fn zero() -> (z: Self) {
        0
    }

    fn checked_plus(self, rhs: Self) -> (r: Option<Self>) {
        self.checked_add(rhs)
    }

    fn checked_times(self, rhs: Self) -> (r: Option<Self>) {
        self.checked_mul(rhs)
    }

    fn to_text(self) -> (s: String) {
        decimal_of_signed(self as i128)
    }
}

impl Element for i64 {
    open spec fn value(self) -> int {
        self as int
    }

    open spec fn in_range(v: int) -> bool {
        i64::MIN <= v <= i64::MAX
    }

    proof fn lemma_value_injective(a: Self, b: Self) {
    }

    fn zero() -> (z: Self) {
        0
    }

    fn checked_plus(self, rhs: Self) -> (r: Option<Self>) {
        self.checked_add(rhs)
    }

    fn checked_times(self, rhs: Self) -> (r: Option<Self>) {
        self.checked_mul(rhs)
    }

    fn to_text(self) -> (s: String) {
        decimal_of_signed(self as i128)
    }
}

impl Element for i128 {
    open spec fn value(self) -> int {
        self as int
    }

    open spec fn in_range(v: int) -> bool {
        i128::MIN <= v <= i128::MAX
    }

    proof fn lemma_value_injective(a: Self, b: Self) {
    }

    fn zero() -> (z: Self) {
        0
    }

    fn checked_plus(self, rhs: Self) -> (r: Option<Self>) {
        self.checked_add(rhs)
    }

    fn checked_times(self, rhs: Self) -> (r: Option<Self>) {
        self.checked_mul(rhs)
    }

    fn to_text(self) -> (s: String) {
        decimal_of_signed(self)
    }
}

impl Element for isize {
    open spec fn value(self) -> int {
        self as int
    }

    open spec fn in_range(v: int) -> bool {
        isize::MIN <= v <= isize::MAX
    }

    proof fn lemma_value_injective(a: Self, b: Self) {
    }

    fn zero() -> (z: Self) {
        0
    }

    fn checked_plus(self, rhs: Self) -> (r: Option<Self>) {
        self.checked_add(rhs)
    }

    fn checked_times(self, rhs: Self) -> (r: Option<Self>) {
        self.checked_mul(rhs)
    }

    fn to_text(self) -> (s: String) {
        decimal_of_signed(self as i128)
    }
}

impl Element for u8 {
    open spec fn value(self) -> int {
        self as int
    }

    open spec fn in_range(v: int) -> bool {
        u8::MIN <= v <= u8::MAX
    }

    proof fn lemma_value_injective(a: Self, b: Self) {
    }

    fn zero() -> (z: Self) {
        0
    }

    fn checked_plus(self, rhs: Self) -> (r: Option<Self>) {
        self.checked_add(rhs)
    }

    fn checked_times(self, rhs: Self) -> (r: Option<Self>) {
        self.checked_mul(rhs)
    }

    fn to_text(self) -> (s: String) {
        decimal_of_unsigned(self as u128)
    }
}

impl Element for u16 {
    open spec fn value(self) -> int {
        self as int
    }

    open spec fn in_range(v: int) -> bool {
        u16::MIN <= v <= u16::MAX
    }

    proof fn lemma_value_injective(a: Self, b: Self) {
    }

    fn zero() -> (z: Self) {
        0
    }

    fn checked_plus(self, rhs: Self) -> (r: Option<Self>) {
        self.checked_add(rhs)
    }

    fn checked_times(self, rhs: Self) -> (r: Option<Self>) {
        self.checked_mul(rhs)
    }

    fn to_text(self) -> (s: String) {
        decimal_of_unsigned(self as u128)
    }
}

impl Element for u32 {
    open spec fn value(self) -> int {
        self as int
    }

    open spec fn in_range(v: int) -> bool {
        u32::MIN <= v <= u32::MAX
    }

    proof fn lemma_value_injective(a: Self, b: Self) {
    }

    fn zero() -> (z: Self) {
        0
    }

    fn checked_plus(self, rhs: Self) -> (r: Option<Self>) {
        self.checked_add(rhs)
    }

    fn checked_times(self, rhs: Self) -> (r: Option<Self>) {
        self.checked_mul(rhs)
    }

    fn to_text(self) -> (s: String) {
        decimal_of_unsigned(self as u128)
    }
}

impl Element for u64 {
    open spec fn value(self) -> int {
        self as int
    }

    open spec fn in_range(v: int) -> bool {
        u64::MIN <= v <= u64::MAX
    }

    proof fn lemma_value_injective(a: Self, b: Self) {
    }

    fn zero() -> (z: Self) {
        0
    }

    fn checked_plus(self, rhs: Self) -> (r: Option<Self>) {
        self.checked_add(rhs)
    }

    fn checked_times(self, rhs: Self) -> (r: Option<Self>) {
        self.checked_mul(rhs)
    }

    fn to_text(self) -> (s: String) {
        decimal_of_unsigned(self as u128)
    }
}

impl Element for u128 {
    open spec fn value(self) -> int {
        self as int
    }

    open spec fn in_range(v: int) -> bool {
        u128::MIN <= v <= u128::MAX
    }

    proof fn lemma_value_injective(a: Self, b: Self) {
    }

    fn zero() -> (z: Self) {
        0
    }

    fn checked_plus(self, rhs: Self) -> (r: Option<Self>) {
        self.checked_add(rhs)
    }

    fn checked_times(self, rhs: Self) -> (r: Option<Self>) {
        self.checked_mul(rhs)
    }

    fn to_text(self) -> (s: String) {
        decimal_of_unsigned(self)
    }
}

impl Element for usize {
    open spec fn value(self) -> int {
        self as int
    }

    open spec fn in_range(v: int) -> bool {
        usize::MIN <= v <= usize::MAX
    }

    proof fn lemma_value_injective(a: Self, b: Self) {
    }

    fn zero() -> (z: Self) {
        0
    }

    fn checked_plus(self, rhs: Self) -> (r: Option<Self>) {
        self.checked_add(rhs)
    }

    fn checked_times(self, rhs: Self) -> (r: Option<Self>) {
        self.checked_mul(rhs)
    }

    fn to_text(self) -> (s: String) {
        decimal_of_unsigned(self as u128)
    }
}

} // verus!
