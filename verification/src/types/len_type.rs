use vstd::prelude::*;

verus! {

/// The capability of a type that counts elements: the type of the length, the
/// capacity and the indices of a `FlexArr`.
///
/// A value stands for a natural number between zero and `Self::spec_max()`,
/// no two values stand for the same number, and the operations below are
/// those of the numbers. The unsigned integers of std have it; another type may have
/// it where it keeps these contracts.
pub trait LengthType: Copy + Sized {
    /// The number that a value stands for.
    spec fn as_nat(self) -> nat;

    /// The largest number that a value can stand for.
    spec fn spec_max() -> nat;

    /// The smallest value: zero.
    const MIN_VALUE: Self;

    /// The value of `spec_max()`.
    const MAX_VALUE: Self;

    /// The value of one.
    const ONE_VALUE: Self;

    /// The value of zero.
    const ZERO_VALUE: Self;

    /// What the four constants stand for; every byte has a value.
    proof fn lemma_constants()
        ensures
            Self::MIN_VALUE.as_nat() == 0,
            Self::MAX_VALUE.as_nat() == Self::spec_max(),
            Self::ONE_VALUE.as_nat() == 1,
            Self::ZERO_VALUE.as_nat() == 0,
            Self::spec_max() >= u8::MAX,
    ;

    /// No value stands for more than `spec_max()`.
    proof fn lemma_in_range(self)
        ensures
            self.as_nat() <= Self::spec_max(),
    ;

    /// Two values that stand for the same number are the same value.
    proof fn lemma_one_value_per_number(self, other: Self)
        requires
            self.as_nat() == other.as_nat(),
        ensures
            self == other,
    ;

    /// The value of a byte.
    fn from_u8(value: u8) -> (r: Self)
        ensures
            r.as_nat() == value,
    ;

    /// The value of a `usize`, where there is one.
    fn try_from_usize(value: usize) -> (r: Option<Self>)
        ensures
            match r {
                Some(l) => l.as_nat() == value,
                None => value > Self::spec_max(),
            },
    ;

    /// The number as a `usize`, where it fits.
    fn try_into_usize(self) -> (r: Option<usize>)
        ensures
            match r {
                Some(u) => u == self.as_nat(),
                None => self.as_nat() > usize::MAX,
            },
    ;

    /// The number as a `usize`, for a value that is known to fit.
    fn as_usize(self) -> (r: usize)
        requires
            self.as_nat() <= usize::MAX,
        ensures
            r == self.as_nat(),
    ;

    /// The sum, where it has a value.
    fn checked_add(self, rhs: Self) -> (r: Option<Self>)
        ensures
            match r {
                Some(s) => s.as_nat() == self.as_nat() + rhs.as_nat(),
                None => self.as_nat() + rhs.as_nat() > Self::spec_max(),
            },
    ;

    /// The difference, where it is not negative.
    fn checked_sub(self, rhs: Self) -> (r: Option<Self>)
        ensures
            match r {
                Some(d) => d.as_nat() == self.as_nat() - rhs.as_nat(),
                None => self.as_nat() < rhs.as_nat(),
            },
    ;

    /// The difference, for a `rhs` that is known not to be the larger.
    fn minus(self, rhs: Self) -> (r: Self)
        requires
            rhs.as_nat() <= self.as_nat(),
        ensures
            r.as_nat() == self.as_nat() - rhs.as_nat(),
    ;

    /// The sum, counted round from `spec_max()` to zero.
    fn wrapping_add(self, rhs: Self) -> (r: Self)
        ensures
            r.as_nat() == (self.as_nat() + rhs.as_nat()) % (Self::spec_max() + 1),
    ;

    /// Half the number, rounded down.
    fn half(self) -> (r: Self)
        ensures
            r.as_nat() == self.as_nat() / 2,
    ;

    /// Whether the number is at most that of `rhs`.
    fn at_most(self, rhs: Self) -> (r: bool)
        ensures
            r == (self.as_nat() <= rhs.as_nat()),
    ;
}

/// A sum of two numbers below `m` leaves `m` at most once.
proof fn lemma_wrap_once(sum: int, m: int)
    requires
        0 <= sum < 2 * m,
    ensures
        sum % m == if sum < m {
            sum
        } else {
            sum - m
        },
{
    if sum < m {
        vstd::arithmetic::div_mod::lemma_small_mod(sum as nat, m as nat);
    } else {
        vstd::arithmetic::div_mod::lemma_small_mod((sum - m) as nat, m as nat);
        vstd::arithmetic::div_mod::lemma_mod_sub_multiples_vanish(sum, m);
    }
}

impl LengthType for usize {
    open spec fn as_nat(self) -> nat {
        self as nat
    }

    open spec fn spec_max() -> nat {
        usize::MAX as nat
    }

    const MIN_VALUE: Self = usize::MIN;

    const MAX_VALUE: Self = usize::MAX;

    const ONE_VALUE: Self = 1;

    const ZERO_VALUE: Self = 0;

    proof fn lemma_constants() {
    }

    proof fn lemma_in_range(self) {
    }

    proof fn lemma_one_value_per_number(self, other: Self) {
    }

    fn from_u8(value: u8) -> (r: Self) {
        value as usize
    }

    fn try_from_usize(value: usize) -> (r: Option<Self>) {
        Some(value)
    }

    fn try_into_usize(self) -> (r: Option<usize>) {
        Some(self)
    }

    fn as_usize(self) -> (r: usize) {
        self
    }

    fn checked_add(self, rhs: Self) -> (r: Option<Self>) {
        if rhs <= usize::MAX - self {
            Some(self + rhs)
        } else {
            None
        }
    }

    fn checked_sub(self, rhs: Self) -> (r: Option<Self>) {
        if rhs <= self {
            Some(self - rhs)
        } else {
            None
        }
    }

    fn minus(self, rhs: Self) -> (r: Self) {
        self - rhs
    }

    fn wrapping_add(self, rhs: Self) -> (r: Self) {
        proof {
            lemma_wrap_once(self + rhs, usize::MAX + 1);
        }
        if rhs <= usize::MAX - self {
            self + rhs
        } else {
            rhs - (usize::MAX - self) - 1
        }
    }

    fn half(self) -> (r: Self) {
        self / 2
    }

    fn at_most(self, rhs: Self) -> (r: bool) {
        self <= rhs
    }
}

impl LengthType for u8 {
    open spec fn as_nat(self) -> nat {
        self as nat
    }

    open spec fn spec_max() -> nat {
        u8::MAX as nat
    }

    const MIN_VALUE: Self = u8::MIN;

    const MAX_VALUE: Self = u8::MAX;

    const ONE_VALUE: Self = 1;

    const ZERO_VALUE: Self = 0;

    proof fn lemma_constants() {
    }

    proof fn lemma_in_range(self) {
    }

    proof fn lemma_one_value_per_number(self, other: Self) {
    }

    fn from_u8(value: u8) -> (r: Self) {
        value
    }

    fn try_from_usize(value: usize) -> (r: Option<Self>) {
        if value <= u8::MAX as usize {
            Some(value as u8)
        } else {
            None
        }
    }

    fn try_into_usize(self) -> (r: Option<usize>) {
        Some(self as usize)
    }

    fn as_usize(self) -> (r: usize) {
        self as usize
    }

    fn checked_add(self, rhs: Self) -> (r: Option<Self>) {
        if rhs <= u8::MAX - self {
            Some(self + rhs)
        } else {
            None
        }
    }

    fn checked_sub(self, rhs: Self) -> (r: Option<Self>) {
        if rhs <= self {
            Some(self - rhs)
        } else {
            None
        }
    }

    fn minus(self, rhs: Self) -> (r: Self) {
        self - rhs
    }

    fn wrapping_add(self, rhs: Self) -> (r: Self) {
        proof {
            lemma_wrap_once(self + rhs, u8::MAX + 1);
        }
        if rhs <= u8::MAX - self {
            self + rhs
        } else {
            rhs - (u8::MAX - self) - 1
        }
    }

    fn half(self) -> (r: Self) {
        self / 2
    }

    fn at_most(self, rhs: Self) -> (r: bool) {
        self <= rhs
    }
}

impl LengthType for u16 {
    open spec fn as_nat(self) -> nat {
        self as nat
    }

    open spec fn spec_max() -> nat {
        u16::MAX as nat
    }

    const MIN_VALUE: Self = u16::MIN;

    const MAX_VALUE: Self = u16::MAX;

    const ONE_VALUE: Self = 1;

    const ZERO_VALUE: Self = 0;

    proof fn lemma_constants() {
    }

    proof fn lemma_in_range(self) {
    }

    proof fn lemma_one_value_per_number(self, other: Self) {
    }

    fn from_u8(value: u8) -> (r: Self) {
        value as u16
    }

    fn try_from_usize(value: usize) -> (r: Option<Self>) {
        if value <= u16::MAX as usize {
            Some(value as u16)
        } else {
            None
        }
    }

    fn try_into_usize(self) -> (r: Option<usize>) {
        Some(self as usize)
    }

    fn as_usize(self) -> (r: usize) {
        self as usize
    }

    fn checked_add(self, rhs: Self) -> (r: Option<Self>) {
        if rhs <= u16::MAX - self {
            Some(self + rhs)
        } else {
            None
        }
    }

    fn checked_sub(self, rhs: Self) -> (r: Option<Self>) {
        if rhs <= self {
            Some(self - rhs)
        } else {
            None
        }
    }

    fn minus(self, rhs: Self) -> (r: Self) {
        self - rhs
    }

    fn wrapping_add(self, rhs: Self) -> (r: Self) {
        proof {
            lemma_wrap_once(self + rhs, u16::MAX + 1);
        }
        if rhs <= u16::MAX - self {
            self + rhs
        } else {
            rhs - (u16::MAX - self) - 1
        }
    }

    fn half(self) -> (r: Self) {
        self / 2
    }

    fn at_most(self, rhs: Self) -> (r: bool) {
        self <= rhs
    }
}

impl LengthType for u32 {
    open spec fn as_nat(self) -> nat {
        self as nat
    }

    open spec fn spec_max() -> nat {
        u32::MAX as nat
    }

    const MIN_VALUE: Self = u32::MIN;

    const MAX_VALUE: Self = u32::MAX;

    const ONE_VALUE: Self = 1;

    const ZERO_VALUE: Self = 0;

    proof fn lemma_constants() {
    }

    proof fn lemma_in_range(self) {
    }

    proof fn lemma_one_value_per_number(self, other: Self) {
    }

    fn from_u8(value: u8) -> (r: Self) {
        value as u32
    }

    fn try_from_usize(value: usize) -> (r: Option<Self>) {
        if value <= u32::MAX as usize {
            Some(value as u32)
        } else {
            None
        }
    }

    fn try_into_usize(self) -> (r: Option<usize>) {
        Some(self as usize)
    }

    fn as_usize(self) -> (r: usize) {
        self as usize
    }

    fn checked_add(self, rhs: Self) -> (r: Option<Self>) {
        if rhs <= u32::MAX - self {
            Some(self + rhs)
        } else {
            None
        }
    }

    fn checked_sub(self, rhs: Self) -> (r: Option<Self>) {
        if rhs <= self {
            Some(self - rhs)
        } else {
            None
        }
    }

    fn minus(self, rhs: Self) -> (r: Self) {
        self - rhs
    }

    fn wrapping_add(self, rhs: Self) -> (r: Self) {
        proof {
            lemma_wrap_once(self + rhs, u32::MAX + 1);
        }
        if rhs <= u32::MAX - self {
            self + rhs
        } else {
            rhs - (u32::MAX - self) - 1
        }
    }

    fn half(self) -> (r: Self) {
        self / 2
    }

    fn at_most(self, rhs: Self) -> (r: bool) {
        self <= rhs
    }
}

impl LengthType for u64 {
    open spec fn as_nat(self) -> nat {
        self as nat
    }

    open spec fn spec_max() -> nat {
        u64::MAX as nat
    }

    const MIN_VALUE: Self = u64::MIN;

    const MAX_VALUE: Self = u64::MAX;

    const ONE_VALUE: Self = 1;

    const ZERO_VALUE: Self = 0;

    proof fn lemma_constants() {
    }

    proof fn lemma_in_range(self) {
    }

    proof fn lemma_one_value_per_number(self, other: Self) {
    }

    fn from_u8(value: u8) -> (r: Self) {
        value as u64
    }

    fn try_from_usize(value: usize) -> (r: Option<Self>) {
        Some(value as u64)
    }

    fn try_into_usize(self) -> (r: Option<usize>) {
        if self <= usize::MAX as u64 {
            Some(self as usize)
        } else {
            None
        }
    }

    fn as_usize(self) -> (r: usize) {
        self as usize
    }

    fn checked_add(self, rhs: Self) -> (r: Option<Self>) {
        if rhs <= u64::MAX - self {
            Some(self + rhs)
        } else {
            None
        }
    }

    fn checked_sub(self, rhs: Self) -> (r: Option<Self>) {
        if rhs <= self {
            Some(self - rhs)
        } else {
            None
        }
    }

    fn minus(self, rhs: Self) -> (r: Self) {
        self - rhs
    }

    fn wrapping_add(self, rhs: Self) -> (r: Self) {
        proof {
            lemma_wrap_once(self + rhs, u64::MAX + 1);
        }
        if rhs <= u64::MAX - self {
            self + rhs
        } else {
            rhs - (u64::MAX - self) - 1
        }
    }

    fn half(self) -> (r: Self) {
        self / 2
    }

    fn at_most(self, rhs: Self) -> (r: bool) {
        self <= rhs
    }
}

impl LengthType for u128 {
    open spec fn as_nat(self) -> nat {
        self as nat
    }

    open spec fn spec_max() -> nat {
        u128::MAX as nat
    }

    const MIN_VALUE: Self = u128::MIN;

    const MAX_VALUE: Self = u128::MAX;

    const ONE_VALUE: Self = 1;

    const ZERO_VALUE: Self = 0;

    proof fn lemma_constants() {
    }

    proof fn lemma_in_range(self) {
    }

    proof fn lemma_one_value_per_number(self, other: Self) {
    }

    fn from_u8(value: u8) -> (r: Self) {
        value as u128
    }

    fn try_from_usize(value: usize) -> (r: Option<Self>) {
        Some(value as u128)
    }

    fn try_into_usize(self) -> (r: Option<usize>) {
        if self <= usize::MAX as u128 {
            Some(self as usize)
        } else {
            None
        }
    }

    fn as_usize(self) -> (r: usize) {
        self as usize
    }

    fn checked_add(self, rhs: Self) -> (r: Option<Self>) {
        if rhs <= u128::MAX - self {
            Some(self + rhs)
        } else {
            None
        }
    }

    fn checked_sub(self, rhs: Self) -> (r: Option<Self>) {
        if rhs <= self {
            Some(self - rhs)
        } else {
            None
        }
    }

    fn minus(self, rhs: Self) -> (r: Self) {
        self - rhs
    }

    fn wrapping_add(self, rhs: Self) -> (r: Self) {
        proof {
            lemma_wrap_once(self + rhs, u128::MAX + 1);
        }
        if rhs <= u128::MAX - self {
            self + rhs
        } else {
            rhs - (u128::MAX - self) - 1
        }
    }

    fn half(self) -> (r: Self) {
        self / 2
    }

    fn at_most(self, rhs: Self) -> (r: bool) {
        self <= rhs
    }
}

} // verus!
