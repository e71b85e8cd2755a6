use vstd::arithmetic::power2::is_pow2;
use vstd::layout::align_of;
use vstd::layout::layout_for_type_is_valid;
use vstd::layout::size_of;
use vstd::layout::valid_layout;
use vstd::prelude::*;

verus! {

/// `size` rounded up to the next multiple of `align`.
pub open spec fn padded_size(size: nat, align: nat) -> nat {
    if size % align == 0 {
        size
    } else {
        (size + align - size % align) as nat
    }
}

/// The largest size that a region of the given alignment may have.
pub open spec fn max_size_for(align: nat) -> nat {
    (isize::MAX as int - (isize::MAX as int) % (align as int)) as nat
}

/// Rounding up keeps a size within the largest multiple of `align` that it does
/// not exceed.
pub proof fn lemma_padded_within(size: nat, align: nat, multiple: nat)
    requires
        align > 0,
        size <= multiple,
        multiple % align == 0,
    ensures
        size <= padded_size(size, align) <= multiple,
        padded_size(size, align) < size + align,
        padded_size(size, align) % align == 0,
{
    let q = size / align;
    let r = size % align;
    let k = multiple / align;
    assert(size == align * q + r && 0 <= r < align) by {
        vstd::arithmetic::div_mod::lemma_fundamental_div_mod(size as int, align as int);
    }
    assert(multiple == align * k) by {
        vstd::arithmetic::div_mod::lemma_fundamental_div_mod(multiple as int, align as int);
    }
    if r != 0 {
        assert(q < k) by (nonlinear_arith)
            requires
                align * q + r <= align * k,
                r > 0,
                align > 0,
        ;
        assert(align * (q + 1) <= align * k) by (nonlinear_arith)
            requires
                q + 1 <= k,
                align > 0,
        ;
        assert(align * (q + 1) == align * q + align) by (nonlinear_arith);
        assert(padded_size(size, align) == align * (q + 1));
        assert((align * (q + 1)) % align == 0) by {
            vstd::arithmetic::div_mod::lemma_mod_multiples_basic((q + 1) as int, align as int);
            assert(align * (q + 1) == (q + 1) * align) by (nonlinear_arith);
        }
    }
}

/// The largest size for an alignment is a multiple of it.
pub proof fn lemma_max_size_is_multiple(align: nat)
    requires
        align > 0,
    ensures
        max_size_for(align) % align == 0,
        max_size_for(align) <= isize::MAX,
{
    let m = isize::MAX as int;
    let a = align as int;
    vstd::arithmetic::div_mod::lemma_fundamental_div_mod(m, a);
    assert(m - m % a == a * (m / a));
    assert(m / a >= 0) by {
        vstd::arithmetic::div_mod::lemma_div_pos_is_pos(m, a);
    }
    vstd::arithmetic::div_mod::lemma_mod_multiples_basic(m / a, a);
    assert(a * (m / a) == (m / a) * a) by (nonlinear_arith);
}

/// Whether `n` is a power of two.
pub fn is_power_of_two(n: usize) -> (r: bool)
    ensures
        r == is_pow2(n as int),
{
    if n == 0 {
        proof {
            reveal(is_pow2);
        }
        return false;
    }
    let mut m: usize = n;
    while m % 2 == 0
        invariant
            0 < m <= n,
            is_pow2(m as int) == is_pow2(n as int),
        decreases m,
    {
        proof {
            reveal(is_pow2);
        }
        m = m / 2;
    }
    proof {
        reveal(is_pow2);
    }
    m == 1
}

/// The size and the alignment of a region of memory, both in bytes.
///
/// The alignment is a power of two, and the size, rounded up to a multiple of
/// the alignment, is at most `isize::MAX`.
#[derive(Debug, Copy, Clone, PartialEq, Eq)]
pub struct Layout {
    size: usize,
    align: usize,
}

impl Layout {
    /// The size and the alignment form a layout.
    #[verifier::type_invariant]
    pub closed spec fn wf(self) -> bool {
        valid_layout(self.size, self.align)
    }

    /// The size in bytes.
    pub closed spec fn spec_size(&self) -> usize {
        self.size
    }

    /// The alignment in bytes.
    pub closed spec fn spec_align(&self) -> usize {
        self.align
    }

    /// Whether this is the layout of one value of type `T`.
    pub open spec fn is_layout_of<T>(self) -> bool {
        self.spec_size() == size_of::<T>() && self.spec_align() == align_of::<T>()
    }

    /// What holds of every layout.
    pub proof fn lemma_valid(self)
        requires
            self.wf(),
        ensures
            valid_layout(self.spec_size(), self.spec_align()),
            self.spec_align() > 0,
            self.spec_size() <= max_size_for(self.spec_align() as nat) <= isize::MAX,
    {
        reveal(is_pow2);
        lemma_max_size_is_multiple(self.align as nat);
    }

    /// The layout of the given size and alignment, where they form one.
    pub fn from_size_align(size: usize, align: usize) -> (r: Option<Layout>)
        ensures
            r is Some <==> valid_layout(size, align),
            r matches Some(l) ==> l.wf() && l.spec_size() == size && l.spec_align() == align,
    {
        if !is_power_of_two(align) {
            return None;
        }
        proof {
            reveal(is_pow2);
        }
        assert((isize::MAX as int) % (align as int) <= isize::MAX) by {
            vstd::arithmetic::div_mod::lemma_mod_decreases(isize::MAX as nat, align as nat);
        }
        let limit: usize = (isize::MAX as usize) - (isize::MAX as usize) % align;
        if size > limit {
            return None;
        }
        Some(Layout { size, align })
    }

    /// The layout of one value of type `T`.
    pub fn new<T>() -> (r: Layout)
        ensures
            r.wf(),
            r.is_layout_of::<T>(),
            r.spec_size() % r.spec_align() == 0,
    {
        layout_for_type_is_valid::<T>();
        Layout { size: core::mem::size_of::<T>(), align: core::mem::align_of::<T>() }
    }

    /// The size in bytes.
    #[verifier::when_used_as_spec(spec_size)]
    pub fn size(&self) -> (r: usize)
        ensures
            r == self.spec_size(),
    {
        self.size
    }

    /// The alignment in bytes.
    #[verifier::when_used_as_spec(spec_align)]
    pub fn align(&self) -> (r: usize)
        ensures
            r == self.spec_align(),
            r > 0,
    {
        proof {
            use_type_invariant(self);
            reveal(is_pow2);
        }
        self.align
    }

    /// The layout of the same alignment and the given size, where there is one.
    pub fn with_size(&self, size: usize) -> (r: Option<Layout>)
        ensures
            r is Some <==> valid_layout(size, self.spec_align()),
            r matches Some(l) ==> l.wf() && l.spec_size() == size && l.spec_align()
                == self.spec_align(),
    {
        proof {
            use_type_invariant(self);
            reveal(is_pow2);
        }
        assert((isize::MAX as int) % (self.align as int) <= isize::MAX) by {
            vstd::arithmetic::div_mod::lemma_mod_decreases(isize::MAX as nat, self.align as nat);
        }
        let limit: usize = (isize::MAX as usize) - (isize::MAX as usize) % self.align;
        if size > limit {
            return None;
        }
        Some(Layout { size, align: self.align })
    }

    /// The layout whose size is this one's, rounded up to a multiple of the
    /// alignment.
    pub fn pad_to_align(&self) -> (r: Layout)
        ensures
            r.wf(),
            r.spec_size() == padded_size(self.spec_size() as nat, self.spec_align() as nat),
            r.spec_align() == self.spec_align(),
    {
        proof {
            use_type_invariant(self);
            self.lemma_valid();
            lemma_max_size_is_multiple(self.align as nat);
            lemma_padded_within(
                self.size as nat,
                self.align as nat,
                max_size_for(self.align as nat),
            );
        }
        let rest: usize = self.size % self.align;
        if rest == 0 {
            *self
        } else {
            Layout { size: self.size + (self.align - rest), align: self.align }
        }
    }
}

} // verus!
