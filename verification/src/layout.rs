//! Size and alignment of a region of memory.

use vstd::prelude::*;
use vstd::arithmetic::div_mod::lemma_fundamental_div_mod;
use vstd::arithmetic::power2::is_pow2;
use vstd::layout::{align_of, layout_for_type_is_valid, size_of, valid_layout};

verus! {

/// The one failure of this crate: a store cannot satisfy a layout right now.
#[derive(Clone, Copy, Debug, PartialEq, Eq, Structural)]
pub struct AllocError;

/// A size and an alignment, in bytes.
///
/// The alignment of every executable `Layout` is a power of two, and its size, rounded up
/// to that alignment, does not exceed `isize::MAX`.
#[derive(Clone, Copy, Debug, PartialEq, Eq, Structural)]
pub struct Layout {
    size: usize,
    align: usize,
}

impl Layout {
    /// What holds of every executable layout.
    #[verifier::type_invariant]
    pub open spec fn is_valid(self) -> bool {
        valid_layout(self.size(), self.align())
    }

    /// The alignment of a valid layout is not zero.
    pub proof fn lemma_align_positive(self)
        requires
            self.is_valid(),
        ensures
            self.align() > 0,
    {
        reveal_with_fuel(is_pow2, 2);
    }

    /// The layout of the given size and alignment.
    pub closed spec fn of(size: usize, align: usize) -> Layout {
        Layout { size, align }
    }

    /// The layout of a value of type `T`.
    pub open spec fn for_type<T>() -> Layout {
        Layout::of(size_of::<T>() as usize, align_of::<T>() as usize)
    }

    /// Whether `n` values of type `T` in a row have a layout.
    pub open spec fn array_fits<T>(n: usize) -> bool {
        &&& n * size_of::<T>() <= usize::MAX
        &&& valid_layout((n * size_of::<T>()) as usize, align_of::<T>() as usize)
    }

    /// The layout of `n` values of type `T` in a row, where there is one.
    pub open spec fn for_array<T>(n: usize) -> Option<Layout> {
        if Layout::array_fits::<T>(n) {
            Some(Layout::of((n * size_of::<T>()) as usize, align_of::<T>() as usize))
        } else {
            None
        }
    }

    /// The size, in bytes.
    pub closed spec fn spec_size(&self) -> usize {
        self.size
    }

    /// The alignment, in bytes.
    pub closed spec fn spec_align(&self) -> usize {
        self.align
    }

    /// Whether a region of this layout can be served from a region of layout `slot`.
    pub open spec fn fits(self, slot: Layout) -> bool {
        self.align() <= slot.align() && self.size() <= slot.size()
    }

    /// A layout is its size and its alignment, nothing more.
    pub broadcast proof fn lemma_of(size: usize, align: usize)
        ensures
            (#[trigger] Layout::of(size, align)).size() == size,
            Layout::of(size, align).align() == align,
    {
    }

    /// Two layouts of the same size and alignment are the same layout.
    pub proof fn lemma_equal(a: Layout, b: Layout)
        requires
            a.size() == b.size(),
            a.align() == b.align(),
        ensures
            a == b,
    {
    }

    /// The size, in bytes.
    #[verifier::when_used_as_spec(spec_size)]
    pub fn size(&self) -> (r: usize)
        ensures
            r == self.size(),
    {
        self.size
    }

    /// The alignment, in bytes: a power of two.
    #[verifier::when_used_as_spec(spec_align)]
    pub fn align(&self) -> (r: usize)
        ensures
            r == self.align(),
            r > 0,
            valid_layout(self.size(), r),
    {
        proof {
            use_type_invariant(self);
            reveal_with_fuel(is_pow2, 2);
        }
        self.align
    }

    /// The layout of the given size and alignment, or an error where the alignment is no
    /// power of two or the size, rounded up to it, exceeds `isize::MAX`.
    pub fn from_size_align(size: usize, align: usize) -> (r: Result<Layout, AllocError>)
        ensures
            r is Ok <==> valid_layout(size, align),
            r is Ok ==> r->Ok_0 == Layout::of(size, align),
    {
        if !is_power_of_two(align) {
            return Err(AllocError);
        }
        proof {
            reveal_with_fuel(is_pow2, 2);
        }
        let max: usize = isize::MAX as usize;
        proof {
            vstd::arithmetic::div_mod::lemma_mod_decreases(max as nat, align as nat);
        }
        if size > max - max % align {
            return Err(AllocError);
        }
        Ok(Layout { size, align })
    }

    /// The layout of a value of type `T`.
    pub fn new<T>() -> (r: Layout)
        ensures
            r == Layout::for_type::<T>(),
            r.size() == size_of::<T>(),
            r.align() == align_of::<T>(),
    {
        layout_for_type_is_valid::<T>();
        Layout { size: core::mem::size_of::<T>(), align: core::mem::align_of::<T>() }
    }

    /// The layout of `n` values of type `T` in a row, or an error where their total size
    /// has no layout.
    pub fn array<T>(n: usize) -> (r: Result<Layout, AllocError>)
        ensures
            r is Ok <==> Layout::array_fits::<T>(n),
            r is Ok ==> Some(r->Ok_0) == Layout::for_array::<T>(n),
            r is Ok ==> r->Ok_0.size() == n * size_of::<T>() && r->Ok_0.align() == align_of::<T>(),
    {
        layout_for_type_is_valid::<T>();
        let element: usize = core::mem::size_of::<T>();
        let align: usize = core::mem::align_of::<T>();
        let max: usize = isize::MAX as usize;
        let limit: usize = max - max % align;
        if element != 0 && n > limit / element {
            proof {
                lemma_product_exceeds(n as int, element as int, limit as int);
            }
            return Err(AllocError);
        }
        proof {
            lemma_product_within(n as int, element as int, limit as int);
        }
        Ok(Layout { size: n * element, align })
    }
}

/// Whether `n` is a power of two.
pub fn is_power_of_two(n: usize) -> (r: bool)
    ensures
        r == is_pow2(n as int),
{
    proof {
        reveal_with_fuel(is_pow2, 2);
    }
    if n == 0 {
        return false;
    }
    let mut rest: usize = n;
    while rest % 2 == 0
        invariant
            rest > 0,
            is_pow2(rest as int) == is_pow2(n as int),
        decreases rest,
    {
        proof {
            reveal_with_fuel(is_pow2, 2);
        }
        rest = rest / 2;
    }
    proof {
        reveal_with_fuel(is_pow2, 2);
    }
    rest == 1
}

proof fn lemma_product_exceeds(n: int, element: int, limit: int)
    requires
        0 < element,
        0 <= limit,
        n > limit / element,
    ensures
        n * element > limit,
{
    lemma_fundamental_div_mod(limit, element);
    assert(n * element > limit) by (nonlinear_arith)
        requires
            0 < element,
            0 <= limit,
            n >= limit / element + 1,
            limit == element * (limit / element) + limit % element,
            limit % element < element,
    ;
}

proof fn lemma_product_within(n: int, element: int, limit: int)
    requires
        0 <= n,
        0 <= element,
        0 <= limit,
        element != 0 ==> n <= limit / element,
    ensures
        0 <= n * element <= limit,
{
    if element == 0 {
        assert(n * element == 0) by (nonlinear_arith)
            requires
                element == 0,
        ;
    } else {
        lemma_fundamental_div_mod(limit, element);
        assert(0 <= n * element <= limit) by (nonlinear_arith)
            requires
                0 < element,
                0 <= n <= limit / element,
                limit == element * (limit / element) + limit % element,
                0 <= limit % element,
        ;
    }
}

} // verus!
