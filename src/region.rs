use vstd::prelude::*;

verus! {

/// A run of `len` bytes starting at address `start`.
#[derive(Clone, Copy, Debug, PartialEq, Eq, Structural)]
pub struct Region {
    pub start: usize,
    pub len: usize,
}

/// The one way an allocation can fail: the chunk source could not supply
/// the memory that was asked of it.
#[derive(Clone, Copy, Debug, PartialEq, Eq, Structural)]
pub struct AllocError;

impl Region {
    /// One past the last byte of the region.
    pub open spec fn end(&self) -> int {
        self.start + self.len
    }

    /// The region lies inside `[lo, hi)`.
    pub open spec fn within(&self, lo: int, hi: int) -> bool {
        lo <= self.start && self.end() <= hi
    }
}

/// The byte ranges `[a, a + a_len)` and `[b, b + b_len)` lie one wholly
/// before the other (an empty range too lies outside the other one).
pub open spec fn ranges_disjoint(a: int, a_len: int, b: int, b_len: int) -> bool {
    a + a_len <= b || b + b_len <= a
}

/// Two regions lie one wholly before the other.
pub open spec fn disjoint(r: Region, s: Region) -> bool {
    ranges_disjoint(r.start as int, r.len as int, s.start as int, s.len as int)
}

/// The smallest multiple of `align` that is at least `x`.
pub open spec fn align_up(x: int, align: int) -> int
    recommends
        align > 0,
{
    if x % align == 0 {
        x
    } else {
        x + (align - x % align)
    }
}

/// `align_up` is a multiple of `align`, not below `x`, and less than `align`
/// above it; no smaller multiple of `align` lies between.
pub proof fn lemma_align_up(x: int, align: int)
    requires
        x >= 0,
        align > 0,
    ensures
        align_up(x, align) % align == 0,
        x <= align_up(x, align) < x + align,
        forall|p: int| x <= p && #[trigger] (p % align) == 0 ==> align_up(x, align) <= p,
{
    let r = x % align;
    assert(0 <= r < align) by (nonlinear_arith)
        requires
            align > 0,
            r == x % align,
    ;
    assert(x == align * (x / align) + r) by (nonlinear_arith)
        requires
            align > 0,
            r == x % align,
    ;
    if r != 0 {
        assert((x + (align - r)) % align == 0) by (nonlinear_arith)
            requires
                align > 0,
                x == align * (x / align) + r,
        {
            assert(x + (align - r) == align * (x / align + 1));
            vstd::arithmetic::div_mod::lemma_mod_multiples_basic(x / align + 1, align);
        }
    }
    assert forall|p: int| x <= p && #[trigger] (p % align) == 0 implies align_up(x, align) <= p by {
        if r != 0 {
            assert(p == align * (p / align)) by (nonlinear_arith)
                requires
                    align > 0,
                    p % align == 0,
            ;
            assert(align * (x / align) < align * (p / align));
            assert(x / align < p / align) by (nonlinear_arith)
                requires
                    align > 0,
                    align * (x / align) < align * (p / align),
            ;
            assert(align * (x / align + 1) <= align * (p / align)) by (nonlinear_arith)
                requires
                    align > 0,
                    x / align + 1 <= p / align,
            ;
            assert(align * (x / align + 1) == align * (x / align) + align) by (nonlinear_arith);
        }
    }
}

/// The smallest multiple of `align` at or above `x`, or `None` where that
/// address does not fit in a `usize`.
pub fn align_up_checked(x: usize, align: usize) -> (r: Option<usize>)
    requires
        align > 0,
    ensures
        r == (if align_up(x as int, align as int) <= usize::MAX {
            Some(align_up(x as int, align as int) as usize)
        } else {
            None::<usize>
        }),
{
    let rem = x % align;
    if rem == 0 {
        Some(x)
    } else {
        x.checked_add(align - rem)
    }
}

} // verus!
