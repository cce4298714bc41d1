//! Size/alignment requests and the power-of-two arithmetic behind them.
use vstd::prelude::*;

verus! {

/// Alignment up to which the collector's plain allocation is already suitably aligned.
pub const MIN_ALIGN: usize = 8;

/// `n` is a power of two.
pub open spec fn is_pow2(n: int) -> bool
    decreases n,
{
    if n <= 0 {
        false
    } else if n == 1 {
        true
    } else {
        n % 2 == 0 && is_pow2(n / 2)
    }
}

/// Of two powers of two, the smaller divides the larger.
pub proof fn lemma_pow2_divides(a: int, b: int)
    requires
        is_pow2(a),
        is_pow2(b),
        b <= a,
    ensures
        a % b == 0,
    decreases a,
{
    if b == 1 || a == b {
    } else {
        assert(a != 1);
        assert(b != 1);
        lemma_pow2_divides(a / 2, b / 2);
        let k = (a / 2) / (b / 2);
        vstd::arithmetic::div_mod::lemma_fundamental_div_mod(a / 2, b / 2);
        assert(a / 2 == k * (b / 2)) by (nonlinear_arith)
            requires
                a / 2 == (b / 2) * k + (a / 2) % (b / 2),
                (a / 2) % (b / 2) == 0,
        ;
        assert(a == k * b) by (nonlinear_arith)
            requires
                a == 2 * (a / 2),
                b == 2 * (b / 2),
                a / 2 == k * (b / 2),
        ;
        vstd::arithmetic::div_mod::lemma_mod_multiples_basic(k, b);
    }
}

/// Divisibility passes down from a multiple: `b | a` and `a | x` give `b | x`.
pub proof fn lemma_mod_chain(x: int, a: int, b: int)
    requires
        a > 0,
        b > 0,
        a % b == 0,
        x % a == 0,
    ensures
        x % b == 0,
{
    let j = a / b;
    let k = x / a;
    vstd::arithmetic::div_mod::lemma_fundamental_div_mod(a, b);
    vstd::arithmetic::div_mod::lemma_fundamental_div_mod(x, a);
    assert(x == (k * j) * b) by (nonlinear_arith)
        requires
            a == b * j,
            x == a * k,
    ;
    vstd::arithmetic::div_mod::lemma_mod_multiples_basic(k * j, b);
}

/// A power of two no larger than `MIN_ALIGN` divides every multiple of `MIN_ALIGN`.
pub proof fn lemma_small_align_divides(x: int, align: int)
    requires
        is_pow2(align),
        align <= MIN_ALIGN,
        x % (MIN_ALIGN as int) == 0,
    ensures
        x % align == 0,
{
    reveal_with_fuel(is_pow2, 5);
    lemma_pow2_divides(MIN_ALIGN as int, align);
    lemma_mod_chain(x, MIN_ALIGN as int, align);
}

/// Tests whether `n` is a power of two.
pub fn is_power_of_two(n: usize) -> (r: bool)
    ensures
        r == is_pow2(n as int),
{
    if n == 0 {
        return false;
    }
    let mut m: usize = n;
    while m > 1 && m % 2 == 0
        invariant
            m >= 1,
            is_pow2(m as int) == is_pow2(n as int),
        decreases m,
    {
        m = m / 2;
    }
    m == 1
}

/// A request for `size` bytes aligned to `align`.
///
/// `align` is a power of two and `size`, rounded up to a multiple of `align`,
/// fits in an `isize`.
#[derive(Clone, Copy, Debug, PartialEq, Eq)]
pub struct Layout {
    size: usize,
    align: usize,
}

/// The conditions under which `size` and `align` make a layout.
pub open spec fn valid_layout(size: int, align: int) -> bool {
    is_pow2(align) && size + align - 1 <= isize::MAX
}

impl Layout {
    #[verifier::type_invariant]
    pub open spec fn inv(self) -> bool {
        valid_layout(self.spec_size() as int, self.spec_align() as int)
    }

    pub closed spec fn spec_size(&self) -> usize {
        self.size
    }

    pub closed spec fn spec_align(&self) -> usize {
        self.align
    }

    /// Builds a layout, or `None` where `align` is not a power of two or the
    /// size rounded up to `align` would not fit in an `isize`.
    pub fn from_size_align(size: usize, align: usize) -> (r: Option<Layout>)
        ensures
            r is Some <==> valid_layout(size as int, align as int),
            r matches Some(l) ==> l.spec_size() == size && l.spec_align() == align,
    {
        if !is_power_of_two(align) {
            return None;
        }
        if size > isize::MAX as usize || align - 1 > isize::MAX as usize - size {
            return None;
        }
        Some(Layout { size, align })
    }

    #[verifier::when_used_as_spec(spec_size)]
    pub fn size(&self) -> (r: usize)
        ensures
            r == self.spec_size(),
    {
        self.size
    }

    #[verifier::when_used_as_spec(spec_align)]
    pub fn align(&self) -> (r: usize)
        ensures
            r == self.spec_align(),
    {
        self.align
    }

    /// A non-null address aligned to this layout, never to be dereferenced:
    /// the placeholder handed out for a zero-size request.
    pub fn dangling(&self) -> (r: usize)
        ensures
            r == self.spec_align(),
            r != 0,
            r % self.spec_align() == 0,
    {
        proof {
            use_type_invariant(self);
        }
        self.align
    }
}

} // verus!
