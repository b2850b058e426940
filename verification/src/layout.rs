//! Sizes of views and the arithmetic that combines them.
//!
//! Dimensions are 32-bit. Combining them never fails: a sum that leaves the
//! 32-bit range wraps around in two's complement, and a sum that fits is exact.

use vstd::prelude::*;
use vstd::arithmetic::div_mod::lemma_mod_add_multiples_vanish;
use vstd::arithmetic::div_mod::lemma_small_mod;
use vstd::arithmetic::div_mod::lemma_add_mod_noop;
use vstd::arithmetic::div_mod::lemma_mod_bound;
use vstd::arithmetic::div_mod::lemma_sub_mod_noop_right;

verus! {

/// The 32-bit two's-complement value that is congruent to `x`.
pub open spec fn wrap(x: int) -> i32 {
    let r: int = x % 0x1_0000_0000;
    if r > i32::MAX {
        (r - 0x1_0000_0000) as i32
    } else {
        r as i32
    }
}

/// A value that fits in 32 bits is its own reduction.
pub proof fn lemma_wrap_exact(x: int)
    requires
        i32::MIN <= x <= i32::MAX,
    ensures
        wrap(x) == x,
{
    if x >= 0 {
        lemma_small_mod(x as nat, 0x1_0000_0000);
    } else {
        lemma_small_mod((x + 0x1_0000_0000) as nat, 0x1_0000_0000);
        lemma_mod_add_multiples_vanish(x, 0x1_0000_0000);
    }
}

/// Reducing a summand first does not change the reduced sum.
pub proof fn lemma_wrap_add(x: int, y: int)
    ensures
        wrap(wrap(x) + y) == wrap(x + y),
{
    let r: int = x % 0x1_0000_0000;
    lemma_mod_bound(x, 0x1_0000_0000);
    if r > i32::MAX {
        lemma_mod_add_multiples_vanish(r - 0x1_0000_0000 + y, 0x1_0000_0000);
    }
    assert((r + y) % 0x1_0000_0000 == (x + y) % 0x1_0000_0000) by {
        lemma_add_mod_noop(x, y, 0x1_0000_0000);
        lemma_add_mod_noop(r, y, 0x1_0000_0000);
        lemma_small_mod(r as nat, 0x1_0000_0000);
    }
}

/// The machine's wrapping sum is the reduction of the exact sum.
pub proof fn lemma_wrapping_add(x: i32, y: i32)
    ensures
        vstd::wrapping::i32_specs::wrapping_add(x, y) == wrap(x + y),
        i32::MIN <= x + y <= i32::MAX ==> wrap(x + y) == x + y,
{
    let s: int = x + y;
    if s > i32::MAX {
        lemma_wrap_exact(s - 0x1_0000_0000);
        lemma_mod_add_multiples_vanish(s - 0x1_0000_0000, 0x1_0000_0000);
    } else if s < i32::MIN {
        lemma_wrap_exact(s + 0x1_0000_0000);
        lemma_mod_add_multiples_vanish(s, 0x1_0000_0000);
    } else {
        lemma_wrap_exact(s);
    }
}

/// The machine's wrapping difference is the reduction of the exact
/// difference.
pub proof fn lemma_wrapping_sub(x: i32, y: i32)
    ensures
        vstd::wrapping::i32_specs::wrapping_sub(x, y) == wrap(x - y),
        i32::MIN <= x - y <= i32::MAX ==> wrap(x - y) == x - y,
{
    let s: int = x - y;
    if s > i32::MAX {
        lemma_wrap_exact(s - 0x1_0000_0000);
        lemma_mod_add_multiples_vanish(s - 0x1_0000_0000, 0x1_0000_0000);
    } else if s < i32::MIN {
        lemma_wrap_exact(s + 0x1_0000_0000);
        lemma_mod_add_multiples_vanish(s, 0x1_0000_0000);
    } else {
        lemma_wrap_exact(s);
    }
}

/// Taking a reduced amount from a sum is taking the amount itself.
pub proof fn lemma_wrap_sub(x: int, y: int)
    ensures
        wrap(x - wrap(y)) == wrap(x - y),
{
    let r: int = y % 0x1_0000_0000;
    lemma_mod_bound(y, 0x1_0000_0000);
    if r > i32::MAX {
        lemma_mod_add_multiples_vanish(x - r, 0x1_0000_0000);
    }
    assert((x - r) % 0x1_0000_0000 == (x - y) % 0x1_0000_0000) by {
        lemma_sub_mod_noop_right(x, y, 0x1_0000_0000);
    }
}

/// The on-screen footprint of a view: a width and a height.
///
/// Both are nominally non-negative. A negative one is an anomaly that
/// [`Layout::is_underflow`] detects; it is never an error.
#[derive(Debug, Clone, Copy, PartialEq, Eq, Structural)]
pub struct Layout {
    pub width: i32,
    pub height: i32,
}

impl Layout {
    /// This layout grown by `w` and `h`, each axis on its own.
    pub open spec fn spec_add(self, w: int, h: int) -> Layout {
        Layout { width: wrap(self.width + w), height: wrap(self.height + h) }
    }

    /// Whether a dimension is negative.
    pub open spec fn underflows(self) -> bool {
        self.width < 0 || self.height < 0
    }

    /// The empty footprint.
    pub fn new() -> (layout: Layout)
        ensures
            layout == (Layout { width: 0, height: 0 }),
    {
        Layout { width: 0, height: 0 }
    }

    /// Grows the layout by `w` and `h`; negative deltas shrink it.
    ///
    /// Used both to stack the sizes of siblings and to take what a sibling
    /// used out of the space that is left. The result may be negative.
    pub fn add(&self, w: i32, h: i32) -> (layout: Layout)
        ensures
            layout == self.spec_add(w as int, h as int),
            i32::MIN <= self.width + w <= i32::MAX ==> layout.width == self.width + w,
            i32::MIN <= self.height + h <= i32::MAX ==> layout.height == self.height + h,
    {
        proof {
            lemma_wrapping_add(self.width, w);
            lemma_wrapping_add(self.height, h);
        }
        Layout { width: self.width.wrapping_add(w), height: self.height.wrapping_add(h) }
    }

    /// Whether a dimension is negative: the sign that some sum took more
    /// than there was.
    pub fn is_underflow(&self) -> (underflow: bool)
        ensures
            underflow == self.underflows(),
    {
        self.width < 0 || self.height < 0
    }
}

/// What the host measured of its font: the advance of a character cell and
/// the height of a line, in pixels.
#[derive(Debug, Clone, Copy, PartialEq, Eq, Structural)]
pub struct FontMetrics {
    pub advance: i32,
    pub line_height: i32,
}

impl FontMetrics {
    /// The size of a grid of `cols` by `rows` character cells.
    pub open spec fn spec_grid(self, cols: int, rows: int) -> Layout {
        Layout { width: wrap(cols * self.advance), height: wrap(rows * self.line_height) }
    }

    /// The size of a grid of `cols` by `rows` character cells: what a
    /// window must measure to show that many columns and lines.
    pub fn grid(&self, cols: i32, rows: i32) -> (layout: Layout)
        ensures
            layout == self.spec_grid(cols as int, rows as int),
            i32::MIN <= cols * self.advance <= i32::MAX ==> layout.width == cols * self.advance,
            i32::MIN <= rows * self.line_height <= i32::MAX ==> layout.height == rows
                * self.line_height,
    {
        proof {
            if i32::MIN <= cols * self.advance <= i32::MAX {
                lemma_wrap_exact(cols * self.advance);
            }
            if i32::MIN <= rows * self.line_height <= i32::MAX {
                lemma_wrap_exact(rows * self.line_height);
            }
        }
        Layout {
            width: cols.wrapping_mul(self.advance),
            height: rows.wrapping_mul(self.line_height),
        }
    }
}

/// Growing a layout twice is growing it once by the sums of the deltas,
/// each axis on its own, for all integer deltas.
pub proof fn lemma_add_additive(layout: Layout, a: int, b: int, c: int, d: int)
    ensures
        layout.spec_add(a, b).spec_add(c, d) == layout.spec_add(a + c, b + d),
{
    lemma_wrap_add(layout.width + a, c);
    lemma_wrap_add(layout.height + b, d);
}

} // verus!
