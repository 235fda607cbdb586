//! The field state and its evolution.
//!
//! An [`Engine`] owns a square grid of `dim * dim` cells, stored
//! row-major (`index = y * dim + x`) as IEEE-754 binary64 bit patterns.
//! A fresh grid is populated from the xorshift stream of a seed, each
//! word normalized into `[-1, 1]`. One discrete time step applies, to
//! every cell, a 4-neighbor Laplacian with periodic (toroidal) boundary
//! conditions, reading all terms from the grid as it stood at the start
//! of the step.

use vstd::prelude::*;
use vstd::arithmetic::div_mod::{lemma_fundamental_div_mod, lemma_fundamental_div_mod_converse, lemma_mod_multiples_basic};
use crate::float_bits::{f_add, f_sub, f_mul, f_div, f_of_u64};
use crate::float_bits::{add_bits, sub_bits, mul_bits, div_bits, u64_to_double_bits};
use crate::float_bits::{BITS_ONE, BITS_TWO, BITS_FOUR, BITS_QUARTER};
use crate::rng::{xorshift_step, stream, xorshift64, seed_to_u64};

verus! {

/// Side lengths allowed for a grid.
pub open spec fn dim_ok(dim: u32) -> bool {
    4 <= dim <= 512
}

/// Diffusion coefficients allowed, as bit patterns: exactly the doubles
/// `a` with `0.0 < a <= 0.25`. For doubles with a clear sign bit the bit
/// patterns are ordered as the values are, so the positive doubles up to
/// 0.25 are the patterns in `[1, BITS_QUARTER]`; zero is pattern 0, and
/// every negative, NaN or infinite double has a pattern above
/// `BITS_QUARTER` (sign bit set, or exponent field all ones).
pub open spec fn alpha_bits_ok(a: u64) -> bool {
    1 <= a <= BITS_QUARTER
}

/// A generator word mapped into `[-1, 1]`: `u = s / MAX; u * 2 - 1`,
/// in IEEE-754 binary64 arithmetic on bit patterns.
pub open spec fn init_cell_spec(s: u64) -> u64 {
    f_sub(f_mul(f_div(f_of_u64(s), f_of_u64(u64::MAX)), BITS_TWO), BITS_ONE)
}

/// The fresh field for a seed: cell `i` (row-major) holds the `i`-th
/// stream word normalized into `[-1, 1]`.
pub open spec fn init_field(dim: int, seed: u64) -> Seq<u64> {
    Seq::new((dim * dim) as nat, |i: int| init_cell_spec(stream(seed, i as nat)))
}

/// The coordinate one below `i`, wrapped to the far edge at 0.
pub open spec fn wrap_dec(i: int, dim: int) -> int {
    if i == 0 {
        dim - 1
    } else {
        i - 1
    }
}

/// The coordinate one above `i`, wrapped to 0 at the far edge.
pub open spec fn wrap_inc(i: int, dim: int) -> int {
    if i == dim - 1 {
        0
    } else {
        i + 1
    }
}

/// The stencil update of one cell: `c + alpha * ((l + r + u + d) - 4*c)`,
/// in IEEE-754 binary64 arithmetic on bit patterns, associated exactly as
/// written.
pub open spec fn stencil_spec(c: u64, l: u64, r: u64, u: u64, d: u64, alpha: u64) -> u64 {
    f_add(c, f_mul(alpha, f_sub(f_add(f_add(f_add(l, r), u), d), f_mul(BITS_FOUR, c))))
}

/// The value of cell `(x, y)` after one step: the stencil applied to the
/// cell and its four periodic neighbors in the previous field.
pub open spec fn step_cell(f: Seq<u64>, dim: int, alpha: u64, x: int, y: int) -> u64 {
    stencil_spec(
        f[y * dim + x],
        f[y * dim + wrap_dec(x, dim)],
        f[y * dim + wrap_inc(x, dim)],
        f[wrap_dec(y, dim) * dim + x],
        f[wrap_inc(y, dim) * dim + x],
        alpha,
    )
}

/// One full step: every cell computed from the previous field.
pub open spec fn step_field(f: Seq<u64>, dim: int, alpha: u64) -> Seq<u64> {
    Seq::new((dim * dim) as nat, |i: int| step_cell(f, dim, alpha, i % dim, i / dim))
}

/// `n` full steps from `f`.
pub open spec fn evolve(f: Seq<u64>, dim: int, alpha: u64, n: nat) -> Seq<u64>
    decreases n,
{
    if n == 0 {
        f
    } else {
        step_field(evolve(f, dim, alpha, (n - 1) as nat), dim, alpha)
    }
}

/// The simulation state: a square grid of doubles held as bit patterns,
/// with its step counter and diffusion coefficient.
pub struct Engine {
    /// Side length of the square grid; fixed for the engine's lifetime.
    pub dim: u32,
    /// Completed discrete time steps since initialization.
    pub step: u64,
    /// Bit pattern of the diffusion coefficient.
    pub alpha_bits: u64,
    /// The `dim * dim` cells, row-major, as IEEE-754 binary64 bit patterns.
    pub field: Vec<u64>,
}

impl Engine {
    /// The state invariant: dimension and coefficient in range, and one
    /// cell for each grid point.
    pub open spec fn wf(self) -> bool {
        &&& dim_ok(self.dim)
        &&& alpha_bits_ok(self.alpha_bits)
        &&& self.field@.len() == self.dim * self.dim
    }

    /// A fresh engine: step 0 and a field populated from the seed's
    /// xorshift stream, each word normalized into `[-1, 1]`, consumed in
    /// row-major order.
    pub fn new(dim: u32, seed: u64, alpha_bits: u64) -> (e: Engine)
        requires
            dim_ok(dim),
            alpha_bits_ok(alpha_bits),
        ensures
            e.wf(),
            e.dim == dim,
            e.step == 0,
            e.alpha_bits == alpha_bits,
            e.field@ == init_field(dim as int, seed),
    {
        let d = dim as usize;
        assert(d * d <= 512 * 512) by (nonlinear_arith)
            requires
                d <= 512,
        ;
        let n = d * d;
        let mut s = seed_to_u64(seed);
        let mut field: Vec<u64> = Vec::new();
        let mut i: usize = 0;
        while i < n
            invariant
                d == dim as int,
                dim <= 512,
                n == d * d,
                i <= n,
                field@.len() == i,
                forall|j: int| 0 <= j < i ==> field@[j] == init_cell_spec(stream(seed, j as nat)),
                i == 0 ==> s == seed,
                i > 0 ==> s == stream(seed, (i - 1) as nat),
            decreases n - i,
        {
            s = xorshift64(s);
            assert(s == stream(seed, i as nat));
            let v = init_cell(s);
            field.push(v);
            i += 1;
        }
        assert(field@ =~= init_field(dim as int, seed));
        Engine { dim, step: 0, alpha_bits, field }
    }

    /// Perform `n` discrete steps. Each step is computed entirely from
    /// the field as it stood at the start of that step and committed as
    /// one transition; the step counter grows by exactly `n`.
    pub fn advance(&mut self, n: u32)
        requires
            old(self).wf(),
            old(self).step + n <= u64::MAX,
        ensures
            final(self).wf(),
            final(self).dim == old(self).dim,
            final(self).alpha_bits == old(self).alpha_bits,
            final(self).step == old(self).step + n,
            final(self).field@ == evolve(
                old(self).field@,
                old(self).dim as int,
                old(self).alpha_bits,
                n as nat,
            ),
    {
        let dim = self.dim;
        let alpha = self.alpha_bits;
        let mut k: u32 = 0;
        while k < n
            invariant
                self.dim == old(self).dim,
                self.alpha_bits == old(self).alpha_bits,
                dim == old(self).dim,
                alpha == old(self).alpha_bits,
                self.wf(),
                k <= n,
                old(self).step + n <= u64::MAX,
                self.step == old(self).step + k,
                self.field@ == evolve(old(self).field@, dim as int, alpha, k as nat),
            decreases n - k,
        {
            let next = step_once(&self.field, dim, alpha);
            self.field = next;
            self.step = self.step + 1;
            k += 1;
            assert(evolve(old(self).field@, dim as int, alpha, k as nat) == step_field(
                evolve(old(self).field@, dim as int, alpha, (k - 1) as nat),
                dim as int,
                alpha,
            ));
        }
    }
}

/// One generator word mapped into `[-1, 1]`.
fn init_cell(s: u64) -> (r: u64)
    ensures
        r == init_cell_spec(s),
{
    let u = div_bits(u64_to_double_bits(s), u64_to_double_bits(u64::MAX));
    sub_bits(mul_bits(u, BITS_TWO), BITS_ONE)
}

/// One full step over a fresh buffer: every cell of the result is the
/// stencil update read entirely from `f`, so no cell ever mixes old and
/// new values within the step.
fn step_once(f: &Vec<u64>, dim: u32, alpha: u64) -> (next: Vec<u64>)
    requires
        1 <= dim <= 512,
        f@.len() == dim * dim,
    ensures
        next@ == step_field(f@, dim as int, alpha),
{
    let d = dim as usize;
    assert(d * d <= 512 * 512) by (nonlinear_arith)
        requires
            d <= 512,
    ;
    let n = d * d;
    let mut next: Vec<u64> = Vec::new();
    let mut y: usize = 0;
    while y < d
        invariant
            d == dim as int,
            d <= 512,
            n == d * d,
            f@.len() == n,
            y <= d,
            next@.len() == y * d,
            forall|j: int|
                0 <= j < next@.len() ==> next@[j] == step_cell(
                    f@,
                    dim as int,
                    alpha,
                    j % (dim as int),
                    j / (dim as int),
                ),
        decreases d - y,
    {
        let mut x: usize = 0;
        assert(y * d + d <= d * d) by (nonlinear_arith)
            requires
                y < d,
        ;
        while x < d
            invariant
                d == dim as int,
                d <= 512,
                n == d * d,
                f@.len() == n,
                y < d,
                x <= d,
                y * d + d <= d * d,
                next@.len() == y * d + x,
                forall|j: int|
                    0 <= j < next@.len() ==> next@[j] == step_cell(
                        f@,
                        dim as int,
                        alpha,
                        j % (dim as int),
                        j / (dim as int),
                    ),
            decreases d - x,
        {
            let xm = if x == 0 {
                d - 1
            } else {
                x - 1
            };
            let xp = if x == d - 1 {
                0
            } else {
                x + 1
            };
            let ym = if y == 0 {
                d - 1
            } else {
                y - 1
            };
            let yp = if y == d - 1 {
                0
            } else {
                y + 1
            };
            assert(ym * d + d <= d * d && yp * d + d <= d * d) by (nonlinear_arith)
                requires
                    ym < d,
                    yp < d,
            ;
            let c = f[y * d + x];
            let l = f[y * d + xm];
            let r = f[y * d + xp];
            let u = f[ym * d + x];
            let dn = f[yp * d + x];
            let lap = sub_bits(add_bits(add_bits(add_bits(l, r), u), dn), mul_bits(BITS_FOUR, c));
            let v = add_bits(c, mul_bits(alpha, lap));
            proof {
                lemma_fundamental_div_mod_converse(
                    (y * d + x) as int,
                    d as int,
                    y as int,
                    x as int,
                );
                assert(v == step_cell(f@, dim as int, alpha, x as int, y as int));
            }
            next.push(v);
            x += 1;
        }
        proof {
            assert((y as int + 1) * d == y as int * d + d) by (nonlinear_arith);
        }
        y += 1;
    }
    assert(next@ =~= step_field(f@, dim as int, alpha));
    next
}

/// The row-major index of the cell at `(x, y)`.
pub fn idx(dim: u32, x: u32, y: u32) -> (r: usize)
    requires
        dim <= 512,
        x < dim,
        y < dim,
    ensures
        r == y * dim + x,
{
    assert(y * dim + x < 512 * 512) by (nonlinear_arith)
        requires
            y < dim,
            x < dim,
            dim <= 512,
    ;
    (y as usize) * (dim as usize) + (x as usize)
}

/// The coordinate `v` wrapped into `[0, dim)` by floored (always
/// non-negative) modulo: the unique representative of `v` modulo `dim`
/// inside the grid.
pub fn wrap(dim: u32, v: i64) -> (r: u32)
    requires
        1 <= dim,
    ensures
        r < dim,
        (v - r) % (dim as int) == 0,
{
    let d = dim as u64;
    if v >= 0 {
        let k = (v as u64) % d;
        proof {
            let di = d as int;
            let q = v as int / di;
            lemma_fundamental_div_mod(v as int, di);
            assert(v as int - k as int == q * di) by (nonlinear_arith)
                requires
                    v as int == di * q + k as int,
            ;
            lemma_mod_multiples_basic(q, di);
        }
        k as u32
    } else {
        let n = (-(v + 1)) as u64;
        let k = n % d;
        let r = (d - 1) - k;
        proof {
            let di = d as int;
            let q = n as int / di;
            lemma_fundamental_div_mod(n as int, di);
            assert(v as int - r as int == (-q - 1) * di) by (nonlinear_arith)
                requires
                    n as int == di * q + k as int,
                    v as int == -(n as int) - 1,
                    r as int == di - 1 - k as int,
            ;
            lemma_mod_multiples_basic(-q - 1, di);
        }
        r as u32
    }
}

/// Two initializations from the same dimension and seed yield
/// element-wise identical fields: the fresh field is a function of
/// `(dim, seed)` alone.
pub proof fn lemma_initialize_deterministic(e1: Engine, e2: Engine, dim: u32, seed: u64)
    requires
        e1.field@ == init_field(dim as int, seed),
        e2.field@ == init_field(dim as int, seed),
    ensures
        e1.field@ == e2.field@,
        e1.field@.len() == e2.field@.len(),
        forall|i: int| 0 <= i < e1.field@.len() ==> e1.field@[i] == e2.field@[i],
{
}

/// Advancing by `a` steps and then by `b` steps yields the same field as
/// advancing by `a + b` steps from the same starting field.
pub proof fn lemma_advance_additive(f: Seq<u64>, dim: int, alpha: u64, a: nat, b: nat)
    ensures
        evolve(evolve(f, dim, alpha, a), dim, alpha, b) == evolve(f, dim, alpha, a + b),
    decreases b,
{
    if b > 0 {
        lemma_advance_additive(f, dim, alpha, a, (b - 1) as nat);
    }
}

/// The stencil's neighbor coordinates are the floored-modulo wraps of
/// `i - 1` and `i + 1`: each is the unique in-grid representative of its
/// coordinate modulo `dim`, so the stencil and `wrap` agree on every
/// border.
pub proof fn lemma_neighbors_are_wrapped_modulo(i: int, dim: int)
    requires
        0 <= i < dim,
    ensures
        0 <= wrap_dec(i, dim) < dim,
        ((i - 1) - wrap_dec(i, dim)) % dim == 0,
        0 <= wrap_inc(i, dim) < dim,
        ((i + 1) - wrap_inc(i, dim)) % dim == 0,
{
    lemma_mod_multiples_basic(-1, dim);
    lemma_mod_multiples_basic(0, dim);
    lemma_mod_multiples_basic(1, dim);
    if i == 0 {
        assert((i - 1) - wrap_dec(i, dim) == (-1) * dim);
    } else {
        assert((i - 1) - wrap_dec(i, dim) == 0 * dim);
    }
    if i == dim - 1 {
        assert((i + 1) - wrap_inc(i, dim) == 1 * dim);
    } else {
        assert((i + 1) - wrap_inc(i, dim) == 0 * dim);
    }
}

/// On a 4-wide grid, the cell at `(0, 0)` is updated from its periodic
/// neighbors `(3, 0)`, `(1, 0)`, `(0, 3)` and `(0, 1)` — row-major
/// indices 3, 1, 12 and 4 — not from truncated out-of-range neighbors.
pub proof fn lemma_step_wraps_at_origin(f: Seq<u64>, alpha: u64)
    requires
        f.len() == 16,
    ensures
        step_field(f, 4, alpha)[0] == stencil_spec(f[0], f[3], f[1], f[12], f[4], alpha),
{
    assert(step_field(f, 4, alpha)[0] == step_cell(f, 4, alpha, 0, 0));
}

} // verus!
