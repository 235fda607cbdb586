//! Read-only views of the state: the canonical digest and rectangular
//! windows of the field.
//!
//! The digest is SHA-256 over, in fixed order: `dim` (4 bytes
//! little-endian), `step` (8 bytes little-endian), the coefficient's
//! IEEE-754 bit pattern (8 bytes little-endian), then every cell's bit
//! pattern in row-major order (8 bytes little-endian each). A double's
//! little-endian bytes are by definition the little-endian bytes of its
//! bit pattern, so hashing the stored patterns hashes exactly the bytes
//! of the doubles they stand for.

use vstd::prelude::*;
use vstd::arithmetic::div_mod::{lemma_fundamental_div_mod, lemma_fundamental_div_mod_converse};
use vstd::bytes::{
    spec_u32_to_le_bytes, spec_u64_from_le_bytes, spec_u64_to_le_bytes, u32_to_le_bytes,
    u64_to_le_bytes,
    lemma_auto_spec_u32_to_from_le_bytes, lemma_auto_spec_u64_to_from_le_bytes,
};
use sha2::{Digest, Sha256};
use crate::engine::Engine;

verus! {

/// The SHA-256 digest of a byte sequence.
pub uninterp spec fn sha256_of(bytes: Seq<u8>) -> Seq<u8>;

/// Relies on `sha2::Sha256` through the `Digest` trait: SHA-256 is a pure
/// function of the input byte stream alone, and its digest is 32 bytes.
#[verifier::external_body]
fn sha256(bytes: &Vec<u8>) -> (r: Vec<u8>)
    ensures
        r@ == sha256_of(bytes@),
        r@.len() == 32,
{
    let mut h = Sha256::new();
    h.update(bytes.as_slice());
    h.finalize().to_vec()
}

/// The little-endian bytes of the cells `f[i..]`, 8 bytes each, in
/// row-major cell order.
pub open spec fn cells_bytes_from(f: Seq<u64>, i: int) -> Seq<u8>
    decreases f.len() - i,
    when 0 <= i <= f.len()
{
    if i >= f.len() {
        Seq::<u8>::empty()
    } else {
        spec_u64_to_le_bytes(f[i]) + cells_bytes_from(f, i + 1)
    }
}

/// The canonical byte encoding of a state: `dim` (4 bytes LE), `step`
/// (8 bytes LE), the coefficient's bit pattern (8 bytes LE), then every
/// cell (8 bytes LE each) in row-major order.
pub open spec fn state_bytes(dim: u32, step: u64, alpha_bits: u64, f: Seq<u64>) -> Seq<u8> {
    spec_u32_to_le_bytes(dim) + spec_u64_to_le_bytes(step) + spec_u64_to_le_bytes(alpha_bits)
        + cells_bytes_from(f, 0)
}

/// A window request is valid when it starts inside the grid, is at least
/// one cell in each direction, and ends inside the grid: no wrap-around
/// is applied to windows.
pub open spec fn window_ok(dim: int, x0: int, y0: int, w: int, h: int) -> bool {
    &&& x0 < dim
    &&& y0 < dim
    &&& w >= 1
    &&& h >= 1
    &&& x0 + w <= dim
    &&& y0 + h <= dim
}

/// The `w * h` values of the window `[x0, x0+w) x [y0, y0+h)`, row-major.
pub open spec fn window_of(f: Seq<u64>, dim: int, x0: int, y0: int, w: int, h: int) -> Seq<u64> {
    Seq::new((w * h) as nat, |i: int| f[(y0 + i / w) * dim + (x0 + i % w)])
}

impl Engine {
    /// The canonical SHA-256 fingerprint of the full state, computed over
    /// the fixed byte encoding of `state_bytes`.
    pub fn hash(&self) -> (r: Vec<u8>)
        ensures
            r@ == sha256_of(state_bytes(self.dim, self.step, self.alpha_bits, self.field@)),
            r@.len() == 32,
    {
        let ghost target = state_bytes(self.dim, self.step, self.alpha_bits, self.field@);
        let mut bytes: Vec<u8> = Vec::new();
        let mut part = u32_to_le_bytes(self.dim);
        bytes.append(&mut part);
        let mut part2 = u64_to_le_bytes(self.step);
        bytes.append(&mut part2);
        let mut part3 = u64_to_le_bytes(self.alpha_bits);
        bytes.append(&mut part3);
        assert(bytes@ + cells_bytes_from(self.field@, 0) =~= target);
        let mut i: usize = 0;
        while i < self.field.len()
            invariant
                i <= self.field@.len(),
                bytes@ + cells_bytes_from(self.field@, i as int) == target,
            decreases self.field@.len() - i,
        {
            let ghost before = bytes@;
            let mut cell = u64_to_le_bytes(self.field[i]);
            bytes.append(&mut cell);
            proof {
                assert(cells_bytes_from(self.field@, i as int) == spec_u64_to_le_bytes(
                    self.field@[i as int],
                ) + cells_bytes_from(self.field@, i + 1));
                assert(bytes@ + cells_bytes_from(self.field@, i + 1) =~= before + (
                spec_u64_to_le_bytes(self.field@[i as int]) + cells_bytes_from(
                    self.field@,
                    i + 1,
                )));
            }
            i += 1;
        }
        assert(bytes@ =~= target);
        sha256(&bytes)
    }

    /// The values of the rectangular window `[x0, x0+w) x [y0, y0+h)` in
    /// row-major order, read without mutating the state.
    pub fn window(&self, x0: u32, y0: u32, w: u32, h: u32) -> (out: Vec<u64>)
        requires
            self.wf(),
            window_ok(self.dim as int, x0 as int, y0 as int, w as int, h as int),
        ensures
            out@ == window_of(
                self.field@,
                self.dim as int,
                x0 as int,
                y0 as int,
                w as int,
                h as int,
            ),
    {
        let d = self.dim as usize;
        let xs = x0 as usize;
        let ys = y0 as usize;
        let ww = w as usize;
        let hh = h as usize;
        let mut out: Vec<u64> = Vec::new();
        let mut yy: usize = ys;
        while yy < ys + hh
            invariant
                d == self.dim as int,
                d <= 512,
                self.wf(),
                self.field@.len() == d * d,
                xs == x0 as int,
                ys == y0 as int,
                ww == w as int,
                hh == h as int,
                window_ok(d as int, xs as int, ys as int, ww as int, hh as int),
                ys <= yy <= ys + hh,
                out@.len() == (yy - ys) * ww,
                forall|j: int|
                    0 <= j < out@.len() ==> out@[j] == self.field@[(ys + j / (ww as int)) * d + (
                    xs + j % (ww as int))],
            decreases ys + hh - yy,
        {
            let mut xx: usize = xs;
            while xx < xs + ww
                invariant
                    d == self.dim as int,
                    d <= 512,
                    self.wf(),
                    self.field@.len() == d * d,
                    xs == x0 as int,
                    ys == y0 as int,
                    ww == w as int,
                    hh == h as int,
                    window_ok(d as int, xs as int, ys as int, ww as int, hh as int),
                    ys <= yy < ys + hh,
                    xs <= xx <= xs + ww,
                    out@.len() == (yy - ys) * ww + (xx - xs),
                    forall|j: int|
                        0 <= j < out@.len() ==> out@[j] == self.field@[(ys + j / (ww as int)) * d
                            + (xs + j % (ww as int))],
                decreases xs + ww - xx,
            {
                assert(yy * d + xx < d * d && d * d <= 262144) by (nonlinear_arith)
                    requires
                        yy < d,
                        xx < d,
                        d <= 512,
                ;
                let v = self.field[yy * d + xx];
                proof {
                    lemma_fundamental_div_mod_converse(
                        ((yy - ys) * ww + (xx - xs)) as int,
                        ww as int,
                        (yy - ys) as int,
                        (xx - xs) as int,
                    );
                }
                out.push(v);
                xx += 1;
            }
            proof {
                assert((yy - ys + 1) * ww == (yy - ys) * ww + ww) by (nonlinear_arith);
            }
            yy += 1;
        }
        proof {
            assert(hh * ww == ww * hh && ww * hh >= 0) by (nonlinear_arith);
            assert(out@.len() == (w as int * h as int) as nat);
        }
        assert(out@ =~= window_of(
            self.field@,
            self.dim as int,
            x0 as int,
            y0 as int,
            w as int,
            h as int,
        ));
        out
    }
}

/// The full window `(0, 0, dim, dim)` reads back exactly the whole field
/// in row-major order.
pub proof fn lemma_full_window_is_field(f: Seq<u64>, dim: int)
    requires
        dim >= 1,
        f.len() == dim * dim,
    ensures
        window_of(f, dim, 0, 0, dim, dim) == f,
{
    assert(dim * dim >= 0) by (nonlinear_arith)
        requires
            dim >= 1,
    ;
    assert forall|i: int| 0 <= i < dim * dim implies window_of(f, dim, 0, 0, dim, dim)[i] == f[i] by {
        lemma_fundamental_div_mod(i, dim);
        let q = i / dim;
        assert(q * dim == dim * q) by (nonlinear_arith);
        assert((i / dim) * dim + i % dim == i);
    };
    assert(window_of(f, dim, 0, 0, dim, dim) =~= f);
}

/// States that differ in their step counter encode to different byte
/// streams: the hashed bytes change whenever the step counter does,
/// whatever the fields hold.
pub proof fn lemma_state_bytes_distinct_steps(
    dim: u32,
    s1: u64,
    s2: u64,
    alpha_bits: u64,
    f1: Seq<u64>,
    f2: Seq<u64>,
)
    requires
        s1 != s2,
    ensures
        state_bytes(dim, s1, alpha_bits, f1) != state_bytes(dim, s2, alpha_bits, f2),
{
    lemma_auto_spec_u32_to_from_le_bytes();
    lemma_auto_spec_u64_to_from_le_bytes();
    let b1 = state_bytes(dim, s1, alpha_bits, f1);
    let b2 = state_bytes(dim, s2, alpha_bits, f2);
    if b1 == b2 {
        assert(b1.subrange(4, 12) =~= spec_u64_to_le_bytes(s1));
        assert(b2.subrange(4, 12) =~= spec_u64_to_le_bytes(s2));
        assert(spec_u64_from_le_bytes(spec_u64_to_le_bytes(s1)) == spec_u64_from_le_bytes(
            spec_u64_to_le_bytes(s2),
        ));
        assert(false);
    }
}

} // verus!
