//! The command surface over a single optional engine instance.
//!
//! The four verbs mirror the engine's external interface: `init_engine`
//! creates or replaces the state, `tick` advances it, and the readers
//! project it. Every failure is a precondition violation detected before
//! any mutation: a failed call never leaves a partially-mutated state,
//! and a failed `init_engine` leaves any previous state untouched.

use vstd::prelude::*;
use crate::engine::{dim_ok, alpha_bits_ok, init_field, evolve, Engine};
use crate::reader::{sha256_of, state_bytes, window_ok, window_of};

verus! {

/// Why a command was rejected.
#[derive(Clone, Copy, Debug, PartialEq, Eq, Structural)]
pub enum EngineError {
    /// `init_engine` was given a dimension outside `[4, 512]` or a
    /// coefficient outside `(0, 0.25]`.
    InvalidConfig,
    /// A command other than `init_engine` or a metadata getter was
    /// invoked before any successful `init_engine`.
    Uninitialized,
    /// A window request reaches outside the grid or is empty.
    InvalidWindow,
}

/// Create a fresh engine in `st`, replacing whatever was there, from a
/// dimension, a seed and a diffusion coefficient given as its IEEE-754
/// bit pattern. A rejected configuration leaves the previous state
/// untouched.
pub fn init_engine(st: &mut Option<Engine>, dim: u32, seed: u64, alpha_bits: u64) -> (r: Result<
    (),
    EngineError,
>)
    ensures
        r is Ok <==> dim_ok(dim) && alpha_bits_ok(alpha_bits),
        r is Ok ==> ((*final(st)) matches Some(e) && e.wf() && e.dim == dim && e.step == 0
            && e.alpha_bits == alpha_bits && e.field@ == init_field(dim as int, seed)),
        r is Err ==> r == Err::<(), EngineError>(EngineError::InvalidConfig) && *final(st) == *old(
            st,
        ),
{
    if !(dim >= 4 && dim <= 512) {
        return Err(EngineError::InvalidConfig);
    }
    if !(alpha_bits >= 1 && alpha_bits <= crate::float_bits::BITS_QUARTER) {
        return Err(EngineError::InvalidConfig);
    }
    let e = Engine::new(dim, seed, alpha_bits);
    *st = Some(e);
    Ok(())
}

/// Advance the engine by `n` discrete steps; zero steps are performed
/// when no engine is initialized.
pub fn tick(st: &mut Option<Engine>, n: u32) -> (r: Result<(), EngineError>)
    requires
        (*old(st)) matches Some(e) ==> e.wf() && e.step + n <= u64::MAX,
    ensures
        r is Ok <==> (*old(st)) is Some,
        (*old(st)) matches Some(e) ==> (*final(st)) matches Some(e2) && e2.wf() && e2.dim == e.dim
            && e2.alpha_bits == e.alpha_bits && e2.step == e.step + n && e2.field@ == evolve(
            e.field@,
            e.dim as int,
            e.alpha_bits,
            n as nat,
        ),
        (*old(st)) is None ==> r == Err::<(), EngineError>(EngineError::Uninitialized) && (*final(st))
            is None,
{
    match st {
        Some(e) => {
            e.advance(n);
            Ok(())
        },
        None => Err(EngineError::Uninitialized),
    }
}

/// The current step counter; 0, not an error, when uninitialized.
pub fn get_step(st: &Option<Engine>) -> (r: u64)
    ensures
        (*st) matches Some(e) ==> r == e.step,
        st is None ==> r == 0,
{
    match st {
        Some(e) => e.step,
        None => 0,
    }
}

/// The current grid dimension; 0, not an error, when uninitialized.
pub fn get_dim(st: &Option<Engine>) -> (r: u32)
    ensures
        (*st) matches Some(e) ==> r == e.dim,
        st is None ==> r == 0,
{
    match st {
        Some(e) => e.dim,
        None => 0,
    }
}

/// The canonical 32-byte SHA-256 fingerprint of the full state.
pub fn get_hash(st: &Option<Engine>) -> (r: Result<Vec<u8>, EngineError>)
    ensures
        r is Ok <==> st is Some,
        (*st) matches Some(e) ==> (r matches Ok(d) && d@ == sha256_of(
            state_bytes(e.dim, e.step, e.alpha_bits, e.field@),
        ) && d@.len() == 32),
        st is None ==> r == Err::<Vec<u8>, EngineError>(EngineError::Uninitialized),
{
    match st {
        Some(e) => Ok(e.hash()),
        None => Err(EngineError::Uninitialized),
    }
}

/// The values of the window `[x0, x0+w) x [y0, y0+h)` in row-major
/// order, as IEEE-754 bit patterns. Windows that start outside the grid,
/// are empty, or reach past the grid's edge are rejected, not wrapped
/// and not clamped.
pub fn get_field_slice(st: &Option<Engine>, x0: u32, y0: u32, w: u32, h: u32) -> (r: Result<
    Vec<u64>,
    EngineError,
>)
    requires
        (*st) matches Some(e) ==> e.wf(),
    ensures
        r is Ok <==> (st is Some && window_ok(
            ((*st)->Some_0).dim as int,
            x0 as int,
            y0 as int,
            w as int,
            h as int,
        )),
        (*st) matches Some(e) ==> (window_ok(
            e.dim as int,
            x0 as int,
            y0 as int,
            w as int,
            h as int,
        ) ==> (r matches Ok(v) && v@ == window_of(
            e.field@,
            e.dim as int,
            x0 as int,
            y0 as int,
            w as int,
            h as int,
        ))),
        st is None ==> r == Err::<Vec<u64>, EngineError>(EngineError::Uninitialized),
        (*st) matches Some(e) ==> (!window_ok(e.dim as int, x0 as int, y0 as int, w as int, h as int)
            ==> r == Err::<Vec<u64>, EngineError>(EngineError::InvalidWindow)),
{
    match st {
        Some(e) => {
            let dim = e.dim;
            if !(x0 < dim && y0 < dim) {
                return Err(EngineError::InvalidWindow);
            }
            if !(w >= 1 && h >= 1) {
                return Err(EngineError::InvalidWindow);
            }
            if !(x0 as u64 + w as u64 <= dim as u64 && y0 as u64 + h as u64 <= dim as u64) {
                return Err(EngineError::InvalidWindow);
            }
            Ok(e.window(x0, y0, w, h))
        },
        None => Err(EngineError::Uninitialized),
    }
}

} // verus!
