use field_engine::api::{get_dim, get_field_slice, get_step, init_engine, tick, EngineError};
use field_engine::engine::{idx, wrap};
use field_engine::rng::{seed_to_u64, xorshift64};

fn xorshift_native(mut x: u64) -> u64 {
    x ^= x << 13;
    x ^= x >> 7;
    x ^= x << 17;
    x
}

/// The field a fresh engine must hold, computed with hardware doubles.
fn native_field(dim: u32, seed: u64) -> Vec<f64> {
    let n = (dim as usize) * (dim as usize);
    let mut s = seed;
    let mut f = Vec::with_capacity(n);
    for _ in 0..n {
        s = xorshift_native(s);
        let u = (s as f64) / (u64::MAX as f64);
        f.push(u * 2.0 - 1.0);
    }
    f
}

fn wrap_native(dim: u32, v: i64) -> u32 {
    let d = dim as i64;
    let mut r = v % d;
    if r < 0 {
        r += d;
    }
    r as u32
}

/// One diffusion step, computed with hardware doubles and periodic wrap.
fn native_step(f: &[f64], dim: u32, alpha: f64) -> Vec<f64> {
    let d = dim as usize;
    let mut next = f.to_vec();
    for y in 0..dim {
        for x in 0..dim {
            let c = f[(y as usize) * d + (x as usize)];
            let l = f[(y as usize) * d + wrap_native(dim, x as i64 - 1) as usize];
            let r = f[(y as usize) * d + wrap_native(dim, x as i64 + 1) as usize];
            let u = f[wrap_native(dim, y as i64 - 1) as usize * d + (x as usize)];
            let dn = f[wrap_native(dim, y as i64 + 1) as usize * d + (x as usize)];
            let lap = (l + r + u + dn) - 4.0 * c;
            next[(y as usize) * d + (x as usize)] = c + alpha * lap;
        }
    }
    next
}

fn full_slice(st: &Option<field_engine::engine::Engine>, dim: u32) -> Vec<u64> {
    get_field_slice(st, 0, 0, dim, dim).expect("engine initialized, full window in range")
}

#[test]
fn init_is_deterministic() {
    let mut a = None;
    let mut b = None;
    init_engine(&mut a, 8, 0xDEADBEEF, 0.2f64.to_bits()).unwrap();
    init_engine(&mut b, 8, 0xDEADBEEF, 0.2f64.to_bits()).unwrap();
    assert_eq!(full_slice(&a, 8), full_slice(&b, 8));
}

#[test]
fn init_matches_double_arithmetic() {
    let mut st = None;
    init_engine(&mut st, 4, 1, 0.1f64.to_bits()).unwrap();
    let got = full_slice(&st, 4);
    let want: Vec<u64> = native_field(4, 1).iter().map(|v| v.to_bits()).collect();
    assert_eq!(got, want);
}

#[test]
fn one_step_matches_double_arithmetic() {
    let mut st = None;
    init_engine(&mut st, 4, 1, 0.1f64.to_bits()).unwrap();
    tick(&mut st, 1).unwrap();
    assert_eq!(get_step(&st), 1);
    let f0 = native_field(4, 1);
    let f1 = native_step(&f0, 4, 0.1);
    let want: Vec<u64> = f1.iter().map(|v| v.to_bits()).collect();
    assert_eq!(full_slice(&st, 4), want);
}

#[test]
fn origin_cell_uses_wrapped_neighbors() {
    let mut st = None;
    init_engine(&mut st, 4, 7, 0.1f64.to_bits()).unwrap();
    let f0: Vec<f64> = full_slice(&st, 4).iter().map(|b| f64::from_bits(*b)).collect();
    tick(&mut st, 1).unwrap();
    let after = full_slice(&st, 4);
    // Neighbors of (0, 0) on a 4-wide torus: (3,0), (1,0), (0,3), (0,1).
    let lap = (f0[3] + f0[1] + f0[12] + f0[4]) - 4.0 * f0[0];
    let want = f0[0] + 0.1 * lap;
    assert_eq!(after[0], want.to_bits());
}

#[test]
fn advance_is_additive_in_steps() {
    let mut a = None;
    let mut b = None;
    init_engine(&mut a, 6, 99, 0.25f64.to_bits()).unwrap();
    init_engine(&mut b, 6, 99, 0.25f64.to_bits()).unwrap();
    tick(&mut a, 2).unwrap();
    tick(&mut a, 3).unwrap();
    tick(&mut b, 5).unwrap();
    assert_eq!(get_step(&a), 5);
    assert_eq!(get_step(&b), 5);
    assert_eq!(full_slice(&a, 6), full_slice(&b, 6));
}

#[test]
fn zero_steps_change_nothing() {
    let mut st = None;
    init_engine(&mut st, 5, 3, 0.1f64.to_bits()).unwrap();
    let before = full_slice(&st, 5);
    tick(&mut st, 0).unwrap();
    assert_eq!(get_step(&st), 0);
    assert_eq!(full_slice(&st, 5), before);
}

#[test]
fn config_ranges_are_enforced() {
    let mut st = None;
    assert_eq!(init_engine(&mut st, 3, 1, 0.1f64.to_bits()), Err(EngineError::InvalidConfig));
    assert!(st.is_none());
    assert_eq!(init_engine(&mut st, 8, 1, 0.3f64.to_bits()), Err(EngineError::InvalidConfig));
    assert_eq!(init_engine(&mut st, 8, 1, 0.0f64.to_bits()), Err(EngineError::InvalidConfig));
    assert_eq!(init_engine(&mut st, 8, 1, (-0.1f64).to_bits()), Err(EngineError::InvalidConfig));
    assert_eq!(init_engine(&mut st, 8, 1, f64::NAN.to_bits()), Err(EngineError::InvalidConfig));
    assert_eq!(init_engine(&mut st, 513, 1, 0.25f64.to_bits()), Err(EngineError::InvalidConfig));
    assert_eq!(init_engine(&mut st, 512, 1, 0.25f64.to_bits()), Ok(()));
    assert_eq!(get_dim(&st), 512);
    let next = 0.25f64.to_bits() + 1; // the smallest double above 0.25
    assert_eq!(init_engine(&mut st, 8, 1, next), Err(EngineError::InvalidConfig));
    // The failed call left the previous state in place.
    assert_eq!(get_dim(&st), 512);
}

#[test]
fn failed_init_keeps_previous_state() {
    let mut st = None;
    init_engine(&mut st, 4, 42, 0.1f64.to_bits()).unwrap();
    tick(&mut st, 2).unwrap();
    let before = full_slice(&st, 4);
    assert_eq!(init_engine(&mut st, 2, 1, 0.1f64.to_bits()), Err(EngineError::InvalidConfig));
    assert_eq!(get_step(&st), 2);
    assert_eq!(full_slice(&st, 4), before);
}

#[test]
fn uninitialized_access() {
    let mut st = None;
    assert_eq!(tick(&mut st, 1), Err(EngineError::Uninitialized));
    assert_eq!(get_step(&st), 0);
    assert_eq!(get_dim(&st), 0);
    assert_eq!(get_field_slice(&st, 0, 0, 1, 1), Err(EngineError::Uninitialized));
}

#[test]
fn reinit_replaces_state() {
    let mut st = None;
    init_engine(&mut st, 4, 1, 0.1f64.to_bits()).unwrap();
    tick(&mut st, 3).unwrap();
    init_engine(&mut st, 5, 2, 0.2f64.to_bits()).unwrap();
    assert_eq!(get_step(&st), 0);
    assert_eq!(get_dim(&st), 5);
    let want: Vec<u64> = native_field(5, 2).iter().map(|v| v.to_bits()).collect();
    assert_eq!(full_slice(&st, 5), want);
}

#[test]
fn xorshift_matches_reference_rounds() {
    for s in [1u64, 2, 0xDEADBEEF, u64::MAX, 0x0123_4567_89AB_CDEF] {
        assert_eq!(xorshift64(s), xorshift_native(s));
    }
    assert_eq!(seed_to_u64(77), 77);
}

#[test]
fn wrap_is_floored_modulo() {
    assert_eq!(wrap(4, -1), 3);
    assert_eq!(wrap(4, 4), 0);
    assert_eq!(wrap(4, 5), 1);
    assert_eq!(wrap(4, -5), 3);
    assert_eq!(wrap(4, 0), 0);
    assert_eq!(wrap(4, 3), 3);
    assert_eq!(wrap(1, -7), 0);
    for v in -20i64..20 {
        assert_eq!(wrap(7, v), wrap_native(7, v));
    }
}

#[test]
fn idx_is_row_major() {
    assert_eq!(idx(4, 0, 0), 0);
    assert_eq!(idx(4, 3, 0), 3);
    assert_eq!(idx(4, 0, 3), 12);
    assert_eq!(idx(4, 2, 1), 6);
}
