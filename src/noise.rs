use vstd::prelude::*;

verus! {

/// Multiplier of the linear-congruential noise generator.
pub const LCG_MUL: u32 = 1664525;

/// Increment of the linear-congruential noise generator.
pub const LCG_INC: u32 = 1013904223;

/// One step of the generator, over the integers modulo 2^32.
pub open spec fn lcg_step(s: u32) -> u32 {
    ((s as int * LCG_MUL as int + LCG_INC as int) % 0x1_0000_0000) as u32
}

/// The state after `k` steps from `s`.
pub open spec fn lcg_iter(s: u32, k: nat) -> u32
    decreases k,
{
    if k == 0 {
        s
    } else {
        lcg_step(lcg_iter(s, (k - 1) as nat))
    }
}

/// Advances a generator state by one step.
pub fn lcg_next(s: u32) -> (r: u32)
    ensures
        r == lcg_step(s),
{
    assert(s as u64 * LCG_MUL as u64 <= 0xFFFF_FFFFu64 * 1664525u64) by (nonlinear_arith)
        requires
            s <= 0xFFFF_FFFFu32,
            LCG_MUL == 1664525u32,
    ;
    let t: u64 = s as u64 * LCG_MUL as u64 + LCG_INC as u64;
    (t % 0x1_0000_0000) as u32
}

/// The next `count` outputs of the generator started at `s`, and the state after them.
pub fn lcg_samples(s: u32, count: usize) -> (r: (Vec<u32>, u32))
    ensures
        r.0@.len() == count,
        forall|k: int| 0 <= k < count ==> r.0@[k] == lcg_iter(s, (k + 1) as nat),
        r.1 == lcg_iter(s, count as nat),
{
    let mut out: Vec<u32> = Vec::new();
    let mut state = s;
    let mut i: usize = 0;
    while i < count
        invariant
            i <= count,
            out@.len() == i,
            state == lcg_iter(s, i as nat),
            forall|k: int| 0 <= k < i ==> out@[k] == lcg_iter(s, (k + 1) as nat),
        decreases count - i,
    {
        state = lcg_next(state);
        out.push(state);
        i = i + 1;
    }
    (out, state)
}

} // verus!
