//! Deterministic seed mutation for the no-panic parser campaign: a
//! splitmix64 per-case seed, the xorshift64* stream drawn from it, and the
//! byte mutations (bit flip, byte insertion, byte deletion, span
//! duplication) applied to a seed source.
use vstd::prelude::*;

use crate::syntax::parser::parse_ruleset;
use crate::text::lossy_text;
use crate::types::mix64;

verus! {

/// Mutated sources are cut to this many bytes.
pub const MAX_MUTATED_SOURCE_BYTES: usize = 64 * 1024;

/// `a * b` wrapped to 64 bits.
pub open spec fn wmul(a: u64, b: u64) -> u64 {
    ((a as int * b as int) % 0x1_0000_0000_0000_0000int) as u64
}

/// The per-case seed: the splitmix64 finalizer of the golden-ratio
/// multiple of the seed index, mixed with the iteration.
pub open spec fn seed_state_spec(seed_idx: u64, iter: u64) -> u64 {
    mix64(wmul(seed_idx, 0x9E37_79B9_7F4A_7C15u64) ^ iter)
}

/// One xorshift64 state step.
pub open spec fn xorshift(x: u64) -> u64 {
    let a = x ^ (x >> 12u64);
    let b = a ^ ((a << 25u64) as u64);
    b ^ (b >> 27u64)
}

/// The value drawn from `state` (xorshift64*): the stepped state times the
/// output multiplier.
pub open spec fn draw(state: u64) -> u64 {
    wmul(xorshift(state), 0x2545_F491_4F6C_DD1Du64)
}

/// An index below `upper` drawn from `state`, and the next state; `upper ==
/// 0` draws nothing and gives 0.
pub open spec fn bounded_spec(state: u64, upper: nat) -> (nat, u64) {
    if upper == 0 {
        (0, state)
    } else {
        (((draw(state) as usize) as nat) % upper, xorshift(state))
    }
}

/// Deterministic per-case entropy.
pub fn seed_state(seed_idx: usize, iter: usize) -> (r: u64)
    ensures
        r == seed_state_spec(seed_idx as u64, iter as u64),
{
    let x = (seed_idx as u64).wrapping_mul(0x9E37_79B9_7F4A_7C15u64) ^ (iter as u64);
    crate::types::mix64_exec(x)
}

/// Draws the next value of the xorshift64* stream.
pub fn next_u64(state: &mut u64) -> (r: u64)
    ensures
        *final(state) == xorshift(*old(state)),
        r == draw(*old(state)),
{
    let mut x = *state;
    x = x ^ (x >> 12u64);
    x = x ^ (x << 25u64);
    x = x ^ (x >> 27u64);
    *state = x;
    x.wrapping_mul(0x2545_F491_4F6C_DD1Du64)
}

/// Draws an index below `upper` (0 when `upper` is 0, drawing nothing).
pub fn bounded_index(state: &mut u64, upper: usize) -> (r: usize)
    ensures
        (r as nat, *final(state)) == bounded_spec(*old(state), upper as nat),
{
    if upper == 0 {
        0
    } else {
        (next_u64(state) as usize) % upper
    }
}

/// One mutation: the drawn operation applied to `out`, and the next
/// state.
pub open spec fn mutate_step(out: Seq<u8>, state: u64) -> (Seq<u8>, u64) {
    let (choice, s1) = bounded_spec(state, 4);
    let n = out.len();
    if choice == 0 {
        if n > 0 {
            let (idx, s2) = bounded_spec(s1, n);
            let (bit, s3) = bounded_spec(s2, 8);
            (out.update(idx as int, out[idx as int] ^ ((1u8 << (bit as u8)) as u8)), s3)
        } else {
            (out, s1)
        }
    } else if choice == 1 {
        if n < MAX_MUTATED_SOURCE_BYTES {
            let (idx, s2) = bounded_spec(s1, n + 1);
            (out.insert(idx as int, draw(s2) as u8), xorshift(s2))
        } else {
            (out, s1)
        }
    } else if choice == 2 {
        if n > 0 {
            let (idx, s2) = bounded_spec(s1, n);
            (out.remove(idx as int), s2)
        } else {
            (out, s1)
        }
    } else {
        if n > 0 && n < MAX_MUTATED_SOURCE_BYTES {
            let (start, s2) = bounded_spec(s1, n);
            let (w, s3) = bounded_spec(s2, 24);
            let end = if start + 1 + w < n {
                start + 1 + w
            } else {
                n
            };
            let chunk = out.subrange(start as int, end as int);
            let (at, s4) = bounded_spec(s3, n + 1);
            (out.subrange(0, at as int) + chunk + out.subrange(at as int, n as int), s4)
        } else {
            (out, s1)
        }
    }
}

/// `ops` mutations applied in turn.
pub open spec fn mutate_ops(out: Seq<u8>, state: u64, ops: nat) -> Seq<u8>
    decreases ops,
{
    if ops == 0 {
        out
    } else {
        let (o, s) = mutate_step(out, state);
        mutate_ops(o, s, (ops - 1) as nat)
    }
}

/// The mutated source: between 1 and 8 drawn mutations of the seed, cut to
/// [`MAX_MUTATED_SOURCE_BYTES`].
pub open spec fn mutate_spec(seed: Seq<u8>, seed_idx: u64, iter: u64) -> Seq<u8> {
    let (k, s1) = bounded_spec(seed_state_spec(seed_idx, iter), 8);
    let out = mutate_ops(seed, s1, k + 1);
    if out.len() > MAX_MUTATED_SOURCE_BYTES {
        out.take(MAX_MUTATED_SOURCE_BYTES as int)
    } else {
        out
    }
}

fn mutate_once(out: &mut Vec<u8>, state: &mut u64)
    ensures
        (final(out)@, *final(state)) == mutate_step(old(out)@, *old(state)),
{
    let choice = bounded_index(state, 4);
    let n = out.len();
    if choice == 0 {
        if n > 0 {
            let idx = bounded_index(state, n);
            let b = bounded_index(state, 8);
            let bit: u8 = 1u8 << (b as u8);
            let v = out[idx] ^ bit;
            out.set(idx, v);
        }
    } else if choice == 1 {
        if n < MAX_MUTATED_SOURCE_BYTES {
            let idx = bounded_index(state, n + 1);
            let byte = next_u64(state) as u8;
            out.insert(idx, byte);
        }
    } else if choice == 2 {
        if n > 0 {
            let idx = bounded_index(state, n);
            out.remove(idx);
        }
    } else {
        if n > 0 && n < MAX_MUTATED_SOURCE_BYTES {
            let start = bounded_index(state, n);
            let w = bounded_index(state, 24);
            let end = if start + 1 + w < n {
                start + 1 + w
            } else {
                n
            };
            let at = bounded_index(state, n + 1);
            let ghost o = out@;
            let mut next: Vec<u8> = Vec::new();
            let mut i: usize = 0;
            while i < at
                invariant
                    0 <= i <= at <= n,
                    n == o.len(),
                    out@ == o,
                    next@ == o.subrange(0, i as int),
                decreases at - i,
            {
                next.push(out[i]);
                proof {
                    assert(next@ =~= o.subrange(0, i + 1));
                }
                i = i + 1;
            }
            let mut j = start;
            while j < end
                invariant
                    start <= j <= end <= n,
                    n == o.len(),
                    out@ == o,
                    next@ == o.subrange(0, at as int) + o.subrange(start as int, j as int),
                decreases end - j,
            {
                next.push(out[j]);
                proof {
                    assert(next@ =~= o.subrange(0, at as int) + o.subrange(start as int, j + 1));
                }
                j = j + 1;
            }
            let mut k = at;
            while k < n
                invariant
                    at <= k <= n,
                    n == o.len(),
                    out@ == o,
                    next@ == o.subrange(0, at as int) + o.subrange(start as int, end as int) + o.subrange(
                        at as int,
                        k as int,
                    ),
                decreases n - k,
            {
                next.push(out[k]);
                proof {
                    assert(next@ =~= o.subrange(0, at as int) + o.subrange(start as int, end as int)
                        + o.subrange(at as int, k + 1));
                }
                k = k + 1;
            }
            *out = next;
        }
    }
}

/// Mutates a seed source deterministically for case `(seed_idx, iter)`;
/// see [`mutate_spec`]. The result never exceeds
/// [`MAX_MUTATED_SOURCE_BYTES`].
pub fn mutate_seed_bytes(seed: &[u8], seed_idx: usize, iter: usize) -> (r: Vec<u8>)
    ensures
        r@ == mutate_spec(seed@, seed_idx as u64, iter as u64),
        r@.len() <= MAX_MUTATED_SOURCE_BYTES,
{
    let mut state = seed_state(seed_idx, iter);
    let mut out: Vec<u8> = Vec::new();
    let mut c: usize = 0;
    while c < seed.len()
        invariant
            0 <= c <= seed@.len(),
            out@ == seed@.subrange(0, c as int),
        decreases seed@.len() - c,
    {
        out.push(seed[c]);
        proof {
            assert(out@ =~= seed@.subrange(0, c + 1));
        }
        c = c + 1;
    }
    proof {
        assert(out@ =~= seed@);
    }
    let ops = 1 + bounded_index(&mut state, 8);
    let ghost s1 = state;
    let ghost seed_v = seed@;
    let mut i: usize = 0;
    while i < ops
        invariant
            0 <= i <= ops,
            1 <= ops <= 8,
            mutate_ops(seed_v, s1, ops as nat) == mutate_ops(out@, state, (ops - i) as nat),
        decreases ops - i,
    {
        mutate_once(&mut out, &mut state);
        i = i + 1;
    }
    if out.len() > MAX_MUTATED_SOURCE_BYTES {
        out.truncate(MAX_MUTATED_SOURCE_BYTES);
    }
    proof {
        assert(seed_v == seed@);
    }
    out
}

/// Parses `iterations_per_seed` mutations of every seed source (each
/// mutated byte string read as UTF-8, invalid sequences replaced). Parsing
/// is total, so the campaign always runs to completion.
pub fn run_seed_mutation_campaign(seeds: &[&str], iterations_per_seed: usize) {
    let mut seed_idx: usize = 0;
    while seed_idx < seeds.len()
        decreases seeds@.len() - seed_idx,
    {
        let seed = seeds[seed_idx];
        let mut iter: usize = 0;
        while iter < iterations_per_seed
            decreases iterations_per_seed - iter,
        {
            let candidate = mutate_seed_bytes(seed.as_bytes(), seed_idx, iter);
            let source = lossy_text(candidate.as_slice());
            let _ = parse_ruleset(source.as_str());
            iter = iter + 1;
        }
        seed_idx = seed_idx + 1;
    }
}

} // verus!
