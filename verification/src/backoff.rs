//! How long to wait between two attempts.
//!
//! The delay starts at the base delay and doubles with each attempt until it reaches the
//! longest delay allowed. It is then moved at random by up to a fifth of itself to either
//! side, so that clients who failed together do not come back together, but never past the
//! longest delay.

use rand::Rng;
use vstd::arithmetic::power2::{lemma2_to64, lemma_pow2_strictly_increases, lemma_pow2_unfold, pow2};
use vstd::bits::lemma_u64_shl_is_mul;
use vstd::prelude::*;

verus! {

/// How many times the delay has doubled when attempt number `attempt` is over.
pub open spec fn doublings(attempt: nat) -> nat {
    if attempt <= 1 {
        0
    } else if attempt <= 11 {
        (attempt - 1) as nat
    } else {
        10
    }
}

/// The delay after attempt number `attempt` before it is moved at random.
pub open spec fn delay(base: nat, longest: nat, attempt: nat) -> nat {
    if base * pow2(doublings(attempt)) <= longest {
        base * pow2(doublings(attempt))
    } else {
        longest
    }
}

/// By how much a delay is moved at most: a fifth of it.
pub open spec fn spread(capped: nat) -> nat {
    capped / 5
}

/// A delay moved by a draw from `0` to twice its spread, of which the middle leaves it in
/// place.
pub open spec fn jittered(capped: nat, longest: nat, draw: nat) -> nat {
    if capped - spread(capped) + draw <= longest {
        (capped - spread(capped) + draw) as nat
    } else {
        longest
    }
}

/// The delay in milliseconds after attempt number `attempt` before it is moved at random.
pub fn capped_delay(base_ms: u64, max_ms: u64, attempt: u32) -> (ms: u64)
    ensures
        ms == delay(base_ms as nat, max_ms as nat, attempt as nat),
{
    let past: u32 = attempt.saturating_sub(1);
    let times: u32 = if past < 10 {
        past
    } else {
        10
    };
    let factor: u64 = 1u64 << times;
    proof {
        lemma2_to64();
        if times < 10 {
            lemma_pow2_strictly_increases(times as nat, 10);
        }
        lemma_u64_shl_is_mul(1, times as u64);
    }
    match base_ms.checked_mul(factor) {
        Some(ms) => if ms < max_ms {
            ms
        } else {
            max_ms
        },
        None => max_ms,
    }
}

/// Calls `rand::Rng::gen_range` on `rand::thread_rng()` for a number below the bound. Which
/// one it is, is left to chance.
#[verifier::external_body]
pub(crate) fn random_below(bound: u64) -> (draw: u64)
    requires
        bound > 0,
    ensures
        draw < bound,
{
    rand::thread_rng().gen_range(0..bound)
}

/// Moves a delay by a draw.
pub fn jittered_delay(capped_ms: u64, max_ms: u64, draw: u64) -> (ms: u64)
    ensures
        ms == jittered(capped_ms as nat, max_ms as nat, draw as nat),
{
    let moved: u64 = (capped_ms - capped_ms / 5).saturating_add(draw);
    if moved < max_ms {
        moved
    } else {
        max_ms
    }
}

/// Whether a draw can come up for a delay that is moved by up to `range` to either side: it is
/// one that `random_below` returns for twice the range and one, and none is made where there is
/// no range.
pub closed spec fn can_draw(range: nat, draw: u64) -> bool {
    if range > 0 {
        call_ensures(random_below, ((2 * range + 1) as u64,), draw)
    } else {
        draw == 0
    }
}

/// Moves a delay at random.
pub fn spread_delay(capped_ms: u64, max_ms: u64) -> (ms: u64)
    ensures
        exists|draw: u64| #[trigger]
            can_draw(spread(capped_ms as nat), draw) && draw <= 2 * spread(capped_ms as nat) && ms
                == jittered(capped_ms as nat, max_ms as nat, draw as nat),
{
    let range: u64 = capped_ms / 5;
    let draw: u64 = if range > 0 {
        random_below(2 * range + 1)
    } else {
        0
    };
    assert(can_draw(spread(capped_ms as nat), draw));
    jittered_delay(capped_ms, max_ms, draw)
}

/// The delay never exceeds the longest one allowed, before it is moved at random or after.
pub proof fn law_never_exceeds_longest(base: nat, longest: nat, attempt: nat, draw: nat)
    ensures
        delay(base, longest, attempt) <= longest,
        jittered(delay(base, longest, attempt), longest, draw) <= longest,
{
}

/// The delay starts at the base delay.
pub proof fn law_starts_at_base(base: nat, longest: nat)
    requires
        base <= longest,
    ensures
        delay(base, longest, 1) == base,
{
    lemma2_to64();
    assert(base * pow2(0) == base) by (nonlinear_arith)
        requires
            pow2(0) == 1,
    ;
}

/// The delay starts at the longest one allowed where the base delay is longer, and is the same
/// before the first attempt as after it.
pub proof fn law_starts_within_longest(base: nat, longest: nat)
    ensures
        base > longest ==> delay(base, longest, 1) == longest,
        delay(base, longest, 0) == delay(base, longest, 1),
{
    lemma2_to64();
    assert(base * pow2(0) == base) by (nonlinear_arith)
        requires
            pow2(0) == 1,
    ;
}

/// The delay stops growing once it has doubled ten times.
pub proof fn law_stops_doubling(base: nat, longest: nat, attempt: nat)
    requires
        attempt >= 11,
    ensures
        delay(base, longest, attempt) == delay(base, longest, 11),
{
}

/// The spread is a fifth, rounded down.
pub proof fn law_spread_is_a_fifth(capped: nat)
    ensures
        5 * spread(capped) <= capped < 5 * spread(capped) + 5,
{
}

/// The middle draw leaves a delay in place; each draw below it takes one off, and each above it
/// adds one, up to the longest delay allowed.
pub proof fn law_draws_move_by_one(capped: nat, longest: nat, draw: nat)
    requires
        capped <= longest,
    ensures
        draw <= spread(capped) ==> jittered(capped, longest, draw) + spread(capped) == capped
            + draw,
        draw >= spread(capped) && capped + draw <= longest + spread(capped) ==> jittered(
            capped,
            longest,
            draw,
        ) + spread(capped) == capped + draw,
        capped + draw > longest + spread(capped) ==> jittered(capped, longest, draw) == longest,
{
}

/// The delay doubles from one attempt to the next, as long as it stays within the longest one
/// allowed and has not doubled ten times yet.
pub proof fn law_doubles(base: nat, longest: nat, attempt: nat)
    requires
        1 <= attempt <= 10,
    ensures
        2 * delay(base, longest, attempt) <= longest ==> delay(base, longest, attempt + 1) == 2
            * delay(base, longest, attempt),
        2 * delay(base, longest, attempt) > longest ==> delay(base, longest, attempt + 1)
            == longest,
{
    lemma_pow2_unfold(doublings(attempt + 1));
    let p = pow2(doublings(attempt));
    assert(base * (2 * p) == 2 * (base * p)) by (nonlinear_arith);
}

/// The delay never shrinks from one attempt to a later one.
pub proof fn law_never_shrinks(base: nat, longest: nat, earlier: nat, later: nat)
    requires
        earlier <= later,
    ensures
        delay(base, longest, earlier) <= delay(base, longest, later),
{
    let p = pow2(doublings(earlier));
    let q = pow2(doublings(later));
    if doublings(earlier) < doublings(later) {
        lemma_pow2_strictly_increases(doublings(earlier), doublings(later));
    }
    assert(base * p <= base * q) by (nonlinear_arith)
        requires
            p <= q,
    ;
}

/// A draw that can come up is within twice the range.
pub proof fn law_draws_are_in_range(range: nat, draw: u64)
    requires
        2 * range + 1 <= u64::MAX,
        can_draw(range, draw),
    ensures
        draw <= 2 * range,
{
}

/// A delay is moved by at most a fifth of itself to either side.
pub proof fn law_jitter_within_a_fifth(capped: nat, longest: nat, draw: nat)
    requires
        capped <= longest,
        draw <= 2 * spread(capped),
    ensures
        5 * jittered(capped, longest, draw) >= 4 * capped,
        5 * jittered(capped, longest, draw) <= 6 * capped,
{
}

/// A delay that is moved at all is moved by what `random_below` draws for the whole range on either
/// side; one that is too short to be moved is left in place.
pub(crate) proof fn law_draws_are_random(range: nat, draw: u64)
    requires
        can_draw(range, draw),
        2 * range + 1 <= u64::MAX,
    ensures
        range == 0 ==> draw == 0,
        range > 0 ==> call_ensures(random_below, ((2 * range + 1) as u64,), draw),
{
}

} // verus!
