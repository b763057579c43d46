//! Positions on a cycle: folding, and the one fact about it that the proofs
//! of the crate rest on.

use vstd::prelude::*;

verus! {

/// A position folded into a cycle of `length` places. A cycle without length
/// has the single position zero.
pub open spec fn wrap(position: int, length: int) -> int {
    if length > 0 {
        position % length
    } else {
        0
    }
}

/// A position that is `turns` whole cycles plus `rest` folds to `rest`.
pub proof fn lemma_wrap_unique(position: int, length: int, turns: int, rest: int)
    requires
        length > 0,
        0 <= rest < length,
        position == length * turns + rest,
    ensures
        wrap(position, length) == rest,
{
    assert(length * turns == turns * length) by (nonlinear_arith);
    vstd::arithmetic::div_mod::lemma_fundamental_div_mod_converse(position, length, turns, rest);
}

/// Folding before a shift changes nothing once the result is folded.
pub proof fn lemma_wrap_shift(position: int, shift: int, length: int)
    requires
        length > 0,
    ensures
        wrap(wrap(position, length) + shift, length) == wrap(position + shift, length),
        0 <= wrap(position, length) < length,
{
    vstd::arithmetic::div_mod::lemma_add_mod_noop_right(shift, position, length);
    vstd::arithmetic::div_mod::lemma_mod_bound(position, length);
}

/// Folding a sum of positions within one cycle: at most one turn comes off.
pub proof fn lemma_wrap_sum(position: int, step: int, length: int)
    requires
        0 <= position < length,
        -length <= step <= length,
    ensures
        wrap(position + step, length) == if position + step < 0 {
            position + step + length
        } else if position + step < length {
            position + step
        } else {
            position + step - length
        },
{
    if position + step < 0 {
        lemma_wrap_unique(position + step, length, -1, position + step + length);
    } else if position + step < length {
        lemma_wrap_unique(position + step, length, 0, position + step);
    } else {
        lemma_wrap_unique(position + step, length, 1, position + step - length);
    }
}

} // verus!
