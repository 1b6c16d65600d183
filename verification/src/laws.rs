//! Bracket-wide laws: team formation preserves the roster chunk by chunk,
//! pairing consumes teams two at a time, and a power-of-two bracket shrinks
//! to a single champion in a fixed number of rounds.

use crate::tournament::{form_teams_seq, is_paired, match_pairs, MatchNode, Participant};
use vstd::arithmetic::div_mod::{
    lemma_div_by_self, lemma_div_multiples_vanish, lemma_div_plus_one, lemma_fundamental_div_mod,
    lemma_mod_sub_multiples_vanish, lemma_small_mod,
};
use vstd::arithmetic::mul::lemma_mul_inequality;
use vstd::prelude::*;

verus! {

/// Team-size law: when the roster count is a multiple of the team size,
/// team formation yields exactly count / size teams, and the i-th team is
/// exactly the i-th consecutive slice of the roster — membership and order
/// preserved, nobody dropped or duplicated.
pub proof fn lemma_team_size_invariant(ps: Seq<Participant>, size: nat)
    requires
        1 <= size,
        ps.len() % size == 0,
    ensures
        form_teams_seq(ps, size).len() == ps.len() / size,
        forall|i: int|
            0 <= i < ps.len() / size ==> #[trigger] form_teams_seq(ps, size)[i] == ps.subrange(
                i * size,
                i * size + size,
            ),
    decreases ps.len(),
{
    let ts = form_teams_seq(ps, size);
    if ps.len() == 0 {
        assert(ps.len() / size == 0) by {
            lemma_small_mod(0, size);
        }
    } else if ps.len() <= size {
        if ps.len() < size {
            lemma_small_mod(ps.len(), size);
            assert(false);
        }
        assert(ps.len() == size);
        assert(ps.len() / size == 1) by {
            lemma_div_by_self(size as int);
        }
        assert forall|i: int| 0 <= i < ps.len() / size implies #[trigger] form_teams_seq(
            ps,
            size,
        )[i] == ps.subrange(i * size, i * size + size) by {
            assert(i == 0);
            assert(ps.subrange(0, size as int) =~= ps);
        }
    } else {
        let rest = ps.skip(size as int);
        assert(rest.len() == ps.len() - size);
        assert(rest.len() % size == 0) by {
            lemma_mod_sub_multiples_vanish(ps.len() as int, size as int);
        }
        lemma_team_size_invariant(rest, size);
        assert(ps.len() / size == 1 + rest.len() / size) by {
            lemma_div_plus_one(rest.len() as int, size as int);
        }
        assert forall|i: int| 0 <= i < ps.len() / size implies #[trigger] ts[i] == ps.subrange(
            i * size,
            i * size + size,
        ) by {
            assert(i * size + size <= ps.len()) by {
                lemma_mul_inequality(i + 1, (ps.len() / size) as int, size as int);
                lemma_fundamental_div_mod(ps.len() as int, size as int);
                assert((i + 1) * size == i * size + size) by (nonlinear_arith);
                assert((ps.len() / size) * size == (size as int) * ((ps.len() / size) as int))
                    by (nonlinear_arith);
            }
            if i == 0 {
                assert(ts[0] == ps.take(size as int));
                assert(ps.take(size as int) =~= ps.subrange(0, size as int));
            } else {
                assert(ts[i] == form_teams_seq(rest, size)[i - 1]);
                assert(0 <= i - 1 < rest.len() / size);
                assert(form_teams_seq(rest, size)[i - 1] == rest.subrange(
                    (i - 1) * size,
                    (i - 1) * size + size,
                ));
                assert((i - 1) * size + size == i * size) by (nonlinear_arith);
                assert(rest.subrange(i * size - size, i * size) =~= ps.subrange(
                    i * size,
                    i * size + size,
                ));
            }
        }
    }
}

/// Pairing-parity law: a pairing of a team list of length `M` holds exactly
/// `M / 2` matches — all of `M`'s teams when `M` is even, and all but the
/// dropped last team when `M` is odd — and the i-th match pits team `2 i`
/// against team `2 i + 1`, in the teams' original relative order, with both
/// scores zero.
pub proof fn lemma_pairing_parity(ts: Seq<Seq<Participant>>, ms: Seq<MatchNode>)
    requires
        is_paired(ts, ms),
    ensures
        ts.len() % 2 == 0 ==> 2 * ms.len() == ts.len(),
        ts.len() % 2 == 1 ==> 2 * ms.len() == ts.len() - 1,
        forall|i: int| 0 <= i < ms.len() ==> match_pairs(#[trigger] ms[i], ts[2 * i], ts[2 * i + 1]),
{
    lemma_fundamental_div_mod(ts.len() as int, 2);
}

/// Two to the power `k`: the team count of a full single-elimination
/// bracket that plays `k` rounds.
pub open spec fn pow2(k: nat) -> nat
    decreases k,
{
    if k == 0 {
        1
    } else {
        2 * pow2((k - 1) as nat)
    }
}

/// The match count after `rounds` advancements of a round that currently
/// holds `n` matches: each advancement re-pairs the `n` winners into
/// `n / 2` matches, as the ensures of [`crate::tournament::next_round`] and
/// [`crate::session::TournamentUI::advance`] state.
pub open spec fn matches_after(n: nat, rounds: nat) -> nat
    decreases rounds,
{
    if rounds == 0 {
        n
    } else {
        matches_after(n / 2, (rounds - 1) as nat)
    }
}

/// A power of two is positive.
pub proof fn lemma_pow2_pos(k: nat)
    ensures
        pow2(k) >= 1,
    decreases k,
{
    if k > 0 {
        lemma_pow2_pos((k - 1) as nat);
    }
}

/// Halving `pow2(j)` matches `i` times (with `i <= j`) leaves `pow2(j - i)`
/// matches.
pub proof fn lemma_pow2_halving(j: nat, i: nat)
    requires
        i <= j,
    ensures
        matches_after(pow2(j), i) == pow2((j - i) as nat),
    decreases i,
{
    if i > 0 {
        assert(pow2(j) / 2 == pow2((j - 1) as nat)) by {
            lemma_div_multiples_vanish(pow2((j - 1) as nat) as int, 2);
        }
        lemma_pow2_halving((j - 1) as nat, (i - 1) as nat);
    }
}

/// Termination law: a bracket that starts with `pow2(k)` teams (`k >= 1`)
/// starts with `pow2(k - 1)` matches; every earlier advancement leaves more
/// than one match, the advancement count `k - 1` leaves exactly the final
/// match, and the `k`-th advancement — the one made on that single match —
/// records the champion, as the ensures of
/// [`crate::session::TournamentUI::advance`] states for a one-match round.
/// So exactly `k` advancement calls reach exactly one champion.
pub proof fn lemma_bracket_termination(k: nat)
    requires
        1 <= k,
    ensures
        matches_after(pow2((k - 1) as nat), (k - 1) as nat) == 1,
        forall|i: nat| i < k - 1 ==> #[trigger] matches_after(pow2((k - 1) as nat), i) > 1,
{
    lemma_pow2_halving((k - 1) as nat, (k - 1) as nat);
    assert forall|i: nat| i < k - 1 implies #[trigger] matches_after(pow2((k - 1) as nat), i)
        > 1 by {
        lemma_pow2_halving((k - 1) as nat, i);
        let m = ((k - 1) - i) as nat;
        assert(m >= 1);
        lemma_pow2_pos((m - 1) as nat);
        assert(pow2(m) == 2 * pow2((m - 1) as nat));
    }
}

} // verus!
