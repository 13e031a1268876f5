use vstd::prelude::*;

use crate::token::{can_move, moved};
use crate::types::Identifier;

verus! {

/// The balances after `amount` moved from `from` to each of `tos`, in order.
pub open spec fn pay_all(bal: Map<Identifier, nat>, from: Identifier, tos: Seq<Identifier>, amount: nat) -> Map<Identifier, nat>
    decreases tos.len(),
{
    if tos.len() == 0 {
        bal
    } else {
        moved(pay_all(bal, from, tos.drop_last(), amount), from, tos.last(), amount)
    }
}

/// Whether every one of the movements of `pay_all` can be made.
pub open spec fn pay_all_ok(bal: Map<Identifier, nat>, from: Identifier, tos: Seq<Identifier>, amount: nat) -> bool
    decreases tos.len(),
{
    if tos.len() == 0 {
        true
    } else {
        pay_all_ok(bal, from, tos.drop_last(), amount)
            && can_move(pay_all(bal, from, tos.drop_last(), amount), from, tos.last(), amount)
    }
}

/// The balances after a draw: `payout` from the vault to each winner in turn, then
/// whatever the vault still holds to the admin.
pub open spec fn settled(bal: Map<Identifier, nat>, vault: Identifier, admin: Identifier, winners: Seq<Identifier>, payout: nat) -> Map<Identifier, nat> {
    let paid = pay_all(bal, vault, winners, payout);
    moved(paid, vault, admin, paid[vault])
}

/// Whether every movement of `settled` can be made.
pub open spec fn settles(bal: Map<Identifier, nat>, vault: Identifier, admin: Identifier, winners: Seq<Identifier>, payout: nat) -> bool {
    let paid = pay_all(bal, vault, winners, payout);
    pay_all_ok(bal, vault, winners, payout) && can_move(paid, vault, admin, paid[vault])
}

/// How many of the movements of `pay_all` can be made before the first one that cannot;
/// the length of `tos` when all of them can.
pub open spec fn first_unpayable(bal: Map<Identifier, nat>, from: Identifier, tos: Seq<Identifier>, amount: nat) -> nat
    decreases tos.len(),
{
    if tos.len() == 0 {
        0
    } else if !pay_all_ok(bal, from, tos.drop_last(), amount) {
        first_unpayable(bal, from, tos.drop_last(), amount)
    } else if !can_move(pay_all(bal, from, tos.drop_last(), amount), from, tos.last(), amount) {
        (tos.len() - 1) as nat
    } else {
        tos.len()
    }
}

/// How many times `x` occurs in `s`.
pub open spec fn occurrences(s: Seq<Identifier>, x: Identifier) -> nat
    decreases s.len(),
{
    if s.len() == 0 {
        0
    } else {
        occurrences(s.drop_last(), x) + if s.last() == x { 1nat } else { 0nat }
    }
}

/// The movements of a prefix can be made whenever those of the whole sequence can.
pub proof fn lemma_pay_all_ok_prefix(bal: Map<Identifier, nat>, from: Identifier, tos: Seq<Identifier>, amount: nat, n: int)
    requires
        0 <= n <= tos.len(),
        pay_all_ok(bal, from, tos, amount),
    ensures
        pay_all_ok(bal, from, tos.take(n), amount),
    decreases tos.len(),
{
    if n == tos.len() {
        assert(tos.take(n) =~= tos);
    } else {
        lemma_pay_all_ok_prefix(bal, from, tos.drop_last(), amount, n);
        assert(tos.drop_last().take(n) =~= tos.take(n));
    }
}

/// When every movement can be made, none is unpayable.
pub proof fn lemma_first_unpayable_all(bal: Map<Identifier, nat>, from: Identifier, tos: Seq<Identifier>, amount: nat)
    requires
        pay_all_ok(bal, from, tos, amount),
    ensures
        first_unpayable(bal, from, tos, amount) == tos.len(),
{
}

/// When the movements before `n` can be made and the one at `n` cannot, the first
/// unpayable movement is the one at `n`.
pub proof fn lemma_first_unpayable_at(bal: Map<Identifier, nat>, from: Identifier, tos: Seq<Identifier>, amount: nat, n: int)
    requires
        0 <= n < tos.len(),
        pay_all_ok(bal, from, tos.take(n), amount),
        !can_move(pay_all(bal, from, tos.take(n), amount), from, tos[n], amount),
    ensures
        first_unpayable(bal, from, tos, amount) == n,
    decreases tos.len(),
{
    let rest = tos.drop_last();
    if n == tos.len() - 1 {
        assert(rest =~= tos.take(n));
    } else {
        assert(rest.take(n) =~= tos.take(n));
        lemma_first_unpayable_at(bal, from, rest, amount, n);
        if pay_all_ok(bal, from, rest, amount) {
            lemma_pay_all_ok_prefix(bal, from, rest, amount, n + 1);
            assert(rest.take(n + 1).drop_last() =~= tos.take(n));
            assert(rest.take(n + 1).last() == tos[n]);
        }
    }
}

/// Paying `amount` to each of `tos`, none of them the payer, takes `amount` once per payee
/// from the payer.
pub proof fn lemma_pay_all_payer(bal: Map<Identifier, nat>, from: Identifier, tos: Seq<Identifier>, amount: nat)
    requires
        pay_all_ok(bal, from, tos, amount),
        forall|i: int| 0 <= i < tos.len() ==> tos[i] != from,
    ensures
        amount * tos.len() <= bal[from],
        pay_all(bal, from, tos, amount)[from] == bal[from] - amount * tos.len(),
    decreases tos.len(),
{
    if tos.len() > 0 {
        let rest = tos.drop_last();
        lemma_pay_all_payer(bal, from, rest, amount);
        assert(tos.last() != from);
        assert(amount * tos.len() == amount * rest.len() + amount) by (nonlinear_arith)
            requires
                tos.len() == rest.len() + 1,
        ;
    }
}

/// Every principal but the payer gains `amount` once for each time it occurs among `tos`.
pub proof fn lemma_pay_all_payee(bal: Map<Identifier, nat>, from: Identifier, tos: Seq<Identifier>, amount: nat, x: Identifier)
    requires
        x != from,
    ensures
        pay_all(bal, from, tos, amount)[x] == bal[x] + amount * occurrences(tos, x),
    decreases tos.len(),
{
    if tos.len() > 0 {
        let rest = tos.drop_last();
        lemma_pay_all_payee(bal, from, rest, amount, x);
        let n = occurrences(rest, x);
        if tos.last() == x {
            assert(amount * (n + 1) == amount * n + amount) by (nonlinear_arith);
        } else {
            assert(occurrences(tos, x) == n);
        }
    } else {
        assert(amount * 0 == 0);
    }
}

} // verus!
