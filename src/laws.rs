use vstd::prelude::*;

use crate::contract::{buy_outcome, initialize_outcome, run_outcome, ContractState};
use crate::draw::{lemma_pay_all_payee, lemma_pay_all_payer, occurrences, pay_all};
use crate::token::LedgerState;
use crate::types::{Auth, Identifier, LotteryError, Signature};

verus! {

/// One call on the contract, with what it returned.
pub ghost enum Call {
    Run { invoker: Identifier, auth: Auth, draws: Seq<usize>, r: Result<(), LotteryError> },
    Buy { from: Identifier, r: Result<(), LotteryError> },
}

/// What `call` does, taking the contract from `pre` to `post` and the ledger from
/// `lpre` to `lpost`.
pub open spec fn call_outcome(pre: ContractState, lpre: LedgerState, post: ContractState, lpost: LedgerState, call: Call) -> bool {
    match call {
        Call::Run { invoker, auth, draws, r } => run_outcome(pre, lpre, post, lpost, invoker, auth, draws, r),
        Call::Buy { from, r } => buy_outcome(pre, lpre, post, lpost, from, r),
    }
}

/// `states` and `ledgers` are what `calls`, made one after another, pass through.
pub open spec fn chain(states: Seq<ContractState>, ledgers: Seq<LedgerState>, calls: Seq<Call>) -> bool {
    &&& states.len() == calls.len() + 1
    &&& ledgers.len() == calls.len() + 1
    &&& forall|i: int|
        0 <= i < calls.len() ==> call_outcome(states[i], ledgers[i], states[i + 1], ledgers[i + 1], #[trigger] calls[i])
}

/// Whether `call` is a successful `run` signed by `p`.
pub open spec fn is_signed_success(call: Call, p: Identifier) -> bool {
    match call {
        Call::Run { auth, r, .. } => auth.sig == Signature::Signed(p) && r is Ok,
        Call::Buy { .. } => false,
    }
}

/// Whether `call` is a ticket purchase or an invoker-mode `run`.
pub open spec fn is_invoker_or_buy(call: Call) -> bool {
    match call {
        Call::Run { auth, .. } => auth.sig == Signature::Invoker,
        Call::Buy { .. } => true,
    }
}

/// A second `initialize` always fails with `AlreadyInitialized`, and the state stays
/// as the first call left it.
pub proof fn law_single_initialization(
    s0: ContractState,
    s1: ContractState,
    s2: ContractState,
    c1: crate::contract::Config,
    c2: crate::contract::Config,
    r1: Result<(), LotteryError>,
    r2: Result<(), LotteryError>,
)
    requires
        initialize_outcome(s0, s1, c1, r1),
        initialize_outcome(s1, s2, c2, r2),
    ensures
        r2 == Err::<(), LotteryError>(LotteryError::AlreadyInitialized),
        s2 == s1,
{
}

/// A successful signed `run` advances its signer's nonce by exactly one, and afterwards
/// that nonce, or any earlier one, is refused with `IncorrectNonce`.
pub proof fn law_nonce_monotonicity(
    s0: ContractState,
    l0: LedgerState,
    s1: ContractState,
    l1: LedgerState,
    invoker: Identifier,
    auth: Auth,
    draws: Seq<usize>,
    r: Result<(), LotteryError>,
    p: Identifier,
)
    requires
        run_outcome(s0, l0, s1, l1, invoker, auth, draws, r),
        r is Ok,
        auth.sig == Signature::Signed(p),
    ensures
        auth.nonce == s0.nonces[p],
        s1.nonces[p] == s0.nonces[p] + 1,
        forall|q: Identifier| q != p ==> #[trigger] s1.nonces[q] == s0.nonces[q],
        forall|m: u64|
            m <= s0.nonces[p] ==> #[trigger] s1.authorization(invoker, Auth { sig: auth.sig, nonce: m })
                == Err::<Identifier, LotteryError>(LotteryError::IncorrectNonce),
{
}

proof fn lemma_signed_prefix(states: Seq<ContractState>, ledgers: Seq<LedgerState>, calls: Seq<Call>, p: Identifier, k: int)
    requires
        chain(states, ledgers, calls),
        forall|i: int| 0 <= i < calls.len() ==> is_signed_success(#[trigger] calls[i], p),
        0 <= k <= calls.len(),
    ensures
        states[k].nonces[p] == states[0].nonces[p] + k,
    decreases k,
{
    if k > 0 {
        lemma_signed_prefix(states, ledgers, calls, p, k - 1);
        let c = calls[k - 1];
        assert(is_signed_success(c, p));
        assert(call_outcome(states[k - 1], ledgers[k - 1], states[k], ledgers[k], c));
        match c {
            Call::Run { invoker, auth, draws, r } => {
                law_nonce_monotonicity(states[k - 1], ledgers[k - 1], states[k], ledgers[k], invoker, auth, draws, r, p);
            },
            Call::Buy { .. } => {},
        }
    }
}

/// Over any sequence of successful `run` calls signed by `p`, the i-th of them claims
/// `p`'s starting nonce plus i, and after `m` of them `p`'s nonce has grown by exactly `m`.
pub proof fn law_nonce_sequence(states: Seq<ContractState>, ledgers: Seq<LedgerState>, calls: Seq<Call>, p: Identifier)
    requires
        chain(states, ledgers, calls),
        forall|i: int| 0 <= i < calls.len() ==> is_signed_success(#[trigger] calls[i], p),
    ensures
        states.last().nonces[p] == states[0].nonces[p] + calls.len(),
        forall|i: int|
            0 <= i < calls.len() ==> (#[trigger] calls[i])->Run_auth.nonce == states[0].nonces[p] + i,
{
    lemma_signed_prefix(states, ledgers, calls, p, calls.len() as int);
    assert forall|i: int| 0 <= i < calls.len() implies (#[trigger] calls[i])->Run_auth.nonce == states[0].nonces[p] + i by {
        lemma_signed_prefix(states, ledgers, calls, p, i);
        assert(is_signed_success(calls[i], p));
        assert(call_outcome(states[i], ledgers[i], states[i + 1], ledgers[i + 1], calls[i]));
        match calls[i] {
            Call::Run { invoker, auth, draws, r } => {
                law_nonce_monotonicity(states[i], ledgers[i], states[i + 1], ledgers[i + 1], invoker, auth, draws, r, p);
            },
            Call::Buy { .. } => {},
        }
    }
}

proof fn lemma_invoker_prefix(states: Seq<ContractState>, ledgers: Seq<LedgerState>, calls: Seq<Call>, k: int)
    requires
        chain(states, ledgers, calls),
        forall|i: int| 0 <= i < calls.len() ==> is_invoker_or_buy(#[trigger] calls[i]),
        0 <= k <= calls.len(),
    ensures
        states[k].nonces == states[0].nonces,
    decreases k,
{
    if k > 0 {
        lemma_invoker_prefix(states, ledgers, calls, k - 1);
        let c = calls[k - 1];
        assert(is_invoker_or_buy(c));
        assert(call_outcome(states[k - 1], ledgers[k - 1], states[k], ledgers[k], c));
        match c {
            Call::Run { invoker, auth, draws, r } => {
                law_invoker_nonce_fixed_point(states[k - 1], ledgers[k - 1], states[k], ledgers[k], invoker, auth, draws, r);
            },
            Call::Buy { .. } => {},
        }
    }
}

/// Any sequence of ticket purchases and invoker-mode `run` calls, whether they succeed
/// or fail, leaves the nonce registry as it found it.
pub proof fn law_invoker_sequence(states: Seq<ContractState>, ledgers: Seq<LedgerState>, calls: Seq<Call>)
    requires
        chain(states, ledgers, calls),
        forall|i: int| 0 <= i < calls.len() ==> is_invoker_or_buy(#[trigger] calls[i]),
    ensures
        states.last().nonces == states[0].nonces,
{
    lemma_invoker_prefix(states, ledgers, calls, calls.len() as int);
}

/// An invoker-mode `run` never changes the nonce registry, and fails whenever it claims
/// a nonce other than zero.
pub proof fn law_invoker_nonce_fixed_point(
    s0: ContractState,
    l0: LedgerState,
    s1: ContractState,
    l1: LedgerState,
    invoker: Identifier,
    auth: Auth,
    draws: Seq<usize>,
    r: Result<(), LotteryError>,
)
    requires
        run_outcome(s0, l0, s1, l1, invoker, auth, draws, r),
        auth.sig == Signature::Invoker,
    ensures
        s1.nonces == s0.nonces,
        auth.nonce != 0 ==> r is Err && s1 == s0 && l1 == l0,
{
}

/// A successful `buy_ticket(b)`, for a buyer other than the contract itself, raises the
/// contract's custodial balance by exactly the ticket price and appends `b` to the roster.
pub proof fn law_ticket_accounting(
    s0: ContractState,
    l0: LedgerState,
    s1: ContractState,
    l1: LedgerState,
    b: Identifier,
    r: Result<(), LotteryError>,
)
    requires
        buy_outcome(s0, l0, s1, l1, b, r),
        r is Ok,
        b != s0.id,
    ensures
        s0.config is Some,
        l1.balances[s0.id] == l0.balances[s0.id] + s0.config.unwrap().ticket_price,
        l1.balances[b] == l0.balances[b] - s0.config.unwrap().ticket_price,
        s1.candidates.len() == s0.candidates.len() + 1,
        s1.candidates.last() == b,
        s1.candidates.drop_last() == s0.candidates,
{
    assert(s1.candidates.drop_last() =~= s0.candidates);
}

/// A purchase by a buyer other than the contract succeeds whenever the ledger keeps the
/// configured asset, the buyer's allowance to the contract and balance both cover the
/// price, and the contract's balance can take it.
pub proof fn law_ticket_purchase_succeeds(
    s0: ContractState,
    l0: LedgerState,
    s1: ContractState,
    l1: LedgerState,
    b: Identifier,
    r: Result<(), LotteryError>,
)
    requires
        buy_outcome(s0, l0, s1, l1, b, r),
        s0.config is Some,
        l0.id == s0.config.unwrap().token_id@,
        b != s0.id,
        s0.config.unwrap().ticket_price <= l0.allowances[crate::types::Approval { owner: b, spender: s0.id }],
        s0.config.unwrap().ticket_price <= l0.balances[b],
        l0.balances[s0.id] + s0.config.unwrap().ticket_price <= u64::MAX,
    ensures
        r is Ok,
        l1.balances[s0.id] == l0.balances[s0.id] + s0.config.unwrap().ticket_price,
        s1.candidates == s0.candidates.push(b),
{
}

/// In a successful draw with `k` winners and custodial balance `B`, where neither a
/// winner nor the admin is the contract itself, the winners take `(B / k) * k <= B`
/// between them, the admin's fee is `B - (B / k) * k`, and the custodial balance ends at zero.
pub proof fn law_draw_payout_bound(
    s0: ContractState,
    l0: LedgerState,
    s1: ContractState,
    l1: LedgerState,
    invoker: Identifier,
    auth: Auth,
    draws: Seq<usize>,
    r: Result<(), LotteryError>,
)
    requires
        run_outcome(s0, l0, s1, l1, invoker, auth, draws, r),
        s0.draws_fit(draws),
        r is Ok,
        forall|i: int| 0 <= i < draws.len() ==> #[trigger] s0.winners(draws)[i] != s0.id,
        s0.config.unwrap().admin != s0.id,
    ensures
        ({
            let vault = s0.id;
            let k = s0.config.unwrap().num_winners as nat;
            let b = l0.balances[vault];
            let payout = b / k;
            let paid = pay_all(l0.balances, vault, s0.winners(draws), payout);
            &&& k > 0
            &&& payout * k <= b
            &&& paid[vault] == b - payout * k
            &&& l1.balances[s0.config.unwrap().admin] == paid[s0.config.unwrap().admin] + (b - payout * k)
            &&& l1.balances[vault] == 0
        }),
{
    let vault = s0.id;
    let k = s0.config.unwrap().num_winners as nat;
    let b = l0.balances[vault];
    let payout = b / k;
    let winners = s0.winners(draws);
    assert(s0.authorization(invoker, auth) is Ok);
    assert(s0.draw_check() is Ok);
    assert(winners.len() == k);
    lemma_pay_all_payer(l0.balances, vault, winners, payout);
}

/// In a successful draw, every principal other than the contract and the admin gains
/// the payout once for each time the draws select it, so one drawn twice is paid twice.
pub proof fn law_payout_per_draw(
    s0: ContractState,
    l0: LedgerState,
    s1: ContractState,
    l1: LedgerState,
    invoker: Identifier,
    auth: Auth,
    draws: Seq<usize>,
    r: Result<(), LotteryError>,
    x: Identifier,
)
    requires
        run_outcome(s0, l0, s1, l1, invoker, auth, draws, r),
        r is Ok,
        x != s0.id,
        x != s0.config.unwrap().admin,
    ensures
        l1.balances[x] == l0.balances[x] + (l0.balances[s0.id] / (s0.config.unwrap().num_winners as nat))
            * occurrences(s0.winners(draws), x),
{
    assert(s0.authorization(invoker, auth) is Ok);
    assert(s0.draw_check() is Ok);
    let payout = l0.balances[s0.id] / (s0.config.unwrap().num_winners as nat);
    lemma_pay_all_payee(l0.balances, s0.id, s0.winners(draws), payout, x);
}

} // verus!
