use vstd::prelude::*;

use crate::draw::{
    first_unpayable, lemma_first_unpayable_all, lemma_first_unpayable_at, lemma_pay_all_ok_prefix, pay_all,
    pay_all_ok, settled, settles,
};
use crate::random::get_random;
use crate::registry::Registry;
use crate::token::{LedgerState, TokenLedger};
use crate::types::{Approval, Auth, DataKey, Identifier, LotteryError, Signature};

verus! {

/// What `initialize` fixes for the lifetime of the contract.
#[derive(Clone, Copy, Debug)]
pub struct Config {
    pub admin: Identifier,
    pub token_id: [u8; 32],
    pub num_winners: u32,
    pub ticket_price: u64,
}

/// The contract's persistent state, as values.
pub ghost struct ContractState {
    /// The contract's own identity, under which it holds the pooled funds.
    pub id: Identifier,
    pub config: Option<Config>,
    pub candidates: Seq<Identifier>,
    /// The next expected nonce of each principal.
    pub nonces: Map<Identifier, nat>,
}

impl ContractState {
    /// The admin check: the credential must stand for the stored admin.
    pub open spec fn admin_check(self, invoker: Identifier, sig: Signature) -> Result<Identifier, LotteryError> {
        match self.config {
            None => Err(LotteryError::NotInitialized),
            Some(c) => if sig.principal(invoker) == c.admin {
                Ok(c.admin)
            } else {
                Err(LotteryError::NotAuthorized)
            },
        }
    }

    /// The nonce check: zero for the invoker, else the signer's expected nonce.
    pub open spec fn nonce_check(self, auth: Auth) -> Result<(), LotteryError> {
        match auth.sig {
            Signature::Invoker => if auth.nonce == 0 {
                Ok(())
            } else {
                Err(LotteryError::InvalidInvokerNonce)
            },
            Signature::Signed(p) => if auth.nonce != self.nonces[p] {
                Err(LotteryError::IncorrectNonce)
            } else if auth.nonce == u64::MAX {
                Err(LotteryError::NonceOverflow)
            } else {
                Ok(())
            },
        }
    }

    /// The whole authorization of `run`: on success, the admin.
    pub open spec fn authorization(self, invoker: Identifier, auth: Auth) -> Result<Identifier, LotteryError> {
        match self.admin_check(invoker, auth.sig) {
            Err(e) => Err(e),
            Ok(admin) => match self.nonce_check(auth) {
                Err(e) => Err(e),
                Ok(()) => Ok(admin),
            },
        }
    }

    /// The nonce registry once `auth` has been consumed.
    pub open spec fn nonces_after(self, auth: Auth) -> Map<Identifier, nat> {
        match auth.sig {
            Signature::Invoker => self.nonces,
            Signature::Signed(p) => self.nonces.insert(p, self.nonces[p] + 1),
        }
    }

    /// What a draw needs of the state: a positive number of winners and a candidate.
    pub open spec fn draw_check(self) -> Result<(), LotteryError> {
        match self.config {
            None => Err(LotteryError::NotInitialized),
            Some(c) => if c.num_winners == 0 {
                Err(LotteryError::ZeroWinners)
            } else if self.candidates.len() == 0 {
                Err(LotteryError::NoCandidates)
            } else {
                Ok(())
            },
        }
    }

    /// Whether `draws` could come out of a draw: one index per winner, each into the roster.
    pub open spec fn draws_fit(self, draws: Seq<usize>) -> bool {
        self.draw_check() is Ok ==> {
            &&& draws.len() == self.config.unwrap().num_winners
            &&& forall|i: int| 0 <= i < draws.len() ==> (#[trigger] draws[i]) < self.candidates.len()
        }
    }

    /// The candidates that `draws` select, one per draw, repeats included.
    pub open spec fn winners(self, draws: Seq<usize>) -> Seq<Identifier> {
        draws.map_values(|d: usize| self.candidates[d as int])
    }

    /// The state with the candidate `id` appended to the roster.
    pub open spec fn with_candidate(self, id: Identifier) -> ContractState {
        ContractState { id: self.id, config: self.config, candidates: self.candidates.push(id), nonces: self.nonces }
    }

    /// The state with `nonces` as its nonce registry.
    pub open spec fn with_nonces(self, nonces: Map<Identifier, nat>) -> ContractState {
        ContractState { id: self.id, config: self.config, candidates: self.candidates, nonces }
    }
}

/// What `initialize(c)` does: it stores `c` once, and refuses every later call.
pub open spec fn initialize_outcome(pre: ContractState, post: ContractState, c: Config, r: Result<(), LotteryError>) -> bool {
    match pre.config {
        Some(_) => r == Err::<(), LotteryError>(LotteryError::AlreadyInitialized) && post == pre,
        None => r is Ok && post == (ContractState {
            id: pre.id,
            config: Some(c),
            candidates: pre.candidates,
            nonces: pre.nonces,
        }),
    }
}

/// What `buy_ticket(from)` does to the contract and to the ledger.
pub open spec fn buy_outcome(
    pre: ContractState,
    lpre: LedgerState,
    post: ContractState,
    lpost: LedgerState,
    from: Identifier,
    r: Result<(), LotteryError>,
) -> bool {
    match pre.config {
        None => r == Err::<(), LotteryError>(LotteryError::NotInitialized) && post == pre && lpost == lpre,
        Some(c) => if lpre.id != c.token_id@ {
            r == Err::<(), LotteryError>(LotteryError::WrongAsset) && post == pre && lpost == lpre
        } else {
            let key = Approval { owner: from, spender: pre.id };
            let price = c.ticket_price as nat;
            &&& (r is Ok <==> price <= lpre.allowances[key] && crate::token::can_move(lpre.balances, from, pre.id, price))
            &&& (r is Err ==> r == Err::<(), LotteryError>(LotteryError::TransferFailed) && post == pre && lpost == lpre)
            &&& (r is Ok ==> post == pre.with_candidate(from) && lpost == (LedgerState {
                id: lpre.id,
                balances: crate::token::moved(lpre.balances, from, pre.id, price),
                allowances: lpre.allowances.insert(key, (lpre.allowances[key] - price) as nat),
            }))
        },
    }
}

/// What `run` does when the draws come out as `draws`: authorization and the checks of
/// the draw change nothing when they fail; past them the nonce is consumed, each winner
/// is paid the vault's balance divided by the number of winners, and the rest goes to
/// the admin. Funds go only to a ledger of the configured asset. When a payment cannot
/// be made, the payments before it stand and nothing else moves.
pub open spec fn run_outcome(
    pre: ContractState,
    lpre: LedgerState,
    post: ContractState,
    lpost: LedgerState,
    invoker: Identifier,
    auth: Auth,
    draws: Seq<usize>,
    r: Result<(), LotteryError>,
) -> bool {
    match pre.authorization(invoker, auth) {
        Err(e) => r == Err::<(), LotteryError>(e) && post == pre && lpost == lpre,
        Ok(admin) => if lpre.id != pre.config.unwrap().token_id@ {
            r == Err::<(), LotteryError>(LotteryError::WrongAsset) && post == pre && lpost == lpre
        } else {
            match pre.draw_check() {
            Err(e) => r == Err::<(), LotteryError>(e) && post == pre && lpost == lpre,
            Ok(()) => {
                let payout = lpre.balances[pre.id] / (pre.config.unwrap().num_winners as nat);
                let winners = pre.winners(draws);
                &&& post == pre.with_nonces(pre.nonces_after(auth))
                &&& lpost.allowances == lpre.allowances
                &&& (r is Ok <==> settles(lpre.balances, pre.id, admin, winners, payout))
                &&& (r is Ok ==> lpost.balances == settled(lpre.balances, pre.id, admin, winners, payout))
                &&& (r is Err ==> r == Err::<(), LotteryError>(LotteryError::TransferFailed))
                &&& (r is Err ==> lpost.balances == pay_all(
                    lpre.balances,
                    pre.id,
                    winners.take(first_unpayable(lpre.balances, pre.id, winners, payout) as int),
                    payout,
                ))
            },
            }
        },
    }
}

/// A ticketed lottery: it sells entries at a fixed price into a pooled balance and
/// pays that balance out to pseudo-randomly drawn winners, the remainder to its admin.
pub struct LotteryContract {
    id: Identifier,
    config: Option<Config>,
    candidates: Vec<Identifier>,
    nonces: Registry<Identifier>,
}

/// Whether two asset handles are the same.
fn same_asset(a: &[u8; 32], b: &[u8; 32]) -> (r: bool)
    ensures
        r == (a@ == b@),
{
    let mut i: usize = 0;
    while i < 32
        invariant
            i <= 32,
            a@.len() == 32,
            b@.len() == 32,
            forall|j: int| 0 <= j < i ==> a@[j] == b@[j],
        decreases 32 - i,
    {
        if a[i] != b[i] {
            return false;
        }
        i = i + 1;
    }
    assert(a@ =~= b@);
    true
}

/// Draws `count` roster indices, each below `max`, independently: the same index may
/// come out more than once.
fn draw_indices(max: usize, count: u32) -> (r: Vec<usize>)
    requires
        max > 0,
    ensures
        r@.len() == count,
        forall|i: int| 0 <= i < r@.len() ==> (#[trigger] r@[i]) < max,
{
    let mut draws: Vec<usize> = Vec::new();
    let mut n: u32 = 0;
    while n < count
        invariant
            max > 0,
            n <= count,
            draws@.len() == n,
            forall|i: int| 0 <= i < draws@.len() ==> (#[trigger] draws@[i]) < max,
        decreases count - n,
    {
        let idx = get_random(max);
        draws.push(idx);
        n = n + 1;
    }
    draws
}

/// Resolves the credential to a principal and checks that it is the admin.
pub fn check_admin(contract: &LotteryContract, invoker: Identifier, auth: &Signature) -> (r: Result<Identifier, LotteryError>)
    ensures
        r == contract@.admin_check(invoker, *auth),
{
    match contract.config {
        None => Err(LotteryError::NotInitialized),
        Some(c) => {
            let auth_id = auth.identifier(invoker);
            if auth_id == c.admin {
                Ok(c.admin)
            } else {
                Err(LotteryError::NotAuthorized)
            }
        },
    }
}

impl LotteryContract {
    pub closed spec fn wf(&self) -> bool {
        self.nonces.wf()
    }

    pub closed spec fn view(&self) -> ContractState {
        ContractState {
            id: self.id,
            config: self.config,
            candidates: self.candidates@,
            nonces: self.nonces.view(),
        }
    }

    /// A contract that holds its funds as `id`, not yet initialized.
    pub fn new(id: Identifier) -> (r: Self)
        ensures
            r.wf(),
            r@.id == id,
            r@.config is None,
            r@.candidates.len() == 0,
            forall|p: Identifier| #[trigger] r@.nonces[p] == 0,
    {
        LotteryContract { id, config: None, candidates: Vec::new(), nonces: Registry::new() }
    }

    /// Whether the persistent state holds a value under `key`. The configuration is
    /// written as a unit, the roster from the first ticket sold, and a nonce from the
    /// first time its principal's nonce is consumed.
    pub fn has(&self, key: &DataKey) -> (r: bool)
        requires
            self.wf(),
        ensures
            r == match *key {
                DataKey::Candidates => self@.candidates.len() > 0,
                DataKey::Nonce(id) => self.nonce_stored(id),
                _ => self@.config is Some,
            },
    {
        match key {
            DataKey::Candidates => self.candidates.len() > 0,
            DataKey::Nonce(id) => self.nonces.contains(id),
            _ => self.config.is_some(),
        }
    }

    /// Whether a nonce of `id` has been written.
    pub closed spec fn nonce_stored(&self, id: Identifier) -> bool {
        self.nonces.stored(id)
    }

    /// The identity under which the contract holds the pooled funds.
    pub fn id(&self) -> (r: Identifier)
        ensures
            r == self@.id,
    {
        self.id
    }

    /// The configuration, once initialized.
    pub fn config(&self) -> (r: Option<Config>)
        ensures
            r == self@.config,
    {
        self.config
    }

    /// The roster of ticket holders, one entry per ticket, in order of purchase.
    pub fn candidates(&self) -> (r: Vec<Identifier>)
        ensures
            r@ == self@.candidates,
    {
        let mut out: Vec<Identifier> = Vec::new();
        let mut i: usize = 0;
        while i < self.candidates.len()
            invariant
                i <= self.candidates@.len(),
                out@ == self.candidates@.take(i as int),
            decreases self.candidates@.len() - i,
        {
            out.push(self.candidates[i]);
            i = i + 1;
            assert(out@ =~= self.candidates@.take(i as int));
        }
        assert(out@ =~= self.candidates@);
        out
    }

    /// The next expected nonce of `id`.
    pub fn nonce_of(&self, id: Identifier) -> (r: u64)
        requires
            self.wf(),
        ensures
            r == self@.nonces[id],
    {
        self.nonces.get(&id)
    }

    /// Stores the admin, the asset, the number of winners and the ticket price, once.
    pub fn initialize(
        &mut self,
        admin: Identifier,
        token_id: [u8; 32],
        num_winners: u32,
        ticket_price: u64,
    ) -> (r: Result<(), LotteryError>)
        requires
            old(self).wf(),
        ensures
            final(self).wf(),
            initialize_outcome(
                old(self)@,
                final(self)@,
                Config { admin, token_id, num_winners, ticket_price },
                r,
            ),
    {
        if self.config.is_some() {
            return Err(LotteryError::AlreadyInitialized);
        }
        self.config = Some(Config { admin, token_id, num_winners, ticket_price });
        Ok(())
    }

    /// The admin's next expected nonce.
    pub fn nonce(&self) -> (r: Result<u64, LotteryError>)
        requires
            self.wf(),
        ensures
            match self@.config {
                None => r == Err::<u64, LotteryError>(LotteryError::NotInitialized),
                Some(c) => r == Ok::<u64, LotteryError>(self@.nonces[c.admin] as u64),
            },
    {
        match self.config {
            None => Err(LotteryError::NotInitialized),
            Some(c) => Ok(self.nonces.get(&c.admin)),
        }
    }

    /// The price of one ticket.
    pub fn get_price(&self) -> (r: Result<u64, LotteryError>)
        ensures
            match self@.config {
                None => r == Err::<u64, LotteryError>(LotteryError::NotInitialized),
                Some(c) => r == Ok::<u64, LotteryError>(c.ticket_price),
            },
    {
        match self.config {
            None => Err(LotteryError::NotInitialized),
            Some(c) => Ok(c.ticket_price),
        }
    }

    fn check_nonce(&self, auth: &Auth) -> (r: Result<(), LotteryError>)
        requires
            self.wf(),
        ensures
            r == self@.nonce_check(*auth),
    {
        match auth.sig {
            Signature::Invoker => if auth.nonce == 0 {
                Ok(())
            } else {
                Err(LotteryError::InvalidInvokerNonce)
            },
            Signature::Signed(p) => {
                let expected = self.nonces.get(&p);
                if auth.nonce != expected {
                    Err(LotteryError::IncorrectNonce)
                } else if auth.nonce == u64::MAX {
                    Err(LotteryError::NonceOverflow)
                } else {
                    Ok(())
                }
            },
        }
    }

    fn consume_nonce(&mut self, auth: &Auth)
        requires
            old(self).wf(),
            old(self)@.nonce_check(*auth) is Ok,
        ensures
            final(self).wf(),
            final(self)@ == old(self)@.with_nonces(old(self)@.nonces_after(*auth)),
    {
        match auth.sig {
            Signature::Invoker => {},
            Signature::Signed(p) => {
                self.nonces.set(&p, auth.nonce + 1);
            },
        }
    }

    /// Checks the nonce that `auth` claims and, if it is the expected one, consumes it.
    /// The invoker's nonce is always zero and never consumed.
    pub fn verify_and_consume_nonce(&mut self, auth: &Auth) -> (r: Result<(), LotteryError>)
        requires
            old(self).wf(),
        ensures
            final(self).wf(),
            r == old(self)@.nonce_check(*auth),
            r is Ok ==> final(self)@ == old(self)@.with_nonces(old(self)@.nonces_after(*auth)),
            r is Err ==> final(self)@ == old(self)@,
    {
        match self.check_nonce(auth) {
            Err(e) => Err(e),
            Ok(()) => {
                self.consume_nonce(auth);
                Ok(())
            },
        }
    }

    /// Whether `ledger` keeps the configured asset; false before initialization.
    fn ledger_matches(&self, ledger: &TokenLedger) -> (r: bool)
        ensures
            r == (self@.config is Some && ledger@.id == self@.config.unwrap().token_id@),
    {
        match self.config {
            None => false,
            Some(c) => same_asset(&ledger.id(), &c.token_id),
        }
    }

    fn check_draw(&self) -> (r: Result<(), LotteryError>)
        ensures
            r == self@.draw_check(),
    {
        match self.config {
            None => Err(LotteryError::NotInitialized),
            Some(c) => if c.num_winners == 0 {
                Err(LotteryError::ZeroWinners)
            } else if self.candidates.len() == 0 {
                Err(LotteryError::NoCandidates)
            } else {
                Ok(())
            },
        }
    }

    /// Sells a ticket to `from`: pulls the ticket price from `from` into the contract's
    /// custody on `ledger`, which must keep the configured asset, then enters `from` in the
    /// roster.
    pub fn buy_ticket(&mut self, ledger: &mut TokenLedger, from: Identifier) -> (r: Result<(), LotteryError>)
        requires
            old(self).wf(),
            old(ledger).wf(),
        ensures
            final(self).wf(),
            final(ledger).wf(),
            buy_outcome(old(self)@, old(ledger)@, final(self)@, final(ledger)@, from, r),
    {
        let price = match self.config {
            None => return Err(LotteryError::NotInitialized),
            Some(c) => {
                if !same_asset(&ledger.id(), &c.token_id) {
                    return Err(LotteryError::WrongAsset);
                }
                c.ticket_price
            },
        };
        match ledger.xfer_from(self.id, from, self.id, price) {
            Err(_) => Err(LotteryError::TransferFailed),
            Ok(()) => {
                self.candidates.push(from);
                Ok(())
            },
        }
    }

    /// Runs the lottery: authorizes `auth` as the admin's, consumes its nonce, draws one
    /// roster index per winner from the host's pseudo-random source, pays each drawn
    /// candidate the vault's balance divided by the number of winners, and the rest to
    /// the admin. What it does is what `run_with_draws` does with some fitting draws.
    pub fn run(&mut self, ledger: &mut TokenLedger, invoker: Identifier, auth: &Auth) -> (r: Result<(), LotteryError>)
        requires
            old(self).wf(),
            old(ledger).wf(),
        ensures
            final(self).wf(),
            final(ledger).wf(),
            exists|draws: Seq<usize>|
                old(self)@.draws_fit(draws) && run_outcome(
                    old(self)@,
                    old(ledger)@,
                    final(self)@,
                    final(ledger)@,
                    invoker,
                    *auth,
                    draws,
                    r,
                ),
    {
        let ghost pre = self@;
        let ghost lpre = ledger@;
        let checked = self.check_draw();
        let ghost filler: Seq<usize> = Seq::new(
            match pre.config {
                Some(c) => c.num_winners as nat,
                None => 0,
            },
            |i: int| 0usize,
        );
        assert(pre.draws_fit(filler));
        match check_admin(self, invoker, &auth.sig) {
            Err(e) => {
                assert(run_outcome(pre, lpre, self@, ledger@, invoker, *auth, filler, Err(e)));
                return Err(e);
            },
            Ok(_) => {},
        }
        match self.check_nonce(auth) {
            Err(e) => {
                assert(run_outcome(pre, lpre, self@, ledger@, invoker, *auth, filler, Err(e)));
                return Err(e);
            },
            Ok(()) => {},
        }
        if !self.ledger_matches(ledger) {
            assert(run_outcome(pre, lpre, self@, ledger@, invoker, *auth, filler, Err(LotteryError::WrongAsset)));
            return Err(LotteryError::WrongAsset);
        }
        let draws = match (checked, self.config) {
            (Ok(()), Some(c)) => draw_indices(self.candidates.len(), c.num_winners),
            _ => Vec::new(),
        };
        let r = self.run_with_draws(ledger, invoker, auth, &draws);
        assert(pre.draws_fit(draws@));
        r
    }

    /// Runs the draw with the winners' roster indices given as `draws`: authorizes
    /// `auth` as the admin's, consumes its nonce, pays each drawn candidate the
    /// vault's balance divided by the number of winners, and the rest to the admin.
    pub fn run_with_draws(
        &mut self,
        ledger: &mut TokenLedger,
        invoker: Identifier,
        auth: &Auth,
        draws: &Vec<usize>,
    ) -> (r: Result<(), LotteryError>)
        requires
            old(self).wf(),
            old(ledger).wf(),
            old(self)@.draws_fit(draws@),
        ensures
            final(self).wf(),
            final(ledger).wf(),
            run_outcome(old(self)@, old(ledger)@, final(self)@, final(ledger)@, invoker, *auth, draws@, r),
    {
        let admin = match check_admin(self, invoker, &auth.sig) {
            Err(e) => return Err(e),
            Ok(a) => a,
        };
        match self.check_nonce(auth) {
            Err(e) => return Err(e),
            Ok(()) => {},
        }
        if !self.ledger_matches(ledger) {
            return Err(LotteryError::WrongAsset);
        }
        match self.check_draw() {
            Err(e) => return Err(e),
            Ok(()) => {},
        }
        let ghost pre = self@;
        let ghost l0 = ledger@;
        let num_winners = match self.config {
            Some(c) => c.num_winners,
            None => 1,
        };
        self.consume_nonce(auth);

        let vault = self.id;
        let balance = ledger.balance(vault);
        let payout = balance / (num_winners as u64);
        assert(payout as nat == l0.balances[pre.id] / (pre.config.unwrap().num_winners as nat));
        let ghost winners = pre.winners(draws@);
        let mut i: usize = 0;
        while i < draws.len()
            invariant
                self.wf(),
                pre == old(self)@,
                l0 == old(ledger)@,
                l0.id == pre.config.unwrap().token_id@,
                ledger@.id == l0.id,
                pre.authorization(invoker, *auth) == Ok::<Identifier, LotteryError>(admin),
                self@ == pre.with_nonces(pre.nonces_after(*auth)),
                pre.draws_fit(draws@),
                pre.draw_check() is Ok,
                vault == pre.id,
                payout as nat == l0.balances[pre.id] / (pre.config.unwrap().num_winners as nat),
                winners == pre.winners(draws@),
                i <= draws@.len(),
                ledger.wf(),
                ledger@.allowances == l0.allowances,
                ledger@.balances == pay_all(l0.balances, vault, winners.take(i as int), payout as nat),
                pay_all_ok(l0.balances, vault, winners.take(i as int), payout as nat),
            decreases draws@.len() - i,
        {
            let idx = draws[i];
            let winner = self.candidates[idx];
            proof {
                assert(winners.take(i as int + 1).drop_last() =~= winners.take(i as int));
                assert(winners.take(i as int + 1).last() == winner);
            }
            match ledger.xfer(vault, winner, payout) {
                Ok(()) => {},
                Err(_) => {
                    proof {
                        let upto = winners.take(i as int + 1);
                        if pay_all_ok(l0.balances, vault, winners, payout as nat) {
                            lemma_pay_all_ok_prefix(l0.balances, vault, winners, payout as nat, i as int + 1);
                            assert(pay_all_ok(l0.balances, vault, upto, payout as nat));
                            assert(crate::token::can_move(
                                pay_all(l0.balances, vault, upto.drop_last(), payout as nat),
                                vault,
                                upto.last(),
                                payout as nat,
                            ));
                        }
                        assert(!settles(l0.balances, vault, admin, winners, payout as nat));
                        lemma_first_unpayable_at(l0.balances, vault, winners, payout as nat, i as int);
                    }
                    return Err(LotteryError::TransferFailed);
                },
            }
            i = i + 1;
        }
        proof {
            assert(winners.take(draws@.len() as int) =~= winners);
        }
        let fee = ledger.balance(vault);
        match ledger.xfer(vault, admin, fee) {
            Ok(()) => Ok(()),
            Err(_) => {
                proof {
                    lemma_first_unpayable_all(l0.balances, vault, winners, payout as nat);
                }
                Err(LotteryError::TransferFailed)
            },
        }
    }
}

} // verus!
