use vstd::prelude::*;

use crate::registry::Registry;
use crate::types::{Approval, Identifier, TokenError};

verus! {

/// What a ledger holds: each principal's balance and each approval's allowance.
pub ghost struct LedgerState {
    /// The handle of the asset that the ledger keeps.
    pub id: Seq<u8>,
    pub balances: Map<Identifier, nat>,
    pub allowances: Map<Approval, nat>,
}

/// Whether `amount` can move from `from` to `to`: the sender holds it and the
/// receiver's balance stays representable.
pub open spec fn can_move(bal: Map<Identifier, nat>, from: Identifier, to: Identifier, amount: nat) -> bool {
    &&& amount <= bal[from]
    &&& from != to ==> bal[to] + amount <= u64::MAX
}

/// The balances after `amount` moved from `from` to `to`.
pub open spec fn moved(bal: Map<Identifier, nat>, from: Identifier, to: Identifier, amount: nat) -> Map<Identifier, nat> {
    Map::new(
        |k: Identifier| true,
        |k: Identifier|
            if from == to {
                bal[k]
            } else if k == from {
                (bal[from] - amount) as nat
            } else if k == to {
                bal[to] + amount
            } else {
                bal[k]
            },
    )
}

/// An in-memory fungible-asset ledger: balances, approvals, and the three movements
/// of funds that the lottery uses.
pub struct TokenLedger {
    id: [u8; 32],
    balances: Registry<Identifier>,
    allowances: Registry<Approval>,
}

impl TokenLedger {
    pub closed spec fn wf(&self) -> bool {
        self.balances.wf() && self.allowances.wf()
    }

    pub closed spec fn view(&self) -> LedgerState {
        LedgerState { id: self.id@, balances: self.balances.view(), allowances: self.allowances.view() }
    }

    /// An empty ledger of the asset with handle `id`.
    pub fn new(id: [u8; 32]) -> (r: Self)
        ensures
            r.wf(),
            r@.id == id@,
            forall|id: Identifier| #[trigger] r@.balances[id] == 0,
            forall|a: Approval| #[trigger] r@.allowances[a] == 0,
    {
        TokenLedger { id, balances: Registry::new(), allowances: Registry::new() }
    }

    /// The handle of the asset that the ledger keeps.
    pub fn id(&self) -> (r: [u8; 32])
        ensures
            r@ == self@.id,
    {
        self.id
    }

    pub fn balance(&self, id: Identifier) -> (r: u64)
        requires
            self.wf(),
        ensures
            r == self@.balances[id],
    {
        self.balances.get(&id)
    }

    pub fn allowance(&self, owner: Identifier, spender: Identifier) -> (r: u64)
        requires
            self.wf(),
        ensures
            r == self@.allowances[Approval { owner, spender }],
    {
        self.allowances.get(&Approval { owner, spender })
    }

    /// Creates `amount` new units held by `to`.
    pub fn mint(&mut self, to: Identifier, amount: u64) -> (r: Result<(), TokenError>)
        requires
            old(self).wf(),
        ensures
            final(self).wf(),
            r is Ok <==> old(self)@.balances[to] + amount <= u64::MAX,
            r is Err ==> r == Err::<(), TokenError>(TokenError::Overflow) && final(self)@ == old(self)@,
            r is Ok ==> final(self)@ == (LedgerState {
                id: old(self)@.id,
                balances: old(self)@.balances.insert(to, (old(self)@.balances[to] + amount) as nat),
                allowances: old(self)@.allowances,
            }),
    {
        let held = self.balances.get(&to);
        match held.checked_add(amount) {
            Some(total) => {
                self.balances.set(&to, total);
                Ok(())
            },
            None => Err(TokenError::Overflow),
        }
    }

    /// Lets `spender` move up to `amount` of `owner`'s funds, replacing any earlier allowance.
    pub fn approve(&mut self, owner: Identifier, spender: Identifier, amount: u64)
        requires
            old(self).wf(),
        ensures
            final(self).wf(),
            final(self)@ == (LedgerState {
                id: old(self)@.id,
                balances: old(self)@.balances,
                allowances: old(self)@.allowances.insert(Approval { owner, spender }, amount as nat),
            }),
    {
        self.allowances.set(&Approval { owner, spender }, amount);
    }

    /// Moves `amount` from `from` to `to` on `from`'s own authority.
    pub fn xfer(&mut self, from: Identifier, to: Identifier, amount: u64) -> (r: Result<(), TokenError>)
        requires
            old(self).wf(),
        ensures
            final(self).wf(),
            r is Ok <==> can_move(old(self)@.balances, from, to, amount as nat),
            r == Err::<(), TokenError>(TokenError::InsufficientBalance) <==> amount > old(self)@.balances[from],
            r is Err ==> final(self)@ == old(self)@,
            r is Err && amount <= old(self)@.balances[from] ==> r == Err::<(), TokenError>(TokenError::Overflow),
            r is Ok ==> final(self)@ == (LedgerState {
                id: old(self)@.id,
                balances: moved(old(self)@.balances, from, to, amount as nat),
                allowances: old(self)@.allowances,
            }),
    {
        let have = self.balances.get(&from);
        if have < amount {
            return Err(TokenError::InsufficientBalance);
        }
        if from == to {
            assert(self@.balances =~= moved(self@.balances, from, to, amount as nat));
            return Ok(());
        }
        let dest = self.balances.get(&to);
        match dest.checked_add(amount) {
            Some(total) => {
                let ghost pre = self@.balances;
                self.balances.set(&from, have - amount);
                self.balances.set(&to, total);
                assert(self@.balances =~= moved(pre, from, to, amount as nat));
                Ok(())
            },
            None => Err(TokenError::Overflow),
        }
    }

    /// Moves `amount` from `from` to `to` on the authority of `spender`, spending
    /// that much of the allowance `from` granted to `spender`.
    pub fn xfer_from(&mut self, spender: Identifier, from: Identifier, to: Identifier, amount: u64) -> (r: Result<(), TokenError>)
        requires
            old(self).wf(),
        ensures
            final(self).wf(),
            ({
                let pre = old(self)@;
                let key = Approval { owner: from, spender };
                &&& (r is Ok <==> amount <= pre.allowances[key] && can_move(pre.balances, from, to, amount as nat))
                &&& (r == Err::<(), TokenError>(TokenError::InsufficientAllowance) <==> amount > pre.allowances[key])
                &&& (r is Err ==> final(self)@ == pre)
                &&& (r is Ok ==> final(self)@ == (LedgerState {
                    id: pre.id,
                    balances: moved(pre.balances, from, to, amount as nat),
                    allowances: pre.allowances.insert(key, (pre.allowances[key] - amount) as nat),
                }))
            }),
    {
        let key = Approval { owner: from, spender };
        let allowed = self.allowances.get(&key);
        if allowed < amount {
            return Err(TokenError::InsufficientAllowance);
        }
        let moved_ok = self.xfer(from, to, amount);
        match moved_ok {
            Ok(()) => {
                self.allowances.set(&key, allowed - amount);
                Ok(())
            },
            Err(e) => Err(e),
        }
    }
}

} // verus!
