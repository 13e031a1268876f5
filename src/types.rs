use vstd::prelude::*;

verus! {

/// A principal: an account, or a contract such as the lottery's own vault.
#[derive(Clone, Copy, Debug, PartialEq, Eq, Structural)]
pub enum Identifier {
    Account(u64),
    Contract(u64),
}

/// A pair of principals: the owner of funds and a spender approved over them.
#[derive(Clone, Copy, Debug, PartialEq, Eq, Structural)]
pub struct Approval {
    pub owner: Identifier,
    pub spender: Identifier,
}

/// A credential presented with a privileged call.
#[derive(Clone, Copy, Debug, PartialEq, Eq, Structural)]
pub enum Signature {
    /// The direct invoker of the transaction, which needs no signature.
    Invoker,
    /// A signed request, named by the principal that signed it. The contract resolves
    /// the signer from it and does not examine signature bytes.
    Signed(Identifier),
}

impl Signature {
    /// The principal that the credential stands for, given the transaction's invoker.
    pub open spec fn principal(self, invoker: Identifier) -> Identifier {
        match self {
            Signature::Invoker => invoker,
            Signature::Signed(id) => id,
        }
    }

    pub fn identifier(&self, invoker: Identifier) -> (r: Identifier)
        ensures
            r == self.principal(invoker),
    {
        match self {
            Signature::Invoker => invoker,
            Signature::Signed(id) => *id,
        }
    }
}

/// A credential together with the nonce it claims.
#[derive(Clone, Copy, Debug, PartialEq, Eq, Structural)]
pub struct Auth {
    pub sig: Signature,
    pub nonce: u64,
}

/// The keys of the contract's persistent state.
#[derive(Clone, Copy, Debug, PartialEq, Eq, Structural)]
pub enum DataKey {
    TokenId,
    Admin,
    Candidates,
    NumWinners,
    Ticket,
    Nonce(Identifier),
}

/// Why an operation of the lottery failed.
#[derive(Clone, Copy, Debug, PartialEq, Eq, Structural)]
pub enum LotteryError {
    NotInitialized,
    AlreadyInitialized,
    NotAuthorized,
    InvalidInvokerNonce,
    IncorrectNonce,
    /// The expected nonce is already the largest one that can be stored.
    NonceOverflow,
    TransferFailed,
    /// A draw was asked for with zero winners configured.
    ZeroWinners,
    NoCandidates,
    /// The ledger handed in keeps another asset than the configured one.
    WrongAsset,
}

/// Why the asset ledger refused a movement of funds.
#[derive(Clone, Copy, Debug, PartialEq, Eq, Structural)]
pub enum TokenError {
    InsufficientBalance,
    InsufficientAllowance,
    Overflow,
}

/// Keys of a registry must be comparable in executable code.
pub trait Key: Copy + Sized {
    fn same(&self, other: &Self) -> (r: bool)
        ensures
            r == (*self == *other),
    ;
}

impl Key for Identifier {
    fn same(&self, other: &Self) -> (r: bool) {
        *self == *other
    }
}

impl Key for Approval {
    fn same(&self, other: &Self) -> (r: bool) {
        self.owner == other.owner && self.spender == other.spender
    }
}

} // verus!
