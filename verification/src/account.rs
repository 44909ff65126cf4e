//! The executable record and ledger-holding types.

use vstd::prelude::*;

use crate::model::{AccountView, EscrowView};

verus! {

/// One holding in the asset ledger: the identity that may authorize debits
/// from it, and its balance.
pub struct Account {
    pub authority: Vec<u8>,
    pub balance: u64,
}

impl View for Account {
    type V = AccountView;

    open spec fn view(&self) -> AccountView {
        AccountView { authority: self.authority@, balance: self.balance as int }
    }
}

/// One open escrow offer: live from creation until a Take deletes it, it
/// binds the two legs of the trade.
pub struct Escrow {
    /// Lifecycle flag: true from creation until closure.
    pub is_initialized: bool,
    /// Who created the offer.
    pub initializer: Vec<u8>,
    /// The account that must receive the taker's payment.
    pub initializer_token_account_receive: Vec<u8>,
    /// The custody holding of the locked funds, under the custodial
    /// authority.
    pub escrow_token_account: Vec<u8>,
    /// What the initializer pays out; deposited into custody at creation.
    pub initializer_amount: u64,
    /// What the taker must pay to complete the trade.
    pub taker_amount: u64,
}

impl View for Escrow {
    type V = EscrowView;

    open spec fn view(&self) -> EscrowView {
        EscrowView {
            is_initialized: self.is_initialized,
            initializer: self.initializer@,
            initializer_token_account_receive: self.initializer_token_account_receive@,
            escrow_token_account: self.escrow_token_account@,
            initializer_amount: self.initializer_amount,
            taker_amount: self.taker_amount,
        }
    }
}

} // verus!
