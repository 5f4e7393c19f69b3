//! Token accounts as a node returns them, and which of them count towards a
//! balance.

use vstd::prelude::*;

verus! {

/// A decimal amount as the node states it: an IEEE 754 double, held by its
/// bit pattern. The library carries such amounts and never computes on them.
#[derive(Debug, Clone, Copy, PartialEq, Eq, Structural)]
pub struct UiAmount {
    pub bits: u64,
}

/// The data of one returned account, as far as a balance depends on it.
#[derive(Debug, Clone, Copy, PartialEq, Eq, Structural)]
pub enum AccountData {
    /// Parsed JSON in the shape of a token account, with the ui amount that
    /// it states; `None` where the node gave `null`.
    TokenAccount { ui_amount: Option<UiAmount> },
    /// Parsed JSON in any other shape.
    OtherJson,
    /// Data that the node left encoded.
    Binary,
}

/// The amount that an account adds to a balance, if it adds any.
pub open spec fn counted(data: AccountData) -> Option<UiAmount> {
    match data {
        AccountData::TokenAccount { ui_amount } => ui_amount,
        AccountData::OtherJson => None,
        AccountData::Binary => None,
    }
}

/// The amounts that a list of accounts adds to a balance, in the order of the
/// accounts.
pub open spec fn counted_amounts(accounts: Seq<AccountData>) -> Seq<UiAmount> {
    accounts.filter_map(|data: AccountData| counted(data))
}

/// The amount of one account, where it has one that counts.
pub fn amount_of(data: &AccountData) -> (amount: Option<UiAmount>)
    ensures
        amount == counted(*data),
{
    match data {
        AccountData::TokenAccount { ui_amount } => *ui_amount,
        AccountData::OtherJson => None,
        AccountData::Binary => None,
    }
}

/// The amounts of the accounts that count, in their order. Accounts without
/// one are passed over.
pub fn amounts_of(accounts: &Vec<AccountData>) -> (amounts: Vec<UiAmount>)
    ensures
        amounts@ == counted_amounts(accounts@),
{
    let mut amounts: Vec<UiAmount> = Vec::new();
    let mut i: usize = 0;
    while i < accounts.len()
        invariant
            i <= accounts.len(),
            amounts@ == counted_amounts(accounts@.take(i as int)),
        decreases accounts.len() - i,
    {
        proof {
            accounts@.lemma_filter_map_take_succ(|data: AccountData| counted(data), i as int);
        }
        match amount_of(&accounts[i]) {
            Some(amount) => {
                amounts.push(amount);
            },
            None => {},
        }
        i += 1;
    }
    assert(accounts@.take(i as int) =~= accounts@);
    amounts
}

/// An account without an amount that counts changes nothing: with it taken
/// out of the list, the same amounts are counted.
pub proof fn lemma_uncounted_account_is_skipped(accounts: Seq<AccountData>, i: int)
    requires
        0 <= i < accounts.len(),
        counted(accounts[i]) is None,
    ensures
        counted_amounts(accounts.remove(i)) == counted_amounts(accounts),
    decreases accounts.len(),
{
    if i == accounts.len() - 1 {
        assert(accounts.remove(i) =~= accounts.drop_last());
    } else {
        let shorter = accounts.remove(i);
        assert(shorter.drop_last() =~= accounts.drop_last().remove(i));
        assert(shorter.last() == accounts.last());
        lemma_uncounted_account_is_skipped(accounts.drop_last(), i);
    }
}

} // verus!
