//! The run over the wallets: which question is put to the node next, and what
//! is made of each answer. The caller does the asking; the decisions are here.

use crate::accounts::amounts_of;
use crate::accounts::counted_amounts;
use crate::accounts::AccountData;
use crate::accounts::UiAmount;
use crate::address::decoded_pubkey;
use crate::address::Address;
use crate::address::DecodeError;
use crate::config::TokenConfig;
use crate::ledger::Ledger;
use vstd::prelude::*;

verus! {

/// What is reported of one wallet: its native balance in lamports, and for
/// each ticker the amounts of the token accounts that count, in the order in
/// which the node returned them.
#[derive(Debug)]
pub struct BalanceResult {
    pub lamports: u64,
    pub token_balances: Ledger<Vec<UiAmount>>,
}

/// A `BalanceResult` as plain mathematics.
pub ghost struct BalanceView {
    pub lamports: u64,
    pub token_balances: Map<Seq<char>, Seq<UiAmount>>,
}

impl View for BalanceResult {
    type V = BalanceView;

    open spec fn view(&self) -> BalanceView {
        BalanceView { lamports: self.lamports, token_balances: self.token_balances@ }
    }
}

/// The balances of the wallets done so far, by wallet text.
pub type Balances = Map<Seq<char>, BalanceView>;

/// A run that waits for the native balance of a wallet.
pub struct BalanceQuery {
    config: TokenConfig,
    wallet: usize,
    owner: Address,
    results: Ledger<BalanceResult>,
}

/// A run that waits for the token accounts of a wallet for one mint.
pub struct AccountsQuery {
    config: TokenConfig,
    wallet: usize,
    owner: Address,
    lamports: u64,
    token: usize,
    mint: Address,
    balances: Ledger<Vec<UiAmount>>,
    results: Ledger<BalanceResult>,
}

/// Where a run stands: at a question for the node, at its end, or aborted.
pub enum Pending {
    /// The native balance of the query's owner is wanted.
    Balance(BalanceQuery),
    /// The token accounts of the query's owner for the query's mint are wanted.
    TokenAccounts(AccountsQuery),
    /// Every wallet is done.
    Done(Ledger<BalanceResult>),
    /// An address did not decode; nothing is reported.
    Failed(DecodeError),
}

impl BalanceQuery {
    #[verifier::type_invariant]
    spec fn well_formed(self) -> bool {
        &&& self.wallet < self.config.wallets.len()
        &&& decoded_pubkey(self.config.wallets[self.wallet as int]@) == Ok::<Seq<u8>, DecodeError>(
            self.owner.bytes@,
        )
    }

    /// The configuration of the run.
    pub closed spec fn spec_config(self) -> TokenConfig {
        self.config
    }

    /// The position of the wallet in the configuration.
    pub closed spec fn spec_wallet(self) -> int {
        self.wallet as int
    }

    /// The wallet's address.
    pub closed spec fn spec_owner(self) -> Address {
        self.owner
    }

    /// The balances of the wallets before this one.
    pub closed spec fn spec_results(self) -> Balances {
        self.results@
    }

    /// The address whose balance is wanted: the one that the wallet's text
    /// decodes to.
    pub fn owner(&self) -> (owner: Address)
        ensures
            owner == self.spec_owner(),
            0 <= self.spec_wallet() < self.spec_config().wallets.len(),
            decoded_pubkey(self.spec_config().wallets[self.spec_wallet()]@) == Ok::<
                Seq<u8>,
                DecodeError,
            >(owner.bytes@),
    {
        proof {
            use_type_invariant(self);
        }
        self.owner
    }

    /// The run after the node gave `lamports` as the wallet's balance: at the
    /// wallet's first token, with no ticker reported yet.
    pub fn answer(self, lamports: u64) -> (next: Pending)
        ensures
            next.at_token(
                self.spec_config(),
                self.spec_wallet(),
                self.spec_owner(),
                lamports,
                0,
                Map::<Seq<char>, Seq<UiAmount>>::empty(),
                self.spec_results(),
            ),
    {
        proof {
            use_type_invariant(&self);
        }
        let BalanceQuery { config, wallet, owner, results } = self;
        enter_token(config, wallet, owner, lamports, 0, Ledger::new(), results)
    }
}

impl AccountsQuery {
    #[verifier::type_invariant]
    spec fn well_formed(self) -> bool {
        &&& self.wallet < self.config.wallets.len()
        &&& self.token < self.config.tokens.len()
        &&& decoded_pubkey(self.config.wallets[self.wallet as int]@) == Ok::<Seq<u8>, DecodeError>(
            self.owner.bytes@,
        )
        &&& decoded_pubkey(self.config.tokens[self.token as int].address@) == Ok::<
            Seq<u8>,
            DecodeError,
        >(self.mint.bytes@)
    }

    /// The configuration of the run.
    pub closed spec fn spec_config(self) -> TokenConfig {
        self.config
    }

    /// The position of the wallet in the configuration.
    pub closed spec fn spec_wallet(self) -> int {
        self.wallet as int
    }

    /// The wallet's address.
    pub closed spec fn spec_owner(self) -> Address {
        self.owner
    }

    /// The wallet's native balance.
    pub closed spec fn spec_lamports(self) -> u64 {
        self.lamports
    }

    /// The position of the token in the configuration.
    pub closed spec fn spec_token(self) -> int {
        self.token as int
    }

    /// The address of the token's mint.
    pub closed spec fn spec_mint(self) -> Address {
        self.mint
    }

    /// What the wallet's tokens before this one gave, by ticker.
    pub closed spec fn spec_balances(self) -> Map<Seq<char>, Seq<UiAmount>> {
        self.balances@
    }

    /// The balances of the wallets before this one.
    pub closed spec fn spec_results(self) -> Balances {
        self.results@
    }

    /// The address whose token accounts are wanted: the one that the wallet's
    /// text decodes to.
    pub fn owner(&self) -> (owner: Address)
        ensures
            owner == self.spec_owner(),
            0 <= self.spec_wallet() < self.spec_config().wallets.len(),
            decoded_pubkey(self.spec_config().wallets[self.spec_wallet()]@) == Ok::<
                Seq<u8>,
                DecodeError,
            >(owner.bytes@),
    {
        proof {
            use_type_invariant(self);
        }
        self.owner
    }

    /// The mint by which the accounts are filtered: the one that the token's
    /// address decodes to.
    pub fn mint(&self) -> (mint: Address)
        ensures
            mint == self.spec_mint(),
            0 <= self.spec_token() < self.spec_config().tokens.len(),
            decoded_pubkey(self.spec_config().tokens[self.spec_token()].address@) == Ok::<
                Seq<u8>,
                DecodeError,
            >(mint.bytes@),
    {
        proof {
            use_type_invariant(self);
        }
        self.mint
    }

    /// The run after the node returned `accounts`: the token's ticker now has
    /// the amounts of the accounts that count, in place of what an equal
    /// ticker had before, and the run is at the wallet's next token. No
    /// account makes the run fail.
    pub fn answer(self, accounts: &Vec<AccountData>) -> (next: Pending)
        ensures
            0 <= self.spec_token() < self.spec_config().tokens.len(),
            next.at_token(
                self.spec_config(),
                self.spec_wallet(),
                self.spec_owner(),
                self.spec_lamports(),
                self.spec_token() + 1,
                self.spec_balances().insert(
                    self.spec_config().tokens[self.spec_token()].ticker@,
                    counted_amounts(accounts@),
                ),
                self.spec_results(),
            ),
    {
        proof {
            use_type_invariant(&self);
        }
        let AccountsQuery { config, wallet, owner, lamports, token, mint, balances, results } = self;
        let mut balances = balances;
        let amounts = amounts_of(accounts);
        balances.insert(config.tokens[token].ticker.clone(), amounts);
        enter_token(config, wallet, owner, lamports, token + 1, balances, results)
    }
}

impl Pending {
    /// `self` is where a run over `config` stands once the wallets before
    /// position `wallet` are done and have given `results`: at its end where
    /// no wallet is left, aborted where the wallet's text is no address, else
    /// at the question for the wallet's native balance.
    pub open spec fn at_wallet(self, config: TokenConfig, wallet: int, results: Balances) -> bool {
        if wallet >= config.wallets.len() {
            match self {
                Pending::Done(balances) => balances@ == results,
                _ => false,
            }
        } else {
            match decoded_pubkey(config.wallets[wallet]@) {
                Err(error) => match self {
                    Pending::Failed(e) => e == error,
                    _ => false,
                },
                Ok(bytes) => match self {
                    Pending::Balance(query) => {
                        &&& query.spec_config() == config
                        &&& query.spec_wallet() == wallet
                        &&& query.spec_owner().bytes@ == bytes
                        &&& query.spec_results() == results
                    },
                    _ => false,
                },
            }
        }
    }

    /// `self` is where a run over `config` stands once the wallet at position
    /// `wallet` has its native balance and its tokens before position `token`
    /// have given `balances`. Where no token is left, the wallet's text gets
    /// its result, in place of what an equal text had before, and the run is
    /// at the next wallet. Where the token's address is no address, the run is
    /// aborted. Else it is at the question for the token's accounts.
    pub open spec fn at_token(
        self,
        config: TokenConfig,
        wallet: int,
        owner: Address,
        lamports: u64,
        token: int,
        balances: Map<Seq<char>, Seq<UiAmount>>,
        results: Balances,
    ) -> bool {
        if token >= config.tokens.len() {
            self.at_wallet(
                config,
                wallet + 1,
                results.insert(
                    config.wallets[wallet]@,
                    BalanceView { lamports, token_balances: balances },
                ),
            )
        } else {
            match decoded_pubkey(config.tokens[token].address@) {
                Err(error) => match self {
                    Pending::Failed(e) => e == error,
                    _ => false,
                },
                Ok(bytes) => match self {
                    Pending::TokenAccounts(query) => {
                        &&& query.spec_config() == config
                        &&& query.spec_wallet() == wallet
                        &&& query.spec_owner() == owner
                        &&& query.spec_lamports() == lamports
                        &&& query.spec_token() == token
                        &&& query.spec_mint().bytes@ == bytes
                        &&& query.spec_balances() == balances
                        &&& query.spec_results() == results
                    },
                    _ => false,
                },
            }
        }
    }
}

/// The run at the wallet at position `wallet`.
fn enter_wallet(config: TokenConfig, wallet: usize, results: Ledger<BalanceResult>) -> (next:
    Pending)
    requires
        wallet <= config.wallets.len(),
    ensures
        next.at_wallet(config, wallet as int, results@),
{
    if wallet >= config.wallets.len() {
        return Pending::Done(results);
    }
    match Address::parse(config.wallets[wallet].as_str()) {
        Ok(owner) => Pending::Balance(BalanceQuery { config, wallet, owner, results }),
        Err(error) => Pending::Failed(error),
    }
}

/// The run at the token at position `token` of the wallet at position
/// `wallet`.
fn enter_token(
    config: TokenConfig,
    wallet: usize,
    owner: Address,
    lamports: u64,
    token: usize,
    balances: Ledger<Vec<UiAmount>>,
    results: Ledger<BalanceResult>,
) -> (next: Pending)
    requires
        wallet < config.wallets.len(),
        token <= config.tokens.len(),
        decoded_pubkey(config.wallets[wallet as int]@) == Ok::<Seq<u8>, DecodeError>(owner.bytes@),
    ensures
        next.at_token(config, wallet as int, owner, lamports, token as int, balances@, results@),
{
    if token >= config.tokens.len() {
        let mut results = results;
        results.insert(
            config.wallets[wallet].clone(),
            BalanceResult { lamports, token_balances: balances },
        );
        return enter_wallet(config, wallet + 1, results);
    }
    match Address::parse(config.tokens[token].address.as_str()) {
        Ok(mint) => Pending::TokenAccounts(
            AccountsQuery { config, wallet, owner, lamports, token, mint, balances, results },
        ),
        Err(error) => Pending::Failed(error),
    }
}

/// The start of a run over `config`: at its first wallet, with nothing
/// reported yet.
pub fn get_wallet_balances(config: TokenConfig) -> (next: Pending)
    ensures
        next.at_wallet(config, 0, Map::<Seq<char>, BalanceView>::empty()),
{
    enter_wallet(config, 0, Ledger::new())
}

/// A wallet whose text is no address aborts the run with the decoding's error
/// as soon as the run reaches it: no question about it is put to the node.
/// Any other wallet is asked about under the address that its text decodes to.
pub proof fn lemma_malformed_wallet_aborts(
    next: Pending,
    config: TokenConfig,
    wallet: int,
    results: Balances,
)
    requires
        0 <= wallet < config.wallets.len(),
        next.at_wallet(config, wallet, results),
    ensures
        match decoded_pubkey(config.wallets[wallet]@) {
            Err(error) => next == Pending::Failed(error),
            Ok(bytes) => next matches Pending::Balance(query) && query.spec_owner().bytes@ == bytes,
        },
{
}

/// A token whose address is no address aborts the run with the decoding's
/// error as soon as the run reaches it, whatever the wallet has given so far:
/// no question about the token is put to the node. Any other token is asked
/// about under the mint that its address decodes to.
pub proof fn lemma_malformed_mint_aborts(
    next: Pending,
    config: TokenConfig,
    wallet: int,
    owner: Address,
    lamports: u64,
    token: int,
    balances: Map<Seq<char>, Seq<UiAmount>>,
    results: Balances,
)
    requires
        0 <= token < config.tokens.len(),
        next.at_token(config, wallet, owner, lamports, token, balances, results),
    ensures
        match decoded_pubkey(config.tokens[token].address@) {
            Err(error) => next == Pending::Failed(error),
            Ok(bytes) => next matches Pending::TokenAccounts(query) && query.spec_owner() == owner
                && query.spec_mint().bytes@ == bytes,
        },
{
}

} // verus!
