//! The configuration of a run: the node to ask, the wallets and the tokens.

use vstd::prelude::*;
use vstd::string::*;

verus! {

/// A token to report: the address of its mint and the label it is shown under.
#[derive(Debug, Clone)]
pub struct TokenInfo {
    pub address: String,
    pub ticker: String,
}

/// What a run works on. Nothing requires the wallets or the tickers to be
/// distinct.
#[derive(Debug, Clone)]
pub struct TokenConfig {
    pub solana_rpc_url: String,
    pub wallets: Vec<String>,
    pub tokens: Vec<TokenInfo>,
}

/// The endpoint that is asked where the configuration names none, as text.
pub open spec fn default_rpc_url_text() -> Seq<char> {
    "https://api.mainnet-beta.solana.com"@
}

/// The public mainnet endpoint.
pub fn default_rpc_url() -> (url: String)
    ensures
        url@ == default_rpc_url_text(),
{
    "https://api.mainnet-beta.solana.com".to_string()
}

impl TokenConfig {
    /// A configuration from its three fields, the endpoint defaulted where it
    /// is absent.
    pub fn new(solana_rpc_url: Option<String>, wallets: Vec<String>, tokens: Vec<TokenInfo>) -> (config:
        TokenConfig)
        ensures
            config.solana_rpc_url@ == match solana_rpc_url {
                Some(url) => url@,
                None => default_rpc_url_text(),
            },
            config.wallets == wallets,
            config.tokens == tokens,
    {
        let url = match solana_rpc_url {
            Some(url) => url,
            None => default_rpc_url(),
        };
        TokenConfig { solana_rpc_url: url, wallets, tokens }
    }
}

} // verus!
