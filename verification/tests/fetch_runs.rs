use wallet_balances::accounts::AccountData;
use wallet_balances::accounts::UiAmount;
use wallet_balances::address::Address;
use wallet_balances::address::DecodeError;
use wallet_balances::config::TokenConfig;
use wallet_balances::config::TokenInfo;
use wallet_balances::fetch::get_wallet_balances;
use wallet_balances::fetch::BalanceResult;
use wallet_balances::fetch::Pending;
use wallet_balances::ledger::Ledger;

const WALLET_A: &str = "11111111111111111111111111111111";
const WALLET_B: &str = "So11111111111111111111111111111111111111112";
const MINT_X: &str = "TokenkegQfeZyiNwAJbNbGKPFXCWuBvf9Ss623VQ5DA";
const MINT_Y: &str = "SysvarRent111111111111111111111111111111111";

fn amount(value: f64) -> UiAmount {
    UiAmount { bits: value.to_bits() }
}

fn parsed(value: f64) -> AccountData {
    AccountData::TokenAccount { ui_amount: Some(amount(value)) }
}

fn token(address: &str, ticker: &str) -> TokenInfo {
    TokenInfo { address: address.to_string(), ticker: ticker.to_string() }
}

fn config(wallets: &[&str], tokens: Vec<TokenInfo>) -> TokenConfig {
    TokenConfig::new(None, wallets.iter().map(|w| w.to_string()).collect(), tokens)
}

fn address(text: &str) -> Address {
    Address::parse(text).unwrap()
}

fn total(amounts: &[UiAmount]) -> f64 {
    let mut sum = 0.0;
    for a in amounts {
        sum += f64::from_bits(a.bits);
    }
    sum
}

fn expect_balance(pending: Pending, owner: &str, lamports: u64) -> Pending {
    match pending {
        Pending::Balance(query) => {
            assert_eq!(query.owner(), address(owner));
            query.answer(lamports)
        }
        _ => panic!("the run does not wait for a balance"),
    }
}

fn expect_accounts(pending: Pending, owner: &str, mint: &str, accounts: Vec<AccountData>) -> Pending {
    match pending {
        Pending::TokenAccounts(query) => {
            assert_eq!(query.owner(), address(owner));
            assert_eq!(query.mint(), address(mint));
            query.answer(&accounts)
        }
        _ => panic!("the run does not wait for token accounts"),
    }
}

fn expect_done(pending: Pending) -> Ledger<BalanceResult> {
    match pending {
        Pending::Done(results) => results,
        _ => panic!("the run is not done"),
    }
}

#[test]
fn native_balance_is_reported_in_display_units() {
    let run = get_wallet_balances(config(&[WALLET_A], Vec::new()));
    let run = expect_balance(run, WALLET_A, 2_500_000_000);
    let results = expect_done(run);
    assert_eq!(results.len(), 1);
    let result = results.get(&WALLET_A.to_string()).unwrap();
    assert_eq!(result.lamports, 2_500_000_000);
    assert_eq!(result.token_balances.len(), 0);
    assert_eq!(format!("{:.4}", result.lamports as f64 / 1_000_000_000.0), "2.5000");
}

#[test]
fn ticker_without_accounts_reports_zero() {
    let run = get_wallet_balances(config(&[WALLET_A], vec![token(MINT_X, "X")]));
    let run = expect_balance(run, WALLET_A, 1);
    let run = expect_accounts(run, WALLET_A, MINT_X, Vec::new());
    let results = expect_done(run);
    let result = results.get(&WALLET_A.to_string()).unwrap();
    let amounts = result.token_balances.get(&"X".to_string()).unwrap();
    assert!(amounts.is_empty());
    assert_eq!(format!("{:.4}", total(amounts)), "0.0000");
}

#[test]
fn accounts_of_one_mint_are_summed_per_ticker() {
    let run = get_wallet_balances(config(&[WALLET_A], vec![token(MINT_X, "X")]));
    let run = expect_balance(run, WALLET_A, 1);
    let run = expect_accounts(run, WALLET_A, MINT_X, vec![parsed(1.25), parsed(3.75)]);
    let results = expect_done(run);
    let result = results.get(&WALLET_A.to_string()).unwrap();
    let amounts = result.token_balances.get(&"X".to_string()).unwrap();
    assert_eq!(amounts, &vec![amount(1.25), amount(3.75)]);
    assert_eq!(format!("{:.4}", total(amounts)), "5.0000");
}

#[test]
fn unparsed_account_does_not_abort_the_run() {
    let run = get_wallet_balances(config(&[WALLET_A], vec![token(MINT_X, "X")]));
    let run = expect_balance(run, WALLET_A, 1);
    let accounts = vec![AccountData::Binary, parsed(1.25), AccountData::OtherJson, parsed(3.75)];
    let run = expect_accounts(run, WALLET_A, MINT_X, accounts);
    let results = expect_done(run);
    let result = results.get(&WALLET_A.to_string()).unwrap();
    let amounts = result.token_balances.get(&"X".to_string()).unwrap();
    assert_eq!(format!("{:.4}", total(amounts)), "5.0000");
}

#[test]
fn malformed_first_wallet_aborts_before_any_question() {
    let run = get_wallet_balances(config(&["not-a-key", WALLET_A], vec![token(MINT_X, "X")]));
    assert!(matches!(run, Pending::Failed(DecodeError::Invalid)));
}

#[test]
fn malformed_later_wallet_aborts_when_the_run_reaches_it() {
    let run = get_wallet_balances(config(&[WALLET_A, "abc"], vec![token(MINT_X, "X")]));
    let run = expect_balance(run, WALLET_A, 5);
    let run = expect_accounts(run, WALLET_A, MINT_X, vec![parsed(1.0)]);
    assert!(matches!(run, Pending::Failed(DecodeError::WrongSize)));
}

#[test]
fn malformed_mint_aborts_after_the_balance() {
    let run = get_wallet_balances(config(&[WALLET_A], vec![token(MINT_X, "X"), token("O0", "Y")]));
    let run = expect_balance(run, WALLET_A, 5);
    let run = expect_accounts(run, WALLET_A, MINT_X, Vec::new());
    assert!(matches!(run, Pending::Failed(DecodeError::Invalid)));
}

#[test]
fn no_wallets_nothing_reported() {
    let run = get_wallet_balances(config(&[], vec![token("O0", "Y")]));
    let results = expect_done(run);
    assert_eq!(results.len(), 0);
}

#[test]
fn two_wallets_two_tokens_in_order() {
    let tokens = vec![token(MINT_X, "X"), token(MINT_Y, "Y")];
    let run = get_wallet_balances(config(&[WALLET_A, WALLET_B], tokens));
    let run = expect_balance(run, WALLET_A, 1_000_000_000);
    let run = expect_accounts(run, WALLET_A, MINT_X, vec![parsed(1.5)]);
    let run = expect_accounts(run, WALLET_A, MINT_Y, Vec::new());
    let run = expect_balance(run, WALLET_B, 7);
    let run = expect_accounts(run, WALLET_B, MINT_X, vec![parsed(2.0), parsed(0.25)]);
    let run = expect_accounts(run, WALLET_B, MINT_Y, vec![parsed(9.0)]);
    let results = expect_done(run);
    assert_eq!(results.len(), 2);
    let a = results.get(&WALLET_A.to_string()).unwrap();
    assert_eq!(a.lamports, 1_000_000_000);
    assert_eq!(a.token_balances.get(&"X".to_string()), Some(&vec![amount(1.5)]));
    assert_eq!(a.token_balances.get(&"Y".to_string()), Some(&Vec::new()));
    let b = results.get(&WALLET_B.to_string()).unwrap();
    assert_eq!(b.lamports, 7);
    assert_eq!(b.token_balances.get(&"X".to_string()), Some(&vec![amount(2.0), amount(0.25)]));
    assert_eq!(b.token_balances.get(&"Y".to_string()), Some(&vec![amount(9.0)]));
    assert_eq!(results.entry(0).key, WALLET_A);
    assert_eq!(results.entry(1).key, WALLET_B);
}

#[test]
fn equal_tickers_keep_the_later_token() {
    let tokens = vec![token(MINT_X, "T"), token(MINT_Y, "T")];
    let run = get_wallet_balances(config(&[WALLET_A], tokens));
    let run = expect_balance(run, WALLET_A, 0);
    let run = expect_accounts(run, WALLET_A, MINT_X, vec![parsed(1.0)]);
    let run = expect_accounts(run, WALLET_A, MINT_Y, vec![parsed(2.0), parsed(3.0)]);
    let results = expect_done(run);
    let result = results.get(&WALLET_A.to_string()).unwrap();
    assert_eq!(result.token_balances.len(), 1);
    assert_eq!(
        result.token_balances.get(&"T".to_string()),
        Some(&vec![amount(2.0), amount(3.0)])
    );
}

#[test]
fn equal_wallets_keep_the_later_result() {
    let run = get_wallet_balances(config(&[WALLET_A, WALLET_A], Vec::new()));
    let run = expect_balance(run, WALLET_A, 1);
    let run = expect_balance(run, WALLET_A, 2);
    let results = expect_done(run);
    assert_eq!(results.len(), 1);
    assert_eq!(results.get(&WALLET_A.to_string()).unwrap().lamports, 2);
}
