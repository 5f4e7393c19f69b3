//! The report as lines of text. Decimal numbers come in already written out:
//! the layout is decided here, the digits are not.

use vstd::prelude::*;
use vstd::string::*;

verus! {

/// One ticker of a wallet with its balance in decimal digits.
#[derive(Debug, Clone)]
pub struct TickerLine {
    pub ticker: String,
    pub amount: String,
}

/// One wallet with its native balance in decimal digits, and its tickers.
#[derive(Debug, Clone)]
pub struct WalletSection {
    pub wallet: String,
    pub sol_balance: String,
    pub tokens: Vec<TickerLine>,
}

/// The line of one ticker: indented by two spaces, the ticker, a colon and
/// the amount.
pub open spec fn ticker_text(line: TickerLine) -> Seq<char> {
    "  "@ + line.ticker@ + ": "@ + line.amount@
}

/// The three lines that open a wallet's section.
pub open spec fn section_head(section: WalletSection) -> Seq<Seq<char>> {
    seq![
        "Wallet: "@ + section.wallet@,
        "SOL Balance: "@ + section.sol_balance@ + " SOL"@,
        "Token Balances:"@,
    ]
}

/// The lines of one wallet: its head, a line for each ticker, and an empty
/// line.
pub open spec fn section_text(section: WalletSection) -> Seq<Seq<char>> {
    section_head(section) + section.tokens@.map_values(|line: TickerLine| ticker_text(line))
        + seq![Seq::<char>::empty()]
}

/// The lines of a report: the title, then the sections in their order.
pub open spec fn report_text(sections: Seq<WalletSection>) -> Seq<Seq<char>>
    decreases sections.len(),
{
    if sections.len() == 0 {
        seq!["Detailed Wallet Balances:"@]
    } else {
        report_text(sections.drop_last()) + section_text(sections.last())
    }
}

/// The texts of a list of strings.
pub open spec fn texts(lines: Seq<String>) -> Seq<Seq<char>> {
    lines.map_values(|line: String| line@)
}

/// Adds the lines of one wallet to `lines`.
fn push_section(lines: &mut Vec<String>, section: &WalletSection)
    ensures
        texts(final(lines)@) == texts(old(lines)@) + section_text(*section),
{
    let ghost before = texts(lines@);
    let mut wallet = "Wallet: ".to_string();
    wallet.append(section.wallet.as_str());
    lines.push(wallet);
    let mut sol = "SOL Balance: ".to_string();
    sol.append(section.sol_balance.as_str());
    sol.append(" SOL");
    lines.push(sol);
    lines.push("Token Balances:".to_string());
    assert(texts(lines@) =~= before + section_head(*section));
    let ghost tickers = section.tokens@.map_values(|line: TickerLine| ticker_text(line));
    let mut i: usize = 0;
    while i < section.tokens.len()
        invariant
            i <= section.tokens.len(),
            tickers == section.tokens@.map_values(|line: TickerLine| ticker_text(line)),
            texts(lines@) == before + section_head(*section) + tickers.take(i as int),
        decreases section.tokens.len() - i,
    {
        let token = &section.tokens[i];
        let mut line = "  ".to_string();
        line.append(token.ticker.as_str());
        line.append(": ");
        line.append(token.amount.as_str());
        let ghost shorter = lines@;
        lines.push(line);
        assert(tickers.take(i + 1) =~= tickers.take(i as int).push(ticker_text(*token)));
        assert(texts(lines@) =~= texts(shorter).push(ticker_text(*token)));
        assert(texts(lines@) =~= before + section_head(*section) + tickers.take(i + 1));
        i += 1;
    }
    assert(tickers.take(i as int) =~= tickers);
    let ghost shorter = lines@;
    lines.push(String::new());
    assert(texts(lines@) =~= texts(shorter).push(Seq::<char>::empty()));
    assert(texts(lines@) =~= before + section_text(*section));
}

/// The report on the given wallets, line by line.
pub fn report_lines(sections: &Vec<WalletSection>) -> (lines: Vec<String>)
    ensures
        texts(lines@) == report_text(sections@),
{
    let mut lines: Vec<String> = Vec::new();
    lines.push("Detailed Wallet Balances:".to_string());
    assert(texts(lines@) =~= report_text(sections@.take(0)));
    let mut i: usize = 0;
    while i < sections.len()
        invariant
            i <= sections.len(),
            texts(lines@) == report_text(sections@.take(i as int)),
        decreases sections.len() - i,
    {
        push_section(&mut lines, &sections[i]);
        assert(sections@.take(i + 1).drop_last() =~= sections@.take(i as int));
        assert(sections@.take(i + 1).last() == sections@[i as int]);
        i += 1;
    }
    assert(sections@.take(i as int) =~= sections@);
    lines
}

} // verus!
