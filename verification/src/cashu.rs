//! Cashu mints: what a mint can do for us, quotes, tokens, and what a person is told.

use vstd::prelude::*;
use vstd::string::StringExecFns;
use vstd::utf8::encode_utf8;

use crate::bolt11::{bolt11_looks, looks_like_bolt11};
use crate::chain_select::{given, given_text};
use crate::error::{cashu_error, WalletError};
use crate::funding::text_view;
use crate::json::{
    json_parsed, json_quoted, json_view, lemma_field_smaller, opt_json, parse_json, quote_json, Json,
    JsonValue,
};
use crate::secret::{expose_text, hide_text, secret_text, SecretText};
use crate::text::{
    byte_len, chars_of, contains, debug_quoted, debug_text, decimal, decimal_text, has_part,
    has_prefix, is_space, lemma_decimal_round_trip, lemma_trimmed, lemma_trimmed_again,
    lemma_trimmed_is_inside, lower, lowered, same, signed_decimal, signed_decimal_text, skip,
    stands_at, starts_with, take, texts, trim, trimmed, upper, uppered,
};

verus! {

/// What a Cashu backend can do.
#[derive(Clone, Copy, PartialEq, Eq, Structural, Debug)]
pub struct CashuCapabilities {
    /// Request a mint quote with an invoice.
    pub mint_live: bool,
    /// Turn a paid quote into a token.
    pub proofs_mint_live: bool,
    /// Spend tokens.
    pub spend_live: bool,
    /// Pay tokens back.
    pub refund_live: bool,
}

/// Nothing.
pub open spec fn no_capabilities() -> CashuCapabilities {
    CashuCapabilities {
        mint_live: false,
        proofs_mint_live: false,
        spend_live: false,
        refund_live: false,
    }
}

/// Nothing.
pub fn stub_cashu_capabilities() -> (caps: CashuCapabilities)
    ensures
        caps == no_capabilities(),
{
    CashuCapabilities {
        mint_live: false,
        proofs_mint_live: false,
        spend_live: false,
        refund_live: false,
    }
}

/// Way from a mint to credit.
#[derive(Clone, Copy, PartialEq, Eq, Structural, Debug)]
pub enum CashuMintProductPath {
    /// Quote, payment, token, redemption.
    LiveProofs,
    /// A quote, but no token behind it.
    QuoteOnly,
    /// No mint: an invoice of the node instead.
    Residual,
}

/// The way that capabilities leave open.
pub open spec fn mint_path(caps: CashuCapabilities) -> CashuMintProductPath {
    if caps.proofs_mint_live {
        CashuMintProductPath::LiveProofs
    } else if caps.mint_live {
        CashuMintProductPath::QuoteOnly
    } else {
        CashuMintProductPath::Residual
    }
}

/// Tokens are promised exactly where the backend makes them, and a quote at most where it has
/// quotes alone. A backend that can do nothing promises nothing.
pub proof fn lemma_mint_path(caps: CashuCapabilities)
    ensures
        mint_path(caps) is LiveProofs <==> caps.proofs_mint_live,
        mint_path(caps) is QuoteOnly <==> caps.mint_live && !caps.proofs_mint_live,
        mint_path(no_capabilities()) is Residual,
        no_capabilities() == (CashuCapabilities {
            mint_live: false,
            proofs_mint_live: false,
            spend_live: false,
            refund_live: false,
        }),
{
}

/// The way that capabilities leave open.
pub fn decide_cashu_mint_product_path(caps: CashuCapabilities) -> (path: CashuMintProductPath)
    ensures
        path == mint_path(caps),
{
    if caps.proofs_mint_live {
        CashuMintProductPath::LiveProofs
    } else if caps.mint_live {
        CashuMintProductPath::QuoteOnly
    } else {
        CashuMintProductPath::Residual
    }
}

/// Way from a token to an invoice.
#[derive(Clone, Copy, PartialEq, Eq, Structural, Debug)]
pub enum CashuMeltProductPath {
    /// The token pays the invoice.
    LiveMelt,
    /// The node pays its float back instead.
    Residual,
}

/// Whether tokens can be paid out: spending or paying back is enough.
pub fn decide_cashu_melt_product_path(caps: CashuCapabilities) -> (path: CashuMeltProductPath)
    ensures
        path == if caps.spend_live || caps.refund_live {
            CashuMeltProductPath::LiveMelt
        } else {
            CashuMeltProductPath::Residual
        },
        path is LiveMelt <==> caps.spend_live || caps.refund_live,
{
    if caps.spend_live || caps.refund_live {
        CashuMeltProductPath::LiveMelt
    } else {
        CashuMeltProductPath::Residual
    }
}

/// A line with a number, where there is a number.
pub open spec fn number_line(before: Seq<char>, n: Option<u64>, after: Seq<char>) -> Seq<
    Seq<char>,
> {
    match n {
        Some(n) => seq![before + decimal(n as nat) + after],
        None => Seq::empty(),
    }
}

/// Adds a line.
fn add_line(list: &mut Vec<String>, line: &str)
    ensures
        texts(final(list)@) == texts(old(list)@).push(line@),
{
    list.push(line.to_owned());
    assert(texts(list@) =~= texts(old(list)@).push(line@));
}

/// Adds a line with a number, where there is a number.
fn add_number(list: &mut Vec<String>, before: &str, n: Option<u64>, after: &str)
    ensures
        texts(final(list)@) == texts(old(list)@) + number_line(before@, n, after@),
{
    if let Some(n) = n {
        let mut line = before.to_owned();
        line.append(decimal_text(n).as_str());
        line.append(after);
        list.push(line);
    }
    assert(texts(list@) =~= texts(old(list)@) + number_line(before@, n, after@));
}

/// Adds a line of two parts.
fn add_pair(list: &mut Vec<String>, before: &str, after: &str)
    ensures
        texts(final(list)@) == texts(old(list)@).push(before@ + after@),
{
    let mut line = before.to_owned();
    line.append(after);
    list.push(line);
    assert(texts(list@) =~= texts(old(list)@).push(before@ + after@));
}

/// What is said first where a mint does not lead to credit.
pub open spec fn mint_residual_reason(path: CashuMintProductPath) -> Seq<Seq<char>> {
    match path {
        CashuMintProductPath::Residual => seq![
            "Cashu mint path is not live on this build (need feature `cashu-cdk` + GROK_BITCOIN_CASHU_MINT_URL + resolvable grok-bitcoin-cdk-mint helper)."@,
        ],
        CashuMintProductPath::QuoteOnly => seq![
            "Cashu mint quote is available, but proofs mint is not live (build/install grok-bitcoin-cdk-mint and set GROK_BITCOIN_CDK_MINT_BIN)."@,
            "Without the helper, a paid mint quote does not yield a cashuA\u{2026} token here."@,
        ],
        CashuMintProductPath::LiveProofs => seq![
            "Cashu proofs mint reported live but product fell through (see detail above)."@,
        ],
    }
}

/// What is said where a mint does not lead to credit.
pub open spec fn mint_residual_text(sats: Option<u64>, path: CashuMintProductPath) -> Seq<
    Seq<char>,
> {
    mint_residual_reason(path) + number_line("Requested amount: "@, sats, " sats."@) + seq![
        "Falling through to P0 Routstr invoice-first funding for prepaid float."@,
        "Use `grok routstr topup` (or /routstr topup) for a Routstr node BOLT11."@,
        "When you already have a cashuA\u{2026} token, redeem with `grok routstr redeem` (float only after redeem succeeds)."@,
    ]
}

/// What is said where a mint does not lead to credit.
pub fn cashu_mint_residual_lines(sats: Option<u64>, path: CashuMintProductPath) -> (list: Vec<
    String,
>)
    ensures
        texts(list@) == mint_residual_text(sats, path),
{
    let mut list: Vec<String> = Vec::new();
    match path {
        CashuMintProductPath::Residual => {
            add_line(
                &mut list,
                "Cashu mint path is not live on this build (need feature `cashu-cdk` + GROK_BITCOIN_CASHU_MINT_URL + resolvable grok-bitcoin-cdk-mint helper).",
            );
        },
        CashuMintProductPath::QuoteOnly => {
            add_line(
                &mut list,
                "Cashu mint quote is available, but proofs mint is not live (build/install grok-bitcoin-cdk-mint and set GROK_BITCOIN_CDK_MINT_BIN).",
            );
            add_line(
                &mut list,
                "Without the helper, a paid mint quote does not yield a cashuA\u{2026} token here.",
            );
        },
        CashuMintProductPath::LiveProofs => {
            add_line(
                &mut list,
                "Cashu proofs mint reported live but product fell through (see detail above).",
            );
        },
    }
    assert(texts(list@) =~= mint_residual_reason(path));
    add_number(&mut list, "Requested amount: ", sats, " sats.");
    add_line(&mut list, "Falling through to P0 Routstr invoice-first funding for prepaid float.");
    add_line(&mut list, "Use `grok routstr topup` (or /routstr topup) for a Routstr node BOLT11.");
    add_line(
        &mut list,
        "When you already have a cashuA\u{2026} token, redeem with `grok routstr redeem` (float only after redeem succeeds).",
    );
    list
}

/// What is said of a mint quote.
pub open spec fn quote_text(bolt11: Seq<char>, quote_id: Seq<char>, amount: Option<u64>) -> Seq<
    Seq<char>,
> {
    seq!["Cashu mint quote invoice (NUT-04) \u{2014} pays the mint only, not Routstr float."@]
        + number_line("Amount: "@, amount, " sats."@) + seq![
        "Quote id: "@ + quote_id,
        "BOLT11: "@ + bolt11,
        "Pay this BOLT11 with any Lightning wallet (or local LDK pay when live)."@,
        "After pay: complete proofs mint (CLI: `grok routstr mint --complete <quote_id>`; TUI: re-run /routstr unlock) to obtain a cashuA\u{2026} token."@,
        "Token \u{2260} Routstr float until `grok routstr redeem` (or auto-redeem) succeeds."@,
    ]
}

/// What is said of a mint quote.
pub fn cashu_mint_quote_display_lines(
    bolt11: &str,
    quote_id: &str,
    amount_sats: Option<u64>,
) -> (list: Vec<String>)
    ensures
        texts(list@) == quote_text(bolt11@, quote_id@, amount_sats),
{
    let mut list: Vec<String> = Vec::new();
    add_line(
        &mut list,
        "Cashu mint quote invoice (NUT-04) \u{2014} pays the mint only, not Routstr float.",
    );
    add_number(&mut list, "Amount: ", amount_sats, " sats.");
    add_pair(&mut list, "Quote id: ", quote_id);
    add_pair(&mut list, "BOLT11: ", bolt11);
    add_line(&mut list, "Pay this BOLT11 with any Lightning wallet (or local LDK pay when live).");
    add_line(
        &mut list,
        "After pay: complete proofs mint (CLI: `grok routstr mint --complete <quote_id>`; TUI: re-run /routstr unlock) to obtain a cashuA\u{2026} token.",
    );
    add_line(
        &mut list,
        "Token \u{2260} Routstr float until `grok routstr redeem` (or auto-redeem) succeeds.",
    );
    list
}

/// What is said of a token that was minted.
pub open spec fn token_text(amount: u64, quote_id: Seq<char>, redacted: Seq<char>) -> Seq<
    Seq<char>,
> {
    seq![
        "Cashu proofs mint produced a redeemable token (not Routstr float yet)."@,
        "Quote id: "@ + quote_id,
    ] + number_line("Amount: "@, Some(amount), " sats."@) + seq![
        "Token (redacted): "@ + redacted,
        "Redeem via Routstr balance/create|topup to credit prepaid float."@,
    ]
}

/// What is said of a token that was minted.
pub fn cashu_mint_token_obtained_lines(
    amount_sats: u64,
    quote_id: &str,
    redacted: &str,
) -> (list: Vec<String>)
    ensures
        texts(list@) == token_text(amount_sats, quote_id@, redacted@),
{
    let mut list: Vec<String> = Vec::new();
    add_line(&mut list, "Cashu proofs mint produced a redeemable token (not Routstr float yet).");
    add_pair(&mut list, "Quote id: ", quote_id);
    add_number(&mut list, "Amount: ", Some(amount_sats), " sats.");
    add_pair(&mut list, "Token (redacted): ", redacted);
    add_line(&mut list, "Redeem via Routstr balance/create|topup to credit prepaid float.");
    list
}

/// What is said once a token was redeemed.
pub open spec fn credited_text(amount: Option<u64>) -> Seq<Seq<char>> {
    seq!["Routstr prepaid float credited after Cashu redeem succeeded."@] + number_line(
        "Minted amount (mint side): "@,
        amount,
        " sats."@,
    ) + seq![
        "Select Routstr Grok 4.5 in the model picker when ready (model is never auto-switched)."@,
        "Run `grok routstr balance` (or /routstr balance) to confirm float."@,
    ]
}

/// What is said once a token was redeemed.
pub fn cashu_mint_float_credited_lines(amount_sats: Option<u64>) -> (list: Vec<String>)
    ensures
        texts(list@) == credited_text(amount_sats),
{
    let mut list: Vec<String> = Vec::new();
    add_line(&mut list, "Routstr prepaid float credited after Cashu redeem succeeded.");
    add_number(&mut list, "Minted amount (mint side): ", amount_sats, " sats.");
    add_line(
        &mut list,
        "Select Routstr Grok 4.5 in the model picker when ready (model is never auto-switched).",
    );
    add_line(&mut list, "Run `grok routstr balance` (or /routstr balance) to confirm float.");
    list
}

/// What is said of a quote, of a token or of a credit names the invoice, the quote and the amount,
/// each on a line of its own. No amount is made up.
pub proof fn lemma_text_names_what_counts(
    bolt11: Seq<char>,
    quote_id: Seq<char>,
    amount: u64,
    redacted: Seq<char>,
    path: CashuMintProductPath,
)
    ensures
        quote_text(bolt11, quote_id, Some(amount)).contains(
            "Amount: "@ + decimal(amount as nat) + " sats."@,
        ),
        quote_text(bolt11, quote_id, Some(amount)).contains("Quote id: "@ + quote_id),
        quote_text(bolt11, quote_id, Some(amount)).contains("BOLT11: "@ + bolt11),
        quote_text(bolt11, quote_id, None).contains("Quote id: "@ + quote_id),
        quote_text(bolt11, quote_id, None).contains("BOLT11: "@ + bolt11),
        quote_text(bolt11, quote_id, None).len() + 1 == quote_text(
            bolt11,
            quote_id,
            Some(amount),
        ).len(),
        token_text(amount, quote_id, redacted).contains(
            "Amount: "@ + decimal(amount as nat) + " sats."@,
        ),
        token_text(amount, quote_id, redacted).contains("Quote id: "@ + quote_id),
        token_text(amount, quote_id, redacted).contains("Token (redacted): "@ + redacted),
        credited_text(Some(amount)).contains(
            "Minted amount (mint side): "@ + decimal(amount as nat) + " sats."@,
        ),
        credited_text(None).len() + 1 == credited_text(Some(amount)).len(),
        mint_residual_text(Some(amount), path).contains(
            "Requested amount: "@ + decimal(amount as nat) + " sats."@,
        ),
        mint_residual_text(None, path).len() + 1 == mint_residual_text(Some(amount), path).len(),
{
    let some = quote_text(bolt11, quote_id, Some(amount));
    let none = quote_text(bolt11, quote_id, None);
    assert(some[1] == "Amount: "@ + decimal(amount as nat) + " sats."@);
    assert(some[2] == "Quote id: "@ + quote_id);
    assert(some[3] == "BOLT11: "@ + bolt11);
    assert(none[1] == "Quote id: "@ + quote_id);
    assert(none[2] == "BOLT11: "@ + bolt11);
    let token = token_text(amount, quote_id, redacted);
    assert(token[1] == "Quote id: "@ + quote_id);
    assert(token[2] == "Amount: "@ + decimal(amount as nat) + " sats."@);
    assert(token[3] == "Token (redacted): "@ + redacted);
    assert(credited_text(Some(amount))[1] == "Minted amount (mint side): "@ + decimal(
        amount as nat,
    ) + " sats."@);
    let reason = mint_residual_reason(path);
    assert(mint_residual_text(Some(amount), path)[reason.len() as int] == "Requested amount: "@
        + decimal(amount as nat) + " sats."@);
}

/// What is said where tokens cannot be paid out.
pub open spec fn melt_residual_text() -> Seq<Seq<char>> {
    seq![
        "Local Cashu melt (token \u{2192} BOLT11) is not live on this build (need feature `cashu-cdk` + GROK_BITCOIN_CASHU_MINT_URL + resolvable grok-bitcoin-cdk-mint helper)."@,
        "Falling through to residual / node refund path."@,
        "Prefer spending / melting cashuA\u{2026} you already hold over leaving large hot sk- float on the node."@,
        "For Routstr prepaid float (sk-): `grok routstr refund` (POST /v1/balance/refund) returns a Cashu token once when the node succeeds."@,
        "When melt is live: `grok routstr refund --token <cashuA\u{2026}> --invoice <BOLT11>` (or TUI `/routstr refund token=\u{2026} invoice=\u{2026}`) melts via SeedVault \u{2014} never credits sk- float."@,
        "Run `grok routstr balance` (or /routstr balance) to check remaining float."@,
    ]
}

/// What is said where tokens cannot be paid out.
pub fn cashu_melt_residual_lines() -> (list: Vec<String>)
    ensures
        texts(list@) == melt_residual_text(),
{
    let mut list: Vec<String> = Vec::new();
    add_line(
        &mut list,
        "Local Cashu melt (token \u{2192} BOLT11) is not live on this build (need feature `cashu-cdk` + GROK_BITCOIN_CASHU_MINT_URL + resolvable grok-bitcoin-cdk-mint helper).",
    );
    add_line(&mut list, "Falling through to residual / node refund path.");
    add_line(
        &mut list,
        "Prefer spending / melting cashuA\u{2026} you already hold over leaving large hot sk- float on the node.",
    );
    add_line(
        &mut list,
        "For Routstr prepaid float (sk-): `grok routstr refund` (POST /v1/balance/refund) returns a Cashu token once when the node succeeds.",
    );
    add_line(
        &mut list,
        "When melt is live: `grok routstr refund --token <cashuA\u{2026}> --invoice <BOLT11>` (or TUI `/routstr refund token=\u{2026} invoice=\u{2026}`) melts via SeedVault \u{2014} never credits sk- float.",
    );
    add_line(&mut list, "Run `grok routstr balance` (or /routstr balance) to check remaining float.");
    list
}

/// A line with details, where there are any.
pub open spec fn detail_line(detail: Seq<char>) -> Seq<Seq<char>> {
    if trimmed(detail).len() > 0 {
        seq!["Detail: "@ + trimmed(detail)]
    } else {
        Seq::empty()
    }
}

/// Adds a line with details, where there are any.
fn add_detail(list: &mut Vec<String>, detail: &str)
    ensures
        texts(final(list)@) == texts(old(list)@) + detail_line(detail@),
{
    let d = trim(detail);
    if !d.is_empty() {
        add_pair(list, "Detail: ", d);
    }
    assert(texts(list@) =~= texts(old(list)@) + detail_line(detail@));
}

/// What is said once a token was paid out.
pub open spec fn melt_paid_text(detail: Seq<char>) -> Seq<Seq<char>> {
    seq![
        "Cashu melt completed (token spent to destination BOLT11; state=PAID)."@,
        "This is not Routstr prepaid float credit (melt spends Cashu; no sk- float claim)."@,
        "Prefer melting/spending cashuA\u{2026} you hold over parking large hot sk- float."@,
    ] + detail_line(detail) + seq![
        "Node hot float is unchanged by local melt. Use `grok routstr balance` for sk- float."@,
    ]
}

/// What is said once a token was paid out.
pub fn cashu_melt_paid_lines(detail: &str) -> (list: Vec<String>)
    ensures
        texts(list@) == melt_paid_text(detail@),
{
    let mut list: Vec<String> = Vec::new();
    add_line(&mut list, "Cashu melt completed (token spent to destination BOLT11; state=PAID).");
    add_line(
        &mut list,
        "This is not Routstr prepaid float credit (melt spends Cashu; no sk- float claim).",
    );
    add_line(
        &mut list,
        "Prefer melting/spending cashuA\u{2026} you hold over parking large hot sk- float.",
    );
    add_detail(&mut list, detail);
    add_line(
        &mut list,
        "Node hot float is unchanged by local melt. Use `grok routstr balance` for sk- float.",
    );
    list
}

/// What is said where paying out a token was tried and failed.
pub open spec fn melt_failed_text(detail: Seq<char>) -> Seq<Seq<char>> {
    seq!["Cashu melt did not complete."@, "No Routstr float was credited or claimed."@]
        + detail_line(detail) + seq![
        "Retry: `grok routstr refund --token <cashuA\u{2026}> --invoice <BOLT11>` (or TUI `/routstr refund token=\u{2026} invoice=\u{2026}`) after fixing the detail above."@,
        "For Routstr prepaid float (sk-): bare `grok routstr refund` (POST /v1/balance/refund) \u{2014} separate from local melt."@,
        "Run `grok routstr balance` (or /routstr balance) to check remaining float."@,
    ]
}

/// What is said where paying out a token was tried and failed.
pub fn cashu_melt_failed_lines(detail: &str) -> (list: Vec<String>)
    ensures
        texts(list@) == melt_failed_text(detail@),
{
    let mut list: Vec<String> = Vec::new();
    add_line(&mut list, "Cashu melt did not complete.");
    add_line(&mut list, "No Routstr float was credited or claimed.");
    add_detail(&mut list, detail);
    add_line(
        &mut list,
        "Retry: `grok routstr refund --token <cashuA\u{2026}> --invoice <BOLT11>` (or TUI `/routstr refund token=\u{2026} invoice=\u{2026}`) after fixing the detail above.",
    );
    add_line(
        &mut list,
        "For Routstr prepaid float (sk-): bare `grok routstr refund` (POST /v1/balance/refund) \u{2014} separate from local melt.",
    );
    add_line(&mut list, "Run `grok routstr balance` (or /routstr balance) to check remaining float.");
    list
}

/// What is said of a token that is ready to be redeemed.
pub open spec fn redeem_text(redacted: Seq<char>, amount: Option<u64>) -> Seq<Seq<char>> {
    seq!["Cashu proofs mint completed \u{2014} redeemable token ready."@] + number_line(
        "Minted amount: "@,
        amount,
        " sats."@,
    ) + seq![
        "Token (redacted): "@ + redacted,
        "This is **not** Routstr prepaid float yet."@,
        "Redeem to fund float: `grok routstr redeem <cashuA\u{2026}>` (or login paste)."@,
        "Live path: Routstr `balance/create` / `balance/topup` with Bearer token."@,
    ]
}

/// What is said of a token that is ready to be redeemed.
pub fn cashu_token_redeem_next_steps(token_redacted: &str, amount_sats: Option<u64>) -> (list: Vec<
    String,
>)
    ensures
        texts(list@) == redeem_text(token_redacted@, amount_sats),
{
    let mut list: Vec<String> = Vec::new();
    add_line(&mut list, "Cashu proofs mint completed \u{2014} redeemable token ready.");
    add_number(&mut list, "Minted amount: ", amount_sats, " sats.");
    add_pair(&mut list, "Token (redacted): ", token_redacted);
    add_line(&mut list, "This is **not** Routstr prepaid float yet.");
    add_line(
        &mut list,
        "Redeem to fund float: `grok routstr redeem <cashuA\u{2026}>` (or login paste).",
    );
    add_line(&mut list, "Live path: Routstr `balance/create` / `balance/topup` with Bearer token.");
    list
}

/// Setting: base URL of the mint.
pub const CASHU_MINT_URL_ENV: &'static str = "GROK_BITCOIN_CASHU_MINT_URL";

/// Path of mint quotes behind the base URL.
pub const CASHU_MINT_QUOTE_BOLT11_PATH: &'static str = "/v1/mint/quote/bolt11";

/// Path of proofs behind the base URL.
pub const CASHU_MINT_BOLT11_PATH: &'static str = "/v1/mint/bolt11";

/// A text without the slashes that it ends with.
pub open spec fn without_slashes(s: Seq<char>) -> Seq<char>
    decreases s.len(),
{
    if s.len() > 0 && s.last() == '/' {
        without_slashes(s.drop_last())
    } else {
        s
    }
}

/// Only slashes at the end of a text are taken off, and all of them.
pub proof fn lemma_without_slashes(s: Seq<char>)
    ensures
        without_slashes(s).is_prefix_of(s),
        forall|i: int| without_slashes(s).len() <= i < s.len() ==> #[trigger] s[i] == '/',
        without_slashes(s).len() > 0 ==> without_slashes(s).last() != '/',
    decreases s.len(),
{
    if s.len() > 0 && s.last() == '/' {
        let front = s.drop_last();
        lemma_without_slashes(front);
        assert forall|i: int| without_slashes(s).len() <= i < s.len() implies #[trigger] s[i]
            == '/' by {
            if i < front.len() {
                assert(front[i] == '/');
            }
        }
    }
}

/// The base URL that a setting describes, or what is wrong with it.
pub open spec fn mint_url_of(s: Seq<char>) -> Result<Seq<char>, Seq<char>> {
    let u = without_slashes(trimmed(s));
    let low = lowered(u);
    if u.len() == 0 {
        Err("mint URL must not be empty"@)
    } else if !(has_prefix(low, "https://"@) || has_prefix(low, "http://"@)) {
        Err("mint URL must start with https:// or http://"@)
    } else if encode_utf8(u).len() > 512 {
        Err("mint URL too long"@)
    } else {
        Ok(u)
    }
}

/// A base URL stands in the setting as it is, starts like a web address, does not end with a slash
/// and has 512 bytes at most.
pub proof fn lemma_mint_url(s: Seq<char>)
    ensures
        mint_url_of(s) matches Ok(u) ==> {
            &&& has_part(s, u)
            &&& u.len() > 0 && u.last() != '/'
            &&& has_prefix(lowered(u), "https://"@) || has_prefix(lowered(u), "http://"@)
            &&& encode_utf8(u).len() <= 512
        },
{
    let inside = trimmed(s);
    let u = without_slashes(inside);
    lemma_without_slashes(inside);
    lemma_trimmed_is_inside(s);
    let (i, j) = choose|i: int, j: int|
        #![trigger s.subrange(i, j)]
        0 <= i <= j <= s.len() && inside == s.subrange(i, j);
    assert(s.subrange(i, i + u.len()) =~= u) by {
        assert(u =~= inside.take(u.len() as int));
    }
    assert(stands_at(s, u, i));
}

/// A web address of 512 bytes at most that does not end with a slash is a base URL as it is, and
/// white space or a slash behind it makes no difference.
pub proof fn lemma_mint_url_is_kept(s: Seq<char>)
    requires
        s.len() > 0,
        !is_space(s[0]),
        !is_space(s.last()),
        s.last() != '/',
        has_prefix(lowered(s), "https://"@) || has_prefix(lowered(s), "http://"@),
        encode_utf8(s).len() <= 512,
    ensures
        mint_url_of(s) == Ok::<Seq<char>, Seq<char>>(s),
        mint_url_of(s + seq![' ']) == Ok::<Seq<char>, Seq<char>>(s),
        mint_url_of(s.push('/')) == Ok::<Seq<char>, Seq<char>>(s),
{
    lemma_trimmed_again(s);
    lemma_trim_space_behind(s);
    lemma_trimmed_again(s.push('/'));
    assert(s.push('/').drop_last() =~= s);
    assert(without_slashes(s) == s);
    assert(without_slashes(s.push('/')) == s);
}

proof fn lemma_trim_space_behind(s: Seq<char>)
    ensures
        trimmed(s + seq![' ']) == trimmed(s),
    decreases s.len(),
{
    let longer = s + seq![' '];
    if s.len() > 0 && is_space(s[0]) {
        assert(longer.skip(1) =~= s.skip(1) + seq![' ']);
        lemma_trim_space_behind(s.skip(1));
    } else if s.len() == 0 {
        assert(longer.skip(1) =~= s);
    } else {
        assert(longer.drop_last() =~= s);
    }
}

/// A text without the slashes that it ends with.
pub fn strip_slashes(text: &str) -> (r: &str)
    ensures
        r@ == without_slashes(text@),
{
    let chars = chars_of(text);
    let mut n: usize = chars.len();
    assert(chars@.take(n as int) =~= chars@);
    while n > 0 && chars[n - 1] == '/'
        invariant
            n <= chars@.len(),
            chars@ == text@,
            without_slashes(text@) == without_slashes(text@.take(n as int)),
        decreases n,
    {
        assert(text@.take(n as int).drop_last() =~= text@.take(n - 1));
        n -= 1;
    }
    take(text, n)
}

/// What a function with a message as its error returns.
pub open spec fn is_text(r: Result<String, String>, expected: Result<Seq<char>, Seq<char>>) -> bool {
    match expected {
        Ok(text) => r matches Ok(t) && t@ == text,
        Err(message) => r matches Err(e) && e@ == message,
    }
}

/// Checks the base URL of a mint: without slashes at its end, `http://` or `https://`, at most 512
/// bytes.
pub fn validate_mint_url(url: &str) -> (r: Result<&str, String>)
    ensures
        match mint_url_of(url@) {
            Ok(u) => r matches Ok(v) && v@ == u,
            Err(message) => r matches Err(e) && e@ == message,
        },
{
    let u = strip_slashes(trim(url));
    if u.is_empty() {
        return Err("mint URL must not be empty".to_owned());
    }
    let low = lower(u);
    if !(starts_with(low.as_str(), "https://") || starts_with(low.as_str(), "http://")) {
        return Err("mint URL must start with https:// or http://".to_owned());
    }
    if byte_len(u) > 512 {
        return Err("mint URL too long".to_owned());
    }
    Ok(u)
}

/// A URL behind a base URL.
pub open spec fn behind(base: Result<Seq<char>, Seq<char>>, path: Seq<char>) -> Result<
    Seq<char>,
    Seq<char>,
> {
    match base {
        Ok(base) => Ok(base + path),
        Err(message) => Err(message),
    }
}

/// The URL of mint quotes.
pub fn mint_quote_bolt11_url(mint_base: &str) -> (r: Result<String, String>)
    ensures
        is_text(r, behind(mint_url_of(mint_base@), CASHU_MINT_QUOTE_BOLT11_PATH@)),
{
    match validate_mint_url(mint_base) {
        Ok(base) => {
            let mut url = base.to_owned();
            url.append(CASHU_MINT_QUOTE_BOLT11_PATH);
            Ok(url)
        },
        Err(e) => Err(e),
    }
}

/// The URL of proofs.
pub fn mint_bolt11_url(mint_base: &str) -> (r: Result<String, String>)
    ensures
        is_text(r, behind(mint_url_of(mint_base@), CASHU_MINT_BOLT11_PATH@)),
{
    match validate_mint_url(mint_base) {
        Ok(base) => {
            let mut url = base.to_owned();
            url.append(CASHU_MINT_BOLT11_PATH);
            Ok(url)
        },
        Err(e) => Err(e),
    }
}

/// The URL of the state of a quote, or what is wrong with the base URL or the quote's id. An id
/// must not lead to another path.
pub open spec fn status_url(mint_base: Seq<char>, quote_id: Seq<char>) -> Result<
    Seq<char>,
    Seq<char>,
> {
    let q = trimmed(quote_id);
    match mint_url_of(mint_base) {
        Err(message) => Err(message),
        Ok(base) => if q.len() == 0 {
            Err("quote_id must not be empty"@)
        } else if has_part(q, "/"@) || has_part(q, ".."@) || has_part(q, "\\"@) {
            Err("quote_id contains invalid path characters"@)
        } else {
            Ok(base + "/v1/mint/quote/bolt11/"@ + q)
        },
    }
}

/// The URL of the state of a quote.
pub fn mint_quote_bolt11_status_url(mint_base: &str, quote_id: &str) -> (r: Result<String, String>)
    ensures
        is_text(r, status_url(mint_base@, quote_id@)),
{
    let base = match validate_mint_url(mint_base) {
        Ok(base) => base,
        Err(e) => return Err(e),
    };
    let q = trim(quote_id);
    if q.is_empty() {
        return Err("quote_id must not be empty".to_owned());
    }
    if contains(q, "/") || contains(q, "..") || contains(q, "\\") {
        return Err("quote_id contains invalid path characters".to_owned());
    }
    let mut url = base.to_owned();
    url.append("/v1/mint/quote/bolt11/");
    url.append(q);
    Ok(url)
}

/// The URL of a quote's state is the URL of quotes, a slash and the id, which holds no slash and
/// no backslash. So no two ids have the same URL.
pub proof fn lemma_status_url(base: Seq<char>, quote_id: Seq<char>, other: Seq<char>)
    ensures
        status_url(base, quote_id) matches Ok(url) ==> {
            &&& behind(mint_url_of(base), CASHU_MINT_QUOTE_BOLT11_PATH@) matches Ok(quotes) && url
                == quotes + seq!['/'] + trimmed(quote_id)
            &&& !trimmed(quote_id).contains('/')
            &&& !trimmed(quote_id).contains('\\')
            &&& trimmed(quote_id).len() > 0
        },
        status_url(base, quote_id) is Ok && status_url(base, quote_id) == status_url(base, other)
            ==> trimmed(quote_id) == trimmed(other),
        mint_url_of(base) is Ok && trimmed(quote_id).len() > 0 && !has_part(
            trimmed(quote_id),
            ".."@,
        ) && !trimmed(quote_id).contains('/') && !trimmed(quote_id).contains('\\') ==> status_url(
            base,
            quote_id,
        ) is Ok,
{
    let q = trimmed(quote_id);
    reveal_strlit("/");
    reveal_strlit("\\");
    reveal_strlit("/v1/mint/quote/bolt11/");
    reveal_strlit("/v1/mint/quote/bolt11");
    lemma_part_of_one(q, '/');
    lemma_part_of_one(q, '\\');
    assert("/"@ =~= seq!['/']);
    assert("\\"@ =~= seq!['\\']);
    assert("/v1/mint/quote/bolt11/"@ =~= "/v1/mint/quote/bolt11"@ + seq!['/']);
    if let Ok(b) = mint_url_of(base) {
        let start = b + "/v1/mint/quote/bolt11/"@;
        assert(start =~= b + "/v1/mint/quote/bolt11"@ + seq!['/']);
        assert((start + q).skip(start.len() as int) =~= q);
        assert((start + trimmed(other)).skip(start.len() as int) =~= trimmed(other));
    }
}

proof fn lemma_part_of_one(s: Seq<char>, c: char)
    ensures
        has_part(s, seq![c]) <==> s.contains(c),
{
    if s.contains(c) {
        let i = choose|i: int| 0 <= i < s.len() && s[i] == c;
        assert(s.subrange(i, i + 1) =~= seq![c]);
        assert(stands_at(s, seq![c], i));
    }
    if has_part(s, seq![c]) {
        let i = choose|i: int| stands_at(s, seq![c], i);
        assert(s.subrange(i, i + 1)[0] == s[i]);
    }
}

/// The body of a request for a mint quote, or what is wrong with the amount or the unit.
pub open spec fn quote_request(amount: u64, unit: Seq<char>) -> Result<Seq<char>, Seq<char>> {
    if amount == 0 {
        Err("mint quote amount_sats must be > 0"@)
    } else if trimmed(unit).len() == 0 {
        Err("mint quote unit must not be empty"@)
    } else {
        Ok(
            "{\"amount\":"@ + decimal(amount as nat) + ",\"unit\":"@ + json_quoted(trimmed(unit))
                + "}"@,
        )
    }
}

/// A request writes the amount in decimal as the value of `amount` and the unit as that of `unit`.
/// So requests for different amounts differ.
pub proof fn lemma_quote_request(amount: u64, unit: Seq<char>, other: u64)
    requires
        amount > 0,
        trimmed(unit).len() > 0,
    ensures
        quote_request(amount, unit) matches Ok(body) && {
            &&& has_prefix(body, "{\"amount\":"@ + decimal(amount as nat) + seq![','])
            &&& has_part(body, "\"unit\":"@ + json_quoted(trimmed(unit)))
        },
        quote_request(amount, unit) == quote_request(other, unit) ==> amount == other,
        quote_request(0, unit) is Err,
{
    let key = "{\"amount\":"@;
    let value = json_quoted(trimmed(unit));
    let body = key + decimal(amount as nat) + ",\"unit\":"@ + value + "}"@;
    reveal_strlit("{\"amount\":");
    reveal_strlit(",\"unit\":");
    reveal_strlit("\"unit\":");
    let start = key + decimal(amount as nat) + seq![','];
    assert(body.take(start.len() as int) =~= start);
    let part = "\"unit\":"@ + value;
    assert(body.subrange(start.len() as int, start.len() as int + part.len()) =~= part);
    assert(stands_at(body, part, start.len() as int));
    if quote_request(amount, unit) == quote_request(other, unit) {
        let behind = key + decimal(other as nat) + seq![','];
        assert(body == key + decimal(other as nat) + ",\"unit\":"@ + value + "}"@);
        assert(body.take(behind.len() as int) =~= behind);
        let (a, b) = (decimal(amount as nat), decimal(other as nat));
        let at = key.len() as int;
        assert(body.subrange(at, at + a.len()) =~= start.skip(at).drop_last());
        assert(start.skip(at).drop_last() =~= a);
        assert(body.subrange(at, at + b.len()) =~= behind.skip(at).drop_last());
        assert(behind.skip(at).drop_last() =~= b);
        assert(body[at + a.len()] == body.take(start.len() as int)[at + a.len()]);
        assert(body[at + b.len()] == body.take(behind.len() as int)[at + b.len()]);
        lemma_digits_end(body, decimal(amount as nat), decimal(other as nat), key.len() as int);
    }
}

/// The digits from a place to the comma behind them write one number.
proof fn lemma_digits_end(body: Seq<char>, a: Seq<char>, b: Seq<char>, at: int)
    requires
        0 <= at,
        at + a.len() < body.len(),
        at + b.len() < body.len(),
        body[at + a.len()] == ',',
        body[at + b.len()] == ',',
        body.subrange(at, at + a.len()) == a,
        body.subrange(at, at + b.len()) == b,
        exists|n: nat| a == #[trigger] decimal(n),
        exists|n: nat| b == #[trigger] decimal(n),
    ensures
        a == b,
        forall|n: nat, m: nat| a == #[trigger] decimal(n) && b == #[trigger] decimal(m) ==> n == m,
{
    let n = choose|n: nat| a == #[trigger] decimal(n);
    let m = choose|m: nat| b == #[trigger] decimal(m);
    lemma_decimal_round_trip(n);
    lemma_decimal_round_trip(m);
    if a.len() < b.len() {
        assert(b[a.len() as int] == body.subrange(at, at + b.len())[a.len() as int]);
        assert(false);
    }
    if b.len() < a.len() {
        assert(a[b.len() as int] == body.subrange(at, at + a.len())[b.len() as int]);
        assert(false);
    }
    assert(a =~= b);
    assert forall|x: nat, y: nat| a == #[trigger] decimal(x) && b == #[trigger] decimal(y) implies x
        == y by {
        lemma_decimal_round_trip(x);
        lemma_decimal_round_trip(y);
    }
}

/// The body of a request for a mint quote.
pub fn mint_quote_bolt11_request_json(amount_sats: u64, unit: &str) -> (r: Result<String, String>)
    ensures
        is_text(r, quote_request(amount_sats, unit@)),
{
    if amount_sats == 0 {
        return Err("mint quote amount_sats must be > 0".to_owned());
    }
    let unit = trim(unit);
    if unit.is_empty() {
        return Err("mint quote unit must not be empty".to_owned());
    }
    let mut body = "{\"amount\":".to_owned();
    body.append(decimal_text(amount_sats).as_str());
    body.append(",\"unit\":");
    body.append(quote_json(unit).as_str());
    body.append("}");
    Ok(body)
}

/// Mint quote, as the mint replied.
#[derive(PartialEq, Eq, Debug)]
pub struct MintQuoteBolt11Response {
    pub quote_id: String,
    pub bolt11: String,
    pub amount_sats: Option<u64>,
    pub unit: Option<String>,
    pub expiry: Option<i64>,
    pub state: Option<String>,
}

/// Model of [`MintQuoteBolt11Response`].
pub struct MintQuote {
    pub quote_id: Seq<char>,
    pub bolt11: Seq<char>,
    pub amount_sats: Option<u64>,
    pub unit: Option<Seq<char>>,
    pub expiry: Option<i64>,
    pub state: Option<Seq<char>>,
}

impl View for MintQuoteBolt11Response {
    type V = MintQuote;

    open spec fn view(&self) -> MintQuote {
        MintQuote {
            quote_id: self.quote_id@,
            bolt11: self.bolt11@,
            amount_sats: self.amount_sats,
            unit: text_view(self.unit),
            expiry: self.expiry,
            state: text_view(self.state),
        }
    }
}

/// The first of three fields that is there.
pub open spec fn first_field(j: Json, a: Seq<char>, b: Seq<char>, c: Seq<char>) -> Option<Json> {
    match j.field(a) {
        Some(v) => Some(v),
        None => match j.field(b) {
            Some(v) => Some(v),
            None => j.field(c),
        },
    }
}

/// The text of an optional value, white space around it aside; an empty one counts as none.
pub open spec fn given_json(j: Option<Json>) -> Option<Seq<char>> {
    match j {
        Some(v) => given(v.text()),
        None => None,
    }
}

/// The amount of a reply: of the field `amount`, or of `amount_sats` where that has none.
pub open spec fn json_amount(j: Json) -> Option<u64> {
    let amount = match j.field("amount"@) {
        Some(v) => v.unsigned(),
        None => None,
    };
    match amount {
        Some(n) => Some(n),
        None => match j.field("amount_sats"@) {
            Some(v) => v.unsigned(),
            None => None,
        },
    }
}

/// The time in the field `expiry`.
pub open spec fn json_expiry(j: Json) -> Option<i64> {
    match j.field("expiry"@) {
        Some(v) => v.signed(),
        None => None,
    }
}

/// The first of three fields that is there.
fn get_first<'a>(v: &'a JsonValue, a: &str, b: &str, c: &str) -> (r: Option<&'a JsonValue>)
    ensures
        opt_json(r) == first_field(json_view(*v), a@, b@, c@),
{
    match v.get(a) {
        Some(x) => Some(x),
        None => match v.get(b) {
            Some(x) => Some(x),
            None => v.get(c),
        },
    }
}

/// The text of an optional value, white space around it aside.
fn given_text_of(v: Option<&JsonValue>) -> (r: Option<String>)
    ensures
        text_view(r) == given_json(opt_json(v)),
{
    match v {
        Some(x) => match given_text(x.as_str()) {
            Some(t) => Some(t.to_owned()),
            None => None,
        },
        None => None,
    }
}

/// The amount of a reply.
fn amount_of(v: &JsonValue) -> (r: Option<u64>)
    ensures
        r == json_amount(json_view(*v)),
{
    let amount = match v.get("amount") {
        Some(x) => x.as_u64(),
        None => None,
    };
    match amount {
        Some(n) => Some(n),
        None => match v.get("amount_sats") {
            Some(x) => x.as_u64(),
            None => None,
        },
    }
}

/// The time in the field `expiry`.
fn expiry_of(v: &JsonValue) -> (r: Option<i64>)
    ensures
        r == json_expiry(json_view(*v)),
{
    match v.get("expiry") {
        Some(x) => x.as_i64(),
        None => None,
    }
}

/// The quote in a mint's reply, or what is missing. The invoice has to look like one.
pub open spec fn quote_in(j: Json) -> Result<MintQuote, Seq<char>> {
    match given_json(first_field(j, "quote"@, "quote_id"@, "quoteId"@)) {
        None => Err("mint quote: missing quote id"@),
        Some(quote_id) => match given_json(first_field(j, "request"@, "bolt11"@, "invoice"@)) {
            None => Err("mint quote: missing bolt11/request"@),
            Some(bolt11) => if !bolt11_looks(bolt11) {
                Err("mint quote: request is not a bolt11 (lnbc\u{2026}/lntb\u{2026}; not lnurl)"@)
            } else {
                Ok(
                    MintQuote {
                        quote_id,
                        bolt11,
                        amount_sats: json_amount(j),
                        unit: given_json(j.field("unit"@)),
                        expiry: json_expiry(j),
                        state: given_json(j.field("state"@)),
                    },
                )
            },
        },
    }
}

/// A quote is what the reply says under the names of the mint protocol: id, invoice, amount, unit,
/// expiry and state, white space around texts aside. A reply without an id or without an invoice
/// is none, and nothing else keeps a reply from being one.
pub proof fn lemma_quote_in(j: Json, id: Seq<char>, invoice: Seq<char>)
    requires
        j.field("quote"@) == Some(Json::Text(id)),
        j.field("request"@) == Some(Json::Text(invoice)),
    ensures
        quote_in(j) is Ok <==> trimmed(id).len() > 0 && trimmed(invoice).len() > 0
            && bolt11_looks(trimmed(invoice)),
        quote_in(j) matches Ok(q) ==> {
            &&& q.quote_id == trimmed(id)
            &&& q.bolt11 == trimmed(invoice)
            &&& j.field("amount"@) matches Some(v) ==> v.unsigned() is Some ==> q.amount_sats
                == v.unsigned()
            &&& j.field("amount"@) is None && j.field("amount_sats"@) is None ==> q.amount_sats
                is None
            &&& q.expiry is Some <==> j.field("expiry"@) is Some && j.field("expiry"@)->0.signed()
                is Some
            &&& j.field("expiry"@) matches Some(v) ==> q.expiry == v.signed()
            &&& j.field("state"@) matches Some(Json::Text(s)) ==> trimmed(s).len() > 0 ==> q.state
                == Some(trimmed(s))
            &&& j.field("state"@) is None ==> q.state is None
            &&& j.field("unit"@) matches Some(Json::Text(s)) ==> trimmed(s).len() > 0 ==> q.unit
                == Some(trimmed(s))
            &&& j.field("unit"@) is None ==> q.unit is None
        },
        j.field("state"@) matches Some(Json::Text(s)) ==> {
            &&& quote_state_in(j) is Ok <==> trimmed(id).len() > 0 && trimmed(s).len() > 0
            &&& quote_state_in(j) matches Ok(q) ==> q.quote_id == trimmed(id) && q.state == trimmed(
                s,
            ) && (trimmed(invoice).len() > 0 ==> q.bolt11 == Some(trimmed(invoice)))
            &&& quote_state_in(j) matches Ok(q) ==> (j.field("amount"@) matches Some(v) ==> (
            v.unsigned() is Some ==> q.amount_sats == v.unsigned()))
            &&& quote_state_in(j) matches Ok(q) ==> (j.field("expiry"@) matches Some(v) ==> q.expiry
                == v.signed())
        },
        j.field("state"@) is None ==> quote_state_in(j) is Err,
{
}

/// The other names under which mints send the id and the invoice stand in for the first one.
pub proof fn lemma_other_names(j: Json, id: Seq<char>, invoice: Seq<char>)
    requires
        j.field("quote"@) is None,
        j.field("request"@) is None,
        trimmed(id).len() > 0,
        trimmed(invoice).len() > 0,
        bolt11_looks(trimmed(invoice)),
        j.field("quote_id"@) == Some(Json::Text(id)) || j.field("quote_id"@) is None && j.field(
            "quoteId"@,
        ) == Some(Json::Text(id)),
        j.field("bolt11"@) == Some(Json::Text(invoice)) || j.field("bolt11"@) is None && j.field(
            "invoice"@,
        ) == Some(Json::Text(invoice)),
    ensures
        quote_in(j) matches Ok(q) && q.quote_id == trimmed(id) && q.bolt11 == trimmed(invoice),
{
}

/// What a function that reads a quote returns.
pub open spec fn is_quote(
    r: Result<MintQuoteBolt11Response, String>,
    expected: Result<MintQuote, Seq<char>>,
) -> bool {
    match expected {
        Ok(quote) => r matches Ok(q) && q@ == quote,
        Err(message) => r matches Err(e) && e@ == message,
    }
}

/// The quote in a mint's reply.
pub fn mint_quote_from_json(v: &JsonValue) -> (r: Result<MintQuoteBolt11Response, String>)
    ensures
        is_quote(r, quote_in(json_view(*v))),
{
    let quote_id = match given_text_of(get_first(v, "quote", "quote_id", "quoteId")) {
        Some(id) => id,
        None => return Err("mint quote: missing quote id".to_owned()),
    };
    let bolt11 = match given_text_of(get_first(v, "request", "bolt11", "invoice")) {
        Some(b) => b,
        None => return Err("mint quote: missing bolt11/request".to_owned()),
    };
    if !looks_like_bolt11(bolt11.as_str()) {
        return Err(
            "mint quote: request is not a bolt11 (lnbc\u{2026}/lntb\u{2026}; not lnurl)".to_owned(),
        );
    }
    Ok(
        MintQuoteBolt11Response {
            quote_id,
            bolt11,
            amount_sats: amount_of(v),
            unit: given_text_of(v.get("unit")),
            expiry: expiry_of(v),
            state: given_text_of(v.get("state")),
        },
    )
}

/// A message with the parser's words.
fn prefixed(before: &str, after: String) -> (r: String)
    ensures
        r@ == before@ + after@,
{
    let mut r = before.to_owned();
    r.append(after.as_str());
    r
}

/// Reads a mint's reply to a request for a quote.
pub fn parse_mint_quote_bolt11_response(body: &str) -> (r: Result<MintQuoteBolt11Response, String>)
    ensures
        match json_parsed(body@) {
            Ok(j) => is_quote(r, quote_in(j)),
            Err(e) => r matches Err(m) && m@ == "mint quote JSON: "@ + e,
        },
{
    match parse_json(body) {
        Ok(v) => mint_quote_from_json(&v),
        Err(e) => Err(prefixed("mint quote JSON: ", e)),
    }
}

/// The states in which a quote cannot be paid.
pub open spec fn terminal_state(state: Seq<char>) -> bool {
    let up = uppered(trimmed(state));
    up == "EXPIRED"@ || up == "PAID"@ || up == "ISSUED"@
}

/// Why a quote is not good for an invoice, where it is not.
pub open spec fn quote_fault(q: MintQuote, requested: u64, now: i64) -> Option<Seq<char>> {
    if trimmed(q.bolt11).len() == 0 || !bolt11_looks(trimmed(q.bolt11)) {
        Some("mint quote: invalid bolt11 (cannot claim Invoice)"@)
    } else if trimmed(q.quote_id).len() == 0 {
        Some("mint quote: empty quote id"@)
    } else if q.expiry matches Some(expiry) && now >= expiry {
        Some(
            "mint quote expired (expiry="@ + signed_decimal(q.expiry->0 as int) + ", now="@
                + signed_decimal(now as int) + ")"@,
        )
    } else if q.state matches Some(state) && terminal_state(state) {
        Some("mint quote not payable (state="@ + q.state->0 + ")"@)
    } else if q.amount_sats matches Some(amount) && amount != requested {
        Some(
            "mint quote amount mismatch: requested "@ + decimal(requested as nat)
                + " sats, mint returned "@ + decimal(q.amount_sats->0 as nat),
        )
    } else {
        None
    }
}

/// A quote is good for an invoice until its expiry and at no time from then on, for the amount
/// that the mint named and for no other, and in none of the states in which paying is over. What
/// the mint left out does not count.
pub proof fn lemma_quote_is_good(q: MintQuote, requested: u64, now: i64, other: u64, later: i64)
    requires
        bolt11_looks(trimmed(q.bolt11)),
        trimmed(q.quote_id).len() > 0,
    ensures
        q.expiry is None && q.state is None && q.amount_sats is None ==> quote_fault(
            q,
            requested,
            now,
        ) is None,
        q.expiry matches Some(expiry) ==> expiry <= now ==> quote_fault(q, requested, now) is Some,
        q.amount_sats matches Some(amount) ==> amount != requested ==> quote_fault(
            q,
            requested,
            now,
        ) is Some,
        q.state matches Some(state) ==> (uppered(trimmed(state)) == "PAID"@ || uppered(
            trimmed(state),
        ) == "ISSUED"@ || uppered(trimmed(state)) == "EXPIRED"@) ==> quote_fault(
            q,
            requested,
            now,
        ) is Some,
        quote_fault(q, requested, now) is None && (q.expiry is None || later < q.expiry->0)
            ==> quote_fault(q, requested, later) is None,
        quote_fault(q, requested, now) is None && q.amount_sats is None ==> quote_fault(
            q,
            other,
            now,
        ) is None,
        quote_fault(q, requested, now) is None && quote_fault(q, other, now) is None && requested
            != other ==> q.amount_sats is None,
        quote_fault(
            (MintQuote {
                expiry: None,
                state: Some("UNPAID"@),
                amount_sats: Some(requested),
                ..q
            }),
            requested,
            now,
        ) is None,
{
    reveal_strlit("UNPAID");
    reveal_strlit("PAID");
    reveal_strlit("EXPIRED");
    reveal_strlit("ISSUED");
    let state = "UNPAID"@;
    lemma_trimmed_again(state);
    let up = uppered(state);
    assert(trimmed(q.bolt11).len() > 0) by {
        lemma_trimmed(q.bolt11);
        if trimmed(q.bolt11).len() == 0 {
            lemma_trimmed_again(trimmed(q.bolt11));
        }
    }
    assert(up[0] == 'U');
    assert("PAID"@[0] == 'P');
    assert("EXPIRED"@[0] == 'E');
    assert("ISSUED"@[0] == 'I');
}

/// Checks a quote before its invoice is shown. Amount, expiry and state count where the mint gave
/// them.
pub fn validate_mint_quote_for_invoice(
    q: &MintQuoteBolt11Response,
    requested_amount_sats: u64,
    now_unix: i64,
) -> (r: Result<(), String>)
    ensures
        match quote_fault(q@, requested_amount_sats, now_unix) {
            None => r is Ok,
            Some(message) => r matches Err(e) && e@ == message,
        },
{
    let bolt11 = trim(q.bolt11.as_str());
    if bolt11.is_empty() || !looks_like_bolt11(bolt11) {
        return Err("mint quote: invalid bolt11 (cannot claim Invoice)".to_owned());
    }
    if trim(q.quote_id.as_str()).is_empty() {
        return Err("mint quote: empty quote id".to_owned());
    }
    if let Some(expiry) = q.expiry {
        if now_unix >= expiry {
            let mut message = "mint quote expired (expiry=".to_owned();
            message.append(signed_decimal_text(expiry).as_str());
            message.append(", now=");
            message.append(signed_decimal_text(now_unix).as_str());
            message.append(")");
            return Err(message);
        }
    }
    if let Some(state) = &q.state {
        let up = upper(trim(state.as_str()));
        if same(up.as_str(), "EXPIRED") || same(up.as_str(), "PAID") || same(
            up.as_str(),
            "ISSUED",
        ) {
            let mut message = "mint quote not payable (state=".to_owned();
            message.append(state.as_str());
            message.append(")");
            return Err(message);
        }
    }
    if let Some(amount) = q.amount_sats {
        if amount != requested_amount_sats {
            let mut message = "mint quote amount mismatch: requested ".to_owned();
            message.append(decimal_text(requested_amount_sats).as_str());
            message.append(" sats, mint returned ");
            message.append(decimal_text(amount).as_str());
            return Err(message);
        }
    }
    Ok(())
}

/// State of a quote, as the mint replied.
#[derive(PartialEq, Eq, Debug)]
pub struct MintQuoteStateResponse {
    pub quote_id: String,
    pub state: String,
    pub amount_sats: Option<u64>,
    pub expiry: Option<i64>,
    pub bolt11: Option<String>,
}

/// Model of [`MintQuoteStateResponse`].
pub struct QuoteState {
    pub quote_id: Seq<char>,
    pub state: Seq<char>,
    pub amount_sats: Option<u64>,
    pub expiry: Option<i64>,
    pub bolt11: Option<Seq<char>>,
}

impl View for MintQuoteStateResponse {
    type V = QuoteState;

    open spec fn view(&self) -> QuoteState {
        QuoteState {
            quote_id: self.quote_id@,
            state: self.state@,
            amount_sats: self.amount_sats,
            expiry: self.expiry,
            bolt11: text_view(self.bolt11),
        }
    }
}

/// The state of a quote in a mint's reply, or what is missing.
pub open spec fn quote_state_in(j: Json) -> Result<QuoteState, Seq<char>> {
    match given_json(first_field(j, "quote"@, "quote_id"@, "quoteId"@)) {
        None => Err("mint quote state: missing quote id"@),
        Some(quote_id) => match given_json(j.field("state"@)) {
            None => Err("mint quote state: missing state"@),
            Some(state) => Ok(
                QuoteState {
                    quote_id,
                    state,
                    amount_sats: json_amount(j),
                    expiry: json_expiry(j),
                    bolt11: given_json(first_field(j, "request"@, "bolt11"@, "invoice"@)),
                },
            ),
        },
    }
}

/// What a function that reads the state of a quote returns.
pub open spec fn is_quote_state(
    r: Result<MintQuoteStateResponse, String>,
    expected: Result<QuoteState, Seq<char>>,
) -> bool {
    match expected {
        Ok(state) => r matches Ok(s) && s@ == state,
        Err(message) => r matches Err(e) && e@ == message,
    }
}

/// The state of a quote in a mint's reply.
pub fn mint_quote_state_from_json(v: &JsonValue) -> (r: Result<MintQuoteStateResponse, String>)
    ensures
        is_quote_state(r, quote_state_in(json_view(*v))),
{
    let quote_id = match given_text_of(get_first(v, "quote", "quote_id", "quoteId")) {
        Some(id) => id,
        None => return Err("mint quote state: missing quote id".to_owned()),
    };
    let state = match given_text_of(v.get("state")) {
        Some(state) => state,
        None => return Err("mint quote state: missing state".to_owned()),
    };
    Ok(
        MintQuoteStateResponse {
            quote_id,
            state,
            amount_sats: amount_of(v),
            expiry: expiry_of(v),
            bolt11: given_text_of(get_first(v, "request", "bolt11", "invoice")),
        },
    )
}

/// Reads a mint's reply to a request for the state of a quote.
pub fn parse_mint_quote_state_response(body: &str) -> (r: Result<MintQuoteStateResponse, String>)
    ensures
        match json_parsed(body@) {
            Ok(j) => is_quote_state(r, quote_state_in(j)),
            Err(e) => r matches Err(m) && m@ == "mint quote state JSON: "@ + e,
        },
{
    match parse_json(body) {
        Ok(v) => mint_quote_state_from_json(&v),
        Err(e) => Err(prefixed("mint quote state JSON: ", e)),
    }
}

/// Whether a quote in this state can be turned into a token: it is paid.
pub fn mint_quote_state_is_mintable(state: &str) -> (b: bool)
    ensures
        b == (uppered(trimmed(state@)) == "PAID"@),
{
    same(upper(trim(state)).as_str(), "PAID")
}

/// Whether a quote in this state was turned into a token before.
pub fn mint_quote_state_is_issued(state: &str) -> (b: bool)
    ensures
        b == (uppered(trimmed(state@)) == "ISSUED"@),
{
    same(upper(trim(state)).as_str(), "ISSUED")
}

/// One blind signature of a mint's reply.
#[derive(PartialEq, Eq, Debug)]
pub struct MintBlindSignature {
    pub amount_sats: Option<u64>,
    pub id: Option<String>,
    pub c: Option<String>,
}

/// Model of [`MintBlindSignature`].
pub struct BlindSignature {
    pub amount_sats: Option<u64>,
    pub id: Option<Seq<char>>,
    pub c: Option<Seq<char>>,
}

impl View for MintBlindSignature {
    type V = BlindSignature;

    open spec fn view(&self) -> BlindSignature {
        BlindSignature { amount_sats: self.amount_sats, id: text_view(self.id), c: text_view(self.c) }
    }
}

/// Blind signatures, as the mint replied. They are no token yet.
#[derive(PartialEq, Eq, Debug)]
pub struct MintBolt11Response {
    pub signatures: Vec<MintBlindSignature>,
}

impl View for MintBolt11Response {
    type V = Seq<BlindSignature>;

    open spec fn view(&self) -> Seq<BlindSignature> {
        Seq::new(self.signatures@.len(), |i: int| self.signatures@[i]@)
    }
}

/// The blind signature in one item of a mint's reply.
pub open spec fn signature_in(j: Json) -> BlindSignature {
    BlindSignature {
        amount_sats: json_amount(j),
        id: given_json(j.field("id"@)),
        c: given_json(first_field(j, "C_"@, "C"@, "c"@)),
    }
}

/// The blind signatures in a mint's reply, or what is missing.
pub open spec fn signatures_in(j: Json) -> Result<Seq<BlindSignature>, Seq<char>> {
    let items = match first_field(j, "signatures"@, "promises"@, "promises"@) {
        Some(v) => v.list(),
        None => None,
    };
    match items {
        None => Err("mint bolt11: missing signatures array"@),
        Some(items) => if items.len() == 0 {
            Err("mint bolt11: empty signatures"@)
        } else {
            Ok(Seq::new(items.len(), |i: int| signature_in(items[i])))
        },
    }
}

/// Every item of the reply's list is a blind signature, in the order of the list, with the amount,
/// the keyset and the point that the item names.
pub proof fn lemma_signatures(j: Json, items: Seq<Json>)
    requires
        j.field("signatures"@) == Some(Json::List(items)),
    ensures
        signatures_in(j) is Ok <==> items.len() > 0,
        signatures_in(j) matches Ok(list) ==> list.len() == items.len() && forall|i: int|
            0 <= i < items.len() ==> {
                let signature = #[trigger] list[i];
                &&& (items[i].field("amount"@) matches Some(v) ==> (v.unsigned() is Some
                    ==> signature.amount_sats == v.unsigned()))
                &&& (items[i].field("id"@) matches Some(Json::Text(id)) ==> (trimmed(id).len() > 0
                    ==> signature.id == Some(trimmed(id))))
                &&& (items[i].field("C_"@) matches Some(Json::Text(c)) ==> (trimmed(c).len() > 0
                    ==> signature.c == Some(trimmed(c))))
            },
{
}

/// What a function that reads blind signatures returns.
pub open spec fn is_signatures(
    r: Result<MintBolt11Response, String>,
    expected: Result<Seq<BlindSignature>, Seq<char>>,
) -> bool {
    match expected {
        Ok(signatures) => r matches Ok(s) && s@ == signatures,
        Err(message) => r matches Err(e) && e@ == message,
    }
}

/// The blind signatures in a mint's reply.
pub fn mint_bolt11_from_json(v: &JsonValue) -> (r: Result<MintBolt11Response, String>)
    ensures
        is_signatures(r, signatures_in(json_view(*v))),
{
    let found = match get_first(v, "signatures", "promises", "promises") {
        Some(x) => x.as_list(),
        None => None,
    };
    let items = match found {
        Some(items) => items,
        None => return Err("mint bolt11: missing signatures array".to_owned()),
    };
    if items.len() == 0 {
        return Err("mint bolt11: empty signatures".to_owned());
    }
    let mut signatures: Vec<MintBlindSignature> = Vec::new();
    for i in 0..items.len()
        invariant
            signatures@.len() == i,
            forall|k: int|
                0 <= k < i ==> (#[trigger] signatures@[k])@ == signature_in(json_view(items@[k])),
    {
        let item = &items[i];
        signatures.push(
            MintBlindSignature {
                amount_sats: amount_of(item),
                id: given_text_of(item.get("id")),
                c: given_text_of(get_first(item, "C_", "C", "c")),
            },
        );
    }
    let reply = MintBolt11Response { signatures };
    assert(signatures_in(json_view(*v)) is Ok);
    assert(reply@ =~= signatures_in(json_view(*v))->Ok_0);
    Ok(reply)
}

/// Reads a mint's reply to a request for proofs.
pub fn parse_mint_bolt11_response(body: &str) -> (r: Result<MintBolt11Response, String>)
    ensures
        match json_parsed(body@) {
            Ok(j) => is_signatures(r, signatures_in(j)),
            Err(e) => r matches Err(m) && m@ == "mint bolt11 JSON: "@ + e,
        },
{
    match parse_json(body) {
        Ok(v) => mint_bolt11_from_json(&v),
        Err(e) => Err(prefixed("mint bolt11 JSON: ", e)),
    }
}

/// Why a text, white space around it aside, is no token.
pub open spec fn token_fault(t: Seq<char>) -> Option<Seq<char>> {
    if t.len() == 0 {
        Some("empty token"@)
    } else if !has_prefix(t, "cashuA"@) && !has_prefix(t, "cashuB"@) {
        Some("token must start with cashuA (or cashuB)"@)
    } else if encode_utf8(t).len() < 16 {
        Some("token too short"@)
    } else {
        None
    }
}

/// What may be shown of a token: its prefix and its last four characters.
pub open spec fn token_preview(t: Seq<char>) -> Seq<char> {
    (if has_prefix(t, "cashuB"@) {
        "cashuB"@
    } else {
        "cashuA"@
    }) + "\u{2026}"@ + t.skip(t.len() - 4)
}

/// A preview shows which kind of token it is and its last four characters, and nothing else: two
/// tokens that agree in these have the same preview.
pub proof fn lemma_preview_hides(t: Seq<char>, other: Seq<char>)
    requires
        token_fault(t) is None,
        token_fault(other) is None,
    ensures
        token_preview(t).len() == 11,
        has_prefix(token_preview(t), t.take(6)),
        token_preview(t).skip(7) == t.skip(t.len() - 4),
        t.take(6) == other.take(6) && t.skip(t.len() - 4) == other.skip(other.len() - 4)
            ==> token_preview(t) == token_preview(other),
{
    reveal_strlit("cashuA");
    reveal_strlit("cashuB");
    reveal_strlit("\u{2026}");
    let end = t.skip(t.len() - 4);
    assert("cashuA"@[5] != "cashuB"@[5]);
    assert(token_preview(t).take(6) =~= t.take(6));
    assert(token_preview(t).skip(7) =~= end);
}

/// A token is a text of 16 bytes or more that starts with `cashuA` or `cashuB`.
pub proof fn lemma_tokens(rest: Seq<char>, t: Seq<char>)
    ensures
        encode_utf8("cashuA"@ + rest).len() >= 16 <==> token_fault("cashuA"@ + rest) is None,
        encode_utf8("cashuB"@ + rest).len() >= 16 <==> token_fault("cashuB"@ + rest) is None,
        token_fault(t) is None ==> t.take(5) == "cashu"@ && (t[5] == 'A' || t[5] == 'B')
            && encode_utf8(t).len() >= 16,
{
    reveal_strlit("cashuA");
    reveal_strlit("cashuB");
    reveal_strlit("cashu");
    assert(("cashuA"@ + rest).take(6) =~= "cashuA"@);
    assert(("cashuB"@ + rest).take(6) =~= "cashuB"@);
    if token_fault(t) is None {
        assert(t.take(5) =~= t.take(6).take(5));
        assert("cashuA"@.take(5) =~= "cashu"@);
        assert("cashuB"@.take(5) =~= "cashu"@);
        assert(t.take(6)[5] == t[5]);
    }
}

/// Token: whoever holds the text can spend it, so only a preview is ever printed.
pub struct CashuToken {
    secret: SecretText,
}

impl CashuToken {
    #[verifier::type_invariant]
    closed spec fn valid(&self) -> bool {
        token_fault(secret_text(&self.secret)) is None
    }

    /// The text of the token.
    pub closed spec fn token(&self) -> Seq<char> {
        secret_text(&self.secret)
    }

    /// Takes a token, white space around it aside.
    pub fn parse(token: &str) -> (r: Result<CashuToken, WalletError>)
        ensures
            match token_fault(trimmed(token@)) {
                None => r matches Ok(t) && t.token() == trimmed(token@),
                Some(message) => cashu_error(r, message),
            },
    {
        let t = trim(token);
        if t.is_empty() {
            return Err(WalletError::Cashu("empty token".to_owned()));
        }
        if !starts_with(t, "cashuA") && !starts_with(t, "cashuB") {
            return Err(WalletError::Cashu("token must start with cashuA (or cashuB)".to_owned()));
        }
        if byte_len(t) < 16 {
            return Err(WalletError::Cashu("token too short".to_owned()));
        }
        Ok(CashuToken { secret: hide_text(t.to_owned()) })
    }

    /// The text of the token, for a request that spends it.
    pub fn expose(&self) -> (text: &str)
        ensures
            text@ == self.token(),
    {
        expose_text(&self.secret)
    }

    /// What may be shown of the token.
    pub fn redacted(&self) -> (text: String)
        ensures
            text@ == token_preview(self.token()),
    {
        proof {
            use_type_invariant(self);
            reveal_strlit("cashuA");
            reveal_strlit("cashuB");
        }
        let s = expose_text(&self.secret);
        let mut text = if starts_with(s, "cashuB") {
            "cashuB".to_owned()
        } else {
            "cashuA".to_owned()
        };
        let n: usize = chars_of(s).len();
        text.append("\u{2026}");
        text.append(skip(s, n - 4));
        text
    }

    /// The preview, as it is printed for a developer.
    pub fn debug_text(&self) -> (text: String)
        ensures
            text@ == "CashuToken("@ + debug_quoted(token_preview(self.token())) + ")"@,
    {
        let mut text = "CashuToken(".to_owned();
        text.append(debug_text(self.redacted().as_str()).as_str());
        text.append(")");
        text
    }
}

/// A token's preview, or a fixed text where it is no token.
pub open spec fn preview_of(token: Seq<char>) -> Seq<char> {
    if token_fault(trimmed(token)) is None {
        token_preview(trimmed(token))
    } else {
        "cashuA\u{2026}[REDACTED]"@
    }
}

/// Nothing of a text that is no token is shown.
pub proof fn lemma_no_preview(a: Seq<char>, b: Seq<char>)
    requires
        token_fault(trimmed(a)) is Some,
        token_fault(trimmed(b)) is Some,
    ensures
        preview_of(a) == preview_of(b),
        preview_of(a) == "cashuA\u{2026}[REDACTED]"@,
{
}

/// A token's preview, or a fixed text where it is no token.
pub fn token_preview_text(token: &str) -> (text: String)
    ensures
        text@ == preview_of(token@),
{
    match CashuToken::parse(token) {
        Ok(t) => t.redacted(),
        Err(_) => "cashuA\u{2026}[REDACTED]".to_owned(),
    }
}

/// A number of satoshis in thousandths, the largest 64 bit number where it would be larger.
pub open spec fn thousandfold(n: u64) -> u64 {
    if n * 1000 > u64::MAX {
        u64::MAX
    } else {
        (n * 1000) as u64
    }
}

/// The amount in a field.
pub open spec fn field_amount(j: Json, name: Seq<char>) -> Option<u64> {
    match j.field(name) {
        Some(v) => v.amount(),
        None => None,
    }
}

/// The balance in a reply, in thousandths of a satoshi. Only fields that name their unit count;
/// where there is none, those of the field `data` do.
pub open spec fn msats_in(j: Json) -> Option<u64>
    decreases j,
{
    proof {
        lemma_field_smaller(j, "data"@);
    }
    match field_amount(j, "msats"@) {
        Some(n) => Some(n),
        None => match field_amount(j, "balance_msats"@) {
            Some(n) => Some(n),
            None => match field_amount(j, "sats"@) {
                Some(n) => Some(thousandfold(n)),
                None => match field_amount(j, "balance_sats"@) {
                    Some(n) => Some(thousandfold(n)),
                    None => match j.field("data"@) {
                        Some(data) => msats_in(data),
                        None => None,
                    },
                },
            },
        },
    }
}

/// A balance in thousandths counts as it is, one in satoshis a thousandfold as far as 64 bits go;
/// thousandths come first. A balance under another name is none, and what stands under `data`
/// counts where nothing else does.
pub proof fn lemma_balance(j: Json, n: u64)
    ensures
        field_amount(j, "msats"@) == Some(n) ==> msats_in(j) == Some(n),
        field_amount(j, "msats"@) is None && field_amount(j, "balance_msats"@) == Some(n)
            ==> msats_in(j) == Some(n),
        field_amount(j, "msats"@) is None && field_amount(j, "balance_msats"@) is None && (
        field_amount(j, "sats"@) == Some(n) || field_amount(j, "sats"@) is None && field_amount(
            j,
            "balance_sats"@,
        ) == Some(n)) ==> {
            &&& msats_in(j) is Some
            &&& 1000 * n <= 0xffff_ffff_ffff_ffff ==> msats_in(j)->0 == 1000 * n
            &&& 1000 * n > 0xffff_ffff_ffff_ffff ==> msats_in(j)->0 == 0xffff_ffff_ffff_ffff
        },
        field_amount(j, "msats"@) is None && field_amount(j, "balance_msats"@) is None
            && field_amount(j, "sats"@) is None && field_amount(j, "balance_sats"@) is None ==> {
            &&& j.field("data"@) is None ==> msats_in(j) is None
            &&& j.field("data"@) matches Some(data) ==> msats_in(j) == msats_in(data)
        },
{
    lemma_field_smaller(j, "data"@);
}

/// The amount in a field.
fn get_amount(v: &JsonValue, name: &str) -> (n: Option<u64>)
    ensures
        n == field_amount(json_view(*v), name@),
{
    match v.get(name) {
        Some(x) => x.as_amount(),
        None => None,
    }
}

/// A number of satoshis in thousandths.
fn in_msats(n: u64) -> (m: u64)
    ensures
        m == thousandfold(n),
{
    if n > u64::MAX / 1000 {
        u64::MAX
    } else {
        n * 1000
    }
}

/// The balance in a reply, in thousandths of a satoshi.
pub fn read_msats(v: &JsonValue) -> (n: Option<u64>)
    ensures
        n == msats_in(json_view(*v)),
    decreases *v,
{
    if let Some(n) = get_amount(v, "msats") {
        return Some(n);
    }
    if let Some(n) = get_amount(v, "balance_msats") {
        return Some(n);
    }
    if let Some(n) = get_amount(v, "sats") {
        return Some(in_msats(n));
    }
    if let Some(n) = get_amount(v, "balance_sats") {
        return Some(in_msats(n));
    }
    match v.get("data") {
        Some(data) => read_msats(data),
        None => None,
    }
}

/// The balance in the text of a reply, in thousandths of a satoshi.
pub fn parse_balance_msats_from_json(body: &str) -> (n: Option<u64>)
    ensures
        n == match json_parsed(body@) {
            Ok(j) => msats_in(j),
            Err(_) => None,
        },
{
    match parse_json(body) {
        Ok(v) => read_msats(&v),
        Err(_) => None,
    }
}

} // verus!
