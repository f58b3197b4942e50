//! Requests to the helper program that holds the Cashu wallet, and its replies.

use vstd::prelude::*;
use vstd::string::StringExecFns;

use crate::bolt11::{bolt11_looks, looks_like_bolt11};
use crate::cashu::{preview_of, token_fault, token_preview_text, CashuToken};
use crate::chain_select::{given, given_text, str_view};
use crate::funding::text_view;
use crate::json::{add_member, json_member, json_quoted, lemma_member_head, quote_json};
use crate::path::{
    count_parts, is_absolute, join, lemma_join_one_more, may_be_absolute, may_have_parts, may_join,
    may_join_all,
};
use crate::secret::wipe_text;
use crate::text::{
    chars_of, debug_quoted, debug_text, decimal, decimal_text, has_part, holds_all,
    lemma_holds, lemma_holds_joined, lemma_holds_none, lemma_holds_one_more, lemma_trimmed,
    lemma_trimmed_again, lines, lines_of, lossy_text, same, take, text_from_bytes, text_of, texts, trim, trimmed, upper, uppered,
};

verus! {

/// Setting: path of the helper program.
pub const CDK_MINT_BIN_ENV: &'static str = "GROK_BITCOIN_CDK_MINT_BIN";

/// Setting: directory below which each wallet has its own.
pub const CDK_STORAGE_ENV: &'static str = "GROK_BITCOIN_CDK_STORAGE";

/// File name of the helper program.
pub const CDK_MINT_BIN_NAME: &'static str = "grok-bitcoin-cdk-mint";

/// Version of requests and replies.
pub const CDK_IPC_PROTOCOL_V: u32 = 1;

/// What a person is told where the helper cannot be started.
pub const CDK_HELPER_MISSING: &'static str = "grok-bitcoin-cdk-mint helper not available (build with `cargo build --manifest-path crates/codegen/grok-bitcoin-cdk-mint/Cargo.toml` and set GROK_BITCOIN_CDK_MINT_BIN or PATH); NUT-04 HTTP mint quote still works; proofs\u{2192}cashuA requires the helper";

/// Request for a mint quote. It holds recovery words, which are wiped when it is dropped.
pub struct CdkMintQuoteRequest {
    pub mint_url: String,
    pub amount_sats: u64,
    pub mnemonic_phrase: String,
    pub passphrase: String,
    pub storage_dir: String,
    pub timeout_secs: u64,
}

/// Model of [`CdkMintQuoteRequest`].
pub struct QuoteAsk {
    pub mint_url: Seq<char>,
    pub amount_sats: u64,
    pub mnemonic_phrase: Seq<char>,
    pub passphrase: Seq<char>,
    pub storage_dir: Seq<char>,
    pub timeout_secs: u64,
}

impl View for CdkMintQuoteRequest {
    type V = QuoteAsk;

    open spec fn view(&self) -> QuoteAsk {
        QuoteAsk {
            mint_url: self.mint_url@,
            amount_sats: self.amount_sats,
            mnemonic_phrase: self.mnemonic_phrase@,
            passphrase: self.passphrase@,
            storage_dir: self.storage_dir@,
            timeout_secs: self.timeout_secs,
        }
    }
}

impl Drop for CdkMintQuoteRequest {
    fn drop(&mut self)
        opens_invariants none
        no_unwind
    {
        wipe_text(&mut self.mnemonic_phrase);
        wipe_text(&mut self.passphrase);
    }
}

/// Request to turn a paid quote into a token. It holds recovery words, which are wiped when it is
/// dropped.
pub struct CdkMintAfterPaidRequest {
    pub mint_url: String,
    pub quote_id: String,
    pub mnemonic_phrase: String,
    pub passphrase: String,
    pub storage_dir: String,
    pub timeout_secs: u64,
}

/// Model of [`CdkMintAfterPaidRequest`].
pub struct TokenAsk {
    pub mint_url: Seq<char>,
    pub quote_id: Seq<char>,
    pub mnemonic_phrase: Seq<char>,
    pub passphrase: Seq<char>,
    pub storage_dir: Seq<char>,
    pub timeout_secs: u64,
}

impl View for CdkMintAfterPaidRequest {
    type V = TokenAsk;

    open spec fn view(&self) -> TokenAsk {
        TokenAsk {
            mint_url: self.mint_url@,
            quote_id: self.quote_id@,
            mnemonic_phrase: self.mnemonic_phrase@,
            passphrase: self.passphrase@,
            storage_dir: self.storage_dir@,
            timeout_secs: self.timeout_secs,
        }
    }
}

impl Drop for CdkMintAfterPaidRequest {
    fn drop(&mut self)
        opens_invariants none
        no_unwind
    {
        wipe_text(&mut self.mnemonic_phrase);
        wipe_text(&mut self.passphrase);
    }
}

/// Request to pay an invoice with a token. It holds the token and recovery words, which are wiped
/// when it is dropped.
pub struct CdkMeltTokenRequest {
    pub mint_url: String,
    pub token: String,
    pub bolt11: String,
    pub mnemonic_phrase: String,
    pub passphrase: String,
    pub storage_dir: String,
    pub timeout_secs: u64,
}

/// Model of [`CdkMeltTokenRequest`].
pub struct MeltAsk {
    pub mint_url: Seq<char>,
    pub token: Seq<char>,
    pub bolt11: Seq<char>,
    pub mnemonic_phrase: Seq<char>,
    pub passphrase: Seq<char>,
    pub storage_dir: Seq<char>,
    pub timeout_secs: u64,
}

impl View for CdkMeltTokenRequest {
    type V = MeltAsk;

    open spec fn view(&self) -> MeltAsk {
        MeltAsk {
            mint_url: self.mint_url@,
            token: self.token@,
            bolt11: self.bolt11@,
            mnemonic_phrase: self.mnemonic_phrase@,
            passphrase: self.passphrase@,
            storage_dir: self.storage_dir@,
            timeout_secs: self.timeout_secs,
        }
    }
}

impl Drop for CdkMeltTokenRequest {
    fn drop(&mut self)
        opens_invariants none
        no_unwind
    {
        wipe_text(&mut self.token);
        wipe_text(&mut self.mnemonic_phrase);
        wipe_text(&mut self.passphrase);
    }
}

/// What came of a request for a mint quote.
#[derive(PartialEq, Eq, Debug)]
pub enum CdkMintQuoteTransportResult {
    Quote { quote_id: String, bolt11: String, amount_sats: u64 },
    Failed { reason: String },
}

/// Model of [`CdkMintQuoteTransportResult`].
pub enum QuoteAnswer {
    Quote { quote_id: Seq<char>, bolt11: Seq<char>, amount_sats: u64 },
    Failed { reason: Seq<char> },
}

impl View for CdkMintQuoteTransportResult {
    type V = QuoteAnswer;

    open spec fn view(&self) -> QuoteAnswer {
        match *self {
            CdkMintQuoteTransportResult::Quote { quote_id, bolt11, amount_sats } => {
                QuoteAnswer::Quote { quote_id: quote_id@, bolt11: bolt11@, amount_sats }
            },
            CdkMintQuoteTransportResult::Failed { reason } => QuoteAnswer::Failed {
                reason: reason@,
            },
        }
    }
}

/// What came of a request for a token.
#[derive(PartialEq, Eq)]
pub enum CdkMintAfterPaidTransportResult {
    Token { token: String, amount_sats: u64, quote_id: String },
    Failed { reason: String },
}

/// Model of [`CdkMintAfterPaidTransportResult`].
pub enum TokenAnswer {
    Token { token: Seq<char>, amount_sats: u64, quote_id: Seq<char> },
    Failed { reason: Seq<char> },
}

impl View for CdkMintAfterPaidTransportResult {
    type V = TokenAnswer;

    open spec fn view(&self) -> TokenAnswer {
        match *self {
            CdkMintAfterPaidTransportResult::Token { token, amount_sats, quote_id } => {
                TokenAnswer::Token { token: token@, amount_sats, quote_id: quote_id@ }
            },
            CdkMintAfterPaidTransportResult::Failed { reason } => TokenAnswer::Failed {
                reason: reason@,
            },
        }
    }
}

/// A token as it is printed for a developer: its preview in its place.
pub open spec fn token_shown(token: Seq<char>, amount_sats: u64, quote_id: Seq<char>) -> Seq<char> {
    "Token { token: "@ + debug_quoted(preview_of(token)) + ", amount_sats: "@ + decimal(
        amount_sats as nat,
    ) + ", quote_id: "@ + debug_quoted(quote_id) + " }"@
}

/// A token as it is printed for a developer.
pub fn token_debug_text(token: &str, amount_sats: u64, quote_id: &str) -> (text: String)
    ensures
        text@ == token_shown(token@, amount_sats, quote_id@),
{
    let mut text = "Token { token: ".to_owned();
    text.append(debug_text(token_preview_text(token).as_str()).as_str());
    text.append(", amount_sats: ");
    text.append(decimal_text(amount_sats).as_str());
    text.append(", quote_id: ");
    text.append(debug_text(quote_id).as_str());
    text.append(" }");
    text
}

impl CdkMintAfterPaidTransportResult {
    /// The result, as it is printed for a developer: never the whole token.
    pub fn debug_text(&self) -> (text: String)
        ensures
            text@ == match self@ {
                TokenAnswer::Token { token, amount_sats, quote_id } => token_shown(
                    token,
                    amount_sats,
                    quote_id,
                ),
                TokenAnswer::Failed { reason } => "Failed { reason: "@ + debug_quoted(reason)
                    + " }"@,
            },
    {
        match self {
            CdkMintAfterPaidTransportResult::Token { token, amount_sats, quote_id } => {
                token_debug_text(token.as_str(), *amount_sats, quote_id.as_str())
            },
            CdkMintAfterPaidTransportResult::Failed { reason } => {
                let mut text = "Failed { reason: ".to_owned();
                text.append(debug_text(reason.as_str()).as_str());
                text.append(" }");
                text
            },
        }
    }
}

/// What came of a request to pay an invoice with a token.
#[derive(PartialEq, Eq, Debug)]
pub enum CdkMeltTokenTransportResult {
    Paid { quote_id: String, amount_sats: u64, fee_sats: u64, payment_preimage: Option<String> },
    Failed { reason: String },
}

/// Model of [`CdkMeltTokenTransportResult`].
pub enum MeltAnswer {
    Paid {
        quote_id: Seq<char>,
        amount_sats: u64,
        fee_sats: u64,
        payment_preimage: Option<Seq<char>>,
    },
    Failed { reason: Seq<char> },
}

impl View for CdkMeltTokenTransportResult {
    type V = MeltAnswer;

    open spec fn view(&self) -> MeltAnswer {
        match *self {
            CdkMeltTokenTransportResult::Paid {
                quote_id,
                amount_sats,
                fee_sats,
                payment_preimage,
            } => MeltAnswer::Paid {
                quote_id: quote_id@,
                amount_sats,
                fee_sats,
                payment_preimage: text_view(payment_preimage),
            },
            CdkMeltTokenTransportResult::Failed { reason } => MeltAnswer::Failed {
                reason: reason@,
            },
        }
    }
}

/// The way to the helper, for its users to provide. Two calls with one request may get different
/// answers. An implementation creates the directory of a request where it is missing, and invents
/// no invoice, token or payment.
pub trait CdkMintTransport {
    /// Whether there is a helper program to start.
    fn helper_linked(&self) -> bool;

    /// Asks for a mint quote.
    fn mint_quote(&self, request: &CdkMintQuoteRequest) -> CdkMintQuoteTransportResult;

    /// Asks for the token of a paid quote.
    fn mint_after_paid(&self, request: &CdkMintAfterPaidRequest) -> CdkMintAfterPaidTransportResult;

    /// Asks to pay an invoice with a token.
    fn melt_token(&self, request: &CdkMeltTokenRequest) -> CdkMeltTokenTransportResult;
}

/// Whether the helper may say this when it is asked whether it is there.
pub open spec fn may_be_linked<H: CdkMintTransport>(helper: H, linked: bool) -> bool {
    call_ensures(H::helper_linked, (&helper,), linked)
}

/// Whether the helper may answer a request for a mint quote like this.
pub open spec fn may_quote<H: CdkMintTransport>(
    helper: H,
    ask: QuoteAsk,
    answer: QuoteAnswer,
) -> bool {
    exists|request: &CdkMintQuoteRequest, r: CdkMintQuoteTransportResult|
        request@ == ask && r@ == answer && #[trigger] call_ensures(
            H::mint_quote,
            (&helper, request),
            r,
        )
}

/// Whether the helper may answer a request for a token like this.
pub open spec fn may_mint<H: CdkMintTransport>(
    helper: H,
    ask: TokenAsk,
    answer: TokenAnswer,
) -> bool {
    exists|request: &CdkMintAfterPaidRequest, r: CdkMintAfterPaidTransportResult|
        request@ == ask && r@ == answer && #[trigger] call_ensures(
            H::mint_after_paid,
            (&helper, request),
            r,
        )
}

/// Whether the helper may answer a request to pay an invoice like this.
pub open spec fn may_melt<H: CdkMintTransport>(helper: H, ask: MeltAsk, answer: MeltAnswer) -> bool {
    exists|request: &CdkMeltTokenRequest, r: CdkMeltTokenTransportResult|
        request@ == ask && r@ == answer && #[trigger] call_ensures(
            H::melt_token,
            (&helper, request),
            r,
        )
}

/// The start of a request in JSON: the version and the command.
pub open spec fn json_command(cmd: Seq<char>) -> Seq<char> {
    "{\"v\":1,\"cmd\":"@ + json_quoted(cmd)
}

/// The part that every request ends with.
pub open spec fn json_wallet(
    mnemonic: Seq<char>,
    passphrase: Seq<char>,
    storage_dir: Seq<char>,
    timeout_secs: u64,
) -> Seq<char> {
    json_member("mnemonic"@, json_quoted(mnemonic)) + json_member(
        "passphrase"@,
        json_quoted(passphrase),
    ) + json_member("storage_dir"@, json_quoted(storage_dir)) + json_member(
        "timeout_secs"@,
        decimal(timeout_secs as nat),
    ) + "}"@
}

/// A request for a mint quote in JSON.
pub open spec fn quote_payload(request: QuoteAsk) -> Seq<char> {
    json_command("mint_quote"@) + json_member("mint_url"@, json_quoted(request.mint_url))
        + json_member("amount_sats"@, decimal(request.amount_sats as nat)) + json_wallet(
        request.mnemonic_phrase,
        request.passphrase,
        request.storage_dir,
        request.timeout_secs,
    )
}

/// A request for a token in JSON.
pub open spec fn token_payload(request: TokenAsk) -> Seq<char> {
    json_command("mint_after_paid"@) + json_member("mint_url"@, json_quoted(request.mint_url))
        + json_member("quote_id"@, json_quoted(request.quote_id)) + json_wallet(
        request.mnemonic_phrase,
        request.passphrase,
        request.storage_dir,
        request.timeout_secs,
    )
}

/// A request to pay an invoice with a token in JSON.
pub open spec fn melt_payload(request: MeltAsk) -> Seq<char> {
    json_command("melt_token"@) + json_member("mint_url"@, json_quoted(request.mint_url))
        + json_member("token"@, json_quoted(request.token)) + json_member(
        "bolt11"@,
        json_quoted(request.bolt11),
    ) + json_wallet(
        request.mnemonic_phrase,
        request.passphrase,
        request.storage_dir,
        request.timeout_secs,
    )
}

/// The fields that every request ends with.
spec fn wallet_members(
    mnemonic: Seq<char>,
    passphrase: Seq<char>,
    storage_dir: Seq<char>,
    timeout_secs: u64,
) -> Seq<Seq<char>> {
    seq![
        ",\"mnemonic\":"@ + json_quoted(mnemonic),
        ",\"passphrase\":"@ + json_quoted(passphrase),
        ",\"storage_dir\":"@ + json_quoted(storage_dir),
        ",\"timeout_secs\":"@ + decimal(timeout_secs as nat),
    ]
}

proof fn lemma_json_wallet(
    mnemonic: Seq<char>,
    passphrase: Seq<char>,
    storage_dir: Seq<char>,
    timeout_secs: u64,
)
    ensures
        holds_all(
            json_wallet(mnemonic, passphrase, storage_dir, timeout_secs),
            wallet_members(mnemonic, passphrase, storage_dir, timeout_secs),
        ),
{
    lemma_member_head();
    let m0 = json_member("mnemonic"@, json_quoted(mnemonic));
    let m1 = json_member("passphrase"@, json_quoted(passphrase));
    let m2 = json_member("storage_dir"@, json_quoted(storage_dir));
    let m3 = json_member("timeout_secs"@, decimal(timeout_secs as nat));
    lemma_holds_none(Seq::empty());
    lemma_holds_one_more(Seq::empty(), Seq::empty(), m0);
    assert(Seq::<char>::empty() + m0 =~= m0);
    assert(Seq::<Seq<char>>::empty().push(m0) =~= seq![m0]);
    lemma_holds_one_more(m0, seq![m0], m1);
    lemma_holds_one_more(m0 + m1, seq![m0].push(m1), m2);
    lemma_holds_one_more(m0 + m1 + m2, seq![m0].push(m1).push(m2), m3);
    let parts = seq![m0].push(m1).push(m2).push(m3);
    lemma_holds_none("}"@);
    lemma_holds_joined(m0 + m1 + m2 + m3, parts, "}"@, Seq::empty());
    assert(",\"mnemonic\":"@ =~= ",\""@ + "mnemonic"@ + "\":"@) by {
        reveal_strlit("mnemonic");
        reveal_strlit(",\"mnemonic\":");
    }
    assert(",\"passphrase\":"@ =~= ",\""@ + "passphrase"@ + "\":"@) by {
        reveal_strlit("passphrase");
        reveal_strlit(",\"passphrase\":");
    }
    assert(",\"storage_dir\":"@ =~= ",\""@ + "storage_dir"@ + "\":"@) by {
        reveal_strlit("storage_dir");
        reveal_strlit(",\"storage_dir\":");
    }
    assert(",\"timeout_secs\":"@ =~= ",\""@ + "timeout_secs"@ + "\":"@) by {
        reveal_strlit("timeout_secs");
        reveal_strlit(",\"timeout_secs\":");
    }
    assert(parts + Seq::<Seq<char>>::empty() =~= wallet_members(
        mnemonic,
        passphrase,
        storage_dir,
        timeout_secs,
    ));
}

/// A request for a mint quote holds the version, its command and each of its values under its own
/// name.
pub proof fn lemma_quote_payload(request: QuoteAsk)
    ensures
        has_part(quote_payload(request), "{\"v\":1,\"cmd\":"@ + json_quoted("mint_quote"@)),
        has_part(quote_payload(request), ",\"mint_url\":"@ + json_quoted(request.mint_url)),
        has_part(quote_payload(request), ",\"amount_sats\":"@ + decimal(request.amount_sats as nat)),
        has_part(quote_payload(request), ",\"mnemonic\":"@ + json_quoted(request.mnemonic_phrase)),
        has_part(quote_payload(request), ",\"passphrase\":"@ + json_quoted(request.passphrase)),
        has_part(quote_payload(request), ",\"storage_dir\":"@ + json_quoted(request.storage_dir)),
        has_part(quote_payload(request), ",\"timeout_secs\":"@ + decimal(request.timeout_secs as nat)),
{
    lemma_member_head();
    let s0 = json_command("mint_quote"@);
    let l0 = seq![s0];
    lemma_holds_none(Seq::empty());
    lemma_holds_one_more(Seq::empty(), Seq::empty(), s0);
    assert(Seq::<char>::empty() + s0 =~= s0);
    assert(Seq::<Seq<char>>::empty().push(s0) =~= l0);
    let m0 = json_member("mint_url"@, json_quoted(request.mint_url));
    let (s1, l1) = (s0 + m0, l0.push(m0));
    lemma_holds_one_more(s0, l0, m0);
    let m1 = json_member("amount_sats"@, decimal(request.amount_sats as nat));
    let (s2, l2) = (s1 + m1, l1.push(m1));
    lemma_holds_one_more(s1, l1, m1);
    let parts = wallet_members(
        request.mnemonic_phrase,
        request.passphrase,
        request.storage_dir,
        request.timeout_secs,
    );
    let wallet = json_wallet(
        request.mnemonic_phrase,
        request.passphrase,
        request.storage_dir,
        request.timeout_secs,
    );
    lemma_json_wallet(
        request.mnemonic_phrase,
        request.passphrase,
        request.storage_dir,
        request.timeout_secs,
    );
    lemma_holds_joined(s2, l2, wallet, parts);
    let all = l2 + parts;
    let text = s2 + wallet;
    assert(text == quote_payload(request));
    lemma_holds(text, all, 0);
    lemma_holds(text, all, 1);
    assert(all[1] == m0);
    assert(",\"mint_url\":"@ =~= ",\""@ + "mint_url"@ + "\":"@) by {
        reveal_strlit("mint_url");
        reveal_strlit(",\"mint_url\":");
    }
    lemma_holds(text, all, 2);
    assert(all[2] == m1);
    assert(",\"amount_sats\":"@ =~= ",\""@ + "amount_sats"@ + "\":"@) by {
        reveal_strlit("amount_sats");
        reveal_strlit(",\"amount_sats\":");
    }
    lemma_holds(text, all, 3);
    assert(all[3] == parts[0]);
    lemma_holds(text, all, 4);
    assert(all[4] == parts[1]);
    lemma_holds(text, all, 5);
    assert(all[5] == parts[2]);
    lemma_holds(text, all, 6);
    assert(all[6] == parts[3]);
}

/// A request for a token holds the version, its command and each of its values under its own name.
pub proof fn lemma_token_payload(request: TokenAsk)
    ensures
        has_part(token_payload(request), "{\"v\":1,\"cmd\":"@ + json_quoted("mint_after_paid"@)),
        has_part(token_payload(request), ",\"mint_url\":"@ + json_quoted(request.mint_url)),
        has_part(token_payload(request), ",\"quote_id\":"@ + json_quoted(request.quote_id)),
        has_part(token_payload(request), ",\"mnemonic\":"@ + json_quoted(request.mnemonic_phrase)),
        has_part(token_payload(request), ",\"passphrase\":"@ + json_quoted(request.passphrase)),
        has_part(token_payload(request), ",\"storage_dir\":"@ + json_quoted(request.storage_dir)),
        has_part(token_payload(request), ",\"timeout_secs\":"@ + decimal(request.timeout_secs as nat)),
{
    lemma_member_head();
    let s0 = json_command("mint_after_paid"@);
    let l0 = seq![s0];
    lemma_holds_none(Seq::empty());
    lemma_holds_one_more(Seq::empty(), Seq::empty(), s0);
    assert(Seq::<char>::empty() + s0 =~= s0);
    assert(Seq::<Seq<char>>::empty().push(s0) =~= l0);
    let m0 = json_member("mint_url"@, json_quoted(request.mint_url));
    let (s1, l1) = (s0 + m0, l0.push(m0));
    lemma_holds_one_more(s0, l0, m0);
    let m1 = json_member("quote_id"@, json_quoted(request.quote_id));
    let (s2, l2) = (s1 + m1, l1.push(m1));
    lemma_holds_one_more(s1, l1, m1);
    let parts = wallet_members(
        request.mnemonic_phrase,
        request.passphrase,
        request.storage_dir,
        request.timeout_secs,
    );
    let wallet = json_wallet(
        request.mnemonic_phrase,
        request.passphrase,
        request.storage_dir,
        request.timeout_secs,
    );
    lemma_json_wallet(
        request.mnemonic_phrase,
        request.passphrase,
        request.storage_dir,
        request.timeout_secs,
    );
    lemma_holds_joined(s2, l2, wallet, parts);
    let all = l2 + parts;
    let text = s2 + wallet;
    assert(text == token_payload(request));
    lemma_holds(text, all, 0);
    lemma_holds(text, all, 1);
    assert(all[1] == m0);
    assert(",\"mint_url\":"@ =~= ",\""@ + "mint_url"@ + "\":"@) by {
        reveal_strlit("mint_url");
        reveal_strlit(",\"mint_url\":");
    }
    lemma_holds(text, all, 2);
    assert(all[2] == m1);
    assert(",\"quote_id\":"@ =~= ",\""@ + "quote_id"@ + "\":"@) by {
        reveal_strlit("quote_id");
        reveal_strlit(",\"quote_id\":");
    }
    lemma_holds(text, all, 3);
    assert(all[3] == parts[0]);
    lemma_holds(text, all, 4);
    assert(all[4] == parts[1]);
    lemma_holds(text, all, 5);
    assert(all[5] == parts[2]);
    lemma_holds(text, all, 6);
    assert(all[6] == parts[3]);
}

/// A request to pay an invoice holds the version, its command and each of its values under its own
/// name.
pub proof fn lemma_melt_payload(request: MeltAsk)
    ensures
        has_part(melt_payload(request), "{\"v\":1,\"cmd\":"@ + json_quoted("melt_token"@)),
        has_part(melt_payload(request), ",\"mint_url\":"@ + json_quoted(request.mint_url)),
        has_part(melt_payload(request), ",\"token\":"@ + json_quoted(request.token)),
        has_part(melt_payload(request), ",\"bolt11\":"@ + json_quoted(request.bolt11)),
        has_part(melt_payload(request), ",\"mnemonic\":"@ + json_quoted(request.mnemonic_phrase)),
        has_part(melt_payload(request), ",\"passphrase\":"@ + json_quoted(request.passphrase)),
        has_part(melt_payload(request), ",\"storage_dir\":"@ + json_quoted(request.storage_dir)),
        has_part(melt_payload(request), ",\"timeout_secs\":"@ + decimal(request.timeout_secs as nat)),
{
    lemma_member_head();
    let s0 = json_command("melt_token"@);
    let l0 = seq![s0];
    lemma_holds_none(Seq::empty());
    lemma_holds_one_more(Seq::empty(), Seq::empty(), s0);
    assert(Seq::<char>::empty() + s0 =~= s0);
    assert(Seq::<Seq<char>>::empty().push(s0) =~= l0);
    let m0 = json_member("mint_url"@, json_quoted(request.mint_url));
    let (s1, l1) = (s0 + m0, l0.push(m0));
    lemma_holds_one_more(s0, l0, m0);
    let m1 = json_member("token"@, json_quoted(request.token));
    let (s2, l2) = (s1 + m1, l1.push(m1));
    lemma_holds_one_more(s1, l1, m1);
    let m2 = json_member("bolt11"@, json_quoted(request.bolt11));
    let (s3, l3) = (s2 + m2, l2.push(m2));
    lemma_holds_one_more(s2, l2, m2);
    let parts = wallet_members(
        request.mnemonic_phrase,
        request.passphrase,
        request.storage_dir,
        request.timeout_secs,
    );
    let wallet = json_wallet(
        request.mnemonic_phrase,
        request.passphrase,
        request.storage_dir,
        request.timeout_secs,
    );
    lemma_json_wallet(
        request.mnemonic_phrase,
        request.passphrase,
        request.storage_dir,
        request.timeout_secs,
    );
    lemma_holds_joined(s3, l3, wallet, parts);
    let all = l3 + parts;
    let text = s3 + wallet;
    assert(text == melt_payload(request));
    lemma_holds(text, all, 0);
    lemma_holds(text, all, 1);
    assert(all[1] == m0);
    assert(",\"mint_url\":"@ =~= ",\""@ + "mint_url"@ + "\":"@) by {
        reveal_strlit("mint_url");
        reveal_strlit(",\"mint_url\":");
    }
    lemma_holds(text, all, 2);
    assert(all[2] == m1);
    assert(",\"token\":"@ =~= ",\""@ + "token"@ + "\":"@) by {
        reveal_strlit("token");
        reveal_strlit(",\"token\":");
    }
    lemma_holds(text, all, 3);
    assert(all[3] == m2);
    assert(",\"bolt11\":"@ =~= ",\""@ + "bolt11"@ + "\":"@) by {
        reveal_strlit("bolt11");
        reveal_strlit(",\"bolt11\":");
    }
    lemma_holds(text, all, 4);
    assert(all[4] == parts[0]);
    lemma_holds(text, all, 5);
    assert(all[5] == parts[1]);
    lemma_holds(text, all, 6);
    assert(all[6] == parts[2]);
    lemma_holds(text, all, 7);
    assert(all[7] == parts[3]);
}

/// The start of a request in JSON.
fn start_command(cmd: &str) -> (text: String)
    ensures
        text@ == json_command(cmd@),
{
    let mut text = "{\"v\":1,\"cmd\":".to_owned();
    text.append(quote_json(cmd).as_str());
    text
}

/// Appends the part that every request ends with.
fn add_wallet(
    text: &mut String,
    mnemonic: &str,
    passphrase: &str,
    storage_dir: &str,
    timeout_secs: u64,
)
    ensures
        final(text)@ == old(text)@ + json_wallet(
            mnemonic@,
            passphrase@,
            storage_dir@,
            timeout_secs,
        ),
{
    let ghost before = text@;
    let mut words = quote_json(mnemonic);
    add_member(text, "mnemonic", words.as_str());
    wipe_text(&mut words);
    let mut quoted = quote_json(passphrase);
    add_member(text, "passphrase", quoted.as_str());
    wipe_text(&mut quoted);
    add_member(text, "storage_dir", quote_json(storage_dir).as_str());
    add_member(text, "timeout_secs", decimal_text(timeout_secs).as_str());
    text.append("}");
    assert(text@ =~= before + json_wallet(mnemonic@, passphrase@, storage_dir@, timeout_secs));
}

/// A request for a mint quote in JSON.
pub fn build_mint_quote_ipc_payload(request: &CdkMintQuoteRequest) -> (text: String)
    ensures
        text@ == quote_payload(request@),
{
    let mut text = start_command("mint_quote");
    add_member(&mut text, "mint_url", quote_json(request.mint_url.as_str()).as_str());
    add_member(&mut text, "amount_sats", decimal_text(request.amount_sats).as_str());
    add_wallet(
        &mut text,
        request.mnemonic_phrase.as_str(),
        request.passphrase.as_str(),
        request.storage_dir.as_str(),
        request.timeout_secs,
    );
    text
}

/// A request for a token in JSON.
pub fn build_mint_after_paid_ipc_payload(request: &CdkMintAfterPaidRequest) -> (text: String)
    ensures
        text@ == token_payload(request@),
{
    let mut text = start_command("mint_after_paid");
    add_member(&mut text, "mint_url", quote_json(request.mint_url.as_str()).as_str());
    add_member(&mut text, "quote_id", quote_json(request.quote_id.as_str()).as_str());
    add_wallet(
        &mut text,
        request.mnemonic_phrase.as_str(),
        request.passphrase.as_str(),
        request.storage_dir.as_str(),
        request.timeout_secs,
    );
    text
}

/// A request to pay an invoice with a token in JSON.
pub fn build_melt_token_ipc_payload(request: &CdkMeltTokenRequest) -> (text: String)
    ensures
        text@ == melt_payload(request@),
{
    let mut text = start_command("melt_token");
    add_member(&mut text, "mint_url", quote_json(request.mint_url.as_str()).as_str());
    let mut token = quote_json(request.token.as_str());
    add_member(&mut text, "token", token.as_str());
    wipe_text(&mut token);
    add_member(&mut text, "bolt11", quote_json(request.bolt11.as_str()).as_str());
    add_wallet(
        &mut text,
        request.mnemonic_phrase.as_str(),
        request.passphrase.as_str(),
        request.storage_dir.as_str(),
        request.timeout_secs,
    );
    text
}

/// Reply of the helper.
#[derive(PartialEq, Eq)]
pub struct HelperResponse {
    pub v: Option<u32>,
    pub ok: bool,
    pub error: Option<String>,
    pub quote_id: Option<String>,
    pub bolt11: Option<String>,
    pub amount_sats: Option<u64>,
    pub token: Option<String>,
    pub state: Option<String>,
    pub fee_sats: Option<u64>,
    pub payment_preimage: Option<String>,
}

/// Model of [`HelperResponse`].
pub struct HelperReply {
    pub v: Option<u32>,
    pub ok: bool,
    pub error: Option<Seq<char>>,
    pub quote_id: Option<Seq<char>>,
    pub bolt11: Option<Seq<char>>,
    pub amount_sats: Option<u64>,
    pub token: Option<Seq<char>>,
    pub state: Option<Seq<char>>,
    pub fee_sats: Option<u64>,
    pub payment_preimage: Option<Seq<char>>,
}

impl View for HelperResponse {
    type V = HelperReply;

    open spec fn view(&self) -> HelperReply {
        HelperReply {
            v: self.v,
            ok: self.ok,
            error: text_view(self.error),
            quote_id: text_view(self.quote_id),
            bolt11: text_view(self.bolt11),
            amount_sats: self.amount_sats,
            token: text_view(self.token),
            state: text_view(self.state),
            fee_sats: self.fee_sats,
            payment_preimage: text_view(self.payment_preimage),
        }
    }
}

/// The first line that holds more than white space, without the white space around it; an empty
/// text where there is none.
pub open spec fn first_filled(list: Seq<Seq<char>>) -> Seq<char>
    decreases list.len(),
{
    if list.len() == 0 {
        Seq::empty()
    } else if trimmed(list[0]).len() > 0 {
        trimmed(list[0])
    } else {
        first_filled(list.skip(1))
    }
}

/// The first line that is not blank counts, white space around it aside, and no other does.
pub proof fn lemma_first_filled(list: Seq<Seq<char>>, i: int)
    requires
        0 <= i <= list.len(),
        forall|k: int| 0 <= k < i ==> trimmed(#[trigger] list[k]).len() == 0,
    ensures
        i < list.len() && trimmed(list[i]).len() > 0 ==> first_filled(list) == trimmed(list[i]),
        i == list.len() ==> first_filled(list) == Seq::<char>::empty(),
    decreases list.len(),
{
    if i > 0 {
        assert(trimmed(list[0]).len() == 0);
        assert forall|k: int| 0 <= k < i - 1 implies trimmed(#[trigger] list.skip(1)[k]).len()
            == 0 by {
            assert(list.skip(1)[k] == list[k + 1]);
        }
        lemma_first_filled(list.skip(1), i - 1);
    }
}

/// The first line that holds more than white space.
fn first_filled_line(text: &str) -> (line: String)
    ensures
        line@ == first_filled(lines(text@)),
{
    let list = lines_of(text);
    let ghost all = texts(list@);
    assert(all.skip(0) =~= all);
    for i in 0..list.len()
        invariant
            all == texts(list@),
            all == lines(text@),
            first_filled(all) == first_filled(all.skip(i as int)),
    {
        let line = trim(list[i].as_str());
        assert(all.skip(i as int)[0] == list@[i as int]@);
        assert(all.skip(i as int).skip(1) =~= all.skip(i + 1));
        if !line.is_empty() {
            return line.to_owned();
        }
    }
    assert(all.skip(all.len() as int) =~= Seq::empty());
    String::new()
}

/// The model of what reading a reply gave.
pub open spec fn reply_result(r: Result<HelperResponse, String>) -> Result<HelperReply, Seq<char>> {
    match r {
        Ok(reply) => Ok(reply@),
        Err(e) => Err(e@),
    }
}

/// A reply that was read, of the right version, or what is wrong with it.
pub open spec fn checked_reply(read: Result<HelperReply, Seq<char>>) -> Result<
    HelperReply,
    Seq<char>,
> {
    match read {
        Err(e) => Err("helper JSON parse: "@ + e),
        Ok(reply) => match reply.v {
            Some(v) => if v == CDK_IPC_PROTOCOL_V {
                Ok(reply)
            } else {
                Err("helper protocol v="@ + decimal(v as nat) + " (want 1)"@)
            },
            None => Err("helper response missing protocol v (want 1)"@),
        },
    }
}

/// A reply that was read, of the right version.
pub fn checked_helper_response(read: Result<HelperResponse, String>) -> (r: Result<
    HelperResponse,
    String,
>)
    ensures
        reply_result(r) == checked_reply(reply_result(read)),
{
    match read {
        Err(e) => {
            let mut message = "helper JSON parse: ".to_owned();
            message.append(e.as_str());
            Err(message)
        },
        Ok(reply) => match reply.v {
            Some(v) => if v == CDK_IPC_PROTOCOL_V {
                Ok(reply)
            } else {
                let mut message = "helper protocol v=".to_owned();
                message.append(decimal_text(v as u64).as_str());
                message.append(" (want 1)");
                Err(message)
            },
            None => Err("helper response missing protocol v (want 1)".to_owned()),
        },
    }
}

/// The line that holds the reply in what the helper wrote, or what is said where there is none.
pub open spec fn reply_line(stdout: Seq<u8>, exit_ok: bool) -> Result<Seq<char>, Seq<char>> {
    let line = first_filled(lines(lossy_text(stdout)));
    if line.len() > 0 {
        Ok(line)
    } else if exit_ok {
        Err("helper produced empty stdout"@)
    } else {
        Err("helper exited non-zero with empty stdout"@)
    }
}

/// The line that holds the reply in what the helper wrote.
pub fn find_reply_line(stdout: &[u8], exit_ok: bool) -> (r: Result<String, String>)
    ensures
        match reply_line(stdout@, exit_ok) {
            Ok(line) => r matches Ok(text) && text@ == line,
            Err(message) => r matches Err(e) && e@ == message,
        },
{
    let mut text = text_from_bytes(stdout);
    let line = first_filled_line(text.as_str());
    wipe_text(&mut text);
    if !line.as_str().is_empty() {
        Ok(line)
    } else if exit_ok {
        Err("helper produced empty stdout".to_owned())
    } else {
        Err("helper exited non-zero with empty stdout".to_owned())
    }
}

/// Whether reading a line may give this.
pub open spec fn may_read<R: Fn(&str) -> Result<HelperResponse, String>>(
    read: R,
    line: Seq<char>,
    given: Result<HelperReply, Seq<char>>,
) -> bool {
    exists|text: &str, r: Result<HelperResponse, String>|
        text@ == line && reply_result(r) == given && #[trigger] call_ensures(read, (text,), r)
}

/// Whether what the helper wrote may turn out to be this reply.
pub open spec fn may_hold<R: Fn(&str) -> Result<HelperResponse, String>>(
    read: R,
    stdout: Seq<u8>,
    exit_ok: bool,
    reply: Result<HelperReply, Seq<char>>,
) -> bool {
    match reply_line(stdout, exit_ok) {
        Err(message) => reply == Err::<HelperReply, Seq<char>>(message),
        Ok(line) => exists|given: Result<HelperReply, Seq<char>>| #[trigger]
            may_read(read, line, given) && reply == checked_reply(given),
    }
}

/// The reply in what the helper wrote: its first line that is not empty. `read` reads JSON. The
/// text around the reply, a token among it, is wiped.
pub fn parse_helper_json_line<R: Fn(&str) -> Result<HelperResponse, String>>(
    stdout: &[u8],
    exit_ok: bool,
    read: R,
) -> (r: Result<HelperResponse, String>)
    requires
        forall|line: &str| #[trigger] call_requires(read, (line,)),
    ensures
        may_hold(read, stdout@, exit_ok, reply_result(r)),
{
    match find_reply_line(stdout, exit_ok) {
        Ok(mut line) => {
            let given = read(line.as_str());
            assert(may_read(read, line@, reply_result(given)));
            wipe_text(&mut line);
            checked_helper_response(given)
        },
        Err(message) => Err(message),
    }
}

/// Why the helper did not do what it was asked.
pub open spec fn helper_error(reply: HelperReply) -> Seq<char> {
    match reply.error {
        Some(error) => error,
        None => "helper ok=false without error"@,
    }
}

/// A number, zero where there is none.
pub open spec fn or_zero(n: Option<u64>) -> u64 {
    match n {
        Some(n) => n,
        None => 0,
    }
}

/// The mint quote in a reply: an invoice only where the reply holds what looks like one.
pub open spec fn quote_answer(reply: Result<HelperReply, Seq<char>>) -> QuoteAnswer {
    match reply {
        Err(reason) => QuoteAnswer::Failed { reason },
        Ok(reply) => if !reply.ok {
            QuoteAnswer::Failed { reason: helper_error(reply) }
        } else {
            match (given(reply.quote_id), given(reply.bolt11)) {
                (Some(quote_id), Some(bolt11)) => if bolt11_looks(bolt11) {
                    QuoteAnswer::Quote { quote_id, bolt11, amount_sats: or_zero(reply.amount_sats) }
                } else {
                    QuoteAnswer::Failed {
                        reason: "helper quote bolt11 failed looks_like_bolt11 (lnurl rejected)"@,
                    }
                },
                _ => QuoteAnswer::Failed { reason: "helper ok but missing quote_id/bolt11"@ },
            }
        },
    }
}

/// The token in a reply: one only where the reply holds it.
pub open spec fn token_answer(reply: Result<HelperReply, Seq<char>>) -> TokenAnswer {
    match reply {
        Err(reason) => TokenAnswer::Failed { reason },
        Ok(reply) => if !reply.ok {
            TokenAnswer::Failed { reason: helper_error(reply) }
        } else {
            match given(reply.token) {
                None => TokenAnswer::Failed { reason: "helper ok but missing token"@ },
                Some(token) => if token_fault(trimmed(token)) is Some {
                    TokenAnswer::Failed {
                        reason: "helper token failed CashuToken::parse (need cashuA\u{2026}/cashuB\u{2026})"@,
                    }
                } else {
                    TokenAnswer::Token {
                        token,
                        amount_sats: or_zero(reply.amount_sats),
                        quote_id: match reply.quote_id {
                            Some(id) => trimmed(id),
                            None => Seq::empty(),
                        },
                    }
                },
            }
        },
    }
}

/// The payment in a reply: one only where the helper says that it was paid and names the quote.
pub open spec fn melt_answer(reply: Result<HelperReply, Seq<char>>) -> MeltAnswer {
    match reply {
        Err(reason) => MeltAnswer::Failed { reason },
        Ok(reply) => if !reply.ok {
            MeltAnswer::Failed { reason: helper_error(reply) }
        } else if reply.state is None || uppered(trimmed(reply.state->0)) != "PAID"@ {
            MeltAnswer::Failed {
                reason: "helper ok but melt state is not PAID (got "@ + (match reply.state {
                    Some(state) => state,
                    None => "<missing>"@,
                }) + "); refusing invented Success"@,
            }
        } else {
            match given(reply.quote_id) {
                None => MeltAnswer::Failed { reason: "helper melt ok but missing quote_id"@ },
                Some(quote_id) => MeltAnswer::Paid {
                    quote_id,
                    amount_sats: or_zero(reply.amount_sats),
                    fee_sats: or_zero(reply.fee_sats),
                    payment_preimage: given(reply.payment_preimage),
                },
            }
        },
    }
}

/// A text without the white space around it; an empty one counts as none.
fn given_owned(text: &Option<String>) -> (r: Option<String>)
    ensures
        text_view(r) == given(text_view(*text)),
{
    match text {
        Some(t) => match given_text(Some(t.as_str())) {
            Some(g) => Some(g.to_owned()),
            None => None,
        },
        None => None,
    }
}

/// Why the helper did not do what it was asked.
fn error_of(reply: &HelperResponse) -> (reason: String)
    ensures
        reason@ == helper_error(reply@),
{
    match &reply.error {
        Some(error) => error.clone(),
        None => "helper ok=false without error".to_owned(),
    }
}

/// A number, zero where there is none.
fn zero_if_none(n: Option<u64>) -> (r: u64)
    ensures
        r == or_zero(n),
{
    match n {
        Some(n) => n,
        None => 0,
    }
}

/// The mint quote in a reply.
pub fn quote_from_reply(reply: Result<HelperResponse, String>) -> (r: CdkMintQuoteTransportResult)
    ensures
        r@ == quote_answer(reply_result(reply)),
{
    let reply = match reply {
        Ok(reply) => reply,
        Err(reason) => return CdkMintQuoteTransportResult::Failed { reason },
    };
    if !reply.ok {
        return CdkMintQuoteTransportResult::Failed { reason: error_of(&reply) };
    }
    match (given_owned(&reply.quote_id), given_owned(&reply.bolt11)) {
        (Some(quote_id), Some(bolt11)) => {
            if !looks_like_bolt11(bolt11.as_str()) {
                return CdkMintQuoteTransportResult::Failed {
                    reason: "helper quote bolt11 failed looks_like_bolt11 (lnurl rejected)".to_owned(),
                };
            }
            CdkMintQuoteTransportResult::Quote {
                quote_id,
                bolt11,
                amount_sats: zero_if_none(reply.amount_sats),
            }
        },
        _ => CdkMintQuoteTransportResult::Failed {
            reason: "helper ok but missing quote_id/bolt11".to_owned(),
        },
    }
}

/// The token in a reply.
pub fn token_from_reply(reply: Result<HelperResponse, String>) -> (r:
    CdkMintAfterPaidTransportResult)
    ensures
        r@ == token_answer(reply_result(reply)),
{
    let reply = match reply {
        Ok(reply) => reply,
        Err(reason) => return CdkMintAfterPaidTransportResult::Failed { reason },
    };
    if !reply.ok {
        return CdkMintAfterPaidTransportResult::Failed { reason: error_of(&reply) };
    }
    let token = match given_owned(&reply.token) {
        Some(token) => token,
        None => return CdkMintAfterPaidTransportResult::Failed {
            reason: "helper ok but missing token".to_owned(),
        },
    };
    if CashuToken::parse(token.as_str()).is_err() {
        return CdkMintAfterPaidTransportResult::Failed {
            reason: "helper token failed CashuToken::parse (need cashuA\u{2026}/cashuB\u{2026})".to_owned(),
        };
    }
    let quote_id = match &reply.quote_id {
        Some(id) => trim(id.as_str()).to_owned(),
        None => String::new(),
    };
    CdkMintAfterPaidTransportResult::Token {
        token,
        amount_sats: zero_if_none(reply.amount_sats),
        quote_id,
    }
}

/// The payment in a reply.
pub fn melt_from_reply(reply: Result<HelperResponse, String>) -> (r: CdkMeltTokenTransportResult)
    ensures
        r@ == melt_answer(reply_result(reply)),
{
    let reply = match reply {
        Ok(reply) => reply,
        Err(reason) => return CdkMeltTokenTransportResult::Failed { reason },
    };
    if !reply.ok {
        return CdkMeltTokenTransportResult::Failed { reason: error_of(&reply) };
    }
    let paid = match &reply.state {
        Some(state) => same(upper(trim(state.as_str())).as_str(), "PAID"),
        None => false,
    };
    if !paid {
        let mut reason = "helper ok but melt state is not PAID (got ".to_owned();
        match &reply.state {
            Some(state) => reason.append(state.as_str()),
            None => reason.append("<missing>"),
        }
        reason.append("); refusing invented Success");
        return CdkMeltTokenTransportResult::Failed { reason };
    }
    match given_owned(&reply.quote_id) {
        None => CdkMeltTokenTransportResult::Failed {
            reason: "helper melt ok but missing quote_id".to_owned(),
        },
        Some(quote_id) => CdkMeltTokenTransportResult::Paid {
            quote_id,
            amount_sats: zero_if_none(reply.amount_sats),
            fee_sats: zero_if_none(reply.fee_sats),
            payment_preimage: given_owned(&reply.payment_preimage),
        },
    }
}

/// The mint quote in what the helper wrote.
pub fn parse_helper_quote_stdout<R: Fn(&str) -> Result<HelperResponse, String>>(
    stdout: &[u8],
    exit_ok: bool,
    read: R,
) -> (r: CdkMintQuoteTransportResult)
    requires
        forall|line: &str| #[trigger] call_requires(read, (line,)),
    ensures
        exists|reply: Result<HelperReply, Seq<char>>| #[trigger]
            may_hold(read, stdout@, exit_ok, reply) && r@ == quote_answer(reply),
{
    let reply = parse_helper_json_line(stdout, exit_ok, read);
    assert(may_hold(read, stdout@, exit_ok, reply_result(reply)));
    quote_from_reply(reply)
}

/// The token in what the helper wrote.
pub fn parse_helper_token_stdout<R: Fn(&str) -> Result<HelperResponse, String>>(
    stdout: &[u8],
    exit_ok: bool,
    read: R,
) -> (r: CdkMintAfterPaidTransportResult)
    requires
        forall|line: &str| #[trigger] call_requires(read, (line,)),
    ensures
        exists|reply: Result<HelperReply, Seq<char>>| #[trigger]
            may_hold(read, stdout@, exit_ok, reply) && r@ == token_answer(reply),
{
    let reply = parse_helper_json_line(stdout, exit_ok, read);
    assert(may_hold(read, stdout@, exit_ok, reply_result(reply)));
    token_from_reply(reply)
}

/// The payment in what the helper wrote.
pub fn parse_helper_melt_stdout<R: Fn(&str) -> Result<HelperResponse, String>>(
    stdout: &[u8],
    exit_ok: bool,
    read: R,
) -> (r: CdkMeltTokenTransportResult)
    requires
        forall|line: &str| #[trigger] call_requires(read, (line,)),
    ensures
        exists|reply: Result<HelperReply, Seq<char>>| #[trigger]
            may_hold(read, stdout@, exit_ok, reply) && r@ == melt_answer(reply),
{
    let reply = parse_helper_json_line(stdout, exit_ok, read);
    assert(may_hold(read, stdout@, exit_ok, reply_result(reply)));
    melt_from_reply(reply)
}

/// An invoice comes out of a reply only where the helper succeeded and named a quote and what looks
/// like an invoice.
pub proof fn lemma_no_invented_invoice(reply: Result<HelperReply, Seq<char>>)
    requires
        quote_answer(reply) is Quote,
    ensures
        reply is Ok,
        reply->Ok_0.ok,
        bolt11_looks(quote_answer(reply)->bolt11),
        given(reply->Ok_0.bolt11) == Some(quote_answer(reply)->bolt11),
        given(reply->Ok_0.quote_id) == Some(quote_answer(reply)->Quote_quote_id),
{
}

/// A token comes out of a reply only where the helper succeeded and wrote one.
pub proof fn lemma_no_invented_token(reply: Result<HelperReply, Seq<char>>)
    requires
        token_answer(reply) is Token,
    ensures
        reply is Ok,
        reply->Ok_0.ok,
        given(reply->Ok_0.token) == Some(token_answer(reply)->token),
        token_fault(trimmed(token_answer(reply)->token)) is None,
{
}

/// A payment comes out of a reply only where the helper succeeded, says that it was paid and names
/// the quote.
pub proof fn lemma_no_invented_payment(reply: Result<HelperReply, Seq<char>>)
    requires
        melt_answer(reply) is Paid,
    ensures
        reply is Ok,
        reply->Ok_0.ok,
        reply->Ok_0.state is Some,
        uppered(trimmed(reply->Ok_0.state->0)) == "PAID"@,
        given(reply->Ok_0.quote_id) == Some(melt_answer(reply)->quote_id),
{
}

/// A reply of version 1 counts, and one of another version or of none does not.
pub proof fn lemma_version_of_reply(reply: HelperReply, reason: Seq<char>)
    ensures
        reply.v == Some(1u32) <==> checked_reply(Ok(reply)) is Ok,
        reply.v == Some(1u32) ==> checked_reply(Ok(reply)) == Ok::<HelperReply, Seq<char>>(reply),
        checked_reply(Err(reason)) is Err,
{
}

/// Where the helper did what it was asked, the answer is what it wrote, white space around texts
/// aside: the quote, the invoice and the amount of a quote, the token, the amount and the quote of
/// a token, the quote, the amount, the fee and the preimage of a payment. An amount that it left
/// out is zero.
pub proof fn lemma_answer_is_what_the_helper_wrote(
    reply: HelperReply,
    id: Seq<char>,
    invoice: Seq<char>,
    token: Seq<char>,
    state: Seq<char>,
    preimage: Seq<char>,
)
    requires
        reply.ok,
        reply.quote_id == Some(id),
        trimmed(id).len() > 0,
    ensures
        reply.bolt11 == Some(invoice) && trimmed(invoice).len() > 0 && bolt11_looks(
            trimmed(invoice),
        ) ==> {
            &&& quote_answer(Ok(reply)) is Quote
            &&& quote_answer(Ok(reply))->Quote_quote_id == trimmed(id)
            &&& quote_answer(Ok(reply))->bolt11 == trimmed(invoice)
            &&& reply.amount_sats matches Some(n) ==> quote_answer(Ok(reply))->Quote_amount_sats
                == n
            &&& reply.amount_sats is None ==> quote_answer(Ok(reply))->Quote_amount_sats == 0
        },
        reply.token == Some(token) && token_fault(trimmed(token)) is None ==> {
            &&& token_answer(Ok(reply)) is Token
            &&& token_answer(Ok(reply))->token == trimmed(token)
            &&& token_answer(Ok(reply))->Token_quote_id == trimmed(id)
            &&& reply.amount_sats matches Some(n) ==> token_answer(Ok(reply))->Token_amount_sats
                == n
            &&& reply.amount_sats is None ==> token_answer(Ok(reply))->Token_amount_sats == 0
        },
        reply.state == Some(state) && uppered(trimmed(state)) == "PAID"@ ==> {
            &&& melt_answer(Ok(reply)) is Paid
            &&& melt_answer(Ok(reply))->quote_id == trimmed(id)
            &&& reply.amount_sats matches Some(n) ==> melt_answer(Ok(reply))->amount_sats == n
            &&& reply.amount_sats is None ==> melt_answer(Ok(reply))->amount_sats == 0
            &&& reply.fee_sats matches Some(n) ==> melt_answer(Ok(reply))->fee_sats == n
            &&& reply.fee_sats is None ==> melt_answer(Ok(reply))->fee_sats == 0
            &&& reply.payment_preimage == Some(preimage) && trimmed(preimage).len() > 0
                ==> melt_answer(Ok(reply))->payment_preimage == Some(trimmed(preimage))
            &&& reply.payment_preimage is None ==> melt_answer(Ok(reply))->payment_preimage is None
        },
{
    lemma_trimmed(token);
    lemma_trimmed_again(trimmed(token));
}

/// A failure is told in the helper's own words, where it gave any.
pub proof fn lemma_failure_is_told(reply: HelperReply, reason: Seq<char>)
    requires
        !reply.ok,
        reply.error == Some(reason),
    ensures
        quote_answer(Ok(reply)) == (QuoteAnswer::Failed { reason }),
        token_answer(Ok(reply)) == (TokenAnswer::Failed { reason }),
        melt_answer(Ok(reply)) == (MeltAnswer::Failed { reason }),
        quote_answer(Err(reason)) == (QuoteAnswer::Failed { reason }),
        token_answer(Err(reason)) == (TokenAnswer::Failed { reason }),
        melt_answer(Err(reason)) == (MeltAnswer::Failed { reason }),
{
}

/// The characters of a text that are hexadecimal digits.
pub open spec fn hex_digits_in(s: Seq<char>) -> Seq<char>
    decreases s.len(),
{
    if s.len() == 0 {
        Seq::empty()
    } else if is_hex_digit(s.last()) {
        hex_digits_in(s.drop_last()).push(s.last())
    } else {
        hex_digits_in(s.drop_last())
    }
}

/// A hexadecimal digit.
pub open spec fn is_hex_digit(c: char) -> bool {
    ('0' <= c <= '9') || ('a' <= c <= 'f') || ('A' <= c <= 'F')
}

/// The name of the directory of a wallet: the first hexadecimal digits of its fingerprint, sixteen
/// at most.
pub open spec fn wallet_label(fingerprint: Seq<char>) -> Seq<char> {
    let digits = hex_digits_in(trimmed(fingerprint));
    if digits.len() == 0 {
        "unknown"@
    } else if digits.len() > 16 {
        digits.take(16)
    } else {
        digits
    }
}

/// A directory is named by hexadecimal digits alone, sixteen at most, or `unknown`: no name leads
/// elsewhere. A fingerprint of sixteen or more such digits names its directory by the first
/// sixteen, a shorter one by all of them, so fingerprints that differ there have directories of
/// their own.
pub proof fn lemma_wallet_label(fingerprint: Seq<char>)
    ensures
        wallet_label(fingerprint) == "unknown"@ || 1 <= wallet_label(fingerprint).len() <= 16,
        wallet_label(fingerprint) != "unknown"@ ==> forall|i: int|
            0 <= i < wallet_label(fingerprint).len() ==> is_hex_digit(
                #[trigger] wallet_label(fingerprint)[i],
            ),
        fingerprint.len() > 0 && (forall|i: int|
            0 <= i < fingerprint.len() ==> is_hex_digit(#[trigger] fingerprint[i]))
            ==> wallet_label(fingerprint) == if fingerprint.len() > 16 {
            fingerprint.take(16)
        } else {
            fingerprint
        },
{
    lemma_hex_digits_in(trimmed(fingerprint));
    if fingerprint.len() > 0 && (forall|i: int|
        0 <= i < fingerprint.len() ==> is_hex_digit(#[trigger] fingerprint[i])) {
        assert(is_hex_digit(fingerprint[0]) && is_hex_digit(fingerprint.last()));
        lemma_trimmed_again(fingerprint);
    }
}

proof fn lemma_hex_digits_in(s: Seq<char>)
    ensures
        forall|i: int| 0 <= i < hex_digits_in(s).len() ==> is_hex_digit(#[trigger] hex_digits_in(s)[i]),
        (forall|i: int| 0 <= i < s.len() ==> is_hex_digit(#[trigger] s[i])) ==> hex_digits_in(s) == s,
    decreases s.len(),
{
    if s.len() > 0 {
        let before = hex_digits_in(s.drop_last());
        lemma_hex_digits_in(s.drop_last());
        assert forall|i: int| 0 <= i < hex_digits_in(s).len() implies is_hex_digit(
            #[trigger] hex_digits_in(s)[i],
        ) by {
            if i < before.len() {
                assert(is_hex_digit(before[i]));
            }
        }
        if forall|i: int| 0 <= i < s.len() ==> is_hex_digit(#[trigger] s[i]) {
            assert forall|i: int| 0 <= i < s.drop_last().len() implies is_hex_digit(
                #[trigger] s.drop_last()[i],
            ) by {
                assert(s.drop_last()[i] == s[i]);
            }
            assert(is_hex_digit(s[s.len() - 1]));
            assert(hex_digits_in(s) =~= s);
        }
    } else {
        assert(hex_digits_in(s) =~= s);
    }
}

/// The directory of a wallet below a base directory.
pub fn scoped_cdk_storage_dir(base: &str, seed_fingerprint_hex: &str) -> (dir: String)
    ensures
        may_join(base@, wallet_label(seed_fingerprint_hex@), dir@),
{
    let chars = chars_of(trim(seed_fingerprint_hex));
    let mut digits: Vec<char> = Vec::new();
    for i in 0..chars.len()
        invariant
            digits@ == hex_digits_in(chars@.take(i as int)),
    {
        assert(chars@.take(i + 1).drop_last() =~= chars@.take(i as int));
        let c = chars[i];
        if ('0' <= c && c <= '9') || ('a' <= c && c <= 'f') || ('A' <= c && c <= 'F') {
            digits.push(c);
        }
    }
    assert(chars@.take(chars@.len() as int) =~= chars@);
    if digits.len() == 0 {
        return join(base, "unknown");
    }
    let label = text_of(digits.as_slice());
    if digits.len() > 16 {
        join(base, take(label.as_str(), 16))
    } else {
        join(base, label.as_str())
    }
}

/// A setting that is there and, white space around it aside, may be absolute.
pub open spec fn may_count(value: Option<Seq<char>>) -> bool {
    value is Some && may_be_absolute(trimmed(value->0), true)
}

/// A setting that is not there, or may not be absolute.
pub open spec fn may_be_passed(value: Option<Seq<char>>) -> bool {
    value is None || may_be_absolute(trimmed(value->0), false)
}

/// Whether each wallet may have its directory below this one: the setting of it, or one below the
/// program's home, or below the person's home, or a temporary one.
pub open spec fn may_be_storage_base(
    setting: Option<Seq<char>>,
    grok_home: Option<Seq<char>>,
    home: Option<Seq<char>>,
    dir: Seq<char>,
) -> bool {
    ||| may_count(setting) && dir == trimmed(setting->0)
    ||| may_be_passed(setting) && may_count(grok_home) && may_join_all(
        trimmed(grok_home->0),
        seq!["bitcoin"@, "cdk"@],
        dir,
    )
    ||| may_be_passed(setting) && may_be_passed(grok_home) && match home {
        Some(path) => may_join_all(path, seq![".grok"@, "bitcoin"@, "cdk"@], dir),
        None => dir == "/tmp/grok-bitcoin-cdk"@,
    }
}

/// A setting that names an absolute path.
fn given_path<'a>(value: Option<&'a str>) -> (r: Option<&'a str>)
    ensures
        match r {
            Some(path) => may_count(str_view(value)) && path@ == trimmed(str_view(value)->0),
            None => may_be_passed(str_view(value)),
        },
{
    match value {
        Some(path) => {
            let path = trim(path);
            if is_absolute(path) {
                Some(path)
            } else {
                None
            }
        },
        None => None,
    }
}

/// The directory below which each wallet has its own, by the values of the setting
/// [`CDK_STORAGE_ENV`], of `GROK_HOME` and of `HOME`.
pub fn default_cdk_storage_base(
    setting: Option<&str>,
    grok_home: Option<&str>,
    home: Option<&str>,
) -> (dir: String)
    ensures
        may_be_storage_base(str_view(setting), str_view(grok_home), str_view(home), dir@),
{
    if let Some(path) = given_path(setting) {
        return path.to_owned();
    }
    if let Some(path) = given_path(grok_home) {
        return cdk_below(path);
    }
    match home {
        Some(path) => {
            let top = join(path, ".grok");
            let above = join(top.as_str(), "bitcoin");
            let dir = join(above.as_str(), "cdk");
            proof {
                let none = Seq::<Seq<char>>::empty();
                lemma_join_one_more(path@, none, path@, ".grok"@, top@);
                lemma_join_one_more(path@, none.push(".grok"@), top@, "bitcoin"@, above@);
                lemma_join_one_more(
                    path@,
                    none.push(".grok"@).push("bitcoin"@),
                    above@,
                    "cdk"@,
                    dir@,
                );
                assert(none.push(".grok"@).push("bitcoin"@).push("cdk"@) =~= seq![
                    ".grok"@,
                    "bitcoin"@,
                    "cdk"@,
                ]);
            }
            dir
        },
        None => "/tmp/grok-bitcoin-cdk".to_owned(),
    }
}

/// The directory of the wallets below the program's home.
fn cdk_below(home: &str) -> (dir: String)
    ensures
        may_join_all(home@, seq!["bitcoin"@, "cdk"@], dir@),
{
    let above = join(home, "bitcoin");
    let dir = join(above.as_str(), "cdk");
    proof {
        let none = Seq::<Seq<char>>::empty();
        lemma_join_one_more(home@, none, home@, "bitcoin"@, above@);
        lemma_join_one_more(home@, none.push("bitcoin"@), above@, "cdk"@, dir@);
        assert(none.push("bitcoin"@).push("cdk"@) =~= seq!["bitcoin"@, "cdk"@]);
    }
    dir
}

/// Seconds to wait for the helper: a little longer than it is asked to take itself.
pub fn helper_wait_secs(timeout_secs: u64) -> (secs: u64)
    ensures
        secs == if timeout_secs + 30 > u64::MAX {
            u64::MAX as int
        } else if timeout_secs < 30 {
            60
        } else {
            timeout_secs + 30
        },
        secs >= 60,
        secs - timeout_secs >= 30 || secs == u64::MAX,
{
    if timeout_secs > u64::MAX - 30 {
        u64::MAX
    } else if timeout_secs < 30 {
        60
    } else {
        timeout_secs + 30
    }
}

/// What is said of a directory that depends on the current one.
pub open spec fn relative_dir(dir: Seq<char>) -> Seq<char> {
    "storage_dir must be absolute (got "@ + dir + ")"@
}

/// Why a request for a mint quote is not sent. `absolute` is what the host says of its directory.
pub open spec fn quote_ask_fault(request: QuoteAsk, absolute: bool) -> Option<Seq<char>> {
    if !absolute {
        Some(relative_dir(request.storage_dir))
    } else if request.amount_sats == 0 {
        Some("amount_sats must be > 0"@)
    } else {
        None
    }
}

/// Why a request for a token is not sent.
pub open spec fn token_ask_fault(request: TokenAsk, absolute: bool) -> Option<Seq<char>> {
    if !absolute {
        Some(relative_dir(request.storage_dir))
    } else if trimmed(request.quote_id).len() == 0 {
        Some("quote_id must not be empty"@)
    } else {
        None
    }
}

/// Why a request to pay an invoice with a token is not sent.
pub open spec fn melt_ask_fault(request: MeltAsk, absolute: bool) -> Option<Seq<char>> {
    if !absolute {
        Some(relative_dir(request.storage_dir))
    } else if trimmed(request.token).len() == 0 {
        Some("token must not be empty"@)
    } else if token_fault(trimmed(request.token)) is Some {
        Some("token failed CashuToken::parse (need cashuA\u{2026}/cashuB\u{2026})"@)
    } else if !bolt11_looks(request.bolt11) {
        Some("bolt11 failed looks_like_bolt11 (lnurl rejected)"@)
    } else {
        None
    }
}

/// A request is sent where its directory is absolute and it asks for something: an amount, the
/// token of a quote that it names, or the payment of an invoice with a token.
pub proof fn lemma_request_is_sent(quote: QuoteAsk, token: TokenAsk, melt: MeltAsk, absolute: bool)
    ensures
        quote_ask_fault(quote, absolute) is None <==> absolute && quote.amount_sats >= 1,
        token_ask_fault(token, absolute) is None <==> absolute && trimmed(token.quote_id).len() >= 1,
        melt_ask_fault(melt, absolute) is None <==> absolute && token_fault(trimmed(melt.token))
            is None && bolt11_looks(melt.bolt11),
{
}

/// Whether a run may turn out to be this reply: what the helper wrote, or why it could not be asked.
pub open spec fn may_tell<R: Fn(&str) -> Result<HelperResponse, String>>(
    read: R,
    outcome: Result<(Vec<u8>, bool), String>,
    reply: Result<HelperReply, Seq<char>>,
) -> bool {
    match outcome {
        Ok((stdout, exit_ok)) => may_hold(read, stdout@, exit_ok, reply),
        Err(reason) => reply == Err::<HelperReply, Seq<char>>(reason@),
    }
}

/// Whether one of the runs that a payload may lead to may turn out to be this reply.
pub open spec fn may_reply<
    F: Fn(String, u64) -> Result<(Vec<u8>, bool), String>,
    R: Fn(&str) -> Result<HelperResponse, String>,
>(
    run: F,
    read: R,
    payload: Seq<char>,
    timeout_secs: u64,
    reply: Result<HelperReply, Seq<char>>,
) -> bool {
    exists|text: String, outcome: Result<(Vec<u8>, bool), String>|
        text@ == payload && #[trigger] call_ensures(run, (text, timeout_secs), outcome)
            && may_tell(read, outcome, reply)
}

/// The path of the program: the one given, that of the setting, the one beside this program, or a
/// bare name.
pub open spec fn chosen_bin(
    bin_override: Option<Seq<char>>,
    env_bin: Option<Seq<char>>,
    sibling: Option<Seq<char>>,
) -> Seq<char> {
    match bin_override {
        Some(path) => path,
        None => match env_bin {
            Some(path) if path.len() > 0 => path,
            _ => match sibling {
                Some(path) => path,
                None => CDK_MINT_BIN_NAME@,
            },
        },
    }
}

/// A path that was given wins over the setting, the setting over the program beside this one, and
/// an empty setting counts as none.
pub proof fn lemma_chosen_bin(
    given: Seq<char>,
    env_bin: Option<Seq<char>>,
    setting: Seq<char>,
    sibling: Option<Seq<char>>,
    beside: Seq<char>,
)
    ensures
        chosen_bin(Some(given), env_bin, sibling) == given,
        setting.len() > 0 ==> chosen_bin(None, Some(setting), sibling) == setting,
        chosen_bin(None, None, Some(beside)) == beside,
        chosen_bin(None, Some(Seq::empty()), sibling) == chosen_bin(None, None, sibling),
        chosen_bin(None, None, None) == "grok-bitcoin-cdk-mint"@,
{
}

/// One of the answers that asking for a path may get.
pub open spec fn may_be_file<F: Fn(&str) -> bool>(is_file: F, path: Seq<char>, answer: bool) -> bool {
    exists|text: &str| text@ == path && #[trigger] call_ensures(is_file, (text,), answer)
}

/// One of the answers that asking for a name below a directory may get.
pub open spec fn may_be_below<F: Fn(&str) -> bool>(
    is_file: F,
    dir: Seq<char>,
    name: Seq<char>,
    answer: bool,
) -> bool {
    exists|path: Seq<char>| #[trigger]
        may_join(dir, name, path) && may_be_file(is_file, path, answer)
}

/// Whether the search for the program may come out like this: at its own path, and, for a name of
/// one part, below each directory of the search path.
pub open spec fn may_find<F: Fn(&str) -> bool>(
    is_file: F,
    bin: Seq<char>,
    dirs: Seq<Seq<char>>,
    found: bool,
) -> bool {
    if found {
        ||| may_be_file(is_file, bin, true)
        ||| may_have_parts(bin, 1) && exists|i: int|
            0 <= i < dirs.len() && may_be_below(is_file, #[trigger] dirs[i], bin, true)
    } else {
        &&& may_be_file(is_file, bin, false)
        &&& (exists|n: usize| n != 1 && may_have_parts(bin, n)) || forall|i: int|
            0 <= i < dirs.len() ==> may_be_below(is_file, #[trigger] dirs[i], bin, false)
    }
}

/// The helper as a program of its own, spoken to over its standard input and output.
#[derive(PartialEq, Eq, Debug)]
pub struct ProcessCdkMintTransport {
    /// Path of the program, in place of the one that is looked up.
    pub bin_override: Option<String>,
}

impl ProcessCdkMintTransport {
    /// The program that is looked up.
    pub fn new() -> (t: ProcessCdkMintTransport)
        ensures
            t.bin_override is None,
    {
        ProcessCdkMintTransport { bin_override: None }
    }

    /// The program of a path.
    pub fn with_bin(bin: &str) -> (t: ProcessCdkMintTransport)
        ensures
            text_view(t.bin_override) == Some(bin@),
    {
        ProcessCdkMintTransport { bin_override: Some(bin.to_owned()) }
    }

    /// The path of the program: the one given, that of the setting [`CDK_MINT_BIN_ENV`], the one
    /// beside this program where there is one, or a bare name.
    pub fn resolve_bin(&self, env_bin: Option<&str>, sibling: Option<&str>) -> (path: String)
        ensures
            path@ == chosen_bin(text_view(self.bin_override), str_view(env_bin), str_view(sibling)),
    {
        if let Some(path) = &self.bin_override {
            return path.clone();
        }
        if let Some(path) = env_bin {
            if !path.is_empty() {
                return path.to_owned();
            }
        }
        match sibling {
            Some(path) => path.to_owned(),
            None => CDK_MINT_BIN_NAME.to_owned(),
        }
    }

    /// Whether the program is there. `is_file` says of a path whether it leads to a file.
    pub fn binary_resolvable<F: Fn(&str) -> bool>(
        &self,
        env_bin: Option<&str>,
        sibling: Option<&str>,
        search_path: &Vec<String>,
        is_file: F,
    ) -> (found: bool)
        requires
            forall|path: &str| #[trigger] call_requires(is_file, (path,)),
        ensures
            may_find(
                is_file,
                chosen_bin(
                    text_view(self.bin_override),
                    str_view(env_bin),
                    str_view(sibling),
                ),
                texts(search_path@),
                found,
            ),
    {
        let bin = self.resolve_bin(env_bin, sibling);
        let ghost dirs = texts(search_path@);
        if is_file(bin.as_str()) {
            assert(may_be_file(is_file, bin@, true));
            return true;
        }
        assert(may_be_file(is_file, bin@, false));
        let parts: usize = count_parts(bin.as_str());
        if parts != 1 {
            return false;
        }
        for i in 0..search_path.len()
            invariant
                bin@ == chosen_bin(
                    text_view(self.bin_override),
                    str_view(env_bin),
                    str_view(sibling),
                ),
                dirs == texts(search_path@),
                may_have_parts(bin@, 1),
                forall|path: &str| #[trigger] call_requires(is_file, (path,)),
                forall|k: int|
                    0 <= k < i ==> may_be_below(is_file, #[trigger] dirs[k], bin@, false),
        {
            let candidate = join(search_path[i].as_str(), bin.as_str());
            assert(dirs[i as int] == search_path@[i as int]@);
            assert(may_join(dirs[i as int], bin@, candidate@));
            if is_file(candidate.as_str()) {
                assert(may_be_file(is_file, candidate@, true));
                assert(may_be_below(is_file, dirs[i as int], bin@, true));
                return true;
            }
            assert(may_be_file(is_file, candidate@, false));
            assert(may_be_below(is_file, dirs[i as int], bin@, false));
        }
        false
    }

    /// Asks for a mint quote. `run` hands a payload to the program and returns what it wrote, and
    /// whether it ended well, or why it could not be asked. `read` reads JSON.
    pub fn mint_quote<
        F: Fn(String, u64) -> Result<(Vec<u8>, bool), String>,
        R: Fn(&str) -> Result<HelperResponse, String>,
    >(
        &self,
        request: &CdkMintQuoteRequest,
        run: F,
        read: R,
    ) -> (r: CdkMintQuoteTransportResult)
        requires
            forall|payload: String, secs: u64| #[trigger] call_requires(run, (payload, secs)),
            forall|line: &str| #[trigger] call_requires(read, (line,)),
        ensures
            exists|absolute: bool| #[trigger]
                may_be_absolute(request@.storage_dir, absolute) && match quote_ask_fault(
                    request@,
                    absolute,
                ) {
                    Some(reason) => r@ == (QuoteAnswer::Failed { reason }),
                    None => exists|reply: Result<HelperReply, Seq<char>>|
                        r@ == quote_answer(reply) && #[trigger] may_reply(
                            run,
                            read,
                            quote_payload(request@),
                            request.timeout_secs,
                            reply,
                        ),
                },
    {
        let absolute = is_absolute(request.storage_dir.as_str());
        assert(may_be_absolute(request@.storage_dir, absolute));
        if !absolute {
            return CdkMintQuoteTransportResult::Failed {
                reason: relative_dir_text(request.storage_dir.as_str()),
            };
        }
        if request.amount_sats == 0 {
            return CdkMintQuoteTransportResult::Failed {
                reason: "amount_sats must be > 0".to_owned(),
            };
        }
        let payload = build_mint_quote_ipc_payload(request);
        let outcome = run(payload, request.timeout_secs);
        let ghost ran = outcome;
        let reply = reply_from_run(outcome, read);
        assert(may_tell(read, ran, reply_result(reply)));
        assert(may_reply(
            run,
            read,
            quote_payload(request@),
            request.timeout_secs,
            reply_result(reply),
        ));
        quote_from_reply(reply)
    }

    /// Asks for the token of a paid quote.
    pub fn mint_after_paid<
        F: Fn(String, u64) -> Result<(Vec<u8>, bool), String>,
        R: Fn(&str) -> Result<HelperResponse, String>,
    >(
        &self,
        request: &CdkMintAfterPaidRequest,
        run: F,
        read: R,
    ) -> (r: CdkMintAfterPaidTransportResult)
        requires
            forall|payload: String, secs: u64| #[trigger] call_requires(run, (payload, secs)),
            forall|line: &str| #[trigger] call_requires(read, (line,)),
        ensures
            exists|absolute: bool| #[trigger]
                may_be_absolute(request@.storage_dir, absolute) && match token_ask_fault(
                    request@,
                    absolute,
                ) {
                    Some(reason) => r@ == (TokenAnswer::Failed { reason }),
                    None => exists|reply: Result<HelperReply, Seq<char>>|
                        r@ == token_answer(reply) && #[trigger] may_reply(
                            run,
                            read,
                            token_payload(request@),
                            request.timeout_secs,
                            reply,
                        ),
                },
    {
        let absolute = is_absolute(request.storage_dir.as_str());
        assert(may_be_absolute(request@.storage_dir, absolute));
        if !absolute {
            return CdkMintAfterPaidTransportResult::Failed {
                reason: relative_dir_text(request.storage_dir.as_str()),
            };
        }
        if trim(request.quote_id.as_str()).is_empty() {
            return CdkMintAfterPaidTransportResult::Failed {
                reason: "quote_id must not be empty".to_owned(),
            };
        }
        let payload = build_mint_after_paid_ipc_payload(request);
        let outcome = run(payload, request.timeout_secs);
        let ghost ran = outcome;
        let reply = reply_from_run(outcome, read);
        assert(may_tell(read, ran, reply_result(reply)));
        assert(may_reply(
            run,
            read,
            token_payload(request@),
            request.timeout_secs,
            reply_result(reply),
        ));
        token_from_reply(reply)
    }

    /// Asks to pay an invoice with a token.
    pub fn melt_token<
        F: Fn(String, u64) -> Result<(Vec<u8>, bool), String>,
        R: Fn(&str) -> Result<HelperResponse, String>,
    >(
        &self,
        request: &CdkMeltTokenRequest,
        run: F,
        read: R,
    ) -> (r: CdkMeltTokenTransportResult)
        requires
            forall|payload: String, secs: u64| #[trigger] call_requires(run, (payload, secs)),
            forall|line: &str| #[trigger] call_requires(read, (line,)),
        ensures
            exists|absolute: bool| #[trigger]
                may_be_absolute(request@.storage_dir, absolute) && match melt_ask_fault(
                    request@,
                    absolute,
                ) {
                    Some(reason) => r@ == (MeltAnswer::Failed { reason }),
                    None => exists|reply: Result<HelperReply, Seq<char>>|
                        r@ == melt_answer(reply) && #[trigger] may_reply(
                            run,
                            read,
                            melt_payload(request@),
                            request.timeout_secs,
                            reply,
                        ),
                },
    {
        let absolute = is_absolute(request.storage_dir.as_str());
        assert(may_be_absolute(request@.storage_dir, absolute));
        if !absolute {
            return CdkMeltTokenTransportResult::Failed {
                reason: relative_dir_text(request.storage_dir.as_str()),
            };
        }
        if trim(request.token.as_str()).is_empty() {
            return CdkMeltTokenTransportResult::Failed {
                reason: "token must not be empty".to_owned(),
            };
        }
        if CashuToken::parse(request.token.as_str()).is_err() {
            return CdkMeltTokenTransportResult::Failed {
                reason: "token failed CashuToken::parse (need cashuA\u{2026}/cashuB\u{2026})".to_owned(),
            };
        }
        if !looks_like_bolt11(request.bolt11.as_str()) {
            return CdkMeltTokenTransportResult::Failed {
                reason: "bolt11 failed looks_like_bolt11 (lnurl rejected)".to_owned(),
            };
        }
        let payload = build_melt_token_ipc_payload(request);
        let outcome = run(payload, request.timeout_secs);
        let ghost ran = outcome;
        let reply = reply_from_run(outcome, read);
        assert(may_tell(read, ran, reply_result(reply)));
        assert(may_reply(
            run,
            read,
            melt_payload(request@),
            request.timeout_secs,
            reply_result(reply),
        ));
        melt_from_reply(reply)
    }
}

/// What is said of a directory that depends on the current one.
fn relative_dir_text(dir: &str) -> (text: String)
    ensures
        text@ == relative_dir(dir@),
{
    let mut text = "storage_dir must be absolute (got ".to_owned();
    text.append(dir);
    text.append(")");
    text
}

/// The reply in what the helper wrote, or why it could not be asked.
fn reply_from_run<R: Fn(&str) -> Result<HelperResponse, String>>(
    run: Result<(Vec<u8>, bool), String>,
    read: R,
) -> (r: Result<HelperResponse, String>)
    requires
        forall|line: &str| #[trigger] call_requires(read, (line,)),
    ensures
        may_tell(read, run, reply_result(r)),
{
    match run {
        Ok((stdout, exit_ok)) => parse_helper_json_line(stdout.as_slice(), exit_ok, read),
        Err(reason) => Err(reason),
    }
}

} // verus!
