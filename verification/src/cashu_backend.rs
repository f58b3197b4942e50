//! Cashu backends: the one that can do nothing, and the one that asks a mint and the helper program.

use vstd::prelude::*;
use vstd::string::StringExecFns;
use vstd::utf8::encode_utf8;

use crate::bolt11::{bolt11_looks, looks_like_bolt11};
use crate::cashu::{
    behind, mint_quote_bolt11_request_json, mint_quote_bolt11_url, mint_url_of,
    no_capabilities, parse_mint_quote_bolt11_response, quote_fault, quote_in, quote_request,
    stub_cashu_capabilities, token_fault, validate_mint_quote_for_invoice, validate_mint_url,
    CashuCapabilities, CashuToken, MintQuote, MintQuoteBolt11Response,
    CASHU_MINT_QUOTE_BOLT11_PATH,
};
use crate::cashu_cdk_helper::{
    is_hex_digit, lemma_wallet_label, may_be_linked, may_melt, may_mint, may_quote,
    scoped_cdk_storage_dir, token_debug_text,
    token_shown, wallet_label, CdkMeltTokenRequest, CdkMeltTokenTransportResult,
    CdkMintAfterPaidRequest, CdkMintAfterPaidTransportResult, CdkMintQuoteRequest,
    CdkMintQuoteTransportResult, CdkMintTransport, MeltAnswer, MeltAsk, QuoteAnswer, QuoteAsk,
    TokenAnswer, TokenAsk,
};
use crate::error::WalletError;
use crate::funding::text_view;
use crate::json::{bool_str, bool_text, json_parsed, Json};
use crate::mnemonic::{bip39_seed, MnemonicSecret};
use crate::path::may_join;
use crate::secret::wipe_bytes;
use crate::text::{
    byte_len, chars_of, debug_quoted, debug_text, decimal, decimal_text, has_prefix, hex_of, hex_text,
    lemma_hex, skip, take, trim, trimmed,
};

verus! {

/// What came of a request for an invoice of a mint.
#[derive(PartialEq, Eq, Debug)]
pub enum MintQuoteOutcome {
    Invoice { bolt11: String, quote_id: String },
    Unsupported(&'static str),
    Failed(String),
}

/// Model of [`MintQuoteOutcome`].
pub enum QuoteOutcome {
    Invoice { bolt11: Seq<char>, quote_id: Seq<char> },
    Unsupported(Seq<char>),
    Failed(Seq<char>),
}

impl View for MintQuoteOutcome {
    type V = QuoteOutcome;

    open spec fn view(&self) -> QuoteOutcome {
        match *self {
            MintQuoteOutcome::Invoice { bolt11, quote_id } => QuoteOutcome::Invoice {
                bolt11: bolt11@,
                quote_id: quote_id@,
            },
            MintQuoteOutcome::Unsupported(why) => QuoteOutcome::Unsupported(why@),
            MintQuoteOutcome::Failed(why) => QuoteOutcome::Failed(why@),
        }
    }
}

/// What came of an attempt to pay tokens back.
#[derive(PartialEq, Eq, Debug)]
pub enum CashuRefundOutcome {
    Completed { detail: String },
    Unsupported(&'static str),
    Failed(String),
}

/// Model of [`CashuRefundOutcome`].
pub enum RefundOutcome {
    Completed { detail: Seq<char> },
    Unsupported(Seq<char>),
    Failed(Seq<char>),
}

impl View for CashuRefundOutcome {
    type V = RefundOutcome;

    open spec fn view(&self) -> RefundOutcome {
        match *self {
            CashuRefundOutcome::Completed { detail } => RefundOutcome::Completed {
                detail: detail@,
            },
            CashuRefundOutcome::Unsupported(why) => RefundOutcome::Unsupported(why@),
            CashuRefundOutcome::Failed(why) => RefundOutcome::Failed(why@),
        }
    }
}

/// What came of an attempt to turn a paid quote into a token. A token is no balance yet: it has to
/// be redeemed.
#[derive(PartialEq, Eq)]
pub enum MintProofsOutcome {
    Token { token: String, amount_sats: u64, quote_id: String },
    Unsupported(&'static str),
    Failed(String),
}

/// Model of [`MintProofsOutcome`].
pub enum ProofsOutcome {
    Token { token: Seq<char>, amount_sats: u64, quote_id: Seq<char> },
    Unsupported(Seq<char>),
    Failed(Seq<char>),
}

impl View for MintProofsOutcome {
    type V = ProofsOutcome;

    open spec fn view(&self) -> ProofsOutcome {
        match *self {
            MintProofsOutcome::Token { token, amount_sats, quote_id } => ProofsOutcome::Token {
                token: token@,
                amount_sats,
                quote_id: quote_id@,
            },
            MintProofsOutcome::Unsupported(why) => ProofsOutcome::Unsupported(why@),
            MintProofsOutcome::Failed(why) => ProofsOutcome::Failed(why@),
        }
    }
}

impl MintProofsOutcome {
    /// The outcome, as it is printed for a developer: never the whole token.
    pub fn debug_text(&self) -> (text: String)
        ensures
            text@ == match self@ {
                ProofsOutcome::Token { token, amount_sats, quote_id } => token_shown(
                    token,
                    amount_sats,
                    quote_id,
                ),
                ProofsOutcome::Unsupported(why) => "Unsupported("@ + debug_quoted(why) + ")"@,
                ProofsOutcome::Failed(why) => "Failed("@ + debug_quoted(why) + ")"@,
            },
    {
        match self {
            MintProofsOutcome::Token { token, amount_sats, quote_id } => token_debug_text(
                token.as_str(),
                *amount_sats,
                quote_id.as_str(),
            ),
            MintProofsOutcome::Unsupported(why) => {
                let mut text = "Unsupported(".to_owned();
                text.append(debug_text(why).as_str());
                text.append(")");
                text
            },
            MintProofsOutcome::Failed(why) => {
                let mut text = "Failed(".to_owned();
                text.append(debug_text(why.as_str()).as_str());
                text.append(")");
                text
            },
        }
    }
}

/// A way to mint, spend and pay back Cashu tokens, for its users to provide. One that cannot do
/// something says so in its capabilities and returns `Unsupported`; none invents an invoice, a
/// token or a payment.
pub trait CashuBackend {
    /// What the backend can do.
    fn capabilities(&self) -> (c: CashuCapabilities)
        default_ensures
            c == no_capabilities(),
    {
        stub_cashu_capabilities()
    }

    /// Asks for an invoice of a mint.
    fn request_mint_invoice(&self, amount_sats: Option<u64>) -> Result<
        MintQuoteOutcome,
        WalletError,
    >;

    /// Turns a paid quote into a token.
    fn complete_mint_after_pay(&self, _quote_id: &str) -> (r: Result<
        MintProofsOutcome,
        WalletError,
    >)
        default_ensures
            r matches Ok(outcome) && outcome@ == ProofsOutcome::Unsupported(
                "CDK proofs mint not wired (stub or no seed; use complete_mint_after_pay_with_seed)"@,
            ),
    {
        Ok(
            MintProofsOutcome::Unsupported(
                "CDK proofs mint not wired (stub or no seed; use complete_mint_after_pay_with_seed)",
            ),
        )
    }

    /// Turns a paid quote into a token of the wallet with these recovery words.
    fn complete_mint_after_pay_with_seed(
        &self,
        _quote_id: &str,
        _mnemonic: &MnemonicSecret,
        _passphrase: &str,
    ) -> (r: Result<MintProofsOutcome, WalletError>)
        default_ensures
            r matches Ok(outcome) && outcome@ == ProofsOutcome::Unsupported(
                "CDK proofs mint with seed not wired on this backend"@,
            ),
    {
        Ok(MintProofsOutcome::Unsupported("CDK proofs mint with seed not wired on this backend"))
    }

    /// Asks for an invoice of a mint, for the wallet with these recovery words.
    fn request_mint_invoice_with_seed(
        &self,
        amount_sats: Option<u64>,
        _mnemonic: &MnemonicSecret,
        _passphrase: &str,
    ) -> (r: Result<MintQuoteOutcome, WalletError>)
        default_ensures
            call_ensures(Self::request_mint_invoice, (self, amount_sats), r),
    {
        self.request_mint_invoice(amount_sats)
    }

    /// Pays tokens back.
    fn refund(&self) -> Result<CashuRefundOutcome, WalletError>;

    /// Pays an invoice with a token.
    fn melt_token_to_bolt11_with_seed(
        &self,
        _token: &str,
        _bolt11: &str,
        _mnemonic: &MnemonicSecret,
        _passphrase: &str,
    ) -> (r: Result<CashuRefundOutcome, WalletError>)
        default_ensures
            r matches Ok(outcome) && outcome@ == RefundOutcome::Unsupported(
                "CDK melt with seed not wired on this backend"@,
            ),
    {
        Ok(CashuRefundOutcome::Unsupported("CDK melt with seed not wired on this backend"))
    }
}

/// The backend that can do nothing.
#[derive(Clone, Copy, Debug)]
pub struct StubCashu;

impl CashuBackend for StubCashu {
    fn capabilities(&self) -> (c: CashuCapabilities)
        ensures
            c == no_capabilities(),
    {
        stub_cashu_capabilities()
    }

    fn request_mint_invoice(&self, _amount_sats: Option<u64>) -> (r: Result<
        MintQuoteOutcome,
        WalletError,
    >)
        ensures
            r matches Ok(outcome) && outcome@ == QuoteOutcome::Unsupported(
                "CDK mint path not wired (stub CashuBackend)"@,
            ),
    {
        Ok(MintQuoteOutcome::Unsupported("CDK mint path not wired (stub CashuBackend)"))
    }

    fn refund(&self) -> (r: Result<CashuRefundOutcome, WalletError>)
        ensures
            r matches Ok(outcome) && outcome@ == RefundOutcome::Unsupported(
                "CDK refund / melt path not wired (stub CashuBackend)"@,
            ),
    {
        Ok(CashuRefundOutcome::Unsupported("CDK refund / melt path not wired (stub CashuBackend)"))
    }
}

/// The backend of a build without the helper program: the one that can do nothing.
pub fn default_cashu_backend() -> (b: StubCashu)
    ensures
        b == StubCashu,
{
    StubCashu
}

/// Calls `std::time::SystemTime::elapsed` for the start of 1970: the seconds since, where the clock
/// is not before it. Nothing is known of the time.
#[verifier::external_body]
fn clock_secs() -> Option<u64> {
    match std::time::UNIX_EPOCH.elapsed() {
        Ok(since) => Some(since.as_secs()),
        Err(_) => None,
    }
}

/// The clock may say this when it is asked for the time.
pub closed spec fn may_be_now(now: i64) -> bool {
    exists|clock: Option<u64>| #[trigger]
        call_ensures(clock_secs, (), clock) && now == clock_time(clock)
}

/// The time by which the expiry of a quote is judged: what the clock says, whatever that is.
pub fn now_unix_secs() -> (now: i64)
    ensures
        may_be_now(now),
        now >= 0,
{
    let clock = clock_secs();
    assert(call_ensures(clock_secs, (), clock));
    unix_secs_from(clock)
}

/// The seconds that a clock stands for: as many as fit, and none where it is before 1970.
pub open spec fn clock_time(clock: Option<u64>) -> i64 {
    match clock {
        Some(secs) => if secs <= i64::MAX {
            secs as i64
        } else {
            i64::MAX
        },
        None => 0,
    }
}

/// The seconds that a clock stands for, which says `None` where it is before 1970.
pub fn unix_secs_from(clock: Option<u64>) -> (secs: i64)
    ensures
        secs == clock_time(clock),
{
    match clock {
        Some(secs) => if secs <= i64::MAX as u64 {
            secs as i64
        } else {
            i64::MAX
        },
        None => 0,
    }
}

/// The model of what a request for a quote gave.
pub open spec fn quote_result(r: Result<MintQuoteBolt11Response, String>) -> Result<
    MintQuote,
    Seq<char>,
> {
    match r {
        Ok(quote) => Ok(quote@),
        Err(e) => Err(e@),
    }
}

/// The way to a mint, for its users to provide. Two requests may get different replies.
pub trait MintQuoteTransport {
    /// Asks a mint for a quote.
    fn request_mint_quote(&self, mint_url: &str, amount_sats: u64) -> Result<
        MintQuoteBolt11Response,
        String,
    >;
}

/// Whether a request to a mint may get this reply.
pub open spec fn may_reply<Q: MintQuoteTransport>(
    transport: Q,
    mint_url: Seq<char>,
    amount_sats: u64,
    reply: Result<MintQuote, Seq<char>>,
) -> bool {
    exists|url: &str, r: Result<MintQuoteBolt11Response, String>|
        url@ == mint_url && quote_result(r) == reply && #[trigger] call_ensures(
            Q::request_mint_quote,
            (&transport, url, amount_sats),
            r,
        )
}

/// Reply of a mint over HTTP.
#[derive(PartialEq, Eq, Debug)]
pub struct HttpReply {
    /// The status, as a person reads it.
    pub status: String,
    /// Whether the status is one of success.
    pub success: bool,
    pub body: String,
}

/// The start of a text, `n` characters at most.
pub open spec fn start_of(s: Seq<char>, n: int) -> Seq<char> {
    if s.len() > n {
        s.take(n)
    } else {
        s
    }
}

/// The end of a text, `n` characters at most.
pub open spec fn end_of(s: Seq<char>, n: int) -> Seq<char> {
    if s.len() > n {
        s.skip(s.len() - n)
    } else {
        s
    }
}

/// The quote in the text of a mint's reply, or what is wrong with it.
pub open spec fn quote_of_text(body: Seq<char>) -> Result<MintQuote, Seq<char>> {
    match json_parsed(body) {
        Ok(j) => quote_in(j),
        Err(e) => Err("mint quote JSON: "@ + e),
    }
}

/// The quote in a mint's reply over HTTP, or what is wrong with it.
pub open spec fn quote_of_http(reply: HttpReply) -> Result<MintQuote, Seq<char>> {
    if encode_utf8(reply.body@).len() > 65536 {
        Err("mint quote response too large"@)
    } else if !reply.success {
        Err("mint quote HTTP "@ + reply.status@ + ": "@ + start_of(reply.body@, 200))
    } else {
        quote_of_text(reply.body@)
    }
}

/// The start of a text.
pub fn text_start(text: &str, n: usize) -> (r: &str)
    ensures
        r@ == start_of(text@, n as int),
{
    let total: usize = chars_of(text).len();
    if total > n {
        take(text, n)
    } else {
        text
    }
}

/// The end of a text.
fn text_end(text: &str, n: usize) -> (r: &str)
    ensures
        r@ == end_of(text@, n as int),
{
    let total: usize = chars_of(text).len();
    if total > n {
        skip(text, total - n)
    } else {
        text
    }
}

/// The quote in a mint's reply over HTTP.
pub fn quote_from_http(reply: &HttpReply) -> (r: Result<MintQuoteBolt11Response, String>)
    ensures
        quote_result(r) == quote_of_http(*reply),
{
    if byte_len(reply.body.as_str()) > 65536 {
        return Err("mint quote response too large".to_owned());
    }
    if !reply.success {
        let mut message = "mint quote HTTP ".to_owned();
        message.append(reply.status.as_str());
        message.append(": ");
        message.append(text_start(reply.body.as_str(), 200));
        return Err(message);
    }
    parse_mint_quote_bolt11_response(reply.body.as_str())
}

/// The model of what an HTTP request gave.
pub open spec fn http_result(r: Result<HttpReply, String>) -> Result<MintQuote, Seq<char>> {
    match r {
        Ok(reply) => quote_of_http(reply),
        Err(e) => Err(e@),
    }
}

/// Whether one of the replies that a request over HTTP may get gives this quote.
pub open spec fn may_post<F: Fn(&str, &str, u64) -> Result<HttpReply, String>>(
    post: F,
    url: Seq<char>,
    body: Seq<char>,
    timeout_secs: u64,
    quote: Result<MintQuote, Seq<char>>,
) -> bool {
    exists|u: &str, b: &str, reply: Result<HttpReply, String>|
        u@ == url && b@ == body && #[trigger] call_ensures(post, (u, b, timeout_secs), reply)
            && http_result(reply) == quote
}

/// Requests to a mint over HTTP.
#[derive(Clone, Copy, PartialEq, Eq, Structural, Debug)]
pub struct HttpMintQuoteTransport {
    /// Seconds to wait, one at least.
    pub timeout_secs: u64,
}

impl HttpMintQuoteTransport {
    /// Requests that wait half a minute.
    pub fn new() -> (t: HttpMintQuoteTransport)
        ensures
            t.timeout_secs == 30,
    {
        HttpMintQuoteTransport { timeout_secs: 30 }
    }

    /// Asks a mint for a quote. `post` sends a body in JSON to a URL and waits a number of seconds
    /// for the reply.
    pub fn request_mint_quote<F: Fn(&str, &str, u64) -> Result<HttpReply, String>>(
        &self,
        mint_url: &str,
        amount_sats: u64,
        post: F,
    ) -> (r: Result<MintQuoteBolt11Response, String>)
        requires
            forall|url: &str, body: &str, secs: u64| #[trigger]
                call_requires(post, (url, body, secs)),
        ensures
            match (
                behind(mint_url_of(mint_url@), CASHU_MINT_QUOTE_BOLT11_PATH@),
                quote_request(amount_sats, "sat"@),
            ) {
                (Err(message), _) => quote_result(r) == Err::<MintQuote, Seq<char>>(message),
                (Ok(_), Err(message)) => quote_result(r) == Err::<MintQuote, Seq<char>>(message),
                (Ok(url), Ok(body)) => may_post(
                    post,
                    url,
                    body,
                    (if self.timeout_secs == 0 {
                        1
                    } else {
                        self.timeout_secs
                    }),
                    quote_result(r),
                ),
            },
    {
        let url = match mint_quote_bolt11_url(mint_url) {
            Ok(url) => url,
            Err(e) => return Err(e),
        };
        let body = match mint_quote_bolt11_request_json(amount_sats, "sat") {
            Ok(body) => body,
            Err(e) => return Err(e),
        };
        let secs: u64 = if self.timeout_secs == 0 {
            1
        } else {
            self.timeout_secs
        };
        let reply = post(url.as_str(), body.as_str(), secs);
        let r = match &reply {
            Ok(answer) => quote_from_http(answer),
            Err(e) => Err(e.clone()),
        };
        assert(http_result(reply) == quote_result(r));
        assert(may_post(post, url@, body@, secs, quote_result(r)));
        r
    }
}

/// No helper program.
#[derive(Clone, Copy, Debug)]
pub struct NoHelper;

impl CdkMintTransport for NoHelper {
    fn helper_linked(&self) -> (b: bool)
        ensures
            !b,
    {
        false
    }

    fn mint_quote(&self, _request: &CdkMintQuoteRequest) -> (r: CdkMintQuoteTransportResult)
        ensures
            r@ == (QuoteAnswer::Failed { reason: "CDK helper transport not linked"@ }),
    {
        CdkMintQuoteTransportResult::Failed { reason: "CDK helper transport not linked".to_owned() }
    }

    fn mint_after_paid(&self, _request: &CdkMintAfterPaidRequest) -> (r:
        CdkMintAfterPaidTransportResult)
        ensures
            r@ == (TokenAnswer::Failed { reason: "CDK helper transport not linked"@ }),
    {
        CdkMintAfterPaidTransportResult::Failed {
            reason: "CDK helper transport not linked".to_owned(),
        }
    }

    fn melt_token(&self, _request: &CdkMeltTokenRequest) -> (r: CdkMeltTokenTransportResult)
        ensures
            r@ == (MeltAnswer::Failed { reason: "CDK helper transport not linked"@ }),
    {
        CdkMeltTokenTransportResult::Failed { reason: "CDK helper transport not linked".to_owned() }
    }
}

/// The label of the wallet with these recovery words and passphrase: eight bytes of its seed.
pub open spec fn fingerprint(words: Seq<char>, passphrase: Seq<char>) -> Seq<char> {
    hex_of(bip39_seed(words, passphrase).take(8))
}

/// The label of the wallet with these recovery words and passphrase.
pub fn seed_fingerprint_hex(mnemonic: &MnemonicSecret, passphrase: &str) -> (text: String)
    ensures
        text@ == fingerprint(mnemonic.phrase(), passphrase@),
        text@.len() == 16,
{
    let mut seed = mnemonic.to_seed(passphrase);
    let mut first: Vec<u8> = Vec::new();
    for i in 0..8
        invariant
            seed@.len() == 64,
            first@ == seed@.take(i as int),
    {
        first.push(seed[i as usize]);
        assert(first@ =~= seed@.take(i + 1));
    }
    let text = hex_text(first.as_slice());
    wipe_bytes(&mut first);
    wipe_bytes(&mut seed);
    text
}

/// The amount of an invoice that is asked for: a thousand where none is named, none of zero.
pub open spec fn asked_amount(amount_sats: Option<u64>) -> Option<u64> {
    match amount_sats {
        Some(n) => if n == 0 {
            None
        } else {
            Some(n)
        },
        None => Some(1000),
    }
}

/// The amount that is asked for is the amount that the caller named; where the caller named none it
/// is 1000, and nothing is asked for where the caller named zero.
pub proof fn lemma_asked_amount(amount_sats: Option<u64>)
    ensures
        amount_sats matches Some(n) ==> n > 0 ==> asked_amount(amount_sats) == amount_sats,
        amount_sats == Some(0u64) ==> asked_amount(amount_sats) is None,
        amount_sats is None ==> asked_amount(amount_sats) == Some(1000u64),
{
}

/// The invoice in a mint's reply, where it is good at this time.
pub open spec fn invoice_of(
    reply: Result<MintQuote, Seq<char>>,
    amount_sats: u64,
    now: i64,
) -> QuoteOutcome {
    match reply {
        Err(message) => QuoteOutcome::Failed(message),
        Ok(quote) => match quote_fault(quote, amount_sats, now) {
            Some(message) => QuoteOutcome::Failed(message),
            None => QuoteOutcome::Invoice {
                bolt11: trimmed(quote.bolt11),
                quote_id: quote.quote_id,
            },
        },
    }
}

/// The invoice in a mint's reply, where it is good at this time.
pub fn invoice_from_quote(
    reply: Result<MintQuoteBolt11Response, String>,
    amount_sats: u64,
    now: i64,
) -> (outcome: MintQuoteOutcome)
    ensures
        outcome@ == invoice_of(quote_result(reply), amount_sats, now),
{
    match reply {
        Ok(quote) => match validate_mint_quote_for_invoice(&quote, amount_sats, now) {
            Ok(()) => MintQuoteOutcome::Invoice {
                bolt11: trim(quote.bolt11.as_str()).to_owned(),
                quote_id: quote.quote_id,
            },
            Err(message) => MintQuoteOutcome::Failed(message),
        },
        Err(message) => MintQuoteOutcome::Failed(message),
    }
}

/// The invoice in the helper's answer.
pub open spec fn invoice_of_helper(answer: QuoteAnswer) -> QuoteOutcome {
    match answer {
        QuoteAnswer::Failed { reason } => QuoteOutcome::Failed(reason),
        QuoteAnswer::Quote { quote_id, bolt11, amount_sats } => if trimmed(bolt11).len() == 0
            || !bolt11_looks(bolt11) {
            QuoteOutcome::Failed("helper mint quote bolt11 failed looks_like_bolt11"@)
        } else if trimmed(quote_id).len() == 0 {
            QuoteOutcome::Failed("helper mint quote empty quote_id"@)
        } else {
            QuoteOutcome::Invoice { bolt11: trimmed(bolt11), quote_id }
        },
    }
}

/// The invoice in the helper's answer.
pub fn invoice_from_helper(answer: CdkMintQuoteTransportResult) -> (outcome: MintQuoteOutcome)
    ensures
        outcome@ == invoice_of_helper(answer@),
{
    match answer {
        CdkMintQuoteTransportResult::Quote { quote_id, bolt11, amount_sats: _ } => {
            let invoice = trim(bolt11.as_str());
            if invoice.is_empty() || !looks_like_bolt11(bolt11.as_str()) {
                return MintQuoteOutcome::Failed(
                    "helper mint quote bolt11 failed looks_like_bolt11".to_owned(),
                );
            }
            if trim(quote_id.as_str()).is_empty() {
                return MintQuoteOutcome::Failed("helper mint quote empty quote_id".to_owned());
            }
            MintQuoteOutcome::Invoice { bolt11: invoice.to_owned(), quote_id }
        },
        CdkMintQuoteTransportResult::Failed { reason } => MintQuoteOutcome::Failed(reason),
    }
}

/// The token in the helper's answer: what is no token counts as a failure.
pub open spec fn proofs_of(answer: TokenAnswer) -> ProofsOutcome {
    match answer {
        TokenAnswer::Failed { reason } => ProofsOutcome::Failed(reason),
        TokenAnswer::Token { token, amount_sats, quote_id } => if token_fault(trimmed(token))
            is Some {
            ProofsOutcome::Failed("helper token failed CashuToken::parse"@)
        } else {
            ProofsOutcome::Token { token, amount_sats, quote_id }
        },
    }
}

/// The token in the helper's answer.
pub fn proofs_from_helper(answer: CdkMintAfterPaidTransportResult) -> (outcome: MintProofsOutcome)
    ensures
        outcome@ == proofs_of(answer@),
{
    match answer {
        CdkMintAfterPaidTransportResult::Token { token, amount_sats, quote_id } => {
            if CashuToken::parse(token.as_str()).is_err() {
                return MintProofsOutcome::Failed("helper token failed CashuToken::parse".to_owned());
            }
            MintProofsOutcome::Token { token, amount_sats, quote_id }
        },
        CdkMintAfterPaidTransportResult::Failed { reason } => MintProofsOutcome::Failed(reason),
    }
}

/// The payment in the helper's answer, as a person reads it: of the preimage only the last four
/// characters.
pub open spec fn refund_of(answer: MeltAnswer) -> RefundOutcome {
    match answer {
        MeltAnswer::Failed { reason } => RefundOutcome::Failed(reason),
        MeltAnswer::Paid { quote_id, amount_sats, fee_sats, payment_preimage } => {
            let detail = "melted "@ + decimal(amount_sats as nat) + " sats (fee "@ + decimal(
                fee_sats as nat,
            ) + ") quote_id="@ + quote_id + " state=PAID"@;
            RefundOutcome::Completed {
                detail: match payment_preimage {
                    Some(preimage) => detail + (" preimage\u{2026}"@ + end_of(preimage, 4)),
                    None => detail,
                },
            }
        },
    }
}

/// The payment in the helper's answer.
pub fn refund_from_helper(answer: CdkMeltTokenTransportResult) -> (outcome: CashuRefundOutcome)
    ensures
        outcome@ == refund_of(answer@),
{
    match answer {
        CdkMeltTokenTransportResult::Paid { quote_id, amount_sats, fee_sats, payment_preimage } => {
            let mut detail = "melted ".to_owned();
            detail.append(decimal_text(amount_sats).as_str());
            detail.append(" sats (fee ");
            detail.append(decimal_text(fee_sats).as_str());
            detail.append(") quote_id=");
            detail.append(quote_id.as_str());
            detail.append(" state=PAID");
            if let Some(preimage) = &payment_preimage {
                let ghost before = detail@;
                detail.append(" preimage\u{2026}");
                detail.append(text_end(preimage.as_str(), 4));
                assert(detail@ =~= before + (" preimage\u{2026}"@ + end_of(preimage@, 4)));
            }
            CashuRefundOutcome::Completed { detail }
        },
        CdkMeltTokenTransportResult::Failed { reason } => CashuRefundOutcome::Failed(reason),
    }
}

/// What is said where no mint is set.
pub open spec fn no_mint_url() -> Seq<char> {
    "Cashu mint URL not configured (set GROK_BITCOIN_CASHU_MINT_URL)"@
}

/// The backend of a mint, with the helper program where there is one.
pub struct Nut04MintCashu<Q: MintQuoteTransport, H: CdkMintTransport> {
    mint_url: Option<String>,
    transport: Q,
    cdk_helper: Option<H>,
    cdk_storage_base: String,
}

/// The base URL of the mint, where the setting describes one.
pub open spec fn usable_url(url: Option<Seq<char>>) -> Option<Seq<char>> {
    match url {
        Some(u) => match mint_url_of(u) {
            Ok(base) => Some(base),
            Err(_) => None,
        },
        None => None,
    }
}

/// The base URL of the mint, where the setting describes one.
fn usable_mint_url(url: Option<String>) -> (r: Option<String>)
    ensures
        text_view(r) == usable_url(text_view(url)),
{
    match url {
        Some(u) => match validate_mint_url(u.as_str()) {
            Ok(base) => Some(base.to_owned()),
            Err(_) => None,
        },
        None => None,
    }
}

impl<Q: MintQuoteTransport> Nut04MintCashu<Q, NoHelper> {
    /// The backend of a mint without a helper program.
    pub fn new(mint_url: Option<String>, transport: Q) -> (b: Nut04MintCashu<Q, NoHelper>)
        ensures
            b.url() == usable_url(text_view(mint_url)),
            b.quotes() == transport,
            b.helper() is None,
    {
        Nut04MintCashu {
            mint_url: usable_mint_url(mint_url),
            transport,
            cdk_helper: None,
            cdk_storage_base: String::new(),
        }
    }
}

impl<Q: MintQuoteTransport, H: CdkMintTransport> Nut04MintCashu<Q, H> {
    /// The base URL of the mint.
    pub closed spec fn url(&self) -> Option<Seq<char>> {
        text_view(self.mint_url)
    }

    /// The way to the mint.
    pub closed spec fn quotes(&self) -> Q {
        self.transport
    }

    /// The way to the helper.
    pub closed spec fn helper(&self) -> Option<H> {
        self.cdk_helper
    }

    /// The directory below which each wallet has its own.
    pub closed spec fn base(&self) -> Seq<char> {
        self.cdk_storage_base@
    }

    /// Whether the wallet with these recovery words and passphrase may have this directory: its
    /// label below the base.
    pub open spec fn may_have_dir(
        &self,
        words: Seq<char>,
        passphrase: Seq<char>,
        dir: Seq<char>,
    ) -> bool {
        may_join(self.base(), wallet_label(fingerprint(words, passphrase)), dir)
    }

    /// Whether the helper may turn out to be usable: that takes a mint as well.
    pub open spec fn may_be_live(&self, live: bool) -> bool {
        if self.url() is Some && self.helper() is Some {
            may_be_linked(self.helper()->0, live)
        } else {
            !live
        }
    }

    /// Whether a request for an invoice over HTTP may come out like this.
    pub open spec fn may_invoice(&self, amount_sats: u64, outcome: QuoteOutcome) -> bool {
        exists|reply: Result<MintQuote, Seq<char>>, now: i64|
            may_be_now(now) && may_reply(self.quotes(), self.url()->0, amount_sats, reply) && outcome
                == #[trigger] invoice_of(reply, amount_sats, now)
    }

    /// Whether a request for an invoice of the helper may come out like this.
    pub open spec fn may_invoice_by_helper(
        &self,
        amount_sats: u64,
        words: Seq<char>,
        passphrase: Seq<char>,
        outcome: QuoteOutcome,
    ) -> bool {
        exists|answer: QuoteAnswer, dir: Seq<char>| #[trigger]
            self.may_have_dir(words, passphrase, dir) && may_quote(
                self.helper()->0,
                (QuoteAsk {
                    mint_url: self.url()->0,
                    amount_sats,
                    mnemonic_phrase: words,
                    passphrase,
                    storage_dir: dir,
                    timeout_secs: 120,
                }),
                answer,
            ) && outcome == #[trigger] invoice_of_helper(answer)
    }

    /// Whether a request for a token may come out like this.
    pub open spec fn may_mint(
        &self,
        quote_id: Seq<char>,
        words: Seq<char>,
        passphrase: Seq<char>,
        outcome: ProofsOutcome,
    ) -> bool {
        exists|answer: TokenAnswer, dir: Seq<char>| #[trigger]
            self.may_have_dir(words, passphrase, dir) && may_mint(
                self.helper()->0,
                (TokenAsk {
                    mint_url: self.url()->0,
                    quote_id,
                    mnemonic_phrase: words,
                    passphrase,
                    storage_dir: dir,
                    timeout_secs: 120,
                }),
                answer,
            ) && outcome == #[trigger] proofs_of(answer)
    }

    /// Whether a request to pay an invoice with a token may come out like this.
    pub open spec fn may_melt(
        &self,
        token: Seq<char>,
        bolt11: Seq<char>,
        words: Seq<char>,
        passphrase: Seq<char>,
        outcome: RefundOutcome,
    ) -> bool {
        exists|answer: MeltAnswer, dir: Seq<char>| #[trigger]
            self.may_have_dir(words, passphrase, dir) && may_melt(
                self.helper()->0,
                (MeltAsk {
                    mint_url: self.url()->0,
                    token,
                    bolt11,
                    mnemonic_phrase: words,
                    passphrase,
                    storage_dir: dir,
                    timeout_secs: 120,
                }),
                answer,
            ) && outcome == #[trigger] refund_of(answer)
    }

    /// The backend of a mint with a helper program, whose wallets have their directories below
    /// `cdk_storage_base`.
    pub fn with_cdk_helper(
        mint_url: Option<String>,
        transport: Q,
        cdk_helper: Option<H>,
        cdk_storage_base: String,
    ) -> (b: Nut04MintCashu<Q, H>)
        ensures
            b.url() == usable_url(text_view(mint_url)),
            b.quotes() == transport,
            b.helper() == cdk_helper,
            b.base() == cdk_storage_base@,
    {
        Nut04MintCashu {
            mint_url: usable_mint_url(mint_url),
            transport,
            cdk_helper,
            cdk_storage_base,
        }
    }

    /// The base URL of the mint.
    pub fn mint_url(&self) -> (url: Option<&str>)
        ensures
            self.url() == match url {
                Some(u) => Some(u@),
                None => None,
            },
    {
        match &self.mint_url {
            Some(u) => Some(u.as_str()),
            None => None,
        }
    }

    /// Whether paid quotes can be turned into tokens.
    pub fn proofs_mint_live(&self) -> (live: bool)
        ensures
            self.may_be_live(live),
    {
        match (&self.mint_url, &self.cdk_helper) {
            (Some(_), Some(helper)) => helper.helper_linked(),
            _ => false,
        }
    }

    /// The directory of the wallet with these recovery words and passphrase.
    pub fn scoped_storage_for_seed(&self, mnemonic: &MnemonicSecret, passphrase: &str) -> (dir:
        String)
        ensures
            self.may_have_dir(mnemonic.phrase(), passphrase@, dir@),
    {
        let label = seed_fingerprint_hex(mnemonic, passphrase);
        scoped_cdk_storage_dir(self.cdk_storage_base.as_str(), label.as_str())
    }

    /// The backend, as it is printed for a developer.
    pub fn debug_text(&self) -> (text: String)
        ensures
            exists|live: bool| #[trigger]
                self.may_be_live(live) && text@ == "Nut04MintCashu { mint_url: "@ + (
                match self.url() {
                    Some(url) => "Some("@ + debug_quoted(url) + ")"@,
                    None => "None"@,
                }) + ", mint_live: "@ + bool_text(self.url() is Some) + ", proofs_mint_live: "@
                    + bool_text(live) + " }"@,
    {
        let live = self.proofs_mint_live();
        let mut text = "Nut04MintCashu { mint_url: ".to_owned();
        let shown = match &self.mint_url {
            Some(url) => {
                let mut shown = "Some(".to_owned();
                shown.append(debug_text(url.as_str()).as_str());
                shown.append(")");
                shown
            },
            None => "None".to_owned(),
        };
        text.append(shown.as_str());
        text.append(", mint_live: ");
        text.append(bool_str(self.mint_url.is_some()));
        text.append(", proofs_mint_live: ");
        text.append(bool_str(live));
        text.append(" }");
        assert(self.may_be_live(live));
        text
    }
}

impl<Q: MintQuoteTransport, H: CdkMintTransport> CashuBackend for Nut04MintCashu<Q, H> {
    fn capabilities(&self) -> (c: CashuCapabilities)
        ensures
            c.mint_live == self.url() is Some,
            self.may_be_live(c.proofs_mint_live),
            c.spend_live == c.proofs_mint_live,
            c.refund_live == c.proofs_mint_live,
    {
        let live = self.proofs_mint_live();
        CashuCapabilities {
            mint_live: self.mint_url.is_some(),
            proofs_mint_live: live,
            spend_live: live,
            refund_live: live,
        }
    }

    fn request_mint_invoice(&self, amount_sats: Option<u64>) -> (r: Result<
        MintQuoteOutcome,
        WalletError,
    >)
        ensures
            r is Ok,
            if self.url() is None {
                r->Ok_0@ == QuoteOutcome::Failed(no_mint_url())
            } else if asked_amount(amount_sats) is None {
                r->Ok_0@ == QuoteOutcome::Failed("amount_sats must be > 0 for mint quote"@)
            } else {
                self.may_invoice(asked_amount(amount_sats)->0, r->Ok_0@)
            },
            self.url() is Some ==> (amount_sats matches Some(n) ==> n > 0 ==> self.may_invoice(
                n,
                r->Ok_0@,
            )),
    {
        let mint_url = match &self.mint_url {
            Some(url) => url,
            None => return Ok(
                MintQuoteOutcome::Failed(
                    "Cashu mint URL not configured (set GROK_BITCOIN_CASHU_MINT_URL)".to_owned(),
                ),
            ),
        };
        let amount: u64 = match amount_sats {
            Some(n) => {
                if n == 0 {
                    return Ok(
                        MintQuoteOutcome::Failed(
                            "amount_sats must be > 0 for mint quote".to_owned(),
                        ),
                    );
                }
                n
            },
            None => 1000,
        };
        let reply = self.transport.request_mint_quote(mint_url.as_str(), amount);
        let now: i64 = now_unix_secs();
        let ghost given = quote_result(reply);
        assert(may_reply(self.transport, mint_url@, amount, given));
        let outcome = invoice_from_quote(reply, amount, now);
        assert(outcome@ == invoice_of(given, amount, now));
        Ok(outcome)
    }

    fn request_mint_invoice_with_seed(
        &self,
        amount_sats: Option<u64>,
        mnemonic: &MnemonicSecret,
        passphrase: &str,
    ) -> (r: Result<MintQuoteOutcome, WalletError>)
        ensures
            r is Ok,
            if self.url() is None {
                r->Ok_0@ == QuoteOutcome::Failed(no_mint_url())
            } else if asked_amount(amount_sats) is None {
                r->Ok_0@ == QuoteOutcome::Failed("amount_sats must be > 0 for mint quote"@)
            } else {
                ||| self.may_be_live(true) && self.may_invoice_by_helper(
                    asked_amount(amount_sats)->0,
                    mnemonic.phrase(),
                    passphrase@,
                    r->Ok_0@,
                )
                ||| self.may_be_live(false) && self.may_invoice(
                    asked_amount(amount_sats)->0,
                    r->Ok_0@,
                )
            },
            self.url() is Some ==> (amount_sats matches Some(n) ==> n > 0 ==> {
                ||| self.may_invoice(n, r->Ok_0@)
                ||| self.may_invoice_by_helper(n, mnemonic.phrase(), passphrase@, r->Ok_0@)
            }),
    {
        let mint_url = match &self.mint_url {
            Some(url) => url,
            None => return Ok(
                MintQuoteOutcome::Failed(
                    "Cashu mint URL not configured (set GROK_BITCOIN_CASHU_MINT_URL)".to_owned(),
                ),
            ),
        };
        let amount: u64 = match amount_sats {
            Some(n) => {
                if n == 0 {
                    return Ok(
                        MintQuoteOutcome::Failed(
                            "amount_sats must be > 0 for mint quote".to_owned(),
                        ),
                    );
                }
                n
            },
            None => 1000,
        };
        if let Some(helper) = &self.cdk_helper {
            if helper.helper_linked() {
                let request = CdkMintQuoteRequest {
                    mint_url: mint_url.clone(),
                    amount_sats: amount,
                    mnemonic_phrase: mnemonic.expose().to_owned(),
                    passphrase: passphrase.to_owned(),
                    storage_dir: self.scoped_storage_for_seed(mnemonic, passphrase),
                    timeout_secs: 120,
                };
                let answer = helper.mint_quote(&request);
                let ghost given = answer@;
                assert(may_quote(*helper, request@, given));
                let outcome = invoice_from_helper(answer);
                assert(outcome@ == invoice_of_helper(given));
                assert(self.may_invoice_by_helper(
                    amount,
                    mnemonic.phrase(),
                    passphrase@,
                    outcome@,
                ));
                return Ok(outcome);
            }
        }
        self.request_mint_invoice(Some(amount))
    }

    fn complete_mint_after_pay(&self, _quote_id: &str) -> (r: Result<
        MintProofsOutcome,
        WalletError,
    >)
        ensures
            r is Ok,
            ({
                ||| self.may_be_live(false) && r->Ok_0@ == ProofsOutcome::Unsupported(
                    "CDK proofs mint requires mint URL + resolvable grok-bitcoin-cdk-mint helper (set GROK_BITCOIN_CASHU_MINT_URL + GROK_BITCOIN_CDK_MINT_BIN / PATH)"@,
                )
                ||| self.may_be_live(true) && r->Ok_0@ == ProofsOutcome::Failed(
                    "CDK proofs mint requires SeedVault BIP-39 (use complete_mint_after_pay_with_seed); bare call cannot invent token"@,
                )
            }),
    {
        if !self.proofs_mint_live() {
            return Ok(
                MintProofsOutcome::Unsupported(
                    "CDK proofs mint requires mint URL + resolvable grok-bitcoin-cdk-mint helper (set GROK_BITCOIN_CASHU_MINT_URL + GROK_BITCOIN_CDK_MINT_BIN / PATH)",
                ),
            );
        }
        Ok(
            MintProofsOutcome::Failed(
                "CDK proofs mint requires SeedVault BIP-39 (use complete_mint_after_pay_with_seed); bare call cannot invent token".to_owned(),
            ),
        )
    }

    fn complete_mint_after_pay_with_seed(
        &self,
        quote_id: &str,
        mnemonic: &MnemonicSecret,
        passphrase: &str,
    ) -> (r: Result<MintProofsOutcome, WalletError>)
        ensures
            r is Ok,
            if self.url() is None {
                r->Ok_0@ == ProofsOutcome::Failed(no_mint_url())
            } else if self.helper() is None {
                r->Ok_0@ == ProofsOutcome::Unsupported("CDK helper transport not linked"@)
            } else {
                ||| self.may_be_live(false) && r->Ok_0@ == ProofsOutcome::Unsupported(
                    "CDK helper binary not resolvable (set GROK_BITCOIN_CDK_MINT_BIN or PATH)"@,
                )
                ||| self.may_be_live(true) && if trimmed(quote_id@).len() == 0 {
                    r->Ok_0@ == ProofsOutcome::Failed("quote_id must not be empty"@)
                } else {
                    self.may_mint(
                        trimmed(quote_id@),
                        mnemonic.phrase(),
                        passphrase@,
                        r->Ok_0@,
                    )
                }
            },
    {
        let mint_url = match &self.mint_url {
            Some(url) => url,
            None => return Ok(
                MintProofsOutcome::Failed(
                    "Cashu mint URL not configured (set GROK_BITCOIN_CASHU_MINT_URL)".to_owned(),
                ),
            ),
        };
        let helper = match &self.cdk_helper {
            Some(helper) => helper,
            None => return Ok(MintProofsOutcome::Unsupported("CDK helper transport not linked")),
        };
        if !helper.helper_linked() {
            return Ok(
                MintProofsOutcome::Unsupported(
                    "CDK helper binary not resolvable (set GROK_BITCOIN_CDK_MINT_BIN or PATH)",
                ),
            );
        }
        let q = trim(quote_id);
        if q.is_empty() {
            return Ok(MintProofsOutcome::Failed("quote_id must not be empty".to_owned()));
        }
        let request = CdkMintAfterPaidRequest {
            mint_url: mint_url.clone(),
            quote_id: q.to_owned(),
            mnemonic_phrase: mnemonic.expose().to_owned(),
            passphrase: passphrase.to_owned(),
            storage_dir: self.scoped_storage_for_seed(mnemonic, passphrase),
            timeout_secs: 120,
        };
        let answer = helper.mint_after_paid(&request);
        let ghost given = answer@;
        assert(may_mint(*helper, request@, given));
        let outcome = proofs_from_helper(answer);
        assert(outcome@ == proofs_of(given));
        assert(self.may_mint(q@, mnemonic.phrase(), passphrase@, outcome@));
        Ok(outcome)
    }

    fn refund(&self) -> (r: Result<CashuRefundOutcome, WalletError>)
        ensures
            r is Ok,
            ({
                ||| self.may_be_live(true) && r->Ok_0@ == RefundOutcome::Failed(
                    "CDK melt requires cashuA token + destination BOLT11 + SeedVault (use melt_token_to_bolt11_with_seed); bare refund has no token context. For Routstr node float use `grok routstr refund` (POST /v1/balance/refund)."@,
                )
                ||| self.may_be_live(false) && r->Ok_0@ == RefundOutcome::Unsupported(
                    "Cashu melt / refund not live (need mint URL + resolvable grok-bitcoin-cdk-mint helper; use `grok routstr refund` for node float)"@,
                )
            }),
    {
        if self.proofs_mint_live() {
            Ok(
                CashuRefundOutcome::Failed(
                    "CDK melt requires cashuA token + destination BOLT11 + SeedVault (use melt_token_to_bolt11_with_seed); bare refund has no token context. For Routstr node float use `grok routstr refund` (POST /v1/balance/refund).".to_owned(),
                ),
            )
        } else {
            Ok(
                CashuRefundOutcome::Unsupported(
                    "Cashu melt / refund not live (need mint URL + resolvable grok-bitcoin-cdk-mint helper; use `grok routstr refund` for node float)",
                ),
            )
        }
    }

    fn melt_token_to_bolt11_with_seed(
        &self,
        token: &str,
        bolt11: &str,
        mnemonic: &MnemonicSecret,
        passphrase: &str,
    ) -> (r: Result<CashuRefundOutcome, WalletError>)
        ensures
            r is Ok,
            if self.url() is None {
                r->Ok_0@ == RefundOutcome::Failed(no_mint_url())
            } else if self.helper() is None {
                r->Ok_0@ == RefundOutcome::Unsupported("CDK helper transport not linked"@)
            } else {
                ||| self.may_be_live(false) && r->Ok_0@ == RefundOutcome::Unsupported(
                    "CDK helper binary not resolvable (set GROK_BITCOIN_CDK_MINT_BIN or PATH)"@,
                )
                ||| self.may_be_live(true) && if token_fault(trimmed(token@)) is Some {
                    r->Ok_0@ == RefundOutcome::Failed(
                        "token failed CashuToken::parse (need cashuA\u{2026}/cashuB\u{2026})"@,
                    )
                } else if !bolt11_looks(bolt11@) {
                    r->Ok_0@ == RefundOutcome::Failed(
                        "bolt11 failed looks_like_bolt11 (lnurl rejected)"@,
                    )
                } else {
                    self.may_melt(
                        trimmed(token@),
                        trimmed(bolt11@),
                        mnemonic.phrase(),
                        passphrase@,
                        r->Ok_0@,
                    )
                }
            },
    {
        let mint_url = match &self.mint_url {
            Some(url) => url,
            None => return Ok(
                CashuRefundOutcome::Failed(
                    "Cashu mint URL not configured (set GROK_BITCOIN_CASHU_MINT_URL)".to_owned(),
                ),
            ),
        };
        let helper = match &self.cdk_helper {
            Some(helper) => helper,
            None => return Ok(CashuRefundOutcome::Unsupported("CDK helper transport not linked")),
        };
        if !helper.helper_linked() {
            return Ok(
                CashuRefundOutcome::Unsupported(
                    "CDK helper binary not resolvable (set GROK_BITCOIN_CDK_MINT_BIN or PATH)",
                ),
            );
        }
        if CashuToken::parse(token).is_err() {
            return Ok(
                CashuRefundOutcome::Failed(
                    "token failed CashuToken::parse (need cashuA\u{2026}/cashuB\u{2026})".to_owned(),
                ),
            );
        }
        if !looks_like_bolt11(bolt11) {
            return Ok(
                CashuRefundOutcome::Failed(
                    "bolt11 failed looks_like_bolt11 (lnurl rejected)".to_owned(),
                ),
            );
        }
        let request = CdkMeltTokenRequest {
            mint_url: mint_url.clone(),
            token: trim(token).to_owned(),
            bolt11: trim(bolt11).to_owned(),
            mnemonic_phrase: mnemonic.expose().to_owned(),
            passphrase: passphrase.to_owned(),
            storage_dir: self.scoped_storage_for_seed(mnemonic, passphrase),
            timeout_secs: 120,
        };
        let answer = helper.melt_token(&request);
        let ghost given = answer@;
        assert(may_melt(*helper, request@, given));
        let outcome = refund_from_helper(answer);
        assert(outcome@ == refund_of(given));
        assert(self.may_melt(
            trimmed(token@),
            trimmed(bolt11@),
            mnemonic.phrase(),
            passphrase@,
            outcome@,
        ));
        Ok(outcome)
    }
}

/// An invoice from a mint's reply looks like one, is that of the reply, and can still be paid.
pub proof fn lemma_invoice_from_reply(
    reply: Result<MintQuote, Seq<char>>,
    amount_sats: u64,
    now: i64,
)
    requires
        invoice_of(reply, amount_sats, now) is Invoice,
    ensures
        reply is Ok,
        invoice_of(reply, amount_sats, now)->bolt11 == trimmed(reply->Ok_0.bolt11),
        bolt11_looks(invoice_of(reply, amount_sats, now)->bolt11),
        reply->Ok_0.expiry matches Some(expiry) ==> now < expiry,
        reply->Ok_0.amount_sats matches Some(n) ==> n == amount_sats,
{
}

/// An invoice that the backend hands on over HTTP is that of a quote which the mint gave and which
/// had not expired when the clock was asked.
pub proof fn lemma_invoice_in_time<Q: MintQuoteTransport, H: CdkMintTransport>(
    backend: Nut04MintCashu<Q, H>,
    amount_sats: u64,
    outcome: QuoteOutcome,
)
    requires
        backend.may_invoice(amount_sats, outcome),
        outcome is Invoice,
    ensures
        exists|quote: MintQuote, now: i64| #[trigger]
            may_be_now(now) && #[trigger] may_reply(
                backend.quotes(),
                backend.url()->0,
                amount_sats,
                Ok(quote),
            ) && (quote.expiry matches Some(expiry) ==> now < expiry) && outcome == (
            QuoteOutcome::Invoice { bolt11: trimmed(quote.bolt11), quote_id: quote.quote_id }),
{
    let (reply, now) = choose|reply: Result<MintQuote, Seq<char>>, now: i64|
        may_be_now(now) && may_reply(backend.quotes(), backend.url()->0, amount_sats, reply)
            && outcome == #[trigger] invoice_of(reply, amount_sats, now);
    lemma_invoice_from_reply(reply, amount_sats, now);
    let quote = reply->Ok_0;
    assert(reply == Ok::<MintQuote, Seq<char>>(quote));
    assert(may_be_now(now) && may_reply(
        backend.quotes(),
        backend.url()->0,
        amount_sats,
        Ok(quote),
    ));
}

/// A token of the backend is the one that the helper answered with, and is one.
pub proof fn lemma_token_from_helper(answer: TokenAnswer)
    requires
        proofs_of(answer) is Token,
    ensures
        answer is Token,
        proofs_of(answer)->token == answer->token,
        token_fault(trimmed(answer->token)) is None,
{
}

/// A payment of the backend is one that the helper answered with.
pub proof fn lemma_refund_from_helper(answer: MeltAnswer)
    ensures
        refund_of(answer) is Completed <==> answer is Paid,
{
}

/// What the helper answered comes through: the invoice and the quote that it names, or the token
/// with its amount and its quote, and a failure with its reason.
pub proof fn lemma_answer_comes_through(
    quote_id: Seq<char>,
    bolt11: Seq<char>,
    token: Seq<char>,
    amount_sats: u64,
    reason: Seq<char>,
)
    requires
        trimmed(quote_id).len() > 0,
        bolt11_looks(bolt11),
        token_fault(trimmed(token)) is None,
    ensures
        invoice_of_helper(QuoteAnswer::Quote { quote_id, bolt11, amount_sats }) == (
        QuoteOutcome::Invoice { bolt11: trimmed(bolt11), quote_id }),
        proofs_of(TokenAnswer::Token { token, amount_sats, quote_id }) == (ProofsOutcome::Token {
            token,
            amount_sats,
            quote_id,
        }),
        invoice_of_helper(QuoteAnswer::Failed { reason }) == QuoteOutcome::Failed(reason),
        proofs_of(TokenAnswer::Failed { reason }) == ProofsOutcome::Failed(reason),
        refund_of(MeltAnswer::Failed { reason }) == RefundOutcome::Failed(reason),
{
    if trimmed(bolt11).len() == 0 {
        assert(bolt11_looks(bolt11));
    }
}

/// What is said of a payment names the amount, the fee and the quote, and of the preimage no more
/// than its last four characters: two that end alike are told alike.
pub proof fn lemma_payment_is_told(
    quote_id: Seq<char>,
    amount_sats: u64,
    fee_sats: u64,
    preimage: Seq<char>,
    other: Seq<char>,
)
    requires
        preimage.len() >= 4,
        other.len() >= 4,
        preimage.skip(preimage.len() - 4) == other.skip(other.len() - 4),
    ensures
        refund_of(
            MeltAnswer::Paid { quote_id, amount_sats, fee_sats, payment_preimage: Some(preimage) },
        ) == refund_of(
            MeltAnswer::Paid { quote_id, amount_sats, fee_sats, payment_preimage: Some(other) },
        ),
        refund_of(
            MeltAnswer::Paid { quote_id, amount_sats, fee_sats, payment_preimage: Some(preimage) },
        ) matches RefundOutcome::Completed { detail } && has_prefix(
            detail,
            "melted "@ + decimal(amount_sats as nat) + " sats (fee "@ + decimal(fee_sats as nat)
                + ") quote_id="@ + quote_id,
        ) && detail.skip(detail.len() - 4) == preimage.skip(preimage.len() - 4),
        refund_of(
            MeltAnswer::Paid { quote_id, amount_sats, fee_sats, payment_preimage: None },
        ) matches RefundOutcome::Completed { detail } && has_prefix(
            detail,
            "melted "@ + decimal(amount_sats as nat) + " sats (fee "@ + decimal(fee_sats as nat)
                + ") quote_id="@ + quote_id,
        ),
{
    let start = "melted "@ + decimal(amount_sats as nat) + " sats (fee "@ + decimal(fee_sats as nat)
        + ") quote_id="@ + quote_id;
    let plain = start + " state=PAID"@;
    let end = preimage.skip(preimage.len() - 4);
    let full = plain + (" preimage\u{2026}"@ + end);
    assert(plain.take(start.len() as int) =~= start);
    assert(full.take(start.len() as int) =~= start);
    assert(full.skip(full.len() - 4) =~= end);
    assert(end_of(preimage, 4) =~= end);
    assert(end_of(other, 4) =~= end);
}

/// Wallets whose seeds differ in the first eight bytes have directories of different names, be it
/// the words that differ or the passphrase.
pub proof fn lemma_wallets_have_their_own(
    words: Seq<char>,
    passphrase: Seq<char>,
    other_words: Seq<char>,
    other_passphrase: Seq<char>,
)
    requires
        bip39_seed(words, passphrase).len() == 64,
        bip39_seed(other_words, other_passphrase).len() == 64,
    ensures
        wallet_label(fingerprint(words, passphrase)) == hex_of(
            bip39_seed(words, passphrase).take(8),
        ),
        wallet_label(fingerprint(words, passphrase)) == wallet_label(
            fingerprint(other_words, other_passphrase),
        ) ==> bip39_seed(words, passphrase).take(8) == bip39_seed(
            other_words,
            other_passphrase,
        ).take(8),
{
    let a = bip39_seed(words, passphrase).take(8);
    let b = bip39_seed(other_words, other_passphrase).take(8);
    lemma_hex(a, b, 0);
    lemma_hex(b, a, 0);
    lemma_hex_is_hex(a);
    lemma_hex_is_hex(b);
    lemma_wallet_label(hex_of(a));
    lemma_wallet_label(hex_of(b));
}

proof fn lemma_hex_is_hex(bytes: Seq<u8>)
    ensures
        forall|i: int| 0 <= i < hex_of(bytes).len() ==> is_hex_digit(#[trigger] hex_of(bytes)[i]),
    decreases bytes.len(),
{
    if bytes.len() > 0 {
        let front = hex_of(bytes.drop_last());
        lemma_hex_is_hex(bytes.drop_last());
        assert forall|i: int| 0 <= i < hex_of(bytes).len() implies is_hex_digit(
            #[trigger] hex_of(bytes)[i],
        ) by {
            if i < front.len() {
                assert(is_hex_digit(front[i]));
            }
        }
    }
}

/// A clock counts every second that fits, and never backwards.
pub proof fn lemma_clock_time(secs: u64, later: u64)
    ensures
        secs <= 0x7fff_ffff_ffff_ffff ==> clock_time(Some(secs)) == secs,
        secs <= later ==> clock_time(Some(secs)) <= clock_time(Some(later)),
        clock_time(None) == 0,
        clock_time(Some(secs)) >= 0,
{
}

/// The quote of a reply over HTTP is that of its body, where the request succeeded and the body is
/// no larger than 64 KiB; there is none of any other reply.
pub proof fn lemma_quote_of_http(reply: HttpReply, j: Json)
    requires
        json_parsed(reply.body@) == Ok::<Json, Seq<char>>(j),
    ensures
        reply.success && encode_utf8(reply.body@).len() <= 0x1_0000 ==> quote_of_http(reply)
            == quote_in(j),
        !reply.success || encode_utf8(reply.body@).len() > 0x1_0000 ==> quote_of_http(reply) is Err,
{
}

/// A quote with nothing wrong leads to its invoice: one that is unpaid as far as it says, has not
/// expired, and is over the amount that was asked for.
pub proof fn lemma_good_quote_gives_invoice(quote: MintQuote, amount_sats: u64, now: i64)
    requires
        quote_fault(quote, amount_sats, now) is None,
    ensures
        invoice_of(Ok(quote), amount_sats, now) == (QuoteOutcome::Invoice {
            bolt11: trimmed(quote.bolt11),
            quote_id: quote.quote_id,
        }),
{
}

/// The helper is asked for an invoice over the amount that is asked for, at the mint of the
/// backend, for the wallet of the words and the passphrase; an invoice is handed on only as the
/// helper gave it.
pub proof fn lemma_helper_is_asked_for_invoice<Q: MintQuoteTransport, H: CdkMintTransport>(
    backend: Nut04MintCashu<Q, H>,
    amount_sats: u64,
    words: Seq<char>,
    passphrase: Seq<char>,
    outcome: QuoteOutcome,
)
    requires
        backend.may_invoice_by_helper(amount_sats, words, passphrase, outcome),
    ensures
        exists|ask: QuoteAsk, answer: QuoteAnswer| #[trigger]
            may_quote(backend.helper()->0, ask, answer) && ask.amount_sats == amount_sats
                && ask.mint_url == backend.url()->0 && ask.mnemonic_phrase == words
                && ask.passphrase == passphrase && backend.may_have_dir(
                words,
                passphrase,
                ask.storage_dir,
            ) && (outcome matches QuoteOutcome::Invoice { bolt11, quote_id } ==> (
            answer matches QuoteAnswer::Quote { quote_id: id, bolt11: invoice, .. } && bolt11
                == trimmed(invoice) && quote_id == id && bolt11_looks(invoice))) && (
            answer is Failed ==> outcome == QuoteOutcome::Failed(answer->Failed_reason)),
{
    let (answer, dir) = choose|answer: QuoteAnswer, dir: Seq<char>| #[trigger]
        backend.may_have_dir(words, passphrase, dir) && may_quote(
            backend.helper()->0,
            (QuoteAsk {
                mint_url: backend.url()->0,
                amount_sats,
                mnemonic_phrase: words,
                passphrase,
                storage_dir: dir,
                timeout_secs: 120,
            }),
            answer,
        ) && outcome == #[trigger] invoice_of_helper(answer);
    let ask = QuoteAsk {
        mint_url: backend.url()->0,
        amount_sats,
        mnemonic_phrase: words,
        passphrase,
        storage_dir: dir,
        timeout_secs: 120,
    };
    assert(may_quote(backend.helper()->0, ask, answer));
}

/// The helper is asked for the token of the quote that was asked for, for the wallet of the words
/// and the passphrase.
pub proof fn lemma_helper_is_asked_for_token<Q: MintQuoteTransport, H: CdkMintTransport>(
    backend: Nut04MintCashu<Q, H>,
    quote_id: Seq<char>,
    words: Seq<char>,
    passphrase: Seq<char>,
    outcome: ProofsOutcome,
)
    requires
        backend.may_mint(quote_id, words, passphrase, outcome),
    ensures
        exists|ask: TokenAsk, answer: TokenAnswer| #[trigger]
            may_mint(backend.helper()->0, ask, answer) && ask.quote_id == quote_id
                && ask.mint_url == backend.url()->0 && ask.mnemonic_phrase == words
                && ask.passphrase == passphrase && backend.may_have_dir(
                words,
                passphrase,
                ask.storage_dir,
            ) && (outcome matches ProofsOutcome::Token { token, amount_sats, quote_id: id }
                ==> answer == (TokenAnswer::Token { token, amount_sats, quote_id: id })) && (
            answer matches TokenAnswer::Token { token, .. } ==> token_fault(trimmed(token)) is None
                ==> outcome is Token),
{
    let (answer, dir) = choose|answer: TokenAnswer, dir: Seq<char>| #[trigger]
        backend.may_have_dir(words, passphrase, dir) && may_mint(
            backend.helper()->0,
            (TokenAsk {
                mint_url: backend.url()->0,
                quote_id,
                mnemonic_phrase: words,
                passphrase,
                storage_dir: dir,
                timeout_secs: 120,
            }),
            answer,
        ) && outcome == #[trigger] proofs_of(answer);
    let ask = TokenAsk {
        mint_url: backend.url()->0,
        quote_id,
        mnemonic_phrase: words,
        passphrase,
        storage_dir: dir,
        timeout_secs: 120,
    };
    assert(may_mint(backend.helper()->0, ask, answer));
}

/// The helper is asked to pay the invoice that was asked for with the token that was given, for the
/// wallet of the words and the passphrase.
pub proof fn lemma_helper_is_asked_to_pay<Q: MintQuoteTransport, H: CdkMintTransport>(
    backend: Nut04MintCashu<Q, H>,
    token: Seq<char>,
    bolt11: Seq<char>,
    words: Seq<char>,
    passphrase: Seq<char>,
    outcome: RefundOutcome,
)
    requires
        backend.may_melt(token, bolt11, words, passphrase, outcome),
    ensures
        exists|ask: MeltAsk, answer: MeltAnswer| #[trigger]
            may_melt(backend.helper()->0, ask, answer) && ask.token == token && ask.bolt11
                == bolt11 && ask.mint_url == backend.url()->0 && ask.mnemonic_phrase == words
                && ask.passphrase == passphrase && backend.may_have_dir(
                words,
                passphrase,
                ask.storage_dir,
            ) && (outcome is Completed <==> answer is Paid) && (answer matches MeltAnswer::Failed {
                reason,
            } ==> outcome == RefundOutcome::Failed(reason)),
{
    let (answer, dir) = choose|answer: MeltAnswer, dir: Seq<char>| #[trigger]
        backend.may_have_dir(words, passphrase, dir) && may_melt(
            backend.helper()->0,
            (MeltAsk {
                mint_url: backend.url()->0,
                token,
                bolt11,
                mnemonic_phrase: words,
                passphrase,
                storage_dir: dir,
                timeout_secs: 120,
            }),
            answer,
        ) && outcome == #[trigger] refund_of(answer);
    let ask = MeltAsk {
        mint_url: backend.url()->0,
        token,
        bolt11,
        mnemonic_phrase: words,
        passphrase,
        storage_dir: dir,
        timeout_secs: 120,
    };
    assert(may_melt(backend.helper()->0, ask, answer));
}

} // verus!
