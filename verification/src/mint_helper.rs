//! The program that holds the Cashu wallet: its requests, what each asks for, and its replies. A
//! request is one JSON object on standard input, a reply one on standard output.

use vstd::prelude::*;
use vstd::string::StringExecFns;
use vstd::utf8::encode_utf8;

use crate::bolt11::{bolt11_looks, looks_like_bolt11};
use crate::cashu::{lemma_without_slashes, strip_slashes, token_fault, without_slashes};
use crate::cashu_backend::{start_of, text_start};
use crate::chain_select::{borrowed, given, given_text};
use crate::funding::text_view;
use crate::json::{
    add_flag_member, add_member, add_number_member, add_text_member, bool_str, bool_text,
    flag_member, json_member, json_quoted, lemma_member_head, number_member, text_member,
};
use crate::mnemonic::{bip39_seed, check_words, seed_bytes, words_parsed};
use crate::node_helper::{filled, message_of, or_empty, wiped, wipe_optional};
use crate::path::{is_absolute_dir, join, may_be_absolute_dir, may_join};
use crate::secret::wipe_text;
use crate::text::{
    byte_len, contains, decimal, decimal_text, has_part, has_prefix, lemma_holds,
    lemma_holds_none, lemma_holds_one_more, lemma_part_between, lower, lowered, same, starts_with,
    trim, trimmed,
};

verus! {

/// Version of requests and replies.
pub const PROTOCOL_V: u32 = 1;

/// Seconds to wait until a quote is paid, where a request names none.
pub const DEFAULT_TIMEOUT_SECS: u64 = 120;

/// Seconds between two looks at a quote, where a request names none.
pub const DEFAULT_POLL_INTERVAL_SECS: u64 = 2;

/// Request, one JSON object. It holds secrets, which are wiped when it is dropped.
pub struct Request {
    pub v: u32,
    pub cmd: String,
    pub mint_url: Option<String>,
    pub amount_sats: Option<u64>,
    pub quote_id: Option<String>,
    pub mnemonic: Option<String>,
    pub passphrase: Option<String>,
    pub storage_dir: Option<String>,
    pub timeout_secs: Option<u64>,
    pub poll_interval_secs: Option<u64>,
    pub token: Option<String>,
    pub bolt11: Option<String>,
}

/// Model of [`Request`].
pub struct Ask {
    pub v: u32,
    pub cmd: Seq<char>,
    pub mint_url: Option<Seq<char>>,
    pub amount_sats: Option<u64>,
    pub quote_id: Option<Seq<char>>,
    pub mnemonic: Option<Seq<char>>,
    pub passphrase: Option<Seq<char>>,
    pub storage_dir: Option<Seq<char>>,
    pub timeout_secs: Option<u64>,
    pub poll_interval_secs: Option<u64>,
    pub token: Option<Seq<char>>,
    pub bolt11: Option<Seq<char>>,
}

impl View for Request {
    type V = Ask;

    open spec fn view(&self) -> Ask {
        Ask {
            v: self.v,
            cmd: self.cmd@,
            mint_url: text_view(self.mint_url),
            amount_sats: self.amount_sats,
            quote_id: text_view(self.quote_id),
            mnemonic: text_view(self.mnemonic),
            passphrase: text_view(self.passphrase),
            storage_dir: text_view(self.storage_dir),
            timeout_secs: self.timeout_secs,
            poll_interval_secs: self.poll_interval_secs,
            token: text_view(self.token),
            bolt11: text_view(self.bolt11),
        }
    }
}

impl Drop for Request {
    fn drop(&mut self)
        opens_invariants none
        no_unwind
    {
        zeroize_request_secrets(self);
    }
}

/// Wipes the secrets of a request and leaves the rest as it is.
pub fn zeroize_request_secrets(req: &mut Request)
    ensures
        final(req)@ == (Ask {
            mnemonic: wiped(old(req)@.mnemonic),
            passphrase: wiped(old(req)@.passphrase),
            token: wiped(old(req)@.token),
            ..old(req)@
        }),
    opens_invariants none
    no_unwind
{
    wipe_optional(&mut req.mnemonic);
    wipe_optional(&mut req.passphrase);
    wipe_optional(&mut req.token);
}

/// The model of what reading a request gave.
pub open spec fn ask_result(r: Result<Request, String>) -> Result<Ask, Seq<char>> {
    match r {
        Ok(req) => Ok(req@),
        Err(e) => Err(e@),
    }
}

/// A request that was read, or what is said of a text that holds none.
pub open spec fn accepted(read: Result<Ask, Seq<char>>) -> Result<Ask, Seq<char>> {
    match read {
        Ok(ask) => Ok(ask),
        Err(e) => Err("invalid JSON request: "@ + e),
    }
}

/// A request that was read, or what is said of a text that holds none.
pub fn accept_request(read: Result<Request, String>) -> (r: Result<Request, String>)
    ensures
        ask_result(r) == accepted(ask_result(read)),
{
    match read {
        Ok(req) => Ok(req),
        Err(e) => {
            let mut message = "invalid JSON request: ".to_owned();
            message.append(e.as_str());
            Err(message)
        },
    }
}

/// Whether reading a text may give this.
pub open spec fn may_read<F: Fn(&str) -> Result<Request, String>>(
    read: F,
    text: Seq<char>,
    given: Result<Ask, Seq<char>>,
) -> bool {
    exists|t: &str, r: Result<Request, String>|
        t@ == text && ask_result(r) == given && #[trigger] call_ensures(read, (t,), r)
}

/// The request in a text, white space around it aside. `read` reads JSON.
pub fn parse_request<F: Fn(&str) -> Result<Request, String>>(text: &str, read: F) -> (r: Result<
    Request,
    String,
>)
    requires
        forall|t: &str| t@ == trimmed(text@) ==> #[trigger] call_requires(read, (t,)),
    ensures
        exists|given: Result<Ask, Seq<char>>| #[trigger]
            may_read(read, trimmed(text@), given) && ask_result(r) == accepted(given),
{
    let given = read(trim(text));
    assert(may_read(read, trimmed(text@), ask_result(given)));
    accept_request(given)
}

/// Reply, one JSON object. It never holds recovery words.
#[derive(PartialEq, Eq, Debug)]
pub struct Response {
    pub v: u32,
    pub ok: bool,
    pub error: Option<String>,
    pub quote_id: Option<String>,
    pub bolt11: Option<String>,
    pub amount_sats: Option<u64>,
    pub token: Option<String>,
    pub cdk_linked: Option<bool>,
    pub pong: Option<bool>,
    pub state: Option<String>,
    pub fee_sats: Option<u64>,
    pub payment_preimage: Option<String>,
}

/// Model of [`Response`].
pub struct Reply {
    pub v: u32,
    pub ok: bool,
    pub error: Option<Seq<char>>,
    pub quote_id: Option<Seq<char>>,
    pub bolt11: Option<Seq<char>>,
    pub amount_sats: Option<u64>,
    pub token: Option<Seq<char>>,
    pub cdk_linked: Option<bool>,
    pub pong: Option<bool>,
    pub state: Option<Seq<char>>,
    pub fee_sats: Option<u64>,
    pub payment_preimage: Option<Seq<char>>,
}

impl View for Response {
    type V = Reply;

    open spec fn view(&self) -> Reply {
        Reply {
            v: self.v,
            ok: self.ok,
            error: text_view(self.error),
            quote_id: text_view(self.quote_id),
            bolt11: text_view(self.bolt11),
            amount_sats: self.amount_sats,
            token: text_view(self.token),
            cdk_linked: self.cdk_linked,
            pong: self.pong,
            state: text_view(self.state),
            fee_sats: self.fee_sats,
            payment_preimage: text_view(self.payment_preimage),
        }
    }
}

/// A reply of this version without any field.
pub open spec fn bare_reply(ok: bool) -> Reply {
    Reply {
        v: PROTOCOL_V,
        ok,
        error: None,
        quote_id: None,
        bolt11: None,
        amount_sats: None,
        token: None,
        cdk_linked: None,
        pong: None,
        state: None,
        fee_sats: None,
        payment_preimage: None,
    }
}

/// A reply of this version without any field.
fn bare_response(ok: bool) -> (r: Response)
    ensures
        r@ == bare_reply(ok),
{
    Response {
        v: PROTOCOL_V,
        ok,
        error: None,
        quote_id: None,
        bolt11: None,
        amount_sats: None,
        token: None,
        cdk_linked: None,
        pong: None,
        state: None,
        fee_sats: None,
        payment_preimage: None,
    }
}

/// A reply in JSON: the fields that are there, in a fixed order.
pub open spec fn reply_json(r: Reply) -> Seq<char> {
    "{\"v\":"@ + decimal(r.v as nat) + json_member("ok"@, bool_text(r.ok))
        + text_member("error"@, r.error)
        + text_member("quote_id"@, r.quote_id)
        + text_member("bolt11"@, r.bolt11)
        + number_member("amount_sats"@, r.amount_sats)
        + text_member("token"@, r.token)
        + flag_member("cdk_linked"@, r.cdk_linked)
        + flag_member("pong"@, r.pong)
        + text_member("state"@, r.state)
        + number_member("fee_sats"@, r.fee_sats)
        + text_member("payment_preimage"@, r.payment_preimage) + "}"@
}

impl Response {
    /// The reply in JSON.
    pub fn to_json(&self) -> (text: String)
        ensures
            text@ == reply_json(self@),
    {
        let mut text = "{\"v\":".to_owned();
        text.append(decimal_text(self.v as u64).as_str());
        add_member(&mut text, "ok", bool_str(self.ok));
        add_text_member(&mut text, "error", &self.error);
        add_text_member(&mut text, "quote_id", &self.quote_id);
        add_text_member(&mut text, "bolt11", &self.bolt11);
        add_number_member(&mut text, "amount_sats", self.amount_sats);
        add_text_member(&mut text, "token", &self.token);
        add_flag_member(&mut text, "cdk_linked", self.cdk_linked);
        add_flag_member(&mut text, "pong", self.pong);
        add_text_member(&mut text, "state", &self.state);
        add_number_member(&mut text, "fee_sats", self.fee_sats);
        add_text_member(&mut text, "payment_preimage", &self.payment_preimage);
        text.append("}");
        text
    }

    /// The exit code of the program that wrote the reply: zero for success alone.
    pub fn exit_code(&self) -> (code: i32)
        ensures
            code == if self.ok {
                0i32
            } else {
                1i32
            },
    {
        if self.ok {
            0
        } else {
            1
        }
    }

    /// The reply to the command `ping`.
    pub fn ok_ping() -> (r: Response)
        ensures
            r@ == ping_reply(),
    {
        let mut r = bare_response(true);
        r.cdk_linked = Some(true);
        r.pong = Some(true);
        r
    }

    /// The reply with a mint quote.
    pub fn ok_quote(quote_id: String, bolt11: String, amount_sats: u64) -> (r: Response)
        ensures
            r@ == (Reply {
                quote_id: Some(quote_id@),
                bolt11: Some(bolt11@),
                amount_sats: Some(amount_sats),
                ..bare_reply(true)
            }),
    {
        let mut r = bare_response(true);
        r.quote_id = Some(quote_id);
        r.bolt11 = Some(bolt11);
        r.amount_sats = Some(amount_sats);
        r
    }

    /// The reply with a token.
    pub fn ok_token(quote_id: String, token: String, amount_sats: u64) -> (r: Response)
        ensures
            r@ == (Reply {
                quote_id: Some(quote_id@),
                token: Some(token@),
                amount_sats: Some(amount_sats),
                ..bare_reply(true)
            }),
    {
        let mut r = bare_response(true);
        r.quote_id = Some(quote_id);
        r.token = Some(token);
        r.amount_sats = Some(amount_sats);
        r
    }

    /// The reply with a payment by a token.
    pub fn ok_melt(
        quote_id: String,
        amount_sats: u64,
        fee_sats: u64,
        state: String,
        payment_preimage: Option<String>,
    ) -> (r: Response)
        ensures
            r@ == (Reply {
                quote_id: Some(quote_id@),
                amount_sats: Some(amount_sats),
                fee_sats: Some(fee_sats),
                state: Some(state@),
                payment_preimage: text_view(payment_preimage),
                ..bare_reply(true)
            }),
    {
        let mut r = bare_response(true);
        r.quote_id = Some(quote_id);
        r.amount_sats = Some(amount_sats);
        r.fee_sats = Some(fee_sats);
        r.state = Some(state);
        r.payment_preimage = payment_preimage;
        r
    }

    /// The reply to a request that was not carried out.
    pub fn err(message: &str) -> (r: Response)
        ensures
            r@ == error_reply(message@),
    {
        let mut r = bare_response(false);
        r.error = Some(message.to_owned());
        r
    }
}

/// A reply in JSON holds the version and each of its values under its own name.
pub proof fn lemma_reply_json(r: Reply)
    ensures
        has_part(reply_json(r), "{\"v\":"@ + decimal(r.v as nat)),
        has_part(reply_json(r), ",\"ok\":"@ + (if r.ok {
            "true"@
        } else {
            "false"@
        })),
        r.error matches Some(x) ==> has_part(reply_json(r), ",\"error\":"@ + json_quoted(x)),
        r.quote_id matches Some(x) ==> has_part(reply_json(r), ",\"quote_id\":"@ + json_quoted(x)),
        r.bolt11 matches Some(x) ==> has_part(reply_json(r), ",\"bolt11\":"@ + json_quoted(x)),
        r.amount_sats matches Some(x) ==> has_part(reply_json(r), ",\"amount_sats\":"@ + decimal(x as nat)),
        r.token matches Some(x) ==> has_part(reply_json(r), ",\"token\":"@ + json_quoted(x)),
        r.cdk_linked matches Some(x) ==> has_part(reply_json(r), ",\"cdk_linked\":"@ + (if x {
            "true"@
        } else {
            "false"@
        })),
        r.pong matches Some(x) ==> has_part(reply_json(r), ",\"pong\":"@ + (if x {
            "true"@
        } else {
            "false"@
        })),
        r.state matches Some(x) ==> has_part(reply_json(r), ",\"state\":"@ + json_quoted(x)),
        r.fee_sats matches Some(x) ==> has_part(reply_json(r), ",\"fee_sats\":"@ + decimal(x as nat)),
        r.payment_preimage matches Some(x) ==> has_part(reply_json(r), ",\"payment_preimage\":"@ + json_quoted(x)),
{
    lemma_member_head();
    let s0 = "{\"v\":"@ + decimal(r.v as nat);
    let m0 = json_member("ok"@, bool_text(r.ok));
    let m1 = text_member("error"@, r.error);
    let m2 = text_member("quote_id"@, r.quote_id);
    let m3 = text_member("bolt11"@, r.bolt11);
    let m4 = number_member("amount_sats"@, r.amount_sats);
    let m5 = text_member("token"@, r.token);
    let m6 = flag_member("cdk_linked"@, r.cdk_linked);
    let m7 = flag_member("pong"@, r.pong);
    let m8 = text_member("state"@, r.state);
    let m9 = number_member("fee_sats"@, r.fee_sats);
    let m10 = text_member("payment_preimage"@, r.payment_preimage);
    let l0 = seq![s0];
    lemma_holds_none(Seq::empty());
    lemma_holds_one_more(Seq::empty(), Seq::empty(), s0);
    assert(Seq::<char>::empty() + s0 =~= s0);
    assert(Seq::<Seq<char>>::empty().push(s0) =~= l0);
    let (s1, l1) = (s0 + m0, l0.push(m0));
    lemma_holds_one_more(s0, l0, m0);
    let (s2, l2) = (s1 + m1, l1.push(m1));
    lemma_holds_one_more(s1, l1, m1);
    let (s3, l3) = (s2 + m2, l2.push(m2));
    lemma_holds_one_more(s2, l2, m2);
    let (s4, l4) = (s3 + m3, l3.push(m3));
    lemma_holds_one_more(s3, l3, m3);
    let (s5, l5) = (s4 + m4, l4.push(m4));
    lemma_holds_one_more(s4, l4, m4);
    let (s6, l6) = (s5 + m5, l5.push(m5));
    lemma_holds_one_more(s5, l5, m5);
    let (s7, l7) = (s6 + m6, l6.push(m6));
    lemma_holds_one_more(s6, l6, m6);
    let (s8, l8) = (s7 + m7, l7.push(m7));
    lemma_holds_one_more(s7, l7, m7);
    let (s9, l9) = (s8 + m8, l8.push(m8));
    lemma_holds_one_more(s8, l8, m8);
    let (s10, l10) = (s9 + m9, l9.push(m9));
    lemma_holds_one_more(s9, l9, m9);
    let (s11, l11) = (s10 + m10, l10.push(m10));
    lemma_holds_one_more(s10, l10, m10);
    lemma_holds_one_more(s11, l11, "}"@);
    let all = l11.push("}"@);
    let text = s11 + "}"@;
    assert(text == reply_json(r));
    lemma_holds(text, all, 0);
    lemma_holds(text, all, 1);
    assert(all[1] == m0);
    assert(",\"ok\":"@ =~= ",\""@ + "ok"@ + "\":"@) by {
        reveal_strlit("ok");
        reveal_strlit(",\"ok\":");
    }
    lemma_holds(text, all, 2);
    assert(all[2] == m1);
    assert(",\"error\":"@ =~= ",\""@ + "error"@ + "\":"@) by {
        reveal_strlit("error");
        reveal_strlit(",\"error\":");
    }
    lemma_holds(text, all, 3);
    assert(all[3] == m2);
    assert(",\"quote_id\":"@ =~= ",\""@ + "quote_id"@ + "\":"@) by {
        reveal_strlit("quote_id");
        reveal_strlit(",\"quote_id\":");
    }
    lemma_holds(text, all, 4);
    assert(all[4] == m3);
    assert(",\"bolt11\":"@ =~= ",\""@ + "bolt11"@ + "\":"@) by {
        reveal_strlit("bolt11");
        reveal_strlit(",\"bolt11\":");
    }
    lemma_holds(text, all, 5);
    assert(all[5] == m4);
    assert(",\"amount_sats\":"@ =~= ",\""@ + "amount_sats"@ + "\":"@) by {
        reveal_strlit("amount_sats");
        reveal_strlit(",\"amount_sats\":");
    }
    lemma_holds(text, all, 6);
    assert(all[6] == m5);
    assert(",\"token\":"@ =~= ",\""@ + "token"@ + "\":"@) by {
        reveal_strlit("token");
        reveal_strlit(",\"token\":");
    }
    lemma_holds(text, all, 7);
    assert(all[7] == m6);
    assert(",\"cdk_linked\":"@ =~= ",\""@ + "cdk_linked"@ + "\":"@) by {
        reveal_strlit("cdk_linked");
        reveal_strlit(",\"cdk_linked\":");
    }
    lemma_holds(text, all, 8);
    assert(all[8] == m7);
    assert(",\"pong\":"@ =~= ",\""@ + "pong"@ + "\":"@) by {
        reveal_strlit("pong");
        reveal_strlit(",\"pong\":");
    }
    lemma_holds(text, all, 9);
    assert(all[9] == m8);
    assert(",\"state\":"@ =~= ",\""@ + "state"@ + "\":"@) by {
        reveal_strlit("state");
        reveal_strlit(",\"state\":");
    }
    lemma_holds(text, all, 10);
    assert(all[10] == m9);
    assert(",\"fee_sats\":"@ =~= ",\""@ + "fee_sats"@ + "\":"@) by {
        reveal_strlit("fee_sats");
        reveal_strlit(",\"fee_sats\":");
    }
    lemma_holds(text, all, 11);
    assert(all[11] == m10);
    assert(",\"payment_preimage\":"@ =~= ",\""@ + "payment_preimage"@ + "\":"@) by {
        reveal_strlit("payment_preimage");
        reveal_strlit(",\"payment_preimage\":");
    }
}

/// The reply to the command `ping`.
pub open spec fn ping_reply() -> Reply {
    Reply { cdk_linked: Some(true), pong: Some(true), ..bare_reply(true) }
}

/// The reply to a request that was not carried out.
pub open spec fn error_reply(message: Seq<char>) -> Reply {
    Reply { error: Some(message), ..bare_reply(false) }
}

/// What it takes to open the wallet. It holds secrets, which are wiped when it is dropped.
pub struct WalletStart {
    pub words: String,
    pub passphrase: String,
    pub mint_url: String,
    pub storage_dir: String,
}

impl Drop for WalletStart {
    fn drop(&mut self)
        opens_invariants none
        no_unwind
    {
        wipe_text(&mut self.words);
        wipe_text(&mut self.passphrase);
    }
}

/// Model of [`WalletStart`].
pub struct Start {
    pub words: Seq<char>,
    pub passphrase: Seq<char>,
    pub mint_url: Seq<char>,
    pub storage_dir: Seq<char>,
}

impl View for WalletStart {
    type V = Start;

    open spec fn view(&self) -> Start {
        Start {
            words: self.words@,
            passphrase: self.passphrase@,
            mint_url: self.mint_url@,
            storage_dir: self.storage_dir@,
        }
    }
}

/// What a request asks for.
pub enum MintStep {
    /// Nothing but this reply.
    Reply(Response),
    /// Open the wallet and ask the mint for a quote.
    Quote { amount_sats: u64, start: WalletStart },
    /// Open the wallet, wait until the quote is paid and turn it into a token.
    Token { quote_id: String, timeout_secs: u64, poll_secs: u64, wallet: WalletStart },
    /// Open the wallet and pay the invoice with the token.
    Melt { token: SecretToken, bolt11: String, payer: WalletStart },
}

/// A token, which is wiped when it is dropped.
pub struct SecretToken {
    pub text: String,
}

impl Drop for SecretToken {
    fn drop(&mut self)
        opens_invariants none
        no_unwind
    {
        wipe_text(&mut self.text);
    }
}

/// Model of [`MintStep`].
pub enum Step {
    Reply(Reply),
    Quote { amount_sats: u64, start: Start },
    Token { quote_id: Seq<char>, timeout_secs: u64, poll_secs: u64, wallet: Start },
    Melt { token: Seq<char>, bolt11: Seq<char>, payer: Start },
}

impl View for MintStep {
    type V = Step;

    open spec fn view(&self) -> Step {
        match *self {
            MintStep::Reply(r) => Step::Reply(r@),
            MintStep::Quote { amount_sats, start } => Step::Quote { amount_sats, start: start@ },
            MintStep::Token { quote_id, timeout_secs, poll_secs, wallet } => Step::Token {
                quote_id: quote_id@,
                timeout_secs,
                poll_secs,
                wallet: wallet@,
            },
            MintStep::Melt { token, bolt11, payer } => Step::Melt {
                token: token.text@,
                bolt11: bolt11@,
                payer: payer@,
            },
        }
    }
}

/// What it takes to open the wallet, or what is wrong with the request. `absolute` is what the host
/// says of the directory.
pub open spec fn start_in(ask: Ask, absolute: bool) -> Result<Start, Seq<char>> {
    if !filled(ask.mnemonic) {
        Err("missing mnemonic"@)
    } else if !filled(ask.mint_url) {
        Err("mint_url required"@)
    } else if !(has_prefix(lowered(trimmed(ask.mint_url->0)), "https://"@) || has_prefix(
        lowered(trimmed(ask.mint_url->0)),
        "http://"@,
    )) {
        Err("mint_url must start with https:// or http://"@)
    } else if !filled(ask.storage_dir) {
        Err("storage_dir required (absolute path; parent scopes under grok home)"@)
    } else if !absolute {
        Err("storage_dir must be absolute (got relative: "@ + ask.storage_dir->0 + ")"@)
    } else {
        Ok(
            Start {
                words: trimmed(ask.mnemonic->0),
                passphrase: or_empty(ask.passphrase),
                mint_url: without_slashes(trimmed(ask.mint_url->0)),
                storage_dir: ask.storage_dir->0,
            },
        )
    }
}

/// A number of a request, at least one.
pub open spec fn at_least_one(n: Option<u64>, default: u64) -> u64 {
    match n {
        Some(n) => if n == 0 {
            1
        } else {
            n
        },
        None => default,
    }
}

/// What a request for a quote asks for.
pub open spec fn quote_step_of(ask: Ask, absolute: bool) -> Step {
    match ask.amount_sats {
        Some(n) if n > 0 => match start_in(ask, absolute) {
            Ok(start) => Step::Quote { amount_sats: n, start },
            Err(message) => Step::Reply(error_reply(message)),
        },
        _ => Step::Reply(error_reply("amount_sats must be > 0"@)),
    }
}

/// What a request for a token asks for.
pub open spec fn token_step_of(ask: Ask, absolute: bool) -> Step {
    match given(ask.quote_id) {
        None => Step::Reply(error_reply("quote_id required for mint_after_paid"@)),
        Some(quote_id) => match start_in(ask, absolute) {
            Ok(wallet) => Step::Token {
                quote_id,
                timeout_secs: at_least_one(ask.timeout_secs, DEFAULT_TIMEOUT_SECS),
                poll_secs: at_least_one(ask.poll_interval_secs, DEFAULT_POLL_INTERVAL_SECS),
                wallet,
            },
            Err(message) => Step::Reply(error_reply(message)),
        },
    }
}

/// What is wrong with a token and an invoice, where something is.
pub open spec fn melt_fault(
    token: Option<Seq<char>>,
    bolt11: Option<Seq<char>>,
) -> Option<Seq<char>> {
    if !filled(token) {
        Some("token required for melt_token (cashuA\u{2026}/cashuB\u{2026})"@)
    } else if !filled(bolt11) {
        Some("bolt11 required for melt_token (destination invoice)"@)
    } else if !bolt11_looks(trimmed(bolt11->0)) {
        Some("bolt11 failed looks_like_bolt11 (need lnbc\u{2026}/lntb\u{2026} HRP, not lnurl)"@)
    } else if !(has_prefix(trimmed(token->0), "cashuA"@) || has_prefix(
        trimmed(token->0),
        "cashuB"@,
    )) {
        Some("token must start with cashuA or cashuB"@)
    } else if encode_utf8(trimmed(token->0)).len() < 16 {
        Some("token too short to be melt-able"@)
    } else {
        None
    }
}

/// What a request for a payment by a token asks for.
pub open spec fn melt_step_of(ask: Ask, absolute: bool) -> Step {
    match melt_fault(ask.token, ask.bolt11) {
        Some(message) => Step::Reply(error_reply(message)),
        None => match start_in(ask, absolute) {
            Ok(payer) => Step::Melt {
                token: trimmed(ask.token->0),
                bolt11: trimmed(ask.bolt11->0),
                payer,
            },
            Err(message) => Step::Reply(error_reply(message)),
        },
    }
}

/// What a request asks for. `absolute` is what the host says of its directory.
pub open spec fn step_of(ask: Ask, absolute: bool) -> Step {
    if ask.v != PROTOCOL_V {
        Step::Reply(
            error_reply("unsupported protocol v="@ + decimal(ask.v as nat) + " (want 1)"@),
        )
    } else if ask.cmd == "ping"@ {
        Step::Reply(ping_reply())
    } else if ask.cmd == "mint_quote"@ {
        quote_step_of(ask, absolute)
    } else if ask.cmd == "mint_after_paid"@ {
        token_step_of(ask, absolute)
    } else if ask.cmd == "melt_token"@ {
        melt_step_of(ask, absolute)
    } else {
        Step::Reply(error_reply("unknown cmd: "@ + ask.cmd))
    }
}

/// What it takes to open the wallet.
pub fn bootstrap_wallet(req: &Request, absolute: bool) -> (r: Result<WalletStart, String>)
    ensures
        match start_in(req@, absolute) {
            Ok(start) => r matches Ok(s) && s@ == start,
            Err(message) => r matches Err(e) && e@ == message,
        },
{
    let words = match &req.mnemonic {
        Some(words) => trim(words.as_str()),
        None => return Err("missing mnemonic".to_owned()),
    };
    if words.is_empty() {
        return Err("missing mnemonic".to_owned());
    }
    let mint_url = match &req.mint_url {
        Some(url) => trim(url.as_str()),
        None => return Err("mint_url required".to_owned()),
    };
    if mint_url.is_empty() {
        return Err("mint_url required".to_owned());
    }
    let low = lower(mint_url);
    if !(starts_with(low.as_str(), "https://") || starts_with(low.as_str(), "http://")) {
        return Err("mint_url must start with https:// or http://".to_owned());
    }
    let storage_dir = match &req.storage_dir {
        Some(dir) => dir.as_str(),
        None => return Err(
            "storage_dir required (absolute path; parent scopes under grok home)".to_owned(),
        ),
    };
    if trim(storage_dir).is_empty() {
        return Err("storage_dir required (absolute path; parent scopes under grok home)".to_owned());
    }
    if !absolute {
        return Err(
            message_of("storage_dir must be absolute (got relative: ", storage_dir, ")"),
        );
    }
    let passphrase = match &req.passphrase {
        Some(p) => p.clone(),
        None => String::new(),
    };
    Ok(
        WalletStart {
            words: words.to_owned(),
            passphrase,
            mint_url: strip_slashes(mint_url).to_owned(),
            storage_dir: storage_dir.to_owned(),
        },
    )
}

/// What a request for a quote asks for.
pub fn handle_mint_quote(req: &Request, absolute: bool) -> (step: MintStep)
    ensures
        step@ == quote_step_of(req@, absolute),
{
    let amount_sats: u64 = match req.amount_sats {
        Some(n) => n,
        None => 0,
    };
    if amount_sats == 0 {
        return MintStep::Reply(Response::err("amount_sats must be > 0"));
    }
    match bootstrap_wallet(req, absolute) {
        Ok(start) => MintStep::Quote { amount_sats, start },
        Err(message) => MintStep::Reply(Response::err(message.as_str())),
    }
}

/// A number of a request, at least one.
fn one_at_least(n: Option<u64>, default: u64) -> (r: u64)
    ensures
        r == at_least_one(n, default),
{
    match n {
        Some(n) => if n == 0 {
            1
        } else {
            n
        },
        None => default,
    }
}

/// What a request for a token asks for.
pub fn handle_mint_after_paid(req: &Request, absolute: bool) -> (step: MintStep)
    ensures
        step@ == token_step_of(req@, absolute),
{
    let found = match &req.quote_id {
        Some(id) => given_text(Some(id.as_str())),
        None => None,
    };
    let quote_id = match found {
        Some(id) => id,
        None => return MintStep::Reply(Response::err("quote_id required for mint_after_paid")),
    };
    match bootstrap_wallet(req, absolute) {
        Ok(wallet) => MintStep::Token {
            quote_id: quote_id.to_owned(),
            timeout_secs: one_at_least(req.timeout_secs, DEFAULT_TIMEOUT_SECS),
            poll_secs: one_at_least(req.poll_interval_secs, DEFAULT_POLL_INTERVAL_SECS),
            wallet,
        },
        Err(message) => MintStep::Reply(Response::err(message.as_str())),
    }
}

/// What a request for a payment by a token asks for.
pub fn handle_melt_token(req: &Request, absolute: bool) -> (step: MintStep)
    ensures
        step@ == melt_step_of(req@, absolute),
{
    let token = match &req.token {
        Some(text) => trim(text.as_str()),
        None => return MintStep::Reply(
            Response::err("token required for melt_token (cashuA\u{2026}/cashuB\u{2026})"),
        ),
    };
    if token.is_empty() {
        return MintStep::Reply(
            Response::err("token required for melt_token (cashuA\u{2026}/cashuB\u{2026})"),
        );
    }
    let bolt11 = match &req.bolt11 {
        Some(text) => trim(text.as_str()),
        None => return MintStep::Reply(
            Response::err("bolt11 required for melt_token (destination invoice)"),
        ),
    };
    if bolt11.is_empty() {
        return MintStep::Reply(
            Response::err("bolt11 required for melt_token (destination invoice)"),
        );
    }
    if !looks_like_bolt11(bolt11) {
        return MintStep::Reply(
            Response::err(
                "bolt11 failed looks_like_bolt11 (need lnbc\u{2026}/lntb\u{2026} HRP, not lnurl)",
            ),
        );
    }
    if !(starts_with(token, "cashuA") || starts_with(token, "cashuB")) {
        return MintStep::Reply(Response::err("token must start with cashuA or cashuB"));
    }
    if byte_len(token) < 16 {
        return MintStep::Reply(Response::err("token too short to be melt-able"));
    }
    match bootstrap_wallet(req, absolute) {
        Ok(payer) => MintStep::Melt {
            token: SecretToken { text: token.to_owned() },
            bolt11: bolt11.to_owned(),
            payer,
        },
        Err(message) => MintStep::Reply(Response::err(message.as_str())),
    }
}

/// What a request asks for.
pub fn plan(req: &Request) -> (step: MintStep)
    ensures
        exists|absolute: bool| #[trigger]
            may_be_absolute_dir(req@.storage_dir, absolute) && step@ == step_of(req@, absolute),
{
    let absolute = is_absolute_dir(borrowed(&req.storage_dir));
    assert(may_be_absolute_dir(req@.storage_dir, absolute));
    plan_with(req, absolute)
}

/// What a request asks for, by what was said of its directory.
pub fn plan_with(req: &Request, absolute: bool) -> (step: MintStep)
    ensures
        step@ == step_of(req@, absolute),
{
    if req.v != PROTOCOL_V {
        let version = decimal_text(req.v as u64);
        let message = message_of("unsupported protocol v=", version.as_str(), " (want 1)");
        return MintStep::Reply(Response::err(message.as_str()));
    }
    let cmd = req.cmd.as_str();
    if same(cmd, "ping") {
        MintStep::Reply(Response::ok_ping())
    } else if same(cmd, "mint_quote") {
        handle_mint_quote(req, absolute)
    } else if same(cmd, "mint_after_paid") {
        handle_mint_after_paid(req, absolute)
    } else if same(cmd, "melt_token") {
        handle_melt_token(req, absolute)
    } else {
        let mut message = "unknown cmd: ".to_owned();
        message.append(cmd);
        MintStep::Reply(Response::err(message.as_str()))
    }
}

/// The seed of the wallet, once its directory is there.
pub fn wallet_seed(start: &WalletStart) -> (r: Result<Vec<u8>, Response>)
    ensures
        match words_parsed(start@.words) {
            Ok(()) => r matches Ok(seed) && seed@ == bip39_seed(start@.words, start@.passphrase)
                && seed@.len() == 64,
            Err(e) => r matches Err(reply) && reply@ == error_reply("invalid mnemonic: "@ + e),
        },
{
    match check_words(start.words.as_str()) {
        Ok(()) => Ok(seed_bytes(start.words.as_str(), start.passphrase.as_str())),
        Err(e) => {
            let mut message = "invalid mnemonic: ".to_owned();
            message.append(e.as_str());
            Err(Response::err(message.as_str()))
        },
    }
}

/// The file of the wallet.
pub fn wallet_file(start: &WalletStart) -> (path: String)
    ensures
        may_join(start@.storage_dir, "cdk-wallet.sqlite"@, path@),
{
    join(start.storage_dir.as_str(), "cdk-wallet.sqlite")
}

/// The reply with a quote of the mint: one only where the mint wrote an invoice.
pub fn quote_reply(quote_id: &str, request: &str, amount_sats: u64) -> (r: Response)
    ensures
        r@ == if bolt11_looks(trimmed(request@)) {
            Reply {
                quote_id: Some(quote_id@),
                bolt11: Some(trimmed(request@)),
                amount_sats: Some(amount_sats),
                ..bare_reply(true)
            }
        } else {
            error_reply(
                "cdk mint_quote returned empty/non-bolt11 request (cannot claim invoice; need lnbc\u{2026}/lntb\u{2026} HRP, not lnurl)"@,
            )
        },
        r@.ok <==> bolt11_looks(trimmed(request@)),
        r@.ok ==> r@.quote_id == Some(quote_id@) && r@.bolt11 == Some(trimmed(request@))
            && r@.amount_sats == Some(amount_sats),
{
    let bolt11 = trim(request);
    if !looks_like_bolt11(bolt11) {
        return Response::err(
            "cdk mint_quote returned empty/non-bolt11 request (cannot claim invoice; need lnbc\u{2026}/lntb\u{2026} HRP, not lnurl)",
        );
    }
    Response::ok_quote(quote_id.to_owned(), bolt11.to_owned(), amount_sats)
}

/// State of a quote at the mint.
#[derive(Clone, Copy, PartialEq, Eq, Structural, Debug)]
pub enum QuoteState {
    Unpaid,
    Paid,
    Issued,
}

/// What to do after a look at a quote.
pub enum PollNext {
    /// The quote is paid.
    Mint,
    /// Wait, then look again.
    Wait,
    /// It took too long.
    Done(Response),
}

/// What to do after a look at a quote: an unpaid one is looked at again until the time is over.
pub fn poll_next(
    state: QuoteState,
    expired: bool,
    timeout_secs: u64,
    quote_id: &str,
) -> (next: PollNext)
    ensures
        match state {
            QuoteState::Paid | QuoteState::Issued => next is Mint,
            QuoteState::Unpaid => if expired {
                next matches PollNext::Done(r) && r@ == error_reply(
                    "mint quote still unpaid after "@ + decimal(timeout_secs as nat)
                        + "s (quote_id="@ + quote_id@ + ")"@,
                )
            } else {
                next is Wait
            },
        },
        next is Mint <==> state is Paid || state is Issued,
        next is Wait <==> state is Unpaid && !expired,
        next matches PollNext::Done(r) ==> !r@.ok,
{
    match state {
        QuoteState::Paid | QuoteState::Issued => PollNext::Mint,
        QuoteState::Unpaid => {
            if !expired {
                return PollNext::Wait;
            }
            let mut message = "mint quote still unpaid after ".to_owned();
            message.append(decimal_text(timeout_secs).as_str());
            message.append("s (quote_id=");
            message.append(quote_id);
            message.append(")");
            PollNext::Done(Response::err(message.as_str()))
        },
    }
}

/// A failure to mint says that the quote was turned into proofs before.
pub open spec fn minted_before(error: Seq<char>) -> bool {
    has_part(lowered(error), "issued"@) || has_part(lowered(error), "already"@)
}

/// A failure says so with the word `issued` or `already`, in any letter case, wherever it stands.
pub proof fn lemma_minted_before(a: Seq<char>, word: Seq<char>, b: Seq<char>)
    ensures
        lowered(word) == "issued"@ || lowered(word) == "already"@ ==> minted_before(a + word + b),
        minted_before(a) <==> minted_before(lowered(a)),
{
    assert(lowered(a + word + b) =~= lowered(a) + lowered(word) + lowered(b));
    lemma_part_between(lowered(a), lowered(word), lowered(b));
    assert(lowered(lowered(a)) =~= lowered(a));
}

/// Whether a failure to mint says that the quote was turned into proofs before.
pub fn is_minted_before(error: &str) -> (b: bool)
    ensures
        b == minted_before(error@),
{
    let low = lower(error);
    contains(low.as_str(), "issued") || contains(low.as_str(), "already")
}

/// Whether a failure to mint is the end: not where the proofs were made before, and not where the
/// wallet holds some.
pub fn mint_failed(error: &str, balance: u64) -> (r: Option<Response>)
    ensures
        if minted_before(error@) || balance > 0 {
            r is None
        } else {
            r matches Some(reply) && reply@ == error_reply("cdk mint failed: "@ + error@)
        },
        balance > 0 ==> r is None,
        r matches Some(reply) ==> !reply@.ok,
{
    if is_minted_before(error) || balance > 0 {
        return None;
    }
    let mut message = "cdk mint failed: ".to_owned();
    message.append(error);
    Some(Response::err(message.as_str()))
}

/// Whether a wallet without a balance is the end.
pub fn check_balance(balance: u64) -> (r: Option<Response>)
    ensures
        if balance == 0 {
            r matches Some(reply) && reply@ == error_reply(
                "cdk mint produced zero balance (quote unpaid or proofs not stored)"@,
            )
        } else {
            r is None
        },
        r is Some <==> balance == 0,
        r matches Some(reply) ==> !reply@.ok,
{
    if balance == 0 {
        Some(
            Response::err("cdk mint produced zero balance (quote unpaid or proofs not stored)"),
        )
    } else {
        None
    }
}

/// The reply with a token: one only where the wallet wrote one.
pub open spec fn token_reply_of(quote_id: Seq<char>, token: Seq<char>, balance: u64) -> Reply {
    let t = trimmed(token);
    if !(has_prefix(t, "cashuA"@) || has_prefix(t, "cashuB"@)) {
        error_reply(
            "cdk token encode did not produce cashuA/cashuB prefix (got "@ + start_of(t, 12)
                + "\u{2026})"@,
        )
    } else if encode_utf8(t).len() < 16 {
        error_reply("cdk token too short to be redeemable"@)
    } else {
        Reply {
            quote_id: Some(quote_id),
            token: Some(t),
            amount_sats: Some(balance),
            ..bare_reply(true)
        }
    }
}

/// The reply with a token.
pub fn token_reply(quote_id: &str, token: &str, balance: u64) -> (r: Response)
    ensures
        r@ == token_reply_of(quote_id@, token@, balance),
{
    let t = trim(token);
    if !(starts_with(t, "cashuA") || starts_with(t, "cashuB")) {
        let message = message_of(
            "cdk token encode did not produce cashuA/cashuB prefix (got ",
            text_start(t, 12),
            "\u{2026})",
        );
        return Response::err(message.as_str());
    }
    if byte_len(t) < 16 {
        return Response::err("cdk token too short to be redeemable");
    }
    Response::ok_token(quote_id.to_owned(), t.to_owned(), balance)
}

/// The reply after the mint: no token for a wallet without a balance.
pub open spec fn minted_reply_of(quote_id: Seq<char>, balance: u64, exported: Seq<char>) -> Reply {
    if balance == 0 {
        error_reply("cdk mint produced zero balance (quote unpaid or proofs not stored)"@)
    } else {
        token_reply_of(quote_id, exported, balance)
    }
}

/// The reply after the mint, with what the wallet exported.
pub fn minted_reply(quote_id: &str, balance: u64, exported: &str) -> (r: Response)
    ensures
        r@ == minted_reply_of(quote_id@, balance, exported@),
        balance == 0 ==> !r@.ok,
{
    match check_balance(balance) {
        Some(reply) => reply,
        None => token_reply(quote_id, exported, balance),
    }
}

/// State of a payment by a token.
#[derive(Clone, Copy, PartialEq, Eq, Structural, Debug)]
pub enum MeltState {
    Unpaid,
    Paid,
    Pending,
    Unknown,
    Failed,
}

impl MeltState {
    /// The name, as a person reads it.
    pub open spec fn name(self) -> Seq<char> {
        match self {
            MeltState::Unpaid => "UNPAID"@,
            MeltState::Paid => "PAID"@,
            MeltState::Pending => "PENDING"@,
            MeltState::Unknown => "UNKNOWN"@,
            MeltState::Failed => "FAILED"@,
        }
    }

    /// The name, as a person reads it.
    pub fn as_str(self) -> (name: &'static str)
        ensures
            name@ == self.name(),
    {
        match self {
            MeltState::Unpaid => "UNPAID",
            MeltState::Paid => "PAID",
            MeltState::Pending => "PENDING",
            MeltState::Unknown => "UNKNOWN",
            MeltState::Failed => "FAILED",
        }
    }

    /// Whether the payment was made.
    pub fn is_paid(self) -> (b: bool)
        ensures
            b == (self is Paid),
    {
        match self {
            MeltState::Paid => true,
            _ => false,
        }
    }
}

/// How a payment by a token ended.
pub struct MeltEnd {
    pub state: MeltState,
    pub quote_id: String,
    pub amount_sats: u64,
    pub fee_sats: u64,
    pub payment_preimage: Option<String>,
}

/// The reply with a payment by a token: success only where it was paid.
pub fn melt_reply(end: &MeltEnd) -> (r: Response)
    ensures
        r@ == if end.state is Paid {
            Reply {
                quote_id: Some(end.quote_id@),
                amount_sats: Some(end.amount_sats),
                fee_sats: Some(end.fee_sats),
                state: Some("PAID"@),
                payment_preimage: text_view(end.payment_preimage),
                ..bare_reply(true)
            }
        } else {
            error_reply(
                "cdk melt not Paid (state="@ + end.state.name() + "; quote_id="@ + end.quote_id@
                    + ")"@,
            )
        },
        r@.ok <==> end.state is Paid,
        r@.ok ==> r@.quote_id == Some(end.quote_id@) && r@.amount_sats == Some(end.amount_sats)
            && r@.fee_sats == Some(end.fee_sats) && r@.payment_preimage == text_view(
            end.payment_preimage,
        ),
{
    if end.state.is_paid() {
        let preimage = match &end.payment_preimage {
            Some(p) => Some(p.clone()),
            None => None,
        };
        Response::ok_melt(
            end.quote_id.clone(),
            end.amount_sats,
            end.fee_sats,
            "PAID".to_owned(),
            preimage,
        )
    } else {
        let mut message = "cdk melt not Paid (state=".to_owned();
        message.append(end.state.as_str());
        message.append("; quote_id=");
        message.append(end.quote_id.as_str());
        message.append(")");
        Response::err(message.as_str())
    }
}

/// Only the command `ping` is answered with success before the wallet did anything.
pub proof fn lemma_only_ping_succeeds_at_once(ask: Ask, absolute: bool)
    requires
        step_of(ask, absolute) is Reply,
        step_of(ask, absolute)->0.ok,
    ensures
        ask.cmd == "ping"@,
{
}

/// A token that the program replies with is one that can be redeemed, from a wallet with a balance.
pub proof fn lemma_token_reply_is_token(quote_id: Seq<char>, token: Seq<char>, balance: u64)
    requires
        minted_reply_of(quote_id, balance, token).ok,
    ensures
        balance > 0,
        minted_reply_of(quote_id, balance, token).token == Some(trimmed(token)),
        token_fault(trimmed(token)) is None,
{
    reveal_strlit("cashuA");
    reveal_strlit("cashuB");
}

/// The wallet of a step.
pub open spec fn wallet_of(step: Step) -> Option<Start> {
    match step {
        Step::Reply(_) => None,
        Step::Quote { start, .. } => Some(start),
        Step::Token { wallet, .. } => Some(wallet),
        Step::Melt { payer, .. } => Some(payer),
    }
}

/// The wallet that a request opens is that of its words and of its passphrase, with nothing left
/// out and nothing added, at the mint and in the directory that it names.
pub proof fn lemma_wallet_is_of_request(ask: Ask, absolute: bool)
    ensures
        wallet_of(step_of(ask, absolute)) matches Some(start) ==> {
            &&& ask.passphrase is Some ==> start.passphrase == ask.passphrase->0
            &&& ask.passphrase is None ==> start.passphrase.len() == 0
            &&& ask.mnemonic is Some && start.words.len() > 0
            &&& trimmed(ask.mnemonic->0) == start.words
            &&& ask.mint_url is Some
            &&& start.mint_url.is_prefix_of(trimmed(ask.mint_url->0))
            &&& forall|i: int|
                start.mint_url.len() <= i < trimmed(ask.mint_url->0).len()
                    ==> #[trigger] trimmed(ask.mint_url->0)[i] == '/'
            &&& start.mint_url.len() > 0 ==> start.mint_url.last() != '/'
            &&& absolute
            &&& ask.storage_dir is Some && ask.storage_dir->0 == start.storage_dir
            &&& ask.v == 1
        },
{
    if let Some(start) = wallet_of(step_of(ask, absolute)) {
        lemma_without_slashes(trimmed(ask.mint_url->0));
    }
}

/// A step is for what the request asks for: the amount, the quote, the token and the invoice are
/// those of the request.
pub proof fn lemma_step_is_of_request(ask: Ask, absolute: bool)
    ensures
        match step_of(ask, absolute) {
            Step::Reply(_) => true,
            Step::Quote { amount_sats, .. } => ask.cmd == "mint_quote"@ && amount_sats > 0
                && ask.amount_sats == Some(amount_sats),
            Step::Token { quote_id, timeout_secs, poll_secs, .. } => {
                &&& ask.cmd == "mint_after_paid"@
                &&& ask.quote_id is Some && quote_id == trimmed(ask.quote_id->0) && quote_id.len()
                    > 0
                &&& timeout_secs >= 1 && poll_secs >= 1
                &&& (ask.timeout_secs matches Some(n) ==> n > 0 ==> timeout_secs == n)
                &&& (ask.timeout_secs is None ==> timeout_secs == 120)
                &&& (ask.poll_interval_secs matches Some(n) ==> n > 0 ==> poll_secs == n)
                &&& (ask.poll_interval_secs is None ==> poll_secs == 2)
            },
            Step::Melt { token, bolt11, .. } => {
                &&& ask.cmd == "melt_token"@
                &&& ask.token is Some && token == trimmed(ask.token->0)
                &&& has_prefix(token, "cashuA"@) || has_prefix(token, "cashuB"@)
                &&& encode_utf8(token).len() >= 16
                &&& ask.bolt11 is Some && bolt11 == trimmed(ask.bolt11->0) && bolt11_looks(bolt11)
            },
        },
{
}

/// A request with nothing wrong is carried out.
pub proof fn lemma_step_is_owed(ask: Ask)
    requires
        ask.v == 1,
        ask.mnemonic is Some && trimmed(ask.mnemonic->0).len() > 0,
        ask.mint_url is Some && has_prefix(lowered(trimmed(ask.mint_url->0)), "https://"@),
        ask.storage_dir is Some && trimmed(ask.storage_dir->0).len() > 0,
    ensures
        ask.cmd == "mint_quote"@ && (ask.amount_sats matches Some(n) && n > 0) ==> step_of(
            ask,
            true,
        ) is Quote,
        ask.cmd == "mint_after_paid"@ && (ask.quote_id matches Some(id) && trimmed(id).len() > 0)
            ==> step_of(ask, true) is Token,
        ask.cmd == "melt_token"@ && (ask.token matches Some(token) && has_prefix(
            trimmed(token),
            "cashuA"@,
        ) && encode_utf8(trimmed(token)).len() >= 16) && (ask.bolt11 matches Some(bolt11)
            && bolt11_looks(trimmed(bolt11)) && trimmed(bolt11).len() > 0) ==> step_of(ask, true)
            is Melt,
{
    reveal_strlit("ping");
    reveal_strlit("mint_quote");
    reveal_strlit("mint_after_paid");
    reveal_strlit("melt_token");
    reveal_strlit("https://");
    reveal_strlit("cashuA");
    assert("ping"@.len() == 4 && "mint_quote"@.len() == 10 && "mint_after_paid"@.len() == 15
        && "melt_token"@.len() == 10);
    assert("mint_quote"@[1] == 'i' && "melt_token"@[1] == 'e');
    assert(lowered(trimmed(ask.mint_url->0)).len() == trimmed(ask.mint_url->0).len());
}

/// A reply with a token names the quote, the balance that the token is over, and the token as the
/// wallet wrote it; a token that can be redeemed is handed on.
pub proof fn lemma_token_reply_is_complete(quote_id: Seq<char>, balance: u64, token: Seq<char>)
    ensures
        minted_reply_of(quote_id, balance, token).ok ==> minted_reply_of(
            quote_id,
            balance,
            token,
        ).quote_id == Some(quote_id) && minted_reply_of(quote_id, balance, token).amount_sats
            == Some(balance) && minted_reply_of(quote_id, balance, token).error is None,
        balance > 0 && (has_prefix(trimmed(token), "cashuA"@) || has_prefix(
            trimmed(token),
            "cashuB"@,
        )) && encode_utf8(trimmed(token)).len() >= 16 ==> minted_reply_of(
            quote_id,
            balance,
            token,
        ).ok,
{
}

} // verus!
