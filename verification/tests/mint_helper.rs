//! The program that holds a Cashu wallet.

use std::marker::PhantomData;

use bitcoin_funding::bolt11::looks_like_bolt11;
use bitcoin_funding::mint_helper::{
    check_balance, is_minted_before, melt_reply, mint_failed, minted_reply, plan,
    poll_next, quote_reply, token_reply, wallet_file, wallet_seed, zeroize_request_secrets, MeltEnd,
    MeltState, MintStep, PollNext, QuoteState, Request, Response,
};
use bitcoin_funding::path::is_absolute;

/// Reads a request by the fields of a JSON object.
fn read_request(text: &str) -> Result<Request, String> {
    let value: serde_json::Value = serde_json::from_str(text).map_err(|e| e.to_string())?;
    let fields = value.as_object().ok_or("no object")?;
    let text_of = |name: &str| match fields.get(name) {
        None | Some(serde_json::Value::Null) => Ok(None),
        Some(serde_json::Value::String(s)) => Ok(Some(s.clone())),
        Some(_) => Err(format!("{name} is no text")),
    };
    let number_of = |name: &str| match fields.get(name) {
        None | Some(serde_json::Value::Null) => Ok(None),
        Some(n) => n.as_u64().map(Some).ok_or(format!("{name} is no number")),
    };
    Ok(Request {
        v: u32::try_from(number_of("v")?.unwrap_or(1)).map_err(|e| e.to_string())?,
        cmd: text_of("cmd")?.ok_or("missing field `cmd`")?,
        mint_url: text_of("mint_url")?,
        amount_sats: number_of("amount_sats")?,
        quote_id: text_of("quote_id")?,
        mnemonic: text_of("mnemonic")?,
        passphrase: text_of("passphrase")?,
        storage_dir: text_of("storage_dir")?,
        timeout_secs: number_of("timeout_secs")?,
        poll_interval_secs: number_of("poll_interval_secs")?,
        token: text_of("token")?,
        bolt11: text_of("bolt11")?,
    })
}

fn parse_request(text: &str) -> Result<Request, String> {
    bitcoin_funding::mint_helper::parse_request(text, read_request)
}

/// Tells by method lookup whether a type can be printed for a developer.
struct Printable<T>(PhantomData<T>);

impl<T> Printable<T> {
    fn new() -> Self {
        Printable(PhantomData)
    }
}

trait NotDebug {
    fn is_debug(&self) -> bool {
        false
    }
}

impl<T> NotDebug for &Printable<T> {}

impl<T: std::fmt::Debug> Printable<T> {
    fn is_debug(&self) -> bool {
        true
    }
}

#[test]
fn main_protocol_ping_shape() {
    let s = Response::ok_ping().to_json();
    assert!(s.contains("\"ok\":true"));
    assert!(s.contains("cdk_linked"));
    assert!(!s.contains("mnemonic"));
    assert!(!s.contains("token"));
}

#[test]
fn protocol_quote_shape() {
    let s = Response::ok_quote("q-1".into(), "lnbc1test".into(), 1000).to_json();
    assert!(s.contains("\"ok\":true"));
    assert!(s.contains("q-1"));
    assert!(s.contains("lnbc1test"));
    assert!(s.contains("\"amount_sats\":1000"));
    assert!(!s.contains("token"));
    assert!(!s.contains("mnemonic"));
}

#[test]
fn protocol_token_shape() {
    let s = Response::ok_token(
        "q-1".into(),
        "cashuAabcdefghijklmnopqrstuvwxyz".into(),
        21,
    ).to_json();
    assert!(s.contains("\"ok\":true"));
    assert!(s.contains("cashuA"));
    assert!(s.contains("\"amount_sats\":21"));
    assert!(!s.contains("mnemonic"));
}

#[test]
fn mint_quote_request_deserializes() {
    let r = parse_request(
        r#"{"v":1,"cmd":"mint_quote","mint_url":"https://mint.example/","amount_sats":50,"mnemonic":"x","storage_dir":"/tmp/x"}"#,
    )
    .unwrap();
    assert_eq!(r.cmd, "mint_quote");
    assert_eq!(r.amount_sats, Some(50));
    assert_eq!(r.mint_url.as_deref(), Some("https://mint.example/"));
}

#[test]
fn mint_after_paid_request_deserializes() {
    let r = parse_request(
        r#"{"v":1,"cmd":"mint_after_paid","mint_url":"https://m/","quote_id":"abc","mnemonic":"x","storage_dir":"/tmp/x","timeout_secs":30}"#,
    )
    .unwrap();
    assert_eq!(r.cmd, "mint_after_paid");
    assert_eq!(r.quote_id.as_deref(), Some("abc"));
    assert_eq!(r.timeout_secs, Some(30));
}

#[test]
fn main_request_has_no_debug_impl() {
    assert!(!(&Printable::<Request>::new()).is_debug());
    assert!((&Printable::<Response>::new()).is_debug());
    let _ = std::mem::size_of::<Request>();
}

#[test]
fn main_absolute_storage_required_docs() {
    assert!(!is_absolute("cdk-wallet"));
    assert!(is_absolute("/tmp/cdk-wallet"));
}

#[test]
fn looks_like_bolt11_matches_wallet_hrp_allowlist() {
    assert!(looks_like_bolt11("lnbc10u1abc"));
    assert!(looks_like_bolt11("lntb1u1abc"));
    assert!(looks_like_bolt11("LNBC1XYZ"));
    assert!(!looks_like_bolt11("lnurl1dp68gurn8ghj7"));
    assert!(!looks_like_bolt11("lnxyz1fake"));
    assert!(!looks_like_bolt11(""));
    assert!(!looks_like_bolt11("http://not-an-invoice"));
}

#[test]
fn request_drop_zeroizes_secrets() {
    let r = parse_request(
        r#"{"v":1,"cmd":"ping","mnemonic":"secret phrase here","passphrase":"pp"}"#,
    )
    .unwrap();
    assert_eq!(r.mnemonic.as_deref(), Some("secret phrase here"));
    drop(r);
    // Explicit zeroize: contents must no longer expose the secret phrase.
    let mut r2 = parse_request(
        r#"{"v":1,"cmd":"ping","mnemonic":"abc","passphrase":"x"}"#,
    )
    .unwrap();
    zeroize_request_secrets(&mut r2);
    let m = r2.mnemonic.as_deref().unwrap_or("");
    let p = r2.passphrase.as_deref().unwrap_or("");
    assert!(!m.contains("abc"), "mnemonic still visible: {m:?}");
    assert!(!p.contains('x'), "passphrase still visible: {p:?}");
}

#[test]
fn melt_token_request_deserializes() {
    let r = parse_request(
        r#"{"v":1,"cmd":"melt_token","mint_url":"https://m/","token":"cashuAabcdefghijklmnopqrst","bolt11":"lnbc1x","mnemonic":"x","storage_dir":"/tmp/x"}"#,
    )
    .unwrap();
    assert_eq!(r.cmd, "melt_token");
    assert_eq!(r.token.as_deref(), Some("cashuAabcdefghijklmnopqrst"));
    assert_eq!(r.bolt11.as_deref(), Some("lnbc1x"));
}

#[test]
fn protocol_melt_paid_shape() {
    let s = Response::ok_melt(
        "mq-1".into(),
        1000,
        2,
        "PAID".into(),
        Some("preimage-hex".into()),
    ).to_json();
    assert!(s.contains("\"ok\":true"));
    assert!(s.contains("\"state\":\"PAID\""));
    assert!(s.contains("\"amount_sats\":1000"));
    assert!(s.contains("\"fee_sats\":2"));
    assert!(s.contains("mq-1"));
    assert!(s.contains("preimage-hex"));
    assert!(!s.contains("mnemonic"));
    // Melt success must not echo bearer token material.
    assert!(!s.contains("cashuA"));
}

#[test]
fn request_zeroizes_melt_token_secret() {
    let mut r = parse_request(
        r#"{"v":1,"cmd":"melt_token","token":"cashuAsecretmaterialxyz","bolt11":"lnbc1x"}"#,
    )
    .unwrap();
    assert!(r.token.as_deref().unwrap_or("").contains("secretmaterial"));
    zeroize_request_secrets(&mut r);
    let t = r.token.as_deref().unwrap_or("");
    assert!(
        !t.contains("secretmaterial"),
        "token still visible after zeroize: {t:?}"
    );
}

const WORDS: &str = "abandon abandon abandon abandon abandon abandon abandon abandon abandon abandon abandon about";

fn request(cmd: &str, rest: &str) -> Request {
    let text = format!(
        "{{\"v\":1,\"cmd\":\"{cmd}\",\"mint_url\":\" https://m// \",\"mnemonic\":\" {WORDS} \",\"storage_dir\":\"/s\"{rest}}}"
    );
    match parse_request(&text) {
        Ok(r) => r,
        Err(e) => panic!("{e}"),
    }
}

fn refusal(step: MintStep) -> String {
    match step {
        MintStep::Reply(r) => {
            assert!(!r.ok);
            assert_eq!(r.exit_code(), 1);
            r.error.unwrap()
        }
        _ => panic!("expected a reply"),
    }
}

#[test]
fn mint_replies_as_json() {
    assert_eq!(
        Response::err("no").to_json(),
        r#"{"v":1,"ok":false,"error":"no"}"#
    );
    assert_eq!(
        Response::ok_quote("q".to_string(), "lnbc1x".to_string(), 5).to_json(),
        r#"{"v":1,"ok":true,"quote_id":"q","bolt11":"lnbc1x","amount_sats":5}"#
    );
}

#[test]
fn mint_commands_and_versions() {
    match plan(&request("ping", "")) {
        MintStep::Reply(r) => {
            assert!(r.ok);
            assert_eq!(r.exit_code(), 0);
        }
        _ => panic!("expected a reply"),
    }
    assert_eq!(refusal(plan(&request("pong", ""))), "unknown cmd: pong");
    let mut r = request("ping", "");
    r.v = 9;
    assert_eq!(refusal(plan(&r)), "unsupported protocol v=9 (want 1)");
}

#[test]
fn quote_to_ask_for() {
    match plan(&request("mint_quote", ",\"amount_sats\":5,\"passphrase\":\"p\"")) {
        MintStep::Quote { amount_sats, start } => {
            assert_eq!(amount_sats, 5);
            assert_eq!(start.words, WORDS);
            assert_eq!(start.passphrase, "p");
            assert_eq!(start.mint_url, "https://m");
            assert_eq!(start.storage_dir, "/s");
            assert_eq!(wallet_file(&start), "/s/cdk-wallet.sqlite");
            // Test vector of BIP-39, with another passphrase.
            assert_eq!(wallet_seed(&start).unwrap().len(), 64);
        }
        _ => panic!("expected a quote"),
    }
    assert_eq!(refusal(plan(&request("mint_quote", ""))), "amount_sats must be > 0");
    assert_eq!(
        refusal(plan(&request("mint_quote", ",\"amount_sats\":0"))),
        "amount_sats must be > 0"
    );
}

#[test]
fn seed_of_a_wallet() {
    match plan(&request("mint_quote", ",\"amount_sats\":5,\"passphrase\":\"TREZOR\"")) {
        MintStep::Quote { start, .. } => {
            assert_eq!(wallet_seed(&start).unwrap()[..4].to_vec(), vec![0xc5, 0x52, 0x57, 0xc3]);
        }
        _ => panic!("expected a quote"),
    }
    match plan(&parse_request(
        r#"{"v":1,"cmd":"mint_quote","amount_sats":1,"mint_url":"https://m","mnemonic":"x","storage_dir":"/s"}"#,
    )
    .ok()
    .unwrap())
    {
        MintStep::Quote { start, .. } => {
            let reply = wallet_seed(&start).unwrap_err();
            assert!(reply.error.unwrap().starts_with("invalid mnemonic: "));
        }
        _ => panic!("expected a quote"),
    }
}

#[test]
fn what_a_wallet_needs() {
    let why = |rest: &str| {
        refusal(plan(
            &parse_request(&format!(
                "{{\"v\":1,\"cmd\":\"mint_quote\",\"amount_sats\":1{rest}}}"
            ))
            .ok()
            .unwrap(),
        ))
    };
    assert_eq!(why(""), "missing mnemonic");
    assert_eq!(why(",\"mnemonic\":\"x\""), "mint_url required");
    assert_eq!(
        why(",\"mnemonic\":\"x\",\"mint_url\":\"m\""),
        "mint_url must start with https:// or http://"
    );
    assert_eq!(
        why(",\"mnemonic\":\"x\",\"mint_url\":\"http://m\""),
        "storage_dir required (absolute path; parent scopes under grok home)"
    );
    assert_eq!(
        why(",\"mnemonic\":\"x\",\"mint_url\":\"http://m\",\"storage_dir\":\"s\""),
        "storage_dir must be absolute (got relative: s)"
    );
}

#[test]
fn token_to_wait_for() {
    match plan(&request("mint_after_paid", ",\"quote_id\":\" q \",\"poll_interval_secs\":0")) {
        MintStep::Token { quote_id, timeout_secs, poll_secs, .. } => {
            assert_eq!(quote_id, "q");
            assert_eq!(timeout_secs, 120);
            assert_eq!(poll_secs, 1);
        }
        _ => panic!("expected a token"),
    }
    assert_eq!(
        refusal(plan(&request("mint_after_paid", ""))),
        "quote_id required for mint_after_paid"
    );
}

#[test]
fn invoice_to_pay_with_a_token() {
    match plan(&request("melt_token", ",\"token\":\" cashuBabcdefghij \",\"bolt11\":\" lnbc1x \"")) {
        MintStep::Melt { token, bolt11, .. } => {
            assert_eq!(token.text, "cashuBabcdefghij");
            assert_eq!(bolt11, "lnbc1x");
        }
        _ => panic!("expected a payment"),
    }
    let why = |rest: &str| refusal(plan(&request("melt_token", rest)));
    assert_eq!(why(""), "token required for melt_token (cashuA\u{2026}/cashuB\u{2026})");
    assert_eq!(
        why(",\"token\":\"x\""),
        "bolt11 required for melt_token (destination invoice)"
    );
    assert_eq!(
        why(",\"token\":\"x\",\"bolt11\":\"lnurl1x\""),
        "bolt11 failed looks_like_bolt11 (need lnbc\u{2026}/lntb\u{2026} HRP, not lnurl)"
    );
    assert_eq!(
        why(",\"token\":\"x\",\"bolt11\":\"lnbc1x\""),
        "token must start with cashuA or cashuB"
    );
    assert_eq!(
        why(",\"token\":\"cashuAabc\",\"bolt11\":\"lnbc1x\""),
        "token too short to be melt-able"
    );
}

#[test]
fn looks_at_a_quote() {
    assert!(matches!(poll_next(QuoteState::Paid, true, 1, "q"), PollNext::Mint));
    assert!(matches!(poll_next(QuoteState::Issued, false, 1, "q"), PollNext::Mint));
    assert!(matches!(poll_next(QuoteState::Unpaid, false, 1, "q"), PollNext::Wait));
    match poll_next(QuoteState::Unpaid, true, 7, "q") {
        PollNext::Done(r) => assert_eq!(
            r.error.as_deref(),
            Some("mint quote still unpaid after 7s (quote_id=q)")
        ),
        _ => panic!("expected the end"),
    }
}

#[test]
fn proofs_made_before() {
    assert!(is_minted_before("Quote ALREADY used"));
    assert!(!is_minted_before("mint down"));
    assert!(mint_failed("tokens issued", 0).is_none());
    assert!(mint_failed("mint down", 3).is_none());
    assert_eq!(
        mint_failed("mint down", 0).unwrap().error.as_deref(),
        Some("cdk mint failed: mint down")
    );
    assert!(check_balance(1).is_none());
    assert_eq!(
        check_balance(0).unwrap().error.as_deref(),
        Some("cdk mint produced zero balance (quote unpaid or proofs not stored)")
    );
}

#[test]
fn replies_of_the_wallet() {
    assert_eq!(
        quote_reply("q", " lnbc1x ", 5),
        Response::ok_quote("q".to_string(), "lnbc1x".to_string(), 5)
    );
    assert!(!quote_reply("q", "lnurl1x", 5).ok);
    assert_eq!(
        token_reply("q", " cashuAabcdefghij ", 5),
        Response::ok_token("q".to_string(), "cashuAabcdefghij".to_string(), 5)
    );
    assert_eq!(
        token_reply("q", "sk-0123456789abcdef", 5).error.as_deref(),
        Some("cdk token encode did not produce cashuA/cashuB prefix (got sk-012345678\u{2026})")
    );
    assert_eq!(
        token_reply("q", "cashuAabc", 5).error.as_deref(),
        Some("cdk token too short to be redeemable")
    );
    assert_eq!(
        minted_reply("q", 5, " cashuAabcdefghij "),
        token_reply("q", "cashuAabcdefghij", 5)
    );
    assert_eq!(
        minted_reply("q", 0, "cashuAabcdefghij").error.as_deref(),
        Some("cdk mint produced zero balance (quote unpaid or proofs not stored)")
    );
    let mut end = MeltEnd {
        state: MeltState::Paid,
        quote_id: "m".to_string(),
        amount_sats: 9,
        fee_sats: 1,
        payment_preimage: None,
    };
    assert_eq!(
        melt_reply(&end),
        Response::ok_melt("m".to_string(), 9, 1, "PAID".to_string(), None)
    );
    for (state, name) in [
        (MeltState::Unpaid, cdk::nuts::MeltQuoteState::Unpaid),
        (MeltState::Pending, cdk::nuts::MeltQuoteState::Pending),
        (MeltState::Unknown, cdk::nuts::MeltQuoteState::Unknown),
        (MeltState::Failed, cdk::nuts::MeltQuoteState::Failed),
    ] {
        end.state = state;
        assert!(!state.is_paid());
        assert_eq!(
            melt_reply(&end).error,
            Some(format!("cdk melt not Paid (state={name}; quote_id=m)"))
        );
    }
}
