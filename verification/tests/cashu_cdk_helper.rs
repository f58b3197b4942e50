//! The helper program that turns paid quotes into tokens, seen from the wallet.

use std::marker::PhantomData;
use std::sync::Arc;

use bitcoin_funding::bolt11::looks_like_bolt11;
use bitcoin_funding::cashu::CashuToken;
use bitcoin_funding::cashu_cdk_helper::{
    build_melt_token_ipc_payload, build_mint_after_paid_ipc_payload,
    build_mint_quote_ipc_payload, default_cdk_storage_base, helper_wait_secs, scoped_cdk_storage_dir, CdkMeltTokenRequest, CdkMeltTokenTransportResult,
    CdkMintAfterPaidRequest, CdkMintAfterPaidTransportResult, CdkMintQuoteRequest,
    CdkMintQuoteTransportResult, CdkMintTransport, HelperResponse,
    ProcessCdkMintTransport,
};
use zeroize::Zeroize;

/// Reads a reply by the fields of a JSON object.
fn read_reply(line: &str) -> Result<HelperResponse, String> {
    let value: serde_json::Value = serde_json::from_str(line).map_err(|e| e.to_string())?;
    let fields = value.as_object().ok_or("no object")?;
    let text_of = |name: &str| match fields.get(name) {
        None | Some(serde_json::Value::Null) => Ok(None),
        Some(serde_json::Value::String(s)) => Ok(Some(s.clone())),
        Some(_) => Err(format!("{name} is no text")),
    };
    let number_of = |name: &str| match fields.get(name) {
        None | Some(serde_json::Value::Null) => Ok(None),
        Some(n) => n.as_u64().map(Some).ok_or(format!("{name} is no number")),
    };
    Ok(HelperResponse {
        v: number_of("v")?.map(|n| n as u32),
        ok: match fields.get("ok") {
            None => false,
            Some(b) => b.as_bool().ok_or("ok is no flag")?,
        },
        error: text_of("error")?,
        quote_id: text_of("quote_id")?,
        bolt11: text_of("bolt11")?,
        amount_sats: number_of("amount_sats")?,
        token: text_of("token")?,
        state: text_of("state")?,
        fee_sats: number_of("fee_sats")?,
        payment_preimage: text_of("payment_preimage")?,
    })
}

fn parse_helper_quote_stdout(stdout: &[u8], exit_ok: bool) -> CdkMintQuoteTransportResult {
    bitcoin_funding::cashu_cdk_helper::parse_helper_quote_stdout(stdout, exit_ok, read_reply)
}

fn parse_helper_token_stdout(stdout: &[u8], exit_ok: bool) -> CdkMintAfterPaidTransportResult {
    bitcoin_funding::cashu_cdk_helper::parse_helper_token_stdout(stdout, exit_ok, read_reply)
}

fn parse_helper_melt_stdout(stdout: &[u8], exit_ok: bool) -> CdkMeltTokenTransportResult {
    bitcoin_funding::cashu_cdk_helper::parse_helper_melt_stdout(stdout, exit_ok, read_reply)
}

/// Tells by method lookup whether a type can be printed for a developer.
struct Printable<T>(PhantomData<T>);

impl<T> Printable<T> {
    fn new() -> Self {
        Printable(PhantomData)
    }
}

trait NotDebug {
    fn is_debug(&self) -> bool {
        false
    }
}

impl<T> NotDebug for &Printable<T> {}

impl<T: std::fmt::Debug> Printable<T> {
    fn is_debug(&self) -> bool {
        true
    }
}

struct MockCdk {
    quote_ok: bool,
    token_ok: bool,
    melt_ok: bool,
}

impl CdkMintTransport for MockCdk {
    fn helper_linked(&self) -> bool {
        true
    }

    fn mint_quote(&self, request: &CdkMintQuoteRequest) -> CdkMintQuoteTransportResult {
        assert!(request.amount_sats > 0);
        if self.quote_ok {
            CdkMintQuoteTransportResult::Quote {
                quote_id: "q-mock".into(),
                bolt11: "lnbc1mockcdkquote".into(),
                amount_sats: request.amount_sats,
            }
        } else {
            CdkMintQuoteTransportResult::Failed {
                reason: "mint down".into(),
            }
        }
    }

    fn mint_after_paid(
        &self,
        request: &CdkMintAfterPaidRequest,
    ) -> CdkMintAfterPaidTransportResult {
        assert!(!request.quote_id.is_empty());
        if self.token_ok {
            CdkMintAfterPaidTransportResult::Token {
                token: "cashuAabcdefghijklmnopqrstuvwxyz".into(),
                amount_sats: 21,
                quote_id: request.quote_id.clone(),
            }
        } else {
            CdkMintAfterPaidTransportResult::Failed {
                reason: "quote unpaid".into(),
            }
        }
    }

    fn melt_token(&self, request: &CdkMeltTokenRequest) -> CdkMeltTokenTransportResult {
        assert!(CashuToken::parse(&request.token).is_ok());
        assert!(looks_like_bolt11(&request.bolt11));
        if self.melt_ok {
            CdkMeltTokenTransportResult::Paid {
                quote_id: "mq-mock".into(),
                amount_sats: 21,
                fee_sats: 1,
                payment_preimage: Some("preimage-mock".into()),
            }
        } else {
            CdkMeltTokenTransportResult::Failed {
                reason: "melt unpaid".into(),
            }
        }
    }
}

#[test]
fn mock_transport_quote_and_token() {
    let t = Arc::new(MockCdk {
        quote_ok: true,
        token_ok: true,
        melt_ok: true,
    });
    let mut q = CdkMintQuoteRequest {
        mint_url: "https://mint.example/".into(),
        amount_sats: 100,
        mnemonic_phrase: "abandon abandon abandon abandon abandon abandon abandon abandon abandon abandon abandon about".into(),
        passphrase: String::new(),
        storage_dir: "/tmp/cdk-test".to_string(),
        timeout_secs: 30,
    };
    match t.mint_quote(&q) {
        CdkMintQuoteTransportResult::Quote {
            quote_id, bolt11, ..
        } => {
            assert_eq!(quote_id, "q-mock");
            assert!(bolt11.starts_with("lnbc"));
        }
        other => panic!("expected Quote: {other:?}"),
    }
    q.mnemonic_phrase.zeroize();

    let mut p = CdkMintAfterPaidRequest {
        mint_url: "https://mint.example/".into(),
        quote_id: "q-mock".into(),
        mnemonic_phrase: "abandon abandon abandon abandon abandon abandon abandon abandon abandon abandon abandon about".into(),
        passphrase: String::new(),
        storage_dir: "/tmp/cdk-test".to_string(),
        timeout_secs: 30,
    };
    match t.mint_after_paid(&p) {
        CdkMintAfterPaidTransportResult::Token { token, .. } => {
            assert!(token.starts_with("cashuA"));
            assert!(CashuToken::parse(&token).is_ok());
        }
        other => panic!("expected Token: {}", other.debug_text()),
    }
    p.mnemonic_phrase.zeroize();
}

#[test]
fn parse_token_stdout_rejects_non_cashu() {
    let line = br#"{"v":1,"ok":true,"token":"sk-not-cashu","quote_id":"q","amount_sats":1}"#;
    match parse_helper_token_stdout(line, true) {
        CdkMintAfterPaidTransportResult::Failed { reason } => {
            assert!(
                reason.contains("CashuToken"),
                "must reject non-cashu: {reason}"
            );
        }
        other => panic!("expected Failed: {}", other.debug_text()),
    }
}

#[test]
fn parse_quote_stdout_rejects_lnurl() {
    let line =
        br#"{"v":1,"ok":true,"quote_id":"q","bolt11":"lnurl1dp68gurn8ghj7","amount_sats":1}"#;
    match parse_helper_quote_stdout(line, true) {
        CdkMintQuoteTransportResult::Failed { reason } => {
            assert!(
                reason.contains("looks_like_bolt11") || reason.contains("lnurl"),
                "{reason}"
            );
        }
        other => panic!("expected Failed: {other:?}"),
    }
}

#[test]
fn parse_quote_stdout_ok() {
    let line =
        br#"{"v":1,"ok":true,"quote_id":"q-1","bolt11":"lnbc1realquote","amount_sats":50}"#;
    match parse_helper_quote_stdout(line, true) {
        CdkMintQuoteTransportResult::Quote {
            quote_id,
            bolt11,
            amount_sats,
        } => {
            assert_eq!(quote_id, "q-1");
            assert_eq!(bolt11, "lnbc1realquote");
            assert_eq!(amount_sats, 50);
        }
        other => panic!("expected Quote: {other:?}"),
    }
}

#[test]
fn request_structs_have_no_debug() {
    assert!(!(&Printable::<CdkMintQuoteRequest>::new()).is_debug());
    assert!(!(&Printable::<CdkMintAfterPaidRequest>::new()).is_debug());
    assert!(!(&Printable::<CdkMeltTokenRequest>::new()).is_debug());
    assert!((&Printable::<CdkMeltTokenTransportResult>::new()).is_debug());
}

#[test]
fn scoped_storage_uses_hex_fingerprint() {
    // Non-hex stripped; up to 16 hex digits (8 seed bytes) kept.
    let p = scoped_cdk_storage_dir("/tmp/cdk", "deadbeef!!extra");
    assert_eq!(p, "/tmp/cdk/deadbeefea".to_string());
    let p16 = scoped_cdk_storage_dir("/tmp/cdk", "0123456789abcdefZZ");
    assert_eq!(p16, "/tmp/cdk/0123456789abcdef".to_string());
}

#[test]
fn token_transport_result_debug_redacts_bearer() {
    let full = "cashuAabcdefghijklmnopqrstuvwxyz0123456789";
    let r = CdkMintAfterPaidTransportResult::Token {
        token: full.to_owned(),
        amount_sats: 21,
        quote_id: "q-1".into(),
    };
    let dbg = r.debug_text();
    assert!(!dbg.contains(full), "Debug must not dump full token: {dbg}");
    assert!(dbg.contains("cashuA") || dbg.contains("REDACTED"), "{dbg}");
    assert!(dbg.contains("21"), "{dbg}");
}

#[test]
fn process_helper_linked_false_for_missing_bin_override() {
    let t = ProcessCdkMintTransport::with_bin("/nonexistent/grok-bitcoin-cdk-mint-xyz");
    assert!(
        !t.binary_resolvable(None, None, &vec!["/usr/bin".to_string()], |p: &str| {
            std::path::Path::new(p).is_file()
        }),
        "missing override path must not claim helper_linked"
    );
}

#[test]
fn mock_transport_melt_paid() {
    let t = Arc::new(MockCdk {
        quote_ok: true,
        token_ok: true,
        melt_ok: true,
    });
    let mut r = CdkMeltTokenRequest {
        mint_url: "https://mint.example/".into(),
        token: "cashuAabcdefghijklmnopqrstuvwxyz".into(),
        bolt11: "lnbc1meltdest".into(),
        mnemonic_phrase: "abandon abandon abandon abandon abandon abandon abandon abandon abandon abandon abandon about".into(),
        passphrase: String::new(),
        storage_dir: "/tmp/cdk-melt".to_string(),
        timeout_secs: 30,
    };
    match t.melt_token(&r) {
        CdkMeltTokenTransportResult::Paid {
            quote_id,
            amount_sats,
            fee_sats,
            payment_preimage,
        } => {
            assert_eq!(quote_id, "mq-mock");
            assert_eq!(amount_sats, 21);
            assert_eq!(fee_sats, 1);
            assert_eq!(payment_preimage.as_deref(), Some("preimage-mock"));
        }
        other => panic!("expected Paid: {other:?}"),
    }
    r.token.zeroize();
    r.mnemonic_phrase.zeroize();
}

#[test]
fn parse_melt_stdout_requires_paid_state() {
    let unpaid =
        br#"{"v":1,"ok":true,"quote_id":"mq","amount_sats":10,"fee_sats":1,"state":"PENDING"}"#;
    match parse_helper_melt_stdout(unpaid, true) {
        CdkMeltTokenTransportResult::Failed { reason } => {
            assert!(
                reason.contains("PAID") || reason.contains("invented"),
                "must reject non-PAID: {reason}"
            );
        }
        other => panic!("expected Failed: {other:?}"),
    }
    let paid = br#"{"v":1,"ok":true,"quote_id":"mq-1","amount_sats":100,"fee_sats":2,"state":"PAID","payment_preimage":"ab"}"#;
    match parse_helper_melt_stdout(paid, true) {
        CdkMeltTokenTransportResult::Paid {
            quote_id,
            amount_sats,
            fee_sats,
            payment_preimage,
        } => {
            assert_eq!(quote_id, "mq-1");
            assert_eq!(amount_sats, 100);
            assert_eq!(fee_sats, 2);
            assert_eq!(payment_preimage.as_deref(), Some("ab"));
        }
        other => panic!("expected Paid: {other:?}"),
    }
    let missing_qid = br#"{"v":1,"ok":true,"amount_sats":1,"state":"PAID"}"#;
    match parse_helper_melt_stdout(missing_qid, true) {
        CdkMeltTokenTransportResult::Failed { reason } => {
            assert!(reason.contains("quote_id"), "{reason}");
        }
        other => panic!("expected Failed: {other:?}"),
    }
    let err = br#"{"v":1,"ok":false,"error":"melt quote expired"}"#;
    match parse_helper_melt_stdout(err, false) {
        CdkMeltTokenTransportResult::Failed { reason } => {
            assert!(reason.contains("expired"), "{reason}");
        }
        other => panic!("expected Failed: {other:?}"),
    }
}

#[test]
fn process_melt_rejects_bad_inputs_offline() {
    let t = ProcessCdkMintTransport::with_bin("/nonexistent/grok-bitcoin-cdk-mint-missing");
    let mut r = CdkMeltTokenRequest {
        mint_url: "https://mint.example/".into(),
        token: "not-cashu".into(),
        bolt11: "lnbc1x".into(),
        mnemonic_phrase: "x".into(),
        passphrase: String::new(),
        storage_dir: "/tmp/cdk".to_string(),
        timeout_secs: 5,
    };
    match t.melt_token(&r, |_: String, _: u64| Err("not started".to_string()), read_reply) {
        CdkMeltTokenTransportResult::Failed { reason } => {
            assert!(
                reason.contains("CashuToken") || reason.contains("cashu"),
                "{reason}"
            );
        }
        other => panic!("expected Failed: {other:?}"),
    }
    r.token = "cashuAabcdefghijklmnopqrstuvwxyz".into();
    r.bolt11 = "lnurl1dp68gurn8ghj7".into();
    match t.melt_token(&r, |_: String, _: u64| Err("not started".to_string()), read_reply) {
        CdkMeltTokenTransportResult::Failed { reason } => {
            assert!(
                reason.contains("looks_like_bolt11") || reason.contains("lnurl"),
                "{reason}"
            );
        }
        other => panic!("expected Failed: {other:?}"),
    }
    r.token.zeroize();
    r.mnemonic_phrase.zeroize();
}

#[test]
fn payloads_are_json_lines() {
    let quote = CdkMintQuoteRequest {
        mint_url: "https://m".to_string(),
        amount_sats: 100,
        mnemonic_phrase: "a \"b\"".to_string(),
        passphrase: "p".to_string(),
        storage_dir: "/s".to_string(),
        timeout_secs: 30,
    };
    assert_eq!(
        build_mint_quote_ipc_payload(&quote),
        r#"{"v":1,"cmd":"mint_quote","mint_url":"https://m","amount_sats":100,"mnemonic":"a \"b\"","passphrase":"p","storage_dir":"/s","timeout_secs":30}"#
    );
    let paid = CdkMintAfterPaidRequest {
        mint_url: "https://m".to_string(),
        quote_id: "q".to_string(),
        mnemonic_phrase: "w".to_string(),
        passphrase: String::new(),
        storage_dir: "/s".to_string(),
        timeout_secs: 1,
    };
    assert_eq!(
        build_mint_after_paid_ipc_payload(&paid),
        r#"{"v":1,"cmd":"mint_after_paid","mint_url":"https://m","quote_id":"q","mnemonic":"w","passphrase":"","storage_dir":"/s","timeout_secs":1}"#
    );
    let melt = melt_request("cashuAabcdefghijklmnop", "lnbc1x", "/s");
    assert_eq!(
        build_melt_token_ipc_payload(&melt),
        r#"{"v":1,"cmd":"melt_token","mint_url":"https://m","token":"cashuAabcdefghijklmnop","bolt11":"lnbc1x","mnemonic":"w","passphrase":"","storage_dir":"/s","timeout_secs":5}"#
    );
}

fn melt_request(token: &str, bolt11: &str, storage_dir: &str) -> CdkMeltTokenRequest {
    CdkMeltTokenRequest {
        mint_url: "https://m".to_string(),
        token: token.to_string(),
        bolt11: bolt11.to_string(),
        mnemonic_phrase: "w".to_string(),
        passphrase: String::new(),
        storage_dir: storage_dir.to_string(),
        timeout_secs: 5,
    }
}

fn quote_failure(stdout: &[u8], exit_ok: bool) -> String {
    match parse_helper_quote_stdout(stdout, exit_ok) {
        CdkMintQuoteTransportResult::Failed { reason } => reason,
        other => panic!("expected Failed: {other:?}"),
    }
}

#[test]
fn replies_that_are_none() {
    assert_eq!(quote_failure(b" \n\n", true), "helper produced empty stdout");
    assert_eq!(quote_failure(b"", false), "helper exited non-zero with empty stdout");
    assert_eq!(
        quote_failure(b"{", true),
        "helper JSON parse: EOF while parsing an object at line 1 column 1"
    );
    assert_eq!(
        quote_failure(br#"{"v":2,"ok":true}"#, true),
        "helper protocol v=2 (want 1)"
    );
    assert_eq!(
        quote_failure(br#"{"ok":true}"#, true),
        "helper response missing protocol v (want 1)"
    );
    assert_eq!(
        quote_failure(br#"{"v":1,"ok":false}"#, true),
        "helper ok=false without error"
    );
    assert_eq!(
        quote_failure(br#"{"v":1,"ok":true,"quote_id":" "}"#, true),
        "helper ok but missing quote_id/bolt11"
    );
    assert!(quote_failure(br#"{"v":1,"ok":"yes"}"#, true).starts_with("helper JSON parse: "));
    // Bytes that are no text are no reason to fail before the reply is looked at.
    assert!(quote_failure(b"\xff\xfe", true).starts_with("helper JSON parse: "));
}

#[test]
fn first_filled_line_counts() {
    let out = b"\r\n  \n {\"v\":1,\"ok\":true,\"quote_id\":\"q\",\"bolt11\":\"lnbc1x\"}\r\nnoise";
    assert_eq!(
        parse_helper_quote_stdout(out, true),
        CdkMintQuoteTransportResult::Quote {
            quote_id: "q".to_string(),
            bolt11: "lnbc1x".to_string(),
            amount_sats: 0,
        }
    );
}

#[test]
fn token_of_a_reply() {
    let out = br#"{"v":1,"ok":true,"token":" cashuAabcdefghijklmnop ","amount_sats":7,"quote_id":" q "}"#;
    match parse_helper_token_stdout(out, true) {
        CdkMintAfterPaidTransportResult::Token { token, amount_sats, quote_id } => {
            assert_eq!(token, "cashuAabcdefghijklmnop");
            assert_eq!(amount_sats, 7);
            assert_eq!(quote_id, "q");
        }
        other => panic!("expected Token: {}", other.debug_text()),
    }
    match parse_helper_token_stdout(br#"{"v":1,"ok":true}"#, true) {
        CdkMintAfterPaidTransportResult::Failed { reason } => {
            assert_eq!(reason, "helper ok but missing token");
        }
        other => panic!("expected Failed: {}", other.debug_text()),
    }
}

#[test]
fn payment_state_in_any_case() {
    let out = br#"{"v":1,"ok":true,"quote_id":"m","state":" paid ","payment_preimage":""}"#;
    assert_eq!(
        parse_helper_melt_stdout(out, true),
        CdkMeltTokenTransportResult::Paid {
            quote_id: "m".to_string(),
            amount_sats: 0,
            fee_sats: 0,
            payment_preimage: None,
        }
    );
    assert_eq!(
        parse_helper_melt_stdout(br#"{"v":1,"ok":true,"quote_id":"m"}"#, true),
        CdkMeltTokenTransportResult::Failed {
            reason: "helper ok but melt state is not PAID (got <missing>); refusing invented Success"
                .to_string(),
        }
    );
}

#[test]
fn process_requests_that_are_not_sent() {
    let t = ProcessCdkMintTransport::new();
    let never = |_: String, _: u64| -> Result<(Vec<u8>, bool), String> { panic!("nothing to send") };
    assert_eq!(
        t.melt_token(&melt_request("cashuAabcdefghijklmnop", "lnbc1x", "s"), never, read_reply),
        CdkMeltTokenTransportResult::Failed {
            reason: "storage_dir must be absolute (got s)".to_string()
        }
    );
    assert_eq!(
        t.melt_token(&melt_request(" ", "lnbc1x", "/s"), never, read_reply),
        CdkMeltTokenTransportResult::Failed { reason: "token must not be empty".to_string() }
    );
    let quote = CdkMintQuoteRequest {
        mint_url: "https://m".to_string(),
        amount_sats: 0,
        mnemonic_phrase: "w".to_string(),
        passphrase: String::new(),
        storage_dir: "/s".to_string(),
        timeout_secs: 30,
    };
    assert_eq!(
        t.mint_quote(&quote, never, read_reply),
        CdkMintQuoteTransportResult::Failed { reason: "amount_sats must be > 0".to_string() }
    );
    let paid = CdkMintAfterPaidRequest {
        mint_url: "https://m".to_string(),
        quote_id: " ".to_string(),
        mnemonic_phrase: "w".to_string(),
        passphrase: String::new(),
        storage_dir: "/s".to_string(),
        timeout_secs: 1,
    };
    match t.mint_after_paid(&paid, never, read_reply) {
        CdkMintAfterPaidTransportResult::Failed { reason } => {
            assert_eq!(reason, "quote_id must not be empty")
        }
        other => panic!("expected Failed: {}", other.debug_text()),
    }
}

#[test]
fn process_request_and_reply() {
    let t = ProcessCdkMintTransport::new();
    let answer = t.melt_token(
        &melt_request("cashuAabcdefghijklmnop", "lnbc1x", "/s"),
        |payload: String, secs: u64| {
            assert!(payload.contains("\"cmd\":\"melt_token\""));
            assert_eq!(secs, 5);
            Ok((br#"{"v":1,"ok":true,"quote_id":"m","amount_sats":9,"state":"PAID"}"#.to_vec(), true))
        },
        read_reply,
    );
    assert_eq!(
        answer,
        CdkMeltTokenTransportResult::Paid {
            quote_id: "m".to_string(),
            amount_sats: 9,
            fee_sats: 0,
            payment_preimage: None,
        }
    );
    assert_eq!(
        t.melt_token(
            &melt_request("cashuAabcdefghijklmnop", "lnbc1x", "/s"),
            |_: String, _: u64| Err("spawn failed".to_string()),
            read_reply
        ),
        CdkMeltTokenTransportResult::Failed { reason: "spawn failed".to_string() }
    );
}

#[test]
fn program_is_looked_up() {
    let dirs = vec!["/a".to_string(), "/b/".to_string()];
    let t = ProcessCdkMintTransport::new();
    assert_eq!(t.resolve_bin(None, None), "grok-bitcoin-cdk-mint");
    assert_eq!(t.resolve_bin(Some(""), Some("/x/y")), "/x/y");
    assert_eq!(t.resolve_bin(Some("z"), Some("/x/y")), "z");
    assert_eq!(ProcessCdkMintTransport::with_bin("w").resolve_bin(Some("z"), None), "w");
    assert!(t.binary_resolvable(None, None, &dirs, |p: &str| p == "/b/grok-bitcoin-cdk-mint"));
    assert!(!t.binary_resolvable(None, None, &dirs, |p: &str| p == "/c/grok-bitcoin-cdk-mint"));
    assert!(!t.binary_resolvable(Some("./z"), None, &dirs, |p: &str| p == "/a/./z"));
}

#[test]
fn storage_directories() {
    assert_eq!(default_cdk_storage_base(Some(" /s "), Some("/g"), Some("/h")), "/s");
    assert_eq!(default_cdk_storage_base(Some("s"), Some("/g"), Some("/h")), "/g/bitcoin/cdk");
    assert_eq!(default_cdk_storage_base(None, Some("g"), Some("/h/")), "/h/.grok/bitcoin/cdk");
    assert_eq!(default_cdk_storage_base(None, None, None), "/tmp/grok-bitcoin-cdk");
    assert_eq!(scoped_cdk_storage_dir("/tmp/cdk/", "xyz"), "/tmp/cdk/unknown");
    assert_eq!(scoped_cdk_storage_dir("/tmp/cdk", " DEAD-beef "), "/tmp/cdk/DEADbeef");
}

#[test]
fn seconds_to_wait() {
    assert_eq!(helper_wait_secs(0), 60);
    assert_eq!(helper_wait_secs(29), 60);
    assert_eq!(helper_wait_secs(30), 60);
    assert_eq!(helper_wait_secs(120), 150);
    assert_eq!(helper_wait_secs(u64::MAX), u64::MAX);
}

#[test]
fn bytes_that_are_no_text_are_replaced() {
    let stdout = b"{\"v\":1,\"ok\":false,\"error\":\"a\xffb\"}\n";
    match parse_helper_quote_stdout(stdout, true) {
        CdkMintQuoteTransportResult::Failed { reason } => assert_eq!(reason, "a\u{fffd}b"),
        other => panic!("expected Failed, got {other:?}"),
    }
}
