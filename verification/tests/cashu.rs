//! Cashu: what is said of it, mint requests and replies, backends, the funding wizard.

use std::sync::{Arc, Mutex};

use bitcoin_funding::bolt11::looks_like_bolt11;
use bitcoin_funding::cashu::{
    cashu_melt_failed_lines, cashu_melt_paid_lines, cashu_melt_residual_lines,
    cashu_mint_float_credited_lines, cashu_mint_quote_display_lines, cashu_mint_residual_lines,
    cashu_mint_token_obtained_lines, cashu_token_redeem_next_steps,
    decide_cashu_melt_product_path, decide_cashu_mint_product_path, mint_bolt11_url,
    mint_quote_bolt11_request_json, mint_quote_bolt11_status_url, mint_quote_bolt11_url,
    mint_quote_state_is_issued, mint_quote_state_is_mintable, parse_balance_msats_from_json,
    parse_mint_bolt11_response, parse_mint_quote_bolt11_response,
    parse_mint_quote_state_response, stub_cashu_capabilities, validate_mint_quote_for_invoice,
    validate_mint_url, CashuCapabilities, CashuMeltProductPath, CashuMintProductPath, CashuToken,
    MintQuoteBolt11Response,
};
use bitcoin_funding::cashu_backend::{
    default_cashu_backend, invoice_from_quote, now_unix_secs, quote_from_http,
    seed_fingerprint_hex, unix_secs_from, CashuBackend, CashuRefundOutcome, HttpMintQuoteTransport, HttpReply,
    MintProofsOutcome, MintQuoteOutcome, MintQuoteTransport, Nut04MintCashu, StubCashu,
};
use bitcoin_funding::cashu_cdk_helper::{
    scoped_cdk_storage_dir, CdkMeltTokenRequest, CdkMeltTokenTransportResult,
    CdkMintAfterPaidRequest, CdkMintAfterPaidTransportResult, CdkMintQuoteRequest,
    CdkMintQuoteTransportResult, CdkMintTransport,
};
use bitcoin_funding::error::WalletError;
use bitcoin_funding::funding::{FundingStep, FundingWizard, MnemonicBackupGate};
use bitcoin_funding::mnemonic::import_mnemonic;
use bitcoin_funding::path::is_absolute;

/// A gate whose words were shown and entered again.
fn confirmed_gate() -> MnemonicBackupGate {
    let mut gate = MnemonicBackupGate::new();
    let _words = gate.show_once("some words").unwrap();
    gate.confirm_reentry("some words").unwrap();
    gate
}

#[test]
fn decide_cashu_melt_product_path_and_residual_never_float() {
    assert_eq!(
        decide_cashu_melt_product_path(stub_cashu_capabilities()),
        CashuMeltProductPath::Residual
    );
    assert_eq!(
        decide_cashu_melt_product_path(CashuCapabilities {
            mint_live: true,
            proofs_mint_live: true,
            spend_live: true,
            refund_live: true,
        }),
        CashuMeltProductPath::LiveMelt
    );
    assert_eq!(
        decide_cashu_melt_product_path(CashuCapabilities {
            mint_live: false,
            proofs_mint_live: false,
            spend_live: false,
            refund_live: true,
        }),
        CashuMeltProductPath::LiveMelt
    );
    let residual = cashu_melt_residual_lines().join("\n").to_ascii_lowercase();
    assert!(residual.contains("not live") || residual.contains("refund"));
    assert!(residual.contains("balance") || residual.contains("token"));
    assert!(
        residual.contains("cashua") && residual.contains("sk-"),
        "must guide prefer cashuA over large hot sk- float: {residual}"
    );
    assert!(!residual.contains("float credited"));
    assert!(!residual.contains("state=paid") || residual.contains("never"));
    let paid = cashu_melt_paid_lines("melted 21 sats state=PAID")
        .join("\n")
        .to_ascii_lowercase();
    assert!(paid.contains("melt") && paid.contains("paid"));
    assert!(paid.contains("not") && paid.contains("float"));
    assert!(
        paid.contains("cashua") && paid.contains("sk-"),
        "must guide prefer cashuA melt over large hot sk- float: {paid}"
    );
    assert!(!paid.contains("float credited"));
    let failed = cashu_melt_failed_lines("helper rejected")
        .join("\n")
        .to_ascii_lowercase();
    assert!(failed.contains("did not complete") || failed.contains("not complete"));
    assert!(!failed.contains("float credited"));
    // Live-attempt failure must not invert capability honesty ("not live").
    assert!(
        !failed.contains("not live"),
        "live-fail lines must not claim melt not live: {failed}"
    );
    assert!(failed.contains("retry") || failed.contains("refund"));
}

#[test]
fn decide_cashu_mint_product_path_and_residual_honesty() {
    assert_eq!(
        decide_cashu_mint_product_path(stub_cashu_capabilities()),
        CashuMintProductPath::Residual
    );
    assert_eq!(
        decide_cashu_mint_product_path(CashuCapabilities {
            mint_live: true,
            proofs_mint_live: false,
            spend_live: false,
            refund_live: false,
        }),
        CashuMintProductPath::QuoteOnly
    );
    assert_eq!(
        decide_cashu_mint_product_path(CashuCapabilities {
            mint_live: true,
            proofs_mint_live: true,
            spend_live: false,
            refund_live: false,
        }),
        CashuMintProductPath::LiveProofs
    );
    // Residual copy never claims float / fabricates bolt11.
    let residual = cashu_mint_residual_lines(Some(500), CashuMintProductPath::Residual)
        .join("\n")
        .to_ascii_lowercase();
    assert!(residual.contains("not live") || residual.contains("p0"));
    assert!(residual.contains("topup"));
    assert!(!residual.contains("lnbc"));
    assert!(!residual.contains("float credited"));
    let quote_lines = cashu_mint_quote_display_lines("lnbc1x", "q-1", Some(21))
        .join("\n")
        .to_ascii_lowercase();
    assert!(quote_lines.contains("mint quote"));
    assert!(quote_lines.contains("not") && quote_lines.contains("float"));
    assert!(quote_lines.contains("lnbc1x"));
    let token_lines = cashu_mint_token_obtained_lines(21, "q-1", "cashuA…[REDACTED]")
        .join("\n")
        .to_ascii_lowercase();
    assert!(token_lines.contains("not routstr float"));
    let float_lines = cashu_mint_float_credited_lines(Some(21))
        .join("\n")
        .to_ascii_lowercase();
    assert!(float_lines.contains("float credited") || float_lines.contains("redeem succeeded"));
}

#[test]
fn stub_cashu_never_claims_live_mint_or_refund() {
    let c = StubCashu;
    let caps = c.capabilities();
    assert!(!caps.mint_live);
    assert!(!caps.proofs_mint_live);
    assert!(!caps.spend_live);
    assert!(!caps.refund_live);

    let mint = c.request_mint_invoice(Some(21_000)).unwrap();
    assert!(
        matches!(mint, MintQuoteOutcome::Unsupported(_)),
        "stub must not invent mint invoice: {mint:?}"
    );
    if let MintQuoteOutcome::Invoice { bolt11, .. } = mint {
        panic!("stub fabricated bolt11: {bolt11}");
    }

    let proofs = c.complete_mint_after_pay("q-1").unwrap();
    assert!(
        matches!(proofs, MintProofsOutcome::Unsupported(_)),
        "stub must not invent token: {}",
        proofs.debug_text()
    );
    if let MintProofsOutcome::Token { token, .. } = proofs {
        panic!("stub fabricated token: {token}");
    }

    let refnd = c.refund().unwrap();
    assert!(
        matches!(refnd, CashuRefundOutcome::Unsupported(_)),
        "stub must not claim refund completed: {refnd:?}"
    );
    assert!(!matches!(refnd, CashuRefundOutcome::Completed { .. }));
}

#[test]
fn default_cashu_backend_honest_live_flags() {
    let c = default_cashu_backend();
    let caps = c.capabilities();
    // Without GROK_BITCOIN_CASHU_MINT_URL, even feature cashu-cdk keeps mint_live false.
    assert!(
        !caps.mint_live,
        "default backend without mint URL must not claim mint_live"
    );
    // proofs_mint_live requires mint URL + helper; without URL stays false.
    assert!(!caps.proofs_mint_live);
    assert!(!caps.spend_live);
    assert!(!caps.refund_live);
    let mint = c.request_mint_invoice(Some(1)).unwrap();
    assert!(
        matches!(mint, MintQuoteOutcome::Unsupported(_)),
        "stub → Unsupported: {mint:?}"
    );
    assert!(
        !matches!(mint, MintQuoteOutcome::Invoice { .. }),
        "must not invent mint invoice: {mint:?}"
    );
    assert!(matches!(
        c.refund().unwrap(),
        CashuRefundOutcome::Unsupported(_)
    ));
}

#[test]
fn mint_quote_request_and_parse_nut04_shape() {
    let j = mint_quote_bolt11_request_json(1000, "sat").unwrap();
    assert!(j.contains("\"amount\":1000"));
    assert!(j.contains("\"unit\":\"sat\""));
    assert!(mint_quote_bolt11_request_json(0, "sat").is_err());
    assert!(validate_mint_url("https://mint.example/Bitcoin").is_ok());
    assert!(validate_mint_url("not-a-url").is_err());
    let url = mint_quote_bolt11_url("https://mint.example/Bitcoin/").unwrap();
    assert_eq!(url, "https://mint.example/Bitcoin/v1/mint/quote/bolt11");

    // Live-shaped NUT-04 response (minibits-style).
    let body = r#"{
        "quote":"019f7f1d-52f0-70ae-9ee2-b8dffe7609b8",
        "request":"lnbc10n1p49m7ecpp5test",
        "amount":1,
        "unit":"sat",
        "state":"UNPAID",
        "expiry":1784630456
    }"#;
    let q = parse_mint_quote_bolt11_response(body).unwrap();
    assert_eq!(q.quote_id, "019f7f1d-52f0-70ae-9ee2-b8dffe7609b8");
    assert!(q.bolt11.starts_with("lnbc"));
    assert_eq!(q.amount_sats, Some(1));
    assert_eq!(q.state.as_deref(), Some("UNPAID"));

    assert!(parse_mint_quote_bolt11_response(r#"{"quote":"q"}"#).is_err());
    assert!(parse_mint_quote_bolt11_response(r#"{"quote":"q","request":"not-ln"}"#).is_err());
    assert!(
        parse_mint_quote_bolt11_response(r#"{"quote":"q","request":"lnurl1dp68gurn8ghj7"}"#)
            .is_err(),
        "LNURL must not parse as mint quote bolt11"
    );

    // validate_mint_quote_for_invoice: expiry / state / amount
    let mut q = parse_mint_quote_bolt11_response(body).unwrap();
    assert!(validate_mint_quote_for_invoice(&q, 1, 1_000).is_ok());
    assert!(
        validate_mint_quote_for_invoice(&q, 1, 9_999_999_999).is_err(),
        "now past expiry must fail"
    );
    q.state = Some("EXPIRED".into());
    assert!(
        validate_mint_quote_for_invoice(&q, 1, 1_000).is_err(),
        "EXPIRED state must fail"
    );
    q.state = Some("UNPAID".into());
    q.expiry = Some(9_999_999_999);
    assert!(
        validate_mint_quote_for_invoice(&q, 99, 1_000).is_err(),
        "amount mismatch must fail"
    );
    assert!(validate_mint_quote_for_invoice(&q, 1, 1_000).is_ok());
    // amount optional from mint
    q.amount_sats = None;
    assert!(validate_mint_quote_for_invoice(&q, 500, 1_000).is_ok());
}

#[test]
fn nut04_mint_cashu_success_only_from_transport() {
    struct MockMint {
        ok: bool,
    }
    impl MintQuoteTransport for MockMint {
        fn request_mint_quote(
            &self,
            mint_url: &str,
            amount_sats: u64,
        ) -> Result<MintQuoteBolt11Response, String> {
            assert!(mint_url.starts_with("https://"));
            assert!(amount_sats > 0);
            if self.ok {
                Ok(MintQuoteBolt11Response {
                    quote_id: "q-1".into(),
                    bolt11: "lnbc1mockmintquote".into(),
                    amount_sats: Some(amount_sats),
                    unit: Some("sat".into()),
                    expiry: None,
                    state: Some("UNPAID".into()),
                })
            } else {
                Err("mint down".into())
            }
        }
    }

    let live = Nut04MintCashu::new(
        Some("https://mint.example/Bitcoin".into()),
        MockMint { ok: true },
    );
    assert!(live.capabilities().mint_live);
    // No CDK helper → proofs_mint_live false (HTTP quote only).
    assert!(!live.capabilities().proofs_mint_live);
    assert!(!live.capabilities().spend_live);
    assert!(!live.capabilities().refund_live);
    match live.request_mint_invoice(Some(500)).unwrap() {
        MintQuoteOutcome::Invoice { bolt11, quote_id } => {
            assert_eq!(bolt11, "lnbc1mockmintquote");
            assert_eq!(quote_id, "q-1");
        }
        other => panic!("expected Invoice: {other:?}"),
    }

    let fail = Nut04MintCashu::new(
        Some("https://mint.example/Bitcoin".into()),
        MockMint { ok: false },
    );
    assert!(matches!(
        fail.request_mint_invoice(Some(1)).unwrap(),
        MintQuoteOutcome::Failed(ref s) if s.contains("mint down")
    ));

    let no_url = Nut04MintCashu::new(None, MockMint { ok: true });
    assert!(!no_url.capabilities().mint_live);
    assert!(!no_url.capabilities().proofs_mint_live);
    assert!(matches!(
        no_url.request_mint_invoice(Some(1)).unwrap(),
        MintQuoteOutcome::Failed(_)
    ));
}

#[test]
fn nut04_proofs_mint_only_from_helper_transport() {
    struct MockMintQuoteAlways;
    impl MintQuoteTransport for MockMintQuoteAlways {
        fn request_mint_quote(
            &self,
            _mint_url: &str,
            amount_sats: u64,
        ) -> Result<MintQuoteBolt11Response, String> {
            Ok(MintQuoteBolt11Response {
                quote_id: "q-http".into(),
                bolt11: "lnbc1httpquote".into(),
                amount_sats: Some(amount_sats),
                unit: Some("sat".into()),
                expiry: None,
                state: Some("UNPAID".into()),
            })
        }
    }

    struct MockCdkHelper {
        token_ok: bool,
    }
    impl CdkMintTransport for MockCdkHelper {
        fn helper_linked(&self) -> bool {
            true
        }
        fn mint_quote(&self, _r: &CdkMintQuoteRequest) -> CdkMintQuoteTransportResult {
            CdkMintQuoteTransportResult::Failed {
                reason: "not used in this test".into(),
            }
        }
        fn mint_after_paid(
            &self,
            r: &CdkMintAfterPaidRequest,
        ) -> CdkMintAfterPaidTransportResult {
            if self.token_ok {
                CdkMintAfterPaidTransportResult::Token {
                    token: "cashuAabcdefghijklmnopqrstuvwxyz".into(),
                    amount_sats: 21,
                    quote_id: r.quote_id.clone(),
                }
            } else {
                CdkMintAfterPaidTransportResult::Failed {
                    reason: "unpaid".into(),
                }
            }
        }
        fn melt_token(
            &self,
            _r: &CdkMeltTokenRequest,
        ) -> CdkMeltTokenTransportResult {
            CdkMeltTokenTransportResult::Failed {
                reason: "melt not used in this test".into(),
            }
        }
    }

    let backend = Nut04MintCashu::with_cdk_helper(
        Some("https://mint.example/Bitcoin".into()),
        MockMintQuoteAlways,
        Some(MockCdkHelper { token_ok: true }),
        "/tmp/cdk".to_string(),
    );
    assert!(backend.capabilities().mint_live);
    assert!(backend.capabilities().proofs_mint_live);
    assert!(backend.capabilities().spend_live);
    assert!(backend.capabilities().refund_live);

    // Bare complete without seed → Failed (not Token).
    assert!(matches!(
        backend.complete_mint_after_pay("q-1").unwrap(),
        MintProofsOutcome::Failed(_)
    ));

    let mn = import_mnemonic(
        "abandon abandon abandon abandon abandon abandon abandon abandon abandon abandon abandon about",
    )
    .unwrap();
    match backend
        .complete_mint_after_pay_with_seed("q-1", &mn, "")
        .unwrap()
    {
        MintProofsOutcome::Token {
            token,
            amount_sats,
            quote_id,
        } => {
            assert!(token.starts_with("cashuA"));
            assert_eq!(amount_sats, 21);
            assert_eq!(quote_id, "q-1");
            let redacted = CashuToken::parse(&token).unwrap().redacted();
            let steps = cashu_token_redeem_next_steps(&redacted, Some(amount_sats));
            let joined = steps.join("\n");
            assert!(joined.contains("redeem"), "{joined}");
            assert!(
                joined.contains("not") && joined.to_ascii_lowercase().contains("float"),
                "must not claim float: {joined}"
            );
        }
        other => panic!("expected Token: {}", other.debug_text()),
    }

    let fail = Nut04MintCashu::with_cdk_helper(
        Some("https://mint.example/Bitcoin".into()),
        MockMintQuoteAlways,
        Some(MockCdkHelper { token_ok: false }),
        "/tmp/cdk".to_string(),
    );
    assert!(matches!(
        fail.complete_mint_after_pay_with_seed("q-1", &mn, "")
            .unwrap(),
        MintProofsOutcome::Failed(ref s) if s.contains("unpaid")
    ));
}

#[test]
fn nut04_melt_only_from_helper_paid() {
    struct MockHttpNever;
    impl MintQuoteTransport for MockHttpNever {
        fn request_mint_quote(
            &self,
            _mint_url: &str,
            _amount_sats: u64,
        ) -> Result<MintQuoteBolt11Response, String> {
            Err("http not used".into())
        }
    }

    struct MockMeltHelper {
        paid: bool,
    }
    impl CdkMintTransport for MockMeltHelper {
        fn helper_linked(&self) -> bool {
            true
        }
        fn mint_quote(&self, _r: &CdkMintQuoteRequest) -> CdkMintQuoteTransportResult {
            CdkMintQuoteTransportResult::Failed {
                reason: "n/a".into(),
            }
        }
        fn mint_after_paid(
            &self,
            _r: &CdkMintAfterPaidRequest,
        ) -> CdkMintAfterPaidTransportResult {
            CdkMintAfterPaidTransportResult::Failed {
                reason: "n/a".into(),
            }
        }
        fn melt_token(&self, r: &CdkMeltTokenRequest) -> CdkMeltTokenTransportResult {
            assert!(CashuToken::parse(&r.token).is_ok());
            assert!(looks_like_bolt11(&r.bolt11));
            if self.paid {
                CdkMeltTokenTransportResult::Paid {
                    quote_id: "mq-1".into(),
                    amount_sats: 1000,
                    fee_sats: 2,
                    payment_preimage: Some("deadbeef".into()),
                }
            } else {
                CdkMeltTokenTransportResult::Failed {
                    reason: "mint rejected melt".into(),
                }
            }
        }
    }

    let backend = Nut04MintCashu::with_cdk_helper(
        Some("https://mint.example/Bitcoin".into()),
        MockHttpNever,
        Some(MockMeltHelper { paid: true }),
        "/tmp/cdk".to_string(),
    );
    assert!(backend.capabilities().spend_live);
    assert!(backend.capabilities().refund_live);

    // Bare refund never invents Completed.
    match backend.refund().unwrap() {
        CashuRefundOutcome::Failed(ref s) => {
            assert!(
                s.contains("melt_token") || s.contains("token context"),
                "{s}"
            );
        }
        other => panic!("bare refund must be Failed not Completed: {other:?}"),
    }

    let mn = import_mnemonic(
        "abandon abandon abandon abandon abandon abandon abandon abandon abandon abandon abandon about",
    )
    .unwrap();
    match backend
        .melt_token_to_bolt11_with_seed(
            "cashuAabcdefghijklmnopqrstuvwxyz",
            "lnbc1meltdest",
            &mn,
            "",
        )
        .unwrap()
    {
        CashuRefundOutcome::Completed { detail } => {
            assert!(detail.contains("1000"));
            assert!(detail.contains("PAID") || detail.contains("melted"));
            assert!(detail.contains("mq-1"));
        }
        other => panic!("expected Completed: {other:?}"),
    }

    let fail = Nut04MintCashu::with_cdk_helper(
        Some("https://mint.example/Bitcoin".into()),
        MockHttpNever,
        Some(MockMeltHelper { paid: false }),
        "/tmp/cdk".to_string(),
    );
    assert!(matches!(
        fail.melt_token_to_bolt11_with_seed(
            "cashuAabcdefghijklmnopqrstuvwxyz",
            "lnbc1meltdest",
            &mn,
            "",
        )
        .unwrap(),
        CashuRefundOutcome::Failed(ref s) if s.contains("rejected")
    ));

    // Bad token / lnurl offline rejections.
    assert!(matches!(
        backend
            .melt_token_to_bolt11_with_seed("sk-not-cashu", "lnbc1x", &mn, "")
            .unwrap(),
        CashuRefundOutcome::Failed(ref s) if s.contains("CashuToken") || s.contains("cashu")
    ));
    assert!(matches!(
        backend
            .melt_token_to_bolt11_with_seed(
                "cashuAabcdefghijklmnopqrstuvwxyz",
                "lnurl1dp68gurn8ghj7",
                &mn,
                "",
            )
            .unwrap(),
        CashuRefundOutcome::Failed(ref s) if s.contains("looks_like_bolt11") || s.contains("lnurl")
    ));

    // Helper not linked → spend/refund live false.
    struct Unlinked;
    impl CdkMintTransport for Unlinked {
        fn helper_linked(&self) -> bool {
            false
        }
        fn mint_quote(&self, _: &CdkMintQuoteRequest) -> CdkMintQuoteTransportResult {
            CdkMintQuoteTransportResult::Failed {
                reason: "n/a".into(),
            }
        }
        fn mint_after_paid(
            &self,
            _: &CdkMintAfterPaidRequest,
        ) -> CdkMintAfterPaidTransportResult {
            CdkMintAfterPaidTransportResult::Failed {
                reason: "n/a".into(),
            }
        }
        fn melt_token(&self, _: &CdkMeltTokenRequest) -> CdkMeltTokenTransportResult {
            CdkMeltTokenTransportResult::Failed {
                reason: "n/a".into(),
            }
        }
    }
    let no_helper = Nut04MintCashu::with_cdk_helper(
        Some("https://mint.example/Bitcoin".into()),
        MockHttpNever,
        Some(Unlinked),
        "/tmp/cdk".to_string(),
    );
    assert!(!no_helper.capabilities().spend_live);
    assert!(!no_helper.capabilities().refund_live);
    assert!(!no_helper.capabilities().proofs_mint_live);
}

#[test]
fn mint_proofs_outcome_debug_redacts_token() {
    let full = "cashuAabcdefghijklmnopqrstuvwxyz0123456789";
    let out = MintProofsOutcome::Token {
        token: full.to_owned(),
        amount_sats: 21,
        quote_id: "q-redact".into(),
    };
    let dbg = out.debug_text();
    assert!(
        !dbg.contains(full),
        "Debug must not dump full bearer token: {dbg}"
    );
    assert!(dbg.contains("cashuA") || dbg.contains("REDACTED"), "{dbg}");
    assert!(dbg.contains("21"), "{dbg}");
    assert!(dbg.contains("q-redact"), "{dbg}");
}

#[test]
fn seed_fingerprint_includes_passphrase() {
    let mn = import_mnemonic(
        "abandon abandon abandon abandon abandon abandon abandon abandon abandon abandon abandon about",
    )
    .unwrap();
    let empty = seed_fingerprint_hex(&mn, "");
    let with_pp = seed_fingerprint_hex(&mn, "correct horse");
    assert_eq!(empty.len(), 16);
    assert_eq!(with_pp.len(), 16);
    assert_ne!(empty, with_pp, "passphrase must change storage fingerprint");
    // Same inputs → stable label.
    assert_eq!(empty, seed_fingerprint_hex(&mn, ""));
    let base = "/tmp/cdk-fp";
    let d1 = scoped_cdk_storage_dir(base, &empty);
    let d2 = scoped_cdk_storage_dir(base, &with_pp);
    assert_ne!(d1, d2);
}

#[test]
fn request_mint_invoice_with_seed_prefers_helper_quote() {
    struct MockHttpNever;
    impl MintQuoteTransport for MockHttpNever {
        fn request_mint_quote(
            &self,
            _mint_url: &str,
            _amount_sats: u64,
        ) -> Result<MintQuoteBolt11Response, String> {
            panic!("HTTP transport must not be used when helper quote is linked");
        }
    }

    struct MockCdkQuote {
        saw_storage: Arc<Mutex<Option<String>>>,
    }
    impl CdkMintTransport for MockCdkQuote {
        fn helper_linked(&self) -> bool {
            true
        }
        fn mint_quote(&self, r: &CdkMintQuoteRequest) -> CdkMintQuoteTransportResult {
            *self.saw_storage.lock().unwrap() = Some(r.storage_dir.clone());
            CdkMintQuoteTransportResult::Quote {
                quote_id: "q-helper".into(),
                bolt11: "lnbc1helperscope".into(),
                amount_sats: r.amount_sats,
            }
        }
        fn mint_after_paid(
            &self,
            _r: &CdkMintAfterPaidRequest,
        ) -> CdkMintAfterPaidTransportResult {
            CdkMintAfterPaidTransportResult::Failed {
                reason: "not used".into(),
            }
        }
        fn melt_token(
            &self,
            _r: &CdkMeltTokenRequest,
        ) -> CdkMeltTokenTransportResult {
            CdkMeltTokenTransportResult::Failed {
                reason: "melt not used in this test".into(),
            }
        }
    }

    let saw_storage = Arc::new(Mutex::new(None));
    let mock = MockCdkQuote {
        saw_storage: saw_storage.clone(),
    };
    let backend = Nut04MintCashu::with_cdk_helper(
        Some("https://mint.example/Bitcoin".into()),
        MockHttpNever,
        Some(mock),
        "/tmp/cdk".to_string(),
    );
    let mn = import_mnemonic(
        "abandon abandon abandon abandon abandon abandon abandon abandon abandon abandon abandon about",
    )
    .unwrap();
    match backend
        .request_mint_invoice_with_seed(Some(50), &mn, "pp")
        .unwrap()
    {
        MintQuoteOutcome::Invoice { bolt11, quote_id } => {
            assert_eq!(quote_id, "q-helper");
            assert_eq!(bolt11, "lnbc1helperscope");
        }
        other => panic!("expected helper Invoice: {other:?}"),
    }
    let storage = saw_storage.lock().unwrap().clone().unwrap();
    assert!(is_absolute(&storage), "{storage:?}");
    // complete_mint uses same scoped dir for same phrase+passphrase.
    let expected = backend.scoped_storage_for_seed(&mn, "pp");
    assert_eq!(storage, expected);
}

#[test]
fn parse_mint_quote_state_and_mint_response() {
    let status_url =
        mint_quote_bolt11_status_url("https://mint.example/Bitcoin/", "q-abc").unwrap();
    assert_eq!(
        status_url,
        "https://mint.example/Bitcoin/v1/mint/quote/bolt11/q-abc"
    );
    assert!(mint_quote_bolt11_status_url("https://m/", "../x").is_err());
    assert!(mint_quote_bolt11_status_url("https://m/", "").is_err());

    let body = r#"{
        "quote":"q-abc",
        "state":"PAID",
        "amount":21,
        "expiry":9999999999
    }"#;
    let st = parse_mint_quote_state_response(body).unwrap();
    assert_eq!(st.quote_id, "q-abc");
    assert!(mint_quote_state_is_mintable(&st.state));
    assert!(!mint_quote_state_is_issued(&st.state));

    let unpaid = r#"{"quote":"q","state":"UNPAID"}"#;
    let u = parse_mint_quote_state_response(unpaid).unwrap();
    assert!(!mint_quote_state_is_mintable(&u.state));

    let issued = r#"{"quote":"q","state":"ISSUED"}"#;
    assert!(mint_quote_state_is_issued(
        &parse_mint_quote_state_response(issued).unwrap().state
    ));

    assert!(parse_mint_quote_state_response(r#"{"quote":"q"}"#).is_err());

    let mint_url = mint_bolt11_url("https://mint.example/Bitcoin").unwrap();
    assert_eq!(mint_url, "https://mint.example/Bitcoin/v1/mint/bolt11");

    let sigs = r#"{
        "signatures":[
            {"amount":1,"id":"00ab","C_":"02abc"},
            {"amount":2,"id":"00ab","C":"03def"}
        ]
    }"#;
    let m = parse_mint_bolt11_response(sigs).unwrap();
    assert_eq!(m.signatures.len(), 2);
    assert_eq!(m.signatures[0].amount_sats, Some(1));
    assert_eq!(m.signatures[0].c.as_deref(), Some("02abc"));
    assert!(parse_mint_bolt11_response(r#"{"signatures":[]}"#).is_err());
    assert!(parse_mint_bolt11_response(r#"{}"#).is_err());
}

#[test]
fn parse_cashu_token() {
    let t = CashuToken::parse("cashuAabcdefghijklmnopqrstuvwxyz").unwrap();
    assert!(t.expose().starts_with("cashuA"));
    let dbg = t.debug_text();
    assert!(!dbg.contains("abcdefghijklmnopqrstuvwxyz"));
    assert!(dbg.contains("cashuA"));
}

#[test]
fn reject_non_cashu() {
    assert!(CashuToken::parse("sk-not-a-token").is_err());
    assert!(CashuToken::parse("cashuAshort").is_err());
}

#[test]
fn funding_step_user_labels_are_stable() {
    assert_eq!(
        FundingStep::ShowAddress.user_label(),
        "showing receive address"
    );
    assert_eq!(FundingStep::WatchingTx.user_label(), "watching transaction");
    // Must not look like Debug.
    assert!(
        !FundingStep::ShowAddress
            .user_label()
            .contains("ShowAddress")
    );
}

#[test]
fn funding_wizard_happy_path() {
    let mut w = FundingWizard::new();
    assert_eq!(w.step, FundingStep::NeedWallet);
    w.show_address_with_backup_gate("bc1q…", &confirmed_gate()).unwrap();
    w.watch_tx("txid").unwrap();
    w.set_confirmations(1).unwrap();
    assert_eq!(w.step, FundingStep::WatchingTx);
    w.set_confirmations(3).unwrap();
    assert_eq!(w.step, FundingStep::OpenChannel);
    w.channel_opened().unwrap();
    w.cashu_acquired().unwrap();
    assert_eq!(w.step, FundingStep::ReadyForInference);
    w.begin_refund().unwrap();
    assert_eq!(w.step, FundingStep::RefundOptional);
}

#[test]
fn funding_wizard_invalid_skip() {
    let mut w = FundingWizard::new();
    assert!(w.watch_tx("x").is_err());
}

#[test]
fn funding_wizard_show_address_requires_backup() {
    let mut w = FundingWizard::new();
    let err = w.show_address("bc1qtest").unwrap_err();
    assert!(matches!(err, WalletError::BackupNotConfirmed));
    assert_eq!(w.step, FundingStep::NeedWallet);
    assert!(w.receive_address.is_none());
}

#[test]
fn funding_wizard_backup_gate_accept_and_reject() {
    let m = import_mnemonic(
        "abandon abandon abandon abandon abandon abandon abandon abandon abandon abandon abandon about",
    )
    .unwrap();
    let mut gate = MnemonicBackupGate::new();
    let mut w = FundingWizard::new();

    // Unconfirmed gate rejected.
    assert!(matches!(
        w.show_address_with_backup_gate("bc1qtest", &gate)
            .unwrap_err(),
        WalletError::BackupNotConfirmed
    ));

    let _words = gate.show_once(m.expose()).unwrap();
    // Shown but not re-entered yet.
    assert!(matches!(
        w.show_address_with_backup_gate("bc1qtest", &gate)
            .unwrap_err(),
        WalletError::BackupNotConfirmed
    ));

    // Wrong re-entry still blocked.
    assert!(gate.confirm_reentry("wrong words only").is_err());
    assert!(matches!(
        w.show_address_with_backup_gate("bc1qtest", &gate)
            .unwrap_err(),
        WalletError::BackupNotConfirmed
    ));

    gate.confirm_reentry(m.expose()).unwrap();
    w.show_address_with_backup_gate("bc1qaccepted", &gate)
        .unwrap();
    assert_eq!(w.step, FundingStep::ShowAddress);
    assert_eq!(w.receive_address.as_deref(), Some("bc1qaccepted"));
    assert!(w.backup_confirmed());
}

#[test]
fn parse_balance_msats() {
    assert_eq!(
        parse_balance_msats_from_json(r#"{"msats": 1500000}"#),
        Some(1_500_000)
    );
    assert_eq!(
        parse_balance_msats_from_json(r#"{"data":{"sats":1000}}"#),
        Some(1_000_000)
    );
    // Bare `balance` is ambiguous; do not guess.
    assert_eq!(
        parse_balance_msats_from_json(r#"{"data":{"balance":1000}}"#),
        None
    );
    assert_eq!(parse_balance_msats_from_json("nope"), None);
}

#[test]
fn mint_url_faults() {
    assert_eq!(validate_mint_url(" https://m/x// ").unwrap(), "https://m/x");
    assert_eq!(validate_mint_url("HTTP://m").unwrap(), "HTTP://m");
    assert_eq!(validate_mint_url(" // ").unwrap_err(), "mint URL must not be empty");
    assert_eq!(
        validate_mint_url("ftp://m").unwrap_err(),
        "mint URL must start with https:// or http://"
    );
    let long = format!("https://{}", "m".repeat(505));
    assert_eq!(validate_mint_url(&long).unwrap_err(), "mint URL too long");
    assert!(validate_mint_url(&long[..512]).is_ok());
}

#[test]
fn quote_request_is_json() {
    assert_eq!(
        mint_quote_bolt11_request_json(1000, " sat ").unwrap(),
        "{\"amount\":1000,\"unit\":\"sat\"}"
    );
    assert_eq!(
        mint_quote_bolt11_request_json(7, "s\"a\nt").unwrap(),
        "{\"amount\":7,\"unit\":\"s\\\"a\\nt\"}"
    );
    assert_eq!(
        mint_quote_bolt11_request_json(0, "sat").unwrap_err(),
        "mint quote amount_sats must be > 0"
    );
    assert_eq!(
        mint_quote_bolt11_request_json(1, "  ").unwrap_err(),
        "mint quote unit must not be empty"
    );
}

#[test]
fn status_url_faults() {
    assert_eq!(
        mint_quote_bolt11_status_url("https://m", "a/b").unwrap_err(),
        "quote_id contains invalid path characters"
    );
    assert_eq!(
        mint_quote_bolt11_status_url("https://m", "a\\b").unwrap_err(),
        "quote_id contains invalid path characters"
    );
    assert_eq!(
        mint_quote_bolt11_status_url("https://m", " ").unwrap_err(),
        "quote_id must not be empty"
    );
}

#[test]
fn quote_fields_by_other_names() {
    let q = parse_mint_quote_bolt11_response(
        r#"{"quoteId":" q ","invoice":"LNTB1x","amount_sats":5,"unit":"","expiry":-3}"#,
    )
    .unwrap();
    assert_eq!(
        q,
        MintQuoteBolt11Response {
            quote_id: "q".to_string(),
            bolt11: "LNTB1x".to_string(),
            amount_sats: Some(5),
            unit: None,
            expiry: Some(-3),
            state: None,
        }
    );
    assert_eq!(
        parse_mint_quote_bolt11_response("{").unwrap_err(),
        "mint quote JSON: EOF while parsing an object at line 1 column 1"
    );
    assert_eq!(
        parse_mint_quote_bolt11_response("{}").unwrap_err(),
        "mint quote: missing quote id"
    );
    assert_eq!(
        parse_mint_quote_bolt11_response(r#"{"quote":"q"}"#).unwrap_err(),
        "mint quote: missing bolt11/request"
    );
    assert_eq!(
        parse_mint_quote_bolt11_response(r#"{"quote":"q","request":"lnurl1x"}"#).unwrap_err(),
        "mint quote: request is not a bolt11 (lnbc\u{2026}/lntb\u{2026}; not lnurl)"
    );
}

fn good_quote() -> MintQuoteBolt11Response {
    MintQuoteBolt11Response {
        quote_id: "q".to_string(),
        bolt11: " lnbc1x ".to_string(),
        amount_sats: Some(5),
        unit: None,
        expiry: Some(100),
        state: Some(" unpaid ".to_string()),
    }
}

#[test]
fn quote_faults() {
    let why = |q: &MintQuoteBolt11Response, now: i64| {
        validate_mint_quote_for_invoice(q, 5, now).unwrap_err()
    };
    assert!(validate_mint_quote_for_invoice(&good_quote(), 5, 99).is_ok());
    assert_eq!(why(&good_quote(), 100), "mint quote expired (expiry=100, now=100)");
    let mut q = good_quote();
    q.expiry = Some(i64::MIN);
    assert_eq!(
        why(&q, -1),
        "mint quote expired (expiry=-9223372036854775808, now=-1)"
    );
    q = good_quote();
    q.state = Some("paid".to_string());
    assert_eq!(why(&q, 0), "mint quote not payable (state=paid)");
    q = good_quote();
    q.amount_sats = Some(6);
    assert_eq!(why(&q, 0), "mint quote amount mismatch: requested 5 sats, mint returned 6");
    q = good_quote();
    q.quote_id = " ".to_string();
    assert_eq!(why(&q, 0), "mint quote: empty quote id");
    q = good_quote();
    q.bolt11 = "x".to_string();
    assert_eq!(why(&q, 0), "mint quote: invalid bolt11 (cannot claim Invoice)");
}

#[test]
fn invoice_only_from_a_good_quote() {
    assert_eq!(
        invoice_from_quote(Ok(good_quote()), 5, 99),
        MintQuoteOutcome::Invoice { bolt11: "lnbc1x".to_string(), quote_id: "q".to_string() }
    );
    assert_eq!(
        invoice_from_quote(Ok(good_quote()), 6, 99),
        MintQuoteOutcome::Failed(
            "mint quote amount mismatch: requested 6 sats, mint returned 5".to_string()
        )
    );
    assert_eq!(
        invoice_from_quote(Err("down".to_string()), 5, 99),
        MintQuoteOutcome::Failed("down".to_string())
    );
}

#[test]
fn http_replies() {
    let reply = |status: &str, success: bool, body: &str| HttpReply {
        status: status.to_string(),
        success,
        body: body.to_string(),
    };
    let ok = reply("200 OK", true, r#"{"quote":"q","request":"lnbc1x"}"#);
    assert_eq!(quote_from_http(&ok).unwrap().quote_id, "q");
    let refused = reply("400 Bad Request", false, &"\u{e9}".repeat(300));
    assert_eq!(
        quote_from_http(&refused).unwrap_err(),
        format!("mint quote HTTP 400 Bad Request: {}", "\u{e9}".repeat(200))
    );
    let large = reply("200 OK", true, &"x".repeat(65537));
    assert_eq!(quote_from_http(&large).unwrap_err(), "mint quote response too large");
}

#[test]
fn http_request_goes_to_the_quote_url() {
    let transport = HttpMintQuoteTransport::new();
    let quote = transport
        .request_mint_quote("https://mint.example/Bitcoin/", 21, |url: &str, body: &str, secs: u64| {
            assert_eq!(url, "https://mint.example/Bitcoin/v1/mint/quote/bolt11");
            assert_eq!(body, "{\"amount\":21,\"unit\":\"sat\"}");
            assert_eq!(secs, 30);
            Ok(HttpReply {
                status: "200 OK".to_string(),
                success: true,
                body: r#"{"quote":"q","request":"lnbc1x","amount":21}"#.to_string(),
            })
        })
        .unwrap();
    assert_eq!(quote.amount_sats, Some(21));
    let hasty = HttpMintQuoteTransport { timeout_secs: 0 };
    assert_eq!(
        hasty
            .request_mint_quote("https://m", 1, |_: &str, _: &str, secs: u64| Err(format!("{secs}")))
            .unwrap_err(),
        "1"
    );
    assert_eq!(
        hasty
            .request_mint_quote("m", 1, |_: &str, _: &str, _: u64| panic!("nothing to send"))
            .unwrap_err(),
        "mint URL must start with https:// or http://"
    );
}

#[test]
fn tokens_by_shape() {
    let why = |t: &str| CashuToken::parse(t).err().unwrap().to_string();
    assert_eq!(why("  "), "empty token");
    assert_eq!(why("cashuCabcdefghijkl"), "token must start with cashuA (or cashuB)");
    assert_eq!(why("cashuAabcdefghi"), "token too short");
    let t = CashuToken::parse(" cashuBabcdefghij ").unwrap();
    assert_eq!(t.expose(), "cashuBabcdefghij");
    assert_eq!(t.redacted(), "cashuB\u{2026}ghij");
    assert_eq!(t.debug_text(), "CashuToken(\"cashuB\u{2026}ghij\")");
}

#[test]
fn balances_with_a_unit() {
    assert_eq!(parse_balance_msats_from_json(r#"{"balance_msats":"12"}"#), Some(12));
    assert_eq!(parse_balance_msats_from_json(r#"{"balance_sats":3}"#), Some(3000));
    assert_eq!(parse_balance_msats_from_json(r#"{"sats":1.9}"#), Some(1000));
    assert_eq!(
        parse_balance_msats_from_json(r#"{"sats":18446744073709551615}"#),
        Some(u64::MAX)
    );
    assert_eq!(parse_balance_msats_from_json(r#"{"data":{"data":{"msats":4}}}"#), Some(4));
    assert_eq!(parse_balance_msats_from_json(r#"{"msats":-1}"#), None);
}

#[test]
fn blind_signatures() {
    let why = |body: &str| parse_mint_bolt11_response(body).unwrap_err();
    assert!(why("[").starts_with("mint bolt11 JSON: "));
    let m = parse_mint_bolt11_response(
        r#"{"signatures":[{"amount":"x","id":7,"C":"03def","C_":"02abc"}]}"#,
    )
    .unwrap();
    assert_eq!(m.signatures[0].amount_sats, None);
    assert_eq!(m.signatures[0].c.as_deref(), Some("02abc"));
}

#[test]
fn wizard_by_wire_names() {
    for step in [
        FundingStep::NeedWallet,
        FundingStep::ShowAddress,
        FundingStep::WatchingTx,
        FundingStep::OpenChannel,
        FundingStep::AcquireCashu,
        FundingStep::ReadyForInference,
        FundingStep::RefundOptional,
    ] {
        assert_eq!(FundingStep::from_wire_str(step.as_wire_str()), Some(step));
    }
    assert_eq!(FundingStep::from_wire_str("nowhere"), None);
}

#[test]
fn wizard_is_where_it_was_after_a_refusal() {
    let mut w = FundingWizard::default();
    assert_eq!(
        w.watch_tx("x").unwrap_err().to_string(),
        format!(
            "invalid funding step: {} -> {}",
            FundingStep::NeedWallet.user_label(),
            FundingStep::WatchingTx.user_label()
        )
    );
    assert_eq!(w, FundingWizard::new());
    assert_eq!(
        w.show_address("bc1q").unwrap_err().to_string(),
        "recovery phrase backup is not confirmed"
    );
    w.show_address_with_backup_gate("bc1q", &confirmed_gate()).unwrap();
    w.skip_channel_for_external_cashu().unwrap();
    assert_eq!(w.step, FundingStep::AcquireCashu);
}

#[test]
fn wizard_resumes_where_it_was() {
    let w = FundingWizard::for_watch_after_fund("bc1q", 0);
    assert_eq!(w.step, FundingStep::ShowAddress);
    assert_eq!(w.required_confirmations, 1);
    assert!(w.backup_confirmed());

    let txid = Some("ab".to_string());
    let w = FundingWizard::resume_watch("bc1q", 2, FundingStep::OpenChannel, txid, 5).unwrap();
    assert_eq!(w.step, FundingStep::OpenChannel);
    assert_eq!(w.receive_address.as_deref(), Some("bc1q"));
    assert_eq!(w.watched_txid.as_deref(), Some("ab"));
    assert_eq!((w.confirmations, w.required_confirmations), (5, 2));
    assert!(w.backup_confirmed());
    assert_eq!(
        FundingWizard::resume_watch("bc1q", 2, FundingStep::NeedWallet, None, 0)
            .unwrap_err()
            .to_string(),
        "cannot resume watch at need_wallet (backup gate not skippable)"
    );
}

#[test]
fn recovery_words() {
    assert!(import_mnemonic("abandon abandon").is_err());
    let m = import_mnemonic(
        " abandon abandon abandon abandon abandon abandon abandon abandon abandon abandon abandon about ",
    )
    .unwrap();
    // Test vector of BIP-39.
    assert_eq!(
        m.to_seed("TREZOR")[..8].to_vec(),
        vec![0xc5, 0x52, 0x57, 0xc3, 0x60, 0xc0, 0x7c, 0x72]
    );
    assert_eq!(seed_fingerprint_hex(&m, "TREZOR"), "c55257c360c07c72");
    assert_eq!(seed_fingerprint_hex(&m, ""), "5eb00bbddcf06908");
}

#[test]
fn directory_of_a_wallet() {
    let m = import_mnemonic(
        "abandon abandon abandon abandon abandon abandon abandon abandon abandon abandon abandon about",
    )
    .unwrap();
    struct Never;
    impl MintQuoteTransport for Never {
        fn request_mint_quote(
            &self,
            _mint_url: &str,
            _amount_sats: u64,
        ) -> Result<MintQuoteBolt11Response, String> {
            Err("never".to_string())
        }
    }
    let b = Nut04MintCashu::new(Some(" https://m/ ".to_string()), Never);
    assert_eq!(b.mint_url(), Some("https://m"));
    assert!(b.scoped_storage_for_seed(&m, "").ends_with("5eb00bbddcf06908"));
    assert_eq!(
        b.debug_text(),
        "Nut04MintCashu { mint_url: Some(\"https://m\"), mint_live: true, proofs_mint_live: false }"
    );
    assert_eq!(Nut04MintCashu::new(Some("m".to_string()), Never).mint_url(), None);
}

#[test]
fn clock_is_past_the_writing_of_this_test() {
    assert!(now_unix_secs() > 1_700_000_000);
    assert_eq!(unix_secs_from(None), 0);
    assert_eq!(unix_secs_from(Some(5)), 5);
    assert_eq!(unix_secs_from(Some(i64::MAX as u64)), i64::MAX);
    assert_eq!(unix_secs_from(Some(u64::MAX)), i64::MAX);
}

/// A mint whose quotes expire at a given time.
struct ExpiringMint {
    expiry: i64,
}

impl MintQuoteTransport for ExpiringMint {
    fn request_mint_quote(
        &self,
        _mint_url: &str,
        amount_sats: u64,
    ) -> Result<MintQuoteBolt11Response, String> {
        Ok(MintQuoteBolt11Response {
            quote_id: "q".into(),
            bolt11: "lnbc1x".into(),
            amount_sats: Some(amount_sats),
            unit: Some("sat".into()),
            expiry: Some(self.expiry),
            state: Some("UNPAID".into()),
        })
    }
}

#[test]
fn quotes_expire_by_the_clock() {
    let backend = |expiry: i64| {
        Nut04MintCashu::new(Some("https://mint.example".into()), ExpiringMint { expiry })
    };
    assert!(matches!(
        backend(1_700_000_000).request_mint_invoice(Some(5)).unwrap(),
        MintQuoteOutcome::Failed(_)
    ));
    assert!(matches!(
        backend(i64::MAX).request_mint_invoice(Some(5)).unwrap(),
        MintQuoteOutcome::Invoice { .. }
    ));
}
