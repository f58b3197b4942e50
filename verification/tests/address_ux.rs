//! Payment display.

use bitcoin_funding::address_ux::{
    bip21_uri, bolt11_payment_display, format_btc_from_sats, grid_ascii, mempool_address_url,
    mempool_base_url, mempool_txid_url, onchain_payment_display, qr_ascii, qr_matrix_lines,
    urlencoding_minimal, BitcoinNetwork, PaymentDisplay,
};

#[test]
fn bip21_address_only() {
    let u = bip21_uri("bc1qexample", None, None);
    assert_eq!(u, "bitcoin:bc1qexample");
}

#[test]
fn bip21_with_amount_and_label() {
    // 100_000 sats = 0.001 BTC
    let u = bip21_uri("bc1qabc", Some(100_000), Some("Grok OSS Routstr"));
    assert!(u.starts_with("bitcoin:bc1qabc?"));
    assert!(u.contains("amount=0.001"));
    assert!(u.contains("label=Grok%20OSS%20Routstr"));
}

#[test]
fn format_btc_from_sats_no_float() {
    assert_eq!(format_btc_from_sats(0), "0");
    assert_eq!(format_btc_from_sats(100_000_000), "1");
    assert_eq!(format_btc_from_sats(100_000), "0.001");
    assert_eq!(format_btc_from_sats(1), "0.00000001");
}

#[test]
fn onchain_display_uses_bip21_qr_when_amount() {
    let d = onchain_payment_display("bc1qabc", Some(1_000_000), Some("x"));
    assert!(d.qr_payload.contains("amount="));
    assert_eq!(d.clipboard, d.qr_payload);
}

#[test]
fn onchain_display_address_clipboard_without_amount() {
    let d = onchain_payment_display("bc1qabc", None, None);
    assert_eq!(d.text, "bc1qabc");
    assert_eq!(d.clipboard, "bc1qabc");
    assert_eq!(d.qr_payload, "bitcoin:bc1qabc");
}

#[test]
fn mempool_urls_mainnet() {
    assert_eq!(
        mempool_address_url(BitcoinNetwork::Mainnet, "bc1qxyz"),
        "https://mempool.space/address/bc1qxyz"
    );
    assert_eq!(
        mempool_txid_url(BitcoinNetwork::Mainnet, "abcd"),
        "https://mempool.space/tx/abcd"
    );
}

#[test]
fn mempool_urls_signet_testnet() {
    assert!(
        mempool_address_url(BitcoinNetwork::Signet, "tb1q")
            .starts_with("https://mempool.space/signet/address/")
    );
    assert!(mempool_txid_url(BitcoinNetwork::Testnet, "ff").contains("/testnet/tx/"));
}

#[test]
fn network_from_env_str() {
    assert_eq!(
        BitcoinNetwork::from_env_str("signet"),
        Some(BitcoinNetwork::Signet)
    );
    assert_eq!(BitcoinNetwork::from_env_str("nope"), None);
}

#[test]
fn qr_ascii_nonempty_for_address() {
    let q = qr_ascii("bc1qexamplepaymentaddress000000000000000").expect("qr");
    assert!(q.contains('#'));
    assert!(q.lines().count() > 10);
}

#[test]
fn payment_display_debug_omits_full_text() {
    let d = PaymentDisplay::new("lnbc1secretinvoicepayload");
    let s = d.debug_text();
    assert!(!s.contains("lnbc1secret"));
    assert!(s.contains("text_len"));
}

#[test]
fn whole_uri_with_amount_and_label() {
    assert_eq!(
        bip21_uri("bc1qabc", Some(100_000), Some("Grok OSS Routstr")),
        "bitcoin:bc1qabc?amount=0.001&label=Grok%20OSS%20Routstr"
    );
    assert_eq!(bip21_uri("bc1qabc", None, Some("a b")), "bitcoin:bc1qabc?label=a%20b");
    assert_eq!(bip21_uri("bc1qabc", Some(1), Some("")), "bitcoin:bc1qabc?amount=0.00000001");
}

#[test]
fn labels_are_encoded_byte_by_byte() {
    assert_eq!(urlencoding_minimal("Az09-_.~"), "Az09-_.~");
    assert_eq!(urlencoding_minimal("a&b=c?%/"), "a%26b%3Dc%3F%25%2F");
    assert_eq!(urlencoding_minimal("\u{e9}"), "%C3%A9");
}

#[test]
fn amounts_are_not_rounded() {
    assert_eq!(format_btc_from_sats(123_456_789), "1.23456789");
    assert_eq!(format_btc_from_sats(2_100_000_000_000_000), "21000000");
    assert_eq!(format_btc_from_sats(100_000_010), "1.0000001");
    assert_eq!(format_btc_from_sats(u64::MAX), "184467440737.09551615");
    for sats in [1u64, 99, 12_345, 100_000_001, 987_654_321_000] {
        let text = format_btc_from_sats(sats);
        let (whole, frac) = match text.split_once('.') {
            Some((w, f)) => (w.to_string(), f.to_string()),
            None => (text.clone(), String::new()),
        };
        let padded = format!("{whole}{frac:0<8}");
        assert_eq!(padded.parse::<u64>().unwrap(), sats);
    }
}

#[test]
fn network_names_are_read_back() {
    for n in [
        BitcoinNetwork::Mainnet,
        BitcoinNetwork::Signet,
        BitcoinNetwork::Testnet,
        BitcoinNetwork::Testnet4,
    ] {
        assert_eq!(BitcoinNetwork::from_env_str(n.as_str()), Some(n));
    }
    assert_eq!(BitcoinNetwork::from_env_str(" Main "), Some(BitcoinNetwork::Mainnet));
    assert_eq!(BitcoinNetwork::from_env_str("BITCOIN"), Some(BitcoinNetwork::Mainnet));
    assert_eq!(BitcoinNetwork::from_env_str("testnet3"), Some(BitcoinNetwork::Testnet));
    assert_eq!(BitcoinNetwork::default(), BitcoinNetwork::Mainnet);
    assert_eq!(mempool_base_url(BitcoinNetwork::Testnet4), "https://mempool.space/testnet4");
}

#[test]
fn invoice_is_shown_as_it_is() {
    let d = bolt11_payment_display("lnbc1x");
    assert_eq!((d.text.as_str(), d.qr_payload.as_str(), d.clipboard.as_str()), ("lnbc1x", "lnbc1x", "lnbc1x"));
    let d = PaymentDisplay::new("a").with_qr("bc").with_clipboard("def");
    assert_eq!(
        d.debug_text(),
        "PaymentDisplay { text_len: 1, qr_payload_len: 2, clipboard_len: 3 }"
    );
}

#[test]
fn grid_is_drawn_row_by_row() {
    assert_eq!(grid_ascii(2, &[true, false, false, true]), "# \n #\n");
    assert_eq!(grid_ascii(0, &[]), "");
}

#[test]
fn qr_code_has_the_size_of_its_version() {
    // Version 1 holds 14 bytes at the medium level.
    let grid = qr_ascii("bc1q").unwrap();
    let rows: Vec<&str> = grid.lines().collect();
    assert_eq!(rows.len(), 21);
    assert!(rows.iter().all(|r| r.chars().count() == 21));
    // The finder pattern in the corner.
    assert!(rows[0].starts_with("####### "));
    assert!(rows[1].starts_with("#     # "));
    let drawn = qr_matrix_lines("bc1q").unwrap();
    // Four light modules on each side, two rows per line.
    assert_eq!(drawn.len(), 15);
    assert!(drawn.iter().all(|l| l.chars().count() == 29));
}

#[test]
fn too_long_for_a_qr_code() {
    let long = "x".repeat(3000);
    assert_eq!(qr_ascii(&long).unwrap_err(), "data too long");
    assert_eq!(qr_matrix_lines(&long).unwrap_err(), "data too long");
}
