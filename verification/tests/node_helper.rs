//! The program that holds a Lightning node.

use std::marker::PhantomData;

use bitcoin_funding::network::Network;
use bitcoin_funding::node_helper::{
    bytes_to_hex, created, default_esplora_for_label, handle_pay, invoice_network_matches,
    is_residual_channel_cmd_error, parse_network, pay_next, pay_timed_out,
    pay_wait, plan, send_failed, zeroize_request_secrets, NodeStep, PayEvent, PayNext, Request,
    ResidualChannelCmd, Response, RESIDUAL_CONNECT_PEER_ERROR, RESIDUAL_OPEN_CHANNEL_ERROR,
};
use bitcoin_funding::path::is_absolute;

/// Reads a request by the fields of a JSON object.
fn read_request(text: &str) -> Result<Request, String> {
    let value: serde_json::Value = serde_json::from_str(text).map_err(|e| e.to_string())?;
    let fields = value.as_object().ok_or("no object")?;
    let text_of = |name: &str| match fields.get(name) {
        None | Some(serde_json::Value::Null) => Ok(None),
        Some(serde_json::Value::String(s)) => Ok(Some(s.clone())),
        Some(_) => Err(format!("{name} is no text")),
    };
    let number_of = |name: &str| match fields.get(name) {
        None | Some(serde_json::Value::Null) => Ok(None),
        Some(n) => n.as_u64().map(Some).ok_or(format!("{name} is no number")),
    };
    Ok(Request {
        v: u32::try_from(number_of("v")?.unwrap_or(1)).map_err(|e| e.to_string())?,
        cmd: text_of("cmd")?.ok_or("missing field `cmd`")?,
        invoice: text_of("invoice")?,
        mnemonic: text_of("mnemonic")?,
        passphrase: text_of("passphrase")?,
        network: text_of("network")?,
        storage_dir: text_of("storage_dir")?,
        esplora_url: text_of("esplora_url")?,
        timeout_secs: number_of("timeout_secs")?,
        amount_sats: number_of("amount_sats")?,
        description: text_of("description")?,
        expiry_secs: number_of("expiry_secs")?.map(|n| n as u32),
        peer_node_id: text_of("peer_node_id")?,
        peer_uri: text_of("peer_uri")?,
        capacity_sats: number_of("capacity_sats")?,
    })
}

fn parse_request(text: &str) -> Result<Request, String> {
    bitcoin_funding::node_helper::parse_request(text, read_request)
}

/// Tells by method lookup whether a type can be printed for a developer.
struct Printable<T>(PhantomData<T>);

impl<T> Printable<T> {
    fn new() -> Self {
        Printable(PhantomData)
    }
}

trait NotDebug {
    fn is_debug(&self) -> bool {
        false
    }
}

impl<T> NotDebug for &Printable<T> {}

impl<T: std::fmt::Debug> Printable<T> {
    fn is_debug(&self) -> bool {
        true
    }
}

#[test]
fn protocol_ping_shape() {
    let s = Response::ok_ping().to_json();
    assert!(s.contains("\"ok\":true"));
    assert!(s.contains("ldk_node_linked"));
    assert!(!s.contains("mnemonic"));
}

#[test]
fn protocol_invoice_create_shape() {
    let s = Response::ok_invoice("lnbc1testinvoice".into()).to_json();
    assert!(s.contains("\"ok\":true"));
    assert!(s.contains("lnbc1testinvoice"));
    assert!(s.contains("bolt11"));
    assert!(!s.contains("preimage"));
    assert!(!s.contains("mnemonic"));
}

#[test]
fn create_invoice_request_deserializes_optional_amount() {
    let with_amt = parse_request(
        r#"{"v":1,"cmd":"create_bolt11_invoice","amount_sats":1000,"mnemonic":"x","storage_dir":"/tmp/x"}"#,
    )
    .unwrap();
    assert_eq!(with_amt.cmd, "create_bolt11_invoice");
    assert_eq!(with_amt.amount_sats, Some(1000));
    let zero_amt = parse_request(
        r#"{"v":1,"cmd":"create_bolt11_invoice","mnemonic":"x","storage_dir":"/tmp/x"}"#,
    )
    .unwrap();
    assert_eq!(zero_amt.amount_sats, None);
    // Request must not implement Debug (secrets).
    let _ = with_amt.cmd;
}

#[test]
fn parse_networks() {
    assert!(parse_network("mainnet").is_ok());
    assert!(parse_network("signet").is_ok());
    assert!(parse_network("regtest").is_ok());
    assert!(matches!(parse_network("testnet4"), Ok(Network::Testnet4)));
    assert!(parse_network("nope").is_err());
}

#[test]
fn invoice_network_match_testnet_family() {
    assert!(invoice_network_matches(Network::Testnet, Network::Testnet));
    assert!(invoice_network_matches(Network::Testnet4, Network::Testnet));
    assert!(invoice_network_matches(Network::Testnet, Network::Testnet4));
    assert!(!invoice_network_matches(Network::Bitcoin, Network::Testnet));
    assert!(!invoice_network_matches(Network::Signet, Network::Bitcoin));
}

#[test]
fn hex_encode_round_trip_len() {
    let h = bytes_to_hex(&[0xab, 0xcd]);
    assert_eq!(h, "abcd");
}

#[test]
fn request_has_no_debug_impl() {
    assert!(!(&Printable::<Request>::new()).is_debug());
    assert!((&Printable::<Response>::new()).is_debug());
    let _ = std::mem::size_of::<Request>();
}

#[test]
fn absolute_storage_required_docs() {
    // Relative paths must be rejected by handle_pay (exercised via product
    // parent always sending absolute scoped dirs).
    assert!(!is_absolute("grok-bitcoin-ldk"));
    assert!(is_absolute("/tmp/grok-bitcoin-ldk"));
}

#[test]
fn residual_open_channel_response_shape() {
    let resp = Response::err(RESIDUAL_OPEN_CHANNEL_ERROR);
    assert!(!resp.ok);
    let s = resp.to_json();
    assert!(s.contains("\"ok\":false"));
    assert!(s.contains("residual:"));
    assert!(s.contains("open_channel"));
    assert!(!s.contains("\"ok\":true"));
    // Live pay/invoice fields stay absent (error text may mention channel_id deny).
    assert!(resp.preimage_hex.is_none());
    assert!(resp.payment_id_hex.is_none());
    assert!(resp.bolt11.is_none());
    assert!(!s.contains("preimage_hex"));
    assert!(!s.contains("mnemonic"));
    assert!(is_residual_channel_cmd_error(RESIDUAL_OPEN_CHANNEL_ERROR));
}

#[test]
fn residual_connect_peer_response_shape() {
    let resp = Response::err(RESIDUAL_CONNECT_PEER_ERROR);
    assert!(!resp.ok);
    let s = resp.to_json();
    assert!(s.contains("\"ok\":false"));
    assert!(s.contains("residual:"));
    assert!(s.contains("connect_peer"));
    assert!(!s.contains("\"ok\":true"));
    assert!(resp.preimage_hex.is_none());
    assert!(resp.bolt11.is_none());
    assert!(is_residual_channel_cmd_error(RESIDUAL_CONNECT_PEER_ERROR));
}

#[test]
fn residual_error_distinct_from_unknown_cmd() {
    let residual_open = RESIDUAL_OPEN_CHANNEL_ERROR;
    let residual_connect = RESIDUAL_CONNECT_PEER_ERROR;
    let unknown = "unknown cmd: open_chanel";
    assert!(is_residual_channel_cmd_error(residual_open));
    assert!(is_residual_channel_cmd_error(residual_connect));
    assert!(
        !is_residual_channel_cmd_error(unknown),
        "typo unknown cmd must not classify as residual"
    );
    assert!(!is_residual_channel_cmd_error(
        "bolt11 send failed: no route"
    ));
    // Residual copy is refuse language (may mention channel_id/Success to deny them).
    assert!(residual_open.starts_with("residual:"));
    assert!(residual_connect.starts_with("residual:"));
    assert!(residual_open.to_ascii_lowercase().contains("never invents"));
    assert!(residual_connect
        .to_ascii_lowercase()
        .contains("never invents"));
    assert!(!residual_open.contains("\"ok\":true"));
}

#[test]
fn residual_channel_cmds_deserialize_shape_fields() {
    let open = parse_request(
        r#"{"v":1,"cmd":"open_channel","peer_node_id":"02abc","capacity_sats":100000,"mnemonic":"x","storage_dir":"/tmp/x"}"#,
    )
    .unwrap();
    assert_eq!(open.cmd, "open_channel");
    assert_eq!(open.peer_node_id.as_deref(), Some("02abc"));
    assert_eq!(open.capacity_sats, Some(100_000));
    let connect = parse_request(
        r#"{"v":1,"cmd":"connect_peer","peer_uri":"02abc@host:9735","mnemonic":"x","storage_dir":"/tmp/x"}"#,
    )
    .unwrap();
    assert_eq!(connect.cmd, "connect_peer");
    assert_eq!(connect.peer_uri.as_deref(), Some("02abc@host:9735"));
    // Residual handlers use distinct error text (not unknown cmd).
    assert_eq!(
        ResidualChannelCmd::OpenChannel.error_text(),
        RESIDUAL_OPEN_CHANNEL_ERROR
    );
    assert_eq!(
        ResidualChannelCmd::ConnectPeer.error_text(),
        RESIDUAL_CONNECT_PEER_ERROR
    );
}

#[test]
fn residual_handlers_emit_ok_false_never_channel_id() {
    // Pure classification of residual Response (no ldk-node open/connect call).
    for cmd in [
        ResidualChannelCmd::OpenChannel,
        ResidualChannelCmd::ConnectPeer,
    ] {
        let resp = Response::err(cmd.error_text());
        assert!(!resp.ok);
        assert!(resp.error.is_some());
        assert!(resp.preimage_hex.is_none());
        assert!(resp.payment_id_hex.is_none());
        assert!(resp.bolt11.is_none());
        // No success payload fields — only v/ok/error (error may mention channel_id deny).
        let json = resp.to_json();
        assert!(!json.contains("\"ok\":true"));
        assert!(!json.contains("preimage_hex"));
        assert!(!json.contains("\"bolt11\""));
        assert!(json.contains("\"ok\":false"));
        assert!(is_residual_channel_cmd_error(
            resp.error.as_deref().unwrap()
        ));
    }
}

const WORDS: &str = "abandon abandon abandon abandon abandon abandon abandon abandon abandon abandon abandon about";
const MAINNET_INVOICE: &str = "lnbc1pvjluezsp5zyg3zyg3zyg3zyg3zyg3zyg3zyg3zyg3zyg3zyg3zyg3zyg3zygspp5qqqsyqcyq5rqwzqfqqqsyqcyq5rqwzqfqqqsyqcyq5rqwzqfqypqdpl2pkx2ctnv5sxxmmwwd5kgetjypeh2ursdae8g6twvus8g6rfwvs8qun0dfjkxaq9qrsgq357wnc5r2ueh7ck6q93dj32dlqnls087fxdwk8qakdyafkq3yap9us6v52vjjsrvywa6rt52cm9r9zqt8r2t7mlcwspyetp5h2tztugp9lfyql";
const TESTNET_INVOICE: &str = "lntb20m1pvjluezsp5zyg3zyg3zyg3zyg3zyg3zyg3zyg3zyg3zyg3zyg3zyg3zyg3zygshp58yjmdan79s6qqdhdzgynm4zwqd5d7xmw5fk98klysy043l2ahrqspp5qqqsyqcyq5rqwzqfqqqsyqcyq5rqwzqfqqqsyqcyq5rqwzqfqypqfpp3x9et2e20v6pu37c5d9vax37wxq72un989qrsgqdj545axuxtnfemtpwkc45hx9d2ft7x04mt8q7y6t0k2dge9e7h8kpy9p34ytyslj3yu569aalz2xdk8xkd7ltxqld94u8h2esmsmacgpghe9k8";

fn request(cmd: &str, rest: &str) -> Request {
    let text = format!(
        "{{\"v\":1,\"cmd\":\"{cmd}\",\"mnemonic\":\"{WORDS}\",\"storage_dir\":\"/s\"{rest}}}"
    );
    match parse_request(&text) {
        Ok(r) => r,
        Err(e) => panic!("{e}"),
    }
}

fn refusal(step: NodeStep) -> String {
    match step {
        NodeStep::Reply(r) => {
            assert!(!r.ok);
            assert_eq!(r.exit_code(), 1);
            r.error.unwrap()
        }
        _ => panic!("expected a reply"),
    }
}

#[test]
fn replies_as_json() {
    assert_eq!(Response::ok_ping().exit_code(), 0);
    assert_eq!(
        Response::err("a \"b\"").to_json(),
        r#"{"v":1,"ok":false,"error":"a \"b\""}"#
    );
    assert_eq!(
        Response::ok_invoice("lnbc1x".to_string()).to_json(),
        r#"{"v":1,"ok":true,"bolt11":"lnbc1x"}"#
    );
    assert_eq!(
        Response::ok_pay("ab".to_string(), Some("cd".to_string())).to_json(),
        r#"{"v":1,"ok":true,"preimage_hex":"ab","payment_id_hex":"cd"}"#
    );
}

#[test]
fn requests_that_are_none() {
    let refused = bitcoin_funding::node_helper::parse_request(" \t x y\n", |text: &str| {
        assert_eq!(text, "x y");
        Err("expected value at line 1 column 1".to_string())
    });
    assert_eq!(
        refused.err().unwrap(),
        "invalid JSON request: expected value at line 1 column 1"
    );
    assert!(parse_request("{").err().unwrap().starts_with("invalid JSON request: "));
    assert!(parse_request("{\"v\":1}").is_err());
    assert_eq!(parse_request(" {\"cmd\":\"ping\"} ").ok().unwrap().v, 1);
}

#[test]
fn wiped_request() {
    let mut r = request("ping", ",\"passphrase\":\"x\"");
    zeroize_request_secrets(&mut r);
    assert_eq!(r.mnemonic.as_deref(), Some(""));
    assert_eq!(r.passphrase.as_deref(), Some(""));
    assert_eq!(r.storage_dir.as_deref(), Some("/s"));
}

#[test]
fn commands_and_versions() {
    match plan(&request("ping", "")) {
        NodeStep::Reply(r) => assert!(r.ok),
        _ => panic!("expected a reply"),
    }
    assert_eq!(refusal(plan(&request("open_chanel", ""))), "unknown cmd: open_chanel");
    assert_eq!(refusal(plan(&request("open_channel", ""))), RESIDUAL_OPEN_CHANNEL_ERROR);
    assert_eq!(refusal(plan(&request("connect_peer", ""))), RESIDUAL_CONNECT_PEER_ERROR);
    let mut r = request("ping", "");
    r.v = 2;
    assert_eq!(refusal(plan(&r)), "unsupported protocol v=2 (want 1)");
}

#[test]
fn payment_of_an_invoice() {
    let pay = |rest: &str| plan(&request("pay_bolt11", rest));
    match pay(&format!(",\"invoice\":\" {MAINNET_INVOICE} \",\"timeout_secs\":0")) {
        NodeStep::Pay { invoice, start } => {
            assert_eq!(invoice, MAINNET_INVOICE);
            assert_eq!(start.words, WORDS);
            assert!(start.passphrase.is_none());
            assert_eq!(start.network, Network::Bitcoin);
            assert_eq!(start.storage_dir, "/s");
            assert_eq!(start.esplora_url, "https://blockstream.info/api");
            assert_eq!(start.timeout_secs, 1);
        }
        _ => panic!("expected a payment"),
    }
    match pay(&format!(",\"invoice\":\"{TESTNET_INVOICE}\",\"network\":\"TESTNET4\"")) {
        NodeStep::Pay { start, .. } => {
            assert_eq!(start.network, Network::Testnet4);
            assert_eq!(start.esplora_url, "https://blockstream.info/testnet/api");
            assert_eq!(start.timeout_secs, 120);
        }
        _ => panic!("expected a payment"),
    }
    assert_eq!(
        refusal(pay(&format!(",\"invoice\":\"{TESTNET_INVOICE}\""))),
        "invoice network mismatch: node=mainnet (Bitcoin), invoice=Testnet"
    );
    assert_eq!(refusal(pay("")), "empty invoice");
    assert!(refusal(pay(",\"invoice\":\"lnbc1x\"")).starts_with("invalid bolt11 invoice: "));
    assert!(refusal(pay(&format!(",\"invoice\":\"{MAINNET_INVOICE}\",\"network\":\"moon\""))).contains("moon"));
}

#[test]
fn what_a_node_needs() {
    let invoice = format!("\"invoice\":\"{MAINNET_INVOICE}\"");
    let why = |rest: &str| {
        refusal(plan(
            &parse_request(&format!("{{\"v\":1,\"cmd\":\"pay_bolt11\",{invoice}{rest}}}")).ok().unwrap(),
        ))
    };
    assert_eq!(why(""), "missing mnemonic");
    assert_eq!(
        why(",\"mnemonic\":\"x\""),
        "storage_dir required (absolute path; parent scopes per-seed under grok home)"
    );
    assert_eq!(
        why(",\"mnemonic\":\"x\",\"storage_dir\":\"s\""),
        "storage_dir must be absolute (got relative: s)"
    );
    assert!(why(",\"mnemonic\":\"x\",\"storage_dir\":\"/s\"").starts_with("invalid mnemonic: "));
}

#[test]
fn payment_by_what_was_said_of_it() {
    let r = request("pay_bolt11", ",\"invoice\":\"anything\"");
    assert_eq!(
        refusal(handle_pay(&r, &Err("no".to_string()), &Ok(()), true)),
        "invalid bolt11 invoice: no"
    );
    assert_eq!(
        refusal(handle_pay(&r, &Ok(Network::Bitcoin), &Err("bad words".to_string()), true)),
        "invalid mnemonic: bad words"
    );
    assert!(refusal(handle_pay(&r, &Ok(Network::Bitcoin), &Ok(()), false))
        .starts_with("storage_dir must be absolute (got relative: "));
    match handle_pay(&r, &Ok(Network::Bitcoin), &Ok(()), true) {
        NodeStep::Pay { invoice, .. } => assert_eq!(invoice, "anything"),
        _ => panic!("expected a payment"),
    }
}

#[test]
fn invoice_to_write() {
    let create = |rest: &str| plan(&request("create_bolt11_invoice", rest));
    match create(",\"amount_sats\":21,\"expiry_secs\":1") {
        NodeStep::Receive { amount_msat, description, expiry_secs, .. } => {
            assert_eq!(amount_msat, Some(21_000));
            assert_eq!(description, "grok-bitcoin-ldk-node receive");
            assert_eq!(expiry_secs, 60);
        }
        _ => panic!("expected an invoice"),
    }
    match create(",\"description\":\"tea\"") {
        NodeStep::Receive { amount_msat, description, expiry_secs, .. } => {
            assert_eq!(amount_msat, None);
            assert_eq!(description, "tea");
            assert_eq!(expiry_secs, 3600);
        }
        _ => panic!("expected an invoice"),
    }
    assert_eq!(
        refusal(create(",\"amount_sats\":0")),
        "amount_sats must be > 0 when set (omit for zero-amount invoice)"
    );
    assert_eq!(
        refusal(create(",\"amount_sats\":2100000000000001")),
        "amount_sats exceeds maximum"
    );
    let fits = "x".repeat(639);
    match create(&format!(",\"description\":\"{fits}\"")) {
        NodeStep::Receive { description, .. } => assert_eq!(description, fits),
        _ => panic!("expected an invoice"),
    }
    assert_eq!(
        refusal(create(&format!(",\"description\":\"{fits}x\""))),
        "invalid invoice description: The supplied description string was longer than 639 bytes"
    );
}

#[test]
fn invoice_that_was_written() {
    assert_eq!(
        created(Ok("LNBC1x".to_string())),
        Response::ok_invoice("LNBC1x".to_string())
    );
    assert_eq!(
        created(Ok("  ".to_string())).error.as_deref(),
        Some("ldk-node returned empty bolt11 (cannot claim Created)")
    );
    assert_eq!(
        created(Ok("lnurl1x".to_string())).error.as_deref(),
        Some("ldk-node returned non-bolt11 string (cannot claim Created)")
    );
    assert!(created(Err("no".to_string()))
        .error
        .unwrap()
        .starts_with("bolt11 receive invoice failed: no (node may lack"));
}

#[test]
fn events_of_a_payment() {
    let id = vec![0xab_u8; 2];
    let other = vec![0xcd_u8; 2];
    let done = |event: PayEvent| match pay_next(&event, &id) {
        PayNext::Done(r) => r,
        _ => panic!("expected the end"),
    };
    assert_eq!(
        done(PayEvent::Successful { payment_id: None, preimage: Some(vec![1]) }),
        Response::ok_pay("01".to_string(), Some("abab".to_string()))
    );
    assert_eq!(
        done(PayEvent::Successful { payment_id: Some(id.clone()), preimage: None }).error.as_deref(),
        Some("payment settled without preimage (payment_id=abab); cannot claim Success")
    );
    assert_eq!(
        done(PayEvent::Failed { failed_id: Some(id.clone()), reason: None }).error.as_deref(),
        Some("payment failed: unknown (payment_id=abab)")
    );
    assert!(matches!(
        pay_next(
            &PayEvent::Successful { payment_id: Some(other.clone()), preimage: Some(vec![1]) },
            &id
        ),
        PayNext::Again
    ));
    assert!(matches!(
        pay_next(&PayEvent::Failed { failed_id: Some(other), reason: None }, &id),
        PayNext::Again
    ));
    assert!(matches!(pay_next(&PayEvent::Other, &id), PayNext::Again));
    assert!(matches!(pay_next(&PayEvent::Nothing, &id), PayNext::Wait));
    assert_eq!(
        pay_wait(true, 7, &id).unwrap().error.as_deref(),
        Some("timeout after 7s waiting for payment settlement (payment_id=abab)")
    );
    assert_eq!(pay_wait(true, 7, &id), Some(pay_timed_out(7, &id)));
    assert!(pay_wait(false, 7, &id).is_none());
    assert!(send_failed("no route").error.unwrap().starts_with("bolt11 send failed: no route (outbound"));
}

#[test]
fn networks_by_name() {
    assert_eq!(parse_network("bitcoin"), Ok(Network::Bitcoin));
    assert_eq!(parse_network("testnet"), Ok(Network::Testnet));
    assert_eq!(default_esplora_for_label("signet"), "https://mempool.space/signet/api");
    assert_eq!(default_esplora_for_label("regtest"), "http://127.0.0.1:3002");
    assert_eq!(default_esplora_for_label("testnet3"), "https://blockstream.info/testnet/api");
}
