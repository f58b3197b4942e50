//! Choice of the chain backend.

use std::collections::HashMap;

use bitcoin_funding::address_ux::BitcoinNetwork;
use bitcoin_funding::chain_select::{
    broadcast_backend_notice_lines, non_mempool_broadcast_notice_lines, normalize_electrum_addr,
    open_product_chain_source, open_product_chain_source_from_env_reader,
    open_product_tx_broadcaster, open_product_tx_broadcaster_from_env_reader,
    parse_chain_source_kind, parse_electrum_tls_flag, product_chain_source_config,
    product_chain_source_config_from_env_reader, product_chain_source_config_with_electrum_tls,
    validate_electrum_host_port, validate_esplora_base_url,
    validated_electrum_endpoint_from_config, validated_esplora_url_from_config, ChainBackend,
    ChainSourceKind, CompiledBackends, ProductChainSourceConfig, CHAIN_SOURCE_ENV,
    ELECTRUM_ADDR_ENV, ELECTRUM_TLS_ENV, ESPLORA_URL_ENV,
};
use bitcoin_funding::error::WalletError;
use bitcoin_funding::network::{bitcoin_network_for_electrum, Network};

fn nothing_built() -> CompiledBackends {
    CompiledBackends { explorer_http: false, esplora: false, electrum: false }
}

fn everything_built() -> CompiledBackends {
    CompiledBackends { explorer_http: true, esplora: true, electrum: true }
}

#[test]
fn parse_kind_empty_and_default_mempool() {
    assert_eq!(
        parse_chain_source_kind("").unwrap(),
        ChainSourceKind::Mempool
    );
    assert_eq!(
        parse_chain_source_kind("   ").unwrap(),
        ChainSourceKind::Mempool
    );
    assert_eq!(
        parse_chain_source_kind("mempool").unwrap(),
        ChainSourceKind::Mempool
    );
    assert_eq!(
        parse_chain_source_kind("MEMPOOL").unwrap(),
        ChainSourceKind::Mempool
    );
}

#[test]
fn parse_kind_esplora_electrum_case_insensitive() {
    assert_eq!(
        parse_chain_source_kind("Esplora").unwrap(),
        ChainSourceKind::Esplora
    );
    assert_eq!(
        parse_chain_source_kind("ELECTRUM").unwrap(),
        ChainSourceKind::Electrum
    );
    assert_eq!(ChainSourceKind::Esplora.as_str(), "esplora");
    assert_eq!(ChainSourceKind::Electrum.as_str(), "electrum");
}

#[test]
fn parse_kind_unknown_errors() {
    let err = parse_chain_source_kind("blockstream")
        .unwrap_err()
        .to_string();
    assert!(
        err.contains("unknown") && err.contains(CHAIN_SOURCE_ENV),
        "err={err}"
    );
    assert!(err.contains("mempool") && err.contains("esplora") && err.contains("electrum"));
}

#[test]
fn config_default_none_is_mempool() {
    let cfg = product_chain_source_config(None, None, None).unwrap();
    assert_eq!(cfg, ProductChainSourceConfig::mempool());
    assert_eq!(cfg.kind, ChainSourceKind::Mempool);
    assert!(cfg.esplora_url.is_none());
    assert!(cfg.electrum_addr.is_none());
}

#[test]
fn config_empty_kind_string_is_mempool() {
    let cfg =
        product_chain_source_config(Some(""), Some("https://ignored"), Some("x:1")).unwrap();
    assert_eq!(cfg.kind, ChainSourceKind::Mempool);
    // Extra env for other backends is ignored when kind is mempool.
    assert!(cfg.esplora_url.is_none());
    assert!(cfg.electrum_addr.is_none());
}

#[test]
fn config_esplora_requires_url() {
    let err = product_chain_source_config(Some("esplora"), None, None)
        .unwrap_err()
        .to_string();
    assert!(
        err.contains("esplora") && err.contains(ESPLORA_URL_ENV),
        "err={err}"
    );

    let err_empty = product_chain_source_config(Some("esplora"), Some("  "), None)
        .unwrap_err()
        .to_string();
    assert!(err_empty.contains(ESPLORA_URL_ENV), "err={err_empty}");
}

#[test]
fn config_esplora_accepts_url() {
    let cfg = product_chain_source_config(
        Some("esplora"),
        Some(" https://blockstream.info/api "),
        None,
    )
    .unwrap();
    assert_eq!(cfg.kind, ChainSourceKind::Esplora);
    assert_eq!(
        cfg.esplora_url.as_deref(),
        Some("https://blockstream.info/api")
    );
    assert!(cfg.electrum_addr.is_none());

    let http =
        product_chain_source_config(Some("esplora"), Some("http://127.0.0.1:3000"), None)
            .unwrap();
    assert_eq!(http.esplora_url.as_deref(), Some("http://127.0.0.1:3000"));
}

#[test]
fn config_esplora_rejects_non_http_scheme() {
    for bad in [
        "htps://blockstream.info/api",
        "blockstream.info/api",
        "ftp://example.com/api",
        "https://",
        "http://",
    ] {
        let err = product_chain_source_config(Some("esplora"), Some(bad), None)
            .unwrap_err()
            .to_string();
        assert!(
            err.contains(ESPLORA_URL_ENV) && err.contains("http"),
            "bad={bad:?} err={err}"
        );
    }
}

#[test]
fn config_electrum_requires_addr() {
    let err = product_chain_source_config(Some("electrum"), None, None)
        .unwrap_err()
        .to_string();
    assert!(
        err.contains("electrum") && err.contains(ELECTRUM_ADDR_ENV),
        "err={err}"
    );

    let err_empty = product_chain_source_config(Some("electrum"), None, Some(""))
        .unwrap_err()
        .to_string();
    assert!(err_empty.contains(ELECTRUM_ADDR_ENV), "err={err_empty}");
}

#[test]
fn config_electrum_rejects_bad_host_port_shape() {
    for bad in [
        "nosuchport",
        ":50001",
        "127.0.0.1:",
        "  ",
        "tcp://host:50001",
        "https://host:50001",
        "ssl://",
        "host:port:extra",
        "127.0.0.1:0",
        "127.0.0.1:abc",
        "[]:50001",
        "[::1]",
        "[::1]:",
    ] {
        let err = product_chain_source_config(Some("electrum"), None, Some(bad))
            .unwrap_err()
            .to_string();
        assert!(
            err.contains(ELECTRUM_ADDR_ENV) || err.contains("electrum"),
            "bad={bad:?} err={err}"
        );
    }
    // Non-ssl schemes must stay rejected (no silent plaintext for tcp://).
    let tcp_err =
        product_chain_source_config(Some("electrum"), None, Some("tcp://127.0.0.1:50001"))
            .unwrap_err()
            .to_string();
    assert!(
        tcp_err.contains("unsupported") || tcp_err.contains("scheme"),
        "tcp_err={tcp_err}"
    );
}

#[test]
fn config_electrum_accepts_host_port() {
    let cfg =
        product_chain_source_config(Some("electrum"), None, Some(" 127.0.0.1:50001 ")).unwrap();
    assert_eq!(cfg.kind, ChainSourceKind::Electrum);
    assert_eq!(cfg.electrum_addr.as_deref(), Some("127.0.0.1:50001"));
    assert!(!cfg.electrum_tls, "bare host:port defaults to plaintext");
    assert!(cfg.esplora_url.is_none());

    let v6 = product_chain_source_config(Some("electrum"), None, Some("[::1]:50001")).unwrap();
    assert_eq!(v6.electrum_addr.as_deref(), Some("[::1]:50001"));
    assert!(!v6.electrum_tls);
}

#[test]
fn config_electrum_ssl_scheme_forces_tls_and_strips() {
    let cfg = product_chain_source_config(
        Some("electrum"),
        None,
        Some("ssl://electrum.example:50002"),
    )
    .unwrap();
    assert_eq!(cfg.electrum_addr.as_deref(), Some("electrum.example:50002"));
    assert!(cfg.electrum_tls, "ssl:// must force TLS");

    let upper =
        product_chain_source_config(Some("electrum"), None, Some("SSL://127.0.0.1:50002"))
            .unwrap();
    assert_eq!(upper.electrum_addr.as_deref(), Some("127.0.0.1:50002"));
    assert!(upper.electrum_tls);

    // Flag alone enables TLS for bare host:port.
    let flagged = product_chain_source_config_with_electrum_tls(
        Some("electrum"),
        None,
        Some("fulcrum.example:50002"),
        true,
    )
    .unwrap();
    assert_eq!(
        flagged.electrum_addr.as_deref(),
        Some("fulcrum.example:50002")
    );
    assert!(flagged.electrum_tls);

    // Flag false + bare host → plaintext.
    let plain = product_chain_source_config_with_electrum_tls(
        Some("electrum"),
        None,
        Some("127.0.0.1:50001"),
        false,
    )
    .unwrap();
    assert!(!plain.electrum_tls);
}

#[test]
fn parse_electrum_tls_flag_truthy_and_falsey() {
    assert!(!parse_electrum_tls_flag(None));
    assert!(!parse_electrum_tls_flag(Some("")));
    assert!(!parse_electrum_tls_flag(Some("  ")));
    assert!(!parse_electrum_tls_flag(Some("0")));
    assert!(!parse_electrum_tls_flag(Some("false")));
    assert!(!parse_electrum_tls_flag(Some("no")));
    assert!(!parse_electrum_tls_flag(Some("maybe")));
    assert!(parse_electrum_tls_flag(Some("1")));
    assert!(parse_electrum_tls_flag(Some("true")));
    assert!(parse_electrum_tls_flag(Some("YES")));
    assert!(parse_electrum_tls_flag(Some(" True ")));
}

#[test]
fn env_reader_electrum_tls_flag_and_ssl_scheme() {
    let cfg = product_chain_source_config_from_env_reader(|k| match k {
        CHAIN_SOURCE_ENV => Some("electrum".into()),
        ELECTRUM_ADDR_ENV => Some("electrum.example:50002".into()),
        ELECTRUM_TLS_ENV => Some("yes".into()),
        _ => None,
    })
    .unwrap();
    assert!(cfg.electrum_tls);
    assert_eq!(cfg.electrum_addr.as_deref(), Some("electrum.example:50002"));

    let ssl_cfg = product_chain_source_config_from_env_reader(|k| match k {
        CHAIN_SOURCE_ENV => Some("electrum".into()),
        ELECTRUM_ADDR_ENV => Some("ssl://electrum.example:50002".into()),
        // Flag off must not cancel ssl://.
        ELECTRUM_TLS_ENV => Some("0".into()),
        _ => None,
    })
    .unwrap();
    assert!(ssl_cfg.electrum_tls);
    assert_eq!(
        ssl_cfg.electrum_addr.as_deref(),
        Some("electrum.example:50002")
    );

    let plain = product_chain_source_config_from_env_reader(|k| match k {
        CHAIN_SOURCE_ENV => Some("electrum".into()),
        ELECTRUM_ADDR_ENV => Some("127.0.0.1:50001".into()),
        _ => None,
    })
    .unwrap();
    assert!(!plain.electrum_tls);
}

#[test]
fn normalize_electrum_addr_ssl_and_bare() {
    let (hp, tls) = normalize_electrum_addr("ssl://h.example:50002").unwrap();
    assert_eq!(hp, "h.example:50002");
    assert!(tls);
    let (hp2, tls2) = normalize_electrum_addr("127.0.0.1:50001").unwrap();
    assert_eq!(hp2, "127.0.0.1:50001");
    assert!(!tls2);
    assert!(normalize_electrum_addr("tcp://x:1").is_err());
    assert!(normalize_electrum_addr("ssl://").is_err());
}

#[test]
fn normalize_electrum_addr_ssl_bracketed_ipv6() {
    // Product IPv6 + TLS shape: ssl://[::1]:port → stripped host:port + tls.
    let (hp, tls) = normalize_electrum_addr("ssl://[::1]:50002").unwrap();
    assert_eq!(hp, "[::1]:50002");
    assert!(tls);
    let cfg =
        product_chain_source_config(Some("electrum"), None, Some("ssl://[2001:db8::1]:50002"))
            .unwrap();
    assert_eq!(cfg.electrum_addr.as_deref(), Some("[2001:db8::1]:50002"));
    assert!(cfg.electrum_tls);
    let bare_v6 =
        product_chain_source_config(Some("electrum"), None, Some("[::1]:50001")).unwrap();
    assert_eq!(bare_v6.electrum_addr.as_deref(), Some("[::1]:50001"));
    assert!(!bare_v6.electrum_tls);
}

#[test]
fn broadcast_backend_notice_empty_when_kinds_match() {
    assert!(
        broadcast_backend_notice_lines(ChainSourceKind::Mempool, ChainSourceKind::Mempool)
            .is_empty()
    );
    assert!(
        broadcast_backend_notice_lines(ChainSourceKind::Esplora, ChainSourceKind::Esplora)
            .is_empty()
    );
    assert!(
        broadcast_backend_notice_lines(ChainSourceKind::Electrum, ChainSourceKind::Electrum)
            .is_empty()
    );
}

#[test]
fn broadcast_backend_notice_when_kinds_diverge() {
    let e = broadcast_backend_notice_lines(ChainSourceKind::Esplora, ChainSourceKind::Mempool);
    assert_eq!(e.len(), 1);
    assert!(e[0].contains("esplora") && e[0].contains("mempool"));
    assert!(!e[0].to_ascii_lowercase().contains("broadcast accepted"));
    let el =
        broadcast_backend_notice_lines(ChainSourceKind::Electrum, ChainSourceKind::Mempool);
    assert!(el[0].contains("electrum") && el[0].contains("mempool"));
}

#[test]
fn non_mempool_broadcast_notice_always_empty_after_aligned_push() {
    // Deprecated helper must not emit a false "mempool push gap" notice:
    // product UTXO + push are aligned.
    assert!(non_mempool_broadcast_notice_lines(ChainSourceKind::Mempool).is_empty());
    assert!(non_mempool_broadcast_notice_lines(ChainSourceKind::Esplora).is_empty());
    assert!(non_mempool_broadcast_notice_lines(ChainSourceKind::Electrum).is_empty());
    // Real divergence still documented via the two-arg helper.
    let diverge =
        broadcast_backend_notice_lines(ChainSourceKind::Esplora, ChainSourceKind::Mempool);
    assert_eq!(diverge.len(), 1);
    assert!(diverge[0].contains("esplora") && diverge[0].contains("mempool"));
}

#[test]
fn open_rejects_hand_built_bad_esplora_url_before_feature_or_network() {
    // Public fields allow hand-built configs; open must re-validate shape.
    let bad = ProductChainSourceConfig {
        kind: ChainSourceKind::Esplora,
        esplora_url: Some("ssl://not-http.example/api".into()),
        electrum_addr: None,
        electrum_tls: false,
    };
    let chain_err =
        open_as_err_string(open_product_chain_source(&bad, BitcoinNetwork::Mainnet, nothing_built()))
            .expect_err("hand-built bad esplora URL must fail at open");
    assert!(
        chain_err.contains(ESPLORA_URL_ENV) || chain_err.contains("http"),
        "chain_err={chain_err}"
    );
    assert!(
        !chain_err.to_ascii_lowercase().contains("timeout"),
        "{chain_err}"
    );

    let bc_err =
        open_as_err_string(open_product_tx_broadcaster(&bad, BitcoinNetwork::Mainnet, nothing_built()))
            .expect_err("hand-built bad esplora URL must fail at broadcaster open");
    assert!(
        bc_err.contains(ESPLORA_URL_ENV) || bc_err.contains("http"),
        "bc_err={bc_err}"
    );
}

#[test]
fn open_rejects_hand_built_tcp_scheme_electrum_addr() {
    // tcp:// is not a real transport selector — must fail (not silent plaintext).
    let bad = ProductChainSourceConfig {
        kind: ChainSourceKind::Electrum,
        esplora_url: None,
        electrum_addr: Some("tcp://127.0.0.1:50001".into()),
        electrum_tls: false,
    };
    let chain_err =
        open_as_err_string(open_product_chain_source(&bad, BitcoinNetwork::Mainnet, nothing_built()))
            .expect_err("tcp:// must fail shape gate at open");
    assert!(
        chain_err.contains("scheme")
            || chain_err.contains("unsupported")
            || chain_err.contains(ELECTRUM_ADDR_ENV),
        "chain_err={chain_err}"
    );
    assert!(
        !chain_err.to_ascii_lowercase().contains("timeout"),
        "{chain_err}"
    );

    let bc_err =
        open_as_err_string(open_product_tx_broadcaster(&bad, BitcoinNetwork::Mainnet, nothing_built()))
            .expect_err("tcp:// must fail shape gate at broadcaster open");
    assert!(
        bc_err.contains("scheme")
            || bc_err.contains("unsupported")
            || bc_err.contains(ELECTRUM_ADDR_ENV),
        "bc_err={bc_err}"
    );
}

#[test]
fn open_hand_built_ssl_electrum_normalizes_to_tls_path() {
    // Hand-built ssl:// must normalize (not reject) and open as TLS when feature on.
    let cfg = ProductChainSourceConfig {
        kind: ChainSourceKind::Electrum,
        esplora_url: None,
        electrum_addr: Some("ssl://electrum.example:50002".into()),
        electrum_tls: false, // scheme alone forces TLS
    };
    let result = open_as_err_string(open_product_chain_source(&cfg, BitcoinNetwork::Mainnet, nothing_built()));
    let bc = open_as_err_string(open_product_tx_broadcaster(&cfg, BitcoinNetwork::Mainnet, nothing_built()));
    {
        let err = result.expect_err("feature-missing");
        assert!(err.contains("feature `electrum`"), "err={err}");
        assert!(!err.to_ascii_lowercase().contains("timeout"), "{err}");
        let bc_err = bc.expect_err("feature-missing broadcaster");
        assert!(bc_err.contains("feature `electrum`"), "bc_err={bc_err}");
    }
    {
        let result = open_as_err_string(open_product_chain_source(&cfg, BitcoinNetwork::Mainnet, everything_built()));
        let bc = open_as_err_string(open_product_tx_broadcaster(&cfg, BitcoinNetwork::Mainnet, everything_built()));
        // Construction does not connect — Ok with electrum feature (TLS transport).
        assert!(
            result.is_ok(),
            "expected Ok with electrum+ssl://; {result:?}"
        );
        assert!(
            bc.is_ok(),
            "expected Ok broadcaster with electrum+ssl://; {bc:?}"
        );
    }
}

#[test]
fn open_electrum_tls_flag_construction_when_feature_on() {
    let cfg = product_chain_source_config_with_electrum_tls(
        Some("electrum"),
        None,
        Some("electrum.example:50002"),
        true,
    )
    .unwrap();
    assert!(cfg.electrum_tls);
    let result = open_as_err_string(open_product_chain_source(&cfg, BitcoinNetwork::Mainnet, nothing_built()));
    {
        let err = result.expect_err("feature-missing");
        assert!(err.contains("feature `electrum`"), "err={err}");
        // Honest feature-missing — not a network/key failure.
        assert!(!err.to_ascii_lowercase().contains("timeout"), "{err}");
        assert!(!err.to_ascii_lowercase().contains("certificate"), "{err}");
    }
    {
        let result = open_as_err_string(open_product_chain_source(&cfg, BitcoinNetwork::Mainnet, everything_built()));
        assert!(result.is_ok(), "TLS flag path constructs without network");
    }
}

#[test]
fn env_const_names_match_product_contract() {
    assert_eq!(CHAIN_SOURCE_ENV, "GROK_BITCOIN_CHAIN_SOURCE");
    assert_eq!(ESPLORA_URL_ENV, "GROK_BITCOIN_ESPLORA_URL");
    assert_eq!(ELECTRUM_ADDR_ENV, "GROK_BITCOIN_ELECTRUM_ADDR");
    assert_eq!(ELECTRUM_TLS_ENV, "GROK_BITCOIN_ELECTRUM_TLS");
}

/// What an opening function says where it fails.
fn open_as_err_string(result: Result<ChainBackend, WalletError>) -> Result<(), String> {
    match result {
        Ok(_) => Ok(()),
        Err(e) => Err(e.to_string()),
    }
}

#[test]
fn open_esplora_without_feature_is_structured_error() {
    let cfg = product_chain_source_config(
        Some("esplora"),
        Some("https://blockstream.info/api"),
        None,
    )
    .unwrap();
    let result = open_as_err_string(open_product_chain_source(&cfg, BitcoinNetwork::Mainnet, nothing_built()));
    {
        let err = result.expect_err("expected feature-missing error");
        assert!(err.contains("feature `esplora`"), "err={err}");
        assert!(err.contains("not compiled"), "err={err}");
        // Must not look like a network failure.
        assert!(!err.to_ascii_lowercase().contains("timeout"), "err={err}");
        assert!(
            !err.to_ascii_lowercase().contains("connection refused"),
            "err={err}"
        );
    }
    {
        let result = open_as_err_string(open_product_chain_source(&cfg, BitcoinNetwork::Mainnet, everything_built()));
        // With feature on, construction succeeds without connecting (HTTP client only).
        assert!(result.is_ok(), "expected Ok with esplora feature");
    }
}

#[test]
fn open_electrum_without_feature_is_structured_error() {
    let cfg =
        product_chain_source_config(Some("electrum"), None, Some("127.0.0.1:50001")).unwrap();
    let result = open_as_err_string(open_product_chain_source(&cfg, BitcoinNetwork::Mainnet, nothing_built()));
    {
        let err = result.expect_err("expected feature-missing error");
        assert!(err.contains("feature `electrum`"), "err={err}");
        assert!(err.contains("not compiled"), "err={err}");
        assert!(!err.to_ascii_lowercase().contains("timeout"), "err={err}");
    }
    {
        let result = open_as_err_string(open_product_chain_source(&cfg, BitcoinNetwork::Mainnet, everything_built()));
        // with_tcp does not connect until list_unspent — construction is Ok.
        assert!(result.is_ok(), "expected Ok with electrum feature");
    }
}

#[test]
fn open_mempool_feature_honesty() {
    let cfg = ProductChainSourceConfig::mempool();
    let result = open_as_err_string(open_product_chain_source(&cfg, BitcoinNetwork::Mainnet, nothing_built()));
    {
        let err = result.expect_err("expected feature-missing error");
        assert!(err.contains("feature `explorer-http`"), "err={err}");
        assert!(err.contains("not compiled"), "err={err}");
    }
    {
        let result = open_as_err_string(open_product_chain_source(&cfg, BitcoinNetwork::Mainnet, everything_built()));
        // with_defaults builds HTTP client only (no UTXO fetch yet).
        assert!(result.is_ok(), "expected Ok with explorer-http");
    }
}


#[test]
fn open_broadcaster_esplora_without_feature_is_structured_error() {
    let cfg = product_chain_source_config(
        Some("esplora"),
        Some("https://blockstream.info/api"),
        None,
    )
    .unwrap();
    let result =
        open_as_err_string(open_product_tx_broadcaster(&cfg, BitcoinNetwork::Mainnet, nothing_built()));
    {
        let err = result.expect_err("expected feature-missing error");
        assert!(
            err.contains("feature `esplora`") || err.contains("broadcast backend 'esplora'"),
            "err={err}"
        );
        assert!(err.contains("not compiled"), "err={err}");
        assert!(!err.to_ascii_lowercase().contains("timeout"), "err={err}");
        assert!(
            !err.to_ascii_lowercase().contains("connection refused"),
            "err={err}"
        );
    }
    {
        let result =
            open_as_err_string(open_product_tx_broadcaster(&cfg, BitcoinNetwork::Mainnet, everything_built()));
        assert!(result.is_ok(), "expected Ok with esplora feature");
    }
}

#[test]
fn open_broadcaster_electrum_without_feature_is_structured_error() {
    let cfg =
        product_chain_source_config(Some("electrum"), None, Some("127.0.0.1:50001")).unwrap();
    let result =
        open_as_err_string(open_product_tx_broadcaster(&cfg, BitcoinNetwork::Mainnet, nothing_built()));
    {
        let err = result.expect_err("expected feature-missing error");
        assert!(
            err.contains("feature `electrum`") || err.contains("broadcast backend 'electrum'"),
            "err={err}"
        );
        assert!(err.contains("not compiled"), "err={err}");
        assert!(!err.to_ascii_lowercase().contains("timeout"), "err={err}");
    }
    {
        let result =
            open_as_err_string(open_product_tx_broadcaster(&cfg, BitcoinNetwork::Mainnet, everything_built()));
        // with_tcp does not connect until broadcast — construction is Ok.
        assert!(result.is_ok(), "expected Ok with electrum feature");
    }
}

#[test]
fn open_broadcaster_mempool_feature_honesty() {
    let cfg = ProductChainSourceConfig::mempool();
    let result =
        open_as_err_string(open_product_tx_broadcaster(&cfg, BitcoinNetwork::Mainnet, nothing_built()));
    {
        let err = result.expect_err("expected feature-missing error");
        assert!(err.contains("feature `explorer-http`"), "err={err}");
        assert!(err.contains("not compiled"), "err={err}");
    }
    {
        let result =
            open_as_err_string(open_product_tx_broadcaster(&cfg, BitcoinNetwork::Mainnet, everything_built()));
        assert!(result.is_ok(), "expected Ok with explorer-http");
    }
}

#[test]
fn bitcoin_network_for_electrum_maps_known_variants() {
    assert_eq!(
        bitcoin_network_for_electrum(BitcoinNetwork::Mainnet),
        Network::Bitcoin
    );
    assert_eq!(
        bitcoin_network_for_electrum(BitcoinNetwork::Signet),
        Network::Signet
    );
    assert_eq!(
        bitcoin_network_for_electrum(BitcoinNetwork::Testnet),
        Network::Testnet
    );
    assert_eq!(
        bitcoin_network_for_electrum(BitcoinNetwork::Testnet4),
        Network::Testnet
    );
}


fn map_get<'a>(
    map: &'a HashMap<&'static str, String>,
) -> impl Fn(&str) -> Option<String> + 'a {
    move |k| map.get(k).cloned()
}

#[test]
fn unset_defaults_to_mempool() {
    let map = HashMap::new();
    let cfg = product_chain_source_config_from_env_reader(map_get(&map)).unwrap();
    assert_eq!(cfg, ProductChainSourceConfig::mempool());
}

#[test]
fn empty_string_kind_defaults_to_mempool() {
    let mut map = HashMap::new();
    map.insert(CHAIN_SOURCE_ENV, String::new());
    let cfg = product_chain_source_config_from_env_reader(map_get(&map)).unwrap();
    assert_eq!(cfg.kind, ChainSourceKind::Mempool);
}

#[test]
fn whitespace_kind_defaults_to_mempool() {
    let mut map = HashMap::new();
    map.insert(CHAIN_SOURCE_ENV, "   ".into());
    let cfg = product_chain_source_config_from_env_reader(map_get(&map)).unwrap();
    assert_eq!(cfg.kind, ChainSourceKind::Mempool);
}

#[test]
fn esplora_requires_url_when_kind_set() {
    let mut map = HashMap::new();
    map.insert(CHAIN_SOURCE_ENV, "esplora".into());
    let err = product_chain_source_config_from_env_reader(map_get(&map))
        .unwrap_err()
        .to_string();
    assert!(err.contains(ESPLORA_URL_ENV), "err={err}");
}

#[test]
fn esplora_accepts_url_case_insensitive_kind() {
    let mut map = HashMap::new();
    map.insert(CHAIN_SOURCE_ENV, "ESPLORA".into());
    map.insert(ESPLORA_URL_ENV, "https://mempool.space/api".into());
    let cfg = product_chain_source_config_from_env_reader(map_get(&map)).unwrap();
    assert_eq!(cfg.kind, ChainSourceKind::Esplora);
    assert_eq!(
        cfg.esplora_url.as_deref(),
        Some("https://mempool.space/api")
    );
}

#[test]
fn electrum_requires_addr_when_kind_set() {
    let mut map = HashMap::new();
    map.insert(CHAIN_SOURCE_ENV, "electrum".into());
    let err = product_chain_source_config_from_env_reader(map_get(&map))
        .unwrap_err()
        .to_string();
    assert!(err.contains(ELECTRUM_ADDR_ENV), "err={err}");
}

#[test]
fn electrum_accepts_host_port() {
    let mut map = HashMap::new();
    map.insert(CHAIN_SOURCE_ENV, "electrum".into());
    map.insert(ELECTRUM_ADDR_ENV, "127.0.0.1:50001".into());
    let cfg = product_chain_source_config_from_env_reader(map_get(&map)).unwrap();
    assert_eq!(cfg.kind, ChainSourceKind::Electrum);
    assert_eq!(cfg.electrum_addr.as_deref(), Some("127.0.0.1:50001"));
}

#[test]
fn open_from_reader_mempool_feature_honesty() {
    let map = HashMap::new();
    let result = open_as_err_string(open_product_chain_source_from_env_reader(
        BitcoinNetwork::Mainnet,
        map_get(&map),
        nothing_built(),
    ));
    {
        let err = result.expect_err("expected feature-missing error");
        assert!(err.contains("feature `explorer-http`"), "err={err}");
    }
    {
        let result = open_as_err_string(open_product_chain_source_from_env_reader(
            BitcoinNetwork::Mainnet,
            map_get(&map),
            everything_built(),
        ));
        assert!(result.is_ok(), "default mempool open with explorer-http");
    }
}

#[test]
fn open_from_reader_esplora_missing_feature_or_ok() {
    let mut map = HashMap::new();
    map.insert(CHAIN_SOURCE_ENV, "esplora".into());
    map.insert(ESPLORA_URL_ENV, "https://blockstream.info/api".into());
    let result = open_as_err_string(open_product_chain_source_from_env_reader(
        BitcoinNetwork::Mainnet,
        map_get(&map),
        nothing_built(),
    ));
    {
        let err = result.expect_err("expected feature-missing error");
        assert!(err.contains("feature `esplora`"), "err={err}");
        assert!(err.contains("not compiled"), "err={err}");
    }
    {
        let result = open_as_err_string(open_product_chain_source_from_env_reader(
            BitcoinNetwork::Mainnet,
            map_get(&map),
            everything_built(),
        ));
        assert!(result.is_ok());
    }
}

#[test]
fn kinds_are_read_back_from_their_names() {
    for kind in [ChainSourceKind::Mempool, ChainSourceKind::Esplora, ChainSourceKind::Electrum] {
        assert_eq!(parse_chain_source_kind(kind.as_str()).unwrap(), kind);
    }
}

#[test]
fn unknown_kind_is_quoted() {
    let err = parse_chain_source_kind(" Block\"Stream ").unwrap_err().to_string();
    assert_eq!(
        err,
        "unknown GROK_BITCOIN_CHAIN_SOURCE value \"block\\\"stream\"; use mempool, esplora, or electrum (empty/unset defaults to mempool)"
    );
}

#[test]
fn esplora_urls_by_shape() {
    assert!(validate_esplora_base_url("https://blockstream.info/api").is_ok());
    assert!(validate_esplora_base_url("HTTP://x").is_ok());
    assert_eq!(
        validate_esplora_base_url("https:///api").unwrap_err().to_string(),
        "invalid GROK_BITCOIN_ESPLORA_URL \"https:///api\"; expected http(s) URL with a host (e.g. https://blockstream.info/api)"
    );
    assert_eq!(
        validate_esplora_base_url("ftp://x").unwrap_err().to_string(),
        "invalid GROK_BITCOIN_ESPLORA_URL \"ftp://x\"; expected http:// or https:// base URL (e.g. https://blockstream.info/api)"
    );
}

#[test]
fn host_and_port_faults() {
    let why = |addr: &str| validate_electrum_host_port(addr).unwrap_err().to_string();
    assert!(validate_electrum_host_port("h:65535").is_ok());
    assert!(validate_electrum_host_port("h:00001").is_ok());
    assert!(why("h:65536").ends_with("; port out of range 1\u{2013}65535"));
    assert!(why("h:99999999999999999999").ends_with("; port out of range 1\u{2013}65535"));
    assert!(why("h:0").ends_with("; port must be 1\u{2013}65535"));
    assert!(why("h:+1").ends_with("; port must be a positive integer (e.g. 50001)"));
    assert!(why("h").ends_with("; expected host:port (e.g. 127.0.0.1:50001) or ssl://host:port for TLS"));
    assert!(why("a:b:1").ends_with("; expected a single host:port (use [ipv6]:port for IPv6)"));
    assert!(why("[]:1").ends_with("; empty IPv6 host in [ipv6]:port"));
    assert!(why("[::1]").ends_with("; expected [ipv6]:port (e.g. [::1]:50001)"));
    assert!(why("ssl://h:1").contains("must be handled by normalize_electrum_addr"));
}

#[test]
fn accepted_settings_open_the_backend_they_describe() {
    let cfg = product_chain_source_config_with_electrum_tls(
        Some("electrum"),
        Some("https://ignored"),
        Some(" ssl://electrum.example:50002 "),
        false,
    )
    .unwrap();
    let opened =
        open_product_chain_source(&cfg, BitcoinNetwork::Testnet4, everything_built()).unwrap();
    assert_eq!(
        opened,
        ChainBackend::Electrum {
            addr: "electrum.example:50002".to_string(),
            chain: Network::Testnet,
            tls: true,
        }
    );
    assert_eq!(
        open_product_tx_broadcaster(&cfg, BitcoinNetwork::Testnet4, everything_built()).unwrap(),
        opened
    );
    assert_eq!(
        validated_electrum_endpoint_from_config(&cfg).unwrap(),
        ("electrum.example:50002".to_string(), true)
    );
    assert!(validated_esplora_url_from_config(&cfg).is_err());

    let esplora =
        product_chain_source_config(Some("esplora"), Some("http://127.0.0.1:3000"), None).unwrap();
    assert_eq!(
        open_product_chain_source(&esplora, BitcoinNetwork::Signet, everything_built()).unwrap(),
        ChainBackend::Esplora { base_url: "http://127.0.0.1:3000".to_string() }
    );
    assert_eq!(
        open_product_chain_source(
            &ProductChainSourceConfig::mempool(),
            BitcoinNetwork::Signet,
            everything_built()
        )
        .unwrap(),
        ChainBackend::Mempool { network: BitcoinNetwork::Signet }
    );
}

#[test]
fn white_space_behind_the_scheme_is_no_host() {
    let cfg = product_chain_source_config(Some("electrum"), None, Some("ssl:// :50001")).unwrap();
    assert_eq!(cfg.electrum_addr.as_deref(), Some(" :50001"));
    assert!(open_product_chain_source(&cfg, BitcoinNetwork::Mainnet, everything_built()).is_err());
    let cfg = product_chain_source_config(Some("electrum"), None, Some("ssl:// h:50001")).unwrap();
    assert_eq!(
        validated_electrum_endpoint_from_config(&cfg).unwrap(),
        ("h:50001".to_string(), true)
    );
}

#[test]
fn broadcaster_from_settings() {
    let get = |name: &str| match name {
        CHAIN_SOURCE_ENV => Some("electrum".to_string()),
        ELECTRUM_ADDR_ENV => Some("127.0.0.1:50001".to_string()),
        ELECTRUM_TLS_ENV => Some("TRUE".to_string()),
        _ => None,
    };
    assert_eq!(
        open_product_tx_broadcaster_from_env_reader(
            BitcoinNetwork::Mainnet,
            get,
            everything_built()
        )
        .unwrap(),
        ChainBackend::Electrum {
            addr: "127.0.0.1:50001".to_string(),
            chain: Network::Bitcoin,
            tls: true,
        }
    );
    let err = open_product_tx_broadcaster_from_env_reader(
        BitcoinNetwork::Mainnet,
        |_: &str| None,
        nothing_built(),
    )
    .unwrap_err()
    .to_string();
    assert!(err.starts_with("broadcast backend 'mempool' requires feature `explorer-http`"));
}

#[test]
fn no_other_setting_is_looked_up() {
    let names = std::cell::RefCell::new(Vec::new());
    let read = product_chain_source_config_from_env_reader(|name: &str| {
        names.borrow_mut().push(name.to_string());
        None
    });
    assert!(read.is_ok());
    let mut names = names.into_inner();
    names.sort();
    assert_eq!(
        names,
        vec![
            "GROK_BITCOIN_CHAIN_SOURCE",
            "GROK_BITCOIN_ELECTRUM_ADDR",
            "GROK_BITCOIN_ELECTRUM_TLS",
            "GROK_BITCOIN_ESPLORA_URL",
        ]
    );
}
