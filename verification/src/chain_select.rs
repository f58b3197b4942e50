//! Choice of the backend that chain data comes from and transactions go to.

use vstd::prelude::*;
use vstd::string::StringExecFns;

use crate::address_ux::BitcoinNetwork;
use crate::error::{explorer_error, WalletError};
use crate::funding::text_view;
use crate::network::{bitcoin_network_for_electrum, electrum_network, Network};
use crate::text::{
    all_digits, chars_of, contains, debug_quoted, debug_text, decimal, decimal_value, find, has_part,
    has_prefix, index_of, is_space, lemma_decimal_round_trip, lemma_index_from, lemma_trimmed, lower,
    lowered, parse_digits, same, skip, stands_at, starts_with, take, texts, trim, trimmed,
};

verus! {

/// Setting: name of the backend.
pub const CHAIN_SOURCE_ENV: &'static str = "GROK_BITCOIN_CHAIN_SOURCE";

/// Setting: base URL of the Esplora REST API.
pub const ESPLORA_URL_ENV: &'static str = "GROK_BITCOIN_ESPLORA_URL";

/// Setting: `host:port` or `ssl://host:port` of the Electrum server.
pub const ELECTRUM_ADDR_ENV: &'static str = "GROK_BITCOIN_ELECTRUM_ADDR";

/// Setting: TLS for an Electrum server that is given as bare `host:port`.
pub const ELECTRUM_TLS_ENV: &'static str = "GROK_BITCOIN_ELECTRUM_TLS";

/// Kind of chain backend.
#[derive(Clone, Copy, PartialEq, Eq, Structural, Debug)]
pub enum ChainSourceKind {
    Mempool,
    Esplora,
    Electrum,
}

impl ChainSourceKind {
    /// The name of a backend.
    pub open spec fn name(self) -> Seq<char> {
        match self {
            ChainSourceKind::Mempool => "mempool"@,
            ChainSourceKind::Esplora => "esplora"@,
            ChainSourceKind::Electrum => "electrum"@,
        }
    }

    /// The name of a backend.
    pub fn as_str(self) -> (name: &'static str)
        ensures
            name@ == self.name(),
    {
        match self {
            ChainSourceKind::Mempool => "mempool",
            ChainSourceKind::Esplora => "esplora",
            ChainSourceKind::Electrum => "electrum",
        }
    }
}

/// The backend that a setting names, white space around it and letter case aside, or what is
/// wrong with it. An empty setting is the default.
pub open spec fn kind_named(s: Seq<char>) -> Result<ChainSourceKind, Seq<char>> {
    let name = lowered(trimmed(s));
    if trimmed(s).len() == 0 || name == "mempool"@ {
        Ok(ChainSourceKind::Mempool)
    } else if name == "esplora"@ {
        Ok(ChainSourceKind::Esplora)
    } else if name == "electrum"@ {
        Ok(ChainSourceKind::Electrum)
    } else {
        Err(
            "unknown "@ + CHAIN_SOURCE_ENV@ + " value "@ + debug_quoted(name)
                + "; use mempool, esplora, or electrum (empty/unset defaults to mempool)"@,
        )
    }
}

/// Parses the name of a backend.
pub fn parse_chain_source_kind(s: &str) -> (r: Result<ChainSourceKind, WalletError>)
    ensures
        match kind_named(s@) {
            Ok(kind) => r == Ok::<ChainSourceKind, WalletError>(kind),
            Err(message) => explorer_error(r, message),
        },
{
    let trimmed = trim(s);
    if trimmed.is_empty() {
        return Ok(ChainSourceKind::Mempool);
    }
    let name = lower(trimmed);
    let name = name.as_str();
    if same(name, "mempool") {
        Ok(ChainSourceKind::Mempool)
    } else if same(name, "esplora") {
        Ok(ChainSourceKind::Esplora)
    } else if same(name, "electrum") {
        Ok(ChainSourceKind::Electrum)
    } else {
        let mut message = "unknown ".to_owned();
        message.append(CHAIN_SOURCE_ENV);
        message.append(" value ");
        message.append(debug_text(name).as_str());
        message.append("; use mempool, esplora, or electrum (empty/unset defaults to mempool)");
        Err(WalletError::Explorer(message))
    }
}

/// A backend is read back from its name.
pub proof fn lemma_kind_name_round_trip(kind: ChainSourceKind)
    ensures
        kind_named(kind.name()) == Ok::<ChainSourceKind, Seq<char>>(kind),
{
    reveal_strlit("mempool");
    reveal_strlit("esplora");
    reveal_strlit("electrum");
    assert(trimmed(kind.name()) == kind.name());
    assert(lowered(kind.name()) =~= kind.name());
    assert("mempool"@[0] != "esplora"@[0]);
    assert("electrum"@.len() != "esplora"@.len());
}

/// Which backend to use, and where it is.
#[derive(PartialEq, Eq, Debug)]
pub struct ProductChainSourceConfig {
    pub kind: ChainSourceKind,
    /// Base URL, for Esplora.
    pub esplora_url: Option<String>,
    /// `host:port` without a scheme, for Electrum.
    pub electrum_addr: Option<String>,
    /// TLS instead of plain TCP, for Electrum.
    pub electrum_tls: bool,
}

/// Model of [`ProductChainSourceConfig`].
pub struct ChainConfig {
    pub kind: ChainSourceKind,
    pub esplora_url: Option<Seq<char>>,
    pub electrum_addr: Option<Seq<char>>,
    pub electrum_tls: bool,
}

impl View for ProductChainSourceConfig {
    type V = ChainConfig;

    open spec fn view(&self) -> ChainConfig {
        ChainConfig {
            kind: self.kind,
            esplora_url: text_view(self.esplora_url),
            electrum_addr: text_view(self.electrum_addr),
            electrum_tls: self.electrum_tls,
        }
    }
}

/// The default.
pub open spec fn mempool_config() -> ChainConfig {
    ChainConfig {
        kind: ChainSourceKind::Mempool,
        esplora_url: None,
        electrum_addr: None,
        electrum_tls: false,
    }
}

impl ProductChainSourceConfig {
    /// The default.
    pub fn mempool() -> (config: ProductChainSourceConfig)
        ensures
            config@ == mempool_config(),
    {
        ProductChainSourceConfig {
            kind: ChainSourceKind::Mempool,
            esplora_url: None,
            electrum_addr: None,
            electrum_tls: false,
        }
    }
}

/// An optional setting without white space around it; an empty one counts as none.
pub open spec fn given(text: Option<Seq<char>>) -> Option<Seq<char>> {
    match text {
        Some(t) => if trimmed(t).len() > 0 {
            Some(trimmed(t))
        } else {
            None
        },
        None => None,
    }
}

/// The characters of an optional text.
pub open spec fn str_view(text: Option<&str>) -> Option<Seq<char>> {
    match text {
        Some(t) => Some(t@),
        None => None,
    }
}

/// An optional setting without white space around it; an empty one counts as none.
pub fn given_text<'a>(text: Option<&'a str>) -> (r: Option<&'a str>)
    ensures
        str_view(r) == given(str_view(text)),
{
    match text {
        Some(t) => {
            let t = trim(t);
            if t.is_empty() {
                None
            } else {
                Some(t)
            }
        },
        None => None,
    }
}

/// A text as an optional borrowed text.
pub fn borrowed<'a>(text: &'a Option<String>) -> (r: Option<&'a str>)
    ensures
        str_view(r) == text_view(*text),
{
    match text {
        Some(t) => Some(t.as_str()),
        None => None,
    }
}

/// What is behind the scheme of a URL: nothing, or a path without a host.
pub open spec fn hostless(rest: Seq<char>) -> bool {
    rest.len() == 0 || rest[0] == '/'
}

/// What is wrong with the base URL of an Esplora API, where something is.
pub open spec fn esplora_url_fault(url: Seq<char>) -> Option<Seq<char>> {
    let low = lowered(url);
    if has_prefix(low, "https://"@) || has_prefix(low, "http://"@) {
        let rest = if has_prefix(low, "https://"@) {
            low.skip("https://"@.len() as int)
        } else {
            low.skip("http://"@.len() as int)
        };
        if hostless(rest) {
            Some(
                "invalid "@ + ESPLORA_URL_ENV@ + " "@ + debug_quoted(url)
                    + "; expected http(s) URL with a host (e.g. https://blockstream.info/api)"@,
            )
        } else {
            None
        }
    } else {
        Some(
            "invalid "@ + ESPLORA_URL_ENV@ + " "@ + debug_quoted(url)
                + "; expected http:// or https:// base URL (e.g. https://blockstream.info/api)"@,
        )
    }
}

/// The message that `value` of the setting `name` is invalid.
fn invalid_setting(name: &str, value: &str, why: &str) -> (message: String)
    ensures
        message@ == "invalid "@ + name@ + " "@ + debug_quoted(value@) + why@,
{
    let mut message = "invalid ".to_owned();
    message.append(name);
    message.append(" ");
    message.append(debug_text(value).as_str());
    message.append(why);
    message
}

/// Checks the shape of the base URL of an Esplora API: `http://` or `https://` and a host.
pub fn validate_esplora_base_url(url: &str) -> (r: Result<(), WalletError>)
    ensures
        match esplora_url_fault(url@) {
            None => r is Ok,
            Some(message) => explorer_error(r, message),
        },
{
    let low = lower(url);
    let low = low.as_str();
    let https = starts_with(low, "https://");
    if https || starts_with(low, "http://") {
        proof {
            reveal_strlit("https://");
            reveal_strlit("http://");
        }
        let rest = if https {
            skip(low, 8)
        } else {
            skip(low, 7)
        };
        let rest = chars_of(rest);
        if rest.len() == 0 || rest[0] == '/' {
            return Err(
                WalletError::Explorer(
                    invalid_setting(
                        ESPLORA_URL_ENV,
                        url,
                        "; expected http(s) URL with a host (e.g. https://blockstream.info/api)",
                    ),
                ),
            );
        }
        return Ok(());
    }
    Err(
        WalletError::Explorer(
            invalid_setting(
                ESPLORA_URL_ENV,
                url,
                "; expected http:// or https:// base URL (e.g. https://blockstream.info/api)",
            ),
        ),
    )
}

/// What is wrong with the port of an endpoint, where something is: it has to be a decimal number
/// from 1 to 65535.
pub open spec fn port_fault(port: Seq<char>) -> Option<Seq<char>> {
    if port.len() == 0 || !all_digits(port) {
        Some("; port must be a positive integer (e.g. 50001)"@)
    } else if decimal_value(port) > 65535 {
        Some("; port out of range 1\u{2013}65535"@)
    } else if decimal_value(port) == 0 {
        Some("; port must be 1\u{2013}65535"@)
    } else {
        None
    }
}

/// What is wrong with an endpoint `host:port` or `[ipv6]:port`, where something is.
pub open spec fn host_port_fault(addr: Seq<char>) -> Option<Seq<char>> {
    if has_part(addr, "://"@) {
        Some(
            "; URI schemes must be handled by normalize_electrum_addr (ssl:// only); use host:port or [ipv6]:port"@,
        )
    } else if addr.len() > 0 && addr[0] == '[' {
        let rest = addr.skip(1);
        match index_of(rest, "]:"@) {
            None => Some("; expected [ipv6]:port (e.g. [::1]:50001)"@),
            Some(i) => if i == 0 {
                Some("; empty IPv6 host in [ipv6]:port"@)
            } else {
                port_fault(rest.skip(i + 2))
            },
        }
    } else {
        match index_of(addr, ":"@) {
            None => Some(
                "; expected host:port (e.g. 127.0.0.1:50001) or ssl://host:port for TLS"@,
            ),
            Some(i) => if i == 0 || has_part(addr.skip(i + 1), ":"@) {
                Some("; expected a single host:port (use [ipv6]:port for IPv6)"@)
            } else {
                port_fault(addr.skip(i + 1))
            },
        }
    }
}

/// The message on a fault of the Electrum endpoint.
pub open spec fn addr_message(addr: Seq<char>, why: Seq<char>) -> Seq<char> {
    "invalid "@ + ELECTRUM_ADDR_ENV@ + " "@ + debug_quoted(addr) + why
}

/// The Electrum endpoint that a setting describes, and whether its scheme asks for TLS, or what is
/// wrong with it.
pub open spec fn electrum_endpoint(addr: Seq<char>) -> Result<(Seq<char>, bool), Seq<char>> {
    let t = trimmed(addr);
    if t.len() == 0 {
        Err(addr_message(addr, "; expected host:port or ssl://host:port"@))
    } else if has_prefix(lowered(t), "ssl://"@) {
        let rest = t.skip(6);
        if rest.len() == 0 {
            Err(
                addr_message(
                    addr,
                    "; ssl:// requires host:port (e.g. ssl://electrum.example:50002)"@,
                ),
            )
        } else {
            match host_port_fault(rest) {
                Some(why) => Err(addr_message(rest, why)),
                None => Ok((rest, true)),
            }
        }
    } else if has_part(t, "://"@) {
        Err(
            addr_message(
                addr,
                "; unsupported URI scheme \u{2014} use host:port (plaintext TCP) or ssl://host:port (TLS). Other schemes (tcp://, https://, \u{2026}) are rejected"@,
            ),
        )
    } else {
        match host_port_fault(t) {
            Some(why) => Err(addr_message(t, why)),
            None => Ok((t, false)),
        }
    }
}

/// Checks a port.
fn port_problem(port: &str) -> (why: Option<&'static str>)
    ensures
        str_view(why) == port_fault(port@),
{
    match parse_digits(port, 0x100_0000) {
        None => {
            if port.is_empty() || !only_digits(port) {
                Some("; port must be a positive integer (e.g. 50001)")
            } else {
                Some("; port out of range 1\u{2013}65535")
            }
        },
        Some(n) => if n > 65535 {
            Some("; port out of range 1\u{2013}65535")
        } else if n == 0 {
            Some("; port must be 1\u{2013}65535")
        } else {
            None
        },
    }
}

/// Whether a text consists of ASCII digits.
fn only_digits(text: &str) -> (b: bool)
    ensures
        b == all_digits(text@),
{
    let chars = chars_of(text);
    let mut i: usize = 0;
    while i < chars.len()
        invariant
            i <= chars@.len(),
            chars@ == text@,
            forall|j: int| 0 <= j < i ==> '0' <= #[trigger] text@[j] <= '9',
        decreases chars@.len() - i,
    {
        if chars[i] < '0' || chars[i] > '9' {
            return false;
        }
        i += 1;
    }
    true
}

/// Checks the shape of `host:port` or `[ipv6]:port`.
pub fn validate_electrum_host_port(addr: &str) -> (r: Result<(), WalletError>)
    ensures
        match host_port_fault(addr@) {
            None => r is Ok,
            Some(why) => explorer_error(r, addr_message(addr@, why)),
        },
{
    let why = host_port_problem(addr);
    match why {
        None => Ok(()),
        Some(why) => Err(WalletError::Explorer(invalid_setting(ELECTRUM_ADDR_ENV, addr, why))),
    }
}

/// Finds what is wrong with `host:port` or `[ipv6]:port`.
fn host_port_problem(addr: &str) -> (why: Option<&'static str>)
    ensures
        str_view(why) == host_port_fault(addr@),
{
    if contains(addr, "://") {
        return Some(
            "; URI schemes must be handled by normalize_electrum_addr (ssl:// only); use host:port or [ipv6]:port",
        );
    }
    proof {
        reveal_strlit("[");
        reveal_strlit("]:");
        reveal_strlit(":");
        assert(addr@.len() > 0 ==> addr@.take(1) =~= seq![addr@[0]]);
        assert("["@ =~= seq!['[']);
        assert(addr@.len() > 0 && addr@.take(1) == "["@ ==> addr@.take(1)[0] == '[');
    }
    if starts_with(addr, "[") {
        let rest = skip(addr, 1);
        match find(rest, "]:") {
            None => Some("; expected [ipv6]:port (e.g. [::1]:50001)"),
            Some(i) => if i == 0 {
                Some("; empty IPv6 host in [ipv6]:port")
            } else {
                port_problem(skip(rest, i + 2))
            },
        }
    } else {
        match find(addr, ":") {
            None => Some("; expected host:port (e.g. 127.0.0.1:50001) or ssl://host:port for TLS"),
            Some(i) => {
                let port = skip(addr, i + 1);
                if i == 0 || contains(port, ":") {
                    Some("; expected a single host:port (use [ipv6]:port for IPv6)")
                } else {
                    port_problem(port)
                }
            },
        }
    }
}

/// The endpoint of an Electrum server as `host:port`, and whether it was given with `ssl://`.
/// Every other scheme is refused: none of them may silently mean plain TCP.
pub fn normalize_electrum_addr(addr: &str) -> (r: Result<(String, bool), WalletError>)
    ensures
        match electrum_endpoint(addr@) {
            Ok((host_port, tls)) => r matches Ok((h, t)) && h@ == host_port && t == tls,
            Err(message) => explorer_error(r, message),
        },
{
    let trimmed = trim(addr);
    if trimmed.is_empty() {
        return Err(
            WalletError::Explorer(
                invalid_setting(ELECTRUM_ADDR_ENV, addr, "; expected host:port or ssl://host:port"),
            ),
        );
    }
    let host_port;
    let scheme_tls;
    proof {
        reveal_strlit("ssl://");
    }
    if starts_with(lower(trimmed).as_str(), "ssl://") {
        let rest = skip(trimmed, 6);
        if rest.is_empty() {
            return Err(
                WalletError::Explorer(
                    invalid_setting(
                        ELECTRUM_ADDR_ENV,
                        addr,
                        "; ssl:// requires host:port (e.g. ssl://electrum.example:50002)",
                    ),
                ),
            );
        }
        host_port = rest;
        scheme_tls = true;
    } else if contains(trimmed, "://") {
        return Err(
            WalletError::Explorer(
                invalid_setting(
                    ELECTRUM_ADDR_ENV,
                    addr,
                    "; unsupported URI scheme \u{2014} use host:port (plaintext TCP) or ssl://host:port (TLS). Other schemes (tcp://, https://, \u{2026}) are rejected",
                ),
            ),
        );
    } else {
        host_port = trimmed;
        scheme_tls = false;
    }
    match validate_electrum_host_port(host_port) {
        Ok(()) => Ok((host_port.to_owned(), scheme_tls)),
        Err(e) => Err(e),
    }
}

/// Whether a setting switches something on.
pub open spec fn flag_set(raw: Option<Seq<char>>) -> bool {
    given(raw) matches Some(s) && {
        let low = lowered(s);
        low == "1"@ || low == "true"@ || low == "yes"@
    }
}

/// Reads the TLS setting: `1`, `true` or `yes` switch it on, everything else does not.
pub fn parse_electrum_tls_flag(raw: Option<&str>) -> (on: bool)
    ensures
        on == flag_set(str_view(raw)),
{
    match given_text(raw) {
        None => false,
        Some(s) => {
            let low = lower(s);
            let low = low.as_str();
            same(low, "1") || same(low, "true") || same(low, "yes")
        },
    }
}

/// The configuration that settings describe, or what is wrong with them. Settings of the backends
/// that were not chosen do not count.
pub open spec fn chain_config(
    kind: Option<Seq<char>>,
    esplora_url: Option<Seq<char>>,
    electrum_addr: Option<Seq<char>>,
    tls_flag: bool,
) -> Result<ChainConfig, Seq<char>> {
    let chosen = match kind {
        None => Ok(ChainSourceKind::Mempool),
        Some(s) => kind_named(s),
    };
    match chosen {
        Err(message) => Err(message),
        Ok(ChainSourceKind::Mempool) => Ok(mempool_config()),
        Ok(ChainSourceKind::Esplora) => match given(esplora_url) {
            None => Err(
                "chain source 'esplora' requires "@ + ESPLORA_URL_ENV@
                    + " (Esplora REST base URL, e.g. https://blockstream.info/api or https://mempool.space/api)"@,
            ),
            Some(url) => match esplora_url_fault(url) {
                Some(message) => Err(message),
                None => Ok(
                    ChainConfig {
                        kind: ChainSourceKind::Esplora,
                        esplora_url: Some(url),
                        electrum_addr: None,
                        electrum_tls: false,
                    },
                ),
            },
        },
        Ok(ChainSourceKind::Electrum) => match given(electrum_addr) {
            None => Err(
                "chain source 'electrum' requires "@ + ELECTRUM_ADDR_ENV@
                    + " (host:port for Electrum JSON-RPC, or ssl://host:port for TLS; optional "@
                    + ELECTRUM_TLS_ENV@
                    + "=1 for TLS with bare host:port; default is plaintext TCP for local/regtest)"@,
            ),
            Some(addr) => match electrum_endpoint(addr) {
                Err(message) => Err(message),
                Ok((host_port, scheme_tls)) => Ok(
                    ChainConfig {
                        kind: ChainSourceKind::Electrum,
                        esplora_url: None,
                        electrum_addr: Some(host_port),
                        electrum_tls: scheme_tls || tls_flag,
                    },
                ),
            },
        },
    }
}

/// What a configuration function returns.
pub open spec fn is_config(
    r: Result<ProductChainSourceConfig, WalletError>,
    expected: Result<ChainConfig, Seq<char>>,
) -> bool {
    match expected {
        Ok(config) => r matches Ok(c) && c@ == config,
        Err(message) => explorer_error(r, message),
    }
}

/// Configuration from explicit settings, TLS only where the address asks for it.
pub fn product_chain_source_config(
    kind_raw: Option<&str>,
    esplora_url: Option<&str>,
    electrum_addr: Option<&str>,
) -> (r: Result<ProductChainSourceConfig, WalletError>)
    ensures
        is_config(
            r,
            chain_config(
                str_view(kind_raw),
                str_view(esplora_url),
                str_view(electrum_addr),
                false,
            ),
        ),
{
    product_chain_source_config_with_electrum_tls(kind_raw, esplora_url, electrum_addr, false)
}

/// Configuration from explicit settings. TLS is used where the address or the flag asks for it.
pub fn product_chain_source_config_with_electrum_tls(
    kind_raw: Option<&str>,
    esplora_url: Option<&str>,
    electrum_addr: Option<&str>,
    electrum_tls_flag: bool,
) -> (r: Result<ProductChainSourceConfig, WalletError>)
    ensures
        is_config(
            r,
            chain_config(
                str_view(kind_raw),
                str_view(esplora_url),
                str_view(electrum_addr),
                electrum_tls_flag,
            ),
        ),
{
    let kind = match kind_raw {
        None => ChainSourceKind::Mempool,
        Some(s) => match parse_chain_source_kind(s) {
            Ok(kind) => kind,
            Err(e) => return Err(e),
        },
    };
    match kind {
        ChainSourceKind::Mempool => Ok(ProductChainSourceConfig::mempool()),
        ChainSourceKind::Esplora => match given_text(esplora_url) {
            None => {
                let mut message = "chain source 'esplora' requires ".to_owned();
                message.append(ESPLORA_URL_ENV);
                message.append(
                    " (Esplora REST base URL, e.g. https://blockstream.info/api or https://mempool.space/api)",
                );
                Err(WalletError::Explorer(message))
            },
            Some(url) => match validate_esplora_base_url(url) {
                Err(e) => Err(e),
                Ok(()) => Ok(
                    ProductChainSourceConfig {
                        kind: ChainSourceKind::Esplora,
                        esplora_url: Some(url.to_owned()),
                        electrum_addr: None,
                        electrum_tls: false,
                    },
                ),
            },
        },
        ChainSourceKind::Electrum => match given_text(electrum_addr) {
            None => {
                let mut message = "chain source 'electrum' requires ".to_owned();
                message.append(ELECTRUM_ADDR_ENV);
                message.append(
                    " (host:port for Electrum JSON-RPC, or ssl://host:port for TLS; optional ",
                );
                message.append(ELECTRUM_TLS_ENV);
                message.append(
                    "=1 for TLS with bare host:port; default is plaintext TCP for local/regtest)",
                );
                Err(WalletError::Explorer(message))
            },
            Some(raw) => match normalize_electrum_addr(raw) {
                Err(e) => Err(e),
                Ok((host_port, scheme_tls)) => Ok(
                    ProductChainSourceConfig {
                        kind: ChainSourceKind::Electrum,
                        esplora_url: None,
                        electrum_addr: Some(host_port),
                        electrum_tls: scheme_tls || electrum_tls_flag,
                    },
                ),
            },
        },
    }
}

/// The note on backends that differ.
pub open spec fn diverging_note(utxo: ChainSourceKind, broadcast: ChainSourceKind) -> Seq<char> {
    "Note: UTXO list uses "@ + utxo.name() + " but --broadcast submits via "@ + broadcast.name()
        + " (backends diverge; never treat prepare-only as network accept)."@
}

/// What to tell where the coins are listed by one backend and the transaction goes to another:
/// nothing where they are the same.
pub fn broadcast_backend_notice_lines(
    utxo_kind: ChainSourceKind,
    broadcast_kind: ChainSourceKind,
) -> (list: Vec<String>)
    ensures
        texts(list@) == if utxo_kind == broadcast_kind {
            Seq::empty()
        } else {
            seq![diverging_note(utxo_kind, broadcast_kind)]
        },
{
    let mut list: Vec<String> = Vec::new();
    if utxo_kind != broadcast_kind {
        let mut note = "Note: UTXO list uses ".to_owned();
        note.append(utxo_kind.as_str());
        note.append(" but --broadcast submits via ");
        note.append(broadcast_kind.as_str());
        note.append(" (backends diverge; never treat prepare-only as network accept).");
        list.push(note);
    }
    list
}

/// Nothing: one backend serves both purposes. Where two are used,
/// [`broadcast_backend_notice_lines`] tells.
pub fn non_mempool_broadcast_notice_lines(_kind: ChainSourceKind) -> (list: Vec<String>)
    ensures
        list@.len() == 0,
{
    Vec::new()
}

/// Configuration from settings that `get` looks up; `None` is a setting that is not there. No
/// other setting than these four is looked up.
pub fn product_chain_source_config_from_env_reader<F: Fn(&str) -> Option<String>>(get: F) -> (r:
    Result<ProductChainSourceConfig, WalletError>)
    requires
        call_requires(get, (CHAIN_SOURCE_ENV,)),
        call_requires(get, (ESPLORA_URL_ENV,)),
        call_requires(get, (ELECTRUM_ADDR_ENV,)),
        call_requires(get, (ELECTRUM_TLS_ENV,)),
    ensures
        exists|
            kind: Option<String>,
            url: Option<String>,
            addr: Option<String>,
            tls: Option<String>,
        | #![trigger read_settings(get, kind, url, addr, tls)]
            read_settings(get, kind, url, addr, tls) && is_config(
                r,
                chain_config(
                    text_view(kind),
                    text_view(url),
                    text_view(addr),
                    flag_set(text_view(tls)),
                ),
            ),
{
    let kind = get(CHAIN_SOURCE_ENV);
    let url = get(ESPLORA_URL_ENV);
    let addr = get(ELECTRUM_ADDR_ENV);
    let tls = get(ELECTRUM_TLS_ENV);
    assert(read_settings(get, kind, url, addr, tls));
    let tls_flag = parse_electrum_tls_flag(borrowed(&tls));
    product_chain_source_config_with_electrum_tls(
        borrowed(&kind),
        borrowed(&url),
        borrowed(&addr),
        tls_flag,
    )
}

/// `get` may return these values for the four settings.
pub open spec fn read_settings<F: Fn(&str) -> Option<String>>(
    get: F,
    kind: Option<String>,
    url: Option<String>,
    addr: Option<String>,
    tls: Option<String>,
) -> bool {
    &&& call_ensures(get, (CHAIN_SOURCE_ENV,), kind)
    &&& call_ensures(get, (ESPLORA_URL_ENV,), url)
    &&& call_ensures(get, (ELECTRUM_ADDR_ENV,), addr)
    &&& call_ensures(get, (ELECTRUM_TLS_ENV,), tls)
}

/// Backends that a program was built with.
#[derive(Clone, Copy, PartialEq, Eq, Structural, Debug)]
pub struct CompiledBackends {
    pub explorer_http: bool,
    pub esplora: bool,
    pub electrum: bool,
}

/// A backend that can be opened: everything about it was checked, nothing was connected.
#[derive(PartialEq, Eq, Debug)]
pub enum ChainBackend {
    Mempool { network: BitcoinNetwork },
    Esplora { base_url: String },
    Electrum { addr: String, chain: Network, tls: bool },
}

/// Model of [`ChainBackend`].
pub enum Backend {
    Mempool { network: BitcoinNetwork },
    Esplora { base_url: Seq<char> },
    Electrum { addr: Seq<char>, chain: Network, tls: bool },
}

impl View for ChainBackend {
    type V = Backend;

    open spec fn view(&self) -> Backend {
        match self {
            ChainBackend::Mempool { network } => Backend::Mempool { network: *network },
            ChainBackend::Esplora { base_url } => Backend::Esplora { base_url: base_url@ },
            ChainBackend::Electrum { addr, chain, tls } => Backend::Electrum {
                addr: addr@,
                chain: *chain,
                tls: *tls,
            },
        }
    }
}

/// What is wrong with the Esplora URL of a configuration, or the URL.
pub open spec fn config_esplora_url(config: ChainConfig) -> Result<Seq<char>, Seq<char>> {
    match given(config.esplora_url) {
        None => Err(
            "chain/broadcast backend 'esplora' requires "@ + ESPLORA_URL_ENV@
                + " (Esplora REST base URL)"@,
        ),
        Some(url) => match esplora_url_fault(url) {
            Some(message) => Err(message),
            None => Ok(url),
        },
    }
}

/// What is wrong with the Electrum endpoint of a configuration, or the endpoint and whether to use
/// TLS.
pub open spec fn config_electrum_endpoint(config: ChainConfig) -> Result<
    (Seq<char>, bool),
    Seq<char>,
> {
    match given(config.electrum_addr) {
        None => Err(
            "chain/broadcast backend 'electrum' requires "@ + ELECTRUM_ADDR_ENV@
                + " (host:port or ssl://host:port)"@,
        ),
        Some(addr) => match electrum_endpoint(addr) {
            Err(message) => Err(message),
            Ok((host_port, scheme_tls)) => Ok((host_port, scheme_tls || config.electrum_tls)),
        },
    }
}

/// The checked Esplora URL of a configuration.
pub fn validated_esplora_url_from_config(config: &ProductChainSourceConfig) -> (r: Result<
    String,
    WalletError,
>)
    ensures
        match config_esplora_url(config@) {
            Ok(url) => r matches Ok(u) && u@ == url,
            Err(message) => explorer_error(r, message),
        },
{
    match given_text(borrowed(&config.esplora_url)) {
        None => {
            let mut message = "chain/broadcast backend 'esplora' requires ".to_owned();
            message.append(ESPLORA_URL_ENV);
            message.append(" (Esplora REST base URL)");
            Err(WalletError::Explorer(message))
        },
        Some(url) => match validate_esplora_base_url(url) {
            Ok(()) => Ok(url.to_owned()),
            Err(e) => Err(e),
        },
    }
}

/// The checked Electrum endpoint of a configuration, and whether to use TLS.
pub fn validated_electrum_endpoint_from_config(config: &ProductChainSourceConfig) -> (r: Result<
    (String, bool),
    WalletError,
>)
    ensures
        match config_electrum_endpoint(config@) {
            Ok((host_port, tls)) => r matches Ok((h, t)) && h@ == host_port && t == tls,
            Err(message) => explorer_error(r, message),
        },
{
    match given_text(borrowed(&config.electrum_addr)) {
        None => {
            let mut message = "chain/broadcast backend 'electrum' requires ".to_owned();
            message.append(ELECTRUM_ADDR_ENV);
            message.append(" (host:port or ssl://host:port)");
            Err(WalletError::Explorer(message))
        },
        Some(raw) => match normalize_electrum_addr(raw) {
            Ok((host_port, scheme_tls)) => Ok((host_port, scheme_tls || config.electrum_tls)),
            Err(e) => Err(e),
        },
    }
}

/// What a backend is opened for.
#[derive(Clone, Copy, PartialEq, Eq, Structural, Debug)]
pub enum BackendUse {
    ChainSource,
    Broadcast,
}

/// The first words of a message on a backend that is missing.
pub open spec fn use_words(purpose: BackendUse) -> Seq<char> {
    match purpose {
        BackendUse::ChainSource => "chain source "@,
        BackendUse::Broadcast => "broadcast backend "@,
    }
}

/// What is said of a backend that the program was not built with.
pub open spec fn missing_backend(kind: ChainSourceKind) -> Seq<char> {
    match kind {
        ChainSourceKind::Mempool => "'mempool' requires feature `explorer-http` (not compiled into this build; rebuild with explorer-http or select another backend)"@,
        ChainSourceKind::Esplora => "'esplora' requires feature `esplora` (not compiled into this build; rebuild with --features esplora, set GROK_BITCOIN_ESPLORA_URL, or use GROK_BITCOIN_CHAIN_SOURCE=mempool)"@,
        ChainSourceKind::Electrum => "'electrum' requires feature `electrum` (not compiled into this build; rebuild with --features electrum, set GROK_BITCOIN_ELECTRUM_ADDR [and optional GROK_BITCOIN_ELECTRUM_TLS=1 or ssl://host:port for TLS], or use GROK_BITCOIN_CHAIN_SOURCE=mempool)"@,
    }
}

impl CompiledBackends {
    /// Whether the program was built with a backend.
    pub open spec fn holds(self, kind: ChainSourceKind) -> bool {
        match kind {
            ChainSourceKind::Mempool => self.explorer_http,
            ChainSourceKind::Esplora => self.esplora,
            ChainSourceKind::Electrum => self.electrum,
        }
    }

    /// Whether the program was built with a backend; the error says how to get it.
    fn require(self, kind: ChainSourceKind, purpose: BackendUse) -> (r: Result<(), WalletError>)
        ensures
            self.holds(kind) ==> r is Ok,
            !self.holds(kind) ==> explorer_error(r, use_words(purpose) + missing_backend(kind)),
    {
        let (there, missing) = match kind {
            ChainSourceKind::Mempool => (
                self.explorer_http,
                "'mempool' requires feature `explorer-http` (not compiled into this build; rebuild with explorer-http or select another backend)",
            ),
            ChainSourceKind::Esplora => (
                self.esplora,
                "'esplora' requires feature `esplora` (not compiled into this build; rebuild with --features esplora, set GROK_BITCOIN_ESPLORA_URL, or use GROK_BITCOIN_CHAIN_SOURCE=mempool)",
            ),
            ChainSourceKind::Electrum => (
                self.electrum,
                "'electrum' requires feature `electrum` (not compiled into this build; rebuild with --features electrum, set GROK_BITCOIN_ELECTRUM_ADDR [and optional GROK_BITCOIN_ELECTRUM_TLS=1 or ssl://host:port for TLS], or use GROK_BITCOIN_CHAIN_SOURCE=mempool)",
            ),
        };
        if there {
            return Ok(());
        }
        let mut message = match purpose {
            BackendUse::ChainSource => "chain source ".to_owned(),
            BackendUse::Broadcast => "broadcast backend ".to_owned(),
        };
        message.append(missing);
        Err(WalletError::Explorer(message))
    }
}

/// The backend of a configuration, or what is wrong: the settings are checked again before
/// anything else, then whether the program was built with the backend.
pub open spec fn backend_for(
    config: ChainConfig,
    network: BitcoinNetwork,
    built: CompiledBackends,
    purpose: BackendUse,
) -> Result<Backend, Seq<char>> {
    let checked = match config.kind {
        ChainSourceKind::Mempool => Ok(Backend::Mempool { network }),
        ChainSourceKind::Esplora => match config_esplora_url(config) {
            Ok(base_url) => Ok(Backend::Esplora { base_url }),
            Err(message) => Err(message),
        },
        ChainSourceKind::Electrum => match config_electrum_endpoint(config) {
            Ok((addr, tls)) => Ok(
                Backend::Electrum { addr, chain: electrum_network(network), tls },
            ),
            Err(message) => Err(message),
        },
    };
    if checked is Ok && !built.holds(config.kind) {
        Err(use_words(purpose) + missing_backend(config.kind))
    } else {
        checked
    }
}

/// What an opening function returns.
pub open spec fn is_backend(
    r: Result<ChainBackend, WalletError>,
    expected: Result<Backend, Seq<char>>,
) -> bool {
    match expected {
        Ok(backend) => r matches Ok(b) && b@ == backend,
        Err(message) => explorer_error(r, message),
    }
}

/// The backend of a configuration, checked.
fn open_backend(
    config: &ProductChainSourceConfig,
    network: BitcoinNetwork,
    built: CompiledBackends,
    purpose: BackendUse,
) -> (r: Result<ChainBackend, WalletError>)
    ensures
        is_backend(r, backend_for(config@, network, built, purpose)),
{
    let backend = match config.kind {
        ChainSourceKind::Mempool => ChainBackend::Mempool { network },
        ChainSourceKind::Esplora => match validated_esplora_url_from_config(config) {
            Ok(base_url) => ChainBackend::Esplora { base_url },
            Err(e) => return Err(e),
        },
        ChainSourceKind::Electrum => match validated_electrum_endpoint_from_config(config) {
            Ok((addr, tls)) => ChainBackend::Electrum {
                addr,
                chain: bitcoin_network_for_electrum(network),
                tls,
            },
            Err(e) => return Err(e),
        },
    };
    match built.require(config.kind, purpose) {
        Ok(()) => Ok(backend),
        Err(e) => Err(e),
    }
}

/// The backend that coins are listed from. Nothing is connected.
pub fn open_product_chain_source(
    config: &ProductChainSourceConfig,
    network: BitcoinNetwork,
    built: CompiledBackends,
) -> (r: Result<ChainBackend, WalletError>)
    ensures
        is_backend(r, backend_for(config@, network, built, BackendUse::ChainSource)),
{
    open_backend(config, network, built, BackendUse::ChainSource)
}

/// The backend that transactions are sent to. Nothing is connected.
pub fn open_product_tx_broadcaster(
    config: &ProductChainSourceConfig,
    network: BitcoinNetwork,
    built: CompiledBackends,
) -> (r: Result<ChainBackend, WalletError>)
    ensures
        is_backend(r, backend_for(config@, network, built, BackendUse::Broadcast)),
{
    open_backend(config, network, built, BackendUse::Broadcast)
}

/// The backend that settings lead to, or what is wrong with them.
pub open spec fn backend_from(
    config: Result<ChainConfig, Seq<char>>,
    network: BitcoinNetwork,
    built: CompiledBackends,
    purpose: BackendUse,
) -> Result<Backend, Seq<char>> {
    match config {
        Ok(config) => backend_for(config, network, built, purpose),
        Err(message) => Err(message),
    }
}

/// [`open_product_chain_source`] with settings that `get` looks up.
pub fn open_product_chain_source_from_env_reader<F: Fn(&str) -> Option<String>>(
    network: BitcoinNetwork,
    get: F,
    built: CompiledBackends,
) -> (r: Result<ChainBackend, WalletError>)
    requires
        call_requires(get, (CHAIN_SOURCE_ENV,)),
        call_requires(get, (ESPLORA_URL_ENV,)),
        call_requires(get, (ELECTRUM_ADDR_ENV,)),
        call_requires(get, (ELECTRUM_TLS_ENV,)),
    ensures
        exists|
            kind: Option<String>,
            url: Option<String>,
            addr: Option<String>,
            tls: Option<String>,
        | #![trigger read_settings(get, kind, url, addr, tls)]
            read_settings(get, kind, url, addr, tls) && is_backend(
                r,
                backend_from(
                    chain_config(
                        text_view(kind),
                        text_view(url),
                        text_view(addr),
                        flag_set(text_view(tls)),
                    ),
                    network,
                    built,
                    BackendUse::ChainSource,
                ),
            ),
{
    match product_chain_source_config_from_env_reader(get) {
        Ok(config) => open_product_chain_source(&config, network, built),
        Err(e) => Err(e),
    }
}

/// [`open_product_tx_broadcaster`] with settings that `get` looks up.
pub fn open_product_tx_broadcaster_from_env_reader<F: Fn(&str) -> Option<String>>(
    network: BitcoinNetwork,
    get: F,
    built: CompiledBackends,
) -> (r: Result<ChainBackend, WalletError>)
    requires
        call_requires(get, (CHAIN_SOURCE_ENV,)),
        call_requires(get, (ESPLORA_URL_ENV,)),
        call_requires(get, (ELECTRUM_ADDR_ENV,)),
        call_requires(get, (ELECTRUM_TLS_ENV,)),
    ensures
        exists|
            kind: Option<String>,
            url: Option<String>,
            addr: Option<String>,
            tls: Option<String>,
        | #![trigger read_settings(get, kind, url, addr, tls)]
            read_settings(get, kind, url, addr, tls) && is_backend(
                r,
                backend_from(
                    chain_config(
                        text_view(kind),
                        text_view(url),
                        text_view(addr),
                        flag_set(text_view(tls)),
                    ),
                    network,
                    built,
                    BackendUse::Broadcast,
                ),
            ),
{
    match product_chain_source_config_from_env_reader(get) {
        Ok(config) => open_product_tx_broadcaster(&config, network, built),
        Err(e) => Err(e),
    }
}

/// Coins are listed from the backend that transactions are sent to.
pub proof fn lemma_one_backend(
    config: ChainConfig,
    network: BitcoinNetwork,
    built: CompiledBackends,
)
    ensures
        backend_for(config, network, built, BackendUse::ChainSource) is Ok <==> backend_for(
            config,
            network,
            built,
            BackendUse::Broadcast,
        ) is Ok,
        backend_for(config, network, built, BackendUse::ChainSource) is Ok ==> backend_for(
            config,
            network,
            built,
            BackendUse::ChainSource,
        ) == backend_for(config, network, built, BackendUse::Broadcast),
{
}

/// A setting that is not there, or blank, is the default, whatever the other settings are.
pub proof fn lemma_default_is_mempool(
    kind: Option<Seq<char>>,
    esplora_url: Option<Seq<char>>,
    electrum_addr: Option<Seq<char>>,
    tls_flag: bool,
)
    requires
        kind matches Some(s) ==> trimmed(s).len() == 0,
    ensures
        chain_config(kind, esplora_url, electrum_addr, tls_flag) == Ok::<ChainConfig, Seq<char>>(
            mempool_config(),
        ),
{
}

/// `ssl://` forces TLS, whatever the flag says. Without a scheme the flag decides.
pub proof fn lemma_scheme_or_flag(
    kind: Option<Seq<char>>,
    esplora_url: Option<Seq<char>>,
    addr: Seq<char>,
    tls_flag: bool,
)
    ensures
        chain_config(kind, esplora_url, Some(addr), tls_flag) matches Ok(config) ==> (
        config.kind is Electrum ==> config.electrum_tls == (has_prefix(
            lowered(trimmed(addr)),
            "ssl://"@,
        ) || tls_flag)),
{
    let t = trimmed(addr);
    lemma_trimmed(addr);
    if t.len() > 0 {
        lemma_already_trimmed(t);
    }
}

/// A text without white space at its ends is what trimming leaves of it.
proof fn lemma_already_trimmed(s: Seq<char>)
    requires
        s.len() > 0,
        !is_space(s[0]),
        !is_space(s.last()),
    ensures
        trimmed(s) == s,
{
}

/// Settings that are accepted lead to a backend, if the program was built with it: the one they
/// describe. An address with white space behind `ssl://` is left out where the address is not
/// valid without that white space.
pub proof fn lemma_accepted_settings_open(
    kind: Option<Seq<char>>,
    esplora_url: Option<Seq<char>>,
    electrum_addr: Option<Seq<char>>,
    tls_flag: bool,
    network: BitcoinNetwork,
    built: CompiledBackends,
    purpose: BackendUse,
)
    requires
        chain_config(kind, esplora_url, electrum_addr, tls_flag) is Ok,
        (chain_config(kind, esplora_url, electrum_addr, tls_flag)->Ok_0).electrum_addr matches Some(
            addr,
        ) ==> !is_space(addr[0]) || (trimmed(addr).len() > 0 && host_port_fault(trimmed(addr)) is None),
    ensures
        ({
            let config = chain_config(kind, esplora_url, electrum_addr, tls_flag)->Ok_0;
            let backend = backend_for(config, network, built, purpose);
            &&& backend is Ok <==> built.holds(config.kind)
            &&& backend matches Ok(opened) ==> opened == match config.kind {
                ChainSourceKind::Mempool => Backend::Mempool { network },
                ChainSourceKind::Esplora => Backend::Esplora { base_url: config.esplora_url->0 },
                ChainSourceKind::Electrum => Backend::Electrum {
                    addr: trimmed(config.electrum_addr->0),
                    chain: electrum_network(network),
                    tls: config.electrum_tls,
                },
            }
        }),
{
    let config = chain_config(kind, esplora_url, electrum_addr, tls_flag)->Ok_0;
    match config.kind {
        ChainSourceKind::Mempool => {},
        ChainSourceKind::Esplora => {
            lemma_trimmed(esplora_url->0);
            lemma_already_trimmed(config.esplora_url->0);
        },
        ChainSourceKind::Electrum => {
            let setting = given(electrum_addr)->0;
            lemma_trimmed(electrum_addr->0);
            lemma_already_trimmed(setting);
            let addr = config.electrum_addr->0;
            if has_prefix(lowered(setting), "ssl://"@) {
                reveal_strlit("ssl://");
                assert(addr == setting.skip(6));
                assert(addr.last() == setting.last());
            } else {
                assert(addr == setting);
            }
            if !is_space(addr[0]) {
                lemma_already_trimmed(addr);
            }
            let bare = trimmed(addr);
            lemma_trimmed(addr);
            lemma_already_trimmed(bare);
            lemma_scheme_has_part(bare);
        },
    }
}

/// A port is a number from 1 to 65535 in decimal.
pub proof fn lemma_ports(port: nat, text: Seq<char>)
    ensures
        port_fault(decimal(port)) is None <==> 1 <= port <= 65535,
        port_fault(text) is None ==> all_digits(text) && 1 <= decimal_value(text) <= 65535,
        port_fault(Seq::empty()) is Some,
{
    lemma_decimal_round_trip(port);
    if all_digits(text) {
        lemma_value_of_digits(text);
    }
}

proof fn lemma_value_of_digits(s: Seq<char>)
    requires
        all_digits(s),
    ensures
        decimal_value(s) >= 0,
    decreases s.len(),
{
    if s.len() > 0 {
        assert forall|i: int| 0 <= i < s.drop_last().len() implies '0' <= #[trigger] s.drop_last()[i]
            <= '9' by {
            assert(s.drop_last()[i] == s[i]);
        }
        assert('0' <= s[s.len() - 1] <= '9');
        lemma_value_of_digits(s.drop_last());
    }
}

/// A host and a port with a colon between them are an endpoint, as they are and without TLS; the
/// host holds no colon, and the port is one.
pub proof fn lemma_host_and_port(host: Seq<char>, port: nat)
    requires
        host.len() > 0,
        host[0] != '[',
        !is_space(host[0]),
        !host.contains(':'),
    ensures
        host_port_fault(host + seq![':'] + decimal(port)) is None <==> 1 <= port <= 65535,
        1 <= port <= 65535 ==> electrum_endpoint(host + seq![':'] + decimal(port)) == Ok::<
            (Seq<char>, bool),
            Seq<char>,
        >((host + seq![':'] + decimal(port), false)),
{
    let addr = host + seq![':'] + decimal(port);
    let n = host.len() as int;
    reveal_strlit("://");
    reveal_strlit(":");
    lemma_decimal_round_trip(port);
    let digits = decimal(port);
    assert forall|i: int| 0 <= i < addr.len() && #[trigger] addr[i] == ':' implies i == n by {
        if i < n {
            assert(host[i] == ':');
            assert(host.contains(':'));
        } else if i > n {
            assert(digits[i - n - 1] == ':');
        }
    }
    assert(addr[n + 1] == digits[0]);
    assert(!has_part(addr, "://"@)) by {
        if has_part(addr, "://"@) {
            let i = choose|i: int| stands_at(addr, "://"@, i);
            let part = addr.subrange(i, i + 3);
            assert(part[0] == addr[i] && part[1] == addr[i + 1]);
            assert("://"@[0] == ':' && "://"@[1] == '/');
        }
    }
    assert(addr.subrange(n, n + 1) =~= ":"@);
    assert(stands_at(addr, ":"@, n));
    lemma_index_from(addr, ":"@, 0);
    assert(index_of(addr, ":"@) == Some(n)) by {
        let i = index_of(addr, ":"@)->0;
        assert(addr.subrange(i, i + 1)[0] == addr[i]);
        assert(":"@[0] == ':');
    }
    assert(addr.skip(n + 1) =~= digits);
    assert(!has_part(digits, ":"@)) by {
        if has_part(digits, ":"@) {
            let i = choose|i: int| stands_at(digits, ":"@, i);
            assert(digits.subrange(i, i + 1)[0] == digits[i]);
            assert(":"@[0] == ':');
        }
    }
    lemma_ports(port, digits);
    assert(addr[0] == host[0]);
    assert(addr.last() == digits.last());
    assert(!is_space(addr.last()));
    lemma_already_trimmed(addr);
    lemma_scheme_has_part(addr);
}

/// `ssl://` in front of an endpoint asks for TLS and leaves the endpoint as it is. Any other
/// scheme is refused.
pub proof fn lemma_tls_scheme(addr: Seq<char>, other: Seq<char>)
    requires
        addr.len() > 0,
        !is_space(addr.last()),
        host_port_fault(addr) is None,
    ensures
        electrum_endpoint("ssl://"@ + addr) == Ok::<(Seq<char>, bool), Seq<char>>((addr, true)),
        electrum_endpoint("SSL://"@ + addr) == Ok::<(Seq<char>, bool), Seq<char>>((addr, true)),
        electrum_endpoint("tcp://"@ + addr) is Err,
{
    reveal_strlit("ssl://");
    reveal_strlit("SSL://");
    reveal_strlit("tcp://");
    reveal_strlit("://");
    let small = "ssl://"@ + addr;
    let large = "SSL://"@ + addr;
    let plain = "tcp://"@ + addr;
    assert(small.last() == addr.last() && large.last() == addr.last() && plain.last()
        == addr.last());
    assert(!is_space(small[0]) && !is_space(large[0]) && !is_space(plain[0]));
    lemma_already_trimmed(small);
    lemma_already_trimmed(large);
    lemma_already_trimmed(plain);
    assert(lowered(small).take(6) =~= "ssl://"@);
    assert(lowered(large).take(6) =~= "ssl://"@);
    assert(small.skip(6) =~= addr);
    assert(large.skip(6) =~= addr);
    assert(lowered(plain).take(6)[0] == 't');
    assert("ssl://"@[0] == 's');
    assert(plain.subrange(3, 6) =~= "://"@);
    assert(stands_at(plain, "://"@, 3));
}

/// A URL of an Esplora API is a web address with a host: something other than a slash stands
/// behind the scheme, whose letter case does not count.
pub proof fn lemma_esplora_url(rest: Seq<char>, url: Seq<char>)
    ensures
        esplora_url_fault("https://"@ + rest) is None <==> rest.len() > 0 && rest[0] != '/',
        esplora_url_fault("http://"@ + rest) is None <==> rest.len() > 0 && rest[0] != '/',
        esplora_url_fault(url) is None ==> has_prefix(lowered(url), "http"@) && url.len() > 7,
        lowered(url) == lowered(rest) ==> (esplora_url_fault(url) is None <==> esplora_url_fault(
            rest,
        ) is None),
{
    reveal_strlit("https://");
    reveal_strlit("http://");
    reveal_strlit("http");
    let safe = "https://"@ + rest;
    let plain = "http://"@ + rest;
    assert(lowered(safe).take(8) =~= "https://"@);
    assert(lowered(plain).take(7) =~= "http://"@);
    assert(lowered(plain).len() >= 8 ==> lowered(plain).take(8)[4] == ':');
    assert("https://"@[4] == 's');
    assert(lowered(safe).skip(8) =~= lowered(rest));
    assert(lowered(plain).skip(7) =~= lowered(rest));
    assert(rest.len() > 0 ==> (lowered(rest)[0] == '/' <==> rest[0] == '/'));
    let low = lowered(url);
    if esplora_url_fault(url) is None {
        if has_prefix(low, "https://"@) {
            assert(low.take(4) =~= low.take(8).take(4));
            assert("https://"@.take(4) =~= "http"@);
        } else {
            assert(low.take(4) =~= low.take(7).take(4));
            assert("http://"@.take(4) =~= "http"@);
        }
    }
}

/// Settings of a backend that was not chosen make no difference, and those of the chosen one stand
/// in the configuration as they were given.
pub proof fn lemma_settings_are_kept(
    kind: Seq<char>,
    url: Seq<char>,
    addr: Seq<char>,
    tls_flag: bool,
    other_url: Option<Seq<char>>,
    other_addr: Option<Seq<char>>,
    other_flag: bool,
)
    ensures
        lowered(trimmed(kind)) == "esplora"@ && trimmed(url).len() > 0 && esplora_url_fault(
            trimmed(url),
        ) is None ==> (chain_config(Some(kind), Some(url), other_addr, tls_flag) matches Ok(config)
            && config.kind is Esplora && config.esplora_url == Some(trimmed(url))
            && config.electrum_addr is None),
        lowered(trimmed(kind)) == "esplora"@ ==> {
            &&& chain_config(Some(kind), None, other_addr, tls_flag) is Err
            &&& chain_config(Some(kind), Some(url), Some(addr), tls_flag) == chain_config(
                Some(kind),
                Some(url),
                other_addr,
                other_flag,
            )
        },
        lowered(trimmed(kind)) == "electrum"@ ==> {
            &&& chain_config(Some(kind), other_url, None, tls_flag) is Err
            &&& chain_config(Some(kind), Some(url), Some(addr), tls_flag) == chain_config(
                Some(kind),
                other_url,
                Some(addr),
                tls_flag,
            )
            &&& trimmed(addr).len() > 0 && electrum_endpoint(trimmed(addr)) is Ok ==> (chain_config(
                Some(kind),
                other_url,
                Some(addr),
                tls_flag,
            ) matches Ok(config) && config.kind is Electrum && config.electrum_addr == Some(
                electrum_endpoint(trimmed(addr))->Ok_0.0,
            ) && config.esplora_url is None)
        },
{
    reveal_strlit("esplora");
    reveal_strlit("electrum");
    reveal_strlit("mempool");
    assert("mempool"@[0] == 'm' && "esplora"@[1] == 's' && "electrum"@[1] == 'l');
    assert("esplora"@[0] == 'e' && "electrum"@[0] == 'e');
    assert(lowered(trimmed(kind)).len() == trimmed(kind).len());
}

/// TLS is switched on by `1`, `true` or `yes`, white space around them and letter case aside, and
/// by nothing else.
pub proof fn lemma_flag_set(s: Seq<char>)
    ensures
        lowered(trimmed(s)) == "1"@ || lowered(trimmed(s)) == "true"@ || lowered(trimmed(s))
            == "yes"@ <==> flag_set(Some(s)),
        !flag_set(None),
{
    reveal_strlit("1");
    reveal_strlit("true");
    reveal_strlit("yes");
    assert(lowered(trimmed(s)).len() == trimmed(s).len());
}

/// The note on two backends names the one that coins are listed from first, then the one that
/// transactions go to.
pub proof fn lemma_diverging_note(utxo: ChainSourceKind, broadcast: ChainSourceKind)
    ensures
        has_prefix(diverging_note(utxo, broadcast), "Note: UTXO list uses "@ + utxo.name()),
        has_part(
            diverging_note(utxo, broadcast),
            " but --broadcast submits via "@ + broadcast.name(),
        ),
{
    let note = diverging_note(utxo, broadcast);
    let start = "Note: UTXO list uses "@ + utxo.name();
    let part = " but --broadcast submits via "@ + broadcast.name();
    assert(note.take(start.len() as int) =~= start);
    let n = start.len() as int;
    assert(note.subrange(n, n + part.len()) =~= part);
    assert(stands_at(note, part, n));
}

/// A text with the scheme `ssl://` holds `://`.
proof fn lemma_scheme_has_part(s: Seq<char>)
    ensures
        has_prefix(lowered(s), "ssl://"@) ==> has_part(s, "://"@),
{
    reveal_strlit("ssl://");
    reveal_strlit("://");
    if has_prefix(lowered(s), "ssl://"@) {
        let low = lowered(s);
        assert(low.take(6)[3] == low[3] && low.take(6)[4] == low[4] && low.take(6)[5] == low[5]);
        assert(low[3] == "ssl://"@[3] && low[4] == "ssl://"@[4] && low[5] == "ssl://"@[5]);
        assert(s[3] == ':' && s[4] == '/' && s[5] == '/');
        assert(s.subrange(3, 6) =~= "://"@);
        assert(stands_at(s, "://"@, 3));
    }
}

} // verus!
