//! The program that pays and writes Lightning invoices: its requests, what each asks for, and its
//! replies. A request is one JSON object on standard input, a reply one on standard output.

use vstd::prelude::*;
use vstd::string::StringExecFns;
use vstd::utf8::encode_utf8;

use crate::bolt11::{has_invoice_prefix, invoice_prefix};
use crate::chain_select::{borrowed, given, given_text};
use crate::funding::text_view;
use crate::json::{
    add_flag_member, add_member, add_text_member, bool_str, bool_text, flag_member, json_member,
    json_quoted, lemma_member_head, text_member,
};
use crate::mnemonic::{check_words, words_parsed};
use crate::network::Network;
use crate::path::{is_absolute_dir, may_be_absolute_dir};
use crate::secret::wipe_text;
use crate::text::{
    contains, decimal, decimal_text, has_part, has_prefix, hex_of, hex_text, lemma_holds,
    lemma_holds_none, lemma_holds_one_more, lower, lowered, same, stands_at, starts_with, trim, trim_end, trim_start, trimmed,
};

verus! {

/// Version of requests and replies.
pub const PROTOCOL_V: u32 = 1;

/// Seconds to wait for a payment, where a request names none.
pub const DEFAULT_TIMEOUT_SECS: u64 = 120;

/// Seconds for which an invoice can be paid, where a request names none.
pub const DEFAULT_INVOICE_EXPIRY_SECS: u32 = 3600;

/// Description of an invoice, where a request gives none.
pub const DEFAULT_INVOICE_DESCRIPTION: &'static str = "grok-bitcoin-ldk-node receive";

/// Reply to the command `open_channel`, which is known and never carried out.
pub const RESIDUAL_OPEN_CHANNEL_ERROR: &'static str = "residual: open_channel not implemented in this helper (product residual; no live channel-open contract; never invents channel_id Success)";

/// Reply to the command `connect_peer`, which is known and never carried out.
pub const RESIDUAL_CONNECT_PEER_ERROR: &'static str = "residual: connect_peer not implemented in this helper (product residual; no live peer-connect contract; never invents peer Success)";

/// Request, one JSON object. It holds secrets, which are wiped when it is dropped.
pub struct Request {
    pub v: u32,
    pub cmd: String,
    pub invoice: Option<String>,
    pub mnemonic: Option<String>,
    pub passphrase: Option<String>,
    pub network: Option<String>,
    pub storage_dir: Option<String>,
    pub esplora_url: Option<String>,
    pub timeout_secs: Option<u64>,
    pub amount_sats: Option<u64>,
    pub description: Option<String>,
    pub expiry_secs: Option<u32>,
    pub peer_node_id: Option<String>,
    pub peer_uri: Option<String>,
    pub capacity_sats: Option<u64>,
}

/// Model of [`Request`].
pub struct Ask {
    pub v: u32,
    pub cmd: Seq<char>,
    pub invoice: Option<Seq<char>>,
    pub mnemonic: Option<Seq<char>>,
    pub passphrase: Option<Seq<char>>,
    pub network: Option<Seq<char>>,
    pub storage_dir: Option<Seq<char>>,
    pub esplora_url: Option<Seq<char>>,
    pub timeout_secs: Option<u64>,
    pub amount_sats: Option<u64>,
    pub description: Option<Seq<char>>,
    pub expiry_secs: Option<u32>,
    pub peer_node_id: Option<Seq<char>>,
    pub peer_uri: Option<Seq<char>>,
    pub capacity_sats: Option<u64>,
}

impl View for Request {
    type V = Ask;

    open spec fn view(&self) -> Ask {
        Ask {
            v: self.v,
            cmd: self.cmd@,
            invoice: text_view(self.invoice),
            mnemonic: text_view(self.mnemonic),
            passphrase: text_view(self.passphrase),
            network: text_view(self.network),
            storage_dir: text_view(self.storage_dir),
            esplora_url: text_view(self.esplora_url),
            timeout_secs: self.timeout_secs,
            amount_sats: self.amount_sats,
            description: text_view(self.description),
            expiry_secs: self.expiry_secs,
            peer_node_id: text_view(self.peer_node_id),
            peer_uri: text_view(self.peer_uri),
            capacity_sats: self.capacity_sats,
        }
    }
}

impl Drop for Request {
    fn drop(&mut self)
        opens_invariants none
        no_unwind
    {
        zeroize_request_secrets(self);
    }
}

/// A text that was wiped, where there was one.
pub open spec fn wiped(text: Option<Seq<char>>) -> Option<Seq<char>> {
    match text {
        Some(_) => Some(Seq::empty()),
        None => None,
    }
}

/// Wipes a text.
pub fn wipe_optional(text: &mut Option<String>)
    ensures
        text_view(*final(text)) == wiped(text_view(*old(text))),
    opens_invariants none
    no_unwind
{
    match text {
        Some(t) => wipe_text(t),
        None => {},
    }
}

/// Wipes the secrets of a request and leaves the rest as it is.
pub fn zeroize_request_secrets(req: &mut Request)
    ensures
        final(req)@ == (Ask {
            mnemonic: wiped(old(req)@.mnemonic),
            passphrase: wiped(old(req)@.passphrase),
            ..old(req)@
        }),
    opens_invariants none
    no_unwind
{
    wipe_optional(&mut req.mnemonic);
    wipe_optional(&mut req.passphrase);
}

/// The model of what reading a request gave.
pub open spec fn ask_result(r: Result<Request, String>) -> Result<Ask, Seq<char>> {
    match r {
        Ok(req) => Ok(req@),
        Err(e) => Err(e@),
    }
}

/// A request that was read, or what is said of a text that holds none.
pub open spec fn accepted(read: Result<Ask, Seq<char>>) -> Result<Ask, Seq<char>> {
    match read {
        Ok(ask) => Ok(ask),
        Err(e) => Err("invalid JSON request: "@ + e),
    }
}

/// A request that was read, or what is said of a text that holds none.
pub fn accept_request(read: Result<Request, String>) -> (r: Result<Request, String>)
    ensures
        ask_result(r) == accepted(ask_result(read)),
{
    match read {
        Ok(req) => Ok(req),
        Err(e) => {
            let mut message = "invalid JSON request: ".to_owned();
            message.append(e.as_str());
            Err(message)
        },
    }
}

/// Whether reading a text may give this.
pub open spec fn may_read<F: Fn(&str) -> Result<Request, String>>(
    read: F,
    text: Seq<char>,
    given: Result<Ask, Seq<char>>,
) -> bool {
    exists|t: &str, r: Result<Request, String>|
        t@ == text && ask_result(r) == given && #[trigger] call_ensures(read, (t,), r)
}

/// The request in a text, white space around it aside. `read` reads JSON.
pub fn parse_request<F: Fn(&str) -> Result<Request, String>>(text: &str, read: F) -> (r: Result<
    Request,
    String,
>)
    requires
        forall|t: &str| t@ == trimmed(text@) ==> #[trigger] call_requires(read, (t,)),
    ensures
        exists|given: Result<Ask, Seq<char>>| #[trigger]
            may_read(read, trimmed(text@), given) && ask_result(r) == accepted(given),
{
    let given = read(trim(text));
    assert(may_read(read, trimmed(text@), ask_result(given)));
    accept_request(given)
}

/// Reply, one JSON object. It never holds recovery words.
#[derive(PartialEq, Eq, Debug)]
pub struct Response {
    pub v: u32,
    pub ok: bool,
    pub error: Option<String>,
    pub preimage_hex: Option<String>,
    pub payment_id_hex: Option<String>,
    pub bolt11: Option<String>,
    pub ldk_node_linked: Option<bool>,
    pub pong: Option<bool>,
}

/// Model of [`Response`].
pub struct Reply {
    pub v: u32,
    pub ok: bool,
    pub error: Option<Seq<char>>,
    pub preimage_hex: Option<Seq<char>>,
    pub payment_id_hex: Option<Seq<char>>,
    pub bolt11: Option<Seq<char>>,
    pub ldk_node_linked: Option<bool>,
    pub pong: Option<bool>,
}

impl View for Response {
    type V = Reply;

    open spec fn view(&self) -> Reply {
        Reply {
            v: self.v,
            ok: self.ok,
            error: text_view(self.error),
            preimage_hex: text_view(self.preimage_hex),
            payment_id_hex: text_view(self.payment_id_hex),
            bolt11: text_view(self.bolt11),
            ldk_node_linked: self.ldk_node_linked,
            pong: self.pong,
        }
    }
}

/// A reply of this version without any field.
pub open spec fn bare_reply(ok: bool) -> Reply {
    Reply {
        v: PROTOCOL_V,
        ok,
        error: None,
        preimage_hex: None,
        payment_id_hex: None,
        bolt11: None,
        ldk_node_linked: None,
        pong: None,
    }
}

/// A reply of this version without any field.
fn bare_response(ok: bool) -> (r: Response)
    ensures
        r@ == bare_reply(ok),
{
    Response {
        v: PROTOCOL_V,
        ok,
        error: None,
        preimage_hex: None,
        payment_id_hex: None,
        bolt11: None,
        ldk_node_linked: None,
        pong: None,
    }
}

/// A reply in JSON: the fields that are there, in a fixed order.
pub open spec fn reply_json(r: Reply) -> Seq<char> {
    "{\"v\":"@ + decimal(r.v as nat) + json_member("ok"@, bool_text(r.ok))
        + text_member("error"@, r.error)
        + text_member("preimage_hex"@, r.preimage_hex)
        + text_member("payment_id_hex"@, r.payment_id_hex)
        + text_member("bolt11"@, r.bolt11)
        + flag_member("ldk_node_linked"@, r.ldk_node_linked)
        + flag_member("pong"@, r.pong) + "}"@
}

impl Response {
    /// The reply in JSON.
    pub fn to_json(&self) -> (text: String)
        ensures
            text@ == reply_json(self@),
    {
        let mut text = "{\"v\":".to_owned();
        text.append(decimal_text(self.v as u64).as_str());
        add_member(&mut text, "ok", bool_str(self.ok));
        add_text_member(&mut text, "error", &self.error);
        add_text_member(&mut text, "preimage_hex", &self.preimage_hex);
        add_text_member(&mut text, "payment_id_hex", &self.payment_id_hex);
        add_text_member(&mut text, "bolt11", &self.bolt11);
        add_flag_member(&mut text, "ldk_node_linked", self.ldk_node_linked);
        add_flag_member(&mut text, "pong", self.pong);
        text.append("}");
        text
    }

    /// The exit code of the program that wrote the reply: zero for success alone.
    pub fn exit_code(&self) -> (code: i32)
        ensures
            code == if self.ok {
                0i32
            } else {
                1i32
            },
    {
        if self.ok {
            0
        } else {
            1
        }
    }

    /// The reply to the command `ping`.
    pub fn ok_ping() -> (r: Response)
        ensures
            r@ == ping_reply(),
    {
        let mut r = bare_response(true);
        r.ldk_node_linked = Some(true);
        r.pong = Some(true);
        r
    }

    /// The reply to a payment that was made.
    pub fn ok_pay(preimage_hex: String, payment_id_hex: Option<String>) -> (r: Response)
        ensures
            r@ == (Reply {
                preimage_hex: Some(preimage_hex@),
                payment_id_hex: text_view(payment_id_hex),
                ..bare_reply(true)
            }),
    {
        let mut r = bare_response(true);
        r.preimage_hex = Some(preimage_hex);
        r.payment_id_hex = payment_id_hex;
        r
    }

    /// The reply to a request for an invoice that was written.
    pub fn ok_invoice(bolt11: String) -> (r: Response)
        ensures
            r@ == (Reply { bolt11: Some(bolt11@), ..bare_reply(true) }),
    {
        let mut r = bare_response(true);
        r.bolt11 = Some(bolt11);
        r
    }

    /// The reply to a request that was not carried out.
    pub fn err(message: &str) -> (r: Response)
        ensures
            r@ == error_reply(message@),
    {
        let mut r = bare_response(false);
        r.error = Some(message.to_owned());
        r
    }
}

/// A reply in JSON holds the version and each of its values under its own name.
pub proof fn lemma_reply_json(r: Reply)
    ensures
        has_part(reply_json(r), "{\"v\":"@ + decimal(r.v as nat)),
        has_part(reply_json(r), ",\"ok\":"@ + (if r.ok {
            "true"@
        } else {
            "false"@
        })),
        r.error matches Some(x) ==> has_part(reply_json(r), ",\"error\":"@ + json_quoted(x)),
        r.preimage_hex matches Some(x) ==> has_part(reply_json(r), ",\"preimage_hex\":"@ + json_quoted(x)),
        r.payment_id_hex matches Some(x) ==> has_part(reply_json(r), ",\"payment_id_hex\":"@ + json_quoted(x)),
        r.bolt11 matches Some(x) ==> has_part(reply_json(r), ",\"bolt11\":"@ + json_quoted(x)),
        r.ldk_node_linked matches Some(x) ==> has_part(reply_json(r), ",\"ldk_node_linked\":"@ + (if x {
            "true"@
        } else {
            "false"@
        })),
        r.pong matches Some(x) ==> has_part(reply_json(r), ",\"pong\":"@ + (if x {
            "true"@
        } else {
            "false"@
        })),
{
    lemma_member_head();
    let s0 = "{\"v\":"@ + decimal(r.v as nat);
    let m0 = json_member("ok"@, bool_text(r.ok));
    let m1 = text_member("error"@, r.error);
    let m2 = text_member("preimage_hex"@, r.preimage_hex);
    let m3 = text_member("payment_id_hex"@, r.payment_id_hex);
    let m4 = text_member("bolt11"@, r.bolt11);
    let m5 = flag_member("ldk_node_linked"@, r.ldk_node_linked);
    let m6 = flag_member("pong"@, r.pong);
    let l0 = seq![s0];
    lemma_holds_none(Seq::empty());
    lemma_holds_one_more(Seq::empty(), Seq::empty(), s0);
    assert(Seq::<char>::empty() + s0 =~= s0);
    assert(Seq::<Seq<char>>::empty().push(s0) =~= l0);
    let (s1, l1) = (s0 + m0, l0.push(m0));
    lemma_holds_one_more(s0, l0, m0);
    let (s2, l2) = (s1 + m1, l1.push(m1));
    lemma_holds_one_more(s1, l1, m1);
    let (s3, l3) = (s2 + m2, l2.push(m2));
    lemma_holds_one_more(s2, l2, m2);
    let (s4, l4) = (s3 + m3, l3.push(m3));
    lemma_holds_one_more(s3, l3, m3);
    let (s5, l5) = (s4 + m4, l4.push(m4));
    lemma_holds_one_more(s4, l4, m4);
    let (s6, l6) = (s5 + m5, l5.push(m5));
    lemma_holds_one_more(s5, l5, m5);
    let (s7, l7) = (s6 + m6, l6.push(m6));
    lemma_holds_one_more(s6, l6, m6);
    lemma_holds_one_more(s7, l7, "}"@);
    let all = l7.push("}"@);
    let text = s7 + "}"@;
    assert(text == reply_json(r));
    lemma_holds(text, all, 0);
    lemma_holds(text, all, 1);
    assert(all[1] == m0);
    assert(",\"ok\":"@ =~= ",\""@ + "ok"@ + "\":"@) by {
        reveal_strlit("ok");
        reveal_strlit(",\"ok\":");
    }
    lemma_holds(text, all, 2);
    assert(all[2] == m1);
    assert(",\"error\":"@ =~= ",\""@ + "error"@ + "\":"@) by {
        reveal_strlit("error");
        reveal_strlit(",\"error\":");
    }
    lemma_holds(text, all, 3);
    assert(all[3] == m2);
    assert(",\"preimage_hex\":"@ =~= ",\""@ + "preimage_hex"@ + "\":"@) by {
        reveal_strlit("preimage_hex");
        reveal_strlit(",\"preimage_hex\":");
    }
    lemma_holds(text, all, 4);
    assert(all[4] == m3);
    assert(",\"payment_id_hex\":"@ =~= ",\""@ + "payment_id_hex"@ + "\":"@) by {
        reveal_strlit("payment_id_hex");
        reveal_strlit(",\"payment_id_hex\":");
    }
    lemma_holds(text, all, 5);
    assert(all[5] == m4);
    assert(",\"bolt11\":"@ =~= ",\""@ + "bolt11"@ + "\":"@) by {
        reveal_strlit("bolt11");
        reveal_strlit(",\"bolt11\":");
    }
    lemma_holds(text, all, 6);
    assert(all[6] == m5);
    assert(",\"ldk_node_linked\":"@ =~= ",\""@ + "ldk_node_linked"@ + "\":"@) by {
        reveal_strlit("ldk_node_linked");
        reveal_strlit(",\"ldk_node_linked\":");
    }
    lemma_holds(text, all, 7);
    assert(all[7] == m6);
    assert(",\"pong\":"@ =~= ",\""@ + "pong"@ + "\":"@) by {
        reveal_strlit("pong");
        reveal_strlit(",\"pong\":");
    }
}

/// The reply to the command `ping`.
pub open spec fn ping_reply() -> Reply {
    Reply { ldk_node_linked: Some(true), pong: Some(true), ..bare_reply(true) }
}

/// The reply to a request that was not carried out.
pub open spec fn error_reply(message: Seq<char>) -> Reply {
    Reply { error: Some(message), ..bare_reply(false) }
}

/// Commands that are known and never carried out.
#[derive(Clone, Copy, PartialEq, Eq, Structural, Debug)]
pub enum ResidualChannelCmd {
    OpenChannel,
    ConnectPeer,
}

impl ResidualChannelCmd {
    /// What is said of the command.
    pub open spec fn error(self) -> Seq<char> {
        match self {
            ResidualChannelCmd::OpenChannel => RESIDUAL_OPEN_CHANNEL_ERROR@,
            ResidualChannelCmd::ConnectPeer => RESIDUAL_CONNECT_PEER_ERROR@,
        }
    }

    /// What is said of the command.
    pub fn error_text(self) -> (text: &'static str)
        ensures
            text@ == self.error(),
    {
        match self {
            ResidualChannelCmd::OpenChannel => RESIDUAL_OPEN_CHANNEL_ERROR,
            ResidualChannelCmd::ConnectPeer => RESIDUAL_CONNECT_PEER_ERROR,
        }
    }
}

/// An error of a command that is known and never carried out, in distinction from that of an
/// unknown one.
pub open spec fn residual_error(error: Seq<char>) -> bool {
    let e = trimmed(error);
    has_prefix(e, "residual:"@) && (has_part(e, "open_channel"@) || has_part(e, "connect_peer"@))
}

/// Whether an error is that of a command that is known and never carried out.
pub fn is_residual_channel_cmd_error(error: &str) -> (b: bool)
    ensures
        b == residual_error(error@),
{
    let e = trim(error);
    starts_with(e, "residual:") && (contains(e, "open_channel") || contains(e, "connect_peer"))
}

/// The network of a label, or what is said of an unknown one.
pub open spec fn network_named(label: Seq<char>) -> Result<Network, Seq<char>> {
    if label == "mainnet"@ || label == "bitcoin"@ {
        Ok(Network::Bitcoin)
    } else if label == "testnet"@ || label == "testnet3"@ {
        Ok(Network::Testnet)
    } else if label == "testnet4"@ {
        Ok(Network::Testnet4)
    } else if label == "signet"@ {
        Ok(Network::Signet)
    } else if label == "regtest"@ {
        Ok(Network::Regtest)
    } else {
        Err("unknown network: "@ + label)
    }
}

/// The network of a label.
pub fn parse_network(label: &str) -> (r: Result<Network, String>)
    ensures
        match network_named(label@) {
            Ok(network) => r == Ok::<Network, String>(network),
            Err(message) => r matches Err(e) && e@ == message,
        },
{
    if same(label, "mainnet") || same(label, "bitcoin") {
        Ok(Network::Bitcoin)
    } else if same(label, "testnet") || same(label, "testnet3") {
        Ok(Network::Testnet)
    } else if same(label, "testnet4") {
        Ok(Network::Testnet4)
    } else if same(label, "signet") {
        Ok(Network::Signet)
    } else if same(label, "regtest") {
        Ok(Network::Regtest)
    } else {
        let mut message = "unknown network: ".to_owned();
        message.append(label);
        Err(message)
    }
}

/// An invoice can be paid on this network. Invoices do not tell the test networks three and four
/// apart.
pub open spec fn network_pays(configured: Network, invoice: Network) -> bool {
    configured == invoice || ((configured is Testnet || configured is Testnet4) && (
    invoice is Testnet || invoice is Testnet4))
}

/// Whether an invoice of one network can be paid on another.
pub fn invoice_network_matches(configured: Network, invoice: Network) -> (b: bool)
    ensures
        b == network_pays(configured, invoice),
{
    match configured {
        Network::Testnet | Network::Testnet4 => match invoice {
            Network::Testnet | Network::Testnet4 => true,
            _ => false,
        },
        _ => configured == invoice,
    }
}

/// The Esplora server of a network, where a request names none.
pub open spec fn esplora_default(label: Seq<char>) -> Seq<char> {
    if label == "testnet"@ || label == "testnet3"@ || label == "testnet4"@ {
        "https://blockstream.info/testnet/api"@
    } else if label == "signet"@ {
        "https://mempool.space/signet/api"@
    } else if label == "regtest"@ {
        "http://127.0.0.1:3002"@
    } else {
        "https://blockstream.info/api"@
    }
}

/// A test network is looked up at a server of that network, the main one and it alone at the server
/// of the main network, and a local chain on this machine.
pub proof fn lemma_default_server(label: Seq<char>, network: Network)
    requires
        network_named(label) == Ok::<Network, Seq<char>>(network),
    ensures
        esplora_default(label) == match network {
            Network::Bitcoin => "https://blockstream.info/api"@,
            Network::Testnet | Network::Testnet4 => "https://blockstream.info/testnet/api"@,
            Network::Signet => "https://mempool.space/signet/api"@,
            Network::Regtest => "http://127.0.0.1:3002"@,
        },
{
    lemma_network_names(label);
    reveal_strlit("mainnet");
    reveal_strlit("bitcoin");
    reveal_strlit("testnet");
    reveal_strlit("testnet3");
    reveal_strlit("testnet4");
    reveal_strlit("signet");
    reveal_strlit("regtest");
    assert("mainnet"@[0] == 'm' && "bitcoin"@[0] == 'b' && "testnet"@[0] == 't');
    assert("testnet3"@[0] == 't' && "testnet4"@[0] == 't');
    assert("signet"@[0] == 's' && "regtest"@[0] == 'r');
}

/// The Esplora server of a network, where a request names none.
pub fn default_esplora_for_label(network_label: &str) -> (url: &'static str)
    ensures
        url@ == esplora_default(network_label@),
{
    if same(network_label, "testnet") || same(network_label, "testnet3") || same(
        network_label,
        "testnet4",
    ) {
        "https://blockstream.info/testnet/api"
    } else if same(network_label, "signet") {
        "https://mempool.space/signet/api"
    } else if same(network_label, "regtest") {
        "http://127.0.0.1:3002"
    } else {
        "https://blockstream.info/api"
    }
}

/// Bytes in hexadecimal.
pub fn bytes_to_hex(bytes: &[u8]) -> (text: String)
    ensures
        text@ == hex_of(bytes@),
        text@.len() == 2 * bytes@.len(),
{
    hex_text(bytes)
}

/// The network of an invoice, or what the parser says of it.
pub uninterp spec fn invoice_parsed(text: Seq<char>) -> Result<Network, Seq<char>>;

/// Calls `lightning_invoice::Bolt11Invoice::from_str` and `network`: the network of the invoice, or
/// the text of the error. Both depend on the text alone.
#[verifier::external_body]
fn read_invoice(text: &str) -> (r: Result<Network, String>)
    ensures
        invoice_parsed(text@) == match r {
            Ok(network) => Ok(network),
            Err(e) => Err(e@),
        },
{
    match text.parse::<ldk_node::lightning_invoice::Bolt11Invoice>() {
        Ok(invoice) => match invoice.network() {
            ldk_node::bitcoin::Network::Bitcoin => Ok(Network::Bitcoin),
            ldk_node::bitcoin::Network::Testnet => Ok(Network::Testnet),
            ldk_node::bitcoin::Network::Testnet4 => Ok(Network::Testnet4),
            ldk_node::bitcoin::Network::Signet => Ok(Network::Signet),
            ldk_node::bitcoin::Network::Regtest => Ok(Network::Regtest),
        },
        Err(e) => Err(e.to_string()),
    }
}

/// Calls `lightning_invoice::Description::new`, which takes a description of at most 639 bytes.
#[verifier::external_body]
fn check_description(text: &str) -> (r: Result<(), String>)
    ensures
        r is Ok <==> encode_utf8(text@).len() <= 639,
        r matches Err(e) ==> e@
            == "The supplied description string was longer than 639 bytes"@,
{
    match ldk_node::lightning_invoice::Description::new(text.to_owned()) {
        Ok(_) => Ok(()),
        Err(e) => Err(e.to_string()),
    }
}

/// What it takes to start the node. It holds secrets, which are wiped when it is dropped.
pub struct NodeStart {
    pub words: String,
    pub passphrase: Option<String>,
    pub network: Network,
    pub storage_dir: String,
    pub esplora_url: String,
    pub timeout_secs: u64,
}

impl Drop for NodeStart {
    fn drop(&mut self)
        opens_invariants none
        no_unwind
    {
        wipe_text(&mut self.words);
        wipe_optional(&mut self.passphrase);
    }
}

/// Model of [`NodeStart`].
pub struct Start {
    pub words: Seq<char>,
    pub passphrase: Option<Seq<char>>,
    pub network: Network,
    pub storage_dir: Seq<char>,
    pub esplora_url: Seq<char>,
    pub timeout_secs: u64,
}

impl View for NodeStart {
    type V = Start;

    open spec fn view(&self) -> Start {
        Start {
            words: self.words@,
            passphrase: text_view(self.passphrase),
            network: self.network,
            storage_dir: self.storage_dir@,
            esplora_url: self.esplora_url@,
            timeout_secs: self.timeout_secs,
        }
    }
}

/// What a request asks for.
pub enum NodeStep {
    /// Nothing but this reply.
    Reply(Response),
    /// Start the node and pay the invoice.
    Pay { invoice: String, start: NodeStart },
    /// Start the node and write an invoice, over any amount where none is named.
    Receive {
        amount_msat: Option<u64>,
        description: String,
        expiry_secs: u32,
        node: NodeStart,
    },
}

/// Model of [`NodeStep`].
pub enum Step {
    Reply(Reply),
    Pay { invoice: Seq<char>, start: Start },
    Receive { amount_msat: Option<u64>, description: Seq<char>, expiry_secs: u32, node: Start },
}

impl View for NodeStep {
    type V = Step;

    open spec fn view(&self) -> Step {
        match *self {
            NodeStep::Reply(r) => Step::Reply(r@),
            NodeStep::Pay { invoice, start } => Step::Pay { invoice: invoice@, start: start@ },
            NodeStep::Receive { amount_msat, description, expiry_secs, node } => Step::Receive {
                amount_msat,
                description: description@,
                expiry_secs,
                node: node@,
            },
        }
    }
}

/// The label of the network of a request.
pub open spec fn network_label(ask: Ask) -> Seq<char> {
    match ask.network {
        Some(label) => lowered(label),
        None => lowered("mainnet"@),
    }
}

/// A text that is there and holds more than white space.
pub open spec fn filled(text: Option<Seq<char>>) -> bool {
    text is Some && trimmed(text->0).len() > 0
}

/// A text, the empty one where there is none.
pub open spec fn or_empty(text: Option<Seq<char>>) -> Seq<char> {
    match text {
        Some(t) => t,
        None => Seq::empty(),
    }
}

/// What it takes to start the node, or what is wrong with the request. `checked` is what BIP-39
/// says of the recovery words, `absolute` what the host says of the directory.
pub open spec fn start_in(
    ask: Ask,
    checked: Result<(), Seq<char>>,
    absolute: bool,
) -> Result<Start, Seq<char>> {
    if !filled(ask.mnemonic) {
        Err("missing mnemonic"@)
    } else if !filled(ask.storage_dir) {
        Err("storage_dir required (absolute path; parent scopes per-seed under grok home)"@)
    } else if !absolute {
        Err("storage_dir must be absolute (got relative: "@ + ask.storage_dir->0 + ")"@)
    } else if checked is Err {
        Err("invalid mnemonic: "@ + checked->Err_0)
    } else {
        match network_named(network_label(ask)) {
            Err(message) => Err(message),
            Ok(network) => Ok(
                Start {
                    words: trimmed(ask.mnemonic->0),
                    passphrase: if or_empty(ask.passphrase).len() == 0 {
                        None
                    } else {
                        ask.passphrase
                    },
                    network,
                    storage_dir: ask.storage_dir->0,
                    esplora_url: match ask.esplora_url {
                        Some(url) => url,
                        None => esplora_default(network_label(ask)),
                    },
                    timeout_secs: wait_secs(ask.timeout_secs),
                },
            ),
        }
    }
}

/// Seconds to wait for a payment, one at least.
pub open spec fn wait_secs(timeout_secs: Option<u64>) -> u64 {
    match timeout_secs {
        Some(n) => if n == 0 {
            1
        } else {
            n
        },
        None => DEFAULT_TIMEOUT_SECS,
    }
}

/// What a request for a payment asks for. `parsed` is the network of the invoice.
pub open spec fn pay_step_of(
    ask: Ask,
    parsed: Result<Network, Seq<char>>,
    checked: Result<(), Seq<char>>,
    absolute: bool,
) -> Step {
    match given(ask.invoice) {
        None => Step::Reply(error_reply("empty invoice"@)),
        Some(invoice) => match parsed {
            Err(e) => Step::Reply(error_reply("invalid bolt11 invoice: "@ + e)),
            Ok(issued) => match network_named(network_label(ask)) {
                Err(message) => Step::Reply(error_reply(message)),
                Ok(network) => if !network_pays(network, issued) {
                    Step::Reply(error_reply(mismatch(network_label(ask), network, issued)))
                } else {
                    match start_in(ask, checked, absolute) {
                        Err(message) => Step::Reply(error_reply(message)),
                        Ok(start) => Step::Pay { invoice, start },
                    }
                },
            },
        },
    }
}

/// What is said where an invoice is of another network.
pub open spec fn mismatch(label: Seq<char>, network: Network, issued: Network) -> Seq<char> {
    "invoice network mismatch: node="@ + label + " ("@ + network.debug_name() + "), invoice="@
        + issued.debug_name()
}

/// What is wrong with the amount of an invoice to write.
pub open spec fn amount_fault(amount_sats: Option<u64>) -> Option<Seq<char>> {
    match amount_sats {
        Some(n) => if n == 0 {
            Some("amount_sats must be > 0 when set (omit for zero-amount invoice)"@)
        } else if n > 2_100_000_000_000_000 {
            Some("amount_sats exceeds maximum"@)
        } else {
            None
        },
        None => None,
    }
}

/// The description of an invoice to write.
pub open spec fn description_in(ask: Ask) -> Seq<char> {
    match ask.description {
        Some(text) => text,
        None => DEFAULT_INVOICE_DESCRIPTION@,
    }
}

/// What a request for an invoice asks for.
pub open spec fn receive_step_of(
    ask: Ask,
    checked: Result<(), Seq<char>>,
    absolute: bool,
) -> Step {
    if amount_fault(ask.amount_sats) is Some {
        Step::Reply(error_reply(amount_fault(ask.amount_sats)->0))
    } else if encode_utf8(description_in(ask)).len() > 639 {
        Step::Reply(
            error_reply(
                "invalid invoice description: "@
                    + "The supplied description string was longer than 639 bytes"@,
            ),
        )
    } else {
        match start_in(ask, checked, absolute) {
            Err(message) => Step::Reply(error_reply(message)),
            Ok(node) => Step::Receive {
                amount_msat: match ask.amount_sats {
                    Some(n) => Some((n * 1000) as u64),
                    None => None,
                },
                description: description_in(ask),
                expiry_secs: match ask.expiry_secs {
                    Some(n) => if n < 60 {
                        60
                    } else {
                        n
                    },
                    None => DEFAULT_INVOICE_EXPIRY_SECS,
                },
                node,
            },
        }
    }
}

/// What a request asks for. `parsed` is the network of its invoice, `checked` what BIP-39 says of
/// its recovery words, `absolute` what the host says of its directory.
pub open spec fn step_of(
    ask: Ask,
    parsed: Result<Network, Seq<char>>,
    checked: Result<(), Seq<char>>,
    absolute: bool,
) -> Step {
    if ask.v != PROTOCOL_V {
        Step::Reply(
            error_reply("unsupported protocol v="@ + decimal(ask.v as nat) + " (want 1)"@),
        )
    } else if ask.cmd == "ping"@ {
        Step::Reply(ping_reply())
    } else if ask.cmd == "pay_bolt11"@ {
        pay_step_of(ask, parsed, checked, absolute)
    } else if ask.cmd == "create_bolt11_invoice"@ {
        receive_step_of(ask, checked, absolute)
    } else if ask.cmd == "open_channel"@ {
        Step::Reply(error_reply(RESIDUAL_OPEN_CHANNEL_ERROR@))
    } else if ask.cmd == "connect_peer"@ {
        Step::Reply(error_reply(RESIDUAL_CONNECT_PEER_ERROR@))
    } else {
        Step::Reply(error_reply("unknown cmd: "@ + ask.cmd))
    }
}

/// The model of what was said of recovery words.
pub open spec fn words_view(checked: Result<(), String>) -> Result<(), Seq<char>> {
    match checked {
        Ok(()) => Ok(()),
        Err(e) => Err(e@),
    }
}

/// The model of what was said of an invoice.
pub open spec fn invoice_view(parsed: Result<Network, String>) -> Result<Network, Seq<char>> {
    match parsed {
        Ok(network) => Ok(network),
        Err(e) => Err(e@),
    }
}

/// A message behind another text.
pub fn message_of(before: &str, text: &str, after: &str) -> (message: String)
    ensures
        message@ == before@ + text@ + after@,
{
    let mut message = before.to_owned();
    message.append(text);
    message.append(after);
    message
}

/// The label of the network of a request.
fn label_of(req: &Request) -> (label: String)
    ensures
        label@ == network_label(req@),
{
    match &req.network {
        Some(label) => lower(label.as_str()),
        None => lower("mainnet"),
    }
}

/// What it takes to start the node.
pub fn start_from(req: &Request, checked: &Result<(), String>, absolute: bool) -> (r: Result<
    NodeStart,
    String,
>)
    ensures
        match start_in(req@, words_view(*checked), absolute) {
            Ok(start) => r matches Ok(s) && s@ == start,
            Err(message) => r matches Err(e) && e@ == message,
        },
{
    let words = match &req.mnemonic {
        Some(words) => trim(words.as_str()),
        None => return Err("missing mnemonic".to_owned()),
    };
    if words.is_empty() {
        return Err("missing mnemonic".to_owned());
    }
    let storage_dir = match &req.storage_dir {
        Some(dir) => dir.as_str(),
        None => return Err(
            "storage_dir required (absolute path; parent scopes per-seed under grok home)".to_owned(),
        ),
    };
    if trim(storage_dir).is_empty() {
        return Err(
            "storage_dir required (absolute path; parent scopes per-seed under grok home)".to_owned(),
        );
    }
    if !absolute {
        return Err(
            message_of("storage_dir must be absolute (got relative: ", storage_dir, ")"),
        );
    }
    if let Err(e) = checked {
        let mut message = "invalid mnemonic: ".to_owned();
        message.append(e.as_str());
        return Err(message);
    }
    let label = label_of(req);
    let network = match parse_network(label.as_str()) {
        Ok(network) => network,
        Err(message) => return Err(message),
    };
    let passphrase = match &req.passphrase {
        Some(p) => if p.as_str().is_empty() {
            None
        } else {
            Some(p.clone())
        },
        None => None,
    };
    let esplora_url = match &req.esplora_url {
        Some(url) => url.clone(),
        None => default_esplora_for_label(label.as_str()).to_owned(),
    };
    let timeout_secs: u64 = match req.timeout_secs {
        Some(n) => if n == 0 {
            1
        } else {
            n
        },
        None => DEFAULT_TIMEOUT_SECS,
    };
    Ok(
        NodeStart {
            words: words.to_owned(),
            passphrase,
            network,
            storage_dir: storage_dir.to_owned(),
            esplora_url,
            timeout_secs,
        },
    )
}

/// What a request for a payment asks for.
pub fn handle_pay(
    req: &Request,
    parsed: &Result<Network, String>,
    checked: &Result<(), String>,
    absolute: bool,
) -> (step: NodeStep)
    ensures
        step@ == pay_step_of(req@, invoice_view(*parsed), words_view(*checked), absolute),
{
    let invoice = match &req.invoice {
        Some(text) => given_text(Some(text.as_str())),
        None => None,
    };
    let invoice = match invoice {
        Some(invoice) => invoice,
        None => return NodeStep::Reply(Response::err("empty invoice")),
    };
    let issued = match parsed {
        Ok(issued) => *issued,
        Err(e) => {
            let mut message = "invalid bolt11 invoice: ".to_owned();
            message.append(e.as_str());
            return NodeStep::Reply(Response::err(message.as_str()));
        },
    };
    let label = label_of(req);
    let network = match parse_network(label.as_str()) {
        Ok(network) => network,
        Err(message) => return NodeStep::Reply(Response::err(message.as_str())),
    };
    if !invoice_network_matches(network, issued) {
        let mut message = "invoice network mismatch: node=".to_owned();
        message.append(label.as_str());
        message.append(" (");
        message.append(network.debug_text());
        message.append("), invoice=");
        message.append(issued.debug_text());
        return NodeStep::Reply(Response::err(message.as_str()));
    }
    match start_from(req, checked, absolute) {
        Ok(start) => NodeStep::Pay { invoice: invoice.to_owned(), start },
        Err(message) => NodeStep::Reply(Response::err(message.as_str())),
    }
}

/// What a request for an invoice asks for.
pub fn handle_create_invoice(req: &Request, checked: &Result<(), String>, absolute: bool) -> (step:
    NodeStep)
    ensures
        step@ == receive_step_of(req@, words_view(*checked), absolute),
{
    if let Some(sats) = req.amount_sats {
        if sats == 0 {
            return NodeStep::Reply(
                Response::err("amount_sats must be > 0 when set (omit for zero-amount invoice)"),
            );
        }
        if sats > 2_100_000_000_000_000 {
            return NodeStep::Reply(Response::err("amount_sats exceeds maximum"));
        }
    }
    let description = match &req.description {
        Some(text) => text.as_str(),
        None => DEFAULT_INVOICE_DESCRIPTION,
    };
    if let Err(e) = check_description(description) {
        let mut message = "invalid invoice description: ".to_owned();
        message.append(e.as_str());
        return NodeStep::Reply(Response::err(message.as_str()));
    }
    let expiry_secs: u32 = match req.expiry_secs {
        Some(n) => if n < 60 {
            60
        } else {
            n
        },
        None => DEFAULT_INVOICE_EXPIRY_SECS,
    };
    let amount_msat: Option<u64> = match req.amount_sats {
        Some(n) => Some(n * 1000),
        None => None,
    };
    match start_from(req, checked, absolute) {
        Ok(node) => NodeStep::Receive {
            amount_msat,
            description: description.to_owned(),
            expiry_secs,
            node,
        },
        Err(message) => NodeStep::Reply(Response::err(message.as_str())),
    }
}

/// What a request asks for, by what was said of its invoice, of its recovery words and of its
/// directory.
pub fn plan_with(
    req: &Request,
    parsed: &Result<Network, String>,
    checked: &Result<(), String>,
    absolute: bool,
) -> (step: NodeStep)
    ensures
        step@ == step_of(req@, invoice_view(*parsed), words_view(*checked), absolute),
{
    if req.v != PROTOCOL_V {
        let version = decimal_text(req.v as u64);
        let message = message_of("unsupported protocol v=", version.as_str(), " (want 1)");
        return NodeStep::Reply(Response::err(message.as_str()));
    }
    let cmd = req.cmd.as_str();
    if same(cmd, "ping") {
        NodeStep::Reply(Response::ok_ping())
    } else if same(cmd, "pay_bolt11") {
        handle_pay(req, parsed, checked, absolute)
    } else if same(cmd, "create_bolt11_invoice") {
        handle_create_invoice(req, checked, absolute)
    } else if same(cmd, "open_channel") {
        NodeStep::Reply(Response::err(ResidualChannelCmd::OpenChannel.error_text()))
    } else if same(cmd, "connect_peer") {
        NodeStep::Reply(Response::err(ResidualChannelCmd::ConnectPeer.error_text()))
    } else {
        let mut message = "unknown cmd: ".to_owned();
        message.append(cmd);
        NodeStep::Reply(Response::err(message.as_str()))
    }
}

/// What a request asks for.
pub fn plan(req: &Request) -> (step: NodeStep)
    ensures
        exists|absolute: bool| #[trigger]
            may_be_absolute_dir(req@.storage_dir, absolute) && step@ == step_of(
                req@,
                invoice_parsed(trimmed(or_empty(req@.invoice))),
                words_parsed(trimmed(or_empty(req@.mnemonic))),
                absolute,
            ),
{
    let parsed = match &req.invoice {
        Some(text) => read_invoice(trim(text.as_str())),
        None => {
            proof {
                reveal_strlit("");
                assert(""@ =~= Seq::<char>::empty());
            }
            read_invoice(trim(""))
        },
    };
    let checked = match &req.mnemonic {
        Some(text) => check_words(trim(text.as_str())),
        None => {
            proof {
                reveal_strlit("");
                assert(""@ =~= Seq::<char>::empty());
            }
            check_words(trim(""))
        },
    };
    let absolute = is_absolute_dir(borrowed(&req.storage_dir));
    assert(may_be_absolute_dir(req@.storage_dir, absolute));
    plan_with(req, &parsed, &checked, absolute)
}

/// What the node tells of payments.
pub enum PayEvent {
    /// A payment was made. A node may leave out which one, or the proof of it.
    Successful { payment_id: Option<Vec<u8>>, preimage: Option<Vec<u8>> },
    /// A payment was not made.
    Failed { failed_id: Option<Vec<u8>>, reason: Option<String> },
    /// Something else.
    Other,
    /// Nothing so far.
    Nothing,
}

/// What to do after an event.
pub enum PayNext {
    /// Ask for the next event at once.
    Again,
    /// Wait a little, then ask for the next event.
    Wait,
    /// The payment is over.
    Done(Response),
}

/// Model of [`PayNext`].
pub enum Next {
    Again,
    Wait,
    Done(Reply),
}

impl View for PayNext {
    type V = Next;

    open spec fn view(&self) -> Next {
        match *self {
            PayNext::Again => Next::Again,
            PayNext::Wait => Next::Wait,
            PayNext::Done(r) => Next::Done(r@),
        }
    }
}

/// The model of optional bytes.
pub open spec fn bytes_view(bytes: Option<Vec<u8>>) -> Option<Seq<u8>> {
    match bytes {
        Some(b) => Some(b@),
        None => None,
    }
}

/// An event concerns a payment: it names it, or names none.
pub open spec fn concerns(id: Option<Seq<u8>>, payment_id: Seq<u8>) -> bool {
    match id {
        Some(id) => id == payment_id,
        None => true,
    }
}

/// What to do after an event, while waiting for a payment. Without a preimage there is no success.
pub open spec fn next_of(event: PayEvent, payment_id: Seq<u8>) -> Next {
    match event {
        PayEvent::Successful { payment_id: id, preimage } => if !concerns(
            bytes_view(id),
            payment_id,
        ) {
            Next::Again
        } else {
            match preimage {
                Some(bytes) => Next::Done(
                    Reply {
                        preimage_hex: Some(hex_of(bytes@)),
                        payment_id_hex: Some(hex_of(payment_id)),
                        ..bare_reply(true)
                    },
                ),
                None => Next::Done(
                    error_reply(
                        "payment settled without preimage (payment_id="@ + hex_of(payment_id)
                            + "); cannot claim Success"@,
                    ),
                ),
            }
        },
        PayEvent::Failed { failed_id, reason } => if !concerns(bytes_view(failed_id), payment_id) {
            Next::Again
        } else {
            Next::Done(
                error_reply(
                    "payment failed: "@ + (match reason {
                        Some(why) => why@,
                        None => "unknown"@,
                    }) + " (payment_id="@ + hex_of(payment_id) + ")"@,
                ),
            )
        },
        PayEvent::Other => Next::Again,
        PayEvent::Nothing => Next::Wait,
    }
}

/// Whether two lists of bytes are the same.
fn same_bytes(a: &Vec<u8>, b: &Vec<u8>) -> (r: bool)
    ensures
        r == (a@ == b@),
{
    if a.len() != b.len() {
        return false;
    }
    for i in 0..a.len()
        invariant
            a@.len() == b@.len(),
            forall|k: int| 0 <= k < i ==> a@[k] == b@[k],
    {
        if a[i] != b[i] {
            return false;
        }
    }
    assert(a@ =~= b@);
    true
}

/// Whether an event concerns a payment.
fn event_concerns(id: &Option<Vec<u8>>, payment_id: &Vec<u8>) -> (r: bool)
    ensures
        r == concerns(bytes_view(*id), payment_id@),
{
    match id {
        Some(id) => same_bytes(id, payment_id),
        None => true,
    }
}

/// What to do after an event, while waiting for a payment.
pub fn pay_next(event: &PayEvent, payment_id: &Vec<u8>) -> (next: PayNext)
    ensures
        next@ == next_of(*event, payment_id@),
{
    let id_hex = bytes_to_hex(payment_id.as_slice());
    match event {
        PayEvent::Successful { payment_id: id, preimage } => {
            if !event_concerns(id, payment_id) {
                return PayNext::Again;
            }
            match preimage {
                Some(bytes) => PayNext::Done(
                    Response::ok_pay(bytes_to_hex(bytes.as_slice()), Some(id_hex)),
                ),
                None => {
                    let message = message_of(
                        "payment settled without preimage (payment_id=",
                        id_hex.as_str(),
                        "); cannot claim Success",
                    );
                    PayNext::Done(Response::err(message.as_str()))
                },
            }
        },
        PayEvent::Failed { failed_id, reason } => {
            if !event_concerns(failed_id, payment_id) {
                return PayNext::Again;
            }
            let mut message = "payment failed: ".to_owned();
            match reason {
                Some(why) => message.append(why.as_str()),
                None => message.append("unknown"),
            }
            message.append(" (payment_id=");
            message.append(id_hex.as_str());
            message.append(")");
            PayNext::Done(Response::err(message.as_str()))
        },
        PayEvent::Other => PayNext::Again,
        PayEvent::Nothing => PayNext::Wait,
    }
}

/// The reply where a payment took too long.
pub fn pay_timed_out(timeout_secs: u64, payment_id: &Vec<u8>) -> (r: Response)
    ensures
        r@ == error_reply(
            "timeout after "@ + decimal(timeout_secs as nat)
                + "s waiting for payment settlement (payment_id="@ + hex_of(payment_id@) + ")"@,
        ),
{
    let mut message = "timeout after ".to_owned();
    message.append(decimal_text(timeout_secs).as_str());
    message.append("s waiting for payment settlement (payment_id=");
    message.append(bytes_to_hex(payment_id.as_slice()).as_str());
    message.append(")");
    Response::err(message.as_str())
}

/// Whether the wait for a payment is over, and the reply then.
pub fn pay_wait(expired: bool, timeout_secs: u64, payment_id: &Vec<u8>) -> (r: Option<Response>)
    ensures
        expired ==> (r matches Some(reply) && reply@ == error_reply(
            "timeout after "@ + decimal(timeout_secs as nat)
                + "s waiting for payment settlement (payment_id="@ + hex_of(payment_id@) + ")"@,
        )),
        !expired ==> r is None,
{
    if expired {
        Some(pay_timed_out(timeout_secs, payment_id))
    } else {
        None
    }
}

/// The reply where a payment could not be sent.
pub fn send_failed(why: &str) -> (r: Response)
    ensures
        r@ == error_reply(
            "bolt11 send failed: "@ + why@
                + " (outbound liquidity / route required; a channel specifically to Routstr is not required)"@,
        ),
{
    let message = message_of(
        "bolt11 send failed: ",
        why,
        " (outbound liquidity / route required; a channel specifically to Routstr is not required)",
    );
    Response::err(message.as_str())
}

/// The reply to a request for an invoice: one only where the node wrote one.
pub open spec fn created_reply(made: Result<Seq<char>, Seq<char>>) -> Reply {
    match made {
        Err(why) => error_reply(
            "bolt11 receive invoice failed: "@ + why
                + " (node may lack channels / inbound liquidity configuration; invoice create is not a funded-channel proof)"@,
        ),
        Ok(bolt11) => if trimmed(bolt11).len() == 0 {
            error_reply("ldk-node returned empty bolt11 (cannot claim Created)"@)
        } else if !invoice_prefix(lowered(bolt11)) {
            error_reply("ldk-node returned non-bolt11 string (cannot claim Created)"@)
        } else {
            Reply { bolt11: Some(bolt11), ..bare_reply(true) }
        },
    }
}

/// The reply to a request for an invoice, by what the node made of it.
pub fn created(made: Result<String, String>) -> (r: Response)
    ensures
        r@ == created_reply(
            match made {
                Ok(bolt11) => Ok(bolt11@),
                Err(why) => Err(why@),
            },
        ),
{
    match made {
        Ok(bolt11) => {
            if trim(bolt11.as_str()).is_empty() {
                return Response::err("ldk-node returned empty bolt11 (cannot claim Created)");
            }
            if !has_invoice_prefix(lower(bolt11.as_str()).as_str()) {
                return Response::err("ldk-node returned non-bolt11 string (cannot claim Created)");
            }
            Response::ok_invoice(bolt11)
        },
        Err(why) => {
            let message = message_of(
                "bolt11 receive invoice failed: ",
                why.as_str(),
                " (node may lack channels / inbound liquidity configuration; invoice create is not a funded-channel proof)",
            );
            Response::err(message.as_str())
        },
    }
}

/// A command that is known and never carried out is answered with a failure that says so, whatever
/// else the request holds.
pub proof fn lemma_residual_never_succeeds(
    ask: Ask,
    parsed: Result<Network, Seq<char>>,
    checked: Result<(), Seq<char>>,
    absolute: bool,
)
    requires
        ask.v == PROTOCOL_V,
        ask.cmd == "open_channel"@ || ask.cmd == "connect_peer"@,
    ensures
        step_of(ask, parsed, checked, absolute) is Reply,
        !step_of(ask, parsed, checked, absolute)->0.ok,
        step_of(ask, parsed, checked, absolute)->0.error is Some,
        residual_error(step_of(ask, parsed, checked, absolute)->0.error->0),
        step_of(ask, parsed, checked, absolute)->0.bolt11 is None,
        step_of(ask, parsed, checked, absolute)->0.preimage_hex is None,
{
    reveal_strlit("ping");
    reveal_strlit("pay_bolt11");
    reveal_strlit("create_bolt11_invoice");
    reveal_strlit("open_channel");
    reveal_strlit("connect_peer");
    reveal_strlit("residual:");
    reveal_strlit(
        "residual: open_channel not implemented in this helper (product residual; no live channel-open contract; never invents channel_id Success)",
    );
    reveal_strlit(
        "residual: connect_peer not implemented in this helper (product residual; no live peer-connect contract; never invents peer Success)",
    );
    assert("ping"@.len() == 4);
    assert("pay_bolt11"@.len() == 10);
    assert("create_bolt11_invoice"@.len() == 21);
    if ask.cmd == "open_channel"@ {
        let e = RESIDUAL_OPEN_CHANNEL_ERROR@;
        assert(trim_start(e) == e);
        assert(trim_end(e) == e);
        assert(e.take(9) =~= "residual:"@);
        assert(stands_at(e, "open_channel"@, 10)) by {
            assert(e.subrange(10, 22) =~= "open_channel"@);
        }
    } else {
        let e = RESIDUAL_CONNECT_PEER_ERROR@;
        assert(trim_start(e) == e);
        assert(trim_end(e) == e);
        assert(e.take(9) =~= "residual:"@);
        assert(stands_at(e, "connect_peer"@, 10)) by {
            assert(e.subrange(10, 22) =~= "connect_peer"@);
        }
    }
}

/// An unknown command is never taken for one that is known and not carried out.
pub proof fn lemma_unknown_is_not_residual(cmd: Seq<char>)
    ensures
        !residual_error("unknown cmd: "@ + cmd),
{
    reveal_strlit("unknown cmd: ");
    reveal_strlit("residual:");
    let e = "unknown cmd: "@ + cmd;
    assert(e[0] == 'u');
    assert(trim_start(e) == e);
    lemma_trim_end_keeps_first(e);
    assert("residual:"@[0] == 'r');
}

/// White space at the end of a text does not reach its first character, where that is none.
proof fn lemma_trim_end_keeps_first(s: Seq<char>)
    requires
        s.len() > 0,
        s[0] == 'u',
    ensures
        trim_end(s).len() > 0,
        trim_end(s)[0] == 'u',
    decreases s.len(),
{
    if trim_end(s) != s {
        assert(s.len() > 1);
        lemma_trim_end_keeps_first(s.drop_last());
    }
}

/// Only the command `ping` is answered with success before the node did anything.
pub proof fn lemma_only_ping_succeeds_at_once(
    ask: Ask,
    parsed: Result<Network, Seq<char>>,
    checked: Result<(), Seq<char>>,
    absolute: bool,
)
    requires
        step_of(ask, parsed, checked, absolute) is Reply,
        step_of(ask, parsed, checked, absolute)->0.ok,
    ensures
        ask.cmd == "ping"@,
{
}

/// A payment counts as made only with a preimage, and only by an event that concerns it.
pub proof fn lemma_success_needs_preimage(event: PayEvent, payment_id: Seq<u8>)
    requires
        next_of(event, payment_id) is Done,
        next_of(event, payment_id)->0.ok,
    ensures
        event is Successful,
        concerns(bytes_view(event->payment_id), payment_id),
        event->preimage is Some,
        next_of(event, payment_id)->0.preimage_hex == Some(hex_of(event->preimage->0@)),
{
}

/// The node of a step.
pub open spec fn node_of(step: Step) -> Option<Start> {
    match step {
        Step::Reply(_) => None,
        Step::Pay { start, .. } => Some(start),
        Step::Receive { node, .. } => Some(node),
    }
}

/// The node that a request starts is that of its words and of its passphrase, with nothing left out
/// and nothing added, in the directory that it names, with the server and for the time that it
/// names.
pub proof fn lemma_node_is_of_request(
    ask: Ask,
    parsed: Result<Network, Seq<char>>,
    checked: Result<(), Seq<char>>,
    absolute: bool,
)
    ensures
        node_of(step_of(ask, parsed, checked, absolute)) matches Some(start) ==> {
            &&& start.passphrase is Some <==> (ask.passphrase is Some && ask.passphrase->0.len()
                > 0)
            &&& start.passphrase is Some ==> start.passphrase->0 == ask.passphrase->0
            &&& ask.mnemonic is Some && start.words.len() > 0
            &&& trimmed(ask.mnemonic->0) == start.words
            &&& checked is Ok
            &&& absolute
            &&& ask.storage_dir is Some && ask.storage_dir->0 == start.storage_dir
            &&& ask.esplora_url is Some ==> ask.esplora_url->0 == start.esplora_url
            &&& start.timeout_secs >= 1
            &&& (ask.timeout_secs matches Some(n) ==> n > 0 ==> n == start.timeout_secs)
            &&& (ask.timeout_secs is None ==> start.timeout_secs == 120)
            &&& ask.v == 1
        },
{
}

/// The names of networks, and the network that each is the name of.
pub proof fn lemma_network_names(label: Seq<char>)
    ensures
        network_named(label) == Ok::<Network, Seq<char>>(Network::Bitcoin) <==> label
            == "mainnet"@ || label == "bitcoin"@,
        network_named(label) == Ok::<Network, Seq<char>>(Network::Testnet) <==> label
            == "testnet"@ || label == "testnet3"@,
        network_named(label) == Ok::<Network, Seq<char>>(Network::Testnet4) <==> label
            == "testnet4"@,
        network_named(label) == Ok::<Network, Seq<char>>(Network::Signet) <==> label == "signet"@,
        network_named(label) == Ok::<Network, Seq<char>>(Network::Regtest) <==> label
            == "regtest"@,
{
    reveal_strlit("mainnet");
    reveal_strlit("bitcoin");
    reveal_strlit("testnet");
    reveal_strlit("testnet3");
    reveal_strlit("testnet4");
    reveal_strlit("signet");
    reveal_strlit("regtest");
    assert("mainnet"@[0] == 'm' && "bitcoin"@[0] == 'b' && "testnet"@[0] == 't');
    assert("testnet3"@[7] == '3' && "testnet4"@[7] == '4');
    assert("signet"@[0] == 's' && "regtest"@[0] == 'r');
    assert("testnet"@.len() == 7 && "testnet3"@.len() == 8 && "testnet4"@.len() == 8);
}

/// A request that names no network means the main one; the network of the node is that of the name
/// in the request, in any letter case.
pub proof fn lemma_node_network(
    ask: Ask,
    parsed: Result<Network, Seq<char>>,
    checked: Result<(), Seq<char>>,
    absolute: bool,
)
    ensures
        node_of(step_of(ask, parsed, checked, absolute)) matches Some(start) ==> {
            let label = match ask.network {
                Some(name) => lowered(name),
                None => "mainnet"@,
            };
            match start.network {
                Network::Bitcoin => label == "mainnet"@ || label == "bitcoin"@,
                Network::Testnet => label == "testnet"@ || label == "testnet3"@,
                Network::Testnet4 => label == "testnet4"@,
                Network::Signet => label == "signet"@,
                Network::Regtest => label == "regtest"@,
            }
        },
{
    reveal_strlit("mainnet");
    assert(lowered("mainnet"@) =~= "mainnet"@);
    lemma_network_names(network_label(ask));
}

/// The node pays the invoice of the request and no other, and only one of its own network, where
/// the two test networks count as one.
pub proof fn lemma_pays_what_was_asked(
    ask: Ask,
    parsed: Result<Network, Seq<char>>,
    checked: Result<(), Seq<char>>,
    absolute: bool,
)
    ensures
        step_of(ask, parsed, checked, absolute) matches Step::Pay { invoice, start } ==> {
            &&& ask.cmd == "pay_bolt11"@
            &&& ask.invoice is Some && invoice == trimmed(ask.invoice->0) && invoice.len() > 0
            &&& parsed is Ok
            &&& start.network == parsed->Ok_0 || (start.network is Testnet || start.network
                is Testnet4) && (parsed->Ok_0 is Testnet || parsed->Ok_0 is Testnet4)
        },
{
}

/// The invoice that the node is to write is over the amount of the request, in thousandths, or over
/// any amount where it names none; it is for what the request says, and good as long as it says,
/// a minute at least.
pub proof fn lemma_receives_what_was_asked(
    ask: Ask,
    parsed: Result<Network, Seq<char>>,
    checked: Result<(), Seq<char>>,
    absolute: bool,
)
    ensures
        step_of(ask, parsed, checked, absolute) matches Step::Receive {
            amount_msat,
            description,
            expiry_secs,
            ..
        } ==> {
            &&& ask.cmd == "create_bolt11_invoice"@
            &&& amount_msat is Some <==> ask.amount_sats is Some
            &&& ask.amount_sats is Some ==> amount_msat->0 == 1000 * ask.amount_sats->0
                && ask.amount_sats->0 > 0
            &&& ask.description is Some ==> description == ask.description->0
            &&& expiry_secs >= 60
            &&& (ask.expiry_secs matches Some(n) ==> n >= 60 ==> expiry_secs == n)
            &&& (ask.expiry_secs is None ==> expiry_secs == 3600)
        },
{
}

/// A request for a payment with nothing wrong is carried out.
pub proof fn lemma_payment_is_owed(
    ask: Ask,
    parsed: Result<Network, Seq<char>>,
    checked: Result<(), Seq<char>>,
    absolute: bool,
    network: Network,
)
    requires
        ask.v == 1,
        ask.cmd == "pay_bolt11"@,
        ask.invoice is Some && trimmed(ask.invoice->0).len() > 0,
        ask.mnemonic is Some && trimmed(ask.mnemonic->0).len() > 0,
        ask.storage_dir is Some && trimmed(ask.storage_dir->0).len() > 0,
        absolute,
        checked is Ok,
        network_named(network_label(ask)) == Ok::<Network, Seq<char>>(network),
        parsed == Ok::<Network, Seq<char>>(network),
    ensures
        step_of(ask, parsed, checked, absolute) is Pay,
{
    reveal_strlit("ping");
    reveal_strlit("pay_bolt11");
    assert("ping"@.len() == 4 && "pay_bolt11"@.len() == 10);
}

/// A request for an invoice with nothing wrong is carried out.
pub proof fn lemma_invoice_is_owed(
    ask: Ask,
    parsed: Result<Network, Seq<char>>,
    checked: Result<(), Seq<char>>,
    absolute: bool,
)
    requires
        ask.v == 1,
        ask.cmd == "create_bolt11_invoice"@,
        ask.amount_sats matches Some(n) ==> 0 < n <= 2_100_000_000_000_000,
        ask.description matches Some(text) ==> encode_utf8(text).len() <= 639,
        ask.mnemonic is Some && trimmed(ask.mnemonic->0).len() > 0,
        ask.storage_dir is Some && trimmed(ask.storage_dir->0).len() > 0,
        absolute,
        checked is Ok,
        network_named(network_label(ask)) is Ok,
    ensures
        step_of(ask, parsed, checked, absolute) is Receive,
{
    reveal_strlit("ping");
    reveal_strlit("pay_bolt11");
    reveal_strlit("create_bolt11_invoice");
    assert("ping"@.len() == 4 && "pay_bolt11"@.len() == 10 && "create_bolt11_invoice"@.len() == 21);
    reveal_strlit("grok-bitcoin-ldk-node receive");
    let standard = DEFAULT_INVOICE_DESCRIPTION@;
    assert(standard.len() == 29);
    assert(vstd::utf8::is_ascii_chars(standard));
    vstd::utf8::is_ascii_chars_encode_utf8(standard);
}

/// A payment is over only by an event that concerns it: one that names it, or names none. Any other
/// event, and none at all, leaves it as it is.
pub proof fn lemma_payment_ends_by_its_own_event(event: PayEvent, payment_id: Seq<u8>)
    ensures
        next_of(event, payment_id) is Done <==> match event {
            PayEvent::Successful { payment_id: id, .. } => id matches Some(bytes) ==> bytes@
                == payment_id,
            PayEvent::Failed { failed_id: id, .. } => id matches Some(bytes) ==> bytes@
                == payment_id,
            PayEvent::Other | PayEvent::Nothing => false,
        },
        next_of(event, payment_id) is Wait <==> event is Nothing,
        next_of(event, payment_id) is Done ==> (next_of(event, payment_id)->0.ok <==> (
        event matches PayEvent::Successful { preimage, .. } && preimage is Some)),
        next_of(event, payment_id) is Done && next_of(event, payment_id)->0.ok ==> next_of(
            event,
            payment_id,
        )->0.payment_id_hex == Some(hex_of(payment_id)),
{
}

/// A reply with an invoice is the invoice that the node wrote, unchanged.
pub proof fn lemma_created_is_what_the_node_wrote(made: Result<Seq<char>, Seq<char>>)
    ensures
        created_reply(made).ok <==> created_reply(made).bolt11 is Some,
        created_reply(made).ok ==> made is Ok && created_reply(made).bolt11->0 == made->Ok_0,
        made is Ok && invoice_prefix(lowered(made->Ok_0)) && trimmed(made->Ok_0).len() > 0
            ==> created_reply(made).ok,
        created_reply(made).ok <==> created_reply(made).error is None,
        created_reply(made).v == 1,
{
}

} // verus!
