//! What is shown of a payment: QR payload, clipboard text, BIP-21 URIs, explorer links.

use vstd::prelude::*;
use vstd::string::{StringExecFns, StringSliceAdditionalSpecFns};
use vstd::utf8::encode_utf8;

use crate::text::{
    all_digits, byte_len, decimal, decimal_text, decimal_value, digit, index_of,
    lemma_decimal_round_trip, lemma_index_from, lines, lines_of, lower, lowered, same, stands_at,
    text_of, texts, trim, trimmed,
};

verus! {

/// Bitcoin network.
#[derive(Clone, Copy, PartialEq, Eq, Structural, Debug)]
pub enum BitcoinNetwork {
    Mainnet,
    Signet,
    Testnet,
    Testnet4,
}

/// The network that a setting names, white space around it and letter case aside.
pub open spec fn network_named(s: Seq<char>) -> Option<BitcoinNetwork> {
    let name = lowered(trimmed(s));
    if name == "mainnet"@ || name == "bitcoin"@ || name == "main"@ {
        Some(BitcoinNetwork::Mainnet)
    } else if name == "signet"@ {
        Some(BitcoinNetwork::Signet)
    } else if name == "testnet"@ || name == "testnet3"@ {
        Some(BitcoinNetwork::Testnet)
    } else if name == "testnet4"@ {
        Some(BitcoinNetwork::Testnet4)
    } else {
        None
    }
}

impl Default for BitcoinNetwork {
    fn default() -> (network: BitcoinNetwork)
        ensures
            network == BitcoinNetwork::Mainnet,
    {
        BitcoinNetwork::Mainnet
    }
}

impl BitcoinNetwork {
    /// Parses the value of a network setting.
    pub fn from_env_str(s: &str) -> (network: Option<BitcoinNetwork>)
        ensures
            network == network_named(s@),
    {
        let name = lower(trim(s));
        let name = name.as_str();
        if same(name, "mainnet") || same(name, "bitcoin") || same(name, "main") {
            Some(BitcoinNetwork::Mainnet)
        } else if same(name, "signet") {
            Some(BitcoinNetwork::Signet)
        } else if same(name, "testnet") || same(name, "testnet3") {
            Some(BitcoinNetwork::Testnet)
        } else if same(name, "testnet4") {
            Some(BitcoinNetwork::Testnet4)
        } else {
            None
        }
    }

    /// The name under which a network is stored.
    pub open spec fn name(self) -> Seq<char> {
        match self {
            BitcoinNetwork::Mainnet => "mainnet"@,
            BitcoinNetwork::Signet => "signet"@,
            BitcoinNetwork::Testnet => "testnet"@,
            BitcoinNetwork::Testnet4 => "testnet4"@,
        }
    }

    /// The name under which a network is stored.
    pub fn as_str(self) -> (name: &'static str)
        ensures
            name@ == self.name(),
    {
        match self {
            BitcoinNetwork::Mainnet => "mainnet",
            BitcoinNetwork::Signet => "signet",
            BitcoinNetwork::Testnet => "testnet",
            BitcoinNetwork::Testnet4 => "testnet4",
        }
    }
}

/// A network is read back from its name.
pub proof fn lemma_network_name_round_trip(network: BitcoinNetwork)
    ensures
        network_named(network.name()) == Some(network),
{
    reveal_strlit("mainnet");
    reveal_strlit("bitcoin");
    reveal_strlit("main");
    reveal_strlit("signet");
    reveal_strlit("testnet");
    reveal_strlit("testnet3");
    reveal_strlit("testnet4");
    let name = network.name();
    assert(trimmed(name) == name);
    assert(lowered(name) =~= name);
    assert("signet"@.len() != "mainnet"@.len());
    assert("testnet"@[0] != "mainnet"@[0]);
    assert("testnet"@[0] != "bitcoin"@[0]);
    assert("testnet4"@[7] != "testnet3"@[7]);
}

/// The main network has three names and the older test network two; the others have their own alone.
/// White space around a name and its letter case do not count.
pub proof fn lemma_network_names(s: Seq<char>)
    ensures
        network_named(s) == Some(BitcoinNetwork::Mainnet) <==> lowered(trimmed(s)) == "mainnet"@
            || lowered(trimmed(s)) == "bitcoin"@ || lowered(trimmed(s)) == "main"@,
        network_named(s) == Some(BitcoinNetwork::Signet) <==> lowered(trimmed(s)) == "signet"@,
        network_named(s) == Some(BitcoinNetwork::Testnet) <==> lowered(trimmed(s)) == "testnet"@
            || lowered(trimmed(s)) == "testnet3"@,
        network_named(s) == Some(BitcoinNetwork::Testnet4) <==> lowered(trimmed(s))
            == "testnet4"@,
{
    reveal_strlit("mainnet");
    reveal_strlit("bitcoin");
    reveal_strlit("main");
    reveal_strlit("signet");
    reveal_strlit("testnet");
    reveal_strlit("testnet3");
    reveal_strlit("testnet4");
    assert("mainnet"@[0] == 'm' && "bitcoin"@[0] == 'b' && "main"@[0] == 'm');
    assert("signet"@[0] == 's' && "testnet"@[0] == 't');
    assert("testnet3"@[7] == '3' && "testnet4"@[7] == '4');
    assert("testnet"@.len() == 7 && "testnet3"@.len() == 8 && "testnet4"@.len() == 8);
    assert("testnet3"@[0] == 't' && "testnet4"@[0] == 't');
}

/// Everything the UI needs to show a payment endpoint.
#[derive(PartialEq, Eq)]
pub struct PaymentDisplay {
    /// What a person reads: address, invoice or URI.
    pub text: String,
    /// What the QR code holds.
    pub qr_payload: String,
    /// What goes to the clipboard.
    pub clipboard: String,
}

impl PaymentDisplay {
    /// The same text everywhere.
    pub fn new(text: &str) -> (display: PaymentDisplay)
        ensures
            display.text@ == text@,
            display.qr_payload@ == text@,
            display.clipboard@ == text@,
    {
        PaymentDisplay {
            text: text.to_owned(),
            qr_payload: text.to_owned(),
            clipboard: text.to_owned(),
        }
    }

    /// Another QR payload.
    pub fn with_qr(self, qr: &str) -> (display: PaymentDisplay)
        ensures
            display.text == self.text,
            display.qr_payload@ == qr@,
            display.clipboard == self.clipboard,
    {
        PaymentDisplay { text: self.text, qr_payload: qr.to_owned(), clipboard: self.clipboard }
    }

    /// Another clipboard text.
    pub fn with_clipboard(self, clipboard: &str) -> (display: PaymentDisplay)
        ensures
            display.text == self.text,
            display.qr_payload == self.qr_payload,
            display.clipboard@ == clipboard@,
    {
        PaymentDisplay {
            text: self.text,
            qr_payload: self.qr_payload,
            clipboard: clipboard.to_owned(),
        }
    }

    /// A description for logs: the lengths in bytes, never the texts.
    pub fn debug_text(&self) -> (r: String)
        ensures
            r@ == "PaymentDisplay { text_len: "@ + decimal(encode_utf8(self.text@).len())
                + ", qr_payload_len: "@ + decimal(encode_utf8(self.qr_payload@).len())
                + ", clipboard_len: "@ + decimal(encode_utf8(self.clipboard@).len()) + " }"@,
    {
        let mut r = "PaymentDisplay { text_len: ".to_owned();
        r.append(decimal_text(byte_len(self.text.as_str()) as u64).as_str());
        r.append(", qr_payload_len: ");
        r.append(decimal_text(byte_len(self.qr_payload.as_str()) as u64).as_str());
        r.append(", clipboard_len: ");
        r.append(decimal_text(byte_len(self.clipboard.as_str()) as u64).as_str());
        r.append(" }");
        r
    }
}

/// The low `width` decimal digits of a number.
pub open spec fn padded(n: nat, width: nat) -> Seq<char>
    decreases width,
{
    if width == 0 {
        Seq::empty()
    } else {
        padded(n / 10, (width - 1) as nat).push(digit((n % 10) as int))
    }
}

/// A text without the zeros that it ends with.
pub open spec fn without_zeros(s: Seq<char>) -> Seq<char>
    decreases s.len(),
{
    if s.len() > 0 && s.last() == '0' {
        without_zeros(s.drop_last())
    } else {
        s
    }
}

/// An amount of satoshis in bitcoin, as a decimal fraction without superfluous digits.
pub open spec fn btc_text(sats: nat) -> Seq<char> {
    let whole = decimal(sats / 100_000_000);
    if sats % 100_000_000 == 0 {
        whole
    } else {
        whole + "."@ + without_zeros(padded(sats % 100_000_000, 8))
    }
}

/// The low `width` decimal digits of a number.
fn padded_digits(n: u64, width: usize) -> (digits: Vec<char>)
    ensures
        digits@ == padded(n as nat, width as nat),
    decreases width,
{
    if width == 0 {
        Vec::new()
    } else {
        let mut digits = padded_digits(n / 10, width - 1);
        digits.push((0x30u8 + (n % 10) as u8) as char);
        digits
    }
}

/// An amount of satoshis in bitcoin, as BIP-21 writes it.
pub fn format_btc_from_sats(sats: u64) -> (text: String)
    ensures
        text@ == btc_text(sats as nat),
{
    let whole = decimal_text(sats / 100_000_000);
    let frac = sats % 100_000_000;
    if frac == 0 {
        return whole;
    }
    let mut digits = padded_digits(frac, 8);
    let ghost all = digits@;
    while digits.len() > 0 && digits[digits.len() - 1] == '0'
        invariant
            without_zeros(all) == without_zeros(digits@),
        decreases digits@.len(),
    {
        let _ = digits.pop();
    }
    let mut text = whole;
    text.append(".");
    text.append(text_of(digits.as_slice()).as_str());
    text
}

/// The upper case hexadecimal digit of a number below 16.
pub open spec fn hex_upper(d: int) -> char {
    if d < 10 {
        ((0x30 + d) as u8) as char
    } else {
        ((0x37 + d) as u8) as char
    }
}

/// The bytes that stand for themselves in a URI.
pub open spec fn unreserved(b: u8) -> bool {
    ||| 0x41 <= b <= 0x5a
    ||| 0x61 <= b <= 0x7a
    ||| 0x30 <= b <= 0x39
    ||| b == 0x2d
    ||| b == 0x5f
    ||| b == 0x2e
    ||| b == 0x7e
}

/// One byte, percent-encoded where it has to be.
pub open spec fn percent_byte(b: u8) -> Seq<char> {
    if unreserved(b) {
        seq![b as char]
    } else {
        seq!['%', hex_upper((b / 16) as int), hex_upper((b % 16) as int)]
    }
}

/// Bytes, percent-encoded.
pub open spec fn percent_encoded(bytes: Seq<u8>) -> Seq<char>
    decreases bytes.len(),
{
    if bytes.len() == 0 {
        Seq::empty()
    } else {
        percent_encoded(bytes.drop_last()) + percent_byte(bytes.last())
    }
}

/// The upper case hexadecimal digit of a number below 16.
fn hex_upper_digit(d: u8) -> (c: char)
    requires
        d < 16,
    ensures
        c == hex_upper(d as int),
{
    if d < 10 {
        (0x30 + d) as char
    } else {
        (0x37 + d) as char
    }
}

/// Percent-encodes the label of a URI.
pub fn urlencoding_minimal(s: &str) -> (out: String)
    ensures
        out@ == percent_encoded(encode_utf8(s@)),
{
    let bytes = s.as_bytes();
    let mut out = String::new();
    let mut i: usize = 0;
    assert(bytes@.take(0) =~= Seq::empty());
    while i < bytes.len()
        invariant
            i <= bytes@.len(),
            out@ == percent_encoded(bytes@.take(i as int)),
        decreases bytes@.len() - i,
    {
        let b = bytes[i];
        let ghost before = out@;
        assert(bytes@.take(i + 1).drop_last() =~= bytes@.take(i as int));
        if (b >= 0x41 && b <= 0x5a) || (b >= 0x61 && b <= 0x7a) || (b >= 0x30 && b <= 0x39) || b
            == 0x2d || b == 0x5f || b == 0x2e || b == 0x7e {
            out.push(b as char);
        } else {
            out.push('%');
            out.push(hex_upper_digit(b / 16));
            out.push(hex_upper_digit(b % 16));
        }
        assert(out@ =~= before + percent_byte(b));
        i += 1;
    }
    assert(bytes@.take(i as int) =~= bytes@);
    out
}

/// A BIP-21 URI: the address, then the amount and the label where they are there. An empty label
/// counts as none.
pub open spec fn bip21_text(
    address: Seq<char>,
    amount: Option<u64>,
    label: Option<Seq<char>>,
) -> Seq<char> {
    let head = "bitcoin:"@ + address;
    let labelled = label matches Some(l) && l.len() > 0;
    match amount {
        Some(sats) => {
            let with_amount = head + "?"@ + ("amount="@ + btc_text(sats as nat));
            if labelled {
                with_amount + "&"@ + ("label="@ + percent_encoded(encode_utf8(label->0)))
            } else {
                with_amount
            }
        },
        None => if labelled {
            head + "?"@ + ("label="@ + percent_encoded(encode_utf8(label->0)))
        } else {
            head
        },
    }
}

/// The characters of an optional text.
pub open spec fn opt_view(text: Option<&str>) -> Option<Seq<char>> {
    match text {
        Some(t) => Some(t@),
        None => None,
    }
}

/// BIP-21 URI of an address, with an amount in satoshis and a label where they are given.
pub fn bip21_uri(address: &str, amount_sats: Option<u64>, label: Option<&str>) -> (uri: String)
    ensures
        uri@ == bip21_text(address@, amount_sats, opt_view(label)),
{
    let mut uri = "bitcoin:".to_owned();
    uri.append(address);
    let mut sep = "?";
    if let Some(sats) = amount_sats {
        let mut param = "amount=".to_owned();
        param.append(format_btc_from_sats(sats).as_str());
        uri.append(sep);
        uri.append(param.as_str());
        sep = "&";
    }
    if let Some(l) = label {
        if !l.is_empty() {
            let mut param = "label=".to_owned();
            param.append(urlencoding_minimal(l).as_str());
            uri.append(sep);
            uri.append(param.as_str());
        }
    }
    uri
}

/// Display of an on-chain payment. With an amount everything is the URI; without one the URI is
/// for the QR code alone.
pub fn onchain_payment_display(
    address: &str,
    amount_sats: Option<u64>,
    label: Option<&str>,
) -> (display: PaymentDisplay)
    ensures
        display.qr_payload@ == bip21_text(address@, amount_sats, opt_view(label)),
        amount_sats is Some ==> display.text@ == display.qr_payload@ && display.clipboard@
            == display.qr_payload@,
        amount_sats is None ==> display.text@ == address@ && display.clipboard@ == address@,
{
    let uri = bip21_uri(address, amount_sats, label);
    if amount_sats.is_some() {
        PaymentDisplay::new(uri.as_str())
    } else {
        PaymentDisplay::new(address).with_qr(uri.as_str()).with_clipboard(address)
    }
}

/// Display of a Lightning invoice.
pub fn bolt11_payment_display(bolt11: &str) -> (display: PaymentDisplay)
    ensures
        display.text@ == bolt11@,
        display.qr_payload@ == bolt11@,
        display.clipboard@ == bolt11@,
{
    PaymentDisplay::new(bolt11)
}

/// The explorer's base URL for a network.
pub open spec fn explorer_base(network: BitcoinNetwork) -> Seq<char> {
    match network {
        BitcoinNetwork::Mainnet => "https://mempool.space"@,
        BitcoinNetwork::Signet => "https://mempool.space/signet"@,
        BitcoinNetwork::Testnet => "https://mempool.space/testnet"@,
        BitcoinNetwork::Testnet4 => "https://mempool.space/testnet4"@,
    }
}

/// The explorer's base URL for a network.
pub fn mempool_base_url(network: BitcoinNetwork) -> (url: &'static str)
    ensures
        url@ == explorer_base(network),
{
    match network {
        BitcoinNetwork::Mainnet => "https://mempool.space",
        BitcoinNetwork::Signet => "https://mempool.space/signet",
        BitcoinNetwork::Testnet => "https://mempool.space/testnet",
        BitcoinNetwork::Testnet4 => "https://mempool.space/testnet4",
    }
}

/// The explorer's page on an address.
pub fn mempool_address_url(network: BitcoinNetwork, address: &str) -> (url: String)
    ensures
        url@ == explorer_base(network) + "/address/"@ + address@,
{
    let mut url = mempool_base_url(network).to_owned();
    url.append("/address/");
    url.append(address);
    url
}

/// The explorer's page on a transaction.
pub fn mempool_txid_url(network: BitcoinNetwork, txid: &str) -> (url: String)
    ensures
        url@ == explorer_base(network) + "/tx/"@ + txid@,
{
    let mut url = mempool_base_url(network).to_owned();
    url.append("/tx/");
    url.append(txid);
    url
}

/// The QR code of some bytes at the medium error correction level: its width and its modules row
/// by row, dark ones `true`, or the reason why there is none.
pub uninterp spec fn qr_grid(payload: Seq<u8>) -> Result<(usize, Seq<bool>), Seq<char>>;

/// Calls `qrcode::QrCode::with_error_correction_level` with level `M`, then `width` and `to_vec`
/// of the code. What comes out depends on the bytes alone; there are width times width modules.
#[allow(deprecated)]
#[verifier::external_body]
fn qr_modules(payload: &[u8]) -> (r: Result<(usize, Vec<bool>), String>)
    ensures
        qr_grid(payload@) == match r {
            Ok((width, modules)) => Ok((width, modules@)),
            Err(reason) => Err(reason@),
        },
        r matches Ok((width, modules)) ==> modules@.len() == width * width,
{
    match qrcode::QrCode::with_error_correction_level(payload, qrcode::EcLevel::M) {
        Ok(code) => Ok((code.width(), code.to_vec())),
        Err(e) => Err(e.to_string()),
    }
}

/// Row `y` of a grid: `#` for a dark module, a space for a light one.
pub open spec fn grid_row(width: nat, modules: Seq<bool>, y: int) -> Seq<char> {
    Seq::new(width, |x: int| if modules[y * width + x] { '#' } else { ' ' })
}

/// The first `rows` rows of a grid, each with a line end.
pub open spec fn grid_rows(width: nat, modules: Seq<bool>, rows: nat) -> Seq<char>
    decreases rows,
{
    if rows == 0 {
        Seq::empty()
    } else {
        (grid_rows(width, modules, (rows - 1) as nat) + grid_row(width, modules, rows - 1)).push(
            '\n',
        )
    }
}

/// A square grid as text.
pub fn grid_ascii(width: usize, modules: &[bool]) -> (text: String)
    requires
        modules@.len() == width * width,
    ensures
        text@ == grid_rows(width as nat, modules@, width as nat),
{
    let mut text = String::new();
    let mut y: usize = 0;
    let mut at: usize = 0;
    let total: usize = modules.len();
    while y < width
        invariant
            y <= width,
            total == modules@.len(),
            modules@.len() == width * width,
            at == y * width,
            text@ == grid_rows(width as nat, modules@, y as nat),
        decreases width - y,
    {
        let mut x: usize = 0;
        let ghost before = text@;
        assert(y * width + width <= width * width) by (nonlinear_arith)
            requires
                y < width,
        ;
        while x < width
            invariant
                y < width,
                x <= width,
                total == modules@.len(),
                at == y * width,
                at + width <= total,
                text@ =~= before + grid_row(width as nat, modules@, y as int).take(x as int),
            decreases width - x,
        {
            if modules[at + x] {
                text.push('#');
            } else {
                text.push(' ');
            }
            x += 1;
        }
        text.push('\n');
        assert((y + 1) * width == y * width + width) by (nonlinear_arith);
        at = at + width;
        y += 1;
        assert(text@ =~= grid_rows(width as nat, modules@, y as nat));
    }
    text
}

/// QR code of a text, one `#` or space per module.
pub fn qr_ascii(payload: &str) -> (r: Result<String, String>)
    ensures
        match qr_grid(encode_utf8(payload@)) {
            Ok((width, modules)) => r matches Ok(text) && text@ == grid_rows(
                width as nat,
                modules,
                width as nat,
            ),
            Err(reason) => r matches Err(e) && e@ == reason,
        },
{
    match qr_modules(payload.as_bytes()) {
        Ok((width, modules)) => Ok(grid_ascii(width, modules.as_slice())),
        Err(reason) => Err(reason),
    }
}

/// The QR code of some bytes at the medium error correction level, drawn with half block
/// characters, or the reason why there is none.
pub uninterp spec fn qr_blocks(payload: Seq<u8>) -> Result<Seq<char>, Seq<char>>;

/// Calls `qrcode::QrCode::with_error_correction_level` with level `M` and renders the code with
/// `qrcode::render::unicode::Dense1x2`, dark as dark and light as light. What comes out depends on
/// the bytes alone.
#[verifier::external_body]
fn qr_drawing(payload: &[u8]) -> (r: Result<String, String>)
    ensures
        qr_blocks(payload@) == match r {
            Ok(drawing) => Ok(drawing@),
            Err(reason) => Err(reason@),
        },
{
    let code = match qrcode::QrCode::with_error_correction_level(payload, qrcode::EcLevel::M) {
        Ok(code) => code,
        Err(e) => return Err(e.to_string()),
    };
    Ok(code.render::<qrcode::render::unicode::Dense1x2>()
        .dark_color(qrcode::render::unicode::Dense1x2::Dark)
        .light_color(qrcode::render::unicode::Dense1x2::Light)
        .build())
}

/// QR code of a text, drawn with half block characters, line by line.
pub fn qr_matrix_lines(payload: &str) -> (r: Result<Vec<String>, String>)
    ensures
        match qr_blocks(encode_utf8(payload@)) {
            Ok(drawing) => r matches Ok(list) && texts(list@) == lines(drawing),
            Err(reason) => r matches Err(e) && e@ == reason,
        },
{
    match qr_drawing(payload.as_bytes()) {
        Ok(drawing) => Ok(lines_of(drawing.as_str())),
        Err(reason) => Err(reason),
    }
}

/// The satoshis that an amount in bitcoin writes, with at most eight digits behind the point.
pub open spec fn sats_of(text: Seq<char>) -> int {
    match index_of(text, "."@) {
        None => 100_000_000 * decimal_value(text),
        Some(i) => {
            let frac = text.skip(i + 1);
            100_000_000 * decimal_value(text.take(i)) + decimal_value(
                frac + zeros((8 - frac.len()) as nat),
            )
        },
    }
}

/// So many zeros.
pub open spec fn zeros(n: nat) -> Seq<char> {
    Seq::new(n, |i: int| '0')
}

/// An amount is read back from its text: nothing is rounded.
pub proof fn lemma_amount_round_trip(sats: nat)
    ensures
        sats_of(btc_text(sats)) == sats,
{
    reveal_strlit(".");
    let whole = decimal(sats / 100_000_000);
    let rest = sats % 100_000_000;
    lemma_decimal_round_trip(sats / 100_000_000);
    let text = btc_text(sats);
    lemma_index_from(text, "."@, 0);
    if rest == 0 {
        assert forall|j: int| 0 <= j implies !stands_at(text, "."@, j) by {
            if stands_at(text, "."@, j) {
                assert(text.subrange(j, j + 1)[0] == text[j]);
                assert('0' <= text[j] <= '9');
            }
        }
    } else {
        let digits = padded(rest, 8);
        let frac = without_zeros(digits);
        let point = whole.len() as int;
        reveal_with_fuel(pow10, 9);
        lemma_padded_value(rest, 8);
        lemma_without_zeros(digits);
        assert(text.subrange(point, point + 1) =~= "."@);
        assert(stands_at(text, "."@, point));
        assert forall|j: int| 0 <= j < whole.len() implies !stands_at(text, "."@, j) by {
            if stands_at(text, "."@, j) {
                assert(text.subrange(j, j + 1)[0] == text[j]);
                assert(text[j] == whole[j]);
                assert('0' <= whole[j] <= '9');
            }
        }
        assert(index_of(text, "."@) == Some(point));
        assert(text.take(point) =~= whole);
        assert(text.skip(point + 1) =~= frac);
        assert(frac + zeros((8 - frac.len()) as nat) =~= digits);
    }
}

/// The value of the low digits of a number.
proof fn lemma_padded_value(n: nat, width: nat)
    requires
        width <= 8,
        n < pow10(width),
    ensures
        padded(n, width).len() == width,
        decimal_value(padded(n, width)) == n,
    decreases width,
{
    if width > 0 {
        lemma_padded_value(n / 10, (width - 1) as nat);
        assert(padded(n, width).drop_last() =~= padded(n / 10, (width - 1) as nat));
    }
}

/// A power of ten.
spec fn pow10(n: nat) -> nat
    decreases n,
{
    if n == 0 {
        1
    } else {
        10 * pow10((n - 1) as nat)
    }
}

/// What is dropped at the end are zeros.
proof fn lemma_without_zeros(s: Seq<char>)
    ensures
        without_zeros(s).len() <= s.len(),
        without_zeros(s) + zeros((s.len() - without_zeros(s).len()) as nat) == s,
    decreases s.len(),
{
    if s.len() > 0 && s.last() == '0' {
        let shorter = s.drop_last();
        lemma_without_zeros(shorter);
        let kept = without_zeros(s);
        assert(s =~= shorter.push('0'));
        assert((kept + zeros((shorter.len() - kept.len()) as nat)).push('0') =~= kept + zeros(
            (s.len() - kept.len()) as nat,
        ));
    } else {
        assert(s + zeros(0) =~= s);
    }
}

/// An encoded label holds nothing but characters that stand for themselves in a URI and `%`.
pub proof fn lemma_encoded_is_plain(bytes: Seq<u8>)
    ensures
        forall|i: int|
            0 <= i < percent_encoded(bytes).len() ==> {
                let c = #[trigger] percent_encoded(bytes)[i];
                c == '%' || (c as int) < 0x80 && unreserved(c as u8)
            },
    decreases bytes.len(),
{
    if bytes.len() > 0 {
        let front = percent_encoded(bytes.drop_last());
        lemma_encoded_is_plain(bytes.drop_last());
        assert forall|i: int| 0 <= i < percent_encoded(bytes).len() implies {
            let c = #[trigger] percent_encoded(bytes)[i];
            c == '%' || (c as int) < 0x80 && unreserved(c as u8)
        } by {
            if i < front.len() {
                assert(percent_encoded(bytes)[i] == front[i]);
            } else {
                assert(percent_encoded(bytes)[i] == percent_byte(bytes.last())[i - front.len()]);
            }
        }
    }
}

/// An amount in bitcoin has no superfluous digits: where it has a fraction, that ends with a digit
/// other than zero.
pub proof fn lemma_amount_is_short(sats: nat)
    ensures
        '1' <= btc_text(sats).last() <= '9' || sats % 100_000_000 == 0,
        sats % 100_000_000 == 0 ==> btc_text(sats) == decimal(sats / 100_000_000),
{
    let rest = sats % 100_000_000;
    if rest > 0 {
        let digits = padded(rest, 8);
        let frac = without_zeros(digits);
        reveal_with_fuel(pow10, 9);
        lemma_padded_value(rest, 8);
        lemma_padded_digits(rest, 8);
        lemma_without_zeros(digits);
        if frac.len() == 0 {
            assert(digits =~= zeros(8));
            lemma_value_of_zeros(8);
        }
        lemma_last_is_no_zero(digits);
        assert(frac.last() == digits[frac.len() - 1]);
    }
}

proof fn lemma_padded_digits(n: nat, width: nat)
    ensures
        all_digits(padded(n, width)),
    decreases width,
{
    if width > 0 {
        lemma_padded_digits(n / 10, (width - 1) as nat);
    }
}

proof fn lemma_value_of_zeros(n: nat)
    ensures
        decimal_value(zeros(n)) == 0,
    decreases n,
{
    if n > 0 {
        lemma_value_of_zeros((n - 1) as nat);
        assert(zeros(n).drop_last() =~= zeros((n - 1) as nat));
    }
}

proof fn lemma_last_is_no_zero(s: Seq<char>)
    ensures
        without_zeros(s).len() > 0 ==> without_zeros(s).last() != '0',
    decreases s.len(),
{
    if s.len() > 0 && s.last() == '0' {
        lemma_last_is_no_zero(s.drop_last());
    }
}

/// A URI names the address first, then the amount where there is one, then the label where there
/// is one, and holds nothing else.
pub proof fn lemma_uri(address: Seq<char>, sats: u64, label: Seq<char>)
    requires
        label.len() > 0,
    ensures
        bip21_text(address, None, None) == "bitcoin:"@ + address,
        bip21_text(address, None, Some(Seq::empty())) == "bitcoin:"@ + address,
        bip21_text(address, Some(sats), None) == "bitcoin:"@ + address + "?amount="@ + btc_text(
            sats as nat,
        ),
        bip21_text(address, Some(sats), Some(label)) == bip21_text(address, Some(sats), None)
            + "&label="@ + percent_encoded(encode_utf8(label)),
        bip21_text(address, None, Some(label)) == "bitcoin:"@ + address + "?label="@
            + percent_encoded(encode_utf8(label)),
{
    reveal_strlit("?");
    reveal_strlit("&");
    reveal_strlit("amount=");
    reveal_strlit("label=");
    reveal_strlit("?amount=");
    reveal_strlit("&label=");
    reveal_strlit("?label=");
    let head = "bitcoin:"@ + address;
    assert("?amount="@ =~= "?"@ + "amount="@);
    assert("&label="@ =~= "&"@ + "label="@);
    assert("?label="@ =~= "?"@ + "label="@);
    assert(bip21_text(address, Some(sats), None) =~= head + "?amount="@ + btc_text(sats as nat));
    assert(bip21_text(address, Some(sats), Some(label)) =~= bip21_text(address, Some(sats), None)
        + "&label="@ + percent_encoded(encode_utf8(label)));
    assert(bip21_text(address, None, Some(label)) =~= head + "?label="@ + percent_encoded(
        encode_utf8(label),
    ));
}

/// A letter, a digit, `-`, `_`, `.` or `~` stands for itself; every other byte is `%` and two upper
/// case hexadecimal digits, the one of the upper half first.
pub proof fn lemma_percent_byte(b: u8)
    ensures
        ('A' <= b as char <= 'Z') || ('a' <= b as char <= 'z') || ('0' <= b as char <= '9') || b
            as char == '-' || b as char == '_' || b as char == '.' || b as char == '~'
            <==> percent_byte(b) == seq![b as char],
        percent_byte(b).len() == 1 || percent_byte(b).len() == 3,
        percent_byte(b).len() == 3 ==> {
            let (high, low) = (percent_byte(b)[1], percent_byte(b)[2]);
            &&& percent_byte(b)[0] == '%'
            &&& ('0' <= high <= '9') || ('A' <= high <= 'F')
            &&& ('0' <= low <= '9') || ('A' <= low <= 'F')
            &&& b == 16 * hex_upper_value(high) + hex_upper_value(low)
        },
{
    if !unreserved(b) {
        assert(percent_byte(b).len() == 3);
    }
}

/// What an upper case hexadecimal digit stands for.
pub open spec fn hex_upper_value(c: char) -> int {
    if '0' <= c <= '9' {
        c as int - '0' as int
    } else {
        10 + (c as int - 'A' as int)
    }
}

/// The explorer's pages of a network other than the main one lie below the name of the network.
pub proof fn lemma_explorer_base(network: BitcoinNetwork)
    ensures
        network is Mainnet ==> explorer_base(network) == "https://mempool.space"@,
        !(network is Mainnet) ==> explorer_base(network) == "https://mempool.space/"@
            + network.name(),
{
    reveal_strlit("https://mempool.space/");
    reveal_strlit("https://mempool.space/signet");
    reveal_strlit("https://mempool.space/testnet");
    reveal_strlit("https://mempool.space/testnet4");
    reveal_strlit("signet");
    reveal_strlit("testnet");
    reveal_strlit("testnet4");
    match network {
        BitcoinNetwork::Mainnet => {},
        _ => {
            assert(explorer_base(network) =~= "https://mempool.space/"@ + network.name());
        },
    }
}

/// In a grid as text the module in column `x` of row `y` is `#` where it is dark and a space where
/// it is light, and each row ends with a line feed.
pub proof fn lemma_grid(width: nat, modules: Seq<bool>, rows: nat, x: int, y: int)
    requires
        0 <= x < width,
        0 <= y < rows,
    ensures
        grid_rows(width, modules, rows).len() == rows * (width + 1),
        0 <= y * (width + 1) + x < rows * (width + 1),
        grid_rows(width, modules, rows)[y * (width + 1) + x] == (if modules[y * width + x] {
            '#'
        } else {
            ' '
        }),
        y * (width + 1) + width < rows * (width + 1),
        grid_rows(width, modules, rows)[y * (width + 1) + width] == '\n',
    decreases rows,
{
    let before = (rows - 1) as nat;
    let front = grid_rows(width, modules, before);
    let row = grid_row(width, modules, rows - 1);
    lemma_grid_len(width, modules, before);
    assert(rows * (width + 1) == before * (width + 1) + width + 1) by (nonlinear_arith)
        requires
            rows == before + 1,
    ;
    if y < before {
        lemma_grid(width, modules, before, x, y);
    } else {
        assert(row[x] == (if modules[y * width + x] {
            '#'
        } else {
            ' '
        }));
    }
    assert(y * (width + 1) >= 0) by (nonlinear_arith)
        requires
            y >= 0,
            width >= 0,
    ;
}

proof fn lemma_grid_len(width: nat, modules: Seq<bool>, rows: nat)
    ensures
        grid_rows(width, modules, rows).len() == rows * (width + 1),
    decreases rows,
{
    if rows > 0 {
        lemma_grid_len(width, modules, (rows - 1) as nat);
        assert(rows * (width + 1) == (rows - 1) * (width + 1) + width + 1) by (nonlinear_arith);
    } else {
        assert(rows * (width + 1) == 0) by (nonlinear_arith)
            requires
                rows == 0,
        ;
    }
}

/// The first byte of what is encoded.
proof fn lemma_encoded_first(bytes: Seq<u8>)
    requires
        bytes.len() > 0,
    ensures
        percent_encoded(bytes) == percent_byte(bytes[0]) + percent_encoded(bytes.skip(1)),
    decreases bytes.len(),
{
    let front = bytes.drop_last();
    if front.len() == 0 {
        assert(bytes.skip(1) =~= Seq::empty());
        assert(percent_encoded(front) =~= Seq::empty());
        assert(percent_encoded(bytes) =~= percent_byte(bytes[0]) + percent_encoded(bytes.skip(1)));
    } else {
        lemma_encoded_first(front);
        assert(bytes.skip(1).drop_last() =~= front.skip(1));
        assert(percent_encoded(bytes) =~= percent_byte(bytes[0]) + percent_encoded(bytes.skip(1)));
    }
}

/// Different labels are encoded differently.
pub proof fn lemma_encoding_tells_apart(a: Seq<u8>, b: Seq<u8>)
    requires
        percent_encoded(a) == percent_encoded(b),
    ensures
        a == b,
    decreases a.len(),
{
    if a.len() == 0 || b.len() == 0 {
        if a.len() > 0 {
            lemma_encoded_first(a);
            assert(percent_encoded(a).len() > 0);
        }
        if b.len() > 0 {
            lemma_encoded_first(b);
            assert(percent_encoded(b).len() > 0);
        }
        assert(a =~= b);
    } else {
        lemma_encoded_first(a);
        lemma_encoded_first(b);
        let pa = percent_byte(a[0]);
        let pb = percent_byte(b[0]);
        let ra = percent_encoded(a.skip(1));
        let rb = percent_encoded(b.skip(1));
        let all = percent_encoded(a);
        assert(all[0] == pa[0] && all[0] == pb[0]);
        if all[0] == '%' {
            assert(all[1] == pa[1] && all[1] == pb[1]);
            assert(all[2] == pa[2] && all[2] == pb[2]);
            assert(a[0] / 16 == b[0] / 16 && a[0] % 16 == b[0] % 16);
        }
        assert(a[0] == b[0]);
        assert(ra =~= all.skip(pa.len() as int));
        assert(rb =~= all.skip(pb.len() as int));
        lemma_encoding_tells_apart(a.skip(1), b.skip(1));
        assert(a =~= seq![a[0]] + a.skip(1));
        assert(b =~= seq![b[0]] + b.skip(1));
    }
}

} // verus!
