//! The device pairing screen's data: verification words, QR rows, fingerprint and addresses.
use base64::Engine;
use vstd::prelude::*;

use crate::text::{decimal, push_decimal, push_str};

verus! {

/// The twelve words of the BIP-39 English mnemonic of sixteen bytes of entropy.
pub uninterp spec fn bip39_english_words(entropy: Seq<u8>) -> Seq<Seq<char>>;

/// Whether every character of a word is a lower-case ASCII letter.
pub open spec fn lower_word(w: Seq<char>) -> bool {
    forall|i: int| 0 <= i < w.len() ==> 'a' <= #[trigger] w[i] && w[i] <= 'z'
}

/// Calls `bip39::Mnemonic::from_entropy_in` with the English word list on sixteen bytes and
/// collects `Mnemonic::words`. The source accepts any sixteen bytes (128 bits) and yields twelve
/// words of its English list, whose words are three to eight lower-case ASCII letters; the words
/// are the name `bip39_english_words` of the entropy.
#[verifier::external_body]
fn english_mnemonic(entropy: &[u8]) -> (r: Vec<String>)
    requires
        entropy@.len() == 16,
    ensures
        r@.len() == 12,
        forall|i: int| 0 <= i < 12 ==> (#[trigger] r@[i])@ == bip39_english_words(entropy@)[i],
        forall|i: int| 0 <= i < 12 ==> 3 <= (#[trigger] r@[i])@.len() <= 8 && lower_word(r@[i]@),
{
    let mut words = Vec::new();
    match bip39::Mnemonic::from_entropy_in(bip39::Language::English, entropy) {
        Ok(m) => {
            for w in m.words() {
                words.push(String::from(w));
            }
        },
        Err(_) => {},
    }
    words
}

/// A word left-aligned in eight cells: padded with spaces when shorter.
pub open spec fn pad8(w: Seq<char>) -> Seq<char> {
    if w.len() < 8 {
        w + Seq::new((8 - w.len()) as nat, |i: int| ' ')
    } else {
        w
    }
}

/// Four words in eight-cell columns, four spaces apart.
pub open spec fn word_line(a: Seq<char>, b: Seq<char>, c: Seq<char>, d: Seq<char>) -> Seq<char> {
    pad8(a) + "    "@ + pad8(b) + "    "@ + pad8(c) + "    "@ + pad8(d)
}

/// Appends a word left-aligned in eight cells.
fn push_padded(s: &mut String, w: &str)
    ensures
        final(s)@ == old(s)@ + pad8(w@),
{
    push_str(s, w);
    let n = w.unicode_len();
    assert(s@ =~= old(s)@ + w@ + Seq::new(0, |i: int| ' '));
    let mut k: usize = n;
    while k < 8
        invariant
            n == w@.len(),
            n <= k <= 8 || (n > 8 && k == n),
            s@ == old(s)@ + w@ + Seq::new((k - n) as nat, |i: int| ' '),
        decreases 8 - k,
    {
        s.push(' ');
        k += 1;
        assert(s@ =~= old(s)@ + w@ + Seq::new((k - n) as nat, |i: int| ' '));
    }
    proof {
        if n >= 8 {
            assert(s@ =~= old(s)@ + w@);
        } else {
            assert(s@ =~= old(s)@ + pad8(w@));
        }
    }
}

/// The three lines of verification words shown for a certificate fingerprint: the BIP-39 English
/// mnemonic of its first sixteen bytes, four words per line.
pub fn words_from(bytes: &[u8]) -> (r: Vec<String>)
    requires
        bytes@.len() >= 16,
    ensures
        r@.len() == 3,
        forall|l: int| 0 <= l < 3 ==> (#[trigger] r@[l])@ == word_line(
            bip39_english_words(bytes@.take(16))[4 * l],
            bip39_english_words(bytes@.take(16))[4 * l + 1],
            bip39_english_words(bytes@.take(16))[4 * l + 2],
            bip39_english_words(bytes@.take(16))[4 * l + 3],
        ),
{
    let mut entropy: Vec<u8> = Vec::new();
    let mut i: usize = 0;
    while i < 16
        invariant
            i <= 16,
            bytes@.len() >= 16,
            entropy@ == bytes@.take(i as int),
        decreases 16 - i,
    {
        entropy.push(bytes[i]);
        i += 1;
        assert(entropy@ =~= bytes@.take(i as int));
    }
    let words = english_mnemonic(entropy.as_slice());
    let ghost ws = bip39_english_words(bytes@.take(16));
    let mut lines: Vec<String> = Vec::new();
    let mut l: usize = 0;
    while l < 3
        invariant
            l <= 3,
            words@.len() == 12,
            ws == bip39_english_words(entropy@),
            forall|j: int| 0 <= j < 12 ==> (#[trigger] words@[j])@ == ws[j],
            lines@.len() == l,
            forall|m: int| 0 <= m < l ==> (#[trigger] lines@[m])@ == word_line(ws[4 * m], ws[4 * m + 1], ws[4 * m
                + 2], ws[4 * m + 3]),
        decreases 3 - l,
    {
        let mut line = String::new();
        push_padded(&mut line, words[4 * l].as_str());
        push_str(&mut line, "    ");
        push_padded(&mut line, words[4 * l + 1].as_str());
        push_str(&mut line, "    ");
        push_padded(&mut line, words[4 * l + 2].as_str());
        push_str(&mut line, "    ");
        push_padded(&mut line, words[4 * l + 3].as_str());
        proof {
            assert(line@ =~= word_line(ws[4 * l as int], ws[4 * l + 1], ws[4 * l + 2], ws[4 * l + 3]));
        }
        lines.push(line);
        l += 1;
    }
    lines
}

/// Whether the upper half of a block character is dark: the full block U+2588 and the upper half
/// block U+2580.
pub open spec fn upper_half_dark(c: char) -> bool {
    c == '\u{2588}' || c == '\u{2580}'
}

/// Whether the lower half of a block character is dark: the full block U+2588 and the lower half
/// block U+2584.
pub open spec fn lower_half_dark(c: char) -> bool {
    c == '\u{2588}' || c == '\u{2584}'
}

/// A text cell shows its two modules faithfully: its upper half is dark exactly when the top
/// module is, and its lower half exactly when the bottom module is; so different module pairs get
/// different characters.
pub proof fn lemma_glyph_halves()
    ensures
        forall|top: bool, bottom: bool| #[trigger] upper_half_dark(qr_glyph(top, bottom)) == top
            && lower_half_dark(qr_glyph(top, bottom)) == bottom,
        forall|t1: bool, b1: bool, t2: bool, b2: bool| qr_glyph(t1, b1) == qr_glyph(t2, b2) ==> t1 == t2 && b1
            == b2,
{
}

/// The glyph for a pair of vertically stacked QR modules: full block, upper half, lower half, or
/// a no-break space.
pub open spec fn qr_glyph(top: bool, bottom: bool) -> char {
    if top && bottom {
        '\u{2588}'
    } else if top {
        '\u{2580}'
    } else if bottom {
        '\u{2584}'
    } else {
        '\u{00A0}'
    }
}

/// Computes `qr_glyph`.
fn glyph(top: bool, bottom: bool) -> (c: char)
    ensures
        c == qr_glyph(top, bottom),
{
    if top && bottom {
        '\u{2588}'
    } else if top {
        '\u{2580}'
    } else if bottom {
        '\u{2584}'
    } else {
        '\u{00A0}'
    }
}

/// The module at column `x`, row `y` of a square matrix stored row by row; dark outside it is none.
pub open spec fn module_at(modules: Seq<bool>, size: int, x: int, y: int) -> bool {
    if 0 <= x < size && 0 <= y < size {
        modules[y * size + x]
    } else {
        false
    }
}

/// Text row `r` of a QR matrix drawn two module rows per text row.
pub open spec fn qr_row(modules: Seq<bool>, size: int, r: int) -> Seq<char> {
    Seq::new(size as nat, |x: int| qr_glyph(module_at(modules, size, x, 2 * r), module_at(modules, size, x, 2 * r + 1)))
}

/// Draws a square module matrix (stored row by row) as text, two module rows per text row; a last
/// odd row is drawn against light modules.
pub fn qr_rows(size: usize, modules: &Vec<bool>) -> (r: Vec<String>)
    requires
        size <= 1000,
        modules@.len() == size * size,
    ensures
        r@.len() == (size + 1) / 2,
        forall|k: int| 0 <= k < r@.len() ==> (#[trigger] r@[k])@ == qr_row(modules@, size as int, k),
        forall|k: int, x: int| 0 <= k < r@.len() && 0 <= x < size ==> upper_half_dark(#[trigger] r@[k]@[x])
            == module_at(modules@, size as int, x, 2 * k) && lower_half_dark(r@[k]@[x]) == module_at(
            modules@,
            size as int,
            x,
            2 * k + 1,
        ),
{
    let mut rows: Vec<String> = Vec::new();
    let mut y: usize = 0;
    while y < size
        invariant
            size <= 1000,
            modules@.len() == size * size,
            y % 2 == 0,
            y <= size + 1,
            rows@.len() == y / 2,
            forall|k: int| 0 <= k < rows@.len() ==> (#[trigger] rows@[k])@ == qr_row(modules@, size as int, k),
        decreases size + 1 - y,
    {
        let mut row = String::new();
        let mut x: usize = 0;
        while x < size
            invariant
                size <= 1000,
                modules@.len() == size * size,
                y < size,
                y % 2 == 0,
                x <= size,
                row@ == qr_row(modules@, size as int, (y / 2) as int).take(x as int),
            decreases size - x,
        {
            proof {
                assert(y * size + x < size * size) by (nonlinear_arith)
                    requires
                        y < size,
                        x < size,
                ;
                assert(size * size <= 1000000) by (nonlinear_arith)
                    requires
                        size <= 1000,
                ;
            }
            let top = modules[y * size + x];
            let bottom = if y + 1 < size {
                proof {
                    assert((y + 1) * size + x < size * size) by (nonlinear_arith)
                        requires
                            y + 1 < size,
                            x < size,
                    ;
                    assert((y + 1) * size + x == y * size + x + size) by (nonlinear_arith);
                }
                modules[(y + 1) * size + x]
            } else {
                false
            };
            proof {
                assert(2 * (y / 2) == y);
                assert(top == module_at(modules@, size as int, x as int, y as int));
                assert(bottom == module_at(modules@, size as int, x as int, y + 1));
            }
            row.push(glyph(top, bottom));
            x += 1;
            assert(row@ =~= qr_row(modules@, size as int, (y / 2) as int).take(x as int));
        }
        assert(row@ =~= qr_row(modules@, size as int, (y / 2) as int));
        rows.push(row);
        y += 2;
    }
    proof {
        lemma_glyph_halves();
    }
    rows
}

/// The most bytes a QR code holds in binary mode at the low error-correction level.
pub const QR_MAX_BYTES: usize = 2953;

/// The side length, in modules, of the QR code `qrcodegen` makes for the bytes.
pub uninterp spec fn qr_side(data: Seq<u8>) -> int;

/// The modules of the QR code `qrcodegen` makes for the bytes, row by row: entry `y * side + x`
/// is whether the module at column `x`, row `y` is dark.
pub uninterp spec fn qr_modules(data: Seq<u8>) -> Seq<bool>;

/// Calls `qrcodegen::QrCode::encode_binary` at error-correction level `Low`, then copies the code's
/// modules out row by row with `QrCode::get_module`. The crate documents that binary data fits
/// when it is at most 2953 bytes, and sides between 21 and 177 modules; the side and the modules
/// are the names `qr_side` and `qr_modules` of the bytes.
#[verifier::external_body]
fn qr_matrix(data: &[u8]) -> (r: Option<(usize, Vec<bool>)>)
    ensures
        r is Some <==> data@.len() <= QR_MAX_BYTES,
        r matches Some(t) ==> t.0 == qr_side(data@) && t.1@ == qr_modules(data@),
        r matches Some(t) ==> 21 <= t.0 <= 177 && t.1@.len() == t.0 * t.0,
{
    let code = qrcodegen::QrCode::encode_binary(data, qrcodegen::QrCodeEcc::Low).ok()?;
    let side = code.size();
    let mut modules = Vec::new();
    for y in 0..side {
        for x in 0..side {
            modules.push(code.get_module(x, y));
        }
    }
    Some((side as usize, modules))
}

/// `rows` draw a square QR matrix `m` of side `size` (a valid QR side length), two module rows per
/// text row.
pub open spec fn draws_qr(rows: Seq<String>, size: int, m: Seq<bool>) -> bool {
    &&& 21 <= size <= 177
    &&& m.len() == size * size
    &&& rows.len() == (size + 1) / 2
    &&& forall|k: int| 0 <= k < rows.len() ==> (#[trigger] rows[k])@ == qr_row(m, size, k)
    &&& forall|k: int, x: int| 0 <= k < rows.len() && 0 <= x < size ==> upper_half_dark(#[trigger] rows[k]@[x])
        == module_at(m, size, x, 2 * k) && lower_half_dark(rows[k]@[x]) == module_at(m, size, x, 2 * k + 1)
}

/// Why the pairing data could not be built.
#[derive(Debug, PartialEq, Eq)]
pub enum PairingError {
    /// The fingerprint does not fit a QR code.
    QrDataTooLong,
}

/// Draws the fingerprint's QR code in text rows, two module rows per text row; fails when the
/// bytes do not fit a QR code.
pub fn qr_from(bytes: &[u8]) -> (r: Result<Vec<String>, PairingError>)
    ensures
        r is Ok <==> bytes@.len() <= QR_MAX_BYTES,
        r matches Ok(rows) ==> draws_qr(rows@, qr_side(bytes@), qr_modules(bytes@)),
{
    match qr_matrix(bytes) {
        Some((side, modules)) => Ok(qr_rows(side, &modules)),
        None => Err(PairingError::QrDataTooLong),
    }
}

/// The character of a six-bit value in the standard base64 alphabet.
pub open spec fn b64_char(v: int) -> char {
    if 0 <= v < 26 {
        ((65 + v) as u32) as char
    } else if 26 <= v < 52 {
        ((97 + v - 26) as u32) as char
    } else if 52 <= v < 62 {
        ((48 + v - 52) as u32) as char
    } else if v == 62 {
        '+'
    } else {
        '/'
    }
}

/// Standard base64 with padding: each three bytes become four characters; a last single byte
/// becomes two characters and `==`, a last pair of bytes three characters and `=`.
pub open spec fn base64_spec(b: Seq<u8>) -> Seq<char>
    decreases b.len(),
{
    if b.len() == 0 {
        Seq::empty()
    } else {
        let b0 = b[0] as int;
        let b1 = if b.len() > 1 {
            b[1] as int
        } else {
            0
        };
        let b2 = if b.len() > 2 {
            b[2] as int
        } else {
            0
        };
        if b.len() == 1 {
            seq![b64_char(b0 / 4), b64_char((b0 % 4) * 16), '=', '=']
        } else if b.len() == 2 {
            seq![b64_char(b0 / 4), b64_char((b0 % 4) * 16 + b1 / 16), b64_char((b1 % 16) * 4), '=']
        } else {
            seq![
                b64_char(b0 / 4),
                b64_char((b0 % 4) * 16 + b1 / 16),
                b64_char((b1 % 16) * 4 + b2 / 64),
                b64_char(b2 % 64),
            ] + base64_spec(b.skip(3))
        }
    }
}

/// Calls `base64::Engine::encode` on the `BASE64_STANDARD` engine: the standard alphabet with
/// padding. It panics when the output length overflows a `usize`, which `requires` leaves out.
#[verifier::external_body]
fn base64_standard(bytes: &[u8]) -> (r: String)
    requires
        4 * ((bytes@.len() + 2) / 3) <= usize::MAX,
    ensures
        r@ == base64_spec(bytes@),
{
    base64::prelude::BASE64_STANDARD.encode(bytes)
}

/// A network interface as the pairing screen sees it.
#[derive(Debug)]
pub struct Interface {
    /// The interface name.
    pub name: String,
    /// The address in text form.
    pub ip: String,
    /// Whether the address is IPv4.
    pub is_ipv4: bool,
    /// Whether the address is a loopback address.
    pub is_loopback: bool,
}

/// One line of the server address list.
#[derive(Debug, PartialEq, Eq)]
pub enum AddressLine {
    /// The list's heading.
    Heading,
    /// `localhost` with the port.
    Localhost {
        /// The port in decimal.
        port: String,
    },
    /// A loopback address with the port.
    Local {
        /// The address.
        ip: String,
        /// The port in decimal.
        port: String,
    },
    /// A network address with the port and the interface name.
    Network {
        /// The address.
        ip: String,
        /// The port in decimal.
        port: String,
        /// The interface name.
        name: String,
    },
}

/// The content of an address line: kind (0 heading, 1 localhost, 2 local, 3 network), address,
/// port and interface name.
pub open spec fn line_view(l: AddressLine) -> (int, Seq<char>, Seq<char>, Seq<char>) {
    match l {
        AddressLine::Heading => (0, Seq::empty(), Seq::empty(), Seq::empty()),
        AddressLine::Localhost { port } => (1, Seq::empty(), port@, Seq::empty()),
        AddressLine::Local { ip, port } => (2, ip@, port@, Seq::empty()),
        AddressLine::Network { ip, port, name } => (3, ip@, port@, name@),
    }
}

/// The address lines of the IPv4 interfaces, in order: loopback ones as local, others as network.
pub open spec fn interface_lines(ifs: Seq<Interface>, port: Seq<char>) -> Seq<(int, Seq<char>, Seq<char>, Seq<char>)>
    decreases ifs.len(),
{
    if ifs.len() == 0 {
        Seq::empty()
    } else {
        let prev = interface_lines(ifs.drop_last(), port);
        let i = ifs.last();
        if !i.is_ipv4 {
            prev
        } else if i.is_loopback {
            prev.push((2, i.ip@, port, Seq::empty()))
        } else {
            prev.push((3, i.ip@, port, i.name@))
        }
    }
}

/// The decimal notation of a port.
fn port_text(port: u16) -> (r: String)
    ensures
        r@ == decimal(port as nat),
{
    let mut r = String::new();
    push_decimal(&mut r, port as u64);
    r
}

/// The server address list: a heading, `localhost` with the port, then each IPv4 interface
/// address with the port (loopback ones as local, others as network with the interface name).
pub fn resolve_display_addresses(port: u16, interfaces: &Vec<Interface>) -> (r: Vec<AddressLine>)
    ensures
        r@.len() >= 2,
        r@[0] == AddressLine::Heading,
        line_view(r@[1]) == (1int, Seq::<char>::empty(), decimal(port as nat), Seq::<char>::empty()),
        r@.skip(2).map_values(|l: AddressLine| line_view(l)) == interface_lines(interfaces@, decimal(port as nat)),
{
    let mut addresses: Vec<AddressLine> = Vec::new();
    addresses.push(AddressLine::Heading);
    addresses.push(AddressLine::Localhost { port: port_text(port) });
    let ghost p = decimal(port as nat);
    let mut i: usize = 0;
    while i < interfaces.len()
        invariant
            i <= interfaces@.len(),
            p == decimal(port as nat),
            addresses@.len() >= 2,
            addresses@[0] == AddressLine::Heading,
            line_view(addresses@[1]) == (1int, Seq::<char>::empty(), p, Seq::<char>::empty()),
            addresses@.skip(2).map_values(|l: AddressLine| line_view(l)) == interface_lines(interfaces@.take(i as int), p),
        decreases interfaces@.len() - i,
    {
        let itf = &interfaces[i];
        let ghost before = addresses@;
        proof {
            let t = interfaces@.take(i + 1);
            assert(t.drop_last() =~= interfaces@.take(i as int));
            assert(t.last() == interfaces@[i as int]);
        }
        if itf.is_ipv4 {
            if itf.is_loopback {
                addresses.push(AddressLine::Local { ip: itf.ip.clone(), port: port_text(port) });
            } else {
                addresses.push(AddressLine::Network { ip: itf.ip.clone(), port: port_text(port), name: itf.name.clone() });
            }
            proof {
                assert(addresses@.skip(2) =~= before.skip(2).push(addresses@.last()));
                assert(addresses@.skip(2).map_values(|l: AddressLine| line_view(l)) =~= before.skip(2).map_values(
                    |l: AddressLine| line_view(l)).push(line_view(addresses@.last())));
            }
        }
        i += 1;
    }
    assert(interfaces@.take(i as int) =~= interfaces@);
    addresses
}

/// Everything the pairing screen shows, computed once.
#[derive(Debug)]
pub struct PairingData {
    /// Whether the server serves HTTPS.
    pub tls_enabled: bool,
    /// The certificate fingerprint in standard base64.
    pub fingerprint: String,
    /// The verification words, four per line.
    pub words: Vec<String>,
    /// The QR code of the fingerprint, as text rows.
    pub qr_lines: Vec<String>,
    /// The server address list.
    pub server_address: Vec<AddressLine>,
}

impl PairingData {
    /// Builds the pairing data for a certificate fingerprint (at least sixteen bytes) served on
    /// `port` over the given interfaces; fails when the fingerprint does not fit a QR code.
    pub fn new(tls_enabled: bool, port: u16, cert_fingerprint: &[u8], interfaces: &Vec<Interface>) -> (r: Result<
        Self,
        PairingError,
    >)
        requires
            cert_fingerprint@.len() >= 16,
            4 * ((cert_fingerprint@.len() + 2) / 3) <= usize::MAX,
        ensures
            r is Ok <==> cert_fingerprint@.len() <= QR_MAX_BYTES,
            r matches Ok(d) ==> d.tls_enabled == tls_enabled && d.fingerprint@ == base64_spec(cert_fingerprint@)
                && d.words@.len() == 3 && (forall|l: int| 0 <= l < 3 ==> (#[trigger] d.words@[l])@ == word_line(
                bip39_english_words(cert_fingerprint@.take(16))[4 * l],
                bip39_english_words(cert_fingerprint@.take(16))[4 * l + 1],
                bip39_english_words(cert_fingerprint@.take(16))[4 * l + 2],
                bip39_english_words(cert_fingerprint@.take(16))[4 * l + 3],
            )) && d.server_address@.skip(2).map_values(|l: AddressLine| line_view(l)) == interface_lines(
                interfaces@,
                decimal(port as nat),
            ),
            r matches Ok(d) ==> d.server_address@.len() >= 2 && d.server_address@[0] == AddressLine::Heading
                && line_view(d.server_address@[1]) == (1int, Seq::<char>::empty(), decimal(port as nat), Seq::<
                char>::empty()),
            r matches Ok(d) ==> draws_qr(d.qr_lines@, qr_side(cert_fingerprint@), qr_modules(cert_fingerprint@)),
    {
        let words = words_from(cert_fingerprint);
        let qr_lines = match qr_from(cert_fingerprint) {
            Ok(q) => q,
            Err(e) => {
                return Err(e);
            },
        };
        let server_address = resolve_display_addresses(port, interfaces);
        let fingerprint = base64_standard(cert_fingerprint);
        Ok(PairingData { tls_enabled, fingerprint, words, qr_lines, server_address })
    }
}

} // verus!
