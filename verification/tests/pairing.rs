use kosh::pairing::{
    qr_from, qr_rows, resolve_display_addresses, words_from, AddressLine, Interface, PairingData, PairingError,
};

fn iface(name: &str, ip: &str, is_ipv4: bool, is_loopback: bool) -> Interface {
    Interface { name: name.into(), ip: ip.into(), is_ipv4, is_loopback }
}

#[test]
fn verification_words_of_zero_entropy() {
    let lines = words_from(&[0u8; 20]);
    let row = format!("{:<8}    {:<8}    {:<8}    {:<8}", "abandon", "abandon", "abandon", "abandon");
    let last = format!("{:<8}    {:<8}    {:<8}    {:<8}", "abandon", "abandon", "abandon", "about");
    assert_eq!(lines, vec![row.clone(), row, last]);
}

#[test]
fn verification_words_follow_the_word_list() {
    let lines = words_from(&[0xffu8; 16]);
    assert_eq!(lines.len(), 3);
    assert_eq!(lines[2], format!("{:<8}    {:<8}    {:<8}    {:<8}", "zoo", "zoo", "zoo", "wrong"));
}

#[test]
fn qr_rows_pack_two_module_rows() {
    let modules = vec![true, false, true, true, false, false, false, true, true];
    let rows = qr_rows(3, &modules);
    assert_eq!(rows, vec!["\u{2588}\u{00A0}\u{2580}".to_string(), "\u{00A0}\u{2580}\u{2580}".to_string()]);
}

#[test]
fn qr_code_of_short_data() {
    let rows = qr_from(b"hello").expect("fits a version 1 code");
    assert_eq!(rows.len(), 11);
    for r in &rows {
        assert_eq!(r.chars().count(), 21);
    }
    let first: Vec<char> = rows[0].chars().take(7).collect();
    assert_eq!(first, vec!['\u{2588}', '\u{2580}', '\u{2580}', '\u{2580}', '\u{2580}', '\u{2580}', '\u{2588}']);
    assert_eq!(qr_from(&vec![7u8; 4000]), Err(PairingError::QrDataTooLong));
}

#[test]
fn server_address_lines() {
    let ifs = vec![
        iface("lo", "127.0.0.1", true, true),
        iface("eth0", "192.168.1.5", true, false),
        iface("eth0", "fe80::1", false, false),
    ];
    let lines = resolve_display_addresses(8080, &ifs);
    assert_eq!(
        lines,
        vec![
            AddressLine::Heading,
            AddressLine::Localhost { port: "8080".into() },
            AddressLine::Local { ip: "127.0.0.1".into(), port: "8080".into() },
            AddressLine::Network { ip: "192.168.1.5".into(), port: "8080".into(), name: "eth0".into() },
        ]
    );
    assert_eq!(resolve_display_addresses(0, &vec![]).len(), 2);
}

#[test]
fn pairing_data_fingerprint() {
    let data = PairingData::new(true, 443, &[0u8; 16], &vec![]).expect("builds");
    assert!(data.tls_enabled);
    assert_eq!(data.fingerprint, "AAAAAAAAAAAAAAAAAAAAAA==");
    assert_eq!(data.words.len(), 3);
    assert_eq!(data.qr_lines.len(), 11);
    assert_eq!(data.server_address[1], AddressLine::Localhost { port: "443".into() });
    let data = PairingData::new(false, 1, b"any carnal pleas", &vec![]).expect("builds");
    assert_eq!(data.fingerprint, "YW55IGNhcm5hbCBwbGVhcw==");
}

#[test]
fn qr_capacity_limit() {
    assert!(qr_from(&vec![1u8; 2953]).is_ok());
    assert_eq!(qr_from(&vec![1u8; 2954]), Err(PairingError::QrDataTooLong));
    let rows = qr_from(&vec![1u8; 2953]).unwrap();
    assert_eq!(rows.len(), 89);
}
