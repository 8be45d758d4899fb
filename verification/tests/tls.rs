use delray::domain_parse::{DomainParser, TlsDomainParser};

// ── success paths ──

#[test]
fn parses_sni_from_client_hello_with_sni() {
    let record = tls_record_handshake(&client_hello_body(Some("example.com"), &[]));

    let domain = TlsDomainParser::new().parse_domain(&record).expect("SNI from the ClientHello");
    assert_eq!(domain.as_str(), "example.com");
}

#[test]
fn parses_long_sni_from_client_hello() {
    let name = "very-long-subdomain.example.invalid";
    let record = tls_record_handshake(&client_hello_body(Some(name), &[]));

    let domain = TlsDomainParser::new().parse_domain(&record).expect("a long SNI");
    assert_eq!(domain.as_str(), name);
}

#[test]
fn parses_sni_when_other_extensions_present() {
    let renegotiation = build_raw_extension(0xFF01, &[0x00]);
    let record = tls_record_handshake(&client_hello_body(Some("example.com"), &[renegotiation]));

    let domain = TlsDomainParser::new().parse_domain(&record).expect("SNI past other extensions");
    assert_eq!(domain.as_str(), "example.com");
}

// ── ECH ──

#[test]
fn returns_none_for_draft_encrypted_server_name_extension() {
    let ech = build_raw_extension(0xFFCE, &valid_draft_ech_data());
    let record = tls_record_handshake(&client_hello_body(Some("cover.example"), &[ech]));

    assert!(TlsDomainParser::new().parse_domain(&record).is_none());
}

#[test]
fn returns_none_for_rfc9849_ech_extension() {
    let ech = build_raw_extension(0xFE0D, &[0xDE, 0xAD, 0xBE, 0xEF]);
    let record = tls_record_handshake(&client_hello_body(Some("cover.example"), &[ech]));

    assert!(TlsDomainParser::new().parse_domain(&record).is_none());
}

#[test]
fn ech_takes_precedence_over_sni() {
    let ech = build_raw_extension(0xFE0D, &[0x00, 0x01, 0x02]);
    let record = tls_record_handshake(&client_hello_body(Some("cover.example"), &[ech]));

    assert!(TlsDomainParser::new().parse_domain(&record).is_none());
}

// ── failure paths ──

#[test]
fn returns_none_for_client_hello_without_extensions() {
    let record = tls_record_handshake(&client_hello_body(None, &[]));

    assert!(TlsDomainParser::new().parse_domain(&record).is_none());
}

#[test]
fn returns_none_for_client_hello_with_extensions_but_no_sni() {
    let renegotiation = build_raw_extension(0xFF01, &[0x00]);
    let record = tls_record_handshake(&client_hello_body(None, &[renegotiation]));

    assert!(TlsDomainParser::new().parse_domain(&record).is_none());
}

#[test]
fn returns_none_for_application_data_record() {
    let record = tls_record(0x17, &[0x01, 0x02, 0x03, 0x04]);

    assert!(TlsDomainParser::new().parse_domain(&record).is_none());
}

#[test]
fn returns_none_for_alert_record() {
    let record = tls_record(0x15, &[0x01, 0x00]);

    assert!(TlsDomainParser::new().parse_domain(&record).is_none());
}

#[test]
fn returns_none_for_empty_payload() {
    assert!(TlsDomainParser::new().parse_domain(&[]).is_none());
}

#[test]
fn returns_none_for_truncated_record_header() {
    assert!(TlsDomainParser::new().parse_domain(&[0x16, 0x03]).is_none());
}

#[test]
fn returns_none_for_truncated_handshake_body() {
    // The record header announces 64 bytes of payload but only 5 follow.
    let mut record = vec![0x16, 0x03, 0x01, 0x00, 0x40];
    record.extend_from_slice(&[0x01, 0x00, 0x00, 0x3F, 0x03]);

    assert!(TlsDomainParser::new().parse_domain(&record).is_none());
}

#[test]
fn returns_none_for_non_tls_payload() {
    let payload = b"GET / HTTP/1.1\r\nHost: example.com\r\n\r\n";

    assert!(TlsDomainParser::new().parse_domain(payload).is_none());
}

#[test]
fn returns_none_for_non_handshake_record_with_handshake_bytes_in_payload() {
    let payload = [0x01, 0x00, 0x00, 0x10, 0x03, 0x03, 0x00, 0x00];
    let record = tls_record(0x17, &payload);

    assert!(TlsDomainParser::new().parse_domain(&record).is_none());
}

#[test]
fn only_host_name_entries_count_and_the_first_wins() {
    let mut data = Vec::new();
    let entries: [(u8, &[u8]); 3] = [(1, b"other.example"), (0, b"first.example"), (0, b"second.example")];
    let mut list = Vec::new();
    for (kind, name) in entries {
        list.push(kind);
        list.extend_from_slice(&(name.len() as u16).to_be_bytes());
        list.extend_from_slice(name);
    }
    data.extend_from_slice(&(list.len() as u16).to_be_bytes());
    data.extend_from_slice(&list);
    let sni = build_raw_extension(0x0000, &data);
    let record = tls_record_handshake(&client_hello_body(None, &[sni]));

    let domain = TlsDomainParser::new().domain(&record);
    assert_eq!(domain.as_deref(), Some("first.example"));
}

// ── fixtures: TLS records built by hand (TLS 1.2 ClientHello layout) ──

fn tls_record(content_type: u8, payload: &[u8]) -> Vec<u8> {
    let mut record = Vec::with_capacity(5 + payload.len());
    record.push(content_type);
    record.extend_from_slice(&[0x03, 0x01]);
    record.extend_from_slice(&(payload.len() as u16).to_be_bytes());
    record.extend_from_slice(payload);
    record
}

fn tls_record_handshake(handshake_msg: &[u8]) -> Vec<u8> {
    tls_record(0x16, handshake_msg)
}

fn handshake_msg(msg_type: u8, body: &[u8]) -> Vec<u8> {
    let len = body.len() as u32;
    let mut msg = Vec::with_capacity(4 + body.len());
    msg.push(msg_type);
    msg.push((len >> 16) as u8);
    msg.push((len >> 8) as u8);
    msg.push(len as u8);
    msg.extend_from_slice(body);
    msg
}

fn client_hello_body(sni: Option<&str>, extra_extensions: &[Vec<u8>]) -> Vec<u8> {
    let mut body = Vec::new();
    body.extend_from_slice(&[0x03, 0x03]);
    body.extend_from_slice(&[0u8; 32]);
    body.push(0x00);
    body.extend_from_slice(&[0x00, 0x02]);
    body.extend_from_slice(&[0x00, 0x2F]);
    body.push(0x01);
    body.push(0x00);

    let mut extensions_buf = Vec::new();
    if let Some(name) = sni {
        extensions_buf.extend_from_slice(&sni_extension(name));
    }
    for ext in extra_extensions {
        extensions_buf.extend_from_slice(ext);
    }

    if !extensions_buf.is_empty() {
        body.extend_from_slice(&(extensions_buf.len() as u16).to_be_bytes());
        body.extend_from_slice(&extensions_buf);
    }

    handshake_msg(0x01, &body)
}

fn sni_extension(hostname: &str) -> Vec<u8> {
    let name = hostname.as_bytes();
    let name_len = name.len();
    let list_len = 1 + 2 + name_len;
    let ext_data_len = 2 + list_len;

    let mut ext = Vec::new();
    ext.extend_from_slice(&[0x00, 0x00]);
    ext.extend_from_slice(&(ext_data_len as u16).to_be_bytes());
    ext.extend_from_slice(&(list_len as u16).to_be_bytes());
    ext.push(0x00);
    ext.extend_from_slice(&(name_len as u16).to_be_bytes());
    ext.extend_from_slice(name);
    ext
}

fn build_raw_extension(ext_type: u16, data: &[u8]) -> Vec<u8> {
    let mut ext = Vec::with_capacity(4 + data.len());
    ext.extend_from_slice(&ext_type.to_be_bytes());
    ext.extend_from_slice(&(data.len() as u16).to_be_bytes());
    ext.extend_from_slice(data);
    ext
}

fn valid_draft_ech_data() -> Vec<u8> {
    let mut data = Vec::new();
    data.extend_from_slice(&[0x00, 0x01]);
    data.extend_from_slice(&[0x00, 0x17]);
    data.extend_from_slice(&[0x00, 0x01, 0xAA]);
    data.extend_from_slice(&[0x00, 0x01, 0xBB]);
    data.extend_from_slice(&[0x00, 0x01, 0xCC]);
    data
}
