use telecom_client::stun::{MappedAddress, StunClient};

fn response(attributes: &[u8]) -> Vec<u8> {
    let mut data = vec![0x01, 0x01, 0x00, attributes.len() as u8, 0x21, 0x12, 0xA4, 0x42];
    data.extend_from_slice(&[7; 12]);
    data.extend_from_slice(attributes);
    data
}

/// 203.0.113.9:5060 under the magic cookie.
const MASKED: [u8; 12] = [
    0x00, 0x20, 0x00, 0x08, 0x00, 0x01, 0x32, 0xD6, 0xEA, 0x12, 0xD5, 0x4B,
];

#[test]
fn request_holds_header_and_transaction() {
    let request = StunClient::binding_request(&[1, 2, 3, 4, 5, 6, 7, 8, 9, 10, 11, 12]);
    assert_eq!(
        request,
        vec![
            0x00, 0x01, 0x00, 0x00, 0x21, 0x12, 0xA4, 0x42, 1, 2, 3, 4, 5, 6, 7, 8, 9, 10, 11, 12
        ]
    );
}

#[test]
fn drawn_requests_differ_in_their_transaction_alone() {
    let a = StunClient::new_binding_request();
    let b = StunClient::new_binding_request();
    assert_eq!(a.len(), 20);
    assert_eq!(a[..8], b[..8]);
    assert_ne!(a[8..], b[8..]);
}

#[test]
fn mapped_address_is_unmasked() {
    let data = response(&MASKED);
    assert!(StunClient::is_readable(&data));
    assert_eq!(
        StunClient::parse_xor_address(&data),
        Some(MappedAddress { ip: [203, 0, 113, 9], port: 5060 })
    );
}

#[test]
fn other_attributes_are_passed_over() {
    let mut attributes = vec![0x80, 0x22, 0x00, 0x03, b'a', b'b', b'c'];
    attributes.extend_from_slice(&MASKED);
    attributes.extend_from_slice(&[0x00, 0x01]);
    let data = response(&attributes);
    assert!(StunClient::is_readable(&data));
    assert_eq!(
        StunClient::parse_xor_address(&data),
        Some(MappedAddress { ip: [203, 0, 113, 9], port: 5060 })
    );
}

#[test]
fn an_address_of_version_six_is_passed_over() {
    let mut attributes = vec![0x00, 0x20, 0x00, 0x14, 0x00, 0x02];
    attributes.extend_from_slice(&[0; 18]);
    attributes.extend_from_slice(&MASKED);
    let data = response(&attributes);
    assert_eq!(
        StunClient::parse_xor_address(&data),
        Some(MappedAddress { ip: [203, 0, 113, 9], port: 5060 })
    );
}

#[test]
fn what_is_no_response_has_no_address() {
    assert_eq!(StunClient::parse_xor_address(&[]), None);
    assert_eq!(StunClient::parse_xor_address(&response(&[])[..19]), None);
    assert_eq!(StunClient::parse_xor_address(&response(&[])), None);
    let mut request = response(&MASKED);
    request[0] = 0x00;
    assert_eq!(StunClient::parse_xor_address(&request), None);
}

#[test]
fn an_attribute_beyond_the_end_is_not_read() {
    let data = response(&[0x00, 0x20, 0x01, 0x00, 0x00, 0x01, 0, 0, 0, 0, 0, 0]);
    assert!(StunClient::is_readable(&data));
    assert_eq!(StunClient::parse_xor_address(&data), None);
}

#[test]
fn a_cut_mapped_address_is_not_readable() {
    assert!(!StunClient::is_readable(&response(&[0x00, 0x20, 0x00, 0x02, 0x00, 0x01])));
    assert!(!StunClient::is_readable(&response(&[
        0x00, 0x20, 0x00, 0x04, 0x00, 0x01, 0x11, 0x11
    ])));
}
