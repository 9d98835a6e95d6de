use telecom_client::sdp::session_description;
use telecom_client::utils::{extract_rtp_target, rtp_target_of_text};

#[test]
fn the_offer_is_written_line_by_line() {
    assert_eq!(
        session_description(1700000000, "203.0.113.9", 40000),
        "v=0\r\no=- 1700000000 1700000000 IN IP4 203.0.113.9\r\ns=Sentiric Session\r\n\
         c=IN IP4 203.0.113.9\r\nt=0 0\r\nm=audio 40000 RTP/AVP 0 101\r\n\
         a=rtpmap:0 PCMU/8000\r\na=rtpmap:101 telephone-event/8000\r\na=sendrecv\r\n\
         a=ptime:20\r\n"
    );
}

#[test]
fn the_offer_leads_to_its_media() {
    let offer = session_description(-5, "198.51.100.7", 1);
    assert_eq!(
        extract_rtp_target(offer.as_bytes(), "10.0.0.1"),
        Some("198.51.100.7:1".to_string())
    );
    let offer = session_description(0, "0.0.0.0", 4000);
    assert_eq!(
        extract_rtp_target(offer.as_bytes(), "10.0.0.1"),
        Some("10.0.0.1:4000".to_string())
    );
}

#[test]
fn the_last_lines_count() {
    assert_eq!(
        rtp_target_of_text(
            "c=IN IP4 1.1.1.1\nm=audio 10 x\nc=IN IP4  2.2.2.2 \nm=audio\t\nm=audio 20",
            "9.9.9.9"
        ),
        Some("2.2.2.2:20".to_string())
    );
}

#[test]
fn without_a_port_there_is_no_target() {
    assert_eq!(rtp_target_of_text("", "1.1.1.1"), None);
    assert_eq!(rtp_target_of_text("c=IN IP4 1.1.1.1\n", "1.1.1.1"), None);
    assert_eq!(rtp_target_of_text("m=audio 0 RTP/AVP 0\n", "1.1.1.1"), None);
    assert_eq!(rtp_target_of_text("m=audio 70000\n", "1.1.1.1"), None);
    assert_eq!(rtp_target_of_text("m=audio 5\nm=audio port\n", "1.1.1.1"), None);
    assert_eq!(rtp_target_of_text("m=audio 5\nm=audio  \n", "1.1.1.1"), Some("1.1.1.1:5".into()));
    assert_eq!(rtp_target_of_text(" m=audio 5\nm=video 6\n", "1.1.1.1"), None);
}

#[test]
fn bytes_that_are_no_text_do_not_hinder() {
    assert_eq!(
        extract_rtp_target(b"s=\xff\xfe\r\nm=audio 4000 RTP/AVP 0\r\n", "10.0.0.1"),
        Some("10.0.0.1:4000".to_string())
    );
    assert_eq!(
        extract_rtp_target(b"c=IN IP4 \xff\nm=audio 1", "10.0.0.1"),
        Some("\u{fffd}:1".to_string())
    );
}

#[test]
fn other_lines_and_the_order_do_not_matter() {
    for sdp in [
        "c=IN IP4 10.1.2.3\r\nm=audio 4000 RTP/AVP 0\r\n",
        "m=audio 4000 RTP/AVP 0\r\nc=IN IP4 10.1.2.3\r\n",
        "v=0\nc=IN IP4 10.1.2.3\nm=video 9 RTP/AVP 96\nm=audio 4000 RTP/AVP 0\na=sendrecv\n",
    ] {
        assert_eq!(
            extract_rtp_target(sdp.as_bytes(), "192.0.2.1"),
            Some("10.1.2.3:4000".to_string())
        );
    }
}

#[test]
fn a_name_is_handed_on_as_text() {
    assert_eq!(
        extract_rtp_target(b"c=IN IP4 host\r\nm=audio 4000 RTP/AVP 0\r\n", "192.0.2.1"),
        Some("host:4000".to_string())
    );
}
