use telecom_client::auth::{authorization, challenge, generate_auth_header, response_text};

#[test]
fn a_challenge_is_answered_with_md5() {
    let header = generate_auth_header(
        "alice",
        "secret",
        "REGISTER",
        "sip:10.0.0.5",
        "Digest realm=\"sentiric\", nonce=\"abc123\"",
    );
    assert_eq!(
        header,
        Some(
            "Digest username=\"alice\", realm=\"sentiric\", nonce=\"abc123\", \
             uri=\"sip:10.0.0.5\", response=\"438549b1011bce536cdbab05b5b97a78\", algorithm=MD5"
                .to_string()
        )
    );
}

#[test]
fn another_request_has_another_answer() {
    let header =
        generate_auth_header("bob", "pw", "INVITE", "sip:1.2.3.4", "Digest nonce=n,realm=r");
    assert!(header.unwrap().contains("response=\"586729d9c2138ae650b7b1ede42beb8c\""));
}

#[test]
fn case_space_and_quotes_do_not_matter() {
    assert_eq!(
        challenge("  dIGEST  realm = \"a=b\" ,qop=\"auth\", nonce=c  "),
        Some(("a=b".to_string(), "c".to_string()))
    );
}

#[test]
fn the_last_of_two_parameters_counts() {
    assert_eq!(
        challenge("Digest realm=x, nonce=1, realm=y"),
        Some(("y".to_string(), "1".to_string()))
    );
}

#[test]
fn what_is_no_digest_challenge_is_not_answered() {
    assert_eq!(challenge("Basic realm=\"x\", nonce=\"y\""), None);
    assert_eq!(challenge("Digest"), None);
    assert_eq!(challenge("Digest realm=\"x\""), None);
    assert_eq!(challenge("Digest nonce=\"x\""), None);
    assert_eq!(challenge("Digest Realm=\"x\", nonce=\"y\""), None);
    assert_eq!(challenge(""), None);
    assert_eq!(generate_auth_header("u", "p", "BYE", "sip:x", "Bearer realm=x, nonce=y"), None);
}

#[test]
fn the_parts_of_an_answer_are_put_together() {
    assert_eq!(response_text("a", "b", "c"), "a:b:c");
    assert_eq!(
        authorization("u", "r", "n", "sip:h", "0f"),
        "Digest username=\"u\", realm=\"r\", nonce=\"n\", uri=\"sip:h\", response=\"0f\", \
         algorithm=MD5"
    );
}

#[test]
fn a_written_challenge_gives_back_its_values() {
    let (realm, nonce) = ("two words", "");
    let text = format!("Digest realm=\"{}\", nonce=\"{}\"", realm, nonce);
    assert_eq!(challenge(&text), Some((realm.to_string(), nonce.to_string())));
}

#[test]
fn how_a_challenge_is_written_does_not_matter() {
    let answer = |www: &str| generate_auth_header("u", "p", "REGISTER", "sip:h", www);
    let plain = answer("Digest realm=\"a\",nonce=\"b\"");
    assert!(plain.is_some());
    for www in [
        " \t Digest realm=\"a\",nonce=\"b\" \r\n",
        "DIGEST realm=\"a\",nonce=\"b\"",
        "Digest nonce=\"b\",realm=\"a\"",
        "Digest qop=\"auth\",realm=\"a\",opaque=x,nonce=\"b\",stale",
        "Digest realm=a,nonce=b",
    ] {
        assert_eq!(answer(www), plain);
    }
}

#[test]
fn password_and_method_show_only_in_the_response() {
    let www = "Digest realm=\"a\", nonce=\"b\"";
    let one = generate_auth_header("u", "p", "REGISTER", "sip:h", www).unwrap();
    let two = generate_auth_header("u", "q", "INVITE", "sip:h", www).unwrap();
    let (head, tail) = one.split_once("response=\"").unwrap();
    let (other_head, other_tail) = two.split_once("response=\"").unwrap();
    assert_eq!(head, other_head);
    assert_ne!(tail[..32], other_tail[..32]);
    assert_eq!(tail[32..], other_tail[32..]);
    assert_eq!(generate_auth_header("u", "p", "REGISTER", "sip:h", "Basic"), None);
    assert_eq!(generate_auth_header("u", "q", "INVITE", "sip:h", "Basic"), None);
}
