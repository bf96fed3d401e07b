use feedflow::websub::{
    decide_push, decide_verification, deserialize, PushOutcome, SignatureError, Subscription, Verification,
    VerifyOutcome, XHubSignature,
};
use hmac::Mac;

fn sign256(secret: &[u8], body: &[u8]) -> String {
    let mut mac = hmac::Hmac::<sha2::Sha256>::new_from_slice(secret).unwrap();
    mac.update(body);
    hex::encode(mac.finalize().into_bytes())
}

fn sign512(secret: &[u8], body: &[u8]) -> String {
    let mut mac = hmac::Hmac::<sha2::Sha512>::new_from_slice(secret).unwrap();
    mac.update(body);
    hex::encode(mac.finalize().into_bytes())
}

#[test]
fn signature_header_parses() {
    let sig = XHubSignature::from_str("sha256=0aFF").unwrap();
    assert_eq!(sig.method, "sha256");
    assert_eq!(sig.signature, vec![0x0a, 0xff]);
    assert_eq!(XHubSignature::from_str("sha256").unwrap_err(), SignatureError::MissingSeparator);
    assert_eq!(XHubSignature::from_str("sha256=abc").unwrap_err(), SignatureError::InvalidHex);
    assert_eq!(XHubSignature::from_str("sha256=zz").unwrap_err(), SignatureError::InvalidHex);
    let split = XHubSignature::from_str("a=b=").unwrap_err();
    assert_eq!(split, SignatureError::InvalidHex);
}

#[test]
fn correct_signatures_are_accepted() {
    let secret = b"s3cret";
    let body = b"<feed/>";
    let header = format!("sha256={}", sign256(secret, body));
    assert!(XHubSignature::from_str(&header).unwrap().verify(secret, body));
    let header = format!("sha512={}", sign512(secret, body));
    assert!(XHubSignature::from_str(&header).unwrap().verify(secret, body));
    assert!(!XHubSignature::from_str(&header).unwrap().verify(b"other", body));
    assert!(!XHubSignature::from_str(&header).unwrap().verify(secret, b"<feed />"));
}

#[test]
fn unknown_algorithms_fail_closed() {
    let secret = b"k";
    let body = b"B";
    let header = format!("md5={}", sign256(secret, body));
    assert!(!XHubSignature::from_str(&header).unwrap().verify(secret, body));
    let header = format!("sha1={}", sign256(secret, body));
    assert!(!XHubSignature::from_str(&header).unwrap().verify(secret, body));
}

#[test]
fn push_with_wrong_hmac_is_forbidden() {
    let secret = b"k";
    let body = b"B";
    let wrong = format!("sha256={}", "00".repeat(32));
    assert_eq!(decide_push(Some(&secret[..]), Some(&wrong), body), PushOutcome::Forbidden);
    assert_eq!(decide_push(Some(&secret[..]), None, body), PushOutcome::Forbidden);
    assert_eq!(decide_push(Some(&secret[..]), Some("garbage"), body), PushOutcome::Forbidden);
    let right = format!("sha256={}", sign256(secret, body));
    assert_eq!(decide_push(Some(&secret[..]), Some(&right), body), PushOutcome::Deliver);
    assert_eq!(decide_push(None, Some(&right), body), PushOutcome::Ignore);
}

#[test]
fn verify_subscribe_renews_lease() {
    let rec = Subscription { subscribed: true, topic: "T".to_string(), lease_end: 0 };
    let now = 1_700_000_000;
    let lease = deserialize("600").unwrap();
    let req = Verification::Subscribe { topic: "T".to_string(), challenge: "C".to_string(), lease_seconds: lease };
    assert_eq!(
        decide_verification(Some(&rec), &req, now),
        VerifyOutcome::Renew { challenge: "C".to_string(), lease_end: now + 600 }
    );
    let other = Verification::Subscribe { topic: "U".to_string(), challenge: "C".to_string(), lease_seconds: 600 };
    assert_eq!(decide_verification(Some(&rec), &other, now), VerifyOutcome::BadRequest);
    assert_eq!(decide_verification(None, &req, now), VerifyOutcome::NotFound);
    let huge = Verification::Subscribe { topic: "T".to_string(), challenge: "C".to_string(), lease_seconds: u64::MAX };
    assert_eq!(
        decide_verification(Some(&rec), &huge, now),
        VerifyOutcome::Renew { challenge: "C".to_string(), lease_end: i64::MAX }
    );
}

#[test]
fn verify_unsubscribe_table() {
    let pending = Subscription { subscribed: false, topic: "T".to_string(), lease_end: 0 };
    let active = Subscription { subscribed: true, topic: "T".to_string(), lease_end: 0 };
    let req = Verification::Unsubscribe { topic: "T".to_string(), challenge: "C".to_string() };
    assert_eq!(decide_verification(Some(&pending), &req, 0), VerifyOutcome::Delete { challenge: "C".to_string() });
    assert_eq!(decide_verification(Some(&active), &req, 0), VerifyOutcome::BadRequest);
    let sub = Verification::Subscribe { topic: "T".to_string(), challenge: "C".to_string(), lease_seconds: 1 };
    assert_eq!(decide_verification(Some(&pending), &sub, 0), VerifyOutcome::BadRequest);
}

#[test]
fn lease_seconds_parse() {
    assert_eq!(deserialize("0"), Some(0));
    assert_eq!(deserialize("18446744073709551615"), Some(u64::MAX));
    assert_eq!(deserialize("18446744073709551616"), None);
    assert_eq!(deserialize(""), None);
    assert_eq!(deserialize("12a"), None);
    assert_eq!(deserialize("-1"), None);
    assert_eq!(deserialize("+600"), Some(600));
    assert_eq!(deserialize("+"), None);
    assert_eq!(deserialize("++1"), None);
}
