use ycm_core::routes::{
    append_bytes, decode_secret, is_authentic, rejection_message, request_signature, same_bytes,
    sign_body,
};

const SECRET: &[u8] = b"0123456789abcdef";

#[test]
fn body_signature_is_the_base64_of_the_tag() {
    // A test vector of RFC 4231.
    let key = b"Jefe".to_vec();
    let data = b"what do ya want for nothing?".to_vec();
    assert_eq!(
        sign_body(&key, &data),
        "W9zBRr9gdU5qBCQmCJV1x1oAPwidJzmDnexYuWTsOEM="
    );
    assert_eq!(
        sign_body(&SECRET.to_vec(), &b"[]".to_vec()),
        "KZCHnRVfKffYszp5RI29aBDAW2012OcxWOV730s5TEw="
    );
}

#[test]
fn request_signature_is_the_tag_of_three_tags() {
    let signature = request_signature(
        &SECRET.to_vec(),
        "POST",
        "/completions",
        &br#"{"a":1}"#.to_vec(),
    );
    let hex = signature.iter().map(|b| format!("{:02x}", b)).collect::<String>();
    assert_eq!(
        hex,
        "16d1f5f697342ccdf03efde46f48250dcc93bd333c7722ee93918faefb35e88a"
    );
}

#[test]
fn authentic_requests_are_told_apart() {
    let secret = SECRET.to_vec();
    let body = br#"{"a":1}"#.to_vec();
    let header = "FtH19pc0LM3wPv3kb0glDcyTvTM8dyLuk5GPrvs16Io=";
    assert!(is_authentic(&secret, header, "POST", "/completions", &body));
    assert!(!is_authentic(&secret, header, "GET", "/completions", &body));
    assert!(!is_authentic(&secret, header, "POST", "/ready", &body));
    assert!(!is_authentic(&secret, header, "POST", "/completions", &b"{}".to_vec()));
    assert!(!is_authentic(&b"other".to_vec(), header, "POST", "/completions", &body));
    // What is no base64 is not authentic.
    assert!(!is_authentic(&secret, "not base64!", "POST", "/completions", &body));
    assert!(!is_authentic(&secret, "", "POST", "/completions", &body));
}

#[test]
fn secret_is_base64() {
    assert_eq!(decode_secret("MDEyMzQ1Njc4OWFiY2RlZg=="), Some(SECRET.to_vec()));
    assert_eq!(decode_secret(""), Some(vec![]));
    assert_eq!(decode_secret("***"), None);
}

#[test]
fn refusals() {
    let told = |a, b, c| {
        let m = rejection_message(a, b, c);
        (m.code, m.message)
    };
    assert_eq!(told(true, false, false), (404, "NOT_FOUND".to_string()));
    assert_eq!(told(true, true, true), (404, "NOT_FOUND".to_string()));
    assert_eq!(told(false, true, false), (400, "BAD_REQUEST".to_string()));
    assert_eq!(told(false, true, true), (400, "BAD_REQUEST".to_string()));
    assert_eq!(told(false, false, true), (405, "METHOD_NOT_ALLOWED".to_string()));
    assert_eq!(told(false, false, false), (500, "INTERNAL_SERVER_ERROR".to_string()));
}

#[test]
fn bytes_helpers() {
    let mut a = vec![1u8, 2];
    append_bytes(&mut a, &vec![3, 4]);
    assert_eq!(a, vec![1, 2, 3, 4]);
    append_bytes(&mut a, &vec![]);
    assert_eq!(a, vec![1, 2, 3, 4]);
    assert!(same_bytes(&a, &vec![1, 2, 3, 4]));
    assert!(!same_bytes(&a, &vec![1, 2, 3]));
    assert!(!same_bytes(&a, &vec![1, 2, 3, 5]));
    assert!(same_bytes(&vec![], &vec![]));
}
