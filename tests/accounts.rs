use otp_migration::account::{to_output, uri_to_vector_image, ConversionError, CopyState, Output};
use otp_migration::record::{Algorithm, DigitCount, OtpParameters, OtpType};
use otp_migration::report::{convert_all, error_message};
use otp_migration::state::{apply_loaded, mark_copied, toggle_svg};
use otp_migration::text::counter_text;

fn record(otp_type: OtpType) -> OtpParameters {
    OtpParameters {
        secret: vec![0xDE, 0xAD, 0xBE, 0xEF],
        name: "alice".to_string(),
        issuer: "example".to_string(),
        algorithm: Algorithm::Sha1,
        digits: DigitCount::Six,
        otp_type,
        counter: 0,
    }
}

#[test]
fn totp_record_gives_canonical_uri() {
    let o = to_output(&record(OtpType::Totp)).unwrap();
    assert_eq!(
        o.url,
        "otpauth://totp/example%3Aalice?secret=32W353Y&issuer=example&algorithm=SHA1&digits=6"
    );
    assert_eq!(o.secret, "32W353Y");
    assert_eq!(o.kind, "TOTP");
    assert_eq!(o.issuer, "example");
    assert_eq!(o.name, "alice");
    assert_eq!(o.algorithm.as_deref(), Some("SHA1"));
    assert_eq!(o.digit_count.as_deref(), Some("6"));
    assert!(o.svg.starts_with("data:image/svg+xml,%3Csvg"));
    assert!(!o.show_svg);
    assert!(o.copied.is_none());
}

#[test]
fn hotp_record_carries_counter() {
    let mut r = record(OtpType::Hotp);
    r.counter = 42;
    r.algorithm = Algorithm::Unspecified;
    r.digits = DigitCount::Eight;
    let o = to_output(&r).unwrap();
    assert_eq!(
        o.url,
        "otpauth://hotp/example%3Aalice?secret=32W353Y&counter=42&issuer=example&digits=8"
    );
    assert_eq!(o.kind, "HOTP");
    assert_eq!(o.algorithm, None);
}

#[test]
fn negative_counter_is_signed() {
    assert_eq!(counter_text(u64::MAX), "-1");
    assert_eq!(counter_text(0), "0");
    assert_eq!(counter_text(1234567890), "1234567890");
    assert_eq!(counter_text(1 << 63), "-9223372036854775808");
}

#[test]
fn empty_issuer_uses_name_alone() {
    let mut r = record(OtpType::Totp);
    r.issuer = String::new();
    r.name = "a b@c".to_string();
    r.algorithm = Algorithm::Sha512;
    r.digits = DigitCount::Unspecified;
    let o = to_output(&r).unwrap();
    assert_eq!(o.url, "otpauth://totp/a%20b%40c?secret=32W353Y&algorithm=SHA512");
}

#[test]
fn issuer_is_form_encoded_in_query() {
    let mut r = record(OtpType::Totp);
    r.issuer = "Big Co&é".to_string();
    r.algorithm = Algorithm::Md5;
    let o = to_output(&r).unwrap();
    assert_eq!(
        o.url,
        "otpauth://totp/Big%20Co%26%C3%A9%3Aalice?secret=32W353Y&issuer=Big+Co%26%C3%A9&algorithm=MD5&digits=6"
    );
}

#[test]
fn base32_secret_has_no_padding() {
    let mut r = record(OtpType::Totp);
    r.secret = vec![0x66];
    assert_eq!(to_output(&r).unwrap().secret, "MY");
    r.secret = vec![];
    assert_eq!(to_output(&r).unwrap().secret, "");
    r.secret = b"Hello!".to_vec();
    let s = to_output(&r).unwrap().secret;
    assert_eq!(s, "JBSWY3DPEE");
    assert!(!s.contains('='));
}

#[test]
fn unspecified_type_is_rejected() {
    assert_eq!(
        to_output(&record(OtpType::Unspecified)).unwrap_err(),
        ConversionError::UnknownType
    );
}

#[test]
fn failing_record_does_not_stop_batch() {
    let recs = vec![
        record(OtpType::Totp),
        record(OtpType::Unspecified),
        record(OtpType::Hotp),
    ];
    let (outputs, errors) = convert_all(&recs);
    assert_eq!(outputs.len(), 2);
    assert_eq!(outputs[0].kind, "TOTP");
    assert_eq!(outputs[1].kind, "HOTP");
    assert_eq!(errors, vec!["unknown otp type".to_string()]);
}

#[test]
fn uri_too_long_for_symbol() {
    let mut r = record(OtpType::Totp);
    r.name = "x".repeat(8000);
    assert_eq!(to_output(&r).unwrap_err(), ConversionError::UriTooLong);
}

#[test]
fn error_messages_count_failures() {
    assert_eq!(error_message(&vec![]), None);
    assert_eq!(
        error_message(&vec!["unknown otp type".to_string()]).unwrap(),
        "One account could not be read: unknown otp type"
    );
    assert_eq!(
        error_message(&vec!["a".to_string(), "b".to_string(), "c".to_string()]).unwrap(),
        "3 accounts could not be read: a, b, c"
    );
}

#[test]
fn vector_image_is_deterministic() {
    let a = uri_to_vector_image("otpauth://totp/x?secret=AB").unwrap();
    let b = uri_to_vector_image("otpauth://totp/x?secret=AB").unwrap();
    assert_eq!(a, b);
    assert!(a.starts_with("<svg"));
}

fn outputs() -> Vec<Output> {
    let (outputs, _) = convert_all(&vec![record(OtpType::Totp), record(OtpType::Hotp)]);
    outputs
}

#[test]
fn toggling_shows_one_code() {
    let mut o = outputs();
    let url = o[1].url.clone();
    toggle_svg(&mut o, &url);
    assert!(!o[0].show_svg);
    assert!(o[1].show_svg);
    toggle_svg(&mut o, &url);
    assert!(!o[1].show_svg);
}

#[test]
fn copy_state_marks_one_account() {
    let mut o = outputs();
    let url = o[0].url.clone();
    mark_copied(&mut o, &url, CopyState::Copied);
    assert_eq!(o[0].copied, Some(CopyState::Copied));
    assert_eq!(o[1].copied, None);
    let other = o[1].url.clone();
    mark_copied(&mut o, &other, CopyState::Failed);
    assert_eq!(o[0].copied, None);
    assert_eq!(o[1].copied, Some(CopyState::Failed));
}

#[test]
fn loaded_batch_appends_and_reports() {
    let mut o = outputs();
    let msg = apply_loaded(
        &mut o,
        Ok(Some(vec![record(OtpType::Unspecified), record(OtpType::Totp)])),
    );
    assert_eq!(o.len(), 3);
    assert_eq!(msg.unwrap(), "One account could not be read: unknown otp type");
    let msg = apply_loaded(&mut o, Ok(None));
    assert!(o.is_empty());
    assert_eq!(
        msg.unwrap(),
        "No valid Google Authenticator Export QR code found in the uploaded image."
    );
}

#[test]
fn uri_reads_back_to_record() {
    let mut r = record(OtpType::Hotp);
    r.issuer = "ACME Co: Ops".to_string();
    r.name = "bob@example.com".to_string();
    r.counter = 7;
    let o = to_output(&r).unwrap();
    let (head, query) = o.url.split_once('?').unwrap();
    let label = head.strip_prefix("otpauth://hotp/").unwrap();
    let label: Vec<u8> = percent_encoding::percent_decode_str(label).collect();
    assert_eq!(label, b"ACME Co: Ops:bob@example.com".to_vec());
    let pairs: Vec<(String, String)> = form_urlencoded::parse(query.as_bytes())
        .map(|(k, v)| (k.into_owned(), v.into_owned()))
        .collect();
    let keys: Vec<&str> = pairs.iter().map(|(k, _)| k.as_str()).collect();
    assert_eq!(keys, vec!["secret", "counter", "issuer", "algorithm", "digits"]);
    let secret = base32::decode(base32::Alphabet::RFC4648 { padding: false }, &pairs[0].1).unwrap();
    assert_eq!(secret, r.secret);
    assert_eq!(pairs[1].1, "7");
    assert_eq!(pairs[2].1, "ACME Co: Ops");
    assert_eq!(pairs[3].1, "SHA1");
    assert_eq!(pairs[4].1, "6");
}
