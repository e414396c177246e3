use otp_migration::account::to_output;
use otp_migration::pipeline::{
    binarize, first_payload_in, migration_from_file, payload_from_text, payload_from_url_parts,
    GrayMatrix, ImageFormatError,
};
use otp_migration::record::{Algorithm, DigitCount, OtpType};
use otp_migration::wire::{decode_batch, read_varint, MalformedMessage};

fn alice_record() -> Vec<u8> {
    let mut r = vec![0x0a, 0x04, 0xDE, 0xAD, 0xBE, 0xEF];
    r.extend_from_slice(&[0x12, 0x05]);
    r.extend_from_slice(b"alice");
    r.extend_from_slice(&[0x1a, 0x07]);
    r.extend_from_slice(b"example");
    r.extend_from_slice(&[0x20, 0x01, 0x28, 0x01, 0x30, 0x02]);
    r
}

fn alice_batch() -> Vec<u8> {
    let rec = alice_record();
    let mut b = vec![0x0a, rec.len() as u8];
    b.extend_from_slice(&rec);
    b.extend_from_slice(&[0x10, 0x01, 0x18, 0x01, 0x20, 0x00]);
    b
}

fn migration_url(batch: &[u8]) -> String {
    let data: String = form_urlencoded::byte_serialize(base64::encode(batch).as_bytes()).collect();
    format!("otpauth-migration://offline?data={}", data)
}

#[test]
fn varints_decode() {
    assert_eq!(read_varint(&[0x96, 0x01], 2, 0), Some((150, 2)));
    assert_eq!(read_varint(&[0x7f], 1, 0), Some((127, 1)));
    assert_eq!(read_varint(&[0x80], 1, 0), None);
    let max = [0xff, 0xff, 0xff, 0xff, 0xff, 0xff, 0xff, 0xff, 0xff, 0x01];
    assert_eq!(read_varint(&max, 10, 0), Some((u64::MAX, 10)));
    let over = [0xff, 0xff, 0xff, 0xff, 0xff, 0xff, 0xff, 0xff, 0xff, 0x02];
    assert_eq!(read_varint(&over, 10, 0), None);
}

#[test]
fn batch_with_one_record_decodes() {
    let recs = decode_batch(&alice_batch()).unwrap();
    assert_eq!(recs.len(), 1);
    let r = &recs[0];
    assert_eq!(r.secret, vec![0xDE, 0xAD, 0xBE, 0xEF]);
    assert_eq!(r.name, "alice");
    assert_eq!(r.issuer, "example");
    assert_eq!(r.algorithm, Algorithm::Sha1);
    assert_eq!(r.digits, DigitCount::Six);
    assert_eq!(r.otp_type, OtpType::Totp);
    assert_eq!(r.counter, 0);
}

#[test]
fn empty_batch_has_no_records() {
    assert_eq!(decode_batch(&[]).unwrap().len(), 0);
}

#[test]
fn unknown_fields_are_skipped() {
    let mut b = alice_batch();
    b.extend_from_slice(&[0x3a, 0x02, 0x01, 0x02, 0x45, 1, 2, 3, 4, 0x49, 1, 2, 3, 4, 5, 6, 7, 8]);
    assert_eq!(decode_batch(&b).unwrap().len(), 1);
}

#[test]
fn malformed_batches_are_rejected() {
    let b = alice_batch();
    assert_eq!(decode_batch(&b[..b.len() - 7]).unwrap_err(), MalformedMessage);
    assert_eq!(decode_batch(&[0x00, 0x01]).unwrap_err(), MalformedMessage);
    assert_eq!(decode_batch(&[0x08, 0x01]).unwrap_err(), MalformedMessage);
    assert_eq!(decode_batch(&[0x0a, 0x03, 0x12, 0x01, 0xff]).unwrap_err(), MalformedMessage);
    assert_eq!(decode_batch(&[0x0a, 0x02, 0x30, 0x80]).unwrap_err(), MalformedMessage);
}

#[test]
fn unknown_enum_values_read_as_unspecified() {
    let b = [0x0a, 0x06, 0x20, 0x09, 0x28, 0x07, 0x30, 0x05];
    let recs = decode_batch(&b).unwrap();
    assert_eq!(recs[0].algorithm, Algorithm::Unspecified);
    assert_eq!(recs[0].digits, DigitCount::Unspecified);
    assert_eq!(recs[0].otp_type, OtpType::Unspecified);
}

#[test]
fn migration_url_gives_one_totp_account() {
    let recs = payload_from_text(&migration_url(&alice_batch())).unwrap();
    assert_eq!(recs.len(), 1);
    let o = to_output(&recs[0]).unwrap();
    assert!(o.url.starts_with("otpauth://totp/example%3Aalice?"));
    assert!(o.url.contains("algorithm=SHA1&digits=6"));
}

#[test]
fn other_scheme_is_ignored() {
    let url = migration_url(&alice_batch()).replace("otpauth-migration", "http");
    assert!(payload_from_text(&url).is_none());
    assert!(first_payload_in(&vec![Some(url), None]).is_none());
}

#[test]
fn first_valid_payload_wins() {
    let texts = vec![
        None,
        Some("not a url".to_string()),
        Some("otpauth-migration://offline?other=1".to_string()),
        Some("otpauth-migration://offline?data=%25%25".to_string()),
        Some(migration_url(&alice_batch())),
        Some(migration_url(&[])),
    ];
    assert_eq!(first_payload_in(&texts).unwrap().len(), 1);
}

#[test]
fn url_parts_need_data_parameter() {
    let data = base64::encode(alice_batch());
    let q = vec![("x".to_string(), "1".to_string()), ("data".to_string(), data.clone())];
    assert_eq!(payload_from_url_parts("otpauth-migration", &q).unwrap().len(), 1);
    assert!(payload_from_url_parts("OTPAUTH-MIGRATION", &q).is_none());
    assert!(payload_from_url_parts("otpauth-migration", &vec![]).is_none());
}

#[test]
fn threshold_binarizes() {
    let mut m = GrayMatrix { width: 2, height: 2, pixels: vec![0, 128, 129, 255] };
    binarize(&mut m);
    assert_eq!(m.pixels, vec![0, 0, 255, 255]);
    assert_eq!((m.width, m.height), (2, 2));
}

#[test]
fn non_image_bytes_are_an_image_error() {
    assert_eq!(migration_from_file(b"definitely not an image").unwrap_err(), ImageFormatError);
}

fn png_of(width: u32, height: u32, pixels: Vec<u8>) -> Vec<u8> {
    let img = image::GrayImage::from_raw(width, height, pixels).unwrap();
    let mut out = std::io::Cursor::new(Vec::new());
    image::DynamicImage::ImageLuma8(img).write_to(&mut out, image::ImageFormat::Png).unwrap();
    out.into_inner()
}

fn qr_png(text: &str, dark: u8, light: u8) -> Vec<u8> {
    let qr = fast_qr::QRBuilder::new(text).ecl(fast_qr::ECL::L).build().unwrap();
    let scale = 6;
    let border = 4;
    let side = (qr.size + 2 * border) * scale;
    let mut pixels = vec![light; side * side];
    for y in 0..qr.size {
        for x in 0..qr.size {
            if qr.data[y * qr.size + x].value() {
                for dy in 0..scale {
                    for dx in 0..scale {
                        let py = (y + border) * scale + dy;
                        let px = (x + border) * scale + dx;
                        pixels[py * side + px] = dark;
                    }
                }
            }
        }
    }
    png_of(side as u32, side as u32, pixels)
}

#[test]
fn image_with_migration_code_decodes() {
    let png = qr_png(&migration_url(&alice_batch()), 0, 255);
    let recs = migration_from_file(&png).unwrap().unwrap();
    assert_eq!(recs.len(), 1);
    assert_eq!(recs[0].name, "alice");
}

#[test]
fn low_contrast_code_still_decodes() {
    let png = qr_png(&migration_url(&alice_batch()), 110, 150);
    let recs = migration_from_file(&png).unwrap().unwrap();
    assert_eq!(recs[0].issuer, "example");
}

#[test]
fn blank_image_has_no_code() {
    let png = png_of(64, 64, vec![255; 64 * 64]);
    assert!(migration_from_file(&png).unwrap().is_none());
}

#[test]
fn image_with_other_url_has_no_code() {
    let png = qr_png("http://example.com/?data=AAAA", 0, 255);
    assert!(migration_from_file(&png).unwrap().is_none());
}
