//! Turning one account record into a provisioning URI and its QR code image.
use vstd::prelude::*;
use vstd::utf8::encode_utf8;
use fast_qr::convert::Builder;
use crate::record::{Algorithm, DigitCount, OtpParameters, OtpType, RecordView};
use crate::text::{
    base32_encode, base32_unpadded, counter_text, form_encoded, form_serialize,
    percent_encode_non_alnum, percent_encoded, signed_decimal,
};

verus! {

/// Outcome of copying an account's URI to the clipboard.
#[derive(Clone, Copy, PartialEq, Eq, Structural, Debug)]
pub enum CopyState {
    Copied,
    Failed,
}

/// Why a record could not be turned into an account.
#[derive(Clone, Copy, PartialEq, Eq, Structural, Debug)]
pub enum ConversionError {
    /// The record names neither HOTP nor TOTP.
    UnknownType,
    /// The URI does not fit in a QR code at the low error-correction level.
    UriTooLong,
}

impl ConversionError {
    /// A description of the error for the user.
    pub fn message(&self) -> (r: String)
        ensures
            r@ == conversion_message(*self),
    {
        match self {
            ConversionError::UnknownType => String::from_str("unknown otp type"),
            ConversionError::UriTooLong => String::from_str("uri too long for a QR code"),
        }
    }
}

pub open spec fn conversion_message(e: ConversionError) -> Seq<char> {
    match e {
        ConversionError::UnknownType => "unknown otp type"@,
        ConversionError::UriTooLong => "uri too long for a QR code"@,
    }
}

/// One account as shown to the user.
#[derive(Clone, Debug)]
pub struct Output {
    pub issuer: String,
    pub name: String,
    pub secret: String,
    pub kind: String,
    pub algorithm: Option<String>,
    pub digit_count: Option<String>,
    pub url: String,
    pub svg: String,
    pub show_svg: bool,
    pub copied: Option<CopyState>,
}

pub open spec fn opt_view(o: Option<String>) -> Option<Seq<char>> {
    match o {
        Some(s) => Some(s@),
        None => None,
    }
}

/// The name of the rendered QR code markup for a text: a function of the text alone,
/// absent where the text does not fit in a symbol.
pub uninterp spec fn qr_svg_of(text: Seq<char>) -> Option<Seq<char>>;

/// Relies on `fast_qr`: `QRBuilder` at error-correction level L, then `SvgBuilder` with
/// square modules; `build` fails only on input too long for a symbol.
#[verifier::external_body]
fn qr_svg(text: &str) -> (r: Option<String>)
    ensures
        opt_view(r) == qr_svg_of(text@),
{
    let qr = match fast_qr::QRBuilder::new(text).ecl(fast_qr::ECL::L).build() {
        Ok(qr) => qr,
        Err(_) => return None,
    };
    let mut builder = fast_qr::convert::svg::SvgBuilder::default();
    builder.shape(fast_qr::convert::Shape::Square);
    Some(builder.to_str(&qr))
}

/// The QR code of a URI as vector markup; `None` where the URI does not fit in a symbol.
pub fn uri_to_vector_image(uri: &str) -> (r: Option<String>)
    ensures
        opt_view(r) == qr_svg_of(uri@),
{
    qr_svg(uri)
}

/// Rendering a URI is deterministic: two renderings of one URI are identical.
pub proof fn vector_image_deterministic(uri: Seq<char>, a: Option<Seq<char>>, b: Option<Seq<char>>)
    requires
        a == qr_svg_of(uri),
        b == qr_svg_of(uri),
    ensures
        a == b,
{
}

pub open spec fn data_uri(svg: Seq<char>) -> Seq<char> {
    "data:image/svg+xml,"@ + percent_encoded(encode_utf8(svg))
}

pub open spec fn kind_of(t: OtpType) -> Seq<char> {
    if t == OtpType::Hotp {
        "hotp"@
    } else {
        "totp"@
    }
}

pub open spec fn kind_label(t: OtpType) -> Seq<char> {
    if t == OtpType::Hotp {
        "HOTP"@
    } else {
        "TOTP"@
    }
}

pub open spec fn algorithm_label(a: Algorithm) -> Option<Seq<char>> {
    match a {
        Algorithm::Unspecified => None,
        Algorithm::Sha1 => Some("SHA1"@),
        Algorithm::Sha256 => Some("SHA256"@),
        Algorithm::Sha512 => Some("SHA512"@),
        Algorithm::Md5 => Some("MD5"@),
    }
}

pub open spec fn digits_label(d: DigitCount) -> Option<Seq<char>> {
    match d {
        DigitCount::Unspecified => None,
        DigitCount::Six => Some("6"@),
        DigitCount::Eight => Some("8"@),
    }
}

pub open spec fn opt_pair(key: Seq<char>, v: Option<Seq<char>>) -> Seq<(Seq<char>, Seq<char>)> {
    match v {
        Some(x) => seq![(key, x)],
        None => seq![],
    }
}

/// The query parameters of a record's URI, in order.
pub open spec fn query_pairs(r: RecordView) -> Seq<(Seq<char>, Seq<char>)> {
    seq![("secret"@, base32_unpadded(r.secret))] + (if r.otp_type == OtpType::Hotp {
        seq![("counter"@, signed_decimal(r.counter))]
    } else {
        seq![]
    }) + (if r.issuer.len() > 0 {
        seq![("issuer"@, r.issuer)]
    } else {
        seq![]
    }) + opt_pair("algorithm"@, algorithm_label(r.algorithm)) + opt_pair(
        "digits"@,
        digits_label(r.digits),
    )
}

pub open spec fn pair_text(p: (Seq<char>, Seq<char>)) -> Seq<char> {
    form_encoded(encode_utf8(p.0)) + seq!['='] + form_encoded(encode_utf8(p.1))
}

/// Form-encoded `key=value` pairs joined by `&`.
pub open spec fn query_string(pairs: Seq<(Seq<char>, Seq<char>)>) -> Seq<char>
    decreases pairs.len(),
{
    if pairs.len() == 0 {
        seq![]
    } else if pairs.len() == 1 {
        pair_text(pairs[0])
    } else {
        query_string(pairs.drop_last()) + seq!['&'] + pair_text(pairs.last())
    }
}

/// The URI label: `issuer:name` where there is an issuer, else the name, percent-encoded.
pub open spec fn label_of(r: RecordView) -> Seq<char> {
    if r.issuer.len() > 0 {
        percent_encoded(encode_utf8(r.issuer + seq![':'] + r.name))
    } else {
        percent_encoded(encode_utf8(r.name))
    }
}

/// `otpauth://{kind}/{label}?{query}`.
pub open spec fn canonical_uri(r: RecordView) -> Seq<char> {
    "otpauth://"@ + kind_of(r.otp_type) + "/"@ + label_of(r) + "?"@ + query_string(query_pairs(r))
}

pub open spec fn pairs_view(v: Seq<(String, String)>) -> Seq<(Seq<char>, Seq<char>)> {
    v.map_values(|p: (String, String)| (p.0@, p.1@))
}

/// Serializes key/value pairs as an `application/x-www-form-urlencoded` query string.
pub fn serialize_query(pairs: &Vec<(String, String)>) -> (r: String)
    ensures
        r@ == query_string(pairs_view(pairs@)),
{
    let mut out = String::new();
    let mut i: usize = 0;
    while i < pairs.len()
        invariant
            i <= pairs@.len(),
            out@ == query_string(pairs_view(pairs@).subrange(0, i as int)),
        decreases pairs@.len() - i,
    {
        let ghost pv = pairs_view(pairs@);
        if i > 0 {
            out.append("&");
        }
        let k = form_serialize(pairs[i].0.as_str());
        let v = form_serialize(pairs[i].1.as_str());
        out.append(k.as_str());
        out.append("=");
        out.append(v.as_str());
        proof {
            reveal_strlit("&");
            reveal_strlit("=");
            let s = pv.subrange(0, i + 1);
            assert(s.drop_last() =~= pv.subrange(0, i as int));
            assert(s.last() == pv[i as int]);
            if i == 0 {
                assert(s.len() == 1);
            }
            assert(out@ =~= query_string(s));
        }
        i = i + 1;
    }
    proof {
        assert(pairs_view(pairs@).subrange(0, pairs@.len() as int) =~= pairs_view(pairs@));
    }
    out
}

/// Converts one account record: its unpadded base32 secret, labels, canonical URI and the
/// URI's QR code as a percent-encoded `image/svg+xml` data URI.
pub fn to_output(params: &OtpParameters) -> (r: Result<Output, ConversionError>)
    ensures
        params.otp_type == OtpType::Unspecified ==> r == Err::<Output, ConversionError>(
            ConversionError::UnknownType,
        ),
        params.otp_type != OtpType::Unspecified ==> match qr_svg_of(canonical_uri(params@)) {
            None => r == Err::<Output, ConversionError>(ConversionError::UriTooLong),
            Some(svg) => r matches Ok(o) && o.issuer@ == params.issuer@ && o.name@ == params.name@
                && o.secret@ == base32_unpadded(params.secret@) && o.kind@ == kind_label(
                params.otp_type,
            ) && opt_view(o.algorithm) == algorithm_label(params.algorithm) && opt_view(
                o.digit_count,
            ) == digits_label(params.digits) && o.url@ == canonical_uri(params@) && o.svg@
                == data_uri(svg) && !o.show_svg && o.copied is None,
        },
{
    let secret = base32_encode(params.secret.as_slice());
    let mut pairs: Vec<(String, String)> = Vec::new();
    pairs.push((String::from_str("secret"), secret.clone()));
    let kind;
    let kind_upper;
    match params.otp_type {
        OtpType::Unspecified => return Err(ConversionError::UnknownType),
        OtpType::Hotp => {
            pairs.push((String::from_str("counter"), counter_text(params.counter)));
            kind = String::from_str("hotp");
            kind_upper = String::from_str("HOTP");
        },
        OtpType::Totp => {
            kind = String::from_str("totp");
            kind_upper = String::from_str("TOTP");
        },
    }
    let label = if !params.issuer.as_str().is_empty() {
        pairs.push((String::from_str("issuer"), params.issuer.clone()));
        let mut l = params.issuer.clone();
        l.append(":");
        l.append(params.name.as_str());
        proof {
            reveal_strlit(":");
            assert(":"@ =~= seq![':']);
            assert(l@ =~= params.issuer@ + seq![':'] + params.name@);
        }
        percent_encode_non_alnum(l.as_str())
    } else {
        percent_encode_non_alnum(params.name.as_str())
    };
    let algorithm = match params.algorithm {
        Algorithm::Unspecified => None,
        Algorithm::Sha1 => Some(String::from_str("SHA1")),
        Algorithm::Sha256 => Some(String::from_str("SHA256")),
        Algorithm::Sha512 => Some(String::from_str("SHA512")),
        Algorithm::Md5 => Some(String::from_str("MD5")),
    };
    match &algorithm {
        Some(a) => pairs.push((String::from_str("algorithm"), a.clone())),
        None => {},
    }
    let digit_count = match params.digits {
        DigitCount::Unspecified => None,
        DigitCount::Six => Some(String::from_str("6")),
        DigitCount::Eight => Some(String::from_str("8")),
    };
    match &digit_count {
        Some(d) => pairs.push((String::from_str("digits"), d.clone())),
        None => {},
    }
    proof {
        assert(pairs_view(pairs@) =~= query_pairs(params@));
    }
    let query = serialize_query(&pairs);
    assert(kind@ == kind_of(params.otp_type));
    assert(label@ == label_of(params@));
    let mut url = String::from_str("otpauth://");
    url.append(kind.as_str());
    url.append("/");
    url.append(label.as_str());
    url.append("?");
    url.append(query.as_str());
    assert(url@ =~= canonical_uri(params@));
    let svg = match qr_svg(url.as_str()) {
        None => return Err(ConversionError::UriTooLong),
        Some(s) => s,
    };
    let mut svg_uri = String::from_str("data:image/svg+xml,");
    let body = percent_encode_non_alnum(svg.as_str());
    svg_uri.append(body.as_str());
    Ok(Output {
        issuer: params.issuer.clone(),
        name: params.name.clone(),
        secret,
        kind: kind_upper,
        algorithm,
        digit_count,
        url,
        svg: svg_uri,
        show_svg: false,
        copied: None,
    })
}

} // verus!
