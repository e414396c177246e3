//! From image bytes to the accounts of the first migration QR code found in the image.
use vstd::prelude::*;
use crate::record::{records_view, OtpParameters, RecordView};
use crate::wire::{decode_batch, decode_batch_spec};

verus! {

/// An 8-bit grayscale image, row by row.
#[derive(Clone, Debug)]
pub struct GrayMatrix {
    pub width: usize,
    pub height: usize,
    pub pixels: Vec<u8>,
}

impl GrayMatrix {
    pub open spec fn wf(&self) -> bool {
        self.pixels@.len() == self.width * self.height
    }
}

/// The image bytes could not be decoded as an image.
#[derive(Clone, Copy, PartialEq, Eq, Structural, Debug)]
pub struct ImageFormatError;

/// Fixed-threshold binarization: above 128 becomes white, the rest black.
pub open spec fn threshold_pixels(p: Seq<u8>) -> Seq<u8> {
    p.map_values(|x: u8| if x > 128 { 255u8 } else { 0u8 })
}

/// Binarizes the image in place.
pub fn binarize(m: &mut GrayMatrix)
    ensures
        final(m).width == old(m).width,
        final(m).height == old(m).height,
        final(m).pixels@ == threshold_pixels(old(m).pixels@),
{
    let n = m.pixels.len();
    let mut i: usize = 0;
    while i < n
        invariant
            n == old(m).pixels@.len() == m.pixels@.len(),
            i <= n,
            m.width == old(m).width,
            m.height == old(m).height,
            forall|j: int| 0 <= j < i ==> m.pixels@[j] == threshold_pixels(old(m).pixels@)[j],
            forall|j: int| i <= j < n ==> m.pixels@[j] == old(m).pixels@[j],
        decreases n - i,
    {
        let v: u8 = if m.pixels[i] > 128 { 255 } else { 0 };
        m.pixels.set(i, v);
        i = i + 1;
    }
    assert(m.pixels@ =~= threshold_pixels(old(m).pixels@));
}

/// The sample at column `x`, row `y`; zero outside the image.
pub fn pixel_at(m: &GrayMatrix, x: usize, y: usize) -> (r: u8)
    requires
        m.wf(),
    ensures
        x < m.width && y < m.height ==> r == m.pixels@[y * m.width + x],
{
    let n = m.pixels.len();
    if x < m.width && y < m.height {
        proof {
            assert((y + 1) * m.width <= m.height * m.width) by (nonlinear_arith)
                requires
                    y + 1 <= m.height,
            ;
            assert((y + 1) * m.width == y * m.width + m.width) by (nonlinear_arith);
            assert(m.height * m.width == m.width * m.height) by (nonlinear_arith);
            assert(y * m.width + x < m.pixels@.len());
        }
        let row: usize = y * m.width;
        m.pixels[row + x]
    } else {
        0
    }
}

/// The name of what the image decoder makes of some bytes: width, height and grayscale
/// samples, or nothing where the bytes are no image it can read.
pub uninterp spec fn luma_of(bytes: Seq<u8>) -> Option<(usize, usize, Seq<u8>)>;

/// Relies on `image::load_from_memory` and `DynamicImage::to_luma8`: an image buffer holds
/// one sample per pixel.
#[verifier::external_body]
fn load_luma(bytes: &[u8]) -> (r: Option<GrayMatrix>)
    ensures
        match r {
            None => luma_of(bytes@) is None,
            Some(m) => m.wf() && luma_of(bytes@) == Some((m.width, m.height, m.pixels@)),
        },
{
    let img = match image::load_from_memory(bytes) {
        Ok(img) => img.to_luma8(),
        Err(_) => return None,
    };
    Some(GrayMatrix { width: img.width() as usize, height: img.height() as usize, pixels: img.into_raw() })
}

/// The name of what the QR detector finds in a grayscale image: for each symbol in
/// detection order its text, or nothing where the symbol does not decode.
pub uninterp spec fn symbol_texts_of(image: (usize, usize, Seq<u8>)) -> Seq<Option<Seq<char>>>;

pub open spec fn texts_view(v: Seq<Option<String>>) -> Seq<Option<Seq<char>>> {
    v.map_values(|t: Option<String>| match t {
        Some(s) => Some(s@),
        None => None,
    })
}

/// Relies on `rqrr::PreparedImage::prepare_from_greyscale`, `detect_grids` and `Grid::decode`.
#[verifier::external_body]
fn detect_texts(m: &GrayMatrix) -> (r: Vec<Option<String>>)
    requires
        m.wf(),
    ensures
        texts_view(r@) == symbol_texts_of((m.width, m.height, m.pixels@)),
{
    let mut img = rqrr::PreparedImage::prepare_from_greyscale(m.width, m.height, |x, y| pixel_at(m, x, y));
    img.detect_grids().into_iter().map(|g| g.decode().ok().map(|(_, s)| s)).collect()
}

/// The name of what the URL parser makes of a text: its scheme and its decoded query
/// pairs in order, or nothing where the text is no absolute URL.
pub uninterp spec fn url_parts_of(text: Seq<char>) -> Option<(Seq<char>, Seq<(Seq<char>, Seq<char>)>)>;

pub open spec fn query_view(v: Seq<(String, String)>) -> Seq<(Seq<char>, Seq<char>)> {
    v.map_values(|p: (String, String)| (p.0@, p.1@))
}

/// Relies on `url::Url::parse`, `Url::scheme` and `Url::query_pairs`.
#[verifier::external_body]
fn parse_url(text: &str) -> (r: Option<(String, Vec<(String, String)>)>)
    ensures
        match r {
            None => url_parts_of(text@) is None,
            Some((s, q)) => url_parts_of(text@) == Some((s@, query_view(q@))),
        },
{
    let url = match url::Url::parse(text) {
        Ok(u) => u,
        Err(_) => return None,
    };
    let query = url.query_pairs().map(|(k, v)| (k.into_owned(), v.into_owned())).collect();
    Some((url.scheme().to_string(), query))
}

/// The name of the standard base64 decoding of a text, nothing where it is not valid base64.
pub uninterp spec fn base64_decoded(text: Seq<char>) -> Option<Seq<u8>>;

/// Relies on `base64::decode` with the standard alphabet.
#[verifier::external_body]
fn decode_base64(text: &str) -> (r: Option<Vec<u8>>)
    ensures
        match r {
            None => base64_decoded(text@) is None,
            Some(b) => base64_decoded(text@) == Some(b@),
        },
{
    base64::decode(text).ok()
}

/// The value of the first pair whose key is `key`.
pub open spec fn first_value(q: Seq<(Seq<char>, Seq<char>)>, key: Seq<char>) -> Option<Seq<char>>
    decreases q.len(),
{
    if q.len() == 0 {
        None
    } else if q[0].0 == key {
        Some(q[0].1)
    } else {
        first_value(q.drop_first(), key)
    }
}

/// The accounts carried by a URL with the given scheme and query pairs.
pub open spec fn payload_of_url(scheme: Seq<char>, q: Seq<(Seq<char>, Seq<char>)>) -> Option<Seq<RecordView>> {
    if scheme != "otpauth-migration"@ {
        None
    } else {
        match first_value(q, "data"@) {
            None => None,
            Some(d) => match base64_decoded(d) {
                None => None,
                Some(bytes) => decode_batch_spec(bytes),
            },
        }
    }
}

pub open spec fn payload_of_text(t: Seq<char>) -> Option<Seq<RecordView>> {
    match url_parts_of(t) {
        None => None,
        Some((scheme, q)) => payload_of_url(scheme, q),
    }
}

/// The accounts of the first symbol text that carries a valid migration payload.
pub open spec fn first_payload(texts: Seq<Option<Seq<char>>>) -> Option<Seq<RecordView>>
    decreases texts.len(),
{
    if texts.len() == 0 {
        None
    } else {
        match texts[0] {
            Some(t) if payload_of_text(t) is Some => payload_of_text(t),
            _ => first_payload(texts.drop_first()),
        }
    }
}

pub open spec fn opt_records_view(r: Option<Vec<OtpParameters>>) -> Option<Seq<RecordView>> {
    match r {
        Some(v) => Some(records_view(v@)),
        None => None,
    }
}

/// The accounts carried by an already parsed URL: its scheme must be `otpauth-migration`
/// and its first `data` parameter a base64 migration batch.
pub fn payload_from_url_parts(scheme: &str, query: &Vec<(String, String)>) -> (r: Option<Vec<OtpParameters>>)
    ensures
        opt_records_view(r) == payload_of_url(scheme@, query_view(query@)),
{
    let expected = String::from_str("otpauth-migration");
    if !(scheme.to_owned() == expected) {
        return None;
    }
    let key = String::from_str("data");
    let ghost qv = query_view(query@);
    let mut i: usize = 0;
    assert(qv.subrange(0, qv.len() as int) =~= qv);
    while i < query.len()
        invariant
            i <= query@.len(),
            qv == query_view(query@),
            key@ == "data"@,
            scheme@ == "otpauth-migration"@,
            first_value(qv, "data"@) == first_value(qv.subrange(i as int, qv.len() as int), "data"@),
        decreases query@.len() - i,
    {
        let ghost rest = qv.subrange(i as int, qv.len() as int);
        assert(rest.drop_first() =~= qv.subrange(i + 1, qv.len() as int));
        if query[i].0 == key {
            proof {
                assert(rest[0] == qv[i as int]);
                assert(qv[i as int].0 == query@[i as int].0@);
                assert(key@ == "data"@);
                assert(query@[i as int].0@ == key@);
                assert(rest[0].0 == "data"@);
                assert(first_value(qv, "data"@) == Some(query@[i as int].1@));
            }
            let bytes = decode_base64(query[i].1.as_str())?;
            return match decode_batch(bytes.as_slice()) {
                Ok(recs) => Some(recs),
                Err(_) => None,
            };
        }
        i = i + 1;
    }
    None
}

/// The accounts carried by a text, where it is a migration URL.
pub fn payload_from_text(text: &str) -> (r: Option<Vec<OtpParameters>>)
    ensures
        opt_records_view(r) == payload_of_text(text@),
{
    match parse_url(text) {
        None => None,
        Some((scheme, query)) => payload_from_url_parts(scheme.as_str(), &query),
    }
}

/// The accounts of the first text that is a valid migration URL, searching in order.
pub fn first_payload_in(texts: &Vec<Option<String>>) -> (r: Option<Vec<OtpParameters>>)
    ensures
        opt_records_view(r) == first_payload(texts_view(texts@)),
{
    let ghost tv = texts_view(texts@);
    let mut i: usize = 0;
    assert(tv.subrange(0, tv.len() as int) =~= tv);
    while i < texts.len()
        invariant
            i <= texts@.len(),
            tv == texts_view(texts@),
            first_payload(tv) == first_payload(tv.subrange(i as int, tv.len() as int)),
        decreases texts@.len() - i,
    {
        let ghost rest = tv.subrange(i as int, tv.len() as int);
        assert(rest.drop_first() =~= tv.subrange(i + 1, tv.len() as int));
        match &texts[i] {
            Some(t) => {
                let p = payload_from_text(t.as_str());
                if p.is_some() {
                    return p;
                }
            },
            None => {},
        }
        i = i + 1;
    }
    None
}

/// The accounts of the first migration QR code found in a grayscale image.
pub fn extract(m: &GrayMatrix) -> (r: Option<Vec<OtpParameters>>)
    requires
        m.wf(),
    ensures
        opt_records_view(r) == first_payload(symbol_texts_of((m.width, m.height, m.pixels@))),
{
    let texts = detect_texts(m);
    first_payload_in(&texts)
}

/// What an image decoded to by the image decoder yields: the plain pass where it finds a
/// payload, else the pass over the binarized image.
pub open spec fn two_pass(w: usize, h: usize, p: Seq<u8>) -> Option<Seq<RecordView>> {
    let plain = first_payload(symbol_texts_of((w, h, p)));
    if plain is Some {
        plain
    } else {
        first_payload(symbol_texts_of((w, h, threshold_pixels(p))))
    }
}

/// An image whose plain pass finds nothing yields what its binarized pass finds; where
/// neither pass finds a payload the outcome is "no code", which is no error.
pub proof fn threshold_retry(w: usize, h: usize, p: Seq<u8>)
    ensures
        first_payload(symbol_texts_of((w, h, p))) is None ==> two_pass(w, h, p) == first_payload(
            symbol_texts_of((w, h, threshold_pixels(p))),
        ),
        first_payload(symbol_texts_of((w, h, p))) is None && first_payload(
            symbol_texts_of((w, h, threshold_pixels(p))),
        ) is None ==> two_pass(w, h, p) is None,
{
}

/// Reads the accounts of a migration QR code from image bytes. An image that cannot be
/// decoded is an error; an image without a valid code gives `Ok(None)`.
pub fn migration_from_file(bytes: &[u8]) -> (r: Result<Option<Vec<OtpParameters>>, ImageFormatError>)
    ensures
        match luma_of(bytes@) {
            None => r == Err::<Option<Vec<OtpParameters>>, ImageFormatError>(ImageFormatError),
            Some((w, h, p)) => r matches Ok(o) && opt_records_view(o) == two_pass(w, h, p),
        },
{
    let mut m = match load_luma(bytes) {
        None => return Err(ImageFormatError),
        Some(m) => m,
    };
    let plain = extract(&m);
    if plain.is_some() {
        return Ok(plain);
    }
    binarize(&mut m);
    Ok(extract(&m))
}

} // verus!
