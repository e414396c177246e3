//! The length-delimited, tag-based binary format of a migration batch.
use vstd::prelude::*;
use vstd::utf8::{decode_utf8, valid_utf8};
use crate::record::{
    algorithm_from_wire, algorithm_of, digits_from_wire, digits_of, empty_record,
    otp_type_from_wire, otp_type_of, records_view, Algorithm, DigitCount, OtpParameters,
    OtpType, RecordView,
};

verus! {

/// A field's payload: a varint, the bounds of a length-delimited run, or a fixed-width value.
#[derive(Clone, Copy, PartialEq, Eq, Structural, Debug)]
pub enum Wire {
    Varint(u64),
    Bytes(usize, usize),
    Fixed,
}

/// The batch could not be parsed.
#[derive(Clone, Copy, PartialEq, Eq, Structural, Debug)]
pub struct MalformedMessage;

/// A varint that starts at `pos` and must end before `end`; `k` bytes have been read into `acc`.
pub open spec fn varint_from(s: Seq<u8>, end: int, pos: int, k: nat, acc: u64) -> Option<(u64, int)>
    decreases 10 - k,
{
    if k >= 10 || pos + k >= end {
        None
    } else {
        let b = s[pos + k];
        let v = acc | (((b & 0x7f) as u64) << ((7 * k) as u64));
        if b < 0x80 {
            if k == 9 && b >= 2 {
                None
            } else {
                Some((v, pos + k + 1))
            }
        } else if k == 9 {
            None
        } else {
            varint_from(s, end, pos, k + 1, v)
        }
    }
}

pub open spec fn varint_at(s: Seq<u8>, end: int, pos: int) -> Option<(u64, int)> {
    varint_from(s, end, pos, 0, 0)
}

/// The field (tag, payload, next position) at `pos`.
pub open spec fn field_at(s: Seq<u8>, end: int, pos: int) -> Option<(u64, Wire, int)> {
    match varint_at(s, end, pos) {
        None => None,
        Some((key, p)) => {
            let wt = key % 8;
            let tag = key / 8;
            if key > 0xffff_ffff || tag == 0 {
                None
            } else if wt == 0 {
                match varint_at(s, end, p) {
                    None => None,
                    Some((v, q)) => Some((tag, Wire::Varint(v), q)),
                }
            } else if wt == 1 {
                if p + 8 <= end {
                    Some((tag, Wire::Fixed, p + 8))
                } else {
                    None
                }
            } else if wt == 2 {
                match varint_at(s, end, p) {
                    None => None,
                    Some((n, q)) => if n <= end - q {
                        Some((tag, Wire::Bytes(q as usize, (q + n) as usize), q + n))
                    } else {
                        None
                    },
                }
            } else if wt == 5 {
                if p + 4 <= end {
                    Some((tag, Wire::Fixed, p + 4))
                } else {
                    None
                }
            } else {
                None
            }
        },
    }
}

/// The effect of one field on an account record.
pub open spec fn record_field(s: Seq<u8>, tag: u64, w: Wire, acc: RecordView) -> Option<RecordView> {
    if tag == 1 {
        match w {
            Wire::Bytes(a, b) => Some(RecordView { secret: s.subrange(a as int, b as int), ..acc }),
            _ => None,
        }
    } else if tag == 2 || tag == 3 {
        match w {
            Wire::Bytes(a, b) => {
                let t = s.subrange(a as int, b as int);
                if !valid_utf8(t) {
                    None
                } else if tag == 2 {
                    Some(RecordView { name: decode_utf8(t), ..acc })
                } else {
                    Some(RecordView { issuer: decode_utf8(t), ..acc })
                }
            },
            _ => None,
        }
    } else if 4 <= tag <= 7 {
        match w {
            Wire::Varint(v) => if tag == 4 {
                Some(RecordView { algorithm: algorithm_of(v), ..acc })
            } else if tag == 5 {
                Some(RecordView { digits: digits_of(v), ..acc })
            } else if tag == 6 {
                Some(RecordView { otp_type: otp_type_of(v), ..acc })
            } else {
                Some(RecordView { counter: v, ..acc })
            },
            _ => None,
        }
    } else {
        Some(acc)
    }
}

/// The account record held in `s[pos..end]`, fields applied in order onto `acc`.
pub open spec fn record_from(s: Seq<u8>, end: int, pos: int, acc: RecordView) -> Option<RecordView>
    decreases end - pos,
{
    if pos >= end {
        Some(acc)
    } else {
        match field_at(s, end, pos) {
            None => None,
            Some((tag, w, next)) => if next <= pos || next > end {
                None
            } else {
                match record_field(s, tag, w, acc) {
                    None => None,
                    Some(a) => record_from(s, end, next, a),
                }
            },
        }
    }
}

/// The accounts of a batch held in `s[pos..end]`, appended to `acc`.
pub open spec fn payload_from(s: Seq<u8>, end: int, pos: int, acc: Seq<RecordView>) -> Option<Seq<RecordView>>
    decreases end - pos,
{
    if pos >= end {
        Some(acc)
    } else {
        match field_at(s, end, pos) {
            None => None,
            Some((tag, w, next)) => if next <= pos || next > end {
                None
            } else if tag == 1 {
                match w {
                    Wire::Bytes(a, b) => match record_from(s, b as int, a as int, empty_record()) {
                        None => None,
                        Some(r) => payload_from(s, end, next, acc.push(r)),
                    },
                    _ => None,
                }
            } else if 2 <= tag <= 5 && !(w is Varint) {
                None
            } else {
                payload_from(s, end, next, acc)
            },
        }
    }
}

/// The accounts of a whole batch, or `None` where it is malformed.
pub open spec fn decode_batch_spec(s: Seq<u8>) -> Option<Seq<RecordView>> {
    payload_from(s, s.len() as int, 0, Seq::empty())
}

/// Relies on `String::from_utf8`: it succeeds exactly on well-formed UTF-8 and keeps its characters.
#[verifier::external_body]
fn utf8_string(v: Vec<u8>) -> (r: Option<String>)
    ensures
        r is Some <==> valid_utf8(v@),
        r matches Some(t) ==> t@ == decode_utf8(v@),
{
    String::from_utf8(v).ok()
}

/// The bytes `s[a..b]`.
pub fn copy_range(s: &[u8], a: usize, b: usize) -> (r: Vec<u8>)
    requires
        a <= b <= s@.len(),
    ensures
        r@ == s@.subrange(a as int, b as int),
{
    let mut r: Vec<u8> = Vec::new();
    let mut i: usize = a;
    while i < b
        invariant
            a <= i <= b <= s@.len(),
            r@ == s@.subrange(a as int, i as int),
        decreases b - i,
    {
        r.push(s[i]);
        i = i + 1;
    }
    r
}

/// Reads the varint at `pos`, which must end before `end`.
pub fn read_varint(s: &[u8], end: usize, pos: usize) -> (r: Option<(u64, usize)>)
    requires
        pos <= end <= s@.len(),
    ensures
        match r {
            None => varint_at(s@, end as int, pos as int) is None,
            Some((v, p)) => varint_at(s@, end as int, pos as int) == Some((v, p as int)),
        },
{
    let mut acc: u64 = 0;
    let mut k: usize = 0;
    while k < 10
        invariant
            pos <= end <= s@.len(),
            k <= 10,
            varint_from(s@, end as int, pos as int, k as nat, acc)
                == varint_at(s@, end as int, pos as int),
        decreases 10 - k,
    {
        if k >= end - pos {
            return None;
        }
        let b = s[pos + k];
        let v = acc | (((b & 0x7f) as u64) << ((7 * k) as u64));
        if b < 0x80 {
            if k == 9 && b >= 2 {
                return None;
            } else {
                return Some((v, pos + k + 1));
            }
        } else if k == 9 {
            return None;
        }
        acc = v;
        k = k + 1;
    }
    None
}

/// Reads the field at `pos`, which must end before `end`.
pub fn read_field(s: &[u8], end: usize, pos: usize) -> (r: Option<(u64, Wire, usize)>)
    requires
        pos <= end <= s@.len(),
    ensures
        match r {
            None => field_at(s@, end as int, pos as int) is None,
            Some((t, w, p)) => field_at(s@, end as int, pos as int) == Some((t, w, p as int))
                && pos < p <= end
                && (w matches Wire::Bytes(x, y) ==> x <= y <= end),
        },
{
    let (key, p) = match read_varint(s, end, pos) {
        None => return None,
        Some(x) => x,
    };
    proof { lemma_varint_bounds(s@, end as int, pos as int, 0, 0); }
    let wt = key % 8;
    let tag = key / 8;
    if key > 0xffff_ffff || tag == 0 {
        None
    } else if wt == 0 {
        match read_varint(s, end, p) {
            None => None,
            Some((v, q)) => {
                proof { lemma_varint_bounds(s@, end as int, p as int, 0, 0); }
                Some((tag, Wire::Varint(v), q))
            },
        }
    } else if wt == 1 {
        if end - p >= 8 {
            Some((tag, Wire::Fixed, p + 8))
        } else {
            None
        }
    } else if wt == 2 {
        match read_varint(s, end, p) {
            None => None,
            Some((n, q)) => {
                proof { lemma_varint_bounds(s@, end as int, p as int, 0, 0); }
                if n <= (end - q) as u64 {
                    let b = q + n as usize;
                    Some((tag, Wire::Bytes(q, b), b))
                } else {
                    None
                }
            },
        }
    } else if wt == 5 {
        if end - p >= 4 {
            Some((tag, Wire::Fixed, p + 4))
        } else {
            None
        }
    } else {
        None
    }
}

/// Decodes the account record held in `s[a..b]`.
pub fn decode_record(s: &[u8], a: usize, b: usize) -> (r: Option<OtpParameters>)
    requires
        a <= b <= s@.len(),
    ensures
        match record_from(s@, b as int, a as int, empty_record()) {
            None => r is None,
            Some(v) => r matches Some(p) && p@ == v,
        },
{
    let mut cur = OtpParameters {
        secret: Vec::new(),
        name: String::new(),
        issuer: String::new(),
        algorithm: Algorithm::Unspecified,
        digits: DigitCount::Unspecified,
        otp_type: OtpType::Unspecified,
        counter: 0,
    };
    let mut pos: usize = a;
    proof {
        assert(cur@ == empty_record());
    }
    while pos < b
        invariant
            a <= pos <= b <= s@.len(),
            record_from(s@, b as int, pos as int, cur@)
                == record_from(s@, b as int, a as int, empty_record()),
        decreases b - pos,
    {
        let (tag, w, next) = match read_field(s, b, pos) {
            None => return None,
            Some(x) => x,
        };
        if tag == 1 {
            match w {
                Wire::Bytes(x, y) => {
                    cur.secret = copy_range(s, x, y);
                },
                _ => return None,
            }
        } else if tag == 2 || tag == 3 {
            match w {
                Wire::Bytes(x, y) => {
                    let t = match utf8_string(copy_range(s, x, y)) {
                        None => return None,
                        Some(t) => t,
                    };
                    if tag == 2 {
                        cur.name = t;
                    } else {
                        cur.issuer = t;
                    }
                },
                _ => return None,
            }
        } else if 4 <= tag && tag <= 7 {
            match w {
                Wire::Varint(v) => {
                    if tag == 4 {
                        cur.algorithm = algorithm_from_wire(v);
                    } else if tag == 5 {
                        cur.digits = digits_from_wire(v);
                    } else if tag == 6 {
                        cur.otp_type = otp_type_from_wire(v);
                    } else {
                        cur.counter = v;
                    }
                },
                _ => return None,
            }
        }
        pos = next;
    }
    Some(cur)
}

/// Decodes a whole migration batch into its account records, in order.
pub fn decode_batch(s: &[u8]) -> (r: Result<Vec<OtpParameters>, MalformedMessage>)
    ensures
        match decode_batch_spec(s@) {
            None => r is Err,
            Some(v) => r matches Ok(recs) && records_view(recs@) == v,
        },
{
    let end = s.len();
    let mut out: Vec<OtpParameters> = Vec::new();
    let mut pos: usize = 0;
    proof {
        assert(records_view(out@) =~= Seq::<RecordView>::empty());
    }
    while pos < end
        invariant
            pos <= end == s@.len(),
            payload_from(s@, end as int, pos as int, records_view(out@)) == decode_batch_spec(s@),
        decreases end - pos,
    {
        let (tag, w, next) = match read_field(s, end, pos) {
            None => return Err(MalformedMessage),
            Some(x) => x,
        };
        if tag == 1 {
            match w {
                Wire::Bytes(x, y) => {
                    match decode_record(s, x, y) {
                        None => return Err(MalformedMessage),
                        Some(rec) => {
                            let ghost before = out@;
                            out.push(rec);
                            proof {
                                assert(records_view(out@) =~= records_view(before).push(rec@));
                            }
                        },
                    }
                },
                _ => return Err(MalformedMessage),
            }
        } else if 2 <= tag && tag <= 5 {
            match w {
                Wire::Varint(_) => {},
                _ => return Err(MalformedMessage),
            }
        }
        pos = next;
    }
    Ok(out)
}

proof fn lemma_varint_bounds(s: Seq<u8>, end: int, pos: int, k: nat, acc: u64)
    ensures
        varint_from(s, end, pos, k, acc) matches Some((v, p)) ==> pos < p <= end,
    decreases 10 - k,
{
    if k < 10 && pos + k < end {
        let b = s[pos + k];
        let v = acc | (((b & 0x7f) as u64) << ((7 * k) as u64));
        if b >= 0x80 && k != 9 {
            lemma_varint_bounds(s, end, pos, k + 1, v);
        }
    }
}

} // verus!
