//! Converting a decoded batch and reporting what could not be converted.
use vstd::prelude::*;
use crate::account::{
    canonical_uri, conversion_message, qr_svg_of, to_output, ConversionError, Output,
};
use crate::record::{records_view, OtpParameters, OtpType, RecordView};
use crate::text::{decimal, push_decimal};

verus! {

/// The error that converting a record meets, if any.
pub open spec fn conversion_outcome(r: RecordView) -> Option<ConversionError> {
    if r.otp_type == OtpType::Unspecified {
        Some(ConversionError::UnknownType)
    } else if qr_svg_of(canonical_uri(r)) is None {
        Some(ConversionError::UriTooLong)
    } else {
        None
    }
}

/// The URIs of the records that convert, in order.
pub open spec fn converted_urls(rs: Seq<RecordView>) -> Seq<Seq<char>>
    decreases rs.len(),
{
    if rs.len() == 0 {
        seq![]
    } else if conversion_outcome(rs.last()) is None {
        converted_urls(rs.drop_last()).push(canonical_uri(rs.last()))
    } else {
        converted_urls(rs.drop_last())
    }
}

/// The messages of the records that do not convert, in order.
pub open spec fn conversion_errors(rs: Seq<RecordView>) -> Seq<Seq<char>>
    decreases rs.len(),
{
    if rs.len() == 0 {
        seq![]
    } else {
        match conversion_outcome(rs.last()) {
            Some(e) => conversion_errors(rs.drop_last()).push(conversion_message(e)),
            None => conversion_errors(rs.drop_last()),
        }
    }
}

pub open spec fn urls_view(v: Seq<Output>) -> Seq<Seq<char>> {
    v.map_values(|o: Output| o.url@)
}

pub open spec fn strings_view(v: Seq<String>) -> Seq<Seq<char>> {
    v.map_values(|s: String| s@)
}

/// Converts every record of a batch; a record that fails adds its message to the errors
/// and the others are still converted.
pub fn convert_all(records: &Vec<OtpParameters>) -> (r: (Vec<Output>, Vec<String>))
    ensures
        urls_view(r.0@) == converted_urls(records_view(records@)),
        strings_view(r.1@) == conversion_errors(records_view(records@)),
{
    let ghost rv = records_view(records@);
    let mut outputs: Vec<Output> = Vec::new();
    let mut errors: Vec<String> = Vec::new();
    let mut i: usize = 0;
    while i < records.len()
        invariant
            i <= records@.len(),
            rv == records_view(records@),
            urls_view(outputs@) == converted_urls(rv.subrange(0, i as int)),
            strings_view(errors@) == conversion_errors(rv.subrange(0, i as int)),
        decreases records@.len() - i,
    {
        let ghost s = rv.subrange(0, i + 1);
        proof {
            assert(s.drop_last() =~= rv.subrange(0, i as int));
            assert(s.last() == records@[i as int]@);
        }
        let ghost uo = outputs@;
        let ghost eo = errors@;
        match to_output(&records[i]) {
            Ok(o) => {
                outputs.push(o);
                proof {
                    assert(urls_view(outputs@) =~= urls_view(uo).push(canonical_uri(s.last())));
                }
            },
            Err(e) => {
                errors.push(e.message());
                proof {
                    assert(strings_view(errors@) =~= strings_view(eo).push(conversion_message(e)));
                }
            },
        }
        i = i + 1;
    }
    proof {
        assert(rv.subrange(0, records@.len() as int) =~= rv);
    }
    (outputs, errors)
}

/// Texts joined by `", "`.
pub open spec fn joined(v: Seq<Seq<char>>) -> Seq<char>
    decreases v.len(),
{
    if v.len() == 0 {
        seq![]
    } else if v.len() == 1 {
        v[0]
    } else {
        joined(v.drop_last()) + ", "@ + v.last()
    }
}

/// The message for the records of a batch that could not be converted.
pub open spec fn failure_message(v: Seq<Seq<char>>) -> Option<Seq<char>> {
    if v.len() == 0 {
        None
    } else if v.len() == 1 {
        Some("One account could not be read: "@ + v[0])
    } else {
        Some(decimal(v.len()) + " accounts could not be read: "@ + joined(v))
    }
}

/// The message for the errors of a batch: none, one named error, or a count and the list.
pub fn error_message(errors: &Vec<String>) -> (r: Option<String>)
    ensures
        opt_string_view(r) == failure_message(strings_view(errors@)),
{
    let ghost ev = strings_view(errors@);
    let n = errors.len();
    if n == 0 {
        return None;
    }
    if n == 1 {
        let mut m = String::from_str("One account could not be read: ");
        m.append(errors[0].as_str());
        return Some(m);
    }
    let mut m = String::new();
    push_decimal(&mut m, n as u64);
    m.append(" accounts could not be read: ");
    let ghost prefix = m@;
    let mut list = String::new();
    let mut i: usize = 0;
    while i < n
        invariant
            n == errors@.len() >= 2,
            i <= n,
            ev == strings_view(errors@),
            list@ == joined(ev.subrange(0, i as int)),
        decreases n - i,
    {
        let ghost s = ev.subrange(0, i + 1);
        proof {
            assert(s.drop_last() =~= ev.subrange(0, i as int));
            assert(s.last() == errors@[i as int]@);
        }
        if i > 0 {
            list.append(", ");
        }
        list.append(errors[i].as_str());
        proof {
            if i == 0 {
                assert(s.len() == 1);
                assert(list@ =~= joined(s));
            } else {
                assert(list@ =~= joined(s));
            }
        }
        i = i + 1;
    }
    proof {
        assert(ev.subrange(0, n as int) =~= ev);
    }
    m.append(list.as_str());
    assert(m@ =~= failure_message(ev).unwrap());
    Some(m)
}

pub open spec fn opt_string_view(o: Option<String>) -> Option<Seq<char>> {
    match o {
        Some(s) => Some(s@),
        None => None,
    }
}

} // verus!
