//! The decisions of the application shell: what a finished read does to the accounts on
//! display, and which account shows its QR code or its copy outcome.
use vstd::prelude::*;
use crate::account::{CopyState, Output};
use crate::pipeline::ImageFormatError;
use crate::record::{records_view, OtpParameters};
use crate::report::{
    conversion_errors, convert_all, error_message, failure_message, opt_string_view,
    urls_view, converted_urls,
};

verus! {

pub open spec fn no_code_message() -> Seq<char> {
    "No valid Google Authenticator Export QR code found in the uploaded image."@
}

pub open spec fn image_error_message() -> Seq<char> {
    "Unknown error: the file could not be decoded as an image"@
}

/// Applies the outcome of reading one file: the accounts of a batch are appended and the
/// message reports the records that failed; no code, or no image, clears the accounts.
pub fn apply_loaded(
    outputs: &mut Vec<Output>,
    result: Result<Option<Vec<OtpParameters>>, ImageFormatError>,
) -> (r: Option<String>)
    ensures
        match result {
            Ok(Some(recs)) => urls_view(final(outputs)@) == urls_view(old(outputs)@)
                + converted_urls(records_view(recs@)) && opt_string_view(r) == failure_message(
                conversion_errors(records_view(recs@)),
            ),
            Ok(None) => final(outputs)@.len() == 0 && opt_string_view(r) == Some(
                no_code_message(),
            ),
            Err(_) => final(outputs)@.len() == 0 && opt_string_view(r) == Some(
                image_error_message(),
            ),
        },
{
    match result {
        Ok(Some(recs)) => {
            let (mut converted, errors) = convert_all(&recs);
            let ghost before = outputs@;
            let ghost added = converted@;
            outputs.append(&mut converted);
            assert(urls_view(outputs@) =~= urls_view(before) + urls_view(added));
            error_message(&errors)
        },
        Ok(None) => {
            outputs.clear();
            Some(
                String::from_str(
                    "No valid Google Authenticator Export QR code found in the uploaded image.",
                ),
            )
        },
        Err(_) => {
            outputs.clear();
            Some(String::from_str("Unknown error: the file could not be decoded as an image"))
        },
    }
}

/// Toggles the QR code of the account with the given URI and hides all others.
pub fn toggle_svg(outputs: &mut Vec<Output>, url: &String)
    ensures
        final(outputs)@.len() == old(outputs)@.len(),
        forall|i: int|
            0 <= i < old(outputs)@.len() ==> #[trigger] final(outputs)@[i] == (Output {
                show_svg: if old(outputs)@[i].url@ == url@ {
                    !old(outputs)@[i].show_svg
                } else {
                    false
                },
                ..old(outputs)@[i]
            }),
{
    let n = outputs.len();
    let mut i: usize = 0;
    while i < n
        invariant
            n == outputs@.len() == old(outputs)@.len(),
            i <= n,
            forall|j: int|
                0 <= j < i ==> #[trigger] outputs@[j] == (Output {
                    show_svg: if old(outputs)@[j].url@ == url@ {
                        !old(outputs)@[j].show_svg
                    } else {
                        false
                    },
                    ..old(outputs)@[j]
                }),
            forall|j: int| i <= j < n ==> #[trigger] outputs@[j] == old(outputs)@[j],
        decreases n - i,
    {
        let mut o = outputs.remove(i);
        o.show_svg = if o.url == *url {
            !o.show_svg
        } else {
            false
        };
        outputs.insert(i, o);
        i = i + 1;
    }
}

/// Records the copy outcome on the account with the given URI and clears it on all others.
pub fn mark_copied(outputs: &mut Vec<Output>, url: &String, state: CopyState)
    ensures
        final(outputs)@.len() == old(outputs)@.len(),
        forall|i: int|
            0 <= i < old(outputs)@.len() ==> #[trigger] final(outputs)@[i] == (Output {
                copied: if old(outputs)@[i].url@ == url@ {
                    Some(state)
                } else {
                    None
                },
                ..old(outputs)@[i]
            }),
{
    let n = outputs.len();
    let mut i: usize = 0;
    while i < n
        invariant
            n == outputs@.len() == old(outputs)@.len(),
            i <= n,
            forall|j: int|
                0 <= j < i ==> #[trigger] outputs@[j] == (Output {
                    copied: if old(outputs)@[j].url@ == url@ {
                        Some(state)
                    } else {
                        None
                    },
                    ..old(outputs)@[j]
                }),
            forall|j: int| i <= j < n ==> #[trigger] outputs@[j] == old(outputs)@[j],
        decreases n - i,
    {
        let mut o = outputs.remove(i);
        o.copied = if o.url == *url {
            Some(state)
        } else {
            None
        };
        outputs.insert(i, o);
        i = i + 1;
    }
}

} // verus!
