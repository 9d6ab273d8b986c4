//! The request handlers' computational cores: everything a handler
//! decides or builds once the HTTP layer has parsed the request into
//! plain values, and before anything is written back out.

use vstd::prelude::*;

use crate::error::Error;
use crate::qr::{render_qr, QrFormat, QrOutput};
use crate::qr::{
    png_encoding_of, qr_encodable, qr_modules_of, spec_ascii_grid, spec_out_dim, spec_raster,
    MAX_QR_SIZE,
};
use crate::store::{spec_resolve, UrlStore};
use crate::text::{record_json, spec_record_json};

verus! {

/// The raster size used when a QR request names none.
pub const DEFAULT_QR_SIZE: u32 = 300;

/// Whether a format parameter asks for the text form: exactly the value
/// `ascii` does; everything else, and an absent parameter, means raster.
pub open spec fn spec_is_ascii_format(format: Option<&str>) -> bool {
    match format {
        Some(f) => f@ == "ascii"@,
        None => false,
    }
}

fn str_is_ascii_keyword(f: &str) -> (r: bool)
    ensures
        r <==> f@ == "ascii"@,
{
    proof {
        reveal_strlit("ascii");
    }
    if f.unicode_len() != 5 {
        return false;
    }
    let r = f.get_char(0) == 'a' && f.get_char(1) == 's' && f.get_char(2) == 'c' && f.get_char(3)
        == 'i' && f.get_char(4) == 'i';
    proof {
        if r {
            assert(f@ =~= "ascii"@);
        }
    }
    r
}

/// Decides the rendering format from the optional query parameter.
pub fn parse_format(format: Option<&str>) -> (r: QrFormat)
    ensures
        r is Ascii <==> spec_is_ascii_format(format),
{
    match format {
        Some(f) => {
            if str_is_ascii_keyword(f) {
                QrFormat::Ascii
            } else {
                QrFormat::Raster
            }
        },
        None => QrFormat::Raster,
    }
}

/// The raster size a request asks for, before validation: the `size`
/// parameter if present, the default otherwise.
pub open spec fn spec_effective_size(size: Option<u32>) -> nat {
    match size {
        Some(s) => s as nat,
        None => DEFAULT_QR_SIZE as nat,
    }
}

/// Whether the requested size is acceptable: positive and at most the
/// documented maximum.
pub open spec fn spec_size_ok(size: Option<u32>) -> bool {
    1 <= spec_effective_size(size) <= MAX_QR_SIZE
}

/// What the contracts promise of a successful rendering of the target
/// URL `u` at the requested size and format: the matrix is the encoding
/// of `u` (square, 21 to 177 modules a side), and the output is its text
/// grid or the PNG of its raster covering the effective size.
pub open spec fn spec_qr_ok(
    out: QrOutput,
    u: Seq<char>,
    size: Option<u32>,
    format: Option<&str>,
) -> bool {
    let m = qr_modules_of(u);
    let eff = spec_effective_size(size);
    let d = spec_out_dim(m.len(), eff);
    &&& 21 <= m.len() <= 177
    &&& forall|i: int| 0 <= i < m.len() ==> (#[trigger] m[i]).len() == m.len()
    &&& match out {
        QrOutput::Ascii(s) => spec_is_ascii_format(format) && s@ == spec_ascii_grid(m),
        QrOutput::Png(b) => {
            &&& !spec_is_ascii_format(format)
            &&& eff <= d
            &&& b@ == png_encoding_of(d, d, spec_raster(m, eff))
        },
    }
}

/// The QR handler's core once the target URL is in hand: validates the
/// requested size, decides the format, and renders. A size of zero or
/// above the maximum is rejected as bad input; otherwise rendering
/// succeeds exactly when the symbol encoder accepts the URL, and a URL
/// too long for any symbol version surfaces as a render failure.
pub fn qr_response_for_url(target_url: &str, size: Option<u32>, format: Option<&str>) -> (r:
    Result<QrOutput, Error>)
    ensures
        !spec_size_ok(size) ==> (r matches Err(e) && e is BadRequest),
        spec_size_ok(size) ==> {
            &&& (r is Ok <==> qr_encodable(target_url@))
            &&& match r {
                Ok(out) => spec_qr_ok(out, target_url@, size, format),
                Err(e) => e is RenderFailure,
            }
        },
{
    let eff: u32 = match size {
        Some(s) => s,
        None => DEFAULT_QR_SIZE,
    };
    if eff == 0 || eff > MAX_QR_SIZE {
        return Err(Error::BadRequest("size must be between 1 and 8192".to_owned()));
    }
    render_qr(target_url, eff, parse_format(format))
}

/// The QR handler's core: the identifier is resolved exactly as a read
/// is, and the rendered symbol encodes the resolved target URL. The
/// size is validated first, so out-of-range sizes are rejected as bad
/// input even for unknown identifiers; an identifier without a live
/// record yields `NotFound`; and with both in order, rendering succeeds
/// exactly when the symbol encoder accepts the stored URL.
pub fn qr_response(store: &UrlStore, id: u64, size: Option<u32>, format: Option<&str>) -> (r:
    Result<QrOutput, Error>)
    ensures
        !spec_size_ok(size) ==> (r matches Err(e) && e is BadRequest),
        spec_size_ok(size) ==> match spec_resolve(store@, id) {
            Option::None => r matches Err(e) && e is NotFound,
            Option::Some(u) => {
                &&& (r is Ok <==> qr_encodable(u))
                &&& match r {
                    Ok(out) => spec_qr_ok(out, u, size, format),
                    Err(e) => e is RenderFailure,
                }
            },
        },
{
    let eff: u32 = match size {
        Some(s) => s,
        None => DEFAULT_QR_SIZE,
    };
    if eff == 0 || eff > MAX_QR_SIZE {
        return Err(Error::BadRequest("size must be between 1 and 8192".to_owned()));
    }
    let url = match store.resolve(id) {
        Ok(u) => u,
        Err(e) => {
            return Err(e);
        },
    };
    render_qr(url.as_str(), eff, parse_format(format))
}

/// The metadata handler's core: resolves the identifier as a read does
/// and renders the record's JSON body; a missing or soft-deleted record
/// yields `NotFound`.
pub fn meta_response(store: &UrlStore, id: u64) -> (r: Result<String, Error>)
    ensures
        match r {
            Ok(body) => spec_resolve(store@, id) matches Some(u) && body@ == spec_record_json(
                id as nat,
                u,
            ),
            Err(e) => e is NotFound && spec_resolve(store@, id) is None,
        },
{
    match store.resolve(id) {
        Ok(url) => Ok(record_json(id, url.as_str())),
        Err(e) => Err(e),
    }
}

/// The create handler's core: registers the URL and renders the JSON
/// body echoing the assigned identifier and the stored URL.
pub fn create_response(store: &mut UrlStore, url: String, now: i64) -> (r: Result<
    String,
    Error,
>)
    requires
        old(store).wf(),
    ensures
        final(store).wf(),
        r is Ok <==> (url@.len() > 0 && old(store).spec_next_id() < u64::MAX),
        match r {
            Ok(body) => {
                &&& body@ == spec_record_json(old(store).spec_next_id() as nat, url@)
                &&& final(store)@ == old(store)@.push(
                    crate::store::RecordModel {
                        id: old(store).spec_next_id(),
                        target_url: url@,
                        created_at: now,
                        deleted_at: None,
                    },
                )
                &&& final(store).spec_next_id() == old(store).spec_next_id() + 1
                &&& forall|i: int|
                    0 <= i < old(store)@.len() ==> #[trigger] old(store)@[i].id != old(
                        store,
                    ).spec_next_id()
            },
            Err(e) => {
                &&& final(store)@ == old(store)@
                &&& final(store).spec_next_id() == old(store).spec_next_id()
                &&& (e is BadRequest <==> url@.len() == 0)
                &&& (e is StorageFailure <==> url@.len() > 0)
            },
        },
{
    let echoed = url.clone();
    match store.create(url, now) {
        Ok(id) => Ok(record_json(id, echoed.as_str())),
        Err(e) => Err(e),
    }
}

/// The static JSON capability manifest the info endpoint serves.
pub open spec fn spec_info_json() -> Seq<char> {
    "{\"openapi\":\"3.0.0\",\"info\":{\"title\":\"QR Link Shortener API\",\"version\":\"1.0.0\"},\"paths\":{\"/{id}\":{\"get\":{\"summary\":\"Redirect to URL\"}},\"/{id}/qr\":{\"get\":{\"summary\":\"Return QR code\"}},\"/{id}/meta\":{\"get\":{\"summary\":\"Return metadata\"}},\"/\":{\"post\":{\"summary\":\"Create short URL\"}}}}"@
}

/// Serves the static capability manifest; building it cannot fail.
pub fn info_json() -> (r: String)
    ensures
        r@ == spec_info_json(),
{
    String::from_str(
        "{\"openapi\":\"3.0.0\",\"info\":{\"title\":\"QR Link Shortener API\",\"version\":\"1.0.0\"},\"paths\":{\"/{id}\":{\"get\":{\"summary\":\"Redirect to URL\"}},\"/{id}/qr\":{\"get\":{\"summary\":\"Return QR code\"}},\"/{id}/meta\":{\"get\":{\"summary\":\"Return metadata\"}},\"/\":{\"post\":{\"summary\":\"Create short URL\"}}}}",
    )
}

} // verus!
