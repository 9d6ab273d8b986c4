//! A small URL-shortener core: a store of target URLs keyed by numeric
//! identifiers, JSON rendering of the stored records, QR-code output in
//! text and raster form, and the mapping of failures to HTTP statuses.

pub mod api;
pub mod error;
pub mod qr;
pub mod store;
pub mod text;

pub use api::{create_response, info_json, meta_response, parse_format, qr_response, qr_response_for_url};
pub use error::Error;
pub use qr::{ascii_grid, render_qr, QrFormat, QrOutput, MAX_QR_SIZE};
pub use store::{RecordModel, UrlRecord, UrlStore};
pub use text::{json_escape, record_json, u64_to_decimal};
