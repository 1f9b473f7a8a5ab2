//! Gzip compression of response bodies, through flate2.
use vstd::prelude::*;
use std::io::Write;
use flate2::write::GzEncoder;
use flate2::Compression;

verus! {

/// The gzip stream that flate2 writes for `b` at the default level, with the
/// default header (no file name, no time stamp).
pub uninterp spec fn gzip_of(b: Seq<u8>) -> Seq<u8>;

/// Relies on `flate2::write::GzEncoder` (`new` with `Compression::default()`,
/// `write_all`, `finish`): the stream it writes depends on the input alone.
/// Either step may report an I/O error, in which case nothing is returned.
#[verifier::external_body]
pub(crate) fn gzip_bytes(b: &[u8]) -> (r: Option<Vec<u8>>)
    ensures
        match r {
            Some(v) => v@ == gzip_of(b@),
            None => true,
        },
{
    let mut encoder = GzEncoder::new(Vec::new(), Compression::default());
    if encoder.write_all(b).is_err() {
        return None;
    }
    encoder.finish().ok()
}

} // verus!
