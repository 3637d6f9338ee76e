//! Gzip compression of response bodies, through flate2.

use vstd::prelude::*;
use std::io::Write;
use flate2::write::GzEncoder;
use flate2::Compression;

verus! {

/// The gzip stream that flate2 produces for `data` at the default level.
pub uninterp spec fn gzip_of(data: Seq<u8>) -> Seq<u8>;

/// Relies on flate2's `GzEncoder::new`, `write_all` and `finish` over a `Vec`
/// at `Compression::default()`: the stream depends on the input bytes alone
/// (the header carries no time stamp and a fixed OS byte), and writing into a
/// `Vec` never fails (the deflate backend errs only on bad parameters or a
/// full output buffer, and the encoder drains its buffer into the `Vec`).
#[verifier::external_body]
fn gzip_compress(data: &[u8]) -> (r: Option<Vec<u8>>)
    ensures
        r is Some,
        r matches Some(z) ==> z@ == gzip_of(data@),
{
    let mut encoder = GzEncoder::new(Vec::new(), Compression::default());
    match encoder.write_all(data) {
        Ok(()) => encoder.finish().ok(),
        Err(_) => None,
    }
}

/// Compresses `data` into a gzip stream and returns it with its length.
pub fn get_gzip(data: &[u8]) -> (r: (Vec<u8>, usize))
    ensures
        r.0@ == gzip_of(data@),
        r.1 == r.0@.len(),
{
    let z = gzip_compress(data).unwrap();
    let len = z.len();
    (z, len)
}

} // verus!
