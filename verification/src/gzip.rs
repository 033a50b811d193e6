//! Content negotiation's compression step, done by the flate2 crate behind a
//! named result: the contracts of the echo handler speak of `gzip_of` and the
//! wrapper here is the one place that computes it.

use vstd::prelude::*;

verus! {

/// The gzip stream for `data` at the default compression level.
pub uninterp spec fn gzip_of(data: Seq<u8>) -> Seq<u8>;

/// Relies on flate2::read::GzEncoder over an in-memory slice, read to its
/// end with flate2::Compression::default(): the stream it yields depends on
/// the input bytes alone (the header it writes carries a zero timestamp and
/// a fixed operating-system byte), and compressing an in-memory slice does
/// not fail.
#[verifier::external_body]
pub(crate) fn gzip_compress(data: &[u8]) -> (r: Vec<u8>)
    ensures
        r@ == gzip_of(data@),
{
    let mut encoder = flate2::read::GzEncoder::new(data, flate2::Compression::default());
    let mut out: Vec<u8> = Vec::new();
    std::io::Read::read_to_end(&mut encoder, &mut out)
        .expect("compressing an in-memory slice does not fail");
    out
}

} // verus!
