use vstd::prelude::*;

verus! {

/// The zstd frame that holds `data` compressed at `level`, or `None` where
/// the encoder refuses.
pub uninterp spec fn zstd_frame(data: Seq<u8>, level: i32) -> Option<Seq<u8>>;

/// Compresses `data` into one zstd frame with `zstd::stream::encode_all`.
///
/// Nothing is proved of the encoder: the frame is only given a name, so that
/// what the library stores can be said to be exactly what the encoder returned
/// for these bytes at this level.
#[verifier::external_body]
pub(crate) fn encode(data: &Vec<u8>, level: i32) -> (r: Option<Vec<u8>>)
    ensures
        match r {
            Some(frame) => zstd_frame(data@, level) == Some(frame@),
            None => zstd_frame(data@, level) is None,
        },
{
    match zstd::stream::encode_all(data.as_slice(), level) {
        Ok(frame) => Some(frame),
        Err(_) => None,
    }
}

} // verus!
