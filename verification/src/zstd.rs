//! Compression with Zstandard, behind contracts that are trusted.
//!
//! Nothing here is proved: the contracts repeat what the documentation of
//! zstd says of its frames. What a frame holds gets a name,
//! [`zstd_content`]; the bytes of the frame itself get none.

use vstd::prelude::*;

verus! {

/// The bytes that decompression regenerates from `frame`: the content of its
/// zstd frames, one after the other. `None` where `frame` is not made of
/// whole, valid frames.
pub uninterp spec fn zstd_content(frame: Seq<u8>) -> Option<Seq<u8>>;

/// The room that zstd asks for to compress `size` bytes in one pass: the
/// size, a 256th of it, and a margin that shrinks to nothing at 128 KiB.
pub open spec fn compress_bound_of(size: nat) -> nat {
    let margin = if size < 131072 {
        (131072 - size) / 2048
    } else {
        0
    };
    (size + size / 256 + margin) as nat
}

/// `zstd_safe::compress_bound`: the most that a single-pass compression of
/// `src_size` bytes can take. Trusted: below 256 MiB, far from the sizes
/// that zstd refuses, it is the formula of `ZSTD_COMPRESSBOUND`.
pub assume_specification[ zstd_safe::compress_bound ](src_size: usize) -> (bound: usize)
    ensures
        src_size < 0x1000_0000 ==> bound == compress_bound_of(src_size as nat),
;

/// Compresses `source` at `level` into a frame, with room for `capacity`
/// bytes. Trusted, of `zstd_safe::compress`: a frame that comes back holds
/// `source`, for zstd is lossless; and with the room that
/// [`compress_bound_of`] gives, zstd has enough space and a frame does come
/// back. That memory could run out is left aside, as for every allocation.
#[verifier::external_body]
pub(crate) fn compress(source: &[u8], level: i32, capacity: usize) -> (result: Result<
    Vec<u8>,
    usize,
>)
    requires
        capacity <= isize::MAX,
    ensures
        result matches Ok(frame) ==> zstd_content(frame@) == Some(source@),
        capacity >= compress_bound_of(source@.len()) ==> result is Ok,
{
    let mut frame = Vec::with_capacity(capacity);
    match zstd_safe::compress(&mut frame, source, level) {
        Ok(_) => Ok(frame),
        Err(code) => Err(code),
    }
}

/// Decompresses `source` into at most `capacity` bytes. Trusted, of
/// `zstd_safe::decompress`: what comes back is the content of the frames of
/// `source`, never more than `capacity` bytes; and an error code comes back
/// only for what is not made of whole, valid frames or holds more than
/// `capacity` bytes. That memory could run out is left aside, as for every
/// allocation.
#[verifier::external_body]
pub(crate) fn decompress(source: &[u8], capacity: usize) -> (result: Result<Vec<u8>, usize>)
    ensures
        result matches Ok(content) ==> content@.len() <= capacity && zstd_content(source@) == Some(
            content@,
        ),
        result is Err ==> (zstd_content(source@) matches Some(content) ==> content.len()
            > capacity),
{
    let mut destination = vec![0u8; capacity];
    match zstd_safe::decompress(&mut destination[..], source) {
        Ok(size) => {
            destination.truncate(size);
            Ok(destination)
        },
        Err(code) => Err(code),
    }
}

} // verus!
