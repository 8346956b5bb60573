//! The storage envelope: one blob for one snapshot of a listing set.
//!
//! A blob is the zstd frame of a payload; the payload is the snapshot's
//! instant, eight bytes little-endian, followed by the encoded listing set.

use crate::listings::{
    decoded_listings, encoded_listings, lemma_encoded_records_len, lemma_listings_round_trip,
    read_listings, views, write_listings, Listing, ListingView, MAX_NUM_LISTINGS_PER_ITEM,
};
use crate::little_endian::{
    from_twos_complement, le_bytes, le_value, lemma_le_bytes_len, lemma_le_limits,
    lemma_le_value_of_bytes, lemma_twos_complement_round_trip, read_i64_at, twos_complement,
    write_i64,
};
use crate::zstd::{compress, decompress, zstd_content};
use vstd::prelude::*;

verus! {

/// The bytes of the instant at the head of a payload.
pub const TIMESTAMP_BYTES: usize = 8;

/// The longest payload that is ever stored: the instant, the count byte and
/// [`MAX_NUM_LISTINGS_PER_ITEM`] records.
pub const MAX_BYTES_PER_STORED_DATA: usize = 5209;

/// The zstd level of the blobs: the fastest of the regular levels.
pub const COMPRESSION_LEVEL: i32 = 1;

/// What can go wrong with a blob.
#[derive(Debug, PartialEq, Eq, Clone, Copy, Structural)]
pub enum Error {
    /// The blob does not decompress, or its payload is shorter than the
    /// instant at its head.
    CorruptEnvelope,
    /// The payload ends before the records that its count byte announces.
    TruncatedInput,
    /// More listings than a set may hold.
    TooManyListings,
    /// The compressor reported an error. With the room that zstd asks for
    /// it reports none.
    CompressionFailed,
}

/// The payload of a snapshot.
pub open spec fn payload_bytes(last_updated: i64, listings: Seq<ListingView>) -> Seq<u8> {
    le_bytes(twos_complement(last_updated), 8) + encoded_listings(listings)
}

/// The instant at the head of `payload`.
pub open spec fn payload_instant(payload: Seq<u8>) -> i64 {
    from_twos_complement(le_value(payload.subrange(0, 8))) as i64
}

/// The snapshot that `payload` spells, if it is whole.
pub open spec fn payload_snapshot(payload: Seq<u8>) -> Option<(i64, Seq<ListingView>)> {
    if payload.len() < 8 {
        None
    } else {
        match decoded_listings(payload.skip(8)) {
            Some(listings) => Some((payload_instant(payload), listings)),
            None => None,
        }
    }
}

/// The snapshot that `blob` holds: that of the payload in its frame, where
/// the payload is no longer than [`MAX_BYTES_PER_STORED_DATA`].
pub open spec fn stored_snapshot(blob: Seq<u8>) -> Option<(i64, Seq<ListingView>)> {
    match zstd_content(blob) {
        Some(payload) => if payload.len() <= MAX_BYTES_PER_STORED_DATA {
            payload_snapshot(payload)
        } else {
            None
        },
        None => None,
    }
}

/// What is wrong with a blob that holds no snapshot: its listing set ends
/// early where it has a frame with a payload of at least the instant and at
/// most [`MAX_BYTES_PER_STORED_DATA`] bytes, and its envelope is corrupt
/// otherwise.
pub open spec fn stored_failure(blob: Seq<u8>) -> Error {
    match zstd_content(blob) {
        Some(payload) => if 8 <= payload.len() <= MAX_BYTES_PER_STORED_DATA {
            Error::TruncatedInput
        } else {
            Error::CorruptEnvelope
        },
        None => Error::CorruptEnvelope,
    }
}

/// Envelope round trip, before compression: the payload of a snapshot of at
/// most [`MAX_NUM_LISTINGS_PER_ITEM`] records spells that snapshot, and is no
/// longer than [`MAX_BYTES_PER_STORED_DATA`].
pub proof fn lemma_payload_round_trip(last_updated: i64, listings: Seq<ListingView>)
    requires
        listings.len() <= MAX_NUM_LISTINGS_PER_ITEM,
        forall|i: int| 0 <= i < listings.len() ==> crate::listings::is_record(#[trigger] listings[i]),
    ensures
        payload_bytes(last_updated, listings).len() == 9 + 52 * listings.len(),
        payload_snapshot(payload_bytes(last_updated, listings)) == Some((last_updated, listings)),
{
    let payload = payload_bytes(last_updated, listings);
    let bits = twos_complement(last_updated);
    lemma_le_limits();
    lemma_twos_complement_round_trip(last_updated);
    lemma_le_bytes_len(bits, 8);
    lemma_le_value_of_bytes(bits, 8);
    lemma_encoded_records_len(listings);
    lemma_listings_round_trip(listings);
    assert(payload.subrange(0, 8) =~= le_bytes(bits, 8));
    assert(payload.skip(8) =~= encoded_listings(listings));
}

/// Envelope round trip: a blob whose frame holds the payload of a snapshot
/// holds that snapshot.
pub proof fn lemma_stored_round_trip(blob: Seq<u8>, last_updated: i64, listings: Seq<ListingView>)
    requires
        listings.len() <= MAX_NUM_LISTINGS_PER_ITEM,
        forall|i: int| 0 <= i < listings.len() ==> crate::listings::is_record(#[trigger] listings[i]),
        zstd_content(blob) == Some(payload_bytes(last_updated, listings)),
    ensures
        stored_snapshot(blob) == Some((last_updated, listings)),
{
    lemma_payload_round_trip(last_updated, listings);
}

/// Builds the payload of a snapshot: the instant, then the listing set.
pub fn stored_payload(last_updated: i64, listings: &[Listing]) -> (result: Result<Vec<u8>, Error>)
    ensures
        match result {
            Ok(payload) => {
                &&& listings@.len() <= MAX_NUM_LISTINGS_PER_ITEM
                &&& payload@ == payload_bytes(last_updated, views(listings@))
            },
            Err(e) => e == Error::TooManyListings && listings@.len() > MAX_NUM_LISTINGS_PER_ITEM,
        },
{
    if listings.len() > MAX_NUM_LISTINGS_PER_ITEM {
        return Err(Error::TooManyListings);
    }
    let mut payload: Vec<u8> = Vec::with_capacity(
        TIMESTAMP_BYTES + 1 + crate::listings::MAX_BYTES_PER_LISTING * listings.len(),
    );
    write_i64(&mut payload, last_updated);
    match write_listings(&mut payload, listings) {
        Ok(()) => Ok(payload),
        Err(_) => Err(Error::TooManyListings),
    }
}

/// Wraps a snapshot into a blob: the frame of its payload. A set of more
/// than [`MAX_NUM_LISTINGS_PER_ITEM`] listings is refused with
/// [`Error::TooManyListings`]; every other snapshot is wrapped, and the blob
/// holds exactly the snapshot that went in.
pub fn make_stored_data(last_updated: i64, listings: &[Listing]) -> (result: Result<Vec<u8>, Error>)
    ensures
        match result {
            Ok(blob) => {
                &&& listings@.len() <= MAX_NUM_LISTINGS_PER_ITEM
                &&& zstd_content(blob@) == Some(payload_bytes(last_updated, views(listings@)))
                &&& stored_snapshot(blob@) == Some((last_updated, views(listings@)))
            },
            Err(e) => e == Error::TooManyListings && listings@.len() > MAX_NUM_LISTINGS_PER_ITEM,
        },
{
    let payload = match stored_payload(last_updated, listings) {
        Ok(payload) => payload,
        Err(_) => {
            return Err(Error::TooManyListings);
        },
    };
    proof {
        lemma_payload_round_trip(last_updated, views(listings@));
    }
    let bound = zstd_safe::compress_bound(payload.len());
    let compressed = compress(payload.as_slice(), COMPRESSION_LEVEL, bound);
    proof {
        if compressed is Ok {
            lemma_stored_round_trip(compressed->Ok_0@, last_updated, views(listings@));
        }
    }
    seal_stored_data(compressed)
}

/// The blob that compression left, or the failure of the compressor.
pub fn seal_stored_data(compressed: Result<Vec<u8>, usize>) -> (result: Result<Vec<u8>, Error>)
    ensures
        match compressed {
            Ok(blob) => result == Ok::<Vec<u8>, Error>(blob),
            Err(_) => result == Err::<Vec<u8>, Error>(Error::CompressionFailed),
        },
{
    match compressed {
        Ok(blob) => Ok(blob),
        Err(_) => Err(Error::CompressionFailed),
    }
}

/// Reads the snapshot out of what decompression gave: an error code of the
/// decompressor and a payload shorter than its instant are a corrupt
/// envelope; a listing set that ends early is truncated input.
pub fn open_stored_data(decompressed: Result<Vec<u8>, usize>) -> (result: Result<
    (i64, Vec<Listing>),
    Error,
>)
    ensures
        match decompressed {
            Err(_) => result == Err::<(i64, Vec<Listing>), Error>(Error::CorruptEnvelope),
            Ok(payload) => match payload_snapshot(payload@) {
                Some((last_updated, listings)) => {
                    &&& result matches Ok((instant, back))
                    &&& instant == last_updated
                    &&& views(back@) == listings
                },
                None => {
                    &&& result matches Err(e)
                    &&& e == if payload@.len() < 8 {
                        Error::CorruptEnvelope
                    } else {
                        Error::TruncatedInput
                    }
                },
            },
        },
{
    let payload = match decompressed {
        Ok(payload) => payload,
        Err(_) => {
            return Err(Error::CorruptEnvelope);
        },
    };
    if payload.len() < TIMESTAMP_BYTES {
        return Err(Error::CorruptEnvelope);
    }
    let last_updated = read_i64_at(payload.as_slice(), 0);
    let rest = vstd::slice::slice_subrange(payload.as_slice(), TIMESTAMP_BYTES, payload.len());
    proof {
        assert(rest@ =~= payload@.skip(8));
    }
    match read_listings(rest) {
        Ok(listings) => Ok((last_updated, listings)),
        Err(_) => Err(Error::TruncatedInput),
    }
}

/// Unwraps a blob: the snapshot that it holds, whenever it holds one, and
/// [`stored_failure`] otherwise.
pub fn read_stored_data(compressed: &[u8]) -> (result: Result<(i64, Vec<Listing>), Error>)
    ensures
        match stored_snapshot(compressed@) {
            Some((last_updated, listings)) => {
                &&& result matches Ok((instant, back))
                &&& instant == last_updated
                &&& views(back@) == listings
            },
            None => result == Err::<(i64, Vec<Listing>), Error>(stored_failure(compressed@)),
        },
{
    open_stored_data(decompress(compressed, MAX_BYTES_PER_STORED_DATA))
}

} // verus!
