//! The listing record and the byte-exact codec of a listing set.
//!
//! A set is one count byte followed by that many records of
//! [`MAX_BYTES_PER_LISTING`] bytes. A record is, in this order and with every
//! number little-endian: flags (1), city (1), amount (2), price per unit (4),
//! dye (2), five materia slots (2 each), and the retainer name (32).

use crate::little_endian::{
    le_bytes, le_limit, le_value, lemma_le_bytes_len, lemma_le_bytes_of_value, lemma_le_limits,
    lemma_le_value_bound, lemma_le_value_of_bytes, read_u16_at, read_u32_at, write_u16, write_u32,
};
use vstd::prelude::*;
use vstd::utf8::{
    decode_utf8, encode_scalar, encode_utf8, encode_utf8_decode_utf8, encode_utf8_valid_utf8,
    valid_utf8,
};

verus! {

pub const MAX_NUM_LISTINGS_PER_ITEM: usize = 100;

pub const MAX_BYTES_PER_LISTING: usize = 52;

pub const MAX_BYTES_PER_LISTINGS: usize = MAX_BYTES_PER_LISTING * MAX_NUM_LISTINGS_PER_ITEM + 1;

/// The number of materia slots of a record.
pub const MAX_NUM_MATERIA_PER_ITEM: usize = 5;

/// The width of the retainer name buffer of a record.
pub const MAX_RETAINER_NAME_LENGTH: usize = 32;

/// What the codec refuses.
#[derive(Debug, PartialEq, Eq, Clone, Copy, Structural)]
pub enum Error {
    /// The bytes end before the records that the count byte announces.
    TruncatedInput,
    /// More listings than a set may hold.
    TooManyListings,
}

/// The listing is of high quality.
pub const IS_HQ: u8 = 0b0000_0001;

/// The listing was crafted.
pub const IS_CRAFTED: u8 = 0b0000_0010;

/// The listing is shown on a mannequin.
pub const IS_ON_MANNEQUIN: u8 = 0b0000_0100;

/// Whether every bit of `mask` is set in `bits`.
pub open spec fn has_bits(bits: u8, mask: u8) -> bool {
    bits & mask == mask
}

/// The bits of a listing with these three attributes: each attribute is its
/// own bit.
pub open spec fn flag_bits(is_hq: bool, is_crafted: bool, is_on_mannequin: bool) -> u8 {
    (if is_hq {
        IS_HQ
    } else {
        0u8
    }) | (if is_crafted {
        IS_CRAFTED
    } else {
        0u8
    }) | (if is_on_mannequin {
        IS_ON_MANNEQUIN
    } else {
        0u8
    })
}

/// The attributes of a listing, one bit each. Bits without a meaning are
/// carried along untouched.
#[derive(Debug, PartialEq, Eq, Clone, Copy, Default, Structural)]
pub struct ListingFlags {
    pub bits: u8,
}

impl View for ListingFlags {
    type V = u8;

    open spec fn view(&self) -> u8 {
        self.bits
    }
}

impl ListingFlags {
    /// Whether every bit of `mask` is set.
    pub open spec fn has(self, mask: u8) -> bool {
        has_bits(self.bits, mask)
    }

    /// The flags of a listing with these three attributes and no other bit.
    pub fn new(is_hq: bool, is_crafted: bool, is_on_mannequin: bool) -> (flags: ListingFlags)
        ensures
            flags@ == flag_bits(is_hq, is_crafted, is_on_mannequin),
    {
        let hq: u8 = if is_hq {
            IS_HQ
        } else {
            0
        };
        let crafted: u8 = if is_crafted {
            IS_CRAFTED
        } else {
            0
        };
        let on_mannequin: u8 = if is_on_mannequin {
            IS_ON_MANNEQUIN
        } else {
            0
        };
        ListingFlags { bits: hq | crafted | on_mannequin }
    }

    pub fn is_hq(&self) -> (held: bool)
        ensures
            held == self.has(IS_HQ),
    {
        self.contains(IS_HQ)
    }

    pub fn is_crafted(&self) -> (held: bool)
        ensures
            held == self.has(IS_CRAFTED),
    {
        self.contains(IS_CRAFTED)
    }

    pub fn is_on_mannequin(&self) -> (held: bool)
        ensures
            held == self.has(IS_ON_MANNEQUIN),
    {
        self.contains(IS_ON_MANNEQUIN)
    }

    /// No attribute.
    pub fn empty() -> (flags: ListingFlags)
        ensures
            flags@ == 0,
    {
        ListingFlags { bits: 0 }
    }

    /// The three attributes that have a meaning.
    pub fn all() -> (flags: ListingFlags)
        ensures
            flags@ == IS_HQ | IS_CRAFTED | IS_ON_MANNEQUIN,
    {
        ListingFlags { bits: IS_HQ | IS_CRAFTED | IS_ON_MANNEQUIN }
    }

    /// The flags with exactly the bits of `bits`, known or not.
    pub fn from_bits_retain(bits: u8) -> (flags: ListingFlags)
        ensures
            flags@ == bits,
    {
        ListingFlags { bits }
    }

    pub fn bits(&self) -> (bits: u8)
        ensures
            bits == self@,
    {
        self.bits
    }

    pub fn contains(&self, mask: u8) -> (held: bool)
        ensures
            held == self.has(mask),
    {
        self.bits & mask == mask
    }

    /// The flags that are set in `self` or in `other`.
    pub fn union(self, other: ListingFlags) -> (flags: ListingFlags)
        ensures
            flags@ == self@ | other@,
    {
        ListingFlags { bits: self.bits | other.bits }
    }
}

/// A single listing for an item.
#[derive(Debug, PartialEq, Eq, Clone, Copy, Default)]
pub struct Listing {
    pub flags: ListingFlags,
    pub city: u8,
    pub dye_id: u16,
    pub materia_ids: [u16; 5],
    pub amount: u16,
    pub price_per_unit: u32,
    pub retainer_name: [u8; 32],
}

/// A listing as plain values: the model that the contracts speak of.
pub struct ListingView {
    pub flags: u8,
    pub city: u8,
    pub dye_id: u16,
    pub materia_ids: Seq<u16>,
    pub amount: u16,
    pub price_per_unit: u32,
    pub retainer_name: Seq<u8>,
}

impl View for Listing {
    type V = ListingView;

    open spec fn view(&self) -> ListingView {
        ListingView {
            flags: self.flags@,
            city: self.city,
            dye_id: self.dye_id,
            materia_ids: self.materia_ids@,
            amount: self.amount,
            price_per_unit: self.price_per_unit,
            retainer_name: self.retainer_name@,
        }
    }
}

/// Whether `v` has the fixed widths of a record: five materia slots and a
/// name buffer of 32 bytes. The view of every `Listing` has them.
pub open spec fn is_record(v: ListingView) -> bool {
    v.materia_ids.len() == 5 && v.retainer_name.len() == 32
}

/// The views of a sequence of listings.
pub open spec fn views(listings: Seq<Listing>) -> Seq<ListingView> {
    Seq::new(listings.len(), |i: int| listings[i]@)
}

/// The ten bytes of five materia slots.
pub open spec fn encoded_materia(ids: Seq<u16>) -> Seq<u8> {
    le_bytes(ids[0] as nat, 2) + le_bytes(ids[1] as nat, 2) + le_bytes(ids[2] as nat, 2)
        + le_bytes(ids[3] as nat, 2) + le_bytes(ids[4] as nat, 2)
}

/// The bytes of one record.
pub open spec fn encoded_listing(v: ListingView) -> Seq<u8> {
    seq![v.flags, v.city] + le_bytes(v.amount as nat, 2) + le_bytes(v.price_per_unit as nat, 4)
        + le_bytes(v.dye_id as nat, 2) + encoded_materia(v.materia_ids) + v.retainer_name
}

/// The bytes of the records of `listings`, one after the other.
pub open spec fn encoded_records(listings: Seq<ListingView>) -> Seq<u8>
    decreases listings.len(),
{
    if listings.len() == 0 {
        Seq::empty()
    } else {
        encoded_records(listings.drop_last()) + encoded_listing(listings.last())
    }
}

/// The bytes of a listing set: the count, then the records.
pub open spec fn encoded_listings(listings: Seq<ListingView>) -> Seq<u8> {
    seq![listings.len() as u8] + encoded_records(listings)
}

/// The record that 52 bytes spell.
pub open spec fn decoded_listing(bytes: Seq<u8>) -> ListingView {
    ListingView {
        flags: bytes[0],
        city: bytes[1],
        amount: le_value(bytes.subrange(2, 4)) as u16,
        price_per_unit: le_value(bytes.subrange(4, 8)) as u32,
        dye_id: le_value(bytes.subrange(8, 10)) as u16,
        materia_ids: Seq::new(5, |i: int| le_value(bytes.subrange(10 + 2 * i, 12 + 2 * i)) as u16),
        retainer_name: bytes.subrange(20, 52),
    }
}

/// The number of bytes that the count byte of `bytes` asks for, the count
/// byte included; 1 where there is no byte at all.
pub open spec fn implied_len(bytes: Seq<u8>) -> int {
    if bytes.len() == 0 {
        1
    } else {
        1 + 52 * bytes[0]
    }
}

/// The listing set that `bytes` spell, if they reach as far as their count
/// byte says. Bytes behind the last record are not looked at.
pub open spec fn decoded_listings(bytes: Seq<u8>) -> Option<Seq<ListingView>> {
    if bytes.len() < implied_len(bytes) {
        None
    } else {
        Some(
            Seq::new(
                bytes[0] as nat,
                |i: int| decoded_listing(bytes.subrange(1 + 52 * i, 53 + 52 * i)),
            ),
        )
    }
}

/// Appends the 52 bytes of `listing` to `buffer`.
pub fn write_listing(buffer: &mut Vec<u8>, listing: &Listing)
    ensures
        final(buffer)@ == old(buffer)@ + encoded_listing(listing@),
{
    buffer.push(listing.flags.bits());
    buffer.push(listing.city);
    write_u16(buffer, listing.amount);
    write_u32(buffer, listing.price_per_unit);
    write_u16(buffer, listing.dye_id);
    let ghost before_materia = buffer@;
    for slot in 0..5usize
        invariant
            buffer@ == before_materia + encoded_materia_prefix(listing.materia_ids@, slot as int),
    {
        write_u16(buffer, listing.materia_ids[slot]);
    }
    buffer.extend_from_slice(&listing.retainer_name);
    proof {
        reveal_with_fuel(encoded_materia_prefix, 6);
        assert(encoded_materia_prefix(listing.materia_ids@, 5) =~= encoded_materia(
            listing.materia_ids@,
        ));
        assert(buffer@ =~= old(buffer)@ + encoded_listing(listing@));
    }
}

/// Writes the count byte and the records of `listings` behind what `buffer`
/// holds. More than [`MAX_NUM_LISTINGS_PER_ITEM`] listings are refused, and
/// `buffer` is then left as it was.
pub fn write_listings(buffer: &mut Vec<u8>, listings: &[Listing]) -> (result: Result<(), Error>)
    ensures
        match result {
            Ok(()) => {
                &&& listings@.len() <= MAX_NUM_LISTINGS_PER_ITEM
                &&& final(buffer)@ == old(buffer)@ + encoded_listings(views(listings@))
            },
            Err(e) => {
                &&& e == Error::TooManyListings
                &&& listings@.len() > MAX_NUM_LISTINGS_PER_ITEM
                &&& final(buffer)@ == old(buffer)@
            },
        },
{
    let count = listings.len();
    if count > MAX_NUM_LISTINGS_PER_ITEM {
        return Err(Error::TooManyListings);
    }
    buffer.push(count as u8);
    let ghost all = views(listings@);
    proof {
        assert(all.take(0) =~= Seq::<ListingView>::empty());
    }
    for i in 0..count
        invariant
            count == listings@.len(),
            all == views(listings@),
            buffer@ == old(buffer)@ + seq![count as u8] + encoded_records(all.take(i as int)),
    {
        write_listing(buffer, &listings[i]);
        proof {
            let next = all.take(i + 1);
            assert(next.drop_last() =~= all.take(i as int));
            assert(next.last() == listings@[i as int]@);
        }
    }
    proof {
        assert(all.take(count as int) =~= all);
        assert(buffer@ =~= old(buffer)@ + encoded_listings(all));
    }
    Ok(())
}

/// The bytes of the first `n` materia slots.
spec fn encoded_materia_prefix(ids: Seq<u16>, n: int) -> Seq<u8>
    decreases n,
{
    if n <= 0 {
        Seq::empty()
    } else {
        encoded_materia_prefix(ids, n - 1) + le_bytes(ids[n - 1] as nat, 2)
    }
}

/// Reads the record that starts at `at`.
pub fn read_listing(bytes: &[u8], at: usize) -> (listing: Listing)
    requires
        at + MAX_BYTES_PER_LISTING <= bytes@.len(),
    ensures
        listing@ == decoded_listing(bytes@.subrange(at as int, at + MAX_BYTES_PER_LISTING)),
{
    let ghost record = bytes@.subrange(at as int, at + 52);
    let flags = ListingFlags::from_bits_retain(bytes[at]);
    let city = bytes[at + 1];
    let amount = read_u16_at(bytes, at + 2);
    let price_per_unit = read_u32_at(bytes, at + 4);
    let dye_id = read_u16_at(bytes, at + 8);
    proof {
        assert(bytes@.subrange(at + 2, at + 4) =~= record.subrange(2, 4));
        assert(bytes@.subrange(at + 4, at + 8) =~= record.subrange(4, 8));
        assert(bytes@.subrange(at + 8, at + 10) =~= record.subrange(8, 10));
    }
    let mut materia_ids = [0u16;5];
    for slot in 0..5usize
        invariant
            at + 52 <= bytes@.len() <= usize::MAX,
            record == bytes@.subrange(at as int, at + 52),
            forall|k: int|
                0 <= k < slot ==> materia_ids@[k] == le_value(
                    record.subrange(10 + 2 * k, 12 + 2 * k),
                ) as u16,
    {
        let id = read_u16_at(bytes, at + 10 + 2 * slot);
        proof {
            assert(bytes@.subrange(at + 10 + 2 * slot, at + 10 + 2 * slot + 2) =~= record.subrange(
                10 + 2 * slot,
                12 + 2 * slot,
            ));
        }
        materia_ids[slot] = id;
    }
    let mut retainer_name = [0u8;32];
    for k in 0..32usize
        invariant
            at + 52 <= bytes@.len() <= usize::MAX,
            forall|j: int| 0 <= j < k ==> retainer_name@[j] == bytes@[at + 20 + j],
    {
        retainer_name[k] = bytes[at + 20 + k];
    }
    let listing = Listing {
        flags,
        city,
        dye_id,
        materia_ids,
        amount,
        price_per_unit,
        retainer_name,
    };
    proof {
        let spelled = decoded_listing(record);
        assert(listing@.materia_ids =~= spelled.materia_ids);
        assert(listing@.retainer_name =~= spelled.retainer_name);
    }
    listing
}

/// Reads a listing set from the start of `buffer`. Fails with
/// [`Error::TruncatedInput`] exactly when `buffer` is shorter than its count
/// byte asks for; what stands behind the last record is left unread.
pub fn read_listings(buffer: &[u8]) -> (result: Result<Vec<Listing>, Error>)
    ensures
        match result {
            Ok(listings) => decoded_listings(buffer@) == Some(views(listings@)),
            Err(e) => e == Error::TruncatedInput && decoded_listings(buffer@) is None,
        },
        result is Err <==> buffer@.len() < implied_len(buffer@),
{
    if buffer.len() < 1 {
        return Err(Error::TruncatedInput);
    }
    let count = buffer[0] as usize;
    if buffer.len() < 1 + MAX_BYTES_PER_LISTING * count {
        return Err(Error::TruncatedInput);
    }
    let mut listings: Vec<Listing> = Vec::with_capacity(count);
    for i in 0..count
        invariant
            count == buffer@[0],
            1 + 52 * count <= buffer@.len() <= usize::MAX,
            listings@.len() == i,
            forall|k: int|
                0 <= k < i ==> (#[trigger] listings@[k])@ == decoded_listing(
                    buffer@.subrange(1 + 52 * k, 53 + 52 * k),
                ),
    {
        let listing = read_listing(buffer, 1 + MAX_BYTES_PER_LISTING * i);
        listings.push(listing);
    }
    proof {
        assert(views(listings@) =~= decoded_listings(buffer@).unwrap());
    }
    Ok(listings)
}

/// A record takes [`MAX_BYTES_PER_LISTING`] bytes.
pub proof fn lemma_encoded_listing_len(v: ListingView)
    requires
        is_record(v),
    ensures
        encoded_listing(v).len() == 52,
{
    lemma_le_bytes_len(v.amount as nat, 2);
    lemma_le_bytes_len(v.price_per_unit as nat, 4);
    lemma_le_bytes_len(v.dye_id as nat, 2);
    lemma_encoded_materia_len(v.materia_ids);
}

proof fn lemma_encoded_materia_len(ids: Seq<u16>)
    ensures
        encoded_materia(ids).len() == 10,
{
    lemma_le_bytes_len(ids[0] as nat, 2);
    lemma_le_bytes_len(ids[1] as nat, 2);
    lemma_le_bytes_len(ids[2] as nat, 2);
    lemma_le_bytes_len(ids[3] as nat, 2);
    lemma_le_bytes_len(ids[4] as nat, 2);
}

/// The records of `n` listings take `52 * n` bytes.
pub proof fn lemma_encoded_records_len(listings: Seq<ListingView>)
    requires
        forall|i: int| 0 <= i < listings.len() ==> is_record(#[trigger] listings[i]),
    ensures
        encoded_records(listings).len() == 52 * listings.len(),
    decreases listings.len(),
{
    if listings.len() > 0 {
        lemma_encoded_records_len(listings.drop_last());
        lemma_encoded_listing_len(listings.last());
    }
}

/// The `i`-th record of a set stands at `52 * i` among the records.
pub proof fn lemma_encoded_record_at(listings: Seq<ListingView>, i: int)
    requires
        forall|k: int| 0 <= k < listings.len() ==> is_record(#[trigger] listings[k]),
        0 <= i < listings.len(),
    ensures
        encoded_records(listings).subrange(52 * i, 52 * i + 52) == encoded_listing(listings[i]),
    decreases listings.len(),
{
    let front = listings.drop_last();
    lemma_encoded_records_len(front);
    lemma_encoded_listing_len(listings.last());
    if i == listings.len() - 1 {
        assert(encoded_records(listings).subrange(52 * i, 52 * i + 52) =~= encoded_listing(
            listings.last(),
        ));
    } else {
        lemma_encoded_record_at(front, i);
        assert(encoded_records(listings).subrange(52 * i, 52 * i + 52) =~= encoded_records(
            front,
        ).subrange(52 * i, 52 * i + 52));
    }
}

/// Decoding the bytes of a record gives the record: every field, all five
/// materia slots and the whole name buffer.
pub proof fn lemma_listing_round_trip(v: ListingView)
    requires
        is_record(v),
    ensures
        decoded_listing(encoded_listing(v)) == v,
{
    let bytes = encoded_listing(v);
    let back = decoded_listing(bytes);
    lemma_le_limits();
    lemma_le_bytes_len(v.amount as nat, 2);
    lemma_le_bytes_len(v.price_per_unit as nat, 4);
    lemma_le_bytes_len(v.dye_id as nat, 2);
    lemma_encoded_materia_len(v.materia_ids);
    lemma_le_value_of_bytes(v.amount as nat, 2);
    lemma_le_value_of_bytes(v.price_per_unit as nat, 4);
    lemma_le_value_of_bytes(v.dye_id as nat, 2);
    assert(bytes.subrange(2, 4) =~= le_bytes(v.amount as nat, 2));
    assert(bytes.subrange(4, 8) =~= le_bytes(v.price_per_unit as nat, 4));
    assert(bytes.subrange(8, 10) =~= le_bytes(v.dye_id as nat, 2));
    assert(bytes.subrange(10, 20) =~= encoded_materia(v.materia_ids));
    assert forall|i: int| 0 <= i < 5 implies back.materia_ids[i] == v.materia_ids[i] by {
        lemma_materia_slot(v.materia_ids, i);
        assert(bytes.subrange(10 + 2 * i, 12 + 2 * i) =~= bytes.subrange(10, 20).subrange(
            2 * i,
            2 * i + 2,
        ));
        lemma_le_value_of_bytes(v.materia_ids[i] as nat, 2);
    }
    assert(back.materia_ids =~= v.materia_ids);
    assert(back.retainer_name =~= v.retainer_name);
}

proof fn lemma_materia_slot(ids: Seq<u16>, i: int)
    requires
        0 <= i < 5,
    ensures
        encoded_materia(ids).subrange(2 * i, 2 * i + 2) == le_bytes(ids[i] as nat, 2),
{
    lemma_le_bytes_len(ids[0] as nat, 2);
    lemma_le_bytes_len(ids[1] as nat, 2);
    lemma_le_bytes_len(ids[2] as nat, 2);
    lemma_le_bytes_len(ids[3] as nat, 2);
    lemma_le_bytes_len(ids[4] as nat, 2);
    assert(encoded_materia(ids).subrange(2 * i, 2 * i + 2) =~= le_bytes(ids[i] as nat, 2));
}

/// Encoding the record that 52 bytes spell gives the same 52 bytes.
pub proof fn lemma_listing_bytes_round_trip(bytes: Seq<u8>)
    requires
        bytes.len() == 52,
    ensures
        is_record(decoded_listing(bytes)),
        encoded_listing(decoded_listing(bytes)) == bytes,
{
    let v = decoded_listing(bytes);
    lemma_le_limits();
    lemma_spelled_back(bytes.subrange(2, 4));
    lemma_spelled_back(bytes.subrange(4, 8));
    lemma_spelled_back(bytes.subrange(8, 10));
    lemma_spelled_back(bytes.subrange(10, 12));
    lemma_spelled_back(bytes.subrange(12, 14));
    lemma_spelled_back(bytes.subrange(14, 16));
    lemma_spelled_back(bytes.subrange(16, 18));
    lemma_spelled_back(bytes.subrange(18, 20));
    assert(v.materia_ids[0] == le_value(bytes.subrange(10, 12)) as u16);
    assert(v.materia_ids[1] == le_value(bytes.subrange(12, 14)) as u16);
    assert(v.materia_ids[2] == le_value(bytes.subrange(14, 16)) as u16);
    assert(v.materia_ids[3] == le_value(bytes.subrange(16, 18)) as u16);
    assert(v.materia_ids[4] == le_value(bytes.subrange(18, 20)) as u16);
    assert(encoded_materia(v.materia_ids) =~= bytes.subrange(10, 20));
    assert(encoded_listing(v) =~= bytes);
}

/// Writing, at the width of `bytes`, the number that `bytes` spell gives
/// `bytes`, and the number is below the limit of that width.
proof fn lemma_spelled_back(bytes: Seq<u8>)
    ensures
        le_value(bytes) < le_limit(bytes.len()),
        le_bytes(le_value(bytes), bytes.len()) == bytes,
{
    lemma_le_value_bound(bytes);
    lemma_le_bytes_of_value(bytes);
}

/// Round trip: decoding the bytes of a listing set of at most
/// [`MAX_NUM_LISTINGS_PER_ITEM`] records gives the same records again.
pub proof fn lemma_listings_round_trip(listings: Seq<ListingView>)
    requires
        listings.len() <= MAX_NUM_LISTINGS_PER_ITEM,
        forall|i: int| 0 <= i < listings.len() ==> is_record(#[trigger] listings[i]),
    ensures
        decoded_listings(encoded_listings(listings)) == Some(listings),
{
    let bytes = encoded_listings(listings);
    let records = encoded_records(listings);
    lemma_encoded_records_len(listings);
    let back = decoded_listings(bytes).unwrap();
    assert forall|i: int| 0 <= i < listings.len() implies back[i] == listings[i] by {
        lemma_encoded_record_at(listings, i);
        assert(bytes.subrange(1 + 52 * i, 53 + 52 * i) =~= records.subrange(52 * i, 52 * i + 52));
        lemma_listing_round_trip(listings[i]);
    }
    assert(back =~= listings);
}

/// Round trip for listings as they are held in memory: the bytes of a set of
/// at most [`MAX_NUM_LISTINGS_PER_ITEM`] listings decode to that set, and to
/// no other: every field, slot and name byte comes back.
pub proof fn lemma_round_trip(listings: Seq<Listing>)
    requires
        listings.len() <= MAX_NUM_LISTINGS_PER_ITEM,
    ensures
        decoded_listings(encoded_listings(views(listings))) == Some(views(listings)),
        forall|back: Seq<Listing>|
            decoded_listings(encoded_listings(views(listings))) == Some(#[trigger] views(back))
                ==> back == listings,
{
    lemma_listings_round_trip(views(listings));
    assert forall|back: Seq<Listing>|
        decoded_listings(encoded_listings(views(listings))) == Some(
            #[trigger] views(back),
        ) implies back == listings by {
        lemma_views_injective(back, listings);
    }
}

/// Two listings with the same view are the same listing.
pub proof fn lemma_view_injective(a: Listing, b: Listing)
    requires
        a@ == b@,
    ensures
        a == b,
{
    assert(a.materia_ids =~= b.materia_ids);
    assert(a.retainer_name =~= b.retainer_name);
    assert(a.flags == b.flags);
}

/// Two sequences of listings with the same views are the same sequence.
pub proof fn lemma_views_injective(a: Seq<Listing>, b: Seq<Listing>)
    requires
        views(a) == views(b),
    ensures
        a == b,
{
    assert(a.len() == views(a).len());
    assert(b.len() == views(b).len());
    assert forall|i: int| 0 <= i < a.len() implies a[i] == b[i] by {
        assert(views(a)[i] == a[i]@);
        assert(views(b)[i] == b[i]@);
        lemma_view_injective(a[i], b[i]);
    }
    assert(a =~= b);
}

/// Re-encoding: the bytes of a decoded set are, byte for byte, the bytes it
/// was decoded from, up to the end of the last record.
pub proof fn lemma_bytes_round_trip(bytes: Seq<u8>)
    requires
        decoded_listings(bytes) is Some,
    ensures
        encoded_listings(decoded_listings(bytes).unwrap()) == bytes.subrange(
            0,
            implied_len(bytes),
        ),
{
    let listings = decoded_listings(bytes).unwrap();
    let count = bytes[0] as int;
    lemma_records_spelled(bytes, count);
    assert(listings.take(count) =~= listings);
    assert(encoded_listings(listings) =~= bytes.subrange(0, implied_len(bytes)));
}

/// The first `n` decoded records encode to the bytes they were decoded from.
proof fn lemma_records_spelled(bytes: Seq<u8>, n: int)
    requires
        decoded_listings(bytes) is Some,
        0 <= n <= bytes[0],
    ensures
        encoded_records(decoded_listings(bytes).unwrap().take(n)) == bytes.subrange(1, 1 + 52 * n),
    decreases n,
{
    let listings = decoded_listings(bytes).unwrap();
    if n == 0 {
        assert(encoded_records(listings.take(0)) =~= bytes.subrange(1, 1));
    } else {
        lemma_records_spelled(bytes, n - 1);
        let record = bytes.subrange(1 + 52 * (n - 1), 53 + 52 * (n - 1));
        lemma_listing_bytes_round_trip(record);
        assert(listings.take(n).drop_last() =~= listings.take(n - 1));
        assert(listings.take(n).last() == decoded_listing(record));
        assert(encoded_records(listings.take(n)) =~= bytes.subrange(1, 1 + 52 * n));
    }
}

/// Truncation: bytes that end before the records that their count byte
/// announces spell no listing set.
pub proof fn lemma_truncated_is_refused(bytes: Seq<u8>)
    requires
        bytes.len() < implied_len(bytes),
    ensures
        decoded_listings(bytes) is None,
{
}

/// The three attributes are independent: each can be read back from the bits
/// that [`flag_bits`] packs, whatever the other two are.
pub proof fn lemma_flag_bits(is_hq: bool, is_crafted: bool, is_on_mannequin: bool)
    ensures
        has_bits(flag_bits(is_hq, is_crafted, is_on_mannequin), IS_HQ) == is_hq,
        has_bits(flag_bits(is_hq, is_crafted, is_on_mannequin), IS_CRAFTED) == is_crafted,
        has_bits(flag_bits(is_hq, is_crafted, is_on_mannequin), IS_ON_MANNEQUIN) == is_on_mannequin,
{
    assert(forall|a: u8, b: u8, c: u8|
        (a == 0 || a == 1) && (b == 0 || b == 2) && (c == 0 || c == 4) ==> {
            &&& ((a | b | c) & 1 == 1) == (a == 1)
            &&& ((a | b | c) & 2 == 2) == (b == 2)
            &&& ((a | b | c) & 4 == 4) == (c == 4)
        }) by (bit_vector);
}

/// Bits without a meaning do not disturb the three attributes.
pub proof fn lemma_unknown_bits_ignored(bits: u8, extra: u8)
    requires
        extra & (IS_HQ | IS_CRAFTED | IS_ON_MANNEQUIN) == 0,
    ensures
        has_bits(bits | extra, IS_HQ) == has_bits(bits, IS_HQ),
        has_bits(bits | extra, IS_CRAFTED) == has_bits(bits, IS_CRAFTED),
        has_bits(bits | extra, IS_ON_MANNEQUIN) == has_bits(bits, IS_ON_MANNEQUIN),
{
    assert(extra & (1u8 | 2u8 | 4u8) == 0 ==> {
        &&& (((bits | extra) & 1) == 1) == ((bits & 1) == 1)
        &&& (((bits | extra) & 2) == 2) == ((bits & 2) == 2)
        &&& (((bits | extra) & 4) == 4) == ((bits & 4) == 4)
    }) by (bit_vector);
}

/// The name buffer of a record that is made from `name`: its first 32 bytes,
/// then zeros.
pub open spec fn name_buffer(name: Seq<u8>) -> Seq<u8> {
    Seq::new(
        32,
        |i: int|
            if i < name.len() {
                name[i]
            } else {
                0u8
            },
    )
}

/// The number of bytes of `buffer` before its first zero byte; its length
/// where it has none.
pub open spec fn text_len(buffer: Seq<u8>) -> nat
    decreases buffer.len(),
{
    if buffer.len() == 0 || buffer[0] == 0 {
        0
    } else {
        1 + text_len(buffer.drop_first())
    }
}

/// The bytes of the name in `buffer`: those before the first zero byte, or
/// all of them.
pub open spec fn text_bytes(buffer: Seq<u8>) -> Seq<u8> {
    buffer.take(text_len(buffer) as int)
}

/// The name in `buffer` as text, where its bytes are valid UTF-8.
pub open spec fn retainer_text(buffer: Seq<u8>) -> Option<Seq<char>> {
    if valid_utf8(text_bytes(buffer)) {
        Some(decode_utf8(text_bytes(buffer)))
    } else {
        None
    }
}

/// `text_len` is where the first zero byte stands.
pub proof fn lemma_text_len(buffer: Seq<u8>)
    ensures
        text_len(buffer) <= buffer.len(),
        forall|i: int| 0 <= i < text_len(buffer) ==> buffer[i] != 0,
        text_len(buffer) < buffer.len() ==> buffer[text_len(buffer) as int] == 0,
    decreases buffer.len(),
{
    if buffer.len() > 0 && buffer[0] != 0 {
        let rest = buffer.drop_first();
        lemma_text_len(rest);
        assert forall|i: int| 0 <= i < text_len(buffer) implies buffer[i] != 0 by {
            if i > 0 {
                assert(buffer[i] == rest[i - 1]);
            }
        }
        if text_len(buffer) < buffer.len() {
            assert(buffer[text_len(buffer) as int] == rest[text_len(rest) as int]);
        }
    }
}

/// A place with no zero byte before it, and with a zero byte or the end of
/// `buffer` at it, is `text_len`.
pub proof fn lemma_text_len_is(buffer: Seq<u8>, n: int)
    requires
        0 <= n <= buffer.len(),
        forall|i: int| 0 <= i < n ==> buffer[i] != 0,
        n < buffer.len() ==> buffer[n] == 0,
    ensures
        text_len(buffer) == n,
{
    lemma_text_len(buffer);
    let found = text_len(buffer) as int;
    if found < n {
        assert(buffer[found] == 0);
    } else if n < found {
        assert(buffer[n] == 0);
    }
}

/// Name truncation: a name longer than the buffer is cut to exactly the
/// width of the buffer; a name that fits is followed by zeros only.
pub proof fn lemma_name_buffer(name: Seq<u8>)
    ensures
        name_buffer(name).len() == 32,
        name.len() >= 32 ==> name_buffer(name) == name.take(32),
        name.len() <= 32 ==> name_buffer(name) == name + Seq::new(
            (32 - name.len()) as nat,
            |i: int| 0u8,
        ),
{
    if name.len() >= 32 {
        assert(name_buffer(name) =~= name.take(32));
    }
    if name.len() <= 32 {
        assert(name_buffer(name) =~= name + Seq::new((32 - name.len()) as nat, |i: int| 0u8));
    }
}

/// The bytes of a name that fits and holds no zero byte are read back from
/// its buffer as they were.
pub proof fn lemma_text_of_name_buffer(name: Seq<u8>)
    requires
        name.len() <= 32,
        forall|i: int| 0 <= i < name.len() ==> name[i] != 0,
    ensures
        text_bytes(name_buffer(name)) == name,
{
    let buffer = name_buffer(name);
    lemma_text_len_is(buffer, name.len() as int);
    assert(text_bytes(buffer) =~= name);
}

/// The UTF-8 bytes of a text without the character NUL hold no zero byte.
pub proof fn lemma_utf8_without_zero(text: Seq<char>)
    requires
        forall|i: int| 0 <= i < text.len() ==> text[i] as u32 != 0,
    ensures
        forall|j: int| 0 <= j < encode_utf8(text).len() ==> encode_utf8(text)[j] != 0,
    decreases text.len(),
{
    if text.len() > 0 {
        let scalar = text[0] as u32;
        let head = encode_scalar(scalar);
        let rest = text.drop_first();
        lemma_utf8_without_zero(rest);
        assert(scalar != 0);
        assert(scalar <= 0x7F && scalar != 0 ==> (scalar & 0x7F) as u8 != 0) by (bit_vector);
        assert(0xC0u8 | ((scalar >> 6) & 0x1F) as u8 != 0) by (bit_vector);
        assert(0xE0u8 | ((scalar >> 12) & 0x0F) as u8 != 0) by (bit_vector);
        assert(0xF0u8 | ((scalar >> 18) & 0x7) as u8 != 0) by (bit_vector);
        assert(0x80u8 | (scalar & 0x3F) as u8 != 0) by (bit_vector);
        assert(0x80u8 | ((scalar >> 6) & 0x3F) as u8 != 0) by (bit_vector);
        assert(0x80u8 | ((scalar >> 12) & 0x3F) as u8 != 0) by (bit_vector);
        assert forall|j: int| 0 <= j < head.len() implies head[j] != 0 by {}
        assert forall|j: int| 0 <= j < encode_utf8(text).len() implies encode_utf8(text)[j]
            != 0 by {
            if j >= head.len() {
                assert(encode_utf8(text)[j] == encode_utf8(rest)[j - head.len()]);
            } else {
                assert(encode_utf8(text)[j] == head[j]);
            }
        }
    }
}

/// Name round trip: a text without the character NUL whose UTF-8 bytes fit
/// the buffer is read back from its buffer as the same text.
pub proof fn lemma_name_round_trip(text: Seq<char>)
    requires
        encode_utf8(text).len() <= 32,
        forall|i: int| 0 <= i < text.len() ==> text[i] as u32 != 0,
    ensures
        retainer_text(name_buffer(encode_utf8(text))) == Some(text),
{
    lemma_utf8_without_zero(text);
    lemma_text_of_name_buffer(encode_utf8(text));
    encode_utf8_valid_utf8(text);
    encode_utf8_decode_utf8(text);
}

} // verus!
