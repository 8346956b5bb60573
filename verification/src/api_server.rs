//! The query service: from a stored blob to what a client is told.

use crate::importer::{materia_slots, record_of};
use crate::listings::{
    has_bits, lemma_flag_bits, lemma_name_round_trip, lemma_text_len_is, retainer_text,
    text_bytes, views, Listing, ListingView, IS_CRAFTED, IS_HQ, IS_ON_MANNEQUIN,
    MAX_RETAINER_NAME_LENGTH,
};
use crate::listingsdb::{known_item, snapshot_replaced, stored, Contents, Database};
use crate::stored_data;
use crate::stored_data::{read_stored_data, stored_snapshot};
use crate::universalis;
use vstd::prelude::*;
use vstd::utf8::{decode_utf8, encode_utf8, valid_utf8};

verus! {

/// The name in a record is not valid UTF-8.
#[derive(Debug, PartialEq, Eq, Clone, Copy, Structural)]
pub struct InvalidText;

/// One listing as a client sees it.
#[derive(Debug, PartialEq, Eq, Clone)]
pub struct GetItemResponseListing {
    pub is_hq: bool,
    pub is_crafted: bool,
    pub is_on_mannequin: bool,
    pub city: u8,
    pub dye_id: u16,
    pub materia_ids: [u16; 5],
    pub amount: u16,
    pub price_per_unit: u32,
    pub retainer_name: String,
}

/// The answer to a query that found a snapshot.
#[derive(Debug, PartialEq, Eq, Clone)]
pub struct GetItemResponse {
    pub last_updated: i64,
    pub listings: Vec<GetItemResponseListing>,
}

/// A rendered listing as plain values.
pub struct RenderedListing {
    pub is_hq: bool,
    pub is_crafted: bool,
    pub is_on_mannequin: bool,
    pub city: u8,
    pub dye_id: u16,
    pub materia_ids: Seq<u16>,
    pub amount: u16,
    pub price_per_unit: u32,
    pub retainer_name: Seq<char>,
}

impl View for GetItemResponseListing {
    type V = RenderedListing;

    open spec fn view(&self) -> RenderedListing {
        RenderedListing {
            is_hq: self.is_hq,
            is_crafted: self.is_crafted,
            is_on_mannequin: self.is_on_mannequin,
            city: self.city,
            dye_id: self.dye_id,
            materia_ids: self.materia_ids@,
            amount: self.amount,
            price_per_unit: self.price_per_unit,
            retainer_name: self.retainer_name@,
        }
    }
}

/// The views of a sequence of rendered listings.
pub open spec fn rendered_views(listings: Seq<GetItemResponseListing>) -> Seq<RenderedListing> {
    Seq::new(listings.len(), |i: int| listings[i]@)
}

/// What a record renders to: its three attributes as booleans, the other
/// fields as they are, and the name as text. `None` where the name is not
/// valid UTF-8.
pub open spec fn rendered(v: ListingView) -> Option<RenderedListing> {
    match retainer_text(v.retainer_name) {
        Some(name) => Some(
            RenderedListing {
                is_hq: has_bits(v.flags, IS_HQ),
                is_crafted: has_bits(v.flags, IS_CRAFTED),
                is_on_mannequin: has_bits(v.flags, IS_ON_MANNEQUIN),
                city: v.city,
                dye_id: v.dye_id,
                materia_ids: v.materia_ids,
                amount: v.amount,
                price_per_unit: v.price_per_unit,
                retainer_name: name,
            },
        ),
        None => None,
    }
}

/// What a listing set renders to: every record rendered, in the same order.
/// `None` where one of them does not render.
pub open spec fn rendered_all(listings: Seq<ListingView>) -> Option<Seq<RenderedListing>> {
    if forall|i: int| 0 <= i < listings.len() ==> rendered(#[trigger] listings[i]) is Some {
        Some(Seq::new(listings.len(), |i: int| rendered(listings[i]).unwrap()))
    } else {
        None
    }
}

/// Makes a string of bytes. Trusted: `String::from_utf8` fails exactly on
/// bytes that are not valid UTF-8, and the string it returns otherwise is
/// the text that the bytes encode.
#[verifier::external_body]
fn string_from_utf8(bytes: Vec<u8>) -> (text: Option<String>)
    ensures
        text matches Some(s) ==> valid_utf8(bytes@) && s@ == decode_utf8(bytes@),
        text is None ==> !valid_utf8(bytes@),
{
    match String::from_utf8(bytes) {
        Ok(text) => Some(text),
        Err(_) => None,
    }
}

/// The name in a name buffer as text: the bytes before the first zero byte,
/// or the whole buffer where there is none. Fails exactly when those bytes
/// are not valid UTF-8.
pub fn as_string(retainer_name: &[u8; 32]) -> (result: Result<String, InvalidText>)
    ensures
        match result {
            Ok(text) => retainer_text(retainer_name@) == Some(text@),
            Err(_) => retainer_text(retainer_name@) is None,
        },
{
    let mut length: usize = 0;
    while length < MAX_RETAINER_NAME_LENGTH && retainer_name[length] != 0
        invariant
            length <= 32,
            forall|i: int| 0 <= i < length ==> retainer_name@[i] != 0,
        decreases 32 - length,
    {
        length += 1;
    }
    proof {
        lemma_text_len_is(retainer_name@, length as int);
    }
    let mut bytes: Vec<u8> = Vec::with_capacity(length);
    for i in 0..length
        invariant
            length <= 32,
            bytes@ == retainer_name@.take(i as int),
    {
        bytes.push(retainer_name[i]);
        proof {
            assert(bytes@ =~= retainer_name@.take(i + 1));
        }
    }
    assert(bytes@ == text_bytes(retainer_name@));
    match string_from_utf8(bytes) {
        Some(text) => Ok(text),
        None => Err(InvalidText),
    }
}

/// Renders one record for a client.
pub fn convert_to_get_item_response_listing(listing: &Listing) -> (result: Result<
    GetItemResponseListing,
    InvalidText,
>)
    ensures
        match result {
            Ok(response) => rendered(listing@) == Some(response@),
            Err(_) => rendered(listing@) is None,
        },
{
    let retainer_name = match as_string(&listing.retainer_name) {
        Ok(text) => text,
        Err(e) => {
            return Err(e);
        },
    };
    Ok(
        GetItemResponseListing {
            is_hq: listing.flags.is_hq(),
            is_crafted: listing.flags.is_crafted(),
            is_on_mannequin: listing.flags.is_on_mannequin(),
            city: listing.city,
            dye_id: listing.dye_id,
            materia_ids: listing.materia_ids,
            amount: listing.amount,
            price_per_unit: listing.price_per_unit,
            retainer_name,
        },
    )
}

/// Renders a listing set: all of it or nothing.
pub fn render_listings(listings: &[Listing]) -> (result: Result<
    Vec<GetItemResponseListing>,
    InvalidText,
>)
    ensures
        match result {
            Ok(responses) => rendered_all(views(listings@)) == Some(rendered_views(responses@)),
            Err(_) => rendered_all(views(listings@)) is None,
        },
{
    let mut responses: Vec<GetItemResponseListing> = Vec::with_capacity(listings.len());
    for i in 0..listings.len()
        invariant
            responses@.len() == i,
            forall|k: int|
                0 <= k < i ==> rendered(listings@[k]@) == Some((#[trigger] responses@[k])@),
    {
        match convert_to_get_item_response_listing(&listings[i]) {
            Ok(response) => {
                responses.push(response);
            },
            Err(e) => {
                proof {
                    assert(views(listings@)[i as int] == listings@[i as int]@);
                }
                return Err(e);
            },
        }
    }
    proof {
        let all = views(listings@);
        assert forall|k: int| 0 <= k < all.len() implies rendered(#[trigger] all[k]) is Some by {
            assert(rendered(listings@[k]@) == Some(responses@[k]@));
        }
        assert(rendered_all(all).unwrap() =~= rendered_views(responses@));
    }
    Ok(responses)
}

/// What a client is told.
#[derive(Debug, PartialEq, Eq, Clone)]
pub enum Response {
    /// The snapshot of the pair.
    Found(GetItemResponse),
    /// Nothing is stored for the item, in any world.
    UnknownItem,
    /// The item is known, but nothing is stored for the world.
    UnknownWorld,
    /// Nothing is stored for the world, and whether the item is known could
    /// not be found out.
    UnknownWorldUnchecked,
    /// The store could not be read.
    StoreFailed,
    /// What is stored for the pair cannot be unwrapped, decoded or rendered.
    CorruptData,
}

impl Response {
    /// The HTTP status of the response.
    pub fn status_code(&self) -> (code: u16)
        ensures
            code == match *self {
                Response::Found(_) => 200u16,
                Response::UnknownItem => 404u16,
                Response::UnknownWorld => 404u16,
                Response::UnknownWorldUnchecked => 404u16,
                Response::StoreFailed => 500u16,
                Response::CorruptData => 500u16,
            },
    {
        match self {
            Response::Found(_) => 200,
            Response::UnknownItem | Response::UnknownWorld | Response::UnknownWorldUnchecked => 404,
            Response::StoreFailed | Response::CorruptData => 500,
        }
    }

    /// The text of a response that carries no snapshot.
    pub fn message(&self) -> (text: Option<&'static str>)
        ensures
            match *self {
                Response::Found(_) => text is None,
                Response::UnknownItem => text == Some("No data for this item."),
                Response::UnknownWorld => text == Some("No data for this world."),
                Response::UnknownWorldUnchecked => text == Some(
                    "No data for this world. But a database error occurred during existence check for item.",
                ),
                Response::StoreFailed => text == Some("Failed to get data from database."),
                Response::CorruptData => text == Some(
                    "Failed to decompress and parse stored listings.",
                ),
            },
    {
        match self {
            Response::Found(_) => None,
            Response::UnknownItem => Some("No data for this item."),
            Response::UnknownWorld => Some("No data for this world."),
            Response::UnknownWorldUnchecked => Some(
                "No data for this world. But a database error occurred during existence check for item.",
            ),
            Response::StoreFailed => Some("Failed to get data from database."),
            Response::CorruptData => Some("Failed to decompress and parse stored listings."),
        }
    }
}

/// Whether `response` carries exactly the snapshot `(last_updated, listings)`,
/// every record rendered.
pub open spec fn carries(
    response: Response,
    last_updated: i64,
    listings: Seq<ListingView>,
) -> bool {
    &&& response matches Response::Found(found)
    &&& found.last_updated == last_updated
    &&& rendered_all(listings) == Some(rendered_views(found.listings@))
}

/// The response to a snapshot that was read, or failed to be read, from a
/// blob: all of the snapshot rendered, or `CorruptData`.
pub fn respond(snapshot: Result<(i64, Vec<Listing>), stored_data::Error>) -> (response: Response)
    ensures
        match snapshot {
            Ok((last_updated, listings)) => if rendered_all(views(listings@)) is Some {
                carries(response, last_updated, views(listings@))
            } else {
                response == Response::CorruptData
            },
            Err(_) => response == Response::CorruptData,
        },
{
    match snapshot {
        Ok((last_updated, listings)) => match render_listings(listings.as_slice()) {
            Ok(rendered) => Response::Found(GetItemResponse { last_updated, listings: rendered }),
            Err(_) => Response::CorruptData,
        },
        Err(_) => Response::CorruptData,
    }
}

/// Whether `response` is the answer to a pair that holds `blob`: the
/// snapshot of the blob, every record rendered, where the blob holds a
/// snapshot that renders, and `CorruptData` for every other blob.
pub open spec fn answers_blob(response: Response, blob: Seq<u8>) -> bool {
    match stored_snapshot(blob) {
        Some((last_updated, listings)) => if rendered_all(listings) is Some {
            carries(response, last_updated, listings)
        } else {
            response == Response::CorruptData
        },
        None => response == Response::CorruptData,
    }
}

/// The response to a blob that the store held.
pub fn render_stored_data(blob: &[u8]) -> (response: Response)
    ensures
        answers_blob(response, blob@),
{
    respond(read_stored_data(blob))
}

/// What reading the blob of a pair gave.
#[derive(Debug, PartialEq, Eq, Clone)]
pub enum Lookup {
    /// The pair has this blob.
    Present(Vec<u8>),
    /// The pair has no blob.
    Absent,
    /// The store could not be read.
    Failed,
}

/// What asking the store for an item gave.
#[derive(Debug, PartialEq, Eq, Clone, Copy, Structural)]
pub enum Existence {
    /// Some world of the item is stored.
    Known,
    /// No world of the item is stored.
    Unknown,
    /// The store could not be asked.
    Failed,
}

/// What a query does after the blob was looked up.
#[derive(Debug, PartialEq, Eq, Clone)]
pub enum Step {
    /// Answer with this response.
    Answer(Response),
    /// Ask the store whether the item is known, then answer with
    /// [`after_existence`].
    CheckItem,
}

/// The first step of a query, once the blob of the pair was looked up: a
/// blob is rendered, a failed lookup is answered at once, and an absent pair
/// asks for the existence check.
pub fn after_lookup(lookup: Lookup) -> (step: Step)
    ensures
        match lookup {
            Lookup::Present(blob) => {
                &&& step matches Step::Answer(response)
                &&& answers_blob(response, blob@)
            },
            Lookup::Absent => step == Step::CheckItem,
            Lookup::Failed => step == Step::Answer(Response::StoreFailed),
        },
{
    match lookup {
        Lookup::Present(blob) => Step::Answer(render_stored_data(blob.as_slice())),
        Lookup::Absent => Step::CheckItem,
        Lookup::Failed => Step::Answer(Response::StoreFailed),
    }
}

/// The answer for an absent pair, once the store was asked for the item. A
/// failed check does not block the answer.
pub fn after_existence(existence: Existence) -> (response: Response)
    ensures
        response == match existence {
            Existence::Known => Response::UnknownWorld,
            Existence::Unknown => Response::UnknownItem,
            Existence::Failed => Response::UnknownWorldUnchecked,
        },
{
    match existence {
        Existence::Known => Response::UnknownWorld,
        Existence::Unknown => Response::UnknownItem,
        Existence::Failed => Response::UnknownWorldUnchecked,
    }
}

/// Answers a query for the pair `(item, world)` from a store in memory.
pub fn get_item(db: &Database, item: u16, world: u16) -> (response: Response)
    ensures
        match stored(db@, item, world) {
            Some(blob) => answers_blob(response, blob),
            None => response == if known_item(db@, item) {
                Response::UnknownWorld
            } else {
                Response::UnknownItem
            },
        },
{
    let lookup = match db.get(item, world) {
        Ok(blob) => Lookup::Present(blob),
        Err(_) => Lookup::Absent,
    };
    match after_lookup(lookup) {
        Step::Answer(response) => response,
        Step::CheckItem => after_existence(
            if db.has_item(item) {
                Existence::Known
            } else {
                Existence::Unknown
            },
        ),
    }
}

/// What is ingested is what is served: the record of a listing of the feed
/// renders to the listing's own attributes, numbers and materia slots, and,
/// for a name without the character NUL whose UTF-8 bytes fit the name
/// buffer, to the listing's own name.
pub proof fn lemma_served_as_ingested(listing: universalis::Listing)
    requires
        encode_utf8(listing.retainer_name@).len() <= MAX_RETAINER_NAME_LENGTH,
        forall|i: int|
            0 <= i < listing.retainer_name@.len() ==> listing.retainer_name@[i] as u32 != 0,
    ensures
        rendered(record_of(listing)) == Some(
            RenderedListing {
                is_hq: listing.is_hq,
                is_crafted: listing.is_crafted,
                is_on_mannequin: listing.is_on_mannequin,
                city: listing.city,
                dye_id: listing.dye_id,
                materia_ids: materia_slots(listing.materia@),
                amount: listing.amount,
                price_per_unit: listing.price_per_unit,
                retainer_name: listing.retainer_name@,
            },
        ),
{
    lemma_flag_bits(listing.is_hq, listing.is_crafted, listing.is_on_mannequin);
    lemma_name_round_trip(listing.retainer_name@);
}

/// Query after ingestion: a pair whose snapshot was replaced is answered
/// with that snapshot, whenever its records render.
pub proof fn lemma_query_after_update(
    before: Contents,
    after: Contents,
    item: u16,
    world: u16,
    now: i64,
    records: Seq<ListingView>,
    response: Response,
)
    requires
        snapshot_replaced(before, after, item, world, now, records),
        rendered_all(records) is Some,
        stored(after, item, world) matches Some(blob) && answers_blob(response, blob),
    ensures
        carries(response, now, records),
{
}

} // verus!
