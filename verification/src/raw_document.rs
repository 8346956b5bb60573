//! BSON documents of string fields, built by the `bson` crate behind
//! contracts that are trusted. The spec functions spell out the bytes of such
//! a document as the BSON format defines them.

use crate::little_endian::le_bytes;
use bson::RawDocumentBuf;
use vstd::prelude::*;
use vstd::utf8::encode_utf8;

verus! {

/// The type code of a UTF-8 string element.
pub const ELEMENT_TYPE_STRING: u8 = 0x02;

/// The bytes of a string element: its type, its key as a C string, then the
/// value with its length in front and a zero byte behind. The length counts
/// that zero byte.
pub open spec fn string_element(key: Seq<char>, value: Seq<char>) -> Seq<u8> {
    seq![ELEMENT_TYPE_STRING] + encode_utf8(key) + seq![0u8] + le_bytes(
        (encode_utf8(value).len() + 1) as nat,
        4,
    ) + encode_utf8(value) + seq![0u8]
}

/// The bytes of the document with these elements: its whole length in four
/// bytes, the elements, and a zero byte.
pub open spec fn document(elements: Seq<u8>) -> Seq<u8> {
    le_bytes((elements.len() + 5) as nat, 4) + elements + seq![0u8]
}

/// The elements of a document: its bytes without the length in front and the
/// zero byte behind.
pub open spec fn elements_of(document: Seq<u8>) -> Seq<u8> {
    document.subrange(4, document.len() - 1)
}

/// Whether `text` is free of the character NUL.
pub open spec fn without_nul(text: Seq<char>) -> bool {
    forall|i: int| 0 <= i < text.len() ==> text[i] as u32 != 0
}

#[verifier::external_type_specification]
#[verifier::external_body]
pub struct ExRawDocumentBuf(RawDocumentBuf);

/// The bytes that a document buffer holds.
pub uninterp spec fn document_bytes(buffer: RawDocumentBuf) -> Seq<u8>;

/// An empty document. Trusted: `RawDocumentBuf::new` holds the five bytes of
/// the document without elements.
#[verifier::external_body]
pub(crate) fn new_document() -> (buffer: RawDocumentBuf)
    ensures
        document_bytes(buffer) == document(Seq::empty()),
{
    RawDocumentBuf::new()
}

/// Appends a string element. Trusted: `RawDocumentBuf::append` with a string
/// value puts the element behind those that the buffer holds and writes the
/// new length in front. It panics on a key with the character NUL; lengths
/// are written as `i32`, so all of it has to stay below that limit.
#[verifier::external_body]
pub(crate) fn append_string(buffer: &mut RawDocumentBuf, key: &str, value: &str)
    requires
        without_nul(key@),
        document_bytes(*old(buffer)).len() + string_element(key@, value@).len() <= i32::MAX,
    ensures
        document_bytes(*final(buffer)) == document(
            elements_of(document_bytes(*old(buffer))) + string_element(key@, value@),
        ),
{
    buffer.append(key, value);
}

/// Hands out the bytes. Trusted: `RawDocumentBuf::into_bytes` returns the
/// bytes that the buffer holds.
#[verifier::external_body]
pub(crate) fn into_bytes(buffer: RawDocumentBuf) -> (bytes: Vec<u8>)
    ensures
        bytes@ == document_bytes(buffer),
{
    buffer.into_bytes()
}

} // verus!
