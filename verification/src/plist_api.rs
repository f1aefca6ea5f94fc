//! The items of the `plist` crate that this library builds on.
//!
//! No contract in this file is proved: each is taken from the documentation
//! and source of `plist` and is believed by the verifier. What a dictionary
//! holds and what a writer gives are named here without a definition, and
//! the contracts say of those names what `plist` does.

use vstd::prelude::*;
use crate::date_range::dates_in_xml_range;

verus! {

/// `plist::Dictionary`, an insertion-ordered map from string keys to values.
#[verifier::external_type_specification]
#[verifier::external_body]
pub struct ExDictionary(plist::Dictionary);

/// `plist::Value`, any property-list value. It is carried through unread.
#[verifier::external_type_specification]
#[verifier::external_body]
pub struct ExValue(plist::Value);

/// `plist::Error`, the failure of a `plist` operation.
#[verifier::external_type_specification]
#[verifier::external_body]
pub struct ExError(plist::Error);

/// The key-value pairs that a dictionary holds.
pub uninterp spec fn dictionary_entries(d: plist::Dictionary) -> Map<Seq<char>, plist::Value>;

/// The keys of a dictionary in the order in which it walks them.
pub uninterp spec fn dictionary_keys(d: plist::Dictionary) -> Seq<Seq<char>>;

/// The XML document that `plist` writes for a value, or `None` where it
/// refuses the value.
pub uninterp spec fn xml_document(value: plist::Value) -> Option<Seq<u8>>;

/// The binary document that `plist` writes for a value, or `None` where it
/// refuses the value.
pub uninterp spec fn binary_document(value: plist::Value) -> Option<Seq<u8>>;

/// Whether a failure came from reading or writing a byte stream.
pub uninterp spec fn failure_is_io(failure: plist::Error) -> bool;

/// The value stored under `key`, if there is one.
pub open spec fn lookup(entries: Map<Seq<char>, plist::Value>, key: Seq<char>) -> Option<
    plist::Value,
> {
    if entries.contains_key(key) {
        Some(entries[key])
    } else {
        None
    }
}

/// The key order after an insertion under `key`: a key that has an entry
/// keeps its place, a new key goes last.
pub open spec fn keys_after_insert(
    entries: Map<Seq<char>, plist::Value>,
    keys: Seq<Seq<char>>,
    key: Seq<char>,
) -> Seq<Seq<char>> {
    if entries.contains_key(key) {
        keys
    } else {
        keys.push(key)
    }
}

/// Whether `bytes` begins with `prefix`.
pub open spec fn starts_with(bytes: Seq<u8>, prefix: Seq<u8>) -> bool {
    prefix.len() <= bytes.len() && bytes.subrange(0, prefix.len() as int) == prefix
}

/// The bytes `<?xml`, with which every XML property list begins.
pub open spec fn xml_declaration_start() -> Seq<u8> {
    seq![0x3cu8, 0x3fu8, 0x78u8, 0x6du8, 0x6cu8]
}

/// The bytes `bplist00`, with which every binary property list begins.
pub open spec fn binary_magic() -> Seq<u8> {
    seq![0x62u8, 0x70u8, 0x6cu8, 0x69u8, 0x73u8, 0x74u8, 0x30u8, 0x30u8]
}

/// `plist::Dictionary::new` makes a dictionary without entries.
pub assume_specification[ plist::Dictionary::new ]() -> (d: plist::Dictionary)
    ensures
        dictionary_entries(d) == (Map::<Seq<char>, plist::Value>::empty()),
        dictionary_keys(d) == Seq::<Seq<char>>::empty(),
;

/// `plist::Dictionary::insert` stores `v` under `k` and hands back the value
/// that `k` had before, if any. A key that was present keeps its place in the
/// order; a new key is placed last.
pub assume_specification[ plist::Dictionary::insert ](
    d: &mut plist::Dictionary,
    k: String,
    v: plist::Value,
) -> (previous: Option<plist::Value>)
    ensures
        dictionary_entries(*final(d)) == dictionary_entries(*old(d)).insert(k@, v),
        dictionary_keys(*final(d)) == keys_after_insert(
            dictionary_entries(*old(d)),
            dictionary_keys(*old(d)),
            k@,
        ),
        previous == lookup(dictionary_entries(*old(d)), k@),
;

/// `plist::Dictionary::get` borrows the value stored under `key`, if any.
pub assume_specification<'a>[ plist::Dictionary::get ](
    d: &'a plist::Dictionary,
    key: &str,
) -> (found: Option<&'a plist::Value>)
    ensures
        found matches Some(value) ==> lookup(dictionary_entries(*d), key@) == Some(*value),
        found is None <==> lookup(dictionary_entries(*d), key@) is None,
;

/// Cloning a `plist::Value` gives an equal value.
pub assume_specification[ <plist::Value as Clone>::clone ](v: &plist::Value) -> (copy:
    plist::Value)
    ensures
        copy == *v,
;

/// `plist::Error::is_io` tells whether the failure came from the byte stream.
pub assume_specification[ plist::Error::is_io ](failure: &plist::Error) -> (io: bool)
    ensures
        io == failure_is_io(*failure),
;

/// `plist::Value::to_writer_xml` into a fresh buffer. The same value always
/// gives the same document, and a document that is written begins with the
/// XML declaration.
///
/// The writer prints a date with `plist::Date::to_xml_format`, which panics
/// unless the year of the date is one of 0 to 9999. The binary writer puts
/// each date of a value into its document as an object that the offset
/// table lists: the marker `0x33`, then the seconds since 2001 as a float,
/// which is never rounded past a whole second. So a value whose binary
/// document holds only dates strictly inside those years has no date that
/// makes the XML writer panic, and the precondition admits no other value.
#[verifier::external_body]
pub(crate) fn write_xml(value: &plist::Value) -> (written: Result<Vec<u8>, plist::Error>)
    requires
        binary_document(*value) matches Some(binary) && dates_in_xml_range(binary),
    ensures
        written matches Ok(bytes) ==> xml_document(*value) == Some(bytes@),
        written matches Ok(bytes) ==> starts_with(bytes@, xml_declaration_start()),
        written is Err ==> xml_document(*value) is None,
{
    let mut buffer: Vec<u8> = Vec::new();
    value.to_writer_xml(&mut buffer).map(|_| buffer)
}

/// `plist::Value::to_writer_binary` into a fresh buffer. The same value
/// always gives the same document, and a document that is written begins
/// with the magic bytes of the binary format.
#[verifier::external_body]
pub(crate) fn write_binary(value: &plist::Value) -> (written: Result<Vec<u8>, plist::Error>)
    ensures
        written matches Ok(bytes) ==> binary_document(*value) == Some(bytes@),
        written matches Ok(bytes) ==> starts_with(bytes@, binary_magic()),
        written is Err ==> binary_document(*value) is None,
{
    let mut buffer: Vec<u8> = Vec::new();
    value.to_writer_binary(&mut buffer).map(|_| buffer)
}

} // verus!
