//! Serialization of a property-list value to bytes in a chosen encoding.
//!
//! The documents themselves are written by `plist`. This module chooses the
//! encoding, turns the writer's failures into its own, and keeps from the
//! XML writer every value with a date that it cannot print: it writes the
//! binary form first and looks at the dates there.

use vstd::prelude::*;
use crate::date_range::{dates_in_range, dates_in_xml_range};
use crate::plist_api::{
    binary_document, binary_magic, failure_is_io, starts_with, write_binary, write_xml,
    xml_declaration_start, xml_document,
};

verus! {

/// The encoding that a caller asks for.
#[derive(Clone, Copy, Debug, PartialEq, Eq, Structural)]
pub enum PlistFormat {
    /// The XML text form.
    Xml,
    /// The compact binary form.
    Binary,
    /// Whichever of the two the platform prefers: the binary form where it
    /// is enabled, the XML form where it is not.
    Native,
}

/// Why a value could not be serialized.
#[derive(Clone, Copy, Debug, PartialEq, Eq, Structural)]
pub enum SerializationError {
    /// The value cannot be written in the chosen format, or the format is
    /// switched off.
    Unsupported,
    /// The byte stream failed.
    Io,
}

/// Which encodings the serializer offers.
#[derive(Clone, Copy, Debug, PartialEq, Eq, Structural)]
pub struct SerializerOptions {
    /// Whether the binary form may be written.
    pub enable_binary_format: bool,
    /// Whether `PlistFormat::Native` is recognized.
    pub enable_native_alias: bool,
}

impl PlistFormat {
    /// The concrete encoding that this format stands for under `options`,
    /// or `None` where `options` switch it off. The result is never
    /// `Native`.
    pub open spec fn resolved(self, options: SerializerOptions) -> Option<PlistFormat> {
        match self {
            PlistFormat::Xml => Some(PlistFormat::Xml),
            PlistFormat::Binary => if options.enable_binary_format {
                Some(PlistFormat::Binary)
            } else {
                None
            },
            PlistFormat::Native => if !options.enable_native_alias {
                None
            } else if options.enable_binary_format {
                Some(PlistFormat::Binary)
            } else {
                Some(PlistFormat::Xml)
            },
        }
    }

    /// Computes `resolved`.
    pub fn resolve(self, options: &SerializerOptions) -> (concrete: Option<PlistFormat>)
        ensures
            concrete == self.resolved(*options),
    {
        match self {
            PlistFormat::Xml => Some(PlistFormat::Xml),
            PlistFormat::Binary => if options.enable_binary_format {
                Some(PlistFormat::Binary)
            } else {
                None
            },
            PlistFormat::Native => if !options.enable_native_alias {
                None
            } else if options.enable_binary_format {
                Some(PlistFormat::Binary)
            } else {
                Some(PlistFormat::Xml)
            },
        }
    }
}

impl SerializerOptions {
    /// The options with every encoding switched on.
    pub open spec fn all() -> SerializerOptions {
        SerializerOptions { enable_binary_format: true, enable_native_alias: true }
    }

    /// Options with every encoding switched on.
    pub fn new() -> (options: SerializerOptions)
        ensures
            options == SerializerOptions::all(),
    {
        SerializerOptions { enable_binary_format: true, enable_native_alias: true }
    }
}

/// Whether the XML form can print every date that `value` holds: the binary
/// document of `value` lists each of them with a year from 0 to 9999.
pub open spec fn printable(value: plist::Value) -> bool {
    binary_document(value) matches Some(binary) && dates_in_xml_range(binary)
}

/// The document that serializing `value` as `format` under `options` gives,
/// or `None` where serialization fails.
pub open spec fn document(
    value: plist::Value,
    format: PlistFormat,
    options: SerializerOptions,
) -> Option<Seq<u8>> {
    match format.resolved(options) {
        Some(PlistFormat::Xml) => if printable(value) {
            xml_document(value)
        } else {
            None
        },
        Some(PlistFormat::Binary) => binary_document(value),
        _ => None,
    }
}

/// Whether the serializer itself turns the request down, before any writer
/// is asked: `options` switch the format off, or the XML form is chosen and
/// cannot print a date that the binary form of `value` holds.
pub open spec fn rejected(
    value: plist::Value,
    format: PlistFormat,
    options: SerializerOptions,
) -> bool {
    match format.resolved(options) {
        Some(PlistFormat::Xml) => binary_document(value) matches Some(binary)
            && !dates_in_xml_range(binary),
        Some(_) => false,
        None => true,
    }
}

/// The bytes with which every document of a concrete format begins.
pub open spec fn signature(format: PlistFormat) -> Seq<u8> {
    match format {
        PlistFormat::Binary => binary_magic(),
        _ => xml_declaration_start(),
    }
}

/// What an outcome holds, with the bytes of a document taken as a sequence.
pub open spec fn outcome_view(outcome: Result<Vec<u8>, SerializationError>) -> Result<
    Seq<u8>,
    SerializationError,
> {
    match outcome {
        Ok(bytes) => Ok(bytes@),
        Err(error) => Err(error),
    }
}

/// Whether `outcome` is one that serializing `value` as `format` under
/// `options` may give: the document where there is one, begun by the
/// signature of its format, and an error where there is none, which is
/// `Unsupported` where the serializer itself turns the request down.
pub open spec fn serializes_to(
    value: plist::Value,
    format: PlistFormat,
    options: SerializerOptions,
    outcome: Result<Seq<u8>, SerializationError>,
) -> bool {
    match outcome {
        Ok(bytes) => {
            &&& document(value, format, options) == Some(bytes)
            &&& format.resolved(options) matches Some(concrete) && starts_with(
                bytes,
                signature(concrete),
            )
        },
        Err(error) => {
            &&& document(value, format, options) is None
            &&& rejected(value, format, options) ==> error == SerializationError::Unsupported
        },
    }
}

/// Turns what the writer handed back into the outcome of a serialization:
/// the bytes as they are, a failure of the byte stream as `Io`, and any
/// other failure as `Unsupported`.
pub fn outcome_of(written: Result<Vec<u8>, plist::Error>) -> (outcome: Result<
    Vec<u8>,
    SerializationError,
>)
    ensures
        written matches Ok(bytes) ==> outcome == Ok::<Vec<u8>, SerializationError>(bytes),
        written matches Err(failure) ==> outcome == Err::<Vec<u8>, SerializationError>(
            if failure_is_io(failure) {
                SerializationError::Io
            } else {
                SerializationError::Unsupported
            },
        ),
{
    match written {
        Ok(bytes) => Ok(bytes),
        Err(failure) => if failure.is_io() {
            Err(SerializationError::Io)
        } else {
            Err(SerializationError::Unsupported)
        },
    }
}

/// Serializes `value` as `format` with the encodings that `options` offer.
///
/// A format that `options` switch off is turned down. For the XML form the
/// binary form is written first: where it holds a date that the XML form
/// cannot print, the value is turned down and the XML writer is not called.
pub fn serialize_with(
    value: &plist::Value,
    format: PlistFormat,
    options: &SerializerOptions,
) -> (outcome: Result<Vec<u8>, SerializationError>)
    ensures
        serializes_to(*value, format, *options, outcome_view(outcome)),
{
    match format.resolve(options) {
        Some(PlistFormat::Binary) => outcome_of(write_binary(value)),
        Some(_) => match write_binary(value) {
            Ok(binary) => if dates_in_range(&binary) {
                outcome_of(write_xml(value))
            } else {
                Err(SerializationError::Unsupported)
            },
            Err(failure) => outcome_of(Err(failure)),
        },
        None => Err(SerializationError::Unsupported),
    }
}

/// Serializes `value` as `format` with every encoding switched on.
pub fn serialize(value: &plist::Value, format: PlistFormat) -> (outcome: Result<
    Vec<u8>,
    SerializationError,
>)
    ensures
        serializes_to(*value, format, SerializerOptions::all(), outcome_view(outcome)),
{
    let options = SerializerOptions::new();
    serialize_with(value, format, &options)
}

/// Whether `after` is `before` with the document of `value` in `format`
/// behind it, byte for byte as `serialize` gives it.
pub open spec fn written_behind(
    value: plist::Value,
    format: PlistFormat,
    before: Seq<u8>,
    after: Seq<u8>,
) -> bool {
    &&& before.len() <= after.len()
    &&& after.take(before.len() as int) == before
    &&& serializes_to(value, format, SerializerOptions::all(), Ok(after.skip(before.len() as int)))
}

/// Serializes `value` as `format` with every encoding switched on, and puts
/// the document behind what `sink` holds. Where serialization fails, `sink`
/// is left as it was.
pub fn write_to(value: &plist::Value, format: PlistFormat, sink: &mut Vec<u8>) -> (outcome: Result<
    (),
    SerializationError,
>)
    ensures
        outcome is Ok ==> written_behind(*value, format, old(sink)@, final(sink)@),
        outcome matches Err(error) ==> final(sink)@ == old(sink)@ && serializes_to(
            *value,
            format,
            SerializerOptions::all(),
            Err(error),
        ),
{
    match serialize(value, format) {
        Ok(bytes) => {
            let mut bytes = bytes;
            let ghost document = bytes@;
            sink.append(&mut bytes);
            proof {
                assert(sink@.take(old(sink)@.len() as int) =~= old(sink)@);
                assert(sink@.skip(old(sink)@.len() as int) =~= document);
            }
            Ok(())
        },
        Err(error) => Err(error),
    }
}

/// Values that can be serialized to bytes.
pub trait ToBytes {
    /// Serializes `self` as `format` with every encoding switched on.
    fn to_bytes(&self, format: PlistFormat) -> Result<Vec<u8>, SerializationError>;
}

impl ToBytes for plist::Value {
    fn to_bytes(&self, format: PlistFormat) -> (outcome: Result<Vec<u8>, SerializationError>)
        ensures
            serializes_to(*self, format, SerializerOptions::all(), outcome_view(outcome)),
    {
        serialize(self, format)
    }
}

/// A format never resolves to `Native`, the XML form is always offered, and
/// with every encoding switched on each format is offered, `Native` as the
/// binary form.
pub proof fn lemma_resolved_is_concrete(format: PlistFormat, options: SerializerOptions)
    ensures
        format.resolved(options) != Some(PlistFormat::Native),
        PlistFormat::Xml.resolved(options) == Some(PlistFormat::Xml),
        format.resolved(SerializerOptions::all()) is Some,
        PlistFormat::Native.resolved(SerializerOptions::all()) == Some(PlistFormat::Binary),
{
}

/// Serialization is deterministic: two outcomes of one request agree on
/// whether there is a document, and on every byte of it.
pub proof fn lemma_serialization_is_deterministic(
    value: plist::Value,
    format: PlistFormat,
    options: SerializerOptions,
    first: Result<Seq<u8>, SerializationError>,
    second: Result<Seq<u8>, SerializationError>,
)
    requires
        serializes_to(value, format, options, first),
        serializes_to(value, format, options, second),
    ensures
        first is Ok <==> second is Ok,
        first is Ok ==> first == second,
{
}

/// The two forms of one value differ: the XML document begins with the XML
/// declaration and the binary document with the magic bytes of its format.
pub proof fn lemma_formats_differ(
    value: plist::Value,
    options: SerializerOptions,
    xml: Seq<u8>,
    binary: Seq<u8>,
)
    requires
        serializes_to(value, PlistFormat::Xml, options, Ok(xml)),
        serializes_to(value, PlistFormat::Binary, options, Ok(binary)),
    ensures
        starts_with(xml, xml_declaration_start()),
        starts_with(binary, binary_magic()),
        xml != binary,
{
    assert(xml.subrange(0, 5)[0] == 0x3cu8);
    assert(binary.subrange(0, 8)[0] == 0x62u8);
}

} // verus!
