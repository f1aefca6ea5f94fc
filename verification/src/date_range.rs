//! Dates in a binary property list, and whether the XML form can print them.
//!
//! The XML form prints a date with a four-digit year, so it has no way to
//! write a date before the year 0 or after the year 9999. The binary form
//! holds every date as an object of nine bytes: a marker, then the seconds
//! since the first moment of 2001 as a 64-bit float in big-endian order. The
//! objects of a document are listed in its offset table, which the 32-byte
//! trailer at its end locates.

use vstd::prelude::*;

verus! {

/// The length of the header of a binary document.
pub const HEADER_LEN: usize = 8;

/// The length of the trailer of a binary document.
pub const TRAILER_LEN: usize = 32;

/// The first byte of a date object.
pub const DATE_MARKER: u8 = 0x33;

/// The sign bit of a 64-bit float.
pub const SIGN_BIT: u64 = 0x8000_0000_0000_0000;

/// The bits of the float 252423993600: the seconds from 2001 to the first
/// moment of the year 10000.
pub const LATEST_BITS: u64 = 0x424d_62d2_3c80_0000;

/// The bits of the float 63145526400: the seconds from the first moment of
/// the year 0 to 2001.
pub const EARLIEST_BITS: u64 = 0x422d_6788_8900_0000;

/// The number that `bytes` spell in big-endian order.
pub open spec fn big_endian(bytes: Seq<u8>) -> nat
    decreases bytes.len(),
{
    if bytes.len() == 0 {
        0
    } else {
        big_endian(bytes.drop_last()) * 256 + bytes.last() as nat
    }
}

/// The number that the `width` bytes of `doc` from `start` on spell.
pub open spec fn field(doc: Seq<u8>, start: int, width: int) -> nat {
    big_endian(doc.subrange(start, start + width))
}

/// 256 to the power `n`.
pub open spec fn pow256(n: nat) -> nat
    decreases n,
{
    if n == 0 {
        1
    } else {
        256 * pow256((n - 1) as nat)
    }
}

/// Whether the float with these bits lies strictly between the two bounds:
/// after the first moment of the year 0 and before the year 10000. Floats
/// of one sign are ordered as their bits are, so no float is computed.
pub open spec fn date_bits_in_range(bits: u64) -> bool {
    if bits < SIGN_BIT {
        bits < LATEST_BITS
    } else {
        bits - SIGN_BIT < EARLIEST_BITS
    }
}

/// Where the trailer of `doc` begins.
pub open spec fn trailer_start(doc: Seq<u8>) -> int {
    doc.len() - TRAILER_LEN
}

/// The number of bytes of one entry of the offset table.
pub open spec fn offset_width(doc: Seq<u8>) -> int {
    doc[trailer_start(doc) + 6] as int
}

/// The number of objects that the trailer announces.
pub open spec fn object_count(doc: Seq<u8>) -> nat {
    field(doc, trailer_start(doc) + 8, 8)
}

/// Where the trailer says the offset table begins.
pub open spec fn table_start(doc: Seq<u8>) -> nat {
    field(doc, trailer_start(doc) + 24, 8)
}

/// Where the offset table says object `i` begins.
pub open spec fn object_start(doc: Seq<u8>, i: int) -> nat {
    field(doc, table_start(doc) + i * offset_width(doc), offset_width(doc))
}

/// Whether `doc` has room for a header and a trailer, and its offset table
/// lies before the trailer with entries of 1, 2, 4 or 8 bytes.
pub open spec fn well_framed(doc: Seq<u8>) -> bool {
    &&& doc.len() >= HEADER_LEN + TRAILER_LEN
    &&& (offset_width(doc) == 1 || offset_width(doc) == 2 || offset_width(doc) == 4
        || offset_width(doc) == 8)
    &&& table_start(doc) + object_count(doc) * offset_width(doc) <= trailer_start(doc)
}

/// Whether the object at `start` lies before the trailer and, if it is a
/// date, is whole and in range.
pub open spec fn object_in_range(doc: Seq<u8>, start: int) -> bool {
    &&& start < trailer_start(doc)
    &&& doc[start] == DATE_MARKER ==> {
        &&& start + 9 <= trailer_start(doc)
        &&& date_bits_in_range(field(doc, start + 1, 8) as u64)
    }
}

/// Whether `doc` is framed as a binary document and every date among the
/// objects that its offset table lists can be printed in the XML form.
pub open spec fn dates_in_xml_range(doc: Seq<u8>) -> bool {
    &&& well_framed(doc)
    &&& forall|i: int|
        0 <= i < object_count(doc) ==> object_in_range(doc, #[trigger] object_start(doc, i) as int)
}

/// Computes `date_bits_in_range`.
pub fn bits_in_range(bits: u64) -> (ok: bool)
    ensures
        ok == date_bits_in_range(bits),
{
    if bits < SIGN_BIT {
        bits < LATEST_BITS
    } else {
        bits - SIGN_BIT < EARLIEST_BITS
    }
}

/// Reads the `width` bytes of `doc` from `start` on as one number, or
/// `None` where `doc` ends before them or they are more than eight.
pub fn read_field(doc: &Vec<u8>, start: usize, width: usize) -> (value: Option<u64>)
    ensures
        value == if width <= 8 && start + width <= doc.len() {
            Some(field(doc@, start as int, width as int) as u64)
        } else {
            None
        },
        value matches Some(number) ==> number == field(doc@, start as int, width as int),
{
    if width > 8 || start > doc.len() || width > doc.len() - start {
        return None;
    }
    let mut number: u64 = 0;
    let mut i: usize = 0;
    proof {
        assert(doc@.subrange(start as int, start as int) =~= Seq::<u8>::empty());
        reveal_with_fuel(pow256, 9);
    }
    while i < width
        invariant
            i <= width <= 8,
            start + width <= doc.len(),
            number == field(doc@, start as int, i as int),
            number < pow256(i as nat),
        decreases width - i,
    {
        proof {
            reveal_with_fuel(pow256, 9);
            let next = doc@.subrange(start as int, start + i + 1);
            assert(next.drop_last() =~= doc@.subrange(start as int, start + i));
            assert(next.last() == doc@[start + i]);
        }
        number = number * 256 + doc[start + i] as u64;
        i = i + 1;
    }
    Some(number)
}

/// Tells whether every date of a binary document can be printed in the XML
/// form. A document that is not framed as one is refused.
pub fn dates_in_range(doc: &Vec<u8>) -> (ok: bool)
    ensures
        ok == dates_in_xml_range(doc@),
{
    let len = doc.len();
    if len < HEADER_LEN + TRAILER_LEN {
        return false;
    }
    let trailer: usize = len - TRAILER_LEN;
    let width: u8 = doc[trailer + 6];
    if !(width == 1 || width == 2 || width == 4 || width == 8) {
        return false;
    }
    let (count, table) = match (read_field(doc, trailer + 8, 8), read_field(doc, trailer + 24, 8)) {
        (Some(count), Some(table)) => (count, table),
        _ => { return false; },
    };
    if table > trailer as u64 {
        return false;
    }
    let room: u64 = trailer as u64 - table;
    if count > room / (width as u64) {
        assert(table + count * width > trailer) by (nonlinear_arith)
            requires
                count > room / (width as u64),
                room == trailer - table,
                width > 0,
        ;
        return false;
    }
    assert(table + count * width <= trailer) by (nonlinear_arith)
        requires
            count <= room / (width as u64),
            room == trailer - table,
            width > 0,
    ;
    let mut i: u64 = 0;
    while i < count
        invariant
            i <= count,
            len == doc.len(),
            trailer == trailer_start(doc@),
            width == offset_width(doc@),
            count == object_count(doc@),
            table == table_start(doc@),
            well_framed(doc@),
            forall|j: int|
                0 <= j < i ==> object_in_range(doc@, #[trigger] object_start(doc@, j) as int),
        decreases count - i,
    {
        assert(table + i * width + width <= trailer) by (nonlinear_arith)
            requires
                i < count,
                table + count * width <= trailer,
                width > 0,
        ;
        let at: u64 = table + i * (width as u64);
        let entry = read_field(doc, at as usize, width as usize);
        assert(entry matches Some(start) && start == object_start(doc@, i as int));
        let start: usize = match entry {
            Some(start) if start < trailer as u64 => start as usize,
            _ => { return false; },
        };
        if doc[start] == DATE_MARKER {
            if trailer - start < 9 {
                return false;
            }
            let bits = read_field(doc, start + 1, 8);
            assert(bits matches Some(float) && float == field(doc@, start + 1, 8));
            match bits {
                Some(float) if bits_in_range(float) => {},
                _ => { return false; },
            }
        }
        i = i + 1;
    }
    true
}

} // verus!
