//! The fixed-layout record carried over a connection: a 32-bit unsigned
//! field, a 16-bit unsigned field, then a 32-bit byte length and that many
//! bytes of UTF-8 text. Integers are written in the machine's byte order.
use vstd::bytes::*;
use vstd::endian::{endianness, Endian};
use vstd::prelude::*;
use vstd::slice::{slice_subrange, slice_to_vec};
use vstd::utf8::*;

verus! {

/// The bytes of `x` in the machine's byte order.
pub open spec fn ne_bytes_u32(x: u32) -> Seq<u8> {
    match endianness() {
        Endian::Little => spec_u32_to_le_bytes(x),
        Endian::Big => spec_u32_to_le_bytes(x).reverse(),
    }
}

/// The bytes of `x` in the machine's byte order.
pub open spec fn ne_bytes_u16(x: u16) -> Seq<u8> {
    match endianness() {
        Endian::Little => spec_u16_to_le_bytes(x),
        Endian::Big => spec_u16_to_le_bytes(x).reverse(),
    }
}

/// The integer that four bytes in the machine's byte order stand for.
pub open spec fn ne_value_u32(b: Seq<u8>) -> u32 {
    match endianness() {
        Endian::Little => spec_u32_from_le_bytes(b),
        Endian::Big => spec_u32_from_le_bytes(b.reverse()),
    }
}

/// The integer that two bytes in the machine's byte order stand for.
pub open spec fn ne_value_u16(b: Seq<u8>) -> u16 {
    match endianness() {
        Endian::Little => spec_u16_from_le_bytes(b),
        Endian::Big => spec_u16_from_le_bytes(b.reverse()),
    }
}

/// Relies on `u32::to_ne_bytes`: the memory representation of `x` in the
/// machine's byte order.
#[verifier::external_body]
fn u32_to_ne(x: u32) -> (r: [u8; 4])
    ensures
        r@ == ne_bytes_u32(x),
{
    x.to_ne_bytes()
}

/// Relies on `u16::to_ne_bytes`: the memory representation of `x` in the
/// machine's byte order.
#[verifier::external_body]
fn u16_to_ne(x: u16) -> (r: [u8; 2])
    ensures
        r@ == ne_bytes_u16(x),
{
    x.to_ne_bytes()
}

/// Relies on `u32::from_ne_bytes`: the integer whose memory representation in
/// the machine's byte order is `b`.
#[verifier::external_body]
fn u32_from_ne(b: [u8; 4]) -> (r: u32)
    ensures
        r == ne_value_u32(b@),
{
    u32::from_ne_bytes(b)
}

/// Relies on `u16::from_ne_bytes`: the integer whose memory representation in
/// the machine's byte order is `b`.
#[verifier::external_body]
fn u16_from_ne(b: [u8; 2]) -> (r: u16)
    ensures
        r == ne_value_u16(b@),
{
    u16::from_ne_bytes(b)
}

/// Relies on `String::from_utf8`: it accepts exactly the well-formed UTF-8
/// byte sequences and then holds the characters they encode.
#[verifier::external_body]
pub(crate) fn string_from_utf8(v: Vec<u8>) -> (r: Option<String>)
    ensures
        r is Some <==> valid_utf8(v@),
        r is Some ==> r->Some_0@ == decode_utf8(v@),
{
    String::from_utf8(v).ok()
}


/// What a record holds, with its text as characters.
pub struct Record {
    pub field1: u32,
    pub field2: u16,
    pub field3: Seq<char>,
}

/// Why a record could not be written or read.
#[derive(Debug, Clone, Copy, PartialEq, Eq, Structural)]
pub enum DataError {
    /// The text is longer than a 32-bit length can state.
    TextTooLong,
    /// Fewer bytes remain than the fixed-width fields need.
    ShortField,
    /// Fewer bytes remain than the stated text length.
    ShortText,
    /// The text bytes are not well-formed UTF-8.
    InvalidText,
}

/// The width of the fixed part: the two fields and the text length.
pub const HEADER_LEN: usize = 10;

/// Whether the text of `r` fits a 32-bit length.
pub open spec fn encodable(r: Record) -> bool {
    encode_utf8(r.field3).len() <= u32::MAX
}

/// The bytes that stand for `r`.
pub open spec fn encode_record(r: Record) -> Seq<u8> {
    let text = encode_utf8(r.field3);
    ne_bytes_u32(r.field1) + ne_bytes_u16(r.field2) + ne_bytes_u32(text.len() as u32) + text
}

/// The text length that the fixed part of `b` states.
pub open spec fn stated_len(b: Seq<u8>) -> nat {
    ne_value_u32(b.subrange(6, 10)) as nat
}

/// Reading one record from the front of `b`: the record and the number of
/// bytes it took, or why there is none.
pub open spec fn decode_record(b: Seq<u8>) -> Result<(Record, nat), DataError> {
    if b.len() < HEADER_LEN {
        Err(DataError::ShortField)
    } else if b.len() < HEADER_LEN + stated_len(b) {
        Err(DataError::ShortText)
    } else {
        let end = HEADER_LEN + stated_len(b);
        let text = b.subrange(HEADER_LEN as int, end as int);
        if !valid_utf8(text) {
            Err(DataError::InvalidText)
        } else {
            Ok(
                (
                    Record {
                        field1: ne_value_u32(b.subrange(0, 4)),
                        field2: ne_value_u16(b.subrange(4, 6)),
                        field3: decode_utf8(text),
                    },
                    end as nat,
                ),
            )
        }
    }
}

proof fn lemma_reverse_twice<A>(s: Seq<A>)
    ensures
        s.reverse().reverse() == s,
{
    assert(s.reverse().reverse() =~= s);
}

proof fn lemma_ne_u32(x: u32)
    ensures
        ne_bytes_u32(x).len() == 4,
        ne_value_u32(ne_bytes_u32(x)) == x,
{
    lemma_auto_spec_u32_to_from_le_bytes();
    lemma_reverse_twice(spec_u32_to_le_bytes(x));
}

proof fn lemma_ne_u16(x: u16)
    ensures
        ne_bytes_u16(x).len() == 2,
        ne_value_u16(ne_bytes_u16(x)) == x,
{
    lemma_auto_spec_u16_to_from_le_bytes();
    lemma_reverse_twice(spec_u16_to_le_bytes(x));
}

proof fn lemma_encoding_parts(r: Record, b: Seq<u8>)
    requires
        encodable(r),
        b.len() >= HEADER_LEN,
        b.subrange(0, HEADER_LEN as int) == encode_record(r).subrange(0, HEADER_LEN as int),
    ensures
        encode_record(r).len() == HEADER_LEN + encode_utf8(r.field3).len(),
        b.subrange(0, 4) == ne_bytes_u32(r.field1),
        b.subrange(4, 6) == ne_bytes_u16(r.field2),
        stated_len(b) == encode_utf8(r.field3).len(),
{
    let text = encode_utf8(r.field3);
    let e = encode_record(r);
    lemma_ne_u32(r.field1);
    lemma_ne_u16(r.field2);
    lemma_ne_u32(text.len() as u32);
    assert(e.len() == HEADER_LEN + text.len());
    assert(b.subrange(0, 4) =~= e.subrange(0, HEADER_LEN as int).subrange(0, 4));
    assert(b.subrange(4, 6) =~= e.subrange(0, HEADER_LEN as int).subrange(4, 6));
    assert(b.subrange(6, 10) =~= e.subrange(0, HEADER_LEN as int).subrange(6, 10));
    assert(e.subrange(0, 4) =~= ne_bytes_u32(r.field1));
    assert(e.subrange(4, 6) =~= ne_bytes_u16(r.field2));
    assert(e.subrange(6, 10) =~= ne_bytes_u32(text.len() as u32));
    assert(e.subrange(0, HEADER_LEN as int).subrange(6, 10) =~= e.subrange(6, 10));
    assert(e.subrange(0, HEADER_LEN as int).subrange(0, 4) =~= e.subrange(0, 4));
    assert(e.subrange(0, HEADER_LEN as int).subrange(4, 6) =~= e.subrange(4, 6));
}

/// Decoding the bytes of a record gives back that record exactly, together
/// with the number of bytes it took, whatever bytes follow it.
pub proof fn lemma_round_trip(r: Record, tail: Seq<u8>)
    requires
        encodable(r),
    ensures
        decode_record(encode_record(r) + tail) == Ok::<(Record, nat), DataError>(
            (r, encode_record(r).len()),
        ),
{
    let text = encode_utf8(r.field3);
    let e = encode_record(r);
    let b = e + tail;
    lemma_ne_u32(r.field1);
    lemma_ne_u16(r.field2);
    lemma_ne_u32(text.len() as u32);
    assert(b.subrange(0, HEADER_LEN as int) =~= e.subrange(0, HEADER_LEN as int));
    lemma_encoding_parts(r, b);
    assert(b.subrange(HEADER_LEN as int, e.len() as int) =~= text);
    encode_utf8_valid_utf8(r.field3);
    encode_utf8_decode_utf8(r.field3);
}

/// No proper prefix of a record's bytes decodes: a cut inside the fixed part
/// reports missing fields, a cut inside the text reports missing text.
pub proof fn lemma_prefix_fails(r: Record, k: nat)
    requires
        encodable(r),
        k < encode_record(r).len(),
    ensures
        k < HEADER_LEN ==> decode_record(encode_record(r).take(k as int)) == Err::<
            (Record, nat),
            DataError,
        >(DataError::ShortField),
        k >= HEADER_LEN ==> decode_record(encode_record(r).take(k as int)) == Err::<
            (Record, nat),
            DataError,
        >(DataError::ShortText),
{
    let e = encode_record(r);
    let b = e.take(k as int);
    lemma_ne_u32(r.field1);
    lemma_ne_u16(r.field2);
    lemma_ne_u32(encode_utf8(r.field3).len() as u32);
    if k >= HEADER_LEN {
        assert(b.subrange(0, HEADER_LEN as int) =~= e.subrange(0, HEADER_LEN as int));
        lemma_encoding_parts(r, b);
    }
}

/// A read position over a borrowed byte buffer.
pub struct Cursor<'a> {
    bytes: &'a [u8],
    pos: usize,
}

impl<'a> Cursor<'a> {
    #[verifier::type_invariant]
    spec fn inv(&self) -> bool {
        self.pos <= self.bytes@.len()
    }

    /// The whole buffer.
    pub closed spec fn data(&self) -> Seq<u8> {
        self.bytes@
    }

    /// How many bytes have been read.
    pub closed spec fn pos(&self) -> nat {
        self.pos as nat
    }

    /// The bytes not read yet.
    pub open spec fn rest(&self) -> Seq<u8> {
        self.data().subrange(self.pos() as int, self.data().len() as int)
    }

    /// A cursor at the start of `bytes`.
    pub fn new(bytes: &'a [u8]) -> (r: Self)
        ensures
            r.data() == bytes@,
            r.pos() == 0,
    {
        Cursor { bytes, pos: 0 }
    }

    /// How many bytes have been read.
    pub fn position(&self) -> (r: usize)
        ensures
            r == self.pos(),
    {
        self.pos
    }

    /// How many bytes are left to read.
    pub fn remaining(&self) -> (r: usize)
        ensures
            self.pos() + r == self.data().len(),
    {
        proof {
            use_type_invariant(self);
        }
        self.bytes.len() - self.pos
    }
}

/// A record with its text held as a `String`.
pub struct Data {
    pub field1: u32,
    pub field2: u16,
    pub field3: String,
}

impl View for Data {
    type V = Record;

    open spec fn view(&self) -> Record {
        Record { field1: self.field1, field2: self.field2, field3: self.field3@ }
    }
}

impl Data {
    /// The bytes of this record: the first field, the second, the text's byte
    /// length, then the text. Fails only where that length exceeds `u32::MAX`.
    pub fn serialize(&self) -> (r: Result<Vec<u8>, DataError>)
        ensures
            r is Ok <==> encodable(self@),
            r matches Ok(v) ==> v@ == encode_record(self@),
            r matches Err(e) ==> e == DataError::TextTooLong,
    {
        let text = self.field3.as_str().as_bytes();
        if text.len() > u32::MAX as usize {
            return Err(DataError::TextTooLong);
        }
        let n = text.len() as u32;
        let mut out: Vec<u8> = Vec::new();
        out.extend_from_slice(&u32_to_ne(self.field1));
        out.extend_from_slice(&u16_to_ne(self.field2));
        out.extend_from_slice(&u32_to_ne(n));
        out.extend_from_slice(text);
        assert(out@ =~= encode_record(self@));
        Ok(out)
    }

    /// Reads one record at the cursor. On success the cursor moves past the
    /// record; on failure it stays where it was.
    pub fn deserialize(cursor: &mut Cursor) -> (r: Result<Data, DataError>)
        ensures
            final(cursor).data() == old(cursor).data(),
            match decode_record(old(cursor).rest()) {
                Ok((rec, used)) => r matches Ok(d) && d@ == rec && final(cursor).pos()
                    == old(cursor).pos() + used,
                Err(e) => r == Err::<Data, DataError>(e) && final(cursor).pos() == old(cursor).pos(),
            },
    {
        proof {
            use_type_invariant(&*cursor);
        }
        let pos = cursor.pos;
        let b = cursor.bytes;
        let ghost rest = old(cursor).rest();
        if b.len() - pos < HEADER_LEN {
            return Err(DataError::ShortField);
        }
        let f1_bytes = [b[pos], b[pos + 1], b[pos + 2], b[pos + 3]];
        let f2_bytes = [b[pos + 4], b[pos + 5]];
        assert(f1_bytes@ =~= rest.subrange(0, 4));
        assert(f2_bytes@ =~= rest.subrange(4, 6));
        let field1 = u32_from_ne(f1_bytes);
        let field2 = u16_from_ne(f2_bytes);
        let len_bytes = [b[pos + 6], b[pos + 7], b[pos + 8], b[pos + 9]];
        let n = u32_from_ne(len_bytes) as usize;
        assert(len_bytes@ =~= rest.subrange(6, 10));
        if b.len() - pos - HEADER_LEN < n {
            return Err(DataError::ShortText);
        }
        let start = pos + HEADER_LEN;
        let text = slice_to_vec(slice_subrange(b, start, start + n));
        assert(text@ =~= rest.subrange(HEADER_LEN as int, HEADER_LEN + n));
        match string_from_utf8(text) {
            None => Err(DataError::InvalidText),
            Some(field3) => {
                cursor.pos = start + n;
                Ok(Data { field1, field2, field3 })
            },
        }
    }
}

} // verus!
