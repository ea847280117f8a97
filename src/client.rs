//! The request/response exchange that a client task runs over one
//! connection: it sends one encoded record, closes its outbound direction,
//! reads the reply to the end and takes it as text. The sending and reading
//! are the connection futures' work; what is decided around them is here.
use crate::data::{encodable, encode_record, string_from_utf8, Data, DataError, Record};
use vstd::prelude::*;
use vstd::utf8::{decode_utf8, valid_utf8};

verus! {

/// The bytes of the request that carries these three values.
pub fn encode_request(field1: u32, field2: u16, field3: String) -> (r: Result<Vec<u8>, DataError>)
    ensures
        r is Ok <==> encodable(Record { field1, field2, field3: field3@ }),
        r matches Ok(v) ==> v@ == encode_record(Record { field1, field2, field3: field3@ }),
        r matches Err(e) ==> e == DataError::TextTooLong,
{
    let message = Data { field1, field2, field3 };
    message.serialize()
}

/// The reply as text: the characters its bytes encode where they are
/// well-formed UTF-8, else `InvalidText`.
pub fn decode_reply(bytes: Vec<u8>) -> (r: Result<String, DataError>)
    ensures
        r is Ok <==> valid_utf8(bytes@),
        r matches Ok(s) ==> s@ == decode_utf8(bytes@),
        r matches Err(e) ==> e == DataError::InvalidText,
{
    match string_from_utf8(bytes) {
        Some(s) => Ok(s),
        None => Err(DataError::InvalidText),
    }
}

} // verus!
