use coop_runtime::client::{decode_reply, encode_request};
use coop_runtime::data::{Cursor, Data, DataError};

#[test]
fn request_payload_decodes_to_the_same_fields() {
    let bytes = encode_request(12345, 6789, "Integration Test".to_string()).unwrap();
    let mut cursor = Cursor::new(bytes.as_slice());
    let received = Data::deserialize(&mut cursor).unwrap();
    assert_eq!(received.field1, 12345);
    assert_eq!(received.field2, 6789);
    assert_eq!(received.field3, "Integration Test");
    assert_eq!(cursor.remaining(), 0);
}

#[test]
fn reply_bytes_read_as_text() {
    let reply = decode_reply(b"Data received successfully".to_vec()).unwrap();
    assert_eq!(reply, "Data received successfully");
    assert_eq!(decode_reply(Vec::new()).unwrap(), "");
}

#[test]
fn malformed_reply_is_invalid_text() {
    assert_eq!(decode_reply(vec![0x48, 0xFF, 0x49]), Err(DataError::InvalidText));
    assert_eq!(decode_reply(vec![0xC3]), Err(DataError::InvalidText));
}
